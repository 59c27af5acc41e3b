//! From the images that a log announces to the images that are shown.
//!
//! Every announcement names a figure and a file.  The files of one figure are
//! kept in the order of their announcements, the figures in the order in
//! which they were asked for or, where none were asked for, first seen.  Of
//! each figure one file is shown: the one at a given index or, by default,
//! the last, which is the figure's final state.

use vstd::prelude::*;
use crate::event::{Announcement, LogImageEvent};
use crate::text::{find, lemma_find, lemma_find_is, lemma_find_push, texts};

verus! {

/// The item at index `n`, or the last item where no index is given; `None`
/// where there is no such item.
pub open spec fn pick<T>(items: Seq<T>, n: Option<usize>) -> Option<T> {
    match n {
        Some(k) => if k < items.len() {
            Some(items[k as int])
        } else {
            None
        },
        None => if items.len() > 0 {
            Some(items.last())
        } else {
            None
        },
    }
}

/// The item at index `n`, or the last item where `n` is `None`.
pub fn nth_or_last<T>(items: &Vec<T>, n: Option<usize>) -> (r: Option<&T>)
    ensures
        match pick(items@, n) {
            Some(item) => r == Some(&item),
            None => r is None,
        },
{
    match n {
        Some(k) => if k < items.len() {
            Some(&items[k])
        } else {
            None
        },
        None => if items.len() > 0 {
            Some(&items[items.len() - 1])
        } else {
            None
        },
    }
}

/// A figure with the files announced for it so far.
pub type Track = (Seq<char>, Seq<Seq<char>>);

/// The names of the figures, in order.
pub open spec fn names_of(tracks: Seq<Track>) -> Seq<Seq<char>> {
    tracks.map_values(|t: Track| t.0)
}

/// The tracks to start with: one without files for each figure asked for.
pub open spec fn initial_tracks(names: Option<Seq<Seq<char>>>) -> Seq<Track> {
    match names {
        Some(ns) => ns.map_values(|n: Seq<char>| (n, Seq::<Seq<char>>::empty())),
        None => Seq::empty(),
    }
}

/// The tracks after one more announcement.  The file joins the first track
/// of its figure; a figure without a track gets one if figures are being
/// discovered, and is passed over otherwise.
pub open spec fn record(
    tracks: Seq<Track>,
    discover: bool,
    name: Seq<char>,
    file: Seq<char>,
) -> Seq<Track> {
    let i = find(names_of(tracks), name) as int;
    if i < tracks.len() {
        tracks.update(i, (tracks[i].0, tracks[i].1.push(file)))
    } else if discover {
        tracks.push((name, seq![file]))
    } else {
        tracks
    }
}

/// The tracks after a run of announcements, taken in order.
pub open spec fn record_all(tracks: Seq<Track>, discover: bool, events: Seq<Announcement>) -> Seq<
    Track,
>
    decreases events.len(),
{
    if events.len() == 0 {
        tracks
    } else {
        record(
            record_all(tracks, discover, events.drop_last()),
            discover,
            events.last().name,
            events.last().filename,
        )
    }
}

/// The file shown for each figure, in the order of the figures.  A figure
/// for which `pick` finds no file is left out.
pub open spec fn selection(tracks: Seq<Track>, index: Option<usize>) -> Seq<Seq<char>>
    decreases tracks.len(),
{
    if tracks.len() == 0 {
        Seq::empty()
    } else {
        let head = selection(tracks.drop_last(), index);
        match pick(tracks.last().1, index) {
            Some(file) => head.push(file),
            None => head,
        }
    }
}

/// An announcement adds the name of its figure to the tracks if figures are
/// being discovered and the name is new, and changes no name otherwise.
pub proof fn lemma_record_names(
    tracks: Seq<Track>,
    discover: bool,
    name: Seq<char>,
    file: Seq<char>,
)
    ensures
        names_of(record(tracks, discover, name, file)) == if discover && !names_of(
            tracks,
        ).contains(name) {
            names_of(tracks).push(name)
        } else {
            names_of(tracks)
        },
{
    let names = names_of(tracks);
    lemma_find(names, name);
    let i = find(names, name) as int;
    if i < tracks.len() {
        assert(names[i] == name);
        assert(names_of(record(tracks, discover, name, file)) =~= names);
    } else if discover {
        assert(names_of(record(tracks, discover, name, file)) =~= names.push(name));
    }
}

/// Where figures were asked for, exactly those are tracked, in the order in
/// which they were asked for, whatever is announced.
pub proof fn lemma_fixed_names_are_kept(names: Seq<Seq<char>>, events: Seq<Announcement>)
    ensures
        names_of(record_all(initial_tracks(Some(names)), false, events)) == names,
    decreases events.len(),
{
    let start = initial_tracks(Some(names));
    if events.len() == 0 {
        assert(names_of(start) =~= names);
    } else {
        lemma_fixed_names_are_kept(names, events.drop_last());
        lemma_record_names(
            record_all(start, false, events.drop_last()),
            false,
            events.last().name,
            events.last().filename,
        );
    }
}

/// Where figures are discovered, each is tracked once, and every figure
/// that was announced is tracked.
pub proof fn lemma_discovered_names_are_distinct(events: Seq<Announcement>)
    ensures
        names_of(record_all(initial_tracks(None), true, events)).no_duplicates(),
        forall|k: int|
            0 <= k < events.len() ==> names_of(
                record_all(initial_tracks(None), true, events),
            ).contains(#[trigger] events[k].name),
    decreases events.len(),
{
    let start = initial_tracks(None);
    let after = names_of(record_all(start, true, events));
    if events.len() == 0 {
        assert(names_of(start) =~= Seq::<Seq<char>>::empty());
    } else {
        let before = names_of(record_all(start, true, events.drop_last()));
        let name = events.last().name;
        lemma_discovered_names_are_distinct(events.drop_last());
        lemma_record_names(
            record_all(start, true, events.drop_last()),
            true,
            name,
            events.last().filename,
        );
        if !before.contains(name) {
            assert(after == before.push(name));
            assert forall|a: int, b: int| 0 <= a < after.len() && 0 <= b < after.len() && a
                != b implies after[a] != after[b] by {
                if a < before.len() && b < before.len() {
                } else if a < before.len() {
                    assert(before.contains(before[a]));
                } else {
                    assert(before.contains(before[b]));
                }
            }
            assert(after[after.len() - 1] == name);
        }
        assert forall|k: int| 0 <= k < events.len() implies after.contains(
            #[trigger] events[k].name,
        ) by {
            if k < events.len() - 1 {
                assert(events.drop_last()[k] == events[k]);
                let at = choose|j: int| 0 <= j < before.len() && before[j] == events[k].name;
                assert(after[at] == events[k].name);
            } else if before.contains(name) {
                let at = choose|j: int| 0 <= j < before.len() && before[j] == name;
                assert(after[at] == name);
            }
        }
    }
}

/// The files announced for the figure `name`, in the order of their
/// announcements.
pub open spec fn files_for(events: Seq<Announcement>, name: Seq<char>) -> Seq<Seq<char>>
    decreases events.len(),
{
    if events.len() == 0 {
        Seq::empty()
    } else if events.last().name == name {
        files_for(events.drop_last(), name).push(events.last().filename)
    } else {
        files_for(events.drop_last(), name)
    }
}

/// Each track holds what was announced for its figure: all the files of the
/// figure, in order, if it is the first track of that name, and nothing if
/// the name was asked for before.
pub open spec fn holds_announcements(tracks: Seq<Track>, events: Seq<Announcement>) -> bool {
    forall|i: int|
        0 <= i < tracks.len() ==> (#[trigger] tracks[i]).1 == if find(
            names_of(tracks),
            tracks[i].0,
        ) == i {
            files_for(events, tracks[i].0)
        } else {
            Seq::empty()
        }
}

/// A figure that was never announced has no files.
pub proof fn lemma_unannounced_has_no_files(events: Seq<Announcement>, name: Seq<char>)
    requires
        forall|k: int| 0 <= k < events.len() ==> (#[trigger] events[k]).name != name,
    ensures
        files_for(events, name) == Seq::<Seq<char>>::empty(),
    decreases events.len(),
{
    if events.len() > 0 {
        assert(events[events.len() - 1].name != name);
        assert forall|k: int| 0 <= k < events.drop_last().len() implies (
        #[trigger] events.drop_last()[k]).name != name by {
            assert(events.drop_last()[k] == events[k]);
        }
        lemma_unannounced_has_no_files(events.drop_last(), name);
    }
}

/// Scanning loses and invents nothing: after any run of announcements, the
/// track of a figure holds exactly the files that were announced for it, in
/// the order in which they were announced.
pub proof fn lemma_tracks_hold_announcements(
    names: Option<Seq<Seq<char>>>,
    events: Seq<Announcement>,
)
    ensures
        holds_announcements(record_all(initial_tracks(names), names is None, events), events),
    decreases events.len(),
{
    let start = initial_tracks(names);
    let discover = names is None;
    let after = record_all(start, discover, events);
    if events.len() == 0 {
        assert forall|i: int| 0 <= i < after.len() implies (#[trigger] after[i]).1 == if find(
            names_of(after),
            after[i].0,
        ) == i {
            files_for(events, after[i].0)
        } else {
            Seq::empty()
        } by {}
    } else {
        let prev = events.drop_last();
        let name = events.last().name;
        let file = events.last().filename;
        let before = record_all(start, discover, prev);
        let known = names_of(before);
        let at = find(known, name) as int;
        lemma_tracks_hold_announcements(names, prev);
        lemma_record_names(before, discover, name, file);
        lemma_find(known, name);
        if at >= before.len() && discover {
            lemma_discovered_names_are_distinct(prev);
            assert forall|k: int| 0 <= k < prev.len() implies (#[trigger] prev[k]).name
                != name by {
                if prev[k].name == name {
                    let j = choose|j: int| 0 <= j < known.len() && known[j] == prev[k].name;
                    assert(known[j] != name);
                }
            }
            lemma_unannounced_has_no_files(prev, name);
        }
        assert forall|i: int| 0 <= i < after.len() implies (#[trigger] after[i]).1 == if find(
            names_of(after),
            after[i].0,
        ) == i {
            files_for(events, after[i].0)
        } else {
            Seq::empty()
        } by {
            if i < before.len() {
                assert(known[i] == before[i].0);
                lemma_find(known, before[i].0);
                lemma_find_push(known, name, before[i].0);
                if i != at {
                    assert(after[i] == before[i]);
                }
            } else {
                lemma_find_push(known, name, name);
            }
        }
    }
}

/// Where every figure has a file to show, one file is shown for each, in the
/// order of the figures.
pub proof fn lemma_selection_of_all(tracks: Seq<Track>, index: Option<usize>)
    requires
        forall|i: int| 0 <= i < tracks.len() ==> pick((#[trigger] tracks[i]).1, index) is Some,
    ensures
        selection(tracks, index).len() == tracks.len(),
        forall|i: int|
            0 <= i < tracks.len() ==> #[trigger] selection(tracks, index)[i] == pick(
                tracks[i].1,
                index,
            )->Some_0,
    decreases tracks.len(),
{
    if tracks.len() > 0 {
        let head = tracks.drop_last();
        assert forall|i: int| 0 <= i < head.len() implies pick((#[trigger] head[i]).1, index)
            is Some by {
            assert(head[i] == tracks[i]);
        }
        lemma_selection_of_all(head, index);
        assert(pick(tracks[tracks.len() - 1].1, index) is Some);
        assert forall|i: int| 0 <= i < tracks.len() implies #[trigger] selection(tracks, index)[i]
            == pick(tracks[i].1, index)->Some_0 by {
            if i < head.len() {
                assert(head[i] == tracks[i]);
                assert(selection(tracks, index)[i] == selection(head, index)[i]);
            }
        }
    }
}

/// A figure that was discovered has a file.
pub proof fn lemma_discovered_tracks_have_files(events: Seq<Announcement>)
    ensures
        forall|i: int|
            0 <= i < record_all(initial_tracks(None), true, events).len() ==> (
            #[trigger] record_all(initial_tracks(None), true, events)[i]).1.len() > 0,
    decreases events.len(),
{
    if events.len() > 0 {
        let before = record_all(initial_tracks(None), true, events.drop_last());
        let after = record_all(initial_tracks(None), true, events);
        lemma_discovered_tracks_have_files(events.drop_last());
        lemma_find(names_of(before), events.last().name);
        assert forall|i: int| 0 <= i < after.len() implies (#[trigger] after[i]).1.len() > 0 by {
            if i < before.len() && i != find(names_of(before), events.last().name) {
                assert(after[i] == before[i]);
            }
        }
    }
}

/// Where no figure is asked for and no index is given, what is shown is the
/// last file announced for each figure, the figures in the order in which
/// they were first announced.
pub proof fn lemma_discovery_shows_last_files(events: Seq<Announcement>)
    ensures
        ({
            let tracks = record_all(initial_tracks(None), true, events);
            let shown = selection(tracks, None);
            &&& shown.len() == tracks.len()
            &&& names_of(tracks).no_duplicates()
            &&& forall|i: int|
                0 <= i < tracks.len() ==> #[trigger] shown[i] == files_for(
                    events,
                    names_of(tracks)[i],
                ).last()
        }),
{
    let tracks = record_all(initial_tracks(None), true, events);
    let names = names_of(tracks);
    lemma_discovered_tracks_have_files(events);
    lemma_discovered_names_are_distinct(events);
    lemma_tracks_hold_announcements(None, events);
    lemma_selection_of_all(tracks, None);
    assert forall|i: int| 0 <= i < tracks.len() implies #[trigger] selection(tracks, None)[i]
        == files_for(events, names[i]).last() by {
        assert(names[i] == tracks[i].0);
        assert forall|k: int| 0 <= k < i implies names[k] != names[i] by {}
        lemma_find_is(names, names[i], i);
    }
}

/// The file shown for a figure is one of those announced for it, and
/// without an index it is the one announced last.
pub proof fn lemma_pick_is_announced(files: Seq<Seq<char>>, index: Option<usize>)
    ensures
        pick(files, index) is Some ==> files.contains(pick(files, index)->Some_0),
        index is None && files.len() > 0 ==> pick(files, index) == Some(files.last()),
        pick(files, index) is None <==> match index {
            Some(k) => k >= files.len(),
            None => files.len() == 0,
        },
{
}

/// No more images are shown than figures are tracked.
pub proof fn lemma_selection_is_bounded(tracks: Seq<Track>, index: Option<usize>)
    ensures
        selection(tracks, index).len() <= tracks.len(),
    decreases tracks.len(),
{
    if tracks.len() > 0 {
        lemma_selection_is_bounded(tracks.drop_last(), index);
    }
}

/// The files announced for each figure of an example.
pub struct ImageSequences {
    names: Vec<String>,
    files: Vec<Vec<String>>,
    discover: bool,
}

impl ImageSequences {
    /// Every figure has its list of files.
    pub closed spec fn wf(&self) -> bool {
        self.names@.len() == self.files@.len()
    }

    /// The figures and their files.
    pub closed spec fn tracks(&self) -> Seq<Track> {
        Seq::new(self.names@.len(), |i: int| (self.names@[i]@, texts(self.files@[i]@)))
    }

    /// Whether a figure that was not asked for gets a track of its own.
    pub closed spec fn discovers(&self) -> bool {
        self.discover
    }

    /// The sequences before any announcement.  With `names`, only those
    /// figures are tracked; without, every figure that is announced.
    pub fn new(names: &Option<Vec<String>>) -> (s: ImageSequences)
        ensures
            s.wf(),
            s.discovers() == (names is None),
            s.tracks() == initial_tracks(
                match names {
                    Some(ns) => Some(texts(ns@)),
                    None => None,
                },
            ),
    {
        let mut own: Vec<String> = Vec::new();
        let mut files: Vec<Vec<String>> = Vec::new();
        match names {
            Some(ns) => {
                let mut i: usize = 0;
                while i < ns.len()
                    invariant
                        i <= ns@.len(),
                        own@.len() == i,
                        files@.len() == i,
                        forall|k: int| 0 <= k < i ==> own@[k]@ == ns@[k]@,
                        forall|k: int| 0 <= k < i ==> files@[k]@.len() == 0,
                    decreases ns@.len() - i,
                {
                    own.push(ns[i].clone());
                    files.push(Vec::new());
                    i += 1;
                }
            },
            None => {},
        }
        let s = ImageSequences { names: own, files, discover: names.is_none() };
        proof {
            let want = initial_tracks(
                match names {
                    Some(ns) => Some(texts(ns@)),
                    None => None,
                },
            );
            assert(s.tracks().len() == want.len());
            assert forall|k: int| 0 <= k < want.len() implies s.tracks()[k] == want[k] by {
                assert(texts(s.files@[k]@) =~= Seq::<Seq<char>>::empty());
            }
            assert(s.tracks() =~= want);
        }
        s
    }

    /// Takes note of one announcement.
    pub fn record(&mut self, event: LogImageEvent)
        requires
            old(self).wf(),
        ensures
            final(self).wf(),
            final(self).discovers() == old(self).discovers(),
            final(self).tracks() == record(
                old(self).tracks(),
                old(self).discovers(),
                event@.name,
                event@.filename,
            ),
    {
        let LogImageEvent { name, filename: file } = event;
        let ghost before = self.tracks();
        let ghost want = record(before, self.discover, name@, file@);
        let ghost files = self.files@;
        let mut i: usize = 0;
        while i < self.names.len() && self.names[i] != name
            invariant
                i <= self.names@.len(),
                forall|k: int| 0 <= k < i ==> self.names@[k]@ != name@,
            decreases self.names@.len() - i,
        {
            i += 1;
        }
        proof {
            assert forall|k: int| 0 <= k < i implies names_of(before)[k] != name@ by {}
            lemma_find_is(names_of(before), name@, i as int);
        }
        if i < self.names.len() {
            self.files[i].push(file);
            proof {
                assert(self.tracks().len() == want.len());
                assert forall|k: int| 0 <= k < want.len() implies self.tracks()[k] == want[k] by {
                    if k == i {
                        assert(texts(self.files@[k]@) =~= texts(files[k]@).push(file@));
                    } else {
                        assert(self.files@[k] == files[k]);
                    }
                }
                assert(self.tracks() =~= want);
            }
        } else if self.discover {
            self.names.push(name);
            let mut first: Vec<String> = Vec::new();
            first.push(file);
            self.files.push(first);
            proof {
                assert(self.tracks().len() == want.len());
                assert forall|k: int| 0 <= k < want.len() implies self.tracks()[k] == want[k] by {
                    if k == i {
                        assert(texts(self.files@[k]@) =~= seq![file@]);
                    } else {
                        assert(self.files@[k] == files[k]);
                    }
                }
                assert(self.tracks() =~= want);
            }
        }
    }

    /// The file to show for each figure: the one at `index`, or the last one
    /// announced where `index` is `None`.  Figures without such a file are
    /// left out.
    pub fn select(&self, index: Option<usize>) -> (shown: Vec<String>)
        requires
            self.wf(),
        ensures
            texts(shown@) == selection(self.tracks(), index),
    {
        let ghost tracks = self.tracks();
        let mut shown: Vec<String> = Vec::new();
        let mut i: usize = 0;
        assert(tracks.take(0) =~= Seq::<Track>::empty());
        assert(texts(shown@) =~= Seq::<Seq<char>>::empty());
        while i < self.files.len()
            invariant
                i <= self.files@.len(),
                self.wf(),
                tracks == self.tracks(),
                texts(shown@) == selection(tracks.take(i as int), index),
            decreases self.files@.len() - i,
        {
            proof {
                let upto = tracks.take(i + 1);
                assert(upto.drop_last() =~= tracks.take(i as int));
                assert(upto.last().1 == texts(self.files@[i as int]@));
            }
            match nth_or_last(&self.files[i], index) {
                Some(file) => {
                    let ghost before = shown@;
                    let copy = file.clone();
                    shown.push(copy);
                    assert(texts(shown@) =~= texts(before).push(file@));
                    assert(pick(texts(self.files@[i as int]@), index) == Some(file@));
                },
                None => {
                    assert(pick(texts(self.files@[i as int]@), index) is None);
                },
            }
            i += 1;
        }
        assert(tracks.take(i as int) =~= tracks);
        shown
    }
}

} // verus!