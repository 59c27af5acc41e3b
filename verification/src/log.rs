//! Scanning an execution log for the images that a script announced.
//!
//! The log is HTML, written line by line.  A line announces an image where it
//! holds an anchor of the form
//!
//! ```text
//! <a href="<40 hex digits>.png" download="<name>"><text></a>
//! ```
//!
//! (`.jpg` is accepted too).  `href` is the file of the image and `download`
//! the name of the figure that it shows; the text of the anchor is not used.
//! Only the first anchor of a line counts, and every other line is passed
//! over.
//!
//! The anchor is recognised by a regular expression, [`IMAGE_PATTERN`].  What
//! that expression matches is the business of the `regex` crate and is not
//! proved here; what is done with a match is.

use vstd::prelude::*;
use regex::Regex;
use crate::error::GalleryError;
use crate::event::{announcements, Announcement, LogImageEvent};
use crate::text::{pieces, rows, split_pieces, texts, to_chars, to_text};

verus! {

/// A compiled regular expression of the `regex` crate.
#[verifier::external_type_specification]
#[verifier::external_body]
pub struct ExRegex(regex::Regex);

/// The reason why the `regex` crate refused a pattern.
#[verifier::external_type_specification]
#[verifier::external_body]
pub struct ExRegexError(regex::Error);

/// The regex that `regex::Regex::new` makes of `pattern`; `None` where it
/// refuses the pattern.
pub uninterp spec fn compiled(pattern: Seq<char>) -> Option<Regex>;

/// What `regex::Regex::captures` finds in `haystack`: `None` where nothing
/// matches, else what each group of the first match captured, as
/// `regex::Captures::iter` yields it: `None` for a group that took no part
/// in the match.  Group 0 is the match as a whole.
pub uninterp spec fn captures_of(re: Regex, haystack: Seq<char>) -> Option<
    Seq<Option<Seq<char>>>,
>;

/// The contents of what a group captured.
pub open spec fn group_view(group: Option<String>) -> Option<Seq<char>> {
    match group {
        Some(text) => Some(text@),
        None => None,
    }
}

/// The contents of what a search captured.
pub open spec fn captured(found: Option<Vec<Option<String>>>) -> Option<
    Seq<Option<Seq<char>>>,
> {
    match found {
        Some(groups) => Some(groups@.map_values(|g: Option<String>| group_view(g))),
        None => None,
    }
}

/// Calls `regex::Regex::new`.  What it returns depends on the pattern
/// alone: the same pattern is refused every time, or makes the same regex
/// every time.
#[verifier::external_body]
fn compile(pattern: &str) -> (r: Result<Regex, regex::Error>)
    ensures
        match r {
            Ok(re) => compiled(pattern@) == Some(re),
            Err(_) => compiled(pattern@) is None,
        },
{
    Regex::new(pattern)
}

/// Calls `regex::Regex::captures` and copies out, with
/// `regex::Captures::iter`, what each group of the first match captured.
#[verifier::external_body]
fn search(re: &Regex, haystack: &str) -> (found: Option<Vec<Option<String>>>)
    ensures
        captured(found) == captures_of(*re, haystack@),
{
    re.captures(haystack).map(|c| c.iter().map(|g| g.map(|m| m.as_str().to_owned())).collect())
}

/// The pattern of a line that announces an image: group 1 is the file,
/// group 2 the name of the figure.
pub const IMAGE_PATTERN: &'static str =
    "<a href=\"([0-9a-f]{40}\\.(?:png|jpg))\" download=\"(.+?)\">(.+?)</a>";

/// The announcement that a search found: group 1 is the file, group 2 the
/// name of the figure.  A search that found nothing, or not both groups,
/// announces nothing.
pub open spec fn event_from(found: Option<Seq<Option<Seq<char>>>>) -> Option<Announcement> {
    match found {
        Some(groups) => if groups.len() > 2 && groups[1] is Some && groups[2] is Some {
            Some(Announcement { name: groups[2]->Some_0, filename: groups[1]->Some_0 })
        } else {
            None
        },
        None => None,
    }
}

/// The announcement that a line of the log makes, if any, for a scanner
/// that looks for `pattern`.
pub open spec fn event_of(pattern: Seq<char>, line: Seq<char>) -> Option<Announcement> {
    match compiled(pattern) {
        Some(re) => event_from(captures_of(re, line)),
        None => None,
    }
}

/// The announcements of a run of lines, in order.
pub open spec fn events_of(pattern: Seq<char>, lines: Seq<Seq<char>>) -> Seq<Announcement>
    decreases lines.len(),
{
    if lines.len() == 0 {
        Seq::empty()
    } else {
        match event_of(pattern, lines[0]) {
            Some(event) => seq![event] + events_of(pattern, lines.skip(1)),
            None => events_of(pattern, lines.skip(1)),
        }
    }
}

/// Turns what a search captured into an announcement.
pub fn to_event(found: &Option<Vec<Option<String>>>) -> (event: Option<LogImageEvent>)
    ensures
        match event_from(captured(*found)) {
            Some(e) => event is Some && event->Some_0@ == e,
            None => event is None,
        },
{
    match found {
        Some(groups) => {
            if groups.len() <= 2 {
                return None;
            }
            match (&groups[1], &groups[2]) {
                (Some(filename), Some(name)) => Some(
                    LogImageEvent { name: name.clone(), filename: filename.clone() },
                ),
                _ => None,
            }
        },
        None => None,
    }
}

/// The announcements of a log, one after the other.
///
/// The scanner goes forward only.  To read a log again, make a new scanner.
pub struct ImageIterator {
    lines: Vec<String>,
    pos: usize,
    re: Regex,
    pattern: Ghost<Seq<char>>,
}

impl ImageIterator {
    /// The scanner stands within its lines, and its regex is the one of its
    /// pattern.
    pub closed spec fn wf(&self) -> bool {
        &&& self.pos <= self.lines@.len()
        &&& compiled(self.pattern@) == Some(self.re)
    }

    /// The pattern that the scanner looks for.
    pub closed spec fn pattern(&self) -> Seq<char> {
        self.pattern@
    }

    /// The lines that have not been looked at yet, each with its line feed.
    pub closed spec fn remaining(&self) -> Seq<Seq<char>> {
        texts(self.lines@).skip(self.pos as int)
    }

    /// A scanner at the start of `log` that looks for `pattern`, whose group
    /// 1 is to capture the file and whose group 2 the name of the figure.
    /// Fails exactly where the pattern does not compile.
    pub fn with_pattern(pattern: &str, log: &str) -> (r: Result<ImageIterator, GalleryError>)
        ensures
            r is Ok <==> compiled(pattern@) is Some,
            r is Err ==> r->Err_0 == GalleryError::Pattern,
            r is Ok ==> r->Ok_0.wf() && r->Ok_0.pattern() == pattern@ && r->Ok_0.remaining()
                == pieces(log@),
    {
        let re = match compile(pattern) {
            Ok(re) => re,
            Err(_) => {
                return Err(GalleryError::Pattern);
            },
        };
        let chars = to_chars(log);
        let parts = split_pieces(&chars);
        let mut lines: Vec<String> = Vec::new();
        let mut i: usize = 0;
        while i < parts.len()
            invariant
                i <= parts@.len(),
                lines@.len() == i,
                forall|k: int| 0 <= k < i ==> lines@[k]@ == parts@[k]@,
            decreases parts@.len() - i,
        {
            let line = to_text(&parts[i], 0, parts[i].len());
            let ghost part = parts@[i as int]@;
            assert(part.subrange(0, part.len() as int) == part);
            lines.push(line);
            i += 1;
        }
        assert(texts(lines@) =~= rows(parts@));
        assert(texts(lines@).skip(0) == texts(lines@));
        Ok(ImageIterator { lines, pos: 0, re, pattern: Ghost(pattern@) })
    }

    /// A scanner at the start of `log` that looks for [`IMAGE_PATTERN`].
    pub fn new(log: &str) -> (r: Result<ImageIterator, GalleryError>)
        ensures
            r is Ok <==> compiled(IMAGE_PATTERN@) is Some,
            r is Err ==> r->Err_0 == GalleryError::Pattern,
            r is Ok ==> r->Ok_0.wf() && r->Ok_0.pattern() == IMAGE_PATTERN@
                && r->Ok_0.remaining() == pieces(log@),
    {
        ImageIterator::with_pattern(IMAGE_PATTERN, log)
    }

    /// The next announcement.  Lines that announce nothing are passed over;
    /// `None` once no line is left.
    pub fn next(&mut self) -> (event: Option<LogImageEvent>)
        requires
            old(self).wf(),
        ensures
            final(self).wf(),
            final(self).pattern() == old(self).pattern(),
            match event {
                Some(e) => {
                    let passed = old(self).remaining().len() - final(self).remaining().len() - 1;
                    &&& 0 <= passed < old(self).remaining().len()
                    &&& final(self).remaining() == old(self).remaining().skip(passed + 1)
                    &&& event_of(old(self).pattern(), old(self).remaining()[passed]) == Some(e@)
                    &&& forall|k: int|
                        0 <= k < passed ==> event_of(
                            old(self).pattern(),
                            #[trigger] old(self).remaining()[k],
                        ) is None
                    &&& events_of(old(self).pattern(), old(self).remaining()) == seq![e@]
                        + events_of(final(self).pattern(), final(self).remaining())
                },
                None => {
                    &&& final(self).remaining().len() == 0
                    &&& forall|k: int|
                        0 <= k < old(self).remaining().len() ==> event_of(
                            old(self).pattern(),
                            #[trigger] old(self).remaining()[k],
                        ) is None
                    &&& events_of(old(self).pattern(), old(self).remaining()).len() == 0
                },
            },
    {
        let ghost rest = self.remaining();
        let ghost start = self.pos;
        let ghost pattern = self.pattern();
        assert(rest.skip(0) == rest);
        while self.pos < self.lines.len()
            invariant
                self.wf(),
                self.pattern() == pattern,
                pattern == old(self).pattern(),
                start <= self.pos <= self.lines@.len(),
                self.lines == old(self).lines,
                self.re == old(self).re,
                rest == old(self).remaining(),
                rest == texts(self.lines@).skip(start as int),
                forall|k: int|
                    0 <= k < self.pos - start ==> event_of(pattern, #[trigger] rest[k]) is None,
                events_of(pattern, rest) == events_of(pattern, rest.skip(self.pos - start)),
            decreases self.lines@.len() - self.pos,
        {
            let ghost at = self.pos - start;
            let found = search(&self.re, self.lines[self.pos].as_str());
            self.pos += 1;
            proof {
                assert(rest[at] == self.lines@[self.pos - 1]@);
                assert(rest.skip(at).skip(1) == rest.skip(at + 1));
                assert(rest.skip(at)[0] == rest[at]);
                assert(self.remaining() == rest.skip(at + 1));
            }
            match to_event(&found) {
                Some(event) => {
                    proof {
                        let e = event@;
                        assert(event_of(pattern, rest[at]) == Some(e));
                        assert(rest.len() - self.remaining().len() - 1 == at);
                        assert(events_of(pattern, rest.skip(at)) == seq![e] + events_of(
                            pattern,
                            rest.skip(at + 1),
                        ));
                    }
                    return Some(event);
                },
                None => {
                    assert(event_of(pattern, rest[at]) is None);
                },
            }
        }
        assert(rest.skip(self.pos - start).len() == 0);
        None
    }

    /// The announcements that are left, in order.
    pub fn collect(self) -> (events: Vec<LogImageEvent>)
        requires
            self.wf(),
        ensures
            announcements(events@) == events_of(self.pattern(), self.remaining()),
    {
        let mut scanner = self;
        let ghost pattern = scanner.pattern();
        let ghost all = events_of(pattern, scanner.remaining());
        let mut events: Vec<LogImageEvent> = Vec::new();
        assert(announcements(events@) + all =~= all);
        loop
            invariant_except_break
                scanner.wf(),
                scanner.pattern() == pattern,
                announcements(events@) + events_of(pattern, scanner.remaining()) == all,
            ensures
                announcements(events@) == all,
            decreases scanner.remaining().len(),
        {
            match scanner.next() {
                Some(event) => {
                    proof {
                        let seen = announcements(events@);
                        let rest = events_of(pattern, scanner.remaining());
                        assert(announcements(events@.push(event)) =~= seen.push(event@));
                        assert(seen.push(event@) + rest =~= seen + (seq![event@] + rest));
                    }
                    events.push(event);
                },
                None => {
                    assert(announcements(events@) + events_of(pattern, scanner.remaining())
                        =~= announcements(events@));
                    break;
                },
            }
        }
        events
    }
}

} // verus!
