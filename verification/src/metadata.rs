//! The record of one example, and how it is resolved from a script that
//! carries its own descriptor.

use vstd::prelude::*;
use vstd::string::StringExecFns;
use crate::error::{agrees, GalleryError};
use crate::event::{announcements, Announcement, LogImageEvent};
use crate::header::{parse_header, Header};
use crate::log::{compiled, events_of, ImageIterator, IMAGE_PATTERN};
use crate::paths::{file_stem, file_stem_of, relative_chars, relative_to};
use crate::select::{initial_tracks, record_all, selection, ImageSequences};
use crate::source::MetadataSource;
use crate::text::{
    copy_range, has_prefix, has_suffix, lines, pieces, rows, split_lines, texts, to_chars,
    to_text,
};

verus! {

/// Identity and provenance of one example.
#[derive(Clone, Debug, PartialEq, Eq)]
pub struct ExampleMetadata {
    /// Unique key; its prefix tells where the descriptor came from.
    pub id: String,
    pub name: String,
    pub authors: Vec<String>,
    /// Markdown.
    pub description: String,
    /// Address of the repository that holds the script; ends in `.git`.
    pub repository: String,
    /// Branch name or commit of the script.
    pub revision: String,
    /// Path of the script below the root of the repository.
    pub script: String,
    pub tags: Vec<String>,
    /// The figures to show, in order; every figure where `None`.
    pub image_names: Option<Vec<String>>,
    /// Which of a figure's files to show; the last where `None`.
    pub image_index: Option<usize>,
    /// Which of the shown images is the thumbnail; the last where `None`.
    pub thumbnail_index: Option<usize>,
}

/// The mathematical content of an [`ExampleMetadata`].
pub ghost struct Record {
    pub id: Seq<char>,
    pub name: Seq<char>,
    pub authors: Seq<Seq<char>>,
    pub description: Seq<char>,
    pub repository: Seq<char>,
    pub revision: Seq<char>,
    pub script: Seq<char>,
    pub tags: Seq<Seq<char>>,
    pub image_names: Option<Seq<Seq<char>>>,
    pub image_index: Option<usize>,
    pub thumbnail_index: Option<usize>,
}

impl View for ExampleMetadata {
    type V = Record;

    open spec fn view(&self) -> Record {
        Record {
            id: self.id@,
            name: self.name@,
            authors: texts(self.authors@),
            description: self.description@,
            repository: self.repository@,
            revision: self.revision@,
            script: self.script@,
            tags: texts(self.tags@),
            image_names: match self.image_names {
                Some(names) => Some(texts(names@)),
                None => None,
            },
            image_index: self.image_index,
            thumbnail_index: self.thumbnail_index,
        }
    }
}

/// The repository of the official examples.
pub const OFFICIAL_REPOSITORY: &'static str = "https://github.com/evalf/nutils.git";

/// The address of the page that shows `script` at `revision`, for a
/// repository on one of the two known hosts.
pub open spec fn script_url(
    repository: Seq<char>,
    revision: Seq<char>,
    script: Seq<char>,
) -> Result<Seq<char>, GalleryError> {
    let base = repository.take(repository.len() - ".git"@.len());
    if !".git"@.is_suffix_of(repository) {
        Err(GalleryError::NotGitAddress)
    } else if "https://github.com/"@.is_prefix_of(base) {
        Ok(base + "/blob/"@ + revision + "/"@ + script)
    } else if "https://gitlab.com/"@.is_prefix_of(base) {
        Ok(base + "/-/blob/"@ + revision + "/"@ + script)
    } else {
        Err(GalleryError::UnknownProvider)
    }
}

/// `c` is a digit of a commit: a decimal digit or a lower-case letter up
/// to `f`.
pub open spec fn is_hex(c: char) -> bool {
    ('0' <= c && c <= '9') || ('a' <= c && c <= 'f')
}

/// `revision` names one commit and nothing else: it is a full hash, of 40 or
/// of 64 digits.
pub open spec fn is_commit(revision: Seq<char>) -> bool {
    &&& revision.len() == 40 || revision.len() == 64
    &&& forall|i: int| 0 <= i < revision.len() ==> is_hex(#[trigger] revision[i])
}

/// The commit that a checkout reports, if it reports one.
pub open spec fn reported_commit(report: Seq<char>) -> Option<Seq<char>> {
    if lines(report).len() == 2 && is_commit(lines(report)[1]) {
        Some(lines(report)[1])
    } else {
        None
    }
}

/// The path of the script below the root of its checkout, and the commit that
/// is checked out.  `report` is what `git rev-parse --show-toplevel HEAD`
/// printed: the root on one line, the commit on the next.
pub open spec fn location_of(path: Seq<char>, report: Seq<char>) -> Result<
    (Seq<char>, Seq<char>),
    GalleryError,
> {
    let said = lines(report);
    if said.len() != 2 {
        Err(GalleryError::RevParse)
    } else {
        match relative_to(path, said[0]) {
            Some(script) => Ok((script, said[1])),
            None => Err(GalleryError::OutsideRepository),
        }
    }
}

/// The record of the official example whose script is at `path` and reads
/// `code`, in a checkout that reports `report`.
pub open spec fn embedded_record(path: Seq<char>, report: Seq<char>, code: Seq<char>) -> Result<
    Record,
    GalleryError,
> {
    match file_stem_of(path) {
        None => Err(GalleryError::NoFileStem),
        Some(stem) => match location_of(path, report) {
            Err(e) => Err(e),
            Ok(place) => match parse_header(lines(code)) {
                Err(e) => Err(e),
                Ok(header) => Ok(
                    Record {
                        id: MetadataSource::Embedded.prefix() + stem,
                        name: header.name,
                        authors: seq!["Evalf"@, "other Nutils contributors"@],
                        description: header.description,
                        repository: OFFICIAL_REPOSITORY@,
                        revision: place.1,
                        script: place.0,
                        tags: header.tags,
                        image_names: None,
                        image_index: None,
                        thumbnail_index: header.thumbnail,
                    },
                ),
            },
        },
    }
}

/// A script outside the root that its checkout reports has no record.
pub proof fn lemma_outside_repository_fails(path: Seq<char>, report: Seq<char>, code: Seq<char>)
    requires
        lines(report).len() == 2,
        relative_to(path, lines(report)[0]) is None,
    ensures
        embedded_record(path, report, code) is Err,
        file_stem_of(path) is Some ==> embedded_record(path, report, code) == Err::<
            Record,
            GalleryError,
        >(GalleryError::OutsideRepository),
{
}

/// A script whose second line is not the bare comment marker has no record.
pub proof fn lemma_missing_separator_fails(path: Seq<char>, report: Seq<char>, code: Seq<char>)
    requires
        lines(code).len() < 2 || lines(code)[1] != "#"@,
    ensures
        embedded_record(path, report, code) is Err,
{
}

/// The images shown for an example whose run made the announcements
/// `events`: one file for each figure asked for, or for each figure announced
/// where none was asked for.
pub open spec fn shown_images(record: Record, events: Seq<Announcement>) -> Seq<Seq<char>> {
    selection(
        record_all(initial_tracks(record.image_names), record.image_names is None, events),
        record.image_index,
    )
}

/// The images shown for an example whose run left the log `log`; a run that
/// left no log shows none.
pub open spec fn images_of(record: Record, log: Option<Seq<char>>) -> Result<
    Seq<Seq<char>>,
    GalleryError,
> {
    match log {
        None => Ok(Seq::empty()),
        Some(text) => if compiled(IMAGE_PATTERN@) is Some {
            Ok(shown_images(record, events_of(IMAGE_PATTERN@, pieces(text))))
        } else {
            Err(GalleryError::Pattern)
        },
    }
}

/// `got` is the list of images that `want` describes, or the same error.
pub open spec fn shows(got: Result<Vec<String>, GalleryError>, want: Result<
    Seq<Seq<char>>,
    GalleryError,
>) -> bool {
    match want {
        Ok(images) => got is Ok && texts(got->Ok_0@) == images,
        Err(e) => got is Err && got->Err_0 == e,
    }
}

/// Resolving the same script in the same checkout again gives the same
/// record, field by field, or fails in the same way.
pub proof fn lemma_resolution_is_repeatable(
    path: Seq<char>,
    report: Seq<char>,
    code: Seq<char>,
    first: Result<ExampleMetadata, GalleryError>,
    second: Result<ExampleMetadata, GalleryError>,
)
    requires
        agrees(first, embedded_record(path, report, code)),
        agrees(second, embedded_record(path, report, code)),
    ensures
        first is Ok <==> second is Ok,
        first is Ok ==> first->Ok_0@ == second->Ok_0@,
        first is Err ==> first->Err_0 == second->Err_0,
{
}

/// Reading the same log for the same record again shows the same images,
/// character by character, or fails in the same way.
pub proof fn lemma_images_are_repeatable(
    one: ExampleMetadata,
    other: ExampleMetadata,
    log: Option<Seq<char>>,
    first: Result<Vec<String>, GalleryError>,
    second: Result<Vec<String>, GalleryError>,
)
    requires
        one@ == other@,
        shows(first, images_of(one@, log)),
        shows(second, images_of(other@, log)),
    ensures
        first is Ok <==> second is Ok,
        first is Ok ==> texts(first->Ok_0@) == texts(second->Ok_0@),
        first is Err ==> first->Err_0 == second->Err_0,
{
}

/// Reads what the checkout reported of itself.
fn locate(path: &Vec<char>, report: &str) -> (r: Result<(String, String), GalleryError>)
    ensures
        match location_of(path@, report@) {
            Ok(place) => r is Ok && r->Ok_0.0@ == place.0 && r->Ok_0.1@ == place.1,
            Err(e) => r is Err && r->Err_0 == e,
        },
{
    let chars = to_chars(report);
    let said = split_lines(&chars);
    if said.len() != 2 {
        return Err(GalleryError::RevParse);
    }
    assert(rows(said@)[0] == said@[0]@);
    assert(rows(said@)[1] == said@[1]@);
    match relative_chars(path, &said[0]) {
        Ok(script) => {
            let revision = to_text(&said[1], 0, said[1].len());
            assert(said@[1]@.subrange(0, said@[1]@.len() as int) == said@[1]@);
            Ok((script, revision))
        },
        Err(e) => Err(e),
    }
}

/// Whether `chars` is the full hash of a commit.
fn check_commit(chars: &Vec<char>) -> (yes: bool)
    ensures
        yes == is_commit(chars@),
{
    if chars.len() != 40 && chars.len() != 64 {
        return false;
    }
    let mut i: usize = 0;
    while i < chars.len()
        invariant
            i <= chars@.len(),
            chars@.len() == 40 || chars@.len() == 64,
            forall|k: int| 0 <= k < i ==> is_hex(#[trigger] chars@[k]),
        decreases chars@.len() - i,
    {
        let c = chars[i];
        if !((c >= '0' && c <= '9') || (c >= 'a' && c <= 'f')) {
            return false;
        }
        i += 1;
    }
    true
}

impl ExampleMetadata {
    /// Whether the revision names one commit, so that the address of the
    /// script will show the same text for good.
    pub fn is_pinned(&self) -> (yes: bool)
        ensures
            yes == is_commit(self.revision@),
    {
        let chars = to_chars(self.revision.as_str());
        check_commit(&chars)
    }

    /// Replaces the revision by the commit that was checked out for it.
    ///
    /// `report` is the output of `git rev-parse --show-toplevel HEAD`, run in
    /// the working tree.  Where it reports no commit, nothing changes and the
    /// call fails.
    pub fn pin(&mut self, report: &str) -> (r: Result<(), GalleryError>)
        ensures
            match reported_commit(report@) {
                Some(commit) => {
                    &&& r is Ok
                    &&& final(self)@ == (Record { revision: commit, ..old(self)@ })
                },
                None => {
                    &&& r == Err::<(), GalleryError>(GalleryError::RevParse)
                    &&& *final(self) == *old(self)
                },
            },
            r is Ok ==> is_commit(final(self).revision@),
    {
        let chars = to_chars(report);
        let said = split_lines(&chars);
        if said.len() != 2 {
            return Err(GalleryError::RevParse);
        }
        assert(rows(said@)[1] == said@[1]@);
        if !check_commit(&said[1]) {
            return Err(GalleryError::RevParse);
        }
        let commit = to_text(&said[1], 0, said[1].len());
        assert(said@[1]@.subrange(0, said@[1]@.len() as int) == said@[1]@);
        self.revision = commit;
        Ok(())
    }

    /// Resolves the official example whose script lies at `path`.
    ///
    /// `report` is the output of `git rev-parse --show-toplevel HEAD`, run
    /// beside the script, and `code` the text of the script.  The record is
    /// complete or there is none: the result is that of [`embedded_record`].
    pub fn from_py(path: &str, report: &str, code: &str) -> (r: Result<
        ExampleMetadata,
        GalleryError,
    >)
        ensures
            agrees(r, embedded_record(path@, report@, code@)),
            lines(code@).len() < 2 || lines(code@)[1] != "#"@ ==> r is Err,
            lines(report@).len() == 2 && relative_to(path@, lines(report@)[0]) is None ==> r
                is Err,
    {
        let stem = match file_stem(path) {
            Ok(stem) => stem,
            Err(e) => {
                return Err(e);
            },
        };
        let chars = to_chars(path);
        let (script, revision) = match locate(&chars, report) {
            Ok(place) => place,
            Err(e) => {
                return Err(e);
            },
        };
        let header = match Header::parse(code) {
            Ok(header) => header,
            Err(e) => {
                return Err(e);
            },
        };
        let mut id = "official-".to_owned();
        id.append(stem.as_str());
        let mut authors: Vec<String> = Vec::new();
        authors.push("Evalf".to_owned());
        authors.push("other Nutils contributors".to_owned());
        assert(texts(authors@) =~= seq!["Evalf"@, "other Nutils contributors"@]);
        Ok(
            ExampleMetadata {
                id,
                name: header.name,
                authors,
                description: header.description,
                repository: OFFICIAL_REPOSITORY.to_owned(),
                revision,
                script,
                tags: header.tags,
                image_names: None,
                image_index: None,
                thumbnail_index: header.thumbnail,
            },
        )
    }

    /// The address of the page that shows the script at its revision.
    pub fn get_script_url(&self) -> (r: Result<String, GalleryError>)
        ensures
            agrees(r, script_url(self.repository@, self.revision@, self.script@)),
    {
        let repository = to_chars(self.repository.as_str());
        if !has_suffix(&repository, ".git") {
            return Err(GalleryError::NotGitAddress);
        }
        let suffix = to_chars(".git");
        let base = copy_range(&repository, 0, repository.len() - suffix.len());
        let middle = if has_prefix(&base, "https://github.com/") {
            "/blob/"
        } else if has_prefix(&base, "https://gitlab.com/") {
            "/-/blob/"
        } else {
            return Err(GalleryError::UnknownProvider);
        };
        let mut url = to_text(&base, 0, base.len());
        assert(url@ == base@);
        url.append(middle);
        url.append(self.revision.as_str());
        url.append("/");
        url.append(self.script.as_str());
        Ok(url)
    }

    /// The images to show, given the announcements that the run made.
    pub fn select_images(&self, events: &Vec<LogImageEvent>) -> (shown: Vec<String>)
        ensures
            texts(shown@) == shown_images(self@, announcements(events@)),
    {
        let mut tracks = ImageSequences::new(&self.image_names);
        let ghost start = tracks.tracks();
        let ghost all = announcements(events@);
        let mut i: usize = 0;
        assert(all.take(0) =~= Seq::<Announcement>::empty());
        while i < events.len()
            invariant
                i <= events@.len(),
                all == announcements(events@),
                tracks.wf(),
                tracks.discovers() == (self.image_names is None),
                tracks.tracks() == record_all(start, self.image_names is None, all.take(i as int)),
            decreases events@.len() - i,
        {
            assert(all.take(i + 1).drop_last() =~= all.take(i as int));
            tracks.record(
                LogImageEvent {
                    name: events[i].name.clone(),
                    filename: events[i].filename.clone(),
                },
            );
            i += 1;
        }
        assert(all.take(i as int) =~= all);
        tracks.select(self.image_index)
    }

    /// The images to show, given the log that the run left, if it left one.
    ///
    /// Fails only where the image pattern does not compile.
    pub fn get_images(&self, log: Option<&str>) -> (r: Result<Vec<String>, GalleryError>)
        ensures
            shows(
                r,
                images_of(
                    self@,
                    match log {
                        Some(text) => Some(text@),
                        None => None,
                    },
                ),
            ),
            log is None ==> r is Ok && r->Ok_0@.len() == 0,
    {
        let text = match log {
            Some(text) => text,
            None => {
                let none: Vec<String> = Vec::new();
                assert(texts(none@) =~= Seq::<Seq<char>>::empty());
                return Ok(none);
            },
        };
        let scanner = match ImageIterator::new(text) {
            Ok(scanner) => scanner,
            Err(e) => {
                return Err(e);
            },
        };
        let events = scanner.collect();
        Ok(self.select_images(&events))
    }
}

} // verus!
