//! The descriptor that an official example carries in its leading comment.
//!
//! ```text
//! # <name>
//! #
//! # <description, any number of comment lines>
//! <code>
//! # example:thumbnail=<index>:tags=<tag>,<tag>
//! ```
//!
//! The description ends with the first line that is no comment.  The
//! modeline is optional; it is looked for in the last line of the script, and
//! only if that line comes after the one that ended the description.

use vstd::prelude::*;
use crate::error::{agrees, GalleryError};
use crate::text::{
    append_range, copy_range, equals, find, find_from, has_prefix, lines, parse_index,
    read_index, rows, split, split_lines, split_on, texts, to_chars, to_text,
};

verus! {

/// What the leading comment and the modeline say of an example.
#[derive(Clone, Debug, PartialEq, Eq)]
pub struct Header {
    pub name: String,
    pub description: String,
    pub thumbnail: Option<usize>,
    pub tags: Vec<String>,
}

/// The mathematical content of a [`Header`].
pub ghost struct HeaderView {
    pub name: Seq<char>,
    pub description: Seq<char>,
    pub thumbnail: Option<usize>,
    pub tags: Seq<Seq<char>>,
}

impl View for Header {
    type V = HeaderView;

    open spec fn view(&self) -> HeaderView {
        HeaderView {
            name: self.name@,
            description: self.description@,
            thumbnail: self.thumbnail,
            tags: texts(self.tags@),
        }
    }
}

/// What the directives read so far have set.
pub ghost struct Directives {
    pub thumbnail: Option<usize>,
    pub tags: Seq<Seq<char>>,
}

/// The line starts with the comment marker.
pub open spec fn is_comment(line: Seq<char>) -> bool {
    line.len() > 0 && line[0] == '#'
}

/// The text that a comment line adds to the description: nothing for the
/// bare marker, what follows `# ` otherwise.  `None` where something other
/// than a space follows the marker.
pub open spec fn comment_text(line: Seq<char>) -> Option<Seq<char>> {
    let rest = line.skip(1);
    if rest.len() == 0 {
        Some(Seq::empty())
    } else if rest[0] == ' ' {
        Some(rest.skip(1))
    } else {
        None
    }
}

/// The first line at or after `i` that is no comment, or the number of lines.
pub open spec fn block_end(lines: Seq<Seq<char>>, i: int) -> int
    decreases lines.len() - i,
{
    if 0 <= i < lines.len() && is_comment(lines[i]) {
        block_end(lines, i + 1)
    } else {
        i
    }
}

/// The description that the comment lines from `i` on spell: the text of each
/// line followed by a line feed, up to the first line that is no comment.
pub open spec fn description_from(lines: Seq<Seq<char>>, i: int) -> Result<Seq<char>, GalleryError>
    decreases lines.len() - i,
{
    if 0 <= i < lines.len() && is_comment(lines[i]) {
        match comment_text(lines[i]) {
            None => Err(GalleryError::ExpectedSpaceOrNewline),
            Some(text) => match description_from(lines, i + 1) {
                Ok(rest) => Ok(text.push('\n') + rest),
                Err(e) => Err(e),
            },
        }
    } else {
        Ok(Seq::empty())
    }
}

/// The directives of the modeline, without its prefix, if the script has one.
pub open spec fn modeline_of(lines: Seq<Seq<char>>) -> Option<Seq<char>> {
    if block_end(lines, 2) + 1 < lines.len() && "# example:"@.is_prefix_of(lines.last()) {
        Some(lines.last().skip("# example:"@.len() as int))
    } else {
        None
    }
}

/// The effect of one `key=value` item of the modeline.
pub open spec fn apply_directive(acc: Directives, item: Seq<char>) -> Result<
    Directives,
    GalleryError,
> {
    let eq = find(item, '=') as int;
    let key = item.take(eq);
    let arg = item.skip(eq + 1);
    if eq >= item.len() {
        Err(GalleryError::InvalidModeline)
    } else if key == "thumbnail"@ {
        match parse_index(arg) {
            Some(n) => Ok(Directives { thumbnail: Some(n), tags: acc.tags }),
            None => Err(GalleryError::InvalidThumbnail),
        }
    } else if key == "tags"@ {
        Ok(Directives { thumbnail: acc.thumbnail, tags: acc.tags + split(arg, ',') })
    } else {
        Err(GalleryError::InvalidModeline)
    }
}

/// The effect of the items of a modeline, read from left to right; the first
/// item that fails decides the error.
pub open spec fn apply_directives(acc: Directives, items: Seq<Seq<char>>) -> Result<
    Directives,
    GalleryError,
>
    decreases items.len(),
{
    if items.len() == 0 {
        Ok(acc)
    } else {
        match apply_directive(acc, items[0]) {
            Ok(next) => apply_directives(next, items.skip(1)),
            Err(e) => Err(e),
        }
    }
}

/// What holds before any directive is read: no thumbnail index, and the tag
/// that every official example has.
pub open spec fn initial_directives() -> Directives {
    Directives { thumbnail: None, tags: seq!["official"@] }
}

/// The thumbnail index and the tags that the script asks for.
pub open spec fn directives_of(lines: Seq<Seq<char>>) -> Result<Directives, GalleryError> {
    match modeline_of(lines) {
        None => Ok(initial_directives()),
        Some(modeline) => apply_directives(initial_directives(), split(modeline, ':')),
    }
}

/// The header that the lines of a script spell, or the reason why they spell
/// none.
pub open spec fn parse_header(lines: Seq<Seq<char>>) -> Result<HeaderView, GalleryError> {
    if lines.len() == 0 {
        Err(GalleryError::PrematureEnd)
    } else if !"# "@.is_prefix_of(lines[0]) {
        Err(GalleryError::ExpectedComment)
    } else if lines.len() < 2 || lines[1] != "#"@ {
        Err(GalleryError::MissingSeparator)
    } else {
        match description_from(lines, 2) {
            Err(e) => Err(e),
            Ok(description) => match directives_of(lines) {
                Err(e) => Err(e),
                Ok(d) => Ok(
                    HeaderView {
                        name: lines[0].skip("# "@.len() as int),
                        description,
                        thumbnail: d.thumbnail,
                        tags: d.tags,
                    },
                ),
            },
        }
    }
}

/// Directives add tags and take none away.
pub proof fn lemma_directives_keep_tags(acc: Directives, items: Seq<Seq<char>>)
    ensures
        apply_directives(acc, items) is Ok ==> acc.tags.is_prefix_of(
            apply_directives(acc, items)->Ok_0.tags,
        ),
    decreases items.len(),
{
    if items.len() > 0 {
        match apply_directive(acc, items[0]) {
            Ok(next) => {
                lemma_directives_keep_tags(next, items.skip(1));
                if apply_directives(acc, items) is Ok {
                    let last = apply_directives(acc, items)->Ok_0.tags;
                    assert(acc.tags.is_prefix_of(next.tags));
                    assert(acc.tags =~= last.subrange(0, acc.tags.len() as int)) by {
                        assert forall|i: int| 0 <= i < acc.tags.len() implies acc.tags[i]
                            == last[i] by {
                            assert(acc.tags[i] == next.tags.subrange(0, acc.tags.len() as int)[i]);
                            assert(next.tags[i] == last.subrange(0, next.tags.len() as int)[i]);
                        }
                    }
                }
            },
            Err(_) => {},
        }
    } else {
        assert(acc.tags =~= acc.tags.subrange(0, acc.tags.len() as int));
    }
}

/// Every header has the tag of the official examples, and has it first.
pub proof fn lemma_official_tag_comes_first(lines: Seq<Seq<char>>)
    ensures
        parse_header(lines) is Ok ==> parse_header(lines)->Ok_0.tags.len() > 0 && parse_header(
            lines,
        )->Ok_0.tags[0] == "official"@,
{
    if parse_header(lines) is Ok {
        let tags = parse_header(lines)->Ok_0.tags;
        match modeline_of(lines) {
            Some(modeline) => {
                lemma_directives_keep_tags(initial_directives(), split(modeline, ':'));
                assert(initial_directives().tags[0] == tags.subrange(0, 1)[0]);
            },
            None => {},
        }
    }
}

/// No script without the bare marker on its second line has a header.
pub proof fn lemma_separator_is_required(lines: Seq<Seq<char>>)
    requires
        lines.len() < 2 || lines[1] != "#"@,
    ensures
        parse_header(lines) is Err,
{
}

/// Reads the description that starts on the third line.  Returns it with the
/// position of the line that ended it.
fn read_description(lines: &Vec<Vec<char>>) -> (r: Result<(String, usize), GalleryError>)
    requires
        lines@.len() >= 2,
    ensures
        match description_from(rows(lines@), 2) {
            Ok(text) => r is Ok && r->Ok_0.0@ == text && r->Ok_0.1 == block_end(
                rows(lines@),
                2,
            ) && 2 <= r->Ok_0.1 <= lines@.len(),
            Err(e) => r is Err && r->Err_0 == e,
        },
{
    let ghost all = rows(lines@);
    let mut description = String::new();
    let mut i: usize = 2;
    while i < lines.len()
        invariant_except_break
            2 <= i <= lines@.len(),
            all == rows(lines@),
            block_end(all, 2) == block_end(all, i as int),
            description_from(all, 2) == match description_from(all, i as int) {
                Ok(rest) => Ok::<Seq<char>, GalleryError>(description@ + rest),
                Err(e) => Err(e),
            },
        ensures
            2 <= i <= lines@.len(),
            block_end(all, 2) == i,
            description_from(all, 2) == Ok::<Seq<char>, GalleryError>(description@),
        decreases lines@.len() - i,
    {
        let line = &lines[i];
        assert(all[i as int] == line@);
        if !(line.len() > 0 && line[0] == '#') {
            assert(description@ + Seq::<char>::empty() == description@);
            break;
        }
        let ghost before = description@;
        if line.len() > 1 {
            if line[1] != ' ' {
                return Err(GalleryError::ExpectedSpaceOrNewline);
            }
            append_range(&mut description, line, 2, line.len());
            assert(line@.subrange(2, line@.len() as int) == line@.skip(1).skip(1));
        }
        description.push('\n');
        proof {
            let text = comment_text(line@)->Some_0;
            assert(description@ == before + text.push('\n'));
            match description_from(all, i + 1) {
                Ok(rest) => {
                    assert(before + (text.push('\n') + rest) == description@ + rest);
                },
                Err(_) => {},
            }
        }
        i += 1;
    }
    proof {
        if i == lines@.len() {
            assert(description@ + Seq::<char>::empty() == description@);
        }
    }
    Ok((description, i))
}

/// Applies one item of the modeline to the thumbnail index and the tags.
fn read_directive(item: &Vec<char>, thumbnail: &mut Option<usize>, tags: &mut Vec<String>) -> (r:
    Result<(), GalleryError>)
    ensures
        match apply_directive(
            Directives { thumbnail: *old(thumbnail), tags: texts(old(tags)@) },
            item@,
        ) {
            Ok(d) => r is Ok && *final(thumbnail) == d.thumbnail && texts(final(tags)@) == d.tags,
            Err(e) => r is Err && r->Err_0 == e,
        },
{
    let eq = find_from(item, 0, '=');
    assert(item@.skip(0) == item@);
    if eq >= item.len() {
        return Err(GalleryError::InvalidModeline);
    }
    let key = copy_range(item, 0, eq);
    let arg = copy_range(item, eq + 1, item.len());
    assert(key@ == item@.take(eq as int));
    assert(arg@ == item@.skip(eq + 1));
    if equals(&key, "thumbnail") {
        match read_index(&arg) {
            Some(n) => {
                *thumbnail = Some(n);
                Ok(())
            },
            None => Err(GalleryError::InvalidThumbnail),
        }
    } else if equals(&key, "tags") {
        let fields = split_on(&arg, ',');
        let mut j: usize = 0;
        assert(rows(fields@).take(0) == Seq::<Seq<char>>::empty());
        assert(texts(tags@) + Seq::<Seq<char>>::empty() == texts(tags@));
        while j < fields.len()
            invariant
                j <= fields@.len(),
                texts(tags@) == texts(old(tags)@) + rows(fields@).take(j as int),
            decreases fields@.len() - j,
        {
            let tag = to_text(&fields[j], 0, fields[j].len());
            proof {
                assert(tag@ == fields@[j as int]@);
                assert(texts(tags@.push(tag)) == texts(tags@).push(tag@));
                assert(rows(fields@).take(j + 1) == rows(fields@).take(j as int).push(
                    fields@[j as int]@,
                ));
            }
            tags.push(tag);
            j += 1;
        }
        assert(rows(fields@).take(j as int) == rows(fields@));
        Ok(())
    } else {
        Err(GalleryError::InvalidModeline)
    }
}

/// Reads the modeline, if the script has one after the line at `end`.
fn read_directives(lines: &Vec<Vec<char>>, end: usize) -> (r: Result<
    (Option<usize>, Vec<String>),
    GalleryError,
>)
    requires
        end == block_end(rows(lines@), 2),
        end <= lines@.len(),
    ensures
        match directives_of(rows(lines@)) {
            Ok(d) => r is Ok && r->Ok_0.0 == d.thumbnail && texts(r->Ok_0.1@) == d.tags,
            Err(e) => r is Err && r->Err_0 == e,
        },
{
    let mut thumbnail: Option<usize> = None;
    let mut tags: Vec<String> = Vec::new();
    tags.push("official".to_owned());
    assert(texts(tags@) == seq!["official"@]);
    if end < lines.len() && end + 1 < lines.len() {
        let last = &lines[lines.len() - 1];
        assert(rows(lines@).last() == last@);
        if has_prefix(last, "# example:") {
            let prefix = to_chars("# example:");
            let modeline = copy_range(last, prefix.len(), last.len());
            assert(modeline@ == last@.skip("# example:"@.len() as int));
            let items = split_on(&modeline, ':');
            let ghost all = rows(items@);
            let mut i: usize = 0;
            assert(all.skip(0) == all);
            while i < items.len()
                invariant
                    i <= items@.len(),
                    all == rows(items@),
                    directives_of(rows(lines@)) == apply_directives(initial_directives(), all),
                    apply_directives(initial_directives(), all) == apply_directives(
                        Directives { thumbnail, tags: texts(tags@) },
                        all.skip(i as int),
                    ),
                decreases items@.len() - i,
            {
                assert(all.skip(i as int)[0] == items@[i as int]@);
                assert(all.skip(i as int).skip(1) == all.skip(i + 1));
                match read_directive(&items[i], &mut thumbnail, &mut tags) {
                    Ok(()) => {},
                    Err(e) => {
                        return Err(e);
                    },
                }
                i += 1;
            }
            assert(all.skip(i as int).len() == 0);
        }
    }
    Ok((thumbnail, tags))
}

impl Header {
    /// Reads the header of a script from its lines.
    pub fn from_lines(lines: &Vec<Vec<char>>) -> (r: Result<Header, GalleryError>)
        ensures
            agrees(r, parse_header(rows(lines@))),
    {
        if lines.len() == 0 {
            return Err(GalleryError::PrematureEnd);
        }
        assert(rows(lines@)[0] == lines@[0]@);
        if !has_prefix(&lines[0], "# ") {
            return Err(GalleryError::ExpectedComment);
        }
        if lines.len() < 2 {
            return Err(GalleryError::MissingSeparator);
        }
        assert(rows(lines@)[1] == lines@[1]@);
        if !equals(&lines[1], "#") {
            return Err(GalleryError::MissingSeparator);
        }
        let marker = to_chars("# ");
        let name = to_text(&lines[0], marker.len(), lines[0].len());
        let (description, end) = match read_description(lines) {
            Ok(found) => found,
            Err(e) => {
                return Err(e);
            },
        };
        let (thumbnail, tags) = match read_directives(lines, end) {
            Ok(found) => found,
            Err(e) => {
                return Err(e);
            },
        };
        Ok(Header { name, description, thumbnail, tags })
    }

    /// Reads the header of a script from its text.
    ///
    /// Fails exactly where [`parse_header`] does, and in particular whenever
    /// the second line is not the bare comment marker.
    pub fn parse(code: &str) -> (r: Result<Header, GalleryError>)
        ensures
            agrees(r, parse_header(lines(code@))),
            lines(code@).len() < 2 || lines(code@)[1] != "#"@ ==> r is Err,
    {
        let chars = to_chars(code);
        let lines = split_lines(&chars);
        Header::from_lines(&lines)
    }
}

} // verus!
