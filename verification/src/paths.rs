//! Paths of example files, as texts with `/` between their components.
//!
//! A path is read the way a Unix file system reads it: slashes at the end
//! and components that are a single dot do not count, and a path that ends in
//! `..` names no file.

use vstd::prelude::*;
use crate::error::{agrees, GalleryError};
use crate::text::{copy_range, equals, starts_with, to_chars, to_text};

verus! {

/// `p` without the slashes and single-dot components at its end.
pub open spec fn trim_tail(p: Seq<char>) -> Seq<char>
    decreases p.len(),
{
    if p.len() > 0 && p.last() == '/' {
        trim_tail(p.drop_last())
    } else if p.len() >= 2 && p.last() == '.' && p[p.len() - 2] == '/' {
        trim_tail(p.drop_last())
    } else {
        p
    }
}

/// The position just after the last slash of `t`; 0 when it has none.
pub open spec fn name_start(t: Seq<char>) -> int
    decreases t.len(),
{
    if t.len() == 0 {
        0
    } else if t.last() == '/' {
        t.len() as int
    } else {
        name_start(t.drop_last())
    }
}

/// The position of the last dot of `name`; -1 when it has none.
pub open spec fn last_dot(name: Seq<char>) -> int
    decreases name.len(),
{
    if name.len() == 0 {
        -1
    } else if name.last() == '.' {
        name.len() - 1
    } else {
        last_dot(name.drop_last())
    }
}

/// The last component of `p`, if it names a file.
pub open spec fn file_name_of(p: Seq<char>) -> Option<Seq<char>> {
    let t = trim_tail(p);
    let name = t.skip(name_start(t));
    if name.len() == 0 || name == "."@ || name == ".."@ {
        None
    } else {
        Some(name)
    }
}

/// A file name without its extension.  A name that has no dot, or only one at
/// its start, is its own stem.
pub open spec fn stem_of(name: Seq<char>) -> Seq<char> {
    if last_dot(name) <= 0 {
        name
    } else {
        name.take(last_dot(name))
    }
}

/// What follows the last dot of a file name, unless that dot starts the name.
pub open spec fn extension_of(name: Seq<char>) -> Option<Seq<char>> {
    if last_dot(name) <= 0 {
        None
    } else {
        Some(name.skip(last_dot(name) + 1))
    }
}

/// The stem of the file that `p` names.
pub open spec fn file_stem_of(p: Seq<char>) -> Option<Seq<char>> {
    match file_name_of(p) {
        Some(name) => Some(stem_of(name)),
        None => None,
    }
}

/// The extension of the file that `p` names.
pub open spec fn file_extension_of(p: Seq<char>) -> Option<Seq<char>> {
    match file_name_of(p) {
        Some(name) => extension_of(name),
        None => None,
    }
}

/// `s` without the slashes at its start.
pub open spec fn skip_slashes(s: Seq<char>) -> Seq<char>
    decreases s.len(),
{
    if s.len() > 0 && s[0] == '/' {
        skip_slashes(s.skip(1))
    } else {
        s
    }
}

/// The path of `path` below the directory `root`: `path` begins with `root`,
/// a slash separates the two, and something is left after it.  `None` for a
/// path that does not lie under `root`, and for an empty `root`.
pub open spec fn relative_to(path: Seq<char>, root: Seq<char>) -> Option<Seq<char>> {
    let rest = path.skip(root.len() as int);
    if root.len() > 0 && root.is_prefix_of(path) && (root.last() == '/' || (rest.len() > 0
        && rest[0] == '/')) && skip_slashes(rest).len() > 0 {
        Some(skip_slashes(rest))
    } else {
        None
    }
}

/// What is left after the slashes at the start is the end of the text, and
/// starts with no slash.
pub proof fn lemma_skip_slashes(s: Seq<char>)
    ensures
        skip_slashes(s).is_suffix_of(s),
        skip_slashes(s).len() > 0 ==> skip_slashes(s)[0] != '/',
    decreases s.len(),
{
    if s.len() > 0 && s[0] == '/' {
        let t = s.skip(1);
        let r = skip_slashes(t);
        lemma_skip_slashes(t);
        assert(r =~= s.subrange(s.len() - r.len(), s.len() as int)) by {
            assert forall|i: int| 0 <= i < r.len() implies r[i] == s[s.len() - r.len() + i] by {
                assert(r[i] == t.subrange(t.len() - r.len(), t.len() as int)[i]);
            }
        }
    } else {
        assert(s =~= s.subrange(0, s.len() as int));
    }
}

/// A relative path is a path inside the root: the path begins with the
/// root and ends with the relative path, which is not empty and starts with
/// no slash.
pub proof fn lemma_relative_path_is_inside(path: Seq<char>, root: Seq<char>)
    ensures
        relative_to(path, root) is Some ==> {
            let rel = relative_to(path, root)->Some_0;
            &&& root.is_prefix_of(path)
            &&& rel.is_suffix_of(path)
            &&& rel.len() > 0
            &&& rel[0] != '/'
            &&& root.len() + rel.len() <= path.len()
        },
{
    if relative_to(path, root) is Some {
        let rest = path.skip(root.len() as int);
        let rel = skip_slashes(rest);
        lemma_skip_slashes(rest);
        assert(rel =~= path.subrange(path.len() - rel.len(), path.len() as int)) by {
            assert forall|i: int| 0 <= i < rel.len() implies rel[i] == path[path.len() - rel.len()
                + i] by {
                assert(rel[i] == rest.subrange(rest.len() - rel.len(), rest.len() as int)[i]);
            }
        }
    }
}

/// The characters of the last component of `chars`, if it names a file.
fn file_name(chars: &Vec<char>) -> (name: Option<Vec<char>>)
    ensures
        match file_name_of(chars@) {
            Some(n) => name is Some && name->Some_0@ == n,
            None => name is None,
        },
{
    let mut end: usize = chars.len();
    assert(chars@.take(end as int) == chars@);
    while end > 0 && (chars[end - 1] == '/' || (end >= 2 && chars[end - 1] == '.' && chars[end
        - 2] == '/'))
        invariant
            end <= chars@.len(),
            trim_tail(chars@) == trim_tail(chars@.take(end as int)),
        decreases end,
    {
        assert(chars@.take(end as int).drop_last() == chars@.take(end - 1));
        end -= 1;
    }
    let ghost t = chars@.take(end as int);
    assert(trim_tail(t) == t);
    let mut start: usize = end;
    assert(t.take(start as int) == t);
    while start > 0 && chars[start - 1] != '/'
        invariant
            start <= end <= chars@.len(),
            t == chars@.take(end as int),
            name_start(t) == name_start(t.take(start as int)),
        decreases start,
    {
        assert(t.take(start as int).drop_last() == t.take(start - 1));
        start -= 1;
    }
    assert(name_start(t) == start);
    let name = copy_range(chars, start, end);
    assert(name@ == t.skip(start as int));
    if name.len() == 0 || equals(&name, ".") || equals(&name, "..") {
        None
    } else {
        Some(name)
    }
}

/// The position of the last dot of `name`, if it has one.
fn find_last_dot(name: &Vec<char>) -> (at: Option<usize>)
    ensures
        match at {
            Some(d) => d == last_dot(name@) && d < name@.len(),
            None => last_dot(name@) == -1,
        },
{
    let mut i: usize = name.len();
    assert(name@.take(i as int) == name@);
    while i > 0 && name[i - 1] != '.'
        invariant
            i <= name@.len(),
            last_dot(name@) == last_dot(name@.take(i as int)),
        decreases i,
    {
        assert(name@.take(i as int).drop_last() == name@.take(i - 1));
        i -= 1;
    }
    if i == 0 {
        None
    } else {
        Some(i - 1)
    }
}

/// The name of the file at `path`, without its extension.
pub fn file_stem(path: &str) -> (r: Result<String, GalleryError>)
    ensures
        agrees(
            r,
            match file_stem_of(path@) {
                Some(stem) => Ok(stem),
                None => Err(GalleryError::NoFileStem),
            },
        ),
{
    let chars = to_chars(path);
    match file_name(&chars) {
        None => Err(GalleryError::NoFileStem),
        Some(name) => {
            let end = match find_last_dot(&name) {
                Some(d) => if d == 0 {
                    name.len()
                } else {
                    d
                },
                None => name.len(),
            };
            assert(name@.take(name@.len() as int) == name@);
            Ok(to_text(&name, 0, end))
        },
    }
}

/// The extension of the file at `path`, without its dot.
pub fn file_extension(path: &str) -> (r: Option<String>)
    ensures
        match file_extension_of(path@) {
            Some(ext) => r is Some && r->Some_0@ == ext,
            None => r is None,
        },
{
    let chars = to_chars(path);
    match file_name(&chars) {
        None => None,
        Some(name) => {
            let n = name.len();
            match find_last_dot(&name) {
                Some(d) => if d == 0 {
                    None
                } else {
                    Some(to_text(&name, d + 1, n))
                },
                None => None,
            }
        },
    }
}

/// The path of the file at `path` below the directory `root`, both given by
/// their characters.
pub fn relative_chars(p: &Vec<char>, base: &Vec<char>) -> (r: Result<String, GalleryError>)
    ensures
        agrees(
            r,
            match relative_to(p@, base@) {
                Some(rel) => Ok(rel),
                None => Err(GalleryError::OutsideRepository),
            },
        ),
{
    if base.len() == 0 || !starts_with(p, base) {
        return Err(GalleryError::OutsideRepository);
    }
    let n = base.len();
    if !(base[n - 1] == '/' || (n < p.len() && p[n] == '/')) {
        return Err(GalleryError::OutsideRepository);
    }
    let ghost rest = p@.skip(n as int);
    let mut i: usize = n;
    assert(rest.skip(0) == rest);
    while i < p.len() && p[i] == '/'
        invariant
            n <= i <= p@.len(),
            rest == p@.skip(n as int),
            skip_slashes(rest) == skip_slashes(rest.skip(i - n)),
        decreases p@.len() - i,
    {
        assert(rest.skip(i - n).skip(1) == rest.skip(i - n + 1));
        i += 1;
    }
    assert(rest.skip(i - n) == p@.subrange(i as int, p@.len() as int));
    if i == p.len() {
        return Err(GalleryError::OutsideRepository);
    }
    Ok(to_text(p, i, p.len()))
}

/// The path of the file at `path` below the directory `root`.
pub fn relative_path(path: &str, root: &str) -> (r: Result<String, GalleryError>)
    ensures
        agrees(
            r,
            match relative_to(path@, root@) {
                Some(rel) => Ok(rel),
                None => Err(GalleryError::OutsideRepository),
            },
        ),
{
    let p = to_chars(path);
    let base = to_chars(root);
    relative_chars(&p, &base)
}

} // verus!
