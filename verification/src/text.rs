//! Character-level helpers shared by the parsers.
//!
//! Texts are handled as vectors of characters, so that positions count
//! characters and every access is constant time.  The contracts speak of
//! `Seq<char>`, the view of both `String` and `Vec<char>`.

use vstd::prelude::*;

verus! {

/// `String::push` appends one character to the end of the string.
pub assume_specification[ String::push ](s: &mut String, ch: char)
    ensures
        final(s)@ == old(s)@.push(ch),
;

/// The contents of each row of a table of characters.
pub open spec fn rows(v: Seq<Vec<char>>) -> Seq<Seq<char>> {
    v.map_values(|r: Vec<char>| r@)
}

/// The contents of each text of a list.
pub open spec fn texts(v: Seq<String>) -> Seq<Seq<char>> {
    v.map_values(|s: String| s@)
}

/// Position of the first `c` in `s`, or `s.len()` when `s` holds none.
pub open spec fn find<T>(s: Seq<T>, c: T) -> nat
    decreases s.len(),
{
    if s.len() == 0 {
        0
    } else if s[0] == c {
        0
    } else {
        1 + find(s.skip(1), c)
    }
}

/// `find` stays within the text, nothing before it is `c`, and `c` stands at
/// it unless it is the end.
pub proof fn lemma_find<T>(s: Seq<T>, c: T)
    ensures
        find(s, c) <= s.len(),
        forall|k: int| 0 <= k < find(s, c) ==> s[k] != c,
        find(s, c) < s.len() ==> s[find(s, c) as int] == c,
    decreases s.len(),
{
    if s.len() > 0 && s[0] != c {
        let t = s.skip(1);
        lemma_find(t, c);
        assert forall|k: int| 0 <= k < find(s, c) implies s[k] != c by {
            if k > 0 {
                assert(s[k] == t[k - 1]);
            }
        }
    }
}

/// The first position that holds `c`, or the end, is `find`.
pub proof fn lemma_find_is<T>(s: Seq<T>, c: T, j: int)
    requires
        0 <= j <= s.len(),
        forall|k: int| 0 <= k < j ==> s[k] != c,
        j < s.len() ==> s[j] == c,
    ensures
        find(s, c) == j,
    decreases s.len(),
{
    if s.len() > 0 && j > 0 {
        let t = s.skip(1);
        assert(s[0] != c);
        assert forall|k: int| 0 <= k < j - 1 implies t[k] != c by {
            assert(t[k] == s[k + 1]);
        }
        lemma_find_is(t, c, j - 1);
    }
}

/// Where `find` looks after one more item was added at the end.
pub proof fn lemma_find_push<T>(s: Seq<T>, x: T, c: T)
    ensures
        find(s.push(x), c) == if find(s, c) < s.len() {
            find(s, c) as int
        } else if x == c {
            s.len() as int
        } else {
            s.len() as int + 1
        },
{
    lemma_find(s, c);
    let t = s.push(x);
    let j = if find(s, c) < s.len() {
        find(s, c) as int
    } else if x == c {
        s.len() as int
    } else {
        s.len() as int + 1
    };
    assert forall|k: int| 0 <= k < j implies t[k] != c by {
        if k < s.len() {
            assert(t[k] == s[k]);
        }
    }
    lemma_find_is(t, c, j);
}

/// The pieces of `s`, each ending with its line feed; the last one may lack
/// it.
pub open spec fn pieces(s: Seq<char>) -> Seq<Seq<char>>
    decreases s.len(),
{
    let n = find(s, '\n') as int;
    if s.len() == 0 {
        Seq::empty()
    } else if n < s.len() {
        seq![s.take(n + 1)] + pieces(s.skip(n + 1))
    } else {
        seq![s]
    }
}

/// Cutting a text into pieces loses nothing and makes no empty piece: the
/// pieces, put together again, are the text, and each piece holds a line
/// feed at its end or nowhere.
pub proof fn lemma_pieces(s: Seq<char>)
    ensures
        pieces(s).flatten() == s,
        forall|i: int|
            0 <= i < pieces(s).len() ==> (#[trigger] pieces(s)[i]).len() > 0 && find(
                pieces(s)[i],
                '\n',
            ) >= pieces(s)[i].len() - 1,
    decreases s.len(),
{
    let n = find(s, '\n') as int;
    lemma_find(s, '\n');
    if s.len() == 0 {
        assert(pieces(s).flatten() =~= s);
    } else if n < s.len() {
        let head = s.take(n + 1);
        let tail = pieces(s.skip(n + 1));
        lemma_pieces(s.skip(n + 1));
        assert(pieces(s).first() == head);
        assert(pieces(s).drop_first() =~= tail);
        assert(pieces(s).flatten() =~= s);
        lemma_find_is(head, '\n', n);
        assert forall|i: int| 0 <= i < pieces(s).len() implies (#[trigger] pieces(s)[i]).len() > 0
            && find(pieces(s)[i], '\n') >= pieces(s)[i].len() - 1 by {
            if i > 0 {
                assert(pieces(s)[i] == tail[i - 1]);
            }
        }
    } else {
        assert(pieces(s).drop_first() =~= Seq::<Seq<char>>::empty());
        assert(pieces(s).drop_first().flatten() =~= Seq::<char>::empty());
        assert(pieces(s).flatten() =~= s);
    }
}

/// A piece without its line ending: a final line feed is dropped, and a
/// carriage return just before that line feed with it.
pub open spec fn chomp(p: Seq<char>) -> Seq<char> {
    if p.len() > 0 && p.last() == '\n' {
        let q = p.drop_last();
        if q.len() > 0 && q.last() == '\r' {
            q.drop_last()
        } else {
            q
        }
    } else {
        p
    }
}

/// The lines of `s`, without their line endings.  A line feed at the very
/// end of `s` starts no further line.
pub open spec fn lines(s: Seq<char>) -> Seq<Seq<char>> {
    pieces(s).map_values(|p: Seq<char>| chomp(p))
}

/// The fields of `s` between occurrences of `sep`; always at least one.
pub open spec fn split(s: Seq<char>, sep: char) -> Seq<Seq<char>>
    decreases s.len(),
{
    let n = find(s, sep) as int;
    if n < s.len() {
        seq![s.take(n)] + split(s.skip(n + 1), sep)
    } else {
        seq![s]
    }
}

/// `c` is one of the ten decimal digits.
pub open spec fn is_digit(c: char) -> bool {
    '0' <= c && c <= '9'
}

/// The value of the decimal digit `c`.
pub open spec fn digit_value(c: char) -> int {
    c as int - '0' as int
}

/// The number that the decimal digits `d` write; 0 for no digits.
pub open spec fn number(d: Seq<char>) -> int
    decreases d.len(),
{
    if d.len() == 0 {
        0
    } else {
        10 * number(d.drop_last()) + digit_value(d.last())
    }
}

/// Every character of `d` is a decimal digit.
pub open spec fn all_digits(d: Seq<char>) -> bool {
    forall|i: int| 0 <= i < d.len() ==> is_digit(#[trigger] d[i])
}

/// The index that `s` writes: one or more decimal digits, after an optional
/// `+`, whose value fits a `usize`.  Anything else writes no index.
pub open spec fn parse_index(s: Seq<char>) -> Option<usize> {
    let d = if s.len() > 0 && s[0] == '+' {
        s.skip(1)
    } else {
        s
    };
    if d.len() > 0 && all_digits(d) && number(d) <= usize::MAX {
        Some(number(d) as usize)
    } else {
        None
    }
}

/// A run of digits writes at least as much as any of its beginnings.
pub proof fn lemma_number_grows(d: Seq<char>, k: int)
    requires
        0 <= k <= d.len(),
        all_digits(d.take(k)),
    ensures
        0 <= number(d.take(k)),
        all_digits(d) ==> number(d.take(k)) <= number(d),
    decreases d.len() - k,
{
    lemma_number_nonnegative(d.take(k));
    if k < d.len() && all_digits(d) {
        let e = d.take(k + 1);
        assert(e.drop_last() == d.take(k));
        assert(is_digit(e[k]));
        assert(all_digits(e));
        lemma_number_grows(d, k + 1);
    } else if k == d.len() {
        assert(d.take(k) == d);
    }
}

/// A run of digits writes no negative number.
pub proof fn lemma_number_nonnegative(d: Seq<char>)
    requires
        all_digits(d),
    ensures
        0 <= number(d),
    decreases d.len(),
{
    if d.len() > 0 {
        assert(is_digit(d[d.len() - 1]));
        assert(all_digits(d.drop_last()));
        lemma_number_nonnegative(d.drop_last());
    }
}

/// The characters of `s`, in order.
pub fn to_chars(s: &str) -> (out: Vec<char>)
    ensures
        out@ == s@,
{
    let mut out: Vec<char> = Vec::new();
    for c in it: s.chars()
        invariant
            out@ == it.seq().take(it.index() as int),
            it.seq() == s@,
    {
        out.push(c);
    }
    out
}

/// The text made of `chars[from..to]`.
pub fn to_text(chars: &Vec<char>, from: usize, to: usize) -> (out: String)
    requires
        from <= to <= chars@.len(),
    ensures
        out@ == chars@.subrange(from as int, to as int),
{
    let mut out = String::new();
    let mut i: usize = from;
    while i < to
        invariant
            from <= i <= to <= chars@.len(),
            out@ == chars@.subrange(from as int, i as int),
        decreases to - i,
    {
        out.push(chars[i]);
        i += 1;
    }
    out
}

/// Appends `chars[from..to]` to `out`.
pub fn append_range(out: &mut String, chars: &Vec<char>, from: usize, to: usize)
    requires
        from <= to <= chars@.len(),
    ensures
        final(out)@ == old(out)@ + chars@.subrange(from as int, to as int),
{
    let mut i: usize = from;
    assert(out@ == old(out)@ + chars@.subrange(from as int, i as int));
    while i < to
        invariant
            from <= i <= to <= chars@.len(),
            out@ == old(out)@ + chars@.subrange(from as int, i as int),
        decreases to - i,
    {
        out.push(chars[i]);
        i += 1;
        assert(out@ == old(out)@ + chars@.subrange(from as int, i as int));
    }
}

/// A copy of `chars[from..to]`.
pub fn copy_range(chars: &Vec<char>, from: usize, to: usize) -> (out: Vec<char>)
    requires
        from <= to <= chars@.len(),
    ensures
        out@ == chars@.subrange(from as int, to as int),
{
    let mut out: Vec<char> = Vec::new();
    let mut i: usize = from;
    while i < to
        invariant
            from <= i <= to <= chars@.len(),
            out@ == chars@.subrange(from as int, i as int),
        decreases to - i,
    {
        out.push(chars[i]);
        i += 1;
    }
    out
}

/// Position of the first `c` at or after `from`, or the length of `chars`.
pub fn find_from(chars: &Vec<char>, from: usize, c: char) -> (at: usize)
    requires
        from <= chars@.len(),
    ensures
        at == from + find(chars@.skip(from as int), c),
        from <= at <= chars@.len(),
{
    let mut i: usize = from;
    while i < chars.len() && chars[i] != c
        invariant
            from <= i <= chars@.len(),
            forall|k: int| from <= k < i ==> chars@[k] != c,
        decreases chars@.len() - i,
    {
        i += 1;
    }
    proof {
        lemma_find_is(chars@.skip(from as int), c, i - from);
    }
    i
}

/// Cuts `chars` after each line feed.
pub fn split_pieces(chars: &Vec<char>) -> (out: Vec<Vec<char>>)
    ensures
        rows(out@) == pieces(chars@),
{
    let mut out: Vec<Vec<char>> = Vec::new();
    let mut pos: usize = 0;
    assert(chars@.skip(0) == chars@);
    assert(rows(out@) + pieces(chars@) == pieces(chars@));
    while pos < chars.len()
        invariant
            pos <= chars@.len(),
            rows(out@) + pieces(chars@.skip(pos as int)) == pieces(chars@),
        decreases chars@.len() - pos,
    {
        let feed = find_from(chars, pos, '\n');
        let end: usize = if feed < chars.len() {
            feed + 1
        } else {
            feed
        };
        let piece = copy_range(chars, pos, end);
        proof {
            let rest = chars@.skip(pos as int);
            assert(rest.take(end - pos) == piece@);
            assert(rest.skip(end - pos) == chars@.skip(end as int));
            if end == chars@.len() {
                assert(pieces(chars@.skip(end as int)) == Seq::<Seq<char>>::empty());
            }
            assert(pieces(rest) == seq![piece@] + pieces(chars@.skip(end as int)));
            assert(rows(out@.push(piece)) == rows(out@) + seq![piece@]);
        }
        out.push(piece);
        pos = end;
    }
    assert(chars@.skip(pos as int).len() == 0);
    out
}

/// A copy of `piece` without its line ending.
pub fn chomp_piece(piece: &Vec<char>) -> (out: Vec<char>)
    ensures
        out@ == chomp(piece@),
{
    let n = piece.len();
    let mut end: usize = n;
    if n > 0 && piece[n - 1] == '\n' {
        end = n - 1;
        if end > 0 && piece[end - 1] == '\r' {
            end = end - 1;
        }
    }
    let out = copy_range(piece, 0, end);
    assert(out@ == chomp(piece@));
    out
}

/// Cuts `chars` into lines and drops the line endings.
pub fn split_lines(chars: &Vec<char>) -> (out: Vec<Vec<char>>)
    ensures
        rows(out@) == lines(chars@),
{
    let parts = split_pieces(chars);
    let mut out: Vec<Vec<char>> = Vec::new();
    let mut i: usize = 0;
    while i < parts.len()
        invariant
            i <= parts@.len(),
            out@.len() == i,
            forall|k: int| 0 <= k < i ==> out@[k]@ == chomp(parts@[k]@),
        decreases parts@.len() - i,
    {
        out.push(chomp_piece(&parts[i]));
        i += 1;
    }
    assert(rows(out@) =~= rows(parts@).map_values(|p: Seq<char>| chomp(p)));
    out
}

/// Cuts `chars` at each occurrence of `sep`.
pub fn split_on(chars: &Vec<char>, sep: char) -> (out: Vec<Vec<char>>)
    ensures
        rows(out@) == split(chars@, sep),
{
    let mut out: Vec<Vec<char>> = Vec::new();
    let mut pos: usize = 0;
    assert(chars@.skip(0) == chars@);
    assert(rows(out@) + split(chars@, sep) == split(chars@, sep));
    loop
        invariant_except_break
            pos <= chars@.len(),
            rows(out@) + split(chars@.skip(pos as int), sep) == split(chars@, sep),
        ensures
            rows(out@) == split(chars@, sep),
        decreases chars@.len() - pos,
    {
        let at = find_from(chars, pos, sep);
        let field = copy_range(chars, pos, at);
        proof {
            let rest = chars@.skip(pos as int);
            assert(rest.take(at - pos) == field@);
            assert(rows(out@.push(field)) == rows(out@) + seq![field@]);
            if at < chars@.len() {
                assert(rest.skip(at - pos + 1) == chars@.skip(at + 1));
            } else {
                assert(rest == field@);
            }
        }
        out.push(field);
        if at >= chars.len() {
            break;
        }
        pos = at + 1;
    }
    out
}

/// Whether `chars` begins with `pat`.
pub fn starts_with(chars: &Vec<char>, pat: &Vec<char>) -> (yes: bool)
    ensures
        yes == pat@.is_prefix_of(chars@),
{
    if pat.len() > chars.len() {
        return false;
    }
    let mut i: usize = 0;
    while i < pat.len()
        invariant
            i <= pat@.len() <= chars@.len(),
            forall|k: int| 0 <= k < i ==> chars@[k] == pat@[k],
        decreases pat@.len() - i,
    {
        if chars[i] != pat[i] {
            assert(chars@.subrange(0, pat@.len() as int)[i as int] != pat@[i as int]);
            return false;
        }
        i += 1;
    }
    true
}

/// Whether `chars` begins with the characters of `lit`.
pub fn has_prefix(chars: &Vec<char>, lit: &str) -> (yes: bool)
    ensures
        yes == lit@.is_prefix_of(chars@),
{
    let pat = to_chars(lit);
    starts_with(chars, &pat)
}

/// Whether `chars` ends with the characters of `lit`.
pub fn has_suffix(chars: &Vec<char>, lit: &str) -> (yes: bool)
    ensures
        yes == lit@.is_suffix_of(chars@),
{
    let pat = to_chars(lit);
    if pat.len() > chars.len() {
        return false;
    }
    let base: usize = chars.len() - pat.len();
    let mut i: usize = 0;
    while i < pat.len()
        invariant
            i <= pat@.len() <= chars@.len() <= usize::MAX,
            base == chars@.len() - pat@.len(),
            pat@ == lit@,
            forall|k: int| 0 <= k < i ==> chars@[base + k] == pat@[k],
        decreases pat@.len() - i,
    {
        if chars[base + i] != pat[i] {
            assert(chars@.subrange(base as int, chars@.len() as int)[i as int] != pat@[i as int]);
            return false;
        }
        i += 1;
    }
    true
}

/// Whether `chars` holds exactly the characters of `lit`.
pub fn equals(chars: &Vec<char>, lit: &str) -> (yes: bool)
    ensures
        yes == (chars@ == lit@),
{
    let pat = to_chars(lit);
    if pat.len() != chars.len() {
        return false;
    }
    let mut i: usize = 0;
    while i < pat.len()
        invariant
            i <= pat@.len(),
            pat@.len() == chars@.len(),
            pat@ == lit@,
            forall|k: int| 0 <= k < i ==> chars@[k] == pat@[k],
        decreases pat@.len() - i,
    {
        if chars[i] != pat[i] {
            return false;
        }
        i += 1;
    }
    assert(chars@ =~= pat@);
    true
}

/// Reads a decimal index, as `parse_index` defines it.
pub fn read_index(chars: &Vec<char>) -> (index: Option<usize>)
    ensures
        index == parse_index(chars@),
{
    let start: usize = if chars.len() > 0 && chars[0] == '+' {
        1
    } else {
        0
    };
    let ghost d = chars@.skip(start as int);
    if start == chars.len() {
        return None;
    }
    let mut acc: usize = 0;
    let mut i: usize = start;
    assert(d.take(0) == Seq::<char>::empty());
    assert(chars@.skip(0) == chars@);
    while i < chars.len()
        invariant
            start <= i <= chars@.len(),
            d == chars@.skip(start as int),
            d.len() > 0,
            parse_index(chars@) == if all_digits(d) && number(d) <= usize::MAX {
                Some(number(d) as usize)
            } else {
                None
            },
            all_digits(d.take(i - start)),
            acc == number(d.take(i - start)),
        decreases chars@.len() - i,
    {
        let c = chars[i];
        if !(c >= '0' && c <= '9') {
            assert(!is_digit(d[i - start]));
            return None;
        }
        let v: usize = (c as u32 - '0' as u32) as usize;
        proof {
            let e = d.take(i - start + 1);
            assert(e.drop_last() == d.take(i - start));
            assert(e.last() == c);
            assert(all_digits(e));
            assert(number(e) == 10 * acc + v);
            lemma_number_grows(d, i - start + 1);
        }
        if acc > (usize::MAX - v) / 10 {
            return None;
        }
        acc = acc * 10 + v;
        i += 1;
    }
    assert(d.take(i - start) == d);
    Some(acc)
}

} // verus!
