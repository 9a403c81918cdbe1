//! Strings at run time: each function computes the word of the `text` module
//! that it is named after.

use crate::text;
use vstd::prelude::*;
use vstd::string::*;

verus! {

/// `String::push` of std: appends one character at the end.
pub assume_specification[ String::push ](s: &mut String, c: char)
    ensures
        final(s)@ == old(s)@.push(c),
;

/// The characters of `s`.
pub fn chars(s: &str) -> (v: Vec<char>)
    ensures
        v@ == s@,
{
    let mut v: Vec<char> = Vec::new();
    for c in it: s.chars()
        invariant
            v@ == it.seq().take(it.index()),
            it.seq() == s@,
    {
        v.push(c);
    }
    v
}

/// The string of the characters `from..to` of `v`.
pub fn string(v: &Vec<char>, from: usize, to: usize) -> (s: String)
    requires
        from <= to <= v@.len(),
    ensures
        s@ == v@.subrange(from as int, to as int),
{
    let mut s = String::new();
    let mut i: usize = from;
    while i < to
        invariant
            from <= i <= to <= v@.len(),
            s@ == v@.subrange(from as int, i as int),
        decreases to - i,
    {
        s.push(v[i]);
        i = i + 1;
    }
    s
}

/// Whether two strings hold the same text.
pub fn same(a: &str, b: &str) -> (r: bool)
    ensures
        r == (a@ == b@),
{
    let x = chars(a);
    let y = chars(b);
    if x.len() != y.len() {
        return false;
    }
    let mut i: usize = 0;
    while i < x.len()
        invariant
            i <= x@.len(),
            x@.len() == y@.len(),
            x@ == a@,
            y@ == b@,
            forall|j: int| 0 <= j < i ==> x@[j] == y@[j],
        decreases x@.len() - i,
    {
        if x[i] != y[i] {
            proof {
                assert(a@[i as int] != b@[i as int]);
            }
            return false;
        }
        i = i + 1;
    }
    proof {
        assert(a@ =~= b@);
    }
    true
}

/// Whether two optional strings hold the same text, or neither holds any.
pub fn same_option(a: Option<&str>, b: Option<&str>) -> (r: bool)
    ensures
        r == (a.deep_view() == b.deep_view()),
{
    match (a, b) {
        (Some(x), Some(y)) => same(x, y),
        (None, None) => true,
        _ => false,
    }
}

/// Whether `c` is white space.
pub fn is_white(c: char) -> (r: bool)
    ensures
        r == text::is_white(c),
{
    ('\u{9}' <= c && c <= '\u{d}') || c == ' ' || c == '\u{85}' || c == '\u{a0}' || c == '\u{1680}'
        || ('\u{2000}' <= c && c <= '\u{200a}') || c == '\u{2028}' || c == '\u{2029}' || c
        == '\u{202f}' || c == '\u{205f}' || c == '\u{3000}'
}

/// `s` without leading white space.
pub fn trim_start<'a>(s: &'a str) -> (r: &'a str)
    ensures
        r@ == text::trim_start(s@),
{
    let v = chars(s);
    let mut i: usize = 0;
    proof {
        assert(s@.skip(0) =~= s@);
    }
    while i < v.len() && is_white(v[i])
        invariant
            i <= v@.len(),
            v@ == s@,
            text::trim_start(s@) == text::trim_start(s@.skip(i as int)),
        decreases v@.len() - i,
    {
        proof {
            assert(s@.skip(i as int).drop_first() =~= s@.skip(i + 1));
        }
        i = i + 1;
    }
    s.substring_char(i, v.len())
}

/// `s` without trailing white space.
pub fn trim_end<'a>(s: &'a str) -> (r: &'a str)
    ensures
        r@ == text::trim_end(s@),
{
    let v = chars(s);
    let mut n: usize = v.len();
    proof {
        assert(s@.take(n as int) =~= s@);
    }
    while n > 0 && is_white(v[n - 1])
        invariant
            n <= v@.len(),
            v@ == s@,
            text::trim_end(s@) == text::trim_end(s@.take(n as int)),
        decreases n,
    {
        proof {
            assert(s@.take(n as int).drop_last() =~= s@.take(n - 1));
        }
        n = n - 1;
    }
    s.substring_char(0, n)
}

/// `s` without white space on either side.
pub fn trim<'a>(s: &'a str) -> (r: &'a str)
    ensures
        r@ == text::trim(s@),
{
    trim_end(trim_start(s))
}

/// Index of the first `c` at or after `from`; the length where there is none.
pub fn position(v: &Vec<char>, from: usize, c: char) -> (r: usize)
    requires
        from <= v@.len(),
    ensures
        from <= r <= v@.len(),
        r == from + text::position(v@.skip(from as int), c),
        r < v@.len() ==> v@[r as int] == c,
        forall|j: int| from <= j < r ==> v@[j] != c,
{
    let mut i: usize = from;
    while i < v.len() && v[i] != c
        invariant
            from <= i <= v@.len(),
            text::position(v@.skip(from as int), c) == i - from + text::position(
                v@.skip(i as int),
                c,
            ),
            forall|j: int| from <= j < i ==> v@[j] != c,
        decreases v@.len() - i,
    {
        proof {
            assert(v@.skip(i as int).drop_first() =~= v@.skip(i + 1));
        }
        i = i + 1;
    }
    i
}

/// Index of the last `c`, or `None`.
pub fn last_position(v: &Vec<char>, c: char) -> (r: Option<usize>)
    ensures
        match r {
            Some(i) => i < v@.len() && i == text::last_position(v@, c) && v@[i as int] == c
                && forall|j: int| i < j < v@.len() ==> v@[j] != c,
            None => text::last_position(v@, c) == -1 && forall|j: int|
                0 <= j < v@.len() ==> v@[j] != c,
        },
{
    let mut n: usize = v.len();
    proof {
        assert(v@.take(n as int) =~= v@);
    }
    while n > 0
        invariant
            n <= v@.len(),
            text::last_position(v@, c) == text::last_position(v@.take(n as int), c),
            forall|j: int| n <= j < v@.len() ==> v@[j] != c,
        decreases n,
    {
        if v[n - 1] == c {
            return Some(n - 1);
        }
        proof {
            assert(v@.take(n as int).drop_last() =~= v@.take(n - 1));
        }
        n = n - 1;
    }
    None
}

/// Whether `p` stands in `v` at index `at`.
pub fn occurs_at(v: &Vec<char>, p: &Vec<char>, at: usize) -> (r: bool)
    ensures
        r == text::occurs_at(v@, p@, at as int),
{
    if at > v.len() || p.len() > v.len() - at {
        return false;
    }
    let mut i: usize = 0;
    while i < p.len()
        invariant
            i <= p.len(),
            at + p.len() <= v.len(),
            forall|j: int| 0 <= j < i ==> v@[at + j] == p@[j],
        decreases p@.len() - i,
    {
        if v[at + i] != p[i] {
            proof {
                assert(v@.subrange(at as int, at + p@.len())[i as int] != p@[i as int]);
            }
            return false;
        }
        i = i + 1;
    }
    proof {
        assert(v@.subrange(at as int, at + p@.len()) =~= p@);
    }
    true
}

/// Whether `s` begins with `p`.
pub fn starts_with(s: &str, p: &str) -> (r: bool)
    ensures
        r == p@.is_prefix_of(s@),
{
    let v = chars(s);
    let w = chars(p);
    let r = occurs_at(&v, &w, 0);
    proof {
        if p@.len() <= s@.len() {
            assert(s@.subrange(0, p@.len() as int) =~= s@.take(p@.len() as int));
        }
    }
    r
}

/// Whether `s` ends with `p`.
pub fn ends_with(s: &str, p: &str) -> (r: bool)
    ensures
        r == p@.is_suffix_of(s@),
{
    let v = chars(s);
    let w = chars(p);
    if w.len() > v.len() {
        return false;
    }
    let r = occurs_at(&v, &w, v.len() - w.len());
    proof {
        assert(s@.subrange(s@.len() - p@.len(), s@.len() as int) =~= s@.skip(s@.len() - p@.len()));
    }
    r
}

/// What follows `p` at the beginning of `s`, where it stands there.
pub fn strip_prefix<'a>(s: &'a str, p: &str) -> (r: Option<&'a str>)
    ensures
        match r {
            Some(rest) => p@.is_prefix_of(s@) && rest@ == s@.skip(p@.len() as int),
            None => !p@.is_prefix_of(s@),
        },
{
    if starts_with(s, p) {
        Some(s.substring_char(p.unicode_len(), s.unicode_len()))
    } else {
        None
    }
}

/// What precedes `p` at the end of `s`, where it stands there.
pub fn strip_suffix<'a>(s: &'a str, p: &str) -> (r: Option<&'a str>)
    ensures
        match r {
            Some(rest) => p@.is_suffix_of(s@) && rest@ == s@.take(s@.len() - p@.len()),
            None => !p@.is_suffix_of(s@),
        },
{
    if ends_with(s, p) {
        Some(s.substring_char(0, s.unicode_len() - p.unicode_len()))
    } else {
        None
    }
}

/// Index of the first occurrence of `p` at or after `from`.
pub fn find_from(v: &Vec<char>, p: &Vec<char>, from: usize) -> (r: Option<usize>)
    requires
        from <= v@.len(),
    ensures
        match r {
            Some(i) => from <= i && i + p@.len() <= v@.len() && text::occurs_at(v@, p@, i as int)
                && text::find(v@.skip(from as int), p@) == Some(i - from),
            None => text::find(v@.skip(from as int), p@) is None,
        },
{
    let mut i: usize = from;
    loop
        invariant
            from <= i <= v.len(),
            text::find(v@.skip(from as int), p@) == match text::find(v@.skip(i as int), p@) {
                Some(k) => Some(k + i - from),
                None => None,
            },
        decreases v.len() - i,
    {
        let here = occurs_at(v, p, i);
        proof {
            let rest = v@.skip(i as int);
            if i + p@.len() <= v@.len() {
                assert(rest.take(p@.len() as int) =~= v@.subrange(i as int, i + p@.len()));
            }
            assert(here == p@.is_prefix_of(rest));
        }
        if here {
            return Some(i);
        }
        if i == v.len() {
            return None;
        }
        proof {
            assert(v@.skip(i as int).drop_first() =~= v@.skip(i + 1));
        }
        i = i + 1;
    }
}

/// Index, in characters, of the first occurrence of `p` in `s`.
pub fn find(s: &str, p: &str) -> (r: Option<usize>)
    ensures
        match r {
            Some(i) => i + p@.len() <= s@.len() && text::find(s@, p@) == Some(i as int),
            None => text::find(s@, p@) is None,
        },
{
    let v = chars(s);
    let w = chars(p);
    proof {
        assert(s@.skip(0) =~= s@);
    }
    find_from(&v, &w, 0)
}

/// Whether `p` stands somewhere in `s`.
pub fn contains(s: &str, p: &str) -> (r: bool)
    ensures
        r == text::contains(s@, p@),
{
    proof {
        text::find_is_first(s@, p@);
    }
    find(s, p).is_some()
}

/// The lines of `s`.
pub fn lines(s: &str) -> (r: Vec<String>)
    ensures
        r.deep_view() == text::lines(s@),
{
    let v = chars(s);
    let mut out: Vec<String> = Vec::new();
    let mut i: usize = 0;
    proof {
        assert(s@.skip(0) =~= s@);
        assert(out.deep_view() + text::lines(s@) =~= text::lines(s@));
    }
    while i < v.len()
        invariant
            i <= v.len(),
            v@ == s@,
            out.deep_view() + text::lines(s@.skip(i as int)) == text::lines(s@),
        decreases v.len() - i,
    {
        let n: usize = position(&v, i, '\n');
        let ghost rest = s@.skip(i as int);
        let ghost before = out.deep_view();
        if n == v.len() {
            out.push(string(&v, i, n));
            proof {
                assert(s@.subrange(i as int, n as int) =~= rest);
                assert(out.deep_view() =~= before + text::lines(rest));
                assert(s@.skip(n as int) =~= Seq::<char>::empty());
                assert(out.deep_view() + text::lines(s@.skip(n as int)) =~= out.deep_view());
            }
            i = n;
        } else {
            let end: usize = if n > i && v[n - 1] == '\r' {
                n - 1
            } else {
                n
            };
            out.push(string(&v, i, end));
            proof {
                let piece = s@.subrange(i as int, n as int);
                assert(rest.take(n - i) =~= piece);
                assert(s@.subrange(i as int, end as int) =~= text::without_cr(piece));
                assert(rest.skip(n - i + 1) =~= s@.skip(n + 1));
                assert(out.deep_view() =~= before + seq![text::without_cr(piece)]);
                assert(out.deep_view() + text::lines(s@.skip(n + 1)) =~= before + text::lines(rest));
            }
            i = n + 1;
        }
    }
    proof {
        assert(s@.skip(i as int) =~= Seq::<char>::empty());
        assert(out.deep_view() + text::lines(s@.skip(i as int)) =~= out.deep_view());
    }
    out
}

/// The pieces of `s` between each `c` and the next.
pub fn split(s: &str, c: char) -> (r: Vec<String>)
    ensures
        r.deep_view() == text::split(s@, c),
        r@.len() > 0,
{
    let v = chars(s);
    let mut out: Vec<String> = Vec::new();
    let mut i: usize = 0;
    proof {
        assert(s@.skip(0) =~= s@);
        assert(out.deep_view() + text::split(s@, c) =~= text::split(s@, c));
    }
    loop
        invariant
            i <= v.len(),
            v@ == s@,
            out.deep_view() + text::split(s@.skip(i as int), c) == text::split(s@, c),
        decreases v.len() - i,
    {
        let n: usize = position(&v, i, c);
        let ghost rest = s@.skip(i as int);
        let ghost before = out.deep_view();
        out.push(string(&v, i, n));
        proof {
            assert(s@.subrange(i as int, n as int) =~= rest.take(n - i));
            assert(out.deep_view() =~= before.push(rest.take(n - i)));
        }
        if n == v.len() {
            proof {
                assert(rest.take(n - i) =~= rest);
                assert(out.deep_view() =~= before + text::split(rest, c));
            }
            return out;
        }
        proof {
            assert(rest.skip(n - i + 1) =~= s@.skip(n + 1));
            assert(out.deep_view() + text::split(s@.skip(n + 1), c) =~= before + text::split(
                rest,
                c,
            ));
        }
        i = n + 1;
    }
}

/// The pieces of `s` between each `c` and the next, in at most `n` pieces.
pub fn split_n(s: &str, c: char, n: usize) -> (r: Vec<String>)
    requires
        n > 0,
    ensures
        r.deep_view() == text::split_n(s@, c, n as nat),
        0 < r@.len() <= n,
{
    let v = chars(s);
    let mut out: Vec<String> = Vec::new();
    let mut i: usize = 0;
    proof {
        assert(s@.skip(0) =~= s@);
        assert(out.deep_view() + text::split_n(s@, c, n as nat) =~= text::split_n(s@, c, n as nat));
    }
    loop
        invariant
            i <= v.len(),
            v@ == s@,
            out@.len() < n,
            out.deep_view() + text::split_n(s@.skip(i as int), c, (n - out@.len()) as nat)
                == text::split_n(s@, c, n as nat),
        decreases n - out@.len(),
    {
        let end: usize = if out.len() + 1 == n {
            v.len()
        } else {
            position(&v, i, c)
        };
        let ghost rest = s@.skip(i as int);
        let ghost left = (n - out@.len()) as nat;
        let ghost before = out.deep_view();
        out.push(string(&v, i, end));
        proof {
            assert(s@.subrange(i as int, end as int) =~= rest.take(end - i));
            assert(out.deep_view() =~= before.push(rest.take(end - i)));
        }
        if end == v.len() {
            proof {
                assert(rest.take(end - i) =~= rest);
                assert(out.deep_view() =~= before + text::split_n(rest, c, left));
            }
            return out;
        }
        proof {
            assert(rest.skip(end - i + 1) =~= s@.skip(end + 1));
            assert(out.deep_view() + text::split_n(s@.skip(end + 1), c, (left - 1) as nat) =~= before
                + text::split_n(rest, c, left));
        }
        i = end + 1;
    }
}

/// The first word of `s`; empty where `s` is blank.
pub fn first_word<'a>(s: &'a str) -> (r: &'a str)
    ensures
        r@ == text::first_word(s@),
{
    let t = trim_start(s);
    let v = chars(t);
    let mut i: usize = 0;
    proof {
        assert(t@.skip(0) =~= t@);
    }
    while i < v.len() && !is_white(v[i])
        invariant
            i <= v.len(),
            v@ == t@,
            text::word_len(t@) == i + text::word_len(t@.skip(i as int)),
        decreases v.len() - i,
    {
        proof {
            assert(t@.skip(i as int).drop_first() =~= t@.skip(i + 1));
        }
        i = i + 1;
    }
    t.substring_char(0, i)
}

/// `s` with each `c` replaced by `with`.
pub fn replace_char(s: &str, c: char, with: &str) -> (r: String)
    ensures
        r@ == text::replace_char(s@, c, with@),
{
    let v = chars(s);
    let mut out = String::new();
    let mut i: usize = 0;
    while i < v.len()
        invariant
            i <= v.len(),
            v@ == s@,
            out@ == text::replace_char(s@.take(i as int), c, with@),
        decreases v.len() - i,
    {
        let ghost before = out@;
        if v[i] == c {
            out.append(with);
        } else {
            out.push(v[i]);
        }
        proof {
            assert(s@.take(i + 1).drop_last() =~= s@.take(i as int));
            assert(before.push(v@[i as int]) =~= before + seq![v@[i as int]]);
        }
        i = i + 1;
    }
    proof {
        assert(s@.take(i as int) =~= s@);
    }
    out
}

/// The parts, with `sep` between each and the next.
pub fn join(parts: &Vec<String>, sep: &str) -> (r: String)
    ensures
        r@ == text::join(parts.deep_view(), sep@),
{
    let mut out = String::new();
    let mut i: usize = 0;
    let ghost all = parts.deep_view();
    while i < parts.len()
        invariant
            i <= parts.len(),
            all == parts.deep_view(),
            out@ == text::join(all.take(i as int), sep@),
        decreases parts.len() - i,
    {
        if i > 0 {
            out.append(sep);
        }
        out.append(parts[i].as_str());
        proof {
            let next = all.take(i + 1);
            assert(next.drop_last() =~= all.take(i as int));
            assert(next.last() == parts@[i as int]@);
            if i == 0 {
                assert(out@ =~= parts@[0]@);
            }
        }
        i = i + 1;
    }
    proof {
        assert(all.take(i as int) =~= all);
    }
    out
}

/// The character of the decimal digit `d`.
fn digit(d: u64) -> (c: char)
    requires
        d < 10,
    ensures
        c == text::digit(d as nat),
{
    if d == 0 {
        '0'
    } else if d == 1 {
        '1'
    } else if d == 2 {
        '2'
    } else if d == 3 {
        '3'
    } else if d == 4 {
        '4'
    } else if d == 5 {
        '5'
    } else if d == 6 {
        '6'
    } else if d == 7 {
        '7'
    } else if d == 8 {
        '8'
    } else {
        '9'
    }
}

/// `n` in decimal.
pub fn decimal(n: u64) -> (s: String)
    ensures
        s@ == text::decimal(n as nat),
    decreases n,
{
    if n < 10 {
        let mut s = String::new();
        s.push(digit(n));
        proof {
            assert(s@ =~= seq![text::digit(n as nat)]);
        }
        s
    } else {
        let mut s = decimal(n / 10);
        s.push(digit(n % 10));
        s
    }
}

/// `n` spaces.
pub fn spaces(n: usize) -> (s: String)
    ensures
        s@ == text::spaces(n as nat),
{
    let mut s = String::new();
    let mut i: usize = 0;
    while i < n
        invariant
            i <= n,
            s@ == text::spaces(i as nat),
        decreases n - i,
    {
        s.push(' ');
        proof {
            assert(s@ =~= text::spaces((i + 1) as nat));
        }
        i = i + 1;
    }
    proof {
        assert(s@ =~= text::spaces(n as nat));
    }
    s
}

/// `s` filled up with spaces on the right to `width` characters.
pub fn pad_end(s: &str, width: usize) -> (r: String)
    ensures
        r@ == text::pad_end(s@, width as nat),
{
    let n: usize = s.unicode_len();
    let mut out = s.to_string();
    let fill = spaces(if n < width {
        width - n
    } else {
        0
    });
    out.append(fill.as_str());
    out
}

/// `s` filled up with spaces on the left to `width` characters.
pub fn pad_start(s: &str, width: usize) -> (r: String)
    ensures
        r@ == text::pad_start(s@, width as nat),
{
    let n: usize = s.unicode_len();
    let mut out = spaces(if n < width {
        width - n
    } else {
        0
    });
    out.append(s);
    out
}

} // verus!
