//! What is joined to a path can be taken apart again.

use super::prefix::{
    drive_at, first_sep, first_sep_stays, is_double, is_verbatim, lone, prefix, prefix_stays,
    separates, verbatim, Class, Rules,
};
use super::{
    base, component, components, counts, file_name, follow, head, is_absolute, is_drive, join,
    last_sep, main_sep, named, parent, pieces, platform, prefix_len, prefix_of, rules, start,
    trim_tail, written,
};
use vstd::prelude::*;

verus! {

/// A path that is not empty and has nothing to trim at its end. Where it is to be
/// taken word for word it is written with single separators.
pub open spec fn is_tidy(p: Seq<char>, windows: bool) -> bool {
    &&& p.len() > 0
    &&& trim_tail(p, base(p, windows), rules(p, windows)) == p
    &&& rules(p, windows) == Rules::Verbatim ==> written(
        components(p, windows),
        p.take(prefix_len(p, windows)),
    ) == p
}

/// How the path begins does not depend on what follows it: on Windows a prefix
/// other than a drive is complete and followed by a separator, and where there is
/// no prefix the path does not begin with two separators, to which a share could
/// be joined.
pub open spec fn is_settled(p: Seq<char>, windows: bool) -> bool {
    windows ==> match prefix(p) {
        Some((c, n)) => c.class == Class::Disk || n < p.len() && (c.class == Class::VerbatimUnc
            ==> c.share.len() > 0),
        None => !is_double(p),
    }
}

/// A name that can stand between separators: not empty, without a separator,
/// neither a dot nor two, and not one that begins with a drive.
pub open spec fn is_plain_name(n: Seq<char>, windows: bool) -> bool {
    &&& n.len() > 0
    &&& forall|i: int| 0 <= i < n.len() ==> !separates(#[trigger] n[i], platform(windows))
    &&& n != seq!['.']
    &&& n != seq!['.', '.']
    &&& windows ==> !drive_at(n, 0)
}

/// What is joined to a tidy path can be taken apart again: the result is tidy, it
/// stands in that path and is called what was joined.
pub proof fn joining_is_undone(p: Seq<char>, n: Seq<char>, windows: bool)
    requires
        is_tidy(p, windows),
        is_settled(p, windows),
        is_plain_name(n, windows),
    ensures
        is_tidy(join(p, n, windows), windows),
        is_settled(join(p, n, windows), windows),
        parent(join(p, n, windows), windows) == Some(p),
        file_name(join(p, n, windows), windows) == Some(n),
{
    let s = join(p, n, windows);
    joining_appends(p, n, windows);
    beginning_is_kept(p, n, s, windows);
    end_is_found(p, n, s, windows);
    components_grow(p, n, s, windows);
    let c = components(s, windows);
    assert(c.last() == lone(Class::Normal, n));
    if rules(s, windows) == Rules::Verbatim {
        beginning_fits(p, windows);
        assert(s.take(p.len() as int) =~= p);
        assert(c.drop_last() =~= components(p, windows));
        assert(s.take(prefix_len(s, windows)) =~= p.take(prefix_len(p, windows)));
        verbatim_is_joined(p, n);
        assert(written(c, s.take(prefix_len(s, windows))) == s);
    }
}

/// `s` is `n` appended to `p`, with a separator between them unless `p` is a root
/// or a drive.
spec fn appends(p: Seq<char>, n: Seq<char>, s: Seq<char>, windows: bool) -> bool {
    ||| s == p + seq![main_sep(windows)] + n && !separates(p.last(), rules(p, windows))
        && !is_drive(p, windows)
    ||| s == p + n && p.len() == start(p, windows)
}

proof fn trim_tail_is_shorter(s: Seq<char>, n: int, r: Rules)
    ensures
        trim_tail(s, n, r).len() <= s.len(),
    decreases s.len(),
{
    if s.len() > 0 {
        trim_tail_is_shorter(s.drop_last(), n, r);
    }
}

proof fn beginning_fits(p: Seq<char>, windows: bool)
    ensures
        0 <= prefix_len(p, windows) <= start(p, windows) <= base(p, windows) <= p.len(),
{
    prefix_stays(p);
}

/// A tidy path that ends with a separator ends there.
proof fn tidy_ends(p: Seq<char>, windows: bool)
    requires
        is_tidy(p, windows),
        separates(p.last(), rules(p, windows)),
    ensures
        p.len() == base(p, windows),
{
    beginning_fits(p, windows);
    if p.len() > base(p, windows) {
        trim_tail_is_shorter(p.drop_last(), base(p, windows), rules(p, windows));
    }
}

proof fn name_has_no_separator(n: Seq<char>, windows: bool, r: Rules)
    requires
        is_plain_name(n, windows),
        r == platform(windows) || windows && r == Rules::Verbatim,
    ensures
        forall|i: int| 0 <= i < n.len() ==> !separates(#[trigger] n[i], r),
        first_sep(n, r) == n.len(),
        pieces(n, r) == seq![n],
{
    assert forall|i: int| 0 <= i < n.len() implies !separates(#[trigger] n[i], r) by {
        assert(!separates(n[i], platform(windows)));
    }
    first_sep_stays(n, r);
}

/// The name by itself has no prefix and no root, and is one component.
proof fn name_is_alone(n: Seq<char>, windows: bool)
    requires
        is_plain_name(n, windows),
    ensures
        prefix_of(n, windows) is None,
        !is_absolute(n, windows),
        !super::has_root(n, windows),
        components(n, windows) == seq![lone(Class::Normal, n)],
{
    name_has_no_separator(n, windows, platform(windows));
    assert(!separates(n[0], platform(windows)));
    assert(n.skip(0) =~= n);
    if n.len() > 1 {
        assert(!separates(n[1], platform(windows)));
    } else if n[0] == '.' {
        assert(n =~= seq!['.']);
    }
    reveal_with_fuel(named, 2);
    assert(seq![n].drop_last() =~= seq![]);
    assert(head(n, windows) =~= seq![]);
    assert(components(n, windows) =~= seq![lone(Class::Normal, n)]);
}

/// Where a path is to be taken word for word, joining is appending.
proof fn verbatim_is_joined(p: Seq<char>, n: Seq<char>)
    requires
        is_tidy(p, true),
        is_settled(p, true),
        rules(p, true) == Rules::Verbatim,
        is_plain_name(n, true),
    ensures
        components(p, true).len() > 0,
        join(p, n, true) == written(
            components(p, true).push(lone(Class::Normal, n)),
            p.take(prefix_len(p, true)),
        ),
        join(p, n, true) == if components(p, true).last().class == Class::Root {
            p + n
        } else {
            p + seq!['\\'] + n
        },
{
    name_is_alone(n, true);
    let c = components(p, true);
    let x = lone(Class::Normal, n);
    let front = p.take(prefix_len(p, true));
    prefix_stays(p);
    assert(prefix(p) is Some);
    assert(c.len() > 0);
    reveal_with_fuel(follow, 2);
    assert(seq![x].drop_last() =~= seq![]);
    assert(follow(c, seq![x]) == c.push(x));
    let d = c.push(x);
    assert(d.drop_last() =~= c);
    assert(d[d.len() - 2] == c.last());
}

proof fn joining_appends(p: Seq<char>, n: Seq<char>, windows: bool)
    requires
        is_tidy(p, windows),
        is_settled(p, windows),
        is_plain_name(n, windows),
    ensures
        appends(p, n, join(p, n, windows), windows),
{
    name_is_alone(n, windows);
    prefix_stays(p);
    beginning_fits(p, windows);
    if rules(p, windows) == Rules::Verbatim {
        verbatim_is_joined(p, n);
        let c = components(p, true);
        let front = p.take(prefix_len(p, true));
        let w = written(c.drop_last(), front);
        if c.last().class == Class::Root {
            assert(p == w + seq!['\\']);
            assert(p.last() == '\\');
            tidy_ends(p, windows);
        } else if p.last() == '\\' {
            tidy_ends(p, windows);
            assert(p.skip(start(p, true)) =~= seq![]);
            reveal_with_fuel(named, 2);
            let none: Seq<char> = seq![];
            assert(pieces(none, Rules::Verbatim) =~= seq![none]);
            assert(seq![none].drop_last() =~= seq![]);
            assert(components(p, true) =~= head(p, true));
        }
    } else if separates(p.last(), platform(windows)) {
        tidy_ends(p, windows);
    }
}

proof fn first_sep_is_kept(a: Seq<char>, t: Seq<char>, r: Rules)
    requires
        first_sep(a, r) < a.len(),
    ensures
        first_sep(a + t, r) == first_sep(a, r),
    decreases a.len(),
{
    if !separates(a[0], r) {
        assert((a + t).drop_first() =~= a.drop_first() + t);
        first_sep_is_kept(a.drop_first(), t, r);
    }
}

proof fn skips(p: Seq<char>, t: Seq<char>, k: int)
    requires
        0 <= k <= p.len(),
    ensures
        (p + t).skip(k) == p.skip(k) + t,
{
    assert((p + t).skip(k) =~= p.skip(k) + t);
}

proof fn verbatim_is_kept(p: Seq<char>, t: Seq<char>)
    requires
        is_verbatim(p),
        is_settled(p, true),
    ensures
        is_verbatim(p + t),
        verbatim(p + t) == verbatim(p),
{
    let s = p + t;
    prefix_stays(p);
    assert(forall|i: int| 0 <= i < p.len() ==> s[i] == p[i]);
    let (c, end) = verbatim(p);
    assert(prefix(p) == Some((c, end)));
    if p.len() >= 8 && p[4] == 'U' && p[5] == 'N' && p[6] == 'C' && p[7] == '\\' {
        let a = p.skip(8);
        skips(p, t, 8);
        first_sep_stays(a, Rules::Verbatim);
        let n = 8 + first_sep(a, Rules::Verbatim);
        if n < p.len() {
            first_sep_is_kept(a, t, Rules::Verbatim);
            let b = p.skip(n + 1);
            skips(p, t, n + 1);
            first_sep_stays(b, Rules::Verbatim);
            first_sep_is_kept(b, t, Rules::Verbatim);
            assert(s.subrange(8, n) =~= p.subrange(8, n));
            assert(s.subrange(n + 1, end) =~= p.subrange(n + 1, end));
        }
    } else if drive_at(p, 4) && (p.len() == 6 || separates(p[6], Rules::Windows)) {
    } else {
        let a = p.skip(4);
        skips(p, t, 4);
        first_sep_stays(a, Rules::Verbatim);
        first_sep_is_kept(a, t, Rules::Verbatim);
        assert(a[end - 4] == p[end]);
        assert(s.subrange(4, end) =~= p.subrange(4, end));
        assert(p[end] == '\\');
        assert(4 <= end < p.len());
    }
}

/// A prefix that is followed by a separator stays what it is.
proof fn prefix_is_kept(p: Seq<char>, t: Seq<char>)
    requires
        prefix(p) is Some,
        is_settled(p, true),
    ensures
        prefix(p + t) == prefix(p),
        is_verbatim(p + t) == is_verbatim(p),
{
    let s = p + t;
    prefix_stays(p);
    assert(forall|i: int| 0 <= i < p.len() ==> s[i] == p[i]);
    if is_verbatim(p) {
        verbatim_is_kept(p, t);
    } else if is_double(p) {
        let from: int = if p.len() >= 4 && p[2] == '.' && separates(p[3], Rules::Windows) {
            4
        } else {
            2
        };
        let a = p.skip(from);
        skips(p, t, from);
        first_sep_stays(a, Rules::Windows);
        first_sep_is_kept(a, t, Rules::Windows);
        let n = from + first_sep(a, Rules::Windows);
        assert(s.subrange(from, n) =~= p.subrange(from, n));
        if from == 2 {
            let b = p.skip(n + 1);
            skips(p, t, n + 1);
            first_sep_stays(b, Rules::Windows);
            first_sep_is_kept(b, t, Rules::Windows);
            let m = n + 1 + first_sep(b, Rules::Windows);
            assert(s.subrange(n + 1, m) =~= p.subrange(n + 1, m));
        }
    }
}

proof fn beginning_is_kept(p: Seq<char>, n: Seq<char>, s: Seq<char>, windows: bool)
    requires
        is_tidy(p, windows),
        is_settled(p, windows),
        is_plain_name(n, windows),
        appends(p, n, s, windows),
    ensures
        prefix_of(s, windows) == prefix_of(p, windows),
        rules(s, windows) == rules(p, windows),
        start(s, windows) == start(p, windows),
        base(s, windows) == base(p, windows),
        head(s, windows) == head(p, windows),
        is_settled(s, windows),
{
    beginning_fits(p, windows);
    assert(!separates(n[0], platform(windows)));
    let t = s.skip(p.len() as int);
    assert(s =~= p + t);
    assert(forall|i: int| 0 <= i < p.len() ==> s[i] == p[i]);
    if s == p + n {
        assert(s[p.len() as int] == n[0]);
    } else {
        assert(s[p.len() as int] == main_sep(windows));
    }
    if windows {
        if prefix(p) is Some {
            prefix_is_kept(p, t);
        } else {
            assert(!is_double(s));
            assert(!drive_at(s, 0));
            assert(prefix(s) is None);
        }
    }
    assert(prefix_of(s, windows) == prefix_of(p, windows));
    assert(rules(s, windows) == rules(p, windows));
    assert(start(s, windows) == start(p, windows));
    let k = start(p, windows);
    if k == p.len() && !super::has_root(p, windows) {
        if n[0] == '.' && n.len() == 1 {
            assert(n =~= seq!['.']);
        }
        if n.len() > 1 {
            assert(s[k + 1] == n[1]);
            assert(!separates(n[1], platform(windows)));
        }
    }
    assert(super::starts_here(s, windows) == super::starts_here(p, windows));
}

/// The last separator stands where it was put.
proof fn last_sep_is(s: Seq<char>, k: int, n: int, r: Rules)
    requires
        0 <= n <= k < s.len(),
        separates(s[k], r),
        forall|i: int| k < i < s.len() ==> !separates(#[trigger] s[i], r),
    ensures
        last_sep(s, n, r) == k,
    decreases s.len(),
{
    if k < s.len() - 1 {
        last_sep_is(s.drop_last(), k, n, r);
    }
}

proof fn last_sep_is_not(s: Seq<char>, n: int, r: Rules)
    requires
        0 <= n <= s.len(),
        forall|i: int| n <= i < s.len() ==> !separates(#[trigger] s[i], r),
    ensures
        last_sep(s, n, r) == n,
    decreases s.len(),
{
    if n < s.len() {
        last_sep_is_not(s.drop_last(), n, r);
    }
}

proof fn end_is_found(p: Seq<char>, n: Seq<char>, s: Seq<char>, windows: bool)
    requires
        is_tidy(p, windows),
        is_plain_name(n, windows),
        appends(p, n, s, windows),
        rules(s, windows) == rules(p, windows),
        base(s, windows) == base(p, windows),
    ensures
        trim_tail(s, base(s, windows), rules(s, windows)) == s,
        parent(s, windows) == Some(p),
{
    let r = rules(p, windows);
    let b = base(p, windows);
    beginning_fits(p, windows);
    name_has_no_separator(n, windows, r);
    let m = s.len() - n.len();
    assert forall|i: int| m <= i < s.len() implies !separates(#[trigger] s[i], r) by {
        assert(s[i] == n[i - m]);
    }
    assert(s.last() == n.last());
    if n.len() > 1 {
        assert(s[s.len() - 2] == n[n.len() - 2]);
    } else if n.last() == '.' {
        assert(n =~= seq!['.']);
    }
    assert(trim_tail(s, b, r) == s);
    if s == p + n {
        last_sep_is_not(s, b, r);
        assert(s.take(b) =~= p);
    } else {
        let k = p.len() as int;
        assert(s[k] == main_sep(windows));
        last_sep_is(s, k, b, r);
        assert(s.take(k) =~= p);
    }
}

/// The pieces of a path to which a name is appended.
proof fn pieces_grow(a: Seq<char>, c: char, n: Seq<char>, r: Rules)
    requires
        separates(c, r),
        pieces(n, r) == seq![n],
    ensures
        pieces(a + seq![c] + n, r) == pieces(a, r).push(n),
    decreases a.len(),
{
    let s = a + seq![c] + n;
    first_sep_stays(a, r);
    let i = first_sep(a, r);
    if i < a.len() {
        let t = seq![c] + n;
        assert(s =~= a + t);
        first_sep_is_kept(a, t, r);
        let b = a.skip(i + 1);
        assert(s.skip(i + 1) =~= b + seq![c] + n);
        assert(s.take(i) =~= a.take(i));
        pieces_grow(b, c, n, r);
        assert(pieces(s, r) =~= pieces(a, r).push(n));
    } else {
        let t = a + seq![c];
        assert(t.take(a.len() as int) =~= a);
        first_sep_stays(s, r);
        assert(s[i] == c);
        assert forall|j: int| 0 <= j < i implies !separates(#[trigger] s[j], r) by {
            assert(s[j] == a[j]);
        }
        assert(first_sep(s, r) == i) by {
            let f = first_sep(s, r);
            if f < i {
                assert(!separates(s[f], r));
            } else if f > i {
                assert(!separates(s[i], r));
            }
        }
        assert(s.skip(i + 1) =~= n);
        assert(s.take(i) =~= a);
        assert(pieces(s, r) =~= pieces(a, r).push(n));
    }
}

proof fn components_grow(p: Seq<char>, n: Seq<char>, s: Seq<char>, windows: bool)
    requires
        is_plain_name(n, windows),
        appends(p, n, s, windows),
        rules(s, windows) == rules(p, windows),
        start(s, windows) == start(p, windows),
        head(s, windows) == head(p, windows),
    ensures
        components(s, windows) == components(p, windows).push(lone(Class::Normal, n)),
{
    let r = rules(p, windows);
    let k = start(p, windows);
    let x = lone(Class::Normal, n);
    beginning_fits(p, windows);
    name_has_no_separator(n, windows, r);
    let a = p.skip(k);
    assert(counts(n, r) && component(n) == x);
    if s == p + n {
        assert(s.skip(k) =~= n);
        let none: Seq<char> = seq![];
        assert(a =~= none);
        reveal_with_fuel(named, 2);
        assert(pieces(none, r) =~= seq![none]);
        assert(seq![none].drop_last() =~= seq![]);
        assert(seq![n].drop_last() =~= seq![]);
        assert(named(pieces(n, r), r) =~= named(pieces(a, r), r).push(x));
    } else {
        assert(s.skip(k) =~= a + seq![main_sep(windows)] + n);
        pieces_grow(a, main_sep(windows), n, r);
        let ps = pieces(a, r).push(n);
        assert(ps.drop_last() =~= pieces(a, r));
    }
    assert(components(s, windows) =~= components(p, windows).push(x));
}

} // verus!
