//! On Windows a slash will do for a backslash.

use super::prefix::{
    first_sep, first_sep_stays, is_double, is_verbatim, prefix, prefix_stays, separates, share,
    Rules,
};
use super::{components, head, pieces, rules, start};
use vstd::prelude::*;

verus! {

/// The texts differ only in which separators they have.
pub open spec fn alike(p: Seq<char>, q: Seq<char>) -> bool {
    &&& p.len() == q.len()
    &&& forall|i: int|
        0 <= i < p.len() ==> #[trigger] p[i] == q[i] || separates(p[i], Rules::Windows)
            && separates(q[i], Rules::Windows)
}

/// Paths that differ only in which separators they have are the same, unless one
/// of them is to be taken word for word.
pub proof fn either_separator_will_do(p: Seq<char>, q: Seq<char>)
    requires
        alike(p, q),
        !is_verbatim(p),
        !is_verbatim(q),
    ensures
        components(p, true) == components(q, true),
{
    prefixes_are_alike(p, q);
    prefix_stays(p);
    let k = start(p, true);
    assert(p.len() > 0 ==> p[0] == q[0] || separates(p[0], Rules::Windows));
    assert(start(q, true) == k);
    assert(head(q, true) == head(p, true));
    skips_are_alike(p, q, k);
    pieces_are_alike(p.skip(k), q.skip(k));
    assert(rules(p, true) == Rules::Windows && rules(q, true) == Rules::Windows);
}

proof fn skips_are_alike(p: Seq<char>, q: Seq<char>, k: int)
    requires
        alike(p, q),
        0 <= k <= p.len(),
    ensures
        alike(p.skip(k), q.skip(k)),
{
    let a = p.skip(k);
    let b = q.skip(k);
    assert forall|i: int| 0 <= i < a.len() implies #[trigger] a[i] == b[i] || separates(
        a[i],
        Rules::Windows,
    ) && separates(b[i], Rules::Windows) by {
        assert(p[i + k] == a[i] && q[i + k] == b[i]);
    }
}

proof fn first_seps_are_alike(p: Seq<char>, q: Seq<char>)
    requires
        alike(p, q),
    ensures
        first_sep(p, Rules::Windows) == first_sep(q, Rules::Windows),
        p.take(first_sep(p, Rules::Windows)) == q.take(first_sep(p, Rules::Windows)),
{
    let r = Rules::Windows;
    first_sep_stays(p, r);
    first_sep_stays(q, r);
    let n = first_sep(p, r);
    let m = first_sep(q, r);
    if n < m {
        assert(p[n] == q[n] || separates(q[n], r));
        assert(!separates(q[n], r));
    }
    if m < n {
        assert(p[m] == q[m] || separates(p[m], r));
        assert(!separates(p[m], r));
    }
    assert forall|i: int| 0 <= i < n implies p[i] == q[i] by {
        assert(!separates(p[i], r));
    }
    assert(p.take(n) =~= q.take(n));
}

proof fn prefixes_are_alike(p: Seq<char>, q: Seq<char>)
    requires
        alike(p, q),
        !is_verbatim(p),
        !is_verbatim(q),
    ensures
        prefix(p) == prefix(q),
{
    let r = Rules::Windows;
    if p.len() >= 2 {
        assert(p[0] == q[0] || separates(p[0], r) && separates(q[0], r));
        assert(p[1] == q[1] || separates(p[1], r) && separates(q[1], r));
    }
    if p.len() >= 4 {
        assert(p[2] == q[2] || separates(p[2], r) && separates(q[2], r));
        assert(p[3] == q[3] || separates(p[3], r) && separates(q[3], r));
        skips_are_alike(p, q, 4);
        first_sep_stays(p.skip(4), r);
        first_seps_are_alike(p.skip(4), q.skip(4));
        let n = first_sep(p.skip(4), r);
        assert(p.subrange(4, 4 + n) =~= p.skip(4).take(n));
        assert(q.subrange(4, 4 + n) =~= q.skip(4).take(n));
    }
    if is_double(p) {
        shares_are_alike(p, q);
    }
}

proof fn shares_are_alike(p: Seq<char>, q: Seq<char>)
    requires
        alike(p, q),
        p.len() >= 2,
    ensures
        share(p) == share(q),
{
    let r = Rules::Windows;
    skips_are_alike(p, q, 2);
    first_sep_stays(p.skip(2), r);
    first_seps_are_alike(p.skip(2), q.skip(2));
    let a = first_sep(p.skip(2), r);
    let n = 2 + a;
    assert(p.subrange(2, n) =~= p.skip(2).take(a));
    assert(q.subrange(2, n) =~= q.skip(2).take(a));
    if n < p.len() {
        skips_are_alike(p, q, n + 1);
        first_sep_stays(p.skip(n + 1), r);
        first_seps_are_alike(p.skip(n + 1), q.skip(n + 1));
        let b = first_sep(p.skip(n + 1), r);
        assert(p.subrange(n + 1, n + 1 + b) =~= p.skip(n + 1).take(b));
        assert(q.subrange(n + 1, n + 1 + b) =~= q.skip(n + 1).take(b));
    }
}

proof fn pieces_are_alike(a: Seq<char>, b: Seq<char>)
    requires
        alike(a, b),
    ensures
        pieces(a, Rules::Windows) == pieces(b, Rules::Windows),
    decreases a.len(),
{
    first_sep_stays(a, Rules::Windows);
    first_seps_are_alike(a, b);
    let n = first_sep(a, Rules::Windows);
    if n < a.len() {
        skips_are_alike(a, b, n + 1);
        pieces_are_alike(a.skip(n + 1), b.skip(n + 1));
    } else {
        assert(a.take(n) =~= a && b.take(n) =~= b);
    }
}

} // verus!
