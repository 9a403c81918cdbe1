//! Picking a worktree by name.

use crate::picker::{self, hits, is_hit, lowercase, lowered, meant, PickErrorView};
use crate::text;
use crate::vcs::WorktreeView;
use vstd::prelude::*;

verus! {

/// `q` stands in `s` somewhere.
pub open spec fn stands_in(q: Seq<char>, s: Seq<char>) -> bool {
    exists|i: int| 0 <= i && i + q.len() <= s.len() && #[trigger] s.subrange(i, i + q.len()) == q
}

/// The name or the branch of the row holds the query, case aside.
pub open spec fn matches_query(w: WorktreeView, q: Seq<char>) -> bool {
    ||| stands_in(lowercase(q), lowercase(w.name))
    ||| w.branch is Some && stands_in(lowercase(q), lowercase(w.branch->0))
}

/// What [`picker::resolve_by_query`] picks from.
pub open spec fn picked(rows: Seq<WorktreeView>, q: Seq<char>) -> Result<int, PickErrorView> {
    meant(rows, rows.map_values(|w: WorktreeView| lowered(w)), q, lowercase(q))
}

proof fn contains_is_standing_in(q: Seq<char>, s: Seq<char>)
    ensures
        text::contains(s, q) == stands_in(q, s),
{
    text::find_is_first(s, q);
    if stands_in(q, s) {
        let i = choose|i: int|
            0 <= i && i + q.len() <= s.len() && #[trigger] s.subrange(i, i + q.len()) == q;
        assert(text::occurs_at(s, q, i));
    }
    if text::contains(s, q) {
        let i = text::find(s, q)->0;
        assert(text::occurs_at(s, q, i));
        assert(s.subrange(i, i + q.len()) == q);
    }
}

proof fn hits_are_matches(rows: Seq<WorktreeView>, q: Seq<char>)
    ensures
        ({
            let h = hits(rows.map_values(|w: WorktreeView| lowered(w)), lowercase(q));
            &&& forall|k: int|
                0 <= k < h.len() ==> 0 <= #[trigger] h[k] < rows.len() && matches_query(
                    rows[h[k]],
                    q,
                )
            &&& forall|k: int, l: int| 0 <= k < l < h.len() ==> #[trigger] h[k] < #[trigger] h[l]
            &&& forall|i: int|
                0 <= i < rows.len() && matches_query(#[trigger] rows[i], q) ==> h.contains(i)
        }),
    decreases rows.len(),
{
    let low = |w: WorktreeView| lowered(w);
    let lows = rows.map_values(low);
    let h = hits(lows, lowercase(q));
    if rows.len() > 0 {
        let head = rows.drop_last();
        assert(head.map_values(low) =~= lows.drop_last());
        hits_are_matches(head, q);
        let g = hits(lows.drop_last(), lowercase(q));
        let w = rows.last();
        contains_is_standing_in(lowercase(q), lowercase(w.name));
        if w.branch is Some {
            contains_is_standing_in(lowercase(q), lowercase(w.branch->0));
        }
        assert(is_hit(lows.last(), lowercase(q)) == matches_query(w, q));
        assert forall|k: int| 0 <= k < h.len() implies 0 <= #[trigger] h[k] < rows.len()
            && matches_query(rows[h[k]], q) by {
            if k < g.len() {
                assert(h[k] == g[k]);
                assert(rows[h[k]] == head[g[k]]);
            }
        }
        assert forall|k: int, l: int| 0 <= k < l < h.len() implies #[trigger] h[k]
            < #[trigger] h[l] by {
            assert(h[k] == g[k]);
            if l < g.len() {
                assert(h[l] == g[l]);
            }
        }
        assert forall|i: int| 0 <= i < rows.len() && matches_query(#[trigger] rows[i], q) implies h.contains(
            i,
        ) by {
            if i < head.len() {
                assert(rows[i] == head[i]);
                let k = choose|k: int| 0 <= k < g.len() && g[k] == i;
                assert(h[k] == i);
            } else {
                assert(h[h.len() - 1] == i);
            }
        }
    }
}

/// What a query picks. A row that is called exactly that comes first, then a row
/// on exactly that branch; of several the first. Else the rows that hold it,
/// case aside, decide: the only one is picked, none and several are errors, and
/// the error names all of them in order.
pub proof fn query_picks_what_it_names(rows: Seq<WorktreeView>, q: Seq<char>)
    ensures
        match picked(rows, q) {
            Ok(i) => 0 <= i < rows.len() && {
                ||| rows[i].name == q && forall|j: int|
                    0 <= j < i ==> (#[trigger] rows[j]).name != q
                ||| rows[i].branch == Some(q) && (forall|j: int|
                    0 <= j < rows.len() ==> (#[trigger] rows[j]).name != q) && forall|j: int|
                    0 <= j < i ==> (#[trigger] rows[j]).branch != Some(q)
                ||| matches_query(rows[i], q) && forall|j: int|
                    0 <= j < rows.len() ==> {
                        &&& (#[trigger] rows[j]).name != q
                        &&& rows[j].branch != Some(q)
                        &&& matches_query(rows[j], q) ==> j == i
                    }
            },
            Err(PickErrorView::NoMatch(p)) => p == q && forall|j: int|
                0 <= j < rows.len() ==> {
                    &&& (#[trigger] rows[j]).name != q
                    &&& rows[j].branch != Some(q)
                    &&& !matches_query(rows[j], q)
                },
            Err(PickErrorView::Ambiguous(p, names)) => {
                &&& p == q
                &&& names.len() >= 2
                &&& forall|j: int|
                    0 <= j < rows.len() ==> (#[trigger] rows[j]).name != q && rows[j].branch
                        != Some(q)
                &&& exists|at: Seq<int>|
                    {
                        &&& #[trigger] at.len() == names.len()
                        &&& forall|k: int|
                            0 <= k < at.len() ==> 0 <= #[trigger] at[k] < rows.len()
                                && matches_query(rows[at[k]], q) && names[k] == rows[at[k]].name
                        &&& forall|k: int, l: int|
                            0 <= k < l < at.len() ==> #[trigger] at[k] < #[trigger] at[l]
                        &&& forall|i: int|
                            0 <= i < rows.len() && matches_query(#[trigger] rows[i], q)
                                ==> at.contains(i)
                    }
            },
            Err(_) => false,
        },
{
    let lows = rows.map_values(|w: WorktreeView| lowered(w));
    let h = hits(lows, lowercase(q));
    hits_are_matches(rows, q);
    picker::first_named_is_first(rows, q);
    picker::first_on_is_first(rows, q);
    if picker::first_named(rows, q) is None && picker::first_on(rows, q) is None {
        if h.len() == 0 {
            assert forall|j: int| 0 <= j < rows.len() implies !matches_query(
                #[trigger] rows[j],
                q,
            ) by {
                if matches_query(rows[j], q) {
                    assert(h.contains(j));
                }
            }
        } else if h.len() == 1 {
            assert(matches_query(rows[h[0]], q));
            assert forall|j: int|
                0 <= j < rows.len() && matches_query(#[trigger] rows[j], q) implies j == h[0] by {
                assert(h.contains(j));
            }
        } else {
            let names = Seq::new(h.len(), |i: int| rows[h[i]].name);
            assert(h.len() == names.len());
        }
    }
}

} // verus!
