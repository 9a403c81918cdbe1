//! A whole sweep: every row is judged, and every row that is finished is removed.

use crate::pr_cache::{
    best, best_is_best_ranked, by_branch, found_for, loaded, CacheFileView, Load, PrInfoView,
};
use crate::removal::{self, swept};
use crate::sweep::{self, Judged};
use crate::sweeping::{follows, is_judged, Stage, SweepReply, Sweeping};
use crate::vcs::WorktreeView;
use vstd::prelude::*;

verus! {

/// What is to be removed is exactly what was judged so.
pub proof fn all_that_is_judged_so_is_removed(judged: Seq<Judged>, i: int)
    ensures
        swept(judged).contains(i) <==> 0 <= i < judged.len() && judged[i].verdict is Sweep,
    decreases judged.len(),
{
    if judged.len() > 0 {
        let head = judged.drop_last();
        all_that_is_judged_so_is_removed(head, i);
        let a = swept(head);
        let b = swept(judged);
        if a.contains(i) {
            let k = choose|k: int| 0 <= k < a.len() && a[k] == i;
            assert(b[k] == i);
            assert(judged[i] == head[i]);
        }
        if b.contains(i) {
            let k = choose|k: int| 0 <= k < b.len() && b[k] == i;
            if k < a.len() {
                assert(a[k] == i);
                assert(judged[i] == head[i]);
            }
        }
        if 0 <= i < judged.len() && judged[i].verdict is Sweep {
            if i < head.len() {
                assert(judged[i] == head[i]);
            } else {
                assert(b[b.len() - 1] == i);
            }
        }
    }
}

/// Judging goes through all rows, each with its own pull request and with what is
/// known of its own content, and gathers all that are to be removed, in order. It
/// is over where there are none, and otherwise goes on to the removals, to the
/// question, or to a refusal.
pub proof fn judging_covers_every_row(s: Sweeping, landed: Seq<bool>, t: Sweeping, i: int)
    requires
        is_judged(s, landed, t),
        0 <= i < s.rows@.len(),
    ensures
        t.judged@.len() == s.rows@.len(),
        ({
            let w = s.rows.deep_view()[i];
            let j = t.judged@[i];
            let up = i < landed.len() && landed[i];
            &&& j.row == i
            &&& found_for(w, s.prs@, j.pr.deep_view())
            &&& j.verdict.deep_view() == sweep::verdict(w, j.pr.deep_view(), up, s.force)
            &&& (exists|k: int| 0 <= k < t.todo@.len() && #[trigger] t.todo@[k] == i) <==> (
            j.verdict is Sweep)
        }),
        t.stage == Stage::Done <==> t.todo@.len() == 0,
        t.stage == Stage::Remove <==> t.todo@.len() > 0 && s.yes,
        t.stage == Stage::Refused <==> t.todo@.len() > 0 && !s.yes && s.non_interactive,
        t.stage == Stage::Confirm <==> t.todo@.len() > 0 && !s.yes && !s.non_interactive,
{
    assert(t.judged@[i].row == i);
    assert(s.rows.deep_view().len() == s.rows@.len());
    all_that_is_judged_so_is_removed(t.judged@, i);
    let m = t.todo@.map_values(|i: usize| i as int);
    if exists|k: int| 0 <= k < t.todo@.len() && #[trigger] t.todo@[k] == i {
        let k = choose|k: int| 0 <= k < t.todo@.len() && #[trigger] t.todo@[k] == i;
        assert(m[k] == i);
        assert(m.contains(i));
    }
    if m.contains(i) {
        let k = choose|k: int| 0 <= k < m.len() && m[k] == i;
        assert(t.todo@[k] == i);
    }
}

/// How a sweep goes on: fetch, pull requests, upstream, the content of each row in
/// turn, judging, the question, and each removal in turn. A fetch or a removal
/// that fails does not stop it.
pub proof fn sweep_goes_on(s: Sweeping, reply: SweepReply, t: Sweeping)
    requires
        s.valid(),
        follows(s, reply, t),
    ensures
        t.rows == s.rows && t.yes == s.yes && t.force == s.force && t.non_interactive
            == s.non_interactive,
        match (s.stage, reply) {
            (Stage::Fetch, SweepReply::Fetched(_)) => t.stage == Stage::Load && t.landed == s.landed,
            (Stage::Load, SweepReply::Prs(prs)) => t.stage == Stage::Probe && t.prs == prs
                && t.landed == s.landed,
            (Stage::Probe, SweepReply::Upstream(true)) => s.rows@.len() > s.landed@.len()
                ==> t.stage == Stage::Land && t.landed == s.landed && t.prs == s.prs,
            (Stage::Probe, SweepReply::Upstream(false)) => is_judged(s, s.landed@, t),
            (Stage::Land, SweepReply::Landed(b)) => {
                &&& t.landed@ == s.landed@.push(b)
                &&& t.prs == s.prs
                &&& s.landed@.len() + 1 < s.rows@.len() ==> t.stage == Stage::Land
                &&& s.landed@.len() + 1 >= s.rows@.len() ==> is_judged(s, s.landed@.push(b), t)
            },
            (Stage::Confirm, SweepReply::Answer(true)) => s.todo@.len() > 0 ==> t.stage
                == Stage::Remove && t.todo == s.todo && t.judged == s.judged && t.results
                == s.results,
            (Stage::Confirm, SweepReply::Answer(false)) => t.stage == Stage::Done && t.results
                == s.results,
            (Stage::Remove, SweepReply::Removed(b)) => {
                &&& t.results@ == s.results@.push(b)
                &&& t.todo == s.todo && t.judged == s.judged
                &&& t.stage == Stage::Done <==> t.results@.len() == s.todo@.len()
                &&& t.stage == Stage::Remove <==> t.results@.len() < s.todo@.len()
            },
            (Stage::Done, _) => t == s,
            (Stage::Refused, _) => t == s,
            _ => t == s || (s.stage == Stage::Probe && reply is Upstream),
        },
{
}

/// The names are the same but for slashes in place of dashes.
pub open spec fn alike_but_for_slashes(a: Seq<char>, b: Seq<char>) -> bool {
    a.len() == b.len() && forall|i: int|
        0 <= i < a.len() ==> #[trigger] a[i] == b[i] || (a[i] == '/' || a[i] == '-') && (b[i] == '/'
            || b[i] == '-')
}

/// The pull request could be that of the worktree, by its branch or its name.
pub open spec fn could_belong(w: WorktreeView, pr: PrInfoView) -> bool {
    ||| w.branch is Some && alike_but_for_slashes(w.branch->0, pr.head_ref_name)
    ||| alike_but_for_slashes(w.name, pr.head_ref_name)
}

proof fn flat_is_alike(a: Seq<char>, b: Seq<char>)
    ensures
        crate::pr_cache::flat(a) == crate::pr_cache::flat(b) <==> alike_but_for_slashes(a, b),
{
    let x = crate::pr_cache::flat(a);
    let y = crate::pr_cache::flat(b);
    assert(a.len() == x.len() && b.len() == y.len());
    if x == y {
        assert forall|i: int| 0 <= i < a.len() implies #[trigger] a[i] == b[i] || (a[i] == '/'
            || a[i] == '-') && (b[i] == '/' || b[i] == '-') by {
            assert(x[i] == y[i]);
        }
    }
    if alike_but_for_slashes(a, b) {
        assert(x =~= y);
    }
}

/// A worktree has the pull request of its branch, or else of its name; without
/// either, one whose branch is the same but for slashes and dashes, and none only
/// where there is no such. Of several an open one comes first, then a merged one,
/// then a closed one, and of these the one with the lowest number.
pub proof fn worktrees_have_their_pr(
    w: WorktreeView,
    prs: Map<Seq<char>, PrInfoView>,
    pr: Option<PrInfoView>,
)
    requires
        found_for(w, prs, pr),
    ensures
        if w.branch is Some && prs.dom().contains(w.branch->0) {
            pr == Some(prs[w.branch->0])
        } else if prs.dom().contains(w.name) {
            pr == Some(prs[w.name])
        } else {
            match pr {
                None => forall|b: Seq<char>| #[trigger]
                    prs.dom().contains(b) ==> !could_belong(w, prs[b]),
                Some(p) => {
                    &&& prs.dom().contains(p.head_ref_name)
                    &&& prs[p.head_ref_name] == p
                    &&& could_belong(w, p)
                    &&& forall|b: Seq<char>| #[trigger]
                        prs.dom().contains(b) && could_belong(w, prs[b]) ==> {
                            let o = prs[b];
                            &&& o.state == "OPEN"@ ==> p.state == "OPEN"@
                            &&& o.state == "MERGED"@ ==> p.state == "OPEN"@ || p.state
                                == "MERGED"@
                            &&& o.state == "CLOSED"@ ==> p.state == "OPEN"@ || p.state
                                == "MERGED"@ || p.state == "CLOSED"@
                            &&& o.state == p.state ==> p.number <= o.number
                        }
                },
            }
        },
{
    states_differ();
    assert forall|o: PrInfoView| #[trigger] crate::pr_cache::matches_flat(w, o) == could_belong(
        w,
        o,
    ) by {
        flat_is_alike(w.name, o.head_ref_name);
        if w.branch is Some {
            flat_is_alike(w.branch->0, o.head_ref_name);
        }
    }
}

proof fn states_differ()
    ensures
        "OPEN"@ != "MERGED"@,
        "OPEN"@ != "CLOSED"@,
        "MERGED"@ != "CLOSED"@,
{
    reveal_strlit("OPEN");
    reveal_strlit("MERGED");
    reveal_strlit("CLOSED");
    assert("OPEN"@[0] == 'O' && "MERGED"@[0] == 'M' && "CLOSED"@[0] == 'C');
}

/// The index has, for each branch that some pull request wants merged, and for no
/// other, one of those: an open one if there is any, else a merged one if there is
/// any, else a closed one.
pub proof fn index_prefers_what_is_open(prs: Seq<PrInfoView>, branch: Seq<char>)
    ensures
        by_branch(prs).dom().contains(branch) <==> exists|i: int|
            0 <= i < prs.len() && (#[trigger] prs[i]).head_ref_name == branch,
        by_branch(prs).dom().contains(branch) ==> {
            let p = by_branch(prs)[branch];
            &&& prs.contains(p)
            &&& p.head_ref_name == branch
            &&& forall|i: int|
                0 <= i < prs.len() && (#[trigger] prs[i]).head_ref_name == branch ==> {
                    &&& prs[i].state == "OPEN"@ ==> p.state == "OPEN"@
                    &&& prs[i].state == "MERGED"@ ==> p.state == "OPEN"@ || p.state
                        == "MERGED"@
                    &&& prs[i].state == "CLOSED"@ ==> p.state == "OPEN"@ || p.state
                        == "MERGED"@ || p.state == "CLOSED"@
                }
        },
{
    states_differ();
    best_is_best_ranked(prs, branch);
    if let Some(p) = best(prs, branch) {
        let k = choose|k: int| 0 <= k < prs.len() && #[trigger] prs[k] == p;
        assert(prs[k].head_ref_name == branch);
    }
}

/// Pull requests are loaded for `github.com` only. What is kept counts as long as
/// it is not older than it may be, unless a refresh is forced; then they are
/// fetched, once, and what was fetched is used and kept, with the time. Where
/// that fails, what is kept has to do.
pub proof fn cache_counts_while_it_is_fresh(
    r: Load,
    host: Option<Seq<char>>,
    has_cache: bool,
    cached: Option<CacheFileView>,
    now: u64,
    ttl_hours: u64,
    force: bool,
    fetched: Option<Option<Seq<PrInfoView>>>,
)
    requires
        loaded(r, host, has_cache, cached, now, ttl_hours, force, fetched),
    ensures
        ({
            let here = host == Some("github.com"@) && has_cache;
            let fresh = cached is Some && !force && now <= cached->0.fetched_at + ttl_hours * 3600;
            match r {
                Load::Fetch => here && !fresh && fetched is None,
                Load::Ready(index, save) => {
                    &&& !here ==> index@ == Map::<Seq<char>, PrInfoView>::empty() && save is None
                    &&& here && fresh ==> index@ == by_branch(cached->0.prs) && save is None
                    &&& here && !fresh ==> fetched is Some
                    &&& here && !fresh && fetched->0 is Some ==> {
                        &&& index@ == by_branch(fetched->0->0)
                        &&& save is Some
                        &&& save->0.fetched_at == now
                        &&& save->0.prs.deep_view() == fetched->0->0
                    }
                    &&& here && !fresh && fetched->0 is None && cached is Some ==> index@
                        == by_branch(cached->0.prs) && save is None
                    &&& here && !fresh && fetched->0 is None && cached is None ==> index@ == Map::<
                        Seq<char>,
                        PrInfoView,
                    >::empty() && save is None
                },
            }
        }),
{
}

/// Removals that failed are counted, one for each.
pub proof fn failures_are_counted(results: Seq<bool>, b: bool)
    ensures
        removal::failures(seq![]) == 0,
        removal::failures(results.push(b)) == removal::failures(results) + if b {
            0nat
        } else {
            1nat
        },
{
    assert(results.push(b).drop_last() =~= results);
}

} // verus!
