//! Policy for sweeping away finished worktrees: whether the work in one is
//! finished, and whether it is safe to delete.

use crate::landed::{self, Probe, ProbeView};
use crate::pr_cache::{self, PrIndex, PrInfo, PrInfoView};
use crate::process::{self, ActionView, Reply, ReplyView, Step, StepView};
use crate::strings;
use crate::vcs::{Kind, Worktree, WorktreeView};
use vstd::prelude::*;
use vstd::string::*;

verus! {

/// Why a worktree counts as finished.
#[derive(Debug, Clone, Copy, PartialEq, Eq, Structural)]
pub enum Reason {
    /// Its pull request is merged or closed.
    Pr,
    /// No pull request settles it, but its content is upstream.
    Landed,
}

/// Whether a worktree is finished, and why. An open pull request keeps it in
/// any case, a merged or closed one settles it, and otherwise its content does.
pub open spec fn why(pr: Option<PrInfoView>, landed: bool) -> Option<Reason> {
    if pr is Some && pr->0.state == "OPEN"@ {
        None
    } else if pr is Some && (pr->0.state == "MERGED"@ || pr->0.state == "CLOSED"@) {
        Some(Reason::Pr)
    } else if landed {
        Some(Reason::Landed)
    } else {
        None
    }
}

/// Whether a worktree is finished, and why.
pub fn reason(pr: Option<&PrInfo>, landed: bool) -> (r: Option<Reason>)
    ensures
        r == why(pr.deep_view(), landed),
{
    if let Some(pr) = pr {
        if strings::same(pr.state.as_str(), "OPEN") {
            return None;
        }
        if strings::same(pr.state.as_str(), "MERGED") || strings::same(
            pr.state.as_str(),
            "CLOSED",
        ) {
            return Some(Reason::Pr);
        }
    }
    if landed {
        Some(Reason::Landed)
    } else {
        None
    }
}

/// The dirt of a worktree counts: not for a jj workspace whose content has
/// landed, since there the dirt is that content.
pub open spec fn dirt_counts(w: WorktreeView, landed: bool) -> bool {
    w.dirty && !(landed && w.vcs == Kind::Jj)
}

/// `word`, where the condition holds.
pub open spec fn word_if(holds: bool, word: Seq<char>) -> Seq<Seq<char>> {
    if holds {
        seq![word]
    } else {
        seq![]
    }
}

/// What keeps a worktree from being deleted; nothing does under force.
pub open spec fn blocked(w: WorktreeView, landed: bool, force: bool) -> Seq<Seq<char>> {
    if force {
        seq![]
    } else {
        word_if(dirt_counts(w, landed), "dirty"@) + word_if(w.conflict, "conflict"@) + word_if(
            w.is_locked,
            "locked"@,
        )
    }
}

/// What keeps a worktree from being deleted.
pub fn blockers(w: &Worktree, landed: bool, force: bool) -> (r: Vec<&'static str>)
    ensures
        r.deep_view() == blocked(w.deep_view(), landed, force),
{
    let mut reasons: Vec<&'static str> = Vec::new();
    if force {
        proof {
            assert(reasons.deep_view() =~= seq![]);
        }
        return reasons;
    }
    if w.dirty && !(landed && w.vcs == Kind::Jj) {
        reasons.push("dirty");
    }
    if w.conflict {
        reasons.push("conflict");
    }
    if w.is_locked {
        reasons.push("locked");
    }
    proof {
        assert(reasons.deep_view() =~= blocked(w.deep_view(), landed, force));
    }
    reasons
}

/// What the sweep makes of a worktree.
#[derive(Debug, PartialEq, Eq)]
pub enum Verdict {
    /// It is not finished, or it is the main one.
    Keep,
    /// It is finished, but these keep it from being deleted.
    Skip(Vec<&'static str>),
    /// It is to be deleted.
    Sweep(Reason),
}

/// What a [`Verdict`] stands for.
pub enum VerdictView {
    Keep,
    Skip(Seq<Seq<char>>),
    Sweep(Reason),
}

impl DeepView for Verdict {
    type V = VerdictView;

    open spec fn deep_view(&self) -> VerdictView {
        match self {
            Verdict::Keep => VerdictView::Keep,
            Verdict::Skip(reasons) => VerdictView::Skip(reasons.deep_view()),
            Verdict::Sweep(reason) => VerdictView::Sweep(*reason),
        }
    }
}

/// What the sweep makes of a worktree with this pull request.
pub open spec fn verdict(
    w: WorktreeView,
    pr: Option<PrInfoView>,
    landed: bool,
    force: bool,
) -> VerdictView {
    if w.is_main || why(pr, landed) is None {
        VerdictView::Keep
    } else if blocked(w, landed, force).len() > 0 {
        VerdictView::Skip(blocked(w, landed, force))
    } else {
        VerdictView::Sweep(why(pr, landed)->0)
    }
}

/// Judges one worktree.
pub fn judge(w: &Worktree, pr: Option<&PrInfo>, landed: bool, force: bool) -> (r: Verdict)
    ensures
        r.deep_view() == verdict(w.deep_view(), pr.deep_view(), landed, force),
{
    if w.is_main {
        return Verdict::Keep;
    }
    match reason(pr, landed) {
        None => Verdict::Keep,
        Some(reason) => {
            let reasons = blockers(w, landed, force);
            proof {
                assert(reasons.deep_view().len() == reasons@.len());
            }
            if reasons.len() > 0 {
                Verdict::Skip(reasons)
            } else {
                Verdict::Sweep(reason)
            }
        },
    }
}

/// A worktree that was judged: its place in the list, its pull request and the
/// verdict.
#[derive(Debug, PartialEq, Eq)]
pub struct Judged {
    pub row: usize,
    pub pr: Option<PrInfo>,
    pub verdict: Verdict,
}

/// `j` is the judgement of the worktree at its row.
pub open spec fn judged(
    j: Judged,
    rows: Seq<WorktreeView>,
    prs: Map<Seq<char>, PrInfoView>,
    landed: Seq<bool>,
    force: bool,
) -> bool {
    let here = j.row < landed.len() && landed[j.row as int];
    &&& j.row < rows.len()
    &&& pr_cache::found_for(rows[j.row as int], prs, j.pr.deep_view())
    &&& j.verdict.deep_view() == verdict(rows[j.row as int], j.pr.deep_view(), here, force)
}

/// Judges every worktree, in order. `landed` says of each whether its content is
/// upstream; of one beyond its end, it is not.
pub fn plan(worktrees: &Vec<Worktree>, prs: &PrIndex, landed: &[bool], force: bool) -> (r: Vec<
    Judged,
>)
    ensures
        r@.len() == worktrees@.len(),
        forall|i: int|
            0 <= i < r@.len() ==> (#[trigger] r@[i]).row == i && judged(
                r@[i],
                worktrees.deep_view(),
                prs@,
                landed@,
                force,
            ),
{
    let mut out: Vec<Judged> = Vec::new();
    let mut i: usize = 0;
    while i < worktrees.len()
        invariant
            i <= worktrees@.len(),
            out@.len() == i,
            forall|k: int|
                0 <= k < i ==> (#[trigger] out@[k]).row == k && judged(
                    out@[k],
                    worktrees.deep_view(),
                    prs@,
                    landed@,
                    force,
                ),
        decreases worktrees@.len() - i,
    {
        let w = &worktrees[i];
        proof {
            assert(worktrees.deep_view()[i as int] == w.deep_view());
        }
        let here = i < landed.len() && landed[i];
        let found = pr_cache::lookup_for_worktree(w, prs);
        let verdict = judge(w, found, here, force);
        let pr = match found {
            Some(p) => Some(p.clone()),
            None => None,
        };
        out.push(Judged { row: i, pr, verdict });
        i = i + 1;
    }
    out
}

/// Work under review survives: with an open pull request a worktree is neither
/// swept nor skipped, whatever its content, and even under force.
pub proof fn open_pr_is_never_swept(w: WorktreeView, pr: PrInfoView, landed: bool, force: bool)
    requires
        pr.state == "OPEN"@,
    ensures
        verdict(w, Some(pr), landed, force) is Keep,
{
}

/// The main worktree is never swept.
pub proof fn main_is_never_swept(
    w: WorktreeView,
    pr: Option<PrInfoView>,
    landed: bool,
    force: bool,
)
    requires
        w.is_main,
    ensures
        verdict(w, pr, landed, force) is Keep,
{
}

/// Under force nothing is skipped, and what is swept without force is swept
/// under it, for the same reason.
pub proof fn force_only_adds(w: WorktreeView, pr: Option<PrInfoView>, landed: bool)
    ensures
        !(verdict(w, pr, landed, true) is Skip),
        verdict(w, pr, landed, false) is Sweep ==> verdict(w, pr, landed, true) == verdict(
            w,
            pr,
            landed,
            false,
        ),
{
}

/// Without force, no worktree with conflicts or a lock is swept, nor a git
/// worktree with uncommitted changes. A jj workspace with content is swept only
/// where that content has landed.
pub proof fn unsafe_worktrees_need_force(w: WorktreeView, pr: Option<PrInfoView>, landed: bool)
    ensures
        verdict(w, pr, landed, false) is Sweep ==> {
            &&& !w.conflict
            &&& !w.is_locked
            &&& w.vcs == Kind::Git ==> !w.dirty
            &&& w.vcs == Kind::Jj && w.dirty ==> landed
        },
{
    let b = blocked(w, landed, false);
    if w.conflict || w.is_locked || dirt_counts(w, landed) {
        assert(b.len() > 0);
    }
}

/// Without a pull request, or with one in a state that is not known, only
/// content decides.
pub proof fn content_decides_without_a_pr(
    w: WorktreeView,
    pr: Option<PrInfoView>,
    landed: bool,
    force: bool,
)
    requires
        pr is Some ==> pr_cache::rank(pr->0.state) == 3,
    ensures
        verdict(w, pr, landed, force) is Sweep ==> landed,
        why(pr, landed) == why(None, landed),
{
}

/// Asks for the commit of the jj workspace `name`.
pub open spec fn commit_command(root: Seq<char>, name: Seq<char>) -> ActionView {
    process::ask(
        "jj"@,
        seq!["log"@, "-r"@, name + "@"@, "--no-graph"@, "-T"@, "self.commit_id()"@],
        root,
    )
}

/// Finding out whether the content of a worktree has landed. Where the listing
/// did not give its commit, jj is asked for it. Without one, it has not.
pub open spec fn landing(
    probe: ProbeView,
    root: Seq<char>,
    w: WorktreeView,
    replies: Seq<ReplyView>,
) -> StepView<bool> {
    match w.commit {
        Some(c) => landed::landing(probe, c, replies),
        None => if w.vcs != Kind::Jj || w.is_stale {
            StepView::Done(Ok(false))
        } else if replies.len() == 0 {
            StepView::Do(commit_command(root, w.name))
        } else {
            match process::answer(replies[0]) {
                Some(c) => landed::landing(probe, c, replies.drop_first()),
                None => StepView::Done(Ok(false)),
            }
        },
    }
}

/// Finds out whether the content of a worktree has landed.
pub fn has_landed(probe: &Probe, root: &str, w: &Worktree, replies: &[Reply]) -> (r: Step<bool>)
    ensures
        r.deep_view() == landing(
            probe.deep_view(),
            root@,
            w.deep_view(),
            replies.deep_view(),
        ),
{
    if let Some(c) = &w.commit {
        return probe.landed(c.as_str(), replies);
    }
    if w.vcs != Kind::Jj || w.is_stale {
        return Step::Done(Ok(false));
    }
    if replies.len() == 0 {
        let mut rev = w.name.clone();
        rev.append("@");
        let args = ["log", "-r", rev.as_str(), "--no-graph", "-T", "self.commit_id()"];
        proof {
            assert(args.deep_view() =~= seq![
                "log"@,
                "-r"@,
                w.name@ + "@"@,
                "--no-graph"@,
                "-T"@,
                "self.commit_id()"@,
            ]);
        }
        return Step::Do(process::asking("jj", &args, root));
    }
    match process::answer_of(&replies[0]) {
        Some(c) => {
            let rest = vstd::slice::slice_subrange(replies, 1, replies.len());
            proof {
                assert(rest.deep_view() =~= replies.deep_view().drop_first());
            }
            probe.landed(c.as_str(), rest)
        },
        None => Step::Done(Ok(false)),
    }
}

} // verus!
