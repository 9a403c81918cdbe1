//! Sweeping: which worktrees are finished, and which of them are deleted.

use crate::landed::ProbeView;
use crate::pr_cache::PrInfoView;
use crate::process::{ActionView, InvocationView, ReplyView, StepView};
use crate::sweep::{blocked, landing, verdict, word_if, Reason, VerdictView};
use crate::text;
use crate::vcs::{Kind, WorktreeView};
use vstd::prelude::*;

verus! {

/// Every line of the text that is not blank begins, white space aside, with a dash
/// and a space.
pub open spec fn all_dashed(s: Seq<char>) -> bool {
    forall|i: int|
        0 <= i < text::lines(s).len() ==> {
            let line = text::trim(#[trigger] text::lines(s)[i]);
            line.len() == 0 || line.len() >= 2 && line[0] == '-' && line[1] == ' '
        }
}

/// Whatever backend listed it, a worktree whose commit is known is judged by
/// `git cherry` on that commit, and has landed exactly where that succeeded and
/// marked every patch.
pub proof fn known_commits_are_judged_by_content(
    probe: ProbeView,
    root: Seq<char>,
    w: WorktreeView,
    commit: Seq<char>,
    reply: ReplyView,
    rest: Seq<ReplyView>,
)
    requires
        w.commit == Some(commit),
    ensures
        landing(probe, root, w, seq![]) == StepView::<bool>::Do(
            ActionView::Run(
                InvocationView {
                    program: "git"@,
                    args: seq!["cherry"@, probe.trunk, commit],
                    dir: probe.root,
                    capture: true,
                },
            ),
        ),
        landing(probe, root, w, seq![reply] + rest) == StepView::Done(
            Ok::<bool, Seq<char>>(
                match reply {
                    ReplyView::Ran(Some(o)) => o.success && all_dashed(o.stdout),
                    _ => false,
                },
            ),
        ),
{
    let rs = seq![reply] + rest;
    assert(rs[0] == reply);
    if let ReplyView::Ran(Some(o)) = reply {
        let s = o.stdout;
        if crate::landed::upstream(s) {
            assert forall|i: int| 0 <= i < text::lines(s).len() implies {
                let line = text::trim(#[trigger] text::lines(s)[i]);
                line.len() == 0 || line.len() >= 2 && line[0] == '-' && line[1] == ' '
            } by {}
            assert(all_dashed(s));
        }
        if all_dashed(s) {
            assert(crate::landed::upstream(s));
        }
    }
}

/// A jj workspace whose commit is not known is judged like one whose commit is
/// what `jj` answers for it. Without an answer, and for any other worktree without
/// a commit, nothing has landed.
pub proof fn unknown_commits_are_asked_for(
    probe: ProbeView,
    root: Seq<char>,
    w: WorktreeView,
    v: WorktreeView,
    reply: ReplyView,
    rest: Seq<ReplyView>,
)
    requires
        w.commit is None,
    ensures
        w.vcs == Kind::Jj && !w.is_stale ==> {
            &&& landing(probe, root, w, seq![]) == StepView::<bool>::Do(
                ActionView::Run(
                    InvocationView {
                        program: "jj"@,
                        args: seq![
                            "log"@,
                            "-r"@,
                            w.name + "@"@,
                            "--no-graph"@,
                            "-T"@,
                            "self.commit_id()"@,
                        ],
                        dir: root,
                        capture: true,
                    },
                ),
            )
            &&& match reply {
                ReplyView::Ran(Some(o)) => if o.success && text::trim(o.stdout).len() > 0 {
                    v.commit == Some(text::trim(o.stdout)) ==> landing(
                        probe,
                        root,
                        w,
                        seq![reply] + rest,
                    ) == landing(probe, root, v, rest)
                } else {
                    landing(probe, root, w, seq![reply] + rest) == StepView::Done(
                        Ok::<bool, Seq<char>>(false),
                    )
                },
                _ => landing(probe, root, w, seq![reply] + rest) == StepView::Done(
                    Ok::<bool, Seq<char>>(false),
                ),
            }
        },
        w.vcs != Kind::Jj || w.is_stale ==> landing(probe, root, w, rest) == StepView::Done(
            Ok::<bool, Seq<char>>(false),
        ),
{
    let rs = seq![reply] + rest;
    assert(rs[0] == reply);
    assert(rs.drop_first() =~= rest);
}

/// When a worktree counts as finished: it is not the main one, no open pull request
/// keeps it, and its pull request is over or its content has landed.
pub open spec fn is_finished(w: WorktreeView, pr: Option<PrInfoView>, landed: bool) -> bool {
    &&& !w.is_main
    &&& pr is Some ==> pr->0.state != "OPEN"@
    &&& landed || pr is Some && (pr->0.state == "MERGED"@ || pr->0.state == "CLOSED"@)
}

/// A worktree is swept exactly when it is finished and, unless by force, without
/// conflicts, without a lock and without changes that could be lost; content of a
/// jj workspace that has landed cannot. A finished one that is not swept is
/// skipped, and each thing that keeps it is named, in a fixed order. The reason
/// is the pull request wherever that is over.
pub proof fn finished_worktrees_are_swept(
    w: WorktreeView,
    pr: Option<PrInfoView>,
    landed: bool,
    force: bool,
)
    ensures
        ({
            let dirt = w.dirty && !(landed && w.vcs == Kind::Jj);
            let free = force || !dirt && !w.conflict && !w.is_locked;
            let over = pr is Some && (pr->0.state == "MERGED"@ || pr->0.state == "CLOSED"@);
            match verdict(w, pr, landed, force) {
                VerdictView::Keep => !is_finished(w, pr, landed),
                VerdictView::Sweep(reason) => is_finished(w, pr, landed) && free && (reason
                    == if over {
                    Reason::Pr
                } else {
                    Reason::Landed
                }),
                VerdictView::Skip(words) => {
                    &&& is_finished(w, pr, landed) && !free
                    &&& words.contains("dirty"@) == dirt
                    &&& words.contains("conflict"@) == w.conflict
                    &&& words.contains("locked"@) == w.is_locked
                    &&& words.no_duplicates()
                    &&& forall|i: int|
                        0 <= i < words.len() ==> #[trigger] words[i] == "dirty"@ || words[i]
                            == "conflict"@ || words[i] == "locked"@
                    &&& forall|i: int, j: int|
                        0 <= i < j < words.len() ==> #[trigger] words[i] != "locked"@
                            && #[trigger] words[j] != "dirty"@
                },
            }
        }),
{
    reveal_strlit("dirty");
    reveal_strlit("conflict");
    reveal_strlit("locked");
    reveal_strlit("OPEN");
    reveal_strlit("MERGED");
    reveal_strlit("CLOSED");
    assert("dirty"@.len() == 5 && "conflict"@.len() == 8 && "locked"@.len() == 6);
    assert("OPEN"@.len() == 4 && "MERGED"@.len() == 6 && "CLOSED"@.len() == 6);
    let dirt = w.dirty && !(landed && w.vcs == Kind::Jj);
    let a = word_if(dirt, "dirty"@);
    let b = word_if(w.conflict, "conflict"@);
    let c = word_if(w.is_locked, "locked"@);
    let words = a + b + c;
    if dirt {
        assert(words[0] == "dirty"@);
    }
    if w.conflict {
        assert(words[a.len() as int] == "conflict"@);
    }
    if w.is_locked {
        assert(words[(a + b).len() as int] == "locked"@);
    }
    if !force {
        assert(blocked(w, landed, force) == words);
    }
}

} // verus!
