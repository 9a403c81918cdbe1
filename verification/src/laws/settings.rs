//! Configuration, kinds of repositories, and what is done with every backend.

use crate::batch::{any_bad, any_good, report_lines, told, told_all, Job, LineView, TurnView};
use crate::config::{candidates, deprecation, mode, present, ui_unset, unset, AutoUpdateMode, Config};
use crate::opened::union;
use crate::paths;
use crate::process::ReplyView;
use crate::text;
use crate::vcs::detect::{kind_of, Markers};
use crate::vcs::{kinds, short, Kind, VcsChoice, WorktreeView};
use vstd::prelude::*;

verus! {

/// What is set for updates counts; the deprecated key counts only where it is not
/// set, and is warned of only there; with neither, updates are installed.
pub proof fn deprecated_key_gives_way(auto: Option<AutoUpdateMode>, check: Option<bool>)
    ensures
        auto is Some ==> mode(auto, check) == auto->0 && deprecation(auto, check) is None,
        auto is None && check == Some(true) ==> mode(auto, check) == AutoUpdateMode::Notify,
        auto is None && check == Some(false) ==> mode(auto, check) == AutoUpdateMode::Off,
        auto is None && check is None ==> mode(auto, check) == AutoUpdateMode::Install
            && deprecation(auto, check) is None,
        auto is None && check is Some ==> deprecation(auto, check) is Some,
{
}

/// The user's file comes first and the repository's after it, so that it overrides.
pub proof fn repository_overrides_the_user(
    dir: Seq<char>,
    root: Seq<char>,
    windows: bool,
)
    ensures
        ({
            let user = paths::join(paths::join(dir, "renri"@, windows), "config.toml"@, windows);
            let repo = paths::join(root, "renri.toml"@, windows);
            &&& candidates(Some(dir), Some(root), windows) == seq![user, repo]
            &&& candidates(Some(dir), None, windows) == seq![user]
            &&& candidates(None, Some(root), windows) == seq![repo]
            &&& candidates(None, None, windows) == Seq::<Seq<char>>::empty()
        }),
{
    let user = paths::join(paths::join(dir, "renri"@, windows), "config.toml"@, windows);
    let repo = paths::join(root, "renri.toml"@, windows);
    assert(candidates(Some(dir), Some(root), windows) =~= seq![user, repo]);
    assert(candidates(Some(dir), None, windows) =~= seq![user]);
    assert(candidates(None, Some(root), windows) =~= seq![repo]);
}

/// The files that are read are exactly those that were found, in order. `at` says
/// which each is.
pub proof fn files_that_are_there_are_read(files: Seq<Seq<char>>, looks: Seq<ReplyView>) -> (at:
    Seq<int>)
    ensures
        at.len() == present(files, looks).len(),
        forall|i: int|
            0 <= i < at.len() ==> 0 <= #[trigger] at[i] < files.len() && looks[at[i]]
                == ReplyView::Found(true) && present(files, looks)[i] == files[at[i]],
        forall|i: int, j: int| 0 <= i < j < at.len() ==> #[trigger] at[i] < #[trigger] at[j],
        forall|k: int|
            0 <= k < files.len() && #[trigger] looks[k] == ReplyView::Found(true) ==> at.contains(k),
    decreases files.len(),
{
    if files.len() == 0 {
        Seq::empty()
    } else {
        let head = files.drop_last();
        let before = files_that_are_there_are_read(head, looks);
        let n = files.len() - 1;
        let at = if looks[n] == ReplyView::Found(true) {
            before.push(n)
        } else {
            before
        };
        let p = present(files, looks);
        assert forall|i: int| 0 <= i < at.len() implies 0 <= #[trigger] at[i] < files.len()
            && looks[at[i]] == ReplyView::Found(true) && p[i] == files[at[i]] by {
            if i < before.len() {
                assert(at[i] == before[i]);
                assert(p[i] == present(head, looks)[i]);
                assert(files[at[i]] == head[before[i]]);
            }
        }
        assert forall|i: int, j: int| 0 <= i < j < at.len() implies #[trigger] at[i]
            < #[trigger] at[j] by {
            assert(at[i] == before[i]);
            if j < before.len() {
                assert(at[j] == before[j]);
            }
        }
        assert forall|k: int|
            0 <= k < files.len() && #[trigger] looks[k] == ReplyView::Found(true) implies at.contains(
            k,
        ) by {
            if k < n {
                let i = choose|i: int| 0 <= i < before.len() && before[i] == k;
                assert(at[i] == k);
            } else {
                assert(at[before.len() as int] == n);
            }
        }
        at
    }
}

/// Where nothing is configured, there are no templates and no hooks, pull requests
/// are not shown, they are kept for a day, and updates are installed.
pub proof fn defaults_are_these(c: Config)
    requires
        unset(c),
    ensures
        c.layout.worktree_root is None && c.layout.worktree_path is None,
        c.hooks.post_create@.len() == 0 && c.hooks.pre_remove@.len() == 0,
        !c.ui.show_pr && c.ui.pr_cache_ttl_hours == 24 && c.ui.update_check_interval is None,
        mode(c.ui.auto_update, c.ui.auto_update_check) == AutoUpdateMode::Install,
        ui_unset(c.ui),
{
}

/// A repository is of git where there is a `.git`, of jj where there is a `.jj`, and
/// of both where there are both.
pub proof fn markers_tell_the_kind(m: Markers)
    ensures
        kind_of(m) is None <==> !m.git && !m.jj,
        kind_of(m) == Some(Kind::Git) <==> m.git && !m.jj,
        kind_of(m) == Some(Kind::Jj) <==> m.jj && !m.git,
        kind_of(m) == Some(Kind::Colocated) <==> m.git && m.jj,
{
}

/// The backends that are opened: those that manage the repository and that the
/// choice allows, jj before git; a choice that leaves none is refused.
pub proof fn choice_narrows_the_backends(kind: Kind, choice: VcsChoice)
    ensures
        ({
            let git = (kind == Kind::Git || kind == Kind::Colocated) && choice != VcsChoice::Jj;
            let jj = (kind == Kind::Jj || kind == Kind::Colocated) && choice != VcsChoice::Git;
            kinds(kind, choice) == if git && jj {
                Some(seq![Kind::Jj, Kind::Git])
            } else if git {
                Some(seq![Kind::Git])
            } else if jj {
                Some(seq![Kind::Jj])
            } else {
                None
            }
        }),
        short(Kind::Git) == "git"@,
        short(Kind::Jj) == "jj"@,
{
}

/// The list of several backends is their lists, one after the other; the first that
/// failed is the failure.
pub proof fn lists_are_put_together(
    lists: Seq<Result<Seq<WorktreeView>, Seq<char>>>,
    last: Result<Seq<WorktreeView>, Seq<char>>,
)
    ensures
        union(seq![]) == Ok::<Seq<WorktreeView>, Seq<char>>(seq![]),
        union(lists.push(last)) == match (union(lists), last) {
            (Err(e), _) => Err::<Seq<WorktreeView>, Seq<char>>(e),
            (Ok(_), Err(e)) => Err(e),
            (Ok(a), Ok(b)) => Ok(a + b),
        },
{
    assert(lists.push(last).drop_last() =~= lists);
}

/// What is told of one backend's turn: what it had to show, if anything; a failure
/// in any case, and as one.
pub proof fn failures_are_told(job: Job, t: TurnView, multi: bool)
    ensures
        ({
            let lines = told(job, t, multi);
            let mark = "["@ + short(t.kind) + "] "@;
            match t.result {
                Ok(out) => {
                    &&& text::trim(out).len() == 0 ==> lines.len() == 0
                    &&& text::trim(out).len() > 0 ==> lines.len() == 1 && !lines[0].error
                        && lines[0].text == if multi {
                        mark + text::trim(out)
                    } else {
                        text::trim(out)
                    }
                },
                Err(e) => lines.len() == 1 && lines[0].error && lines[0].text == mark + (
                if job == Job::Prune {
                    "prune"@
                } else {
                    "fetch"@
                }) + " failed: "@ + e,
            }
        }),
{
}

/// Every backend has its turn told, in order, whatever came of the others; where
/// there is nothing to tell, that is told.
pub proof fn every_turn_is_told(job: Job, turns: Seq<TurnView>, t: TurnView, multi: bool)
    ensures
        told_all(job, seq![], multi) == Seq::<LineView>::empty(),
        told_all(job, turns.push(t), multi) == told_all(job, turns, multi) + told(job, t, multi),
        report_lines(job, turns, multi).len() > 0,
        told_all(job, turns, multi).len() > 0 ==> report_lines(job, turns, multi) == told_all(
            job,
            turns,
            multi,
        ),
        told_all(job, turns, multi).len() == 0 ==> report_lines(job, turns, multi)
            == seq![LineView { error: false, text: if job == Job::Prune {
            "nothing to prune"@
        } else {
            "fetched (nothing changed)"@
        } }],
        any_good(turns.push(t)) <==> any_good(turns) || t.result is Ok,
        any_bad(turns.push(t)) <==> any_bad(turns) || t.result is Err,
        !any_good(seq![]) && !any_bad(seq![]),
{
    let all = turns.push(t);
    assert(all.drop_last() =~= turns);
    if any_good(turns) {
        let i = choose|i: int| 0 <= i < turns.len() && (#[trigger] turns[i]).result is Ok;
        assert(all[i].result is Ok);
    }
    if any_bad(turns) {
        let i = choose|i: int| 0 <= i < turns.len() && (#[trigger] turns[i]).result is Err;
        assert(all[i].result is Err);
    }
    assert(all[turns.len() as int] == t);
    if any_good(all) {
        let i = choose|i: int| 0 <= i < all.len() && (#[trigger] all[i]).result is Ok;
        if i < turns.len() {
            assert(turns[i].result is Ok);
        }
    }
    if any_bad(all) {
        let i = choose|i: int| 0 <= i < all.len() && (#[trigger] all[i]).result is Err;
        if i < turns.len() {
            assert(turns[i].result is Err);
        }
    }
}

} // verus!
