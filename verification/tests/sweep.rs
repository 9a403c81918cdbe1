use renri::pr_cache::{index_by_branch, PrInfo};
use renri::sweep::{blockers, judge, plan, reason, Reason, Verdict};
use renri::vcs::{Kind, Worktree};

fn pr_state(state: &str) -> PrInfo {
    PrInfo {
        number: 42,
        state: state.into(),
        head_ref_name: "feat/x".into(),
    }
}

fn wt(vcs: Kind, dirty: bool) -> Worktree {
    Worktree {
        name: "w".into(),
        path: String::new(),
        branch: None,
        head: None,
        commit: Some("deadbeef".into()),
        desc: None,
        dirty,
        conflict: false,
        is_main: false,
        is_bare: false,
        is_stale: false,
        is_locked: false,
        vcs,
    }
}

#[test]
fn merged_or_closed_pr_is_swept() {
    assert_eq!(reason(Some(&pr_state("MERGED")), false), Some(Reason::Pr));
    assert_eq!(reason(Some(&pr_state("CLOSED")), false), Some(Reason::Pr));
}

#[test]
fn open_pr_vetoes_even_when_content_is_upstream() {
    // The case that must never regress: an identical patch upstream (a
    // cherry-pick to a release branch, say) while the PR is still in
    // review. Sweeping that deletes the only checkout of live work.
    assert_eq!(reason(Some(&pr_state("OPEN")), true), None);
    // And the ordinary in-review row, for completeness.
    assert_eq!(reason(Some(&pr_state("OPEN")), false), None);
}

#[test]
fn landed_content_is_swept_without_any_pr() {
    assert_eq!(reason(None, true), Some(Reason::Landed));
}

#[test]
fn unlanded_content_without_a_pr_is_left_alone() {
    assert_eq!(reason(None, false), None);
}

#[test]
fn unknown_pr_state_falls_back_to_content() {
    assert_eq!(reason(Some(&pr_state("DRAFT")), true), Some(Reason::Landed));
    assert_eq!(reason(Some(&pr_state("DRAFT")), false), None);
}

#[test]
fn landed_jj_dirt_does_not_block_removal() {
    assert!(blockers(&wt(Kind::Jj, true), true, false).is_empty());
}

#[test]
fn unlanded_jj_dirt_still_blocks_removal() {
    assert_eq!(blockers(&wt(Kind::Jj, true), false, false), vec!["dirty"]);
}

#[test]
fn landed_git_dirt_still_blocks_removal() {
    // Git dirt is *uncommitted* files. `git cherry` compares commits,
    // so a landed verdict says nothing about them — the veto stands.
    assert_eq!(blockers(&wt(Kind::Git, true), true, false), vec!["dirty"]);
}

#[test]
fn force_clears_every_blocker() {
    let mut w = wt(Kind::Git, true);
    w.conflict = true;
    w.is_locked = true;
    assert!(blockers(&w, false, true).is_empty());
    assert_eq!(
        blockers(&w, false, false),
        vec!["dirty", "conflict", "locked"]
    );
}

#[test]
fn the_main_worktree_is_kept_even_by_force() {
    let mut w = wt(Kind::Git, false);
    w.is_main = true;
    assert_eq!(judge(&w, Some(&pr_state("MERGED")), true, true), Verdict::Keep);
}

#[test]
fn an_open_pr_is_kept_even_by_force() {
    assert_eq!(
        judge(&wt(Kind::Jj, false), Some(&pr_state("OPEN")), true, true),
        Verdict::Keep
    );
}

#[test]
fn force_turns_a_skip_into_a_sweep() {
    let w = wt(Kind::Git, true);
    let pr = pr_state("MERGED");
    assert_eq!(judge(&w, Some(&pr), false, false), Verdict::Skip(vec!["dirty"]));
    assert_eq!(judge(&w, Some(&pr), false, true), Verdict::Sweep(Reason::Pr));
}

#[test]
fn content_alone_sweeps_a_row_without_a_pr() {
    assert_eq!(
        judge(&wt(Kind::Jj, true), None, true, false),
        Verdict::Sweep(Reason::Landed)
    );
    assert_eq!(
        judge(&wt(Kind::Jj, true), Some(&pr_state("DRAFT")), false, false),
        Verdict::Keep
    );
}

#[test]
fn a_plan_judges_every_row_in_order() {
    let prs = index_by_branch(vec![
        PrInfo {
            number: 1,
            state: "MERGED".into(),
            head_ref_name: "a".into(),
        },
        PrInfo {
            number: 2,
            state: "OPEN".into(),
            head_ref_name: "b".into(),
        },
    ]);
    let mut a = wt(Kind::Git, false);
    a.name = "a".into();
    let mut b = wt(Kind::Git, false);
    b.name = "b".into();
    let mut c = wt(Kind::Git, false);
    c.name = "c".into();
    let judged = plan(&vec![a, b, c], &prs, &[false, true, true], false);
    assert_eq!(judged.len(), 3);
    assert_eq!(judged[0].verdict, Verdict::Sweep(Reason::Pr));
    assert_eq!(judged[0].pr.as_ref().unwrap().number, 1);
    assert_eq!(judged[1].verdict, Verdict::Keep);
    assert_eq!(judged[2].verdict, Verdict::Sweep(Reason::Landed));
    assert!(judged[2].pr.is_none() && judged[2].row == 2);
}
