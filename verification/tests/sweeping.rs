use renri::pr_cache::{index_by_branch, PrIndex, PrInfo};
use renri::sweep::{Reason, Verdict};
use renri::sweeping::{Stage, SweepReply, SweepRequest, Sweeping};
use renri::vcs::{Kind, Worktree};

fn row(name: &str) -> Worktree {
    Worktree {
        name: name.into(),
        path: format!("/wt/{name}"),
        branch: None,
        head: None,
        commit: Some("c".into()),
        desc: None,
        dirty: false,
        conflict: false,
        is_main: name == "main",
        is_bare: false,
        is_stale: false,
        is_locked: false,
        vcs: Kind::Git,
    }
}

fn prs() -> PrIndex {
    index_by_branch(vec![
        PrInfo {
            number: 1,
            state: "MERGED".into(),
            head_ref_name: "merged".into(),
        },
        PrInfo {
            number: 2,
            state: "OPEN".into(),
            head_ref_name: "open".into(),
        },
    ])
}

fn rows() -> Vec<Worktree> {
    vec![row("main"), row("merged"), row("open"), row("landed")]
}

/// Up to the question or the first removal: all content is upstream.
fn judged(yes: bool) -> Sweeping {
    let mut s = Sweeping::begin(rows(), yes, false, false, false);
    s = s.reply(SweepReply::Fetched(false));
    s = s.reply(SweepReply::Prs(prs()));
    s = s.reply(SweepReply::Upstream(true));
    for _ in 0..4 {
        s = s.reply(SweepReply::Landed(true));
    }
    s
}

#[test]
fn a_sweep_fetches_before_it_judges() {
    let s = Sweeping::begin(rows(), true, false, false, false);
    assert_eq!(s.request(), SweepRequest::Fetch);
    let s = s.reply(SweepReply::Fetched(true));
    assert_eq!(s.request(), SweepRequest::LoadPrs);
    let s = s.reply(SweepReply::Prs(prs()));
    assert_eq!(s.request(), SweepRequest::FindUpstream);
    let s = s.reply(SweepReply::Upstream(true));
    assert_eq!(s.request(), SweepRequest::CheckLanded(0));
    let s = s.reply(SweepReply::Landed(false));
    assert_eq!(s.request(), SweepRequest::CheckLanded(1));
    // A reply to something else changes nothing.
    let s = s.reply(SweepReply::Fetched(true));
    assert_eq!(s.request(), SweepRequest::CheckLanded(1));
}

#[test]
fn a_sweep_without_fetch_starts_with_the_pull_requests() {
    let s = Sweeping::begin(rows(), true, false, false, true);
    assert_eq!(s.request(), SweepRequest::LoadPrs);
    let none = Sweeping::begin(Vec::new(), true, false, false, false);
    assert_eq!(none.request(), SweepRequest::Nothing);
}

#[test]
fn finished_worktrees_are_removed_one_by_one() {
    let mut s = judged(true);
    assert_eq!(s.judged[1].verdict, Verdict::Sweep(Reason::Pr));
    assert_eq!(s.judged[3].verdict, Verdict::Sweep(Reason::Landed));
    assert_eq!(s.request(), SweepRequest::Remove(1));
    s = s.reply(SweepReply::Removed(false));
    assert_eq!(s.request(), SweepRequest::Remove(3));
    s = s.reply(SweepReply::Removed(true));
    assert_eq!(s.stage, Stage::Done);
    assert_eq!(s.results, vec![false, true]);
}

#[test]
fn nothing_is_removed_unconfirmed() {
    let s = judged(false);
    assert_eq!(s.request(), SweepRequest::Confirm(2));
    let s = s.reply(SweepReply::Answer(false));
    assert_eq!(s.stage, Stage::Done);
    assert!(s.results.is_empty());
    let s = judged(false).reply(SweepReply::Answer(true));
    assert_eq!(s.request(), SweepRequest::Remove(1));

    let s = Sweeping::begin(vec![row("merged")], false, false, true, true);
    let s = s.reply(SweepReply::Prs(prs()));
    let s = s.reply(SweepReply::Upstream(false));
    assert_eq!(s.request(), SweepRequest::Refuse);
    // What was judged is still there to be told.
    assert_eq!(s.judged[0].verdict, Verdict::Sweep(Reason::Pr));
    assert_eq!(s.todo, vec![0]);
    let s = s.reply(SweepReply::Answer(true));
    assert_eq!(s.stage, Stage::Refused);
}

#[test]
fn without_upstream_only_pull_requests_count() {
    let s = Sweeping::begin(rows(), true, false, false, true);
    let s = s.reply(SweepReply::Prs(prs()));
    let s = s.reply(SweepReply::Upstream(false));
    assert_eq!(s.todo, vec![1]);
    // Nothing to remove is no reason to ask.
    let s = Sweeping::begin(vec![row("open")], false, true, true, true);
    let s = s.reply(SweepReply::Prs(prs()));
    let s = s.reply(SweepReply::Upstream(false));
    assert_eq!(s.stage, Stage::Done);
    assert!(s.todo.is_empty());
}
