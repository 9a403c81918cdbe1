//! Removing worktrees: what is allowed, what is asked, and what the user is
//! told.

use crate::layout::{VcsContext, VcsContextView};
use crate::listing;
use crate::pr_cache::{self, CacheFile, Load, PrIndex, PrInfo, PrInfoView};
use crate::strings;
use crate::style;
use crate::sweep::{Judged, Reason, Verdict, VerdictView};
use crate::text;
use crate::vcs::{Kind, Worktree, WorktreeView};
use vstd::prelude::*;
use vstd::string::*;

verus! {

/// Checks what is to be removed: a sweep takes no name.
pub fn check_request(named: bool, merged: bool) -> (r: Result<(), String>)
    ensures
        match r {
            Ok(_) => !(named && merged),
            Err(e) => named && merged && e@
                == "--merged operates on the full list; pass either <name> or --merged"@,
        },
{
    if named && merged {
        Err("--merged operates on the full list; pass either <name> or --merged".to_string())
    } else {
        Ok(())
    }
}

/// Checks that a worktree can be removed: the main one cannot.
pub fn check_removable(w: &Worktree) -> (r: Result<(), String>)
    ensures
        match r {
            Ok(_) => !w.is_main,
            Err(e) => w.is_main && e@ == w.name@
                + " is the main worktree and cannot be removed via renri"@,
        },
{
    if w.is_main {
        let mut e = w.name.clone();
        e.append(" is the main worktree and cannot be removed via renri");
        Err(e)
    } else {
        Ok(())
    }
}

/// The branch that stands for a worktree: its own, or else its name.
pub open spec fn branch_or_name(w: WorktreeView) -> Seq<char> {
    match w.branch {
        Some(b) => b,
        None => w.name,
    }
}

/// The branch that stands for a worktree.
pub fn branch_for(w: &Worktree) -> (r: &str)
    ensures
        r@ == branch_or_name(w.deep_view()),
{
    match &w.branch {
        Some(b) => b.as_str(),
        None => w.name.as_str(),
    }
}

/// Whether the user is to be asked before something is removed. Where asking is
/// not allowed, it has to be confirmed beforehand.
pub fn confirmation(yes: bool, non_interactive: bool) -> (r: Result<bool, String>)
    ensures
        match r {
            Ok(ask) => ask == !yes && !(ask && non_interactive),
            Err(e) => !yes && non_interactive && e@
                == "--non-interactive set; pass --yes to confirm the removal"@,
        },
{
    if yes {
        Ok(false)
    } else if non_interactive {
        Err("--non-interactive set; pass --yes to confirm the removal".to_string())
    } else {
        Ok(true)
    }
}

/// What to do next about one removal.
#[derive(Debug, Clone, Copy, PartialEq, Eq, Structural)]
pub enum RemoveRequest {
    /// Run the hooks.
    RunHooks,
    /// Have the backend remove the worktree.
    Remove,
    /// Leave the worktree alone: a hook failed.
    Stop,
}

/// What to do next about one removal: its hooks run first, and where one of them
/// fails the worktree stays. `hooks` is how many there are, and `ran` whether
/// they went well, once they ran.
pub fn next(hooks: usize, ran: Option<bool>) -> (r: RemoveRequest)
    ensures
        r == RemoveRequest::RunHooks <==> hooks > 0 && ran is None,
        r == RemoveRequest::Remove <==> hooks == 0 || ran == Some(true),
        r == RemoveRequest::Stop <==> hooks > 0 && ran == Some(false),
{
    if hooks == 0 {
        return RemoveRequest::Remove;
    }
    match ran {
        None => RemoveRequest::RunHooks,
        Some(true) => RemoveRequest::Remove,
        Some(false) => RemoveRequest::Stop,
    }
}

/// The message where a row's backend is not open.
pub open spec fn no_backend(kind: Kind) -> Seq<char> {
    "internal: row tagged "@ + (match kind {
        Kind::Git => "Git"@,
        Kind::Jj => "Jj"@,
        Kind::Colocated => "Colocated"@,
    }) + " but no matching backend is open"@
}

/// Says that a row's backend is not open.
pub fn no_backend_error(kind: Kind) -> (r: String)
    ensures
        r@ == no_backend(kind),
{
    let mut e = "internal: row tagged ".to_string();
    e.append(
        match kind {
            Kind::Git => "Git",
            Kind::Jj => "Jj",
            Kind::Colocated => "Colocated",
        },
    );
    e.append(" but no matching backend is open");
    e
}

/// Owner and repository are known.
pub open spec fn is_known(ctx: VcsContextView) -> bool {
    ctx.owner.len() > 0 && ctx.repo.len() > 0
}

/// Checks that owner and repository are known. `only` says what cannot be done
/// otherwise.
pub fn check_known(ctx: &VcsContext, only: &str) -> (r: Result<(), String>)
    ensures
        match r {
            Ok(_) => is_known(ctx.deep_view()),
            Err(e) => !is_known(ctx.deep_view()) && e@
                == "could not determine GitHub owner/repo from origin remote; "@ + only@
                + " only works on GitHub-hosted repos"@,
        },
{
    if ctx.owner.as_str().unicode_len() > 0 && ctx.repo.as_str().unicode_len() > 0 {
        Ok(())
    } else {
        let mut e = "could not determine GitHub owner/repo from origin remote; ".to_string();
        e.append(only);
        e.append(" only works on GitHub-hosted repos");
        Err(e)
    }
}

/// Loads the pull requests of a repository, as [`pr_cache::load_or_refresh`]
/// does. There are none where its owner or its name is not known.
pub fn load_pr_cache_for_repo(
    ctx: &VcsContext,
    has_cache: bool,
    cached: Option<CacheFile>,
    now: u64,
    ttl_hours: u64,
    force: bool,
    fetched: Option<Option<Vec<PrInfo>>>,
) -> (r: Load)
    requires
        ttl_hours * 3600 <= u64::MAX,
    ensures
        if is_known(ctx.deep_view()) {
            pr_cache::loaded(
                r,
                ctx.deep_view().host,
                has_cache,
                cached.deep_view(),
                now,
                ttl_hours,
                force,
                fetched.deep_view(),
            )
        } else {
            match r {
                Load::Ready(index, save) => index@ == Map::<Seq<char>, PrInfoView>::empty()
                    && save is None,
                Load::Fetch => false,
            }
        },
{
    if ctx.owner.as_str().unicode_len() == 0 || ctx.repo.as_str().unicode_len() == 0 {
        return Load::Ready(PrIndex::new(), None);
    }
    let host: Option<&str> = match &ctx.host {
        Some(h) => Some(h.as_str()),
        None => None,
    };
    pr_cache::load_or_refresh(host, has_cache, cached, now, ttl_hours, force, fetched)
}

/// A pull request and its state, in words.
pub open spec fn pr_label(pr: Option<PrInfoView>) -> Seq<char> {
    match pr {
        Some(p) => listing::pr_tag(p) + " "@ + p.state,
        None => "(no PR)"@,
    }
}

/// A pull request and its state, in words.
fn pr_label_of(pr: &Option<PrInfo>) -> (r: String)
    ensures
        r@ == pr_label(pr.deep_view()),
{
    match pr {
        Some(p) => {
            let mut s = listing::tag(p);
            s.append(" ");
            s.append(p.state.as_str());
            s
        },
        None => "(no PR)".to_string(),
    }
}

/// The line for a worktree that is skipped.
pub open spec fn skipped_line(
    name: Seq<char>,
    pr: Option<PrInfoView>,
    reasons: Seq<Seq<char>>,
) -> Seq<char> {
    "  "@ + name + " "@ + style::dimmed(pr_label(pr)) + " \u{2014} "@ + style::yellow(
        text::join(reasons, ","@),
    )
}

/// The lines for the worktrees that are skipped, in order.
pub open spec fn skipped_rows(rows: Seq<WorktreeView>, judged: Seq<Judged>) -> Seq<Seq<char>>
    decreases judged.len(),
{
    if judged.len() == 0 {
        seq![]
    } else {
        let j = judged.last();
        skipped_rows(rows, judged.drop_last()) + match j.verdict.deep_view() {
            VerdictView::Skip(reasons) => seq![
                skipped_line(rows[j.row as int].name, j.pr.deep_view(), reasons),
            ],
            _ => seq![],
        }
    }
}

/// What the user is told of the worktrees that are skipped; nothing where there
/// are none.
pub open spec fn skipped_block(rows: Seq<WorktreeView>, judged: Seq<Judged>) -> Seq<Seq<char>> {
    let lines = skipped_rows(rows, judged);
    if lines.len() == 0 {
        seq![]
    } else {
        seq![style::bold(style::yellow("skipping"@)) + " (pass --force to include):"@] + lines
            + seq![""@]
    }
}

/// Every judgement is about a row.
pub open spec fn about_rows(judged: Seq<Judged>, n: nat) -> bool {
    forall|i: int| 0 <= i < judged.len() ==> (#[trigger] judged[i]).row < n
}

/// The words of a list, joined by commas.
fn joined(words: &Vec<&'static str>) -> (r: String)
    ensures
        r@ == text::join(words.deep_view(), ","@),
{
    let mut all: Vec<String> = Vec::new();
    let mut i: usize = 0;
    while i < words.len()
        invariant
            i <= words@.len(),
            all.deep_view() == words.deep_view().take(i as int),
        decreases words@.len() - i,
    {
        let ghost before = all.deep_view();
        let w: &str = words[i];
        all.push(w.to_string());
        proof {
            assert(all.deep_view() =~= before.push(w@));
            assert(all.deep_view() =~= words.deep_view().take(i + 1));
        }
        i = i + 1;
    }
    proof {
        assert(all.deep_view() =~= words.deep_view());
    }
    strings::join(&all, ",")
}

/// What the user is told of the worktrees that are skipped.
pub fn skipped_report(worktrees: &Vec<Worktree>, judged: &Vec<Judged>) -> (r: Vec<String>)
    requires
        about_rows(judged@, worktrees@.len()),
    ensures
        r.deep_view() == skipped_block(worktrees.deep_view(), judged@),
{
    let ghost rows = worktrees.deep_view();
    let mut lines: Vec<String> = Vec::new();
    let mut i: usize = 0;
    proof {
        assert(lines.deep_view() =~= skipped_rows(rows, judged@.take(0)));
    }
    while i < judged.len()
        invariant
            i <= judged@.len(),
            rows == worktrees.deep_view(),
            about_rows(judged@, worktrees@.len()),
            lines.deep_view() == skipped_rows(rows, judged@.take(i as int)),
        decreases judged@.len() - i,
    {
        let j = &judged[i];
        let ghost before = lines.deep_view();
        proof {
            assert(judged@.take(i + 1).drop_last() =~= judged@.take(i as int));
            assert(judged@.take(i + 1).last() == *j);
            assert(judged@[i as int].row < worktrees@.len());
            assert(before + seq![] =~= before);
        }
        if let Verdict::Skip(reasons) = &j.verdict {
            let name = worktrees[j.row].name.as_str();
            let mut s = "  ".to_string();
            s.append(name);
            s.append(" ");
            s.append(style::dim(pr_label_of(&j.pr).as_str()).as_str());
            s.append(" \u{2014} ");
            s.append(style::paint_yellow(joined(reasons).as_str()).as_str());
            lines.push(s);
            proof {
                assert(rows[j.row as int].name == name@);
                assert(lines.deep_view() =~= before + seq![s@]);
            }
        }
        i = i + 1;
    }
    proof {
        assert(judged@.take(i as int) =~= judged@);
        assert(lines.deep_view().len() == lines@.len());
    }
    if lines.len() == 0 {
        proof {
            assert(lines.deep_view() =~= seq![]);
        }
        return lines;
    }
    let ghost body = lines.deep_view();
    let mut head = style::embolden(style::paint_yellow("skipping").as_str());
    head.append(" (pass --force to include):");
    let ghost first = head@;
    lines.insert(0, head);
    lines.push("".to_string());
    proof {
        assert(lines.deep_view() =~= seq![first] + body + seq![""@]);
    }
    lines
}

/// The judgements under which a worktree is swept, in order.
pub open spec fn swept(judged: Seq<Judged>) -> Seq<int>
    decreases judged.len(),
{
    if judged.len() == 0 {
        seq![]
    } else if judged.last().verdict is Sweep {
        swept(judged.drop_last()).push(judged.len() - 1)
    } else {
        swept(judged.drop_last())
    }
}

/// Which judgements say that a worktree is swept.
pub fn candidates(judged: &Vec<Judged>) -> (r: Vec<usize>)
    ensures
        r@.map_values(|i: usize| i as int) == swept(judged@),
        forall|k: int|
            0 <= k < r@.len() ==> (#[trigger] r@[k]) < judged@.len()
                && judged@[r@[k] as int].verdict is Sweep,
{
    let mut out: Vec<usize> = Vec::new();
    let mut i: usize = 0;
    proof {
        assert(out@.map_values(|i: usize| i as int) =~= swept(judged@.take(0)));
    }
    while i < judged.len()
        invariant
            i <= judged@.len(),
            out@.map_values(|i: usize| i as int) == swept(judged@.take(i as int)),
            forall|k: int|
                0 <= k < out@.len() ==> (#[trigger] out@[k]) < i
                    && judged@[out@[k] as int].verdict is Sweep,
        decreases judged@.len() - i,
    {
        let ghost before = out@.map_values(|i: usize| i as int);
        proof {
            assert(judged@.take(i + 1).drop_last() =~= judged@.take(i as int));
            assert(judged@.take(i + 1).last() == judged@[i as int]);
        }
        if let Verdict::Sweep(_) = &judged[i].verdict {
            out.push(i);
            proof {
                assert(out@.map_values(|i: usize| i as int) =~= before.push(i as int));
            }
        }
        i = i + 1;
    }
    proof {
        assert(judged@.take(i as int) =~= judged@);
    }
    out
}

/// What the user is told of how many worktrees are to be swept.
pub open spec fn found(n: nat) -> Seq<char> {
    style::bold(style::green("found"@)) + " "@ + text::decimal(n)
        + " worktree(s) match merged/closed PRs:"@
}

/// What the user is told of how many worktrees are to be swept.
pub fn found_line(n: usize) -> (r: String)
    ensures
        r@ == found(n as nat),
{
    let mut s = style::embolden(style::paint_green("found").as_str());
    s.append(" ");
    s.append(strings::decimal(n as u64).as_str());
    s.append(" worktree(s) match merged/closed PRs:");
    s
}

/// What the user is asked before a sweep.
pub open spec fn question(n: nat) -> Seq<char> {
    "remove "@ + text::decimal(n) + (if n == 1 {
        " worktree?"@
    } else {
        " worktrees?"@
    })
}

/// What the user is asked before a sweep.
pub fn sweep_question(n: usize) -> (r: String)
    ensures
        r@ == question(n as nat),
{
    let mut s = "remove ".to_string();
    s.append(strings::decimal(n as u64).as_str());
    s.append(if n == 1 {
        " worktree?"
    } else {
        " worktrees?"
    });
    s
}

/// Why a worktree is swept: its pull request, or where its content landed.
pub open spec fn evidence(reason: Reason, pr: Option<PrInfoView>, trunk: Seq<char>) -> Seq<char> {
    match (reason, pr) {
        (Reason::Pr, Some(p)) => style::dimmed(listing::pr_tag(p)) + " "@ + style::dimmed(p.state),
        _ => style::dimmed("landed on "@ + trunk),
    }
}

/// What the user is told as a worktree is swept.
pub open spec fn removing(
    name: Seq<char>,
    reason: Reason,
    pr: Option<PrInfoView>,
    trunk: Seq<char>,
) -> Seq<char> {
    "removing "@ + name + " ("@ + evidence(reason, pr, trunk) + ")"@
}

/// What the user is told as a worktree is swept; `trunk` is what its content was
/// compared to.
pub fn removing_line(w: &Worktree, reason: Reason, pr: &Option<PrInfo>, trunk: &str) -> (r: String)
    ensures
        r@ == removing(w.name@, reason, pr.deep_view(), trunk@),
{
    let why = match (reason, pr) {
        (Reason::Pr, Some(p)) => {
            let mut s = style::dim(listing::tag(p).as_str());
            s.append(" ");
            s.append(style::dim(p.state.as_str()).as_str());
            s
        },
        _ => {
            let mut s = "landed on ".to_string();
            s.append(trunk);
            style::dim(s.as_str())
        },
    };
    let mut s = "removing ".to_string();
    s.append(w.name.as_str());
    s.append(" (");
    s.append(why.as_str());
    s.append(")");
    s
}

/// What the user is told where a removal failed.
pub fn failed_line(e: &str) -> (r: String)
    ensures
        r@ == "  "@ + style::bold(style::red("failed"@)) + ": "@ + e@,
{
    let mut s = "  ".to_string();
    s.append(style::embolden(style::paint_red("failed").as_str()).as_str());
    s.append(": ");
    s.append(e);
    s
}

/// How many of the removals failed.
pub open spec fn failures(results: Seq<bool>) -> nat
    decreases results.len(),
{
    if results.len() == 0 {
        0
    } else {
        failures(results.drop_last()) + if results.last() {
            0nat
        } else {
            1nat
        }
    }
}

/// What the user is told in the end.
pub open spec fn summary(removed: nat, failed: nat) -> Seq<char> {
    "done \u{2014} removed "@ + style::green(text::decimal(removed)) + ", failed "@ + (if failed
        == 0 {
        style::dimmed(text::decimal(failed))
    } else {
        style::red(text::decimal(failed))
    })
}

/// What the user is told in the end, and whether it counts as a failure: it does
/// where any removal failed. `results` says of each removal whether it went well.
pub fn sweep_summary(results: &Vec<bool>) -> (r: (String, Result<(), String>))
    ensures
        r.0@ == summary(
            (results@.len() - failures(results@)) as nat,
            failures(results@),
        ),
        failures(results@) <= results@.len(),
        match r.1 {
            Ok(_) => failures(results@) == 0,
            Err(e) => failures(results@) > 0 && e@ == text::decimal(failures(results@))
                + " removal(s) failed"@,
        },
{
    let mut failed: usize = 0;
    let mut i: usize = 0;
    while i < results.len()
        invariant
            i <= results@.len(),
            failed <= i,
            failed == failures(results@.take(i as int)),
        decreases results@.len() - i,
    {
        proof {
            assert(results@.take(i + 1).drop_last() =~= results@.take(i as int));
        }
        if !results[i] {
            failed = failed + 1;
        }
        i = i + 1;
    }
    proof {
        assert(results@.take(i as int) =~= results@);
    }
    let removed = strings::decimal((results.len() - failed) as u64);
    let count = strings::decimal(failed as u64);
    let mut s = "done \u{2014} removed ".to_string();
    s.append(style::paint_green(removed.as_str()).as_str());
    s.append(", failed ");
    let last = if failed == 0 {
        style::dim(count.as_str())
    } else {
        style::paint_red(count.as_str())
    };
    s.append(last.as_str());
    if failed == 0 {
        return (s, Ok(()));
    }
    let mut e = count;
    e.append(" removal(s) failed");
    (s, Err(e))
}

/// What is swept is swept in the order of the list, and each worktree at most
/// once.
pub proof fn swept_in_order(judged: Seq<Judged>)
    ensures
        forall|a: int, b: int|
            0 <= a < b < swept(judged).len() ==> (#[trigger] swept(judged)[a]) < (#[trigger] swept(
                judged,
            )[b]),
        forall|a: int|
            0 <= a < swept(judged).len() ==> 0 <= #[trigger] swept(judged)[a] < judged.len()
                && judged[swept(judged)[a]].verdict is Sweep,
    decreases judged.len(),
{
    if judged.len() > 0 {
        let head = judged.drop_last();
        swept_in_order(head);
        assert forall|a: int| 0 <= a < swept(judged).len() implies 0 <= #[trigger] swept(judged)[a]
            < judged.len() && judged[swept(judged)[a]].verdict is Sweep by {
            if a < swept(head).len() {
                assert(swept(judged)[a] == swept(head)[a]);
                assert(head[swept(head)[a]] == judged[swept(head)[a]]);
            }
        }
        assert forall|a: int, b: int| 0 <= a < b < swept(judged).len() implies (#[trigger] swept(
            judged,
        )[a]) < (#[trigger] swept(judged)[b]) by {
            assert(swept(judged)[a] == swept(head)[a]);
            if b < swept(head).len() {
                assert(swept(judged)[b] == swept(head)[b]);
            }
        }
    }
}

} // verus!
