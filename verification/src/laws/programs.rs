//! Which programs are run, and what is made of what they say.

use crate::landed;
use crate::paths;
use crate::process::{self, ActionView, InvocationView, OutputView, ReplyView, StepView};
use crate::text;
use crate::vcs::{self, AddBranchView, Kind};
use vstd::prelude::*;

verus! {

/// A program, its output collected.
pub open spec fn collects(
    program: Seq<char>,
    args: Seq<Seq<char>>,
    dir: Seq<char>,
) -> ActionView {
    ActionView::Run(InvocationView { program, args, dir, capture: true })
}

/// A program that prints to the terminal.
pub open spec fn shows(program: Seq<char>, args: Seq<Seq<char>>, dir: Seq<char>) -> ActionView {
    ActionView::Run(InvocationView { program, args, dir, capture: false })
}

/// A program that ran and succeeded.
pub open spec fn went_well(reply: ReplyView) -> bool {
    match reply {
        ReplyView::Ran(Some(o)) => o.success,
        _ => false,
    }
}

/// What each backend is asked at first, to find things out.
pub proof fn backends_are_asked(
    root: Seq<char>,
    name: Seq<char>,
    rev: Seq<char>,
    remote: Seq<char>,
    windows: bool,
)
    ensures
        vcs::origin(Kind::Git, root, seq![]) == StepView::<Option<Seq<char>>>::Do(
            collects("git"@, seq!["remote"@, "get-url"@, "origin"@], root),
        ),
        vcs::origin(Kind::Jj, root, seq![]) == StepView::<Option<Seq<char>>>::Do(
            collects("jj"@, seq!["git"@, "remote"@, "list"@], root),
        ),
        vcs::current(Kind::Git, root, seq![]) == StepView::<Option<Seq<char>>>::Do(
            collects("git"@, seq!["branch"@, "--show-current"@], root),
        ),
        vcs::current(Kind::Jj, root, seq![]) == StepView::<Option<Seq<char>>>::Do(
            collects(
                "jj"@,
                seq![
                    "log"@,
                    "-r"@,
                    "@"@,
                    "--no-graph"@,
                    "-T"@,
                    "self.bookmarks().map(|b| b.name()).join(\",\")"@,
                ],
                root,
            ),
        ),
        vcs::refs(Kind::Git, root, seq![]) == StepView::<Seq<Seq<char>>>::Do(
            collects(
                "git"@,
                seq![
                    "for-each-ref"@,
                    "--format=%(refname:short)"@,
                    "refs/heads"@,
                    "refs/remotes"@,
                    "refs/tags"@,
                ],
                root,
            ),
        ),
        vcs::refs(Kind::Jj, root, seq![]) == StepView::<Seq<Seq<char>>>::Do(
            collects("jj"@, seq!["bookmark"@, "list"@, "-T"@, "self.name() ++ \"\\n\""@], root),
        ),
        vcs::existing(Kind::Git, root, name, seq![]) == StepView::<bool>::Do(
            collects(
                "git"@,
                seq!["show-ref"@, "--verify"@, "--quiet"@, "refs/heads/"@ + name],
                root,
            ),
        ),
        vcs::existing(Kind::Jj, root, name, seq![]) == StepView::<bool>::Do(
            collects("jj"@, seq!["bookmark"@, "list"@, name], root),
        ),
        vcs::pruning(Kind::Git, root, seq![]) == StepView::<Seq<char>>::Do(
            collects("git"@, seq!["worktree"@, "prune"@, "--verbose"@], root),
        ),
        vcs::fetching(Kind::Git, root, seq![]) == StepView::<Seq<char>>::Do(
            collects("git"@, seq!["fetch"@, "origin"@], root),
        ),
        vcs::fetching(Kind::Jj, root, seq![]) == StepView::<Seq<char>>::Do(
            collects("jj"@, seq!["git"@, "fetch"@], root),
        ),
        vcs::fetching_remote(Kind::Git, root, remote, seq![]) == StepView::<Seq<char>>::Do(
            collects("git"@, seq!["fetch"@, remote], root),
        ),
        vcs::fetching_remote(Kind::Jj, root, remote, seq![]) == StepView::<Seq<char>>::Do(
            collects("jj"@, seq!["git"@, "fetch"@, "--remote"@, remote], root),
        ),
        vcs::remote_of(Kind::Git, root, rev, seq![]) == StepView::<Option<Seq<char>>>::Do(
            collects("git"@, seq!["remote"@], root),
        ),
        vcs::remote_of(Kind::Jj, root, rev, seq![]) == StepView::<Option<Seq<char>>>::Do(
            collects("jj"@, seq!["git"@, "remote"@, "list"@], root),
        ),
        vcs::listing(Kind::Git, root, windows, seq![]) is Do,
        vcs::listing(Kind::Jj, root, windows, seq![]) is Do,
{
}

/// A list is that of the backend.
pub proof fn lists_are_those_of_the_backend(
    root: Seq<char>,
    windows: bool,
    replies: Seq<ReplyView>,
)
    ensures
        vcs::listing(Kind::Git, root, windows, replies) == vcs::git::listing(
            root,
            windows,
            replies,
        ),
        vcs::listing(Kind::Jj, root, windows, replies) == vcs::jj::listing(root, replies),
        vcs::pruning(Kind::Jj, root, replies) == vcs::jj::pruning(root, replies),
{
}

/// A branch is there for git where `git show-ref` succeeded, and a bookmark for jj
/// where `jj bookmark list` succeeded and printed something.
pub proof fn branches_are_found(
    root: Seq<char>,
    name: Seq<char>,
    reply: ReplyView,
    rest: Seq<ReplyView>,
)
    ensures
        vcs::existing(Kind::Git, root, name, seq![reply] + rest) == StepView::Done(
            Ok::<bool, Seq<char>>(went_well(reply)),
        ),
        vcs::existing(Kind::Jj, root, name, seq![reply] + rest) == StepView::Done(
            Ok::<bool, Seq<char>>(
                match reply {
                    ReplyView::Ran(Some(o)) => o.success && o.stdout.len() > 0,
                    _ => false,
                },
            ),
        ),
{
    assert((seq![reply] + rest)[0] == reply);
}

/// The URL of `origin` for git, and what is checked out for both: what was
/// printed, without white space around it; none where that is nothing or the
/// program failed.
pub proof fn answers_are_what_was_printed(root: Seq<char>, reply: ReplyView, rest: Seq<ReplyView>)
    ensures
        ({
            let rs = seq![reply] + rest;
            let said = StepView::Done(
                Ok::<Option<Seq<char>>, Seq<char>>(
                    match reply {
                        ReplyView::Ran(Some(o)) => if o.success && text::trim(o.stdout).len() > 0 {
                            Some(text::trim(o.stdout))
                        } else {
                            None
                        },
                        _ => None,
                    },
                ),
            );
            &&& vcs::origin(Kind::Git, root, rs) == said
            &&& vcs::current(Kind::Git, root, rs) == said
            &&& vcs::current(Kind::Jj, root, rs) == said
            &&& landed::resolving(root, seq![], rs) == said
        }),
{
    assert((seq![reply] + rest)[0] == reply);
}

/// What pruning with git and both kinds of fetching have to show: what was printed,
/// and for a fetch rather its messages where there are any; a failure names what
/// failed, with the program's own complaint.
pub proof fn fetches_show_their_messages(
    kind: Kind,
    root: Seq<char>,
    remote: Seq<char>,
    reply: ReplyView,
    rest: Seq<ReplyView>,
)
    requires
        kind == Kind::Git || kind == Kind::Jj,
    ensures
        ({
            let rs = seq![reply] + rest;
            match reply {
                ReplyView::Ran(Some(o)) => if o.success {
                    let shown = StepView::Done(
                        Ok::<Seq<char>, Seq<char>>(
                            if text::trim(o.stderr).len() > 0 {
                                o.stderr
                            } else {
                                o.stdout
                            },
                        ),
                    );
                    &&& vcs::fetching(kind, root, rs) == shown
                    &&& vcs::fetching_remote(kind, root, remote, rs) == shown
                    &&& vcs::pruning(Kind::Git, root, rs) == StepView::Done(
                        Ok::<Seq<char>, Seq<char>>(o.stdout),
                    )
                } else {
                    &&& vcs::fetching(kind, root, rs) is Done && vcs::fetching(
                        kind,
                        root,
                        rs,
                    )->Done_0 is Err
                    &&& vcs::fetching_remote(kind, root, remote, rs) == StepView::Done(
                        Err::<Seq<char>, Seq<char>>(
                            (if kind == Kind::Git {
                                "git fetch "@
                            } else {
                                "jj git fetch --remote "@
                            }) + remote + ": "@ + text::trim(o.stderr),
                        ),
                    )
                    &&& vcs::pruning(Kind::Git, root, rs) == StepView::Done(
                        Err::<Seq<char>, Seq<char>>(
                            "git worktree prune"@ + ": "@ + text::trim(o.stderr),
                        ),
                    )
                },
                _ => {
                    &&& vcs::fetching(kind, root, rs) is Done && vcs::fetching(
                        kind,
                        root,
                        rs,
                    )->Done_0 is Err
                    &&& vcs::fetching_remote(kind, root, remote, rs) is Done
                        && vcs::fetching_remote(kind, root, remote, rs)->Done_0 is Err
                    &&& vcs::pruning(Kind::Git, root, rs) is Done && vcs::pruning(
                        Kind::Git,
                        root,
                        rs,
                    )->Done_0 is Err
                },
            }
        }),
{
    assert((seq![reply] + rest)[0] == reply);
}

/// `v` is one of the lines that are not empty, in order.
proof fn filled_lines_are(s: Seq<char>) -> (at: Seq<int>)
    ensures
        at.len() == process::filled_lines(s).len(),
        forall|i: int|
            0 <= i < at.len() ==> 0 <= #[trigger] at[i] < text::lines(s).len()
                && process::filled_lines(s)[i] == text::lines(s)[at[i]],
        forall|i: int, j: int| 0 <= i < j < at.len() ==> #[trigger] at[i] < #[trigger] at[j],
        forall|l: int|
            0 <= l < text::lines(s).len() && (#[trigger] text::lines(s)[l]).len() > 0
                ==> at.contains(l),
        forall|i: int|
            0 <= i < process::filled_lines(s).len() ==> (#[trigger] process::filled_lines(
                s,
            )[i]).len() > 0,
{
    filter_keeps(text::lines(s))
}

proof fn filter_keeps(lines: Seq<Seq<char>>) -> (at: Seq<int>)
    ensures
        ({
            let kept = lines.filter(|l: Seq<char>| l.len() > 0);
            &&& at.len() == kept.len()
            &&& forall|i: int|
                0 <= i < at.len() ==> 0 <= #[trigger] at[i] < lines.len() && kept[i] == lines[at[i]]
            &&& forall|i: int, j: int|
                0 <= i < j < at.len() ==> #[trigger] at[i] < #[trigger] at[j]
            &&& forall|l: int|
                0 <= l < lines.len() && (#[trigger] lines[l]).len() > 0 ==> at.contains(l)
            &&& forall|i: int| 0 <= i < kept.len() ==> (#[trigger] kept[i]).len() > 0
        }),
    decreases lines.len(),
{
    reveal(Seq::filter);
    let keep = |l: Seq<char>| l.len() > 0;
    let kept = lines.filter(keep);
    if lines.len() == 0 {
        Seq::empty()
    } else {
        let head = lines.drop_last();
        let before = filter_keeps(head);
        let n = lines.len() - 1;
        let at = if keep(lines.last()) {
            before.push(n)
        } else {
            before
        };
        let first = head.filter(keep);
        assert forall|i: int| 0 <= i < at.len() implies 0 <= #[trigger] at[i] < lines.len()
            && kept[i] == lines[at[i]] by {
            if i < before.len() {
                assert(at[i] == before[i]);
                assert(kept[i] == first[i]);
                assert(lines[at[i]] == head[before[i]]);
            }
        }
        assert forall|i: int, j: int| 0 <= i < j < at.len() implies #[trigger] at[i]
            < #[trigger] at[j] by {
            assert(at[i] == before[i]);
            if j < before.len() {
                assert(at[j] == before[j]);
            }
        }
        assert forall|l: int| 0 <= l < lines.len() && (#[trigger] lines[l]).len() > 0 implies at.contains(
            l,
        ) by {
            if l < n {
                assert(lines[l] == head[l]);
                let i = choose|i: int| 0 <= i < before.len() && before[i] == l;
                assert(at[i] == l);
            } else {
                assert(at[before.len() as int] == n);
            }
        }
        assert forall|i: int| 0 <= i < kept.len() implies (#[trigger] kept[i]).len() > 0 by {
            if i < first.len() {
                assert(kept[i] == first[i]);
            }
        }
        at
    }
}

/// What there is to start a branch from: every line that was printed and is not
/// empty, in order. `at` says on which line each of them is.
pub proof fn refs_are_the_lines_printed(
    kind: Kind,
    root: Seq<char>,
    o: OutputView,
    rest: Seq<ReplyView>,
) -> (at: Seq<int>)
    requires
        kind == Kind::Git || kind == Kind::Jj,
        o.success,
    ensures
        match vcs::refs(kind, root, seq![ReplyView::Ran(Some(o))] + rest) {
            StepView::Done(Ok(refs)) => {
                let lines = text::lines(o.stdout);
                &&& at.len() == refs.len()
                &&& forall|i: int|
                    0 <= i < at.len() ==> 0 <= #[trigger] at[i] < lines.len() && refs[i]
                        == lines[at[i]]
                &&& forall|i: int, j: int|
                    0 <= i < j < at.len() ==> #[trigger] at[i] < #[trigger] at[j]
                &&& forall|l: int|
                    0 <= l < lines.len() && (#[trigger] lines[l]).len() > 0 ==> at.contains(l)
            },
            _ => false,
        },
{
    assert((seq![ReplyView::Ran(Some(o))] + rest)[0] == ReplyView::Ran(Some(o)));
    filled_lines_are(o.stdout)
}

/// Adding a worktree with git: one command, which makes the branch at the base or
/// attaches to it, and succeeds or fails as that does.
pub proof fn git_adds_a_worktree(
    root: Seq<char>,
    path: Seq<char>,
    name: Seq<char>,
    base: Seq<char>,
    windows: bool,
    branch: AddBranchView,
    reply: ReplyView,
    rest: Seq<ReplyView>,
)
    ensures
        vcs::adding(
            Kind::Git,
            root,
            path,
            AddBranchView::NewBranch { name, base: None },
            windows,
            seq![],
        ) == StepView::<()>::Do(
            shows("git"@, seq!["worktree"@, "add"@, "-b"@, name, path], root),
        ),
        vcs::adding(
            Kind::Git,
            root,
            path,
            AddBranchView::NewBranch { name, base: Some(base) },
            windows,
            seq![],
        ) == StepView::<()>::Do(
            shows("git"@, seq!["worktree"@, "add"@, "-b"@, name, path, base], root),
        ),
        vcs::adding(
            Kind::Git,
            root,
            path,
            AddBranchView::ExistingBranch(name),
            windows,
            seq![],
        ) == StepView::<()>::Do(shows("git"@, seq!["worktree"@, "add"@, path, name], root)),
        match vcs::adding(Kind::Git, root, path, branch, windows, seq![reply] + rest) {
            StepView::Done(Ok(_)) => went_well(reply),
            StepView::Done(Err(_)) => !went_well(reply),
            StepView::Do(_) => false,
        },
{
    assert((seq![reply] + rest)[0] == reply);
}

/// Removing a worktree with git: one command, by force where that is asked for,
/// which succeeds or fails as that does.
pub proof fn git_removes_a_worktree(
    root: Seq<char>,
    path: Seq<char>,
    force: bool,
    windows: bool,
    reply: ReplyView,
    rest: Seq<ReplyView>,
)
    ensures
        vcs::removing(Kind::Git, root, path, force, windows, seq![]) == StepView::<()>::Do(
            shows(
                "git"@,
                if force {
                    seq!["worktree"@, "remove"@, "--force"@, path]
                } else {
                    seq!["worktree"@, "remove"@, path]
                },
                root,
            ),
        ),
        match vcs::removing(Kind::Git, root, path, force, windows, seq![reply] + rest) {
            StepView::Done(Ok(_)) => went_well(reply),
            StepView::Done(Err(_)) => !went_well(reply),
            StepView::Do(_) => false,
        },
{
    assert((seq![reply] + rest)[0] == reply);
}

/// Where a workspace starts is settled: at the branch that is there, or at the base
/// that is named, if that is not `@`.
pub open spec fn starts_at(branch: AddBranchView, start: Seq<char>) -> bool {
    match branch {
        AddBranchView::ExistingBranch(name) => start == name,
        AddBranchView::NewBranch { name: _, base: Some(b) } => b != "@"@ && start == b,
        AddBranchView::NewBranch { name: _, base: None } => false,
    }
}

/// The name of the branch.
pub open spec fn called(branch: AddBranchView) -> Seq<char> {
    match branch {
        AddBranchView::ExistingBranch(name) => name,
        AddBranchView::NewBranch { name, base: _ } => name,
    }
}

/// How a workspace is made from where it starts: the workspace is added there under
/// the name of the branch; then, in its directory, the bookmark is made, or edited
/// where it is there; each failure ends it.
pub open spec fn is_made(
    root: Seq<char>,
    path: Seq<char>,
    branch: AddBranchView,
    windows: bool,
    start: Seq<char>,
    rest: Seq<ReplyView>,
    step: StepView<()>,
) -> bool {
    if rest.len() == 0 {
        step == StepView::<()>::Do(
            shows(
                "jj"@,
                seq!["workspace"@, "add"@, "-r"@, start, path, "--name"@, called(branch)],
                root,
            ),
        )
    } else if !went_well(rest[0]) {
        step is Done && step->Done_0 is Err
    } else if rest.len() == 1 {
        step == StepView::<()>::Do(
            shows(
                "jj"@,
                match branch {
                    AddBranchView::ExistingBranch(name) => seq!["edit"@, name],
                    AddBranchView::NewBranch { name, base: _ } => seq![
                        "bookmark"@,
                        "create"@,
                        name,
                    ],
                },
                paths::join(root, path, windows),
            ),
        )
    } else {
        step is Done && (step->Done_0 is Ok <==> went_well(rest[1]))
    }
}

/// Adding a workspace with jj. Where the base is left open, or is `@`, it starts at
/// `@`, unless that is empty and `trunk()` resolves: then it starts there.
pub proof fn jj_adds_a_workspace(
    root: Seq<char>,
    path: Seq<char>,
    branch: AddBranchView,
    windows: bool,
    start: Seq<char>,
    replies: Seq<ReplyView>,
)
    ensures
        starts_at(branch, start) ==> is_made(
            root,
            path,
            branch,
            windows,
            start,
            replies,
            vcs::adding(Kind::Jj, root, path, branch, windows, replies),
        ),
        (branch matches AddBranchView::NewBranch { name, base } && (base is None || base == Some(
            "@"@,
        ))) ==> {
            let step = vcs::adding(Kind::Jj, root, path, branch, windows, replies);
            let empty = match replies[0] {
                ReplyView::Ran(Some(o)) => o.success && text::trim(o.stdout) == "1"@,
                _ => false,
            };
            let trunk = match replies[1] {
                ReplyView::Ran(Some(o)) => if o.success && text::trim(o.stdout).len() > 0 {
                    text::trim(o.stdout)
                } else {
                    "@"@
                },
                _ => "@"@,
            };
            if replies.len() == 0 {
                step == StepView::<()>::Do(
                    collects(
                        "jj"@,
                        seq![
                            "log"@,
                            "-r"@,
                            "@"@,
                            "--no-graph"@,
                            "-T"@,
                            "if(self.empty(), \"1\", \"0\")"@,
                            "--limit"@,
                            "1"@,
                        ],
                        root,
                    ),
                )
            } else if !empty {
                is_made(root, path, branch, windows, "@"@, replies.skip(1), step)
            } else if replies.len() == 1 {
                step == StepView::<()>::Do(
                    collects(
                        "jj"@,
                        seq![
                            "log"@,
                            "-r"@,
                            "trunk()"@,
                            "--no-graph"@,
                            "-T"@,
                            "self.change_id().short()"@,
                            "--limit"@,
                            "1"@,
                        ],
                        root,
                    ),
                )
            } else {
                is_made(root, path, branch, windows, trunk, replies.skip(2), step)
            }
        },
{
    if replies.len() > 0 {
        assert(replies.skip(1) =~= replies.drop_first());
    }
}

/// The references tried for upstream, in order.
pub proof fn upstream_is_looked_for_in_order(root: Seq<char>, rev: Seq<char>)
    ensures
        landed::candidates() == seq![
            "refs/remotes/origin/HEAD"@,
            "refs/remotes/origin/main"@,
            "refs/remotes/origin/master"@,
            "refs/heads/main"@,
            "refs/heads/master"@,
        ],
        landed::verify_command(root, rev) == collects(
            "git"@,
            seq!["rev-parse"@, "--quiet"@, "--verify"@, rev],
            root,
        ),
{
}

/// A reference is shown without `refs/remotes/` or `refs/heads/`, and otherwise
/// without `refs/`.
pub proof fn references_are_shown_short(s: Seq<char>)
    ensures
        landed::short_ref("refs/remotes/"@ + s) == s,
        landed::short_ref("refs/heads/"@ + s) == s,
        !"refs/"@.is_prefix_of(s) && !"refs/remotes/"@.is_prefix_of(s)
            && !"refs/heads/"@.is_prefix_of(s) ==> landed::short_ref(s) == s,
{
    let a = "refs/remotes/"@;
    let b = "refs/heads/"@;
    reveal_strlit("refs/remotes/");
    reveal_strlit("refs/heads/");
    assert((a + s).subrange(0, a.len() as int) =~= a);
    assert((a + s).skip(a.len() as int) =~= s);
    assert((b + s).subrange(0, b.len() as int) =~= b);
    assert((b + s).skip(b.len() as int) =~= s);
    if a.is_prefix_of(b + s) {
        assert((b + s).subrange(0, a.len() as int)[5] == (b + s)[5]);
        assert(a[5] == 'r' && b[5] == 'h');
    }
}

} // verus!
