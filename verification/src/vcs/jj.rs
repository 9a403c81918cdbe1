//! jujutsu: what `jj` prints of workspaces, and the commands that work on them.
//!
//! A branch is a bookmark here. jj has no counterpart of `git worktree prune`:
//! pruning forgets the workspaces whose directory is gone.

use super::detect::Kind;
use super::{AddBranch, AddBranchView, Backend, Worktree, WorktreeView};
use crate::paths;
use crate::process::{self, Action, ActionView, Reply, ReplyView, Step, StepView};
use crate::strings;
use crate::text;
use vstd::prelude::*;
use vstd::string::*;

verus! {

/// `jj` with `args`, its output collected.
pub open spec fn jj(args: Seq<Seq<char>>, root: Seq<char>) -> ActionView {
    process::ask("jj"@, args, root)
}

/// Asks for the directory of the workspace `name`.
pub open spec fn root_command(root: Seq<char>, name: Seq<char>) -> ActionView {
    jj(seq!["workspace"@, "root"@, "--name"@, name], root)
}

/// What is known of a workspace's directory. None: `jj` ran and could not find
/// it. A failure: `jj` could not be started.
pub open spec fn read_root(reply: ReplyView) -> Result<Option<Seq<char>>, Seq<char>> {
    match process::output(reply) {
        None => Err(process::not_spawned("jj"@)),
        Some(_) => Ok(process::answer(reply)),
    }
}

/// Asks for the short change id of a revision.
pub open spec fn rev_command(root: Seq<char>, revset: Seq<char>) -> ActionView {
    jj(
        seq![
            "log"@,
            "-r"@,
            revset,
            "--no-graph"@,
            "-T"@,
            "self.change_id().short()"@,
            "--limit"@,
            "1"@,
        ],
        root,
    )
}

/// Asks whether a revision changes nothing.
pub open spec fn empty_command(root: Seq<char>, rev: Seq<char>) -> ActionView {
    jj(
        seq![
            "log"@,
            "-r"@,
            rev,
            "--no-graph"@,
            "-T"@,
            "if(self.empty(), \"1\", \"0\")"@,
            "--limit"@,
            "1"@,
        ],
        root,
    )
}

/// `jj` said that the revision changes nothing.
pub open spec fn read_empty(reply: ReplyView) -> bool {
    process::succeeded(reply) && text::trim(process::output(reply)->0.stdout) == "1"@
}

/// The template for [`status_command`]: five fields, a unit separator between
/// each and the next, the description last.
pub const STATUS_TEMPLATE: &'static str =
    "self.change_id().short() ++ \"\\x1f\" ++ self.bookmarks().map(|b| b.name()).join(\",\") ++ \"\\x1f\" ++ if(self.empty(), \"0\", \"1\") ++ \"\\x1f\" ++ if(self.conflict(), \"1\", \"0\") ++ \"\\x1f\" ++ self.description().first_line()";

/// Asks for the state of the workspace `name`.
pub open spec fn status_command(root: Seq<char>, name: Seq<char>) -> ActionView {
    jj(seq!["log"@, "-r"@, name + "@"@, "--no-graph"@, "-T"@, STATUS_TEMPLATE@], root)
}

/// The state of a workspace.
#[derive(Debug, PartialEq, Eq)]
pub struct JjStatus {
    /// Short change id of `@`.
    pub id: String,
    /// Its bookmarks, separated by commas.
    pub bookmarks: Option<String>,
    /// `@` has content.
    pub dirty: bool,
    /// `@` has conflicts.
    pub conflict: bool,
    /// First line of its description.
    pub desc: Option<String>,
}

/// What a [`JjStatus`] stands for.
pub struct JjStatusView {
    pub id: Seq<char>,
    pub bookmarks: Option<Seq<char>>,
    pub dirty: bool,
    pub conflict: bool,
    pub desc: Option<Seq<char>>,
}

impl DeepView for JjStatus {
    type V = JjStatusView;

    open spec fn deep_view(&self) -> JjStatusView {
        JjStatusView {
            id: self.id@,
            bookmarks: self.bookmarks.deep_view(),
            dirty: self.dirty,
            conflict: self.conflict,
            desc: self.desc.deep_view(),
        }
    }
}

/// The field `i`, trimmed; empty where there are fewer.
pub open spec fn field(fields: Seq<Seq<char>>, i: int) -> Seq<char> {
    if i < fields.len() {
        text::trim(fields[i])
    } else {
        seq![]
    }
}

/// The text, unless it is empty.
pub open spec fn non_empty(s: Seq<char>) -> Option<Seq<char>> {
    if s.len() > 0 {
        Some(s)
    } else {
        None
    }
}

/// The state that `jj` answered with. None where it failed or gave no id.
pub open spec fn read_status(reply: ReplyView) -> Option<JjStatusView> {
    let fields = text::split_n(process::output(reply)->0.stdout, '\x1f', 5);
    if process::succeeded(reply) && field(fields, 0).len() > 0 {
        Some(
            JjStatusView {
                id: field(fields, 0),
                bookmarks: non_empty(field(fields, 1)),
                dirty: field(fields, 2) == "1"@,
                conflict: field(fields, 3) == "1"@,
                desc: non_empty(field(fields, 4)),
            },
        )
    } else {
        None
    }
}

/// The workspaces that a listing names: what stands before the first colon of
/// each line that has one.
pub open spec fn workspace_names(lines: Seq<Seq<char>>) -> Seq<Seq<char>>
    decreases lines.len(),
{
    if lines.len() == 0 {
        seq![]
    } else {
        let line = text::trim(lines.last());
        let n = text::position(line, ':');
        workspace_names(lines.drop_last()) + if 0 <= n < line.len() {
            seq![text::trim(line.take(n))]
        } else {
            seq![]
        }
    }
}

/// The row of a workspace. Without a directory it is stale, and nothing else
/// is known of it.
pub open spec fn row(
    name: Seq<char>,
    path: Option<Seq<char>>,
    status: Option<JjStatusView>,
) -> WorktreeView {
    WorktreeView {
        name,
        path: match path {
            Some(p) => p,
            None => seq![],
        },
        branch: match status {
            Some(s) => s.bookmarks,
            None => None,
        },
        head: match status {
            Some(s) => Some(s.id),
            None => None,
        },
        commit: None,
        desc: match status {
            Some(s) => s.desc,
            None => None,
        },
        dirty: status is Some && status->0.dirty,
        conflict: status is Some && status->0.conflict,
        is_main: name == "default"@,
        is_bare: false,
        is_stale: path is None,
        is_locked: false,
        vcs: Kind::Jj,
    }
}

/// The list, once the workspaces are known by name: each is asked for its
/// directory and, where it has one, for its state. `done` holds the finished
/// rows; what is left of the replies comes with the step.
pub open spec fn filling(
    root: Seq<char>,
    names: Seq<Seq<char>>,
    replies: Seq<ReplyView>,
    done: Seq<WorktreeView>,
) -> (StepView<Seq<WorktreeView>>, Seq<ReplyView>)
    decreases names.len(),
{
    if names.len() == 0 {
        (StepView::Done(Ok(done)), replies)
    } else if replies.len() == 0 {
        (StepView::Do(root_command(root, names[0])), replies)
    } else {
        match read_root(replies[0]) {
            Err(e) => (StepView::Done(Err(e)), replies),
            Ok(None) => filling(
                root,
                names.drop_first(),
                replies.drop_first(),
                done.push(row(names[0], None, None)),
            ),
            Ok(Some(path)) => if replies.len() == 1 {
                (StepView::Do(status_command(root, names[0])), replies)
            } else {
                filling(
                    root,
                    names.drop_first(),
                    replies.skip(2),
                    done.push(row(names[0], Some(path), read_status(replies[1]))),
                )
            },
        }
    }
}

/// Listing the workspaces, with what is left of the replies.
pub open spec fn listing_from(root: Seq<char>, replies: Seq<ReplyView>) -> (
    StepView<Seq<WorktreeView>>,
    Seq<ReplyView>,
) {
    if replies.len() == 0 {
        (StepView::Do(jj(seq!["workspace"@, "list"@], root)), replies)
    } else {
        match process::printed(replies[0], "jj"@, "jj workspace list"@) {
            Err(e) => (StepView::Done(Err(e)), replies),
            Ok(out) => filling(
                root,
                workspace_names(text::lines(out)),
                replies.drop_first(),
                seq![],
            ),
        }
    }
}

/// Listing the workspaces, given the replies so far.
pub open spec fn listing(root: Seq<char>, replies: Seq<ReplyView>) -> StepView<Seq<WorktreeView>> {
    listing_from(root, replies).0
}

/// Where a new bookmark starts, or what to ask to find out.
pub enum BaseView {
    Ask(ActionView),
    /// The revision, and what is left of the replies.
    At(Seq<char>, Seq<ReplyView>),
}

/// Where a new bookmark starts: at the revision the user named. Where that is
/// `@` and `@` is empty, at `trunk()` if that resolves, so that the empty change
/// is not dragged along.
pub open spec fn new_base(root: Seq<char>, input: Seq<char>, replies: Seq<ReplyView>) -> BaseView {
    if input != "@"@ {
        BaseView::At(input, replies)
    } else if replies.len() == 0 {
        BaseView::Ask(empty_command(root, "@"@))
    } else if !read_empty(replies[0]) {
        BaseView::At("@"@, replies.drop_first())
    } else if replies.len() == 1 {
        BaseView::Ask(rev_command(root, "trunk()"@))
    } else {
        BaseView::At(
            match process::answer(replies[1]) {
                Some(rev) => rev,
                None => "@"@,
            },
            replies.skip(2),
        )
    }
}

/// Where the workspace of a branch starts.
pub open spec fn base_of(
    root: Seq<char>,
    branch: AddBranchView,
    replies: Seq<ReplyView>,
) -> BaseView {
    match branch {
        AddBranchView::NewBranch { base: None, .. } => new_base(root, "@"@, replies),
        AddBranchView::NewBranch { base: Some(base), .. } => new_base(root, base, replies),
        AddBranchView::ExistingBranch(name) => BaseView::At(name, replies),
    }
}

/// The branch's name.
pub open spec fn branch_name(branch: AddBranchView) -> Seq<char> {
    match branch {
        AddBranchView::NewBranch { name, .. } => name,
        AddBranchView::ExistingBranch(name) => name,
    }
}

/// Ties the bookmark to the new workspace.
pub open spec fn tie_args(branch: AddBranchView) -> Seq<Seq<char>> {
    match branch {
        AddBranchView::NewBranch { name, .. } => seq!["bookmark"@, "create"@, name],
        AddBranchView::ExistingBranch(name) => seq!["edit"@, name],
    }
}

/// What failed where the bookmark could not be tied.
pub open spec fn tie_what(branch: AddBranchView) -> Seq<char> {
    match branch {
        AddBranchView::NewBranch { .. } => "jj bookmark create"@,
        AddBranchView::ExistingBranch(name) => "jj edit "@ + name,
    }
}

/// Makes the workspace `name` at `path`, starting from `base`.
pub open spec fn add_command(
    root: Seq<char>,
    base: Seq<char>,
    path: Seq<char>,
    name: Seq<char>,
) -> ActionView {
    process::tell(
        "jj"@,
        seq!["workspace"@, "add"@, "-r"@, base, path, "--name"@, name],
        root,
    )
}

/// Ties the bookmark to the workspace at `path`, in its directory.
pub open spec fn tie_command(
    root: Seq<char>,
    path: Seq<char>,
    branch: AddBranchView,
    windows: bool,
) -> ActionView {
    process::tell("jj"@, tie_args(branch), paths::join(root, path, windows))
}

/// Adding a workspace, given the replies so far: find where it starts, add it,
/// and in its directory create the bookmark or edit the one that is there.
pub open spec fn adding(
    root: Seq<char>,
    path: Seq<char>,
    branch: AddBranchView,
    windows: bool,
    replies: Seq<ReplyView>,
) -> StepView<()> {
    match base_of(root, branch, replies) {
        BaseView::Ask(a) => StepView::Do(a),
        BaseView::At(base, rest) => if rest.len() == 0 {
            StepView::Do(add_command(root, base, path, branch_name(branch)))
        } else {
            match process::ran_well(rest[0], "jj"@, "jj workspace add"@) {
                Err(e) => StepView::Done(Err(e)),
                Ok(_) => if rest.len() == 1 {
                    StepView::Do(tie_command(root, path, branch, windows))
                } else {
                    StepView::Done(process::ran_well(rest[1], "jj"@, tie_what(branch)))
                },
            }
        },
    }
}

/// The canonical path that a reply gives.
pub open spec fn canonical(reply: ReplyView) -> Option<Seq<char>> {
    match reply {
        ReplyView::Resolved(p) => p,
        _ => None,
    }
}

/// The paths name the same place, by their canonical forms or as they stand.
pub open spec fn same_place(
    a: Seq<char>,
    full_a: Option<Seq<char>>,
    b: Seq<char>,
    full_b: Option<Seq<char>>,
    windows: bool,
) -> bool {
    ||| full_a is Some && full_b is Some && paths::components(full_a->0, windows) == paths::components(
        full_b->0,
        windows,
    )
    ||| paths::components(a, windows) == paths::components(b, windows)
}

/// The row at a path, or what to ask to find it.
pub enum TargetView {
    Ask(ActionView),
    Absent,
    /// The row, and what is left of the replies.
    At(WorktreeView, Seq<ReplyView>),
}

/// The first row at `path`, whose canonical form is `full`.
pub open spec fn row_at(
    rows: Seq<WorktreeView>,
    path: Seq<char>,
    full: Option<Seq<char>>,
    windows: bool,
    replies: Seq<ReplyView>,
) -> TargetView
    decreases rows.len(),
{
    if rows.len() == 0 {
        TargetView::Absent
    } else if replies.len() == 0 {
        TargetView::Ask(ActionView::Resolve(rows[0].path))
    } else if same_place(rows[0].path, canonical(replies[0]), path, full, windows) {
        TargetView::At(rows[0], replies.drop_first())
    } else {
        row_at(rows.drop_first(), path, full, windows, replies.drop_first())
    }
}

/// Forgets the workspace `name`.
pub open spec fn forget_command(root: Seq<char>, name: Seq<char>) -> ActionView {
    process::tell("jj"@, seq!["workspace"@, "forget"@, name], root)
}

/// Forgetting the workspace `w` at `path` and deleting its directory.
pub open spec fn dropping(
    root: Seq<char>,
    path: Seq<char>,
    w: WorktreeView,
    replies: Seq<ReplyView>,
) -> StepView<()> {
    if w.is_main {
        StepView::Done(Err("cannot forget the default jj workspace"@))
    } else if replies.len() == 0 {
        StepView::Do(forget_command(root, w.name))
    } else {
        match process::ran_well(replies[0], "jj"@, "jj workspace forget "@ + w.name) {
            Err(e) => StepView::Done(Err(e)),
            Ok(_) => if replies.len() == 1 {
                StepView::Do(ActionView::Look(path))
            } else if !process::found(replies[1]) {
                StepView::Done(Ok(()))
            } else if replies.len() == 2 {
                StepView::Do(ActionView::Delete(path))
            } else if replies[2] == ReplyView::Deleted(true) {
                StepView::Done(Ok(()))
            } else {
                StepView::Done(Err("removing "@ + path + " after forget"@))
            },
        }
    }
}

/// Removing a workspace, given the replies so far: list, find the workspace at
/// `path`, forget it and delete its directory.
pub open spec fn removing(
    root: Seq<char>,
    path: Seq<char>,
    windows: bool,
    replies: Seq<ReplyView>,
) -> StepView<()> {
    let (step, rest) = listing_from(root, replies);
    match step {
        StepView::Do(a) => StepView::Do(a),
        StepView::Done(Err(e)) => StepView::Done(Err(e)),
        StepView::Done(Ok(rows)) => if rest.len() == 0 {
            StepView::Do(ActionView::Resolve(path))
        } else {
            match row_at(rows, path, canonical(rest[0]), windows, rest.drop_first()) {
                TargetView::Ask(a) => StepView::Do(a),
                TargetView::Absent => StepView::Done(Err("no jj workspace at "@ + path)),
                TargetView::At(w, left) => dropping(root, path, w, left),
            }
        },
    }
}

/// What to do about one row when pruning.
pub enum PruneView {
    Keep,
    Forget,
    Ask(ActionView),
}

/// A row is forgotten where its directory is gone, and the main one never.
/// `looks` holds the reply to a look at its path, once there is one.
pub open spec fn prune_choice(w: WorktreeView, looks: Seq<ReplyView>) -> PruneView {
    if w.is_main {
        PruneView::Keep
    } else if w.is_stale {
        PruneView::Forget
    } else if w.path.len() == 0 {
        PruneView::Keep
    } else if looks.len() == 0 {
        PruneView::Ask(ActionView::Look(w.path))
    } else if process::found(looks[0]) {
        PruneView::Keep
    } else {
        PruneView::Forget
    }
}

/// How many replies the choice about a row takes: one for a look, or none.
pub open spec fn prune_looks(w: WorktreeView) -> nat {
    if w.is_main || w.is_stale || w.path.len() == 0 {
        0
    } else {
        1
    }
}

/// What pruning has to tell.
pub open spec fn prune_report(forgotten: Seq<Seq<char>>) -> Seq<char> {
    if forgotten.len() == 0 {
        seq![]
    } else {
        "forgot stale workspace(s): "@ + text::join(forgotten, ", "@)
    }
}

/// Pruning, once the rows are known. `forgotten` holds the names of the
/// workspaces forgotten so far.
pub open spec fn pruning_rows(
    root: Seq<char>,
    rows: Seq<WorktreeView>,
    replies: Seq<ReplyView>,
    forgotten: Seq<Seq<char>>,
) -> StepView<Seq<char>>
    decreases rows.len(),
{
    if rows.len() == 0 {
        StepView::Done(Ok(prune_report(forgotten)))
    } else {
        let rest = replies.skip(prune_looks(rows[0]) as int);
        match prune_choice(rows[0], replies) {
            PruneView::Ask(a) => StepView::Do(a),
            PruneView::Keep => pruning_rows(root, rows.drop_first(), rest, forgotten),
            PruneView::Forget => if rest.len() == 0 {
                StepView::Do(forget_command(root, rows[0].name))
            } else {
                match process::output(rest[0]) {
                    None => StepView::Done(Err(process::not_spawned("jj"@))),
                    Some(o) => pruning_rows(
                        root,
                        rows.drop_first(),
                        rest.drop_first(),
                        if o.success {
                            forgotten.push(rows[0].name)
                        } else {
                            forgotten
                        },
                    ),
                }
            },
        }
    }
}

/// Forgetting the workspaces whose directory is gone.
pub open spec fn pruning(root: Seq<char>, replies: Seq<ReplyView>) -> StepView<Seq<char>> {
    let (step, rest) = listing_from(root, replies);
    match step {
        StepView::Do(a) => StepView::Do(a),
        StepView::Done(Err(e)) => StepView::Done(Err(e)),
        StepView::Done(Ok(rows)) => pruning_rows(root, rows, rest, seq![]),
    }
}

/// The URL that a line of `jj git remote list` gives for `origin`.
pub open spec fn origin_in(line: Seq<char>) -> Option<Seq<char>> {
    let l = text::trim(line);
    if "origin "@.is_prefix_of(l) {
        Some(text::trim(l.skip("origin "@.len() as int)))
    } else if "origin: "@.is_prefix_of(l) {
        Some(text::trim(l.skip("origin: "@.len() as int)))
    } else {
        None
    }
}

/// The URL of `origin` on the first line that gives one.
pub open spec fn origin_among(lines: Seq<Seq<char>>) -> Option<Seq<char>>
    decreases lines.len(),
{
    if lines.len() == 0 {
        None
    } else if origin_in(lines[0]) is Some {
        origin_in(lines[0])
    } else {
        origin_among(lines.drop_first())
    }
}

/// Finding the URL of the remote `origin`.
pub open spec fn origin(root: Seq<char>, replies: Seq<ReplyView>) -> StepView<Option<Seq<char>>> {
    if replies.len() == 0 {
        StepView::Do(jj(seq!["git"@, "remote"@, "list"@], root))
    } else if process::succeeded(replies[0]) {
        StepView::Done(Ok(origin_among(text::lines(process::output(replies[0])->0.stdout))))
    } else {
        StepView::Done(Ok(None))
    }
}

/// Finding the bookmarks at `@`.
pub open spec fn current(root: Seq<char>, replies: Seq<ReplyView>) -> StepView<Option<Seq<char>>> {
    process::asking_line(
        "jj"@,
        seq![
            "log"@,
            "-r"@,
            "@"@,
            "--no-graph"@,
            "-T"@,
            "self.bookmarks().map(|b| b.name()).join(\",\")"@,
        ],
        root,
        replies,
    )
}

/// Finding the bookmarks.
pub open spec fn refs(root: Seq<char>, replies: Seq<ReplyView>) -> StepView<Seq<Seq<char>>> {
    if replies.len() == 0 {
        StepView::Do(jj(seq!["bookmark"@, "list"@, "-T"@, "self.name() ++ \"\\n\""@], root))
    } else {
        match process::printed(replies[0], "jj"@, "jj bookmark list"@) {
            Err(e) => StepView::Done(Err(e)),
            Ok(out) => StepView::Done(Ok(process::filled_lines(out))),
        }
    }
}

/// Finding out whether there is a bookmark `name`.
pub open spec fn exists_branch(
    root: Seq<char>,
    name: Seq<char>,
    replies: Seq<ReplyView>,
) -> StepView<bool> {
    if replies.len() == 0 {
        StepView::Do(jj(seq!["bookmark"@, "list"@, name], root))
    } else {
        StepView::Done(
            Ok(
                process::succeeded(replies[0]) && process::output(replies[0])->0.stdout.len() > 0,
            ),
        )
    }
}

/// Fetching.
pub open spec fn fetching(root: Seq<char>, replies: Seq<ReplyView>) -> StepView<Seq<char>> {
    if replies.len() == 0 {
        StepView::Do(jj(seq!["git"@, "fetch"@], root))
    } else {
        StepView::Done(process::fetched(replies[0], "jj"@, "jj git fetch"@))
    }
}

/// Fetching from one remote.
pub open spec fn fetching_remote(
    root: Seq<char>,
    remote: Seq<char>,
    replies: Seq<ReplyView>,
) -> StepView<Seq<char>> {
    if replies.len() == 0 {
        StepView::Do(jj(seq!["git"@, "fetch"@, "--remote"@, remote], root))
    } else {
        StepView::Done(process::fetched(replies[0], "jj"@, "jj git fetch --remote "@ + remote))
    }
}

/// The revision names a bookmark of this remote: `@` and the remote stand at
/// its end, or right before a range operator.
pub open spec fn names_remote(rev: Seq<char>, remote: Seq<char>) -> bool {
    ||| ("@"@ + remote).is_suffix_of(rev)
    ||| text::contains(rev, "@"@ + remote + ".."@)
}

/// The first of the remotes that the revision names.
pub open spec fn first_named(rev: Seq<char>, remotes: Seq<Seq<char>>) -> Option<Seq<char>>
    decreases remotes.len(),
{
    if remotes.len() == 0 {
        None
    } else if names_remote(rev, remotes[0]) {
        Some(remotes[0])
    } else {
        first_named(rev, remotes.drop_first())
    }
}

/// The first word of each line that is not blank.
pub open spec fn first_words(lines: Seq<Seq<char>>) -> Seq<Seq<char>>
    decreases lines.len(),
{
    if lines.len() == 0 {
        seq![]
    } else {
        let w = text::first_word(lines.last());
        first_words(lines.drop_last()) + if w.len() > 0 {
            seq![w]
        } else {
            seq![]
        }
    }
}

/// Finding the remote that a revision names.
pub open spec fn remote_of(
    root: Seq<char>,
    rev: Seq<char>,
    replies: Seq<ReplyView>,
) -> StepView<Option<Seq<char>>> {
    if replies.len() == 0 {
        StepView::Do(jj(seq!["git"@, "remote"@, "list"@], root))
    } else if process::succeeded(replies[0]) {
        StepView::Done(
            Ok(
                first_named(rev, first_words(text::lines(process::output(replies[0])->0.stdout))),
            ),
        )
    } else {
        StepView::Done(Ok(None))
    }
}

/// A repository that `jj` works on.
pub struct JjBackend {
    pub root: String,
    /// Paths are those of Windows.
    pub windows: bool,
}

impl JjBackend {
    /// The repository at `root`.
    pub fn new(root: &str, windows: bool) -> (r: JjBackend)
        ensures
            r.root@ == root@,
            r.windows == windows,
    {
        JjBackend { root: root.to_string(), windows }
    }

    /// `jj` with `args` at the root of the repository, its output collected.
    pub(crate) fn jj(&self, args: &[&str]) -> (r: Action)
        ensures
            r.deep_view() == jj(args.deep_view(), self.root@),
    {
        process::asking("jj", args, self.root.as_str())
    }

    /// Asks for the directory of the workspace `name`.
    fn ask_root(&self, name: &str) -> (r: Action)
        ensures
            r.deep_view() == root_command(self.root@, name@),
    {
        let args = ["workspace", "root", "--name", name];
        proof {
            assert(args.deep_view() =~= seq!["workspace"@, "root"@, "--name"@, name@]);
        }
        self.jj(&args)
    }

    /// Asks for the state of the workspace `name`.
    fn ask_status(&self, name: &str) -> (r: Action)
        ensures
            r.deep_view() == status_command(self.root@, name@),
    {
        let mut rev = name.to_string();
        rev.append("@");
        let args = ["log", "-r", rev.as_str(), "--no-graph", "-T", STATUS_TEMPLATE];
        proof {
            assert(args.deep_view() =~= seq![
                "log"@,
                "-r"@,
                name@ + "@"@,
                "--no-graph"@,
                "-T"@,
                STATUS_TEMPLATE@,
            ]);
        }
        self.jj(&args)
    }

    /// Asks for the short change id of a revision.
    fn ask_rev(&self, revset: &str) -> (r: Action)
        ensures
            r.deep_view() == rev_command(self.root@, revset@),
    {
        let args = [
            "log",
            "-r",
            revset,
            "--no-graph",
            "-T",
            "self.change_id().short()",
            "--limit",
            "1",
        ];
        proof {
            assert(args.deep_view() =~= seq![
                "log"@,
                "-r"@,
                revset@,
                "--no-graph"@,
                "-T"@,
                "self.change_id().short()"@,
                "--limit"@,
                "1"@,
            ]);
        }
        self.jj(&args)
    }

    /// Looks up the directory of a workspace. `None`: it is gone.
    pub fn workspace_root(&self, name: &str, replies: &[Reply]) -> (r: Step<Option<String>>)
        ensures
            r.deep_view() == if replies@.len() == 0 {
                StepView::Do(root_command(self.root@, name@))
            } else {
                StepView::Done(read_root(replies@[0].deep_view()))
            },
    {
        if replies.len() == 0 {
            Step::Do(self.ask_root(name))
        } else {
            Step::Done(root_in(&replies[0]))
        }
    }

    /// Resolves a revset to a short change id.
    pub fn resolve_rev(&self, revset: &str, replies: &[Reply]) -> (r: Step<Option<String>>)
        ensures
            r.deep_view() == if replies@.len() == 0 {
                StepView::Do(rev_command(self.root@, revset@))
            } else {
                StepView::Done(Ok(process::answer(replies@[0].deep_view())))
            },
    {
        if replies.len() == 0 {
            Step::Do(self.ask_rev(revset))
        } else {
            Step::Done(Ok(process::answer_of(&replies[0])))
        }
    }

    /// Finds out whether a revision changes nothing.
    pub fn is_empty(&self, rev: &str, replies: &[Reply]) -> (r: Step<bool>)
        ensures
            r.deep_view() == if replies@.len() == 0 {
                StepView::Do(empty_command(self.root@, rev@))
            } else {
                StepView::Done(Ok(read_empty(replies@[0].deep_view())))
            },
    {
        if replies.len() == 0 {
            let args = [
                "log",
                "-r",
                rev,
                "--no-graph",
                "-T",
                "if(self.empty(), \"1\", \"0\")",
                "--limit",
                "1",
            ];
            proof {
                assert(args.deep_view() =~= seq![
                    "log"@,
                    "-r"@,
                    rev@,
                    "--no-graph"@,
                    "-T"@,
                    "if(self.empty(), \"1\", \"0\")"@,
                    "--limit"@,
                    "1"@,
                ]);
            }
            return Step::Do(self.jj(&args));
        }
        match process::output_of(&replies[0]) {
            Some(o) => Step::Done(
                Ok(o.success && strings::same(strings::trim(o.stdout.as_str()), "1")),
            ),
            None => Step::Done(Ok(false)),
        }
    }

    /// Picks where a new bookmark starts.
    pub fn default_new_branch_base(&self, user_input: &str, replies: &[Reply]) -> (r: Step<String>)
        ensures
            r.deep_view() == match new_base(self.root@, user_input@, replies.deep_view()) {
                BaseView::Ask(a) => StepView::Do(a),
                BaseView::At(rev, _) => StepView::Done(Ok(rev)),
            },
    {
        if !strings::same(user_input, "@") {
            return Step::Done(Ok(user_input.to_string()));
        }
        match self.is_empty("@", replies) {
            Step::Do(a) => Step::Do(a),
            Step::Done(Ok(true)) => {
                if replies.len() == 1 {
                    return Step::Do(self.ask_rev("trunk()"));
                }
                match process::answer_of(&replies[1]) {
                    Some(rev) => Step::Done(Ok(rev)),
                    None => Step::Done(Ok("@".to_string())),
                }
            },
            _ => Step::Done(Ok("@".to_string())),
        }
    }

    /// Looks up the state of a workspace.
    pub fn workspace_status(&self, name: &str, replies: &[Reply]) -> (r: Step<Option<JjStatus>>)
        ensures
            r.deep_view() == if replies@.len() == 0 {
                StepView::Do(status_command(self.root@, name@))
            } else {
                StepView::Done(Ok(read_status(replies@[0].deep_view())))
            },
    {
        if replies.len() == 0 {
            Step::Do(self.ask_status(name))
        } else {
            Step::Done(Ok(status_in(&replies[0])))
        }
    }
}

impl JjBackend {
    /// The workspaces, and how many replies that took.
    fn gather(&self, replies: &[Reply]) -> (r: (Step<Vec<Worktree>>, usize))
        ensures
            r.0.deep_view() == listing(self.root@, replies.deep_view()),
            r.1 <= replies@.len(),
            replies.deep_view().skip(r.1 as int) == listing_from(
                self.root@,
                replies.deep_view(),
            ).1,
    {
        let ghost rs = replies.deep_view();
        if replies.len() == 0 {
            let args = ["workspace", "list"];
            proof {
                assert(args.deep_view() =~= seq!["workspace"@, "list"@]);
                assert(rs.skip(0) =~= rs);
            }
            return (Step::Do(self.jj(&args)), 0);
        }
        let out = match process::printed_by(&replies[0], "jj", "jj workspace list") {
            Err(e) => {
                proof {
                    assert(rs.skip(0) =~= rs);
                }
                return (Step::Done(Err(e)), 0);
            },
            Ok(out) => out,
        };
        let names = names_in(out.as_str());
        let ghost all = names.deep_view();
        let mut done: Vec<Worktree> = Vec::new();
        let mut i: usize = 0;
        let mut k: usize = 1;
        proof {
            assert(all.skip(0) =~= all);
            assert(rs.skip(1) =~= rs.drop_first());
            assert(done.deep_view() =~= seq![]);
        }
        while i < names.len()
            invariant
                i <= names@.len(),
                k <= replies@.len(),
                all == names.deep_view(),
                rs == replies.deep_view(),
                listing_from(self.root@, rs) == filling(
                    self.root@,
                    all.skip(i as int),
                    rs.skip(k as int),
                    done.deep_view(),
                ),
            decreases names@.len() - i,
        {
            let name = names[i].as_str();
            let ghost before = done.deep_view();
            proof {
                assert(all.skip(i as int)[0] == name@);
                assert(all.skip(i as int).drop_first() =~= all.skip(i + 1));
            }
            if k == replies.len() {
                return (Step::Do(self.ask_root(name)), k);
            }
            proof {
                assert(rs.skip(k as int)[0] == replies@[k as int].deep_view());
                assert(rs.skip(k as int).drop_first() =~= rs.skip(k + 1));
            }
            match root_in(&replies[k]) {
                Err(e) => return (Step::Done(Err(e)), k),
                Ok(None) => {
                    let w = make_row(name, None, None);
                    done.push(w);
                    proof {
                        assert(done.deep_view() =~= before.push(w.deep_view()));
                    }
                    k = k + 1;
                },
                Ok(Some(path)) => {
                    if k + 1 == replies.len() {
                        return (Step::Do(self.ask_status(name)), k);
                    }
                    let w = make_row(name, Some(path), status_in(&replies[k + 1]));
                    done.push(w);
                    proof {
                        assert(rs.skip(k as int)[1] == replies@[k + 1].deep_view());
                        assert(rs.skip(k as int).skip(2) =~= rs.skip(k + 2));
                        assert(done.deep_view() =~= before.push(w.deep_view()));
                    }
                    k = k + 2;
                },
            }
            i = i + 1;
        }
        proof {
            assert(all.skip(i as int) =~= seq![]);
        }
        (Step::Done(Ok(done)), k)
    }

    /// Forgets the workspace `name`.
    fn forget(&self, name: &str) -> (r: Action)
        ensures
            r.deep_view() == forget_command(self.root@, name@),
    {
        let args = ["workspace", "forget", name];
        proof {
            assert(args.deep_view() =~= seq!["workspace"@, "forget"@, name@]);
        }
        process::telling("jj", &args, self.root.as_str())
    }

    /// Makes the workspace of a branch at `path`.
    fn add_workspace(&self, base: &str, path: &str, branch: AddBranch) -> (r: Action)
        ensures
            r.deep_view() == add_command(
                self.root@,
                base@,
                path@,
                branch_name(branch.deep_view()),
            ),
    {
        let name: &str = match branch {
            AddBranch::NewBranch { name, base } => name,
            AddBranch::ExistingBranch(name) => name,
        };
        let args = ["workspace", "add", "-r", base, path, "--name", name];
        proof {
            assert(args.deep_view() =~= seq![
                "workspace"@,
                "add"@,
                "-r"@,
                base@,
                path@,
                "--name"@,
                name@,
            ]);
        }
        process::telling("jj", &args, self.root.as_str())
    }

    /// Ties the bookmark to the workspace at `path`.
    fn tie(&self, path: &str, branch: AddBranch) -> (r: Action)
        ensures
            r.deep_view() == tie_command(self.root@, path@, branch.deep_view(), self.windows),
    {
        let dir = paths::joined(self.root.as_str(), path, self.windows);
        match branch {
            AddBranch::NewBranch { name, base } => {
                let args = ["bookmark", "create", name];
                proof {
                    assert(args.deep_view() =~= tie_args(branch.deep_view()));
                }
                process::telling("jj", &args, dir.as_str())
            },
            AddBranch::ExistingBranch(name) => {
                let args = ["edit", name];
                proof {
                    assert(args.deep_view() =~= tie_args(branch.deep_view()));
                }
                process::telling("jj", &args, dir.as_str())
            },
        }
    }

    /// Where the workspace of a branch starts, and how many replies that took;
    /// or what to ask.
    fn base(&self, branch: AddBranch, replies: &[Reply]) -> (r: Result<(String, usize), Action>)
        ensures
            match (r, base_of(self.root@, branch.deep_view(), replies.deep_view())) {
                (Err(a), BaseView::Ask(b)) => a.deep_view() == b,
                (Ok((base, used)), BaseView::At(rev, rest)) => base@ == rev && used
                    <= replies@.len() && replies.deep_view().skip(used as int) == rest,
                _ => false,
            },
    {
        let ghost rs = replies.deep_view();
        proof {
            assert(rs.skip(0) =~= rs);
            if rs.len() > 0 {
                assert(rs.skip(1) =~= rs.drop_first());
            }
        }
        let input: &str = match branch {
            AddBranch::NewBranch { name, base } => match base {
                Some(b) => b,
                None => "@",
            },
            AddBranch::ExistingBranch(name) => return Ok((name.to_string(), 0)),
        };
        let used: usize = if !strings::same(input, "@") {
            0
        } else if replies.len() == 0 {
            0
        } else {
            match self.is_empty("@", replies) {
                Step::Done(Ok(true)) => if replies.len() > 1 {
                    2
                } else {
                    1
                },
                _ => 1,
            }
        };
        match self.default_new_branch_base(input, replies) {
            Step::Do(a) => Err(a),
            Step::Done(Ok(rev)) => Ok((rev, used)),
            Step::Done(Err(_)) => Ok(("@".to_string(), used)),
        }
    }
}

/// If `rev` names a bookmark of one of `remotes`, that remote. jj writes it
/// `<bookmark>@<remote>`, at the end of the revision or right before `..`, so
/// that neither `@` and `@-` nor a longer remote's name is taken for it.
pub fn referenced_remote<'a>(rev: &str, remotes: &[&'a str]) -> (r: Option<&'a str>)
    ensures
        r.deep_view() == first_named(rev@, remotes.deep_view()),
{
    let ghost all = remotes.deep_view();
    let mut i: usize = 0;
    proof {
        assert(all.skip(0) =~= all);
    }
    while i < remotes.len()
        invariant
            i <= remotes@.len(),
            all == remotes.deep_view(),
            first_named(rev@, all) == first_named(rev@, all.skip(i as int)),
        decreases remotes@.len() - i,
    {
        let remote: &'a str = remotes[i];
        proof {
            assert(all.skip(i as int)[0] == remote@);
            assert(all.skip(i as int).drop_first() =~= all.skip(i + 1));
        }
        let mut suffix = "@".to_string();
        suffix.append(remote);
        if strings::ends_with(rev, suffix.as_str()) {
            return Some(remote);
        }
        suffix.append("..");
        if strings::contains(rev, suffix.as_str()) {
            return Some(remote);
        }
        i = i + 1;
    }
    None
}

/// What failed where the bookmark could not be tied.
fn tie_name(branch: AddBranch) -> (r: String)
    ensures
        r@ == tie_what(branch.deep_view()),
{
    match branch {
        AddBranch::NewBranch { .. } => "jj bookmark create".to_string(),
        AddBranch::ExistingBranch(name) => {
            let mut what = "jj edit ".to_string();
            what.append(name);
            what
        },
    }
}

/// The first word of each line that is not blank.
fn remote_names(listing: &str) -> (r: Vec<String>)
    ensures
        r.deep_view() == first_words(text::lines(listing@)),
{
    let lines = strings::lines(listing);
    let ghost all = lines.deep_view();
    let mut out: Vec<String> = Vec::new();
    let mut i: usize = 0;
    proof {
        assert(out.deep_view() =~= first_words(all.take(0)));
    }
    while i < lines.len()
        invariant
            i <= lines.len(),
            all == lines.deep_view(),
            out.deep_view() == first_words(all.take(i as int)),
        decreases lines.len() - i,
    {
        let w = strings::first_word(lines[i].as_str()).to_string();
        let ghost before = out.deep_view();
        proof {
            assert(all.take(i + 1).drop_last() =~= all.take(i as int));
            assert(all.take(i + 1).last() == lines@[i as int]@);
            assert(before + seq![] =~= before);
        }
        if w.as_str().unicode_len() > 0 {
            out.push(w);
            proof {
                assert(out.deep_view() =~= before + seq![w@]);
            }
        }
        i = i + 1;
    }
    proof {
        assert(all.take(i as int) =~= all);
    }
    out
}

/// The URL of `origin` on the first line that gives one.
fn find_origin(listing: &str) -> (r: Option<String>)
    ensures
        r.deep_view() == origin_among(text::lines(listing@)),
{
    let lines = strings::lines(listing);
    let ghost all = lines.deep_view();
    let mut i: usize = 0;
    proof {
        assert(all.skip(0) =~= all);
    }
    while i < lines.len()
        invariant
            i <= lines.len(),
            all == lines.deep_view(),
            all == text::lines(listing@),
            origin_among(all) == origin_among(all.skip(i as int)),
        decreases lines.len() - i,
    {
        let line = strings::trim(lines[i].as_str());
        proof {
            assert(all.skip(i as int)[0] == lines@[i as int]@);
            assert(all.skip(i as int).drop_first() =~= all.skip(i + 1));
        }
        if let Some(rest) = strings::strip_prefix(line, "origin ") {
            return Some(strings::trim(rest).to_string());
        }
        if let Some(rest) = strings::strip_prefix(line, "origin: ") {
            return Some(strings::trim(rest).to_string());
        }
        i = i + 1;
    }
    None
}

/// The canonical path that a reply gives.
fn canonical_in(reply: &Reply) -> (r: Option<String>)
    ensures
        r.deep_view() == canonical(reply.deep_view()),
{
    match reply {
        Reply::Resolved(Some(p)) => Some(p.clone()),
        _ => None,
    }
}

/// Whether the paths name the same place.
fn at_same_place(
    a: &str,
    full_a: &Option<String>,
    b: &str,
    full_b: &Option<String>,
    windows: bool,
) -> (r: bool)
    ensures
        r == same_place(a@, full_a.deep_view(), b@, full_b.deep_view(), windows),
{
    let by_full = match (full_a, full_b) {
        (Some(x), Some(y)) => paths::same(x.as_str(), y.as_str(), windows),
        _ => false,
    };
    by_full || paths::same(a, b, windows)
}

impl JjBackend {
    /// Forgets the workspace `w` at `path` and deletes its directory; the
    /// replies to that begin at `k`.
    fn drop_row(&self, path: &str, w: &Worktree, replies: &[Reply], k: usize) -> (r: Step<()>)
        requires
            k <= replies@.len(),
        ensures
            r.deep_view() == dropping(
                self.root@,
                path@,
                w.deep_view(),
                replies.deep_view().skip(k as int),
            ),
    {
        let ghost rs = replies.deep_view().skip(k as int);
        let n: usize = replies.len() - k;
        if w.is_main {
            return Step::Done(Err("cannot forget the default jj workspace".to_string()));
        }
        if n == 0 {
            return Step::Do(self.forget(w.name.as_str()));
        }
        let mut what = "jj workspace forget ".to_string();
        what.append(w.name.as_str());
        proof {
            assert(rs[0] == replies@[k as int].deep_view());
        }
        if let Err(e) = process::check_ran(&replies[k], "jj", what.as_str()) {
            return Step::Done(Err(e));
        }
        if n == 1 {
            return Step::Do(Action::Look(path.to_string()));
        }
        proof {
            assert(rs[1] == replies@[k + 1].deep_view());
        }
        if !process::found_in(&replies[k + 1]) {
            return Step::Done(Ok(()));
        }
        if n == 2 {
            return Step::Do(Action::Delete(path.to_string()));
        }
        proof {
            assert(rs[2] == replies@[k + 2].deep_view());
        }
        match &replies[k + 2] {
            Reply::Deleted(true) => Step::Done(Ok(())),
            _ => {
                let mut e = "removing ".to_string();
                e.append(path);
                e.append(" after forget");
                Step::Done(Err(e))
            },
        }
    }
}

/// The directory of a workspace that a reply gives.
fn root_in(reply: &Reply) -> (r: Result<Option<String>, String>)
    ensures
        process::result_view(r) == read_root(reply.deep_view()),
{
    match process::output_of(reply) {
        None => Err(process::spawn_error("jj")),
        Some(_) => Ok(process::answer_of(reply)),
    }
}

/// The field `i`, trimmed; empty where there are fewer.
fn field_at(fields: &Vec<String>, i: usize) -> (r: String)
    ensures
        r@ == field(fields.deep_view(), i as int),
{
    if i < fields.len() {
        strings::trim(fields[i].as_str()).to_string()
    } else {
        let r = String::new();
        proof {
            assert(r@ =~= seq![]);
        }
        r
    }
}

/// The text, unless it is empty.
fn unless_empty(s: String) -> (r: Option<String>)
    ensures
        r.deep_view() == non_empty(s@),
{
    if s.as_str().unicode_len() > 0 {
        Some(s)
    } else {
        None
    }
}

/// The state of a workspace that a reply gives.
fn status_in(reply: &Reply) -> (r: Option<JjStatus>)
    ensures
        r.deep_view() == read_status(reply.deep_view()),
{
    let out = match process::output_of(reply) {
        None => return None,
        Some(o) => o,
    };
    if !out.success {
        return None;
    }
    let fields = strings::split_n(out.stdout.as_str(), '\x1f', 5);
    let id = field_at(&fields, 0);
    if id.as_str().unicode_len() == 0 {
        return None;
    }
    let dirty = strings::same(field_at(&fields, 2).as_str(), "1");
    let conflict = strings::same(field_at(&fields, 3).as_str(), "1");
    Some(
        JjStatus {
            id,
            bookmarks: unless_empty(field_at(&fields, 1)),
            dirty,
            conflict,
            desc: unless_empty(field_at(&fields, 4)),
        },
    )
}

/// The workspaces that a listing names.
fn names_in(listing: &str) -> (r: Vec<String>)
    ensures
        r.deep_view() == workspace_names(text::lines(listing@)),
{
    let lines = strings::lines(listing);
    let ghost all = lines.deep_view();
    let mut out: Vec<String> = Vec::new();
    let mut i: usize = 0;
    proof {
        assert(out.deep_view() =~= workspace_names(all.take(0)));
    }
    while i < lines.len()
        invariant
            i <= lines.len(),
            all == lines.deep_view(),
            out.deep_view() == workspace_names(all.take(i as int)),
        decreases lines.len() - i,
    {
        let line = strings::trim(lines[i].as_str());
        let v = strings::chars(line);
        let n: usize = strings::position(&v, 0, ':');
        let ghost before = out.deep_view();
        proof {
            assert(all.take(i + 1).drop_last() =~= all.take(i as int));
            assert(all.take(i + 1).last() == lines@[i as int]@);
            assert(line@.skip(0) =~= line@);
        }
        if n < v.len() {
            proof {
                assert(line@.subrange(0, n as int) =~= line@.take(n as int));
            }
            let name = strings::trim(line.substring_char(0, n)).to_string();
            out.push(name);
            proof {
                assert(out.deep_view() =~= before + seq![name@]);
            }
        } else {
            proof {
                assert(before + seq![] =~= before);
            }
        }
        i = i + 1;
    }
    proof {
        assert(all.take(i as int) =~= all);
    }
    out
}

/// The row of a workspace.
fn make_row(name: &str, path: Option<String>, status: Option<JjStatus>) -> (r: Worktree)
    ensures
        r.deep_view() == row(name@, path.deep_view(), status.deep_view()),
{
    let is_stale = path.is_none();
    let path = match path {
        Some(p) => p,
        None => String::new(),
    };
    proof {
        if is_stale {
            assert(path@ =~= seq![]);
        }
    }
    let (branch, head, desc, dirty, conflict) = match status {
        Some(s) => (s.bookmarks, Some(s.id), s.desc, s.dirty, s.conflict),
        None => (None, None, None, false, false),
    };
    Worktree {
        name: name.to_string(),
        path,
        branch,
        head,
        commit: None,
        desc,
        dirty,
        conflict,
        is_main: strings::same(name, "default"),
        is_bare: false,
        is_stale,
        is_locked: false,
        vcs: Kind::Jj,
    }
}

impl Backend for JjBackend {
    open spec fn kind(&self) -> Kind {
        Kind::Jj
    }

    open spec fn at(&self) -> Seq<char> {
        self.root@
    }

    open spec fn windows(&self) -> bool {
        self.windows
    }

    fn name(&self) -> (r: &str) {
        "jj"
    }

    fn list(&self, replies: &[Reply]) -> (r: Step<Vec<Worktree>>) {
        self.gather(replies).0
    }

    fn add(&self, path: &str, branch: AddBranch, replies: &[Reply]) -> (r: Step<()>) {
        let ghost rs = replies.deep_view();
        let (base, k) = match self.base(branch, replies) {
            Err(a) => return Step::Do(a),
            Ok(found) => found,
        };
        if k == replies.len() {
            return Step::Do(self.add_workspace(base.as_str(), path, branch));
        }
        proof {
            assert(rs.skip(k as int)[0] == replies@[k as int].deep_view());
        }
        if let Err(e) = process::check_ran(&replies[k], "jj", "jj workspace add") {
            return Step::Done(Err(e));
        }
        if k + 1 == replies.len() {
            return Step::Do(self.tie(path, branch));
        }
        proof {
            assert(rs.skip(k as int)[1] == replies@[k + 1].deep_view());
        }
        let what = tie_name(branch);
        Step::Done(process::check_ran(&replies[k + 1], "jj", what.as_str()))
    }

    fn remove(&self, path: &str, force: bool, replies: &[Reply]) -> (r: Step<()>) {
        let ghost rs = replies.deep_view();
        let (step, k) = self.gather(replies);
        let rows = match step {
            Step::Do(a) => return Step::Do(a),
            Step::Done(Err(e)) => return Step::Done(Err(e)),
            Step::Done(Ok(rows)) => rows,
        };
        if k == replies.len() {
            return Step::Do(Action::Resolve(path.to_string()));
        }
        let full = canonical_in(&replies[k]);
        let ghost all = rows.deep_view();
        let ghost goal = row_at(all, path@, full.deep_view(), self.windows, rs.skip(k + 1));
        let mut i: usize = 0;
        proof {
            assert(rs.skip(k as int)[0] == replies@[k as int].deep_view());
            assert(rs.skip(k as int).drop_first() =~= rs.skip(k + 1));
            assert(all.skip(0) =~= all);
        }
        while i < rows.len()
            invariant
                i <= rows@.len(),
                k + 1 + i <= replies@.len(),
                all == rows.deep_view(),
                rs == replies.deep_view(),
                removing(self.root@, path@, self.windows, rs) == match goal {
                    TargetView::Ask(a) => StepView::Do(a),
                    TargetView::Absent => StepView::Done(Err("no jj workspace at "@ + path@)),
                    TargetView::At(w, left) => dropping(self.root@, path@, w, left),
                },
                goal == row_at(
                    all.skip(i as int),
                    path@,
                    full.deep_view(),
                    self.windows,
                    rs.skip(k + 1 + i),
                ),
            decreases rows@.len() - i,
        {
            let n: usize = k + 1 + i;
            proof {
                assert(all.skip(i as int)[0] == rows@[i as int].deep_view());
                assert(all.skip(i as int).drop_first() =~= all.skip(i + 1));
            }
            if n == replies.len() {
                return Step::Do(Action::Resolve(rows[i].path.clone()));
            }
            proof {
                assert(rs.skip(n as int)[0] == replies@[n as int].deep_view());
                assert(rs.skip(n as int).drop_first() =~= rs.skip(n + 1));
            }
            let here = canonical_in(&replies[n]);
            if at_same_place(rows[i].path.as_str(), &here, path, &full, self.windows) {
                return self.drop_row(path, &rows[i], replies, n + 1);
            }
            i = i + 1;
        }
        proof {
            assert(all.skip(i as int) =~= seq![]);
        }
        let mut e = "no jj workspace at ".to_string();
        e.append(path);
        Step::Done(Err(e))
    }

    fn origin_url(&self, replies: &[Reply]) -> (r: Step<Option<String>>) {
        if replies.len() == 0 {
            let args = ["git", "remote", "list"];
            proof {
                assert(args.deep_view() =~= seq!["git"@, "remote"@, "list"@]);
            }
            return Step::Do(self.jj(&args));
        }
        match process::output_of(&replies[0]) {
            Some(o) => {
                if o.success {
                    Step::Done(Ok(find_origin(o.stdout.as_str())))
                } else {
                    Step::Done(Ok(None))
                }
            },
            None => Step::Done(Ok(None)),
        }
    }

    fn current_branch(&self, replies: &[Reply]) -> (r: Step<Option<String>>) {
        let args = [
            "log",
            "-r",
            "@",
            "--no-graph",
            "-T",
            "self.bookmarks().map(|b| b.name()).join(\",\")",
        ];
        proof {
            assert(args.deep_view() =~= seq![
                "log"@,
                "-r"@,
                "@"@,
                "--no-graph"@,
                "-T"@,
                "self.bookmarks().map(|b| b.name()).join(\",\")"@,
            ]);
        }
        process::ask_line("jj", &args, self.root.as_str(), replies)
    }

    fn list_refs(&self, replies: &[Reply]) -> (r: Step<Vec<String>>) {
        if replies.len() == 0 {
            let args = ["bookmark", "list", "-T", "self.name() ++ \"\\n\""];
            proof {
                assert(args.deep_view() =~= seq![
                    "bookmark"@,
                    "list"@,
                    "-T"@,
                    "self.name() ++ \"\\n\""@,
                ]);
            }
            return Step::Do(self.jj(&args));
        }
        match process::printed_by(&replies[0], "jj", "jj bookmark list") {
            Err(e) => Step::Done(Err(e)),
            Ok(out) => Step::Done(Ok(process::lines_of(out.as_str()))),
        }
    }

    fn branch_exists(&self, name: &str, replies: &[Reply]) -> (r: Step<bool>) {
        if replies.len() == 0 {
            let args = ["bookmark", "list", name];
            proof {
                assert(args.deep_view() =~= seq!["bookmark"@, "list"@, name@]);
            }
            return Step::Do(self.jj(&args));
        }
        match process::output_of(&replies[0]) {
            Some(o) => Step::Done(Ok(o.success && o.stdout.as_str().unicode_len() > 0)),
            None => Step::Done(Ok(false)),
        }
    }

    fn prune(&self, replies: &[Reply]) -> (r: Step<String>) {
        let ghost rs = replies.deep_view();
        let (step, used) = self.gather(replies);
        let rows = match step {
            Step::Do(a) => return Step::Do(a),
            Step::Done(Err(e)) => return Step::Done(Err(e)),
            Step::Done(Ok(rows)) => rows,
        };
        let ghost all = rows.deep_view();
        let mut forgotten: Vec<String> = Vec::new();
        let mut i: usize = 0;
        let mut k: usize = used;
        proof {
            assert(all.skip(0) =~= all);
            assert(forgotten.deep_view() =~= seq![]);
        }
        while i < rows.len()
            invariant
                i <= rows@.len(),
                k <= replies@.len(),
                all == rows.deep_view(),
                rs == replies.deep_view(),
                pruning(self.root@, rs) == pruning_rows(
                    self.root@,
                    all.skip(i as int),
                    rs.skip(k as int),
                    forgotten.deep_view(),
                ),
            decreases rows@.len() - i,
        {
            let w = &rows[i];
            proof {
                assert(all.skip(i as int)[0] == w.deep_view());
                assert(all.skip(i as int).drop_first() =~= all.skip(i + 1));
                assert(rs.skip(k as int).skip(0) =~= rs.skip(k as int));
            }
            let mut forget = !w.is_main && w.is_stale;
            if !w.is_main && !w.is_stale && w.path.as_str().unicode_len() > 0 {
                if k == replies.len() {
                    return Step::Do(Action::Look(w.path.clone()));
                }
                proof {
                    assert(rs.skip(k as int)[0] == replies@[k as int].deep_view());
                    assert(rs.skip(k as int).skip(1) =~= rs.skip(k + 1));
                }
                forget = !process::found_in(&replies[k]);
                k = k + 1;
            }
            if forget {
                if k == replies.len() {
                    return Step::Do(self.forget(w.name.as_str()));
                }
                proof {
                    assert(rs.skip(k as int)[0] == replies@[k as int].deep_view());
                    assert(rs.skip(k as int).drop_first() =~= rs.skip(k + 1));
                }
                match process::output_of(&replies[k]) {
                    None => return Step::Done(Err(process::spawn_error("jj"))),
                    Some(o) => {
                        if o.success {
                            let ghost before = forgotten.deep_view();
                            forgotten.push(w.name.clone());
                            proof {
                                assert(forgotten.deep_view() =~= before.push(w.name@));
                            }
                        }
                    },
                }
                k = k + 1;
            }
            i = i + 1;
        }
        proof {
            assert(all.skip(i as int) =~= seq![]);
        }
        if forgotten.len() == 0 {
            let r = String::new();
            proof {
                assert(r@ =~= seq![]);
            }
            return Step::Done(Ok(r));
        }
        let mut r = "forgot stale workspace(s): ".to_string();
        r.append(strings::join(&forgotten, ", ").as_str());
        Step::Done(Ok(r))
    }

    fn fetch(&self, replies: &[Reply]) -> (r: Step<String>) {
        if replies.len() == 0 {
            let args = ["git", "fetch"];
            proof {
                assert(args.deep_view() =~= seq!["git"@, "fetch"@]);
            }
            return Step::Do(self.jj(&args));
        }
        Step::Done(process::fetched_by(&replies[0], "jj", "jj git fetch"))
    }

    fn fetch_remote(&self, remote: &str, replies: &[Reply]) -> (r: Step<String>) {
        if replies.len() == 0 {
            let args = ["git", "fetch", "--remote", remote];
            proof {
                assert(args.deep_view() =~= seq!["git"@, "fetch"@, "--remote"@, remote@]);
            }
            return Step::Do(self.jj(&args));
        }
        let mut what = "jj git fetch --remote ".to_string();
        what.append(remote);
        Step::Done(process::fetched_by(&replies[0], "jj", what.as_str()))
    }

    fn referenced_remote(&self, rev: &str, replies: &[Reply]) -> (r: Step<Option<String>>) {
        if replies.len() == 0 {
            let args = ["git", "remote", "list"];
            proof {
                assert(args.deep_view() =~= seq!["git"@, "remote"@, "list"@]);
            }
            return Step::Do(self.jj(&args));
        }
        match process::output_of(&replies[0]) {
            Some(o) => {
                if o.success {
                    let names = remote_names(o.stdout.as_str());
                    let mut refs: Vec<&str> = Vec::new();
                    let mut i: usize = 0;
                    while i < names.len()
                        invariant
                            i <= names@.len(),
                            refs.deep_view() == names.deep_view().take(i as int),
                        decreases names@.len() - i,
                    {
                        let ghost before = refs.deep_view();
                        refs.push(names[i].as_str());
                        proof {
                            assert(refs.deep_view() =~= before.push(names@[i as int]@));
                            assert(refs.deep_view() =~= names.deep_view().take(i + 1));
                        }
                        i = i + 1;
                    }
                    let slice = refs.as_slice();
                    proof {
                        assert(refs.deep_view() =~= names.deep_view());
                        assert(slice.deep_view() =~= refs.deep_view());
                    }
                    match referenced_remote(rev, slice) {
                        Some(name) => Step::Done(Ok(Some(name.to_string()))),
                        None => Step::Done(Ok(None)),
                    }
                } else {
                    Step::Done(Ok(None))
                }
            },
            None => Step::Done(Ok(None)),
        }
    }
}

/// The rows of a listing come from jj, and the one named `default`, and no
/// other, is the main one.
pub open spec fn well_tagged(rows: Seq<WorktreeView>) -> bool {
    forall|i: int|
        0 <= i < rows.len() ==> (#[trigger] rows[i]).vcs == Kind::Jj && rows[i].is_main == (
        rows[i].name == "default"@)
}

/// Whatever `jj` replies, the rows of a listing come from jj, and the one named
/// `default`, and no other, is the main one.
pub proof fn listed_rows_are_well_tagged(root: Seq<char>, replies: Seq<ReplyView>)
    ensures
        match listing(root, replies) {
            StepView::Done(Ok(rows)) => well_tagged(rows),
            _ => true,
        },
{
    if replies.len() > 0 {
        if let Ok(out) = process::printed(replies[0], "jj"@, "jj workspace list"@) {
            filled_rows_are_well_tagged(
                root,
                workspace_names(text::lines(out)),
                replies.drop_first(),
                seq![],
            );
        }
    }
}

proof fn filled_rows_are_well_tagged(
    root: Seq<char>,
    names: Seq<Seq<char>>,
    replies: Seq<ReplyView>,
    done: Seq<WorktreeView>,
)
    requires
        well_tagged(done),
    ensures
        match filling(root, names, replies, done).0 {
            StepView::Done(Ok(rows)) => well_tagged(rows),
            StepView::Done(Err(_)) => true,
            StepView::Do(a) => a is Run && a->Run_0.capture,
        },
    decreases names.len(),
{
    if names.len() > 0 && replies.len() > 0 {
        match read_root(replies[0]) {
            Err(_) => {},
            Ok(None) => {
                filled_rows_are_well_tagged(
                    root,
                    names.drop_first(),
                    replies.drop_first(),
                    done.push(row(names[0], None, None)),
                );
            },
            Ok(Some(path)) => {
                if replies.len() > 1 {
                    filled_rows_are_well_tagged(
                        root,
                        names.drop_first(),
                        replies.skip(2),
                        done.push(row(names[0], Some(path), read_status(replies[1]))),
                    );
                }
            },
        }
    }
}

proof fn listing_only_asks(root: Seq<char>, replies: Seq<ReplyView>)
    ensures
        match listing(root, replies) {
            StepView::Do(a) => a is Run && a->Run_0.capture,
            _ => true,
        },
{
    if replies.len() > 0 {
        if let Ok(out) = process::printed(replies[0], "jj"@, "jj workspace list"@) {
            filled_rows_are_well_tagged(
                root,
                workspace_names(text::lines(out)),
                replies.drop_first(),
                seq![],
            );
        }
    }
}

/// Neither pruning nor removing ever asks `jj` to forget the workspace
/// `default`, whatever the replies.
pub proof fn default_workspace_is_never_forgotten(
    root: Seq<char>,
    path: Seq<char>,
    windows: bool,
    replies: Seq<ReplyView>,
)
    ensures
        pruning(root, replies) != StepView::<Seq<char>>::Do(forget_command(root, "default"@)),
        removing(root, path, windows, replies) != StepView::<()>::Do(
            forget_command(root, "default"@),
        ),
{
    listed_rows_are_well_tagged(root, replies);
    listing_only_asks(root, replies);
    let (step, rest) = listing_from(root, replies);
    if let StepView::Done(Ok(rows)) = step {
        pruning_spares_default(root, rows, rest, seq![]);
        if rest.len() > 0 {
            let full = canonical(rest[0]);
            row_at_is_a_row(rows, path, full, windows, rest.drop_first());
            if let TargetView::At(w, left) = row_at(rows, path, full, windows, rest.drop_first()) {
                dropping_spares_default(root, path, w, left);
            }
        }
    }
}

proof fn forget_commands_differ(root: Seq<char>, a: Seq<char>, b: Seq<char>)
    ensures
        forget_command(root, a) == forget_command(root, b) ==> a == b,
{
    let x = seq!["workspace"@, "forget"@, a];
    let y = seq!["workspace"@, "forget"@, b];
    assert(x[2] == a && y[2] == b);
}

proof fn pruning_spares_default(
    root: Seq<char>,
    rows: Seq<WorktreeView>,
    replies: Seq<ReplyView>,
    forgotten: Seq<Seq<char>>,
)
    requires
        well_tagged(rows),
    ensures
        pruning_rows(root, rows, replies, forgotten) != StepView::<Seq<char>>::Do(
            forget_command(root, "default"@),
        ),
    decreases rows.len(),
{
    if rows.len() > 0 {
        let w = rows[0];
        let tail = rows.drop_first();
        let rest = replies.skip(prune_looks(w) as int);
        forget_commands_differ(root, w.name, "default"@);
        assert(well_tagged(tail)) by {
            assert forall|i: int| 0 <= i < tail.len() implies (#[trigger] tail[i]).vcs == Kind::Jj
                && tail[i].is_main == (tail[i].name == "default"@) by {
                assert(tail[i] == rows[i + 1]);
            }
        }
        match prune_choice(w, replies) {
            PruneView::Ask(_) => {},
            PruneView::Keep => {
                pruning_spares_default(root, tail, rest, forgotten);
            },
            PruneView::Forget => {
                assert(!w.is_main);
                if rest.len() > 0 && process::output(rest[0]) is Some {
                    let f = if process::output(rest[0])->0.success {
                        forgotten.push(w.name)
                    } else {
                        forgotten
                    };
                    pruning_spares_default(root, tail, rest.drop_first(), f);
                }
            },
        }
    }
}

proof fn row_at_is_a_row(
    rows: Seq<WorktreeView>,
    path: Seq<char>,
    full: Option<Seq<char>>,
    windows: bool,
    replies: Seq<ReplyView>,
)
    ensures
        match row_at(rows, path, full, windows, replies) {
            TargetView::At(w, _) => rows.contains(w),
            TargetView::Ask(a) => a is Resolve,
            TargetView::Absent => true,
        },
    decreases rows.len(),
{
    if rows.len() > 0 && replies.len() > 0 {
        if same_place(rows[0].path, canonical(replies[0]), path, full, windows) {
            assert(rows.contains(rows[0]));
        } else {
            let tail = rows.drop_first();
            row_at_is_a_row(tail, path, full, windows, replies.drop_first());
            if let TargetView::At(w, _) = row_at(tail, path, full, windows, replies.drop_first()) {
                let i = choose|i: int| 0 <= i < tail.len() && tail[i] == w;
                assert(rows[i + 1] == w);
            }
        }
    }
}

proof fn dropping_spares_default(
    root: Seq<char>,
    path: Seq<char>,
    w: WorktreeView,
    replies: Seq<ReplyView>,
)
    requires
        w.is_main == (w.name == "default"@),
    ensures
        dropping(root, path, w, replies) != StepView::<()>::Do(forget_command(root, "default"@)),
{
    forget_commands_differ(root, w.name, "default"@);
}

/// A remote that a revision is found to name is one of the remotes, the
/// revision does name it, and it names none of those before it.
pub proof fn named_remote_is_a_remote(rev: Seq<char>, remotes: Seq<Seq<char>>)
    ensures
        match first_named(rev, remotes) {
            Some(r) => exists|i: int|
                0 <= i < remotes.len() && #[trigger] remotes[i] == r && names_remote(rev, r)
                    && forall|j: int| 0 <= j < i ==> !names_remote(rev, #[trigger] remotes[j]),
            None => forall|j: int|
                0 <= j < remotes.len() ==> !names_remote(rev, #[trigger] remotes[j]),
        },
    decreases remotes.len(),
{
    if remotes.len() > 0 {
        if names_remote(rev, remotes[0]) {
            assert(remotes[0] == first_named(rev, remotes)->0);
        } else {
            let tail = remotes.drop_first();
            named_remote_is_a_remote(rev, tail);
            assert forall|j: int| 0 < j < remotes.len() implies remotes[j] == tail[j - 1] by {}
            if first_named(rev, tail) is Some {
                let r = first_named(rev, tail)->0;
                let i = choose|i: int|
                    0 <= i < tail.len() && #[trigger] tail[i] == r && names_remote(rev, r)
                        && forall|j: int| 0 <= j < i ==> !names_remote(rev, #[trigger] tail[j]);
                assert(remotes[i + 1] == r);
                assert forall|j: int| 0 <= j < i + 1 implies !names_remote(
                    rev,
                    #[trigger] remotes[j],
                ) by {
                    if j > 0 {
                        assert(remotes[j] == tail[j - 1]);
                    }
                }
            } else {
                assert forall|j: int| 0 <= j < remotes.len() implies !names_remote(
                    rev,
                    #[trigger] remotes[j],
                ) by {
                    if j > 0 {
                        assert(remotes[j] == tail[j - 1]);
                    }
                }
            }
        }
    }
}

/// The working copy's own revision names no remote.
pub proof fn working_copy_names_no_remote(remotes: Seq<Seq<char>>)
    requires
        forall|i: int| 0 <= i < remotes.len() ==> (#[trigger] remotes[i]).len() > 0,
    ensures
        first_named("@"@, remotes) is None,
{
    reveal_strlit("@");
    reveal_strlit("..");
    named_remote_is_a_remote("@"@, remotes);
    assert forall|i: int| 0 <= i < remotes.len() implies !names_remote(
        "@"@,
        #[trigger] remotes[i],
    ) by {
        let p = "@"@ + remotes[i] + ".."@;
        assert forall|k: int| !text::occurs_at("@"@, p, k) by {}
    }
}

} // verus!
