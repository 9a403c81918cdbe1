//! Git: what `git worktree` prints, and the commands that work on worktrees.

use super::detect::Kind;
use super::{AddBranch, AddBranchView, Backend, Worktree, WorktreeView};
use crate::paths;
use crate::process::{self, Action, ActionView, Reply, ReplyView, Step, StepView};
use crate::strings;
use crate::text;
use vstd::prelude::*;
use vstd::string::*;

verus! {

/// The word that a line begins with: what stands before its first space.
pub open spec fn key(line: Seq<char>) -> Seq<char> {
    line.take(text::position(line, ' '))
}

/// What follows the first space of a line; empty without one.
pub open spec fn value(line: Seq<char>) -> Seq<char> {
    let n = text::position(line, ' ');
    if n < line.len() {
        line.skip(n + 1)
    } else {
        seq![]
    }
}

/// The line begins a record.
pub open spec fn starts_record(line: Seq<char>) -> bool {
    key(line) == "worktree"@
}

/// How many lines of a record follow, up to a blank line, the next record or
/// the end.
pub open spec fn body_len(lines: Seq<Seq<char>>) -> nat
    decreases lines.len(),
{
    if lines.len() == 0 || lines[0].len() == 0 || starts_record(lines[0]) {
        0
    } else {
        1 + body_len(lines.drop_first())
    }
}

/// The records of a porcelain listing, each a line that names a worktree and
/// the lines that tell more of it. Lines outside any record say nothing.
pub open spec fn records(lines: Seq<Seq<char>>) -> Seq<Seq<Seq<char>>>
    decreases lines.len() via records_decreases
{
    if lines.len() == 0 {
        seq![]
    } else if starts_record(lines[0]) {
        let n = body_len(lines.drop_first()) as int;
        seq![lines.take(n + 1)] + records(lines.skip(n + 1))
    } else {
        records(lines.drop_first())
    }
}

#[via_fn]
proof fn records_decreases(lines: Seq<Seq<char>>) {
    if lines.len() > 0 {
        body_fits(lines.drop_first());
    }
}

proof fn body_fits(lines: Seq<Seq<char>>)
    ensures
        body_len(lines) <= lines.len(),
    decreases lines.len(),
{
    if lines.len() > 0 {
        body_fits(lines.drop_first());
    }
}

/// A line of the record has this key.
pub open spec fn has_key(record: Seq<Seq<char>>, k: Seq<char>) -> bool {
    exists|i: int| 0 <= i < record.len() && key(#[trigger] record[i]) == k
}

/// The value of the last line with this key.
pub open spec fn last_value(record: Seq<Seq<char>>, k: Seq<char>) -> Option<Seq<char>>
    decreases record.len(),
{
    if record.len() == 0 {
        None
    } else if key(record.last()) == k {
        Some(value(record.last()))
    } else {
        last_value(record.drop_last(), k)
    }
}

/// A branch as a user would type it: without `refs/heads/` before it.
pub open spec fn short_branch(full: Seq<char>) -> Seq<char> {
    if "refs/heads/"@.is_prefix_of(full) {
        full.skip("refs/heads/"@.len() as int)
    } else {
        full
    }
}

/// The name of a worktree that has no branch: the last component of its path.
pub open spec fn path_name(path: Seq<char>, windows: bool) -> Seq<char> {
    match paths::file_name(path, windows) {
        Some(n) => n,
        None => "?"@,
    }
}

/// The row that a record describes.
pub open spec fn row(record: Seq<Seq<char>>, is_main: bool, windows: bool) -> WorktreeView {
    let path = value(record[0]);
    let branch = match last_value(record, "branch"@) {
        Some(b) => Some(short_branch(b)),
        None => None,
    };
    WorktreeView {
        name: match branch {
            Some(b) => b,
            None => path_name(path, windows),
        },
        path,
        branch,
        head: last_value(record, "HEAD"@),
        commit: last_value(record, "HEAD"@),
        desc: None,
        dirty: false,
        conflict: false,
        is_main,
        is_bare: has_key(record, "bare"@),
        is_stale: has_key(record, "prunable"@),
        is_locked: has_key(record, "locked"@),
        vcs: Kind::Git,
    }
}

/// The rows of a porcelain listing: one for each record, the first the main
/// one.
pub open spec fn porcelain(listing: Seq<char>, windows: bool) -> Seq<WorktreeView> {
    let r = records(text::lines(listing));
    Seq::new(r.len(), |i: int| row(r[i], i == 0, windows))
}

/// A worktree's name from its path.
pub fn derive_name(path: &str, windows: bool) -> (r: String)
    ensures
        r@ == path_name(path@, windows),
{
    match paths::base_name(path, windows) {
        Some(n) => n,
        None => "?".to_string(),
    }
}

/// A line's key and value.
fn key_value<'a>(line: &'a str) -> (r: (&'a str, &'a str))
    ensures
        r.0@ == key(line@),
        r.1@ == value(line@),
{
    let v = strings::chars(line);
    let n: usize = strings::position(&v, 0, ' ');
    proof {
        assert(line@.skip(0) =~= line@);
        assert(line@.subrange(0, n as int) =~= line@.take(n as int));
    }
    let k = line.substring_char(0, n);
    if n < v.len() {
        proof {
            assert(line@.subrange(n + 1, line@.len() as int) =~= line@.skip(n + 1));
        }
        (k, line.substring_char(n + 1, v.len()))
    } else {
        proof {
            assert(line@.subrange(n as int, n as int) =~= Seq::<char>::empty());
        }
        (k, line.substring_char(n, n))
    }
}

/// The row of the record `lines[from..to]`.
fn read_row(lines: &Vec<String>, from: usize, to: usize, is_main: bool, windows: bool) -> (r:
    Worktree)
    requires
        from < to <= lines@.len(),
    ensures
        r.deep_view() == row(lines.deep_view().subrange(from as int, to as int), is_main, windows),
{
    let ghost record = lines.deep_view().subrange(from as int, to as int);
    let (_, path) = key_value(lines[from].as_str());
    let mut branch: Option<String> = None;
    let mut head: Option<String> = None;
    let mut is_bare = false;
    let mut is_stale = false;
    let mut is_locked = false;
    let mut i: usize = from;
    while i < to
        invariant
            from <= i <= to <= lines@.len(),
            record == lines.deep_view().subrange(from as int, to as int),
            branch.deep_view() == last_value(record.take(i - from), "branch"@),
            head.deep_view() == last_value(record.take(i - from), "HEAD"@),
            is_bare == has_key(record.take(i - from), "bare"@),
            is_stale == has_key(record.take(i - from), "prunable"@),
            is_locked == has_key(record.take(i - from), "locked"@),
        decreases to - i,
    {
        let (k, v) = key_value(lines[i].as_str());
        let ghost next = record.take(i - from + 1);
        proof {
            let k = key(lines@[i as int]@);
            assert(next.drop_last() =~= record.take(i - from));
            assert(next.last() == lines@[i as int]@);
            has_key_grows(next, "bare"@);
            has_key_grows(next, "prunable"@);
            has_key_grows(next, "locked"@);
            reveal_strlit("branch");
            reveal_strlit("HEAD");
            reveal_strlit("bare");
            reveal_strlit("prunable");
            reveal_strlit("locked");
            assert("branch"@[0] == 'b' && "branch"@[1] == 'r' && "bare"@[0] == 'b' && "bare"@[1]
                == 'a');
            assert("HEAD"@[0] == 'H' && "prunable"@[0] == 'p' && "locked"@[0] == 'l');
        }
        if strings::same(k, "branch") {
            branch = Some(v.to_string());
        } else if strings::same(k, "HEAD") {
            head = Some(v.to_string());
        } else if strings::same(k, "bare") {
            is_bare = true;
        } else if strings::same(k, "prunable") {
            is_stale = true;
        } else if strings::same(k, "locked") {
            is_locked = true;
        }
        i = i + 1;
    }
    proof {
        assert(record.take(i - from) =~= record);
        assert(record[0] == lines@[from as int]@);
    }
    let branch: Option<String> = match branch {
        Some(b) => match strings::strip_prefix(b.as_str(), "refs/heads/") {
            Some(short) => Some(short.to_string()),
            None => Some(b),
        },
        None => None,
    };
    let name = match &branch {
        Some(b) => b.clone(),
        None => derive_name(path, windows),
    };
    let commit = head.clone();
    Worktree {
        name,
        path: path.to_string(),
        branch,
        head,
        commit,
        desc: None,
        dirty: false,
        conflict: false,
        is_main,
        is_bare,
        is_stale,
        is_locked,
        vcs: Kind::Git,
    }
}

proof fn has_key_grows(record: Seq<Seq<char>>, k: Seq<char>)
    requires
        record.len() > 0,
    ensures
        has_key(record, k) == (has_key(record.drop_last(), k) || key(record.last()) == k),
{
    let before = record.drop_last();
    if has_key(before, k) {
        let i = choose|i: int| 0 <= i < before.len() && key(#[trigger] before[i]) == k;
        assert(key(record[i]) == k);
    }
    if key(record.last()) == k {
        assert(key(record[record.len() - 1]) == k);
    }
    if has_key(record, k) && key(record.last()) != k {
        let i = choose|i: int| 0 <= i < record.len() && key(#[trigger] record[i]) == k;
        assert(key(before[i]) == k);
    }
}

/// Whether a line begins a record.
fn begins_record(line: &str) -> (r: bool)
    ensures
        r == starts_record(line@),
{
    let (k, _) = key_value(line);
    strings::same(k, "worktree")
}

/// Where the record whose lines go on at `from` ends.
fn record_end(lines: &Vec<String>, from: usize) -> (r: usize)
    requires
        from <= lines@.len(),
    ensures
        from <= r <= lines@.len(),
        r == from + body_len(lines.deep_view().skip(from as int)),
{
    let ghost all = lines.deep_view();
    let mut j: usize = from;
    while j < lines.len()
        invariant
            from <= j <= lines@.len(),
            all == lines.deep_view(),
            body_len(all.skip(from as int)) == j - from + body_len(all.skip(j as int)),
        decreases lines@.len() - j,
    {
        proof {
            assert(all.skip(j as int)[0] == lines@[j as int]@);
            assert(all.skip(j as int).drop_first() =~= all.skip(j + 1));
        }
        let line = lines[j].as_str();
        if line.unicode_len() == 0 || begins_record(line) {
            return j;
        }
        j = j + 1;
    }
    j
}

/// Reads what `git worktree list --porcelain` printed.
pub fn parse_porcelain(listing: &str, windows: bool) -> (r: Vec<Worktree>)
    ensures
        r.deep_view() == porcelain(listing@, windows),
{
    let lines = strings::lines(listing);
    let ghost all = lines.deep_view();
    let ghost recs = records(all);
    let mut out: Vec<Worktree> = Vec::new();
    let mut i: usize = 0;
    proof {
        assert(all.skip(0) =~= all);
        assert(recs.skip(0) =~= recs);
    }
    while i < lines.len()
        invariant
            i <= lines@.len(),
            all == lines.deep_view(),
            recs == records(all),
            out@.len() <= recs.len(),
            records(all.skip(i as int)) == recs.skip(out@.len() as int),
            forall|j: int|
                0 <= j < out@.len() ==> (#[trigger] out@[j]).deep_view() == row(recs[j], j == 0, windows),
        decreases lines@.len() - i,
    {
        let ghost rest = all.skip(i as int);
        proof {
            assert(rest[0] == lines@[i as int]@);
            assert(rest.drop_first() =~= all.skip(i + 1));
        }
        if begins_record(lines[i].as_str()) {
            let end: usize = record_end(&lines, i + 1);
            let is_main = out.len() == 0;
            let ghost k = out@.len() as int;
            proof {
                let n = body_len(rest.drop_first()) as int;
                assert(rest.take(n + 1) =~= all.subrange(i as int, end as int));
                assert(rest.skip(n + 1) =~= all.skip(end as int));
                assert(recs.skip(k)[0] == rest.take(n + 1));
                assert(recs.skip(k + 1) =~= recs.skip(k).drop_first());
                assert(records(rest).drop_first() =~= records(rest.skip(n + 1)));
            }
            out.push(read_row(&lines, i, end, is_main, windows));
            i = end;
        } else {
            i = i + 1;
        }
    }
    proof {
        assert(all.skip(i as int) =~= Seq::<Seq<char>>::empty());
        assert(out.deep_view() =~= porcelain(listing@, windows));
    }
    out
}

/// How many lines begin a record.
pub open spec fn record_lines(lines: Seq<Seq<char>>) -> nat
    decreases lines.len(),
{
    if lines.len() == 0 {
        0
    } else {
        record_lines(lines.drop_first()) + if starts_record(lines[0]) {
            1nat
        } else {
            0nat
        }
    }
}

/// A porcelain listing has one row for each line that names a worktree, and the
/// first row, and no other, is the main one.
pub proof fn every_worktree_line_is_a_row(listing: Seq<char>, windows: bool)
    ensures
        porcelain(listing, windows).len() == record_lines(text::lines(listing)),
        forall|i: int|
            0 <= i < porcelain(listing, windows).len() ==> (#[trigger] porcelain(listing, windows)[i]).is_main == (i
                == 0),
{
    records_counted(text::lines(listing));
}

proof fn records_counted(lines: Seq<Seq<char>>)
    ensures
        records(lines).len() == record_lines(lines),
    decreases lines.len(),
{
    if lines.len() > 0 {
        let rest = lines.drop_first();
        if starts_record(lines[0]) {
            let n = body_len(rest) as int;
            body_starts_nothing(rest);
            assert(lines.skip(n + 1) =~= rest.skip(n as int));
            records_counted(rest.skip(n as int));
        } else {
            records_counted(rest);
        }
    }
}

proof fn body_starts_nothing(lines: Seq<Seq<char>>)
    ensures
        body_len(lines) <= lines.len(),
        record_lines(lines) == record_lines(lines.skip(body_len(lines) as int)),
    decreases lines.len(),
{
    if lines.len() == 0 || lines[0].len() == 0 || starts_record(lines[0]) {
        assert(lines.skip(0) =~= lines);
    } else {
        let rest = lines.drop_first();
        body_starts_nothing(rest);
        assert(rest.skip(body_len(rest) as int) =~= lines.skip(body_len(lines) as int));
    }
}

/// A repository that `git` works on.
pub struct GitBackend {
    pub root: String,
    /// Paths are those of Windows.
    pub windows: bool,
}

impl GitBackend {
    /// The repository at `root`.
    pub fn new(root: &str, windows: bool) -> (r: GitBackend)
        ensures
            r.root@ == root@,
            r.windows == windows,
    {
        GitBackend { root: root.to_string(), windows }
    }

    /// `git` with `args` at the root of the repository, its output collected.
    fn git(&self, args: &[&str]) -> (r: Action)
        ensures
            r.deep_view() == process::ask("git"@, args.deep_view(), self.root@),
    {
        process::asking("git", args, self.root.as_str())
    }
}

/// Asks for the worktrees.
pub open spec fn list_command(root: Seq<char>) -> ActionView {
    process::ask("git"@, seq!["worktree"@, "list"@, "--porcelain"@], root)
}

/// Asks for the changes of the worktree at `path`.
pub open spec fn status_command(path: Seq<char>) -> ActionView {
    process::ask("git"@, seq!["status"@, "--porcelain"@], path)
}

/// Asks for the short id of what is checked out at `path`, and for its message
/// on the lines after it.
pub open spec fn message_command(path: Seq<char>) -> ActionView {
    process::ask("git"@, seq!["log"@, "-1"@, "--format=%h%n%B"@], path)
}

/// The row with the state of its working copy.
pub open spec fn with_state(
    w: WorktreeView,
    status: ReplyView,
    message: ReplyView,
) -> WorktreeView {
    WorktreeView {
        dirty: process::answer(status) is Some,
        head: match process::line(message, 0) {
            Some(id) => Some(id),
            None => w.head,
        },
        desc: process::line(message, 1),
        ..w
    }
}

/// The list, once the rows are known: each row with a working copy is asked for
/// its changes and then for its short id and message. `done` holds the finished rows.
pub open spec fn filling(
    rows: Seq<WorktreeView>,
    replies: Seq<ReplyView>,
    done: Seq<WorktreeView>,
) -> StepView<Seq<WorktreeView>>
    decreases rows.len(),
{
    if rows.len() == 0 {
        StepView::Done(Ok(done))
    } else if rows[0].is_bare || rows[0].is_stale {
        filling(rows.drop_first(), replies, done.push(rows[0]))
    } else if replies.len() == 0 {
        StepView::Do(status_command(rows[0].path))
    } else if replies.len() == 1 {
        StepView::Do(message_command(rows[0].path))
    } else {
        filling(
            rows.drop_first(),
            replies.skip(2),
            done.push(with_state(rows[0], replies[0], replies[1])),
        )
    }
}

/// Listing the worktrees, given the replies so far.
pub open spec fn listing(root: Seq<char>, windows: bool, replies: Seq<ReplyView>) -> StepView<
    Seq<WorktreeView>,
> {
    if replies.len() == 0 {
        StepView::Do(list_command(root))
    } else {
        match process::printed(replies[0], "git"@, "git worktree list"@) {
            Err(e) => StepView::Done(Err(e)),
            Ok(out) => filling(porcelain(out, windows), replies.drop_first(), seq![]),
        }
    }
}

/// What `git worktree add` is given.
pub open spec fn add_args(path: Seq<char>, branch: AddBranchView) -> Seq<Seq<char>> {
    match branch {
        AddBranchView::NewBranch { name, base: None } => seq![
            "worktree"@,
            "add"@,
            "-b"@,
            name,
            path,
        ],
        AddBranchView::NewBranch { name, base: Some(base) } => seq![
            "worktree"@,
            "add"@,
            "-b"@,
            name,
            path,
            base,
        ],
        AddBranchView::ExistingBranch(name) => seq!["worktree"@, "add"@, path, name],
    }
}

/// Adding a worktree, given the replies so far.
pub open spec fn adding(
    root: Seq<char>,
    path: Seq<char>,
    branch: AddBranchView,
    replies: Seq<ReplyView>,
) -> StepView<()> {
    if replies.len() == 0 {
        StepView::Do(process::tell("git"@, add_args(path, branch), root))
    } else {
        StepView::Done(process::ran_well(replies[0], "git"@, "git worktree add"@))
    }
}

/// What `git worktree remove` is given.
pub open spec fn remove_args(path: Seq<char>, force: bool) -> Seq<Seq<char>> {
    if force {
        seq!["worktree"@, "remove"@, "--force"@, path]
    } else {
        seq!["worktree"@, "remove"@, path]
    }
}

/// Removing a worktree, given the replies so far.
pub open spec fn removing(
    root: Seq<char>,
    path: Seq<char>,
    force: bool,
    replies: Seq<ReplyView>,
) -> StepView<()> {
    if replies.len() == 0 {
        StepView::Do(process::tell("git"@, remove_args(path, force), root))
    } else {
        StepView::Done(process::ran_well(replies[0], "git"@, "git worktree remove"@))
    }
}

/// Finding the URL of the remote `origin`.
pub open spec fn origin(root: Seq<char>, replies: Seq<ReplyView>) -> StepView<Option<Seq<char>>> {
    process::asking_line("git"@, seq!["remote"@, "get-url"@, "origin"@], root, replies)
}

/// Finding the branch that is checked out.
pub open spec fn current(root: Seq<char>, replies: Seq<ReplyView>) -> StepView<Option<Seq<char>>> {
    process::asking_line("git"@, seq!["branch"@, "--show-current"@], root, replies)
}

/// Finding the branches, remote branches and tags.
pub open spec fn refs(root: Seq<char>, replies: Seq<ReplyView>) -> StepView<Seq<Seq<char>>> {
    if replies.len() == 0 {
        StepView::Do(
            process::ask(
                "git"@,
                seq![
                    "for-each-ref"@,
                    "--format=%(refname:short)"@,
                    "refs/heads"@,
                    "refs/remotes"@,
                    "refs/tags"@,
                ],
                root,
            ),
        )
    } else {
        match process::printed(replies[0], "git"@, "git for-each-ref"@) {
            Err(e) => StepView::Done(Err(e)),
            Ok(out) => StepView::Done(Ok(process::filled_lines(out))),
        }
    }
}

/// Finding out whether there is a branch `name`.
pub open spec fn exists_branch(
    root: Seq<char>,
    name: Seq<char>,
    replies: Seq<ReplyView>,
) -> StepView<bool> {
    if replies.len() == 0 {
        StepView::Do(
            process::ask(
                "git"@,
                seq!["show-ref"@, "--verify"@, "--quiet"@, "refs/heads/"@ + name],
                root,
            ),
        )
    } else {
        StepView::Done(Ok(process::succeeded(replies[0])))
    }
}

/// Dropping what is left of worktrees whose directory is gone.
pub open spec fn pruning(root: Seq<char>, replies: Seq<ReplyView>) -> StepView<Seq<char>> {
    if replies.len() == 0 {
        StepView::Do(process::ask("git"@, seq!["worktree"@, "prune"@, "--verbose"@], root))
    } else {
        StepView::Done(process::printed(replies[0], "git"@, "git worktree prune"@))
    }
}

/// Fetching from one remote.
pub open spec fn fetching(
    root: Seq<char>,
    remote: Seq<char>,
    replies: Seq<ReplyView>,
) -> StepView<Seq<char>> {
    if replies.len() == 0 {
        StepView::Do(process::ask("git"@, seq!["fetch"@, remote], root))
    } else {
        StepView::Done(process::fetched(replies[0], "git"@, "git fetch "@ + remote))
    }
}

/// The revision names a branch of this remote.
pub open spec fn names_remote(rev: Seq<char>, remote: Seq<char>) -> bool {
    (remote + "/"@).is_prefix_of(rev)
}

/// The first of the remotes that the revision names.
pub open spec fn first_named(rev: Seq<char>, remotes: Seq<Seq<char>>) -> Option<Seq<char>>
    decreases remotes.len(),
{
    if remotes.len() == 0 {
        None
    } else if names_remote(rev, remotes[0]) {
        Some(remotes[0])
    } else {
        first_named(rev, remotes.drop_first())
    }
}

/// Finding the remote that a revision names.
pub open spec fn remote_of(
    root: Seq<char>,
    rev: Seq<char>,
    replies: Seq<ReplyView>,
) -> StepView<Option<Seq<char>>> {
    if replies.len() == 0 {
        StepView::Do(process::ask("git"@, seq!["remote"@], root))
    } else if process::succeeded(replies[0]) {
        StepView::Done(
            Ok(first_named(rev, process::filled_lines(process::output(replies[0])->0.stdout))),
        )
    } else {
        StepView::Done(Ok(None))
    }
}

impl Backend for GitBackend {
    open spec fn kind(&self) -> Kind {
        Kind::Git
    }

    open spec fn at(&self) -> Seq<char> {
        self.root@
    }

    open spec fn windows(&self) -> bool {
        self.windows
    }

    fn name(&self) -> (r: &str) {
        "git"
    }

    fn list(&self, replies: &[Reply]) -> (r: Step<Vec<Worktree>>) {
        if replies.len() == 0 {
            let args = ["worktree", "list", "--porcelain"];
            proof {
                assert(args.deep_view() =~= seq!["worktree"@, "list"@, "--porcelain"@]);
            }
            return Step::Do(self.git(&args));
        }
        let out = match process::printed_by(&replies[0], "git", "git worktree list") {
            Err(e) => return Step::Done(Err(e)),
            Ok(out) => out,
        };
        let rows = parse_porcelain(out.as_str(), self.windows);
        let ghost all = rows.deep_view();
        let ghost rs = replies.deep_view();
        let mut done: Vec<Worktree> = Vec::new();
        let mut i: usize = 0;
        let mut k: usize = 1;
        proof {
            assert(all.skip(0) =~= all);
            assert(rs.skip(1) =~= rs.drop_first());
            assert(done.deep_view() =~= seq![]);
        }
        while i < rows.len()
            invariant
                i <= rows@.len(),
                k <= replies@.len(),
                all == rows.deep_view(),
                rs == replies.deep_view(),
                listing(self.root@, self.windows, rs) == filling(
                    all.skip(i as int),
                    rs.skip(k as int),
                    done.deep_view(),
                ),
            decreases rows@.len() - i,
        {
            let mut w = rows[i].clone();
            let ghost rest = all.skip(i as int);
            let ghost before = done.deep_view();
            proof {
                assert(rest[0] == w.deep_view());
                assert(rest.drop_first() =~= all.skip(i + 1));
            }
            if w.is_bare || w.is_stale {
                done.push(w);
                proof {
                    assert(done.deep_view() =~= before.push(w.deep_view()));
                }
            } else {
                if replies.len() - k == 0 {
                    let args = ["status", "--porcelain"];
                    proof {
                        assert(args.deep_view() =~= seq!["status"@, "--porcelain"@]);
                    }
                    return Step::Do(process::asking("git", &args, w.path.as_str()));
                }
                if replies.len() - k == 1 {
                    let args = ["log", "-1", "--format=%h%n%B"];
                    proof {
                        assert(args.deep_view() =~= seq!["log"@, "-1"@, "--format=%h%n%B"@]);
                    }
                    return Step::Do(process::asking("git", &args, w.path.as_str()));
                }
                w.dirty = process::answer_of(&replies[k]).is_some();
                if let Some(id) = process::line_of(&replies[k + 1], 0) {
                    w.head = Some(id);
                }
                w.desc = process::line_of(&replies[k + 1], 1);
                done.push(w);
                proof {
                    assert(rs.skip(k as int)[0] == replies@[k as int].deep_view());
                    assert(rs.skip(k as int)[1] == replies@[k + 1].deep_view());
                    assert(rs.skip(k as int).skip(2) =~= rs.skip(k + 2));
                    assert(done.deep_view() =~= before.push(w.deep_view()));
                }
                k = k + 2;
            }
            i = i + 1;
        }
        proof {
            assert(all.skip(i as int) =~= seq![]);
        }
        Step::Done(Ok(done))
    }

    fn add(&self, path: &str, branch: AddBranch, replies: &[Reply]) -> (r: Step<()>) {
        if replies.len() > 0 {
            return Step::Done(process::check_ran(&replies[0], "git", "git worktree add"));
        }
        match branch {
            AddBranch::NewBranch { name, base } => match base {
                None => {
                    let args = ["worktree", "add", "-b", name, path];
                    proof {
                        assert(args.deep_view() =~= add_args(path@, branch.deep_view()));
                    }
                    Step::Do(process::telling("git", &args, self.root.as_str()))
                },
                Some(base) => {
                    let args = ["worktree", "add", "-b", name, path, base];
                    proof {
                        assert(args.deep_view() =~= add_args(path@, branch.deep_view()));
                    }
                    Step::Do(process::telling("git", &args, self.root.as_str()))
                },
            },
            AddBranch::ExistingBranch(name) => {
                let args = ["worktree", "add", path, name];
                proof {
                    assert(args.deep_view() =~= add_args(path@, branch.deep_view()));
                }
                Step::Do(process::telling("git", &args, self.root.as_str()))
            },
        }
    }

    fn remove(&self, path: &str, force: bool, replies: &[Reply]) -> (r: Step<()>) {
        if replies.len() > 0 {
            return Step::Done(process::check_ran(&replies[0], "git", "git worktree remove"));
        }
        if force {
            let args = ["worktree", "remove", "--force", path];
            proof {
                assert(args.deep_view() =~= remove_args(path@, force));
            }
            Step::Do(process::telling("git", &args, self.root.as_str()))
        } else {
            let args = ["worktree", "remove", path];
            proof {
                assert(args.deep_view() =~= remove_args(path@, force));
            }
            Step::Do(process::telling("git", &args, self.root.as_str()))
        }
    }

    fn origin_url(&self, replies: &[Reply]) -> (r: Step<Option<String>>) {
        let args = ["remote", "get-url", "origin"];
        proof {
            assert(args.deep_view() =~= seq!["remote"@, "get-url"@, "origin"@]);
        }
        process::ask_line("git", &args, self.root.as_str(), replies)
    }

    fn current_branch(&self, replies: &[Reply]) -> (r: Step<Option<String>>) {
        let args = ["branch", "--show-current"];
        proof {
            assert(args.deep_view() =~= seq!["branch"@, "--show-current"@]);
        }
        process::ask_line("git", &args, self.root.as_str(), replies)
    }

    fn list_refs(&self, replies: &[Reply]) -> (r: Step<Vec<String>>) {
        if replies.len() == 0 {
            let args = [
                "for-each-ref",
                "--format=%(refname:short)",
                "refs/heads",
                "refs/remotes",
                "refs/tags",
            ];
            proof {
                assert(args.deep_view() =~= seq![
                    "for-each-ref"@,
                    "--format=%(refname:short)"@,
                    "refs/heads"@,
                    "refs/remotes"@,
                    "refs/tags"@,
                ]);
            }
            return Step::Do(self.git(&args));
        }
        match process::printed_by(&replies[0], "git", "git for-each-ref") {
            Err(e) => Step::Done(Err(e)),
            Ok(out) => Step::Done(Ok(process::lines_of(out.as_str()))),
        }
    }

    fn branch_exists(&self, name: &str, replies: &[Reply]) -> (r: Step<bool>) {
        if replies.len() == 0 {
            let mut full = "refs/heads/".to_string();
            full.append(name);
            let args = ["show-ref", "--verify", "--quiet", full.as_str()];
            proof {
                assert(args.deep_view() =~= seq![
                    "show-ref"@,
                    "--verify"@,
                    "--quiet"@,
                    "refs/heads/"@ + name@,
                ]);
            }
            return Step::Do(self.git(&args));
        }
        Step::Done(Ok(process::success(&replies[0])))
    }

    fn prune(&self, replies: &[Reply]) -> (r: Step<String>) {
        if replies.len() == 0 {
            let args = ["worktree", "prune", "--verbose"];
            proof {
                assert(args.deep_view() =~= seq!["worktree"@, "prune"@, "--verbose"@]);
            }
            return Step::Do(self.git(&args));
        }
        Step::Done(process::printed_by(&replies[0], "git", "git worktree prune"))
    }

    fn fetch(&self, replies: &[Reply]) -> (r: Step<String>) {
        self.fetch_remote("origin", replies)
    }

    fn fetch_remote(&self, remote: &str, replies: &[Reply]) -> (r: Step<String>) {
        if replies.len() == 0 {
            let args = ["fetch", remote];
            proof {
                assert(args.deep_view() =~= seq!["fetch"@, remote@]);
            }
            return Step::Do(self.git(&args));
        }
        let mut what = "git fetch ".to_string();
        what.append(remote);
        Step::Done(process::fetched_by(&replies[0], "git", what.as_str()))
    }

    fn referenced_remote(&self, rev: &str, replies: &[Reply]) -> (r: Step<Option<String>>) {
        if replies.len() == 0 {
            let args = ["remote"];
            proof {
                assert(args.deep_view() =~= seq!["remote"@]);
            }
            return Step::Do(self.git(&args));
        }
        match process::output_of(&replies[0]) {
            Some(o) => {
                if o.success {
                    let remotes = process::lines_of(o.stdout.as_str());
                    Step::Done(Ok(named_remote(rev, &remotes)))
                } else {
                    Step::Done(Ok(None))
                }
            },
            None => Step::Done(Ok(None)),
        }
    }
}

/// The first of the remotes that the revision names.
fn named_remote(rev: &str, remotes: &Vec<String>) -> (r: Option<String>)
    ensures
        r.deep_view() == first_named(rev@, remotes.deep_view()),
{
    let ghost all = remotes.deep_view();
    let mut i: usize = 0;
    proof {
        assert(all.skip(0) =~= all);
    }
    while i < remotes.len()
        invariant
            i <= remotes.len(),
            all == remotes.deep_view(),
            first_named(rev@, all) == first_named(rev@, all.skip(i as int)),
        decreases remotes.len() - i,
    {
        proof {
            assert(all.skip(i as int)[0] == remotes@[i as int]@);
            assert(all.skip(i as int).drop_first() =~= all.skip(i + 1));
        }
        let mut start = remotes[i].clone();
        start.append("/");
        if strings::starts_with(rev, start.as_str()) {
            return Some(remotes[i].clone());
        }
        i = i + 1;
    }
    None
}

/// `a` is the row `b`, but for its changes, its short id and its message.
pub open spec fn same_row(a: WorktreeView, b: WorktreeView) -> bool {
    a == (WorktreeView { dirty: a.dirty, head: a.head, desc: a.desc, ..b })
}

/// `list` has the rows of `start`, one by one, but for their changes, their short
/// ids and their messages.
pub open spec fn same_rows(list: Seq<WorktreeView>, start: Seq<WorktreeView>) -> bool {
    &&& list.len() == start.len()
    &&& forall|i: int| 0 <= i < list.len() ==> same_row(#[trigger] list[i], start[i])
}

/// Whatever `git` replies, the finished list has the rows of the porcelain
/// listing, with their changes, short ids and messages filled in; so they all
/// come from git.
pub proof fn listed_rows_are_those_of_the_listing(
    root: Seq<char>,
    windows: bool,
    replies: Seq<ReplyView>,
)
    ensures
        match listing(root, windows, replies) {
            StepView::Done(Ok(rows)) => {
                &&& replies.len() > 0
                &&& process::succeeded(replies[0])
                &&& same_rows(rows, porcelain(process::output(replies[0])->0.stdout, windows))
                &&& forall|i: int| 0 <= i < rows.len() ==> (#[trigger] rows[i]).vcs == Kind::Git
            },
            _ => true,
        },
{
    if replies.len() > 0 {
        if let Ok(out) = process::printed(replies[0], "git"@, "git worktree list"@) {
            let none = Seq::<WorktreeView>::empty();
            filling_keeps_the_rows(porcelain(out, windows), replies.drop_first(), none, none);
            assert(none + porcelain(out, windows) =~= porcelain(out, windows));
            if let StepView::Done(Ok(rows)) = listing(root, windows, replies) {
                assert forall|i: int| 0 <= i < rows.len() implies (#[trigger] rows[i]).vcs
                    == Kind::Git by {
                    assert(same_row(rows[i], porcelain(out, windows)[i]));
                }
            }
        }
    }
}

proof fn filling_keeps_the_rows(
    rows: Seq<WorktreeView>,
    replies: Seq<ReplyView>,
    done: Seq<WorktreeView>,
    start: Seq<WorktreeView>,
)
    requires
        same_rows(done, start),
    ensures
        match filling(rows, replies, done) {
            StepView::Done(Ok(list)) => same_rows(list, start + rows),
            StepView::Done(Err(_)) => false,
            StepView::Do(_) => true,
        },
    decreases rows.len(),
{
    if rows.len() == 0 {
        assert(start + rows =~= start);
    } else {
        let w = rows[0];
        let tail = rows.drop_first();
        assert(start.push(w) + tail =~= start + rows);
        if w.is_bare || w.is_stale {
            same_rows_grow(done, start, w, w);
            filling_keeps_the_rows(tail, replies, done.push(w), start.push(w));
        } else if replies.len() > 1 {
            let next = with_state(w, replies[0], replies[1]);
            same_rows_grow(done, start, next, w);
            filling_keeps_the_rows(tail, replies.skip(2), done.push(next), start.push(w));
        }
    }
}

proof fn same_rows_grow(
    done: Seq<WorktreeView>,
    start: Seq<WorktreeView>,
    next: WorktreeView,
    w: WorktreeView,
)
    requires
        same_rows(done, start),
        same_row(next, w),
    ensures
        same_rows(done.push(next), start.push(w)),
{
    let list = done.push(next);
    assert forall|i: int| 0 <= i < list.len() implies same_row(
        #[trigger] list[i],
        start.push(w)[i],
    ) by {
        if i < done.len() {
            assert(same_row(done[i], start[i]));
        }
    }
}

} // verus!
