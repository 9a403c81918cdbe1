//! The projects that have worktrees under the configured directory.
//!
//! The directory is walked to a limited depth, and not into a worktree. The
//! worktrees found are grouped by the repository that they share.

use crate::order;
use crate::paths::{self, joining};
use crate::strings;
use crate::text;
use vstd::prelude::*;
use vstd::string::*;

verus! {

/// A project: all worktrees found of one repository.
#[derive(Debug, Clone, PartialEq, Eq)]
pub struct Project {
    /// What the user picks it by.
    pub label: String,
    /// Where its worktrees are, in order.
    pub worktrees: Vec<String>,
}

/// What a [`Project`] stands for.
pub struct ProjectView {
    pub label: Seq<char>,
    pub worktrees: Seq<Seq<char>>,
}

impl DeepView for Project {
    type V = ProjectView;

    open spec fn deep_view(&self) -> ProjectView {
        ProjectView { label: self.label@, worktrees: self.worktrees.deep_view() }
    }
}

impl Project {
    /// A project has at least one worktree.
    pub open spec fn valid(&self) -> bool {
        self.worktrees@.len() > 0
    }

    /// A directory inside the project.
    pub fn entry_path(&self) -> (r: &str)
        requires
            self.valid(),
        ensures
            r@ == self.worktrees@[0]@,
    {
        self.worktrees[0].as_str()
    }
}

/// How deep the walk goes below the directory it starts from.
pub const MAX_DEPTH: usize = 5;

/// Something in a directory, as the walk sees it.
#[derive(Debug, PartialEq, Eq)]
pub struct DirEntry {
    pub name: String,
    pub is_symlink: bool,
    pub is_dir: bool,
}

/// What a [`DirEntry`] stands for.
pub struct DirEntryView {
    pub name: Seq<char>,
    pub is_symlink: bool,
    pub is_dir: bool,
}

impl DeepView for DirEntry {
    type V = DirEntryView;

    open spec fn deep_view(&self) -> DirEntryView {
        DirEntryView { name: self.name@, is_symlink: self.is_symlink, is_dir: self.is_dir }
    }
}

/// What is in a directory. One that cannot be read has no entries.
#[derive(Debug, PartialEq, Eq)]
pub struct Listing {
    /// A `.git`, be it a directory or a file.
    pub has_git: bool,
    /// A directory `.jj`.
    pub has_jj: bool,
    pub entries: Vec<DirEntry>,
}

/// What a [`Listing`] stands for.
pub struct ListingView {
    pub has_git: bool,
    pub has_jj: bool,
    pub entries: Seq<DirEntryView>,
}

impl DeepView for Listing {
    type V = ListingView;

    open spec fn deep_view(&self) -> ListingView {
        ListingView {
            has_git: self.has_git,
            has_jj: self.has_jj,
            entries: self.entries.deep_view(),
        }
    }
}

/// The directory is a worktree.
pub open spec fn marked(l: ListingView) -> bool {
    l.has_git || l.has_jj
}

/// Whether a directory is a worktree.
pub fn is_worktree(l: &Listing) -> (r: bool)
    ensures
        r == marked(l.deep_view()),
{
    l.has_git || l.has_jj
}

/// The walk goes into this: a directory that is not hidden, and no link.
pub open spec fn entered(e: DirEntryView) -> bool {
    !(e.name.len() > 0 && e.name[0] == '.') && !e.is_symlink && e.is_dir
}

/// A directory still to be visited, and how deep it is.
#[derive(Debug, PartialEq, Eq)]
pub struct Pending {
    pub path: String,
    pub depth: usize,
}

/// What a [`Pending`] stands for.
pub struct PendingView {
    pub path: Seq<char>,
    pub depth: nat,
}

impl DeepView for Pending {
    type V = PendingView;

    open spec fn deep_view(&self) -> PendingView {
        PendingView { path: self.path@, depth: self.depth as nat }
    }
}

/// The directories that the walk goes into from a directory at this depth.
pub open spec fn below(
    dir: Seq<char>,
    depth: nat,
    entries: Seq<DirEntryView>,
    windows: bool,
) -> Seq<PendingView>
    decreases entries.len(),
{
    if entries.len() == 0 {
        seq![]
    } else {
        (if entered(entries[0]) && depth < MAX_DEPTH {
            seq![PendingView { path: paths::join(dir, entries[0].name, windows), depth: depth + 1 }]
        } else {
            seq![]
        }) + below(dir, depth, entries.drop_first(), windows)
    }
}

/// A walk under way.
#[derive(Debug, PartialEq, Eq)]
pub struct Walk {
    /// What is still to be visited, the next one last.
    pub pending: Vec<Pending>,
    /// The worktrees found so far.
    pub found: Vec<String>,
}

impl Walk {
    /// A walk from a directory.
    pub fn new(root: &str) -> (r: Walk)
        ensures
            r.pending.deep_view() == seq![PendingView { path: root@, depth: 0 }],
            r.found.deep_view() == Seq::<Seq<char>>::empty(),
    {
        let r = Walk {
            pending: vec![Pending { path: root.to_string(), depth: 0 }],
            found: Vec::new(),
        };
        proof {
            assert(r.pending.deep_view() =~= seq![PendingView { path: root@, depth: 0 }]);
            assert(r.found.deep_view() =~= Seq::<Seq<char>>::empty());
        }
        r
    }

    /// The directory to look into next; none once the walk is over.
    pub fn next(&self) -> (r: Option<&str>)
        ensures
            match r {
                Some(p) => self.pending@.len() > 0 && p@ == self.pending@.last().path@,
                None => self.pending@.len() == 0,
            },
    {
        if self.pending.len() == 0 {
            None
        } else {
            Some(self.pending[self.pending.len() - 1].path.as_str())
        }
    }

    /// Visits the next directory, given what is in it: a worktree is noted, and
    /// of anything else the directories in it are to be visited, in order.
    pub fn visit(&mut self, listing: &Listing, windows: bool)
        requires
            old(self).pending@.len() > 0,
        ensures
            ({
                let top = old(self).pending.deep_view().last();
                let rest = old(self).pending.deep_view().drop_last();
                if marked(listing.deep_view()) {
                    &&& final(self).pending.deep_view() == rest
                    &&& final(self).found.deep_view() == old(self).found.deep_view().push(top.path)
                } else {
                    &&& final(self).pending.deep_view() == rest + below(
                        top.path,
                        top.depth,
                        listing.deep_view().entries,
                        windows,
                    ).reverse()
                    &&& final(self).found.deep_view() == old(self).found.deep_view()
                }
            }),
    {
        let ghost was = self.pending.deep_view();
        let ghost had = self.found.deep_view();
        let top = match self.pending.pop() {
            Some(t) => t,
            None => return ,
        };
        let ghost rest = was.drop_last();
        proof {
            assert(self.pending.deep_view() =~= rest);
            assert(was.last() == top.deep_view());
        }
        if is_worktree(listing) {
            let ghost path = top.path@;
            self.found.push(top.path);
            proof {
                assert(self.found.deep_view() =~= had.push(path));
            }
            return ;
        }
        let ghost all = listing.entries.deep_view();
        let mut n: usize = listing.entries.len();
        proof {
            assert(all.skip(n as int) =~= seq![]);
            assert(rest + below(top.path@, top.depth as nat, all.skip(n as int), windows).reverse() =~= rest);
        }
        while n > 0
            invariant
                n <= listing.entries@.len(),
                all == listing.entries.deep_view(),
                self.found.deep_view() == had,
                self.pending.deep_view() == rest + below(
                    top.path@,
                    top.depth as nat,
                    all.skip(n as int),
                    windows,
                ).reverse(),
            decreases n,
        {
            let ghost before = self.pending.deep_view();
            let ghost tail = below(top.path@, top.depth as nat, all.skip(n as int), windows);
            n = n - 1;
            let e = &listing.entries[n];
            let name = e.name.as_str();
            proof {
                assert(all.skip(n as int)[0] == e.deep_view());
                assert(all.skip(n as int).drop_first() =~= all.skip(n + 1));
                assert(seq![] + tail =~= tail);
            }
            let hidden = name.unicode_len() > 0 && name.get_char(0) == '.';
            if !hidden && !e.is_symlink && e.is_dir && top.depth < MAX_DEPTH {
                let p = Pending {
                    path: paths::joined(top.path.as_str(), name, windows),
                    depth: top.depth + 1,
                };
                let ghost v = p.deep_view();
                self.pending.push(p);
                proof {
                    assert(self.pending.deep_view() =~= before.push(v));
                    assert((seq![v] + tail).reverse() =~= tail.reverse().push(v));
                    assert(rest + tail.reverse().push(v) =~= (rest + tail.reverse()).push(v));
                }
            }
        }
        proof {
            assert(all.skip(0) =~= all);
        }
    }
}

/// What a complete walk from a directory finds, in a file system in which each
/// directory holds what `fs` says: the directory itself where it is a worktree,
/// else what is found in the directories it holds, one after the other.
pub open spec fn walked(
    fs: spec_fn(Seq<char>) -> ListingView,
    dir: Seq<char>,
    depth: nat,
    windows: bool,
) -> Seq<Seq<char>>
    decreases 2 * (MAX_DEPTH - depth) + 1, 0nat,
{
    if depth > MAX_DEPTH {
        seq![]
    } else if marked(fs(dir)) {
        seq![dir]
    } else {
        walked_below(fs, dir, depth, fs(dir).entries, windows)
    }
}

/// What is found in the directories among `entries`.
pub open spec fn walked_below(
    fs: spec_fn(Seq<char>) -> ListingView,
    dir: Seq<char>,
    depth: nat,
    entries: Seq<DirEntryView>,
    windows: bool,
) -> Seq<Seq<char>>
    decreases 2 * (MAX_DEPTH - depth), entries.len(),
{
    if entries.len() == 0 || depth > MAX_DEPTH {
        seq![]
    } else {
        (if entered(entries[0]) && depth < MAX_DEPTH {
            walked(fs, paths::join(dir, entries[0].name, windows), depth + 1, windows)
        } else {
            seq![]
        }) + walked_below(fs, dir, depth, entries.drop_first(), windows)
    }
}

/// What is found in the pending directories, the last one first.
pub open spec fn walked_all(
    fs: spec_fn(Seq<char>) -> ListingView,
    pending: Seq<PendingView>,
    windows: bool,
) -> Seq<Seq<char>>
    decreases pending.len(),
{
    if pending.len() == 0 {
        seq![]
    } else {
        let top = pending.last();
        walked(fs, top.path, top.depth, windows) + walked_all(fs, pending.drop_last(), windows)
    }
}

/// A walk in which every directory is visited with what it holds finds, in the
/// end, what a complete walk finds: each visit leaves what was found together
/// with what is still to be found as it was. `pending` and `found` are those
/// before the visit, and the results those that the visit leaves.
pub proof fn visits_find_what_a_walk_finds(
    fs: spec_fn(Seq<char>) -> ListingView,
    pending: Seq<PendingView>,
    found: Seq<Seq<char>>,
    windows: bool,
)
    requires
        pending.len() > 0,
        pending.last().depth <= MAX_DEPTH,
    ensures
        ({
            let top = pending.last();
            let rest = pending.drop_last();
            let l = fs(top.path);
            let (pending2, found2) = if marked(l) {
                (rest, found.push(top.path))
            } else {
                (rest + below(top.path, top.depth, l.entries, windows).reverse(), found)
            };
            found2 + walked_all(fs, pending2, windows) == found + walked_all(fs, pending, windows)
        }),
{
    let top = pending.last();
    let rest = pending.drop_last();
    let l = fs(top.path);
    if marked(l) {
        assert(found.push(top.path) + walked_all(fs, rest, windows) =~= found + (seq![top.path]
            + walked_all(fs, rest, windows)));
    } else {
        below_is_walked(fs, rest, top.path, top.depth, l.entries, windows);
    }
}

proof fn below_is_walked(
    fs: spec_fn(Seq<char>) -> ListingView,
    rest: Seq<PendingView>,
    dir: Seq<char>,
    depth: nat,
    entries: Seq<DirEntryView>,
    windows: bool,
)
    requires
        depth <= MAX_DEPTH,
    ensures
        walked_all(fs, rest + below(dir, depth, entries, windows).reverse(), windows) == walked_below(
            fs,
            dir,
            depth,
            entries,
            windows,
        ) + walked_all(fs, rest, windows),
    decreases entries.len(),
{
    if entries.len() == 0 {
        assert(rest + below(dir, depth, entries, windows).reverse() =~= rest);
        assert(walked_below(fs, dir, depth, entries, windows) + walked_all(fs, rest, windows) =~= walked_all(
            fs,
            rest,
            windows,
        ));
    } else {
        let tail = entries.drop_first();
        let b = below(dir, depth, tail, windows);
        below_is_walked(fs, rest, dir, depth, tail, windows);
        if entered(entries[0]) && depth < MAX_DEPTH {
            let v = PendingView { path: paths::join(dir, entries[0].name, windows), depth: depth + 1 };
            let all = rest + below(dir, depth, entries, windows).reverse();
            assert(below(dir, depth, entries, windows) =~= seq![v] + b);
            assert(all =~= (rest + b.reverse()).push(v));
            assert(all.drop_last() =~= rest + b.reverse());
            assert(walked_all(fs, all, windows) =~= walked_below(fs, dir, depth, entries, windows) + walked_all(
                fs,
                rest,
                windows,
            ));
        } else {
            assert(below(dir, depth, entries, windows) =~= b);
            assert(walked_below(fs, dir, depth, entries, windows) =~= walked_below(fs, dir, depth, tail, windows));
        }
    }
}

/// A walk never has a directory pending that is deeper than it goes.
pub proof fn pending_stays_shallow(dir: Seq<char>, depth: nat, entries: Seq<DirEntryView>, windows: bool)
    ensures
        forall|i: int|
            0 <= i < below(dir, depth, entries, windows).len() ==> (#[trigger] below(
                dir,
                depth,
                entries,
                windows,
            )[i]).depth <= MAX_DEPTH,
    decreases entries.len(),
{
    if entries.len() > 0 {
        pending_stays_shallow(dir, depth, entries.drop_first(), windows);
        let tail = below(dir, depth, entries.drop_first(), windows);
        let b = below(dir, depth, entries, windows);
        assert forall|i: int| 0 <= i < b.len() implies (#[trigger] b[i]).depth <= MAX_DEPTH by {
            if entered(entries[0]) && depth < MAX_DEPTH {
                if i > 0 {
                    assert(b[i] == tail[i - 1]);
                }
            } else {
                assert(b =~= tail);
            }
        }
    }
}

/// `b` is what a visit with what the directory holds makes of `a`: the pending
/// directories, and the worktrees found.
pub open spec fn visited(
    fs: spec_fn(Seq<char>) -> ListingView,
    a: (Seq<PendingView>, Seq<Seq<char>>),
    b: (Seq<PendingView>, Seq<Seq<char>>),
    windows: bool,
) -> bool {
    let top = a.0.last();
    let rest = a.0.drop_last();
    let l = fs(top.path);
    &&& a.0.len() > 0
    &&& if marked(l) {
        b == (rest, a.1.push(top.path))
    } else {
        b == (rest + below(top.path, top.depth, l.entries, windows).reverse(), a.1)
    }
}

/// No pending directory is deeper than the walk goes.
pub open spec fn shallow(pending: Seq<PendingView>) -> bool {
    forall|i: int| 0 <= i < pending.len() ==> (#[trigger] pending[i]).depth <= MAX_DEPTH
}

/// A walk that visits every pending directory with what it holds, until none is
/// left, has found what a complete walk finds, in the same order. `trace` holds
/// what was pending and what was found before the first visit and after each.
pub proof fn finished_walk_found_all(
    fs: spec_fn(Seq<char>) -> ListingView,
    root: Seq<char>,
    trace: Seq<(Seq<PendingView>, Seq<Seq<char>>)>,
    windows: bool,
)
    requires
        trace.len() > 0,
        trace[0] == (seq![PendingView { path: root, depth: 0 }], Seq::<Seq<char>>::empty()),
        forall|i: int| 0 <= i < trace.len() - 1 ==> visited(fs, #[trigger] trace[i], trace[i + 1], windows),
        trace.last().0.len() == 0,
    ensures
        trace.last().1 == walked(fs, root, 0, windows),
{
    let start = seq![PendingView { path: root, depth: 0 }];
    assert(start.drop_last() =~= Seq::<PendingView>::empty());
    assert(walked_all(fs, start.drop_last(), windows) =~= Seq::<Seq<char>>::empty());
    assert(start.last() == PendingView { path: root, depth: 0 });
    assert(walked_all(fs, start, windows) =~= walked(fs, root, 0, windows) + Seq::<Seq<char>>::empty());
    assert(walked_all(fs, start, windows) =~= walked(fs, root, 0, windows));
    assert(Seq::<Seq<char>>::empty() + walked_all(fs, start, windows) =~= walked_all(fs, start, windows));
    trace_keeps_the_sum(fs, trace, trace.len() - 1, windows);
    let end = trace.last();
    assert(end.1 + walked_all(fs, end.0, windows) =~= end.1);
}

proof fn trace_keeps_the_sum(
    fs: spec_fn(Seq<char>) -> ListingView,
    trace: Seq<(Seq<PendingView>, Seq<Seq<char>>)>,
    n: int,
    windows: bool,
)
    requires
        0 <= n < trace.len(),
        shallow(trace[0].0),
        forall|i: int| 0 <= i < trace.len() - 1 ==> visited(fs, #[trigger] trace[i], trace[i + 1], windows),
    ensures
        shallow(trace[n].0),
        trace[n].1 + walked_all(fs, trace[n].0, windows) == trace[0].1 + walked_all(fs, trace[0].0, windows),
    decreases n,
{
    if n > 0 {
        trace_keeps_the_sum(fs, trace, n - 1, windows);
        let a = trace[n - 1];
        let b = trace[n];
        assert(visited(fs, trace[n - 1], trace[n - 1 + 1], windows));
        let top = a.0.last();
        let l = fs(top.path);
        assert(a.0[a.0.len() - 1].depth <= MAX_DEPTH);
        visits_find_what_a_walk_finds(fs, a.0, a.1, windows);
        pending_stays_shallow(top.path, top.depth, l.entries, windows);
        let more = below(top.path, top.depth, l.entries, windows);
        assert forall|i: int| 0 <= i < b.0.len() implies (#[trigger] b.0[i]).depth <= MAX_DEPTH by {
            if i < a.0.len() - 1 {
                assert(b.0[i] == a.0[i]);
            } else {
                assert(b.0[i] == more[more.len() - 1 - (i - (a.0.len() - 1))]);
            }
        }
    }
}

/// What marks a worktree's store: the marker's own directory, or a file that
/// points elsewhere.
#[derive(Debug, PartialEq, Eq)]
pub enum Marker {
    /// There is none, or it cannot be read.
    Absent,
    /// A directory.
    Dir,
    /// A file, with what it holds.
    File(String),
}

/// What a [`Marker`] stands for.
pub enum MarkerView {
    Absent,
    Dir,
    File(Seq<char>),
}

impl DeepView for Marker {
    type V = MarkerView;

    open spec fn deep_view(&self) -> MarkerView {
        match self {
            Marker::Absent => MarkerView::Absent,
            Marker::Dir => MarkerView::Dir,
            Marker::File(s) => MarkerView::File(s@),
        }
    }
}

/// Where `.jj/repo` is in a workspace.
pub open spec fn jj_marker(workspace: Seq<char>, windows: bool) -> Seq<char> {
    paths::join(paths::join(workspace, ".jj"@, windows), "repo"@, windows)
}

/// The store of a jj workspace: `.jj/repo` itself, or what the file there points
/// to, taken from the directory of that file.
pub open spec fn jj_store(workspace: Seq<char>, m: MarkerView, windows: bool) -> Option<Seq<char>> {
    match m {
        MarkerView::Absent => None,
        MarkerView::Dir => Some(jj_marker(workspace, windows)),
        MarkerView::File(contents) => {
            let pointer = text::trim(contents);
            if pointer.len() == 0 {
                None
            } else if paths::is_absolute(pointer, windows) {
                Some(pointer)
            } else {
                match paths::parent(jj_marker(workspace, windows), windows) {
                    Some(dir) => Some(paths::join(dir, pointer, windows)),
                    None => None,
                }
            }
        },
    }
}

/// Finds the store of a jj workspace, given what is at `.jj/repo`.
pub fn resolve_jj_repo(workspace: &str, m: &Marker, windows: bool) -> (r: Option<String>)
    ensures
        r.deep_view() == jj_store(workspace@, m.deep_view(), windows),
{
    let dir = paths::joined(workspace, ".jj", windows);
    let marker = paths::joined(dir.as_str(), "repo", windows);
    match m {
        Marker::Absent => None,
        Marker::Dir => Some(marker),
        Marker::File(contents) => {
            let pointer = strings::trim(contents.as_str());
            if pointer.unicode_len() == 0 {
                None
            } else if paths::absolute(pointer, windows) {
                Some(pointer.to_string())
            } else {
                match paths::parent_of(marker.as_str(), windows) {
                    Some(dir) => Some(paths::joined(dir.as_str(), pointer, windows)),
                    None => None,
                }
            }
        },
    }
}

/// What the first line of a `.git` file points to.
pub open spec fn gitdir_in(contents: Seq<char>) -> Option<Seq<char>> {
    let lines = text::lines(contents);
    if lines.len() == 0 {
        None
    } else {
        let pointer = if "gitdir:"@.is_prefix_of(lines[0]) {
            text::trim(lines[0].skip("gitdir:"@.len() as int))
        } else {
            lines[0]
        };
        if pointer.len() == 0 {
            None
        } else {
            Some(pointer)
        }
    }
}

/// Two directories up from `p`; `p` where there are not that many.
pub open spec fn two_up(p: Seq<char>, windows: bool) -> Seq<char> {
    match paths::parent(p, windows) {
        Some(q) => match paths::parent(q, windows) {
            Some(r) => r,
            None => p,
        },
        None => p,
    }
}

/// The shared store of a git worktree: `.git` itself, or two directories up from
/// what the file there points to, taken from the worktree.
pub open spec fn git_store(worktree: Seq<char>, m: MarkerView, windows: bool) -> Option<Seq<char>> {
    match m {
        MarkerView::Absent => None,
        MarkerView::Dir => Some(paths::join(worktree, ".git"@, windows)),
        MarkerView::File(contents) => match gitdir_in(contents) {
            Some(pointer) => Some(two_up(paths::join(worktree, pointer, windows), windows)),
            None => None,
        },
    }
}

/// Finds the shared store of a git worktree, given what is at `.git`.
pub fn resolve_git_common_dir(worktree: &str, m: &Marker, windows: bool) -> (r: Option<String>)
    ensures
        r.deep_view() == git_store(worktree@, m.deep_view(), windows),
{
    let contents = match m {
        Marker::Absent => return None,
        Marker::Dir => return Some(paths::joined(worktree, ".git", windows)),
        Marker::File(contents) => contents,
    };
    let lines = strings::lines(contents.as_str());
    proof {
        assert(lines.deep_view().len() == lines@.len());
    }
    if lines.len() == 0 {
        return None;
    }
    let line = lines[0].as_str();
    proof {
        assert(lines.deep_view()[0] == line@);
    }
    let pointer = match strings::strip_prefix(line, "gitdir:") {
        Some(rest) => strings::trim(rest),
        None => line,
    };
    if pointer.unicode_len() == 0 {
        return None;
    }
    let gitdir = paths::joined(worktree, pointer, windows);
    match paths::parent_of(gitdir.as_str(), windows) {
        Some(q) => match paths::parent_of(q.as_str(), windows) {
            Some(common) => Some(common),
            None => Some(gitdir),
        },
        None => Some(gitdir),
    }
}

/// The path's last component is `name`.
pub open spec fn is_called(p: Seq<char>, name: Seq<char>, windows: bool) -> bool {
    paths::file_name(p, windows) == Some(name)
}

/// The directory two up from `p`, where `p` stands in one called `above`.
pub open spec fn root_above(p: Seq<char>, above: Seq<char>, windows: bool) -> Option<Seq<char>> {
    match paths::parent(p, windows) {
        Some(q) => if is_called(q, above, windows) {
            paths::parent(q, windows)
        } else {
            None
        },
        None => None,
    }
}

/// The repository that a store belongs to: `<root>/.git/worktrees/<name>`,
/// `<root>/.jj/repo` and `<root>/.git` belong to `<root>`. Any other store stands
/// for itself.
pub open spec fn repo_root(store: Seq<char>, windows: bool) -> Seq<char> {
    let secondary = match paths::parent(store, windows) {
        Some(p) => if is_called(p, "worktrees"@, windows) {
            root_above(p, ".git"@, windows)
        } else {
            None
        },
        None => None,
    };
    if secondary is Some {
        secondary->0
    } else if is_called(store, "repo"@, windows) && root_above(store, ".jj"@, windows) is Some {
        root_above(store, ".jj"@, windows)->0
    } else if is_called(store, ".git"@, windows) && paths::parent(store, windows) is Some {
        paths::parent(store, windows)->0
    } else {
        store
    }
}

/// Whether the path's last component is `name`.
fn called(p: &str, name: &str, windows: bool) -> (r: bool)
    ensures
        r == is_called(p@, name@, windows),
{
    match paths::base_name(p, windows) {
        Some(n) => strings::same(n.as_str(), name),
        None => false,
    }
}

/// The directory two up from `p`, where `p` stands in one called `above`.
fn find_root_above(p: &str, above: &str, windows: bool) -> (r: Option<String>)
    ensures
        r.deep_view() == root_above(p@, above@, windows),
{
    match paths::parent_of(p, windows) {
        Some(q) => if called(q.as_str(), above, windows) {
            paths::parent_of(q.as_str(), windows)
        } else {
            None
        },
        None => None,
    }
}

/// Finds the repository that a store belongs to.
pub fn normalize_to_repo_root(store: &str, windows: bool) -> (r: String)
    ensures
        r@ == repo_root(store@, windows),
{
    if let Some(p) = paths::parent_of(store, windows) {
        if called(p.as_str(), "worktrees", windows) {
            if let Some(root) = find_root_above(p.as_str(), ".git", windows) {
                return root;
            }
        }
    }
    if called(store, "repo", windows) {
        if let Some(root) = find_root_above(store, ".jj", windows) {
            return root;
        }
    }
    if called(store, ".git", windows) {
        if let Some(root) = paths::parent_of(store, windows) {
            return root;
        }
    }
    store.to_string()
}

/// What identifies the repository of a worktree, before links are resolved: the
/// repository of its jj store, or else of its git store. None where there is
/// neither.
pub open spec fn identity(
    worktree: Seq<char>,
    has_jj: bool,
    jj: MarkerView,
    git: MarkerView,
    windows: bool,
) -> Option<Seq<char>> {
    if has_jj && jj_store(worktree, jj, windows) is Some {
        Some(repo_root(jj_store(worktree, jj, windows)->0, windows))
    } else {
        match git_store(worktree, git, windows) {
            Some(store) => Some(repo_root(store, windows)),
            None => None,
        }
    }
}

/// Finds what identifies the repository of a worktree, before links are
/// resolved. `has_jj` says that it has a directory `.jj`.
pub fn repo_identity(
    worktree: &str,
    has_jj: bool,
    jj: &Marker,
    git: &Marker,
    windows: bool,
) -> (r: Option<String>)
    ensures
        r.deep_view() == identity(worktree@, has_jj, jj.deep_view(), git.deep_view(), windows),
{
    if has_jj {
        if let Some(store) = resolve_jj_repo(worktree, jj, windows) {
            return Some(normalize_to_repo_root(store.as_str(), windows));
        }
    }
    match resolve_git_common_dir(worktree, git, windows) {
        Some(store) => Some(normalize_to_repo_root(store.as_str(), windows)),
        None => None,
    }
}

/// The path with its links resolved, or as it is where that fails.
pub fn canonical(p: &str, resolved: Option<&str>) -> (r: String)
    ensures
        r@ == match resolved {
            Some(q) => q@,
            None => p@,
        },
{
    match resolved {
        Some(q) => q.to_string(),
        None => p.to_string(),
    }
}

/// Every kind of store of one repository leads back to the repository: its own
/// git store, its own jj store, and the git directory of a second worktree,
/// whose shared store is found as well. Only a repository that is called
/// `worktrees` and stands in a `.git` is left out, since its git store is taken
/// for a worktree's.
pub proof fn stores_lead_to_their_repo(root: Seq<char>, name: Seq<char>, windows: bool)
    requires
        joining::is_tidy(root, windows),
        joining::is_settled(root, windows),
        joining::is_plain_name(name, windows),
        !(is_called(root, "worktrees"@, windows) && root_above(root, ".git"@, windows) is Some),
    ensures
        ({
            let git = paths::join(root, ".git"@, windows);
            let jj = paths::join(paths::join(root, ".jj"@, windows), "repo"@, windows);
            let second = paths::join(paths::join(git, "worktrees"@, windows), name, windows);
            &&& repo_root(git, windows) == root
            &&& repo_root(jj, windows) == root
            &&& repo_root(second, windows) == root
            &&& two_up(second, windows) == git
        }),
{
    store_names_are_plain(windows);
    let git = paths::join(root, ".git"@, windows);
    let dir = paths::join(root, ".jj"@, windows);
    let jj = paths::join(dir, "repo"@, windows);
    let all = paths::join(git, "worktrees"@, windows);
    let second = paths::join(all, name, windows);
    joining::joining_is_undone(root, ".git"@, windows);
    joining::joining_is_undone(root, ".jj"@, windows);
    joining::joining_is_undone(dir, "repo"@, windows);
    joining::joining_is_undone(git, "worktrees"@, windows);
    joining::joining_is_undone(all, name, windows);
    git_store_leads(root, git, windows);
    jj_store_leads(root, dir, jj, windows);
    second_store_leads(root, git, all, second, windows);
}

proof fn store_names_are_plain(windows: bool)
    ensures
        joining::is_plain_name(".git"@, windows),
        joining::is_plain_name(".jj"@, windows),
        joining::is_plain_name("repo"@, windows),
        joining::is_plain_name("worktrees"@, windows),
{
    reveal_strlit(".git");
    reveal_strlit(".jj");
    reveal_strlit("repo");
    reveal_strlit("worktrees");
    assert(".git"@ =~= seq!['.', 'g', 'i', 't']);
    assert(".jj"@ =~= seq!['.', 'j', 'j']);
    assert("repo"@ =~= seq!['r', 'e', 'p', 'o']);
    assert("worktrees"@ =~= seq!['w', 'o', 'r', 'k', 't', 'r', 'e', 'e', 's']);
    assert(seq!['.'].len() == 1 && seq!['.', '.'].len() == 2);
}

proof fn git_store_leads(root: Seq<char>, git: Seq<char>, windows: bool)
    requires
        paths::parent(git, windows) == Some(root),
        is_called(git, ".git"@, windows),
        !(is_called(root, "worktrees"@, windows) && root_above(root, ".git"@, windows) is Some),
    ensures
        repo_root(git, windows) == root,
{
    reveal_strlit(".git");
    reveal_strlit("repo");
    assert(".git"@[1] == 'g' && "repo"@[1] == 'e');
}

proof fn jj_store_leads(root: Seq<char>, dir: Seq<char>, jj: Seq<char>, windows: bool)
    requires
        paths::parent(dir, windows) == Some(root),
        paths::parent(jj, windows) == Some(dir),
        is_called(dir, ".jj"@, windows),
        is_called(jj, "repo"@, windows),
    ensures
        repo_root(jj, windows) == root,
{
    reveal_strlit(".jj");
    reveal_strlit("worktrees");
    assert(".jj"@.len() != "worktrees"@.len());
}

proof fn second_store_leads(
    root: Seq<char>,
    git: Seq<char>,
    all: Seq<char>,
    second: Seq<char>,
    windows: bool,
)
    requires
        paths::parent(git, windows) == Some(root),
        paths::parent(all, windows) == Some(git),
        paths::parent(second, windows) == Some(all),
        is_called(git, ".git"@, windows),
        is_called(all, "worktrees"@, windows),
    ensures
        repo_root(second, windows) == root,
        two_up(second, windows) == git,
{
}

/// A worktree that was found, and what identifies its repository, if anything
/// does.
#[derive(Debug, PartialEq, Eq)]
pub struct Located {
    pub path: String,
    pub identity: Option<String>,
}

/// What a [`Located`] stands for.
pub struct LocatedView {
    pub path: Seq<char>,
    pub identity: Option<Seq<char>>,
}

impl DeepView for Located {
    type V = LocatedView;

    open spec fn deep_view(&self) -> LocatedView {
        LocatedView { path: self.path@, identity: self.identity.deep_view() }
    }
}

/// What a worktree is grouped by: its repository, or itself where that is not
/// known.
pub open spec fn key(w: LocatedView) -> Seq<char> {
    match w.identity {
        Some(k) => k,
        None => w.path,
    }
}

/// The worktrees with this key, in the order they were found.
pub open spec fn members(found: Seq<LocatedView>, k: Seq<char>) -> Seq<Seq<char>>
    decreases found.len(),
{
    if found.len() == 0 {
        seq![]
    } else if key(found.last()) == k {
        members(found.drop_last(), k).push(found.last().path)
    } else {
        members(found.drop_last(), k)
    }
}

/// The components of `p` below `root`, or all of them where it is not below it.
pub open spec fn parts_below(root: Seq<char>, p: Seq<char>, windows: bool) -> Seq<Seq<char>> {
    let t = paths::texts(p, windows);
    let r = paths::components(root, windows);
    if r.is_prefix_of(paths::components(p, windows)) {
        t.skip(r.len() as int)
    } else {
        t
    }
}

/// What a project is picked by: the path of its first worktree below `root`,
/// without the last component, unless that is all there is.
pub open spec fn label(root: Seq<char>, first: Seq<char>, windows: bool) -> Seq<char> {
    let parts = parts_below(root, first, windows);
    if parts.len() == 0 {
        match paths::file_name(first, windows) {
            Some(n) => n,
            None => "(unknown)"@,
        }
    } else if parts.len() == 1 {
        parts[0]
    } else {
        text::join(parts.drop_last(), "/"@)
    }
}

/// What a project is picked by, given its worktrees.
pub fn derive_label(root: &str, worktrees: &Vec<String>, windows: bool) -> (r: String)
    requires
        worktrees@.len() > 0,
    ensures
        r@ == label(root@, worktrees@[0]@, windows),
{
    let first = worktrees[0].as_str();
    let t = paths::split(first, windows);
    let b = paths::split(root, windows);
    let c = paths::split_texts(first, windows);
    let ghost tv = t.deep_view();
    let ghost bv = b.deep_view();
    let ghost cv = c.deep_view();
    let mut n: usize = 0;
    while n < b.len() && n < t.len() && paths::same_component(&b[n], &t[n])
        invariant
            n <= b@.len(),
            n <= t@.len(),
            bv == b.deep_view(),
            tv == t.deep_view(),
            forall|i: int| 0 <= i < n ==> bv[i] == tv[i],
        decreases b@.len() - n,
    {
        proof {
            assert(bv[n as int] == b@[n as int].deep_view());
            assert(tv[n as int] == t@[n as int].deep_view());
        }
        n = n + 1;
    }
    let from: usize = if n == b.len() {
        n
    } else {
        0
    };
    proof {
        if n == b@.len() {
            assert(tv.take(n as int) =~= bv);
        } else if bv.is_prefix_of(tv) {
            assert(tv.take(bv.len() as int)[n as int] == bv[n as int]);
            assert(bv[n as int] == b@[n as int].deep_view());
            assert(tv[n as int] == t@[n as int].deep_view());
        }
        assert(cv.len() == tv.len());
        assert(cv.skip(0) =~= cv);
        assert(parts_below(root@, first@, windows) == cv.skip(from as int));
    }
    let left: usize = c.len() - from;
    if left == 0 {
        return match paths::base_name(first, windows) {
            Some(n) => n,
            None => "(unknown)".to_string(),
        };
    }
    if left == 1 {
        proof {
            assert(cv.skip(from as int)[0] == c@[from as int]@);
        }
        return c[from].clone();
    }
    let mut parts: Vec<String> = Vec::new();
    let mut i: usize = from;
    while i < c.len() - 1
        invariant
            from <= i < c@.len(),
            cv == c.deep_view(),
            parts.deep_view() == cv.subrange(from as int, i as int),
        decreases c@.len() - i,
    {
        let ghost before = parts.deep_view();
        parts.push(c[i].clone());
        proof {
            assert(parts.deep_view() =~= before.push(c@[i as int]@));
            assert(parts.deep_view() =~= cv.subrange(from as int, i + 1));
        }
        i = i + 1;
    }
    proof {
        assert(parts.deep_view() =~= cv.skip(from as int).drop_last());
    }
    strings::join(&parts, "/")
}

/// `p` is the project of the worktrees with the key `k`: all of them, in order.
pub open spec fn is_group(
    root: Seq<char>,
    found: Seq<LocatedView>,
    k: Seq<char>,
    p: ProjectView,
    windows: bool,
) -> bool {
    &&& p.worktrees.len() > 0
    &&& p.worktrees.to_multiset() == members(found, k).to_multiset()
    &&& order::paths_sorted(p.worktrees, windows)
    &&& p.label == label(root, p.worktrees[0], windows)
}

/// Projects are ordered by their labels, and those with the same label by their
/// keys.
pub open spec fn group_before(a: Seq<char>, ka: Seq<char>, b: Seq<char>, kb: Seq<char>) -> bool {
    order::before(a, b) || a == b && order::before(ka, kb)
}

/// The projects, whose keys are `ks`, are in order.
pub open spec fn groups_sorted(ks: Seq<Seq<char>>, ps: Seq<ProjectView>) -> bool {
    forall|i: int, j: int|
        0 <= i < j < ps.len() ==> group_before(
            (#[trigger] ps[i]).label,
            ks[i],
            (#[trigger] ps[j]).label,
            ks[j],
        )
}

/// Each key is that of some worktree.
pub open spec fn keys_used(found: Seq<LocatedView>, ks: Seq<Seq<char>>) -> bool {
    forall|j: int|
        0 <= j < ks.len() ==> exists|i: int|
            0 <= i < found.len() && key(#[trigger] found[i]) == #[trigger] ks[j]
}

/// The projects, whose keys are `ks`, are the worktrees found, grouped: one
/// project for each key, and in order.
pub open spec fn grouped(
    root: Seq<char>,
    found: Seq<LocatedView>,
    ks: Seq<Seq<char>>,
    ps: Seq<ProjectView>,
    windows: bool,
) -> bool {
    &&& ks.len() == ps.len()
    &&& ks.no_duplicates()
    &&& keys_used(found, ks)
    &&& forall|i: int| 0 <= i < found.len() ==> ks.contains(key(#[trigger] found[i]))
    &&& forall|j: int| 0 <= j < ps.len() ==> is_group(root, found, ks[j], #[trigger] ps[j], windows)
    &&& groups_sorted(ks, ps)
}

proof fn group_order(
    a: Seq<char>,
    ka: Seq<char>,
    b: Seq<char>,
    kb: Seq<char>,
    c: Seq<char>,
    kc: Seq<char>,
)
    ensures
        ka != kb ==> group_before(a, ka, b, kb) || group_before(b, kb, a, ka),
        group_before(a, ka, b, kb) && group_before(b, kb, c, kc) ==> group_before(a, ka, c, kc),
{
    order::texts_are_ordered(a, b);
    order::texts_are_ordered(ka, kb);
    if group_before(a, ka, b, kb) && group_before(b, kb, c, kc) {
        if order::before(a, b) && order::before(b, c) {
            order::text_order_is_transitive(a, b, c);
        } else if a == b && b == c {
            order::text_order_is_transitive(ka, kb, kc);
        }
    }
}

/// What a worktree is grouped by.
fn key_of(w: &Located) -> (r: &str)
    ensures
        r@ == key(w.deep_view()),
{
    match &w.identity {
        Some(k) => k.as_str(),
        None => w.path.as_str(),
    }
}

/// Whether `k` is among `ks`.
fn among(ks: &Vec<String>, k: &str) -> (r: bool)
    ensures
        r == ks.deep_view().contains(k@),
{
    let mut i: usize = 0;
    while i < ks.len()
        invariant
            i <= ks@.len(),
            forall|j: int| 0 <= j < i ==> ks.deep_view()[j] != k@,
        decreases ks@.len() - i,
    {
        if strings::same(ks[i].as_str(), k) {
            proof {
                assert(ks.deep_view()[i as int] == k@);
            }
            return true;
        }
        i = i + 1;
    }
    false
}

/// The project of the worktrees with the key `k`.
fn gather(root: &str, found: &Vec<Located>, k: &str, windows: bool) -> (r: Project)
    requires
        exists|i: int| 0 <= i < found@.len() && key(found.deep_view()[i]) == k@,
    ensures
        is_group(root@, found.deep_view(), k@, r.deep_view(), windows),
        r.valid(),
{
    let ghost all = found.deep_view();
    let mut paths: Vec<String> = Vec::new();
    let mut i: usize = 0;
    proof {
        assert(paths.deep_view() =~= members(all.take(0), k@));
    }
    while i < found.len()
        invariant
            i <= found@.len(),
            all == found.deep_view(),
            paths.deep_view() == members(all.take(i as int), k@),
        decreases found@.len() - i,
    {
        let w = &found[i];
        let ghost before = paths.deep_view();
        proof {
            assert(all.take(i + 1).drop_last() =~= all.take(i as int));
            assert(all.take(i + 1).last() == w.deep_view());
        }
        if strings::same(key_of(w), k) {
            paths.push(w.path.clone());
            proof {
                assert(paths.deep_view() =~= before.push(w.path@));
            }
        }
        i = i + 1;
    }
    let worktrees = order::sort_paths(&paths, windows);
    proof {
        assert(all.take(i as int) =~= all);
        members_of_a_key(all, k@);
        assert(worktrees@.len() == paths.deep_view().len());
    }
    let label = derive_label(root, &worktrees, windows);
    let p = Project { label, worktrees };
    proof {
        assert(p.deep_view().worktrees[0] == p.worktrees@[0]@);
    }
    p
}

/// A key that some worktree has has members.
proof fn members_of_a_key(found: Seq<LocatedView>, k: Seq<char>)
    requires
        exists|i: int| 0 <= i < found.len() && key(found[i]) == k,
    ensures
        members(found, k).len() > 0,
    decreases found.len(),
{
    if key(found.last()) != k {
        let i = choose|i: int| 0 <= i < found.len() && key(found[i]) == k;
        assert(key(found.drop_last()[i]) == k);
        members_of_a_key(found.drop_last(), k);
    }
}

/// Puts a project in its place among ordered ones.
fn insert_group(ks: &mut Vec<String>, ps: &mut Vec<Project>, k: String, p: Project)
    requires
        old(ks)@.len() == old(ps)@.len(),
        groups_sorted(old(ks).deep_view(), old(ps).deep_view()),
        !old(ks).deep_view().contains(k@),
    ensures
        groups_sorted(final(ks).deep_view(), final(ps).deep_view()),
        exists|n: int|
            0 <= n <= old(ks)@.len() && final(ks).deep_view() == #[trigger] old(
                ks,
            ).deep_view().insert(n, k@) && final(ps).deep_view() == old(ps).deep_view().insert(
                n,
                p.deep_view(),
            ),
{
    let ghost kv = ks.deep_view();
    let ghost pv = ps.deep_view();
    let ghost kk = k@;
    let ghost pp = p.deep_view();
    let mut n: usize = ps.len();
    while n > 0 && !(order::is_before(ps[n - 1].label.as_str(), p.label.as_str()) || (strings::same(
        ps[n - 1].label.as_str(),
        p.label.as_str(),
    ) && order::is_before(ks[n - 1].as_str(), k.as_str())))
        invariant
            n <= ps@.len(),
            ks@.len() == ps@.len(),
            kv == ks.deep_view(),
            pv == ps.deep_view(),
            kk == k@,
            pp == p.deep_view(),
            !kv.contains(kk),
            groups_sorted(kv, pv),
            forall|j: int|
                n <= j < ps@.len() ==> group_before(pp.label, kk, (#[trigger] pv[j]).label, kv[j]),
        decreases n,
    {
        proof {
            let j = n - 1;
            assert(pv[j] == ps@[j].deep_view() && kv[j] == ks@[j]@);
            assert(kv.contains(kv[j]));
            group_order(pp.label, kk, pv[j].label, kv[j], pp.label, kk);
        }
        n = n - 1;
    }
    proof {
        if n > 0 {
            assert(pv[n - 1] == ps@[n - 1].deep_view() && kv[n - 1] == ks@[n - 1]@);
        }
        assert forall|i: int| 0 <= i < n implies group_before(
            (#[trigger] pv[i]).label,
            kv[i],
            pp.label,
            kk,
        ) by {
            if i < n - 1 {
                group_order(
                    pv[i].label,
                    kv[i],
                    pv[n - 1].label,
                    kv[n - 1],
                    pp.label,
                    kk,
                );
            }
        }
    }
    ks.insert(n, k);
    ps.insert(n, p);
    proof {
        let kt = ks.deep_view();
        let pt = ps.deep_view();
        assert(kt =~= kv.insert(n as int, kk));
        assert(pt =~= pv.insert(n as int, pp));
        assert forall|i: int, j: int| 0 <= i < j < pt.len() implies group_before(
            (#[trigger] pt[i]).label,
            kt[i],
            (#[trigger] pt[j]).label,
            kt[j],
        ) by {
            let a = if i < n {
                i
            } else {
                i - 1
            };
            let b = if j < n {
                j
            } else {
                j - 1
            };
            if i != n {
                assert(pt[i] == pv[a] && kt[i] == kv[a]);
            }
            if j != n {
                assert(pt[j] == pv[b] && kt[j] == kv[b]);
            }
        }
    }
}

/// Groups the worktrees found under `root` into projects, in order. There are
/// none where `root` is no directory.
pub fn scan(root: &str, root_is_dir: bool, found: &Vec<Located>, windows: bool) -> (r: Vec<Project>)
    ensures
        forall|i: int| 0 <= i < r@.len() ==> (#[trigger] r@[i]).valid(),
        if root_is_dir {
            exists|ks: Seq<Seq<char>>| #[trigger]
                grouped(root@, found.deep_view(), ks, r.deep_view(), windows)
        } else {
            r@.len() == 0
        },
{
    let mut ks: Vec<String> = Vec::new();
    let mut ps: Vec<Project> = Vec::new();
    if !root_is_dir {
        return ps;
    }
    let ghost all = found.deep_view();
    let mut i: usize = 0;
    while i < found.len()
        invariant
            i <= found@.len(),
            all == found.deep_view(),
            ks@.len() == ps@.len(),
            ks.deep_view().no_duplicates(),
            keys_used(all, ks.deep_view()),
            forall|j: int| 0 <= j < i ==> ks.deep_view().contains(key(#[trigger] all[j])),
            forall|j: int|
                0 <= j < ps@.len() ==> is_group(
                    root@,
                    all,
                    ks.deep_view()[j],
                    #[trigger] ps.deep_view()[j],
                    windows,
                ),
            groups_sorted(ks.deep_view(), ps.deep_view()),
            forall|j: int| 0 <= j < ps@.len() ==> (#[trigger] ps@[j]).valid(),
        decreases found@.len() - i,
    {
        let k = key_of(&found[i]);
        proof {
            assert(key(all[i as int]) == k@);
        }
        if !among(&ks, k) {
            let p = gather(root, found, k, windows);
            let ghost kv = ks.deep_view();
            let ghost pv = ps.deep_view();
            let ghost pp = p.deep_view();
            insert_group(&mut ks, &mut ps, k.to_string(), p);
            proof {
                let kt = ks.deep_view();
                let pt = ps.deep_view();
                let n = choose|n: int|
                    0 <= n <= kv.len() && kt == #[trigger] kv.insert(n, k@) && pt == pv.insert(
                        n,
                        pp,
                    );
                assert(kt[n] == k@);
                assert forall|a: int, b: int| 0 <= a < b < kt.len() implies kt[a] != kt[b] by {
                    let x = if a < n {
                        a
                    } else {
                        a - 1
                    };
                    let y = if b < n {
                        b
                    } else {
                        b - 1
                    };
                    if a != n {
                        assert(kt[a] == kv[x]);
                        assert(kv.contains(kv[x]));
                    }
                    if b != n {
                        assert(kt[b] == kv[y]);
                        assert(kv.contains(kv[y]));
                    }
                }
                assert forall|j: int| 0 <= j < kt.len() implies exists|m: int|
                    0 <= m < all.len() && key(#[trigger] all[m]) == #[trigger] kt[j] by {
                    if j == n {
                        assert(key(all[i as int]) == kt[j]);
                    } else {
                        let x = if j < n {
                            j
                        } else {
                            j - 1
                        };
                        assert(kt[j] == kv[x]);
                    }
                }
                assert forall|j: int| 0 <= j <= i implies kt.contains(key(#[trigger] all[j])) by {
                    if j < i {
                        let x = choose|x: int| 0 <= x < kv.len() && kv[x] == key(all[j]);
                        if x < n {
                            assert(kt[x] == kv[x]);
                        } else {
                            assert(kt[x + 1] == kv[x]);
                        }
                    }
                }
                assert forall|j: int| 0 <= j < pt.len() implies is_group(
                    root@,
                    all,
                    kt[j],
                    #[trigger] pt[j],
                    windows,
                ) by {
                    if j != n {
                        let x = if j < n {
                            j
                        } else {
                            j - 1
                        };
                        assert(kt[j] == kv[x] && pt[j] == pv[x]);
                    }
                }
                assert forall|j: int| 0 <= j < ps@.len() implies (#[trigger] ps@[j]).valid() by {
                    assert(is_group(root@, all, kt[j], pt[j], windows));
                    assert(pt[j].worktrees.len() == ps@[j].worktrees@.len());
                }
            }
        }
        i = i + 1;
    }
    proof {
        assert(grouped(root@, all, ks.deep_view(), ps.deep_view(), windows));
    }
    ps
}

/// Where no worktree was found twice, each is listed in the project of its
/// repository, and in no other; so two of them share a project if and only if
/// they share a repository.
pub proof fn projects_follow_repositories(
    root: Seq<char>,
    found: Seq<LocatedView>,
    ks: Seq<Seq<char>>,
    ps: Seq<ProjectView>,
    windows: bool,
    i: int,
)
    requires
        grouped(root, found, ks, ps, windows),
        0 <= i < found.len(),
        forall|a: int, b: int|
            0 <= a < b < found.len() ==> (#[trigger] found[a]).path != (#[trigger] found[b]).path,
    ensures
        exists|j: int| 0 <= j < ps.len() && #[trigger] ks[j] == key(found[i]),
        forall|j: int|
            0 <= j < ps.len() ==> (#[trigger] ps[j]).worktrees.contains(found[i].path) == (ks[j]
                == key(found[i])),
{
    let path = found[i].path;
    assert(ks.contains(key(found[i])));
    let at = choose|j: int| 0 <= j < ks.len() && ks[j] == key(found[i]);
    assert(ks[at] == key(found[i]));
    assert forall|j: int| 0 <= j < ps.len() implies (#[trigger] ps[j]).worktrees.contains(path) == (
    ks[j] == key(found[i])) by {
        let m = members(found, ks[j]);
        assert(is_group(root, found, ks[j], ps[j], windows));
        m.to_multiset_ensures();
        ps[j].worktrees.to_multiset_ensures();
        assert(m.contains(path) <==> m.to_multiset().count(path) > 0);
        assert(ps[j].worktrees.contains(path) <==> ps[j].worktrees.to_multiset().count(path) > 0);
        if ks[j] == key(found[i]) {
            is_member(found, i);
        } else if m.contains(path) {
            comes_from(found, ks[j], path);
            let a = choose|a: int|
                0 <= a < found.len() && (#[trigger] found[a]).path == path && key(found[a])
                    == ks[j];
            assert(found[a].path == found[i].path);
        }
    }
}

proof fn comes_from(found: Seq<LocatedView>, k: Seq<char>, path: Seq<char>)
    requires
        members(found, k).contains(path),
    ensures
        exists|a: int|
            0 <= a < found.len() && (#[trigger] found[a]).path == path && key(found[a]) == k,
    decreases found.len(),
{
    let head = found.drop_last();
    let m = members(found, k);
    let x = choose|x: int| 0 <= x < m.len() && m[x] == path;
    if key(found.last()) == k && x == m.len() - 1 {
        assert(found[found.len() - 1].path == path);
    } else {
        assert(members(head, k)[x] == path);
        comes_from(head, k, path);
        let a = choose|a: int|
            0 <= a < head.len() && (#[trigger] head[a]).path == path && key(head[a]) == k;
        assert(found[a] == head[a]);
    }
}

proof fn is_member(found: Seq<LocatedView>, i: int)
    requires
        0 <= i < found.len(),
    ensures
        members(found, key(found[i])).contains(found[i].path),
    decreases found.len(),
{
    let k = key(found[i]);
    let m = members(found, k);
    if i == found.len() - 1 {
        assert(m.last() == found[i].path);
    } else {
        is_member(found.drop_last(), i);
        let before = members(found.drop_last(), k);
        let x = choose|x: int| 0 <= x < before.len() && before[x] == found[i].path;
        assert(m[x] == found[i].path);
    }
}

} // verus!
