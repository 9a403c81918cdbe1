//! Hooks: what to do for a worktree that was made, or is about to be removed.
//!
//! Every text of a hook is a template. They are rendered one at a time, each
//! just before what it says is done, and the first failure ends it all.

use crate::config::HookSpec;
use crate::layout::{self, VcsContext, VcsContextView};
use crate::paths;
use crate::process::{Invocation, InvocationView};
use crate::render::{
    self, Field, FieldView, Rendering, RenderingView, Table, TableView, Template, TemplateView,
};
use crate::strings;
use crate::text;
use vstd::prelude::*;
use vstd::string::*;

pub mod command;
pub mod copy;
pub mod symlink;

verus! {

/// What a [`HookSpec`] stands for.
pub enum HookSpecView {
    Copy { files: Seq<Seq<char>> },
    Symlink { src: Seq<char>, dst: Seq<char> },
    Command { run: Seq<char>, shell: Option<Seq<char>> },
}

impl DeepView for HookSpec {
    type V = HookSpecView;

    open spec fn deep_view(&self) -> HookSpecView {
        match self {
            HookSpec::Copy { files } => HookSpecView::Copy { files: files.deep_view() },
            HookSpec::Symlink { src, dst } => HookSpecView::Symlink { src: src@, dst: dst@ },
            HookSpec::Command { run, shell } => HookSpecView::Command {
                run: run@,
                shell: shell.deep_view(),
            },
        }
    }
}

/// The two sides of an arrow, or the same on both where there is none.
pub open spec fn sides(s: Seq<char>) -> (Seq<char>, Seq<char>) {
    match text::find(s, "->"@) {
        Some(i) => (text::trim(s.take(i)), text::trim(s.skip(i + 2))),
        None => (text::trim(s), text::trim(s)),
    }
}

/// Splits an entry at its arrow.
pub fn parse_arrow<'a>(s: &'a str) -> (r: (&'a str, &'a str))
    ensures
        (r.0@, r.1@) == sides(s@),
{
    proof {
        reveal_strlit("->");
    }
    match strings::find(s, "->") {
        Some(i) => {
            let n: usize = s.unicode_len();
            proof {
                assert(s@.subrange(0, i as int) =~= s@.take(i as int));
                assert(s@.subrange(i + 2, n as int) =~= s@.skip(i + 2));
            }
            (strings::trim(s.substring_char(0, i)), strings::trim(s.substring_char(i + 2, n)))
        },
        None => {
            let t = strings::trim(s);
            (t, t)
        },
    }
}

/// What a hook wants done.
#[derive(Debug, PartialEq, Eq)]
pub enum HookAction {
    /// Copy a file or a directory.
    Copy { src: String, dst: String },
    /// Make `link` a symbolic link to `target`.
    Link { target: String, link: String },
    /// Run a program.
    Run(Invocation),
}

/// What a [`HookAction`] stands for.
pub enum HookActionView {
    Copy { src: Seq<char>, dst: Seq<char> },
    Link { target: Seq<char>, link: Seq<char> },
    Run(InvocationView),
}

impl DeepView for HookAction {
    type V = HookActionView;

    open spec fn deep_view(&self) -> HookActionView {
        match self {
            HookAction::Copy { src, dst } => HookActionView::Copy { src: src@, dst: dst@ },
            HookAction::Link { target, link } => HookActionView::Link {
                target: target@,
                link: link@,
            },
            HookAction::Run(i) => HookActionView::Run(i.deep_view()),
        }
    }
}

/// Where hooks run.
pub struct HookRun<'a> {
    pub repo_root: &'a str,
    pub worktree_path: &'a str,
    pub vcs: &'a VcsContext,
    /// The platform is Windows.
    pub windows: bool,
}

/// What a [`HookRun`] stands for.
pub struct HookRunView {
    pub repo_root: Seq<char>,
    pub worktree_path: Seq<char>,
    pub vcs: VcsContextView,
    pub windows: bool,
}

impl<'a> DeepView for HookRun<'a> {
    type V = HookRunView;

    open spec fn deep_view(&self) -> HookRunView {
        HookRunView {
            repo_root: self.repo_root@,
            worktree_path: self.worktree_path@,
            vcs: self.vcs.deep_view(),
            windows: self.windows,
        }
    }
}

/// The values that hooks may refer to.
pub open spec fn scope(hr: HookRunView) -> Seq<TableView> {
    seq![
        layout::vcs_table(hr.vcs),
        TableView {
            name: "worktree"@,
            fields: seq![FieldView { name: "path"@, value: Some(hr.worktree_path) }],
        },
        TableView {
            name: "repo"@,
            fields: seq![FieldView { name: "root"@, value: Some(hr.repo_root) }],
        },
    ]
}

impl<'a> HookRun<'a> {
    /// The values that hooks may refer to.
    fn tables(&self) -> (r: Vec<Table>)
        ensures
            r.deep_view() == scope(self.deep_view()),
    {
        let tables = vec![
            layout::table_of(self.vcs),
            Table {
                name: "worktree".to_string(),
                fields: vec![
                    Field {
                        name: "path".to_string(),
                        value: Some(self.worktree_path.to_string()),
                    },
                ],
            },
            Table {
                name: "repo".to_string(),
                fields: vec![
                    Field { name: "root".to_string(), value: Some(self.repo_root.to_string()) },
                ],
            },
        ];
        proof {
            let goal = scope(self.deep_view());
            assert(tables@[1].deep_view().fields =~= goal[1].fields);
            assert(tables@[2].deep_view().fields =~= goal[2].fields);
            assert(tables.deep_view() =~= goal);
        }
        tables
    }

    /// Renders a template of a hook, or asks for that. The replies to that begin
    /// at `k`; where they go on from comes with the result.
    pub fn render(&self, s: &str, replies: &[Result<String, String>], k: usize) -> (r: (
        Rendering,
        usize,
    ))
        requires
            k <= replies@.len(),
        ensures
            k <= r.1 <= replies@.len(),
            (r.0.deep_view(), render::results(replies@).skip(r.1 as int)) == render::rendering(
                s@,
                scope(self.deep_view()),
                render::results(replies@).skip(k as int),
            ),
    {
        render::render(s, self.tables(), replies, k)
    }
}

/// How many things a hook wants done.
pub open spec fn size(spec: HookSpecView) -> nat {
    match spec {
        HookSpecView::Copy { files } => files.len(),
        _ => 1,
    }
}

/// What the copying of one entry means, once it is rendered.
pub open spec fn copy_action(hr: HookRunView, entry: Seq<char>) -> HookActionView {
    HookActionView::Copy {
        src: paths::join(hr.repo_root, sides(entry).0, hr.windows),
        dst: paths::join(hr.worktree_path, sides(entry).1, hr.windows),
    }
}

/// What a link means, once it is rendered.
pub open spec fn link_action(hr: HookRunView, src: Seq<char>, dst: Seq<char>) -> HookActionView {
    HookActionView::Link {
        target: paths::join(hr.repo_root, src, hr.windows),
        link: paths::join(hr.worktree_path, dst, hr.windows),
    }
}

/// What comes of copying an entry.
pub open spec fn copy_result(hr: HookRunView, entry: Result<Seq<char>, Seq<char>>) -> Result<
    HookActionView,
    Seq<char>,
> {
    match entry {
        Ok(e) => Ok(copy_action(hr, e)),
        Err(e) => Err(e),
    }
}

/// What comes of a link.
pub open spec fn link_result(
    hr: HookRunView,
    src: Result<Seq<char>, Seq<char>>,
    dst: Result<Seq<char>, Seq<char>>,
) -> Result<HookActionView, Seq<char>> {
    match (src, dst) {
        (Ok(s), Ok(d)) => Ok(link_action(hr, s, d)),
        (Err(e), _) => Err(e),
        (_, Err(e)) => Err(e),
    }
}

/// What comes of a command.
pub open spec fn command_result(
    hr: HookRunView,
    shell: Option<Seq<char>>,
    line: Result<Seq<char>, Seq<char>>,
) -> Result<HookActionView, Seq<char>> {
    match line {
        Ok(l) => match command::command_line(l, shell, hr.worktree_path, hr.windows) {
            Ok(i) => Ok(HookActionView::Run(i)),
            Err(e) => Err(e),
        },
        Err(e) => Err(e),
    }
}

/// What one thing that a hook wants done comes to.
#[derive(Debug, PartialEq, Eq)]
pub enum Asked {
    /// A template is to be rendered first.
    Render(Template),
    /// This is to be done.
    Act(HookAction),
    /// It cannot be done, for this reason.
    Fail(String),
}

/// What an [`Asked`] stands for.
pub enum AskedView {
    Render(TemplateView),
    Act(HookActionView),
    Fail(Seq<char>),
}

impl DeepView for Asked {
    type V = AskedView;

    open spec fn deep_view(&self) -> AskedView {
        match self {
            Asked::Render(t) => AskedView::Render(t.deep_view()),
            Asked::Act(a) => AskedView::Act(a.deep_view()),
            Asked::Fail(e) => AskedView::Fail(e@),
        }
    }
}

/// What a result of rendering comes to.
pub open spec fn settled(r: Result<HookActionView, Seq<char>>) -> AskedView {
    match r {
        Ok(a) => AskedView::Act(a),
        Err(e) => AskedView::Fail(e),
    }
}

/// The `k`th thing that a hook wants done: its templates are rendered, one after
/// the other and only as long as that goes well, and then it is what they say.
pub open spec fn asking(
    spec: HookSpecView,
    k: int,
    hr: HookRunView,
    replies: Seq<Result<Seq<char>, Seq<char>>>,
) -> AskedView {
    match spec {
        HookSpecView::Copy { files } => match render::rendering(files[k], scope(hr), replies).0 {
            RenderingView::Ask(t) => AskedView::Render(t),
            RenderingView::Done(entry) => settled(copy_result(hr, entry)),
        },
        HookSpecView::Symlink { src, dst } => {
            let (a, rest) = render::rendering(src, scope(hr), replies);
            match a {
                RenderingView::Ask(t) => AskedView::Render(t),
                RenderingView::Done(Err(e)) => AskedView::Fail(e),
                RenderingView::Done(Ok(s)) => match render::rendering(dst, scope(hr), rest).0 {
                    RenderingView::Ask(t) => AskedView::Render(t),
                    RenderingView::Done(d) => settled(link_result(hr, Ok(s), d)),
                },
            }
        },
        HookSpecView::Command { run, shell } => match render::rendering(
            run,
            scope(hr),
            replies,
        ).0 {
            RenderingView::Ask(t) => AskedView::Render(t),
            RenderingView::Done(line) => settled(command_result(hr, shell, line)),
        },
    }
}

/// What copying a rendered entry means.
pub fn copy_entry(hr: &HookRun, entry: &str) -> (r: HookAction)
    ensures
        r.deep_view() == copy_action(hr.deep_view(), entry@),
{
    let (src, dst) = parse_arrow(entry);
    HookAction::Copy {
        src: paths::joined(hr.repo_root, src, hr.windows),
        dst: paths::joined(hr.worktree_path, dst, hr.windows),
    }
}

/// What a rendered link means.
pub fn link_entry(hr: &HookRun, src: &str, dst: &str) -> (r: HookAction)
    ensures
        r.deep_view() == link_action(hr.deep_view(), src@, dst@),
{
    HookAction::Link {
        target: paths::joined(hr.repo_root, src, hr.windows),
        link: paths::joined(hr.worktree_path, dst, hr.windows),
    }
}

/// The `k`th thing that a hook wants done. `replies` holds what came of the
/// templates that it asked to be rendered so far.
pub fn run_one(
    spec: &HookSpec,
    k: usize,
    hr: &HookRun,
    replies: &[Result<String, String>],
) -> (r: Asked)
    requires
        k < size(spec.deep_view()),
    ensures
        r.deep_view() == asking(
            spec.deep_view(),
            k as int,
            hr.deep_view(),
            render::results(replies@),
        ),
{
    proof {
        let rs = render::results(replies@);
        assert(rs.skip(0) =~= rs);
    }
    match spec {
        HookSpec::Copy { files } => match hr.render(files[k].as_str(), replies, 0).0 {
            Rendering::Ask(t) => Asked::Render(t),
            Rendering::Done(Ok(e)) => Asked::Act(copy_entry(hr, e.as_str())),
            Rendering::Done(Err(e)) => Asked::Fail(e),
        },
        HookSpec::Symlink { src, dst } => {
            let (a, n) = hr.render(src.as_str(), replies, 0);
            let s = match a {
                Rendering::Ask(t) => return Asked::Render(t),
                Rendering::Done(Err(e)) => return Asked::Fail(e),
                Rendering::Done(Ok(s)) => s,
            };
            match hr.render(dst.as_str(), replies, n).0 {
                Rendering::Ask(t) => Asked::Render(t),
                Rendering::Done(Ok(d)) => Asked::Act(link_entry(hr, s.as_str(), d.as_str())),
                Rendering::Done(Err(e)) => Asked::Fail(e),
            }
        },
        HookSpec::Command { run, shell } => match hr.render(run.as_str(), replies, 0).0 {
            Rendering::Ask(t) => Asked::Render(t),
            Rendering::Done(Err(e)) => Asked::Fail(e),
            Rendering::Done(Ok(l)) => {
                let sh: Option<&str> = match shell {
                    Some(s) => Some(s.as_str()),
                    None => None,
                };
                match command::run(l.as_str(), sh, hr.worktree_path, hr.windows) {
                    Ok(i) => Asked::Act(HookAction::Run(i)),
                    Err(e) => Asked::Fail(e),
                }
            },
        },
    }
}

/// What failed, for the user.
pub open spec fn failure(spec: HookSpecView) -> Seq<char> {
    match spec {
        HookSpecView::Copy { .. } => "copy hook failed"@,
        HookSpecView::Symlink { .. } => "symlink hook failed"@,
        HookSpecView::Command { run, .. } => "command hook failed: "@ + run,
    }
}

/// What failed, for the user.
pub fn failure_of(spec: &HookSpec) -> (r: String)
    ensures
        r@ == failure(spec.deep_view()),
{
    match spec {
        HookSpec::Copy { .. } => "copy hook failed".to_string(),
        HookSpec::Symlink { .. } => "symlink hook failed".to_string(),
        HookSpec::Command { run, .. } => {
            let mut s = "command hook failed: ".to_string();
            s.append(run.as_str());
            s
        },
    }
}

/// How far the hooks have come: the next thing is the `entry`th of the hook
/// `hook`.
#[derive(Debug, Clone, Copy, PartialEq, Eq, Structural)]
pub struct Progress {
    pub hook: usize,
    pub entry: usize,
}

/// What to do next about the hooks.
#[derive(Debug, PartialEq, Eq)]
pub enum HookStep {
    /// Render this, and come back to the same place with one result more.
    Render(Template),
    /// Do this, and come back with what came of it, and no results.
    Do(HookAction, Progress),
    /// All is done.
    Finished,
    /// A hook failed: what failed, and why.
    Failed(String, String),
}

/// The first thing to do at or after the `entry`th of the hook `hook`: which
/// hook, and which of the things it wants done.
pub open spec fn next_at(specs: Seq<HookSpecView>, hook: int, entry: int) -> Option<(int, int)>
    decreases specs.len() - hook,
{
    if hook < 0 || hook >= specs.len() {
        None
    } else if entry < size(specs[hook]) {
        Some((hook, entry))
    } else {
        next_at(specs, hook + 1, 0)
    }
}

/// `step` is what follows once everything before `at` was done: what the next
/// thing that some hook wants done comes to, or nothing.
pub open spec fn follows(
    specs: Seq<HookSpecView>,
    hr: HookRunView,
    at: Progress,
    replies: Seq<Result<Seq<char>, Seq<char>>>,
    step: HookStep,
) -> bool {
    match next_at(specs, at.hook as int, at.entry as int) {
        None => step is Finished,
        Some((hook, entry)) => match (asking(specs[hook], entry, hr, replies), step) {
            (AskedView::Render(t), HookStep::Render(u)) => u.deep_view() == t,
            (AskedView::Act(a), HookStep::Do(b, p)) => b.deep_view() == a && p.hook == hook
                && p.entry == entry + 1,
            (AskedView::Fail(e), HookStep::Failed(what, why)) => why@ == e && what@ == failure(
                specs[hook],
            ),
            _ => false,
        },
    }
}

/// How many things a hook wants done.
fn size_of(spec: &HookSpec) -> (r: usize)
    ensures
        r == size(spec.deep_view()),
{
    match spec {
        HookSpec::Copy { files } => files.len(),
        _ => 1,
    }
}

/// Runs the hooks, one thing at a time. `at` is where the last step left off, or
/// the very beginning, and `last` is what came of what it asked for; a failure
/// ends it all. `replies` holds what came of the templates rendered since then.
pub fn run_all(
    specs: &Vec<HookSpec>,
    hr: &HookRun,
    at: Progress,
    replies: &[Result<String, String>],
    last: Result<(), String>,
) -> (r: HookStep)
    requires
        last is Err ==> at.hook < specs@.len(),
    ensures
        match last {
            Err(e) => r is Failed && r->Failed_0@ == failure(specs.deep_view()[at.hook as int])
                && r->Failed_1 == e,
            Ok(_) => follows(
                specs.deep_view(),
                hr.deep_view(),
                at,
                render::results(replies@),
                r,
            ),
        },
{
    let ghost all = specs.deep_view();
    if let Err(e) = last {
        return HookStep::Failed(failure_of(&specs[at.hook]), e);
    }
    let mut hook: usize = at.hook;
    let mut entry: usize = at.entry;
    while hook < specs.len()
        invariant
            last is Ok,
            all == specs.deep_view(),
            next_at(all, hook as int, entry as int) == next_at(
                all,
                at.hook as int,
                at.entry as int,
            ),
        decreases specs@.len() - hook,
    {
        let n: usize = size_of(&specs[hook]);
        if entry < n {
            return match run_one(&specs[hook], entry, hr, replies) {
                Asked::Render(t) => HookStep::Render(t),
                Asked::Act(a) => HookStep::Do(a, Progress { hook, entry: entry + 1 }),
                Asked::Fail(e) => HookStep::Failed(failure_of(&specs[hook]), e),
            };
        }
        hook = hook + 1;
        entry = 0;
    }
    HookStep::Finished
}

} // verus!
