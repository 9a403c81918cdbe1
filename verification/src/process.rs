//! Work outside the library, as plain values: programs to run, files to look
//! at, and what came back.
//!
//! Nothing here does any of it. A function of the library that needs something
//! from outside says which [`Action`] it wants and takes the [`Reply`]s so far
//! as an argument, so what it makes of every possible reply can be stated and
//! proved.

use crate::strings;
use crate::text;
use vstd::prelude::*;
use vstd::string::*;

verus! {

/// One program to run.
#[derive(Debug, PartialEq, Eq)]
pub struct Invocation {
    pub program: String,
    pub args: Vec<String>,
    /// Directory to run it in.
    pub dir: String,
    /// Whether what it prints is to be collected. Otherwise it prints straight
    /// to the terminal and only its success is of interest.
    pub capture: bool,
}

/// What an [`Invocation`] stands for.
pub struct InvocationView {
    pub program: Seq<char>,
    pub args: Seq<Seq<char>>,
    pub dir: Seq<char>,
    pub capture: bool,
}

impl DeepView for Invocation {
    type V = InvocationView;

    open spec fn deep_view(&self) -> InvocationView {
        InvocationView {
            program: self.program@,
            args: self.args.deep_view(),
            dir: self.dir@,
            capture: self.capture,
        }
    }
}

/// What a program that ran to its end left behind.
#[derive(Debug, PartialEq, Eq)]
pub struct Output {
    pub success: bool,
    pub stdout: String,
    pub stderr: String,
}

/// What an [`Output`] stands for.
pub struct OutputView {
    pub success: bool,
    pub stdout: Seq<char>,
    pub stderr: Seq<char>,
}

impl DeepView for Output {
    type V = OutputView;

    open spec fn deep_view(&self) -> OutputView {
        OutputView { success: self.success, stdout: self.stdout@, stderr: self.stderr@ }
    }
}

/// Something to be done outside the library.
#[derive(Debug, PartialEq, Eq)]
pub enum Action {
    /// Run a program.
    Run(Invocation),
    /// Find the canonical form of a path.
    Resolve(String),
    /// See whether anything is at a path.
    Look(String),
    /// Delete a directory with all that is in it.
    Delete(String),
}

/// What an [`Action`] stands for.
pub enum ActionView {
    Run(InvocationView),
    Resolve(Seq<char>),
    Look(Seq<char>),
    Delete(Seq<char>),
}

impl DeepView for Action {
    type V = ActionView;

    open spec fn deep_view(&self) -> ActionView {
        match self {
            Action::Run(i) => ActionView::Run(i.deep_view()),
            Action::Resolve(p) => ActionView::Resolve(p@),
            Action::Look(p) => ActionView::Look(p@),
            Action::Delete(p) => ActionView::Delete(p@),
        }
    }
}

/// What came of an [`Action`].
#[derive(Debug, PartialEq, Eq)]
pub enum Reply {
    /// The program's output; `None` where it could not be started.
    Ran(Option<Output>),
    /// The canonical path; `None` where there is none.
    Resolved(Option<String>),
    /// Whether something is there.
    Found(bool),
    /// Whether the directory could be deleted.
    Deleted(bool),
}

/// What a [`Reply`] stands for.
pub enum ReplyView {
    Ran(Option<OutputView>),
    Resolved(Option<Seq<char>>),
    Found(bool),
    Deleted(bool),
}

impl DeepView for Reply {
    type V = ReplyView;

    open spec fn deep_view(&self) -> ReplyView {
        match self {
            Reply::Ran(o) => ReplyView::Ran(o.deep_view()),
            Reply::Resolved(p) => ReplyView::Resolved(p.deep_view()),
            Reply::Found(b) => ReplyView::Found(*b),
            Reply::Deleted(b) => ReplyView::Deleted(*b),
        }
    }
}

/// What a fallible operation gave, with text in place of strings.
pub open spec fn result_view<T: DeepView>(r: Result<T, String>) -> Result<T::V, Seq<char>> {
    match r {
        Ok(t) => Ok(t.deep_view()),
        Err(e) => Err(e@),
    }
}

/// What to do next: something outside, to be answered with its reply, or
/// nothing more, because the result, or the message of the failure, is there.
#[derive(Debug, PartialEq, Eq)]
pub enum Step<T> {
    Do(Action),
    Done(Result<T, String>),
}

/// What a [`Step`] stands for.
pub enum StepView<V> {
    Do(ActionView),
    Done(Result<V, Seq<char>>),
}

impl<T: DeepView> DeepView for Step<T> {
    type V = StepView<T::V>;

    open spec fn deep_view(&self) -> StepView<T::V> {
        match self {
            Step::Do(a) => StepView::Do(a.deep_view()),
            Step::Done(r) => StepView::Done(result_view(*r)),
        }
    }
}

/// The output that a reply carries; a reply to anything but a program that was
/// started carries none.
pub open spec fn output(reply: ReplyView) -> Option<OutputView> {
    match reply {
        ReplyView::Ran(o) => o,
        _ => None,
    }
}

/// The program ran and succeeded.
pub open spec fn succeeded(reply: ReplyView) -> bool {
    output(reply) is Some && output(reply)->0.success
}

/// What a successful program printed, without the white space around it.
/// `None` where it could not be started, failed or printed nothing else.
pub open spec fn answer(reply: ReplyView) -> Option<Seq<char>> {
    if succeeded(reply) && text::trim(output(reply)->0.stdout).len() > 0 {
        Some(text::trim(output(reply)->0.stdout))
    } else {
        None
    }
}

/// A look found something there.
pub open spec fn found(reply: ReplyView) -> bool {
    reply == ReplyView::Found(true)
}

/// The message for a program that could not be started.
pub open spec fn not_spawned(program: Seq<char>) -> Seq<char> {
    "failed to spawn `"@ + program + "`"@
}

/// What a program printed on success. Where it could not be started the failure
/// names the program; where it failed, `what` and its own complaint.
pub open spec fn printed(reply: ReplyView, program: Seq<char>, what: Seq<char>) -> Result<
    Seq<char>,
    Seq<char>,
> {
    match output(reply) {
        None => Err(not_spawned(program)),
        Some(o) => if o.success {
            Ok(o.stdout)
        } else {
            Err(what + ": "@ + text::trim(o.stderr))
        },
    }
}

/// The success of a program of which nothing else counts, or the message of its
/// failure; `what` says what failed.
pub open spec fn ran_well(reply: ReplyView, program: Seq<char>, what: Seq<char>) -> Result<
    (),
    Seq<char>,
> {
    match output(reply) {
        None => Err(not_spawned(program)),
        Some(o) => if o.success {
            Ok(())
        } else {
            Err(what + " failed"@)
        },
    }
}

/// `program` with `args`, to be run in `dir`, its output collected.
pub open spec fn ask(program: Seq<char>, args: Seq<Seq<char>>, dir: Seq<char>) -> ActionView {
    ActionView::Run(InvocationView { program, args, dir, capture: true })
}

/// `program` with `args`, to be run in `dir`, printing to the terminal.
pub open spec fn tell(program: Seq<char>, args: Seq<Seq<char>>, dir: Seq<char>) -> ActionView {
    ActionView::Run(InvocationView { program, args, dir, capture: false })
}

/// The line `i` of what a program answered, without the white space around it.
/// `None` where it did not answer, or where that line is blank or missing.
pub open spec fn line(reply: ReplyView, i: int) -> Option<Seq<char>> {
    match answer(reply) {
        Some(a) => if i < text::lines(a).len() && text::trim(text::lines(a)[i]).len() > 0 {
            Some(text::trim(text::lines(a)[i]))
        } else {
            None
        },
        None => None,
    }
}

/// Asking one program for a line of text.
pub open spec fn asking_line(
    program: Seq<char>,
    args: Seq<Seq<char>>,
    root: Seq<char>,
    replies: Seq<ReplyView>,
) -> StepView<Option<Seq<char>>> {
    if replies.len() == 0 {
        StepView::Do(ask(program, args, root))
    } else {
        StepView::Done(Ok(answer(replies[0])))
    }
}

/// The lines that are not blank.
pub open spec fn filled_lines(s: Seq<char>) -> Seq<Seq<char>> {
    text::lines(s).filter(|l: Seq<char>| l.len() > 0)
}

/// What a fetch has to show: its messages, or else its output.
pub open spec fn fetched(reply: ReplyView, program: Seq<char>, what: Seq<char>) -> Result<
    Seq<char>,
    Seq<char>,
> {
    match printed(reply, program, what) {
        Err(e) => Err(e),
        Ok(out) => if text::trim(output(reply)->0.stderr).len() > 0 {
            Ok(output(reply)->0.stderr)
        } else {
            Ok(out)
        },
    }
}

/// Owned copies of `args`.
pub fn owned(args: &[&str]) -> (r: Vec<String>)
    ensures
        r.deep_view() == args.deep_view(),
{
    let mut out: Vec<String> = Vec::new();
    let mut i: usize = 0;
    while i < args.len()
        invariant
            i <= args@.len(),
            out.deep_view() == args.deep_view().take(i as int),
        decreases args@.len() - i,
    {
        let arg: &str = args[i];
        let ghost before = out.deep_view();
        out.push(arg.to_string());
        proof {
            assert(out.deep_view() =~= before.push(arg@));
            assert(out.deep_view() =~= args.deep_view().take(i + 1));
        }
        i = i + 1;
    }
    proof {
        assert(out.deep_view() =~= args.deep_view());
    }
    out
}

/// Asks for `program` with `args` in `dir`, its output collected.
pub fn asking(program: &str, args: &[&str], dir: &str) -> (r: Action)
    ensures
        r.deep_view() == ask(program@, args.deep_view(), dir@),
{
    Action::Run(
        Invocation {
            program: program.to_string(),
            args: owned(args),
            dir: dir.to_string(),
            capture: true,
        },
    )
}

/// Asks for `program` with `args` in `dir`, printing to the terminal.
pub fn telling(program: &str, args: &[&str], dir: &str) -> (r: Action)
    ensures
        r.deep_view() == tell(program@, args.deep_view(), dir@),
{
    Action::Run(
        Invocation {
            program: program.to_string(),
            args: owned(args),
            dir: dir.to_string(),
            capture: false,
        },
    )
}

/// The output that a reply carries.
pub fn output_of(reply: &Reply) -> (r: Option<&Output>)
    ensures
        r.deep_view() == output(reply.deep_view()),
{
    match reply {
        Reply::Ran(Some(o)) => Some(o),
        _ => None,
    }
}

/// Whether the program ran and succeeded.
pub fn success(reply: &Reply) -> (r: bool)
    ensures
        r == succeeded(reply.deep_view()),
{
    match output_of(reply) {
        Some(o) => o.success,
        None => false,
    }
}

/// Whether a look found something there.
pub fn found_in(reply: &Reply) -> (r: bool)
    ensures
        r == found(reply.deep_view()),
{
    match reply {
        Reply::Found(b) => *b,
        _ => false,
    }
}

/// The text that a program answered with.
pub fn answer_of(reply: &Reply) -> (r: Option<String>)
    ensures
        r.deep_view() == answer(reply.deep_view()),
{
    match output_of(reply) {
        Some(o) => {
            let t = strings::trim(o.stdout.as_str());
            if o.success && t.unicode_len() > 0 {
                Some(t.to_string())
            } else {
                None
            }
        },
        None => None,
    }
}

/// Says that `program` could not be started.
pub fn spawn_error(program: &str) -> (r: String)
    ensures
        r@ == not_spawned(program@),
{
    let mut s = "failed to spawn `".to_string();
    s.append(program);
    s.append("`");
    s
}

/// What a program printed, or how it failed.
pub fn printed_by(reply: &Reply, program: &str, what: &str) -> (r: Result<String, String>)
    ensures
        result_view(r) == printed(reply.deep_view(), program@, what@),
{
    match output_of(reply) {
        None => Err(spawn_error(program)),
        Some(o) => {
            if o.success {
                Ok(o.stdout.clone())
            } else {
                let mut s = what.to_string();
                s.append(": ");
                s.append(strings::trim(o.stderr.as_str()));
                Err(s)
            }
        },
    }
}

/// Whether a program ran well, or how it failed.
pub fn check_ran(reply: &Reply, program: &str, what: &str) -> (r: Result<(), String>)
    ensures
        result_view(r) == ran_well(reply.deep_view(), program@, what@),
{
    match output_of(reply) {
        None => Err(spawn_error(program)),
        Some(o) => {
            if o.success {
                Ok(())
            } else {
                let mut s = what.to_string();
                s.append(" failed");
                Err(s)
            }
        },
    }
}

/// The line `i` of what a program answered.
pub fn line_of(reply: &Reply, i: usize) -> (r: Option<String>)
    ensures
        r.deep_view() == line(reply.deep_view(), i as int),
{
    match answer_of(reply) {
        Some(a) => {
            let l = strings::lines(a.as_str());
            proof {
                assert(l.deep_view().len() == l@.len());
            }
            if i < l.len() {
                let t = strings::trim(l[i].as_str());
                if t.unicode_len() > 0 {
                    return Some(t.to_string());
                }
            }
            None
        },
        None => None,
    }
}

/// The lines of `s` that are not blank.
pub fn lines_of(s: &str) -> (r: Vec<String>)
    ensures
        r.deep_view() == filled_lines(s@),
{
    let all = strings::lines(s);
    let ghost parts = all.deep_view();
    let ghost keep = |l: Seq<char>| l.len() > 0;
    let mut out: Vec<String> = Vec::new();
    let mut i: usize = 0;
    proof {
        reveal(Seq::filter);
        assert(out.deep_view() =~= parts.take(0).filter(keep));
    }
    while i < all.len()
        invariant
            i <= all.len(),
            parts == all.deep_view(),
            keep == (|l: Seq<char>| l.len() > 0),
            out.deep_view() == parts.take(i as int).filter(keep),
        decreases all.len() - i,
    {
        let l = all[i].clone();
        let ghost before = out.deep_view();
        proof {
            reveal(Seq::filter);
            assert(parts.take(i + 1).drop_last() =~= parts.take(i as int));
            assert(parts.take(i + 1).last() == l@);
        }
        if l.as_str().unicode_len() > 0 {
            out.push(l);
            proof {
                assert(out.deep_view() =~= before.push(l@));
            }
        }
        i = i + 1;
    }
    proof {
        assert(parts.take(i as int) =~= parts);
    }
    out
}

/// What a fetch has to show, or how it failed.
pub fn fetched_by(reply: &Reply, program: &str, what: &str) -> (r: Result<String, String>)
    ensures
        result_view(r) == fetched(reply.deep_view(), program@, what@),
{
    match printed_by(reply, program, what) {
        Err(e) => Err(e),
        Ok(out) => match output_of(reply) {
            Some(o) => {
                if strings::trim(o.stderr.as_str()).unicode_len() > 0 {
                    Ok(o.stderr.clone())
                } else {
                    Ok(out)
                }
            },
            None => Ok(out),
        },
    }
}

/// Asks `program` for a line of text, or gives the one that came back.
pub fn ask_line(program: &str, args: &[&str], root: &str, replies: &[Reply]) -> (r: Step<
    Option<String>,
>)
    ensures
        r.deep_view() == asking_line(program@, args.deep_view(), root@, replies.deep_view()),
{
    if replies.len() == 0 {
        Step::Do(asking(program, args, root))
    } else {
        Step::Done(Ok(answer_of(&replies[0])))
    }
}

} // verus!
