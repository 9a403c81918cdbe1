//! Listing jj workspaces: each row says what `jj` said of its workspace.

use crate::process::{ActionView, InvocationView, OutputView, ReplyView, StepView};
use crate::text;
use crate::vcs::detect::Kind;
use crate::vcs::jj::{filling, listing, read_status, workspace_names, STATUS_TEMPLATE};
use crate::vcs::WorktreeView;
use vstd::prelude::*;

verus! {

/// `jj` with these arguments at `root`, its output collected.
pub open spec fn jj_run(args: Seq<Seq<char>>, root: Seq<char>) -> ActionView {
    ActionView::Run(InvocationView { program: "jj"@, args, dir: root, capture: true })
}

/// The reply gives a directory.
pub open spec fn gives_dir(reply: ReplyView) -> bool {
    match reply {
        ReplyView::Ran(Some(o)) => o.success && text::trim(o.stdout).len() > 0,
        _ => false,
    }
}

/// The reply is that of a program that was started.
pub open spec fn was_started(reply: ReplyView) -> bool {
    match reply {
        ReplyView::Ran(Some(_)) => true,
        _ => false,
    }
}

/// Which reply is about the directory of the `i`th workspace: the list comes
/// first, and where a workspace has a directory its state comes after that.
pub open spec fn place(replies: Seq<ReplyView>, i: nat) -> int
    decreases i,
{
    if i == 0 {
        1
    } else {
        let p = place(replies, (i - 1) as nat);
        if gives_dir(replies[p]) {
            p + 2
        } else {
            p + 1
        }
    }
}

/// The `k`th of the fields that a unit separator stands between, without the
/// white space around it; of five, the last holds all that is left. Empty where
/// there are fewer.
pub open spec fn state_field(stdout: Seq<char>, k: int) -> Seq<char> {
    let fields = text::split_n(stdout, '\x1f', 5);
    if k < fields.len() {
        text::trim(fields[k])
    } else {
        seq![]
    }
}

/// The state was read: `jj` succeeded and gave an id.
pub open spec fn gives_state(reply: ReplyView) -> bool {
    match reply {
        ReplyView::Ran(Some(o)) => o.success && state_field(o.stdout, 0).len() > 0,
        _ => false,
    }
}

/// What was printed for a reply.
pub open spec fn stdout_of(reply: ReplyView) -> Seq<char> {
    match reply {
        ReplyView::Ran(Some(o)) => o.stdout,
        _ => seq![],
    }
}

/// `w` is the row of the workspace `name`, of whose directory `dir` is the reply
/// and of whose state `state` is.
pub open spec fn is_row_of(w: WorktreeView, name: Seq<char>, dir: ReplyView, state: ReplyView) -> bool {
    let known = gives_dir(dir) && gives_state(state);
    let out = stdout_of(state);
    &&& w.name == name
    &&& w.is_main <==> name == "default"@
    &&& w.is_stale <==> !gives_dir(dir)
    &&& w.path == if gives_dir(dir) {
        text::trim(stdout_of(dir))
    } else {
        seq![]
    }
    &&& w.head == if known {
        Some(state_field(out, 0))
    } else {
        None
    }
    &&& w.branch == if known && state_field(out, 1).len() > 0 {
        Some(state_field(out, 1))
    } else {
        None
    }
    &&& w.dirty <==> known && state_field(out, 2) == "1"@
    &&& w.conflict <==> known && state_field(out, 3) == "1"@
    &&& w.desc == if known && state_field(out, 4).len() > 0 {
        Some(state_field(out, 4))
    } else {
        None
    }
    &&& w.vcs == Kind::Jj
    &&& w.commit is None
    &&& !w.is_bare
    &&& !w.is_locked
}

/// A finished list has one row for each workspace that `jj` named, in order, and
/// each row says what `jj` said of that workspace, with no regard to its name. A
/// list that is not finished asks for the directory of the next workspace, or for
/// its state. It fails only where `jj` did.
pub proof fn rows_say_what_jj_said(root: Seq<char>, replies: Seq<ReplyView>)
    ensures
        replies.len() == 0 ==> listing(root, replies) == StepView::<Seq<WorktreeView>>::Do(
            jj_run(seq!["workspace"@, "list"@], root),
        ),
        replies.len() > 0 ==> match replies[0] {
            ReplyView::Ran(Some(o)) => {
                let names = workspace_names(text::lines(o.stdout));
                if !o.success {
                    listing(root, replies) == StepView::Done(
                        Err::<Seq<WorktreeView>, Seq<char>>(
                            "jj workspace list"@ + ": "@ + text::trim(o.stderr),
                        ),
                    )
                } else {
                    is_list_of(root, names, replies, listing(root, replies))
                }
            },
            _ => listing(root, replies) == StepView::Done(
                Err::<Seq<WorktreeView>, Seq<char>>("failed to spawn `jj`"@),
            ),
        },
{
    spawn_message();
    if replies.len() > 0 {
        if let ReplyView::Ran(Some(o)) = replies[0] {
            if o.success {
                let names = workspace_names(text::lines(o.stdout));
                let none: Seq<WorktreeView> = seq![];
                assert(names.skip(0) =~= names);
                assert(replies.skip(1) =~= replies.drop_first());
                filling_says(root, names, replies, 0, none);
            }
        }
    }
}

proof fn spawn_message()
    ensures
        "failed to spawn `"@ + "jj"@ + "`"@ == "failed to spawn `jj`"@,
{
    reveal_strlit("failed to spawn `");
    reveal_strlit("jj");
    reveal_strlit("`");
    reveal_strlit("failed to spawn `jj`");
    assert("failed to spawn `"@ + "jj"@ + "`"@ =~= "failed to spawn `jj`"@);
}

/// `step` is where the list of the workspaces `names` stands after these replies.
pub open spec fn is_list_of(
    root: Seq<char>,
    names: Seq<Seq<char>>,
    replies: Seq<ReplyView>,
    step: StepView<Seq<WorktreeView>>,
) -> bool {
    match step {
        StepView::Done(Ok(rows)) => {
            &&& rows.len() == names.len()
            &&& place(replies, names.len()) <= replies.len()
            &&& forall|i: int|
                0 <= i < rows.len() ==> is_row_of(
                    #[trigger] rows[i],
                    names[i],
                    replies[place(replies, i as nat)],
                    replies[place(replies, i as nat) + 1],
                )
        },
        StepView::Do(a) => exists|i: int|
            #![trigger names[i]]
            0 <= i < names.len() && {
                let p = place(replies, i as nat);
                ||| p == replies.len() && a == jj_run(
                    seq!["workspace"@, "root"@, "--name"@, names[i]],
                    root,
                )
                ||| p + 1 == replies.len() && gives_dir(replies[p]) && a == jj_run(
                    seq![
                        "log"@,
                        "-r"@,
                        names[i] + "@"@,
                        "--no-graph"@,
                        "-T"@,
                        STATUS_TEMPLATE@,
                    ],
                    root,
                )
            },
        StepView::Done(Err(e)) => e == "failed to spawn `jj`"@ && exists|i: int|
            #![trigger names[i]]
            0 <= i < names.len() && place(replies, i as nat) < replies.len() && !was_started(
                replies[place(replies, i as nat)],
            ),
    }
}

proof fn filling_says(
    root: Seq<char>,
    names: Seq<Seq<char>>,
    replies: Seq<ReplyView>,
    i: int,
    done: Seq<WorktreeView>,
)
    requires
        0 <= i <= names.len(),
        replies.len() > 0,
        1 <= place(replies, i as nat) <= replies.len(),
        done.len() == i,
        forall|j: int|
            0 <= j < i ==> is_row_of(
                #[trigger] done[j],
                names[j],
                replies[place(replies, j as nat)],
                replies[place(replies, j as nat) + 1],
            ),
    ensures
        is_list_of(
            root,
            names,
            replies,
            filling(root, names.skip(i), replies.skip(place(replies, i as nat)), done).0,
        ),
    decreases names.len() - i,
{
    spawn_message();
    let p = place(replies, i as nat);
    let rest = replies.skip(p);
    let left = names.skip(i);
    if i < names.len() {
        assert(left[0] == names[i]);
        assert(left.drop_first() =~= names.skip(i + 1));
        if p < replies.len() {
            assert(rest[0] == replies[p]);
            assert(rest.drop_first() =~= replies.skip(p + 1));
            let dir = replies[p];
            assert(place(replies, (i + 1) as nat) == if gives_dir(dir) {
                p + 2
            } else {
                p + 1
            });
            if was_started(dir) {
                if !gives_dir(dir) {
                    let w = crate::vcs::jj::row(names[i], None, None);
                    assert(is_row_of(w, names[i], dir, replies[p + 1]));
                    let next = done.push(w);
                    assert forall|j: int| 0 <= j < i + 1 implies is_row_of(
                        #[trigger] next[j],
                        names[j],
                        replies[place(replies, j as nat)],
                        replies[place(replies, j as nat) + 1],
                    ) by {
                        if j < i {
                            assert(next[j] == done[j]);
                        }
                    }
                    filling_says(root, names, replies, i + 1, next);
                } else if p + 1 < replies.len() {
                    assert(rest[1] == replies[p + 1]);
                    assert(rest.skip(2) =~= replies.skip(p + 2));
                    let state = replies[p + 1];
                    let w = crate::vcs::jj::row(
                        names[i],
                        Some(text::trim(stdout_of(dir))),
                        read_status(state),
                    );
                    assert(is_row_of(w, names[i], dir, state));
                    let next = done.push(w);
                    assert forall|j: int| 0 <= j < i + 1 implies is_row_of(
                        #[trigger] next[j],
                        names[j],
                        replies[place(replies, j as nat)],
                        replies[place(replies, j as nat) + 1],
                    ) by {
                        if j < i {
                            assert(next[j] == done[j]);
                        }
                    }
                    filling_says(root, names, replies, i + 1, next);
                }
            }
        }
    }
}

/// The line names a workspace: white space aside, it has a colon.
pub open spec fn names_one(line: Seq<char>) -> bool {
    exists|k: int| 0 <= k < text::trim(line).len() && #[trigger] text::trim(line)[k] == ':'
}

/// `name` is what stands before the first colon of the line, without the white
/// space around it.
pub open spec fn is_name_on(name: Seq<char>, line: Seq<char>) -> bool {
    exists|k: int|
        #![trigger text::trim(line)[k]]
        {
            let l = text::trim(line);
            &&& 0 <= k < l.len()
            &&& l[k] == ':'
            &&& forall|j: int| 0 <= j < k ==> l[j] != ':'
            &&& name == text::trim(l.take(k))
        }
}

/// The workspaces that a list names are those on its lines that have a colon, in
/// order. `at` says on which line each of them is.
pub proof fn names_are_read_from_the_list(lines: Seq<Seq<char>>) -> (at: Seq<int>)
    ensures
        at.len() == workspace_names(lines).len(),
        forall|i: int|
            0 <= i < at.len() ==> 0 <= #[trigger] at[i] < lines.len() && is_name_on(
                workspace_names(lines)[i],
                lines[at[i]],
            ),
        forall|i: int, j: int| 0 <= i < j < at.len() ==> #[trigger] at[i] < #[trigger] at[j],
        forall|l: int| 0 <= l < lines.len() && names_one(#[trigger] lines[l]) ==> at.contains(l),
    decreases lines.len(),
{
    if lines.len() == 0 {
        Seq::empty()
    } else {
        let head = lines.drop_last();
        let before = names_are_read_from_the_list(head);
        let line = lines.last();
        let l = text::trim(line);
        let k = text::position(l, ':');
        position_is_first(l, ':');
        let n = lines.len() - 1;
        let at = if k < l.len() {
            before.push(n)
        } else {
            before
        };
        let names = workspace_names(lines);
        assert forall|i: int| 0 <= i < at.len() implies 0 <= #[trigger] at[i] < lines.len()
            && is_name_on(names[i], lines[at[i]]) by {
            if i < before.len() {
                assert(at[i] == before[i]);
                assert(names[i] == workspace_names(head)[i]);
                assert(lines[at[i]] == head[before[i]]);
            } else {
                assert(l[k] == ':');
                assert(names[i] == text::trim(l.take(k)));
            }
        }
        assert forall|i: int, j: int| 0 <= i < j < at.len() implies #[trigger] at[i]
            < #[trigger] at[j] by {
            assert(at[i] == before[i]);
            if j < before.len() {
                assert(at[j] == before[j]);
            }
        }
        assert forall|m: int| 0 <= m < lines.len() && names_one(#[trigger] lines[m]) implies at.contains(
            m,
        ) by {
            if m < n {
                assert(lines[m] == head[m]);
                let i = choose|i: int| 0 <= i < before.len() && before[i] == m;
                assert(at[i] == m);
            } else {
                assert(at[before.len() as int] == n);
            }
        }
        at
    }
}

pub proof fn position_is_first(s: Seq<char>, c: char)
    ensures
        0 <= text::position(s, c) <= s.len(),
        text::position(s, c) < s.len() ==> s[text::position(s, c)] == c,
        forall|j: int| 0 <= j < text::position(s, c) ==> s[j] != c,
    decreases s.len(),
{
    if s.len() > 0 && s[0] != c {
        let t = s.drop_first();
        position_is_first(t, c);
        assert forall|j: int| 0 <= j < text::position(s, c) implies s[j] != c by {
            if j > 0 {
                assert(t[j - 1] == s[j]);
            }
        }
    }
}

/// A state that was printed field by field is read back field by field.
pub proof fn states_are_read_back(
    a: Seq<char>,
    b: Seq<char>,
    c: Seq<char>,
    d: Seq<char>,
    e: Seq<char>,
    stderr: Seq<char>,
)
    requires
        text::trim(a).len() > 0,
        !a.contains('\x1f') && !b.contains('\x1f') && !c.contains('\x1f') && !d.contains('\x1f'),
    ensures
        ({
            let u = seq!['\x1f'];
            let stdout = a + u + (b + u + (c + u + (d + u + e)));
            match read_status(ReplyView::Ran(Some(OutputView { success: true, stdout, stderr }))) {
                Some(s) => {
                    &&& s.id == text::trim(a)
                    &&& s.bookmarks == if text::trim(b).len() > 0 {
                        Some(text::trim(b))
                    } else {
                        None
                    }
                    &&& s.dirty <==> text::trim(c) == "1"@
                    &&& s.conflict <==> text::trim(d) == "1"@
                    &&& s.desc == if text::trim(e).len() > 0 {
                        Some(text::trim(e))
                    } else {
                        None
                    }
                },
                None => false,
            }
        }),
{
    let u = seq!['\x1f'];
    let s4 = d + u + e;
    let s3 = c + u + s4;
    let s2 = b + u + s3;
    let s1 = a + u + s2;
    one_field(a, s2, 5);
    one_field(b, s3, 4);
    one_field(c, s4, 3);
    one_field(d, e, 2);
    let f = text::split_n(s1, '\x1f', 5);
    assert(text::split_n(e, '\x1f', 1) == seq![e]);
    assert(f =~= seq![a, b, c, d, e]);
}

proof fn one_field(a: Seq<char>, rest: Seq<char>, n: nat)
    requires
        !a.contains('\x1f'),
        n >= 2,
    ensures
        text::split_n(a + seq!['\x1f'] + rest, '\x1f', n) == seq![a] + text::split_n(
            rest,
            '\x1f',
            (n - 1) as nat,
        ),
{
    let s = a + seq!['\x1f'] + rest;
    position_is_first(s, '\x1f');
    let i = text::position(s, '\x1f');
    let k = a.len() as int;
    assert(s[k] == '\x1f');
    if i < k {
        assert(s[i] == a[i]);
        assert(a.contains(a[i]));
    }
    if i > k {
        assert(s[k] != '\x1f');
    }
    assert(s.take(k) =~= a);
    assert(s.skip(k + 1) =~= rest);
}

} // verus!
