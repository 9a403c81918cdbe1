//! Hooks: every entry of every hook is done once, in order.

use crate::hooks::{
    asking, failure, follows, next_at, scope, sides, AskedView, HookActionView, HookRunView,
    HookSpecView, HookStep, Progress,
};
use crate::layout;
use crate::paths;
use crate::render::{self, RenderingView, TableView};
use crate::text;
use vstd::prelude::*;

verus! {

/// The hook `h` has an entry `e`: a copy hook has one for each file, and any other
/// hook has one.
pub open spec fn has_entry(specs: Seq<HookSpecView>, h: int, e: int) -> bool {
    0 <= h < specs.len() && 0 <= e && match specs[h] {
        HookSpecView::Copy { files } => e < files.len(),
        HookSpecView::Symlink { .. } => e == 0,
        HookSpecView::Command { .. } => e == 0,
    }
}

/// The entry `e` of the hook `h` comes before the entry `f` of the hook `g`.
pub open spec fn earlier(h: int, e: int, g: int, f: int) -> bool {
    h < g || h == g && e < f
}

proof fn next_is_first(specs: Seq<HookSpecView>, h: int, e: int)
    requires
        0 <= h,
        0 <= e,
    ensures
        match next_at(specs, h, e) {
            Some((g, f)) => {
                &&& has_entry(specs, g, f)
                &&& !earlier(g, f, h, e)
                &&& forall|k: int, l: int|
                    has_entry(specs, k, l) && earlier(k, l, g, f) ==> earlier(k, l, h, e)
            },
            None => forall|k: int, l: int| has_entry(specs, k, l) ==> earlier(k, l, h, e),
        },
    decreases specs.len() - h,
{
    if h < specs.len() && !has_entry(specs, h, e) {
        next_is_first(specs, h + 1, 0);
    }
}

/// A step is the last exactly when no entry is left, and otherwise it is about the
/// first entry that is left.
pub proof fn no_entry_is_passed_over(
    specs: Seq<HookSpecView>,
    hr: HookRunView,
    at: Progress,
    replies: Seq<Result<Seq<char>, Seq<char>>>,
    step: HookStep,
)
    requires
        follows(specs, hr, at, replies, step),
    ensures
        step is Finished <==> forall|h: int, e: int|
            has_entry(specs, h, e) ==> earlier(h, e, at.hook as int, at.entry as int),
        match step {
            HookStep::Do(_, p) => {
                &&& has_entry(specs, p.hook as int, p.entry - 1)
                &&& !earlier(p.hook as int, p.entry - 1, at.hook as int, at.entry as int)
                &&& forall|h: int, e: int|
                    has_entry(specs, h, e) && earlier(h, e, p.hook as int, p.entry - 1)
                        ==> earlier(h, e, at.hook as int, at.entry as int)
            },
            _ => true,
        },
{
    next_is_first(specs, at.hook as int, at.entry as int);
}

/// One step leads to the next: it asks for something to be done, which goes well.
pub open spec fn goes_on(
    specs: Seq<HookSpecView>,
    hr: HookRunView,
    at: Progress,
    next: Progress,
) -> bool {
    exists|step: HookStep, replies: Seq<Result<Seq<char>, Seq<char>>>|
        #![trigger follows(specs, hr, at, replies, step)]
        follows(specs, hr, at, replies, step) && step is Do && step->Do_1 == next
}

/// A run of the hooks in which every step goes well has, once it is over, done
/// every entry of every hook, and each before those that come after it. `ats`
/// holds how far it had come before the first step and after each.
pub proof fn finished_run_did_everything(
    specs: Seq<HookSpecView>,
    hr: HookRunView,
    ats: Seq<Progress>,
    replies: Seq<Result<Seq<char>, Seq<char>>>,
    h: int,
    e: int,
)
    requires
        ats.len() > 0,
        ats[0].hook == 0 && ats[0].entry == 0,
        forall|i: int| 0 <= i < ats.len() - 1 ==> goes_on(specs, hr, #[trigger] ats[i], ats[i + 1]),
        follows(specs, hr, ats.last(), replies, HookStep::Finished),
        has_entry(specs, h, e),
    ensures
        exists|i: int| 0 < i < ats.len() && (#[trigger] ats[i]).hook == h && ats[i].entry == e + 1,
        forall|i: int, j: int|
            0 <= i < j < ats.len() ==> earlier(
                (#[trigger] ats[i]).hook as int,
                ats[i].entry as int,
                (#[trigger] ats[j]).hook as int,
                ats[j].entry as int,
            ),
{
    no_entry_is_passed_over(specs, hr, ats.last(), replies, HookStep::Finished);
    run_reaches(specs, hr, ats, ats.len() - 1, h, e);
    assert forall|i: int, j: int| 0 <= i < j < ats.len() implies earlier(
        (#[trigger] ats[i]).hook as int,
        ats[i].entry as int,
        (#[trigger] ats[j]).hook as int,
        ats[j].entry as int,
    ) by {
        run_advances(specs, hr, ats, i, j);
    }
}

proof fn run_reaches(
    specs: Seq<HookSpecView>,
    hr: HookRunView,
    ats: Seq<Progress>,
    n: int,
    h: int,
    e: int,
)
    requires
        0 <= n < ats.len(),
        ats[0].hook == 0 && ats[0].entry == 0,
        forall|i: int| 0 <= i < ats.len() - 1 ==> goes_on(specs, hr, #[trigger] ats[i], ats[i + 1]),
        has_entry(specs, h, e),
        earlier(h, e, ats[n].hook as int, ats[n].entry as int),
    ensures
        exists|i: int| 0 < i <= n && (#[trigger] ats[i]).hook == h && ats[i].entry == e + 1,
    decreases n,
{
    if n > 0 {
        let a = ats[n - 1];
        let b = ats[n];
        assert(goes_on(specs, hr, ats[n - 1], ats[n - 1 + 1]));
        let (step, rs) = choose|step: HookStep, rs: Seq<Result<Seq<char>, Seq<char>>>|
            #![trigger follows(specs, hr, a, rs, step)]
            follows(specs, hr, a, rs, step) && step is Do && step->Do_1 == b;
        no_entry_is_passed_over(specs, hr, a, rs, step);
        if earlier(h, e, a.hook as int, a.entry as int) {
            run_reaches(specs, hr, ats, n - 1, h, e);
        } else {
            assert(!earlier(h, e, b.hook as int, b.entry - 1));
            assert(ats[n].hook == h && ats[n].entry == e + 1);
        }
    }
}

proof fn run_advances(
    specs: Seq<HookSpecView>,
    hr: HookRunView,
    ats: Seq<Progress>,
    i: int,
    j: int,
)
    requires
        0 <= i < j < ats.len(),
        forall|i: int| 0 <= i < ats.len() - 1 ==> goes_on(specs, hr, #[trigger] ats[i], ats[i + 1]),
    ensures
        earlier(
            ats[i].hook as int,
            ats[i].entry as int,
            ats[j].hook as int,
            ats[j].entry as int,
        ),
    decreases j,
{
    let a = ats[j - 1];
    let b = ats[j];
    assert(goes_on(specs, hr, ats[j - 1], ats[j - 1 + 1]));
    let (step, rs) = choose|step: HookStep, rs: Seq<Result<Seq<char>, Seq<char>>>|
        #![trigger follows(specs, hr, a, rs, step)]
        follows(specs, hr, a, rs, step) && step is Do && step->Do_1 == b;
    no_entry_is_passed_over(specs, hr, a, rs, step);
    if i < j - 1 {
        run_advances(specs, hr, ats, i, j - 1);
    }
}

/// There is an arrow in the text.
pub open spec fn has_arrow(s: Seq<char>) -> bool {
    exists|i: int| 0 <= i < s.len() - 1 && #[trigger] s[i] == '-' && s[i + 1] == '>'
}

proof fn arrow_is_found(s: Seq<char>)
    ensures
        match text::find(s, "->"@) {
            Some(i) => 0 <= i < s.len() - 1 && s[i] == '-' && s[i + 1] == '>' && forall|j: int|
                0 <= j < i ==> !(#[trigger] s[j] == '-' && s[j + 1] == '>'),
            None => !has_arrow(s),
        },
{
    reveal_strlit("->");
    let p = "->"@;
    text::find_is_first(s, p);
    assert forall|j: int| 0 <= j < s.len() - 1 && #[trigger] s[j] == '-' && s[j + 1] == '>' implies text::occurs_at(
        s,
        p,
        j,
    ) by {
        assert(s.subrange(j, j + 2) =~= p);
    }
    if let Some(i) = text::find(s, p) {
        assert(s.subrange(i, i + 2)[0] == s[i]);
        assert(s.subrange(i, i + 2)[1] == s[i + 1]);
    }
}

/// An entry is split at its first arrow; both sides are what stands on either side
/// of it, and without an arrow both are the whole entry.
pub proof fn entries_are_split_at_their_arrow(a: Seq<char>, b: Seq<char>)
    requires
        !has_arrow(a),
    ensures
        sides(a) == (text::trim(a), text::trim(a)),
        sides(a + seq!['-', '>'] + b) == (text::trim(a), text::trim(b)),
{
    arrow_is_found(a);
    let s = a + seq!['-', '>'] + b;
    arrow_is_found(s);
    let n = a.len() as int;
    assert(s[n] == '-' && s[n + 1] == '>');
    if let Some(i) = text::find(s, "->"@) {
        if i < n {
            if i + 1 < n {
                assert(a[i] == '-' && a[i + 1] == '>');
            } else {
                assert(s[i + 1] == '-');
            }
        }
        if i > n {
            assert(!(s[n] == '-' && s[n + 1] == '>'));
        }
        assert(s.take(n) =~= a);
        assert(s.skip(n + 2) =~= b);
    }
}

/// Copies go from the repository to the worktree, each side of a rendered entry
/// taken from its own root.
pub proof fn copies_go_to_the_worktree(
    files: Seq<Seq<char>>,
    k: int,
    hr: HookRunView,
    replies: Seq<Result<Seq<char>, Seq<char>>>,
    entry: Seq<char>,
)
    requires
        render::rendering(files[k], scope(hr), replies).0 == RenderingView::Done(Ok(entry)),
    ensures
        asking(HookSpecView::Copy { files }, k, hr, replies) == AskedView::Act(
            HookActionView::Copy {
                src: paths::join(hr.repo_root, sides(entry).0, hr.windows),
                dst: paths::join(hr.worktree_path, sides(entry).1, hr.windows),
            },
        ),
{
}

/// Links in the worktree point into the repository. Both templates have to be
/// rendered, and the second takes its reply after the first.
pub proof fn links_point_into_the_repository(
    src: Seq<char>,
    dst: Seq<char>,
    k: int,
    hr: HookRunView,
    replies: Seq<Result<Seq<char>, Seq<char>>>,
    s: Seq<char>,
    d: Seq<char>,
)
    requires
        render::rendering(src, scope(hr), replies).0 == RenderingView::Done(Ok(s)),
        render::rendering(dst, scope(hr), render::rendering(src, scope(hr), replies).1).0
            == RenderingView::Done(Ok(d)),
    ensures
        asking(HookSpecView::Symlink { src, dst }, k, hr, replies) == AskedView::Act(
            HookActionView::Link {
                target: paths::join(hr.repo_root, s, hr.windows),
                link: paths::join(hr.worktree_path, d, hr.windows),
            },
        ),
{
}

/// A command runs in the worktree, as the last argument of a shell: the one that
/// is named, where it is known, or else that of the platform. A shell that is not
/// known is refused.
pub proof fn commands_run_in_the_worktree(
    run: Seq<char>,
    shell: Option<Seq<char>>,
    k: int,
    hr: HookRunView,
    replies: Seq<Result<Seq<char>, Seq<char>>>,
    line: Seq<char>,
)
    requires
        render::rendering(run, scope(hr), replies).0 == RenderingView::Done(Ok(line)),
    ensures
        match asking(HookSpecView::Command { run, shell }, k, hr, replies) {
            AskedView::Act(HookActionView::Run(i)) => {
                &&& i.dir == hr.worktree_path
                &&& !i.capture
                &&& i.args.len() > 0 && i.args.last() == line
                &&& shell is None || shell == Some("auto"@) ==> i.program == if hr.windows {
                    "pwsh"@
                } else {
                    "bash"@
                }
                &&& shell == Some("pwsh"@) || shell == Some("powershell"@) ==> i.program
                    == "powershell"@
                &&& shell == Some("bash"@) || shell == Some("sh"@) || shell == Some("zsh"@)
                    || shell == Some("cmd"@) ==> i.program == shell->0
                &&& i.args.drop_last() == if i.program == "pwsh"@ || i.program
                    == "powershell"@ {
                    seq!["-NoProfile"@, "-Command"@]
                } else if i.program == "cmd"@ {
                    seq!["/C"@]
                } else {
                    seq!["-c"@]
                }
            },
            AskedView::Fail(e) => shell is Some && e == "unknown shell: "@ + shell->0,
            _ => false,
        },
        asking(HookSpecView::Command { run, shell }, k, hr, replies) is Fail <==> {
            &&& shell is Some
            &&& shell->0 != "auto"@
            &&& shell->0 != "pwsh"@
            &&& shell->0 != "powershell"@
            &&& shell->0 != "bash"@
            &&& shell->0 != "sh"@
            &&& shell->0 != "zsh"@
            &&& shell->0 != "cmd"@
        },
{
    shells_differ();
    if let AskedView::Act(HookActionView::Run(i)) = asking(
        HookSpecView::Command { run, shell },
        k,
        hr,
        replies,
    ) {
        let before = i.args.drop_last();
        if i.program == "pwsh"@ || i.program == "powershell"@ {
            assert(before =~= seq!["-NoProfile"@, "-Command"@]);
        } else if i.program == "cmd"@ {
            assert(before =~= seq!["/C"@]);
        } else {
            assert(before =~= seq!["-c"@]);
        }
    }
}

proof fn shells_differ()
    ensures
        "auto"@ != "pwsh"@,
        "auto"@ != "powershell"@,
        "auto"@ != "bash"@,
        "auto"@ != "sh"@,
        "auto"@ != "zsh"@,
        "auto"@ != "cmd"@,
        "pwsh"@ != "powershell"@,
        "pwsh"@ != "bash"@,
        "pwsh"@ != "cmd"@,
        "pwsh"@ != "sh"@,
        "pwsh"@ != "zsh"@,
        "powershell"@ != "bash"@,
        "powershell"@ != "cmd"@,
        "powershell"@ != "sh"@,
        "powershell"@ != "zsh"@,
        "cmd"@ != "bash"@,
        "cmd"@ != "sh"@,
        "cmd"@ != "zsh"@,
{
    reveal_strlit("auto");
    reveal_strlit("pwsh");
    reveal_strlit("powershell");
    reveal_strlit("bash");
    reveal_strlit("sh");
    reveal_strlit("zsh");
    reveal_strlit("cmd");
    assert("auto"@[0] == 'a' && "pwsh"@[0] == 'p' && "bash"@[0] == 'b');
    assert("cmd"@[0] == 'c' && "zsh"@[0] == 'z' && "sh"@[0] == 's');
    assert("pwsh"@.len() == 4 && "powershell"@.len() == 10);
}

/// A template that cannot be rendered fails its hook, with that message, and
/// nothing is done.
pub proof fn failed_templates_fail_their_hook(
    spec: HookSpecView,
    k: int,
    hr: HookRunView,
    replies: Seq<Result<Seq<char>, Seq<char>>>,
    first: Seq<char>,
    message: Seq<char>,
)
    requires
        first == match spec {
            HookSpecView::Copy { files } => files[k],
            HookSpecView::Symlink { src, .. } => src,
            HookSpecView::Command { run, .. } => run,
        },
        render::rendering(first, scope(hr), replies).0 == RenderingView::Done(Err(message)),
    ensures
        asking(spec, k, hr, replies) == AskedView::Fail(message),
{
}

/// What a step comes to is what the entry that it is about wants, and no other
/// entry: it is done, or its template is rendered, or the hook is said to have
/// failed, by its kind and for a command by its text.
pub proof fn steps_do_what_their_entry_wants(
    specs: Seq<HookSpecView>,
    hr: HookRunView,
    at: Progress,
    replies: Seq<Result<Seq<char>, Seq<char>>>,
    step: HookStep,
)
    requires
        follows(specs, hr, at, replies, step),
    ensures
        match step {
            HookStep::Do(a, p) => asking(specs[p.hook as int], p.entry - 1, hr, replies)
                == AskedView::Act(a.deep_view()),
            _ => true,
        },
        has_entry(specs, at.hook as int, at.entry as int) ==> match asking(
            specs[at.hook as int],
            at.entry as int,
            hr,
            replies,
        ) {
            AskedView::Act(a) => step is Do && step->Do_0.deep_view() == a && step->Do_1.hook
                == at.hook && step->Do_1.entry == at.entry + 1,
            AskedView::Render(t) => step is Render && step->Render_0.deep_view() == t,
            AskedView::Fail(e) => step is Failed && step->Failed_1@ == e && step->Failed_0@
                == match specs[at.hook as int] {
                HookSpecView::Copy { .. } => "copy hook failed"@,
                HookSpecView::Symlink { .. } => "symlink hook failed"@,
                HookSpecView::Command { run, .. } => "command hook failed: "@ + run,
            },
        },
{
    next_is_first(specs, at.hook as int, at.entry as int);
}

/// A hook that failed when its action was done is said to have failed by its kind,
/// and for a command by its text.
pub proof fn failed_hooks_are_named(spec: HookSpecView)
    ensures
        failure(spec) == match spec {
            HookSpecView::Copy { .. } => "copy hook failed"@,
            HookSpecView::Symlink { .. } => "symlink hook failed"@,
            HookSpecView::Command { run, .. } => "command hook failed: "@ + run,
        },
{
}

/// What a hook's template can name: where the worktree and the repository are, and
/// the owner, name, host and branch of the repository, as a layout's template can.
pub proof fn templates_name_where_they_run(hr: HookRunView)
    ensures
        render::value(scope(hr), "worktree"@, "path"@) == Some(hr.worktree_path),
        render::value(scope(hr), "repo"@, "root"@) == Some(hr.repo_root),
        forall|sc: Seq<TableView>|
            sc == scope(hr) || sc == layout::scope(hr.vcs) ==> {
                &&& #[trigger] render::value(sc, "vcs"@, "owner"@) == Some(hr.vcs.owner)
                &&& render::value(sc, "vcs"@, "repo"@) == Some(hr.vcs.repo)
                &&& render::value(sc, "vcs"@, "host"@) == hr.vcs.host
                &&& render::value(sc, "vcs"@, "branch"@) == Some(hr.vcs.branch)
            },
{
    reveal_strlit("worktree");
    reveal_strlit("repo");
    reveal_strlit("vcs");
    reveal_strlit("owner");
    reveal_strlit("host");
    reveal_strlit("branch");
    assert("worktree"@.len() == 8 && "repo"@.len() == 4 && "vcs"@.len() == 3);
    assert("owner"@.len() == 5 && "branch"@.len() == 6);
    assert("repo"@[0] == 'r' && "host"@[0] == 'h');
    let table = layout::vcs_table(hr.vcs);
    let all = scope(hr);
    assert(all.drop_last().last() == all[1]);
    assert(all.drop_last().drop_last() =~= seq![table]);
    let fields = table.fields;
    let three = fields.drop_last();
    let two = three.drop_last();
    let one = two.drop_last();
    assert(fields.last() == fields[3] && three.last() == fields[2]);
    assert(two.last() == fields[1] && one.last() == fields[0]);
    reveal_with_fuel(render::value, 4);
    reveal_with_fuel(render::field_value, 5);
}

} // verus!
