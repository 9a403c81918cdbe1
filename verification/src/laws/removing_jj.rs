//! Removing and pruning jj workspaces.

use crate::laws::listing_jj::{gives_dir, place};
use crate::laws::programs::{shows, went_well};
use crate::paths;
use crate::process::{ActionView, ReplyView, StepView};
use crate::text;
use crate::vcs::jj::{
    self, canonical, first_named, first_words, listing_from, names_remote, origin, origin_among,
    pruning, pruning_rows, remote_of, removing, row_at, workspace_names,
};
use crate::vcs::WorktreeView;
use vstd::prelude::*;

verus! {

/// The path that a reply resolved to.
pub open spec fn resolved(reply: ReplyView) -> Option<Seq<char>> {
    match reply {
        ReplyView::Resolved(p) => p,
        _ => None,
    }
}

/// The row is at `path`: as they are resolved, or as they stand, both have the same
/// components.
pub open spec fn is_there(
    w: WorktreeView,
    there: ReplyView,
    path: Seq<char>,
    full: ReplyView,
    windows: bool,
) -> bool {
    ||| resolved(there) is Some && resolved(full) is Some && paths::components(
        resolved(there)->0,
        windows,
    ) == paths::components(resolved(full)->0, windows)
    ||| paths::components(w.path, windows) == paths::components(path, windows)
}

/// What is done about the workspace `w` at `path`: it is forgotten, and then what
/// is left of its directory is deleted. The default workspace is refused.
pub open spec fn is_dropped(
    root: Seq<char>,
    path: Seq<char>,
    w: WorktreeView,
    left: Seq<ReplyView>,
    step: StepView<()>,
) -> bool {
    if w.is_main {
        step == StepView::Done(Err::<(), Seq<char>>("cannot forget the default jj workspace"@))
    } else if left.len() == 0 {
        step == StepView::<()>::Do(shows("jj"@, seq!["workspace"@, "forget"@, w.name], root))
    } else if !went_well(left[0]) {
        step is Done && step->Done_0 is Err
    } else if left.len() == 1 {
        step == StepView::<()>::Do(ActionView::Look(path))
    } else if left[1] != ReplyView::Found(true) {
        step == StepView::Done(Ok::<(), Seq<char>>(()))
    } else if left.len() == 2 {
        step == StepView::<()>::Do(ActionView::Delete(path))
    } else {
        step is Done && (step->Done_0 is Ok <==> left[2] == ReplyView::Deleted(true))
    }
}

proof fn row_at_skips(
    rows: Seq<WorktreeView>,
    path: Seq<char>,
    full: ReplyView,
    windows: bool,
    replies: Seq<ReplyView>,
    i: int,
)
    requires
        0 <= i <= rows.len(),
        i <= replies.len(),
        forall|j: int| 0 <= j < i ==> !is_there(#[trigger] rows[j], replies[j], path, full, windows),
    ensures
        row_at(rows, path, canonical(full), windows, replies) == row_at(
            rows.skip(i),
            path,
            canonical(full),
            windows,
            replies.skip(i),
        ),
    decreases i,
{
    if i == 0 {
        assert(rows.skip(0) =~= rows);
        assert(replies.skip(0) =~= replies);
    } else {
        row_at_skips(rows, path, full, windows, replies, i - 1);
        let a = rows.skip(i - 1);
        let b = replies.skip(i - 1);
        assert(a[0] == rows[i - 1] && b[0] == replies[i - 1]);
        assert(!is_there(rows[i - 1], replies[i - 1], path, full, windows));
        assert(a.drop_first() =~= rows.skip(i));
        assert(b.drop_first() =~= replies.skip(i));
    }
}

/// The workspace that is removed is the first of the list that is at the path, and
/// no other. Where none is, nothing is removed.
pub proof fn jj_removes_the_workspace_there(
    root: Seq<char>,
    path: Seq<char>,
    windows: bool,
    replies: Seq<ReplyView>,
    rows: Seq<WorktreeView>,
    rest: Seq<ReplyView>,
    i: int,
)
    requires
        listing_from(root, replies) == (StepView::Done(Ok::<Seq<WorktreeView>, Seq<char>>(rows)), rest),
        0 <= i <= rows.len(),
        rest.len() > 0 ==> i + 1 <= rest.len() && forall|j: int|
            0 <= j < i ==> !is_there(#[trigger] rows[j], rest[j + 1], path, rest[0], windows),
    ensures
        ({
            let step = removing(root, path, windows, replies);
            if rest.len() == 0 {
                step == StepView::<()>::Do(ActionView::Resolve(path))
            } else if i == rows.len() {
                step == StepView::Done(Err::<(), Seq<char>>("no jj workspace at "@ + path))
            } else if rest.len() == i + 1 {
                step == StepView::<()>::Do(ActionView::Resolve(rows[i].path))
            } else if is_there(rows[i], rest[i + 1], path, rest[0], windows) {
                is_dropped(root, path, rows[i], rest.skip(i + 2), step)
            } else {
                true
            }
        }),
{
    if rest.len() > 0 {
        let later = rest.drop_first();
        assert forall|j: int| 0 <= j < i implies !is_there(
            #[trigger] rows[j],
            later[j],
            path,
            rest[0],
            windows,
        ) by {
            assert(later[j] == rest[j + 1]);
        }
        row_at_skips(rows, path, rest[0], windows, later, i);
        let a = rows.skip(i);
        let b = later.skip(i);
        if i < rows.len() {
            assert(a[0] == rows[i]);
            if i + 1 < rest.len() {
                assert(b[0] == rest[i + 1]);
                assert(b.drop_first() =~= rest.skip(i + 2));
            }
        }
    }
}

/// The replies that follow those of a list are what is left of all replies.
pub proof fn list_takes_its_replies(root: Seq<char>, replies: Seq<ReplyView>)
    requires
        replies.len() > 0,
        replies[0] matches ReplyView::Ran(Some(o)) && o.success,
        listing_from(root, replies).0 is Done,
        listing_from(root, replies).0->Done_0 is Ok,
    ensures
        ({
            let names = workspace_names(text::lines(replies[0]->Ran_0->0.stdout));
            listing_from(root, replies).1 == replies.skip(place(replies, names.len()))
        }),
{
    let names = workspace_names(text::lines(replies[0]->Ran_0->0.stdout));
    assert(names.skip(0) =~= names);
    assert(replies.skip(1) =~= replies.drop_first());
    filling_takes(root, names, replies, 0, seq![]);
}

proof fn filling_takes(
    root: Seq<char>,
    names: Seq<Seq<char>>,
    replies: Seq<ReplyView>,
    i: int,
    done: Seq<WorktreeView>,
)
    requires
        0 <= i <= names.len(),
        1 <= place(replies, i as nat) <= replies.len(),
    ensures
        ({
            let (step, rest) = jj::filling(
                root,
                names.skip(i),
                replies.skip(place(replies, i as nat)),
                done,
            );
            step is Done && step->Done_0 is Ok ==> rest == replies.skip(
                place(replies, names.len()),
            )
        }),
    decreases names.len() - i,
{
    let p = place(replies, i as nat);
    let rest = replies.skip(p);
    let left = names.skip(i);
    if i < names.len() && p < replies.len() {
        assert(left[0] == names[i]);
        assert(left.drop_first() =~= names.skip(i + 1));
        assert(rest[0] == replies[p]);
        assert(rest.drop_first() =~= replies.skip(p + 1));
        assert(place(replies, (i + 1) as nat) == if gives_dir(replies[p]) {
            p + 2
        } else {
            p + 1
        });
        match jj::read_root(replies[p]) {
            Err(_) => {},
            Ok(None) => {
                filling_takes(root, names, replies, i + 1, done.push(jj::row(names[i], None, None)));
            },
            Ok(Some(path)) => {
                if p + 1 < replies.len() {
                    assert(rest[1] == replies[p + 1]);
                    assert(rest.skip(2) =~= replies.skip(p + 2));
                    filling_takes(
                        root,
                        names,
                        replies,
                        i + 1,
                        done.push(
                            jj::row(names[i], Some(path), jj::read_status(replies[p + 1])),
                        ),
                    );
                }
            },
        }
    }
}

/// The row is looked for: it is not the main one, not known to be gone, and has a
/// path.
pub open spec fn is_looked_for(w: WorktreeView) -> bool {
    !w.is_main && !w.is_stale && w.path.len() > 0
}

/// The row is forgotten: it is not the main one, and is known to be gone or not
/// found when looked for.
pub open spec fn is_gone(w: WorktreeView, look: ReplyView) -> bool {
    !w.is_main && (w.is_stale || is_looked_for(w) && look != ReplyView::Found(true))
}

/// Where the replies about the `i`th row begin: those before it take one for a look
/// and one for being forgotten.
pub open spec fn prune_place(rows: Seq<WorktreeView>, replies: Seq<ReplyView>, i: nat) -> int
    decreases i,
{
    if i == 0 {
        0
    } else {
        let w = rows[i - 1];
        let p = prune_place(rows, replies, (i - 1) as nat);
        let q = if is_looked_for(w) {
            p + 1
        } else {
            p
        };
        if is_gone(w, replies[p]) {
            q + 1
        } else {
            q
        }
    }
}

/// The reply to the order to forget the `i`th row.
pub open spec fn forget_reply(rows: Seq<WorktreeView>, replies: Seq<ReplyView>, i: int) -> int {
    let p = prune_place(rows, replies, i as nat);
    if is_looked_for(rows[i]) {
        p + 1
    } else {
        p
    }
}

/// The names of those of the first `n` rows that were forgotten.
pub open spec fn forgotten(rows: Seq<WorktreeView>, replies: Seq<ReplyView>, n: nat) -> Seq<
    Seq<char>,
>
    decreases n,
{
    if n == 0 {
        seq![]
    } else {
        let i = n - 1;
        forgotten(rows, replies, (n - 1) as nat) + if is_gone(
            rows[i],
            replies[prune_place(rows, replies, i as nat)],
        ) && went_well(replies[forget_reply(rows, replies, i)]) {
            seq![rows[i].name]
        } else {
            seq![]
        }
    }
}

/// Where pruning these rows stands after these replies: each row that may be gone
/// is looked for, each that is gone is forgotten, and in the end the names of those
/// that were are told. It fails only where `jj` could not be started.
pub open spec fn is_pruned(
    root: Seq<char>,
    rows: Seq<WorktreeView>,
    replies: Seq<ReplyView>,
    step: StepView<Seq<char>>,
) -> bool {
    match step {
        StepView::Done(Ok(told)) => {
            let names = forgotten(rows, replies, rows.len());
            &&& prune_place(rows, replies, rows.len()) <= replies.len()
            &&& names.len() == 0 ==> told.len() == 0
            &&& names.len() > 0 ==> told == "forgot stale workspace(s): "@ + text::join(names, ", "@)
        },
        StepView::Do(a) => exists|i: int|
            #![trigger rows[i]]
            0 <= i < rows.len() && {
                let p = prune_place(rows, replies, i as nat);
                ||| is_looked_for(rows[i]) && p == replies.len() && a == ActionView::Look(
                    rows[i].path,
                )
                ||| (is_looked_for(rows[i]) ==> p < replies.len()) && is_gone(rows[i], replies[p])
                    && forget_reply(rows, replies, i) == replies.len() && a == shows(
                    "jj"@,
                    seq!["workspace"@, "forget"@, rows[i].name],
                    root,
                )
            },
        StepView::Done(Err(_)) => exists|i: int|
            #![trigger rows[i]]
            0 <= i < rows.len() && {
                let f = forget_reply(rows, replies, i);
                &&& f < replies.len()
                &&& is_gone(rows[i], replies[prune_place(rows, replies, i as nat)])
                &&& !(replies[f] matches ReplyView::Ran(Some(_)))
            },
    }
}

proof fn pruning_says(
    root: Seq<char>,
    rows: Seq<WorktreeView>,
    replies: Seq<ReplyView>,
    i: int,
)
    requires
        0 <= i <= rows.len(),
        0 <= prune_place(rows, replies, i as nat) <= replies.len(),
    ensures
        is_pruned(
            root,
            rows,
            replies,
            pruning_rows(
                root,
                rows.skip(i),
                replies.skip(prune_place(rows, replies, i as nat)),
                forgotten(rows, replies, i as nat),
            ),
        ),
    decreases rows.len() - i,
{
    let p = prune_place(rows, replies, i as nat);
    let rest = replies.skip(p);
    let left = rows.skip(i);
    let names = forgotten(rows, replies, i as nat);
    if i < rows.len() {
        let w = rows[i];
        assert(left[0] == w);
        assert(left.drop_first() =~= rows.skip(i + 1));
        let next = forgotten(rows, replies, (i + 1) as nat);
        if is_looked_for(w) {
            if p < replies.len() {
                assert(rest[0] == replies[p]);
                assert(rest.skip(1) =~= replies.skip(p + 1));
                if is_gone(w, replies[p]) {
                    if p + 1 < replies.len() {
                        let after = replies.skip(p + 1);
                        assert(after[0] == replies[p + 1]);
                        assert(after.drop_first() =~= replies.skip(p + 2));
                        assert(next =~= if went_well(replies[p + 1]) {
                            names.push(w.name)
                        } else {
                            names
                        });
                        if replies[p + 1] matches ReplyView::Ran(Some(_)) {
                            pruning_says(root, rows, replies, i + 1);
                        }
                    }
                } else {
                    assert(next =~= names);
                    pruning_says(root, rows, replies, i + 1);
                }
            }
        } else {
            assert(rest.skip(0) =~= rest);
            if is_gone(w, replies[p]) {
                if p < replies.len() {
                    assert(rest[0] == replies[p]);
                    assert(rest.drop_first() =~= replies.skip(p + 1));
                    assert(next =~= if went_well(replies[p]) {
                        names.push(w.name)
                    } else {
                        names
                    });
                    if replies[p] matches ReplyView::Ran(Some(_)) {
                        pruning_says(root, rows, replies, i + 1);
                    }
                }
            } else {
                assert(next =~= names);
                pruning_says(root, rows, replies, i + 1);
            }
        }
    }
}

/// Pruning goes through the whole list: every workspace that is gone is forgotten,
/// and no other.
pub proof fn gone_workspaces_are_forgotten(
    root: Seq<char>,
    replies: Seq<ReplyView>,
    rows: Seq<WorktreeView>,
    rest: Seq<ReplyView>,
)
    requires
        listing_from(root, replies) == (StepView::Done(Ok::<Seq<WorktreeView>, Seq<char>>(rows)), rest),
    ensures
        is_pruned(root, rows, rest, pruning(root, replies)),
{
    assert(rows.skip(0) =~= rows);
    assert(rest.skip(0) =~= rest);
    pruning_says(root, rows, rest, 0);
}

/// As long as the list is not there, removing and pruning do nothing but list.
pub proof fn lists_come_first(
    root: Seq<char>,
    path: Seq<char>,
    windows: bool,
    replies: Seq<ReplyView>,
)
    ensures
        match listing_from(root, replies).0 {
            StepView::Do(a) => removing(root, path, windows, replies) == StepView::<()>::Do(a)
                && pruning(root, replies) == StepView::<Seq<char>>::Do(a),
            StepView::Done(Err(e)) => removing(root, path, windows, replies) == StepView::Done(
                Err::<(), Seq<char>>(e),
            ) && pruning(root, replies) == StepView::Done(Err::<Seq<char>, Seq<char>>(e)),
            StepView::Done(Ok(_)) => true,
        },
{
}

/// The line gives the URL of `origin`, after a space or a colon and a space.
pub open spec fn gives_origin(line: Seq<char>) -> bool {
    "origin "@.is_prefix_of(text::trim(line)) || "origin: "@.is_prefix_of(text::trim(line))
}

/// `url` is what the line gives.
pub open spec fn is_origin_on(url: Seq<char>, line: Seq<char>) -> bool {
    let l = text::trim(line);
    ||| "origin "@.is_prefix_of(l) && url == text::trim(l.skip("origin "@.len() as int))
    ||| "origin: "@.is_prefix_of(l) && url == text::trim(l.skip("origin: "@.len() as int))
}

proof fn origin_is_first(lines: Seq<Seq<char>>)
    ensures
        match origin_among(lines) {
            Some(url) => exists|i: int|
                0 <= i < lines.len() && is_origin_on(url, #[trigger] lines[i]) && forall|j: int|
                    0 <= j < i ==> !gives_origin(#[trigger] lines[j]),
            None => forall|j: int| 0 <= j < lines.len() ==> !gives_origin(#[trigger] lines[j]),
        },
    decreases lines.len(),
{
    if lines.len() > 0 {
        let t = lines.drop_first();
        origin_is_first(t);
        if gives_origin(lines[0]) {
            assert(is_origin_on(origin_among(lines)->0, lines[0]));
        } else {
            assert forall|j: int| 0 < j < lines.len() implies lines[j] == t[j - 1] by {}
            if let Some(url) = origin_among(t) {
                let i = choose|i: int|
                    0 <= i < t.len() && is_origin_on(url, #[trigger] t[i]) && forall|j: int|
                        0 <= j < i ==> !gives_origin(#[trigger] t[j]);
                assert(is_origin_on(url, lines[i + 1]));
                assert forall|j: int| 0 <= j < i + 1 implies !gives_origin(#[trigger] lines[j]) by {
                    if j > 0 {
                        assert(lines[j] == t[j - 1]);
                    }
                }
            } else {
                assert forall|j: int| 0 <= j < lines.len() implies !gives_origin(
                    #[trigger] lines[j],
                ) by {
                    if j > 0 {
                        assert(lines[j] == t[j - 1]);
                    }
                }
            }
        }
    }
}

/// The URL of `origin` for jj is what the first line that gives it gives, and there
/// is none where no line does or `jj` failed.
pub proof fn jj_origin_is_read(root: Seq<char>, reply: ReplyView, rest: Seq<ReplyView>)
    ensures
        match origin(root, seq![reply] + rest) {
            StepView::Done(Ok(Some(url))) => reply matches ReplyView::Ran(Some(o)) && o.success
                && exists|i: int|
                0 <= i < text::lines(o.stdout).len() && is_origin_on(
                    url,
                    #[trigger] text::lines(o.stdout)[i],
                ) && forall|j: int|
                    0 <= j < i ==> !gives_origin(#[trigger] text::lines(o.stdout)[j]),
            StepView::Done(Ok(None)) => match reply {
                ReplyView::Ran(Some(o)) => !o.success || forall|j: int|
                    0 <= j < text::lines(o.stdout).len() ==> !gives_origin(
                        #[trigger] text::lines(o.stdout)[j],
                    ),
                _ => true,
            },
            _ => false,
        },
{
    assert((seq![reply] + rest)[0] == reply);
    if let ReplyView::Ran(Some(o)) = reply {
        origin_is_first(text::lines(o.stdout));
    }
}

/// The revision ends with `@` and the remote, or has a range operator after that.
pub open spec fn is_bookmark_of(rev: Seq<char>, remote: Seq<char>) -> bool {
    let n = 1 + remote.len();
    exists|i: int|
        #![trigger rev[i]]
        {
            &&& 0 <= i && i + n <= rev.len()
            &&& rev[i] == '@'
            &&& rev.subrange(i + 1, i + n) == remote
            &&& i + n == rev.len() || i + n + 2 <= rev.len() && rev[i + n] == '.' && rev[i + n + 1]
                == '.'
        }
}

proof fn naming_is_exact(rev: Seq<char>, remote: Seq<char>)
    ensures
        names_remote(rev, remote) <==> is_bookmark_of(rev, remote),
{
    reveal_strlit("..");
    reveal_strlit("@");
    let p = "@"@ + remote;
    let q = p + ".."@;
    let n = p.len() as int;
    text::find_is_first(rev, q);
    if p.is_suffix_of(rev) {
        let i = rev.len() - n;
        at_sign(rev, remote, i);
        assert(rev.subrange(i, i + n) =~= rev.skip(i));
        assert(rev[i] == '@');
    }
    if text::contains(rev, q) {
        let i = text::find(rev, q)->0;
        assert(text::occurs_at(rev, q, i));
        let w = rev.subrange(i, i + q.len());
        assert(rev.subrange(i, i + n) =~= w.subrange(0, n));
        assert(q.subrange(0, n) =~= p);
        assert(w[n] == rev[i + n] && w[n + 1] == rev[i + n + 1]);
        assert(q[n] == '.' && q[n + 1] == '.');
        at_sign(rev, remote, i);
        assert(rev[i] == '@');
    }
    if is_bookmark_of(rev, remote) {
        let i = choose|i: int|
            #![trigger rev[i]]
            {
                &&& 0 <= i && i + n <= rev.len()
                &&& rev[i] == '@'
                &&& rev.subrange(i + 1, i + n) == remote
                &&& i + n == rev.len() || i + n + 2 <= rev.len() && rev[i + n] == '.' && rev[i + n
                    + 1] == '.'
            };
        at_sign(rev, remote, i);
        if i + n == rev.len() {
            assert(rev.skip(i) =~= rev.subrange(i, i + n));
            assert(p.is_suffix_of(rev));
        } else {
            assert(rev.subrange(i, i + q.len()) =~= q) by {
                assert forall|k: int| 0 <= k < q.len() implies rev[i + k] == q[k] by {
                    if k < n {
                        assert(rev.subrange(i, i + n)[k] == rev[i + k]);
                    }
                }
            }
            assert(text::occurs_at(rev, q, i));
        }
    }
}

proof fn at_sign(rev: Seq<char>, remote: Seq<char>, i: int)
    requires
        0 <= i && i + 1 + remote.len() <= rev.len(),
    ensures
        rev.subrange(i, i + 1 + remote.len()) == "@"@ + remote <==> rev[i] == '@' && rev.subrange(
            i + 1,
            i + 1 + remote.len(),
        ) == remote,
{
    reveal_strlit("@");
    let n = 1 + remote.len();
    let a = rev.subrange(i, i + n);
    let b = rev.subrange(i + 1, i + n);
    assert(a =~= seq![rev[i]] + b);
    let p = "@"@ + remote;
    if a == p {
        assert(a[0] == p[0]);
        assert(b =~= a.skip(1));
        assert(p.skip(1) =~= remote);
    } else if rev[i] == '@' && b == remote {
        assert(a =~= p);
    }
}

/// The remote that a revision names for jj: the first of those that `jj` lists, one
/// on each line by its first word, whose bookmark the revision is or begins a range
/// with. There is none where no remote is named.
pub proof fn jj_revisions_name_a_remote(
    root: Seq<char>,
    rev: Seq<char>,
    reply: ReplyView,
    rest: Seq<ReplyView>,
)
    ensures
        match (remote_of(root, rev, seq![reply] + rest), reply) {
            (StepView::Done(Ok(Some(r))), ReplyView::Ran(Some(o))) => {
                let words = first_words(text::lines(o.stdout));
                o.success && exists|i: int|
                    0 <= i < words.len() && #[trigger] words[i] == r && is_bookmark_of(rev, r)
                        && forall|j: int| 0 <= j < i ==> !is_bookmark_of(rev, #[trigger] words[j])
            },
            (StepView::Done(Ok(None)), ReplyView::Ran(Some(o))) => {
                let words = first_words(text::lines(o.stdout));
                o.success ==> forall|j: int|
                    0 <= j < words.len() ==> !is_bookmark_of(rev, #[trigger] words[j])
            },
            (StepView::Done(Ok(None)), _) => true,
            _ => false,
        },
{
    assert((seq![reply] + rest)[0] == reply);
    if let ReplyView::Ran(Some(o)) = reply {
        let words = first_words(text::lines(o.stdout));
        jj::named_remote_is_a_remote(rev, words);
        assert forall|j: int| 0 <= j < words.len() implies names_remote(rev, #[trigger] words[j])
            == is_bookmark_of(rev, words[j]) by {
            naming_is_exact(rev, words[j]);
        }
        if let Some(r) = first_named(rev, words) {
            naming_is_exact(rev, r);
        }
    }
}

/// The first words of lines: one for each line that has any, in order. `at` says on
/// which line each of them is.
pub proof fn first_words_are_of_each_line(lines: Seq<Seq<char>>) -> (at: Seq<int>)
    ensures
        at.len() == first_words(lines).len(),
        forall|i: int|
            0 <= i < at.len() ==> 0 <= #[trigger] at[i] < lines.len() && first_words(lines)[i]
                == text::first_word(lines[at[i]]),
        forall|i: int, j: int| 0 <= i < j < at.len() ==> #[trigger] at[i] < #[trigger] at[j],
        forall|l: int|
            0 <= l < lines.len() && text::first_word(#[trigger] lines[l]).len() > 0 ==> at.contains(
                l,
            ),
    decreases lines.len(),
{
    if lines.len() == 0 {
        Seq::empty()
    } else {
        let head = lines.drop_last();
        let before = first_words_are_of_each_line(head);
        let n = lines.len() - 1;
        let w = text::first_word(lines.last());
        let at = if w.len() > 0 {
            before.push(n)
        } else {
            before
        };
        let words = first_words(lines);
        assert forall|i: int| 0 <= i < at.len() implies 0 <= #[trigger] at[i] < lines.len()
            && words[i] == text::first_word(lines[at[i]]) by {
            if i < before.len() {
                assert(at[i] == before[i]);
                assert(words[i] == first_words(head)[i]);
                assert(lines[at[i]] == head[before[i]]);
            }
        }
        assert forall|i: int, j: int| 0 <= i < j < at.len() implies #[trigger] at[i]
            < #[trigger] at[j] by {
            assert(at[i] == before[i]);
            if j < before.len() {
                assert(at[j] == before[j]);
            }
        }
        assert forall|l: int|
            0 <= l < lines.len() && text::first_word(#[trigger] lines[l]).len() > 0 implies at.contains(
            l,
        ) by {
            if l < n {
                assert(lines[l] == head[l]);
                let i = choose|i: int| 0 <= i < before.len() && before[i] == l;
                assert(at[i] == l);
            } else {
                assert(at[before.len() as int] == n);
            }
        }
        at
    }
}

} // verus!
