//! Listing git worktrees: each row says what `git` said of its worktree.

use crate::laws::listing_jj::position_is_first;
use crate::paths;
use crate::process::{ActionView, InvocationView, ReplyView, StepView};
use crate::text;
use crate::vcs::detect::Kind;
use crate::vcs::git::{
    body_len, filling, key, last_value, listing, porcelain, records, row, starts_record, value,
};
use crate::vcs::WorktreeView;
use vstd::prelude::*;

verus! {

/// The first word of the line is `word`.
pub open spec fn says(line: Seq<char>, word: Seq<char>) -> bool {
    word.is_prefix_of(line) && (line.len() == word.len() || line[word.len() as int] == ' ')
}

/// What follows the first word of a line and the space after it.
pub open spec fn said(line: Seq<char>, word: Seq<char>) -> Seq<char> {
    if line.len() > word.len() {
        line.skip(word.len() as int + 1)
    } else {
        seq![]
    }
}

proof fn key_is_first_word(line: Seq<char>, word: Seq<char>)
    requires
        !word.contains(' '),
    ensures
        key(line) == word <==> says(line, word),
        says(line, word) ==> value(line) == said(line, word),
{
    position_is_first(line, ' ');
    let n = text::position(line, ' ');
    let m = word.len() as int;
    if says(line, word) {
        assert(line.take(m) =~= word) by {
            assert(line.subrange(0, m) =~= line.take(m));
        }
        if n < m {
            assert(line[n] == word[n]) by {
                assert(line.take(m)[n] == line[n]);
            }
            assert(word.contains(word[n]));
        }
        if n > m {
            assert(line[m] != ' ');
        }
    }
    if key(line) == word {
        assert(line.subrange(0, m) =~= line.take(n));
    }
}

proof fn last_value_is_last(record: Seq<Seq<char>>, word: Seq<char>)
    requires
        !word.contains(' '),
    ensures
        match last_value(record, word) {
            Some(v) => exists|i: int|
                0 <= i < record.len() && says(#[trigger] record[i], word) && v == said(
                    record[i],
                    word,
                ) && forall|j: int| i < j < record.len() ==> !says(#[trigger] record[j], word),
            None => forall|j: int| 0 <= j < record.len() ==> !says(#[trigger] record[j], word),
        },
    decreases record.len(),
{
    if record.len() > 0 {
        let n = record.len() - 1;
        key_is_first_word(record[n], word);
        let head = record.drop_last();
        last_value_is_last(head, word);
        if key(record.last()) != word {
            assert forall|j: int| 0 <= j < head.len() implies head[j] == record[j] by {}
            if let Some(v) = last_value(head, word) {
                let i = choose|i: int|
                    0 <= i < head.len() && says(#[trigger] head[i], word) && v == said(
                        head[i],
                        word,
                    ) && forall|j: int| i < j < head.len() ==> !says(#[trigger] head[j], word);
                assert(says(record[i], word));
                assert forall|j: int| i < j < record.len() implies !says(
                    #[trigger] record[j],
                    word,
                ) by {
                    if j < n {
                        assert(record[j] == head[j]);
                    }
                }
            } else {
                assert forall|j: int| 0 <= j < record.len() implies !says(
                    #[trigger] record[j],
                    word,
                ) by {
                    if j < n {
                        assert(record[j] == head[j]);
                    }
                }
            }
        } else {
            assert(says(record[n], word));
        }
    }
}

/// A line of the record begins with the word.
pub open spec fn told(record: Seq<Seq<char>>, word: Seq<char>) -> bool {
    exists|i: int| 0 <= i < record.len() && says(#[trigger] record[i], word)
}

/// `v` is what the last line of the record that begins with the word goes on with.
pub open spec fn last_told(record: Seq<Seq<char>>, word: Seq<char>, v: Seq<char>) -> bool {
    exists|i: int|
        0 <= i < record.len() && says(#[trigger] record[i], word) && v == said(record[i], word)
            && forall|j: int| i < j < record.len() ==> !says(#[trigger] record[j], word)
}

proof fn words_are_words()
    ensures
        !"worktree"@.contains(' '),
        !"HEAD"@.contains(' '),
        !"branch"@.contains(' '),
        !"bare"@.contains(' '),
        !"locked"@.contains(' '),
        !"prunable"@.contains(' '),
{
    reveal_strlit("worktree");
    reveal_strlit("HEAD");
    reveal_strlit("branch");
    reveal_strlit("bare");
    reveal_strlit("locked");
    reveal_strlit("prunable");
}

proof fn key_told(record: Seq<Seq<char>>, word: Seq<char>)
    requires
        !word.contains(' '),
    ensures
        crate::vcs::git::has_key(record, word) <==> told(record, word),
{
    if crate::vcs::git::has_key(record, word) {
        let i = choose|i: int| 0 <= i < record.len() && key(#[trigger] record[i]) == word;
        key_is_first_word(record[i], word);
        assert(says(record[i], word));
    }
    if told(record, word) {
        let i = choose|i: int| 0 <= i < record.len() && says(#[trigger] record[i], word);
        key_is_first_word(record[i], word);
        assert(key(record[i]) == word);
    }
}

/// A row says what its record says: the path, the commit, the branch without
/// `refs/heads/`, and whether it is bare, locked or can be pruned. It is called by
/// its branch, or else by the last component of its path.
pub proof fn rows_say_what_their_record_says(
    record: Seq<Seq<char>>,
    path: Seq<char>,
    is_main: bool,
    windows: bool,
)
    requires
        record.len() > 0,
        record[0] == "worktree"@ + seq![' '] + path,
    ensures
        ({
            let w = row(record, is_main, windows);
            &&& w.path == path
            &&& w.is_main == is_main
            &&& w.is_bare <==> told(record, "bare"@)
            &&& w.is_locked <==> told(record, "locked"@)
            &&& w.is_stale <==> told(record, "prunable"@)
            &&& w.commit is None <==> !told(record, "HEAD"@)
            &&& w.commit is Some ==> last_told(record, "HEAD"@, w.commit->0)
            &&& w.head == w.commit
            &&& w.branch is None <==> !told(record, "branch"@)
            &&& w.branch is Some ==> {
                ||| last_told(record, "branch"@, "refs/heads/"@ + w.branch->0)
                ||| last_told(record, "branch"@, w.branch->0) && !"refs/heads/"@.is_prefix_of(
                    w.branch->0,
                )
            }
            &&& w.name == match w.branch {
                Some(b) => b,
                None => match paths::file_name(path, windows) {
                    Some(n) => n,
                    None => "?"@,
                },
            }
            &&& w.vcs == Kind::Git
            &&& !w.dirty && !w.conflict && w.desc is None
        }),
{
    words_are_words();
    let first = record[0];
    let word = "worktree"@;
    assert(first.subrange(0, word.len() as int) =~= word);
    assert(first[word.len() as int] == ' ');
    key_is_first_word(first, word);
    assert(first.skip(word.len() as int + 1) =~= path);
    key_told(record, "bare"@);
    key_told(record, "locked"@);
    key_told(record, "prunable"@);
    last_value_is_last(record, "HEAD"@);
    last_value_is_last(record, "branch"@);
    if let Some(b) = last_value(record, "branch"@) {
        let p = "refs/heads/"@;
        if p.is_prefix_of(b) {
            assert(p + b.skip(p.len() as int) =~= b) by {
                assert(b.subrange(0, p.len() as int) =~= p);
            }
        }
    }
}

/// The record that begins on the line `a` ends before the line `b`: there the text
/// ends, or a line is blank or begins the next record, and nowhere before.
pub open spec fn ends_at(lines: Seq<Seq<char>>, a: int, b: int) -> bool {
    &&& a < b <= lines.len()
    &&& b < lines.len() ==> lines[b].len() == 0 || says(lines[b], "worktree"@)
    &&& forall|j: int|
        a < j < b ==> (#[trigger] lines[j]).len() > 0 && !says(lines[j], "worktree"@)
}

proof fn body_ends(lines: Seq<Seq<char>>)
    ensures
        body_len(lines) <= lines.len(),
        body_len(lines) < lines.len() ==> lines[body_len(lines) as int].len() == 0 || says(
            lines[body_len(lines) as int],
            "worktree"@,
        ),
        forall|j: int|
            0 <= j < body_len(lines) ==> (#[trigger] lines[j]).len() > 0 && !says(
                lines[j],
                "worktree"@,
            ),
    decreases lines.len(),
{
    if lines.len() > 0 {
        words_are_words();
        key_is_first_word(lines[0], "worktree"@);
        if !(lines[0].len() == 0 || starts_record(lines[0])) {
            let t = lines.drop_first();
            body_ends(t);
            assert forall|j: int| 0 <= j < body_len(lines) implies (#[trigger] lines[j]).len() > 0
                && !says(lines[j], "worktree"@) by {
                if j > 0 {
                    assert(lines[j] == t[j - 1]);
                }
            }
        }
    }
}

/// Where the records of a listing begin: one on each line that names a worktree,
/// and each goes on to the next such line, a blank line or the end.
pub proof fn records_are_found(lines: Seq<Seq<char>>) -> (at: Seq<int>)
    ensures
        at.len() == records(lines).len(),
        forall|i: int|
            0 <= i < at.len() ==> 0 <= #[trigger] at[i] < lines.len() && says(
                lines[at[i]],
                "worktree"@,
            ) && {
                let r = records(lines)[i];
                &&& ends_at(lines, at[i], at[i] + r.len())
                &&& r == lines.subrange(at[i], at[i] + r.len())
            },
        forall|i: int, j: int| 0 <= i < j < at.len() ==> #[trigger] at[i] < #[trigger] at[j],
        forall|l: int|
            0 <= l < lines.len() && says(#[trigger] lines[l], "worktree"@) ==> at.contains(l),
    decreases lines.len(),
{
    words_are_words();
    if lines.len() == 0 {
        Seq::empty()
    } else {
        key_is_first_word(lines[0], "worktree"@);
        let rest = lines.drop_first();
        let n: int = if starts_record(lines[0]) {
            body_len(rest) as int
        } else {
            0
        };
        body_ends(rest);
        let from = n + 1;
        let tail = lines.skip(from);
        assert(tail =~= rest.skip(n));
        let later = records_are_found(tail);
        let moved = Seq::new(later.len(), |i: int| later[i] + from);
        let at = if starts_record(lines[0]) {
            seq![0int] + moved
        } else {
            moved
        };
        let shift: int = if starts_record(lines[0]) {
            1
        } else {
            0
        };
        if shift == 0 {
            assert(tail =~= rest);
        }
        let all = records(lines);
        assert forall|i: int| 0 <= i < at.len() implies 0 <= #[trigger] at[i] < lines.len() && says(
            lines[at[i]],
            "worktree"@,
        ) && {
            let r = all[i];
            &&& ends_at(lines, at[i], at[i] + r.len())
            &&& r == lines.subrange(at[i], at[i] + r.len())
        } by {
            if shift == 1 && i == 0 {
                assert(all[0] == lines.take(from));
                assert(lines.subrange(0, from) =~= lines.take(from));
                assert forall|j: int| 0 < j < from implies (#[trigger] lines[j]).len() > 0 && !says(
                    lines[j],
                    "worktree"@,
                ) by {
                    assert(lines[j] == rest[j - 1]);
                }
                if from < lines.len() {
                    assert(lines[from] == rest[n]);
                }
            } else {
                let k = i - shift;
                assert(at[i] == later[k] + from);
                assert(all[i] == records(tail)[k]);
                let r = all[i];
                let a = later[k];
                let b = a + r.len();
                assert(lines[at[i]] == tail[a]);
                assert forall|j: int| at[i] < j < b + from implies (#[trigger] lines[j]).len() > 0
                    && !says(lines[j], "worktree"@) by {
                    assert(lines[j] == tail[j - from]);
                }
                if b + from < lines.len() {
                    assert(lines[b + from] == tail[b]);
                }
                assert(lines.subrange(at[i], b + from) =~= tail.subrange(a, b));
            }
        }
        assert forall|i: int, j: int| 0 <= i < j < at.len() implies #[trigger] at[i]
            < #[trigger] at[j] by {
            assert(at[j] == later[j - shift] + from);
            if i >= shift {
                assert(at[i] == later[i - shift] + from);
            } else {
                assert(later[j - shift] >= 0);
            }
        }
        assert forall|l: int| 0 <= l < lines.len() && says(#[trigger] lines[l], "worktree"@) implies at.contains(
            l,
        ) by {
            if l == 0 {
                assert(at[0] == 0);
            } else if l < from {
                assert(lines[l] == rest[l - 1]);
            } else {
                assert(lines[l] == tail[l - from]);
                let k = choose|k: int| 0 <= k < later.len() && later[k] == l - from;
                assert(at[k + shift] == l);
            }
        }
        at
    }
}

/// `git` with these arguments in `dir`, its output collected.
pub open spec fn git_run(args: Seq<Seq<char>>, dir: Seq<char>) -> ActionView {
    ActionView::Run(InvocationView { program: "git"@, args, dir, capture: true })
}

/// Which reply is about the changes of the `i`th row: the list comes first, and
/// every row that has a working copy takes two.
pub open spec fn place(rows: Seq<WorktreeView>, i: nat) -> int
    decreases i,
{
    if i == 0 {
        1
    } else if rows[i - 1].is_bare || rows[i - 1].is_stale {
        place(rows, (i - 1) as nat)
    } else {
        place(rows, (i - 1) as nat) + 2
    }
}

/// What a program that succeeded printed, without the white space around it;
/// nothing where it failed.
pub open spec fn printed_well(reply: ReplyView) -> Seq<char> {
    match reply {
        ReplyView::Ran(Some(o)) => if o.success {
            text::trim(o.stdout)
        } else {
            seq![]
        },
        _ => seq![],
    }
}

/// The line `i` of that, without the white space around it; nothing where there
/// are fewer.
pub open spec fn line_well(reply: ReplyView, i: int) -> Seq<char> {
    let lines = text::lines(printed_well(reply));
    if printed_well(reply).len() > 0 && i < lines.len() {
        text::trim(lines[i])
    } else {
        seq![]
    }
}

/// `w` is the row `v`, with the state that the two replies tell of. A row without
/// a working copy stays as it is.
pub open spec fn is_filled(
    w: WorktreeView,
    v: WorktreeView,
    changes: ReplyView,
    message: ReplyView,
) -> bool {
    if v.is_bare || v.is_stale {
        w == v
    } else {
        &&& w.dirty <==> printed_well(changes).len() > 0
        &&& w.head == if line_well(message, 0).len() > 0 {
            Some(line_well(message, 0))
        } else {
            v.head
        }
        &&& w.desc == if line_well(message, 1).len() > 0 {
            Some(line_well(message, 1))
        } else {
            None
        }
        &&& w.name == v.name && w.path == v.path && w.branch == v.branch && w.commit == v.commit
        &&& w.conflict == v.conflict && w.is_main == v.is_main && w.is_bare == v.is_bare
        &&& w.is_stale == v.is_stale && w.is_locked == v.is_locked && w.vcs == v.vcs
    }
}

/// `step` is where the list of these rows stands after these replies.
pub open spec fn is_list_of(
    rows: Seq<WorktreeView>,
    replies: Seq<ReplyView>,
    step: StepView<Seq<WorktreeView>>,
) -> bool {
    match step {
        StepView::Done(Ok(list)) => {
            &&& list.len() == rows.len()
            &&& place(rows, rows.len()) <= replies.len()
            &&& forall|i: int|
                0 <= i < list.len() ==> is_filled(
                    #[trigger] list[i],
                    rows[i],
                    replies[place(rows, i as nat)],
                    replies[place(rows, i as nat) + 1],
                )
        },
        StepView::Do(a) => exists|i: int|
            #![trigger rows[i]]
            0 <= i < rows.len() && !rows[i].is_bare && !rows[i].is_stale && {
                let p = place(rows, i as nat);
                ||| p == replies.len() && a == git_run(
                    seq!["status"@, "--porcelain"@],
                    rows[i].path,
                )
                ||| p + 1 == replies.len() && a == git_run(
                    seq!["log"@, "-1"@, "--format=%h%n%B"@],
                    rows[i].path,
                )
            },
        StepView::Done(Err(_)) => false,
    }
}

proof fn filling_says(
    rows: Seq<WorktreeView>,
    replies: Seq<ReplyView>,
    i: int,
    done: Seq<WorktreeView>,
)
    requires
        0 <= i <= rows.len(),
        1 <= place(rows, i as nat) <= replies.len(),
        done.len() == i,
        forall|j: int|
            0 <= j < i ==> is_filled(
                #[trigger] done[j],
                rows[j],
                replies[place(rows, j as nat)],
                replies[place(rows, j as nat) + 1],
            ),
    ensures
        is_list_of(
            rows,
            replies,
            filling(rows.skip(i), replies.skip(place(rows, i as nat)), done),
        ),
    decreases rows.len() - i,
{
    let p = place(rows, i as nat);
    let rest = replies.skip(p);
    let left = rows.skip(i);
    if i < rows.len() {
        let v = rows[i];
        assert(left[0] == v);
        assert(left.drop_first() =~= rows.skip(i + 1));
        let free = v.is_bare || v.is_stale;
        assert(place(rows, (i + 1) as nat) == if free {
            p
        } else {
            p + 2
        });
        if free || p + 1 < replies.len() {
            let w = if free {
                v
            } else {
                crate::vcs::git::with_state(v, replies[p], replies[p + 1])
            };
            if !free {
                assert(rest[0] == replies[p]);
                assert(rest[1] == replies[p + 1]);
                assert(rest.skip(2) =~= replies.skip(p + 2));
            }
            assert(is_filled(w, v, replies[p], replies[p + 1]));
            let next = done.push(w);
            assert forall|j: int| 0 <= j < i + 1 implies is_filled(
                #[trigger] next[j],
                rows[j],
                replies[place(rows, j as nat)],
                replies[place(rows, j as nat) + 1],
            ) by {
                if j < i {
                    assert(next[j] == done[j]);
                }
            }
            filling_says(rows, replies, i + 1, next);
        } else {
            assert(rows[i] == v);
        }
    }
}

/// A finished list has the rows of the porcelain listing, in order, and each row
/// with a working copy says what `git status` and `git log` said of it: it is
/// dirty exactly where `git status` printed something. A list that is not finished
/// asks for one of the two. It fails only where the listing did.
pub proof fn rows_say_what_git_said(root: Seq<char>, windows: bool, replies: Seq<ReplyView>)
    ensures
        replies.len() == 0 ==> listing(root, windows, replies) == StepView::<
            Seq<WorktreeView>,
        >::Do(git_run(seq!["worktree"@, "list"@, "--porcelain"@], root)),
        replies.len() > 0 ==> match replies[0] {
            ReplyView::Ran(Some(o)) => if o.success {
                is_list_of(porcelain(o.stdout, windows), replies, listing(root, windows, replies))
            } else {
                listing(root, windows, replies) == StepView::Done(
                    Err::<Seq<WorktreeView>, Seq<char>>(
                        "git worktree list"@ + ": "@ + text::trim(o.stderr),
                    ),
                )
            },
            _ => listing(root, windows, replies) is Done && listing(
                root,
                windows,
                replies,
            )->Done_0 is Err,
        },
{
    if replies.len() > 0 {
        if let ReplyView::Ran(Some(o)) = replies[0] {
            if o.success {
                let rows = porcelain(o.stdout, windows);
                let none: Seq<WorktreeView> = seq![];
                assert(rows.skip(0) =~= rows);
                assert(replies.skip(1) =~= replies.drop_first());
                filling_says(rows, replies, 0, none);
            }
        }
    }
}

/// The rows of a porcelain listing are those of its records, in order, and the
/// first is the main one.
pub proof fn porcelain_has_a_row_for_each_record(stdout: Seq<char>, windows: bool, i: int)
    ensures
        porcelain(stdout, windows).len() == records(text::lines(stdout)).len(),
        0 <= i < porcelain(stdout, windows).len() ==> porcelain(stdout, windows)[i] == row(
            records(text::lines(stdout))[i],
            i == 0,
            windows,
        ),
{
}

} // verus!
