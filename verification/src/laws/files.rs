//! Copying, linking, and the files of the user.

use crate::hooks::copy::{self, CopyJobView, EntryView, FileKind};
use crate::hooks::symlink::{self, LinkJobView, Platform};
use crate::paths;
use crate::pr_cache;
use crate::process::{ActionView, InvocationView, ReplyView, StepView};
use crate::shell_init::{self, Shell};
use crate::text;
use crate::updater;
use vstd::prelude::*;

verus! {

/// The directory that a path stands in is made before anything is put there, unless
/// the path stands in no other.
pub proof fn directories_are_made_first(
    src: Seq<char>,
    dst: Seq<char>,
    kind: FileKind,
    windows: bool,
)
    ensures
        ({
            let up = paths::parent(dst, windows);
            let stands = up is Some && up->0.len() > 0;
            let js = copy::jobs(src, dst, kind, windows);
            let last = match kind {
                FileKind::File => CopyJobView::CopyFile { src, dst },
                FileKind::Dir => CopyJobView::CopyTree { src, dst },
                FileKind::Other => CopyJobView::Refuse(
                    "copy hook: "@ + src + " is neither a file nor a directory"@,
                ),
            };
            &&& copy::holder(dst, windows) == if stands {
                up
            } else {
                None
            }
            &&& stands ==> js == seq![CopyJobView::MakeDirs(up->0), last]
            &&& !stands ==> js == seq![last]
        }),
{
    let up = paths::parent(dst, windows);
    let js = copy::jobs(src, dst, kind, windows);
    let last = js.last();
    if up is Some && up->0.len() > 0 {
        assert(js =~= seq![CopyJobView::MakeDirs(up->0), last]);
    } else {
        assert(js =~= seq![last]);
    }
}

/// A directory is copied with every file and every directory in it, under the same
/// names and in order; nothing else in it is. `at` says which entry each job is for.
pub proof fn trees_are_copied_whole(
    src: Seq<char>,
    dst: Seq<char>,
    entries: Seq<EntryView>,
    windows: bool,
) -> (at: Seq<int>)
    ensures
        at.len() == copy::tree_jobs(src, dst, entries, windows).len(),
        forall|i: int|
            0 <= i < at.len() ==> 0 <= #[trigger] at[i] < entries.len() && {
                let e = entries[at[i]];
                let from = paths::join(src, e.name, windows);
                let to = paths::join(dst, e.name, windows);
                copy::tree_jobs(src, dst, entries, windows)[i] == match e.kind {
                    FileKind::File => CopyJobView::CopyFile { src: from, dst: to },
                    _ => CopyJobView::CopyTree { src: from, dst: to },
                } && e.kind != FileKind::Other
            },
        forall|i: int, j: int| 0 <= i < j < at.len() ==> #[trigger] at[i] < #[trigger] at[j],
        forall|k: int|
            0 <= k < entries.len() && (#[trigger] entries[k]).kind != FileKind::Other
                ==> at.contains(k),
    decreases entries.len(),
{
    if entries.len() == 0 {
        Seq::empty()
    } else {
        let tail = entries.drop_first();
        let later = trees_are_copied_whole(src, dst, tail, windows);
        let moved = Seq::new(later.len(), |i: int| later[i] + 1);
        let here = entries[0].kind != FileKind::Other;
        let at = if here {
            seq![0int] + moved
        } else {
            moved
        };
        let shift: int = if here {
            1
        } else {
            0
        };
        let js = copy::tree_jobs(src, dst, entries, windows);
        let rest = copy::tree_jobs(src, dst, tail, windows);
        assert forall|i: int| 0 <= i < at.len() implies 0 <= #[trigger] at[i] < entries.len() && {
            let e = entries[at[i]];
            let from = paths::join(src, e.name, windows);
            let to = paths::join(dst, e.name, windows);
            js[i] == match e.kind {
                FileKind::File => CopyJobView::CopyFile { src: from, dst: to },
                _ => CopyJobView::CopyTree { src: from, dst: to },
            } && e.kind != FileKind::Other
        } by {
            if i >= shift {
                assert(at[i] == later[i - shift] + 1);
                assert(entries[at[i]] == tail[later[i - shift]]);
                assert(js[i] == rest[i - shift]);
            }
        }
        assert forall|i: int, j: int| 0 <= i < j < at.len() implies #[trigger] at[i]
            < #[trigger] at[j] by {
            assert(at[j] == later[j - shift] + 1);
            if i >= shift {
                assert(at[i] == later[i - shift] + 1);
            } else {
                assert(later[j - shift] >= 0);
            }
        }
        assert forall|k: int|
            0 <= k < entries.len() && (#[trigger] entries[k]).kind != FileKind::Other implies at.contains(
            k,
        ) by {
            if k == 0 {
                assert(at[0] == 0);
            } else {
                assert(entries[k] == tail[k - 1]);
                let i = choose|i: int| 0 <= i < later.len() && later[i] == k - 1;
                assert(at[i + shift] == k);
            }
        }
        at
    }
}

/// A link is made after the directory it stands in. Windows has to be told whether
/// the target is a directory, so it must be there; elsewhere than on Unix and
/// Windows there are no links.
pub proof fn links_are_made(
    target: Seq<char>,
    link: Seq<char>,
    platform: Platform,
    kind: Option<FileKind>,
)
    ensures
        ({
            let up = paths::parent(link, platform == Platform::Windows);
            let stands = up is Some && up->0.len() > 0;
            let js = symlink::jobs(target, link, platform, kind);
            let last = js[js.len() - 1];
            &&& js.len() == if stands {
                2nat
            } else {
                1nat
            }
            &&& stands ==> js[0] == LinkJobView::MakeDirs(up->0)
            &&& platform == Platform::Unix ==> last == LinkJobView::Link {
                target,
                link,
                dir: false,
            }
            &&& platform == Platform::Windows && kind is Some ==> last == LinkJobView::Link {
                target,
                link,
                dir: kind == Some(FileKind::Dir),
            }
            &&& platform == Platform::Windows && kind is None ==> last == LinkJobView::Refuse(
                "symlink target "@ + target + " does not exist"@,
            )
            &&& platform == Platform::Other ==> last == LinkJobView::Refuse(
                "symlink hook is unsupported on this platform"@,
            )
        }),
{
}

/// Where Windows refuses a link to a directory, a junction takes its place; for a
/// file there is none.
pub proof fn junctions_stand_in_for_links(target: Seq<char>, link: Seq<char>, error: Seq<char>)
    ensures
        symlink::after_refusal(target, link, true, error) == Ok::<ActionView, Seq<char>>(
            ActionView::Run(
                InvocationView {
                    program: "cmd"@,
                    args: seq!["/C"@, "mklink"@, "/J"@, link, target],
                    dir: ""@,
                    capture: false,
                },
            ),
        ),
        symlink::after_refusal(target, link, false, error) is Err,
{
}

/// The startup file of each shell, below the home directory; for PowerShell the
/// profile of the newer edition, unless only the older one has a directory.
pub proof fn shells_have_their_startup_file(
    home: Seq<char>,
    docs: Seq<char>,
    windows: bool,
    replies: Seq<ReplyView>,
)
    ensures
        shell_init::startup_file(Shell::Bash, windows, Some(home), None, replies)
            == StepView::Done(
            Ok::<Seq<char>, Seq<char>>(paths::join(home, ".bashrc"@, windows)),
        ),
        shell_init::startup_file(Shell::Zsh, windows, Some(home), None, replies) == StepView::Done(
            Ok::<Seq<char>, Seq<char>>(paths::join(home, ".zshrc"@, windows)),
        ),
        shell_init::startup_file(Shell::Fish, windows, Some(home), None, replies)
            == StepView::Done(
            Ok::<Seq<char>, Seq<char>>(paths::join(home, ".config/fish/config.fish"@, windows)),
        ),
        shell_init::startup_file(Shell::Powershell, false, Some(home), Some(docs), replies) is Done
            && shell_init::startup_file(
            Shell::Powershell,
            false,
            Some(home),
            Some(docs),
            replies,
        )->Done_0 is Err,
        ({
            let newer = paths::join(docs, "PowerShell"@, true);
            let older = paths::join(docs, "WindowsPowerShell"@, true);
            let name = "Microsoft.PowerShell_profile.ps1"@;
            let step = shell_init::startup_file(
                Shell::Powershell,
                true,
                Some(home),
                Some(docs),
                replies,
            );
            if replies.len() == 0 {
                step == StepView::<Seq<char>>::Do(ActionView::Look(newer))
            } else if replies.len() == 1 && replies[0] != ReplyView::Found(true) {
                step == StepView::<Seq<char>>::Do(ActionView::Look(older))
            } else {
                step == StepView::Done(
                    Ok::<Seq<char>, Seq<char>>(
                        paths::join(
                            if replies[0] != ReplyView::Found(true) && replies[1]
                                == ReplyView::Found(true) {
                                older
                            } else {
                                newer
                            },
                            name,
                            true,
                        ),
                    ),
                )
            }
        }),
{
}

/// Line ends follow those of the file: carriage returns where at least half of its
/// lines have them. A file without any gets them for PowerShell only.
pub proof fn line_ends_follow_the_file(existing: Seq<char>, shell: Shell)
    ensures
        ({
            let n = text::count_char(existing, '\n');
            let crlf = shell_init::wants_crlf(existing, shell);
            &&& n == 0 ==> (crlf <==> shell == Shell::Powershell)
            &&& n > 0 ==> (crlf <==> shell_init::crlf_count(existing) * 2 >= n)
        }),
        shell_init::crlf_count(seq![]) == 0,
{
}

/// Each line that ends with a carriage return and a line feed is counted.
pub proof fn carriage_returns_are_counted(s: Seq<char>, c: char)
    ensures
        shell_init::crlf_count(s.push(c)) == shell_init::crlf_count(s) + if s.len() > 0 && s.last()
            == '\r' && c == '\n' {
            1nat
        } else {
            0nat
        },
{
    reveal_with_fuel(shell_init::crlf_count, 2);
    assert(s.push(c).drop_last() =~= s);
}

/// The function is put at the end of the file, after a blank line where the file is
/// not empty.
pub proof fn functions_are_put_at_the_end(existing: Seq<char>, shell: Shell)
    ensures
        ({
            let crlf = shell_init::wants_crlf(existing, shell);
            let eol = if crlf {
                "\r\n"@
            } else {
                "\n"@
            };
            let body = shell_init::rendered(shell, crlf);
            &&& existing.len() == 0 ==> shell_init::installed(existing, shell) == body
            &&& existing.len() > 0 && existing.last() == '\n' ==> shell_init::installed(
                existing,
                shell,
            ) == existing + eol + body
            &&& existing.len() > 0 && existing.last() != '\n' ==> shell_init::installed(
                existing,
                shell,
            ) == existing + eol + eol + body
        }),
        shell_init::function(Shell::Bash) == shell_init::POSIX@,
        shell_init::function(Shell::Zsh) == shell_init::POSIX@,
        shell_init::function(Shell::Fish) == shell_init::FISH@,
        shell_init::function(Shell::Powershell) == shell_init::POWERSHELL@,
{
    if existing.len() == 0 {
        assert(existing + shell_init::rendered(
            shell,
            shell_init::wants_crlf(existing, shell),
        ) =~= shell_init::rendered(shell, shell_init::wants_crlf(existing, shell)));
    }
}

/// Where things are kept below the cache directory, and the page of a pull request.
pub proof fn things_are_kept_in_their_place(
    base: Seq<char>,
    owner: Seq<char>,
    repo: Seq<char>,
    n: nat,
    windows: bool,
)
    ensures
        pr_cache::cache_file(base, owner, repo, windows) == paths::join(
            paths::join(paths::join(base, "renri"@, windows), owner + "__"@ + repo, windows),
            "pr-cache.json"@,
            windows,
        ),
        updater::state_file(base, windows) == paths::join(
            paths::join(base, "renri"@, windows),
            "last_update_check.json"@,
            windows,
        ),
        pr_cache::page(owner, repo, n) == "https://github.com/"@ + owner + "/"@ + repo + "/pull/"@
            + text::decimal(n),
{
}

/// The pull requests of a repository are asked of `gh`, all of them, by name; what it
/// printed is what was fetched, and anything but success is a failure.
pub proof fn pull_requests_are_asked_of_gh(
    owner: Seq<char>,
    repo: Seq<char>,
    dir: Seq<char>,
    reply: ReplyView,
    rest: Seq<ReplyView>,
)
    ensures
        pr_cache::fetching(owner, repo, dir, seq![]) == StepView::<Seq<char>>::Do(
            ActionView::Run(
                InvocationView {
                    program: "gh"@,
                    args: seq![
                        "pr"@,
                        "list"@,
                        "--repo"@,
                        owner + "/"@ + repo,
                        "--state"@,
                        "all"@,
                        "--limit"@,
                        "200"@,
                        "--json"@,
                        "number,state,headRefName"@,
                        "--jq"@,
                        "map({number, state, head_ref_name: .headRefName})"@,
                    ],
                    dir,
                    capture: true,
                },
            ),
        ),
        match (pr_cache::fetching(owner, repo, dir, seq![reply] + rest), reply) {
            (StepView::Done(Ok(json)), ReplyView::Ran(Some(o))) => o.success && json == o.stdout,
            (StepView::Done(Err(e)), ReplyView::Ran(Some(o))) => !o.success && e
                == "gh pr list failed: "@ + text::trim(o.stderr),
            (StepView::Done(Err(_)), _) => true,
            _ => false,
        },
{
    assert((seq![reply] + rest)[0] == reply);
}

} // verus!
