//! What the user is shown.

use crate::commands::{self, Desktop};
use crate::details;
use crate::layout;
use crate::layout::VcsContextView;
use crate::listing::{self, Shape};
use crate::path_display;
use crate::picker::{self, PickErrorView};
use crate::pr_cache::{self, PrInfoView};
use crate::process::{ActionView, InvocationView};
use crate::removal;
use crate::report::{self, Facts};
use crate::style;
use crate::sweep::{Judged, Reason, VerdictView};
use crate::text;
use crate::vcs::{self, Kind, WorktreeView};
use vstd::prelude::*;

verus! {

/// The state of a working copy as it is shown: one whose directory is gone is not
/// known; else conflicts count before changes.
pub proof fn states_are_shown(w: WorktreeView)
    ensures
        listing::status(w) == if w.is_stale {
            style::dimmed("\u{22ef}"@)
        } else if w.conflict {
            style::bold(style::red("\u{203c}"@))
        } else if w.dirty {
            style::yellow("\u{25cf}"@)
        } else {
            style::green("\u{2713}"@)
        },
        listing::marker(w) == if w.is_stale {
            style::yellow("\u{26a0}"@)
        } else if w.is_main {
            style::green("\u{2605}"@)
        } else {
            " "@
        },
        listing::styled_name(w) == if w.is_main {
            style::bold(style::green(w.name))
        } else if w.is_stale {
            style::yellow(w.name)
        } else {
            w.name
        },
        listing::description(w) == if w.is_stale {
            style::italic(style::yellow("(stale \u{2014} directory missing)"@))
        } else if w.desc is Some && w.desc->0.len() > 0 {
            w.desc->0
        } else {
            style::italic(style::dimmed("(no description)"@))
        },
{
}

/// Every name fits into its column, as does the heading, and some name or the heading
/// fills it.
pub proof fn names_fit_their_column(rows: Seq<WorktreeView>)
    ensures
        forall|i: int|
            0 <= i < rows.len() ==> (#[trigger] rows[i]).name.len() <= listing::name_width(rows),
        listing::name_width(rows) >= 4,
        listing::name_width(rows) == 4 || exists|i: int|
            0 <= i < rows.len() && (#[trigger] rows[i]).name.len() == listing::name_width(rows),
    decreases rows.len(),
{
    if rows.len() > 0 {
        let head = rows.drop_last();
        names_fit_their_column(head);
        assert forall|i: int| 0 <= i < rows.len() implies (#[trigger] rows[i]).name.len()
            <= listing::name_width(rows) by {
            if i < head.len() {
                assert(rows[i] == head[i]);
            }
        }
        if listing::name_width(rows) == listing::name_width(head) {
            if listing::name_width(head) != 4 {
                let i = choose|i: int|
                    0 <= i < head.len() && (#[trigger] head[i]).name.len() == listing::name_width(
                        head,
                    );
                assert(rows[i] == head[i]);
            }
        } else {
            assert(rows[rows.len() - 1].name.len() == listing::name_width(rows));
        }
    }
}

/// The length of a pull request as it is shown; nothing without one.
pub open spec fn shown_len(pr: Option<PrInfoView>) -> nat {
    match pr {
        Some(p) => 1 + text::decimal(p.number as nat).len(),
        None => 0,
    }
}

/// Every pull request fits into its column, as does the heading.
pub proof fn pull_requests_fit_their_column(prs: Seq<Option<PrInfoView>>)
    ensures
        forall|i: int|
            0 <= i < prs.len() ==> shown_len(#[trigger] prs[i]) <= listing::pr_width(prs),
        listing::pr_width(prs) >= 2,
        listing::pr_width(prs) == 2 || exists|i: int|
            0 <= i < prs.len() && shown_len(#[trigger] prs[i]) == listing::pr_width(prs),
    decreases prs.len(),
{
    reveal_strlit("#");
    if prs.len() > 0 {
        let head = prs.drop_last();
        pull_requests_fit_their_column(head);
        assert forall|i: int| 0 <= i < prs.len() implies shown_len(#[trigger] prs[i])
            <= listing::pr_width(prs) by {
            if i < head.len() {
                assert(prs[i] == head[i]);
            }
        }
        if listing::pr_width(prs) == listing::pr_width(head) {
            if listing::pr_width(head) != 2 {
                let i = choose|i: int|
                    0 <= i < head.len() && shown_len(#[trigger] head[i]) == listing::pr_width(head);
                assert(prs[i] == head[i]);
            }
        } else {
            assert(shown_len(prs[prs.len() - 1]) == listing::pr_width(prs));
        }
    }
}

/// A table has a heading and one line for each worktree, in order, each with its own
/// pull request; it is empty without worktrees.
pub proof fn tables_have_a_line_for_each(
    rows: Seq<WorktreeView>,
    prs: Seq<Option<PrInfoView>>,
    show_pr: bool,
    show_vcs: bool,
    repo: Option<VcsContextView>,
    i: int,
)
    ensures
        ({
            let t = listing::table_lines(rows, prs, show_pr, show_vcs, repo);
            let s = listing::shape(rows, prs, show_pr, show_vcs, repo);
            &&& rows.len() == 0 ==> t.len() == 0
            &&& rows.len() > 0 ==> t.len() == rows.len() + 1
            &&& 0 <= i < rows.len() ==> t[i + 1] == listing::line(s, rows[i], prs[i])
            &&& rows.len() > 0 ==> t[0] == listing::heading(
                show_pr,
                show_vcs,
                s.name_width,
                s.pr_width,
            )
            &&& s.show_pr == show_pr && s.show_vcs == show_vcs && s.repo == repo
            &&& s.name_width == listing::name_width(rows)
            &&& show_pr ==> s.pr_width == listing::pr_width(prs)
        }),
{
}

/// A line of the table: mark, name, backend where there are several, state, pull
/// request where that is asked for, and description.
pub proof fn lines_tell_of_the_worktree(s: Shape, w: WorktreeView, pr: Option<PrInfoView>)
    ensures
        ({
            let gap = text::spaces(
                if w.name.len() < s.name_width {
                    (s.name_width - w.name.len()) as nat
                } else {
                    0
                },
            );
            let backend = if s.show_vcs {
                "  "@ + style::dimmed(text::pad_end(vcs::short(w.vcs), 3))
            } else {
                ""@
            };
            let start = listing::marker(w) + " "@ + listing::styled_name(w) + gap + backend + "  "@
                + listing::status(w) + "   "@;
            &&& !s.show_pr ==> listing::line(s, w, pr) == start + listing::description(w)
            &&& s.show_pr ==> exists|fill: Seq<char>|
                listing::line(s, w, pr) == start + listing::pr_cell(pr, s.repo) + #[trigger] (fill
                    + "  "@) + listing::description(w)
        }),
{
    if s.show_pr {
        let used = match pr {
            Some(p) => listing::pr_tag(p).len(),
            None => 1,
        };
        let fill = listing::filler(s.pr_width, used);
        let gap = text::spaces(
            if w.name.len() < s.name_width {
                (s.name_width - w.name.len()) as nat
            } else {
                0
            },
        );
        let backend = if s.show_vcs {
            "  "@ + style::dimmed(text::pad_end(vcs::short(w.vcs), 3))
        } else {
            ""@
        };
        let start = listing::marker(w) + " "@ + listing::styled_name(w) + gap + backend + "  "@
            + listing::status(w) + "   "@;
        assert(listing::line(s, w, pr) =~= start + listing::pr_cell(pr, s.repo) + (fill + "  "@)
            + listing::description(w));
    }
}

/// A pull request is shown by its number, in the colour of its state, and as a link to
/// its page where the repository is known.
pub proof fn pull_requests_are_linked(p: PrInfoView, repo: VcsContextView)
    ensures
        ({
            let tag = "#"@ + text::decimal(p.number as nat);
            let shown = if p.state == "OPEN"@ {
                style::green(tag)
            } else if p.state == "MERGED"@ {
                style::dimmed(tag)
            } else if p.state == "CLOSED"@ {
                style::dimmed(style::red(tag))
            } else {
                tag
            };
            let page = "https://github.com/"@ + repo.owner + "/"@ + repo.repo + "/pull/"@
                + text::decimal(p.number as nat);
            &&& listing::pr_tag(p) == tag
            &&& listing::pr_cell(Some(p), None) == shown
            &&& listing::pr_cell(Some(p), Some(repo)) == if repo.owner.len() > 0 && repo.repo.len()
                > 0 {
                "\x1b]8;;"@ + page + "\x1b\\"@ + shown + "\x1b]8;;\x1b\\"@
            } else {
                shown
            }
        }),
        listing::pr_cell(None, Some(repo)) == style::dimmed("\u{2014}"@),
        listing::pr_cell(None, None) == style::dimmed("\u{2014}"@),
{
}

/// The details of a worktree are its name, branch, path, backend, head, state and pull
/// request, one to a line, and its state names all that is special about it.
pub proof fn details_tell_everything(
    w: WorktreeView,
    pr: Option<PrInfoView>,
    url: Option<Seq<char>>,
    windows: bool,
)
    ensures
        ({
            let l = details::lines(w, pr, url, windows);
            let tell = |name: Seq<char>, rest: Seq<char>|
                "  "@ + style::dimmed(text::pad_start(name, 9)) + ":"@ + " "@ + rest;
            &&& l.len() == 7
            &&& l[0] == tell("name"@, listing::styled_name(w))
            &&& l[1] == tell(
                "branch"@,
                match w.branch {
                    Some(b) => b,
                    None => style::dimmed("(detached / no bookmark)"@),
                },
            )
            &&& l[2] == tell("path"@, path_display::shown(w.path, windows))
            &&& l[3] == tell(
                "vcs"@,
                match w.vcs {
                    Kind::Git => "git"@,
                    Kind::Jj => "jj"@,
                    Kind::Colocated => "?"@,
                },
            )
            &&& l[4] == tell(
                "head"@,
                match w.head {
                    Some(h) => match w.desc {
                        Some(d) => h + " "@ + style::dimmed(d),
                        None => h,
                    },
                    None => style::dimmed("(unknown)"@),
                },
            )
            &&& l[5] == tell("status"@, details::flags(w))
            &&& l[6] == tell("pr"@, details::pull_request(pr, url))
        }),
{
}

/// What is special about a worktree is named: each thing that is, and nothing that is
/// not. A worktree with nothing special is clean.
pub proof fn everything_special_is_named(w: WorktreeView)
    ensures
        ({
            let s = details::special(w);
            let any = w.is_main || w.is_stale || w.dirty || w.conflict || w.is_locked || w.is_bare;
            &&& w.is_main ==> s.contains(style::green("main"@))
            &&& w.is_stale ==> s.contains(style::yellow("stale"@))
            &&& w.dirty ==> s.contains(style::yellow("dirty"@))
            &&& w.conflict ==> s.contains(style::bold(style::red("conflict"@)))
            &&& w.is_locked ==> s.contains(style::yellow("locked"@))
            &&& w.is_bare ==> s.contains(style::dimmed("bare"@))
            &&& s.len() == (if w.is_main { 1int } else { 0 }) + (if w.is_stale { 1int } else { 0 })
                + (if w.dirty { 1int } else { 0 }) + (if w.conflict { 1int } else { 0 }) + (
            if w.is_locked { 1int } else { 0 }) + (if w.is_bare { 1int } else { 0 })
            &&& details::flags(w) == if any {
                text::join(s, " "@)
            } else {
                style::green("clean"@)
            }
        }),
{
    let a = details::flag(w.is_main, style::green("main"@));
    let b = a + details::flag(w.is_stale, style::yellow("stale"@));
    let c = b + details::flag(w.dirty, style::yellow("dirty"@));
    let d = c + details::flag(w.conflict, style::bold(style::red("conflict"@)));
    let e = d + details::flag(w.is_locked, style::yellow("locked"@));
    let s = details::special(w);
    if w.is_main {
        assert(s[0] == style::green("main"@));
    }
    if w.is_stale {
        assert(s[a.len() as int] == style::yellow("stale"@));
    }
    if w.dirty {
        assert(s[b.len() as int] == style::yellow("dirty"@));
    }
    if w.conflict {
        assert(s[c.len() as int] == style::bold(style::red("conflict"@)));
    }
    if w.is_locked {
        assert(s[d.len() as int] == style::yellow("locked"@));
    }
    if w.is_bare {
        assert(s[e.len() as int] == style::dimmed("bare"@));
    }
}

/// A pull request in the details: its number, its state and its page, or that there
/// is none.
pub proof fn pull_requests_are_detailed(p: PrInfoView, url: Seq<char>)
    ensures
        ({
            let state = if p.state == "OPEN"@ {
                style::green(p.state)
            } else if p.state == "MERGED"@ {
                style::magenta(p.state)
            } else if p.state == "CLOSED"@ {
                style::red(p.state)
            } else {
                p.state
            };
            let shown = "#"@ + text::decimal(p.number as nat) + " ("@ + state + ")"@;
            &&& details::pull_request(Some(p), None) == shown + ""@
            &&& details::pull_request(Some(p), Some(url)) == shown + ("  "@ + style::dimmed(url))
        }),
        details::pull_request(None, Some(url)) == style::dimmed("(none)"@),
{
}

/// The report tells of the backends, the repository, the templates in effect, where
/// the branch would go if there is one, how many hooks there are, and which files
/// were read.
pub proof fn report_tells_what_is_in_effect(f: Facts)
    ensures
        ({
            let l = report::lines(f);
            let n = if f.branch is Some {
                7int
            } else {
                4int
            };
            &&& l.len() == 9 + n + 4 + (if f.sources.len() == 0 {
                2
            } else {
                2 + f.sources.len()
            })
            &&& l[1] == if f.backends.len() > 1 {
                "  backends:          "@ + text::join(f.backends, ", "@) + " (primary: "@
                    + f.backends[0] + ")"@
            } else {
                "  backend:           "@ + text::join(f.backends, ", "@)
            }
            &&& l[2] == "  root:              "@ + path_display::shown(f.root, f.windows)
            &&& l[5] == "  host:              "@ + (match f.vcs.host {
                Some(h) => h,
                None => "(none)"@,
            })
            &&& l[6] == "  owner:             "@ + f.vcs.owner
            &&& l[7] == "  repo:              "@ + f.vcs.repo
            &&& l[8] == "  branch:            "@ + (match f.branch {
                Some(b) => b,
                None => style::dimmed("(no bookmark at @)"@),
            })
            &&& l[11] == "  worktree_root:     "@ + f.worktree_root
            &&& l[12] == "  worktree_path:     "@ + f.worktree_path
            &&& f.branch is Some ==> l[15] == "  \u{2192} "@ + path_display::shown(
                f.resolved,
                f.windows,
            )
            &&& l[9 + n + 2] == "  post_create:       "@ + text::decimal(f.post_create)
            &&& l[9 + n + 3] == "  pre_remove:        "@ + text::decimal(f.pre_remove)
            &&& forall|i: int|
                0 <= i < f.sources.len() ==> l[9 + n + 6 + i] == "  "@ + path_display::shown(
                    #[trigger] f.sources[i],
                    f.windows,
                )
        }),
{
    let a = report::repo_part(f);
    let b = report::layout_part(f);
    let c = report::hooks_part(f);
    let d = report::sources_part(f);
    let l = report::lines(f);
    assert(l[1] == a[1] && l[2] == a[2] && l[5] == a[5]);
    assert(l[6] == a[6] && l[7] == a[7] && l[8] == a[8]);
    assert(l[11] == b[2] && l[12] == b[3]);
    let n = b.len() as int;
    if f.branch is Some {
        assert(l[15] == b[6]);
    }
    assert(l[9 + n + 2] == c[2] && l[9 + n + 3] == c[3]);
    assert forall|i: int| 0 <= i < f.sources.len() implies l[9 + n + 6 + i] == "  "@
        + path_display::shown(#[trigger] f.sources[i], f.windows) by {
        assert(l[9 + n + 6 + i] == d[2 + i]);
        assert(d[2 + i] == report::indented(f.sources, f.windows)[i]);
    }
}

/// The templates in effect are those configured, or else the defaults.
pub proof fn configured_templates_are_in_effect(configured: Option<Seq<char>>, default: Seq<char>)
    ensures
        layout::chosen(configured, default) == if configured is Some {
            configured->0
        } else {
            default
        },
{
}

/// A path is shown without the prefix of an extended path, and on Windows with
/// backslashes only.
pub proof fn paths_are_shown_plainly(s: Seq<char>)
    ensures
        path_display::shown("\\\\?\\UNC\\"@ + s, false) == "\\\\"@ + s,
        !"UNC\\"@.is_prefix_of(s) ==> path_display::shown("\\\\?\\"@ + s, false) == s,
        !"\\\\?\\"@.is_prefix_of(s) && !"\\\\?\\UNC\\"@.is_prefix_of(s) ==> path_display::shown(
            s,
            false,
        ) == s,
        path_display::shown(s, true) == text::replace_char(
            path_display::shown(s, false),
            '/',
            "\\"@,
        ),
{
    reveal_strlit("\\\\?\\UNC\\");
    reveal_strlit("\\\\?\\");
    reveal_strlit("UNC\\");
    let u = "\\\\?\\UNC\\"@;
    let p = "\\\\?\\"@;
    assert((u + s).subrange(0, u.len() as int) =~= u);
    assert((u + s).skip(u.len() as int) =~= s);
    assert((p + s).subrange(0, p.len() as int) =~= p);
    assert((p + s).skip(p.len() as int) =~= s);
    if u.is_prefix_of(p + s) {
        assert((p + s).subrange(0, 8) == u);
        assert(s.subrange(0, 4) =~= (p + s).subrange(0, 8).skip(4));
        assert(u.skip(4) =~= "UNC\\"@);
    }
}

/// What the user is told of a pick that failed, and the items to pick from.
pub proof fn picks_are_explained(q: Seq<char>, names: Seq<Seq<char>>, w: WorktreeView)
    ensures
        picker::complaint(PickErrorView::NoMatch(q)) == "no worktree matches `"@ + q + "`"@,
        picker::complaint(PickErrorView::Ambiguous(q, names)) == "`"@ + q + "` is ambiguous ("@
            + text::decimal(names.len()) + " matches: "@ + text::join(names, ", "@)
            + "); be more specific"@,
        picker::item(w) == w.name + (if w.is_main {
            " (main)"@
        } else {
            ""@
        }) + "  "@ + w.path,
{
}

/// Every worktree that is skipped is named, in order, with its pull request and all
/// that keeps it; nothing is said where none is.
pub proof fn skipped_worktrees_are_named(rows: Seq<WorktreeView>, judged: Seq<Judged>, j: Judged)
    ensures
        removal::skipped_rows(rows, seq![]) == Seq::<Seq<char>>::empty(),
        removal::skipped_rows(rows, judged.push(j)) == removal::skipped_rows(rows, judged)
            + match j.verdict.deep_view() {
            VerdictView::Skip(words) => seq![
                "  "@ + rows[j.row as int].name + " "@ + style::dimmed(
                    match j.pr.deep_view() {
                        Some(p) => "#"@ + text::decimal(p.number as nat) + " "@ + p.state,
                        None => "(no PR)"@,
                    },
                ) + " \u{2014} "@ + style::yellow(text::join(words, ","@)),
            ],
            _ => seq![],
        },
        removal::skipped_rows(rows, judged).len() == 0 ==> removal::skipped_block(
            rows,
            judged,
        ).len() == 0,
        removal::skipped_rows(rows, judged).len() > 0 ==> removal::skipped_block(rows, judged)
            == seq![style::bold(style::yellow("skipping"@)) + " (pass --force to include):"@]
            + removal::skipped_rows(rows, judged) + seq![""@],
{
    assert(judged.push(j).drop_last() =~= judged);
}

/// What the user is told of a sweep: how many there are, what is asked, why each is
/// removed, and how it went.
pub proof fn sweeps_are_told(
    n: nat,
    name: Seq<char>,
    p: PrInfoView,
    pr: Option<PrInfoView>,
    trunk: Seq<char>,
    removed: nat,
    failed: nat,
)
    ensures
        removal::found(n) == style::bold(style::green("found"@)) + " "@ + text::decimal(n)
            + " worktree(s) match merged/closed PRs:"@,
        removal::question(n) == "remove "@ + text::decimal(n) + if n == 1 {
            " worktree?"@
        } else {
            " worktrees?"@
        },
        removal::removing(name, Reason::Pr, Some(p), trunk) == "removing "@ + name + " ("@ + (
        style::dimmed("#"@ + text::decimal(p.number as nat)) + " "@ + style::dimmed(p.state))
            + ")"@,
        removal::removing(name, Reason::Landed, pr, trunk) == "removing "@ + name + " ("@
            + style::dimmed("landed on "@ + trunk) + ")"@,
        removal::summary(removed, failed) == "done \u{2014} removed "@ + style::green(
            text::decimal(removed),
        ) + ", failed "@ + if failed == 0 {
            style::dimmed(text::decimal(failed))
        } else {
            style::red(text::decimal(failed))
        },
{
}

/// The branch that stands for a worktree, whether a repository is known, and how it is
/// written.
pub proof fn repositories_are_named(w: WorktreeView, c: VcsContextView, url: Seq<char>)
    ensures
        removal::branch_or_name(w) == if w.branch is Some {
            w.branch->0
        } else {
            w.name
        },
        removal::is_known(c) <==> c.owner.len() > 0 && c.repo.len() > 0,
        commands::slug(None) is None,
        ({
            let o = layout::origin_context(url);
            commands::slug(Some(url)) == if o.owner.len() > 0 && o.repo.len() > 0 {
                Some(o.owner + "/"@ + o.repo)
            } else {
                None
            }
        }),
{
}

/// The programs that open a page, by desktop, in the order they are tried.
pub proof fn pages_are_opened(url: Seq<char>)
    ensures
        ({
            let run = |program: Seq<char>, args: Seq<Seq<char>>|
                ActionView::Run(InvocationView { program, args, dir: ""@, capture: false });
            &&& commands::openers(Desktop::Windows, url) == seq![
                run("rundll32"@, seq!["url.dll,FileProtocolHandler"@, url]),
            ]
            &&& commands::openers(Desktop::Mac, url) == seq![run("open"@, seq![url])]
            &&& commands::openers(Desktop::Other, url) == seq![
                run("xdg-open"@, seq![url]),
                run("gio"@, seq!["open"@, url]),
                run("wslview"@, seq![url]),
            ]
        }),
{
}

/// A project is offered by what it is called and how many worktrees it has, and each
/// is offered.
pub proof fn projects_are_offered(label: Seq<char>, n: nat, pr: PrInfoView, url: Seq<char>)
    ensures
        commands::project_item(label, n) == label + "  ("@ + text::decimal(n) + if n == 1 {
            " worktree)"@
        } else {
            " worktrees)"@
        },
        commands::opening(pr, url) == "opening PR "@ + ("#"@ + text::decimal(pr.number as nat))
            + " ("@ + pr.state + ") \u{2014} "@ + url,
        pr_cache::hyperlink(url, label) == "\x1b]8;;"@ + url + "\x1b\\"@ + label
            + "\x1b]8;;\x1b\\"@,
{
}

} // verus!
