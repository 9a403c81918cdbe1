//! The resolved configuration, for the user to read.

use crate::config::LoadedConfig;
use crate::layout::{self, VcsContext, VcsContextView};
use crate::path_display;
use crate::strings;
use crate::style;
use crate::text;
use vstd::prelude::*;
use vstd::string::*;

verus! {

/// What is reported.
pub struct Facts {
    /// The names of the backends; the first is the primary one.
    pub backends: Seq<Seq<char>>,
    pub root: Seq<char>,
    pub vcs: VcsContextView,
    /// The branch that is checked out, if there is one.
    pub branch: Option<Seq<char>>,
    /// The templates in effect.
    pub worktree_root: Seq<char>,
    pub worktree_path: Seq<char>,
    /// Where a worktree for the branch would go.
    pub resolved: Seq<char>,
    /// How many hooks there are.
    pub post_create: nat,
    pub pre_remove: nat,
    /// The files that the configuration was read from.
    pub sources: Seq<Seq<char>>,
    /// The platform is Windows.
    pub windows: bool,
}

/// The backends, and which of several is the primary one.
pub open spec fn backend_line(names: Seq<Seq<char>>) -> Seq<char> {
    if names.len() > 1 {
        "  backends:          "@ + text::join(names, ", "@) + " (primary: "@ + names[0] + ")"@
    } else {
        "  backend:           "@ + text::join(names, ", "@)
    }
}

/// What is said of the repository.
pub open spec fn repo_part(f: Facts) -> Seq<Seq<char>> {
    seq![
        style::dimmed("repo"@),
        backend_line(f.backends),
        "  root:              "@ + path_display::shown(f.root, f.windows),
        ""@,
        style::dimmed("vcs context"@),
        "  host:              "@ + match f.vcs.host {
            Some(h) => h,
            None => "(none)"@,
        },
        "  owner:             "@ + f.vcs.owner,
        "  repo:              "@ + f.vcs.repo,
        "  branch:            "@ + match f.branch {
            Some(b) => b,
            None => style::dimmed("(no bookmark at @)"@),
        },
    ]
}

/// What is said of the layout. Without a branch there is no path to show.
pub open spec fn layout_part(f: Facts) -> Seq<Seq<char>> {
    seq![
        ""@,
        style::dimmed("layout (template)"@),
        "  worktree_root:     "@ + f.worktree_root,
        "  worktree_path:     "@ + f.worktree_path,
    ] + if f.branch is Some {
        seq![
            ""@,
            style::dimmed("layout (resolved for current branch)"@),
            "  \u{2192} "@ + path_display::shown(f.resolved, f.windows),
        ]
    } else {
        seq![]
    }
}

/// What is said of the hooks.
pub open spec fn hooks_part(f: Facts) -> Seq<Seq<char>> {
    seq![
        ""@,
        style::dimmed("hooks"@),
        "  post_create:       "@ + text::decimal(f.post_create),
        "  pre_remove:        "@ + text::decimal(f.pre_remove),
    ]
}

/// Each of the paths, indented.
pub open spec fn indented(paths: Seq<Seq<char>>, windows: bool) -> Seq<Seq<char>> {
    paths.map_values(|p: Seq<char>| "  "@ + path_display::shown(p, windows))
}

/// What is said of the files.
pub open spec fn sources_part(f: Facts) -> Seq<Seq<char>> {
    if f.sources.len() == 0 {
        seq![
            ""@,
            style::dimmed("config sources"@) + "        "@ + style::dimmed(
                "(none \u{2014} using built-in defaults)"@,
            ),
        ]
    } else {
        seq![""@, style::dimmed("config sources"@)] + indented(f.sources, f.windows)
    }
}

/// The whole report.
pub open spec fn lines(f: Facts) -> Seq<Seq<char>> {
    repo_part(f) + layout_part(f) + hooks_part(f) + sources_part(f)
}

/// `start` and `rest` in one line.
fn line_of(start: &str, rest: &str) -> (r: String)
    ensures
        r@ == start@ + rest@,
{
    let mut s = start.to_string();
    s.append(rest);
    s
}

/// The backends, and which of several is the primary one.
fn backends_of(names: &Vec<String>) -> (r: String)
    ensures
        r@ == backend_line(names.deep_view()),
{
    proof {
        assert(names.deep_view().len() == names@.len());
    }
    let all = strings::join(names, ", ");
    if names.len() > 1 {
        let mut s = "  backends:          ".to_string();
        s.append(all.as_str());
        s.append(" (primary: ");
        s.append(names[0].as_str());
        s.append(")");
        s
    } else {
        line_of("  backend:           ", all.as_str())
    }
}

/// The template configured, or else the default.
fn template_of<'a>(configured: &'a Option<String>, default: &'a str) -> (r: &'a str)
    ensures
        r@ == layout::chosen(configured.deep_view(), default@),
{
    match configured {
        Some(t) => t.as_str(),
        None => default,
    }
}

/// The facts of a report.
pub open spec fn facts(
    backends: Seq<Seq<char>>,
    root: Seq<char>,
    vcs: VcsContextView,
    branch: Option<Seq<char>>,
    loaded: LoadedConfig,
    resolved: Seq<char>,
    windows: bool,
) -> Facts {
    Facts {
        backends,
        root,
        vcs,
        branch,
        worktree_root: layout::chosen(
            loaded.config.layout.worktree_root.deep_view(),
            layout::DEFAULT_WORKTREE_ROOT@,
        ),
        worktree_path: layout::chosen(
            loaded.config.layout.worktree_path.deep_view(),
            layout::DEFAULT_WORKTREE_PATH@,
        ),
        resolved,
        post_create: loaded.config.hooks.post_create@.len(),
        pre_remove: loaded.config.hooks.pre_remove@.len(),
        sources: loaded.sources.deep_view(),
        windows,
    }
}

/// Reports the resolved configuration.
pub fn config_report(
    backends: &Vec<String>,
    root: &str,
    vcs: &VcsContext,
    branch: Option<&str>,
    loaded: &LoadedConfig,
    resolved: &str,
    windows: bool,
) -> (r: Vec<String>)
    ensures
        r.deep_view() == lines(
            facts(
                backends.deep_view(),
                root@,
                vcs.deep_view(),
                branch.deep_view(),
                *loaded,
                resolved@,
                windows,
            ),
        ),
{
    let ghost f = facts(
        backends.deep_view(),
        root@,
        vcs.deep_view(),
        branch.deep_view(),
        *loaded,
        resolved@,
        windows,
    );
    let host: &str = match &vcs.host {
        Some(h) => h.as_str(),
        None => "(none)",
    };
    let branch_text = match branch {
        Some(b) => b.to_string(),
        None => style::dim("(no bookmark at @)"),
    };
    let mut out: Vec<String> = vec![
        style::dim("repo"),
        backends_of(backends),
        line_of("  root:              ", path_display::display_path(root, windows).as_str()),
        "".to_string(),
        style::dim("vcs context"),
        line_of("  host:              ", host),
        line_of("  owner:             ", vcs.owner.as_str()),
        line_of("  repo:              ", vcs.repo.as_str()),
        line_of("  branch:            ", branch_text.as_str()),
    ];
    proof {
        assert(out.deep_view() =~= repo_part(f));
    }
    let root_template = template_of(
        &loaded.config.layout.worktree_root,
        layout::DEFAULT_WORKTREE_ROOT,
    );
    let path_template = template_of(
        &loaded.config.layout.worktree_path,
        layout::DEFAULT_WORKTREE_PATH,
    );
    out.push("".to_string());
    out.push(style::dim("layout (template)"));
    out.push(line_of("  worktree_root:     ", root_template));
    out.push(line_of("  worktree_path:     ", path_template));
    if branch.is_some() {
        out.push("".to_string());
        out.push(style::dim("layout (resolved for current branch)"));
        out.push(
            line_of("  \u{2192} ", path_display::display_path(resolved, windows).as_str()),
        );
    }
    proof {
        assert(out.deep_view() =~= repo_part(f) + layout_part(f));
    }
    out.push("".to_string());
    out.push(style::dim("hooks"));
    out.push(
        line_of(
            "  post_create:       ",
            strings::decimal(loaded.config.hooks.post_create.len() as u64).as_str(),
        ),
    );
    out.push(
        line_of(
            "  pre_remove:        ",
            strings::decimal(loaded.config.hooks.pre_remove.len() as u64).as_str(),
        ),
    );
    proof {
        assert(out.deep_view() =~= repo_part(f) + layout_part(f) + hooks_part(f));
        assert(loaded.sources.deep_view().len() == loaded.sources@.len());
    }
    out.push("".to_string());
    if loaded.sources.len() == 0 {
        let mut s = line_of(style::dim("config sources").as_str(), "        ");
        s.append(style::dim("(none \u{2014} using built-in defaults)").as_str());
        out.push(s);
        proof {
            assert(out.deep_view() =~= lines(f));
        }
        return out;
    }
    out.push(style::dim("config sources"));
    let ghost start = out.deep_view();
    let ghost goal = indented(f.sources, windows);
    let mut i: usize = 0;
    proof {
        assert(goal.take(0) =~= seq![]);
        assert(start + seq![] =~= start);
    }
    while i < loaded.sources.len()
        invariant
            i <= loaded.sources@.len(),
            f.sources == loaded.sources.deep_view(),
            goal == indented(f.sources, windows),
            out.deep_view() == start + goal.take(i as int),
        decreases loaded.sources@.len() - i,
    {
        let ghost before = out.deep_view();
        let s = line_of(
            "  ",
            path_display::display_path(loaded.sources[i].as_str(), windows).as_str(),
        );
        out.push(s);
        proof {
            assert(out.deep_view() =~= before.push(s@));
            assert(goal[i as int] == s@);
            assert(out.deep_view() =~= start + goal.take(i + 1));
        }
        i = i + 1;
    }
    proof {
        assert(goal.take(i as int) =~= goal);
        assert(start =~= repo_part(f) + layout_part(f) + hooks_part(f) + seq![
            ""@,
            style::dimmed("config sources"@),
        ]);
        assert(out.deep_view() =~= lines(f));
    }
    out
}

} // verus!
