//! What the smaller commands do: opening a page, a shell or a program, and what
//! the user is told on the way.

use crate::discovery::Project;
use crate::layout;
use crate::listing;
use crate::path_display;
use crate::paths;
use crate::pr_cache::{self, PrInfo, PrInfoView};
use crate::process::{self, Action, ActionView, Invocation, InvocationView};
use crate::strings;
use crate::text;
use crate::vcs::Worktree;
use vstd::prelude::*;
use vstd::string::*;

verus! {

/// `<owner>/<repo>`, where the URL of `origin` gives both.
pub open spec fn slug(origin: Option<Seq<char>>) -> Option<Seq<char>> {
    match origin {
        Some(url) => {
            let ctx = layout::origin_context(url);
            if ctx.owner.len() > 0 && ctx.repo.len() > 0 {
                Some(ctx.owner + "/"@ + ctx.repo)
            } else {
                None
            }
        },
        None => None,
    }
}

/// `<owner>/<repo>`, where the URL of `origin` gives both.
pub fn gh_repo(origin: Option<&str>) -> (r: Option<String>)
    ensures
        r.deep_view() == slug(origin.deep_view()),
{
    match origin {
        Some(url) => {
            let ctx = layout::parse_origin(url);
            if ctx.owner.as_str().unicode_len() == 0 || ctx.repo.as_str().unicode_len() == 0 {
                return None;
            }
            let mut s = ctx.owner;
            s.append("/");
            s.append(ctx.repo.as_str());
            Some(s)
        },
        None => None,
    }
}

/// The message where a worktree has no pull request.
pub open spec fn no_pr(name: Seq<char>) -> Seq<char> {
    "no PR found for `"@ + name + "` in the cache. try `renri pr "@ + name
        + " --refresh` to re-fetch from GitHub, or check that the branch was actually pushed and a PR was opened."@
}

/// What the user is told as a page is opened.
pub open spec fn opening(pr: PrInfoView, url: Seq<char>) -> Seq<char> {
    "opening PR "@ + listing::pr_tag(pr) + " ("@ + pr.state + ") \u{2014} "@ + url
}

/// The page of a worktree's pull request and what the user is told as it is
/// opened, or that there is none.
pub fn pr_page(w: &Worktree, pr: Option<&PrInfo>, owner: &str, repo: &str) -> (r: Result<
    (String, String),
    String,
>)
    ensures
        match (r, pr) {
            (Ok((url, line)), Some(p)) => url@ == pr_cache::page(
                owner@,
                repo@,
                p.number as nat,
            ) && line@ == opening(p.deep_view(), url@),
            (Err(e), None) => e@ == no_pr(w.name@),
            _ => false,
        },
{
    match pr {
        Some(p) => {
            let url = pr_cache::pr_url(None, owner, repo, p.number);
            let mut s = "opening PR ".to_string();
            s.append(listing::tag(p).as_str());
            s.append(" (");
            s.append(p.state.as_str());
            s.append(") \u{2014} ");
            s.append(url.as_str());
            Ok((url, s))
        },
        None => {
            let mut e = "no PR found for `".to_string();
            e.append(w.name.as_str());
            e.append("` in the cache. try `renri pr ");
            e.append(w.name.as_str());
            e.append(
                " --refresh` to re-fetch from GitHub, or check that the branch was actually pushed and a PR was opened.",
            );
            Err(e)
        },
    }
}

/// The kind of desktop.
#[derive(Debug, Clone, Copy, PartialEq, Eq, Structural)]
pub enum Desktop {
    Windows,
    Mac,
    Other,
}

/// The programs that can open a page, in the order they are tried.
pub open spec fn openers(desktop: Desktop, url: Seq<char>) -> Seq<ActionView> {
    match desktop {
        Desktop::Windows => seq![
            process::tell("rundll32"@, seq!["url.dll,FileProtocolHandler"@, url], ""@),
        ],
        Desktop::Mac => seq![process::tell("open"@, seq![url], ""@)],
        Desktop::Other => seq![
            process::tell("xdg-open"@, seq![url], ""@),
            process::tell("gio"@, seq!["open"@, url], ""@),
            process::tell("wslview"@, seq![url], ""@),
        ],
    }
}

/// The programs that can open a page, in the order they are tried. They run in
/// the directory that the program runs in.
pub fn open_in_browser(desktop: Desktop, url: &str) -> (r: Vec<Action>)
    ensures
        r.deep_view() == openers(desktop, url@),
{
    let alone = [url];
    proof {
        assert(alone.deep_view() =~= seq![url@]);
    }
    let r = match desktop {
        Desktop::Windows => {
            let args = ["url.dll,FileProtocolHandler", url];
            proof {
                assert(args.deep_view() =~= seq!["url.dll,FileProtocolHandler"@, url@]);
            }
            vec![process::telling("rundll32", &args, "")]
        },
        Desktop::Mac => vec![process::telling("open", &alone, "")],
        Desktop::Other => {
            let args = ["open", url];
            proof {
                assert(args.deep_view() =~= seq!["open"@, url@]);
            }
            vec![
                process::telling("xdg-open", &alone, ""),
                process::telling("gio", &args, ""),
                process::telling("wslview", &alone, ""),
            ]
        },
    };
    proof {
        assert(r.deep_view() =~= openers(desktop, url@));
    }
    r
}

/// The message where no program could open a page.
pub open spec fn not_opened(desktop: Desktop, url: Seq<char>) -> Seq<char> {
    match desktop {
        Desktop::Other =>
            "no suitable URL opener found (install xdg-utils, or open manually): "@ + url,
        _ => "failed to open `"@ + url + "` in browser"@,
    }
}

/// Says that no program could open a page.
pub fn not_opened_error(desktop: Desktop, url: &str) -> (r: String)
    ensures
        r@ == not_opened(desktop, url@),
{
    match desktop {
        Desktop::Other => {
            let mut e =
                "no suitable URL opener found (install xdg-utils, or open manually): ".to_string();
            e.append(url);
            e
        },
        _ => {
            let mut e = "failed to open `".to_string();
            e.append(url);
            e.append("` in browser");
            e
        },
    }
}

/// The shell to open in a worktree: the one that the environment names, or else
/// what is usual on the platform.
pub fn pick_subshell(windows: bool, named: Option<&str>) -> (r: String)
    ensures
        r@ == match named {
            Some(s) => s@,
            None => if windows {
                "pwsh"@
            } else {
                "bash"@
            },
        },
{
    match named {
        Some(s) => s.to_string(),
        None => if windows {
            "pwsh".to_string()
        } else {
            "bash".to_string()
        },
    }
}

/// What the user is told as a shell is opened in a worktree.
pub open spec fn subshell_note(shell: Seq<char>, path: Seq<char>, windows: bool) -> Seq<Seq<char>> {
    seq![
        "renri: spawning "@ + shell + " in "@ + path_display::shown(path, windows),
        "renri: tip \u{2014} install the shell wrapper for direct cd in your current shell:"@,
        "renri:       eval \"$(renri shell-init bash)\"        # or zsh / fish / powershell"@,
        "renri:       (or `renri shell-init --install bash` to write it to your rc file)"@,
    ]
}

/// What `cd` comes to.
#[derive(Debug, PartialEq, Eq)]
pub enum ChangeDir {
    /// Print the path, for the shell function to change to.
    Print(String),
    /// Open a shell there, and tell the user so.
    Shell(Invocation, Vec<String>),
}

/// Goes to a worktree: inside the shell function the path is printed, elsewhere a
/// shell is opened there.
pub fn change_dir(path: &str, wrapped: bool, shell: &str, windows: bool) -> (r: ChangeDir)
    ensures
        match r {
            ChangeDir::Print(p) => wrapped && p@ == path_display::shown(path@, windows),
            ChangeDir::Shell(i, note) => !wrapped && i.deep_view() == (InvocationView {
                program: shell@,
                args: seq![],
                dir: path@,
                capture: false,
            }) && note.deep_view() == subshell_note(shell@, path@, windows),
        },
{
    let there = path_display::display_path(path, windows);
    if wrapped {
        return ChangeDir::Print(there);
    }
    let mut first = "renri: spawning ".to_string();
    first.append(shell);
    first.append(" in ");
    first.append(there.as_str());
    let note = vec![
        first,
        "renri: tip \u{2014} install the shell wrapper for direct cd in your current shell:".to_string(),
        "renri:       eval \"$(renri shell-init bash)\"        # or zsh / fish / powershell".to_string(),
        "renri:       (or `renri shell-init --install bash` to write it to your rc file)".to_string(),
    ];
    let i = Invocation {
        program: shell.to_string(),
        args: Vec::new(),
        dir: path.to_string(),
        capture: false,
    };
    proof {
        assert(note.deep_view() =~= subshell_note(shell@, path@, windows));
        assert(i.args.deep_view() =~= seq![]);
    }
    ChangeDir::Shell(i, note)
}

/// How a command line is run in a directory; it has to name a program.
pub fn exec_in(argv: &Vec<String>, dir: &str) -> (r: Result<Invocation, String>)
    ensures
        match r {
            Ok(i) => argv@.len() > 0 && i.deep_view() == (InvocationView {
                program: argv@[0]@,
                args: argv.deep_view().drop_first(),
                dir: dir@,
                capture: false,
            }),
            Err(e) => argv@.len() == 0 && e@
                == "no command was given (use `renri exec <name> -- cmd args...`)"@,
        },
{
    if argv.len() == 0 {
        return Err(
            "no command was given (use `renri exec <name> -- cmd args...`)".to_string(),
        );
    }
    let mut args: Vec<String> = Vec::new();
    let ghost all = argv.deep_view();
    let mut i: usize = 1;
    while i < argv.len()
        invariant
            1 <= i <= argv@.len(),
            all == argv.deep_view(),
            args.deep_view() == all.subrange(1, i as int),
        decreases argv@.len() - i,
    {
        let ghost before = args.deep_view();
        args.push(argv[i].clone());
        proof {
            assert(args.deep_view() =~= before.push(argv@[i as int]@));
            assert(args.deep_view() =~= all.subrange(1, i + 1));
        }
        i = i + 1;
    }
    proof {
        assert(args.deep_view() =~= all.drop_first());
    }
    Ok(
        Invocation {
            program: argv[0].clone(),
            args,
            dir: dir.to_string(),
            capture: false,
        },
    )
}

/// What a new configuration file holds.
pub const INIT_TEMPLATE: &'static str =
    "# renri.toml\n# Schema and examples: https://github.com/yukimemi/renri\n";

/// Where a new configuration file goes.
pub fn init_target(dir: &str, windows: bool) -> (r: String)
    ensures
        r@ == paths::join(dir@, "renri.toml"@, windows),
{
    paths::joined(dir, "renri.toml", windows)
}

/// Checks that a configuration file can be written: over one that is there, only
/// by force.
pub fn check_init(target: &str, there: bool, force: bool) -> (r: Result<(), String>)
    ensures
        match r {
            Ok(_) => !there || force,
            Err(e) => there && !force && e@ == target@
                + " already exists; pass --force to overwrite"@,
        },
{
    if there && !force {
        let mut e = target.to_string();
        e.append(" already exists; pass --force to overwrite");
        Err(e)
    } else {
        Ok(())
    }
}

/// The directory to start from: the one given, which has to be there, or else the
/// one that the program runs in.
pub fn effective_cwd(given: Option<&str>, there: bool, current: Option<&str>) -> (r: Result<
    String,
    String,
>)
    ensures
        process::result_view(r) == match (given, current) {
            (Some(p), _) => if there {
                Ok(p@)
            } else {
                Err("--cwd path does not exist: "@ + p@)
            },
            (None, Some(c)) => Ok(c@),
            (None, None) => Err("could not read current directory"@),
        },
{
    match (given, current) {
        (Some(p), _) => {
            if there {
                Ok(p.to_string())
            } else {
                let mut e = "--cwd path does not exist: ".to_string();
                e.append(p);
                Err(e)
            }
        },
        (None, Some(c)) => Ok(c.to_string()),
        (None, None) => Err("could not read current directory".to_string()),
    }
}

/// A project as an item to pick: its label and how many worktrees it has.
pub open spec fn project_item(label: Seq<char>, n: nat) -> Seq<char> {
    label + "  ("@ + text::decimal(n) + (if n == 1 {
        " worktree)"@
    } else {
        " worktrees)"@
    })
}

/// A project as an item to pick.
fn item_of(p: &Project) -> (r: String)
    ensures
        r@ == project_item(p.label@, p.worktrees@.len()),
{
    let mut s = p.label.clone();
    s.append("  (");
    s.append(strings::decimal(p.worktrees.len() as u64).as_str());
    s.append(if p.worktrees.len() == 1 {
        " worktree)"
    } else {
        " worktrees)"
    });
    s
}

/// The items to pick a project from.
pub open spec fn project_items(projects: Seq<Project>) -> Seq<Seq<char>> {
    projects.map_values(|p: Project| project_item(p.label@, p.worktrees@.len()))
}

/// Outside any repository, a project under `root` is to be picked: gives the
/// items to pick from. There have to be some, and asking has to be allowed.
pub fn pick_project(
    root: &str,
    projects: &Vec<Project>,
    non_interactive: bool,
    windows: bool,
) -> (r: Result<Vec<String>, String>)
    ensures
        process::result_view(r) == if projects@.len() == 0 {
            Err(
                "not inside a git or jj repository, and no managed projects found under "@
                    + path_display::shown(root@, windows)
                    + ".\ntip: cd into a repo, pass `-C <path>`, or `renri add <branch>` from a repo first."@,
            )
        } else if non_interactive {
            Err(
                "not inside a git or jj repository and --non-interactive set; pass `-C <path>` or cd into a repo"@,
            )
        } else {
            Ok(project_items(projects@))
        },
{
    if projects.len() == 0 {
        let mut e =
            "not inside a git or jj repository, and no managed projects found under ".to_string();
        e.append(path_display::display_path(root, windows).as_str());
        e.append(
            ".\ntip: cd into a repo, pass `-C <path>`, or `renri add <branch>` from a repo first.",
        );
        return Err(e);
    }
    if non_interactive {
        return Err(
            "not inside a git or jj repository and --non-interactive set; pass `-C <path>` or cd into a repo".to_string(),
        );
    }
    let ghost goal = project_items(projects@);
    let mut items: Vec<String> = Vec::new();
    let mut i: usize = 0;
    while i < projects.len()
        invariant
            i <= projects@.len(),
            goal == project_items(projects@),
            items@.len() == i,
            forall|j: int| 0 <= j < i ==> (#[trigger] items@[j])@ == goal[j],
        decreases projects@.len() - i,
    {
        items.push(item_of(&projects[i]));
        i = i + 1;
    }
    proof {
        assert(items.deep_view() =~= goal);
    }
    Ok(items)
}

} // verus!
