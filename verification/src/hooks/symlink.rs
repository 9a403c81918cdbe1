//! Making a symbolic link, with a junction to fall back on where Windows does
//! not let a user make one for a directory.

use super::copy::{self, FileKind};
use crate::process::{self, Action, ActionView};
use vstd::prelude::*;
use vstd::string::*;

verus! {

/// The kind of system, as far as links go.
#[derive(Debug, Clone, Copy, PartialEq, Eq, Structural)]
pub enum Platform {
    Unix,
    Windows,
    Other,
}

/// Something to be done for a link.
#[derive(Debug, PartialEq, Eq)]
pub enum LinkJob {
    /// Make a directory and those it stands in.
    MakeDirs(String),
    /// Make `link` a symbolic link to `target`; `dir` says whether that is a
    /// directory, where the system asks for it.
    Link { target: String, link: String, dir: bool },
    /// Give up, with this message.
    Refuse(String),
}

/// What a [`LinkJob`] stands for.
pub enum LinkJobView {
    MakeDirs(Seq<char>),
    Link { target: Seq<char>, link: Seq<char>, dir: bool },
    Refuse(Seq<char>),
}

impl DeepView for LinkJob {
    type V = LinkJobView;

    open spec fn deep_view(&self) -> LinkJobView {
        match self {
            LinkJob::MakeDirs(p) => LinkJobView::MakeDirs(p@),
            LinkJob::Link { target, link, dir } => LinkJobView::Link {
                target: target@,
                link: link@,
                dir: *dir,
            },
            LinkJob::Refuse(e) => LinkJobView::Refuse(e@),
        }
    }
}

/// The jobs for a link: make the directory for it, and then the link. Windows
/// wants to know what the target is, so it must be there.
pub open spec fn jobs(
    target: Seq<char>,
    link: Seq<char>,
    platform: Platform,
    kind: Option<FileKind>,
) -> Seq<LinkJobView> {
    (match copy::holder(link, platform == Platform::Windows) {
        Some(p) => seq![LinkJobView::MakeDirs(p)],
        None => seq![],
    }).push(
        match (platform, kind) {
            (Platform::Unix, _) => LinkJobView::Link { target, link, dir: false },
            (Platform::Windows, Some(k)) => LinkJobView::Link {
                target,
                link,
                dir: k == FileKind::Dir,
            },
            (Platform::Windows, None) => LinkJobView::Refuse(
                "symlink target "@ + target + " does not exist"@,
            ),
            (Platform::Other, _) => LinkJobView::Refuse(
                "symlink hook is unsupported on this platform"@,
            ),
        },
    )
}

/// Plans a symbolic link. `kind` says what is at `target`, if anything.
pub fn create(target: &str, link: &str, platform: Platform, kind: Option<FileKind>) -> (r: Vec<
    LinkJob,
>)
    ensures
        r.deep_view() == jobs(target@, link@, platform, kind),
{
    let mut out: Vec<LinkJob> = Vec::new();
    if let Some(p) = copy::holder_of(link, platform == Platform::Windows) {
        out.push(LinkJob::MakeDirs(p));
    }
    let last = match (platform, kind) {
        (Platform::Unix, _) => LinkJob::Link {
            target: target.to_string(),
            link: link.to_string(),
            dir: false,
        },
        (Platform::Windows, Some(k)) => LinkJob::Link {
            target: target.to_string(),
            link: link.to_string(),
            dir: k == FileKind::Dir,
        },
        (Platform::Windows, None) => {
            let mut e = "symlink target ".to_string();
            e.append(target);
            e.append(" does not exist");
            LinkJob::Refuse(e)
        },
        (Platform::Other, _) => LinkJob::Refuse(
            "symlink hook is unsupported on this platform".to_string(),
        ),
    };
    out.push(last);
    proof {
        assert(out.deep_view() =~= jobs(target@, link@, platform, kind));
    }
    out
}

/// What to do where Windows refused a link: for a directory, make a junction,
/// which takes no privilege; for a file, tell the user what it takes.
pub open spec fn after_refusal(
    target: Seq<char>,
    link: Seq<char>,
    dir: bool,
    error: Seq<char>,
) -> Result<ActionView, Seq<char>> {
    if dir {
        Ok(process::tell("cmd"@, seq!["/C"@, "mklink"@, "/J"@, link, target], ""@))
    } else {
        Err(
            "symlink "@ + link + " -> "@ + target + " failed: "@ + error
                + "\non Windows, file symlinks require Developer Mode (Settings \u{2192} Privacy & security \u{2192} For developers)"@,
        )
    }
}

/// What to do where Windows refused a link. The junction is made from the
/// directory that the program runs in.
pub fn windows_symlink(target: &str, link: &str, dir: bool, error: &str) -> (r: Result<
    Action,
    String,
>)
    ensures
        process::result_view(r) == after_refusal(target@, link@, dir, error@),
{
    if dir {
        let args = ["/C", "mklink", "/J", link, target];
        proof {
            assert(args.deep_view() =~= seq!["/C"@, "mklink"@, "/J"@, link@, target@]);
        }
        Ok(process::telling("cmd", &args, ""))
    } else {
        let mut e = "symlink ".to_string();
        e.append(link);
        e.append(" -> ");
        e.append(target);
        e.append(" failed: ");
        e.append(error);
        e.append(
            "\non Windows, file symlinks require Developer Mode (Settings \u{2192} Privacy & security \u{2192} For developers)",
        );
        Err(e)
    }
}

/// What comes of making a junction: `ran` says whether the program succeeded, or
/// is none where it could not be started.
pub fn junction_link(target: &str, link: &str, ran: Option<bool>) -> (r: Result<(), String>)
    ensures
        process::result_view(r) == match ran {
            Some(true) => Ok(()),
            Some(false) => Err(
                "junction creation failed: mklink /J "@ + link@ + " "@ + target@,
            ),
            None => Err("failed to spawn cmd /C mklink /J"@),
        },
{
    match ran {
        Some(true) => Ok(()),
        Some(false) => {
            let mut e = "junction creation failed: mklink /J ".to_string();
            e.append(link);
            e.append(" ");
            e.append(target);
            Err(e)
        },
        None => Err("failed to spawn cmd /C mklink /J".to_string()),
    }
}

} // verus!
