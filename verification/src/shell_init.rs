//! A shell function that makes `renri cd` change the directory of the shell it
//! is called from, and where to install it.

use crate::paths;
use crate::process::{self, Action, ActionView, Reply, ReplyView, Step, StepView};
use crate::strings;
use crate::text;
use crate::user_dirs;
use vstd::prelude::*;
use vstd::string::*;

verus! {

/// The shells that there is a function for.
#[derive(Debug, Clone, Copy, PartialEq, Eq, Structural)]
pub enum Shell {
    Bash,
    Zsh,
    Fish,
    Powershell,
}

/// What a startup file holds once the function is installed.
pub const MARKER: &'static str = "renri shell wrapper";

/// The function for bash and zsh.
pub const POSIX: &'static str =
    "# renri shell wrapper — paste into ~/.bashrc / ~/.zshrc\n# Usage: `renri cd foo` actually cds the current shell.\nrenri() {\n    if [ \"$1\" = \"cd\" ]; then\n        local target\n        target=$(RENRI_SHELL_WRAPPER=1 command renri cd \"${@:2}\") || return $?\n        [ -n \"$target\" ] && cd \"$target\"\n    else\n        command renri \"$@\"\n    fi\n}\n";

/// The function for fish.
pub const FISH: &'static str =
    "# renri shell wrapper — paste into ~/.config/fish/config.fish\nfunction renri\n    if test (count $argv) -ge 1; and test \"$argv[1]\" = \"cd\"\n        set -l target (env RENRI_SHELL_WRAPPER=1 command renri cd $argv[2..-1])\n        and test -n \"$target\"\n        and cd $target\n    else\n        command renri $argv\n    end\nend\n";

/// The function for PowerShell.
pub const POWERSHELL: &'static str =
    "# renri shell wrapper — paste into $PROFILE\nfunction renri {\n    if ($args.Count -ge 1 -and $args[0] -eq 'cd') {\n        $rest = if ($args.Count -gt 1) { $args[1..($args.Count - 1)] } else { @() }\n        $env:RENRI_SHELL_WRAPPER = '1'\n        try {\n            $target = & renri.exe cd @rest\n            if ($LASTEXITCODE -eq 0 -and $target) {\n                Set-Location -LiteralPath $target\n            }\n        } finally {\n            Remove-Item Env:RENRI_SHELL_WRAPPER -ErrorAction SilentlyContinue\n        }\n    } else {\n        & renri.exe @args\n    }\n}\n";

/// The function for a shell, its lines ended by line feeds.
pub open spec fn function(shell: Shell) -> Seq<char> {
    match shell {
        Shell::Bash => POSIX@,
        Shell::Zsh => POSIX@,
        Shell::Fish => FISH@,
        Shell::Powershell => POWERSHELL@,
    }
}

/// The function for a shell.
pub fn snippet(shell: Shell) -> (r: &'static str)
    ensures
        r@ == function(shell),
{
    match shell {
        Shell::Bash | Shell::Zsh => POSIX,
        Shell::Fish => FISH,
        Shell::Powershell => POWERSHELL,
    }
}

/// How many lines of `s` end with a carriage return and a line feed.
pub open spec fn crlf_count(s: Seq<char>) -> nat
    decreases s.len(),
{
    if s.len() < 2 {
        0
    } else {
        crlf_count(s.drop_last()) + if s.last() == '\n' && s[s.len() - 2] == '\r' {
            1nat
        } else {
            0nat
        }
    }
}

/// Whether a startup file is to get lines that end with a carriage return and a
/// line feed: as most of its own lines do. A file without any line end gets them
/// for PowerShell only.
pub open spec fn wants_crlf(existing: Seq<char>, shell: Shell) -> bool {
    let lf = text::count_char(existing, '\n');
    if lf == 0 {
        shell == Shell::Powershell
    } else {
        2 * crlf_count(existing) >= lf
    }
}

/// Whether a startup file is to get lines that end with a carriage return and a
/// line feed.
pub fn detect_crlf(existing: &str, shell: Shell) -> (r: bool)
    ensures
        r == wants_crlf(existing@, shell),
{
    let v = strings::chars(existing);
    let mut crlf: usize = 0;
    let mut lf: usize = 0;
    let mut i: usize = 0;
    while i < v.len()
        invariant
            i <= v.len(),
            v@ == existing@,
            crlf <= lf <= i,
            crlf == crlf_count(existing@.take(i as int)),
            lf == text::count_char(existing@.take(i as int), '\n'),
        decreases v.len() - i,
    {
        proof {
            assert(existing@.take(i + 1).drop_last() =~= existing@.take(i as int));
        }
        if v[i] == '\n' {
            lf = lf + 1;
            if i > 0 && v[i - 1] == '\r' {
                crlf = crlf + 1;
            }
        }
        i = i + 1;
    }
    proof {
        assert(existing@.take(i as int) =~= existing@);
    }
    if lf == 0 {
        shell == Shell::Powershell
    } else {
        crlf >= lf - crlf
    }
}

/// `s` with every carriage return before a line feed dropped.
pub open spec fn to_lf(s: Seq<char>) -> Seq<char>
    decreases s.len(),
{
    if s.len() == 0 {
        seq![]
    } else if s.len() > 1 && s[0] == '\r' && s[1] == '\n' {
        to_lf(s.drop_first())
    } else {
        seq![s[0]] + to_lf(s.drop_first())
    }
}

/// `s` with a carriage return put before every line feed.
pub open spec fn to_crlf(s: Seq<char>) -> Seq<char> {
    text::replace_char(s, '\n', "\r\n"@)
}

/// The function for a shell, with the line ends asked for.
pub open spec fn rendered(shell: Shell, use_crlf: bool) -> Seq<char> {
    if use_crlf {
        to_crlf(to_lf(function(shell)))
    } else {
        to_lf(function(shell))
    }
}

/// `s` with every carriage return before a line feed dropped.
fn with_lf(s: &str) -> (r: String)
    ensures
        r@ == to_lf(s@),
{
    let v = strings::chars(s);
    let mut out = String::new();
    let mut i: usize = 0;
    proof {
        assert(s@.skip(0) =~= s@);
        assert(out@ + to_lf(s@) =~= to_lf(s@));
    }
    while i < v.len()
        invariant
            i <= v.len(),
            v@ == s@,
            out@ + to_lf(s@.skip(i as int)) == to_lf(s@),
        decreases v.len() - i,
    {
        let ghost before = out@;
        let ghost rest = s@.skip(i as int);
        proof {
            assert(rest.drop_first() =~= s@.skip(i + 1));
        }
        if !(i + 1 < v.len() && v[i] == '\r' && v[i + 1] == '\n') {
            out.push(v[i]);
            proof {
                assert(out@ + to_lf(s@.skip(i + 1)) =~= before + to_lf(rest));
            }
        }
        i = i + 1;
    }
    proof {
        assert(s@.skip(i as int) =~= seq![]);
        assert(out@ + to_lf(s@.skip(i as int)) =~= out@);
    }
    out
}

/// The function for a shell, with the line ends asked for.
pub fn render_snippet(shell: Shell, use_crlf: bool) -> (r: String)
    ensures
        r@ == rendered(shell, use_crlf),
{
    let raw = with_lf(snippet(shell));
    if use_crlf {
        strings::replace_char(raw.as_str(), '\n', "\r\n")
    } else {
        raw
    }
}

/// What a startup file is to hold: what it holds, a blank line and the
/// function, in the line ends of the file.
pub open spec fn installed(existing: Seq<char>, shell: Shell) -> Seq<char> {
    let crlf = wants_crlf(existing, shell);
    let eol = if crlf {
        "\r\n"@
    } else {
        "\n"@
    };
    if existing.len() == 0 {
        existing + rendered(shell, crlf)
    } else if existing.last() == '\n' {
        existing + eol + rendered(shell, crlf)
    } else {
        existing + eol + eol + rendered(shell, crlf)
    }
}

/// What to write to a startup file that holds `existing`. Nothing where the
/// function is installed already.
pub fn install(shell: Shell, existing: &str) -> (r: Option<String>)
    ensures
        r.deep_view() == if text::contains(existing@, MARKER@) {
            None
        } else {
            Some(installed(existing@, shell))
        },
{
    if strings::contains(existing, MARKER) {
        return None;
    }
    let use_crlf = detect_crlf(existing, shell);
    let eol = if use_crlf {
        "\r\n"
    } else {
        "\n"
    };
    let mut out = existing.to_string();
    let n: usize = existing.unicode_len();
    if n > 0 {
        if existing.get_char(n - 1) != '\n' {
            out.append(eol);
        }
        out.append(eol);
    }
    out.append(render_snippet(shell, use_crlf).as_str());
    Some(out)
}

/// The profile in a PowerShell directory.
pub open spec fn profile(dir: Seq<char>, windows: bool) -> Seq<char> {
    paths::join(dir, "Microsoft.PowerShell_profile.ps1"@, windows)
}

/// Finding the startup file of a shell. For PowerShell, which is served on
/// Windows only, it is the profile of the newer edition, unless only the older
/// one has a directory.
pub open spec fn startup_file(
    shell: Shell,
    windows: bool,
    home: Option<Seq<char>>,
    documents: Option<Seq<char>>,
    replies: Seq<ReplyView>,
) -> StepView<Seq<char>> {
    match (home, shell) {
        (None, _) => StepView::Done(Err("could not determine $HOME"@)),
        (Some(h), Shell::Bash) => StepView::Done(Ok(paths::join(h, ".bashrc"@, windows))),
        (Some(h), Shell::Zsh) => StepView::Done(Ok(paths::join(h, ".zshrc"@, windows))),
        (Some(h), Shell::Fish) => StepView::Done(
            Ok(paths::join(h, ".config/fish/config.fish"@, windows)),
        ),
        (Some(h), Shell::Powershell) => if !windows {
            StepView::Done(
                Err(
                    "PowerShell auto-install is only supported on Windows; copy the snippet manually"@,
                ),
            )
        } else {
            match documents {
                None => StepView::Done(Err("could not locate Documents"@)),
                Some(docs) => {
                    let newer = paths::join(docs, "PowerShell"@, windows);
                    let older = paths::join(docs, "WindowsPowerShell"@, windows);
                    if replies.len() == 0 {
                        StepView::Do(ActionView::Look(newer))
                    } else if process::found(replies[0]) {
                        StepView::Done(Ok(profile(newer, windows)))
                    } else if replies.len() == 1 {
                        StepView::Do(ActionView::Look(older))
                    } else if process::found(replies[1]) {
                        StepView::Done(Ok(profile(older, windows)))
                    } else {
                        StepView::Done(Ok(profile(newer, windows)))
                    }
                },
            }
        },
    }
}

/// The startup file of a shell, given the user's directories.
pub fn rc_path_in(
    shell: Shell,
    windows: bool,
    home: Option<&str>,
    documents: Option<&str>,
    replies: &[Reply],
) -> (r: Step<String>)
    ensures
        r.deep_view() == startup_file(
            shell,
            windows,
            home.deep_view(),
            documents.deep_view(),
            replies.deep_view(),
        ),
{
    let home = match home {
        Some(h) => h,
        None => return Step::Done(Err("could not determine $HOME".to_string())),
    };
    match shell {
        Shell::Bash => Step::Done(Ok(paths::joined(home, ".bashrc", windows))),
        Shell::Zsh => Step::Done(Ok(paths::joined(home, ".zshrc", windows))),
        Shell::Fish => Step::Done(Ok(paths::joined(home, ".config/fish/config.fish", windows))),
        Shell::Powershell => {
            if !windows {
                return Step::Done(
                    Err(
                        "PowerShell auto-install is only supported on Windows; copy the snippet manually".to_string(),
                    ),
                );
            }
            let docs = match documents {
                Some(d) => d,
                None => return Step::Done(Err("could not locate Documents".to_string())),
            };
            let newer = paths::joined(docs, "PowerShell", windows);
            let older = paths::joined(docs, "WindowsPowerShell", windows);
            if replies.len() == 0 {
                return Step::Do(Action::Look(newer));
            }
            if process::found_in(&replies[0]) {
                return Step::Done(
                    Ok(paths::joined(newer.as_str(), "Microsoft.PowerShell_profile.ps1", windows)),
                );
            }
            if replies.len() == 1 {
                return Step::Do(Action::Look(older));
            }
            if process::found_in(&replies[1]) {
                return Step::Done(
                    Ok(paths::joined(older.as_str(), "Microsoft.PowerShell_profile.ps1", windows)),
                );
            }
            Step::Done(Ok(paths::joined(newer.as_str(), "Microsoft.PowerShell_profile.ps1", windows)))
        },
    }
}

/// The startup file of a shell of this user, given where they keep documents,
/// which counts for PowerShell only.
pub fn rc_path(
    shell: Shell,
    windows: bool,
    documents: Option<&str>,
    replies: &[Reply],
) -> (r: Step<String>)
    ensures
        exists|home: Option<Seq<char>>|
            r.deep_view() == #[trigger] startup_file(
                shell,
                windows,
                home,
                documents.deep_view(),
                replies.deep_view(),
            ),
        shell == Shell::Powershell && !windows ==> r is Done && r->Done_0 is Err,
        shell == Shell::Powershell && documents is None ==> r is Done && r->Done_0 is Err,
{
    let home = user_dirs::home();
    let h: Option<&str> = match &home {
        Some(s) => Some(s.as_str()),
        None => None,
    };
    rc_path_in(shell, windows, h, documents, replies)
}

/// Installing twice is installing once: what was written holds the marker, so
/// nothing is written again, by whatever shell.
pub proof fn installing_twice_changes_nothing(existing: Seq<char>, shell: Shell)
    ensures
        text::contains(installed(existing, shell), MARKER@),
{
    let crlf = wants_crlf(existing, shell);
    let all = installed(existing, shell);
    let tail = rendered(shell, crlf);
    rendered_holds_marker(shell, crlf);
    let i = choose|i: int| text::occurs_at(tail, MARKER@, i);
    let at = all.len() - tail.len() + i;
    assert(all.subrange(at, at + MARKER@.len()) =~= tail.subrange(i, i + MARKER@.len()));
    assert(text::occurs_at(all, MARKER@, at));
}

/// What was in a startup file stays at its beginning.
pub proof fn installing_keeps_the_file(existing: Seq<char>, shell: Shell)
    ensures
        existing.is_prefix_of(installed(existing, shell)),
{
    assert(installed(existing, shell).take(existing.len() as int) =~= existing);
}

/// The first words of every function.
spec fn heading() -> Seq<char> {
    "# renri shell wrapper"@
}

proof fn functions_begin_with_heading(shell: Shell)
    ensures
        heading().is_prefix_of(function(shell)),
{
    match shell {
        Shell::Bash => posix_begins_with_heading(),
        Shell::Zsh => posix_begins_with_heading(),
        Shell::Fish => fish_begins_with_heading(),
        Shell::Powershell => powershell_begins_with_heading(),
    }
}

proof fn posix_begins_with_heading()
    ensures
        heading().is_prefix_of(POSIX@),
{
    reveal_strlit("# renri shell wrapper");
    reveal_strlit("# renri shell wrapper — paste into ~/.bashrc / ~/.zshrc\n# Usage: `renri cd foo` actually cds the current shell.\nrenri() {\n    if [ \"$1\" = \"cd\" ]; then\n        local target\n        target=$(RENRI_SHELL_WRAPPER=1 command renri cd \"${@:2}\") || return $?\n        [ -n \"$target\" ] && cd \"$target\"\n    else\n        command renri \"$@\"\n    fi\n}\n");
    assert(POSIX@.take(heading().len() as int) =~= heading());
}

proof fn fish_begins_with_heading()
    ensures
        heading().is_prefix_of(FISH@),
{
    reveal_strlit("# renri shell wrapper");
    reveal_strlit("# renri shell wrapper — paste into ~/.config/fish/config.fish\nfunction renri\n    if test (count $argv) -ge 1; and test \"$argv[1]\" = \"cd\"\n        set -l target (env RENRI_SHELL_WRAPPER=1 command renri cd $argv[2..-1])\n        and test -n \"$target\"\n        and cd $target\n    else\n        command renri $argv\n    end\nend\n");
    assert(FISH@.take(heading().len() as int) =~= heading());
}

proof fn powershell_begins_with_heading()
    ensures
        heading().is_prefix_of(POWERSHELL@),
{
    reveal_strlit("# renri shell wrapper");
    reveal_strlit("# renri shell wrapper — paste into $PROFILE\nfunction renri {\n    if ($args.Count -ge 1 -and $args[0] -eq 'cd') {\n        $rest = if ($args.Count -gt 1) { $args[1..($args.Count - 1)] } else { @() }\n        $env:RENRI_SHELL_WRAPPER = '1'\n        try {\n            $target = & renri.exe cd @rest\n            if ($LASTEXITCODE -eq 0 -and $target) {\n                Set-Location -LiteralPath $target\n            }\n        } finally {\n            Remove-Item Env:RENRI_SHELL_WRAPPER -ErrorAction SilentlyContinue\n        }\n    } else {\n        & renri.exe @args\n    }\n}\n");
    assert(POWERSHELL@.take(heading().len() as int) =~= heading());
}

proof fn rendered_holds_marker(shell: Shell, crlf: bool)
    ensures
        text::contains(rendered(shell, crlf), MARKER@),
{
    functions_begin_with_heading(shell);
    reveal_strlit("# renri shell wrapper");
    reveal_strlit("renri shell wrapper");
    let h = heading();
    let f = function(shell);
    let rest = f.skip(h.len() as int);
    assert(f =~= h + rest);
    lf_keeps_prefix(h, rest);
    let l = to_lf(f);
    assert(l == h + to_lf(rest));
    crlf_keeps_prefix(h, to_lf(rest));
    let r = rendered(shell, crlf);
    assert(r.take(h.len() as int) =~= h);
    assert(r.subrange(2, 2 + MARKER@.len() as int) =~= MARKER@);
    assert(text::occurs_at(r, MARKER@, 2));
}

proof fn lf_keeps_prefix(h: Seq<char>, rest: Seq<char>)
    requires
        !h.contains('\r'),
    ensures
        to_lf(h + rest) == h + to_lf(rest),
    decreases h.len(),
{
    if h.len() == 0 {
        assert(h + rest =~= rest);
        assert(h + to_lf(rest) =~= to_lf(rest));
    } else {
        let t = h.drop_first();
        assert forall|i: int| 0 <= i < t.len() implies t[i] != '\r' by {
            assert(h[i + 1] == t[i]);
            assert(h.contains(h[i + 1]));
        }
        lf_keeps_prefix(t, rest);
        assert((h + rest).drop_first() =~= t + rest);
        assert(h.contains(h[0]));
        assert(seq![h[0]] + (t + to_lf(rest)) =~= h + to_lf(rest));
    }
}

proof fn crlf_keeps_prefix(h: Seq<char>, rest: Seq<char>)
    requires
        !h.contains('\n'),
    ensures
        to_crlf(h + rest) == h + to_crlf(rest),
    decreases rest.len(),
{
    if rest.len() == 0 {
        assert(h + rest =~= h);
        nothing_to_replace(h, '\n', "\r\n"@);
        assert(h + to_crlf(rest) =~= h);
    } else {
        assert((h + rest).drop_last() =~= h + rest.drop_last());
        crlf_keeps_prefix(h, rest.drop_last());
        let end = if rest.last() == '\n' {
            "\r\n"@
        } else {
            seq![rest.last()]
        };
        assert((h + to_crlf(rest.drop_last())) + end =~= h + (to_crlf(rest.drop_last()) + end));
    }
}

proof fn nothing_to_replace(s: Seq<char>, c: char, with: Seq<char>)
    requires
        !s.contains(c),
    ensures
        text::replace_char(s, c, with) == s,
    decreases s.len(),
{
    if s.len() > 0 {
        let t = s.drop_last();
        assert forall|i: int| 0 <= i < t.len() implies t[i] != c by {
            assert(s.contains(s[i]));
        }
        nothing_to_replace(t, c, with);
        assert(s.contains(s.last()));
        assert(t + seq![s.last()] =~= s);
    } else {
        assert(text::replace_char(s, c, with) =~= s);
    }
}

/// None of the first `n` characters is a carriage return.
spec fn no_cr(s: Seq<char>, n: nat) -> bool
    decreases n,
{
    n == 0 || s[n - 1] != '\r' && no_cr(s, (n - 1) as nat)
}

proof fn posix_has_no_cr()
    ensures
        no_cr(POSIX@, POSIX@.len()),
{
    reveal_strlit("# renri shell wrapper — paste into ~/.bashrc / ~/.zshrc\n# Usage: `renri cd foo` actually cds the current shell.\nrenri() {\n    if [ \"$1\" = \"cd\" ]; then\n        local target\n        target=$(RENRI_SHELL_WRAPPER=1 command renri cd \"${@:2}\") || return $?\n        [ -n \"$target\" ] && cd \"$target\"\n    else\n        command renri \"$@\"\n    fi\n}\n");
    reveal_with_fuel(no_cr, 21);
    assert(POSIX@.len() == 337);
    assert(no_cr(POSIX@, 20));
    assert(no_cr(POSIX@, 40));
    assert(no_cr(POSIX@, 60));
    assert(no_cr(POSIX@, 80));
    assert(no_cr(POSIX@, 100));
    assert(no_cr(POSIX@, 120));
    assert(no_cr(POSIX@, 140));
    assert(no_cr(POSIX@, 160));
    assert(no_cr(POSIX@, 180));
    assert(no_cr(POSIX@, 200));
    assert(no_cr(POSIX@, 220));
    assert(no_cr(POSIX@, 240));
    assert(no_cr(POSIX@, 260));
    assert(no_cr(POSIX@, 280));
    assert(no_cr(POSIX@, 300));
    assert(no_cr(POSIX@, 320));
    assert(no_cr(POSIX@, 337));
}

proof fn fish_has_no_cr()
    ensures
        no_cr(FISH@, FISH@.len()),
{
    reveal_strlit("# renri shell wrapper — paste into ~/.config/fish/config.fish\nfunction renri\n    if test (count $argv) -ge 1; and test \"$argv[1]\" = \"cd\"\n        set -l target (env RENRI_SHELL_WRAPPER=1 command renri cd $argv[2..-1])\n        and test -n \"$target\"\n        and cd $target\n    else\n        command renri $argv\n    end\nend\n");
    reveal_with_fuel(no_cr, 21);
    assert(FISH@.len() == 319);
    assert(no_cr(FISH@, 20));
    assert(no_cr(FISH@, 40));
    assert(no_cr(FISH@, 60));
    assert(no_cr(FISH@, 80));
    assert(no_cr(FISH@, 100));
    assert(no_cr(FISH@, 120));
    assert(no_cr(FISH@, 140));
    assert(no_cr(FISH@, 160));
    assert(no_cr(FISH@, 180));
    assert(no_cr(FISH@, 200));
    assert(no_cr(FISH@, 220));
    assert(no_cr(FISH@, 240));
    assert(no_cr(FISH@, 260));
    assert(no_cr(FISH@, 280));
    assert(no_cr(FISH@, 300));
    assert(no_cr(FISH@, 319));
}

proof fn powershell_has_no_cr()
    ensures
        no_cr(POWERSHELL@, POWERSHELL@.len()),
{
    reveal_strlit("# renri shell wrapper — paste into $PROFILE\nfunction renri {\n    if ($args.Count -ge 1 -and $args[0] -eq 'cd') {\n        $rest = if ($args.Count -gt 1) { $args[1..($args.Count - 1)] } else { @() }\n        $env:RENRI_SHELL_WRAPPER = '1'\n        try {\n            $target = & renri.exe cd @rest\n            if ($LASTEXITCODE -eq 0 -and $target) {\n                Set-Location -LiteralPath $target\n            }\n        } finally {\n            Remove-Item Env:RENRI_SHELL_WRAPPER -ErrorAction SilentlyContinue\n        }\n    } else {\n        & renri.exe @args\n    }\n}\n");
    reveal_with_fuel(no_cr, 21);
    assert(POWERSHELL@.len() == 564);
    assert(no_cr(POWERSHELL@, 20));
    assert(no_cr(POWERSHELL@, 40));
    assert(no_cr(POWERSHELL@, 60));
    assert(no_cr(POWERSHELL@, 80));
    assert(no_cr(POWERSHELL@, 100));
    assert(no_cr(POWERSHELL@, 120));
    assert(no_cr(POWERSHELL@, 140));
    assert(no_cr(POWERSHELL@, 160));
    assert(no_cr(POWERSHELL@, 180));
    assert(no_cr(POWERSHELL@, 200));
    assert(no_cr(POWERSHELL@, 220));
    assert(no_cr(POWERSHELL@, 240));
    assert(no_cr(POWERSHELL@, 260));
    assert(no_cr(POWERSHELL@, 280));
    assert(no_cr(POWERSHELL@, 300));
    assert(no_cr(POWERSHELL@, 320));
    assert(no_cr(POWERSHELL@, 340));
    assert(no_cr(POWERSHELL@, 360));
    assert(no_cr(POWERSHELL@, 380));
    assert(no_cr(POWERSHELL@, 400));
    assert(no_cr(POWERSHELL@, 420));
    assert(no_cr(POWERSHELL@, 440));
    assert(no_cr(POWERSHELL@, 460));
    assert(no_cr(POWERSHELL@, 480));
    assert(no_cr(POWERSHELL@, 500));
    assert(no_cr(POWERSHELL@, 520));
    assert(no_cr(POWERSHELL@, 540));
    assert(no_cr(POWERSHELL@, 560));
    assert(no_cr(POWERSHELL@, 564));
}

/// Every line feed has a carriage return before it.
pub open spec fn all_crlf(s: Seq<char>) -> bool {
    forall|i: int| 0 <= i < s.len() && #[trigger] s[i] == '\n' ==> i > 0 && s[i - 1] == '\r'
}

/// The function for a file whose lines end with a carriage return and a line
/// feed ends every line so.
pub proof fn rendered_crlf_is_uniform(shell: Shell)
    ensures
        all_crlf(rendered(shell, true)),
{
    crlf_is_uniform(to_lf(function(shell)));
}

/// Where line feeds alone are asked for, the function is as it stands, and holds
/// no carriage return.
pub proof fn rendered_lf_has_no_cr(shell: Shell)
    ensures
        rendered(shell, false) == function(shell),
        !rendered(shell, false).contains('\r'),
{
    match shell {
        Shell::Bash => posix_has_no_cr(),
        Shell::Zsh => posix_has_no_cr(),
        Shell::Fish => fish_has_no_cr(),
        Shell::Powershell => powershell_has_no_cr(),
    }
    let f = function(shell);
    assert forall|i: int| 0 <= i < f.len() implies f[i] != '\r' by {
        no_cr_anywhere(f, f.len(), i);
    }
    let none = Seq::<char>::empty();
    lf_keeps_prefix(f, none);
    assert(f + none =~= f);
    assert(f + to_lf(none) =~= f);
}

proof fn no_cr_anywhere(s: Seq<char>, n: nat, i: int)
    requires
        no_cr(s, n),
        0 <= i < n,
    ensures
        s[i] != '\r',
    decreases n,
{
    if i < n - 1 {
        no_cr_anywhere(s, (n - 1) as nat, i);
    }
}

proof fn crlf_is_uniform(s: Seq<char>)
    ensures
        all_crlf(to_crlf(s)),
    decreases s.len(),
{
    reveal_strlit("\r\n");
    if s.len() > 0 {
        crlf_is_uniform(s.drop_last());
        let head = to_crlf(s.drop_last());
        let all = to_crlf(s);
        assert forall|i: int| 0 <= i < all.len() && #[trigger] all[i] == '\n' implies i > 0 && all[i
            - 1] == '\r' by {
            if i < head.len() {
                assert(head[i] == all[i]);
            }
        }
    }
}

} // verus!
