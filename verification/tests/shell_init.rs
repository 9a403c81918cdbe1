use renri::process::{Action, Reply, Step};
use renri::shell_init::{
    detect_crlf, install, rc_path, rc_path_in, render_snippet, snippet, Shell, MARKER,
};

#[test]
fn detect_crlf_empty_picks_powershell_default() {
    assert!(detect_crlf("", Shell::Powershell));
    assert!(!detect_crlf("", Shell::Bash));
    assert!(!detect_crlf("", Shell::Zsh));
    assert!(!detect_crlf("", Shell::Fish));
}

#[test]
fn detect_crlf_follows_dominant_existing_eol() {
    assert!(detect_crlf("a\r\nb\r\nc\r\n", Shell::Bash));
    assert!(!detect_crlf("a\nb\nc\n", Shell::Powershell));
}

#[test]
fn detect_crlf_handles_mixed_majority_crlf() {
    // 3 CRLF + 1 LF-only → still CRLF dominant.
    assert!(detect_crlf("a\r\nb\r\nc\r\nd\n", Shell::Powershell));
}

#[test]
fn detect_crlf_breaks_ties_for_crlf() {
    assert!(detect_crlf("a\r\nb\n", Shell::Bash));
    assert!(!detect_crlf("a\r\nb\nc\n", Shell::Powershell));
}

#[test]
fn render_snippet_normalizes_to_crlf_when_requested() {
    let crlf = render_snippet(Shell::Powershell, true);
    assert!(crlf.contains("\r\n"));
    assert!(!crlf.contains("\n\n"));
    // Every '\n' must be preceded by '\r'. Use the Unicode-safe scalar
    // walk so the assertion is panic-safe even if a future snippet ever
    // ends a line with a multi-byte character.
    for (i, ch) in crlf.char_indices() {
        if ch == '\n' {
            assert_eq!(
                crlf[..i].chars().next_back(),
                Some('\r'),
                "lone LF at byte {i}"
            );
        }
    }
}

#[test]
fn render_snippet_keeps_lf_when_not_requested() {
    let lf = render_snippet(Shell::Bash, false);
    assert!(!lf.contains('\r'));
    assert!(lf.contains('\n'));
    assert_eq!(lf, snippet(Shell::Bash));
}

#[test]
fn bash_and_zsh_share_a_function() {
    assert_eq!(snippet(Shell::Bash), snippet(Shell::Zsh));
    assert!(snippet(Shell::Fish).contains("function renri\n"));
    assert!(snippet(Shell::Powershell).contains("Set-Location"));
    assert!(snippet(Shell::Bash).contains("RENRI_SHELL_WRAPPER=1"));
}

#[test]
fn installing_is_idempotent() {
    for shell in [Shell::Bash, Shell::Zsh, Shell::Fish, Shell::Powershell] {
        for existing in ["", "x", "x\n", "a\r\nb", "a\r\n"] {
            let once = install(shell, existing).unwrap();
            assert!(once.starts_with(existing) && once.contains(MARKER));
            assert_eq!(install(shell, &once), None);
        }
    }
}

#[test]
fn installing_keeps_the_line_ends_of_the_file() {
    let s = install(Shell::Bash, "a\r\nb").unwrap();
    assert!(s.starts_with("a\r\nb\r\n\r\n# renri shell wrapper"));
    let s = install(Shell::Bash, "a\n").unwrap();
    assert!(s.starts_with("a\n\n# renri"));
    let s = install(Shell::Fish, "").unwrap();
    assert_eq!(s, snippet(Shell::Fish));
}

#[test]
fn startup_files_are_below_home() {
    let at = |shell| rc_path_in(shell, false, Some("/home/me"), None, &[]);
    assert_eq!(at(Shell::Bash), Step::Done(Ok("/home/me/.bashrc".to_string())));
    assert_eq!(at(Shell::Zsh), Step::Done(Ok("/home/me/.zshrc".to_string())));
    assert_eq!(
        at(Shell::Fish),
        Step::Done(Ok("/home/me/.config/fish/config.fish".to_string()))
    );
    assert_eq!(
        at(Shell::Powershell),
        Step::Done(Err(
            "PowerShell auto-install is only supported on Windows; copy the snippet manually"
                .to_string()
        ))
    );
    assert_eq!(
        rc_path_in(Shell::Bash, false, None, None, &[]),
        Step::Done(Err("could not determine $HOME".to_string()))
    );
}

#[test]
fn powershell_prefers_the_newer_profile() {
    let at = |replies: &[Reply]| {
        rc_path_in(Shell::Powershell, true, Some(r"C:\h"), Some(r"C:\d"), replies)
    };
    let profile = |dir: &str| {
        Step::Done(Ok(format!(r"C:\d\{dir}\Microsoft.PowerShell_profile.ps1")))
    };
    assert_eq!(at(&[]), Step::Do(Action::Look(r"C:\d\PowerShell".to_string())));
    assert_eq!(at(&[Reply::Found(true)]), profile("PowerShell"));
    assert_eq!(
        at(&[Reply::Found(false)]),
        Step::Do(Action::Look(r"C:\d\WindowsPowerShell".to_string()))
    );
    assert_eq!(
        at(&[Reply::Found(false), Reply::Found(true)]),
        profile("WindowsPowerShell")
    );
    assert_eq!(
        at(&[Reply::Found(false), Reply::Found(false)]),
        profile("PowerShell")
    );
    assert_eq!(
        rc_path_in(Shell::Powershell, true, Some(r"C:\h"), None, &[]),
        Step::Done(Err("could not locate Documents".to_string()))
    );
}

#[test]
fn the_users_own_startup_file_is_found() {
    match rc_path(Shell::Bash, false, None, &[]) {
        Step::Done(Ok(p)) => assert!(p.ends_with("/.bashrc") && p.len() > "/.bashrc".len()),
        Step::Done(Err(e)) => assert_eq!(e, "could not determine $HOME"),
        Step::Do(_) => panic!("nothing to look for"),
    }
    for (windows, documents) in [(false, None), (false, Some("/d")), (true, None)] {
        let r = rc_path(Shell::Powershell, windows, documents, &[]);
        assert!(matches!(r, Step::Done(Err(_))), "{r:?}");
    }
}
