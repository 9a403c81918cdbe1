use renri::config::AutoUpdateMode;
use renri::updater::{
    background, cache_state_path, check_interval, default_interval, interval_or_default,
    state_path_for, state_path_in, to_tell, Background, Checker, Looked, Release,
};

fn release(tag: &str, url: &str) -> Release {
    Release {
        tag_name: tag.to_string(),
        html_url: url.to_string(),
    }
}

#[test]
fn test_checker_init() {
    // Test that checker can be initialized without panic.
    let _ = Checker::new("0.1.0", false).unwrap();
}

#[test]
fn the_default_interval_is_a_day() {
    assert_eq!(default_interval(), 24 * 60 * 60);
    assert_eq!(Checker::new("0.1.0", false).unwrap().interval, 86400);
    assert_eq!(Checker::new("0.1.0", false).unwrap().interval(60).interval, 60);
}

#[test]
fn intervals_are_read_where_they_can_be() {
    assert_eq!(check_interval(Some("12h")), 12 * 3600);
    assert_eq!(check_interval(Some("1d")), 86400);
    assert_eq!(check_interval(Some("30m")), 1800);
    assert_eq!(check_interval(Some("whenever")), 86400);
    assert_eq!(check_interval(None), 86400);
    assert_eq!(check_interval(Some("86400000000000ns")), 86400);
    assert_eq!(check_interval(Some("18446744073709551615s 1000000000ns")), 86400);
    assert_eq!(check_interval(Some("0000000000000001h")), 3600);
    assert_eq!(check_interval(Some("000000000000001s")), 1);
    assert_eq!(check_interval(Some("100000000000000ns")), 100_000);
    assert_eq!(check_interval(Some("0 0000000001 000000000000s")), 1_000_000_000_000);
    assert_eq!(check_interval(Some("00000000000h 00000000000m 2.50s")), 2);
    assert_eq!(check_interval(Some("0000000000001 0000000000000s")), 86400);
    assert_eq!(check_interval(Some("18446744073709551615s 0.5s 0.5s")), 86400);
    assert_eq!(interval_or_default(Some(5)), 5);
}

#[test]
fn banners_name_the_release() {
    let c = Checker::new("0.1.0", false).unwrap();
    assert_eq!(
        c.format_banner(&release("v0.2.0", "")),
        "\u{2699} renri 0.2.0 available (current 0.1.0) \u{2014} run `renri self-update` to upgrade"
    );
    assert_eq!(
        c.format_banner(&release("0.2.0", "https://x/y")),
        "\u{2699} renri 0.2.0 available (current 0.1.0) \u{2014} run `renri self-update` to upgrade\n  release notes: https://x/y"
    );
}

#[test]
fn the_time_of_the_last_look_is_cached() {
    assert_eq!(state_path_in("/c", false), "/c/renri/last_update_check.json");
    assert_eq!(
        state_path_for(Some("/c"), false).as_deref(),
        Some("/c/renri/last_update_check.json")
    );
    assert_eq!(state_path_for(None, false), None);
    if let Some(p) = cache_state_path(false) {
        assert!(p.ends_with("/renri/last_update_check.json"));
    }
}

#[test]
fn modes_decide_what_is_done_in_the_background() {
    let old = || Some(release("v1", ""));
    let b = |mode, due, cached| background(mode, false, false, due, cached);
    assert_eq!(b(AutoUpdateMode::Off, true, old()), Background::Nothing);
    assert_eq!(b(AutoUpdateMode::Install, false, old()), Background::Install);
    assert_eq!(b(AutoUpdateMode::Notify, true, old()), Background::Look(old()));
    assert_eq!(
        b(AutoUpdateMode::Notify, false, old()),
        Background::Tell(release("v1", ""))
    );
    assert_eq!(b(AutoUpdateMode::Notify, false, None), Background::Nothing);
    for (quiet, off) in [(true, false), (false, true)] {
        assert_eq!(
            background(AutoUpdateMode::Install, quiet, off, true, None),
            Background::Nothing
        );
    }
}

#[test]
fn the_cache_is_told_of_only_where_the_look_failed() {
    let old = || Some(release("v1", ""));
    assert_eq!(
        to_tell(Looked::Found(release("v2", "")), old()),
        Some(release("v2", ""))
    );
    assert_eq!(to_tell(Looked::UpToDate, old()), None);
    assert_eq!(to_tell(Looked::Failed, old()), old());
}
