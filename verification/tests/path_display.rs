use renri::path_display::display_path;

#[test]
fn strips_unc_prefix_on_windows() {
    let out = display_path(r"\\?\C:\Users\me\proj", true);
    assert_eq!(out, r"C:\Users\me\proj");
}

#[test]
fn folds_forward_to_back_on_windows() {
    let out = display_path(r"C:\Users\me/wt/foo", true);
    assert_eq!(out, r"C:\Users\me\wt\foo");
}

#[test]
fn extended_unc_share_round_trips() {
    let out = display_path(r"\\?\UNC\server\share\foo", true);
    assert_eq!(out, r"\\server\share\foo");
}

#[test]
fn plain_unc_share_passthrough() {
    let out = display_path(r"\\server\share\foo", true);
    assert_eq!(out, r"\\server\share\foo");
}

#[test]
fn passthrough_on_unix() {
    let out = display_path("/home/me/proj", false);
    assert_eq!(out, "/home/me/proj");
}
