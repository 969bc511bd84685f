use remit_core::system_path::SystemPath;

#[test]
fn new_path_is_empty() {
    let p = SystemPath::new();
    assert_eq!(p.get_path(), "");
}

#[test]
fn set_path_round_trip() {
    let mut p = SystemPath::new();
    let ok = p.set_path("/home/username".to_string());
    assert!(ok);
    assert_eq!(p.get_path(), "/home/username");
}

#[test]
fn set_path_relative() {
    let mut p = SystemPath::new();
    let ok = p.set_path("home/username".to_string());
    assert!(ok);
    assert_eq!(p.get_path(), "home/username");
}

#[test]
fn set_path_empty_returns_false() {
    let mut p = SystemPath::new();
    assert!(!p.set_path(String::new()));
}

#[test]
fn set_path_not_round_trippable() {
    let mut p = SystemPath::new();
    // the empty piece between the two slashes is dropped, so the rendering
    // differs from the input
    let ok = p.set_path("/home//username".to_string());
    assert!(!ok);
    assert_eq!(p.get_path(), "/home/username");
}

#[test]
fn pushd_descends() {
    let mut p = SystemPath::new();
    p.set_path("/home".to_string());
    p.pushd("username".to_string());
    assert_eq!(p.get_path(), "/home/username");
}

#[test]
fn pushd_rejects_dot_slash_and_spaces() {
    let mut p = SystemPath::new();
    p.set_path("/home".to_string());
    p.pushd(".".to_string());
    p.pushd("/".to_string());
    p.pushd("   ".to_string());
    p.pushd("".to_string());
    assert_eq!(p.get_path(), "/home");
}

#[test]
fn popd_returns_last_segment() {
    let mut p = SystemPath::new();
    p.set_path("/home/username".to_string());
    let popped = p.popd();
    assert_eq!(popped, "username");
    assert_eq!(p.get_path(), "/home");
}

#[test]
fn popd_to_root() {
    let mut p = SystemPath::new();
    p.set_path("/home".to_string());
    p.popd();
    let popped = p.popd();
    assert_eq!(popped, "/");
    assert_eq!(p.get_path(), "/");
}

#[test]
fn popd_on_empty_path() {
    let mut p = SystemPath::new();
    let popped = p.popd();
    assert_eq!(popped, "");
    assert_eq!(p.get_path(), "/");
}

#[test]
fn prepd_inserts_at_front() {
    let mut p = SystemPath::new();
    p.set_path("username/.ssh".to_string());
    p.prepd("home".to_string());
    assert_eq!(p.get_path(), "home/username/.ssh");
}

#[test]
fn prepd_keeps_root_in_front() {
    let mut p = SystemPath::new();
    p.set_path("/username".to_string());
    p.prepd("home".to_string());
    assert_eq!(p.get_path(), "/home/username");
}

#[test]
fn windows_path_replaces_slashes() {
    let mut p = SystemPath::new();
    p.set_path("/home/username".to_string());
    assert_eq!(p.get_windows_path(), "\\home\\username");
}

#[test]
fn windows_path_local_drops_leading_backslash() {
    let mut p = SystemPath::new();
    p.set_path("/home/homeadmin".to_string());
    assert_eq!(p.get_windows_path_local(), "home\\homeadmin");
}

#[test]
fn windows_path_local_keeps_relative() {
    let mut p = SystemPath::new();
    p.set_path("home/homeadmin".to_string());
    assert_eq!(p.get_windows_path_local(), "home\\homeadmin");
}

#[test]
fn set_win_path_parses_backslashes() {
    let mut p = SystemPath::new();
    let ok = p.set_win_path("\\home\\username".to_string());
    // segments are right, although the rendering is the Linux form
    assert!(!ok);
    assert_eq!(p.get_path(), "/home/username");
}

#[test]
fn clear_empties_everything() {
    let mut p = SystemPath::new();
    p.set_path("/home/username".to_string());
    p.clear();
    assert_eq!(p.get_path(), "");
}

#[test]
fn clone_copies_the_path() {
    let mut p = SystemPath::new();
    p.set_path("/a/b".to_string());
    let q = p.clone();
    p.popd();
    assert_eq!(q.get_path(), "/a/b");
    assert_eq!(p.get_path(), "/a");
}
