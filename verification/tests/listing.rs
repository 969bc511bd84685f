use remit_core::remote_dir::parse_file_type;
use remit_core::remote_dir::parse_u64;
use remit_core::remote_dir::stat_command;
use remit_core::remote_dir::DirError;
use remit_core::remote_dir::Directory;
use remit_core::remote_dir::FileType;
use remit_core::remote_dir::Permissions;
use remit_core::remote_dir::RemitFile;
use remit_core::system_path::SystemPath;

fn listing() -> String {
    [
        "Name: notes.txt",
        "Permissions: 644",
        "Size: 1024",
        "Type: regular file",
        "",
        "Name: projects",
        "Permissions: 755",
        "Size: 4096",
        "Type: directory",
        "",
    ]
    .join("\n")
}

#[test]
fn parse_listing_yields_files_and_seed_entries() {
    let d = Directory::new(Some(listing()));
    let names: Vec<String> = d.files.iter().map(|f| f.info.name.clone()).collect();
    assert_eq!(names, vec![".", "..", "notes.txt", "projects"]);
    assert_eq!(d.files[2].info.size, 1024);
    assert!(matches!(d.files[2].info.file_type, FileType::TypeFile));
    assert_eq!(d.files[3].info.size, 4096);
    assert!(matches!(d.files[3].info.file_type, FileType::TypeDirectory));
    assert!(matches!(d.files[0].info.file_type, FileType::TypeDirectory));
}

#[test]
fn parse_listing_replaces_duplicate_names() {
    let text = [
        "Name: a.txt",
        "Permissions: 644",
        "Size: 1",
        "Type: regular file",
        "",
        "Name: a.txt",
        "Permissions: 644",
        "Size: 2",
        "Type: regular file",
        "",
    ]
    .join("\n");
    let d = Directory::new(Some(text));
    assert_eq!(d.files.len(), 3);
    assert_eq!(d.files[2].info.size, 2);
}

#[test]
fn parse_listing_skips_malformed_chunks() {
    let text = "Name: stray\n\nName: ok.txt\nPermissions: 600\nSize: 7\nType: regular empty file\n\n"
        .to_string();
    let d = Directory::new(Some(text));
    let names: Vec<String> = d.files.iter().map(|f| f.info.name.clone()).collect();
    assert_eq!(names, vec![".", "..", "ok.txt"]);
    assert_eq!(d.files[2].info.size, 7);
    assert!(matches!(d.files[2].info.file_type, FileType::TypeFile));
}

#[test]
fn empty_directory_has_no_entries() {
    let d = Directory::new(None);
    assert_eq!(d.files.len(), 0);
}

#[test]
fn navigate_into_directory() {
    let mut d = Directory::new(Some(listing()));
    d.path.set_path("/home".to_string());
    assert!(d.navigate("projects".to_string()).is_ok());
    assert_eq!(d.path.get_path(), "/home/projects");
}

#[test]
fn navigate_up_pops() {
    let mut d = Directory::new(Some(listing()));
    d.path.set_path("/home/projects".to_string());
    assert!(d.navigate("..".to_string()).is_ok());
    assert_eq!(d.path.get_path(), "/home");
}

#[test]
fn navigate_rejects_files_and_unknown_names() {
    let mut d = Directory::new(Some(listing()));
    d.path.set_path("/home".to_string());
    assert_eq!(d.navigate("notes.txt".to_string()), Err(DirError::NotADirectory));
    assert_eq!(d.navigate("missing".to_string()), Err(DirError::NotFound));
    assert_eq!(d.path.get_path(), "/home");
}

#[test]
fn clear_directory() {
    let mut d = Directory::new(Some(listing()));
    d.path.set_path("/home".to_string());
    d.clear();
    assert_eq!(d.files.len(), 0);
    assert_eq!(d.path.get_path(), "");
}

#[test]
fn file_types_from_stat_output() {
    assert!(matches!(parse_file_type("link"), FileType::TypeLink));
    assert!(matches!(parse_file_type("directory"), FileType::TypeDirectory));
    assert!(matches!(parse_file_type("regular file"), FileType::TypeFile));
    assert!(matches!(parse_file_type("regular empty file"), FileType::TypeFile));
    assert!(matches!(parse_file_type("socket"), FileType::TypeUnknown));
}

#[test]
fn sizes_parse_exactly() {
    assert_eq!(parse_u64("0"), Some(0));
    assert_eq!(parse_u64("1024"), Some(1024));
    assert_eq!(parse_u64("18446744073709551615"), Some(u64::MAX));
    assert_eq!(parse_u64("18446744073709551616"), None);
    assert_eq!(parse_u64(""), None);
    assert_eq!(parse_u64("12a"), None);
}

#[test]
fn permissions_from_string() {
    let p = Permissions::new(Some("rwx".to_string()));
    assert!(p.read && p.write && p.execute);
    let q = Permissions::new(Some("r-x".to_string()));
    assert!(q.read && !q.write && q.execute);
    let none = Permissions::new(None);
    assert!(!none.read && !none.write && !none.execute);
}

#[test]
fn populated_file_defaults() {
    let f = RemitFile::new_populated("x".to_string(), None, None);
    assert_eq!(f.info.name.as_str(), "x");
    assert_eq!(f.info.size, 0);
    assert!(matches!(f.info.file_type, FileType::TypeUnknown));
}

#[test]
fn stat_command_text() {
    let mut p = SystemPath::new();
    p.set_path("/home/alice".to_string());
    assert_eq!(
        stat_command(&p),
        "(cd /home/alice && stat .* * --printf='Name: %n\\nPermissions: %a\\nSize: %s\\nType: %F\\n\\n')"
    );
}
