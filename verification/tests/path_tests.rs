use gitstream::git::error::GitError;
use gitstream::git::mutation::{delete_in, remove_in, validate_file_path, validate_file_path_in};
use gitstream::path::PathStyle;
use gitstream::system::{check_repo_path, check_repo_path_in};

fn message(r: Result<(), GitError>) -> Option<String> {
    match r {
        Ok(()) => None,
        Err(GitError::CommandFailed { message, .. }) => Some(message),
        Err(e) => Some(e.message()),
    }
}

#[test]
fn windows_paths_absolute_and_traversal() {
    let w = PathStyle::Windows;
    let abs = |p: &str| Some(format!("Absolute path not allowed: '{}'", p));
    let up = |p: &str| Some(format!("Path traversal not allowed: '{}'", p));
    assert_eq!(message(validate_file_path_in("C:\\x", w)), abs("C:\\x"));
    assert_eq!(message(validate_file_path_in("c:/x", w)), abs("c:/x"));
    assert_eq!(message(validate_file_path_in("\\\\server\\share\\x", w)), abs("\\\\server\\share\\x"));
    assert_eq!(message(validate_file_path_in("\\\\?\\C:\\x", w)), abs("\\\\?\\C:\\x"));
    assert_eq!(message(validate_file_path_in("..\\x", w)), up("..\\x"));
    assert_eq!(message(validate_file_path_in("a\\..\\b", w)), up("a\\..\\b"));
    assert_eq!(message(validate_file_path_in("C:..\\x", w)), up("C:..\\x"));
    // Without a prefix or without a root, a Windows path is not absolute.
    assert_eq!(message(validate_file_path_in("\\temp\\x", w)), None);
    assert_eq!(message(validate_file_path_in("C:temp", w)), None);
    assert_eq!(message(validate_file_path_in("src\\main.rs", w)), None);
}

#[test]
fn unix_paths_keep_backslashes_and_drive_letters_as_names() {
    let u = PathStyle::Unix;
    assert_eq!(message(validate_file_path_in("C:\\x", u)), None);
    assert_eq!(message(validate_file_path_in("..\\x", u)), None);
    assert_eq!(
        message(validate_file_path_in("/etc/passwd", u)),
        Some("Absolute path not allowed: '/etc/passwd'".to_string())
    );
    assert_eq!(
        message(validate_file_path_in("a/../b", u)),
        Some("Path traversal not allowed: 'a/../b'".to_string())
    );
    // Paths on which both rules agree get the same answer on any platform.
    assert!(validate_file_path("../x").is_err());
    assert!(validate_file_path("dir/file.txt").is_ok());
}

#[test]
fn remove_and_delete_follow_the_style() {
    let files = vec!["a.txt".to_string(), "C:\\secret".to_string()];
    assert!(remove_in(&files, PathStyle::Windows).is_err());
    assert!(remove_in(&files, PathStyle::Unix).is_ok());
    assert!(delete_in(&files, PathStyle::Windows).is_err());
    assert!(delete_in(&files, PathStyle::Unix).is_ok());
}

#[test]
fn windows_folder_names() {
    let w = PathStyle::Windows;
    let name = |p: &str| check_repo_path_in(p, true, true, false, w).display_name;
    assert_eq!(name("C:\\Users\\me\\repo"), "repo");
    assert_eq!(name("C:\\Users\\me\\repo\\"), "repo");
    assert_eq!(name("D:/work/proj/."), "proj");
    assert_eq!(name("\\\\server\\share\\repo"), "repo");
    assert_eq!(name("\\\\server\\share"), "");
    assert_eq!(name("C:\\"), "");
    assert_eq!(name("C:"), "");
    assert_eq!(name("C:repo"), "repo");
    assert_eq!(name("a\\.."), "");
    let u = check_repo_path_in("C:\\Users\\me\\repo", true, true, false, PathStyle::Unix);
    assert_eq!(u.display_name, "C:\\Users\\me\\repo");
    assert_eq!(check_repo_path("/home/u/proj", true, true, false).display_name, "proj");
}
