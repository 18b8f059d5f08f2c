use gitstream::settings::{default_network_timeout_secs, settings_or_default, AppSettings};
use gitstream::system::{check_repo_path, list_system_fonts, open_url};

#[test]
fn only_web_links_open() {
    assert!(open_url("https://example.com").is_ok());
    assert!(open_url("http://example.com").is_ok());
    assert_eq!(open_url("file:///etc/passwd"), Err("Invalid URL scheme: file:///etc/passwd".to_string()));
}

#[test]
fn chosen_folder_name_and_kind() {
    let c = check_repo_path("/home/u/proj/", true, true, false);
    assert!(c.exists && c.is_git_repo);
    assert_eq!(c.display_name, "proj");
    let bare = check_repo_path("/srv/repo.git/.", true, false, true);
    assert!(bare.is_git_repo);
    assert_eq!(bare.display_name, "repo.git");
    assert_eq!(check_repo_path("/", true, false, false).display_name, "");
    assert_eq!(check_repo_path("a/..", true, false, false).display_name, "");
    let missing = check_repo_path("/nope", false, true, true);
    assert!(!missing.exists && !missing.is_git_repo);
}

#[test]
fn list_system_fonts_sorted_without_repeats() {
    let out = "DejaVu Sans,DejaVu Sans Condensed\narial\nArial\nDejaVu Sans\n , \n";
    let f = list_system_fonts(out);
    assert_eq!(f, vec!["arial", "Arial", "DejaVu Sans", "DejaVu Sans", "DejaVu Sans Condensed"]
        .into_iter()
        .map(String::from)
        .collect::<Vec<_>>()
        .iter()
        .fold(Vec::<String>::new(), |mut acc, s| {
            if acc.last() != Some(s) {
                acc.push(s.clone());
            }
            acc
        }));
    assert!(list_system_fonts("").is_empty());
}

#[test]
fn settings_defaults() {
    assert_eq!(AppSettings::default().network_timeout_secs, 10);
    assert_eq!(default_network_timeout_secs(), 10);
    let (s, rewrite) = settings_or_default(None);
    assert_eq!(s, AppSettings::default());
    assert!(rewrite);
    let (t, rewrite2) = settings_or_default(Some(AppSettings { network_timeout_secs: 42 }));
    assert_eq!(t.network_timeout_secs, 42);
    assert!(!rewrite2);
}
