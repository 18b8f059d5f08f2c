use gitstream::network::{
    effective_timeout_secs, network_args, network_result, progress_line, timeout_message,
    ProgressLog, TimeoutBudget, DEFAULT_NETWORK_TIMEOUT_SECS, MAX_NETWORK_TIMEOUT_SECS, POLL_MS,
};
use gitstream::update::{check_for_update, update_from, version_gt};

#[test]
fn zero_timeout_falls_back_to_default() {
    assert_eq!(effective_timeout_secs(Some(0)), DEFAULT_NETWORK_TIMEOUT_SECS);
    assert_eq!(effective_timeout_secs(None), DEFAULT_NETWORK_TIMEOUT_SECS);
    assert_eq!(effective_timeout_secs(Some(25)), 25);
    assert_eq!(effective_timeout_secs(Some(99999)), MAX_NETWORK_TIMEOUT_SECS);
    assert_eq!(effective_timeout_secs(Some(600)), 600);
}

#[test]
fn newer_patch_is_gt() {
    assert!(version_gt("v0.4.2", "0.4.1"));
}

#[test]
fn newer_minor_is_gt() {
    assert!(version_gt("v0.5.0", "0.4.9"));
}

#[test]
fn newer_major_is_gt() {
    assert!(version_gt("v1.0.0", "0.9.9"));
}

#[test]
fn same_version_is_not_gt() {
    assert!(!version_gt("v0.4.1", "0.4.1"));
}

#[test]
fn older_version_is_not_gt() {
    assert!(!version_gt("v0.4.0", "0.4.1"));
}

#[test]
fn no_v_prefix_works() {
    assert!(version_gt("0.4.2", "0.4.1"));
}

#[test]
fn prerelease_suffix_and_extra_fields() {
    assert!(version_gt("v1.2.3-rc1", "1.2.2"));
    assert!(!version_gt("v1.2.3-rc1", "1.2.3"));
    // Only the first three fields count.
    assert!(!version_gt("1.2.3.9", "1.2.3"));
    assert!(version_gt("1.2.1", "1.2"));
}

#[test]
fn update_offered_only_for_newer_release_with_page() {
    let u = update_from(Some("v0.5.0"), Some("https://x/r"), "0.4.9").expect("newer");
    assert_eq!(u.version, "0.5.0");
    assert_eq!(u.release_url, "https://x/r");
    assert!(update_from(Some("v0.5.0"), Some(""), "0.4.9").is_none());
    assert!(update_from(Some("v0.4.0"), Some("https://x"), "0.4.9").is_none());
    assert!(update_from(None, Some("https://x"), "0.4.9").is_none());
}

#[test]
fn update_read_from_release_json() {
    let body = r#"{"tag_name": "v2.0.0", "html_url": "https://github.com/o/r/releases/v2.0.0"}"#;
    let u = check_for_update(body, "1.9.0").expect("newer");
    assert_eq!(u.version, "2.0.0");
    assert_eq!(u.release_url, "https://github.com/o/r/releases/v2.0.0");
    assert!(check_for_update("{ not json", "1.0.0").is_none());
    assert!(check_for_update(r#"{"tag_name": 3, "html_url": "u"}"#, "1.0.0").is_none());
}

#[test]
fn progress_goes_after_subcommand() {
    let args = vec!["push".to_string(), "origin".to_string()];
    assert_eq!(network_args(&args), vec!["push", "--progress", "origin"]);
    assert!(network_args(&Vec::new()).is_empty());
}

#[test]
fn progress_line_keeps_last_frame() {
    assert_eq!(progress_line("Counting: 10%\rCounting: 100%\r\n").as_deref(), Some("Counting: 100%"));
    assert_eq!(progress_line("done\r  \r\n").as_deref(), Some("done"));
    assert_eq!(progress_line(" \r\n"), None);
    let mut log = ProgressLog::new();
    assert_eq!(log.feed("a\rb\n").as_deref(), Some("b"));
    assert_eq!(log.feed("\n"), None);
    assert_eq!(log.feed("c\n").as_deref(), Some("c"));
    assert_eq!(log.collected, "b\nc\n");
}

#[test]
fn timeout_budget_pauses_while_prompting() {
    let mut b = TimeoutBudget::new(Some(1));
    assert_eq!(b.remaining_ms, 1000);
    assert!(!b.tick(true));
    assert_eq!(b.remaining_ms, 1000);
    let mut ticks = 0;
    while !b.tick(false) {
        ticks += 1;
    }
    assert_eq!(ticks, (1000 / POLL_MS) as usize);
    assert_eq!(timeout_message("fetch", 1), "Network timeout: fetch превысил 1 сек");
}

#[test]
fn failed_network_command_reports_classified_error() {
    assert_eq!(network_result(true, "out".to_string(), "x"), Ok("out".to_string()));
    assert_eq!(
        network_result(false, String::new(), "fatal: Authentication failed for 'x'"),
        Err("Authentication failed: Check credentials: run `git config credential.helper`".to_string())
    );
}

#[test]
fn newer_is_transitive_and_asymmetric() {
    assert!(version_gt("v1.3.0", "1.2.5"));
    assert!(version_gt("1.2.5", "v1.2"));
    assert!(version_gt("v1.3.0", "v1.2"));
    assert!(!version_gt("v1.2", "v1.3.0"));
    assert!(!version_gt("1.2.5", "1.2.5"));
}
