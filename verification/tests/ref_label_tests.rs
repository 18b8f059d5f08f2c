use gitstream::git::query::parse_ref_labels;

fn kinds(raw: &str) -> Vec<(String, String)> {
    kinds_with_remotes(raw, &["origin".to_string()])
}

fn kinds_with_remotes(raw: &str, remotes: &[String]) -> Vec<(String, String)> {
    parse_ref_labels(raw, remotes)
        .into_iter()
        .map(|r| (r.name, r.kind))
        .collect()
}

#[test]
fn current_branch_from_head_arrow() {
    assert_eq!(
        kinds("HEAD -> main"),
        vec![("main".to_string(), "current-branch".to_string())]
    );
}

#[test]
fn standalone_head_is_head() {
    assert_eq!(kinds("HEAD"), vec![("HEAD".to_string(), "head".to_string())]);
}

#[test]
fn tag_remote_local_kinds() {
    assert_eq!(kinds("tag: v1.0"), vec![("v1.0".to_string(), "tag".to_string())]);
    assert_eq!(
        kinds("origin/main"),
        vec![("origin/main".to_string(), "remote-branch".to_string())]
    );
    assert_eq!(kinds("dev"), vec![("dev".to_string(), "local-branch".to_string())]);
}

#[test]
fn combined_decoration() {
    assert_eq!(
        kinds("HEAD -> main, tag: v1, origin/main"),
        vec![
            ("main".to_string(), "current-branch".to_string()),
            ("v1".to_string(), "tag".to_string()),
            ("origin/main".to_string(), "remote-branch".to_string()),
        ]
    );
}

#[test]
fn local_branch_with_slash_is_not_remote() {
    assert_eq!(
        kinds("feature/auth"),
        vec![("feature/auth".to_string(), "local-branch".to_string())]
    );
}

#[test]
fn remote_head_symbolic_ref_filtered() {
    assert_eq!(kinds("origin/HEAD"), Vec::<(String, String)>::new());
    assert_eq!(
        kinds("origin/main, origin/HEAD"),
        vec![("origin/main".to_string(), "remote-branch".to_string())]
    );
}

#[test]
fn multi_remote_distinguishes_local_and_remote() {
    let remotes = vec!["origin".to_string(), "upstream".to_string()];
    assert_eq!(
        kinds_with_remotes("upstream/dev", &remotes),
        vec![("upstream/dev".to_string(), "remote-branch".to_string())]
    );
    assert_eq!(
        kinds_with_remotes("feature/upstream", &remotes),
        vec![("feature/upstream".to_string(), "local-branch".to_string())]
    );
}

#[test]
fn blank_decoration_has_no_labels() {
    assert!(kinds("   ").is_empty());
}
