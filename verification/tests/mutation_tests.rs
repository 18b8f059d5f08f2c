use gitstream::git::mutation::{pull_branch_args, push_upstream_args};
use gitstream::git::mutation::{
    apply_lines, build_partial_patch, fetch_args, parse_hunk_header, pull_args, push_args,
    push_branch_args, push_tag_args, rebuild_hunk, LineHunkSelection, LineOp,
};

#[test]
fn fetch_args_basic() {
    assert_eq!(fetch_args("origin"), vec!["fetch", "origin"]);
}

#[test]
fn pull_args_rebase_toggle() {
    assert_eq!(pull_args("origin", false), vec!["pull", "origin"]);
    assert_eq!(pull_args("origin", true), vec!["pull", "--rebase", "origin"]);
}

#[test]
fn push_args_force_toggle() {
    assert_eq!(push_args("origin", false), vec!["push", "origin"]);
    assert_eq!(push_args("origin", true), vec!["push", "--force", "origin"]);
}

#[test]
fn push_branch_args_force_toggle() {
    assert_eq!(push_branch_args("origin", "main", false), vec!["push", "origin", "main"]);
    assert_eq!(
        push_branch_args("origin", "main", true),
        vec!["push", "--force", "origin", "main"]
    );
}

#[test]
fn push_tag_args_delete_toggle() {
    assert_eq!(
        push_tag_args("origin", "v1.0", false),
        vec!["push", "origin", "refs/tags/v1.0"]
    );
    assert_eq!(
        push_tag_args("origin", "v1.0", true),
        vec!["push", "origin", ":refs/tags/v1.0"]
    );
}

#[test]
fn parses_header_with_section_tail() {
    let (os, ns, tail) = parse_hunk_header("@@ -12,7 +12,8 @@ fn foo()").unwrap();
    assert_eq!(os, 12);
    assert_eq!(ns, 12);
    assert_eq!(tail, " fn foo()");
}

#[test]
fn parses_header_without_counts_and_tail() {
    let (os, ns, tail) = parse_hunk_header("@@ -1 +1 @@").unwrap();
    assert_eq!(os, 1);
    assert_eq!(ns, 1);
    assert_eq!(tail, "");
}

#[test]
fn rebuild_keeps_only_selected_added_line() {
    let raw = "@@ -1,1 +1,3 @@\n ctx\n+A\n+B\n";
    let out = rebuild_hunk(raw, &[0]).unwrap();
    assert_eq!(out, "@@ -1,1 +1,2 @@\n ctx\n+A\n");
}

#[test]
fn rebuild_unselected_removal_becomes_context() {
    let raw = "@@ -1,3 +1,1 @@\n ctx\n-X\n-Y\n";
    let out = rebuild_hunk(raw, &[1]).unwrap();
    assert_eq!(out, "@@ -1,3 +1,2 @@\n ctx\n X\n-Y\n");
}

#[test]
fn rebuild_returns_none_when_nothing_selected() {
    let raw = "@@ -1,1 +1,2 @@\n ctx\n+A\n";
    assert!(rebuild_hunk(raw, &[]).is_none());
}

#[test]
fn rebuild_no_newline_marker_follows_kept_line() {
    let raw = "@@ -0,0 +1,1 @@\n+A\n\\ No newline at end of file\n";
    let out = rebuild_hunk(raw, &[0]).unwrap();
    assert_eq!(out, "@@ -0,0 +1,1 @@\n+A\n\\ No newline at end of file\n");
}

#[test]
fn rebuild_no_newline_marker_dropped_with_unselected_line() {
    let raw = "@@ -1,1 +1,2 @@\n ctx\n+A\n\\ No newline at end of file\n";
    assert!(rebuild_hunk(raw, &[]).is_none());
}

#[test]
fn rebuild_no_newline_marker_kept_after_unselected_removal() {
    let raw = "@@ -1,2 +1,2 @@\n ctx\n-X\n\\ No newline at end of file\n+A\n";
    let out = rebuild_hunk(raw, &[1]).unwrap();
    assert_eq!(out, "@@ -1,2 +1,3 @@\n ctx\n X\n\\ No newline at end of file\n+A\n");
}

#[test]
fn rebuild_preserves_header_tail() {
    let raw = "@@ -10,2 +10,3 @@ fn foo()\n ctx\n+A\n ctx2\n";
    let out = rebuild_hunk(raw, &[0]).unwrap();
    assert_eq!(out, "@@ -10,2 +10,3 @@ fn foo()\n ctx\n+A\n ctx2\n");
}

#[test]
fn build_partial_patch_none_when_empty() {
    let hunks = vec![LineHunkSelection {
        raw: "@@ -1,1 +1,2 @@\n l1\n+x\n".to_string(),
        selected: vec![],
    }];
    assert!(build_partial_patch("HEADER\n", &hunks).is_none());
}

#[test]
fn build_partial_patch_prepends_header_and_skips_empty_hunks() {
    let hunks = vec![
        LineHunkSelection {
            raw: "@@ -1,1 +1,2 @@\n l1\n+x\n".to_string(),
            selected: vec![0],
        },
        LineHunkSelection {
            raw: "@@ -5,1 +6,2 @@\n l5\n+y\n".to_string(),
            selected: vec![],
        },
    ];
    let p = build_partial_patch("HDR\n", &hunks).unwrap();
    assert_eq!(p, "HDR\n@@ -1,1 +1,2 @@\n l1\n+x\n");
}

#[test]
fn apply_lines_plans_cached_apply_of_selection() {
    let raw = "@@ -1,3 +1,4 @@\n l1\n l2\n+NEW\n-l3\n+l3X\n";
    let hunks = vec![LineHunkSelection { raw: raw.to_string(), selected: vec![0] }];
    let cmd = apply_lines("HDR\n", &hunks, LineOp::Stage).unwrap();
    assert_eq!(cmd.args, vec!["apply", "--recount", "--whitespace=nowarn", "--cached", "-"]);
    assert_eq!(cmd.stdin, "HDR\n@@ -1,3 +1,4 @@\n l1\n l2\n+NEW\n l3\n");
    let discard = apply_lines("HDR\n", &hunks, LineOp::Discard).unwrap();
    assert_eq!(discard.args, vec!["apply", "--recount", "--whitespace=nowarn", "--reverse", "-"]);
    assert!(apply_lines("HDR\n", &[], LineOp::Unstage).is_none());
}

#[test]
fn rejects_header_without_closing_marker() {
    assert!(parse_hunk_header("@@ -1 +1").is_none());
    assert!(parse_hunk_header("@@ -x +1 @@").is_none());
    assert!(parse_hunk_header("@@ -1 @@").is_none());
}

#[test]
fn rebuilt_header_counts_match_body_lines() {
    let raw = "@@ -4,4 +4,5 @@ ctx\n a\n-b\n-c\n+d\n+e\n+f\n g\n";
    let out = rebuild_hunk(raw, &[1, 3]).unwrap();
    assert_eq!(out, "@@ -4,4 +4,4 @@ ctx\n a\n b\n-c\n+e\n g\n");
    let mut lines = out.split('\n');
    let header = lines.next().unwrap();
    let body: Vec<&str> = lines.filter(|l| !l.is_empty()).collect();
    let old = body.iter().filter(|l| l.starts_with(' ') || l.starts_with('-')).count();
    let new = body.iter().filter(|l| l.starts_with(' ') || l.starts_with('+')).count();
    assert_eq!(header, format!("@@ -4,{} +4,{} @@ ctx", old, new));
}

#[test]
fn upstream_push_and_named_branch_pull() {
    assert_eq!(push_upstream_args("origin", "main", false), vec!["push", "--set-upstream", "origin", "main"]);
    assert_eq!(
        push_upstream_args("origin", "main", true),
        vec!["push", "--force", "--set-upstream", "origin", "main"]
    );
    assert_eq!(pull_branch_args("origin", "main", false), vec!["pull", "origin", "main"]);
    assert_eq!(pull_branch_args("origin", "main", true), vec!["pull", "--rebase", "origin", "main"]);
}
