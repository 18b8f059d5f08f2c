use gitstream::git::graph::assign_lanes;
use gitstream::git::types::CommitInfo;

fn c(oid: &str, parents: &[&str]) -> CommitInfo {
    CommitInfo {
        oid: oid.to_string(),
        short_oid: oid.to_string(),
        message: String::new(),
        author: String::new(),
        author_email: String::new(),
        date: String::new(),
        parents: parents.iter().map(|s| s.to_string()).collect(),
        refs: Vec::new(),
        column: 0,
        lines: Vec::new(),
        unpushed: false,
    }
}

#[test]
fn linear_history_single_column() {
    let mut v = vec![c("C", &["B"]), c("B", &["A"]), c("A", &[])];
    assign_lanes(&mut v);
    assert_eq!(v[0].column, 0);
    assert_eq!(v[1].column, 0);
    assert_eq!(v[2].column, 0);
    for row in &v {
        assert!(row
            .lines
            .iter()
            .any(|l| l.style == "straight" && l.from_column == 0 && l.to_column == 0));
    }
}

#[test]
fn branch_and_merge() {
    let mut v = vec![
        c("M", &["P1", "P2"]),
        c("P1", &["Base"]),
        c("P2", &["Base"]),
        c("Base", &[]),
    ];
    assign_lanes(&mut v);
    assert_eq!(v[0].column, 0);
    assert!(v[0]
        .lines
        .iter()
        .any(|l| l.style == "fork" && l.from_column == 0 && l.to_column == 1));
    assert_eq!(v[2].column, 1);
    assert_eq!(v[3].column, 0);
    assert!(v[3]
        .lines
        .iter()
        .any(|l| l.style == "merge-left" && l.from_column == 1 && l.to_column == 0));
}

#[test]
fn root_commit_no_fork() {
    let mut v = vec![c("R", &[])];
    assign_lanes(&mut v);
    assert_eq!(v[0].column, 0);
    assert!(!v[0].lines.iter().any(|l| l.style == "fork"));
    assert!(v[0]
        .lines
        .iter()
        .any(|l| l.style == "straight" && l.from_column == 0));
}

#[test]
fn unreferenced_tip_gets_new_lane() {
    let mut v = vec![c("A", &["B"]), c("C", &["D"]), c("B", &[]), c("D", &[])];
    assign_lanes(&mut v);
    assert_eq!(v[0].column, 0);
    assert_eq!(v[1].column, 1);
}

#[test]
fn merge_colors_follow_source_lane() {
    let mut v = vec![
        c("M", &["P1", "P2"]),
        c("P1", &["Base"]),
        c("P2", &["Base"]),
        c("Base", &[]),
    ];
    assign_lanes(&mut v);
    let merge = v[3].lines.iter().find(|l| l.style == "merge-left").unwrap();
    assert_eq!(merge.color, 1);
    assert_eq!(v[3].lines.len(), 2);
    assert_eq!(v[3].lines[1].style, "straight");
}
