use gitstream::git::stats::{repo_stats, repo_stats_args};

fn header(email: &str, name: &str, date: &str) -> String {
    format!("COMMIT\x01{}\x01{}\x01{}", email, name, date)
}

#[test]
fn stats_count_commits_lines_and_days() {
    let out = [
        header("a@x", "Alice", "2024-01-02 10 2"),
        "".to_string(),
        "3\t1\tsrc/a.rs".to_string(),
        "-\t-\timg.png".to_string(),
        header("b@x", "Bob", "2024-02-05 23 0"),
        "10\t0\tb.rs".to_string(),
        header("a@x", "Alice A.", "2024-01-03 09 3"),
        "1\t1\tsrc/a.rs".to_string(),
    ]
    .join("\n");
    let s = repo_stats(&out).expect("no overflow");
    assert_eq!(s.total_commits, 3);
    assert_eq!(s.total_insertions, 14);
    assert_eq!(s.total_deletions, 2);
    assert_eq!(s.total_authors, 2);
    assert_eq!(s.active_days, 3);
    assert_eq!(s.first_commit_date, "2024-01-02");
    assert_eq!(s.last_commit_date, "2024-02-05");
    assert_eq!(s.authors[0].email, "a@x");
    assert_eq!(s.authors[0].name, "Alice A.");
    assert_eq!(s.authors[0].commits, 2);
    assert_eq!(s.authors[0].insertions, 4);
    assert_eq!(s.authors[0].active_days, 2);
    assert_eq!(s.authors[0].first_date, "2024-01-02");
    assert_eq!(s.authors[0].last_date, "2024-01-03");
    assert_eq!(s.authors[1].email, "b@x");
    // %w: 0 = Sunday goes last, 2 = Tuesday is index 1.
    assert_eq!(s.by_weekday, vec![0, 1, 1, 0, 0, 0, 1]);
    assert_eq!(s.by_hour[10], 1);
    assert_eq!(s.by_hour[23], 1);
    assert_eq!(s.by_hour[9], 1);
    assert_eq!(s.by_hour.iter().sum::<u32>(), 3);
    let months: Vec<(String, u32)> = s.by_month.iter().map(|m| (m.month.clone(), m.commits)).collect();
    assert_eq!(months, vec![("2024-01".to_string(), 2), ("2024-02".to_string(), 1)]);
    let days: Vec<String> = s.by_day.iter().map(|d| d.date.clone()).collect();
    assert_eq!(days, vec!["2024-01-02", "2024-01-03", "2024-02-05"]);
}

#[test]
fn stats_of_empty_log() {
    let s = repo_stats("").expect("empty");
    assert_eq!(s.total_commits, 0);
    assert_eq!(s.first_commit_date, "");
    assert!(s.authors.is_empty());
    assert_eq!(s.by_weekday, vec![0; 7]);
    assert_eq!(s.by_hour, vec![0; 24]);
}

#[test]
fn short_headers_are_skipped_and_hours_capped() {
    let out = [
        header("a@x", "A", "2024-01-02 99 1"),
        "COMMIT\x01only\x01two".to_string(),
        "5\t5\tf".to_string(),
        header("b@x", "B", "2024-01-02"),
    ]
    .join("\n");
    let s = repo_stats(&out).unwrap();
    assert_eq!(s.total_commits, 1);
    assert_eq!(s.by_hour[23], 1);
    // The numstat line after the skipped header counts for the previous author.
    assert_eq!(s.authors[0].insertions, 5);
}

#[test]
fn overflowing_counts_fail() {
    let out = [
        header("a@x", "A", "2024-01-02 10 1"),
        "4294967295\t0\tf".to_string(),
        "1\t0\tg".to_string(),
    ]
    .join("\n");
    assert!(repo_stats(&out).is_none());
}

#[test]
fn authors_sorted_by_commits() {
    let out = [
        header("a@x", "A", "2024-01-01 1 1"),
        header("b@x", "B", "2024-01-01 1 1"),
        header("b@x", "B", "2024-01-02 1 1"),
        header("c@x", "C", "2024-01-03 1 1"),
    ]
    .join("\n");
    let s = repo_stats(&out).unwrap();
    let order: Vec<&str> = s.authors.iter().map(|a| a.email.as_str()).collect();
    assert_eq!(order, vec!["b@x", "a@x", "c@x"]);
}

#[test]
fn stats_arguments() {
    assert_eq!(
        repo_stats_args(Some(30)),
        vec![
            "log",
            "--format=COMMIT%x01%ae%x01%an%x01%ad",
            "--date=format:%Y-%m-%d %H %w",
            "--numstat",
            "--after=30 days ago"
        ]
    );
    assert_eq!(repo_stats_args(None).len(), 4);
}
