use gitstream::git::query::{
    branches, current_branch_name, list_all_files, list_files_at, parse_commit_record,
    parse_log_records, parse_track, remote_urls, remotes, repo_state, stashes, status,
    status_output_fits, tags, unpushed_set, GitDirMarkers,
};

fn st(out: &str) -> Vec<(String, String, String)> {
    assert!(status_output_fits(out));
    status(out)
        .into_iter()
        .map(|f| (f.path, f.state, f.staged))
        .collect()
}

fn t(a: &str, b: &str, c: &str) -> (String, String, String) {
    (a.to_string(), b.to_string(), c.to_string())
}

#[test]
fn status_classifies_porcelain_v2_entries() {
    let out = [
        "# branch.oid 0123\n",
        "1 .M N... 100644 100644 100644 aaa aaa папка/вложенная/файл.txt\n",
        "1 M. N... 100644 100644 100644 aaa bbb staged.txt\n",
        "1 MM N... 100644 100644 100644 aaa bbb both.txt\n",
        "1 A. N... 000000 100644 100644 000 bbb new.txt\n",
        "1 .D N... 100644 100644 000000 aaa aaa gone.txt\n",
        "1 UU N... 100644 100644 100644 aaa bbb conf.txt\n",
        "1 AA N... 100644 100644 100644 aaa bbb both_added.txt\n",
        "1 .T N... 100644 100644 120000 aaa aaa link\n",
        "1 M. short\n",
        "2 R. N... 100644 100644 100644 aaa aaa R100 new name.txt\told.txt\n",
        "? back/ws_server/src/server.rs\n",
    ]
    .concat();
    assert_eq!(
        st(&out),
        vec![
            t("папка/вложенная/файл.txt", "modified", "unstaged"),
            t("staged.txt", "modified", "staged"),
            t("both.txt", "modified", "partial"),
            t("new.txt", "added", "staged"),
            t("gone.txt", "deleted", "unstaged"),
            t("conf.txt", "conflicted", "unstaged"),
            t("both_added.txt", "conflicted", "unstaged"),
            t("link", "modified", "unstaged"),
            t("old.txt", "renamed", "staged"),
            t("back/ws_server/src/server.rs", "untracked", "unstaged"),
        ]
    );
    assert!(st("").is_empty());
}

#[test]
fn branches_skip_symbolic_refs_and_read_tracking() {
    let out = [
        "refs/heads/main\0main\0\0origin/main\0ahead 2, behind 3\0*\0Alice\n",
        "refs/heads/origin\0heads/origin\0\0\0\0 \0\n",
        "refs/remotes/origin/HEAD\0origin\0refs/remotes/origin/main\0\0\0 \0Bob\n",
        "refs/remotes/origin/feature/auth\0origin/feature/auth\0\0\0gone\0 \0Bob\n",
        "too\0few\n",
        "\n",
    ]
    .concat();
    let b = branches(&out);
    assert_eq!(b.len(), 3);
    assert_eq!(b[0].name, "main");
    assert!(!b[0].is_remote);
    assert_eq!(b[0].upstream.as_deref(), Some("origin/main"));
    assert_eq!((b[0].ahead, b[0].behind), (2, 3));
    assert!(b[0].is_current);
    assert_eq!(b[0].author.as_deref(), Some("Alice"));
    assert_eq!(b[1].name, "origin");
    assert!(!b[1].is_remote);
    assert_eq!(b[1].upstream, None);
    assert!(!b[1].is_current);
    assert_eq!(b[1].author, None);
    assert_eq!(b[2].name, "origin/feature/auth");
    assert!(b[2].is_remote);
    assert_eq!((b[2].ahead, b[2].behind), (0, 0));
}

#[test]
fn tracking_words() {
    assert_eq!(parse_track("ahead 1"), (1, 0));
    assert_eq!(parse_track("behind 7"), (0, 7));
    assert_eq!(parse_track("ahead 4, behind 5"), (4, 5));
    assert_eq!(parse_track("ahead x"), (0, 0));
    assert_eq!(parse_track(""), (0, 0));
}

#[test]
fn tags_stashes_and_remotes() {
    let tg = tags("v1.2\0abc1234\0Release\nv1.1\0\0\nlight\n");
    assert_eq!(tg.len(), 3);
    assert_eq!((tg[0].name.as_str(), tg[0].oid.as_str()), ("v1.2", "abc1234"));
    assert_eq!(tg[0].message.as_deref(), Some("Release"));
    assert_eq!(tg[1].message, None);
    assert_eq!((tg[2].name.as_str(), tg[2].oid.as_str(), tg[2].message.clone()), ("light", "", None));

    let s = stashes(Some("stash@{0}\0On main: wip\02 hours ago\nstash@{x}\0odd\n"));
    assert_eq!(s.len(), 2);
    assert_eq!((s[0].index, s[0].message.as_str(), s[0].date.as_str()), (0, "On main: wip", "2 hours ago"));
    assert_eq!((s[1].index, s[1].message.as_str(), s[1].date.as_str()), (0, "odd", ""));
    assert!(stashes(None).is_empty());

    assert_eq!(remotes("origin\n\nupstream\n"), vec!["origin", "upstream"]);
    let u = remote_urls("origin\tgit@h:a.git (fetch)\norigin\tgit@h:a.git (push)\nup\thttps://x/y (fetch)\n");
    let pairs: Vec<(&str, &str)> = u.iter().map(|r| (r.name.as_str(), r.url.as_str())).collect();
    assert_eq!(pairs, vec![("origin", "git@h:a.git"), ("up", "https://x/y")]);
}

#[test]
fn nul_separated_file_lists() {
    assert_eq!(list_all_files("a.txt\0dir/b.rs\0\0файл\0"), vec!["a.txt", "dir/b.rs", "файл"]);
    assert_eq!(list_files_at("x\0"), vec!["x"]);
    assert!(list_all_files("").is_empty());
}

#[test]
fn repository_state_from_markers() {
    let none = GitDirMarkers {
        rebase_merge: false,
        rebase_apply: false,
        cherry_pick_head: false,
        revert_head: false,
        merge_head: false,
    };
    assert_eq!(repo_state(&none), "clean");
    assert_eq!(repo_state(&GitDirMarkers { merge_head: true, ..none }), "merging");
    assert_eq!(repo_state(&GitDirMarkers { revert_head: true, merge_head: true, ..none }), "reverting");
    assert_eq!(repo_state(&GitDirMarkers { cherry_pick_head: true, revert_head: true, ..none }), "cherry-picking");
    assert_eq!(repo_state(&GitDirMarkers { rebase_apply: true, cherry_pick_head: true, ..none }), "rebasing");
    assert_eq!(current_branch_name("  main\n"), "main");
}

#[test]
fn commit_records_and_unpushed_marks() {
    let remotes = vec!["origin".to_string()];
    let unpushed = unpushed_set(Some("bbb\nccc\n"));
    assert_eq!(unpushed, vec!["bbb", "ccc"]);
    assert!(unpushed_set(None).is_empty());

    let rec = "bbb\0bb\0Ann\0ann@x\02024-01-02T03:04:05+00:00\0aaa ddd\0HEAD -> main, origin/main, tag: v1\0Subject\n\nBody\n\n";
    let c = parse_commit_record(rec, &remotes, &unpushed).unwrap();
    assert_eq!((c.oid.as_str(), c.short_oid.as_str(), c.author.as_str()), ("bbb", "bb", "Ann"));
    assert_eq!((c.author_email.as_str(), c.date.as_str()), ("ann@x", "2024-01-02T03:04:05+00:00"));
    assert_eq!(c.parents, vec!["aaa", "ddd"]);
    assert_eq!(c.message, "Subject\n\nBody");
    assert!(c.unpushed);
    assert_eq!(c.refs.len(), 3);
    assert!(parse_commit_record("", &remotes, &unpushed).is_none());
    assert!(parse_commit_record("a\0b\0c", &remotes, &unpushed).is_none());

    let out = format!("\x1e{}\x1eaaa\0aa\0Ann\0ann@x\0d\0\0\0root\n", rec);
    let v = parse_log_records(&out, &remotes, &unpushed);
    assert_eq!(v.len(), 2);
    assert_eq!(v[1].oid, "aaa");
    assert!(!v[1].unpushed);
    assert!(v[1].parents.is_empty());
    assert_eq!(v[1].message, "root");
}
