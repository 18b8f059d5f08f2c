use gitstream::git::diff::{parse_diff_multi, parse_diff_single, parse_diff_single_checked};
use gitstream::git::preview::{
    commit_diff_fits, diff_commit, diff_commit_file, diff_file, diff_text_fits, is_image_path_exec,
    BlobSrc, CommitDiffStep, DiffStep, Fetch, Fetched,
};

fn one_file() -> String {
    [
    "diff --git a/src/a.rs b/src/a.rs\n",
    "index 111..222 100644\n",
    "--- a/src/a.rs\n",
    "+++ b/src/a.rs\n",
    "@@ -1,3 +1,4 @@ fn main() {\n",
    " keep\n",
    "-old\n",
    "+new\n",
    "+added\n",
    "\\ No newline at end of file\n",
    "@@ -10,2 +11,2 @@\n",
    " ctx\n",
    "-x\n",
    "+y\n",
    ]
    .concat()
}

#[test]
fn single_diff_numbers_lines_and_counts() {
    let d = parse_diff_single(&one_file(), "fallback");
    assert_eq!(d.path, "src/a.rs");
    assert_eq!(d.insertions, 3);
    assert_eq!(d.deletions, 2);
    assert!(!d.binary);
    assert_eq!(d.hunks.len(), 2);
    assert_eq!(d.header, "diff --git a/src/a.rs b/src/a.rs\nindex 111..222 100644\n--- a/src/a.rs\n+++ b/src/a.rs\n");
    let h = &d.hunks[0];
    assert_eq!(h.header, "@@ -1,3 +1,4 @@ fn main() {");
    let kinds: Vec<(&str, Option<u32>, Option<u32>, &str)> = h
        .lines
        .iter()
        .map(|l| (l.kind.as_str(), l.old_lineno, l.new_lineno, l.content.as_str()))
        .collect();
    assert_eq!(
        kinds,
        vec![
            ("context", Some(1), Some(1), "keep"),
            ("removed", Some(2), None, "old"),
            ("added", None, Some(2), "new"),
            ("added", None, Some(3), "added"),
        ]
    );
    assert!(h.raw.ends_with("+added\n\\ No newline at end of file\n"));
    assert_eq!(d.hunks[1].lines[0].old_lineno, Some(10));
    assert_eq!(d.hunks[1].lines[0].new_lineno, Some(11));
}

#[test]
fn rename_binary_and_fallback_paths() {
    let r = parse_diff_single("diff --git a/x b/y\nrename from x\nrename to y\n", "fb");
    assert_eq!(r.path, "y");
    let b = parse_diff_single("diff --git a/i.png b/i.png\nBinary files a/i.png and b/i.png differ\n", "i.png");
    assert!(b.binary);
    assert!(b.hunks.is_empty());
    let t = parse_diff_single("+++ b/name with space\t\n", "fb");
    assert_eq!(t.path, "name with space");
    assert_eq!(parse_diff_single("", "fb").path, "fb");
}

#[test]
fn multi_diff_splits_files() {
    let text = format!("{}diff --git a/b.txt b/b.txt\n--- a/b.txt\n+++ b/b.txt\n@@ -1 +1 @@\n-a\n+b\n", one_file());
    let v = parse_diff_multi(&text);
    assert_eq!(v.len(), 2);
    assert_eq!(v[0].path, "src/a.rs");
    assert_eq!(v[1].path, "b.txt");
    assert_eq!(v[1].insertions, 1);
    assert!(parse_diff_multi("").is_empty());
    assert!(commit_diff_fits(&text));
    assert!(diff_text_fits(&one_file(), "x"));
    assert!(parse_diff_single_checked(&one_file(), "x").is_some());
}

#[test]
fn image_extensions() {
    assert!(is_image_path_exec("a/b/Logo.PNG"));
    assert!(is_image_path_exec("x.avif"));
    assert!(!is_image_path_exec("x.svg"));
    // No dot: the whole name is the extension.
    assert!(is_image_path_exec("png"));
    assert!(!is_image_path_exec("a.png.txt"));
}

fn git_args(f: &Fetch) -> Vec<String> {
    match f {
        Fetch::Git(a) | Fetch::GitAnyStatus(a) | Fetch::GitBytes(a) => a.clone(),
        Fetch::DiskSize(p) => vec!["size".to_string(), p.clone()],
        Fetch::DiskRead(p) => vec!["read".to_string(), p.clone()],
    }
}

#[test]
fn untracked_image_diff_fetches_size_and_content_from_disk() {
    let (mut job, first) = diff_file("pic.png", false, Some(3));
    assert_eq!(git_args(&first), vec!["ls-files", "--error-unmatch", "--", "pic.png"]);
    let err = gitstream::git::error::classify_git_error("error: pathspec did not match");
    let next = job.step(Fetched::Text(Err(err)));
    match next {
        DiffStep::Fetch(Fetch::GitAnyStatus(a)) => assert_eq!(
            a,
            vec!["-c", "core.quotepath=false", "diff", "--no-index", "-U3", "--", "/dev/null", "pic.png"]
        ),
        _ => panic!("expected the no-index diff"),
    }
    let text = "diff --git a/pic.png b/pic.png\nnew file mode 100644\nBinary files /dev/null and b/pic.png differ\n";
    let s = job.step(Fetched::Text(Ok(text.to_string())));
    match &s {
        DiffStep::Fetch(f) => assert_eq!(git_args(f), vec!["size", "pic.png"]),
        _ => panic!("expected the size"),
    }
    let s = job.step(Fetched::Size(Some(3)));
    match &s {
        DiffStep::Fetch(f) => assert_eq!(git_args(f), vec!["read", "pic.png"]),
        _ => panic!("expected the content"),
    }
    match job.step(Fetched::Bytes(Some(vec![0x89, 0x50, 0x4e]))) {
        DiffStep::Done(Ok(d)) => {
            assert!(d.binary);
            assert_eq!(d.byte_size, Some(3));
            assert_eq!(d.new_image.as_deref(), Some("iVBO"));
            assert_eq!(d.old_image, None);
        }
        _ => panic!("expected the finished diff"),
    }
}

#[test]
fn staged_text_diff_is_done_after_one_command() {
    let (mut job, first) = diff_file("a.rs", true, None);
    assert_eq!(git_args(&first), vec!["-c", "core.quotepath=false", "diff", "--cached", "--", "a.rs"]);
    match job.step(Fetched::Text(Ok(one_file()))) {
        DiffStep::Done(Ok(d)) => assert_eq!(d.insertions, 3),
        _ => panic!("expected a finished diff"),
    }
}

#[test]
fn commit_file_diff_uses_parent_and_git_sizes() {
    let (mut job, first) = diff_commit_file("abc", "i.gif", None);
    assert_eq!(git_args(&first), vec!["rev-parse", "--verify", "--quiet", "abc^"]);
    match job.step(Fetched::Text(Ok("p\n".to_string()))) {
        DiffStep::Fetch(f) => assert_eq!(
            git_args(&f),
            vec!["-c", "core.quotepath=false", "diff", "abc^..abc", "--", "i.gif"]
        ),
        _ => panic!("expected the diff"),
    }
    let text = "diff --git a/i.gif b/i.gif\nBinary files a/i.gif and b/i.gif differ\n";
    match job.step(Fetched::Text(Ok(text.to_string()))) {
        DiffStep::Fetch(f) => assert_eq!(git_args(&f), vec!["cat-file", "-s", "abc:i.gif"]),
        _ => panic!("expected the size"),
    }
    match job.step(Fetched::Text(Ok(" 12\n".to_string()))) {
        DiffStep::Fetch(f) => assert_eq!(git_args(&f), vec!["show", "abc:i.gif"]),
        _ => panic!("expected the new image"),
    }
    match job.step(Fetched::Bytes(Some(b"GIF".to_vec()))) {
        DiffStep::Fetch(f) => assert_eq!(git_args(&f), vec!["show", "abc^:i.gif"]),
        _ => panic!("expected the old image"),
    }
    match job.step(Fetched::Bytes(None)) {
        DiffStep::Done(Ok(d)) => {
            assert_eq!(d.byte_size, Some(12));
            assert_eq!(d.new_image.as_deref(), Some("R0lG"));
            assert_eq!(d.old_image, None);
        }
        _ => panic!("expected the finished diff"),
    }
}

#[test]
fn root_commit_diff_uses_show() {
    let (mut job, first) = diff_commit("root");
    assert_eq!(first, vec!["rev-parse", "--verify", "--quiet", "root^"]);
    let err = gitstream::git::error::classify_git_error("fatal: bad revision");
    match job.step(Err(err)) {
        CommitDiffStep::Git(a) => assert_eq!(a, vec!["-c", "core.quotepath=false", "show", "root", "--format="]),
        _ => panic!("expected show"),
    }
    match job.step(Ok(one_file())) {
        CommitDiffStep::Done(Ok(v)) => assert_eq!(v.len(), 1),
        _ => panic!("expected the diffs"),
    }
    let _ = BlobSrc::Disk;
}
