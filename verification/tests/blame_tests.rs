use gitstream::git::blame::{blame, blame_args, parse_blame_porcelain};

#[test]
fn parses_porcelain_with_cached_repeats() {
    let a = "a".repeat(40);
    let b = "b".repeat(40);
    let out = format!(
        "{a} 1 1 1\n\
author Alice\n\
author-mail <a@a>\n\
author-time 1700000000\n\
author-tz +0000\n\
summary first\n\
filename f.txt\n\
\tline one\n\
{b} 2 2 1\n\
author Bob\n\
author-mail <b@b>\n\
author-time 1700000100\n\
author-tz +0000\n\
summary second\n\
filename f.txt\n\
\tline two\n\
{a} 1 3 1\n\
\tline three (same commit as 1)\n",
        a = a,
        b = b
    );

    let lines = parse_blame_porcelain(&out);
    assert_eq!(lines.len(), 3);

    assert_eq!(lines[0].author, "Alice");
    assert_eq!(lines[0].author_time, 1700000000);
    assert_eq!(lines[0].line_no, 1);
    assert_eq!(lines[0].content, "line one");
    assert_eq!(lines[0].short_oid, "aaaaaaaa");
    assert_eq!(lines[0].summary, "first");

    assert_eq!(lines[1].author, "Bob");
    assert_eq!(lines[1].author_time, 1700000100);
    assert_eq!(lines[1].line_no, 2);
    assert_eq!(lines[1].content, "line two");

    assert_eq!(lines[2].oid, a);
    assert_eq!(lines[2].author, "Alice");
    assert_eq!(lines[2].author_time, 1700000000);
    assert_eq!(lines[2].line_no, 3);
    assert_eq!(lines[2].content, "line three (same commit as 1)");
}

#[test]
fn empty_output_yields_no_lines() {
    assert!(parse_blame_porcelain("").is_empty());
}

#[test]
fn unknown_commit_and_bad_time_give_defaults() {
    let out = format!("{} 1 7\nauthor-time -5x\n\tcontent\n", "c".repeat(40));
    let lines = blame(&out);
    assert_eq!(lines.len(), 1);
    assert_eq!(lines[0].author, "");
    assert_eq!(lines[0].author_time, 0);
    assert_eq!(lines[0].line_no, 7);
    let neg = format!("{} 1 2\nauthor-time -42\n\tx\n", "d".repeat(40));
    assert_eq!(blame(&neg)[0].author_time, -42);
}

#[test]
fn blame_arguments() {
    assert_eq!(blame_args("f.rs", None), vec!["blame", "--porcelain", "--", "f.rs"]);
    assert_eq!(blame_args("f.rs", Some("HEAD~1")), vec!["blame", "--porcelain", "HEAD~1", "--", "f.rs"]);
}

#[test]
fn every_content_line_is_blamed_once_in_order() {
    let a = "c".repeat(40);
    let out = format!(
        "{a} 1 1 3\nauthor Carol\nsummary s\n\tone\n{a} 2 2\n\t\n{a} 3 3\n\t\tthree\nnot a content line\n",
        a = a
    );
    let lines = blame(&out);
    let contents: Vec<&str> = lines.iter().map(|l| l.content.as_str()).collect();
    assert_eq!(contents, vec!["one", "", "\tthree"]);
    assert!(lines.iter().all(|l| l.author == "Carol"));
    assert_eq!(lines.iter().map(|l| l.line_no).collect::<Vec<u32>>(), vec![1, 2, 3]);
}
