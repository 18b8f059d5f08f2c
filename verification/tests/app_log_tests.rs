use gitstream::app_log::{log_git, sanitize, strip_ansi, truncate_output, MAX_OUTPUT_CHARS};

#[test]
fn ansi_true_color_sequences_are_stripped() {
    let raw = "\x1b[38;2;0;0;0m\x1b[38;2;6;6;6m лefthook won't run\x1b[0m";
    assert_eq!(sanitize(raw), " лefthook won't run");
}

#[test]
fn spinner_redraw_keeps_only_final_frame() {
    let raw = "\x1b[38;2;12;12;12m—\r\x1b[38;2;24;24;24m—\r🥊 lefthook v2.1.9  hook: pre-push";
    assert_eq!(sanitize(raw), "🥊 lefthook v2.1.9  hook: pre-push");
}

#[test]
fn crlf_line_endings_do_not_lose_text() {
    assert_eq!(sanitize("first\r\nsecond"), "first\nsecond");
}

#[test]
fn lefthook_box_frame_is_removed() {
    let raw = "╭─────────────╮\n│ 🥊 lefthook v2.1.9  hook: pre-push │\n╰─────────────╯\nbranch 'master' set up to track 'origin/master'.";
    assert_eq!(
        sanitize(raw),
        "  🥊 lefthook v2.1.9  hook: pre-push\nbranch 'master' set up to track 'origin/master'."
    );
}

#[test]
fn diffstat_lines_and_alignment_are_preserved() {
    let raw = "Fast-forward\n a/b.rs  | 16 +-\n c/d.lua |  5 +\n";
    assert_eq!(sanitize(raw), "Fast-forward\n a/b.rs  | 16 +-\n c/d.lua |  5 +");
}

#[test]
fn osc_and_two_char_escapes_are_stripped() {
    assert_eq!(strip_ansi("\x1b]0;title\x07text\x1b(Bmore"), "textmore");
}

#[test]
fn plain_output_is_untouched() {
    assert_eq!(
        sanitize("branch 'master' set up to track 'origin/master'."),
        "branch 'master' set up to track 'origin/master'."
    );
}

#[test]
fn osc_ended_by_string_terminator_is_stripped() {
    assert_eq!(strip_ansi("a\x1b]8;;url\x1b\\b"), "ab");
    // An ESC inside an OSC that is not followed by `\` ends it; the next
    // character is ordinary text again.
    assert_eq!(strip_ansi("a\x1b]x\x1bYz"), "aYz");
}

#[test]
fn stripping_twice_is_stripping_once() {
    let raw = "\x1b[1mbold\x1b[0m \x1b]0;t\x07plain\x1b(B";
    let once = strip_ansi(raw);
    assert_eq!(strip_ansi(&once), once);
    assert!(!once.contains('\x1b'));
}

#[test]
fn control_characters_collapse_to_one_space() {
    assert_eq!(sanitize("a\x00\x1e\x00b"), "a b");
    assert_eq!(sanitize("   \n\t\n"), "");
}

#[test]
fn long_output_is_cut_to_forty_lines() {
    let text: Vec<String> = (1..=45).map(|i| format!("line {}", i)).collect();
    let out = truncate_output(&text.join("\n"));
    let expected_head: Vec<String> = (1..=40).map(|i| format!("line {}", i)).collect();
    assert_eq!(out, format!("{}\n… (+5 строк)", expected_head.join("\n")));
}

#[test]
fn very_long_output_is_cut_to_the_character_limit() {
    let long = "x".repeat(5000);
    let out = truncate_output(&long);
    assert_eq!(out.chars().count(), MAX_OUTPUT_CHARS + "\n… (ответ усечён)".chars().count());
    assert!(out.ends_with("\n… (ответ усечён)"));
    assert_eq!(truncate_output("short"), "short");
}

#[test]
fn log_event_names_the_command() {
    let args = vec!["push".to_string(), "origin".to_string(), "main".to_string()];
    let e = log_git(&args, "\x1b[32mdone\x1b[0m", true);
    assert_eq!(e.cmd, "$ git push origin main");
    assert_eq!(e.output, "done");
    assert!(e.success);
    let none: Vec<String> = Vec::new();
    assert_eq!(log_git(&none, "", false).cmd, "$ git ");
}
