use gitstream::askpass::{
    askpass_request, extract_quoted, hex_lower, hex_nonce, line_text, nonce_ok, parent_answer, parse_prompt,
    random_hex, reply_lines, AskpassState, PromptKind,
};

#[test]
fn parses_username() {
    let info = parse_prompt("Username for 'https://github.com': ");
    assert_eq!(info.kind, PromptKind::Username);
    assert_eq!(info.host.as_deref(), Some("https://github.com"));
}

#[test]
fn parses_password() {
    let info = parse_prompt("Password for 'https://avv@github.com': ");
    assert_eq!(info.kind, PromptKind::Password);
    assert_eq!(info.host.as_deref(), Some("https://avv@github.com"));
}

#[test]
fn parses_passphrase_with_key_path() {
    let info = parse_prompt("Enter passphrase for key '/home/avv/.ssh/id_ed25519': ");
    assert_eq!(info.kind, PromptKind::Passphrase);
    assert_eq!(info.key_path.as_deref(), Some("/home/avv/.ssh/id_ed25519"));
}

#[test]
fn parses_host_key_confirm() {
    let info =
        parse_prompt("Are you sure you want to continue connecting (yes/no/[fingerprint])? ");
    assert_eq!(info.kind, PromptKind::Confirm);
}

#[test]
fn falls_back_to_generic() {
    assert_eq!(parse_prompt("Some odd prompt").kind, PromptKind::Generic);
}

#[test]
fn prompt_match_ignores_case() {
    // The lower-cased text decides: upper-case prompts are classified too.
    assert_eq!(parse_prompt("USERNAME FOR 'h': ").kind, PromptKind::Username);
    assert_eq!(parse_prompt("PASSWORD: ").kind, PromptKind::Password);
}

#[test]
fn quoted_text_needs_two_quotes() {
    assert_eq!(extract_quoted("a 'b' c").as_deref(), Some("b"));
    assert_eq!(extract_quoted("a 'b c"), None);
    assert_eq!(extract_quoted("none"), None);
    assert_eq!(extract_quoted("''").as_deref(), Some(""));
}

#[test]
fn answer_reaches_its_prompt_once() {
    let mut st = AskpassState::new("127.0.0.1:1".to_string(), "n".to_string());
    let a = st.open_prompt();
    let b = st.open_prompt();
    assert_ne!(a, b);
    assert_eq!(st.active, 2);
    assert_eq!(st.respond(a, Some("secret".to_string())), Some(Some("secret".to_string())));
    assert_eq!(st.respond(a, Some("again".to_string())), None);
    assert_eq!(st.respond(b, None), Some(None));
    assert_eq!(st.respond(99, None), None);
    st.close_prompt(a);
    st.close_prompt(b);
    assert_eq!(st.active, 0);
}

#[test]
fn helper_exchange_lines() {
    assert!(nonce_ok("abc\n", "abc"));
    assert!(!nonce_ok("abd\n", "abc"));
    assert_eq!(line_text("Password: \r\n"), "Password: ");
    assert_eq!(reply_lines(Some("pw".to_string())), "OK\npw\n");
    assert_eq!(reply_lines(None), "CANCEL\n");
    assert_eq!(parent_answer("OK\n", "pw\r\n").as_deref(), Some("pw"));
    assert_eq!(parent_answer("CANCEL\n", "pw\n"), None);
}

#[test]
fn request_carries_kind_name() {
    let r = askpass_request(7, "Username for 'https://h': ".to_string());
    assert_eq!(r.id, 7);
    assert_eq!(r.kind, "username");
    assert_eq!(r.host.as_deref(), Some("https://h"));
    assert_eq!(PromptKind::Passphrase.as_str(), "passphrase");
}

#[test]
fn nonce_is_hex_of_the_requested_length() {
    assert_eq!(hex_lower(&[0x00, 0x0f, 0xa5, 0xff]), "000fa5ff");
    let n = random_hex(24).expect("random source");
    assert_eq!(n.len(), 48);
    assert!(n.chars().all(|c| c.is_ascii_hexdigit() && !c.is_ascii_uppercase()));
}

#[test]
fn nonce_from_what_the_source_gave() {
    assert_eq!(hex_nonce(Some(vec![0x0f, 0xa0, 0xff])), Some("0fa0ff".to_string()));
    assert_eq!(hex_nonce(None), None);
    assert_eq!(random_hex(0), Some(String::new()));
}
