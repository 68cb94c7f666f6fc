use cmdc::handshake::{contains_bytes, react, reply, Reaction};
use cmdc::params::{session_params, CrystalParams};

fn params() -> CrystalParams {
    CrystalParams {
        assets: vec!["PETR4".to_string()],
        mkt_data_address: "md.example:81".to_string(),
        mkt_data_username: "user\n".to_string(),
        mkt_data_password: "secret\n".to_string(),
    }
}

#[test]
fn prompts_are_recognised() {
    assert_eq!(react(b"Connecting...\n"), Reaction::Acknowledge);
    assert_eq!(react(b"Username:\n"), Reaction::SendUsername);
    assert_eq!(react(b"Password:\n"), Reaction::SendPassword);
    assert_eq!(react(b"You are connected\n"), Reaction::MarkConnected);
}

#[test]
fn prompts_match_as_substrings() {
    assert_eq!(react(b">> Username: \r\n"), Reaction::SendUsername);
    assert_eq!(react(b"*** You are connected to CRYSTAL ***\n"), Reaction::MarkConnected);
    assert_eq!(react(b"xxConnecting...yy\n"), Reaction::Acknowledge);
}

#[test]
fn prompts_are_case_sensitive() {
    assert_eq!(react(b"username:\n"), Reaction::Ignore);
    assert_eq!(react(b"PASSWORD:\n"), Reaction::Ignore);
    assert_eq!(react(b"connecting...\n"), Reaction::Ignore);
    assert_eq!(react(b"you are connected\n"), Reaction::Ignore);
}

#[test]
fn other_lines_are_ignored() {
    assert_eq!(react(b"T:PETR4:1:2:3\n"), Reaction::Ignore);
    assert_eq!(react(b"\n"), Reaction::Ignore);
    assert_eq!(react(b""), Reaction::Ignore);
    assert_eq!(react(b"Connecting..\n"), Reaction::Ignore);
    assert_eq!(react(b"Username\n"), Reaction::Ignore);
}

#[test]
fn first_prompt_in_order_decides() {
    assert_eq!(react(b"Password: Username: Connecting...\n"), Reaction::Acknowledge);
    assert_eq!(react(b"Password: Username:\n"), Reaction::SendUsername);
    assert_eq!(react(b"You are connected Password:\n"), Reaction::SendPassword);
}

#[test]
fn malformed_utf8_is_no_prompt() {
    assert_eq!(react(b"Username:\xff\n"), Reaction::Ignore);
    assert_eq!(react(b"\xc3(Password:\n"), Reaction::Ignore);
    assert_eq!(react("Usu\u{e1}rio Username:\n".as_bytes()), Reaction::SendUsername);
}

#[test]
fn replies_to_prompts() {
    let p = params();
    assert_eq!(reply(Reaction::Acknowledge, &p), Some(b"\n".to_vec()));
    assert_eq!(reply(Reaction::SendUsername, &p), Some(b"user\n".to_vec()));
    assert_eq!(reply(Reaction::SendPassword, &p), Some(b"secret\n".to_vec()));
    assert_eq!(reply(Reaction::MarkConnected, &p), None);
    assert_eq!(reply(Reaction::Ignore, &p), None);
}

#[test]
fn substring_search() {
    assert!(contains_bytes(b"hello world", b"o w"));
    assert!(contains_bytes(b"hello", b"hello"));
    assert!(contains_bytes(b"hello", b""));
    assert!(contains_bytes(b"", b""));
    assert!(contains_bytes(b"aaab", b"aab"));
    assert!(!contains_bytes(b"hello", b"hello!"));
    assert!(!contains_bytes(b"", b"a"));
    assert!(!contains_bytes(b"abcabc", b"cb"));
}

#[test]
fn credentials_get_their_newline() {
    let p = session_params(
        vec!["a".to_string()],
        "host:1".to_string(),
        "name".to_string(),
        "word".to_string(),
    );
    assert_eq!(p.assets, vec!["a".to_string()]);
    assert_eq!(p.mkt_data_address, "host:1");
    assert_eq!(p.mkt_data_username, "name\n");
    assert_eq!(p.mkt_data_password, "word\n");
}
