use shakey::codec::{parse_line, Command, ParseError};

fn b(s: &str) -> Vec<u8> {
    s.as_bytes().to_vec()
}

#[test]
fn ping_carries_its_token() {
    let line = parse_line(b"PING :abc\r\n").expect("line should parse");
    match line.command {
        Command::Ping { token } => assert_eq!(token, b("abc")),
        _ => panic!("expected a ping"),
    }
}

#[test]
fn ping_token_keeps_inner_spaces() {
    let line = parse_line(b"PING :a b c\r\n").expect("line should parse");
    match line.command {
        Command::Ping { token } => assert_eq!(token, b("a b c")),
        _ => panic!("expected a ping"),
    }
}

#[test]
fn privmsg_carries_sender_target_data_and_tags() {
    let line = parse_line(b"@badges=broadcaster/1 :u!u@h PRIVMSG #c :hi\r\n")
        .expect("line should parse");
    match line.command {
        Command::Privmsg { tags, sender, target, data } => {
            assert_eq!(tags, Some(b("badges=broadcaster/1")));
            assert_eq!(sender, b("u"));
            assert_eq!(target, b("#c"));
            assert_eq!(data, b("hi"));
        }
        _ => panic!("expected a chat message"),
    }
}

#[test]
fn ready_reads_its_tags() {
    let line = parse_line(b"@display-name=Bot;user-id=1234 GLOBALUSERSTATE\r\n")
        .expect("line should parse");
    match line.command {
        Command::GlobalUserState { display_name, user_id } => {
            assert_eq!(display_name, b("Bot"));
            assert_eq!(user_id, 1234);
        }
        _ => panic!("expected the ready command"),
    }
}

#[test]
fn later_tag_binding_wins() {
    let line = parse_line(b"@user-id=1;display-name=A;user-id=2 GLOBALUSERSTATE\r\n")
        .expect("line should parse");
    match line.command {
        Command::GlobalUserState { user_id, .. } => assert_eq!(user_id, 2),
        _ => panic!("expected the ready command"),
    }
}

#[test]
fn unknown_commands_are_ignored() {
    let line = parse_line(b":server 001 nick :welcome\r\n").expect("line should parse");
    assert!(matches!(line.command, Command::Ignored));
    assert_eq!(line.line, b(":server 001 nick :welcome\r\n"));
}

#[test]
fn ping_without_token_is_rejected() {
    assert_eq!(parse_line(b"PING\r\n").err(), Some(ParseError::MissingToken));
}

#[test]
fn error_without_message_is_rejected() {
    assert_eq!(parse_line(b"ERROR\r\n").err(), Some(ParseError::MissingMessage));
    let line = parse_line(b"ERROR :gone\r\n").expect("line should parse");
    match line.command {
        Command::Error { error } => assert_eq!(error, b("gone")),
        _ => panic!("expected a protocol error"),
    }
}

#[test]
fn privmsg_without_prefix_is_rejected() {
    assert_eq!(
        parse_line(b"PRIVMSG #c :hi\r\n").err(),
        Some(ParseError::MissingPrefix)
    );
}

#[test]
fn privmsg_without_target_is_rejected() {
    assert_eq!(
        parse_line(b":u!u@h PRIVMSG :hi\r\n").err(),
        Some(ParseError::MissingTarget)
    );
}

#[test]
fn privmsg_without_data_is_rejected() {
    assert_eq!(
        parse_line(b":u!u@h PRIVMSG #c :\r\n").err(),
        Some(ParseError::MissingData)
    );
    // without a colon there are no middle arguments at all
    assert_eq!(
        parse_line(b":u!u@h PRIVMSG #c\r\n").err(),
        Some(ParseError::MissingTarget)
    );
}

#[test]
fn ready_without_tags_is_rejected() {
    assert_eq!(
        parse_line(b"GLOBALUSERSTATE\r\n").err(),
        Some(ParseError::MissingTags)
    );
}

#[test]
fn ready_without_display_name_is_rejected() {
    assert_eq!(
        parse_line(b"@user-id=5 GLOBALUSERSTATE\r\n").err(),
        Some(ParseError::MissingDisplayName)
    );
}

#[test]
fn ready_with_bad_user_id_is_rejected() {
    assert_eq!(
        parse_line(b"@display-name=A;user-id=zz GLOBALUSERSTATE\r\n").err(),
        Some(ParseError::MissingUserId)
    );
    assert_eq!(
        parse_line(b"@display-name=A GLOBALUSERSTATE\r\n").err(),
        Some(ParseError::MissingUserId)
    );
}
