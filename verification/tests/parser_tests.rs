use chat_relay::parser::{parse_command, trim, Command};

#[test]
fn plain_text_is_broadcast() {
    match parse_command("hello world") {
        Command::Broadcast(t) => assert_eq!(t, "hello world"),
        _ => panic!("expected a broadcast"),
    }
}

#[test]
fn empty_line_is_broadcast() {
    match parse_command("") {
        Command::Broadcast(t) => assert_eq!(t, ""),
        _ => panic!("expected a broadcast"),
    }
}

#[test]
fn list_command() {
    assert!(matches!(parse_command("/list"), Command::ListRooms));
}

#[test]
fn list_command_ignores_arguments() {
    assert!(matches!(parse_command("/list extra words"), Command::ListRooms));
}

#[test]
fn join_with_room() {
    match parse_command("/join lobby") {
        Command::Join(r) => assert_eq!(r, "lobby"),
        _ => panic!("expected a join"),
    }
}

#[test]
fn join_without_room_is_invalid() {
    match parse_command("/join") {
        Command::Invalid(m) => assert_eq!(m, "room name is required"),
        _ => panic!("expected an invalid command"),
    }
}

#[test]
fn name_with_argument() {
    match parse_command("/name Alice") {
        Command::SetName(n) => assert_eq!(n, "Alice"),
        _ => panic!("expected a set-name"),
    }
}

#[test]
fn name_without_argument_is_invalid() {
    match parse_command("/name") {
        Command::Invalid(m) => assert_eq!(m, "name is required"),
        _ => panic!("expected an invalid command"),
    }
}

#[test]
fn unknown_command_reports_its_word() {
    match parse_command("/frobnicate all the things") {
        Command::Invalid(m) => assert_eq!(m, "unknown command: /frobnicate"),
        _ => panic!("expected an invalid command"),
    }
}

#[test]
fn join_takes_rest_of_line_after_first_space() {
    match parse_command("/join two words") {
        Command::Join(r) => assert_eq!(r, "two words"),
        _ => panic!("expected a join"),
    }
}

#[test]
fn non_ascii_lines_survive() {
    match parse_command("h\u{e9}llo w\u{f6}rld") {
        Command::Broadcast(t) => assert_eq!(t, "h\u{e9}llo w\u{f6}rld"),
        _ => panic!("expected a broadcast"),
    }
    match parse_command("/name Jos\u{e9}") {
        Command::SetName(n) => assert_eq!(n, "Jos\u{e9}"),
        _ => panic!("expected a set-name"),
    }
}

#[test]
fn trim_strips_both_ends() {
    assert_eq!(trim("  \t hi there \r\n"), "hi there");
    assert_eq!(trim(""), "");
    assert_eq!(trim("   "), "");
    assert_eq!(trim("x"), "x");
}
