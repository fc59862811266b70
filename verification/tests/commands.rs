use book_writer_chat::commands::{parse_command, ParsedCommand};
use book_writer_chat::models::{BookLanguage, CommandKind};

#[test]
fn parses_control_and_authoring_commands() {
    assert_eq!(
        parse_command("/bookbot init", true, "bookbot"),
        Some(ParsedCommand::Init(BookLanguage::English))
    );
    assert_eq!(
        parse_command("/bookbot init en", true, "bookbot"),
        Some(ParsedCommand::Init(BookLanguage::English))
    );
    assert_eq!(
        parse_command("/bookbot init ru", true, "bookbot"),
        Some(ParsedCommand::Init(BookLanguage::Russian))
    );
    assert_eq!(
        parse_command("/bookbot init russian", true, "bookbot"),
        Some(ParsedCommand::Init(BookLanguage::Russian))
    );
    assert_eq!(
        parse_command("/bookbot init deutsch", true, "bookbot"),
        Some(ParsedCommand::UnsupportedInitLanguage("deutsch".to_string()))
    );
    assert_eq!(
        parse_command("/writerbot status", true, "writerbot"),
        Some(ParsedCommand::Status)
    );
    assert_eq!(
        parse_command("@bookbot write a chapter", true, "bookbot"),
        Some(ParsedCommand::Authoring("write a chapter".to_string()))
    );
    assert_eq!(
        parse_command("write a chapter", true, "bookbot"),
        Some(ParsedCommand::Authoring("write a chapter".to_string()))
    );
    assert_eq!(parse_command("hello team", false, "bookbot"), None);
}

#[test]
fn messages_not_addressed_to_the_bot_are_never_commands() {
    assert_eq!(parse_command("/bookbot init", false, "bookbot"), None);
    assert_eq!(parse_command("@bookbot status", false, "bookbot"), None);
}

#[test]
fn command_kinds_follow_the_command() {
    assert_eq!(ParsedCommand::Status.kind(), CommandKind::Status);
    assert_eq!(ParsedCommand::Init(BookLanguage::Russian).kind(), CommandKind::Init);
    assert_eq!(
        ParsedCommand::Authoring("x".to_string()).kind(),
        CommandKind::Authoring
    );
}
