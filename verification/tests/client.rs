use cs262::client::{join_from, parse_command, parse_words, Command};
use cs262::wire::Message;

fn words(list: &[&str]) -> Vec<String> {
    list.iter().map(|w| w.to_string()).collect()
}

#[test]
fn an_empty_line_ends_the_session() {
    assert!(matches!(parse_command(""), Command::Quit));
    assert!(matches!(parse_command("  \t \n"), Command::Quit));
}

#[test]
fn create_needs_a_name() {
    assert!(matches!(parse_command("create\n"), Command::MissingArgument));
    assert!(matches!(
        parse_command("create alice\n"),
        Command::Request(Message::Create(ref name)) if name == "alice"
    ));
    assert!(matches!(
        parse_command("  create   alice  ignored\n"),
        Command::Request(Message::Create(ref name)) if name == "alice"
    ));
}

#[test]
fn list_takes_an_optional_filter() {
    assert!(matches!(
        parse_command("list\n"),
        Command::Request(Message::List(ref filter)) if filter.is_empty()
    ));
    assert!(matches!(
        parse_command("list a*\n"),
        Command::Request(Message::List(ref filter)) if filter == "a*"
    ));
}

#[test]
fn send_joins_the_remaining_words_with_single_spaces() {
    assert!(matches!(parse_command("send\n"), Command::MissingArgument));
    assert!(matches!(
        parse_command("send bob\n"),
        Command::Request(Message::Send(ref name, ref text)) if name == "bob" && text.is_empty()
    ));
    assert!(matches!(
        parse_command("send bob   hello \t there   world \n"),
        Command::Request(Message::Send(ref name, ref text))
            if name == "bob" && text == "hello there world"
    ));
    assert!(matches!(
        parse_command("send bob hi\n"),
        Command::Request(Message::Send(ref name, ref text)) if name == "bob" && text == "hi"
    ));
}

#[test]
fn deliver_and_delete_need_a_name() {
    assert!(matches!(parse_command("deliver"), Command::MissingArgument));
    assert!(matches!(parse_command("delete"), Command::MissingArgument));
    assert!(matches!(
        parse_command("deliver bob"),
        Command::Request(Message::Deliver(ref name)) if name == "bob"
    ));
    assert!(matches!(
        parse_command("delete bob"),
        Command::Request(Message::Delete(ref name)) if name == "bob"
    ));
}

#[test]
fn other_words_are_unknown_commands() {
    assert!(matches!(parse_command("remove bob"), Command::UnknownCommand));
    assert!(matches!(parse_command("Create bob"), Command::UnknownCommand));
    assert!(matches!(parse_command("creates bob"), Command::UnknownCommand));
    assert!(matches!(parse_command("creat"), Command::UnknownCommand));
}

#[test]
fn parse_words_reads_words_as_given() {
    assert!(matches!(parse_words(&words(&[])), Command::Quit));
    assert!(matches!(
        parse_words(&words(&["send", "a b", "c", "", "d"])),
        Command::Request(Message::Send(ref name, ref text)) if name == "a b" && text == "c  d"
    ));
}

#[test]
fn join_from_skips_the_leading_words() {
    let all = words(&["a", "b", "c"]);
    assert_eq!(join_from(&all, 0), "a b c");
    assert_eq!(join_from(&all, 1), "b c");
    assert_eq!(join_from(&all, 2), "c");
    assert_eq!(join_from(&all, 3), "");
}
