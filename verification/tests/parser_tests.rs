use rustirc::parser::{parse_message, parse_stream, Command, Message, User};

fn s(text: &str) -> String {
    text.to_string()
}

#[test]
fn message_new_is_empty() {
    let m = Message::new();
    assert_eq!(m.prefix, None);
    assert_eq!(m.command, "");
    assert!(m.params.is_empty());
}

#[test]
fn user_new_keeps_its_fields() {
    let u = User::new(s("a"), s("0"), s("Alice A"));
    assert_eq!(u.user, "a");
    assert_eq!(u.mode, "0");
    assert_eq!(u.realname, "Alice A");
}

#[test]
fn user_clone_is_equal() {
    let u = User::new(s("a"), s("0"), s("Alice A"));
    assert_eq!(u.clone(), u);
}

#[test]
fn stream_without_prefix() {
    let m = parse_stream(s("NICK alice\r\n")).unwrap();
    assert_eq!(m.prefix, None);
    assert_eq!(m.command, "NICK");
    assert_eq!(m.params, vec![s("alice")]);
}

#[test]
fn stream_with_prefix() {
    let m = parse_stream(s(":src PRIVMSG bob :hello there\n")).unwrap();
    assert_eq!(m.prefix, Some(s("src")));
    assert_eq!(m.command, "PRIVMSG");
    assert_eq!(m.params, vec![s("bob"), s("hello there")]);
}

#[test]
fn stream_with_prefix_and_nothing_else_is_invalid() {
    assert_eq!(parse_stream(s(":src\r\n")), Err("invalid prefix"));
}

#[test]
fn stream_with_prefix_and_empty_command() {
    let m = parse_stream(s(":src \r\n")).unwrap();
    assert_eq!(m.prefix, Some(s("src")));
    assert_eq!(m.command, "");
    assert!(m.params.is_empty());
}

#[test]
fn empty_stream_is_an_error() {
    assert_eq!(parse_stream(s("")), Err("empty message"));
    assert_eq!(parse_stream(s("\r\n")), Err("empty message"));
    assert_eq!(parse_stream(s("\n")), Err("empty message"));
}

#[test]
fn stream_without_terminator() {
    let m = parse_stream(s("PING")).unwrap();
    assert_eq!(m.command, "PING");
    assert!(m.params.is_empty());
}

#[test]
fn only_the_terminator_is_stripped() {
    let m = parse_stream(s("QUIT :bye  \r\n")).unwrap();
    assert_eq!(m.params, vec![s("bye  ")]);
    let m = parse_stream(s("QUIT :bye\r\r\n")).unwrap();
    assert_eq!(m.params, vec![s("bye\r")]);
    let m = parse_stream(s("QUIT :bye\n\n")).unwrap();
    assert_eq!(m.params, vec![s("bye\n")]);
}

#[test]
fn a_space_at_the_end_adds_no_parameter() {
    let m = parse_stream(s("NICK alice \r\n")).unwrap();
    assert_eq!(m.params, vec![s("alice")]);
}

#[test]
fn two_spaces_make_an_empty_parameter() {
    let m = parse_stream(s("NICK  alice\r\n")).unwrap();
    assert_eq!(m.params, vec![s(""), s("alice")]);
}

#[test]
fn long_parameter_may_be_empty_and_may_hold_colons() {
    let m = parse_stream(s("PRIVMSG bob :\r\n")).unwrap();
    assert_eq!(m.params, vec![s("bob"), s("")]);
    let m = parse_stream(s("PRIVMSG bob ::a :b\r\n")).unwrap();
    assert_eq!(m.params, vec![s("bob"), s(":a :b")]);
}

#[test]
fn parameters_may_hold_more_than_ascii() {
    let m = parse_stream(s("PRIVMSG zoë :grüß dich ✓\r\n")).unwrap();
    assert_eq!(m.command, "PRIVMSG");
    assert_eq!(m.params, vec![s("zoë"), s("grüß dich ✓")]);
}

#[test]
fn nick_with_one_parameter() {
    assert_eq!(parse_message(s("NICK alice\r\n")), Ok(Command::Nick(s("alice"))));
}

#[test]
fn nick_with_another_number_of_parameters() {
    assert_eq!(parse_message(s("NICK\r\n")), Err("NICK needs 1 parameter"));
    assert_eq!(parse_message(s("NICK a b\r\n")), Err("NICK needs 1 parameter"));
    assert_eq!(parse_message(s("NICK  a\r\n")), Err("NICK needs 1 parameter"));
}

#[test]
fn user_takes_first_second_and_fourth_parameter() {
    assert_eq!(
        parse_message(s("USER alice 0 * :Alice A\r\n")),
        Ok(Command::User(User::new(s("alice"), s("0"), s("Alice A"))))
    );
    assert_eq!(
        parse_message(s("USER alice 8 some.host :Alice A\r\n")),
        Ok(Command::User(User::new(s("alice"), s("8"), s("Alice A"))))
    );
}

#[test]
fn user_with_another_number_of_parameters() {
    assert_eq!(parse_message(s("USER\r\n")), Err("USER needs 4 parameters"));
    assert_eq!(parse_message(s("USER alice 0 *\r\n")), Err("USER needs 4 parameters"));
    assert_eq!(parse_message(s("USER a 0 * b c\r\n")), Err("USER needs 4 parameters"));
}

#[test]
fn quit_without_parameter_has_the_default_message() {
    assert_eq!(parse_message(s("QUIT\r\n")), Ok(Command::Quit(s("Client Quit"))));
}

#[test]
fn quit_with_message() {
    assert_eq!(parse_message(s("QUIT :bye\r\n")), Ok(Command::Quit(s("bye"))));
    assert_eq!(parse_message(s("QUIT bye\r\n")), Ok(Command::Quit(s("bye"))));
}

#[test]
fn quit_with_two_parameters() {
    assert_eq!(parse_message(s("QUIT a b\r\n")), Err("Quit needs at most one parameter"));
}

#[test]
fn privmsg_and_notice() {
    assert_eq!(
        parse_message(s("PRIVMSG bob :hello\r\n")),
        Ok(Command::Privmsg(s("bob"), s("hello")))
    );
    assert_eq!(
        parse_message(s("NOTICE bob :hello you\r\n")),
        Ok(Command::Notice(s("bob"), s("hello you")))
    );
    assert_eq!(parse_message(s("PRIVMSG bob\r\n")), Err("PRIVMSG needs 2 parameters"));
    assert_eq!(parse_message(s("NOTICE bob a b\r\n")), Err("NOTICE needs 2 parameters"));
}

#[test]
fn commands_that_take_any_parameters() {
    assert_eq!(parse_message(s("PING\r\n")), Ok(Command::Ping));
    assert_eq!(parse_message(s("PING 127.0.0.1\r\n")), Ok(Command::Ping));
    assert_eq!(parse_message(s("PONG x y\r\n")), Ok(Command::Pong));
    assert_eq!(parse_message(s("MOTD\r\n")), Ok(Command::Motd));
    assert_eq!(parse_message(s("LUSERS a\r\n")), Ok(Command::Lusers));
}

#[test]
fn whois_line() {
    assert_eq!(parse_message(s("WHOIS bob\r\n")), Ok(Command::Whois(s("bob"))));
    assert_eq!(parse_message(s("WHOIS\r\n")), Err("WHOIS needs 1 parameter"));
    assert_eq!(parse_message(s("WHOIS a b\r\n")), Err("WHOIS needs 1 parameter"));
}

#[test]
fn any_other_word_is_unknown() {
    assert_eq!(parse_message(s("JOIN #room\r\n")), Ok(Command::Unknown(s("JOIN"))));
    assert_eq!(parse_message(s("nick alice\r\n")), Ok(Command::Unknown(s("nick"))));
    assert_eq!(parse_message(s(":src \r\n")), Ok(Command::Unknown(s(""))));
}

#[test]
fn prefix_is_ignored() {
    assert_eq!(parse_message(s(":me NICK alice\r\n")), Ok(Command::Nick(s("alice"))));
}

#[test]
fn errors_of_the_stream_come_through() {
    assert_eq!(parse_message(s("")), Err("empty message"));
    assert_eq!(parse_message(s(":prefix")), Err("invalid prefix"));
}
