use rustirc::replies::{
    deliver_line, err_nicknameinuse, err_nomotd, err_nosuchnick, err_unknowncommand, relay_line,
    rpl_created, rpl_endofwhois, rpl_luserchannels, rpl_luserclient, rpl_luserme, rpl_luserop,
    rpl_luserunknown, rpl_motd, rpl_motd_end, rpl_motd_start, rpl_myinfo, rpl_pong, rpl_quit,
    rpl_welcome, rpl_whoisserver, rpl_whoisuser, rpl_yourhost,
};

#[test]
fn welcome_replies() {
    assert_eq!(
        rpl_welcome("S", "alice", "al", "127.0.0.1:5000"),
        ":S 001 alice :Welcome to the Internet Relay Network alice!al@127.0.0.1:5000\r\n"
    );
    assert_eq!(rpl_yourhost("S", "alice"), ":S 002 alice :Your host is S, running version 0.1\r\n");
    assert_eq!(rpl_created("S", "alice"), ":S 003 alice :This server was created SOMEDATE\r\n");
    assert_eq!(rpl_myinfo("S", "alice"), ":S 004 alice S 0.1 ao mtov\r\n");
}

#[test]
fn lusers_replies() {
    assert_eq!(
        rpl_luserclient("S", "alice", 12),
        ":S 251 alice :There are 12 users and 0 services on 1 servers\r\n"
    );
    assert_eq!(rpl_luserop("S", "alice"), ":S 252 alice 0 :operator(s) online\r\n");
    assert_eq!(rpl_luserunknown("S", "alice", 3), ":S 253 alice 3 :unknown connection(s)\r\n");
    assert_eq!(rpl_luserchannels("S", "alice"), ":S 254 alice 0 :channels formed\r\n");
    assert_eq!(rpl_luserme("S", "alice", 15), ":S 255 alice :I have 15 clients and 1 servers\r\n");
}

#[test]
fn whois_replies() {
    assert_eq!(
        rpl_whoisuser("S", "alice", "bob", "bobby", "127.0.0.1:5001", "Bob B"),
        ":S 311 alice bob bobby 127.0.0.1:5001 * :Bob B\r\n"
    );
    assert_eq!(
        rpl_whoisserver("S", "alice", "bob", "127.0.0.1:5001"),
        ":S 312 alice bob 127.0.0.1:5001 :server info\r\n"
    );
    assert_eq!(rpl_endofwhois("S", "alice", "bob"), ":S 318 alice bob :End of WHOIS list\r\n");
}

#[test]
fn motd_replies() {
    assert_eq!(rpl_motd("S", "alice", "hello"), ":S 372 alice :- hello\r\n");
    assert_eq!(rpl_motd_start("S", "alice"), ":S 375 alice :- S Message of the day -\r\n");
    assert_eq!(rpl_motd_end("S", "alice"), ":S 376 alice :End of MOTD command\r\n");
    assert_eq!(err_nomotd("S", "alice"), ":S 422 alice :MOTD File is missing\r\n");
}

#[test]
fn error_replies() {
    assert_eq!(err_nosuchnick("S", "alice", "ghost"), ":S 401 alice ghost :No such nick/channel\r\n");
    assert_eq!(err_unknowncommand("S", "alice", "JOIN"), ":S 421 alice JOIN :Unknown command\r\n");
    assert_eq!(err_nicknameinuse("S", "bob"), ":S 433 * bob :Nickname is already in use\r\n");
}

#[test]
fn closing_and_pong() {
    assert_eq!(rpl_quit("127.0.0.1:5000", "bye"), "ERROR :Closing Link: 127.0.0.1:5000 (bye)\r\n");
    assert_eq!(rpl_pong("127.0.0.1:6667"), "PONG 127.0.0.1:6667\r\n");
}

#[test]
fn relayed_lines() {
    assert_eq!(
        relay_line("alice", "al", "S", "PRIVMSG", "bob", "hello"),
        ":alice!al@S PRIVMSG bob :hello"
    );
    assert_eq!(relay_line("alice", "al", "S", "NOTICE", "bob", "hi"), ":alice!al@S NOTICE bob :hi");
    assert_eq!(deliver_line(":alice!al@S PRIVMSG bob :hello"), ":alice!al@S PRIVMSG bob :hello\r\n");
}
