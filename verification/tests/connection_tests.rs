use rustirc::addr::PeerAddr;
use rustirc::connection::{Connection, Outcome, Reaction};
use rustirc::parser::{Command, User};
use rustirc::registry::Registry;
use rustirc::IrcServer;

const S: &str = "127.0.0.1:6667";

fn s(text: &str) -> String {
    text.to_string()
}

fn server_addr() -> PeerAddr {
    PeerAddr::new(127, 0, 0, 1, 6667)
}

fn peer(port: u16) -> PeerAddr {
    PeerAddr::new(127, 0, 0, 1, port)
}

fn connect(server: &mut IrcServer, port: u16) -> Connection {
    server.accept(server_addr(), peer(port)).unwrap()
}

fn send(conn: &mut Connection, reg: &mut Registry, line: &str) -> Outcome {
    match conn.handle_client(reg, s(line)) {
        Reaction::Handled(out) => out,
        other => panic!("line {:?} was not handled: {:?}", line, other),
    }
}

fn register(server: &mut IrcServer, port: u16, nick: &str) -> Connection {
    let mut conn = connect(server, port);
    let out = send(&mut conn, &mut server.registry, &format!("NICK {}\r\n", nick));
    assert!(out.replies.is_empty());
    let out = send(&mut conn, &mut server.registry, &format!("USER {} 0 * :{} Real\r\n", nick, nick));
    assert_eq!(out.replies.len(), 9);
    conn
}

fn lusers(nick: &str, users: usize, unknown: usize, clients: usize) -> Vec<String> {
    vec![
        format!(":{} 251 {} :There are {} users and 0 services on 1 servers\r\n", S, nick, users),
        format!(":{} 252 {} 0 :operator(s) online\r\n", S, nick),
        format!(":{} 253 {} {} :unknown connection(s)\r\n", S, nick, unknown),
        format!(":{} 254 {} 0 :channels formed\r\n", S, nick),
        format!(":{} 255 {} :I have {} clients and 1 servers\r\n", S, nick, clients),
    ]
}

fn welcome(nick: &str, user: &str, port: u16, users: usize, unknown: usize, clients: usize) -> Vec<String> {
    let mut lines = vec![
        format!(
            ":{} 001 {} :Welcome to the Internet Relay Network {}!{}@127.0.0.1:{}\r\n",
            S, nick, nick, user, port
        ),
        format!(":{} 002 {} :Your host is {}, running version 0.1\r\n", S, nick, S),
        format!(":{} 003 {} :This server was created SOMEDATE\r\n", S, nick),
        format!(":{} 004 {} {} 0.1 ao mtov\r\n", S, nick, S),
    ];
    lines.extend(lusers(nick, users, unknown, clients));
    lines
}

#[test]
fn new_connection_has_no_nickname() {
    let conn = Connection::new(server_addr(), peer(5000));
    assert!(!conn.has_nickname());
    assert_eq!(conn.local_addr(), server_addr());
    assert_eq!(conn.peer_addr(), peer(5000));
}

#[test]
fn handshake() {
    let mut server = IrcServer::new(6667);
    let mut alice = connect(&mut server, 5000);
    assert_eq!(server.registry.registered_count(), 0);
    let out = send(&mut alice, &mut server.registry, "NICK alice\r\n");
    assert!(out.replies.is_empty());
    assert!(!out.motd_due);
    assert!(!out.closing);
    assert_eq!(alice.get_nickname(), "alice");
    assert_eq!(server.registry.registered_count(), 0);
    let out = send(&mut alice, &mut server.registry, "USER alice 0 * :Alice A\r\n");
    assert_eq!(out.replies, welcome("alice", "alice", 5000, 1, 0, 1));
    assert!(out.motd_due);
    assert!(!out.closing);
    assert_eq!(server.registry.registered_count(), 1);
    assert!(server.registry.is_registered(peer(5000)));
}

#[test]
fn handshake_with_user_first() {
    let mut server = IrcServer::new(6667);
    let _other = connect(&mut server, 4000);
    let mut alice = connect(&mut server, 5000);
    let out = send(&mut alice, &mut server.registry, "USER al 0 * :Alice A\r\n");
    assert!(out.replies.is_empty());
    assert!(!out.motd_due);
    assert_eq!(server.registry.registered_count(), 0);
    let out = send(&mut alice, &mut server.registry, "NICK alice\r\n");
    assert_eq!(out.replies, welcome("alice", "al", 5000, 1, 1, 2));
    assert!(out.motd_due);
    assert_eq!(server.registry.registered_count(), 1);
}

#[test]
fn welcome_comes_once() {
    let mut server = IrcServer::new(6667);
    let mut alice = register(&mut server, 5000, "alice");
    let out = send(&mut alice, &mut server.registry, "NICK alice2\r\n");
    assert!(out.replies.is_empty());
    assert!(!out.motd_due);
    assert_eq!(alice.get_nickname(), "alice2");
    let out = send(&mut alice, &mut server.registry, "USER other 0 * :Other\r\n");
    assert!(out.replies.is_empty());
    assert!(!out.motd_due);
    assert_eq!(server.registry.registered_count(), 1);
    assert_eq!(alice.get_user(&server.registry), "other");
    assert_eq!(server.registry.lookup_mailbox_by_nick(&s("alice")), Some(peer(5000)));
    assert_eq!(server.registry.lookup_mailbox_by_nick(&s("alice2")), Some(peer(5000)));
}

#[test]
fn nickname_collision() {
    let mut server = IrcServer::new(6667);
    let mut first = connect(&mut server, 5000);
    let mut second = connect(&mut server, 5001);
    let out = send(&mut first, &mut server.registry, "NICK bob\r\n");
    assert!(out.replies.is_empty());
    let out = send(&mut second, &mut server.registry, "NICK bob\r\n");
    assert_eq!(out.replies, vec![format!(":{} 433 * bob :Nickname is already in use\r\n", S)]);
    assert!(!out.motd_due);
    assert!(!server.registry.is_registered(peer(5001)));
    assert!(!server.registry.has_nick(peer(5001)));
    assert_eq!(server.registry.registered_count(), 0);
    assert_eq!(server.registry.lookup_mailbox_by_nick(&s("bob")), Some(peer(5000)));
}

#[test]
fn colliding_nickname_is_still_taken_as_own() {
    let mut server = IrcServer::new(6667);
    let _bob = register(&mut server, 5000, "bob");
    let mut alice = register(&mut server, 5001, "alice");
    let out = send(&mut alice, &mut server.registry, "NICK bob\r\n");
    assert_eq!(out.replies, vec![format!(":{} 433 * bob :Nickname is already in use\r\n", S)]);
    assert_eq!(alice.get_nickname(), "bob");
    assert_eq!(server.registry.lookup_mailbox_by_nick(&s("bob")), Some(peer(5000)));
    assert_eq!(server.registry.lookup_mailbox_by_nick(&s("alice")), Some(peer(5001)));
    assert_eq!(server.registry.registered_count(), 2);
}

#[test]
fn user_after_collision_does_not_register() {
    let mut server = IrcServer::new(6667);
    let _bob = register(&mut server, 5000, "bob");
    let mut other = connect(&mut server, 5001);
    let _ = send(&mut other, &mut server.registry, "NICK bob\r\n");
    let out = send(&mut other, &mut server.registry, "USER o 0 * :Other\r\n");
    assert!(out.replies.is_empty());
    assert!(!out.motd_due);
    assert_eq!(server.registry.registered_count(), 1);
}

#[test]
fn direct_message() {
    let mut server = IrcServer::new(6667);
    let mut alice = register(&mut server, 5000, "alice");
    let bob = register(&mut server, 5001, "bob");
    let out = send(&mut alice, &mut server.registry, "PRIVMSG bob :hello\r\n");
    assert!(out.replies.is_empty());
    assert!(!out.motd_due);
    assert!(!out.closing);
    assert_eq!(alice.take_mail(&mut server.registry), Vec::<String>::new());
    assert_eq!(
        bob.take_mail(&mut server.registry),
        vec![format!(":alice!alice@{} PRIVMSG bob :hello\r\n", S)]
    );
    assert_eq!(bob.take_mail(&mut server.registry), Vec::<String>::new());
}

#[test]
fn messages_arrive_in_the_order_sent() {
    let mut server = IrcServer::new(6667);
    let mut alice = register(&mut server, 5000, "alice");
    let bob = register(&mut server, 5001, "bob");
    let mut carol = register(&mut server, 5002, "carol");
    let _ = send(&mut alice, &mut server.registry, "PRIVMSG bob :one\r\n");
    let _ = send(&mut carol, &mut server.registry, "PRIVMSG bob :between\r\n");
    let _ = send(&mut alice, &mut server.registry, "PRIVMSG bob :two\r\n");
    let first = bob.take_mail(&mut server.registry);
    let _ = send(&mut alice, &mut server.registry, "NOTICE bob :three\r\n");
    let second = bob.take_mail(&mut server.registry);
    assert_eq!(
        first,
        vec![
            format!(":alice!alice@{} PRIVMSG bob :one\r\n", S),
            format!(":carol!carol@{} PRIVMSG bob :between\r\n", S),
            format!(":alice!alice@{} PRIVMSG bob :two\r\n", S),
        ]
    );
    assert_eq!(second, vec![format!(":alice!alice@{} NOTICE bob :three\r\n", S)]);
}

#[test]
fn message_to_self() {
    let mut server = IrcServer::new(6667);
    let mut alice = register(&mut server, 5000, "alice");
    let out = send(&mut alice, &mut server.registry, "PRIVMSG alice :note\r\n");
    assert!(out.replies.is_empty());
    assert_eq!(
        alice.take_mail(&mut server.registry),
        vec![format!(":alice!alice@{} PRIVMSG alice :note\r\n", S)]
    );
}

#[test]
fn unknown_target() {
    let mut server = IrcServer::new(6667);
    let mut alice = register(&mut server, 5000, "alice");
    let out = send(&mut alice, &mut server.registry, "PRIVMSG ghost :hi\r\n");
    assert_eq!(out.replies, vec![format!(":{} 401 alice ghost :No such nick/channel\r\n", S)]);
    let out = send(&mut alice, &mut server.registry, "NOTICE ghost :hi\r\n");
    assert!(out.replies.is_empty());
    assert!(!out.motd_due);
    assert!(!out.closing);
}

#[test]
fn whois_scenario() {
    let mut server = IrcServer::new(6667);
    let mut alice = register(&mut server, 5000, "alice");
    let mut bob = connect(&mut server, 5001);
    let _ = send(&mut bob, &mut server.registry, "NICK bob\r\n");
    let _ = send(&mut bob, &mut server.registry, "USER bobby 0 * :Bob B\r\n");
    let out = send(&mut alice, &mut server.registry, "WHOIS bob\r\n");
    assert_eq!(
        out.replies,
        vec![
            format!(":{} 311 alice bob bobby 127.0.0.1:5001 * :Bob B\r\n", S),
            format!(":{} 312 alice bob 127.0.0.1:5001 :server info\r\n", S),
            format!(":{} 318 alice bob :End of WHOIS list\r\n", S),
        ]
    );
    let out = send(&mut alice, &mut server.registry, "WHOIS ghost\r\n");
    assert_eq!(out.replies, vec![format!(":{} 401 alice ghost :No such nick/channel\r\n", S)]);
}

#[test]
fn whois_of_a_nickname_without_user_record() {
    let mut server = IrcServer::new(6667);
    let mut alice = register(&mut server, 5000, "alice");
    let mut bob = connect(&mut server, 5001);
    let _ = send(&mut bob, &mut server.registry, "NICK bob\r\n");
    let out = send(&mut alice, &mut server.registry, "WHOIS bob\r\n");
    assert_eq!(out.replies, vec![format!(":{} 401 alice bob :No such nick/channel\r\n", S)]);
}

#[test]
fn quit_cleanup() {
    let mut server = IrcServer::new(6667);
    let mut alice = register(&mut server, 5000, "alice");
    assert_eq!(server.registry.registered_count(), 1);
    let out = send(&mut alice, &mut server.registry, "QUIT :bye\r\n");
    assert_eq!(out.replies, vec![s("ERROR :Closing Link: 127.0.0.1:5000 (bye)\r\n")]);
    assert!(out.closing);
    assert!(!out.motd_due);
    assert_eq!(server.registry.registered_count(), 0);
    assert_eq!(server.registry.client_count(), 0);
    assert!(!server.registry.has_nick(peer(5000)));
    assert!(!server.registry.has_user(peer(5000)));
    assert!(!server.registry.is_connected(peer(5000)));
    assert_eq!(server.registry.lookup_mailbox_by_nick(&s("alice")), None);
    assert_eq!(server.registry.whois_snapshot(&s("alice")), None);
}

#[test]
fn quit_without_message() {
    let mut server = IrcServer::new(6667);
    let mut alice = connect(&mut server, 5000);
    let out = send(&mut alice, &mut server.registry, "QUIT\r\n");
    assert_eq!(out.replies, vec![s("ERROR :Closing Link: 127.0.0.1:5000 (Client Quit)\r\n")]);
    assert!(out.closing);
    assert_eq!(server.registry.client_count(), 0);
}

#[test]
fn register_then_quit_restores_the_counter() {
    let mut server = IrcServer::new(6667);
    let _bob = register(&mut server, 5001, "bob");
    let before = server.registry.registered_count();
    let mut alice = register(&mut server, 5000, "alice");
    assert_eq!(server.registry.registered_count(), before + 1);
    let _ = send(&mut alice, &mut server.registry, "QUIT\r\n");
    assert_eq!(server.registry.registered_count(), before);
}

#[test]
fn quit_before_registration_keeps_the_counter() {
    let mut server = IrcServer::new(6667);
    let _bob = register(&mut server, 5001, "bob");
    let mut alice = connect(&mut server, 5000);
    let _ = send(&mut alice, &mut server.registry, "NICK alice\r\n");
    let _ = send(&mut alice, &mut server.registry, "QUIT\r\n");
    assert_eq!(server.registry.registered_count(), 1);
    assert_eq!(server.registry.lookup_mailbox_by_nick(&s("alice")), None);
}

#[test]
fn disconnect_drops_the_peer() {
    let mut server = IrcServer::new(6667);
    let alice = register(&mut server, 5000, "alice");
    alice.disconnect(&mut server.registry);
    assert_eq!(server.registry.registered_count(), 0);
    assert_eq!(server.registry.client_count(), 0);
    assert!(!server.registry.has_nick(peer(5000)));
}

#[test]
fn ping_pong() {
    let mut server = IrcServer::new(6667);
    let mut alice = connect(&mut server, 5000);
    let out = send(&mut alice, &mut server.registry, "PING\r\n");
    assert_eq!(out.replies, vec![format!("PONG {}\r\n", S)]);
    let out = send(&mut alice, &mut server.registry, "PONG\r\n");
    assert!(out.replies.is_empty());
    assert!(!out.motd_due);
    assert!(!out.closing);
}

#[test]
fn lusers_counts_unknown_connections() {
    let mut server = IrcServer::new(6667);
    let mut alice = register(&mut server, 5000, "alice");
    let _bob = register(&mut server, 5001, "bob");
    let _c = connect(&mut server, 5002);
    let _d = connect(&mut server, 5003);
    let _e = connect(&mut server, 5004);
    let out = send(&mut alice, &mut server.registry, "LUSERS\r\n");
    assert_eq!(out.replies, lusers("alice", 2, 3, 5));
    assert_eq!(alice.get_num_users(&server.registry), 2);
    assert_eq!(alice.get_num_unknown(&server.registry), 3);
    assert_eq!(alice.get_num_clients(&server.registry), 5);
}

#[test]
fn unknown_command() {
    let mut server = IrcServer::new(6667);
    let mut alice = register(&mut server, 5000, "alice");
    let out = send(&mut alice, &mut server.registry, "JOIN #room\r\n");
    assert_eq!(out.replies, vec![format!(":{} 421 alice JOIN :Unknown command\r\n", S)]);
}

#[test]
fn motd_command_asks_for_the_message_of_the_day() {
    let mut server = IrcServer::new(6667);
    let mut alice = register(&mut server, 5000, "alice");
    let out = send(&mut alice, &mut server.registry, "MOTD\r\n");
    assert!(out.replies.is_empty());
    assert!(out.motd_due);
    assert!(!out.closing);
}

#[test]
fn motd_without_file() {
    let mut server = IrcServer::new(6667);
    let alice = register(&mut server, 5000, "alice");
    assert_eq!(alice.handle_motd(None), vec![format!(":{} 422 alice :MOTD File is missing\r\n", S)]);
}

#[test]
fn motd_of_an_empty_file() {
    let mut server = IrcServer::new(6667);
    let alice = register(&mut server, 5000, "alice");
    assert_eq!(
        alice.handle_motd(Some(b"")),
        vec![
            format!(":{} 375 alice :- {} Message of the day -\r\n", S, S),
            format!(":{} 376 alice :End of MOTD command\r\n", S),
        ]
    );
}

#[test]
fn motd_in_pieces_of_eighty_bytes() {
    let mut server = IrcServer::new(6667);
    let alice = register(&mut server, 5000, "alice");
    let content = format!("{}{}", "x".repeat(80), "tail\n");
    assert_eq!(
        alice.handle_motd(Some(content.as_bytes())),
        vec![
            format!(":{} 375 alice :- {} Message of the day -\r\n", S, S),
            format!(":{} 372 alice :- {}\r\n", S, "x".repeat(80)),
            format!(":{} 372 alice :- tail\n\r\n", S),
            format!(":{} 376 alice :End of MOTD command\r\n", S),
        ]
    );
}

#[test]
fn malformed_line_changes_nothing() {
    let mut server = IrcServer::new(6667);
    let mut first = connect(&mut server, 5000);
    let _ = send(&mut first, &mut server.registry, "NICK bob\r\n");
    let mut second = connect(&mut server, 5001);
    match second.handle_client(&mut server.registry, s("NICK bob extra\r\n")) {
        Reaction::Malformed(text) => assert_eq!(text, "NICK needs 1 parameter"),
        other => panic!("unexpected: {:?}", other),
    }
    assert!(!second.has_nickname());
    match second.handle_client(&mut server.registry, s("NICK\r\n")) {
        Reaction::Malformed(text) => assert_eq!(text, "NICK needs 1 parameter"),
        other => panic!("unexpected: {:?}", other),
    }
    match second.handle_client(&mut server.registry, s("USER a 0 *\r\n")) {
        Reaction::Malformed(text) => assert_eq!(text, "USER needs 4 parameters"),
        other => panic!("unexpected: {:?}", other),
    }
    assert!(!second.has_nickname());
    assert!(!server.registry.has_user(peer(5001)));
    assert!(!server.registry.has_nick(peer(5001)));
    assert_eq!(server.registry.registered_count(), 0);
    assert_eq!(server.registry.client_count(), 2);
}

#[test]
fn commands_for_registered_clients_wait_for_registration() {
    let mut server = IrcServer::new(6667);
    let _bob = register(&mut server, 5001, "bob");
    let mut alice = connect(&mut server, 5000);
    for line in ["LUSERS\r\n", "MOTD\r\n", "WHOIS bob\r\n", "PRIVMSG bob :hi\r\n", "NOTICE bob :hi\r\n", "JOIN #x\r\n"] {
        assert!(matches!(alice.handle_client(&mut server.registry, s(line)), Reaction::NotReady));
    }
    let _ = send(&mut alice, &mut server.registry, "NICK alice\r\n");
    assert!(matches!(alice.handle_client(&mut server.registry, s("LUSERS\r\n")), Reaction::NotReady));
    assert!(alice.is_ready_for(&server.registry, &Command::Ping));
    assert!(!alice.is_ready_for(&server.registry, &Command::Lusers));
    let _ = send(&mut alice, &mut server.registry, "USER a 0 * :A\r\n");
    assert!(alice.is_ready_for(&server.registry, &Command::Lusers));
    assert_eq!(server.registry.drain(peer(5001)), Vec::<String>::new());
}

#[test]
fn a_worker_without_connection_is_not_ready() {
    let mut reg = Registry::new();
    let mut stray = Connection::new(server_addr(), peer(5000));
    assert!(!stray.is_attached(&reg));
    assert!(matches!(stray.handle_client(&mut reg, s("NICK a\r\n")), Reaction::NotReady));
    assert!(!stray.has_nickname());
    assert!(!reg.has_nick(peer(5000)));
}

#[test]
fn handlers_one_by_one() {
    let mut server = IrcServer::new(6667);
    let mut alice = connect(&mut server, 5000);
    let out = alice.handle_nick(&mut server.registry, s("alice"));
    assert!(out.replies.is_empty());
    let out = alice.handle_user(&mut server.registry, User::new(s("al"), s("0"), s("Alice")));
    assert_eq!(out.replies, welcome("alice", "al", 5000, 1, 0, 1));
    let bob = register(&mut server, 5001, "bob");
    let out = alice.handle_privmsg(&mut server.registry, s("bob"), s("one"));
    assert!(out.replies.is_empty());
    let out = alice.handle_notice(&mut server.registry, s("bob"), s("two"));
    assert!(out.replies.is_empty());
    assert_eq!(
        bob.take_mail(&mut server.registry),
        vec![
            format!(":alice!al@{} PRIVMSG bob :one\r\n", S),
            format!(":alice!al@{} NOTICE bob :two\r\n", S),
        ]
    );
    assert_eq!(alice.handle_ping().replies, vec![format!("PONG {}\r\n", S)]);
    assert_eq!(
        alice.handle_whois(&server.registry, s("nobody")).replies,
        vec![format!(":{} 401 alice nobody :No such nick/channel\r\n", S)]
    );
    assert_eq!(
        alice.send_err_unknowncommand(s("FOO")).replies,
        vec![format!(":{} 421 alice FOO :Unknown command\r\n", S)]
    );
    let mut out = vec![s("first")];
    alice.handle_lusers(&server.registry, &mut out);
    let mut expected = vec![s("first")];
    expected.extend(lusers("alice", 2, 0, 2));
    assert_eq!(out, expected);
    let mut out = Vec::new();
    alice.send_welcome(&server.registry, &mut out);
    assert_eq!(out, welcome("alice", "al", 5000, 2, 0, 2));
    let out = alice.handle_command(&mut server.registry, Command::Quit(s("done")));
    assert!(out.closing);
    let out = bob.handle_quit(&mut server.registry, s("too"));
    assert_eq!(out.replies, vec![s("ERROR :Closing Link: 127.0.0.1:5001 (too)\r\n")]);
    assert_eq!(server.registry.client_count(), 0);
}

fn count_registered(reg: &Registry, ports: &[u16]) -> usize {
    ports.iter().filter(|port| reg.is_registered(peer(**port))).count()
}

fn count_connected(reg: &Registry, ports: &[u16]) -> usize {
    ports.iter().filter(|port| reg.is_connected(peer(**port))).count()
}

#[test]
fn counters_are_exact_after_every_step() {
    let ports = [5000, 5001, 5002, 5003];
    let mut server = IrcServer::new(6667);
    let mut conns: Vec<Connection> = ports.iter().map(|p| connect(&mut server, *p)).collect();
    let script: [(usize, &str); 16] = [
        (0, "NICK a\r\n"),
        (1, "USER b 0 * :B\r\n"),
        (1, "NICK a\r\n"),
        (2, "NICK c\r\n"),
        (0, "USER a 0 * :A\r\n"),
        (1, "NICK b\r\n"),
        (0, "NICK a2\r\n"),
        (2, "PRIVMSG a :hi\r\n"),
        (0, "PRIVMSG b :hi\r\n"),
        (3, "USER d 0 * :D\r\n"),
        (0, "QUIT :bye\r\n"),
        (3, "NICK a\r\n"),
        (2, "QUIT\r\n"),
        (1, "USER b2 0 * :B\r\n"),
        (3, "NICK c\r\n"),
        (1, "QUIT\r\n"),
    ];
    for (who, line) in script {
        let _ = conns[who].handle_client(&mut server.registry, s(line));
        let reg = &server.registry;
        assert_eq!(reg.registered_count(), count_registered(reg, &ports), "after {:?}", line);
        assert_eq!(reg.client_count(), count_connected(reg, &ports), "after {:?}", line);
        for port in ports {
            if reg.has_nick(peer(port)) || reg.has_user(peer(port)) {
                assert!(reg.is_connected(peer(port)));
            }
        }
    }
    assert_eq!(server.registry.registered_count(), 1);
    assert_eq!(server.registry.client_count(), 1);
    assert_eq!(server.registry.lookup_mailbox_by_nick(&s("a")), Some(peer(5003)));
    assert_eq!(server.registry.lookup_mailbox_by_nick(&s("c")), Some(peer(5003)));
    assert_eq!(server.registry.lookup_mailbox_by_nick(&s("a2")), None);
    assert_eq!(server.registry.lookup_mailbox_by_nick(&s("b")), None);
}
