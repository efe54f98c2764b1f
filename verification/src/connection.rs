//! The worker of one connection: what the server does on each command
//! of its client.
//!
//! The worker does no input or output of its own. It is handed the line
//! that was read, changes the shared registry in one step, and hands back
//! the lines to write. `ConnectionView::step` states, for every command,
//! the new state of the worker, the new state of the registry and the
//! lines written; the handlers are proved to do exactly that.

use crate::addr::PeerAddr;
use crate::motd::{chunk_texts, motd_chunks};
use crate::parser::{parse, parse_message, Command, CommandView, User, UserView};
use crate::registry::{Registry, RegistryView};
use crate::replies;
use crate::text::texts;
use vstd::prelude::*;

verus! {

/// The state of a worker.
pub struct ConnectionView {
    /// the nickname that the client asked for last, granted or not
    pub nickname: Option<Seq<char>>,
    /// the server's end of the connection
    pub local_addr: PeerAddr,
    /// the client's end of the connection
    pub peer_addr: PeerAddr,
}

/// What a step of a worker hands back.
#[verifier::ext_equal]
pub struct OutcomeView {
    /// the lines to write to the client, in this order
    pub replies: Seq<Seq<char>>,
    /// after them the message of the day is due
    pub motd_due: bool,
    /// after them the connection is closed
    pub closing: bool,
}

/// A step of a worker: its own state, the registry and the outcome.
pub struct Step {
    pub conn: ConnectionView,
    pub reg: RegistryView,
    pub out: OutcomeView,
}

impl OutcomeView {
    /// Lines to write, and nothing else.
    pub open spec fn say(replies: Seq<Seq<char>>) -> Self {
        OutcomeView { replies, motd_due: false, closing: false }
    }
}

/// The commands that the server takes from registered clients only.
pub open spec fn needs_registration(cmd: CommandView) -> bool {
    match cmd {
        CommandView::Nick(_) => false,
        CommandView::User(_) => false,
        CommandView::Quit(_) => false,
        CommandView::Ping => false,
        CommandView::Pong => false,
        _ => true,
    }
}

impl ConnectionView {
    /// The server's name in replies: its own address.
    pub open spec fn srv(self) -> Seq<char> {
        self.local_addr.text()
    }

    /// The client's nickname in replies.
    pub open spec fn me(self) -> Seq<char> {
        match self.nickname {
            Some(n) => n,
            None => Seq::empty(),
        }
    }

    /// The same worker with `nick` as its nickname.
    pub open spec fn with_nick(self, nick: Seq<char>) -> Self {
        ConnectionView { nickname: Some(nick), ..self }
    }

    /// The worker belongs to a connection of `reg`: its peer has a mailbox
    /// there, and any nickname that its peer holds was asked for through
    /// this worker.
    pub open spec fn attached(self, reg: RegistryView) -> bool {
        &&& reg.connected(self.peer_addr)
        &&& reg.has_nick(self.peer_addr) ==> self.nickname is Some
    }

    /// The worker can take `cmd`: it is attached, and registered where the
    /// command asks for that.
    pub open spec fn ready_for(self, reg: RegistryView, cmd: CommandView) -> bool {
        &&& self.attached(reg)
        &&& needs_registration(cmd) ==> reg.is_registered(self.peer_addr)
    }

    /// The replies 251 to 255.
    pub open spec fn lusers(self, reg: RegistryView) -> Seq<Seq<char>> {
        seq![
            replies::luserclient(self.srv(), self.me(), reg.registered_count),
            replies::luserop(self.srv(), self.me()),
            replies::luserunknown(
                self.srv(),
                self.me(),
                (reg.client_count() - reg.registered_count) as nat,
            ),
            replies::luserchannels(self.srv(), self.me()),
            replies::luserme(self.srv(), self.me(), reg.client_count()),
        ]
    }

    /// What a client gets when it becomes registered: 001 to 004 and
    /// 251 to 255. The message of the day follows.
    pub open spec fn welcome_burst(self, reg: RegistryView) -> Seq<Seq<char>> {
        seq![
            replies::welcome(
                self.srv(),
                self.me(),
                reg.user_records[self.peer_addr].user,
                self.peer_addr.text(),
            ),
            replies::yourhost(self.srv(), self.me()),
            replies::created(self.srv(), self.me()),
            replies::myinfo(self.srv(), self.me()),
        ] + self.lusers(reg)
    }

    /// The message of the day: 422 where there is no file; else 375, one
    /// 372 for each piece of the file, and 376.
    pub open spec fn motd_burst(self, file: Option<Seq<u8>>) -> Seq<Seq<char>> {
        match file {
            None => seq![replies::nomotd(self.srv(), self.me())],
            Some(content) => seq![replies::motdstart(self.srv(), self.me())] + chunk_texts(
                content,
            ).map_values(|t: Seq<char>| replies::motd(self.srv(), self.me(), t)) + seq![
                replies::endofmotd(self.srv(), self.me()),
            ],
        }
    }

    /// `NICK`: the worker takes the nickname as its own in any case. If
    /// somebody holds it, 433 is written and the registry stays as it is.
    /// Else the registry enters it, and a client that is registered by
    /// this is welcomed.
    pub open spec fn on_nick(self, reg: RegistryView, nick: Seq<char>) -> Step {
        let conn = self.with_nick(nick);
        if reg.nick_index.contains_key(nick) {
            Step {
                conn,
                reg,
                out: OutcomeView::say(seq![replies::nicknameinuse(self.srv(), nick)]),
            }
        } else {
            let reg2 = reg.nick(self.peer_addr, nick);
            if reg2.is_registered(self.peer_addr) && !reg.is_registered(self.peer_addr) {
                Step {
                    conn,
                    reg: reg2,
                    out: OutcomeView {
                        replies: conn.welcome_burst(reg2),
                        motd_due: true,
                        closing: false,
                    },
                }
            } else {
                Step { conn, reg: reg2, out: OutcomeView::say(Seq::empty()) }
            }
        }
    }

    /// `USER`: the registry stores the record, and a client that is
    /// registered by this is welcomed.
    pub open spec fn on_user(self, reg: RegistryView, record: UserView) -> Step {
        let reg2 = reg.user(self.peer_addr, record);
        if reg2.is_registered(self.peer_addr) && !reg.is_registered(self.peer_addr) {
            Step {
                conn: self,
                reg: reg2,
                out: OutcomeView {
                    replies: self.welcome_burst(reg2),
                    motd_due: true,
                    closing: false,
                },
            }
        } else {
            Step { conn: self, reg: reg2, out: OutcomeView::say(Seq::empty()) }
        }
    }

    /// `QUIT`: the peer is dropped from the registry, and the closing line
    /// is the last that is written.
    pub open spec fn on_quit(self, reg: RegistryView, message: Seq<char>) -> Step {
        Step {
            conn: self,
            reg: reg.drop_peer(self.peer_addr),
            out: OutcomeView {
                replies: seq![replies::closing_link(self.peer_addr.text(), message)],
                motd_due: false,
                closing: true,
            },
        }
    }

    /// `PRIVMSG` and `NOTICE`: the line goes into the mailbox of the
    /// holder of `target`. Where nobody is there to get it, `PRIVMSG`
    /// is answered with 401 and `NOTICE` with nothing.
    pub open spec fn on_relay(
        self,
        reg: RegistryView,
        verb: Seq<char>,
        target: Seq<char>,
        text: Seq<char>,
        answer: bool,
    ) -> Step {
        match reg.mailbox_of_nick(target) {
            Some(to) => Step {
                conn: self,
                reg: reg.post(
                    to,
                    replies::relayed(
                        self.me(),
                        reg.user_records[self.peer_addr].user,
                        self.srv(),
                        verb,
                        target,
                        text,
                    ),
                ),
                out: OutcomeView::say(Seq::empty()),
            },
            None => Step {
                conn: self,
                reg,
                out: OutcomeView::say(
                    if answer {
                        seq![replies::nosuchnick(self.srv(), self.me(), target)]
                    } else {
                        Seq::empty()
                    },
                ),
            },
        }
    }

    /// `WHOIS`: 311, 312 and 318 about the holder of `target`, or 401.
    pub open spec fn on_whois(self, reg: RegistryView, target: Seq<char>) -> Step {
        Step {
            conn: self,
            reg,
            out: OutcomeView::say(
                match reg.whois(target) {
                    Some((peer, user)) => seq![
                        replies::whoisuser(
                            self.srv(),
                            self.me(),
                            target,
                            user.user,
                            peer.text(),
                            user.realname,
                        ),
                        replies::whoisserver(self.srv(), self.me(), target, peer.text()),
                        replies::endofwhois(self.srv(), self.me(), target),
                    ],
                    None => seq![replies::nosuchnick(self.srv(), self.me(), target)],
                },
            ),
        }
    }

    /// What the worker does on `cmd`.
    pub open spec fn step(self, reg: RegistryView, cmd: CommandView) -> Step {
        match cmd {
            CommandView::Nick(nick) => self.on_nick(reg, nick),
            CommandView::User(record) => self.on_user(reg, record),
            CommandView::Quit(message) => self.on_quit(reg, message),
            CommandView::Privmsg(target, text) => self.on_relay(
                reg,
                "PRIVMSG"@,
                target,
                text,
                true,
            ),
            CommandView::Notice(target, text) => self.on_relay(
                reg,
                "NOTICE"@,
                target,
                text,
                false,
            ),
            CommandView::Ping => Step {
                conn: self,
                reg,
                out: OutcomeView::say(seq![replies::pong(self.srv())]),
            },
            CommandView::Pong => Step { conn: self, reg, out: OutcomeView::say(Seq::empty()) },
            CommandView::Motd => Step {
                conn: self,
                reg,
                out: OutcomeView { replies: Seq::empty(), motd_due: true, closing: false },
            },
            CommandView::Lusers => Step {
                conn: self,
                reg,
                out: OutcomeView::say(self.lusers(reg)),
            },
            CommandView::Whois(target) => self.on_whois(reg, target),
            CommandView::Unknown(word) => Step {
                conn: self,
                reg,
                out: OutcomeView::say(
                    seq![replies::unknowncommand(self.srv(), self.me(), word)],
                ),
            },
        }
    }

    /// A step keeps the invariant of the registry, and the worker stays
    /// attached until it closes.
    pub proof fn lemma_step_inv(self, reg: RegistryView, cmd: CommandView)
        requires
            reg.inv(),
            self.ready_for(reg, cmd),
        ensures
            self.step(reg, cmd).reg.inv(),
            !self.step(reg, cmd).out.closing ==> self.step(reg, cmd).conn.attached(
                self.step(reg, cmd).reg,
            ),
            self.step(reg, cmd).out.closing ==> self.step(reg, cmd).reg.no_trace_of(
                self.peer_addr,
            ),
    {
        let peer = self.peer_addr;
        match cmd {
            CommandView::Nick(nick) => {
                reg.lemma_nick_inv(peer, nick);
            },
            CommandView::User(record) => {
                reg.lemma_user_inv(peer, record);
            },
            CommandView::Quit(_) => {
                reg.lemma_drop_peer_inv(peer);
            },
            CommandView::Privmsg(target, text) => {
                match reg.mailbox_of_nick(target) {
                    Some(to) => {
                        reg.lemma_post_inv(
                            to,
                            replies::relayed(
                                self.me(),
                                reg.user_records[peer].user,
                                self.srv(),
                                "PRIVMSG"@,
                                target,
                                text,
                            ),
                        );
                    },
                    None => {},
                }
            },
            CommandView::Notice(target, text) => {
                match reg.mailbox_of_nick(target) {
                    Some(to) => {
                        reg.lemma_post_inv(
                            to,
                            replies::relayed(
                                self.me(),
                                reg.user_records[peer].user,
                                self.srv(),
                                "NOTICE"@,
                                target,
                                text,
                            ),
                        );
                    },
                    None => {},
                }
            },
            _ => {},
        }
    }
}

/// What a step of a worker hands back.
#[derive(Debug)]
pub struct Outcome {
    /// the lines to write to the client, in this order
    pub replies: Vec<String>,
    /// after them the message of the day is due: `handle_motd` makes it
    pub motd_due: bool,
    /// after them the connection is closed
    pub closing: bool,
}

impl View for Outcome {
    type V = OutcomeView;

    open spec fn view(&self) -> OutcomeView {
        OutcomeView {
            replies: texts(self.replies@),
            motd_due: self.motd_due,
            closing: self.closing,
        }
    }
}

/// What became of a line that a client sent.
#[derive(Debug)]
pub enum Reaction {
    /// The line held a command, and the worker took it.
    Handled(Outcome),
    /// The line held no command; the text says why. Nothing was changed.
    Malformed(&'static str),
    /// The line held a command that the worker was not ready for.
    /// Nothing was changed.
    NotReady,
}

/// Puts `reply` behind the lines that are to be written.
pub fn write_reply(out: &mut Vec<String>, reply: String)
    ensures
        texts(final(out)@) == texts(old(out)@).push(reply@),
{
    out.push(reply);
    assert(texts(out@) =~= texts(old(out)@).push(reply@));
}

/// The worker of one connection.
pub struct Connection {
    my_nickname: Option<String>,
    local_addr: PeerAddr,
    peer_addr: PeerAddr,
}

impl View for Connection {
    type V = ConnectionView;

    closed spec fn view(&self) -> ConnectionView {
        ConnectionView {
            nickname: match self.my_nickname {
                Some(n) => Some(n@),
                None => None,
            },
            local_addr: self.local_addr,
            peer_addr: self.peer_addr,
        }
    }
}

impl Connection {
    /// The worker of a connection between `local_addr`, the server's end,
    /// and `peer_addr`, the client's. It has no nickname yet.
    pub fn new(local_addr: PeerAddr, peer_addr: PeerAddr) -> (r: Self)
        ensures
            r@ == (ConnectionView { nickname: None, local_addr, peer_addr }),
    {
        Connection { my_nickname: None, local_addr, peer_addr }
    }

    /// The server's end of the connection.
    pub fn local_addr(&self) -> (r: PeerAddr)
        ensures
            r == self@.local_addr,
    {
        self.local_addr
    }

    /// The client's end of the connection.
    pub fn peer_addr(&self) -> (r: PeerAddr)
        ensures
            r == self@.peer_addr,
    {
        self.peer_addr
    }

    /// Whether the client has asked for a nickname yet.
    pub fn has_nickname(&self) -> (r: bool)
        ensures
            r == (self@.nickname is Some),
    {
        self.my_nickname.is_some()
    }

    /// The nickname that the client asked for last.
    pub fn get_nickname(&self) -> (r: String)
        requires
            self@.nickname is Some,
        ensures
            r@ == self@.me(),
    {
        match &self.my_nickname {
            Some(n) => n.clone(),
            None => String::new(),
        }
    }

    /// The login name that the client gave with `USER`.
    pub fn get_user(&self, reg: &Registry) -> (r: String)
        requires
            reg.wf(),
            reg@.has_user(self@.peer_addr),
        ensures
            r@ == reg@.user_records[self@.peer_addr].user,
    {
        match reg.user_name(self.peer_addr) {
            Some(u) => u,
            None => String::new(),
        }
    }

    /// The number of registered clients.
    pub fn get_num_users(&self, reg: &Registry) -> (n: usize)
        requires
            reg.wf(),
        ensures
            n == reg@.registered_count,
    {
        reg.registered_count()
    }

    /// The number of connections.
    pub fn get_num_clients(&self, reg: &Registry) -> (n: usize)
        requires
            reg.wf(),
        ensures
            n == reg@.client_count(),
    {
        reg.client_count()
    }

    /// The number of connections whose client is not registered.
    pub fn get_num_unknown(&self, reg: &Registry) -> (n: usize)
        requires
            reg.wf(),
            reg@.inv(),
        ensures
            n == reg@.client_count() - reg@.registered_count,
    {
        proof {
            reg@.lemma_registered_bounds();
        }
        self.get_num_clients(reg) - self.get_num_users(reg)
    }

    /// Whether the worker is attached to `reg`.
    pub fn is_attached(&self, reg: &Registry) -> (r: bool)
        requires
            reg.wf(),
        ensures
            r == self@.attached(reg@),
    {
        reg.is_connected(self.peer_addr) && (self.my_nickname.is_some() || !reg.has_nick(
            self.peer_addr,
        ))
    }

    /// Whether the worker can take `cmd`.
    pub fn is_ready_for(&self, reg: &Registry, cmd: &Command) -> (r: bool)
        requires
            reg.wf(),
        ensures
            r == self@.ready_for(reg@, cmd@),
    {
        if !self.is_attached(reg) {
            return false;
        }
        match cmd {
            Command::Nick(_) => true,
            Command::User(_) => true,
            Command::Quit(_) => true,
            Command::Ping => true,
            Command::Pong => true,
            _ => reg.is_registered(self.peer_addr),
        }
    }

    /// Writes the replies 251 to 255.
    pub fn handle_lusers(&self, reg: &Registry, out: &mut Vec<String>)
        requires
            reg.wf(),
            reg@.inv(),
            self@.nickname is Some,
        ensures
            texts(final(out)@) == texts(old(out)@) + self@.lusers(reg@),
    {
        let srv = self.local_addr.to_text();
        let nick = self.get_nickname();
        let users = self.get_num_users(reg);
        let unknown = self.get_num_unknown(reg);
        let clients = self.get_num_clients(reg);
        write_reply(out, replies::rpl_luserclient(srv.as_str(), nick.as_str(), users));
        write_reply(out, replies::rpl_luserop(srv.as_str(), nick.as_str()));
        write_reply(out, replies::rpl_luserunknown(srv.as_str(), nick.as_str(), unknown));
        write_reply(out, replies::rpl_luserchannels(srv.as_str(), nick.as_str()));
        write_reply(out, replies::rpl_luserme(srv.as_str(), nick.as_str(), clients));
        assert(texts(out@) =~= texts(old(out)@) + self@.lusers(reg@));
    }

    /// Writes what a client gets when it becomes registered.
    pub fn send_welcome(&self, reg: &Registry, out: &mut Vec<String>)
        requires
            reg.wf(),
            reg@.inv(),
            self@.nickname is Some,
            reg@.has_user(self@.peer_addr),
        ensures
            texts(final(out)@) == texts(old(out)@) + self@.welcome_burst(reg@),
    {
        let srv = self.local_addr.to_text();
        let peer = self.peer_addr.to_text();
        let nick = self.get_nickname();
        let user = self.get_user(reg);
        write_reply(
            out,
            replies::rpl_welcome(srv.as_str(), nick.as_str(), user.as_str(), peer.as_str()),
        );
        write_reply(out, replies::rpl_yourhost(srv.as_str(), nick.as_str()));
        write_reply(out, replies::rpl_created(srv.as_str(), nick.as_str()));
        write_reply(out, replies::rpl_myinfo(srv.as_str(), nick.as_str()));
        self.handle_lusers(reg, out);
        assert(texts(out@) =~= texts(old(out)@) + self@.welcome_burst(reg@));
    }

    /// Takes `NICK`.
    pub fn handle_nick(&mut self, reg: &mut Registry, nick: String) -> (out: Outcome)
        requires
            old(reg).wf(),
            old(reg)@.inv(),
            old(reg)@.connected(old(self)@.peer_addr),
        ensures
            final(reg).wf(),
            final(reg)@.inv(),
            final(self)@ == old(self)@.on_nick(old(reg)@, nick@).conn,
            final(reg)@ == old(self)@.on_nick(old(reg)@, nick@).reg,
            out@ == old(self)@.on_nick(old(reg)@, nick@).out,
    {
        let ghost r0 = reg@;
        let ghost c0 = self@;
        let peer = self.peer_addr;
        proof {
            r0.lemma_nick_inv(peer, nick@);
        }
        self.my_nickname = Some(nick.clone());
        let was_registered = reg.is_registered(peer);
        let claimed = reg.claim_nick(peer, &nick);
        let mut replies: Vec<String> = Vec::new();
        let mut motd_due = false;
        assert(texts(replies@) =~= Seq::empty());
        if !claimed {
            let srv = self.local_addr.to_text();
            write_reply(&mut replies, replies::err_nicknameinuse(srv.as_str(), nick.as_str()));
            assert(texts(replies@) =~= seq![replies::nicknameinuse(c0.srv(), nick@)]);
        } else {
            assert(reg@.nick_index.contains_key(nick@) && reg@.nick_index[nick@] == peer);
            assert(reg@.has_nick(peer));
            if !was_registered && reg.has_user(peer) {
                proof {
                    let r2 = r0.nick(peer, nick@);
                    r2.lemma_registered_bounds();
                    reg.lemma_wf();
                    assert(r2.user_records == reg@.user_records);
                }
                reg.increment_registered();
                assert(reg@ == r0.nick(peer, nick@));
                self.send_welcome(reg, &mut replies);
                motd_due = true;
                assert(texts(replies@) =~= self@.welcome_burst(reg@));
            } else {
                assert(reg@ == r0.nick(peer, nick@));
            }
        }
        Outcome { replies, motd_due, closing: false }
    }

    /// Takes `USER`.
    pub fn handle_user(&mut self, reg: &mut Registry, user: User) -> (out: Outcome)
        requires
            old(reg).wf(),
            old(reg)@.inv(),
            old(self)@.attached(old(reg)@),
        ensures
            final(reg).wf(),
            final(reg)@.inv(),
            final(self)@ == old(self)@.on_user(old(reg)@, user@).conn,
            final(reg)@ == old(self)@.on_user(old(reg)@, user@).reg,
            out@ == old(self)@.on_user(old(reg)@, user@).out,
    {
        let ghost r0 = reg@;
        let ghost record = user@;
        let peer = self.peer_addr;
        proof {
            r0.lemma_user_inv(peer, record);
        }
        let was_registered = reg.is_registered(peer);
        reg.set_user(peer, user);
        let mut replies: Vec<String> = Vec::new();
        let mut motd_due = false;
        assert(texts(replies@) =~= Seq::empty());
        if !was_registered && reg.has_nick(peer) {
            proof {
                let r2 = r0.user(peer, record);
                r2.lemma_registered_bounds();
                reg.lemma_wf();
                assert(r2.user_records == reg@.user_records);
            }
            reg.increment_registered();
            assert(reg@ == r0.user(peer, record));
            self.send_welcome(reg, &mut replies);
            motd_due = true;
            assert(texts(replies@) =~= self@.welcome_burst(reg@));
        } else {
            assert(reg@ == r0.user(peer, record));
        }
        Outcome { replies, motd_due, closing: false }
    }

    /// Takes `QUIT`.
    pub fn handle_quit(&self, reg: &mut Registry, quit_message: String) -> (out: Outcome)
        requires
            old(reg).wf(),
            old(reg)@.inv(),
        ensures
            final(reg).wf(),
            final(reg)@.inv(),
            final(reg)@.no_trace_of(self@.peer_addr),
            final(reg)@ == self@.on_quit(old(reg)@, quit_message@).reg,
            out@ == self@.on_quit(old(reg)@, quit_message@).out,
    {
        proof {
            reg@.lemma_drop_peer_inv(self.peer_addr);
        }
        reg.drop_peer(self.peer_addr);
        let peer = self.peer_addr.to_text();
        let mut replies: Vec<String> = Vec::new();
        assert(texts(replies@) =~= Seq::empty());
        write_reply(&mut replies, replies::rpl_quit(peer.as_str(), quit_message.as_str()));
        assert(texts(replies@) =~= seq![
            replies::closing_link(self@.peer_addr.text(), quit_message@),
        ]);
        Outcome { replies, motd_due: false, closing: true }
    }

    fn relay(&self, reg: &mut Registry, verb: &str, target: String, text: String, answer: bool)
        -> (out: Outcome)
        requires
            old(reg).wf(),
            old(reg)@.inv(),
            self@.nickname is Some,
            old(reg)@.has_user(self@.peer_addr),
        ensures
            final(reg).wf(),
            final(reg)@.inv(),
            final(reg)@ == self@.on_relay(old(reg)@, verb@, target@, text@, answer).reg,
            out@ == self@.on_relay(old(reg)@, verb@, target@, text@, answer).out,
    {
        let ghost r0 = reg@;
        let srv = self.local_addr.to_text();
        let nick = self.get_nickname();
        let mut replies: Vec<String> = Vec::new();
        assert(texts(replies@) =~= Seq::empty());
        match reg.lookup_mailbox_by_nick(&target) {
            Some(to) => {
                let user = self.get_user(reg);
                let line = replies::relay_line(
                    nick.as_str(),
                    user.as_str(),
                    srv.as_str(),
                    verb,
                    target.as_str(),
                    text.as_str(),
                );
                proof {
                    r0.lemma_post_inv(to, line@);
                }
                let _ = reg.post(to, line);
            },
            None => {
                if answer {
                    write_reply(
                        &mut replies,
                        replies::err_nosuchnick(srv.as_str(), nick.as_str(), target.as_str()),
                    );
                    assert(texts(replies@) =~= seq![
                        replies::nosuchnick(self@.srv(), self@.me(), target@),
                    ]);
                }
            },
        }
        Outcome { replies, motd_due: false, closing: false }
    }

    /// Takes `PRIVMSG`.
    pub fn handle_privmsg(&self, reg: &mut Registry, target: String, text: String) -> (out:
        Outcome)
        requires
            old(reg).wf(),
            old(reg)@.inv(),
            self@.nickname is Some,
            old(reg)@.has_user(self@.peer_addr),
        ensures
            final(reg).wf(),
            final(reg)@.inv(),
            final(reg)@ == self@.on_relay(old(reg)@, "PRIVMSG"@, target@, text@, true).reg,
            out@ == self@.on_relay(old(reg)@, "PRIVMSG"@, target@, text@, true).out,
    {
        self.relay(reg, "PRIVMSG", target, text, true)
    }

    /// Takes `NOTICE`.
    pub fn handle_notice(&self, reg: &mut Registry, target: String, text: String) -> (out:
        Outcome)
        requires
            old(reg).wf(),
            old(reg)@.inv(),
            self@.nickname is Some,
            old(reg)@.has_user(self@.peer_addr),
        ensures
            final(reg).wf(),
            final(reg)@.inv(),
            final(reg)@ == self@.on_relay(old(reg)@, "NOTICE"@, target@, text@, false).reg,
            out@ == self@.on_relay(old(reg)@, "NOTICE"@, target@, text@, false).out,
    {
        self.relay(reg, "NOTICE", target, text, false)
    }

    /// Takes `PING`.
    pub fn handle_ping(&self) -> (out: Outcome)
        ensures
            out@ == OutcomeView::say(seq![replies::pong(self@.srv())]),
    {
        let srv = self.local_addr.to_text();
        let mut replies: Vec<String> = Vec::new();
        assert(texts(replies@) =~= Seq::empty());
        write_reply(&mut replies, replies::rpl_pong(srv.as_str()));
        assert(texts(replies@) =~= seq![replies::pong(self@.srv())]);
        Outcome { replies, motd_due: false, closing: false }
    }

    /// Takes `WHOIS`.
    pub fn handle_whois(&self, reg: &Registry, target: String) -> (out: Outcome)
        requires
            reg.wf(),
            self@.nickname is Some,
        ensures
            out@ == self@.on_whois(reg@, target@).out,
    {
        let srv = self.local_addr.to_text();
        let nick = self.get_nickname();
        let mut replies: Vec<String> = Vec::new();
        assert(texts(replies@) =~= Seq::empty());
        match reg.whois_snapshot(&target) {
            Some((target_addr, target_user)) => {
                let host = target_addr.to_text();
                write_reply(
                    &mut replies,
                    replies::rpl_whoisuser(
                        srv.as_str(),
                        nick.as_str(),
                        target.as_str(),
                        target_user.user.as_str(),
                        host.as_str(),
                        target_user.realname.as_str(),
                    ),
                );
                write_reply(
                    &mut replies,
                    replies::rpl_whoisserver(
                        srv.as_str(),
                        nick.as_str(),
                        target.as_str(),
                        host.as_str(),
                    ),
                );
                write_reply(
                    &mut replies,
                    replies::rpl_endofwhois(srv.as_str(), nick.as_str(), target.as_str()),
                );
                assert(texts(replies@) =~= self@.on_whois(reg@, target@).out.replies);
            },
            None => {
                write_reply(
                    &mut replies,
                    replies::err_nosuchnick(srv.as_str(), nick.as_str(), target.as_str()),
                );
                assert(texts(replies@) =~= self@.on_whois(reg@, target@).out.replies);
            },
        }
        Outcome { replies, motd_due: false, closing: false }
    }

    /// Answers a command word that the server does not know with 421.
    pub fn send_err_unknowncommand(&self, cmd: String) -> (out: Outcome)
        requires
            self@.nickname is Some,
        ensures
            out@ == OutcomeView::say(
                seq![replies::unknowncommand(self@.srv(), self@.me(), cmd@)],
            ),
    {
        let srv = self.local_addr.to_text();
        let nick = self.get_nickname();
        let mut replies: Vec<String> = Vec::new();
        assert(texts(replies@) =~= Seq::empty());
        write_reply(
            &mut replies,
            replies::err_unknowncommand(srv.as_str(), nick.as_str(), cmd.as_str()),
        );
        assert(texts(replies@) =~= seq![
            replies::unknowncommand(self@.srv(), self@.me(), cmd@),
        ]);
        Outcome { replies, motd_due: false, closing: false }
    }

    /// The message of the day, made of the bytes of the file, or of the
    /// fact that there is no file.
    pub fn handle_motd(&self, file: Option<&[u8]>) -> (lines: Vec<String>)
        requires
            self@.nickname is Some,
        ensures
            texts(lines@) == self@.motd_burst(
                match file {
                    Some(content) => Some(content@),
                    None => None,
                },
            ),
    {
        let srv = self.local_addr.to_text();
        let nick = self.get_nickname();
        let mut lines: Vec<String> = Vec::new();
        assert(texts(lines@) =~= Seq::empty());
        match file {
            None => {
                write_reply(&mut lines, replies::err_nomotd(srv.as_str(), nick.as_str()));
                assert(texts(lines@) =~= self@.motd_burst(None));
            },
            Some(content) => {
                let ghost wrap = |t: Seq<char>| replies::motd(self@.srv(), self@.me(), t);
                let chunks = motd_chunks(content);
                write_reply(&mut lines, replies::rpl_motd_start(srv.as_str(), nick.as_str()));
                let mut i: usize = 0;
                while i < chunks.len()
                    invariant
                        i <= chunks@.len(),
                        srv@ == self@.srv(),
                        nick@ == self@.me(),
                        wrap == |t: Seq<char>| replies::motd(self@.srv(), self@.me(), t),
                        texts(lines@) =~= seq![replies::motdstart(self@.srv(), self@.me())]
                            + texts(chunks@).take(i as int).map_values(wrap),
                    decreases chunks@.len() - i,
                {
                    let ghost before = texts(lines@);
                    write_reply(
                        &mut lines,
                        replies::rpl_motd(srv.as_str(), nick.as_str(), chunks[i].as_str()),
                    );
                    assert(texts(chunks@).take(i + 1).map_values(wrap) =~= texts(chunks@).take(
                        i as int,
                    ).map_values(wrap).push(wrap(chunks@[i as int]@)));
                    i = i + 1;
                }
                assert(texts(chunks@).take(i as int) =~= texts(chunks@));
                write_reply(&mut lines, replies::rpl_motd_end(srv.as_str(), nick.as_str()));
                assert(texts(lines@) =~= self@.motd_burst(Some(content@)));
            },
        }
        lines
    }

    /// Takes a command that the worker is ready for.
    pub fn handle_command(&mut self, reg: &mut Registry, cmd: Command) -> (out: Outcome)
        requires
            old(reg).wf(),
            old(reg)@.inv(),
            old(self)@.ready_for(old(reg)@, cmd@),
        ensures
            final(reg).wf(),
            final(reg)@.inv(),
            final(self)@ == old(self)@.step(old(reg)@, cmd@).conn,
            final(reg)@ == old(self)@.step(old(reg)@, cmd@).reg,
            out@ == old(self)@.step(old(reg)@, cmd@).out,
            !out.closing ==> final(self)@.attached(final(reg)@),
    {
        proof {
            self@.lemma_step_inv(reg@, cmd@);
        }
        match cmd {
            Command::Nick(nick) => self.handle_nick(reg, nick),
            Command::User(user) => self.handle_user(reg, user),
            Command::Quit(quit_message) => self.handle_quit(reg, quit_message),
            Command::Privmsg(target, text) => self.handle_privmsg(reg, target, text),
            Command::Notice(target, text) => self.handle_notice(reg, target, text),
            Command::Ping => self.handle_ping(),
            Command::Pong => {
                let replies: Vec<String> = Vec::new();
                assert(texts(replies@) =~= Seq::empty());
                Outcome { replies, motd_due: false, closing: false }
            },
            Command::Motd => {
                let replies: Vec<String> = Vec::new();
                assert(texts(replies@) =~= Seq::empty());
                Outcome { replies, motd_due: true, closing: false }
            },
            Command::Lusers => {
                let mut replies: Vec<String> = Vec::new();
                assert(texts(replies@) =~= Seq::empty());
                self.handle_lusers(reg, &mut replies);
                assert(texts(replies@) =~= self@.lusers(reg@));
                Outcome { replies, motd_due: false, closing: false }
            },
            Command::Whois(target) => self.handle_whois(reg, target),
            Command::Unknown(cmd) => self.send_err_unknowncommand(cmd),
        }
    }

    /// Takes one line that the client sent.
    ///
    /// The line is parsed. A line that holds no command, and a command
    /// that the worker is not ready for, change nothing; any other
    /// command is taken as `step` says.
    pub fn handle_client(&mut self, reg: &mut Registry, line: String) -> (r: Reaction)
        requires
            old(reg).wf(),
            old(reg)@.inv(),
        ensures
            final(reg).wf(),
            final(reg)@.inv(),
            match parse(line@) {
                Err(e) => {
                    &&& r matches Reaction::Malformed(text)
                    &&& text@ == e
                    &&& final(self)@ == old(self)@
                    &&& final(reg)@ == old(reg)@
                },
                Ok(cmd) => if old(self)@.ready_for(old(reg)@, cmd) {
                    &&& r matches Reaction::Handled(out)
                    &&& final(self)@ == old(self)@.step(old(reg)@, cmd).conn
                    &&& final(reg)@ == old(self)@.step(old(reg)@, cmd).reg
                    &&& out@ == old(self)@.step(old(reg)@, cmd).out
                } else {
                    &&& r is NotReady
                    &&& final(self)@ == old(self)@
                    &&& final(reg)@ == old(reg)@
                },
            },
    {
        match parse_message(line) {
            Err(e) => Reaction::Malformed(e),
            Ok(cmd) => {
                if self.is_ready_for(reg, &cmd) {
                    Reaction::Handled(self.handle_command(reg, cmd))
                } else {
                    Reaction::NotReady
                }
            },
        }
    }

    /// Takes the lines that wait in the mailbox of this connection, each
    /// with its line terminator, as they are to be written to the client.
    pub fn take_mail(&self, reg: &mut Registry) -> (lines: Vec<String>)
        requires
            old(reg).wf(),
            old(reg)@.inv(),
        ensures
            final(reg).wf(),
            final(reg)@.inv(),
            final(reg)@ == old(reg)@.drain(self@.peer_addr),
            texts(lines@) == old(reg)@.pending(self@.peer_addr).map_values(
                |l: Seq<char>| replies::delivered(l),
            ),
    {
        proof {
            reg@.lemma_drain_inv(self.peer_addr);
        }
        let ghost wrap = |l: Seq<char>| replies::delivered(l);
        let waiting = reg.drain(self.peer_addr);
        let ghost pending = texts(waiting@);
        let mut lines: Vec<String> = Vec::new();
        assert(texts(lines@) =~= Seq::empty());
        let mut i: usize = 0;
        let n = waiting.len();
        while i < n
            invariant
                i <= n,
                n == waiting@.len(),
                pending.len() == n,
                forall|j: int| i <= j < n ==> (#[trigger] waiting@[j])@ == pending[j],
                wrap == |l: Seq<char>| replies::delivered(l),
                texts(lines@) =~= pending.take(i as int).map_values(wrap),
            decreases n - i,
        {
            write_reply(&mut lines, replies::deliver_line(waiting[i].as_str()));
            assert(pending.take(i + 1).map_values(wrap) =~= pending.take(i as int).map_values(
                wrap,
            ).push(wrap(pending[i as int])));
            i = i + 1;
        }
        assert(pending.take(n as int) =~= pending);
        lines
    }

    /// Drops the peer from the registry when the connection has ended
    /// without `QUIT`.
    pub fn disconnect(&self, reg: &mut Registry)
        requires
            old(reg).wf(),
            old(reg)@.inv(),
        ensures
            final(reg).wf(),
            final(reg)@.inv(),
            final(reg)@.no_trace_of(self@.peer_addr),
            final(reg)@ == old(reg)@.drop_peer(self@.peer_addr),
    {
        proof {
            reg@.lemma_drop_peer_inv(self.peer_addr);
        }
        reg.drop_peer(self.peer_addr);
    }
}

} // verus!
