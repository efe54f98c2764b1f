//! What holds of the registry whatever the workers do, in whatever
//! order, and what holds of every step of a worker.
//!
//! The workers change the registry one step at a time: a connection is
//! accepted, a worker takes a command or empties its mailbox, a
//! connection ends. `Op` lists the steps, `apply` says what each does, and
//! `run` is the state after a sequence of them, starting from the empty
//! registry. The first laws are stated of every such sequence; the laws
//! on `ConnectionView` are stated of every command that a worker takes.

use crate::addr::PeerAddr;
use crate::connection::{ConnectionView, OutcomeView};
use crate::parser::{interpret, CommandView, MessageView, UserView};
use crate::registry::{Phase, RegistryView};
use crate::replies;
use crate::wire::lemma_keywords;
use vstd::prelude::*;

verus! {

/// A step on the registry.
pub enum Op {
    /// A connection from this peer is accepted.
    Accept(PeerAddr),
    /// The peer asks for the nickname.
    Nick(PeerAddr, Seq<char>),
    /// The peer gives its user record.
    User(PeerAddr, UserView),
    /// A line is sent to the holder of the nickname.
    Post(Seq<char>, Seq<char>),
    /// The peer takes what waits in its mailbox.
    Drain(PeerAddr),
    /// The peer quits, or its connection ends.
    Quit(PeerAddr),
}

/// The registry after one step. A peer that is connected is not accepted
/// again, and a peer that is not connected has no worker to ask for a
/// nickname or to give a user record.
pub open spec fn apply(s: RegistryView, op: Op) -> RegistryView {
    match op {
        Op::Accept(p) => if s.connected(p) {
            s
        } else {
            s.register_mailbox(p)
        },
        Op::Nick(p, n) => if s.connected(p) {
            s.nick(p, n)
        } else {
            s
        },
        Op::User(p, u) => if s.connected(p) {
            s.user(p, u)
        } else {
            s
        },
        Op::Post(n, line) => match s.mailbox_of_nick(n) {
            Some(to) => s.post(to, line),
            None => s,
        },
        Op::Drain(p) => s.drain(p),
        Op::Quit(p) => s.drop_peer(p),
    }
}

/// The registry after the steps `ops`, taken from `s`.
pub open spec fn run_from(s: RegistryView, ops: Seq<Op>) -> RegistryView
    decreases ops.len(),
{
    if ops.len() == 0 {
        s
    } else {
        apply(run_from(s, ops.drop_last()), ops.last())
    }
}

/// The registry after the steps `ops`, taken from the empty registry.
pub open spec fn run(ops: Seq<Op>) -> RegistryView {
    run_from(RegistryView::empty(), ops)
}

/// Whether, after `ops`, the peer has been accepted and has not quit
/// since.
pub open spec fn is_open(ops: Seq<Op>, p: PeerAddr) -> bool
    decreases ops.len(),
{
    if ops.len() == 0 {
        false
    } else if ops.last() == Op::Accept(p) {
        true
    } else if ops.last() == Op::Quit(p) {
        false
    } else {
        is_open(ops.drop_last(), p)
    }
}

/// Whether, after `ops`, the peer has given a user record over a
/// connection that is still open.
pub open spec fn gave_user(ops: Seq<Op>, p: PeerAddr) -> bool
    decreases ops.len(),
{
    if ops.len() == 0 {
        false
    } else if ops.last() is User && ops.last()->User_0 == p {
        is_open(ops.drop_last(), p)
    } else if ops.last() == Op::Quit(p) {
        false
    } else {
        gave_user(ops.drop_last(), p)
    }
}

/// The peer that, after `ops`, holds the nickname: the first that asked
/// for it over an open connection when nobody held it, until that peer
/// quits.
pub open spec fn holder(ops: Seq<Op>, n: Seq<char>) -> Option<PeerAddr>
    decreases ops.len(),
{
    if ops.len() == 0 {
        None
    } else {
        let before = holder(ops.drop_last(), n);
        match ops.last() {
            Op::Nick(p, m) => if m == n && before is None && is_open(ops.drop_last(), p) {
                Some(p)
            } else {
                before
            },
            Op::Quit(p) => if before == Some(p) {
                None
            } else {
                before
            },
            _ => before,
        }
    }
}

/// The lines that, after `ops`, have been put into the mailbox of the
/// peer since it was accepted, in the order in which they were sent.
pub open spec fn posted(ops: Seq<Op>, p: PeerAddr) -> Seq<Seq<char>>
    decreases ops.len(),
{
    if ops.len() == 0 {
        Seq::empty()
    } else {
        let before = posted(ops.drop_last(), p);
        match ops.last() {
            Op::Accept(q) => if q == p && !is_open(ops.drop_last(), p) {
                Seq::empty()
            } else {
                before
            },
            Op::Quit(q) => if q == p {
                Seq::empty()
            } else {
                before
            },
            Op::Post(n, line) => if run(ops.drop_last()).mailbox_of_nick(n) == Some(p) {
                before.push(line)
            } else {
                before
            },
            _ => before,
        }
    }
}

/// The lines that, after `ops`, the peer has taken out of its mailbox
/// since it was accepted, in the order in which it took them.
pub open spec fn taken(ops: Seq<Op>, p: PeerAddr) -> Seq<Seq<char>>
    decreases ops.len(),
{
    if ops.len() == 0 {
        Seq::empty()
    } else {
        let before = taken(ops.drop_last(), p);
        match ops.last() {
            Op::Accept(q) => if q == p && !is_open(ops.drop_last(), p) {
                Seq::empty()
            } else {
                before
            },
            Op::Quit(q) => if q == p {
                Seq::empty()
            } else {
                before
            },
            Op::Drain(q) => if q == p {
                before + run(ops.drop_last()).pending(p)
            } else {
                before
            },
            _ => before,
        }
    }
}

/// Every step keeps the invariant of the registry.
pub proof fn lemma_apply_inv(s: RegistryView, op: Op)
    requires
        s.inv(),
    ensures
        apply(s, op).inv(),
{
    match op {
        Op::Accept(p) => {
            s.lemma_register_mailbox_inv(p);
        },
        Op::Nick(p, n) => {
            if s.connected(p) {
                s.lemma_nick_inv(p, n);
            }
        },
        Op::User(p, u) => {
            if s.connected(p) {
                s.lemma_user_inv(p, u);
            }
        },
        Op::Post(n, line) => {
            match s.mailbox_of_nick(n) {
                Some(to) => {
                    s.lemma_post_inv(to, line);
                },
                None => {},
            }
        },
        Op::Drain(p) => {
            s.lemma_drain_inv(p);
        },
        Op::Quit(p) => {
            s.lemma_drop_peer_inv(p);
        },
    }
}

/// Any sequence of steps keeps the invariant of the registry.
pub proof fn lemma_run_from_inv(s: RegistryView, ops: Seq<Op>)
    requires
        s.inv(),
    ensures
        run_from(s, ops).inv(),
    decreases ops.len(),
{
    if ops.len() > 0 {
        lemma_run_from_inv(s, ops.drop_last());
        lemma_apply_inv(run_from(s, ops.drop_last()), ops.last());
    }
}

/// In every state that the workers can reach, in whatever order they
/// take their steps:
/// the counter is the number of peers with both a user record and a
/// nickname, and only connected peers have either;
/// a nickname is held by the first peer that asked for it, and by no
/// other, until that peer quits;
/// a peer has a mailbox from the step that accepts it to the step in
/// which it quits;
/// a peer has a user record from the step in which it gives one to the
/// step in which it quits;
/// and a peer that has just quit has no entry left.
pub proof fn lemma_reachable(ops: Seq<Op>)
    ensures
        run(ops).inv(),
        forall|n: Seq<char>| #[trigger]
            run(ops).nick_index.contains_key(n) <==> holder(ops, n) is Some,
        forall|n: Seq<char>| #[trigger]
            run(ops).nick_index.contains_key(n) ==> holder(ops, n) == Some(
                run(ops).nick_index[n],
            ),
        forall|p: PeerAddr| #[trigger] run(ops).connected(p) <==> is_open(ops, p),
        forall|p: PeerAddr| #[trigger] run(ops).has_user(p) <==> gave_user(ops, p),
        forall|p: PeerAddr|
            ops.len() > 0 && ops.last() == Op::Quit(p) ==> #[trigger] run(ops).no_trace_of(p),
    decreases ops.len(),
{
    RegistryView::lemma_empty_inv();
    lemma_run_from_inv(RegistryView::empty(), ops);
    if ops.len() > 0 {
        let before = ops.drop_last();
        let s = run(before);
        lemma_reachable(before);
        match ops.last() {
            Op::Quit(p) => {
                s.lemma_drop_peer_inv(p);
            },
            _ => {},
        }
        assert forall|n: Seq<char>| #[trigger]
            run(ops).nick_index.contains_key(n) implies holder(ops, n) == Some(
            run(ops).nick_index[n],
        ) by {
            if s.nick_index.contains_key(n) {
                assert(holder(before, n) == Some(s.nick_index[n]));
            }
        }
        assert forall|n: Seq<char>| holder(ops, n) is Some implies #[trigger]
            run(ops).nick_index.contains_key(n) by {
            if holder(before, n) is Some {
                assert(s.nick_index.contains_key(n));
                assert(holder(before, n) == Some(s.nick_index[n]));
            }
        }
        assert forall|p: PeerAddr| #[trigger] run(ops).connected(p) <==> is_open(ops, p) by {
            assert(s.connected(p) <==> is_open(before, p));
        }
        assert forall|p: PeerAddr| #[trigger] run(ops).has_user(p) <==> gave_user(ops, p) by {
            assert(s.connected(p) <==> is_open(before, p));
            assert(s.has_user(p) <==> gave_user(before, p));
            assert(s.has_user(p) ==> s.connected(p));
        }
    }
}

/// No step but its own `Quit` takes a peer's registration away.
pub proof fn lemma_registration_lasts(s: RegistryView, op: Op, p: PeerAddr)
    requires
        s.is_registered(p),
        op != Op::Quit(p),
    ensures
        apply(s, op).is_registered(p),
{
    let n = choose|n: Seq<char>| #[trigger] s.nick_index.contains_key(n) && s.nick_index[n] == p;
    let s2 = apply(s, op);
    assert(s2.nick_index.contains_key(n) && s2.nick_index[n] == p);
}

/// No sequence of steps without its own `Quit` takes a peer's
/// registration away.
pub proof fn lemma_registration_lasts_through(s: RegistryView, ops: Seq<Op>, p: PeerAddr)
    requires
        s.is_registered(p),
        forall|i: int| 0 <= i < ops.len() ==> ops[i] != Op::Quit(p),
    ensures
        run_from(s, ops).is_registered(p),
    decreases ops.len(),
{
    if ops.len() > 0 {
        lemma_registration_lasts_through(s, ops.drop_last(), p);
        lemma_registration_lasts(run_from(s, ops.drop_last()), ops.last(), p);
    }
}

/// A peer that registers and later quits leaves the counter where it
/// would be without it: the step that registers the peer adds one, the
/// step in which it quits takes one off, and whatever the counter does in
/// between is the doing of the steps in between. Where those leave the
/// counter as it was, it is back at its value before the peer registered.
pub proof fn lemma_register_then_quit(
    s0: RegistryView,
    registering: Op,
    between: Seq<Op>,
    p: PeerAddr,
)
    requires
        s0.inv(),
        !s0.is_registered(p),
        apply(s0, registering).is_registered(p),
        forall|i: int| 0 <= i < between.len() ==> between[i] != Op::Quit(p),
    ensures
        apply(s0, registering).registered_count == s0.registered_count + 1,
        apply(run_from(apply(s0, registering), between), Op::Quit(p)).registered_count
            == s0.registered_count + (run_from(
            apply(s0, registering),
            between,
        ).registered_count - apply(s0, registering).registered_count),
        run_from(apply(s0, registering), between).registered_count == apply(
            s0,
            registering,
        ).registered_count ==> apply(
            run_from(apply(s0, registering), between),
            Op::Quit(p),
        ).registered_count == s0.registered_count,
{
    let s1 = apply(s0, registering);
    let s2 = run_from(s1, between);
    lemma_apply_inv(s0, registering);
    lemma_run_from_inv(s1, between);
    lemma_registration_lasts_through(s1, between, p);
    s2.lemma_drop_peer_inv(p);
    assert(s1.registered_count == s0.registered_count + 1) by {
        match registering {
            Op::Accept(q) => {
                assert(s1.nick_index == s0.nick_index);
            },
            Op::Nick(q, n) => {
                if s0.connected(q) {
                    s0.lemma_nick_inv(q, n);
                    if q != p || s0.nick_index.contains_key(n) {
                        lemma_has_nick_after_claim(s0, q, n, p);
                    }
                }
            },
            Op::User(q, u) => {
                if s0.connected(q) {
                    s0.lemma_user_inv(q, u);
                }
            },
            Op::Post(n, line) => {
                assert(s1.nick_index == s0.nick_index);
            },
            Op::Drain(q) => {
                assert(s1.nick_index == s0.nick_index);
            },
            Op::Quit(q) => {
                let n = choose|n: Seq<char>| #[trigger]
                    s1.nick_index.contains_key(n) && s1.nick_index[n] == p;
                assert(s0.nick_index.contains_key(n) && s0.nick_index[n] == p);
            },
        }
    }
}

/// After a peer has asked for a nickname, another peer holds a nickname
/// only if it held one before.
proof fn lemma_has_nick_after_claim(s: RegistryView, q: PeerAddr, n: Seq<char>, p: PeerAddr)
    requires
        q != p || s.nick_index.contains_key(n),
        s.nick(q, n).has_nick(p),
    ensures
        s.has_nick(p),
{
    let s1 = s.nick(q, n);
    let m = choose|m: Seq<char>| #[trigger] s1.nick_index.contains_key(m) && s1.nick_index[m] == p;
    assert(s.nick_index.contains_key(m) && s.nick_index[m] == p);
}

/// Lines reach a peer in the order in which they were sent to it: what a
/// peer has taken out of its mailbox, followed by what still waits there,
/// is what was put in, in that order, with nothing lost and nothing
/// twice.
pub proof fn lemma_mailbox_is_fifo(ops: Seq<Op>, p: PeerAddr)
    ensures
        taken(ops, p) + run(ops).pending(p) == posted(ops, p),
    decreases ops.len(),
{
    if ops.len() == 0 {
        assert(taken(ops, p) + run(ops).pending(p) =~= posted(ops, p));
    } else {
        let before = ops.drop_last();
        let s = run(before);
        lemma_mailbox_is_fifo(before, p);
        lemma_reachable(before);
        assert(taken(ops, p) + run(ops).pending(p) =~= posted(ops, p));
    }
}

/// `NICK` with another number of parameters than one, and `USER` with
/// another number than four, are parse errors; `QUIT` without a parameter
/// quits with the message `Client Quit`.
pub proof fn lemma_arity(m: MessageView)
    ensures
        m.command == "NICK"@ && m.params.len() != 1 ==> interpret(m) == Err::<
            CommandView,
            Seq<char>,
        >("NICK needs 1 parameter"@),
        m.command == "USER"@ && m.params.len() != 4 ==> interpret(m) == Err::<
            CommandView,
            Seq<char>,
        >("USER needs 4 parameters"@),
        m.command == "QUIT"@ && m.params.len() == 0 ==> interpret(m) == Ok::<
            CommandView,
            Seq<char>,
        >(CommandView::Quit("Client Quit"@)),
{
    lemma_keywords();
}

impl ConnectionView {
    /// The step on the registry that the worker takes on `cmd`, if it
    /// takes one.
    pub open spec fn effect(self, reg: RegistryView, cmd: CommandView) -> Option<Op> {
        match cmd {
            CommandView::Nick(nick) => Some(Op::Nick(self.peer_addr, nick)),
            CommandView::User(record) => Some(Op::User(self.peer_addr, record)),
            CommandView::Quit(_) => Some(Op::Quit(self.peer_addr)),
            CommandView::Privmsg(target, text) => Some(
                Op::Post(
                    target,
                    replies::relayed(
                        self.me(),
                        reg.user_records[self.peer_addr].user,
                        self.srv(),
                        "PRIVMSG"@,
                        target,
                        text,
                    ),
                ),
            ),
            CommandView::Notice(target, text) => Some(
                Op::Post(
                    target,
                    replies::relayed(
                        self.me(),
                        reg.user_records[self.peer_addr].user,
                        self.srv(),
                        "NOTICE"@,
                        target,
                        text,
                    ),
                ),
            ),
            _ => None,
        }
    }

    /// The way to registration. `NICK` with a free nickname leads from
    /// `Start` to `HaveNick` and from `HaveUser` to `Registered`; with a
    /// nickname that is held it leads nowhere, and 433 is the answer.
    /// `USER` leads from `Start` to `HaveUser` and from `HaveNick` to
    /// `Registered`. `QUIT` leads back to `Start`, and no other command
    /// leads anywhere. The client is welcomed in the step that makes it
    /// `Registered`, and in no other.
    pub proof fn lemma_way_to_registration(self, reg: RegistryView, cmd: CommandView)
        requires
            self.ready_for(reg, cmd),
        ensures
            self.step(reg, cmd).reg.phase(self.peer_addr) == match cmd {
                CommandView::Nick(nick) => if reg.nick_index.contains_key(nick) {
                    reg.phase(self.peer_addr)
                } else {
                    match reg.phase(self.peer_addr) {
                        Phase::Start => Phase::HaveNick,
                        Phase::HaveNick => Phase::HaveNick,
                        Phase::HaveUser => Phase::Registered,
                        Phase::Registered => Phase::Registered,
                    }
                },
                CommandView::User(_) => match reg.phase(self.peer_addr) {
                    Phase::Start => Phase::HaveUser,
                    Phase::HaveUser => Phase::HaveUser,
                    Phase::HaveNick => Phase::Registered,
                    Phase::Registered => Phase::Registered,
                },
                CommandView::Quit(_) => Phase::Start,
                _ => reg.phase(self.peer_addr),
            },
            cmd matches CommandView::Nick(nick) ==> (reg.nick_index.contains_key(nick)
                ==> self.step(reg, cmd).out == OutcomeView::say(
                seq![replies::nicknameinuse(self.srv(), nick)],
            )),
            (reg.phase(self.peer_addr) != Phase::Registered && self.step(reg, cmd).reg.phase(
                self.peer_addr,
            ) == Phase::Registered) <==> (self.step(reg, cmd).out.motd_due && !(cmd
                is Motd)),
            reg.phase(self.peer_addr) != Phase::Registered && self.step(reg, cmd).reg.phase(
                self.peer_addr,
            ) == Phase::Registered ==> self.step(reg, cmd).out.replies == self.step(
                reg,
                cmd,
            ).conn.welcome_burst(self.step(reg, cmd).reg),
    {
        let peer = self.peer_addr;
        let after = self.step(reg, cmd).reg;
        match cmd {
            CommandView::Nick(nick) => {
                if !reg.nick_index.contains_key(nick) {
                    assert(after.nick_index.contains_key(nick) && after.nick_index[nick] == peer);
                }
            },
            CommandView::User(_) => {
                if reg.has_nick(peer) {
                    let n = choose|n: Seq<char>| #[trigger]
                        reg.nick_index.contains_key(n) && reg.nick_index[n] == peer;
                    assert(after.nick_index.contains_key(n) && after.nick_index[n] == peer);
                }
                if after.has_nick(peer) {
                    let n = choose|n: Seq<char>| #[trigger]
                        after.nick_index.contains_key(n) && after.nick_index[n] == peer;
                    assert(reg.nick_index.contains_key(n) && reg.nick_index[n] == peer);
                }
            },
            CommandView::Quit(_) => {
                assert(!after.has_nick(peer)) by {
                    if after.has_nick(peer) {
                        let n = choose|n: Seq<char>| #[trigger]
                            after.nick_index.contains_key(n) && after.nick_index[n] == peer;
                        assert(reg.nick_index[n] != peer);
                    }
                }
            },
            _ => {
                self.lemma_step_is_op(reg, cmd);
                if reg.has_nick(peer) {
                    let n = choose|n: Seq<char>| #[trigger]
                        reg.nick_index.contains_key(n) && reg.nick_index[n] == peer;
                    assert(after.nick_index.contains_key(n) && after.nick_index[n] == peer);
                }
                if after.has_nick(peer) {
                    let n = choose|n: Seq<char>| #[trigger]
                        after.nick_index.contains_key(n) && after.nick_index[n] == peer;
                    assert(reg.nick_index.contains_key(n) && reg.nick_index[n] == peer);
                }
            },
        }
    }

    /// A step of one worker leaves every other worker attached, and
    /// registered if it was.
    pub proof fn lemma_step_spares_others(
        self,
        other: ConnectionView,
        reg: RegistryView,
        cmd: CommandView,
    )
        requires
            self.ready_for(reg, cmd),
            other.peer_addr != self.peer_addr,
            other.attached(reg),
        ensures
            other.attached(self.step(reg, cmd).reg),
            reg.is_registered(other.peer_addr) ==> self.step(reg, cmd).reg.is_registered(
                other.peer_addr,
            ),
    {
        let p = other.peer_addr;
        let after = self.step(reg, cmd).reg;
        self.lemma_step_is_op(reg, cmd);
        if reg.is_registered(p) {
            match self.effect(reg, cmd) {
                Some(op) => {
                    lemma_registration_lasts(reg, op, p);
                },
                None => {},
            }
        }
        if after.has_nick(p) {
            let n = choose|n: Seq<char>| #[trigger]
                after.nick_index.contains_key(n) && after.nick_index[n] == p;
            assert(reg.nick_index.contains_key(n) && reg.nick_index[n] == p);
        }
    }

    /// A file with nothing in it gives 375 and 376, and no 372 between
    /// them.
    pub proof fn lemma_empty_motd(self)
        ensures
            self.motd_burst(Some(Seq::empty())) == seq![
                replies::motdstart(self.srv(), self.me()),
                replies::endofmotd(self.srv(), self.me()),
            ],
    {
        assert(self.motd_burst(Some(Seq::empty())) =~= seq![
            replies::motdstart(self.srv(), self.me()),
            replies::endofmotd(self.srv(), self.me()),
        ]);
    }

    /// A client may send a message to itself: nothing is written in
    /// reply, and the message waits in its own mailbox behind what waited
    /// there.
    pub proof fn lemma_message_to_self(self, reg: RegistryView, nick: Seq<char>, text: Seq<char>)
        requires
            self.attached(reg),
            reg.nick_index.contains_key(nick),
            reg.nick_index[nick] == self.peer_addr,
        ensures
            self.step(reg, CommandView::Privmsg(nick, text)).out == OutcomeView::say(Seq::empty()),
            self.step(reg, CommandView::Privmsg(nick, text)).reg.pending(self.peer_addr)
                == reg.pending(self.peer_addr).push(
                replies::relayed(
                    self.me(),
                    reg.user_records[self.peer_addr].user,
                    self.srv(),
                    "PRIVMSG"@,
                    nick,
                    text,
                ),
            ),
    {
    }

    /// What a worker does to the registry on a command is one step, or
    /// nothing.
    pub proof fn lemma_step_is_op(self, reg: RegistryView, cmd: CommandView)
        requires
            self.ready_for(reg, cmd),
        ensures
            self.step(reg, cmd).reg == match self.effect(reg, cmd) {
                Some(op) => apply(reg, op),
                None => reg,
            },
    {
    }
}

} // verus!
