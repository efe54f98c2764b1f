//! The registry that all connections share: who holds which nickname,
//! who has given a user record, whose mailbox holds what, and how many
//! clients are fully registered.
//!
//! `RegistryView` is the mathematical state, with every operation as a
//! function from state to state and the invariant that the workers keep.
//! `Registry` is the executable state; each of its operations is proved
//! to do to the view what the function of the same name says.

use crate::addr::PeerAddr;
use crate::parser::{User, UserView};
use crate::table::{holds_nick, without_owner, NickTable, PeerTable};
use crate::text::texts;
use vstd::prelude::*;

verus! {

/// How far a client has come on its way to registration.
#[derive(Clone, Copy, Debug, PartialEq, Eq, Structural)]
pub enum Phase {
    /// neither nickname nor user record
    Start,
    /// a nickname, no user record
    HaveNick,
    /// a user record, no nickname
    HaveUser,
    /// both
    Registered,
}

/// The state of the registry.
#[verifier::ext_equal]
pub struct RegistryView {
    /// nickname -> the peer that holds it
    pub nick_index: Map<Seq<char>, PeerAddr>,
    /// peer -> the user record it gave
    pub user_records: Map<PeerAddr, UserView>,
    /// peer -> the lines posted to it and not yet taken, oldest first
    pub mailboxes: Map<PeerAddr, Seq<Seq<char>>>,
    /// the number of fully registered clients
    pub registered_count: nat,
}

impl RegistryView {
    /// The registry with nothing in it.
    pub open spec fn empty() -> Self {
        RegistryView {
            nick_index: Map::empty(),
            user_records: Map::empty(),
            mailboxes: Map::empty(),
            registered_count: 0,
        }
    }

    /// `peer` holds at least one nickname.
    pub open spec fn has_nick(self, peer: PeerAddr) -> bool {
        holds_nick(self.nick_index, peer)
    }

    /// `peer` has given a user record.
    pub open spec fn has_user(self, peer: PeerAddr) -> bool {
        self.user_records.contains_key(peer)
    }

    /// `peer` has a mailbox: its connection was accepted and not dropped.
    pub open spec fn connected(self, peer: PeerAddr) -> bool {
        self.mailboxes.contains_key(peer)
    }

    /// `peer` has both a user record and a nickname.
    pub open spec fn is_registered(self, peer: PeerAddr) -> bool {
        self.has_user(peer) && self.has_nick(peer)
    }

    /// How far `peer` has come.
    pub open spec fn phase(self, peer: PeerAddr) -> Phase {
        if self.has_nick(peer) {
            if self.has_user(peer) {
                Phase::Registered
            } else {
                Phase::HaveNick
            }
        } else {
            if self.has_user(peer) {
                Phase::HaveUser
            } else {
                Phase::Start
            }
        }
    }

    /// The peers that are fully registered.
    pub open spec fn registered_peers(self) -> Set<PeerAddr> {
        self.user_records.dom().filter(|p: PeerAddr| self.has_nick(p))
    }

    /// The number of connections.
    pub open spec fn client_count(self) -> nat {
        self.mailboxes.dom().len()
    }

    /// The three maps are finite.
    pub open spec fn finite(self) -> bool {
        &&& self.nick_index.dom().finite()
        &&& self.user_records.dom().finite()
        &&& self.mailboxes.dom().finite()
    }

    /// The counter is the number of peers that have both a user record
    /// and a nickname.
    pub open spec fn count_is_exact(self) -> bool {
        self.registered_count == self.registered_peers().len()
    }

    /// Only connected peers hold nicknames or have user records.
    pub open spec fn footprint_is_connected(self) -> bool {
        &&& forall|n: Seq<char>| #[trigger]
            self.nick_index.contains_key(n) ==> self.connected(self.nick_index[n])
        &&& forall|p: PeerAddr| #[trigger] self.user_records.contains_key(p) ==> self.connected(p)
    }

    /// What holds of the registry between any two steps of any worker.
    pub open spec fn inv(self) -> bool {
        &&& self.finite()
        &&& self.count_is_exact()
        &&& self.footprint_is_connected()
    }

    /// `peer` has no entry in any of the three maps.
    pub open spec fn no_trace_of(self, peer: PeerAddr) -> bool {
        &&& !self.has_nick(peer)
        &&& !self.has_user(peer)
        &&& !self.connected(peer)
    }

    /// `nick` goes to `peer` unless somebody holds it.
    pub open spec fn claim_nick(self, peer: PeerAddr, nick: Seq<char>) -> Self {
        if self.nick_index.contains_key(nick) {
            self
        } else {
            RegistryView { nick_index: self.nick_index.insert(nick, peer), ..self }
        }
    }

    /// `record` becomes the user record of `peer`, in place of any it had.
    pub open spec fn set_user(self, peer: PeerAddr, record: UserView) -> Self {
        RegistryView { user_records: self.user_records.insert(peer, record), ..self }
    }

    /// One registered client more.
    pub open spec fn increment_registered(self) -> Self {
        RegistryView { registered_count: self.registered_count + 1, ..self }
    }

    /// One registered client less.
    pub open spec fn decrement_registered(self) -> Self {
        RegistryView { registered_count: (self.registered_count - 1) as nat, ..self }
    }

    /// `peer` gets an empty mailbox.
    pub open spec fn register_mailbox(self, peer: PeerAddr) -> Self {
        RegistryView { mailboxes: self.mailboxes.insert(peer, Seq::empty()), ..self }
    }

    /// The mailbox of `peer` goes, with what it held.
    pub open spec fn unregister_mailbox(self, peer: PeerAddr) -> Self {
        RegistryView { mailboxes: self.mailboxes.remove(peer), ..self }
    }

    /// `line` is put last into the mailbox of `to`, if `to` has one.
    pub open spec fn post(self, to: PeerAddr, line: Seq<char>) -> Self {
        if self.connected(to) {
            RegistryView {
                mailboxes: self.mailboxes.insert(to, self.mailboxes[to].push(line)),
                ..self
            }
        } else {
            self
        }
    }

    /// The lines that wait for `peer`, oldest first.
    pub open spec fn pending(self, peer: PeerAddr) -> Seq<Seq<char>> {
        if self.connected(peer) {
            self.mailboxes[peer]
        } else {
            Seq::empty()
        }
    }

    /// The mailbox of `peer` is emptied.
    pub open spec fn drain(self, peer: PeerAddr) -> Self {
        if self.connected(peer) {
            RegistryView { mailboxes: self.mailboxes.insert(peer, Seq::empty()), ..self }
        } else {
            self
        }
    }

    /// The peer whose mailbox a line for `nick` goes to, if the nickname
    /// is held and its holder has a mailbox.
    pub open spec fn mailbox_of_nick(self, nick: Seq<char>) -> Option<PeerAddr> {
        if self.nick_index.contains_key(nick) && self.connected(self.nick_index[nick]) {
            Some(self.nick_index[nick])
        } else {
            None
        }
    }

    /// The holder of `nick` and its user record, if the nickname is held
    /// and its holder has given one.
    pub open spec fn whois(self, nick: Seq<char>) -> Option<(PeerAddr, UserView)> {
        if self.nick_index.contains_key(nick) && self.has_user(self.nick_index[nick]) {
            Some((self.nick_index[nick], self.user_records[self.nick_index[nick]]))
        } else {
            None
        }
    }

    /// The step of a worker on `NICK`: the nickname is claimed, and where
    /// this makes `peer` fully registered the counter goes up by one.
    pub open spec fn nick(self, peer: PeerAddr, nick: Seq<char>) -> Self {
        let claimed = self.claim_nick(peer, nick);
        if claimed.is_registered(peer) && !self.is_registered(peer) {
            claimed.increment_registered()
        } else {
            claimed
        }
    }

    /// The step of a worker on `USER`: the record is stored, and where
    /// this makes `peer` fully registered the counter goes up by one.
    pub open spec fn user(self, peer: PeerAddr, record: UserView) -> Self {
        let stored = self.set_user(peer, record);
        if stored.is_registered(peer) && !self.is_registered(peer) {
            stored.increment_registered()
        } else {
            stored
        }
    }

    /// Every entry of `peer` goes from all three maps, and the counter
    /// goes down by one if `peer` was fully registered.
    pub open spec fn drop_peer(self, peer: PeerAddr) -> Self {
        RegistryView {
            nick_index: without_owner(self.nick_index, peer),
            user_records: self.user_records.remove(peer),
            mailboxes: self.mailboxes.remove(peer),
            registered_count: if self.is_registered(peer) && self.registered_count > 0 {
                (self.registered_count - 1) as nat
            } else {
                self.registered_count
            },
        }
    }

    /// The registered peers are among those with a user record, and, under
    /// the invariant, among the connected ones.
    pub proof fn lemma_registered_bounds(self)
        requires
            self.finite(),
        ensures
            self.registered_peers().finite(),
            self.registered_peers().len() <= self.user_records.dom().len(),
            self.footprint_is_connected() ==> self.registered_peers().len()
                <= self.client_count(),
    {
        self.user_records.dom().lemma_len_filter(|p: PeerAddr| self.has_nick(p));
        if self.footprint_is_connected() {
            assert(self.registered_peers().subset_of(self.mailboxes.dom()));
            vstd::set_lib::lemma_len_subset(self.registered_peers(), self.mailboxes.dom());
        }
    }

    /// Under the invariant a peer without a mailbox has no entry at all.
    pub proof fn lemma_unconnected_has_no_trace(self, peer: PeerAddr)
        requires
            self.inv(),
            !self.connected(peer),
        ensures
            self.no_trace_of(peer),
            !self.register_mailbox(peer).has_nick(peer),
    {
    }

    /// The empty registry satisfies the invariant.
    pub proof fn lemma_empty_inv()
        ensures
            Self::empty().inv(),
    {
        let s = Self::empty();
        assert(s.registered_peers() =~= Set::empty());
    }

    /// A worker's step on `NICK` keeps the invariant.
    pub proof fn lemma_nick_inv(self, peer: PeerAddr, nick: Seq<char>)
        requires
            self.inv(),
            self.connected(peer),
        ensures
            self.nick(peer, nick).inv(),
            self.nick(peer, nick).registered_count == self.registered_count + (if !self.nick_index.contains_key(
                nick,
            ) && self.has_user(peer) && !self.has_nick(peer) {
                1nat
            } else {
                0nat
            }),
    {
        let s2 = self.nick(peer, nick);
        self.lemma_registered_bounds();
        if !self.nick_index.contains_key(nick) {
            let c = self.claim_nick(peer, nick);
            assert(c.nick_index.contains_key(nick) && c.nick_index[nick] == peer);
            assert(c.has_nick(peer));
            assert forall|q: PeerAddr| c.has_nick(q) == (self.has_nick(q) || q == peer) by {
                if self.has_nick(q) {
                    let m = choose|m: Seq<char>| #[trigger]
                        self.nick_index.contains_key(m) && self.nick_index[m] == q;
                    assert(c.nick_index.contains_key(m) && c.nick_index[m] == q);
                }
                if c.has_nick(q) && q != peer {
                    let m = choose|m: Seq<char>| #[trigger]
                        c.nick_index.contains_key(m) && c.nick_index[m] == q;
                    assert(self.nick_index.contains_key(m) && self.nick_index[m] == q);
                }
            }
            if self.has_user(peer) {
                assert(s2.registered_peers() =~= self.registered_peers().insert(peer));
            } else {
                assert(s2.registered_peers() =~= self.registered_peers());
            }
        }
    }

    /// A worker's step on `USER` keeps the invariant.
    pub proof fn lemma_user_inv(self, peer: PeerAddr, record: UserView)
        requires
            self.inv(),
            self.connected(peer),
        ensures
            self.user(peer, record).inv(),
            self.user(peer, record).registered_count == self.registered_count + (if self.has_nick(
                peer,
            ) && !self.has_user(peer) {
                1nat
            } else {
                0nat
            }),
    {
        let s2 = self.user(peer, record);
        self.lemma_registered_bounds();
        assert(s2.user_records.dom() =~= self.user_records.dom().insert(peer));
        if self.has_nick(peer) {
            assert(s2.registered_peers() =~= self.registered_peers().insert(peer));
        } else {
            assert(s2.registered_peers() =~= self.registered_peers());
        }
    }

    /// Dropping a peer keeps the invariant and leaves no trace of it.
    pub proof fn lemma_drop_peer_inv(self, peer: PeerAddr)
        requires
            self.inv(),
        ensures
            self.drop_peer(peer).inv(),
            self.drop_peer(peer).no_trace_of(peer),
            self.drop_peer(peer).registered_count == self.registered_count - (if self.is_registered(
                peer,
            ) {
                1int
            } else {
                0int
            }),
    {
        let s2 = self.drop_peer(peer);
        self.lemma_registered_bounds();
        assert(s2.nick_index.dom().subset_of(self.nick_index.dom()));
        vstd::set_lib::lemma_len_subset(s2.nick_index.dom(), self.nick_index.dom());
        assert forall|q: PeerAddr| s2.has_nick(q) == (self.has_nick(q) && q != peer) by {
            if self.has_nick(q) && q != peer {
                let m = choose|m: Seq<char>| #[trigger]
                    self.nick_index.contains_key(m) && self.nick_index[m] == q;
                assert(s2.nick_index.contains_key(m) && s2.nick_index[m] == q);
            }
            if s2.has_nick(q) {
                let m = choose|m: Seq<char>| #[trigger]
                    s2.nick_index.contains_key(m) && s2.nick_index[m] == q;
                assert(self.nick_index.contains_key(m) && self.nick_index[m] == q);
            }
        }
        assert(s2.registered_peers() =~= self.registered_peers().remove(peer));
        if self.is_registered(peer) {
            assert(self.registered_peers().contains(peer));
        }
    }

    /// Accepting a connection keeps the invariant.
    pub proof fn lemma_register_mailbox_inv(self, peer: PeerAddr)
        requires
            self.inv(),
        ensures
            self.register_mailbox(peer).inv(),
    {
        let s2 = self.register_mailbox(peer);
        assert(s2.registered_peers() =~= self.registered_peers());
    }

    /// Posting a line keeps the invariant.
    pub proof fn lemma_post_inv(self, to: PeerAddr, line: Seq<char>)
        requires
            self.inv(),
        ensures
            self.post(to, line).inv(),
    {
        let s2 = self.post(to, line);
        assert(s2.registered_peers() =~= self.registered_peers());
        assert(s2.mailboxes.dom() =~= self.mailboxes.dom());
    }

    /// Emptying a mailbox keeps the invariant.
    pub proof fn lemma_drain_inv(self, peer: PeerAddr)
        requires
            self.inv(),
        ensures
            self.drain(peer).inv(),
    {
        let s2 = self.drain(peer);
        assert(s2.registered_peers() =~= self.registered_peers());
        assert(s2.mailboxes.dom() =~= self.mailboxes.dom());
    }
}

/// The registry itself. One value of it is shared by all workers, behind
/// one lock: every method is one critical section.
pub struct Registry {
    nicknames: NickTable,
    users: PeerTable<User>,
    phonebook: PeerTable<Vec<String>>,
    num_known_users: usize,
}

impl View for Registry {
    type V = RegistryView;

    closed spec fn view(&self) -> RegistryView {
        RegistryView {
            nick_index: self.nicknames@,
            user_records: self.users@.map_values(|u: User| u@),
            mailboxes: self.phonebook@.map_values(|q: Vec<String>| texts(q@)),
            registered_count: self.num_known_users as nat,
        }
    }
}

impl Registry {
    /// The tables are in order.
    pub closed spec fn wf(&self) -> bool {
        &&& self.nicknames.wf()
        &&& self.users.wf()
        &&& self.phonebook.wf()
    }

    /// A registry in order has finite maps and a counter that fits.
    pub proof fn lemma_wf(&self)
        requires
            self.wf(),
        ensures
            self@.finite(),
            self@.registered_count <= usize::MAX,
            self@.user_records.dom().len() <= usize::MAX,
            self@.client_count() <= usize::MAX,
    {
        self.nicknames.lemma_finite();
        self.users.lemma_finite();
        self.phonebook.lemma_finite();
        self.users.lemma_len_fits();
        self.phonebook.lemma_len_fits();
        assert(self@.user_records.dom() =~= self.users@.dom());
        assert(self@.mailboxes.dom() =~= self.phonebook@.dom());
    }

    /// The registry with nothing in it.
    pub fn new() -> (r: Self)
        ensures
            r.wf(),
            r@ == RegistryView::empty(),
    {
        let r = Registry {
            nicknames: NickTable::new(),
            users: PeerTable::new(),
            phonebook: PeerTable::new(),
            num_known_users: 0,
        };
        assert(r@ =~= RegistryView::empty());
        r
    }

    /// Gives `nick` to `peer` unless somebody holds it, and says whether
    /// it did.
    pub fn claim_nick(&mut self, peer: PeerAddr, nick: &String) -> (claimed: bool)
        requires
            old(self).wf(),
        ensures
            final(self).wf(),
            claimed == !old(self)@.nick_index.contains_key(nick@),
            final(self)@ == old(self)@.claim_nick(peer, nick@),
    {
        match self.nicknames.lookup(nick) {
            Some(_) => false,
            None => {
                self.nicknames.add(nick.clone(), peer);
                assert(self@ =~= old(self)@.claim_nick(peer, nick@));
                true
            },
        }
    }

    /// Stores `user` as the record of `peer`, in place of any it had.
    pub fn set_user(&mut self, peer: PeerAddr, user: User)
        requires
            old(self).wf(),
        ensures
            final(self).wf(),
            final(self)@ == old(self)@.set_user(peer, user@),
    {
        self.users.put(peer, user);
        assert(self@ =~= old(self)@.set_user(peer, user@));
    }

    /// Whether `peer` holds a nickname.
    pub fn has_nick(&self, peer: PeerAddr) -> (r: bool)
        requires
            self.wf(),
        ensures
            r == self@.has_nick(peer),
    {
        self.nicknames.owns_any(peer)
    }

    /// Whether `peer` has given a user record.
    pub fn has_user(&self, peer: PeerAddr) -> (r: bool)
        requires
            self.wf(),
        ensures
            r == self@.has_user(peer),
    {
        self.users.contains(peer)
    }

    /// Whether `peer` has a mailbox.
    pub fn is_connected(&self, peer: PeerAddr) -> (r: bool)
        requires
            self.wf(),
        ensures
            r == self@.connected(peer),
    {
        self.phonebook.contains(peer)
    }

    /// Whether `peer` has both a user record and a nickname.
    pub fn is_registered(&self, peer: PeerAddr) -> (r: bool)
        requires
            self.wf(),
        ensures
            r == self@.is_registered(peer),
    {
        self.users.contains(peer) && self.nicknames.owns_any(peer)
    }

    /// How far `peer` has come on its way to registration.
    pub fn phase(&self, peer: PeerAddr) -> (r: Phase)
        requires
            self.wf(),
        ensures
            r == self@.phase(peer),
    {
        if self.nicknames.owns_any(peer) {
            if self.users.contains(peer) {
                Phase::Registered
            } else {
                Phase::HaveNick
            }
        } else {
            if self.users.contains(peer) {
                Phase::HaveUser
            } else {
                Phase::Start
            }
        }
    }

    /// The login name in the user record of `peer`, if it has given one.
    pub fn user_name(&self, peer: PeerAddr) -> (r: Option<String>)
        requires
            self.wf(),
        ensures
            match r {
                Some(name) => self@.has_user(peer) && name@ == self@.user_records[peer].user,
                None => !self@.has_user(peer),
            },
    {
        match self.users.get(peer) {
            Some(u) => Some(u.user.clone()),
            None => None,
        }
    }

    /// Counts one registered client more.
    pub fn increment_registered(&mut self)
        requires
            old(self).wf(),
            old(self)@.registered_count < usize::MAX,
        ensures
            final(self).wf(),
            final(self)@ == old(self)@.increment_registered(),
    {
        self.num_known_users = self.num_known_users + 1;
        assert(self@ =~= old(self)@.increment_registered());
    }

    /// Counts one registered client less.
    pub fn decrement_registered(&mut self)
        requires
            old(self).wf(),
            old(self)@.registered_count > 0,
        ensures
            final(self).wf(),
            final(self)@ == old(self)@.decrement_registered(),
    {
        self.num_known_users = self.num_known_users - 1;
        assert(self@ =~= old(self)@.decrement_registered());
    }

    /// The peer to whose mailbox a line for `nick` goes: the holder of the
    /// nickname, if it has a mailbox.
    pub fn lookup_mailbox_by_nick(&self, nick: &String) -> (r: Option<PeerAddr>)
        requires
            self.wf(),
        ensures
            r == self@.mailbox_of_nick(nick@),
    {
        match self.nicknames.lookup(nick) {
            Some(peer) => {
                if self.phonebook.contains(peer) {
                    Some(peer)
                } else {
                    None
                }
            },
            None => None,
        }
    }

    /// The holder of `nick` and a copy of its user record.
    pub fn whois_snapshot(&self, nick: &String) -> (r: Option<(PeerAddr, User)>)
        requires
            self.wf(),
        ensures
            match r {
                Some((peer, user)) => self@.whois(nick@) == Some((peer, user@)),
                None => self@.whois(nick@) is None,
            },
    {
        match self.nicknames.lookup(nick) {
            Some(peer) => {
                match self.users.get(peer) {
                    Some(u) => Some((peer, u.clone())),
                    None => None,
                }
            },
            None => None,
        }
    }

    /// Removes every entry of `peer`, and counts one registered client
    /// less if `peer` was one.
    pub fn drop_peer(&mut self, peer: PeerAddr)
        requires
            old(self).wf(),
        ensures
            final(self).wf(),
            final(self)@ == old(self)@.drop_peer(peer),
    {
        let registered = self.is_registered(peer);
        self.nicknames.release(peer);
        let _ = self.users.take(peer);
        let _ = self.phonebook.take(peer);
        if registered && self.num_known_users > 0 {
            self.num_known_users = self.num_known_users - 1;
        }
        assert(self@ =~= old(self)@.drop_peer(peer));
    }

    /// Gives `peer` an empty mailbox, in place of any it had.
    pub fn register_mailbox(&mut self, peer: PeerAddr)
        requires
            old(self).wf(),
        ensures
            final(self).wf(),
            final(self)@ == old(self)@.register_mailbox(peer),
    {
        self.phonebook.put(peer, Vec::new());
        assert(texts(Seq::<String>::empty()) =~= Seq::empty());
        assert(self@ =~= old(self)@.register_mailbox(peer));
    }

    /// Removes the mailbox of `peer`.
    pub fn unregister_mailbox(&mut self, peer: PeerAddr)
        requires
            old(self).wf(),
        ensures
            final(self).wf(),
            final(self)@ == old(self)@.unregister_mailbox(peer),
    {
        let _ = self.phonebook.take(peer);
        assert(self@ =~= old(self)@.unregister_mailbox(peer));
    }

    /// Puts `line` last into the mailbox of `to`, and says whether `to`
    /// had a mailbox to put it in.
    pub fn post(&mut self, to: PeerAddr, line: String) -> (delivered: bool)
        requires
            old(self).wf(),
        ensures
            final(self).wf(),
            delivered == old(self)@.connected(to),
            final(self)@ == old(self)@.post(to, line@),
    {
        match self.phonebook.take(to) {
            Some(mut queue) => {
                let ghost before = queue@;
                queue.push(line);
                assert(texts(queue@) =~= texts(before).push(line@));
                self.phonebook.put(to, queue);
                assert(self@ =~= old(self)@.post(to, line@));
                true
            },
            None => {
                assert(self@ =~= old(self)@);
                false
            },
        }
    }

    /// Takes the lines that wait for `peer` out of its mailbox, oldest
    /// first.
    pub fn drain(&mut self, peer: PeerAddr) -> (lines: Vec<String>)
        requires
            old(self).wf(),
        ensures
            final(self).wf(),
            texts(lines@) == old(self)@.pending(peer),
            final(self)@ == old(self)@.drain(peer),
    {
        match self.phonebook.take(peer) {
            Some(queue) => {
                self.phonebook.put(peer, Vec::new());
                assert(texts(Seq::<String>::empty()) =~= Seq::empty());
                assert(self@ =~= old(self)@.drain(peer));
                queue
            },
            None => {
                assert(self@ =~= old(self)@);
                let lines: Vec<String> = Vec::new();
                assert(texts(lines@) =~= Seq::empty());
                lines
            },
        }
    }

    /// The number of fully registered clients.
    pub fn registered_count(&self) -> (n: usize)
        requires
            self.wf(),
        ensures
            n == self@.registered_count,
    {
        self.num_known_users
    }

    /// The number of connections.
    pub fn client_count(&self) -> (n: usize)
        requires
            self.wf(),
        ensures
            n == self@.client_count(),
    {
        assert(self@.mailboxes.dom() =~= self.phonebook@.dom());
        self.phonebook.len()
    }
}

} // verus!
