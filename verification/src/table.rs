//! The two kinds of table that the registry is made of: one keyed by the
//! address of a peer, one keyed by nickname. Each is a list of entries
//! with no key twice, and is seen from outside as a finite map.

use crate::addr::PeerAddr;
use vstd::prelude::*;

verus! {

/// One entry of a `PeerTable`.
pub struct PeerEntry<V> {
    pub peer: PeerAddr,
    pub value: V,
}

/// A finite map from peer addresses to values.
pub struct PeerTable<V> {
    entries: Vec<PeerEntry<V>>,
    model: Ghost<Map<PeerAddr, V>>,
}

impl<V> View for PeerTable<V> {
    type V = Map<PeerAddr, V>;

    closed spec fn view(&self) -> Map<PeerAddr, V> {
        self.model@
    }
}

impl<V> PeerTable<V> {
    /// The entries and the map say the same, and no peer has two entries.
    pub closed spec fn wf(&self) -> bool {
        &&& self.model@.dom().finite()
        &&& self.model@.dom().len() == self.entries@.len()
        &&& forall|i: int|
            0 <= i < self.entries@.len() ==> self.model@.contains_key(
                (#[trigger] self.entries@[i]).peer,
            ) && self.model@[self.entries@[i].peer] == self.entries@[i].value
        &&& forall|i: int, j: int|
            0 <= i < j < self.entries@.len() ==> (#[trigger] self.entries@[i]).peer != (
            #[trigger] self.entries@[j]).peer
        &&& forall|p: PeerAddr|
            self.model@.contains_key(p) ==> exists|i: int|
                0 <= i < self.entries@.len() && (#[trigger] self.entries@[i]).peer == p
    }

    /// A table in order is a finite map.
    pub proof fn lemma_finite(&self)
        requires
            self.wf(),
        ensures
            self@.dom().finite(),
    {
    }

    /// A table in order has no more entries than a machine word counts.
    pub proof fn lemma_len_fits(&self)
        requires
            self.wf(),
        ensures
            self@.dom().len() <= usize::MAX,
    {
        assert(self.entries@.len() == self.entries.len());
    }

    /// The table with nothing in it.
    pub fn new() -> (r: Self)
        ensures
            r.wf(),
            r@ == Map::<PeerAddr, V>::empty(),
    {
        PeerTable { entries: Vec::new(), model: Ghost(Map::empty()) }
    }

    /// The number of entries.
    pub fn len(&self) -> (n: usize)
        requires
            self.wf(),
        ensures
            n == self@.dom().len(),
    {
        self.entries.len()
    }

    fn find(&self, peer: PeerAddr) -> (r: Option<usize>)
        requires
            self.wf(),
        ensures
            match r {
                Some(i) => i < self.entries@.len() && self.entries@[i as int].peer == peer
                    && self@.contains_key(peer),
                None => !self@.contains_key(peer),
            },
    {
        let mut i: usize = 0;
        while i < self.entries.len()
            invariant
                i <= self.entries@.len(),
                self.wf(),
                forall|j: int| 0 <= j < i ==> (#[trigger] self.entries@[j]).peer != peer,
            decreases self.entries@.len() - i,
        {
            if self.entries[i].peer == peer {
                return Some(i);
            }
            i = i + 1;
        }
        None
    }

    /// Whether `peer` has an entry.
    pub fn contains(&self, peer: PeerAddr) -> (r: bool)
        requires
            self.wf(),
        ensures
            r == self@.contains_key(peer),
    {
        self.find(peer).is_some()
    }

    /// The value of `peer`, if it has one.
    pub fn get(&self, peer: PeerAddr) -> (r: Option<&V>)
        requires
            self.wf(),
        ensures
            match r {
                Some(v) => self@.contains_key(peer) && *v == self@[peer],
                None => !self@.contains_key(peer),
            },
    {
        match self.find(peer) {
            Some(i) => Some(&self.entries[i].value),
            None => None,
        }
    }

    fn remove_at(&mut self, i: usize) -> (e: PeerEntry<V>)
        requires
            old(self).wf(),
            i < old(self).entries@.len(),
        ensures
            final(self).wf(),
            e == old(self).entries@[i as int],
            final(self)@ == old(self)@.remove(e.peer),
            final(self).entries@ == old(self).entries@.remove(i as int),
    {
        let ghost before = self.entries@;
        let e = self.entries.remove(i);
        self.model = Ghost(self.model@.remove(e.peer));
        proof {
            let after = self.entries@;
            assert forall|j: int| 0 <= j < after.len() implies after[j] == before[if j < i {
                j
            } else {
                j + 1
            }] by {}
            assert forall|p: PeerAddr| self.model@.contains_key(p) implies exists|j: int|
                0 <= j < after.len() && (#[trigger] after[j]).peer == p by {
                let k = choose|k: int| 0 <= k < before.len() && (#[trigger] before[k]).peer == p;
                if k < i {
                    assert(after[k].peer == p);
                } else {
                    assert(after[k - 1].peer == p);
                }
            }
        }
        e
    }

    fn push_new(&mut self, peer: PeerAddr, value: V)
        requires
            old(self).wf(),
            !old(self)@.contains_key(peer),
        ensures
            final(self).wf(),
            final(self)@ == old(self)@.insert(peer, value),
    {
        let ghost before = self.entries@;
        self.entries.push(PeerEntry { peer, value });
        self.model = Ghost(self.model@.insert(peer, value));
        proof {
            let after = self.entries@;
            assert forall|p: PeerAddr| self.model@.contains_key(p) implies exists|j: int|
                0 <= j < after.len() && (#[trigger] after[j]).peer == p by {
                if p == peer {
                    assert(after[before.len() as int].peer == p);
                } else {
                    let k = choose|k: int|
                        0 <= k < before.len() && (#[trigger] before[k]).peer == p;
                    assert(after[k].peer == p);
                }
            }
        }
    }

    /// Sets the value of `peer`, in place of any it had.
    pub fn put(&mut self, peer: PeerAddr, value: V)
        requires
            old(self).wf(),
        ensures
            final(self).wf(),
            final(self)@ == old(self)@.insert(peer, value),
    {
        match self.find(peer) {
            Some(i) => {
                let _ = self.remove_at(i);
            },
            None => {},
        }
        self.push_new(peer, value);
        assert(self@ =~= old(self)@.insert(peer, value));
    }

    /// Takes the entry of `peer` out, if it has one.
    pub fn take(&mut self, peer: PeerAddr) -> (r: Option<V>)
        requires
            old(self).wf(),
        ensures
            final(self).wf(),
            final(self)@ == old(self)@.remove(peer),
            match r {
                Some(v) => old(self)@.contains_key(peer) && v == old(self)@[peer],
                None => !old(self)@.contains_key(peer),
            },
    {
        match self.find(peer) {
            Some(i) => {
                let e = self.remove_at(i);
                Some(e.value)
            },
            None => {
                assert(self@ =~= old(self)@.remove(peer));
                None
            },
        }
    }
}

/// One entry of a `NickTable`.
pub struct NickEntry {
    pub nick: String,
    pub peer: PeerAddr,
}

/// A finite map from nicknames to the peers that hold them.
pub struct NickTable {
    entries: Vec<NickEntry>,
    model: Ghost<Map<Seq<char>, PeerAddr>>,
}

impl View for NickTable {
    type V = Map<Seq<char>, PeerAddr>;

    closed spec fn view(&self) -> Map<Seq<char>, PeerAddr> {
        self.model@
    }
}

/// Whether some nickname of `m` belongs to `peer`.
pub open spec fn holds_nick(m: Map<Seq<char>, PeerAddr>, peer: PeerAddr) -> bool {
    exists|n: Seq<char>| #[trigger] m.contains_key(n) && m[n] == peer
}

/// The map `m` without the nicknames that belong to `peer`.
pub open spec fn without_owner(m: Map<Seq<char>, PeerAddr>, peer: PeerAddr) -> Map<
    Seq<char>,
    PeerAddr,
> {
    Map::new(|n: Seq<char>| m.contains_key(n) && m[n] != peer, |n: Seq<char>| m[n])
}

impl NickTable {
    /// The entries and the map say the same, and no nickname has two
    /// entries.
    pub closed spec fn wf(&self) -> bool {
        &&& self.model@.dom().finite()
        &&& self.model@.dom().len() == self.entries@.len()
        &&& forall|i: int|
            0 <= i < self.entries@.len() ==> self.model@.contains_key(
                (#[trigger] self.entries@[i]).nick@,
            ) && self.model@[self.entries@[i].nick@] == self.entries@[i].peer
        &&& forall|i: int, j: int|
            0 <= i < j < self.entries@.len() ==> (#[trigger] self.entries@[i]).nick@ != (
            #[trigger] self.entries@[j]).nick@
        &&& forall|n: Seq<char>|
            self.model@.contains_key(n) ==> exists|i: int|
                0 <= i < self.entries@.len() && (#[trigger] self.entries@[i]).nick@ == n
    }

    /// A table in order is a finite map.
    pub proof fn lemma_finite(&self)
        requires
            self.wf(),
        ensures
            self@.dom().finite(),
    {
    }

    /// The table with nothing in it.
    pub fn new() -> (r: Self)
        ensures
            r.wf(),
            r@ == Map::<Seq<char>, PeerAddr>::empty(),
    {
        NickTable { entries: Vec::new(), model: Ghost(Map::empty()) }
    }

    /// The peer that holds `nick`, if any does.
    pub fn lookup(&self, nick: &String) -> (r: Option<PeerAddr>)
        requires
            self.wf(),
        ensures
            match r {
                Some(p) => self@.contains_key(nick@) && p == self@[nick@],
                None => !self@.contains_key(nick@),
            },
    {
        let mut i: usize = 0;
        while i < self.entries.len()
            invariant
                i <= self.entries@.len(),
                self.wf(),
                forall|j: int| 0 <= j < i ==> (#[trigger] self.entries@[j]).nick@ != nick@,
            decreases self.entries@.len() - i,
        {
            if self.entries[i].nick == *nick {
                return Some(self.entries[i].peer);
            }
            i = i + 1;
        }
        None
    }

    /// Enters a nickname that nobody holds.
    pub fn add(&mut self, nick: String, peer: PeerAddr)
        requires
            old(self).wf(),
            !old(self)@.contains_key(nick@),
        ensures
            final(self).wf(),
            final(self)@ == old(self)@.insert(nick@, peer),
    {
        let ghost before = self.entries@;
        let ghost name = nick@;
        self.entries.push(NickEntry { nick, peer });
        self.model = Ghost(self.model@.insert(name, peer));
        proof {
            let after = self.entries@;
            assert forall|n: Seq<char>| self.model@.contains_key(n) implies exists|j: int|
                0 <= j < after.len() && (#[trigger] after[j]).nick@ == n by {
                if n == name {
                    assert(after[before.len() as int].nick@ == n);
                } else {
                    let k = choose|k: int|
                        0 <= k < before.len() && (#[trigger] before[k]).nick@ == n;
                    assert(after[k].nick@ == n);
                }
            }
        }
    }

    /// Whether `peer` holds a nickname.
    pub fn owns_any(&self, peer: PeerAddr) -> (r: bool)
        requires
            self.wf(),
        ensures
            r == holds_nick(self@, peer),
    {
        let mut i: usize = 0;
        while i < self.entries.len()
            invariant
                i <= self.entries@.len(),
                self.wf(),
                forall|j: int| 0 <= j < i ==> (#[trigger] self.entries@[j]).peer != peer,
            decreases self.entries@.len() - i,
        {
            if self.entries[i].peer == peer {
                assert(self@.contains_key(self.entries@[i as int].nick@));
                return true;
            }
            i = i + 1;
        }
        assert(!holds_nick(self@, peer)) by {
            if holds_nick(self@, peer) {
                let n = choose|n: Seq<char>| #[trigger] self@.contains_key(n) && self@[n] == peer;
                let k = choose|k: int|
                    0 <= k < self.entries@.len() && (#[trigger] self.entries@[k]).nick@ == n;
                assert(self.entries@[k].peer == peer);
            }
        }
        false
    }

    fn remove_at(&mut self, i: usize)
        requires
            old(self).wf(),
            i < old(self).entries@.len(),
        ensures
            final(self).wf(),
            final(self)@ == old(self)@.remove(old(self).entries@[i as int].nick@),
            final(self).entries@ == old(self).entries@.remove(i as int),
    {
        let ghost before = self.entries@;
        let e = self.entries.remove(i);
        self.model = Ghost(self.model@.remove(e.nick@));
        proof {
            let after = self.entries@;
            assert forall|j: int| 0 <= j < after.len() implies after[j] == before[if j < i {
                j
            } else {
                j + 1
            }] by {}
            assert forall|n: Seq<char>| self.model@.contains_key(n) implies exists|j: int|
                0 <= j < after.len() && (#[trigger] after[j]).nick@ == n by {
                let k = choose|k: int|
                    0 <= k < before.len() && (#[trigger] before[k]).nick@ == n;
                if k < i {
                    assert(after[k].nick@ == n);
                } else {
                    assert(after[k - 1].nick@ == n);
                }
            }
        }
    }

    /// Removes every nickname that `peer` holds.
    pub fn release(&mut self, peer: PeerAddr)
        requires
            old(self).wf(),
        ensures
            final(self).wf(),
            final(self)@ == without_owner(old(self)@, peer),
    {
        let mut i: usize = 0;
        while i < self.entries.len()
            invariant
                i <= self.entries@.len(),
                self.wf(),
                forall|j: int| 0 <= j < i ==> (#[trigger] self.entries@[j]).peer != peer,
                forall|n: Seq<char>|
                    self@.contains_key(n) ==> old(self)@.contains_key(n) && self@[n] == old(
                        self,
                    )@[n],
                forall|n: Seq<char>|
                    old(self)@.contains_key(n) && old(self)@[n] != peer ==> self@.contains_key(n),
            decreases self.entries@.len() - i,
        {
            if self.entries[i].peer == peer {
                self.remove_at(i);
            } else {
                i = i + 1;
            }
        }
        proof {
            assert forall|n: Seq<char>| self@.contains_key(n) implies self@[n] != peer by {
                let k = choose|k: int|
                    0 <= k < self.entries@.len() && (#[trigger] self.entries@[k]).nick@ == n;
                assert(self.entries@[k].peer != peer);
            }
            assert(self@ =~= without_owner(old(self)@, peer));
        }
    }
}

} // verus!
