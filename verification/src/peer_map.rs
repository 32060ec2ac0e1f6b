//! The peers that a node is connected to, by address.

use vstd::prelude::*;
use crate::p2p_node::{ConnectionInfo, PeerAddr};

verus! {

/// A finite set of addresses. Its model is the `Set` of the addresses in it.
pub struct AddrSet {
    items: Vec<PeerAddr>,
}

impl View for AddrSet {
    type V = Set<PeerAddr>;

    closed spec fn view(&self) -> Set<PeerAddr> {
        self.items@.to_set()
    }
}

impl AddrSet {
    #[verifier::type_invariant]
    spec fn inv(self) -> bool {
        self.items@.no_duplicates()
    }

    /// Creates an empty set.
    pub fn new() -> (set: AddrSet)
        ensures
            set@ == Set::<PeerAddr>::empty(),
    {
        AddrSet { items: Vec::new() }
    }

    fn position(&self, addr: PeerAddr) -> (found: Option<usize>)
        ensures
            match found {
                Some(i) => i < self.items@.len() && self.items@[i as int] == addr,
                None => !self@.contains(addr),
            },
            found is Some == self@.contains(addr),
    {
        let mut i: usize = 0;
        while i < self.items.len()
            invariant
                i <= self.items@.len(),
                forall|j: int| 0 <= j < i ==> self.items@[j] != addr,
            decreases self.items@.len() - i,
        {
            if self.items[i] == addr {
                return Some(i);
            }
            i = i + 1;
        }
        None
    }

    /// Returns whether `addr` is in the set.
    pub fn contains(&self, addr: PeerAddr) -> (b: bool)
        ensures
            b == self@.contains(addr),
    {
        self.position(addr).is_some()
    }

    /// Returns the number of addresses in the set.
    pub fn len(&self) -> (n: usize)
        ensures
            n == self@.len(),
            self@.finite(),
    {
        proof {
            use_type_invariant(self);
            self.items@.unique_seq_to_set();
        }
        self.items.len()
    }

    /// Returns whether the set is empty.
    pub fn is_empty(&self) -> (b: bool)
        ensures
            b == (self@ == Set::<PeerAddr>::empty()),
    {
        proof {
            if self.items@.len() > 0 {
                assert(self@.contains(self.items@[0]));
            } else {
                assert(self@ =~= Set::<PeerAddr>::empty());
            }
        }
        self.items.len() == 0
    }

    /// Adds `addr` to the set. Returns whether it was new to the set.
    pub fn insert(&mut self, addr: PeerAddr) -> (added: bool)
        ensures
            final(self)@ == old(self)@.insert(addr),
            added == !old(self)@.contains(addr),
    {
        proof {
            use_type_invariant(&*self);
        }
        if self.contains(addr) {
            return false;
        }
        let ghost before = self.items@;
        let mut items: Vec<PeerAddr> = Vec::new();
        core::mem::swap(&mut self.items, &mut items);
        items.push(addr);
        self.items = items;
        proof {
            assert forall|a: PeerAddr| self@.contains(a) == old(self)@.insert(addr).contains(a) by {
                if self@.contains(a) {
                    let i = choose|i: int| 0 <= i < self.items@.len() && self.items@[i] == a;
                    assert(i == before.len() || before[i] == a);
                }
                if old(self)@.insert(addr).contains(a) {
                    if a == addr {
                        assert(self.items@[before.len() as int] == a);
                    } else {
                        let i = choose|i: int| 0 <= i < before.len() && before[i] == a;
                        assert(self.items@[i] == a);
                    }
                }
            }
        }
        true
    }

    /// Takes `addr` out of the set. Returns whether it was in the set.
    pub fn remove(&mut self, addr: PeerAddr) -> (removed: bool)
        ensures
            final(self)@ == old(self)@.remove(addr),
            removed == old(self)@.contains(addr),
    {
        proof {
            use_type_invariant(&*self);
        }
        match self.position(addr) {
            None => {
                false
            },
            Some(i) => {
                let ghost before = self.items@;
                let mut items: Vec<PeerAddr> = Vec::new();
                core::mem::swap(&mut self.items, &mut items);
                let _ = items.remove(i);
                proof {
                    assert forall|a: int, b: int| 0 <= a < items@.len() && 0 <= b < items@.len() && a != b implies items@[a]
                        != items@[b] by {
                    }
                }
                self.items = items;
                proof {
                    assert forall|a: PeerAddr| self@.contains(a) == old(self)@.remove(addr).contains(a) by {
                        if self@.contains(a) {
                            let j = choose|j: int| 0 <= j < self.items@.len() && self.items@[j] == a;
                            let e = if j < i { j } else { j + 1 };
                            assert(before[e] == a);
                        }
                        if old(self)@.remove(addr).contains(a) {
                            let e = choose|e: int| 0 <= e < before.len() && before[e] == a;
                            let j = if e < i { e } else { e - 1 };
                            assert(self.items@[j] == a);
                        }
                    }
                }
                true
            },
        }
    }

    /// Empties the set.
    pub fn clear(&mut self)
        ensures
            final(self)@ == Set::<PeerAddr>::empty(),
    {
        self.items = Vec::new();
    }

    /// Returns the addresses of the set, each once.
    pub fn to_vec(&self) -> (addrs: Vec<PeerAddr>)
        ensures
            addrs@.to_set() == self@,
            addrs@.no_duplicates(),
    {
        proof {
            use_type_invariant(self);
        }
        let mut addrs: Vec<PeerAddr> = Vec::new();
        let mut i: usize = 0;
        while i < self.items.len()
            invariant
                i <= self.items@.len(),
                addrs@ == self.items@.take(i as int),
            decreases self.items@.len() - i,
        {
            addrs.push(self.items[i]);
            i = i + 1;
        }
        assert(self.items@.take(self.items@.len() as int) =~= self.items@);
        addrs
    }
}

/// The peers that the node is connected to. Its model is the set of their
/// addresses.
pub struct PeerMap {
    connected: AddrSet,
}

impl View for PeerMap {
    type V = Set<PeerAddr>;

    closed spec fn view(&self) -> Set<PeerAddr> {
        self.connected@
    }
}

impl PeerMap {
    /// Creates a map without peers.
    pub fn new() -> (map: PeerMap)
        ensures
            map@ == Set::<PeerAddr>::empty(),
    {
        PeerMap { connected: AddrSet::new() }
    }

    /// Records that the node is connected to the peer at `conn_info`. A peer
    /// that is already there stays there once.
    pub fn connect(&mut self, conn_info: ConnectionInfo)
        ensures
            final(self)@ == old(self)@.insert(conn_info.peer_addr),
    {
        let _ = self.connected.insert(conn_info.peer_addr);
    }

    /// Records that the node is no longer connected to the peer at `addr`.
    /// Returns whether it was connected to it.
    pub fn disconnect(&mut self, addr: PeerAddr) -> (was_connected: bool)
        ensures
            final(self)@ == old(self)@.remove(addr),
            was_connected == old(self)@.contains(addr),
    {
        self.connected.remove(addr)
    }

    /// Returns whether the node is connected to the peer at `addr`.
    pub fn is_connected(&self, addr: PeerAddr) -> (b: bool)
        ensures
            b == self@.contains(addr),
    {
        self.connected.contains(addr)
    }

    /// Forgets every peer.
    pub fn remove_all(&mut self)
        ensures
            final(self)@ == Set::<PeerAddr>::empty(),
    {
        self.connected.clear();
    }

    /// Returns the addresses of the connected peers, each once.
    pub fn connected_addrs(&self) -> (addrs: Vec<PeerAddr>)
        ensures
            addrs@.to_set() == self@,
            addrs@.no_duplicates(),
    {
        self.connected.to_vec()
    }
}

/// Connecting a peer twice is the same as connecting it once.
pub proof fn lemma_connect_idempotent(peers: Set<PeerAddr>, addr: PeerAddr)
    ensures
        peers.insert(addr).insert(addr) == peers.insert(addr),
{
}

/// Disconnecting a peer twice is the same as disconnecting it once.
pub proof fn lemma_disconnect_idempotent(peers: Set<PeerAddr>, addr: PeerAddr)
    ensures
        peers.remove(addr).remove(addr) == peers.remove(addr),
{
}

} // verus!
