//! Peer registry: the durable set of known peer network locations. Peer
//! identity is the `(address, port)` pair; registration is idempotent (a
//! duplicate is a conflict, never an overwrite), and only the liveness
//! monitor refreshes a peer's last probe time or evicts a peer.

use vstd::prelude::*;
use vstd::pervasive::VecAdditionalExecFns;

verus! {

/// A known peer network location, with the time its last successful
/// liveness probe finished, if any.
pub struct PeerNode {
    pub address: String,
    pub port: u16,
    pub last_ping_at: Option<i64>,
}

/// Mathematical image of a peer.
#[verifier::ext_equal]
pub struct PeerNodeView {
    pub address: Seq<char>,
    pub port: u16,
    pub last_ping_at: Option<i64>,
}

impl View for PeerNode {
    type V = PeerNodeView;

    open spec fn view(&self) -> PeerNodeView {
        PeerNodeView { address: self.address@, port: self.port, last_ping_at: self.last_ping_at }
    }
}

impl PeerNode {
    /// An identical copy.
    pub fn duplicate(&self) -> (r: PeerNode)
        ensures
            r@ == self@,
    {
        PeerNode {
            address: self.address.clone(),
            port: self.port,
            last_ping_at: self.last_ping_at,
        }
    }
}

/// Whether some peer in `s` has this `(address, port)` identity.
pub open spec fn contains_peer(s: Seq<PeerNodeView>, address: Seq<char>, port: u16) -> bool {
    exists|i: int| 0 <= i < s.len() && s[i].address == address && s[i].port == port
}

/// The position of the peer with this identity.
pub open spec fn peer_index(s: Seq<PeerNodeView>, address: Seq<char>, port: u16) -> int {
    choose|i: int| 0 <= i < s.len() && s[i].address == address && s[i].port == port
}

/// The peer with this identity.
pub open spec fn peer_at(s: Seq<PeerNodeView>, address: Seq<char>, port: u16) -> PeerNodeView {
    s[peer_index(s, address, port)]
}

/// No two peers share an `(address, port)` identity.
pub open spec fn peers_distinct(s: Seq<PeerNodeView>) -> bool {
    forall|i: int, j: int|
        0 <= i < j < s.len() ==> !(s[i].address == s[j].address && s[i].port == s[j].port)
}

/// What a registration reports: a new peer was created, or the pair was
/// already registered.
#[derive(Clone, Copy, Debug, PartialEq, Eq, Structural)]
pub enum RegisterOutcome {
    Created,
    Conflict,
}

/// Durable set of known peers, in registration order.
pub struct PeerRegistry {
    peers: Vec<PeerNode>,
}

impl View for PeerRegistry {
    type V = Seq<PeerNodeView>;

    closed spec fn view(&self) -> Seq<PeerNodeView> {
        self.peers@.map_values(|p: PeerNode| p@)
    }
}

impl PeerRegistry {
    /// No two registered peers share an identity.
    #[verifier::type_invariant]
    closed spec fn wf(self) -> bool {
        peers_distinct(self@)
    }

    /// An empty registry.
    pub fn new() -> (r: PeerRegistry)
        ensures
            r@ == Seq::<PeerNodeView>::empty(),
    {
        let r = PeerRegistry { peers: Vec::new() };
        proof {
            assert(r@ =~= Seq::<PeerNodeView>::empty());
        }
        r
    }

    /// Position of the peer with this identity, if registered.
    fn index_of_peer(&self, address: &String, port: u16) -> (r: Option<usize>)
        ensures
            r matches Some(i) ==> i < self@.len() && self@[i as int].address == address@
                && self@[i as int].port == port,
            r is None ==> !contains_peer(self@, address@, port),
    {
        let mut i: usize = 0;
        while i < self.peers.len()
            invariant
                i <= self.peers@.len(),
                forall|j: int|
                    0 <= j < i ==> !(self@[j].address == address@ && self@[j].port == port),
                self@.len() == self.peers@.len(),
                forall|j: int| 0 <= j < self.peers@.len() ==> self@[j] == self.peers@[j]@,
            decreases self.peers@.len() - i,
        {
            if self.peers[i].address == *address && self.peers[i].port == port {
                assert(self@[i as int] == self.peers@[i as int]@);
                return Some(i);
            }
            i += 1;
        }
        assert(!contains_peer(self@, address@, port));
        None
    }

    /// Whether a peer with this identity is registered.
    pub fn has_peer(&self, address: &String, port: u16) -> (r: bool)
        ensures
            r == contains_peer(self@, address@, port),
    {
        match self.index_of_peer(address, port) {
            Some(i) => {
                proof {
                    assert(contains_peer(self@, address@, port));
                }
                true
            },
            None => false,
        }
    }

    /// Register a peer. Created exactly when the identity was new; a second
    /// registration of the same pair is reported as a conflict and changes
    /// nothing, not even the stored probe time.
    pub fn register(&mut self, address: String, port: u16) -> (r: RegisterOutcome)
        ensures
            r == RegisterOutcome::Created <==> !contains_peer(old(self)@, address@, port),
            r == RegisterOutcome::Created ==> final(self)@ == old(self)@.push(
                PeerNodeView { address: address@, port, last_ping_at: None },
            ),
            r == RegisterOutcome::Conflict ==> final(self)@ == old(self)@,
            peers_distinct(final(self)@),
    {
        let ghost pre = *self;
        proof {
            use_type_invariant(&*self);
        }
        if self.has_peer(&address, port) {
            return RegisterOutcome::Conflict;
        }
        let ghost av = address@;
        let node = PeerNode { address, port, last_ping_at: None };
        let mut peers: Vec<PeerNode> = Vec::new();
        core::mem::swap(&mut peers, &mut self.peers);
        peers.push(node);
        proof {
            let s = peers@.map_values(|p: PeerNode| p@);
            assert(s =~= pre@.push(PeerNodeView { address: av, port, last_ping_at: None }));
            assert forall|i: int, j: int| 0 <= i < j < s.len() implies !(s[i].address
                == s[j].address && s[i].port == s[j].port) by {
                if j < s.len() - 1 {
                    assert(s[i] == pre@[i] && s[j] == pre@[j]);
                } else {
                    assert(s[i] == pre@[i]);
                    assert(!contains_peer(pre@, av, port));
                }
            }
        }
        self.peers = peers;
        proof {
            assert(self@ =~= pre@.push(PeerNodeView { address: av, port, last_ping_at: None }));
        }
        RegisterOutcome::Created
    }

    /// A point-in-time copy of the current peers. The copy does not track
    /// later registry mutation.
    pub fn list(&self) -> (r: Vec<PeerNode>)
        ensures
            r@.map_values(|p: PeerNode| p@) == self@,
    {
        let mut out: Vec<PeerNode> = Vec::new();
        let mut i: usize = 0;
        while i < self.peers.len()
            invariant
                i <= self.peers@.len(),
                self@.len() == self.peers@.len(),
                forall|j: int| 0 <= j < self.peers@.len() ==> self@[j] == self.peers@[j]@,
                out@.len() == i,
                forall|j: int| 0 <= j < i ==> out@[j]@ == self@[j],
            decreases self.peers@.len() - i,
        {
            out.push(self.peers[i].duplicate());
            i += 1;
        }
        proof {
            assert forall|j: int| 0 <= j < out@.len() implies out@.map_values(
                |p: PeerNode| p@,
            )[j] == self@[j] by {
                assert(out@[j]@ == self@[j]);
            }
            assert(out@.map_values(|p: PeerNode| p@) =~= self@);
        }
        out
    }

    /// Evict the peer with this identity, if present; used only by the
    /// liveness monitor. After the call no peer carries the identity.
    pub fn remove(&mut self, address: &String, port: u16) -> (r: bool)
        ensures
            r == contains_peer(old(self)@, address@, port),
            r ==> final(self)@ == old(self)@.remove(peer_index(old(self)@, address@, port)),
            !r ==> final(self)@ == old(self)@,
            !contains_peer(final(self)@, address@, port),
            peers_distinct(final(self)@),
    {
        let ghost pre = *self;
        proof {
            use_type_invariant(&*self);
        }
        match self.index_of_peer(address, port) {
            Some(i) => {
                proof {
                    assert(contains_peer(pre@, address@, port));
                    let w = peer_index(pre@, address@, port);
                    assert(0 <= w < pre@.len() && pre@[w].address == address@ && pre@[w].port
                        == port);
                    assert(w == i);
                }
                let mut peers: Vec<PeerNode> = Vec::new();
                core::mem::swap(&mut peers, &mut self.peers);
                peers.remove(i);
                proof {
                    let s = peers@.map_values(|p: PeerNode| p@);
                    assert(s =~= pre@.remove(i as int));
                    assert forall|a: int, b: int| 0 <= a < b < s.len() implies !(s[a].address
                        == s[b].address && s[a].port == s[b].port) by {
                        let a0 = if a < i { a } else { a + 1 };
                        let b0 = if b < i { b } else { b + 1 };
                        assert(s[a] == pre@[a0] && s[b] == pre@[b0]);
                    }
                }
                self.peers = peers;
                proof {
                    assert(self@ =~= pre@.remove(i as int));
                    assert forall|j: int| 0 <= j < self@.len() implies !(self@[j].address
                        == address@ && self@[j].port == port) by {
                        let j0 = if j < i { j } else { j + 1 };
                        assert(self@[j] == pre@[j0]);
                    }
                    assert(!contains_peer(self@, address@, port));
                }
                true
            },
            None => false,
        }
    }

    /// Record a successful liveness probe by refreshing the peer's probe
    /// time. Reports whether the peer was present.
    pub fn refresh(&mut self, address: &String, port: u16, now: i64) -> (r: bool)
        ensures
            r == contains_peer(old(self)@, address@, port),
            r ==> final(self)@ == old(self)@.update(
                peer_index(old(self)@, address@, port),
                PeerNodeView { address: address@, port, last_ping_at: Some(now) },
            ),
            !r ==> final(self)@ == old(self)@,
            r ==> contains_peer(final(self)@, address@, port) && peer_at(
                final(self)@,
                address@,
                port,
            ).last_ping_at == Some(now),
            peers_distinct(final(self)@),
    {
        let ghost pre = *self;
        proof {
            use_type_invariant(&*self);
        }
        match self.index_of_peer(address, port) {
            Some(i) => {
                proof {
                    assert(contains_peer(pre@, address@, port));
                    let w = peer_index(pre@, address@, port);
                    assert(0 <= w < pre@.len() && pre@[w].address == address@ && pre@[w].port
                        == port);
                    assert(w == i);
                }
                let refreshed = PeerNode {
                    address: self.peers[i].address.clone(),
                    port,
                    last_ping_at: Some(now),
                };
                proof {
                    assert(self.peers@[i as int]@ == self@[i as int]);
                    assert(refreshed@ == PeerNodeView {
                        address: address@,
                        port,
                        last_ping_at: Some(now),
                    });
                }
                let mut peers: Vec<PeerNode> = Vec::new();
                core::mem::swap(&mut peers, &mut self.peers);
                peers.set(i, refreshed);
                proof {
                    let pv = PeerNodeView { address: address@, port, last_ping_at: Some(now) };
                    let s = peers@.map_values(|p: PeerNode| p@);
                    assert(s =~= pre@.update(i as int, pv));
                    assert forall|a: int, b: int| 0 <= a < b < s.len() implies !(s[a].address
                        == s[b].address && s[a].port == s[b].port) by {
                        assert(pre@[a].address == s[a].address && pre@[a].port == s[a].port);
                        assert(pre@[b].address == s[b].address && pre@[b].port == s[b].port);
                    }
                }
                self.peers = peers;
                proof {
                    let pv = PeerNodeView { address: address@, port, last_ping_at: Some(now) };
                    assert(self@ =~= pre@.update(i as int, pv));
                    assert(contains_peer(self@, address@, port)) by {
                        assert(self@[i as int] == pv);
                    }
                    let w = peer_index(self@, address@, port);
                    assert(0 <= w < self@.len() && self@[w].address == address@ && self@[w].port
                        == port);
                    assert forall|j: int| 0 <= j < self@.len() && j != i implies
                        !(self@[j].address == address@ && self@[j].port == port) by {
                        assert(self@[j] == pre@[j]);
                    }
                    assert(w == i);
                    assert(peer_at(self@, address@, port).last_ping_at == Some(now));
                }
                true
            },
            None => false,
        }
    }
}

/// Registration is idempotent: once a peer is registered its identity is
/// present, so a second registration of the same pair reports a conflict
/// instead of overwriting anything.
pub proof fn lemma_registered_peer_present(s: Seq<PeerNodeView>, address: Seq<char>, port: u16)
    ensures
        contains_peer(
            s.push(PeerNodeView { address, port, last_ping_at: None }),
            address,
            port,
        ),
{
    let t = s.push(PeerNodeView { address, port, last_ping_at: None });
    assert(t[s.len() as int].address == address && t[s.len() as int].port == port);
}

/// A registry without duplicate identities holds at most one entry for any
/// pair, so a registered peer appears exactly once in a snapshot.
pub proof fn lemma_at_most_one_entry(s: Seq<PeerNodeView>, address: Seq<char>, port: u16)
    requires
        peers_distinct(s),
    ensures
        forall|i: int, j: int|
            0 <= i < s.len() && 0 <= j < s.len() && s[i].address == address && s[i].port == port
                && s[j].address == address && s[j].port == port ==> i == j,
{
    assert forall|i: int, j: int|
        0 <= i < s.len() && 0 <= j < s.len() && s[i].address == address && s[i].port == port
            && s[j].address == address && s[j].port == port implies i == j by {
        if i < j {
            assert(!(s[i].address == s[j].address && s[i].port == s[j].port));
        } else if j < i {
            assert(!(s[j].address == s[i].address && s[j].port == s[i].port));
        }
    }
}

} // verus!
