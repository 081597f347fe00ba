//! Who may hold what: one session per peer, one capture forwarder per device.

use vstd::prelude::*;

verus! {

/// Whether two byte strings are equal.
pub fn same_bytes(a: &Vec<u8>, b: &Vec<u8>) -> (same: bool)
    ensures
        same == (a@ == b@),
{
    if a.len() != b.len() {
        return false;
    }
    let mut i: usize = 0;
    while i < a.len()
        invariant
            i <= a.len(),
            a.len() == b.len(),
            forall|k: int| 0 <= k < i ==> a@[k] == b@[k],
        decreases a.len() - i,
    {
        if a[i] != b[i] {
            return false;
        }
        i += 1;
    }
    assert(a@ == b@);
    true
}

/// The peers that hold a lease, each by its public key.
#[derive(Debug)]
pub struct PeerLeases {
    active: Vec<Vec<u8>>,
}

impl View for PeerLeases {
    type V = Set<Seq<u8>>;

    closed spec fn view(&self) -> Set<Seq<u8>> {
        Set::new(|key: Seq<u8>| exists|i: int| 0 <= i < self.active@.len() && #[trigger] self.active@[i]@ == key)
    }
}

impl PeerLeases {
    /// No peer holds a lease twice.
    pub closed spec fn valid(self) -> bool {
        forall|i: int, j: int|
            0 <= i < j < self.active@.len() ==> #[trigger] self.active@[i]@
                != #[trigger] self.active@[j]@
    }

    /// No leases.
    pub fn new() -> (leases: Self)
        ensures
            leases.valid(),
            leases@ == Set::<Seq<u8>>::empty(),
    {
        let leases = PeerLeases { active: Vec::new() };
        assert(leases@ =~= Set::<Seq<u8>>::empty());
        leases
    }

    fn position(&self, peer: &Vec<u8>) -> (r: Option<usize>)
        ensures
            match r {
                Some(i) => i < self.active@.len() && self.active@[i as int]@ == peer@,
                None => !self@.contains(peer@),
            },
            r is Some ==> self@.contains(peer@),
    {
        let mut i: usize = 0;
        while i < self.active.len()
            invariant
                i <= self.active.len(),
                forall|k: int| 0 <= k < i ==> #[trigger] self.active@[k]@ != peer@,
            decreases self.active.len() - i,
        {
            if same_bytes(&self.active[i], peer) {
                assert(self.active@[i as int]@ == peer@);
                return Some(i);
            }
            i += 1;
        }
        None
    }

    /// Takes the peer's lease unless it is taken.
    pub fn try_acquire(&mut self, peer: &Vec<u8>) -> (acquired: bool)
        requires
            old(self).valid(),
        ensures
            final(self).valid(),
            acquired == !old(self)@.contains(peer@),
            final(self)@ == old(self)@.insert(peer@),
    {
        if self.position(peer).is_some() {
            assert(self@ =~= old(self)@.insert(peer@));
            return false;
        }
        let ghost before = self.active@;
        let mut key: Vec<u8> = Vec::new();
        crate::ids::append_bytes(&mut key, peer.as_slice());
        self.active.push(key);
        proof {
            assert(key@ =~= peer@);
            let after = self.active@;
            assert(after.drop_last() == before);
            assert forall|i: int| 0 <= i < before.len() implies #[trigger] before[i]@ != peer@ by {
                if before[i]@ == peer@ {
                    assert(old(self)@.contains(peer@));
                }
            }
            assert forall|i: int, j: int| 0 <= i < j < after.len() implies #[trigger] after[i]@
                != #[trigger] after[j]@ by {
                assert(after[i] == before[i]);
                if j < before.len() {
                    assert(after[j] == before[j]);
                }
            }
            assert forall|k: Seq<u8>| self@.contains(k) <==> old(self)@.insert(peer@).contains(k) by {
                if old(self)@.contains(k) {
                    let i = choose|i: int| 0 <= i < before.len() && #[trigger] before[i]@ == k;
                    assert(after[i]@ == k);
                }
                if k == peer@ {
                    assert(after[after.len() - 1]@ == k);
                }
                if self@.contains(k) {
                    let i = choose|i: int| 0 <= i < after.len() && #[trigger] after[i]@ == k;
                    if i < before.len() {
                        assert(before[i]@ == k);
                    }
                }
            }
            assert(self@ =~= old(self)@.insert(peer@));
        }
        true
    }

    /// Gives the peer's lease back.
    pub fn release(&mut self, peer: &Vec<u8>)
        requires
            old(self).valid(),
        ensures
            final(self).valid(),
            final(self)@ == old(self)@.remove(peer@),
    {
        let ghost before = self.active@;
        match self.position(peer) {
            None => {
                assert(self@ =~= old(self)@.remove(peer@));
            },
            Some(at) => {
                self.active.remove(at);
                proof {
                    let after = self.active@;
                    assert(after == before.remove(at as int));
                    assert forall|i: int, j: int| 0 <= i < j < after.len() implies #[trigger] after[i]@
                        != #[trigger] after[j]@ by {
                        let p = if i < at { i } else { i + 1 };
                        let q = if j < at { j } else { j + 1 };
                        assert(after[i] == before[p] && after[j] == before[q]);
                    }
                    assert forall|k: Seq<u8>|
                        self@.contains(k) <==> old(self)@.remove(peer@).contains(k) by {
                        if self@.contains(k) {
                            let i = choose|i: int| 0 <= i < after.len() && #[trigger] after[i]@ == k;
                            let p = if i < at { i } else { i + 1 };
                            assert(before[p]@ == k);
                            if p < at {
                                assert(before[p]@ != before[at as int]@);
                            } else {
                                assert(before[at as int]@ != before[p]@);
                            }
                        }
                        if old(self)@.contains(k) && k != peer@ {
                            let i = choose|i: int| 0 <= i < before.len() && #[trigger] before[i]@ == k;
                            let p = if i < at { i } else { i - 1 };
                            assert(after[p]@ == k);
                        }
                    }
                    assert(self@ =~= old(self)@.remove(peer@));
                }
            },
        }
    }
}

/// A lease that is taken cannot be taken again until it is given back, and
/// other peers' leases are not touched.
pub proof fn law_leases_are_exclusive(active: Set<Seq<u8>>, peer: Seq<u8>, other: Seq<u8>)
    requires
        !active.contains(peer),
        other != peer,
    ensures
        active.insert(peer).contains(peer),
        active.insert(peer).contains(other) == active.contains(other),
        active.insert(peer).remove(peer) == active,
{
    assert(active.insert(peer).remove(peer) =~= active);
}

/// Lets one connection at a time consume the platform's input stream.
#[derive(Debug, Clone, Copy, PartialEq, Eq, Structural)]
pub struct InputForwarderGate {
    pub active: bool,
}

impl InputForwarderGate {
    /// Nobody has passed.
    pub fn new() -> (gate: Self)
        ensures
            !gate.active,
    {
        InputForwarderGate { active: false }
    }

    /// Passes unless somebody else has.
    pub fn try_acquire(&mut self) -> (acquired: bool)
        ensures
            acquired == !old(self).active,
            final(self).active,
    {
        let acquired: bool = !self.active;
        self.active = true;
        acquired
    }

    /// Lets the next one pass.
    pub fn release(&mut self)
        ensures
            !final(self).active,
    {
        self.active = false;
    }
}

} // verus!
