//! The circuit breaker: which registered backends are healthy. Every
//! registration gets a fresh registration number; the health monitor probes
//! every registered backend and records what it finds under the number the
//! probe was started for, so a probe that outlives a re-registration is
//! ignored.
use crate::tables::{BackendAddr, HealthTable};
use vstd::prelude::*;

verus! {

/// A backend is healthy when it is registered and its flag is up.
pub open spec fn healthy(registry: Map<BackendAddr, (u64, bool)>, addr: BackendAddr) -> bool {
    registry.contains_key(addr) && registry[addr].1
}

/// The registry after a probe result for registration `generation` of
/// `addr`: the flag is set when that registration is still the current one,
/// and nothing changes otherwise.
pub open spec fn after_probe(
    registry: Map<BackendAddr, (u64, bool)>,
    addr: BackendAddr,
    generation: u64,
    is_up: bool,
) -> Map<BackendAddr, (u64, bool)> {
    if registry.contains_key(addr) && registry[addr].0 == generation {
        registry.insert(addr, (generation, is_up))
    } else {
        registry
    }
}

/// Registered backends: for each, the number of its registration and its
/// health flag.
pub struct CircuitBreaker {
    registry: HealthTable,
    next_generation: u64,
}

impl CircuitBreaker {
    pub closed spec fn registry_spec(&self) -> Map<BackendAddr, (u64, bool)> {
        self.registry@
    }

    /// The number the next registration gets.
    pub closed spec fn next_generation_spec(&self) -> u64 {
        self.next_generation
    }

    pub fn new() -> (cb: Self)
        ensures
            cb.registry_spec().dom().is_empty(),
            cb.next_generation_spec() == 0,
    {
        CircuitBreaker { registry: HealthTable::new(), next_generation: 0 }
    }

    /// Registers `addr` as healthy under a fresh registration number,
    /// replacing an earlier registration.
    pub fn register(&mut self, addr: BackendAddr)
        ensures
            final(self).registry_spec() == old(self).registry_spec().insert(
                addr,
                (old(self).next_generation_spec(), true),
            ),
            final(self).next_generation_spec() == old(self).next_generation_spec().wrapping_add(1),
    {
        self.registry.insert(addr, (self.next_generation, true));
        self.next_generation = self.next_generation.wrapping_add(1);
    }

    /// Marks a registered `addr` unhealthy (its registration is kept); an
    /// unregistered one stays unregistered.
    pub fn quarantine(&mut self, addr: &BackendAddr)
        ensures
            old(self).registry_spec().contains_key(*addr) ==> final(self).registry_spec()
                == old(self).registry_spec().insert(*addr, (old(self).registry_spec()[*addr].0, false)),
            !old(self).registry_spec().contains_key(*addr) ==> final(self).registry_spec()
                == old(self).registry_spec(),
            final(self).next_generation_spec() == old(self).next_generation_spec(),
    {
        match self.registry.get(addr) {
            Some(entry) => self.registry.insert(*addr, (entry.0, false)),
            None => {},
        }
    }

    /// Whether `addr` is registered and healthy.
    pub fn is_healthy(&self, addr: &BackendAddr) -> (r: bool)
        ensures
            r == healthy(self.registry_spec(), *addr),
    {
        match self.registry.get(addr) {
            Some(entry) => entry.1,
            None => false,
        }
    }

    /// The probes that a monitoring round starts: every registered backend,
    /// each once, with the number of its current registration.
    pub fn monitored_backends(&self) -> (r: Vec<(BackendAddr, u64)>)
        ensures
            r@.len() == self.registry_spec().dom().len(),
            forall|i: int|
                0 <= i < r@.len() ==> self.registry_spec().contains_key(#[trigger] r@[i].0)
                    && self.registry_spec()[r@[i].0].0 == r@[i].1,
            forall|a: BackendAddr| #[trigger]
                self.registry_spec().contains_key(a) ==> exists|i: int| 0 <= i < r@.len() && r@[i].0 == a,
            forall|i: int, j: int| 0 <= i < j < r@.len() ==> r@[i].0 != r@[j].0,
    {
        let addrs = self.registry.addresses();
        let ghost m = self.registry_spec();
        let mut out: Vec<(BackendAddr, u64)> = Vec::new();
        let mut k: usize = 0;
        while k < addrs.len()
            invariant
                m == self.registry_spec(),
                addrs@.to_set() == m.dom(),
                addrs@.no_duplicates(),
                k <= addrs@.len(),
                out@.len() == k,
                forall|i: int| 0 <= i < k ==> out@[i].0 == addrs@[i] && m[addrs@[i]].0 == out@[i].1,
            decreases addrs@.len() - k,
        {
            let a = addrs[k];
            assert(addrs@.to_set().contains(addrs@[k as int]));
            match self.registry.get(&a) {
                Some(entry) => out.push((a, entry.0)),
                None => {
                    assert(false);
                },
            }
            k = k + 1;
        }
        proof {
            addrs@.unique_seq_to_set();
            assert forall|i: int| 0 <= i < out@.len() implies m.contains_key(#[trigger] out@[i].0) && m[out@[i].0].0
                == out@[i].1 by {
                assert(addrs@.to_set().contains(addrs@[i]));
            }
            assert forall|a: BackendAddr| #[trigger] m.contains_key(a) implies exists|i: int|
                0 <= i < out@.len() && out@[i].0 == a by {
                assert(addrs@.to_set().contains(a));
                let i = addrs@.index_of(a);
                assert(out@[i].0 == a);
            }
            assert forall|i: int, j: int| 0 <= i < j < out@.len() implies out@[i].0 != out@[j].0 by {
                assert(addrs@[i] != addrs@[j]);
            }
        }
        out
    }

    /// Records the outcome of a health probe that was started for
    /// registration `generation` of `addr`; see `after_probe`.
    pub fn record_probe(&mut self, addr: &BackendAddr, generation: u64, is_up: bool)
        ensures
            final(self).registry_spec() == after_probe(old(self).registry_spec(), *addr, generation, is_up),
            final(self).next_generation_spec() == old(self).next_generation_spec(),
    {
        match self.registry.get(addr) {
            Some(entry) => {
                if entry.0 == generation {
                    self.registry.insert(*addr, (generation, is_up));
                }
            },
            None => {},
        }
    }
}

} // verus!
