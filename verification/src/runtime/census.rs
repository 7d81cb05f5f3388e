//! Holding the leases on direct acknowledgements against the waiters they stand for.
use vstd::prelude::*;

use crate::ipc::ReceiverWaiterIdentity;
use crate::kernel::Kernel;
use crate::runtime::SharedKernel;
use crate::seqs;

verus! {

/// A lease on the acknowledgement of one waiter at one incarnation of an endpoint.
#[derive(Clone, Copy, Debug, PartialEq, Eq, Structural)]
pub struct AckLease {
    pub endpoint_index: usize,
    pub endpoint_generation: u64,
    pub waiter: ReceiverWaiterIdentity,
}

/// Leases, at most one in the slot of each endpoint.
pub struct DirectAckStore {
    pub slots: Vec<Option<AckLease>>,
}

/// Slots whose lease is on this incarnation of an endpoint.
pub open spec fn leases_incarnation(index: usize, generation: u64) -> spec_fn(
    Option<AckLease>,
) -> bool {
    |s: Option<AckLease>|
        s is Some && s->0.endpoint_index == index && s->0.endpoint_generation == generation
}

/// Among the first `n` slots, those whose lease is on an incarnation that an earlier slot
/// leases already.
pub open spec fn duplicates(slots: Seq<Option<AckLease>>, n: int) -> nat
    decreases n,
{
    if n <= 0 {
        0
    } else {
        duplicates(slots, n - 1) + match slots[n - 1] {
            Some(lease) => if seqs::first_where(
                slots,
                leases_incarnation(lease.endpoint_index, lease.endpoint_generation),
            ) < n - 1 {
                1nat
            } else {
                0nat
            },
            None => 0nat,
        }
    }
}

impl DirectAckStore {
    /// The lease in the slot of endpoint `index`.
    pub open spec fn spec_lease_at(&self, index: int) -> Option<AckLease> {
        if 0 <= index < self.slots@.len() {
            self.slots@[index]
        } else {
            None
        }
    }

    /// The lease in the slot of endpoint `index`.
    pub fn live_lease_at(&self, index: usize) -> (r: Option<AckLease>)
        ensures
            r == self.spec_lease_at(index as int),
    {
        if index < self.slots.len() {
            self.slots[index]
        } else {
            None
        }
    }

    /// How many leases are on an incarnation that an earlier slot leases already.
    pub fn duplicate_live_incarnations(&self) -> (r: usize)
        ensures
            r == duplicates(self.slots@, self.slots@.len() as int),
    {
        let mut n: usize = 0;
        let mut i: usize = 0;
        while i < self.slots.len()
            invariant
                i <= self.slots@.len(),
                n <= i,
                n == duplicates(self.slots@, i as int),
            decreases self.slots@.len() - i,
        {
            if let Some(lease) = self.slots[i] {
                if self.first_of(lease.endpoint_index, lease.endpoint_generation) < i {
                    n += 1;
                }
            }
            i += 1;
        }
        n
    }

    /// The first slot that leases this incarnation.
    fn first_of(&self, index: usize, generation: u64) -> (r: usize)
        ensures
            r == seqs::first_where(self.slots@, leases_incarnation(index, generation)),
    {
        let mut i: usize = 0;
        while i < self.slots.len()
            invariant
                i <= self.slots@.len(),
                forall|j: int|
                    0 <= j < i ==> !leases_incarnation(index, generation)(
                        #[trigger] self.slots@[j],
                    ),
            decreases self.slots@.len() - i,
        {
            if let Some(lease) = self.slots[i] {
                if lease.endpoint_index == index && lease.endpoint_generation == generation {
                    proof {
                        seqs::lemma_first_where_is(
                            self.slots@,
                            leases_incarnation(index, generation),
                            i as int,
                        );
                    }
                    return i;
                }
            }
            i += 1;
        }
        proof {
            seqs::lemma_first_where_is(
                self.slots@,
                leases_incarnation(index, generation),
                i as int,
            );
        }
        i
    }
}

/// A waiter as the census sees it.
#[derive(Clone, Copy, Debug, PartialEq, Eq, Structural)]
pub struct CensusWaiter {
    pub endpoint_generation: u64,
    pub waiter: ReceiverWaiterIdentity,
    /// May the waiter have a lease?
    pub eligible: bool,
}

/// What a census found.
#[derive(Clone, Copy, Debug, PartialEq, Eq, Structural)]
pub struct LeaseBijection {
    /// Waiters that must have a lease.
    pub eligible_waiters: usize,
    /// Leases.
    pub live_leases: usize,
    /// Waiters with their own lease.
    pub matched: usize,
    /// Waiters that must have a lease and have none of their own.
    pub missing_leases: usize,
    /// Leases without a waiter that must have them.
    pub orphan_leases: usize,
    /// Leases on an incarnation that is leased already.
    pub duplicate_endpoint_incarnations: usize,
}

impl LeaseBijection {
    /// Has every waiter that must have a lease exactly one, and every lease such a waiter?
    pub open spec fn spec_holds(self) -> bool {
        self.missing_leases == 0 && self.orphan_leases == 0
            && self.duplicate_endpoint_incarnations == 0
    }

    /// Has every waiter that must have a lease exactly one, and every lease such a waiter?
    #[verifier::when_used_as_spec(spec_holds)]
    pub fn holds(self) -> (r: bool)
        ensures
            r == self.spec_holds(),
    {
        self.missing_leases == 0 && self.orphan_leases == 0
            && self.duplicate_endpoint_incarnations == 0
    }
}

/// Is `lease` the lease of `waiter` at endpoint `index`?
pub open spec fn is_lease_of(index: int, waiter: CensusWaiter, lease: AckLease) -> bool {
    lease.endpoint_index == index && lease.endpoint_generation == waiter.endpoint_generation
        && lease.waiter == waiter.waiter
}

/// Must the waiter at an endpoint have a lease?
pub open spec fn needs_lease(waiter: Option<CensusWaiter>) -> bool {
    waiter is Some && waiter->0.eligible
}

/// Does the waiter at endpoint `index` have its own lease?
pub open spec fn has_lease(
    index: int,
    waiter: Option<CensusWaiter>,
    lease: Option<AckLease>,
) -> bool {
    needs_lease(waiter) && lease is Some && is_lease_of(index, waiter->0, lease->0)
}

impl Kernel {
    /// The waiter at endpoint `index`; `admitted` says whether the endpoint takes part.
    pub open spec fn census_waiter(self, index: int, admitted: Seq<bool>) -> Option<CensusWaiter> {
        if 0 <= index < self.ipc.endpoints.len() {
            match self.ipc.endpoints[index].waiter {
                Some(record) => Some(
                    CensusWaiter {
                        endpoint_generation: self.ipc.endpoints[index].generation,
                        waiter: record.receiver,
                        eligible: index < admitted.len() && admitted[index]
                            && self.tasks.recv_v2_committed(record.receiver.tid.0),
                    },
                ),
                None => None,
            }
        } else {
            None
        }
    }

    /// Endpoints among the first `n` whose waiter must have a lease.
    pub open spec fn needing(self, admitted: Seq<bool>, n: int) -> nat
        decreases n,
    {
        if n <= 0 {
            0
        } else {
            self.needing(admitted, n - 1) + if needs_lease(self.census_waiter(n - 1, admitted)) {
                1nat
            } else {
                0nat
            }
        }
    }

    /// Endpoints among the first `n` with a lease in their slot.
    pub open spec fn leased(self, store: &DirectAckStore, n: int) -> nat
        decreases n,
    {
        if n <= 0 {
            0
        } else {
            self.leased(store, n - 1) + if store.spec_lease_at(n - 1) is Some {
                1nat
            } else {
                0nat
            }
        }
    }

    /// Endpoints among the first `n` whose waiter has its own lease.
    pub open spec fn matched(self, store: &DirectAckStore, admitted: Seq<bool>, n: int) -> nat
        decreases n,
    {
        if n <= 0 {
            0
        } else {
            self.matched(store, admitted, n - 1) + if has_lease(
                n - 1,
                self.census_waiter(n - 1, admitted),
                store.spec_lease_at(n - 1),
            ) {
                1nat
            } else {
                0nat
            }
        }
    }
}

/// The leases and the waiters that must have them agree exactly when the census says so: then
/// every such waiter has its own lease and every lease is the lease of such a waiter.
pub proof fn law_census_is_a_bijection(
    k: Kernel,
    store: &DirectAckStore,
    admitted: Seq<bool>,
    n: int,
)
    requires
        0 <= n,
    ensures
        k.matched(store, admitted, n) <= k.needing(admitted, n),
        k.matched(store, admitted, n) <= k.leased(store, n),
        (k.matched(store, admitted, n) == k.needing(admitted, n)) <==> (forall|i: int|
            0 <= i < n && #[trigger] needs_lease(k.census_waiter(i, admitted)) ==> has_lease(
                i,
                k.census_waiter(i, admitted),
                store.spec_lease_at(i),
            )),
        (k.matched(store, admitted, n) == k.leased(store, n)) <==> (forall|i: int|
            0 <= i < n && (#[trigger] store.spec_lease_at(i)) is Some ==> has_lease(
                i,
                k.census_waiter(i, admitted),
                store.spec_lease_at(i),
            )),
    decreases n,
{
    if n > 0 {
        law_census_is_a_bijection(k, store, admitted, n - 1);
        let w = k.census_waiter(n - 1, admitted);
        let l = store.spec_lease_at(n - 1);
        assert(needs_lease(w) == needs_lease(k.census_waiter(n - 1, admitted)));
        if k.matched(store, admitted, n) == k.needing(admitted, n) {
            assert forall|i: int|
                0 <= i < n && #[trigger] needs_lease(k.census_waiter(i, admitted)) implies has_lease(
                i,
                k.census_waiter(i, admitted),
                store.spec_lease_at(i),
            ) by {
                if i < n - 1 {
                    assert(needs_lease(k.census_waiter(i, admitted)));
                }
            }
        }
        if k.matched(store, admitted, n) == k.leased(store, n) {
            assert forall|i: int|
                0 <= i < n && (#[trigger] store.spec_lease_at(i)) is Some implies has_lease(
                i,
                k.census_waiter(i, admitted),
                store.spec_lease_at(i),
            ) by {
                if i < n - 1 {
                    assert(store.spec_lease_at(i) is Some);
                }
            }
        }
    }
}

impl SharedKernel {
    /// The waiter at endpoint `index`, as the census sees it.
    fn census_waiter(&self, index: usize, admitted: &Vec<bool>) -> (r: Option<CensusWaiter>)
        ensures
            r == self@.census_waiter(index as int, admitted@),
    {
        if index >= self.state.ipc.endpoints.len() {
            return None;
        }
        let slot = self.state.ipc.endpoints[index];
        match slot.waiter {
            None => None,
            Some(record) => Some(
                CensusWaiter {
                    endpoint_generation: slot.generation,
                    waiter: record.receiver,
                    eligible: index < admitted.len() && admitted[index]
                        && self.blocked_recv_v2_commit_is_complete_split_read(record.receiver.tid.0),
                },
            ),
        }
    }

    /// Holds the leases of `store` against the waiters of the endpoints that take part.
    pub fn direct_ack_lease_bijection(&self, store: &DirectAckStore, admitted: &Vec<bool>) -> (r:
        LeaseBijection)
        ensures
            r.eligible_waiters == self@.needing(admitted@, self@.ipc.endpoints.len() as int),
            r.live_leases == self@.leased(store, self@.ipc.endpoints.len() as int),
            r.matched == self@.matched(store, admitted@, self@.ipc.endpoints.len() as int),
            r.missing_leases == r.eligible_waiters - r.matched,
            r.orphan_leases == r.live_leases - r.matched,
            r.duplicate_endpoint_incarnations == duplicates(
                store.slots@,
                store.slots@.len() as int,
            ),
    {
        let mut needing: usize = 0;
        let mut leased: usize = 0;
        let mut matched: usize = 0;
        let mut i: usize = 0;
        while i < self.state.ipc.endpoints.len()
            invariant
                i <= self@.ipc.endpoints.len(),
                needing <= i,
                leased <= i,
                matched <= i,
                needing == self@.needing(admitted@, i as int),
                leased == self@.leased(store, i as int),
                matched == self@.matched(store, admitted@, i as int),
            decreases self@.ipc.endpoints.len() - i,
        {
            let waiter = self.census_waiter(i, admitted);
            let lease = store.live_lease_at(i);
            if let Some(w) = waiter {
                if w.eligible {
                    needing += 1;
                    if let Some(l) = lease {
                        if l.endpoint_index == i && l.endpoint_generation == w.endpoint_generation
                            && l.waiter == w.waiter {
                            matched += 1;
                        }
                    }
                }
            }
            if lease.is_some() {
                leased += 1;
            }
            i += 1;
        }
        proof {
            law_census_is_a_bijection(self@, store, admitted@, i as int);
        }
        LeaseBijection {
            eligible_waiters: needing,
            live_leases: leased,
            matched,
            missing_leases: needing - matched,
            orphan_leases: leased - matched,
            duplicate_endpoint_incarnations: store.duplicate_live_incarnations(),
        }
    }
}

} // verus!
