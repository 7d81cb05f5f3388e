//! Laws of shared regions: a delivery that fails is undone, and a receiver that was claimed for
//! it can be put back.
use vstd::prelude::*;

use crate::capability::Capability;
use crate::deferred::SharedRegionSnapshot;
use crate::ids::{Asid, CapId, PhysAddr, ThreadId, VirtAddr};
use crate::ipc::{ActiveMapping, Ipc, ReceiverWaiterIdentity};
use crate::kernel::Kernel;
use crate::runtime::shared_region::WaiterClaim;
use crate::seqs;
use crate::task::{TaskStatus, Tasks, ThreadControlBlock};

verus! {

/// A waiter that was claimed and put back waits as before.
pub proof fn law_claim_and_restore(
    ipc: Ipc,
    index: usize,
    generation: u64,
    receiver: ReceiverWaiterIdentity,
)
    requires
        ipc.claimable(index as int, generation, receiver),
    ensures
        ({
            let claim = WaiterClaim {
                eidx: index,
                generation,
                receiver,
                wait_generation: ipc.endpoints[index as int].waiter->0.wait_generation,
            };
            let claimed = ipc.with_waiter(index as int, None);
            &&& !claimed.claimable(index as int, generation, receiver)
            &&& claimed.waiter_restorable(claim)
            &&& claimed.waiter_restored(claim) == ipc
        }),
{
    let claim = WaiterClaim {
        eidx: index,
        generation,
        receiver,
        wait_generation: ipc.endpoints[index as int].waiter->0.wait_generation,
    };
    let claimed = ipc.with_waiter(index as int, None);
    assert(claimed.waiter_restored(claim).endpoints =~= ipc.endpoints);
}

/// A claim is not put back over another waiter, nor on another incarnation of the endpoint.
pub proof fn law_restore_displaces_nobody(k: Kernel, claim: WaiterClaim)
    requires
        k.ipc.waiter_at(claim.eidx as int) is Some || !(claim.eidx < k.ipc.endpoints.len()
            && k.ipc.endpoints[claim.eidx as int].generation == claim.generation),
    ensures
        k.claim_restored(claim) == k,
{
}

/// A commit that is taken back leaves the receiver waiting by the same capability; only its
/// return lanes stay cleared.
pub proof fn law_commit_and_uncommit(tasks: Tasks, tid: u64, asid: Asid)
    requires
        tasks.receiver_blocked(tid, asid),
    ensures
        ({
            let cap = tasks.blocked_recv_cap(tid, asid);
            let committed = tasks.committed(tid, asid);
            let tcb = tasks.find(tid)->0;
            &&& cap is Some
            &&& committed.can_uncommit(tid, asid)
            &&& committed.uncommitted(tid, asid, cap->0).receiver_blocked(tid, asid)
            &&& committed.uncommitted(tid, asid, cap->0) == tasks.with_task(
                tid,
                ThreadControlBlock {
                    user_context: tcb.user_context.spec_returns_cleared(),
                    ..tcb
                },
            )
        }),
{
    let tcb = tasks.find(tid)->0;
    let cap = tasks.blocked_recv_cap(tid, asid)->0;
    let runnable = ThreadControlBlock {
        status: TaskStatus::Runnable,
        user_context: tcb.user_context.spec_returns_cleared(),
        ..tcb
    };
    let waiting = ThreadControlBlock {
        user_context: tcb.user_context.spec_returns_cleared(),
        ..tcb
    };
    let committed = tasks.committed(tid, asid);
    seqs::lemma_first_where(tasks.tcbs, crate::task::has_tid(tid));
    crate::task::lemma_found_is_exact(tasks, tid);
    crate::task::lemma_replaced(tasks, tid, runnable);
    crate::task::lemma_replaced(tasks, tid, waiting);
    crate::task::lemma_found_is_exact(committed, tid);
    assert(committed.uncommitted(tid, asid, cap).tcbs =~= tasks.with_task(tid, waiting).tcbs);
}

/// A delivery to a blocked receiver that no longer waits where it did, or as who it was, wakes
/// nobody and changes nothing.
pub proof fn law_stale_delivery_wakes_nobody(k: Kernel, snap: SharedRegionSnapshot)
    requires
        snap.blocked_endpoint_waiter,
        k.finalize_claim(snap) is None,
    ensures
        k.finalize_result(snap) is None,
        k.after_finalize(snap) == k,
{
}

/// A receiver that could not be queued, and was not queued before, waits again where it waited:
/// nothing but its return lanes has changed.
pub proof fn law_unplaced_receiver_waits_again(k: Kernel, snap: SharedRegionSnapshot)
    requires
        snap.blocked_endpoint_waiter,
        k.finalize_claim(snap) is Some,
        k.finalize_result(snap) is None,
        !(k.sched.enqueue_verdict(
            k.commit_home(k.tasks.find(snap.receiver_tid)->0.cpu_affinity),
            snap.receiver_tid,
        )->Err_0 is AlreadyQueued),
    ensures
        k.after_finalize(snap) == (Kernel {
            tasks: k.tasks.returns_cleared(snap.receiver_tid),
            ..k
        }),
{
    let tid = snap.receiver_tid;
    let asid = snap.receiver_asid;
    let claim = k.finalize_claim(snap)->0;
    let index = claim.eidx;
    let home = k.tasks.find(tid)->0.cpu_affinity;
    let committed = k.finalize_committed(snap, claim);
    law_claim_and_restore(k.ipc, index, claim.generation, claim.receiver);
    law_commit_and_uncommit(k.tasks, tid, asid);
    crate::task::lemma_found_is_exact(k.tasks, tid);
    let queued = committed.after_receiver_enqueue(tid, home, false);
    assert(queued.sched == k.sched);
    assert(queued == committed);
    let cap = k.tasks.blocked_recv_cap(tid, asid)->0;
    let blocked = Kernel { tasks: queued.tasks.uncommitted(tid, asid, cap), ..queued };
    assert(blocked.claim_restorable(claim));
    assert(blocked.claim_restored(claim).ipc == k.ipc);
}

/// Mapping the pages of a region changes address spaces and memory counts, nothing else.
proof fn lemma_region_mapped_frame(
    k: Kernel,
    snap: SharedRegionSnapshot,
    base: PhysAddr,
    i: int,
    n: int,
)
    ensures
        k.region_mapped(snap, base, i, n).0 == (Kernel {
            vm: k.region_mapped(snap, base, i, n).0.vm,
            mem: k.region_mapped(snap, base, i, n).0.mem,
            ..k
        }),
    decreases n - i,
{
    if i < n && k.region_page_fits(snap, base, i) {
        lemma_region_mapped_frame(k.region_page_mapped(snap, base, i), snap, base, i + 1, n);
    }
}

/// Unmapping a range changes address spaces and memory counts, nothing else.
proof fn lemma_range_unmapped_frame(
    k: Kernel,
    asid: Asid,
    va: int,
    end: int,
    acked: bool,
    acks: Seq<usize>,
    i: int,
)
    ensures
        k.range_unmapped(asid, va, end, acked, acks, i).0 == (Kernel {
            vm: k.range_unmapped(asid, va, end, acked, acks, i).0.vm,
            mem: k.range_unmapped(asid, va, end, acked, acks, i).0.mem,
            ..k
        }),
    decreases (if end > va {
            end - va
        } else {
            0
        }),
{
    if va < end {
        let answer = crate::runtime::paging::acknowledged_at(acks, i);
        lemma_range_unmapped_frame(
            k.page_unmapped(asid, va, answer),
            asid,
            va + 4096,
            end,
            acked && !k.page_unacknowledged(asid, va, answer),
            acks,
            i + 1,
        );
    }
}

/// What taking a delivery back leaves of the capability domain and of the active mappings.
proof fn lemma_region_undone_frame(
    k: Kernel,
    snap: SharedRegionSnapshot,
    cap: CapId,
    pages: int,
    acks: Seq<usize>,
)
    ensures
        k.region_undone(snap, Some(cap), pages, acks).caps == k.caps.revoked(snap.receiver_cnode, cap),
        k.region_undone(snap, Some(cap), pages, acks).ipc == k.ipc.mapping_removed(
            snap.receiver_tid,
            cap,
        ),
        k.region_undone(snap, Some(cap), pages, acks).tasks == k.tasks,
        k.region_undone(snap, Some(cap), pages, acks).sched == k.sched,
        k.region_undone(snap, Some(cap), pages, acks).pending == k.pending,
{
    let base = snap.map_va as usize;
    lemma_range_unmapped_frame(
        k,
        snap.receiver_asid,
        base as int,
        k.range_end(base, Kernel::region_len(pages)),
        true,
        acks,
        0,
    );
}

/// Finalizing a delivery touches neither capabilities nor active mappings.
proof fn lemma_finalize_frame(k: Kernel, snap: SharedRegionSnapshot)
    ensures
        k.after_finalize(snap).caps == k.caps,
        k.after_finalize(snap).ipc.active_mappings == k.ipc.active_mappings,
{
}

/// The active mapping that was just registered is found, and removing it leaves the others.
proof fn lemma_registered_mapping(ipc: Ipc, mapping: ActiveMapping)
    requires
        ipc.mapping_fits(),
        !ipc.has_mapping(mapping.tid.0, mapping.cap),
    ensures
        ipc.mapping_registered(mapping).has_mapping(mapping.tid.0, mapping.cap),
        ipc.mapping_registered(mapping).mapping_removed(mapping.tid.0, mapping.cap).active_mappings
            == ipc.active_mappings,
{
    let p = crate::ipc::maps_cap(mapping.tid.0, mapping.cap);
    let after = ipc.mapping_registered(mapping).active_mappings;
    let n = ipc.active_mappings.len() as int;
    seqs::lemma_first_where(ipc.active_mappings, p);
    assert forall|j: int| 0 <= j < n implies !p(#[trigger] after[j]) by {
        assert(after[j] == ipc.active_mappings[j]);
    }
    seqs::lemma_first_where_is(after, p, n);
    assert(after.remove(n) =~= ipc.active_mappings);
}

/// A delivery that fails leaves the receiver no capability and no active mapping: both domains
/// are as they were.
pub proof fn law_failed_delivery_is_undone(k: Kernel, snap: SharedRegionSnapshot, acks: Seq<usize>)
    requires
        k.region_delivered(snap, acks).result is Err,
        k.caps.mint_verdict(snap.receiver_cnode) matches Ok(cap) ==> !k.ipc.has_mapping(
            snap.receiver_tid,
            cap,
        ),
    ensures
        k.region_delivered(snap, acks).kernel.caps == k.caps,
        k.region_delivered(snap, acks).kernel.ipc.active_mappings == k.ipc.active_mappings,
{
    let heard = Kernel {
        ipc: k.ipc.cancel_taken(snap.receiver_tid, snap.receiver_asid),
        ..k
    };
    if !k.ipc.cancel_overflow && !k.ipc.cancelled(snap.receiver_tid, snap.receiver_asid)
        && k.tasks.receiver_alive(snap.receiver_tid, snap.receiver_asid) && heard.ipc.object_live(
        snap.object,
    ) && k.caps.mint_verdict(snap.receiver_cnode) is Ok {
        let cap = k.caps.mint_verdict(snap.receiver_cnode)->Ok_0;
        let capability = Capability { object: snap.object, rights: snap.rights };
        crate::runtime::transfer::law_mint_and_revoke(k.caps, snap.receiver_cnode, capability);
        let minted = heard.ref_minted(snap.receiver_cnode, capability);
        let mapping = ActiveMapping {
            tid: ThreadId(snap.receiver_tid),
            cap,
            va: VirtAddr(snap.map_va),
            len: Kernel::region_len(snap.map_pages as int),
        };
        assert(heard.ipc.active_mappings == k.ipc.active_mappings);
        assert(!minted.ipc.has_mapping(snap.receiver_tid, cap));
        lemma_region_undone_frame(minted, snap, cap, 0, acks);
        if minted.ipc.mapping_fits() {
            lemma_registered_mapping(minted.ipc, mapping);
            let registered = Kernel { ipc: minted.ipc.mapping_registered(mapping), ..minted };
            lemma_region_undone_frame(registered, snap, cap, 0, acks);
            if let Some(base) = registered.mem.phys_base(snap.object) {
                let (mapped, n) = registered.region_mapped(snap, base, 0, snap.map_pages as int);
                lemma_region_mapped_frame(registered, snap, base, 0, snap.map_pages as int);
                lemma_region_undone_frame(mapped, snap, cap, n, acks);
                if n >= snap.map_pages {
                    let meta = Kernel::region_meta(snap, cap).bytes();
                    let told = mapped.user_copied(snap.receiver_asid, snap.meta_user_ptr, meta);
                    lemma_region_undone_frame(mapped, snap, cap, snap.map_pages as int, acks);
                    lemma_finalize_frame(told, snap);
                    lemma_region_undone_frame(
                        told.after_finalize(snap),
                        snap,
                        cap,
                        snap.map_pages as int,
                        acks,
                    );
                }
            }
        }
    }
}

/// A delivery that succeeds leaves the receiver a capability to the region, with the rights it
/// was sent with.
pub proof fn law_delivered_region_is_held(k: Kernel, snap: SharedRegionSnapshot, acks: Seq<usize>)
    requires
        k.region_delivered(snap, acks).result is Ok,
    ensures
        k.region_delivered(snap, acks).kernel.caps.resolve(
            snap.receiver_cnode,
            k.region_delivered(snap, acks).result->Ok_0.cap,
        ) == Some(Capability { object: snap.object, rights: snap.rights }),
{
    let heard = Kernel {
        ipc: k.ipc.cancel_taken(snap.receiver_tid, snap.receiver_asid),
        ..k
    };
    let cap = k.caps.mint_verdict(snap.receiver_cnode)->Ok_0;
    let capability = Capability { object: snap.object, rights: snap.rights };
    crate::runtime::transfer::law_mint_and_revoke(k.caps, snap.receiver_cnode, capability);
    let minted = heard.ref_minted(snap.receiver_cnode, capability);
    let registered = Kernel {
        ipc: minted.ipc.mapping_registered(
            ActiveMapping {
                tid: ThreadId(snap.receiver_tid),
                cap,
                va: VirtAddr(snap.map_va),
                len: Kernel::region_len(snap.map_pages as int),
            },
        ),
        ..minted
    };
    let base = registered.mem.phys_base(snap.object)->0;
    lemma_region_mapped_frame(registered, snap, base, 0, snap.map_pages as int);
    let mapped = registered.region_mapped(snap, base, 0, snap.map_pages as int).0;
    let meta = Kernel::region_meta(snap, cap).bytes();
    lemma_finalize_frame(
        mapped.user_copied(snap.receiver_asid, snap.meta_user_ptr, meta),
        snap,
    );
}

/// A delivery leaves alone what is set aside.
pub(crate) proof fn lemma_region_pending(k: Kernel, snap: SharedRegionSnapshot, acks: Seq<usize>)
    ensures
        k.region_delivered(snap, acks).kernel.pending == k.pending,
{
    let heard = Kernel {
        ipc: k.ipc.cancel_taken(snap.receiver_tid, snap.receiver_asid),
        ..k
    };
    if k.caps.mint_verdict(snap.receiver_cnode) is Ok {
        let cap = k.caps.mint_verdict(snap.receiver_cnode)->Ok_0;
        let minted = heard.ref_minted(
            snap.receiver_cnode,
            Capability { object: snap.object, rights: snap.rights },
        );
        let registered = Kernel {
            ipc: minted.ipc.mapping_registered(
                ActiveMapping {
                    tid: ThreadId(snap.receiver_tid),
                    cap,
                    va: VirtAddr(snap.map_va),
                    len: Kernel::region_len(snap.map_pages as int),
                },
            ),
            ..minted
        };
        lemma_region_undone_frame(minted, snap, cap, 0, acks);
        lemma_region_undone_frame(registered, snap, cap, 0, acks);
        if let Some(base) = registered.mem.phys_base(snap.object) {
            let (mapped, n) = registered.region_mapped(snap, base, 0, snap.map_pages as int);
            lemma_region_mapped_frame(registered, snap, base, 0, snap.map_pages as int);
            lemma_region_undone_frame(mapped, snap, cap, n, acks);
            lemma_region_undone_frame(mapped, snap, cap, snap.map_pages as int, acks);
            let meta = Kernel::region_meta(snap, cap).bytes();
            let told = mapped.user_copied(snap.receiver_asid, snap.meta_user_ptr, meta);
            lemma_region_undone_frame(
                told.after_finalize(snap),
                snap,
                cap,
                snap.map_pages as int,
                acks,
            );
        }
    }
}

} // verus!
