//! Deliveries of regions, step by step: requests to stop, active mappings, the receiver that goes
//! on or waits again, and what a delivery is refused for.
use vstd::prelude::*;

use crate::capability::{CapObject, Capability};
use crate::deferred::SharedRegionSnapshot;
use crate::ids::{Asid, CapId, CpuId, PhysAddr, SchedulerError, ThreadId, VirtAddr};
use crate::ipc::{ActiveMapping, EndpointSlot, EndpointWaiterRecord, Ipc};
use crate::kernel::Kernel;
use crate::runtime::shared_region::{ReceiverCommit, ReceiverEnqueue, WaiterClaim};
use crate::scheduler::{RunEntry, Sched, WithdrawOutcome};
use crate::seqs;
use crate::task::{TaskStatus, Tasks, ThreadControlBlock, UserRegisterContext, WaitReason};

verus! {

/// Is request `c` the first by which this incarnation asks to stop?
pub open spec fn asks_to_stop(ipc: Ipc, tid: u64, asid: Asid, c: int) -> bool {
    &&& 0 <= c < ipc.cancels.len()
    &&& ipc.cancels[c].tid == tid
    &&& ipc.cancels[c].asid == asid
    &&& forall|d: int|
        0 <= d < c ==> (#[trigger] ipc.cancels[d]).tid != tid || ipc.cancels[d].asid != asid
}

/// A request to stop is heard once: the first of this very incarnation is taken, and no other.
pub proof fn law_request_to_stop_is_heard(ipc: Ipc, tid: u64, asid: Asid, c: int)
    ensures
        asks_to_stop(ipc, tid, asid, c) ==> ipc.cancelled(tid, asid) && ipc.cancel_taken(tid, asid)
            == (Ipc { cancels: ipc.cancels.remove(c), ..ipc }),
        (forall|d: int|
            0 <= d < ipc.cancels.len() ==> (#[trigger] ipc.cancels[d]).tid != tid
                || ipc.cancels[d].asid != asid) ==> !ipc.cancelled(tid, asid) && ipc.cancel_taken(
            tid,
            asid,
        ) == ipc,
{
    let p = crate::ipc::cancels(tid, asid);
    if asks_to_stop(ipc, tid, asid, c) {
        seqs::lemma_first_where_is(ipc.cancels, p, c);
    }
    if forall|d: int|
        0 <= d < ipc.cancels.len() ==> (#[trigger] ipc.cancels[d]).tid != tid
            || ipc.cancels[d].asid != asid {
        seqs::lemma_first_where_is(ipc.cancels, p, ipc.cancels.len() as int);
    }
}

/// Is mapping `m` the first of capability `cap` of task `tid`?
pub open spec fn is_mapping_of(ipc: Ipc, tid: u64, cap: CapId, m: int) -> bool {
    &&& 0 <= m < ipc.active_mappings.len()
    &&& ipc.active_mappings[m].tid.0 == tid
    &&& ipc.active_mappings[m].cap == cap
    &&& forall|d: int|
        0 <= d < m ==> (#[trigger] ipc.active_mappings[d]).tid.0 != tid
            || ipc.active_mappings[d].cap != cap
}

/// An active mapping is registered while fewer than 32 are; it is found by its task and its
/// capability, its length can be changed, and it can be removed: nothing else changes.
pub proof fn law_active_mappings_are_kept(
    ipc: Ipc,
    mapping: ActiveMapping,
    tid: u64,
    cap: CapId,
    len: usize,
    m: int,
)
    ensures
        ipc.mapping_fits() <==> ipc.active_mappings.len() < 32,
        ipc.mapping_registered(mapping) == if ipc.active_mappings.len() < 32 {
            Ipc { active_mappings: ipc.active_mappings.push(mapping), ..ipc }
        } else {
            ipc
        },
        is_mapping_of(ipc, tid, cap, m) ==> {
            &&& ipc.has_mapping(tid, cap)
            &&& ipc.mapping_resized(tid, cap, len) == (Ipc {
                active_mappings: ipc.active_mappings.update(
                    m,
                    ActiveMapping { len, ..ipc.active_mappings[m] },
                ),
                ..ipc
            })
            &&& ipc.mapping_removed(tid, cap) == (Ipc {
                active_mappings: ipc.active_mappings.remove(m),
                ..ipc
            })
        },
        (forall|d: int|
            0 <= d < ipc.active_mappings.len() ==> (#[trigger] ipc.active_mappings[d]).tid.0 != tid
                || ipc.active_mappings[d].cap != cap) ==> !ipc.has_mapping(tid, cap)
            && ipc.mapping_resized(tid, cap, len) == ipc && ipc.mapping_removed(tid, cap) == ipc,
{
    let p = crate::ipc::maps_cap(tid, cap);
    if is_mapping_of(ipc, tid, cap, m) {
        seqs::lemma_first_where_is(ipc.active_mappings, p, m);
    }
    if forall|d: int|
        0 <= d < ipc.active_mappings.len() ==> (#[trigger] ipc.active_mappings[d]).tid.0 != tid
            || ipc.active_mappings[d].cap != cap {
        seqs::lemma_first_where_is(ipc.active_mappings, p, ipc.active_mappings.len() as int);
    }
}

/// A receiver is let go exactly while it is, in this very incarnation, blocked in a receive: it is
/// then runnable with its return lanes clear.  One that is over is gone, and any other is another.
pub proof fn law_receiver_is_committed(tasks: Tasks, asid: Asid, i: int)
    requires
        tasks.apart(),
        0 <= i < tasks.tcbs.len(),
        tasks.tcbs[i] is Some,
    ensures
        ({
            let tcb = tasks.tcbs[i]->0;
            let tid = tcb.tid.0;
            let over = tcb.status is Exited || tcb.status is Dead;
            let waits = tcb.asid == Some(asid) && (match tcb.status {
                TaskStatus::Blocked(WaitReason::EndpointReceive(_)) => true,
                _ => false,
            });
            let verdict = tasks.commit_verdict(tid, asid);
            &&& verdict == if over {
                ReceiverCommit::GoneDead
            } else if waits {
                ReceiverCommit::Committed(tcb.cpu_affinity)
            } else {
                ReceiverCommit::Replaced
            }
            &&& tasks.receiver_blocked(tid, asid) == waits
            &&& tasks.receiver_alive(tid, asid) == (tcb.asid == Some(asid) && !over)
            &&& tasks.committed(tid, asid) == if waits {
                Tasks {
                    tcbs: tasks.tcbs.update(
                        i,
                        Some(
                            ThreadControlBlock {
                                status: TaskStatus::Runnable,
                                user_context: UserRegisterContext {
                                    ret0: 0,
                                    ret1: 0,
                                    ret2: 0,
                                    ret_error: 0,
                                    ..tcb.user_context
                                },
                                ..tcb
                            },
                        ),
                    ),
                    ..tasks
                }
            } else {
                tasks
            }
        }),
{
    crate::laws::slots::law_task_is_found_where_it_stands(tasks, i);
}

/// A receiver that was let go waits again exactly while it is runnable in this very incarnation;
/// it then waits by the capability that is named, and that capability is what it waits by.
pub proof fn law_receiver_waits_again(tasks: Tasks, i: int, cap: CapId)
    requires
        tasks.apart(),
        0 <= i < tasks.tcbs.len(),
        tasks.tcbs[i] is Some,
        tasks.tcbs[i]->0.asid is Some,
    ensures
        ({
            let tcb = tasks.tcbs[i]->0;
            let tid = tcb.tid.0;
            let asid = tcb.asid->0;
            &&& tasks.can_uncommit(tid, asid) <==> tcb.status == TaskStatus::Runnable
            &&& tasks.uncommitted(tid, asid, cap) == if tcb.status == TaskStatus::Runnable {
                Tasks {
                    tcbs: tasks.tcbs.update(
                        i,
                        Some(
                            ThreadControlBlock {
                                status: TaskStatus::Blocked(WaitReason::EndpointReceive(cap)),
                                ..tcb
                            },
                        ),
                    ),
                    ..tasks
                }
            } else {
                tasks
            }
            &&& tasks.blocked_recv_cap(tid, asid) == match tcb.status {
                TaskStatus::Blocked(WaitReason::EndpointReceive(by)) => Some(by),
                _ => None,
            }
        }),
{
    crate::laws::slots::law_task_is_found_where_it_stands(tasks, i);
}

/// A waiter is claimed exactly where this very receiver waits at this very endpoint, and put back
/// exactly where the endpoint is the same and nobody waits there.
pub proof fn law_waiter_is_claimed_and_put_back(ipc: Ipc, claim: WaiterClaim)
    ensures
        ({
            let e = claim.eidx as int;
            let there = e < ipc.endpoints.len() && ipc.endpoints[e].generation
                == claim.generation;
            &&& ipc.claimable(e, claim.generation, claim.receiver) <==> there
                && ipc.endpoints[e].waiter is Some && ipc.endpoints[e].waiter->0.receiver
                == claim.receiver
            &&& ipc.waiter_restorable(claim) <==> there && ipc.endpoints[e].waiter is None
            &&& ipc.waiter_restored(claim) == (Ipc {
                endpoints: ipc.endpoints.update(
                    e,
                    EndpointSlot {
                        waiter: Some(
                            EndpointWaiterRecord {
                                receiver: claim.receiver,
                                wait_generation: claim.wait_generation,
                            },
                        ),
                        ..ipc.endpoints[e]
                    },
                ),
                ..ipc
            })
        }),
{
}

/// A receiver that waits nowhere is made runnable where it takes part in scheduling, and queued on
/// its home or else on the current processor.
pub proof fn law_unblocked_receiver_is_woken(k: Kernel, i: int)
    requires
        k.tasks.apart(),
        0 <= i < k.tasks.tcbs.len(),
        k.tasks.tcbs[i] is Some,
    ensures
        ({
            let tcb = k.tasks.tcbs[i]->0;
            let home = match tcb.cpu_affinity {
                Some(home) => home,
                None => k.sched.current_cpu,
            };
            k.receiver_woken(tcb.tid.0) == if crate::laws::waking::takes_part(tcb.status) {
                Kernel {
                    tasks: Tasks {
                        tcbs: k.tasks.tcbs.update(
                            i,
                            Some(ThreadControlBlock { status: TaskStatus::Runnable, ..tcb }),
                        ),
                        ..k.tasks
                    },
                    sched: if crate::laws::waking::may_join(k.sched, home, tcb.tid.0) {
                        Sched {
                            queue: k.sched.queue.push(
                                RunEntry {
                                    cpu: home,
                                    tid: tcb.tid.0,
                                    priority: crate::laws::waking::class_priority(tcb.class),
                                },
                            ),
                            ..k.sched
                        }
                    } else {
                        k.sched
                    },
                    ..k
                }
            } else {
                k
            }
        }),
{
    let tcb = k.tasks.tcbs[i]->0;
    let told = ThreadControlBlock { status: TaskStatus::Runnable, ..tcb };
    let home = match tcb.cpu_affinity {
        Some(home) => home,
        None => k.sched.current_cpu,
    };
    crate::laws::slots::law_task_is_found_where_it_stands(k.tasks, i);
    crate::laws::slots::lemma_with_keeps_apart(k.tasks, i, told);
    crate::laws::slots::law_task_is_found_where_it_stands(k.tasks.with(i, told), i);
    crate::laws::waking::law_enqueue_is_exact(
        k.sched,
        home,
        tcb.tid.0,
        crate::laws::waking::class_priority(tcb.class),
    );
}

/// Queueing a receiver that was let go: it joins the queue of its home, or else of the current
/// processor, where it may; where it is queued there already, that entry is withdrawn if asked
/// for; and else nothing changes.
pub proof fn law_committed_receiver_is_queued(
    k: Kernel,
    i: int,
    affinity: Option<CpuId>,
    reconcile: bool,
)
    requires
        k.tasks.apart(),
        0 <= i < k.tasks.tcbs.len(),
        k.tasks.tcbs[i] is Some,
    ensures
        ({
            let tcb = k.tasks.tcbs[i]->0;
            let tid = tcb.tid.0;
            let cpu = match affinity {
                Some(home) => home,
                None => k.sched.current_cpu,
            };
            let joins = crate::laws::waking::may_join(k.sched, cpu, tid);
            let outcome = k.receiver_enqueue(tid, affinity, reconcile);
            let after = k.after_receiver_enqueue(tid, affinity, reconcile);
            &&& joins ==> outcome == (ReceiverEnqueue::Enqueued { cpu })
            &&& joins ==> after == (Kernel {
                sched: Sched {
                    queue: k.sched.queue.push(
                        RunEntry {
                            cpu,
                            tid,
                            priority: crate::laws::waking::class_priority(tcb.class),
                        },
                    ),
                    ..k.sched
                },
                ..k
            })
            &&& !joins ==> outcome is Rejected && outcome->Rejected_cpu == cpu
            &&& !joins && !reconcile ==> after == k && outcome->reconciled is None
            &&& !joins && reconcile && outcome->error is AlreadyQueued ==> outcome->reconciled
                == Some(k.sched.withdraw_verdict(cpu, tid)) && after == (Kernel {
                sched: k.sched.withdrawn(cpu, tid),
                ..k
            })
            &&& !joins && reconcile && !(outcome->error is AlreadyQueued) ==> after == k
                && outcome->reconciled is None
        }),
{
    let tcb = k.tasks.tcbs[i]->0;
    let cpu = match affinity {
        Some(home) => home,
        None => k.sched.current_cpu,
    };
    crate::laws::slots::law_task_is_found_where_it_stands(k.tasks, i);
    crate::laws::waking::law_enqueue_is_exact(
        k.sched,
        cpu,
        tcb.tid.0,
        crate::laws::waking::class_priority(tcb.class),
    );
}

/// A receiver is known to be on no queue where it could not be placed, unless it was queued there
/// already and that entry was not withdrawn; a rejection is recoverable unless it was queued.
pub proof fn law_unplaced_receiver_is_told(outcome: ReceiverEnqueue)
    ensures
        outcome.spec_receiver_is_unplaced() <==> outcome is Rejected && (outcome->error
            != SchedulerError::AlreadyQueued || outcome->reconciled == Some(
            WithdrawOutcome::Removed,
        )),
        outcome.spec_rejection_is_runtime_recoverable() <==> outcome is Rejected
            && outcome->error != SchedulerError::AlreadyQueued,
{
}

/// The memory with one pin less on the memory behind `object`.
pub open spec fn unpinned_memory(k: Kernel, object: CapObject) -> Kernel {
    match object {
        CapObject::MemoryObject { id } | CapObject::DmaRegion { id } => Kernel {
            mem: k.mem.pin_noted(id, false),
            ..k
        },
        _ => k,
    }
}

/// A delivery that is stopped before it begins releases the pin and does nothing else, but for
/// taking the request to stop: because requests overflowed, because this receiver asked to stop,
/// because the receiver is gone, because the object is, or because no slot is free.
pub proof fn law_region_is_refused(k: Kernel, snap: SharedRegionSnapshot, acks: Seq<usize>)
    ensures
        ({
            let tid = snap.receiver_tid;
            let asid = snap.receiver_asid;
            let end = k.region_delivered(snap, acks);
            let heard = Kernel { ipc: k.ipc.cancel_taken(tid, asid), ..k };
            let stopped = k.ipc.cancelled(tid, asid);
            let alive = k.tasks.receiver_alive(tid, asid);
            let live = k.ipc.object_live(snap.object);
            let room = k.caps.mint_verdict(snap.receiver_cnode) is Ok;
            &&& k.ipc.cancel_overflow ==> end.result is Err && end.result->Err_0 is Cancelled
                && end.kernel == unpinned_memory(k, snap.object)
            &&& !k.ipc.cancel_overflow && stopped ==> end.result is Err && end.result->Err_0
                is Cancelled && end.kernel == unpinned_memory(heard, snap.object)
            &&& !k.ipc.cancel_overflow && !stopped && !alive ==> end.result is Err
                && end.result->Err_0 is ReceiverGone && end.kernel == unpinned_memory(
                k,
                snap.object,
            )
            &&& !k.ipc.cancel_overflow && !stopped && alive && !live ==> end.result is Err
                && end.result->Err_0 is ObjectGone && end.kernel == unpinned_memory(k, snap.object)
            &&& !k.ipc.cancel_overflow && !stopped && alive && live && !room ==> end.result is Err
                && end.result->Err_0 is NoCapability && end.kernel == unpinned_memory(
                k,
                snap.object,
            )
            &&& !k.ipc.cancel_overflow && !stopped && alive && live && room
                && k.ipc.active_mappings.len() >= 32 ==> end.result is Err && end.result->Err_0
                is NoMappingSlot
        }),
{
    assert(!k.ipc.cancelled(snap.receiver_tid, snap.receiver_asid) ==> k.ipc.cancel_taken(
        snap.receiver_tid,
        snap.receiver_asid,
    ) == k.ipc);
}

proof fn lemma_all_pages_fit(
    k: Kernel,
    snap: SharedRegionSnapshot,
    base: PhysAddr,
    i: int,
    n: int,
)
    requires
        k.vm.has_space(snap.receiver_asid),
        snap.map_va % 4096 == 0,
        0 <= i <= n,
        n > 0 ==> snap.map_va + 4096 * (n - 1) <= u64::MAX,
        n > 0 ==> base.0 + 4096 * (n - 1) <= u64::MAX,
    ensures
        k.region_mapped(snap, base, i, n).1 == n,
    decreases n - i,
{
    if i < n {
        let next = k.region_page_mapped(snap, base, i);
        assert(k.region_page_fits(snap, base, i));
        assert(next.vm.spaces == k.vm.spaces);
        lemma_all_pages_fit(next, snap, base, i + 1, n);
    }
}

/// A delivery that nothing stands in the way of succeeds: nobody asked to stop, the receiver lives,
/// its node and the mappings have room, the memory is known and every page of it has an address,
/// the metadata buffer can be written once the pages are mapped, and the receiver goes on.
pub proof fn law_region_is_delivered(
    k: Kernel,
    snap: SharedRegionSnapshot,
    acks: Seq<usize>,
    base: PhysAddr,
)
    requires
        !k.ipc.cancel_overflow,
        !k.ipc.cancelled(snap.receiver_tid, snap.receiver_asid),
        k.tasks.receiver_alive(snap.receiver_tid, snap.receiver_asid),
        snap.object is MemoryObject || snap.object is DmaRegion,
        k.caps.mint_verdict(snap.receiver_cnode) is Ok,
        k.ipc.active_mappings.len() < 32,
        k.vm.has_space(snap.receiver_asid),
        snap.map_va % 4096 == 0,
        snap.map_pages > 0 ==> snap.map_va + 4096 * (snap.map_pages - 1) <= u64::MAX,
        snap.map_pages > 0 ==> base.0 + 4096 * (snap.map_pages - 1) <= u64::MAX,
        ({
            let minted = k.ref_minted(
                snap.receiver_cnode,
                Capability { object: snap.object, rights: snap.rights },
            );
            let registered = Kernel {
                ipc: minted.ipc.mapping_registered(
                    ActiveMapping {
                        tid: ThreadId(snap.receiver_tid),
                        cap: k.caps.mint_verdict(snap.receiver_cnode)->Ok_0,
                        va: VirtAddr(snap.map_va),
                        len: Kernel::region_len(snap.map_pages as int),
                    },
                ),
                ..minted
            };
            let mapped = registered.region_mapped(snap, base, 0, snap.map_pages as int).0;
            let told = mapped.user_copied(
                snap.receiver_asid,
                snap.meta_user_ptr,
                Kernel::region_meta(snap, k.caps.mint_verdict(snap.receiver_cnode)->Ok_0).bytes(),
            );
            &&& registered.mem.phys_base(snap.object) == Some(base)
            &&& crate::laws::reading::writable(
                mapped,
                snap.receiver_asid,
                snap.meta_user_ptr,
                40,
            )
            &&& told.finalize_result(snap) is Some
        }),
    ensures
        k.region_delivered(snap, acks).result is Ok,
        k.region_delivered(snap, acks).result->Ok_0.cap == k.caps.mint_verdict(
            snap.receiver_cnode,
        )->Ok_0,
{
    let cap = k.caps.mint_verdict(snap.receiver_cnode)->Ok_0;
    let minted = k.ref_minted(
        snap.receiver_cnode,
        Capability { object: snap.object, rights: snap.rights },
    );
    let registered = Kernel {
        ipc: minted.ipc.mapping_registered(
            ActiveMapping {
                tid: ThreadId(snap.receiver_tid),
                cap,
                va: VirtAddr(snap.map_va),
                len: Kernel::region_len(snap.map_pages as int),
            },
        ),
        ..minted
    };
    lemma_all_pages_fit(registered, snap, base, 0, snap.map_pages as int);
    let mapped = registered.region_mapped(snap, base, 0, snap.map_pages as int).0;
    let meta = Kernel::region_meta(snap, cap).bytes();
    assert(meta.len() == 40);
    assert(mapped.user_copy_fits(snap.receiver_asid, snap.meta_user_ptr, meta));
    assert(k.ipc.cancel_taken(snap.receiver_tid, snap.receiver_asid) == k.ipc);
}

} // verus!
