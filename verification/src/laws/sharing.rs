//! What a delivered region leaves in the receiver's address space, node and memory.
use vstd::prelude::*;

use crate::capability::{CapEntry, CapObject, Capability};
use crate::deferred::SharedRegionSnapshot;
use crate::ids::{PhysAddr, ThreadId, VirtAddr};
use crate::ipc::{ActiveMapping, EndpointSlot};
use crate::kernel::Kernel;
use crate::scheduler::{RunEntry, Sched};
use crate::seqs;
use crate::task::{TaskStatus, Tasks, ThreadControlBlock, UserRegisterContext, WaitReason};
use crate::vm::{Mapping, PageFlags};

verus! {

/// Where page `p` of the region is seen by the receiver.
pub open spec fn page_at(snap: SharedRegionSnapshot, p: int) -> u64 {
    (snap.map_va + 4096 * p) as u64
}

/// How page `p` of a region at `base` is mapped.
pub open spec fn page_of_region(snap: SharedRegionSnapshot, base: PhysAddr, p: int) -> Mapping {
    Mapping {
        phys: PhysAddr((base.0 + 4096 * p) as u64),
        flags: PageFlags { user: true, read: true, write: snap.writable, execute: false },
    }
}

/// Mapping the pages of a region from `i` on: those that were mapped are seen, the earlier pages
/// stay, and only pages and memory change.
proof fn lemma_pages_seen(
    k: Kernel,
    snap: SharedRegionSnapshot,
    base: PhysAddr,
    i: int,
    n: int,
    p: int,
)
    requires
        k.vm.apart(),
        0 <= i <= n,
        0 <= p,
        p < i ==> snap.map_va + 4096 * p <= u64::MAX && snap.map_va % 4096 == 0 && k.vm.resolve(
            snap.receiver_asid,
            page_at(snap, p),
        ) == Some(page_of_region(snap, base, p)),
    ensures
        ({
            let (after, m) = k.region_mapped(snap, base, i, n);
            &&& i <= m <= n
            &&& after.vm.apart()
            &&& p < m ==> snap.map_va + 4096 * p <= u64::MAX && after.vm.resolve(
                snap.receiver_asid,
                page_at(snap, p),
            ) == Some(page_of_region(snap, base, p))
            &&& i < m ==> snap.map_va % 4096 == 0
            &&& after == (Kernel { vm: after.vm, mem: after.mem, ..k })
            &&& after.mem.bytes == k.mem.bytes
            &&& after.vm.spaces == k.vm.spaces
        }),
    decreases n - i,
{
    if i < n && k.region_page_fits(snap, base, i) {
        let va = VirtAddr(page_at(snap, i));
        assert(va.0 == snap.map_va + 4096 * i);
        assert(va.0 % 4096 == 0);
        assert(snap.map_va % 4096 == 0);
        let next = k.region_page_mapped(snap, base, i);
        let mapping = page_of_region(snap, base, i);
        assert(next.vm == k.vm.mapped(snap.receiver_asid, va, mapping));
        let away = crate::ids::Asid(if snap.receiver_asid.0 == 0 {
            1
        } else {
            0
        });
        crate::laws::memory::law_mapped_page_is_found(
            k.vm,
            snap.receiver_asid,
            va,
            mapping,
            away,
            0,
        );
        if p < i {
            assert(page_at(snap, p) != va.0);
            assert(page_at(snap, p) % 4096 == 0);
            crate::laws::memory::law_mapped_page_is_found(
                k.vm,
                snap.receiver_asid,
                va,
                mapping,
                snap.receiver_asid,
                page_at(snap, p),
            );
        }
        lemma_pages_seen(next, snap, base, i + 1, n, p);
    }
}

/// Finalizing changes tasks, run queues and endpoints only.
proof fn lemma_finalize_frame(k: Kernel, snap: SharedRegionSnapshot)
    ensures
        k.after_finalize(snap) == (Kernel {
            tasks: k.after_finalize(snap).tasks,
            sched: k.after_finalize(snap).sched,
            ipc: k.after_finalize(snap).ipc,
            ..k
        }),
        k.after_finalize(snap).ipc.active_mappings == k.ipc.active_mappings,
{
}

/// A region that was delivered: the receiver's node has one entry more, in a slot that was free,
/// with exactly the object and the rights that were sent; every page of the region is seen at its
/// place in the receiver's address space, writable only if that was asked for and never executable;
/// the mapping is registered; and the metadata in the receiver's memory names the capability.
pub proof fn law_region_arrives(
    k: Kernel,
    snap: SharedRegionSnapshot,
    acks: Seq<usize>,
    base: PhysAddr,
    o: int,
    p: int,
)
    requires
        k.vm.apart(),
        k.region_delivered(snap, acks).result is Ok,
        0 <= o < k.mem.objects.len(),
        k.mem.objects[o] is Some,
        k.mem.objects[o]->0.phys == base,
        match snap.object {
            CapObject::MemoryObject { id } => k.mem.objects[o]->0.id == id,
            CapObject::DmaRegion { id } => k.mem.objects[o]->0.id == id,
            _ => false,
        },
        forall|m: int|
            0 <= m < o && (#[trigger] k.mem.objects[m]) is Some ==> k.mem.objects[m]->0.id
                != k.mem.objects[o]->0.id,
        0 <= p < snap.map_pages,
    ensures
        ({
            let end = k.region_delivered(snap, acks);
            let after = end.kernel;
            let cap = end.result->Ok_0.cap;
            let capability = Capability { object: snap.object, rights: snap.rights };
            &&& after.vm.resolve(snap.receiver_asid, page_at(snap, p)) == Some(
                page_of_region(snap, base, p),
            )
            &&& k.caps.resolve(snap.receiver_cnode, cap) is None
            &&& after.caps.resolve(snap.receiver_cnode, cap) == Some(capability)
            &&& after.caps.entries == k.caps.entries.push(
                CapEntry { cnode: snap.receiver_cnode, cap, capability },
            )
            &&& after.ipc.active_mappings == k.ipc.active_mappings.push(
                ActiveMapping {
                    tid: ThreadId(snap.receiver_tid),
                    cap,
                    va: VirtAddr(snap.map_va),
                    len: if 4096 * snap.map_pages <= usize::MAX {
                        (4096 * snap.map_pages) as usize
                    } else {
                        usize::MAX
                    },
                },
            )
            &&& (forall|a: int, b: int|
                0 <= a < b < 40 ==> #[trigger] crate::laws::handing::behind(
                    after.vm,
                    snap.receiver_asid,
                    snap.meta_user_ptr,
                    a,
                ) != #[trigger] crate::laws::handing::behind(
                    after.vm,
                    snap.receiver_asid,
                    snap.meta_user_ptr,
                    b,
                )) ==> {
                let asid = snap.receiver_asid;
                let ptr = snap.meta_user_ptr;
                &&& crate::laws::handing::reads_word(after, asid, ptr, 0, 0)
                &&& crate::laws::handing::reads_word(
                    after,
                    asid,
                    ptr,
                    8,
                    ((snap.opcode as u64) << 48) | 0,
                )
                &&& crate::laws::handing::reads_word(after, asid, ptr, 16, cap.0)
                &&& crate::laws::handing::reads_word(after, asid, ptr, 24, 1)
                &&& crate::laws::handing::reads_word(after, asid, ptr, 32, snap.sender_tid)
            }
        }),
{
    let end = k.region_delivered(snap, acks);
    let after = end.kernel;
    let cap = end.result->Ok_0.cap;
    let capability = Capability { object: snap.object, rights: snap.rights };
    crate::runtime::transfer::law_mint_and_revoke(k.caps, snap.receiver_cnode, capability);
    let heard = Kernel {
        ipc: k.ipc.cancel_taken(snap.receiver_tid, snap.receiver_asid),
        ..k
    };
    let minted = heard.ref_minted(snap.receiver_cnode, capability);
    let registered = Kernel {
        ipc: minted.ipc.mapping_registered(
            ActiveMapping {
                tid: ThreadId(snap.receiver_tid),
                cap,
                va: VirtAddr(snap.map_va),
                len: Kernel::region_len(snap.map_pages as int),
            },
        ),
        ..minted
    };
    let id = k.mem.objects[o]->0.id;
    let has = crate::memory::has_id(id);
    assert forall|m: int| 0 <= m < o implies !(has(#[trigger] registered.mem.objects[m])) by {
        seqs::lemma_first_where_is(k.mem.objects, has, o);
        assert(!(has(k.mem.objects[m])));
    }
    seqs::lemma_first_where_is(k.mem.objects, has, o);
    seqs::lemma_first_where_is(registered.mem.objects, has, o);
    assert(registered.mem.phys_base(snap.object) == Some(base));
    let (mapped, n) = registered.region_mapped(snap, base, 0, snap.map_pages as int);
    lemma_pages_seen(registered, snap, base, 0, snap.map_pages as int, p);
    let meta = Kernel::region_meta(snap, cap);
    let told = mapped.user_copied(snap.receiver_asid, snap.meta_user_ptr, meta.bytes());
    lemma_finalize_frame(told, snap);
    assert(after.vm == mapped.vm);
    assert(after.mem.bytes == told.mem.bytes);
    if forall|a: int, b: int|
        0 <= a < b < 40 ==> #[trigger] crate::laws::handing::behind(
            after.vm,
            snap.receiver_asid,
            snap.meta_user_ptr,
            a,
        ) != #[trigger] crate::laws::handing::behind(
            after.vm,
            snap.receiver_asid,
            snap.meta_user_ptr,
            b,
        ) {
        assert(meta.bytes().len() == 40);
        crate::laws::reading::lemma_single_read_back(
            mapped,
            snap.receiver_asid,
            snap.meta_user_ptr,
            meta.bytes(),
        );
        assert(crate::laws::handing::reads_bytes(
            after,
            snap.receiver_asid,
            snap.meta_user_ptr,
            meta.bytes(),
        ));
        crate::laws::handing::lemma_meta_words(
            after,
            snap.receiver_asid,
            snap.meta_user_ptr,
            meta,
        );
    }
}

/// The receiver of a region that waited at its endpoint goes on: it waits there no more, is
/// runnable with its return lanes clear, and is queued on its home or else on the current
/// processor.  Where it may not join, the delivery is stale and it waits as before.
pub proof fn law_region_receiver_goes_on(k: Kernel, snap: SharedRegionSnapshot, i: int)
    requires
        k.tasks.apart(),
        snap.blocked_endpoint_waiter,
        0 <= i < k.tasks.tcbs.len(),
        k.tasks.tcbs[i] is Some,
        k.tasks.tcbs[i]->0.tid.0 == snap.receiver_tid,
        k.tasks.tcbs[i]->0.asid == Some(snap.receiver_asid),
        k.tasks.tcbs[i]->0.status matches TaskStatus::Blocked(WaitReason::EndpointReceive(_)),
        snap.endpoint matches CapObject::Endpoint { index, generation } && index
            < k.ipc.endpoints.len() && k.ipc.endpoints[index as int].generation == generation
            && k.ipc.endpoints[index as int].waiter is Some
            && k.ipc.endpoints[index as int].waiter->0.receiver.tid.0 == snap.receiver_tid
            && k.ipc.endpoints[index as int].waiter->0.receiver.asid == snap.receiver_asid,
    ensures
        ({
            let tcb = k.tasks.tcbs[i]->0;
            let e = snap.endpoint->Endpoint_index as int;
            let home = match tcb.cpu_affinity {
                Some(home) => home,
                None => k.sched.current_cpu,
            };
            let after = k.after_finalize(snap);
            &&& k.finalize_result(snap) == (if crate::laws::waking::may_join(
                k.sched,
                home,
                snap.receiver_tid,
            ) {
                Some(true)
            } else {
                None
            })
            &&& crate::laws::waking::may_join(k.sched, home, snap.receiver_tid) ==> {
                &&& after.tasks == (Tasks {
                    tcbs: k.tasks.tcbs.update(
                        i,
                        Some(
                            ThreadControlBlock {
                                status: TaskStatus::Runnable,
                                user_context: UserRegisterContext {
                                    ret0: 0,
                                    ret1: 0,
                                    ret2: 0,
                                    ret_error: 0,
                                    ..tcb.user_context
                                },
                                ..tcb
                            },
                        ),
                    ),
                    ..k.tasks
                })
                &&& after.sched == (Sched {
                    queue: k.sched.queue.push(
                        RunEntry {
                            cpu: home,
                            tid: snap.receiver_tid,
                            priority: crate::laws::waking::class_priority(tcb.class),
                        },
                    ),
                    ..k.sched
                })
                &&& after.ipc.endpoints == k.ipc.endpoints.update(
                    e,
                    EndpointSlot { waiter: None, ..k.ipc.endpoints[e] },
                )
            }
        }),
{
    let tcb = k.tasks.tcbs[i]->0;
    crate::laws::slots::law_task_is_found_where_it_stands(k.tasks, i);
    let claim = k.finalize_claim(snap)->0;
    let committed = k.finalize_committed(snap, claim);
    let told = ThreadControlBlock {
        status: TaskStatus::Runnable,
        user_context: tcb.user_context.spec_returns_cleared(),
        ..tcb
    };
    assert(committed.tasks.tcbs =~= k.tasks.tcbs.update(i, Some(told)));
    crate::laws::slots::lemma_with_keeps_apart(k.tasks, i, told);
    assert(committed.tasks.apart());
    crate::laws::slots::law_task_is_found_where_it_stands(committed.tasks, i);
    let home = match tcb.cpu_affinity {
        Some(home) => home,
        None => k.sched.current_cpu,
    };
    crate::laws::waking::law_enqueue_is_exact(
        k.sched,
        home,
        snap.receiver_tid,
        crate::laws::waking::class_priority(tcb.class),
    );
}

} // verus!
