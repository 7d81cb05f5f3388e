//! What every operation keeps: no task is queued twice, no number belongs to two tasks, no sender
//! waits twice at an endpoint, no slot holds two capabilities, no page is mapped twice.
use vstd::prelude::*;

use crate::capability::{CapObject, CapRights, Capability, Caps, KernelCapacityProfile, RIGHT_SEND};
use crate::deferred::{
    BlockingSendCommitSnapshot, DispatchPostWork, OrdinaryCapDelivery, Pending, PlainDelivery,
    RecvTimeoutPostWork, ReplyCapDelivery, ReplyTimeoutPostWork, SendTimeoutPostWork,
    ServerDeathPostWork, SharedRegionSnapshot, WaiterDelivery, WorkItem,
};
use crate::ids::{Asid, CNodeId, CapId, CpuId, PhysAddr, ThreadId, VirtAddr};
use crate::ipc::{
    ActiveMapping, Ipc, ReceiverWaiterIdentity, RecvAdmission, ReplyRecordReservation, SenderWaiter,
    SenderWakeTarget,
};
use crate::kernel::Kernel;
use crate::runtime::dispatch::{CpuDispatch, DispatchMarkToken};
use crate::runtime::futex::WokenTask;
use crate::runtime::recv::{
    RecvBoundaryOrdinaryCapSnapshot, RecvBoundaryUserCopySnapshot, RecvQueuedSplitPhaseA,
};
use crate::runtime::timeouts::Clocks;
use crate::runtime::transfer::{
    CapTransferMaterializeOutcome, TransferCapDelegation, TransferCapSnapshot,
};
use crate::runtime::wake::BlockingSendCommitOutcome;
use crate::runtime::EndpointRecvCapSnapshot;
use crate::scheduler::{Sched, TaskPriority};
use crate::seqs;
use crate::task::{
    BlockedSyscallClass, TaskClass, TaskTransition, TerminalIdentity, ThreadControlBlock,
    UserRegisterContext,
};
use crate::trap::TrapFrame;
use crate::vm::{Mapping, Vm};

verus! {

broadcast use {
    crate::runtime::dispatch::lemma_token_parts,
    crate::task::lemma_task_kept_apart,
    crate::task::lemma_incarnation_kept_apart,
};

impl Ipc {
    /// No task waits twice as a sender at one endpoint.
    pub open spec fn senders_apart(self) -> bool {
        forall|i: int, j: int|
            0 <= i < j < self.senders.len() && i / 8 == j / 8 && (#[trigger] self.senders[i])
                is Some && (#[trigger] self.senders[j]) is Some ==> self.senders[i]->0.tid
                != self.senders[j]->0.tid
    }
}

impl Kernel {
    /// No task is queued twice on a processor or where it is current, no number belongs to two
    /// tasks, no task waits twice as a sender at one endpoint, no capability slot is filled
    /// twice, and no page is mapped twice.
    pub open spec fn sound(self) -> bool {
        &&& self.sched.apart()
        &&& self.tasks.apart()
        &&& self.ipc.senders_apart()
        &&& self.caps.apart()
        &&& self.vm.apart()
    }
}

/// A kernel that has just been started is sound.
pub proof fn law_start_is_sound(k: Kernel, profile: KernelCapacityProfile)
    requires
        k.is_fresh(profile),
    ensures
        k.sound(),
{
}

proof fn lemma_balanced(s: Sched, tid: u64, priority: TaskPriority)
    requires
        s.apart(),
    ensures
        s.enqueued_balanced(tid, priority).apart(),
{
    if let Some(cpu) = s.balanced_cpu() {
        crate::laws::scheduling::law_enqueue_keeps_apart(s, cpu, tid, priority);
    }
}

proof fn lemma_cleared(s: Sched, cpu: CpuId)
    requires
        s.apart(),
        s.known(cpu),
    ensures
        s.cleared(cpu).apart(),
{
    let after = s.cleared(cpu);
    assert forall|i: int| 0 <= i < after.queue.len() implies after.current_on(
        (#[trigger] after.queue[i]).cpu,
    ) != Some(after.queue[i].tid) by {
        assert(s.current_on(s.queue[i].cpu) != Some(s.queue[i].tid));
    }
}

proof fn lemma_withdrawn(s: Sched, cpu: CpuId, tid: u64)
    requires
        s.apart(),
    ensures
        s.withdrawn(cpu, tid).apart(),
{
    let p = crate::scheduler::entry_of(cpu, tid);
    let i = seqs::first_where(s.queue, p);
    let after = s.withdrawn(cpu, tid);
    seqs::lemma_first_where(s.queue, p);
    seqs::lemma_count_zero(s.queue, p);
    if s.withdraw_verdict(cpu, tid) == crate::scheduler::WithdrawOutcome::Removed {
        assert forall|a: int, b: int|
            0 <= a < b < after.queue.len() && (#[trigger] after.queue[a]).cpu == (
            #[trigger] after.queue[b]).cpu implies after.queue[a].tid != after.queue[b].tid by {
            let a0 = if a < i {
                a
            } else {
                a + 1
            };
            let b0 = if b < i {
                b
            } else {
                b + 1
            };
            assert(after.queue[a] == s.queue[a0] && after.queue[b] == s.queue[b0]);
        }
        assert forall|a: int| 0 <= a < after.queue.len() implies after.current_on(
            (#[trigger] after.queue[a]).cpu,
        ) != Some(after.queue[a].tid) by {
            let a0 = if a < i {
                a
            } else {
                a + 1
            };
            assert(after.queue[a] == s.queue[a0]);
        }
    }
}

proof fn lemma_minted(caps: Caps, cnode: CNodeId, capability: Capability)
    requires
        caps.apart(),
    ensures
        caps.minted(cnode, capability).apart(),
{
    if caps.mint_verdict(cnode) is Ok {
        let other = CNodeId(if cnode.0 == 0 {
            1
        } else {
            0
        });
        crate::laws::capabilities::law_mint_spares_other_slots(
            caps,
            cnode,
            capability,
            other,
            CapId(0),
        );
    }
}

proof fn lemma_revoked(caps: Caps, cnode: CNodeId, cap: CapId)
    requires
        caps.apart(),
    ensures
        caps.revoked(cnode, cap).apart(),
{
    let other = CNodeId(if cnode.0 == 0 {
        1
    } else {
        0
    });
    crate::laws::capabilities::law_revoked_slot_is_empty(caps, cnode, cap, other, cap);
}

proof fn lemma_mapped(vm: Vm, asid: Asid, va: VirtAddr, mapping: Mapping)
    requires
        vm.apart(),
    ensures
        vm.mapped(asid, va, mapping).apart(),
{
    if vm.map_verdict(asid, va) is Ok {
        let other = Asid(if asid.0 == 0 {
            1
        } else {
            0
        });
        crate::laws::memory::law_mapped_page_is_found(vm, asid, va, mapping, other, 0);
    }
}

proof fn lemma_unmapped(vm: Vm, asid: Asid, va: VirtAddr)
    requires
        vm.apart(),
    ensures
        vm.unmapped(asid, va).apart(),
{
    if vm.map_verdict(asid, va) is Ok {
        let other = Asid(if asid.0 == 0 {
            1
        } else {
            0
        });
        crate::laws::memory::law_unmapped_page_is_gone(vm, asid, va, other, 0);
    }
}

proof fn lemma_sender_queued(ipc: Ipc, e: int, waiter: SenderWaiter)
    requires
        ipc.senders_apart(),
        0 <= e,
        seqs::any_where(ipc.row(e), crate::ipc::vacant()),
        !seqs::any_where(ipc.row(e), crate::ipc::sent_by(waiter.tid.0)),
    ensures
        ipc.sender_queued(e, waiter).senders_apart(),
{
    let row = ipc.row(e);
    let p = crate::ipc::sent_by(waiter.tid.0);
    let place = 8 * e + seqs::first_where(row, crate::ipc::vacant());
    let after = ipc.sender_queued(e, waiter);
    seqs::lemma_first_where(row, crate::ipc::vacant());
    seqs::lemma_first_where(row, p);
    assert forall|i: int|
        0 <= i < ipc.senders.len() && i / 8 == place / 8 && (#[trigger] ipc.senders[i])
            is Some implies ipc.senders[i]->0.tid != waiter.tid by {
        assert(ipc.senders[i] == row[i - 8 * e]);
        assert(!p(row[i - 8 * e]));
    }
    assert forall|i: int, j: int|
        0 <= i < j < after.senders.len() && i / 8 == j / 8 && (#[trigger] after.senders[i])
            is Some && (#[trigger] after.senders[j]) is Some implies after.senders[i]->0.tid
        != after.senders[j]->0.tid by {
        if i == place {
            assert(ipc.senders[j] == after.senders[j]);
        } else if j == place {
            assert(ipc.senders[i] == after.senders[i]);
        } else {
            assert(ipc.senders[i] == after.senders[i] && ipc.senders[j] == after.senders[j]);
        }
    }
}

proof fn lemma_received(ipc: Ipc, e: int, admission: RecvAdmission)
    requires
        ipc.senders_apart(),
        0 <= e,
    ensures
        ipc.received(e, admission).senders_apart(),
{
    let after = ipc.received(e, admission);
    seqs::lemma_first_where(ipc.row(e), crate::ipc::occupied());
    assert forall|i: int, j: int|
        0 <= i < j < after.senders.len() && i / 8 == j / 8 && (#[trigger] after.senders[i])
            is Some && (#[trigger] after.senders[j]) is Some implies after.senders[i]->0.tid
        != after.senders[j]->0.tid by {
        assert(ipc.senders[i] == after.senders[i] && ipc.senders[j] == after.senders[j]);
    }
}

/// Queueing and dispatching keep the kernel sound.
pub proof fn law_placing_keeps_sound(k: Kernel, cpu: CpuId, tid: u64, priority: TaskPriority)
    requires
        k.sound(),
    ensures
        k.enqueued(cpu, tid).sound(),
        k.dispatched(cpu).sound(),
        k.yielded().sound(),
        (Kernel { sched: k.sched.enqueued(cpu, tid, priority), ..k }).sound(),
        (Kernel { sched: k.sched.enqueued_balanced(tid, priority), ..k }).sound(),
        (Kernel { sched: k.sched.withdrawn(cpu, tid), ..k }).sound(),
        (Kernel { sched: k.sched.given_up(cpu), ..k }).sound(),
        (Kernel { sched: k.sched.preempted_for(cpu, tid), ..k }).sound(),
        k.bound(cpu).sound(),
{
    crate::laws::scheduling::law_enqueue_keeps_apart(k.sched, cpu, tid, priority);
    crate::laws::scheduling::law_dispatch_keeps_apart(k.sched, cpu);
    crate::laws::scheduling::law_preempt_keeps_apart(k.sched, cpu, tid);
    if let Ok(p) = k.tasks.enqueue_policy(tid) {
        crate::laws::scheduling::law_enqueue_keeps_apart(k.sched, cpu, tid, p);
    }
    let here = k.sched.current_cpu;
    crate::laws::scheduling::law_reenqueue_keeps_apart(k.sched, here);
    crate::laws::scheduling::law_dispatch_keeps_apart(k.sched.reenqueued(here), here);
    lemma_balanced(k.sched, tid, priority);
    lemma_withdrawn(k.sched, cpu, tid);
    if k.sched.online(cpu) {
        lemma_cleared(k.sched, cpu);
    }
}

/// A dispatch step, its mark and its undoing keep the kernel sound.
pub proof fn law_dispatch_keeps_sound(k: Kernel, cpu: CpuId, dispatch: CpuDispatch)
    requires
        k.sound(),
    ensures
        k.after_step(cpu).sound(),
        k.after_mark(dispatch).sound(),
        k.after_owner_select(cpu).sound(),
{
    crate::laws::scheduling::law_dispatch_keeps_apart(k.sched, cpu);
    crate::laws::scheduling::law_dispatch_keeps_apart(k.sched.bound(cpu), cpu);
    if let CpuDispatch::Selected { cpu: c, .. } = dispatch {
        crate::laws::scheduling::law_reenqueue_keeps_apart(k.sched, c);
    }
}

/// Waking keeps the kernel sound.
pub proof fn law_waking_keeps_sound(k: Kernel, cpu: CpuId, tid: u64)
    requires
        k.sound(),
    ensures
        k.after_wake(cpu, tid).sound(),
        k.receiver_woken(tid).sound(),
        k.timeout_woken(tid).sound(),
        k.woken_on(cpu, tid).sound(),
{
    crate::laws::messages::law_wake_makes_runnable(k, cpu, tid);
    let priority = k.tasks.wake_priority(tid);
    lemma_balanced(k.sched, tid, priority);
    if let Some(home) = k.tasks.affinity_of(tid) {
        crate::laws::scheduling::law_enqueue_keeps_apart(k.sched, home, tid, priority);
    }
    if let Some(tcb) = k.tasks.find(tid) {
        let woken = ThreadControlBlock {
            status: crate::task::TaskStatus::Runnable,
            ..tcb
        };
        let tasks = k.tasks.with_task(tid, woken);
        crate::laws::scheduling::law_enqueue_keeps_apart(
            k.sched,
            k.wake_target(tcb),
            tid,
            tasks.wake_priority(tid),
        );
        law_placing_keeps_sound(Kernel { tasks, ..k }, cpu, tid, priority);
    }
}

/// Completing a delivery and waking a blocked sender keep the kernel sound.
pub proof fn law_completion_keeps_sound(
    k: Kernel,
    cpu: CpuId,
    waiter: u64,
    e: int,
    wake: Option<ThreadId>,
    target: SenderWakeTarget,
)
    requires
        k.sound(),
    ensures
        k.after_completion(cpu, waiter, e, wake).sound(),
        k.after_sender_wake(cpu, target).sound(),
{
    if let Some(w) = wake {
        law_waking_keeps_sound(k.settled(cpu, waiter, e, wake), cpu, w.0);
    }
    law_waking_keeps_sound(k.send_answered(cpu, target), cpu, target.tid.0);
}

/// Committing a blocking send keeps the kernel sound.
pub proof fn law_send_keeps_sound(k: Kernel, cpu: CpuId, snap: BlockingSendCommitSnapshot)
    requires
        k.sound(),
    ensures
        k.after_send_commit(snap).sound(),
        k.send_commit_done(cpu, snap).sound(),
{
    if k.sched.online(snap.cpu) {
        lemma_cleared(k.sched, snap.cpu);
    }
    if let BlockingSendCommitOutcome::Committed { send_generation } = k.send_commit_result(snap) {
        lemma_sender_queued(
            k.ipc,
            snap.endpoint_idx as int,
            SenderWaiter {
                tid: ThreadId(snap.sender_tid),
                asid: Some(snap.sender_asid),
                send_generation,
                msg: snap.msg,
            },
        );
    }
}

/// Blocking on a futex word and waking from it keep the kernel sound.
pub proof fn law_futex_keeps_sound(k: Kernel, cpu: CpuId, tid: u64, addr: u64, max_wake: u32)
    requires
        k.sound(),
    ensures
        k.futex_blocked(cpu, tid, addr).sound(),
        k.futex_awake(cpu, addr, max_wake).sound(),
{
    if k.sched.online(cpu) {
        lemma_cleared(k.sched, cpu);
    }
    let list = k.futex_wake_list(addr, max_wake);
    let scanned = Kernel {
        tasks: k.tasks.futex_scanned(addr, crate::runtime::futex::wake_limit(max_wake)),
        ..k
    };
    lemma_woken_all(scanned, cpu, list, list.len() as int);
}

proof fn lemma_woken_all(k: Kernel, cpu: CpuId, woken: Seq<WokenTask>, n: int)
    requires
        k.sound(),
    ensures
        k.woken_all_queued(cpu, woken, n).sound(),
    decreases n,
{
    if n > 0 {
        lemma_woken_all(k, cpu, woken, n - 1);
        let before = k.woken_all_queued(cpu, woken, n - 1);
        let w = woken[n - 1];
        let priority = before.tasks.wake_priority(w.tid);
        lemma_balanced(before.sched, w.tid, priority);
        if let Some(home) = before.woken_home(cpu, w) {
            crate::laws::scheduling::law_enqueue_keeps_apart(before.sched, home, w.tid, priority);
        }
    }
}

/// Handing capabilities over and taking them back keep the kernel sound.
pub proof fn law_transfer_keeps_sound(
    k: Kernel,
    e: int,
    receiver: u64,
    handle: u64,
    cap: CapId,
    index: usize,
    generation: u64,
)
    requires
        k.sound(),
    ensures
        k.after_reply_hand_over(e, receiver, handle).sound(),
        k.after_cap_hand_over(e, receiver, handle).sound(),
        k.reply_taken_back(receiver, cap, index, generation).sound(),
        k.copy_taken_back(receiver, cap).sound(),
{
    if let Ok(m) = k.reply_hand_over(e, receiver, handle) {
        lemma_minted(
            k.caps,
            k.cnode_of_task(receiver)->0,
            Capability {
                object: CapObject::Reply { index: m.reply_index, generation: m.reply_generation },
                rights: CapRights(RIGHT_SEND),
            },
        );
    }
    if k.cap_hand_over(e, receiver, handle) is Ok {
        let env = k.ipc.takeable(handle, e, ThreadId(receiver))->0;
        lemma_materialized(
            k.envelope_gone(handle, e, receiver),
            k.hand_over_snapshot(
                k.cnode_of_task(receiver)->0,
                k.task_capability(env.source_tid.0, env.source_cap)->Ok_0,
            ),
            Some(
                TransferCapDelegation {
                    source_tid: env.source_tid.0,
                    source_cap: env.source_cap,
                    dest_tid: receiver,
                },
            ),
        );
    }
    if let Some(cnode) = k.cnode_of_task(receiver) {
        lemma_revoked(k.caps, cnode, cap);
    }
}

proof fn lemma_materialized(
    k: Kernel,
    snap: TransferCapSnapshot,
    delegation: Option<TransferCapDelegation>,
)
    requires
        k.sound(),
    ensures
        k.after_materialize(snap, delegation).sound(),
{
    lemma_minted(
        k.caps,
        snap.receiver_cnode,
        Capability { object: snap.object, rights: snap.rights },
    );
}

/// Unmapping keeps the kernel sound.
pub proof fn law_unmapping_keeps_sound(
    k: Kernel,
    asid: Asid,
    va: int,
    end: int,
    acked: bool,
    acks: Seq<usize>,
    i: int,
)
    requires
        k.sound(),
    ensures
        k.range_unmapped(asid, va, end, acked, acks, i).0.sound(),
    decreases (if end > va {
            end - va
        } else {
            0
        }),
{
    if va < end {
        lemma_unmapped(k.vm, asid, VirtAddr(va as u64));
        let answer = crate::runtime::paging::acknowledged_at(acks, i);
        law_unmapping_keeps_sound(
            k.page_unmapped(asid, va, answer),
            asid,
            va + 4096,
            end,
            acked && !k.page_unacknowledged(asid, va, answer),
            acks,
            i + 1,
        );
    }
}

proof fn lemma_pages_dropped(k: Kernel, asid: Asid, va: int, end: int, n: nat)
    requires
        k.sound(),
    ensures
        k.pages_dropped(asid, va, end, n).kernel.sound(),
    decreases (if end > va {
            end - va
        } else {
            0
        }),
{
    if va < end {
        let page = VirtAddr(va as u64);
        lemma_unmapped(k.vm, asid, page);
        match k.vm.map_verdict(asid, page) {
            Err(_) => {},
            Ok(None) => {
                lemma_pages_dropped(k, asid, va + 4096, end, n);
            },
            Ok(Some(mapping)) => {
                let next = Kernel {
                    vm: k.vm.unmapped(asid, page),
                    mem: k.mem.page_dropped(asid, page, mapping.phys),
                    ..k
                };
                lemma_pages_dropped(next, asid, va + 4096, end, n + 1);
            },
        }
    }
}

/// Lowering a program break keeps the kernel sound.
pub proof fn law_brk_keeps_sound(k: Kernel, cpu: CpuId, requested: u64)
    requires
        k.sound(),
    ensures
        k.after_brk(cpu, requested).sound(),
{
    if let Some(shrink) = k.brk_shrink(cpu, requested) {
        if let Some(asid) = k.tasks.asid_of(shrink.tid) {
            lemma_pages_dropped(
                k,
                asid,
                shrink.unmap_start as int,
                shrink.unmap_end as int,
                0,
            );
        }
    }
}

proof fn lemma_region_mapped(k: Kernel, snap: SharedRegionSnapshot, base: PhysAddr, i: int, n: int)
    requires
        k.sound(),
    ensures
        k.region_mapped(snap, base, i, n).0.sound(),
    decreases n - i,
{
    if i < n && k.region_page_fits(snap, base, i) {
        let va = VirtAddr(Kernel::page_address(snap.map_va, i)->0);
        let phys = PhysAddr(Kernel::page_address(base.0, i)->0);
        lemma_mapped(
            k.vm,
            snap.receiver_asid,
            va,
            Mapping {
                phys,
                flags: crate::vm::PageFlags {
                    user: true,
                    read: true,
                    write: snap.writable,
                    execute: false,
                },
            },
        );
        lemma_region_mapped(k.region_page_mapped(snap, base, i), snap, base, i + 1, n);
    }
}

proof fn lemma_region_undone(
    k: Kernel,
    snap: SharedRegionSnapshot,
    cap: Option<CapId>,
    pages: int,
    acks: Seq<usize>,
)
    requires
        k.sound(),
    ensures
        k.region_undone(snap, cap, pages, acks).sound(),
{
    if let Some(c) = cap {
        let base = snap.map_va as usize;
        let end = k.range_end(base, Kernel::region_len(pages));
        law_unmapping_keeps_sound(k, snap.receiver_asid, base as int, end, true, acks, 0);
        let unmapped = k.range_unmapped(snap.receiver_asid, base as int, end, true, acks, 0).0;
        lemma_revoked(unmapped.caps, snap.receiver_cnode, c);
    }
}

proof fn lemma_finalized(k: Kernel, snap: SharedRegionSnapshot)
    requires
        k.sound(),
    ensures
        k.after_finalize(snap).sound(),
{
    let tid = snap.receiver_tid;
    law_waking_keeps_sound(k, k.sched.current_cpu, tid);
    if snap.blocked_endpoint_waiter {
        if let Some(claim) = k.finalize_claim(snap) {
            let home = k.tasks.find(tid)->0.cpu_affinity;
            let committed = k.finalize_committed(snap, claim);
            crate::laws::scheduling::law_enqueue_keeps_apart(
                committed.sched,
                committed.commit_home(home),
                tid,
                committed.tasks.wake_priority(tid),
            );
            lemma_withdrawn(committed.sched, committed.commit_home(home), tid);
        }
    }
}

/// Delivering a region keeps the kernel sound, whether it succeeds or is undone.
pub proof fn law_region_delivery_keeps_sound(
    k: Kernel,
    snap: SharedRegionSnapshot,
    acks: Seq<usize>,
)
    requires
        k.sound(),
    ensures
        k.region_delivered(snap, acks).kernel.sound(),
{
    let heard = Kernel {
        ipc: k.ipc.cancel_taken(snap.receiver_tid, snap.receiver_asid),
        ..k
    };
    lemma_region_undone(k, snap, None, 0, acks);
    lemma_region_undone(heard, snap, None, 0, acks);
    if let Ok(cap) = k.caps.mint_verdict(snap.receiver_cnode) {
        let capability = Capability { object: snap.object, rights: snap.rights };
        lemma_minted(k.caps, snap.receiver_cnode, capability);
        let minted = heard.ref_minted(snap.receiver_cnode, capability);
        lemma_region_undone(minted, snap, Some(cap), 0, acks);
        let registered = Kernel {
            ipc: minted.ipc.mapping_registered(
                ActiveMapping {
                    tid: ThreadId(snap.receiver_tid),
                    cap,
                    va: VirtAddr(snap.map_va),
                    len: Kernel::region_len(snap.map_pages as int),
                },
            ),
            ..minted
        };
        lemma_region_undone(registered, snap, Some(cap), 0, acks);
        if let Some(base) = registered.mem.phys_base(snap.object) {
            let (mapped, n) = registered.region_mapped(snap, base, 0, snap.map_pages as int);
            lemma_region_mapped(registered, snap, base, 0, snap.map_pages as int);
            lemma_region_undone(mapped, snap, Some(cap), n, acks);
            lemma_region_undone(mapped, snap, Some(cap), snap.map_pages as int, acks);
            let meta = Kernel::region_meta(snap, cap).bytes();
            let told = mapped.user_copied(snap.receiver_asid, snap.meta_user_ptr, meta);
            lemma_finalized(told, snap);
            lemma_region_undone(
                told.after_finalize(snap),
                snap,
                Some(cap),
                snap.map_pages as int,
                acks,
            );
        }
    }
}

proof fn lemma_let_go(k: Kernel, cpu: CpuId, wake: Option<SenderWakeTarget>)
    requires
        k.sound(),
    ensures
        k.sender_let_go(cpu, wake).sound(),
{
    if let Some(target) = wake {
        law_completion_keeps_sound(k, cpu, 0, 0, None, target);
    }
}

proof fn lemma_user_copy_end(
    k: Kernel,
    cpu: CpuId,
    frame: TrapFrame,
    pending: RecvBoundaryUserCopySnapshot,
)
    requires
        k.sound(),
    ensures
        k.user_copy_end(cpu, frame, pending).kernel.sound(),
{
    let copied = k.after_writeback(pending);
    assert(copied.sound());
    if let Some(cap) = pending.materialized_cap {
        let (index, generation) = match pending.reply_record {
            Some((i, g)) => (i, g),
            None => (0, 0),
        };
        law_transfer_keeps_sound(
            copied,
            0,
            pending.receiver_tid,
            0,
            CapId(cap),
            index,
            generation,
        );
    }
}

proof fn lemma_ordinary_cap_end(
    k: Kernel,
    cpu: CpuId,
    frame: TrapFrame,
    pending: RecvBoundaryOrdinaryCapSnapshot,
)
    requires
        k.sound(),
    ensures
        k.ordinary_cap_end(cpu, frame, pending).kernel.sound(),
{
    let snap = TransferCapSnapshot {
        receiver_cnode: pending.receiver_cnode,
        object: pending.object,
        rights: pending.rights,
    };
    let delegation = TransferCapDelegation {
        source_tid: pending.source_tid,
        source_cap: pending.source_cap,
        dest_tid: pending.receiver_tid,
    };
    lemma_materialized(k, snap, Some(delegation));
    let handed = k.after_materialize(snap, Some(delegation));
    if let Ok(CapTransferMaterializeOutcome::Materialized(cap)) = k.materialize_result(
        snap,
        Some(delegation),
    ) {
        law_transfer_keeps_sound(handed, 0, pending.receiver_tid, 0, cap, 0, 0);
        lemma_let_go(handed, cpu, pending.wake_tid);
        lemma_user_copy_end(
            handed.sender_let_go(cpu, pending.wake_tid),
            cpu,
            frame.with_cap_word(cap.0),
            RecvBoundaryUserCopySnapshot {
                asid: pending.asid,
                receiver_tid: pending.receiver_tid,
                msg: pending.msg,
                writeback: pending.writeback,
                materialized_cap: Some(cap.0),
                is_reply_cap: false,
                reply_record: None,
            },
        );
    }
}

proof fn lemma_phase_a(
    k: Kernel,
    cpu: CpuId,
    frame: TrapFrame,
    snapshot: EndpointRecvCapSnapshot,
)
    requires
        k.sound(),
    ensures
        k.phase_a(cpu, frame, snapshot).kernel.sound(),
{
    if let Ok(e) = k.endpoint_slot(snapshot.endpoint) {
        let receiver = snapshot.requester_tid;
        if let crate::ipc::QueuedRecv::Delivered { msg, wake } = k.ipc.recv_result(
            e as int,
            RecvAdmission::Boundary,
        ) {
            let taken = k.dequeued(e as int);
            lemma_received(k.ipc, e as int, RecvAdmission::Boundary);
            law_transfer_keeps_sound(taken, e as int, receiver, msg.transfer, CapId(0), 0, 0);
            let handed = taken.after_cap_hand_over(e as int, receiver, msg.transfer);
            let replied = taken.after_reply_hand_over(e as int, receiver, msg.transfer);
            lemma_let_go(taken, cpu, wake);
            lemma_let_go(handed, cpu, wake);
            lemma_let_go(replied.reply_counted(), cpu, wake);
        }
    }
}

/// A whole receive keeps the kernel sound.
pub proof fn law_receive_keeps_sound(k: Kernel, cpu: CpuId, frame: TrapFrame)
    requires
        k.sound(),
    ensures
        k.split_recv(cpu, frame) matches Some(end) ==> end.kernel.sound(),
{
    if let Some(tid) = k.sched.current_on(cpu) {
        if let Ok((endpoint, rights, pid)) = k.endpoint_cap(
            tid,
            CapId(frame.args@[0]),
            crate::capability::RIGHT_RECEIVE,
        ) {
            let snapshot = EndpointRecvCapSnapshot {
                endpoint,
                rights,
                requester_tid: tid,
                requester_pid: pid,
            };
            lemma_phase_a(k, cpu, frame, snapshot);
            let a = k.phase_a(cpu, frame, snapshot);
            match a.outcome {
                RecvQueuedSplitPhaseA::PendingUserCopy(pending) => {
                    lemma_user_copy_end(a.kernel, cpu, a.frame, pending);
                },
                RecvQueuedSplitPhaseA::PendingOrdinaryCapUserCopy(pending) => {
                    lemma_ordinary_cap_end(a.kernel, cpu, a.frame, pending);
                },
                _ => {},
            }
        }
    }
}

proof fn lemma_delivery_done(k: Kernel, cpu: CpuId, to: WaiterDelivery, meta: Seq<u8>)
    requires
        k.sound(),
    ensures
        k.delivery_copied(to, meta).sound(),
        k.delivery_copied(to, meta).delivery_done(cpu, to).sound(),
{
    law_completion_keeps_sound(
        k.delivery_copied(to, meta),
        cpu,
        to.waiter_tid,
        to.endpoint_idx as int,
        to.wake_tid,
        SenderWakeTarget { tid: ThreadId(0), asid: None, send_generation: 0 },
    );
}

proof fn lemma_plain_delivered(k: Kernel, cpu: CpuId, snap: PlainDelivery)
    requires
        k.sound(),
    ensures
        k.plain_delivered(cpu, snap).kernel.sound(),
{
    lemma_delivery_done(k, cpu, snap.to, snap.meta.bytes());
}

proof fn lemma_cap_delivered(k: Kernel, cpu: CpuId, snap: OrdinaryCapDelivery)
    requires
        k.sound(),
    ensures
        k.cap_delivered(cpu, snap).kernel.sound(),
{
    let what = TransferCapSnapshot {
        receiver_cnode: snap.receiver_cnode,
        object: snap.object,
        rights: snap.rights,
    };
    let delegation = Some(
        TransferCapDelegation {
            source_tid: snap.source_tid,
            source_cap: snap.source_cap,
            dest_tid: snap.to.waiter_tid,
        },
    );
    lemma_materialized(k, what, delegation);
    let handed = k.after_materialize(what, delegation);
    if let Ok(CapTransferMaterializeOutcome::Materialized(cap)) = k.materialize_result(
        what,
        delegation,
    ) {
        let meta = crate::runtime::delivery::delivery_meta(
            snap.to,
            cap,
            crate::trap::RECV_META_TRANSFERRED_CAP,
        ).bytes();
        lemma_delivery_done(handed, cpu, snap.to, meta);
        law_transfer_keeps_sound(
            handed.delivery_copied(snap.to, meta),
            0,
            snap.to.waiter_tid,
            0,
            cap,
            0,
            0,
        );
    }
}

proof fn lemma_reply_delivered(k: Kernel, cpu: CpuId, snap: ReplyCapDelivery)
    requires
        k.sound(),
    ensures
        k.reply_delivered(cpu, snap).kernel.sound(),
{
    let index = snap.reply_index as int;
    let generation = snap.reply_generation;
    let object = CapObject::Reply { index: snap.reply_index, generation };
    let capability = Capability { object, rights: CapRights(RIGHT_SEND) };
    lemma_minted(k.caps, snap.receiver_cnode, capability);
    if let Ok(cap) = k.caps.mint_verdict(snap.receiver_cnode) {
        let recorded = Kernel {
            ipc: k.ipc.with_waiter_cap(index, generation, Some(cap)),
            ..k.ref_minted(snap.receiver_cnode, capability)
        };
        let meta = crate::runtime::delivery::delivery_meta(
            snap.to,
            cap,
            crate::trap::RECV_META_REPLY_CAP,
        ).bytes();
        lemma_delivery_done(recorded, cpu, snap.to, meta);
        lemma_revoked(recorded.delivery_copied(snap.to, meta).caps, snap.receiver_cnode, cap);
    }
}

/// Doing what a handler left for the way out keeps the kernel sound.
pub proof fn law_left_work_keeps_sound(k: Kernel, cpu: CpuId, acks: Seq<usize>)
    requires
        k.sound(),
    ensures
        k.stash_done(cpu, acks).sound(),
{
    let un = k.unstashed(cpu);
    if let Some(work) = k.stashed(cpu) {
        match work {
            DispatchPostWork::Nothing => {},
            DispatchPostWork::BlockingSendCommit(snap) => {
                law_send_keeps_sound(un, cpu, snap);
            },
            DispatchPostWork::BlockedWaiterPlainDelivery(snap) => {
                lemma_plain_delivered(un, cpu, snap);
            },
            DispatchPostWork::BlockedWaiterOrdinaryCapDelivery(snap) => {
                lemma_cap_delivered(un, cpu, snap);
            },
            DispatchPostWork::BlockedWaiterReplyCapDelivery(snap) => {
                lemma_reply_delivered(un, cpu, snap);
            },
            DispatchPostWork::BlockedWaiterSharedRegionDelivery(snap) => {
                law_region_delivery_keeps_sound(un, snap, acks);
            },
        }
    }
}

proof fn lemma_caller_answered(k: Kernel, identity: TerminalIdentity, result: u64, fired: bool)
    requires
        k.sound(),
        k.tasks.exact(identity.caller_tid.0, Some(identity.caller_asid)) is Some,
    ensures
        k.caller_answered(identity, result, fired).sound(),
{
    let tid = identity.caller_tid.0;
    let asid = Some(identity.caller_asid);
    let answered = Kernel {
        ipc: k.ipc.with_waiter(identity.endpoint_index as int, None),
        tasks: k.tasks.with_exact(
            tid,
            asid,
            crate::runtime::timeouts::answered_tcb(k.tasks.exact(tid, asid)->0, result, fired),
        ),
        ..k
    };
    law_waking_keeps_sound(answered, k.sched.current_cpu, tid);
}

proof fn lemma_reply_settled(k: Kernel, work: ReplyTimeoutPostWork, now: u64)
    requires
        k.sound(),
    ensures
        k.reply_settled(work, now).sound(),
{
    let identity = work.handle.identity.terminal_identity;
    let i = work.handle.identity.token_index as int;
    let ended = Kernel {
        ipc: k.ipc.with_token_state(i, crate::ipc::TokenState::Completed).call_ended(
            identity,
            crate::ipc::TerminalOwner::Timeout,
        ),
        ..k
    };
    if k.caller_waits(identity) {
        lemma_caller_answered(ended, identity, crate::task::SEND_COMPLETION_TIMED_OUT, true);
    }
}

proof fn lemma_replies_settled(k: Kernel, cpu: CpuId, clocks: Clocks, n: nat)
    requires
        k.sound(),
    ensures
        k.replies_settled(cpu, clocks, n).sound(),
    decreases n,
{
    if n > 0 {
        if let Some(work) = crate::deferred::oldest(k.pending.reply, cpu) {
            let items = crate::deferred::oldest_taken(k.pending.reply, cpu);
            let taken = Kernel { pending: Pending { reply: items, ..k.pending }, ..k };
            let now = clocks.spec_reply_now(work.clock);
            lemma_reply_settled(taken, work, now);
            lemma_replies_settled(taken.reply_settled(work, now), cpu, clocks, (n - 1) as nat);
        }
    }
}

proof fn lemma_send_settled(k: Kernel, work: SendTimeoutPostWork, now: u64)
    requires
        k.sound(),
    ensures
        k.send_settled(work, now).sound(),
{
    if k.send_claimable(work, now) {
        let expired = Kernel {
            tasks: k.tasks.with_exact(
                work.tid,
                work.asid,
                crate::runtime::timeouts::send_expired_tcb(
                    k.tasks.exact(work.tid, work.asid)->0,
                    work,
                ),
            ),
            ipc: k.ipc.sends_withdrawn(work.tid, work.send_generation),
            ..k
        };
        let settled = match k.ipc.owed_by(
            work.tid,
            work.send_generation,
            k.ipc.senders.len() as int,
        ) {
            Some((handle, e, receiver)) => expired.envelope_settled(handle, e as int, receiver),
            None => expired,
        };
        law_waking_keeps_sound(settled, k.sched.current_cpu, work.tid);
    }
}

proof fn lemma_sends_settled(k: Kernel, cpu: CpuId, now: u64, n: nat)
    requires
        k.sound(),
    ensures
        k.sends_settled(cpu, now, n).sound(),
    decreases n,
{
    if n > 0 {
        if let Some(work) = crate::deferred::oldest(k.pending.send, cpu) {
            let taken = Kernel {
                pending: Pending {
                    send: crate::deferred::oldest_taken(k.pending.send, cpu),
                    ..k.pending
                },
                ..k
            };
            lemma_send_settled(taken, work, now);
            lemma_sends_settled(taken.send_settled(work, now), cpu, now, (n - 1) as nat);
        }
    }
}

proof fn lemma_recv_settled(k: Kernel, work: RecvTimeoutPostWork, now: u64)
    requires
        k.sound(),
    ensures
        k.recv_settled(work, now).sound(),
{
    if k.recv_claimable(work, now) {
        let expired = Kernel {
            tasks: k.tasks.with_exact(
                work.tid,
                work.asid,
                crate::runtime::timeouts::recv_expired_tcb(
                    k.tasks.exact(work.tid, work.asid)->0,
                ),
            ),
            ipc: k.ipc.waits_cleared(
                crate::ipc::ReceiverWaiterIdentity {
                    tid: ThreadId(work.tid),
                    asid: match work.asid {
                        Some(asid) => asid,
                        None => Asid(0),
                    },
                },
            ),
            ..k
        };
        law_waking_keeps_sound(expired, k.sched.current_cpu, work.tid);
    }
}

proof fn lemma_recvs_settled(k: Kernel, cpu: CpuId, now: u64, n: nat)
    requires
        k.sound(),
    ensures
        k.recvs_settled(cpu, now, n).sound(),
    decreases n,
{
    if n > 0 {
        if let Some(work) = crate::deferred::oldest(k.pending.recv, cpu) {
            let taken = Kernel {
                pending: Pending {
                    recv: crate::deferred::oldest_taken(k.pending.recv, cpu),
                    ..k.pending
                },
                ..k
            };
            lemma_recv_settled(taken, work, now);
            lemma_recvs_settled(taken.recv_settled(work, now), cpu, now, (n - 1) as nat);
        }
    }
}

/// A pass over due deadlines keeps the kernel sound.
pub proof fn law_deadlines_keep_sound(k: Kernel, cpu: CpuId, clocks: Clocks)
    requires
        k.sound(),
    ensures
        k.timeouts_run(cpu, clocks).sound(),
{
    let found = k.timeouts_collected(cpu, clocks);
    let replied = found.replies_settled(cpu, clocks, found.replies_for(cpu));
    let sent = replied.sends_settled(cpu, clocks.send_now, replied.sends_for(cpu));
    lemma_replies_settled(found, cpu, clocks, found.replies_for(cpu));
    lemma_sends_settled(replied, cpu, clocks.send_now, replied.sends_for(cpu));
    lemma_recvs_settled(sent, cpu, clocks.send_now, sent.recvs_for(cpu));
}

proof fn lemma_death_settled(k: Kernel, work: ServerDeathPostWork)
    requires
        k.sound(),
    ensures
        k.death_settled(work).sound(),
{
    if k.death_applies(work) {
        let identity = k.ipc.replies[work.reply_record_index as int].terminal.identity;
        let ended = Kernel {
            ipc: k.ipc.call_ended(identity, crate::ipc::TerminalOwner::PeerDeath),
            ..k
        };
        let caller = k.tasks.exact(identity.caller_tid.0, Some(identity.caller_asid))->0;
        let disarmed = Kernel {
            ipc: match caller.reply_timeout_token {
                Some(handle) => ended.ipc.disarmed(handle),
                None => ended.ipc,
            },
            ..ended
        };
        if k.caller_waits(identity) {
            lemma_caller_answered(
                disarmed,
                identity,
                crate::task::CALL_COMPLETION_SERVER_DIED,
                false,
            );
        }
    }
}

/// Dealing with dead servers keeps the kernel sound.
pub proof fn law_deaths_keep_sound(k: Kernel, cpu: CpuId, n: nat)
    requires
        k.sound(),
    ensures
        k.deaths_settled(cpu, n).sound(),
    decreases n,
{
    if n > 0 {
        if let Some(work) = crate::deferred::oldest(k.pending.death, cpu) {
            let taken = Kernel {
                pending: Pending {
                    death: crate::deferred::oldest_taken(k.pending.death, cpu),
                    ..k.pending
                },
                ..k
            };
            lemma_death_settled(taken, work);
            law_deaths_keep_sound(taken.death_settled(work), cpu, (n - 1) as nat);
        }
    }
}

/// Registering tasks, handing out work and resizing nodes keep the kernel sound.
pub proof fn law_control_keeps_sound(
    k: Kernel,
    cpu: CpuId,
    tid: u64,
    class: TaskClass,
    item: WorkItem,
    pid: u64,
    slots: usize,
)
    requires
        k.sound(),
    ensures
        k.after_register(tid, class).sound(),
        k.after_submit(cpu, item).sound(),
        k.after_resize(tid, pid, slots).sound(),
{
    let p = crate::task::has_tid(tid);
    let slot = seqs::first_where(k.tasks.tcbs, crate::kernel::slot_free());
    seqs::lemma_first_where(k.tasks.tcbs, p);
    seqs::lemma_first_where(k.tasks.tcbs, crate::kernel::slot_free());
    let after = k.after_register(tid, class).tasks;
    if k.register_verdict(tid) is Ok {
        assert forall|i: int, j: int|
            0 <= i < j < after.tcbs.len() && (#[trigger] after.tcbs[i]) is Some && (
            #[trigger] after.tcbs[j]) is Some implies after.tcbs[i]->0.tid
            != after.tcbs[j]->0.tid by {
            if i != slot {
                assert(!p(k.tasks.tcbs[i]));
            }
            if j != slot {
                assert(!p(k.tasks.tcbs[j]));
            }
        }
    }
}

/// Doing the work that waits for a processor keeps the kernel sound.
pub proof fn law_work_keeps_sound(k: Kernel, cpu: CpuId, n: nat)
    requires
        k.sound(),
    ensures
        k.worked_off(cpu, n).sound(),
    decreases n,
{
    if n > 0 {
        if let Some(item) = crate::deferred::oldest(k.pending.work, cpu) {
            let taken = Kernel {
                pending: Pending {
                    work: crate::deferred::oldest_taken(k.pending.work, cpu),
                    ..k.pending
                },
                ..k
            };
            if let WorkItem::WakeTask { tid } = item {
                law_waking_keeps_sound(taken, cpu, tid.0);
            }
            law_work_keeps_sound(taken.worked(cpu, item), cpu, (n - 1) as nat);
        }
    }
}

/// Reserving, using up and making good replies keep the kernel sound, and so do the links of
/// servers.
pub proof fn law_replies_keep_sound(
    k: Kernel,
    caller: ReceiverWaiterIdentity,
    replier: ReceiverWaiterIdentity,
    reply_endpoint: CapObject,
    index: usize,
    generation: u64,
    from: ReplyRecordReservation,
    to: ReplyRecordReservation,
    cap: Option<CapId>,
)
    requires
        k.sound(),
    ensures
        (Kernel { ipc: k.ipc.reply_reserved(caller, replier, reply_endpoint), ..k }).sound(),
        (Kernel { ipc: k.ipc.record_moved(index as int, generation, from, to), ..k }).sound(),
        (Kernel { ipc: k.ipc.with_waiter_cap(index as int, generation, cap), ..k }).sound(),
        k.reply_consumed(index, generation).sound(),
        k.reply_restored(index, generation, replier).sound(),
        k.link_finalized(index, generation).sound(),
        (Kernel { tasks: k.tasks.linked(replier, index, generation), ..k }).sound(),
        (Kernel { tasks: k.tasks.unlinked(replier, index, generation), ..k }).sound(),
{
}

/// Taking what a resume needs, saving registers and taking a dispatch back keep the kernel sound.
pub proof fn law_resuming_keeps_sound(
    k: Kernel,
    tid: u64,
    asid: Asid,
    context: UserRegisterContext,
    class: BlockedSyscallClass,
    token: DispatchMarkToken,
)
    requires
        k.sound(),
    ensures
        (Kernel { tasks: k.tasks.tls_taken(tid), ..k }).sound(),
        (Kernel { tasks: k.tasks.restore_taken(tid), ..k }).sound(),
        (Kernel { tasks: crate::runtime::resume::async_taken(k.tasks, tid), ..k }).sound(),
        k.tasks.exact(tid, Some(asid)) matches Some(tcb) ==> {
            &&& (Kernel {
                tasks: k.tasks.with_exact(
                    tid,
                    Some(asid),
                    ThreadControlBlock { user_context: context, ..tcb },
                ),
                ..k
            }).sound()
            &&& (Kernel {
                tasks: k.tasks.with_exact(
                    tid,
                    Some(asid),
                    crate::task::completion_taken(tcb, class),
                ),
                ..k
            }).sound()
        },
        crate::runtime::resume::can_roll_back(k, token) ==> (Kernel {
            tasks: k.tasks.transitioned(token.spec_tid(), TaskTransition::RollbackDispatchedIncoming),
            sched: k.sched.reenqueued(token.spec_cpu()),
            ..k
        }).sound(),
{
    crate::laws::scheduling::law_reenqueue_keeps_apart(k.sched, token.spec_cpu());
    assert(k.tasks.tls_taken(tid).tcbs == k.tasks.tcbs);
    if let Some(tcb) = k.tasks.find(tid) {
        assert(k.tasks.tls_taken(tid).find(tid) == Some(tcb));
    }
}

} // verus!
