//! Laws of receiving and delivering: what is not served is not consumed, what is delivered can
//! be read, and what fails is undone.
use vstd::prelude::*;

use crate::capability::{CapObject, CapRights, Capability, RIGHT_SEND};
use crate::deferred::{
    BlockingSendCommitSnapshot, DispatchPostWork, OrdinaryCapDelivery, PlainDelivery,
    ReplyCapDelivery, WaiterDelivery,
};
use crate::ids::{Asid, CpuId, TrapHandleError};
use crate::ipc::{RecvAdmission, SenderWakeTarget};
use crate::kernel::Kernel;
use crate::runtime::delivery::DispatchPostWorkDisposition;
use crate::runtime::recv::{
    RecvBoundaryOrdinaryCapSnapshot, RecvBoundaryUserCopySnapshot, RecvWritebackPlan,
};
use crate::runtime::transfer::{
    CapTransferMaterializeOutcome, TransferCapDelegation, TransferCapSnapshot,
};
use crate::runtime::EndpointRecvCapSnapshot;
use crate::seqs;
use crate::trap::TrapFrame;
use crate::vm::Vm;

verus! {

/// A receive that is not served consumes nothing: no message, no envelope, no register.
pub proof fn law_fallback_consumes_nothing(
    k: Kernel,
    cpu: CpuId,
    frame: TrapFrame,
    snapshot: EndpointRecvCapSnapshot,
)
    requires
        k.phase_a(cpu, frame, snapshot).outcome is Fallback,
    ensures
        k.phase_a(cpu, frame, snapshot).kernel == k,
        k.phase_a(cpu, frame, snapshot).frame == frame,
{
}

/// A receive that is served takes exactly its message off the queue, whatever becomes of the
/// rest.
pub proof fn law_served_message_leaves_the_queue(
    k: Kernel,
    cpu: CpuId,
    frame: TrapFrame,
    snapshot: EndpointRecvCapSnapshot,
)
    requires
        k.endpoint_slot(snapshot.endpoint) matches Ok(e) && k.ipc.recv_result(
            e as int,
            RecvAdmission::Boundary,
        ) is Delivered,
        !(k.phase_a(cpu, frame, snapshot).outcome is Fallback),
    ensures
        ({
            let e = k.endpoint_slot(snapshot.endpoint)->Ok_0 as int;
            let after = k.phase_a(cpu, frame, snapshot).kernel;
            &&& after.ipc.queue == k.ipc.received(e, RecvAdmission::Boundary).queue
            &&& after.ipc.senders == k.ipc.received(e, RecvAdmission::Boundary).senders
        }),
{
}

/// No two of the `len` bytes at `ptr` are the same physical byte.
pub open spec fn unaliased(vm: Vm, asid: Asid, ptr: u64, len: nat) -> bool {
    forall|a: int, b: int|
        0 <= a < b < len ==> #[trigger] vm.user_byte_phys(asid, ptr, a, true)
            != #[trigger] vm.user_byte_phys(asid, ptr, b, true)
}

/// The payload of a message that was copied to user memory is read back there.
pub proof fn law_copied_payload_reads_back(
    k: Kernel,
    pending: RecvBoundaryUserCopySnapshot,
    user_ptr: u64,
    i: int,
)
    requires
        k.writeback_result(pending) is Copied,
        match pending.writeback {
            RecvWritebackPlan::UserMemory { user_ptr: p, .. } => p == user_ptr,
            RecvWritebackPlan::UserMemoryV2 { user_ptr: p, .. } => p == user_ptr,
            RecvWritebackPlan::KernelRegister => false,
        },
        0 <= i < pending.msg.bytes().len(),
        unaliased(k.vm, pending.asid->0, user_ptr, pending.msg.bytes().len()),
    ensures
        k.after_writeback(pending).mem.byte(
            k.vm.user_byte_phys(pending.asid->0, user_ptr, i, true),
        ) == pending.msg.bytes()[i],
{
    let asid = pending.asid->0;
    let bytes = pending.msg.bytes();
    let before = match pending.writeback {
        RecvWritebackPlan::UserMemoryV2 { meta_ptr, .. } => k.user_copied(
            asid,
            meta_ptr,
            k.pending_meta(pending),
        ),
        _ => k,
    };
    assert(before.vm == k.vm);
    crate::runtime::usercopy::law_copy_reads_back(before.mem, k.vm, asid, user_ptr, bytes, i);
}

/// A copied capability that is taken back leaves the capability domain as it was.
proof fn lemma_copy_taken_back(
    k: Kernel,
    snap: TransferCapSnapshot,
    delegation: TransferCapDelegation,
)
    requires
        k.materialize_result(snap, Some(delegation)) matches Ok(
            CapTransferMaterializeOutcome::Materialized(_),
        ),
        k.cnode_of_task(delegation.dest_tid) == Some(snap.receiver_cnode),
        !seqs::any_where(
            k.caps.links,
            crate::capability::leads_to(
                delegation.dest_tid,
                k.caps.mint_verdict(snap.receiver_cnode)->Ok_0,
            ),
        ),
    ensures
        ({
            let cap = k.caps.mint_verdict(snap.receiver_cnode)->Ok_0;
            let given = k.after_materialize(snap, Some(delegation));
            &&& given.task_capability(delegation.dest_tid, cap) is Ok
            &&& given.caps.revoked(snap.receiver_cnode, cap).unlinked(delegation.dest_tid, cap)
                == k.caps
            &&& given.caps.process_cnodes == k.caps.process_cnodes
        }),
{
    let cap = k.caps.mint_verdict(snap.receiver_cnode)->Ok_0;
    let to = snap.receiver_cnode;
    let tid = delegation.dest_tid;
    let given = k.after_materialize(snap, Some(delegation));
    let capability = Capability { object: snap.object, rights: snap.rights };
    let minted = k.caps.minted(to, capability);
    let p = crate::capability::in_slot(to, cap);
    let l = crate::capability::leads_to(tid, cap);
    let n = k.caps.links.len() as int;
    crate::runtime::transfer::law_mint_and_revoke(k.caps, to, capability);
    assert(given.caps.entries == minted.entries);
    assert(given.caps.process_cnodes == k.caps.process_cnodes);
    assert(given.cnode_of_task(tid) == Some(to));
    assert(given.caps.resolve(to, cap) == minted.resolve(to, cap));
    assert(given.caps.revoked(to, cap).entries == minted.revoked(to, cap).entries);
    seqs::lemma_first_where(k.caps.links, l);
    assert forall|j: int| 0 <= j < n implies !l(#[trigger] given.caps.links[j]) by {
        assert(given.caps.links[j] == k.caps.links[j]);
    }
    seqs::lemma_first_where_is(given.caps.links, l, n);
    assert(given.caps.links.remove(n) =~= k.caps.links);
}

/// Waking a sender leaves capabilities, address spaces and memory alone, and every task where it
/// belongs.
proof fn lemma_sender_let_go_frame(k: Kernel, cpu: CpuId, wake: Option<SenderWakeTarget>, tid: u64)
    ensures
        k.sender_let_go(cpu, wake).caps == k.caps,
        k.sender_let_go(cpu, wake).vm == k.vm,
        k.sender_let_go(cpu, wake).mem == k.mem,
        k.sender_let_go(cpu, wake).tasks.group_of(tid) == k.tasks.group_of(tid),
{
    if let Some(target) = wake {
        if k.sched.admits(cpu) is Ok {
            let answered = k.send_answered(cpu, target);
            lemma_send_completed_keeps_groups(k, target, tid);
            let woken = target.tid.0;
            if let Some(tcb) = answered.tasks.find(woken) {
                if tcb.status.spec_live() {
                    crate::task::lemma_found_is_exact(answered.tasks, woken);
                    crate::task::lemma_replaced(
                        answered.tasks,
                        woken,
                        crate::runtime::wake::woken_tcb(tcb),
                    );
                }
            }
        }
    }
}

proof fn lemma_send_completed_keeps_groups(k: Kernel, target: SenderWakeTarget, tid: u64)
    ensures
        k.tasks.send_completed(target, crate::task::SEND_COMPLETION_OK).group_of(tid)
            == k.tasks.group_of(tid),
{
    let after = k.tasks.send_completed(target, crate::task::SEND_COMPLETION_OK);
    if k.tasks.send_is_blocked(target) {
        let i = k.tasks.exact_slot(target.tid.0, target.asid);
        let p = crate::task::has_tid(tid);
        seqs::lemma_first_where(
            k.tasks.tcbs,
            crate::task::is_incarnation(target.tid.0, target.asid),
        );
        seqs::lemma_first_where(k.tasks.tcbs, p);
        let j = seqs::first_where(k.tasks.tcbs, p);
        assert forall|m: int| 0 <= m < j implies !p(#[trigger] after.tcbs[m]) by {
            assert(!p(k.tasks.tcbs[m]));
            if m != i {
                assert(after.tcbs[m] == k.tasks.tcbs[m]);
            }
        }
        if j < k.tasks.tcbs.len() {
            if j != i {
                assert(after.tcbs[j] == k.tasks.tcbs[j]);
            }
        }
        seqs::lemma_first_where_is(after.tcbs, p, j);
    }
}

/// A receive whose capability was copied, and whose message then does not fit or whose metadata
/// cannot be written, leaves the receiver no capability.
pub proof fn law_undelivered_capability_is_taken_back(
    k: Kernel,
    cpu: CpuId,
    frame: TrapFrame,
    pending: RecvBoundaryOrdinaryCapSnapshot,
)
    requires
        k.ordinary_cap_end(cpu, frame, pending).result is Err,
        k.cnode_of_task(pending.receiver_tid) == Some(pending.receiver_cnode),
        k.caps.mint_verdict(pending.receiver_cnode) matches Ok(cap) ==> !seqs::any_where(
            k.caps.links,
            crate::capability::leads_to(pending.receiver_tid, cap),
        ),
    ensures
        k.ordinary_cap_end(cpu, frame, pending).kernel.caps == k.caps,
{
    let snap = TransferCapSnapshot {
        receiver_cnode: pending.receiver_cnode,
        object: pending.object,
        rights: pending.rights,
    };
    let delegation = TransferCapDelegation {
        source_tid: pending.source_tid,
        source_cap: pending.source_cap,
        dest_tid: pending.receiver_tid,
    };
    let tid = pending.receiver_tid;
    if let Ok(CapTransferMaterializeOutcome::Materialized(cap)) = k.materialize_result(
        snap,
        Some(delegation),
    ) {
        lemma_copy_taken_back(k, snap, delegation);
        let handed = k.after_materialize(snap, Some(delegation));
        let gone_on = handed.sender_let_go(cpu, pending.wake_tid);
        lemma_sender_let_go_frame(handed, cpu, pending.wake_tid, tid);
        assert(handed.cnode_of_task(tid) == Some(pending.receiver_cnode));
        assert(gone_on.cnode_of_task(tid) == Some(pending.receiver_cnode));
        assert(gone_on.task_capability(tid, cap) == handed.task_capability(tid, cap));
        let copy = RecvBoundaryUserCopySnapshot {
            asid: pending.asid,
            receiver_tid: tid,
            msg: pending.msg,
            writeback: pending.writeback,
            materialized_cap: Some(cap.0),
            is_reply_cap: false,
            reply_record: None,
        };
        let copied = gone_on.after_writeback(copy);
        assert(copied.caps == gone_on.caps);
        assert(copied.tasks == gone_on.tasks);
        assert(copied.task_capability(tid, cap) == handed.task_capability(tid, cap));
    }
}

/// A delivery of a copied capability that fails leaves the receiver no capability, and blocked
/// as it was.
pub proof fn law_failed_cap_delivery_is_undone(k: Kernel, cpu: CpuId, snap: OrdinaryCapDelivery)
    requires
        k.cap_delivered(cpu, snap).result is Err,
        k.cnode_of_task(snap.to.waiter_tid) == Some(snap.receiver_cnode),
        k.caps.mint_verdict(snap.receiver_cnode) matches Ok(cap) ==> !seqs::any_where(
            k.caps.links,
            crate::capability::leads_to(snap.to.waiter_tid, cap),
        ),
    ensures
        k.cap_delivered(cpu, snap).kernel.caps == k.caps,
        k.cap_delivered(cpu, snap).kernel.tasks == k.tasks,
        k.cap_delivered(cpu, snap).kernel.sched == k.sched,
        k.cap_delivered(cpu, snap).kernel.ipc == k.ipc,
{
    let what = TransferCapSnapshot {
        receiver_cnode: snap.receiver_cnode,
        object: snap.object,
        rights: snap.rights,
    };
    let delegation = TransferCapDelegation {
        source_tid: snap.source_tid,
        source_cap: snap.source_cap,
        dest_tid: snap.to.waiter_tid,
    };
    if let Ok(CapTransferMaterializeOutcome::Materialized(cap)) = k.materialize_result(
        what,
        Some(delegation),
    ) {
        lemma_copy_taken_back(k, what, delegation);
        let handed = k.after_materialize(what, Some(delegation));
        let meta = crate::runtime::delivery::delivery_meta(
            snap.to,
            cap,
            crate::trap::RECV_META_TRANSFERRED_CAP,
        ).bytes();
        let copied = handed.delivery_copied(snap.to, meta);
        assert(copied.caps == handed.caps && copied.tasks == handed.tasks);
        assert(copied.task_capability(snap.to.waiter_tid, cap) == handed.task_capability(
            snap.to.waiter_tid,
            cap,
        ));
        assert(copied.cnode_of_task(snap.to.waiter_tid) == Some(snap.receiver_cnode));
    }
}

/// A delivery of a reply that fails leaves the receiver no capability, and blocked as it was; no
/// record keeps a capability that is gone.
pub proof fn law_failed_reply_delivery_is_undone(k: Kernel, cpu: CpuId, snap: ReplyCapDelivery)
    requires
        k.reply_delivered(cpu, snap).result is Err,
    ensures
        k.reply_delivered(cpu, snap).kernel.caps == k.caps,
        k.reply_delivered(cpu, snap).kernel.tasks == k.tasks,
        k.reply_delivered(cpu, snap).kernel.sched == k.sched,
        k.reply_delivered(cpu, snap).kernel.ipc == k.ipc || k.reply_delivered(cpu, snap).kernel.ipc
            == k.ipc.with_waiter_cap(snap.reply_index as int, snap.reply_generation, None),
{
    let index = snap.reply_index as int;
    let generation = snap.reply_generation;
    let object = CapObject::Reply { index: snap.reply_index, generation };
    let capability = Capability { object, rights: CapRights(RIGHT_SEND) };
    if k.caps.mint_verdict(snap.receiver_cnode) is Ok && k.ipc.waiter_cap_verdict(
        index,
        generation,
    ) is Recorded {
        let cap = k.caps.mint_verdict(snap.receiver_cnode)->Ok_0;
        crate::runtime::transfer::law_mint_and_revoke(k.caps, snap.receiver_cnode, capability);
        assert(k.ipc.with_waiter_cap(index, generation, Some(cap)).with_waiter_cap(
            index,
            generation,
            None,
        ).replies =~= k.ipc.with_waiter_cap(index, generation, None).replies);
    }
}

/// A plain delivery that fails changes bytes of user memory at most; the receiver is blocked as
/// it was.
pub proof fn law_failed_plain_delivery_wakes_nobody(k: Kernel, cpu: CpuId, snap: PlainDelivery)
    requires
        k.plain_delivered(cpu, snap).result is Err,
    ensures
        k.plain_delivered(cpu, snap).kernel == (Kernel {
            mem: k.plain_delivered(cpu, snap).kernel.mem,
            ..k
        }),
{
}

/// Completing a delivery leaves alone what is set aside.
proof fn lemma_delivery_done_keeps_pending(k: Kernel, cpu: CpuId, to: WaiterDelivery)
    ensures
        k.delivery_done(cpu, to).pending == k.pending,
{
}

/// A delivery of a copied capability leaves alone what is set aside.
proof fn lemma_cap_delivery_keeps_pending(k: Kernel, cpu: CpuId, snap: OrdinaryCapDelivery)
    ensures
        k.cap_delivered(cpu, snap).kernel.pending == k.pending,
{
}

/// A delivery of a reply leaves alone what is set aside.
proof fn lemma_reply_delivery_keeps_pending(k: Kernel, cpu: CpuId, snap: ReplyCapDelivery)
    ensures
        k.reply_delivered(cpu, snap).kernel.pending == k.pending,
{
}

/// Doing what was left takes nothing else off what is set aside.
proof fn lemma_post_work_keeps_stash(
    k: Kernel,
    cpu: CpuId,
    work: DispatchPostWork,
    acks: Seq<usize>,
)
    ensures
        k.post_work_done(cpu, work, acks).kernel.pending == k.pending,
{
    match work {
        DispatchPostWork::BlockedWaiterPlainDelivery(snap) => {
            lemma_delivery_done_keeps_pending(
                k.delivery_copied(snap.to, snap.meta.bytes()),
                cpu,
                snap.to,
            );
        },
        DispatchPostWork::BlockedWaiterOrdinaryCapDelivery(snap) => {
            lemma_cap_delivery_keeps_pending(k, cpu, snap);
        },
        DispatchPostWork::BlockedWaiterReplyCapDelivery(snap) => {
            lemma_reply_delivery_keeps_pending(k, cpu, snap);
        },
        DispatchPostWork::BlockedWaiterSharedRegionDelivery(snap) => {
            crate::laws::regions::lemma_region_pending(k, snap, acks);
        },
        _ => {},
    }
}

/// Committing a blocking send takes nothing off what handlers left.
proof fn lemma_send_commit_keeps_stash(k: Kernel, cpu: CpuId, snap: BlockingSendCommitSnapshot)
    ensures
        k.send_commit_done(cpu, snap).pending.stash == k.pending.stash,
{
}

/// What a handler left for the way out is done once: a second look finds nothing to do.
pub proof fn law_left_work_is_done_once(
    k: Kernel,
    cpu: CpuId,
    acks: Seq<usize>,
    later: Seq<usize>,
)
    ensures
        k.stash_done(cpu, acks).stashed(cpu) is None,
        k.stash_done(cpu, acks).stash_done(cpu, later) == k.stash_done(cpu, acks),
        k.stash_done(cpu, acks).stash_result(cpu, later) == Ok::<
            DispatchPostWorkDisposition,
            TrapHandleError,
        >(DispatchPostWorkDisposition::NoCallerAction),
{
    if let Some(work) = k.stashed(cpu) {
        let un = k.unstashed(cpu);
        assert(un.pending.stash[cpu.0 as int] is None);
        if let DispatchPostWork::BlockingSendCommit(snap) = work {
            lemma_send_commit_keeps_stash(un, cpu, snap);
        } else {
            lemma_post_work_keeps_stash(un, cpu, work, acks);
        }
        assert(k.stash_done(cpu, acks).pending.stash == un.pending.stash);
    }
}

} // verus!
