//! Where nothing stands in the way, a receive or a delivery with a capability succeeds.
use vstd::prelude::*;

use crate::capability::{CapEntry, CapObject, CapRights, Capability};
use crate::deferred::{DispatchPostWork, OrdinaryCapDelivery, ReplyCapDelivery};
use crate::ids::{Asid, CNodeId, CapId, CpuId, ThreadId};
use crate::ipc::RecvAdmission;
use crate::kernel::Kernel;
use crate::runtime::recv::RecvBoundaryUserCopySnapshot;
use crate::runtime::transfer::{TransferCapDelegation, TransferCapSnapshot};
use crate::trap::TrapFrame;

verus! {

/// Has the receiver room for the message: in registers for a kernel task, and else in its buffer,
/// with a metadata buffer or without one?
pub open spec fn has_room(k: Kernel, frame: TrapFrame, tid: u64, used: int) -> bool {
    match k.tasks.asid_of(tid) {
        None => frame.args@[3] == 0 && used <= 16,
        Some(asid) => {
            &&& used <= frame.args@[2]
            &&& crate::laws::reading::writable(k, asid, frame.args@[1], used)
            &&& frame.args@[3] == 0 || (frame.args@[4] >= 40 && crate::laws::reading::writable(
                k,
                asid,
                frame.args@[3],
                40,
            ))
        },
    }
}

/// May one more capability go into the first unfilled slot `n` of `cnode`?
pub open spec fn slot_is_free(k: Kernel, cnode: CNodeId, n: int) -> bool {
    &&& crate::laws::granting::first_unfilled(k.caps, cnode, n)
    &&& k.caps.slots_of(cnode) is Some
    &&& n <= k.caps.slots_of(cnode)->0
    &&& n < u64::MAX
}

proof fn lemma_copied(
    k: Kernel,
    before: Kernel,
    cpu: CpuId,
    frame: TrapFrame,
    pending: RecvBoundaryUserCopySnapshot,
    asid: Asid,
)
    requires
        before.vm == k.vm,
        pending.asid == Some(asid),
        k.tasks.asid_of(pending.receiver_tid) == Some(asid),
        has_room(k, frame, pending.receiver_tid, pending.msg.used()),
        pending.writeback == crate::runtime::recv::writeback_of(
            crate::runtime::recv::recv_plan(false, frame.args@[3], frame.args@[4]),
            frame,
        ),
    ensures
        before.writeback_result(pending) is Copied,
        before.user_copy_end(cpu, frame, pending).result is Ok,
        before.user_copy_end(cpu, frame, pending).kernel.caps == before.caps,
{
    crate::laws::serving::law_copy_is_judged(before, pending);
    assert(pending.msg.bytes().len() == pending.msg.used());
}

/// A receive of a message with a capability that its sender still holds: where the receiver has a
/// free slot and room for the message, and the table of links has room, the receive succeeds, the
/// register names the slot, and the slot holds what the sender's does.
pub proof fn law_capability_is_received(
    k: Kernel,
    cpu: CpuId,
    frame: TrapFrame,
    tid: u64,
    e: int,
    h: int,
    cnode: CNodeId,
    source: Capability,
    n: int,
)
    requires
        crate::laws::reading::may_receive(k, cpu, frame, tid, e, h),
        k.ipc.queue[h].msg.transfer != u64::MAX,
        k.ipc.queue[h].msg.flags & 1 == 0,
        k.ipc.queue[h].msg.opcode != 0xFFF0,
        ({
            let env = k.ipc.takeable(k.ipc.queue[h].msg.transfer, e, ThreadId(tid));
            &&& env is Some
            &&& env->0.shared_region is None
            &&& !(env->0.source_object is Reply)
            &&& k.task_capability(env->0.source_tid.0, env->0.source_cap) == Ok::<
                Capability,
                crate::ids::KernelError,
            >(source)
        }),
        !(source.object is Reply),
        k.cnode_of_task(tid) == Some(cnode),
        slot_is_free(k, cnode, n),
        k.caps.links.len() < k.profile.spec_config().max_delegations,
        has_room(k, frame, tid, k.ipc.queue[h].msg.used()),
    ensures
        k.split_recv(cpu, frame) is Some,
        ({
            let end = k.split_recv(cpu, frame)->0;
            &&& end.result is Ok
            &&& end.frame.error == 0
            &&& end.frame.ret1 == k.ipc.queue[h].msg.used()
            &&& end.frame.ret2 == n
            &&& end.kernel.caps.entries == k.caps.entries.push(
                CapEntry { cnode, cap: CapId(n as u64), capability: source },
            )
        }),
{
    crate::laws::reading::lemma_may_receive(k, cpu, frame, tid, e, h);
    let msg = k.ipc.queue[h].msg;
    let taken = k.dequeued(e);
    let wake = k.ipc.recv_result(e, RecvAdmission::Boundary)->wake;
    let env = k.ipc.takeable(msg.transfer, e, ThreadId(tid))->0;
    crate::laws::serving::law_served_messages(k.ipc, msg);
    assert(taken.ipc.takeable(msg.transfer, e, ThreadId(tid)) == Some(env));
    assert(msg.bytes().len() == msg.used());
    if k.tasks.asid_of(tid) is None {
        let from = k.cnode_of_task(env.source_tid.0)->0;
        crate::laws::granting::law_capability_is_handed_over(
            taken,
            e,
            tid,
            msg.transfer,
            cnode,
            from,
            source,
            n,
        );
        let handed = taken.after_cap_hand_over(e, tid, msg.transfer);
        crate::laws::reading::lemma_let_go_keeps_identities(handed, cpu, wake);
        crate::laws::reading::law_register_words_hold_the_payload(msg.bytes());
    } else {
        let asid = k.tasks.asid_of(tid)->0;
        let gone = taken.envelope_gone(msg.transfer, e, tid);
        let snap = TransferCapSnapshot {
            receiver_cnode: cnode,
            object: source.object,
            rights: source.rights,
        };
        let d = TransferCapDelegation {
            source_tid: env.source_tid.0,
            source_cap: env.source_cap,
            dest_tid: tid,
        };
        crate::laws::granting::law_capability_is_copied(gone, snap, d, n);
        let handed = gone.after_materialize(snap, Some(d));
        let before = handed.sender_let_go(cpu, wake);
        crate::laws::reading::lemma_let_go_keeps_identities(handed, cpu, wake);
        lemma_copied(
            k,
            before,
            cpu,
            frame.with_cap_word(n as u64),
            RecvBoundaryUserCopySnapshot {
                asid: Some(asid),
                receiver_tid: tid,
                msg,
                writeback: crate::runtime::recv::writeback_of(
                    crate::runtime::recv::recv_plan(false, frame.args@[3], frame.args@[4]),
                    frame,
                ),
                materialized_cap: Some(n as u64),
                is_reply_cap: false,
                reply_record: None,
            },
            asid,
        );
        assert(source == (Capability { object: source.object, rights: source.rights }));
    }
}

/// A receive of a message with a reply whose record is there: where the receiver has a free slot
/// and room for the message, the receive succeeds, the register names the slot, and the slot holds
/// the reply with the right to send.
pub proof fn law_reply_is_received(
    k: Kernel,
    cpu: CpuId,
    frame: TrapFrame,
    tid: u64,
    e: int,
    h: int,
    cnode: CNodeId,
    index: usize,
    generation: u64,
    n: int,
)
    requires
        crate::laws::reading::may_receive(k, cpu, frame, tid, e, h),
        k.ipc.queue[h].msg.transfer != u64::MAX,
        k.ipc.queue[h].msg.flags & 1 != 0,
        k.ipc.queue[h].msg.opcode != 0xFFF0,
        ({
            let env = k.ipc.takeable(k.ipc.queue[h].msg.transfer, e, ThreadId(tid));
            &&& env is Some
            &&& env->0.shared_region is None
            &&& env->0.source_object == (CapObject::Reply { index, generation })
        }),
        index < 64,
        index < k.ipc.replies.len(),
        k.ipc.replies[index as int].generation == generation,
        k.ipc.replies[index as int].record is Some,
        k.cnode_of_task(tid) == Some(cnode),
        slot_is_free(k, cnode, n),
        has_room(k, frame, tid, k.ipc.queue[h].msg.used()),
    ensures
        k.split_recv(cpu, frame) is Some,
        ({
            let end = k.split_recv(cpu, frame)->0;
            &&& end.result is Ok
            &&& end.frame.error == 0
            &&& end.frame.ret1 == k.ipc.queue[h].msg.used()
            &&& end.frame.ret2 == n
            &&& end.kernel.caps.entries == k.caps.entries.push(
                CapEntry {
                    cnode,
                    cap: CapId(n as u64),
                    capability: Capability {
                        object: CapObject::Reply { index, generation },
                        rights: CapRights(1),
                    },
                },
            )
        }),
{
    crate::laws::reading::lemma_may_receive(k, cpu, frame, tid, e, h);
    let msg = k.ipc.queue[h].msg;
    let taken = k.dequeued(e);
    let wake = k.ipc.recv_result(e, RecvAdmission::Boundary)->wake;
    let env = k.ipc.takeable(msg.transfer, e, ThreadId(tid))->0;
    crate::laws::serving::law_served_messages(k.ipc, msg);
    assert(taken.ipc.takeable(msg.transfer, e, ThreadId(tid)) == Some(env));
    assert(msg.bytes().len() == msg.used());
    crate::laws::granting::law_reply_is_handed_over(taken, e, tid, msg.transfer, cnode, n);
    let handed = taken.after_reply_hand_over(e, tid, msg.transfer).reply_counted();
    let before = handed.sender_let_go(cpu, wake);
    crate::laws::reading::lemma_let_go_keeps_identities(handed, cpu, wake);
    crate::laws::reading::lemma_same_identities(handed.tasks, before.tasks, tid);
    if k.tasks.asid_of(tid) is None {
        crate::laws::reading::law_register_words_hold_the_payload(msg.bytes());
    } else {
        let asid = k.tasks.asid_of(tid)->0;
        lemma_copied(
            k,
            before,
            cpu,
            frame.with_cap_word(n as u64),
            RecvBoundaryUserCopySnapshot {
                asid: Some(asid),
                receiver_tid: tid,
                msg,
                writeback: crate::runtime::recv::writeback_of(
                    crate::runtime::recv::recv_plan(false, frame.args@[3], frame.args@[4]),
                    frame,
                ),
                materialized_cap: Some(n as u64),
                is_reply_cap: true,
                reply_record: Some((index, generation)),
            },
            asid,
        );
    }
}

/// A delivery with a capability that is no reply succeeds exactly where the receiver has a free
/// slot, the table of links has room, and both buffers of the waiter can be written.
pub proof fn law_cap_delivery_succeeds(
    k: Kernel,
    cpu: CpuId,
    snap: OrdinaryCapDelivery,
    n: int,
)
    requires
        crate::laws::granting::first_unfilled(k.caps, snap.receiver_cnode, n),
        !(snap.object is Reply),
    ensures
        k.cap_delivered(cpu, snap).result is Ok <==> {
            &&& k.caps.slots_of(snap.receiver_cnode) is Some
            &&& n <= k.caps.slots_of(snap.receiver_cnode)->0
            &&& k.caps.links.len() < k.profile.spec_config().max_delegations
            &&& crate::laws::reading::writable(
                k,
                snap.to.waiter_asid,
                snap.to.payload_user_ptr,
                snap.to.msg.used(),
            )
            &&& crate::laws::reading::writable(k, snap.to.waiter_asid, snap.to.meta_user_ptr, 40)
        },
{
    let to = snap.to;
    let what = TransferCapSnapshot {
        receiver_cnode: snap.receiver_cnode,
        object: snap.object,
        rights: snap.rights,
    };
    let d = TransferCapDelegation {
        source_tid: snap.source_tid,
        source_cap: snap.source_cap,
        dest_tid: to.waiter_tid,
    };
    crate::laws::granting::law_capability_is_copied(k, what, d, n);
    let handed = k.after_materialize(what, Some(d));
    let meta = crate::runtime::delivery::delivery_meta(to, CapId(n as u64), 1).bytes();
    lemma_delivery_fits(k, handed, to, meta);
}

proof fn lemma_delivery_fits(
    k: Kernel,
    handed: Kernel,
    to: crate::deferred::WaiterDelivery,
    meta: Seq<u8>,
)
    requires
        handed.vm == k.vm,
        meta.len() == 40,
    ensures
        handed.delivery_fits(to, meta) == (crate::laws::reading::writable(
            k,
            to.waiter_asid,
            to.payload_user_ptr,
            to.msg.used(),
        ) && crate::laws::reading::writable(k, to.waiter_asid, to.meta_user_ptr, 40)),
{
    assert(to.msg.bytes().len() == to.msg.used());
    assert(handed.user_copy_fits(to.waiter_asid, to.payload_user_ptr, to.msg.bytes())
        == crate::laws::reading::writable(
        k,
        to.waiter_asid,
        to.payload_user_ptr,
        to.msg.used(),
    ));
    assert(handed.user_copy_fits(to.waiter_asid, to.meta_user_ptr, meta)
        == crate::laws::reading::writable(k, to.waiter_asid, to.meta_user_ptr, 40));
}

/// A delivery with a reply succeeds exactly where the receiver has a free slot, the record is there
/// at this generation, and both buffers of the waiter can be written.
pub proof fn law_reply_delivery_succeeds(k: Kernel, cpu: CpuId, snap: ReplyCapDelivery, n: int)
    requires
        crate::laws::granting::first_unfilled(k.caps, snap.receiver_cnode, n),
    ensures
        k.reply_delivered(cpu, snap).result is Ok <==> {
            &&& k.caps.slots_of(snap.receiver_cnode) is Some
            &&& n <= k.caps.slots_of(snap.receiver_cnode)->0
            &&& snap.reply_index < k.ipc.replies.len()
            &&& k.ipc.replies[snap.reply_index as int].generation == snap.reply_generation
            &&& k.ipc.replies[snap.reply_index as int].record is Some
            &&& crate::laws::reading::writable(
                k,
                snap.to.waiter_asid,
                snap.to.payload_user_ptr,
                snap.to.msg.used(),
            )
            &&& crate::laws::reading::writable(k, snap.to.waiter_asid, snap.to.meta_user_ptr, 40)
        },
{
    let to = snap.to;
    let capability = Capability {
        object: CapObject::Reply {
            index: snap.reply_index,
            generation: snap.reply_generation,
        },
        rights: CapRights(1),
    };
    crate::laws::granting::law_capability_goes_into_the_first_slot(
        k.caps,
        snap.receiver_cnode,
        capability,
        n,
    );
    let cap = CapId(n as u64);
    let recorded = Kernel {
        ipc: k.ipc.with_waiter_cap(
            snap.reply_index as int,
            snap.reply_generation,
            Some(cap),
        ),
        ..k.ref_minted(snap.receiver_cnode, capability)
    };
    let meta = crate::runtime::delivery::delivery_meta(to, cap, 2).bytes();
    lemma_delivery_fits(k, recorded, to, meta);
}

/// What a handler left for the way out is what is done there: the delivery that was left, or the
/// commit of the send.
pub proof fn law_left_work_is_done(k: Kernel, cpu: CpuId, acks: Seq<usize>)
    requires
        (cpu.0 as int) < 8,
        (cpu.0 as int) < k.pending.stash.len(),
        k.pending.stash[cpu.0 as int] is Some,
    ensures
        ({
            let taken = k.unstashed(cpu);
            let after = k.stash_done(cpu, acks);
            let result = k.stash_result(cpu, acks);
            match k.pending.stash[cpu.0 as int]->0 {
                DispatchPostWork::Nothing => after == taken && result is Ok,
                DispatchPostWork::BlockingSendCommit(snap) => after == taken.send_commit_done(
                    cpu,
                    snap,
                ) && result is Ok && result->Ok_0 == taken.send_commit_disposition(snap),
                DispatchPostWork::BlockedWaiterPlainDelivery(snap) => after
                    == taken.plain_delivered(cpu, snap).kernel && (result is Ok
                    <==> taken.plain_delivered(cpu, snap).result is Ok),
                DispatchPostWork::BlockedWaiterOrdinaryCapDelivery(snap) => after
                    == taken.cap_delivered(cpu, snap).kernel && (result is Ok
                    <==> taken.cap_delivered(cpu, snap).result is Ok),
                DispatchPostWork::BlockedWaiterReplyCapDelivery(snap) => after
                    == taken.reply_delivered(cpu, snap).kernel && (result is Ok
                    <==> taken.reply_delivered(cpu, snap).result is Ok),
                DispatchPostWork::BlockedWaiterSharedRegionDelivery(snap) => after
                    == taken.region_delivered(snap, acks).kernel && (result is Ok
                    <==> taken.region_delivered(snap, acks).result is Ok),
            }
        }),
{
}

} // verus!
