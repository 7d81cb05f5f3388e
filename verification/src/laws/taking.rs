//! What a whole receive leaves behind: the queue, the senders' places, and the sender that goes on.
use vstd::prelude::*;

use crate::capability::{CapObject, RIGHT_RECEIVE};
use crate::ids::{CapId, CpuId};
use crate::ipc::{QueuedMessage, RecvAdmission, SenderWaiter, SenderWakeTarget, NO_TRANSFER_CAP};
use crate::kernel::Kernel;
use crate::runtime::recv::{
    RecvBoundaryOrdinaryCapSnapshot, RecvBoundaryUserCopySnapshot, RecvEnd, RecvQueuedSplitPhaseA,
};
use crate::runtime::EndpointRecvCapSnapshot;
use crate::seqs;
use crate::trap::TrapFrame;

verus! {

/// Does the receive of the task that is current on `cpu`, at endpoint `e`, end this way, with `h`
/// as the place of the first message that is queued there?
pub open spec fn receives_at(
    k: Kernel,
    cpu: CpuId,
    frame: TrapFrame,
    end: RecvEnd,
    e: int,
    h: int,
) -> bool {
    &&& k.split_recv(cpu, frame) == Some(end)
    &&& (cpu.0 as int) < k.sched.cpus.len()
    &&& k.sched.cpus[cpu.0 as int].online
    &&& k.sched.cpus[cpu.0 as int].current matches Some(tid) && k.endpoint_cap(
        tid,
        CapId(frame.args@[0]),
        RIGHT_RECEIVE,
    ) matches Ok((CapObject::Endpoint { index, .. }, _, _)) && index == e
    &&& 0 <= h < k.ipc.queue.len()
    &&& k.ipc.queue[h].endpoint == e
    &&& forall|m: int| 0 <= m < h ==> (#[trigger] k.ipc.queue[m]).endpoint != e
}

/// Did the receive take its message?  It did when it succeeded, and a message without a capability
/// is taken whenever anything is.
pub open spec fn took(k: Kernel, end: RecvEnd, h: int) -> bool {
    end.result is Ok || (k.ipc.queue[h].msg.transfer == NO_TRANSFER_CAP && end.kernel.ipc.queue
        != k.ipc.queue)
}

/// Is `s` the first place at endpoint `e` in which a sender waits?
pub open spec fn first_waits(k: Kernel, e: int, s: int) -> bool {
    &&& 8 * e <= s < 8 * e + 8
    &&& 0 <= s < k.ipc.senders.len()
    &&& k.ipc.senders[s] is Some
    &&& forall|m: int| 8 * e <= m < s ==> (#[trigger] k.ipc.senders[m]) is None
}

/// Does no sender wait at endpoint `e`?
pub open spec fn nobody_waits(k: Kernel, e: int) -> bool {
    forall|m: int|
        8 * e <= m < 8 * e + 8 && m < k.ipc.senders.len() ==> (#[trigger] k.ipc.senders[m]) is None
}

/// The sender of a waiting place.
pub open spec fn target_of(w: SenderWaiter) -> SenderWakeTarget {
    SenderWakeTarget { tid: w.tid, asid: w.asid, send_generation: w.send_generation }
}

/// The sender that a receive at endpoint `e` lets go.
spec fn waked(k: Kernel, e: int) -> Option<SenderWakeTarget> {
    match k.ipc.refiller(e) {
        Some(w) => Some(target_of(w)),
        None => None,
    }
}

/// Is `end` reached from `mid`, in which nothing but the dequeue happened, by letting the sender go?
spec fn reached(k: Kernel, cpu: CpuId, e: int, end: Kernel, mid: Kernel) -> bool {
    same_senders(mid, k.dequeued(e)) && same_senders(end, mid.sender_let_go(cpu, waked(k, e)))
}

proof fn lemma_refiller(k: Kernel, e: int, s: int)
    requires
        0 <= e,
        first_waits(k, e, s),
    ensures
        k.ipc.refiller(e) == k.ipc.senders[s],
        8 * e + k.ipc.first_sender(e) == s,
{
    let row = k.ipc.row(e);
    assert forall|m: int| 0 <= m < s - 8 * e implies !crate::ipc::occupied()(#[trigger] row[m]) by {
        assert(row[m] == k.ipc.senders[8 * e + m]);
    }
    assert(row[s - 8 * e] == k.ipc.senders[s]);
    seqs::lemma_first_where_is(row, crate::ipc::occupied(), s - 8 * e);
}

proof fn lemma_no_refiller(k: Kernel, e: int)
    requires
        0 <= e,
        nobody_waits(k, e),
    ensures
        k.ipc.refiller(e) is None,
{
    let row = k.ipc.row(e);
    assert forall|m: int| 0 <= m < row.len() implies !crate::ipc::occupied()(
        #[trigger] row[m],
    ) by {
        assert(row[m] == k.ipc.senders[8 * e + m]);
    }
    seqs::lemma_first_where_is(row, crate::ipc::occupied(), row.len() as int);
}

/// The same tasks, run queue, message queue and waiting places.
pub open spec fn same_senders(a: Kernel, b: Kernel) -> bool {
    &&& a.tasks == b.tasks
    &&& a.sched.queue == b.sched.queue
    &&& a.sched.cpus == b.sched.cpus
    &&& a.ipc.queue == b.ipc.queue
    &&& a.ipc.senders == b.ipc.senders
}

proof fn lemma_copy_end_keeps(
    k: Kernel,
    cpu: CpuId,
    frame: TrapFrame,
    pending: RecvBoundaryUserCopySnapshot,
)
    ensures
        same_senders(k.user_copy_end(cpu, frame, pending).kernel, k),
{
    let copied = k.after_writeback(pending);
    assert(same_senders(copied, k));
    assert(same_senders(copied.pending_cap_undone(pending), copied));
}

/// Behind a receive that took its message, everything that concerns senders is as if the sender
/// had been let go right behind the dequeue.
proof fn lemma_stages(k: Kernel, cpu: CpuId, frame: TrapFrame, end: RecvEnd, e: int, h: int)
    requires
        receives_at(k, cpu, frame, end, e, h),
        took(k, end, h),
    ensures
        k.ipc.delivers(e, RecvAdmission::Boundary),
        k.ipc.head(e) == h,
        exists|mid: Kernel| #[trigger] reached(k, cpu, e, end.kernel, mid),
{
    let tid = k.sched.current_on(cpu)->0;
    let (endpoint, rights, pid) = k.endpoint_cap(tid, CapId(frame.args@[0]), RIGHT_RECEIVE)->Ok_0;
    let snapshot = EndpointRecvCapSnapshot {
        endpoint,
        rights,
        requester_tid: tid,
        requester_pid: pid,
    };
    let a = k.phase_a(cpu, frame, snapshot);
    seqs::lemma_first_where_is(k.ipc.queue, crate::ipc::queued_at(e), h);
    assert(k.endpoint_slot(endpoint) is Ok);
    let msg = k.ipc.queue[h].msg;
    let wake = waked(k, e);
    let taken = k.dequeued(e);
    assert(k.ipc.recv_result(e, RecvAdmission::Boundary) is Delivered);
    match a.outcome {
        RecvQueuedSplitPhaseA::PendingUserCopy(pending) => {
            lemma_copy_end_keeps(a.kernel, cpu, a.frame, pending);
        },
        RecvQueuedSplitPhaseA::PendingOrdinaryCapUserCopy(pending) => {
            lemma_ordinary_end(a.kernel, cpu, a.frame, pending);
        },
        _ => {},
    }
    if msg.spec_transferred_cap() is Some && !msg.spec_is_reply_cap() {
        if k.tasks.asid_of(tid) is None {
            let mid = taken.after_cap_hand_over(e, tid, msg.transfer);
            assert(same_senders(mid, taken));
            assert(same_senders(end.kernel, mid.sender_let_go(cpu, wake)));
            assert(reached(k, cpu, e, end.kernel, mid));
        } else {
            let pending = a.outcome->PendingOrdinaryCapUserCopy_0;
            let mid = choose|mid: Kernel|
                same_senders(mid, a.kernel) && #[trigger] same_senders(
                    a.kernel.ordinary_cap_end(cpu, a.frame, pending).kernel,
                    mid.sender_let_go(cpu, pending.wake_tid),
                );
            assert(same_senders(a.kernel, taken));
            assert(same_senders(end.kernel, mid.sender_let_go(cpu, wake)));
            assert(reached(k, cpu, e, end.kernel, mid));
        }
    } else if msg.spec_transferred_cap() is None {
        assert(same_senders(taken, taken));
        assert(same_senders(end.kernel, taken.sender_let_go(cpu, wake)));
        assert(reached(k, cpu, e, end.kernel, taken));
    } else {
        let mid = taken.after_reply_hand_over(e, tid, msg.transfer).reply_counted();
        assert(same_senders(mid, taken));
        assert(same_senders(end.kernel, mid.sender_let_go(cpu, wake)));
        assert(reached(k, cpu, e, end.kernel, mid));
    }
}

proof fn lemma_ordinary_end(
    k: Kernel,
    cpu: CpuId,
    frame: TrapFrame,
    pending: RecvBoundaryOrdinaryCapSnapshot,
)
    ensures
        k.ordinary_cap_end(cpu, frame, pending).result is Ok ==> exists|mid: Kernel|
            same_senders(mid, k) && #[trigger] same_senders(
                k.ordinary_cap_end(cpu, frame, pending).kernel,
                mid.sender_let_go(cpu, pending.wake_tid),
            ),
{
    if k.ordinary_cap_end(cpu, frame, pending).result is Ok {
        let snap = crate::runtime::transfer::TransferCapSnapshot {
            receiver_cnode: pending.receiver_cnode,
            object: pending.object,
            rights: pending.rights,
        };
        let delegation = crate::runtime::transfer::TransferCapDelegation {
            source_tid: pending.source_tid,
            source_cap: pending.source_cap,
            dest_tid: pending.receiver_tid,
        };
        let mid = k.after_materialize(snap, Some(delegation));
        let cap = k.materialize_result(snap, Some(delegation))->Ok_0->Materialized_0;
        assert(same_senders(mid, k));
        lemma_copy_end_keeps(
            mid.sender_let_go(cpu, pending.wake_tid),
            cpu,
            frame.with_cap_word(cap.0),
            RecvBoundaryUserCopySnapshot {
                asid: pending.asid,
                receiver_tid: pending.receiver_tid,
                msg: pending.msg,
                writeback: pending.writeback,
                materialized_cap: Some(cap.0),
                is_reply_cap: false,
                reply_record: None,
            },
        );
        assert(same_senders(
            k.ordinary_cap_end(cpu, frame, pending).kernel,
            mid.sender_let_go(cpu, pending.wake_tid),
        ));
    }
}

/// A receive that takes a message while a sender waits: the first message of the endpoint is off
/// the queue, the message of the sender that waited first is at its end, and that sender's place is
/// free.  The sender, blocked in that very send, goes on: it is runnable, has the success of its
/// send to take, and is queued where it may join.  No other task changes.
pub proof fn law_receive_lets_the_sender_go(
    k: Kernel,
    cpu: CpuId,
    frame: TrapFrame,
    end: RecvEnd,
    e: int,
    h: int,
    s: int,
    i: int,
)
    requires
        k.tasks.apart(),
        receives_at(k, cpu, frame, end, e, h),
        took(k, end, h),
        first_waits(k, e, s),
        crate::laws::waking::is_blocked_sender(k, i, target_of(k.ipc.senders[s]->0)),
    ensures
        end.kernel.ipc.queue == k.ipc.queue.remove(h).push(
            QueuedMessage { endpoint: e as usize, msg: k.ipc.senders[s]->0.msg },
        ),
        end.kernel.ipc.senders == k.ipc.senders.update(s, None),
        crate::laws::waking::sender_went_on(k, end.kernel, cpu, i),
{
    lemma_stages(k, cpu, frame, end, e, h);
    lemma_refiller(k, e, s);
    let target = target_of(k.ipc.senders[s]->0);
    let mid = choose|mid: Kernel| #[trigger] reached(k, cpu, e, end.kernel, mid);
    assert(waked(k, e) == Some(target));
    crate::laws::waking::law_blocked_sender_goes_on(mid, cpu, i, target);
    let tcb = k.tasks.tcbs[i]->0;
    let home = match tcb.cpu_affinity {
        Some(home) => home,
        None => cpu,
    };
    assert(crate::laws::waking::may_join(mid.sched, home, tcb.tid.0)
        == crate::laws::waking::may_join(k.sched, home, tcb.tid.0));
}

/// A receive that takes a message while no sender waits takes the first message of the endpoint off
/// the queue; senders, tasks and run queues are as they were.
pub proof fn law_receive_takes_the_first_message(
    k: Kernel,
    cpu: CpuId,
    frame: TrapFrame,
    end: RecvEnd,
    e: int,
    h: int,
)
    requires
        receives_at(k, cpu, frame, end, e, h),
        took(k, end, h),
        nobody_waits(k, e),
    ensures
        end.kernel.ipc.queue == k.ipc.queue.remove(h),
        end.kernel.ipc.senders == k.ipc.senders,
        end.kernel.tasks == k.tasks,
        end.kernel.sched.queue == k.sched.queue,
        end.kernel.sched.cpus == k.sched.cpus,
{
    lemma_stages(k, cpu, frame, end, e, h);
    lemma_no_refiller(k, e);
}

} // verus!
