//! Laws of messages: a refused send changes nothing, a blocked one is answered once, and every
//! queued message is received once, in order.
use vstd::prelude::*;

use crate::deferred::BlockingSendCommitSnapshot;
use crate::ids::{Asid, CpuId, ThreadId};
use crate::ipc::{Ipc, QueuedMessage, RecvAdmission, SenderWakeTarget};
use crate::kernel::Kernel;
use crate::seqs;
use crate::task::{BlockedSyscallClass, TaskStatus, Tasks, WaitReason};

verus! {

/// A send that is refused changes nothing.
pub proof fn law_refused_send_changes_nothing(k: Kernel, snap: BlockingSendCommitSnapshot)
    requires
        !(k.send_commit_result(snap) is Committed),
    ensures
        k.after_send_commit(snap) == k,
        k.send_commit_result(snap).spec_immediate_error() is Some,
{
}

/// A send that is committed leaves its sender blocked at the endpoint, under a new generation,
/// and touches no other incarnation.
pub proof fn law_committed_send_blocks_its_sender(k: Kernel, snap: BlockingSendCommitSnapshot)
    requires
        k.send_commit_result(snap) is Committed,
    ensures
        ({
            let generation = k.send_commit_result(snap)->send_generation;
            let asid = Some(snap.sender_asid);
            let after = k.after_send_commit(snap);
            &&& generation == k.tasks.exact(snap.sender_tid, asid)->0.blocked_send_generation + 1
            &&& after.tasks.exact(snap.sender_tid, asid) matches Some(tcb) && tcb.status
                == TaskStatus::Blocked(WaitReason::EndpointSend(snap.send_cap))
                && tcb.blocked_send_generation == generation && tcb.ipc_timeout_deadline
                == snap.deadline && !tcb.ipc_timeout_fired
            &&& after.tasks.send_is_blocked(
                SenderWakeTarget {
                    tid: ThreadId(snap.sender_tid),
                    asid,
                    send_generation: generation,
                },
            )
            &&& k.sched.online(snap.cpu) ==> after.sched.current_on(snap.cpu) is None
        }),
        forall|t: u64, a: Option<Asid>|
            (t != snap.sender_tid || a != Some(snap.sender_asid)) ==> #[trigger] k.after_send_commit(
                snap,
            ).tasks.exact(t, a) == k.tasks.exact(t, a),
{
    let asid = Some(snap.sender_asid);
    let tcb = k.tasks.exact(snap.sender_tid, asid)->0;
    seqs::lemma_first_where(
        k.tasks.tcbs,
        crate::task::is_incarnation(snap.sender_tid, asid),
    );
    crate::task::lemma_exact_replaced(
        k.tasks,
        snap.sender_tid,
        asid,
        crate::runtime::wake::send_blocked_tcb(tcb, snap.send_cap, snap.deadline),
    );
}

/// A sender that blocked cannot commit the same send again.
pub proof fn law_send_is_committed_once(k: Kernel, snap: BlockingSendCommitSnapshot)
    requires
        k.send_commit_result(snap) is Committed,
    ensures
        !(k.after_send_commit(snap).send_commit_result(snap) is Committed),
{
    law_committed_send_blocks_its_sender(k, snap);
}

/// A result for a blocked send reaches that very block, and a target that names another
/// incarnation or an older block reaches nobody.
pub proof fn law_send_result_reaches_its_block(tasks: Tasks, target: SenderWakeTarget, result: u64)
    ensures
        tasks.send_is_blocked(target) ==> (tasks.send_completed(target, result).exact(
            target.tid.0,
            target.asid,
        ) matches Some(tcb) && crate::task::completion_out(
            tcb,
            BlockedSyscallClass::IpcSend,
        ) matches Some(completion) && completion.result == result),
        !tasks.send_is_blocked(target) ==> tasks.send_completed(target, result) == tasks,
{
    if tasks.send_is_blocked(target) {
        let tcb = tasks.exact(target.tid.0, target.asid)->0;
        seqs::lemma_first_where(
            tasks.tcbs,
            crate::task::is_incarnation(target.tid.0, target.asid),
        );
        let i = tasks.exact_slot(target.tid.0, target.asid);
        let answered = tasks.send_completed(target, result).tcbs[i]->0;
        crate::task::lemma_exact_replaced(tasks, target.tid.0, target.asid, answered);
    }
}

/// A live task that is woken is runnable and has no deadline any more; no other task changes,
/// and no task is queued twice.
pub proof fn law_wake_makes_runnable(k: Kernel, cpu: CpuId, tid: u64)
    requires
        k.sched.apart(),
    ensures
        k.after_wake(cpu, tid).sched.apart(),
        k.tasks.find(tid) matches Some(tcb) && tcb.status.spec_live() ==> (k.after_wake(
            cpu,
            tid,
        ).tasks.find(tid) matches Some(woken) && woken.status == TaskStatus::Runnable
            && woken.ipc_timeout_deadline is None && !woken.ipc_timeout_fired),
        forall|other: u64|
            other != tid ==> #[trigger] k.after_wake(cpu, tid).tasks.find(other) == k.tasks.find(
                other,
            ),
{
    if let Some(tcb) = k.tasks.find(tid) {
        if tcb.status.spec_live() {
            crate::task::lemma_found_is_exact(k.tasks, tid);
            crate::task::lemma_replaced(k.tasks, tid, crate::runtime::wake::woken_tcb(tcb));
            if tid == crate::ids::IDLE_TID {
                crate::laws::scheduling::law_enqueue_keeps_apart(
                    k.sched,
                    k.wake_target(tcb),
                    tid,
                    crate::scheduler::TaskPriority::Normal,
                );
            } else if tcb.class is Some {
                crate::laws::scheduling::law_enqueue_keeps_apart(
                    k.sched,
                    k.wake_target(tcb),
                    tid,
                    tcb.class->0.spec_priority(),
                );
            }
        }
    }
}

/// A task that could be woken is present where it was queued, so that a second wake queues it
/// nowhere again.
pub proof fn law_wake_queues_once(k: Kernel, cpu: CpuId, tid: u64)
    requires
        k.wake_result(cpu, tid) is Ok,
        !k.runs_on(cpu, tid),
    ensures
        k.after_wake(cpu, tid).sched.present(tid),
        k.after_wake(cpu, tid).wake_result(cpu, tid) is Err,
        k.after_wake(cpu, tid).after_wake(cpu, tid).sched == k.after_wake(cpu, tid).sched,
{
    let tcb = k.tasks.find(tid)->0;
    let after = k.after_wake(cpu, tid);
    let target = k.wake_target(tcb);
    crate::task::lemma_found_is_exact(k.tasks, tid);
    crate::task::lemma_replaced(k.tasks, tid, crate::runtime::wake::woken_tcb(tcb));
    let n = k.sched.queue.len() as int;
    let entry = after.sched.queue[n];
    assert(crate::scheduler::entry_of(target, tid)(entry));
    assert(crate::scheduler::names_tid(tid)(entry));
    seqs::lemma_first_where(after.sched.queue, crate::scheduler::entry_of(target, tid));
    seqs::lemma_first_where(after.sched.queue, crate::scheduler::names_tid(tid));
    assert(after.sched.holds(target, tid));
}

/// An envelope is taken at most once.
pub proof fn law_envelope_is_taken_once(
    ipc: Ipc,
    handle: u64,
    e: int,
    receiver: ThreadId,
    later_e: int,
    later_receiver: ThreadId,
)
    requires
        ipc.takeable(handle, e, receiver) is Some,
    ensures
        ipc.envelope_taken(handle, e, receiver).envelope_at(handle) is None,
        ipc.envelope_taken(handle, e, receiver).takeable(handle, later_e, later_receiver) is None,
{
    assert(handle & 0xFFFF <= 0xFFFF) by (bit_vector);
}

/// A receive that finds nothing to deliver changes nothing.
pub proof fn law_empty_receive_changes_nothing(ipc: Ipc, e: int, admission: RecvAdmission)
    requires
        !(ipc.recv_result(e, admission) is Delivered),
    ensures
        ipc.received(e, admission) == ipc,
{
}

impl Ipc {
    /// The messages queued at endpoint `e`, oldest first.
    pub open spec fn queue_of(self, e: int) -> Seq<QueuedMessage> {
        self.queue.filter(crate::ipc::queued_at(e))
    }
}

/// Removing an element that `p` does not select leaves the selected ones as they are.
proof fn lemma_filter_remove_other<T>(s: Seq<T>, p: spec_fn(T) -> bool, i: int)
    requires
        0 <= i < s.len(),
        !p(s[i]),
    ensures
        s.remove(i).filter(p) == s.filter(p),
    decreases s.len(),
{
    reveal(Seq::filter);
    if i == s.len() - 1 {
        assert(s.remove(i) =~= s.drop_last());
    } else {
        assert(s.remove(i).drop_last() =~= s.drop_last().remove(i));
        assert(s.remove(i).last() == s.last());
        lemma_filter_remove_other(s.drop_last(), p, i);
    }
}

/// Removing the first selected element removes the first of the selected ones.
proof fn lemma_filter_remove_first<T>(s: Seq<T>, p: spec_fn(T) -> bool)
    requires
        seqs::first_where(s, p) < s.len(),
    ensures
        s.filter(p).len() > 0,
        s.filter(p)[0] == s[seqs::first_where(s, p)],
        s.remove(seqs::first_where(s, p)).filter(p) == s.filter(p).drop_first(),
    decreases s.len(),
{
    reveal(Seq::filter);
    seqs::lemma_first_where(s, p);
    let i = seqs::first_where(s, p);
    let init = s.drop_last();
    if i == s.len() - 1 {
        assert(s.remove(i) =~= init);
        assert(forall|j: int| 0 <= j < init.len() ==> !p(#[trigger] init[j])) by {
            assert(forall|j: int| 0 <= j < init.len() ==> init[j] == s[j]);
        }
        lemma_filter_none(init, p);
        assert(s.filter(p) =~= seq![s[i]]);
        assert(s.filter(p).drop_first() =~= seq![]);
    } else {
        assert forall|j: int| 0 <= j < i implies !p(#[trigger] init[j]) by {
            assert(init[j] == s[j]);
        }
        seqs::lemma_first_where_is(init, p, i);
        lemma_filter_remove_first(init, p);
        assert(s.remove(i).drop_last() =~= init.remove(i));
        assert(s.remove(i).last() == s.last());
        if p(s.last()) {
            assert(s.filter(p) =~= init.filter(p).push(s.last()));
            assert(init.filter(p).push(s.last()).drop_first() =~= init.filter(p).drop_first().push(
                s.last(),
            ));
        }
    }
}

/// Where nothing is selected, nothing is left.
proof fn lemma_filter_none<T>(s: Seq<T>, p: spec_fn(T) -> bool)
    requires
        forall|j: int| 0 <= j < s.len() ==> !p(#[trigger] s[j]),
    ensures
        s.filter(p) == Seq::<T>::empty(),
    decreases s.len(),
{
    reveal(Seq::filter);
    if s.len() > 0 {
        let init = s.drop_last();
        assert(forall|j: int| 0 <= j < init.len() ==> init[j] == s[j]);
        lemma_filter_none(init, p);
        assert(!p(s.last()));
    }
}

/// Appending an element appends it to the selected ones, if it is selected.
proof fn lemma_filter_push<T>(s: Seq<T>, x: T, p: spec_fn(T) -> bool)
    ensures
        s.push(x).filter(p) == if p(x) {
            s.filter(p).push(x)
        } else {
            s.filter(p)
        },
{
    reveal(Seq::filter);
    assert(s.push(x).drop_last() =~= s);
}

/// A receive delivers the oldest message of its endpoint and takes it off the queue; a blocked
/// sender's message, if there is one, goes to the end.  Other endpoints keep their queues.
pub proof fn law_receive_is_first_in_first_out(
    ipc: Ipc,
    e: int,
    admission: RecvAdmission,
    other: int,
)
    requires
        ipc.recv_result(e, admission) is Delivered,
        other != e,
    ensures
        ipc.queue_of(e).len() > 0,
        ipc.recv_result(e, admission)->msg == ipc.queue_of(e)[0].msg,
        ipc.received(e, admission).queue_of(e) == match ipc.refiller(e) {
            None => ipc.queue_of(e).drop_first(),
            Some(w) => ipc.queue_of(e).drop_first().push(
                QueuedMessage { endpoint: e as usize, msg: w.msg },
            ),
        },
        ipc.received(e, admission).queue_of(other) == ipc.queue_of(other),
{
    let p = crate::ipc::queued_at(e);
    let q = crate::ipc::queued_at(other);
    let h = ipc.head(e);
    seqs::lemma_first_where(ipc.queue, p);
    lemma_filter_remove_first(ipc.queue, p);
    lemma_filter_remove_other(ipc.queue, q, h);
    let rest = ipc.queue.remove(h);
    assert(ipc.queue[h].endpoint == e);
    if let Some(w) = ipc.refiller(e) {
        let back = QueuedMessage { endpoint: e as usize, msg: w.msg };
        lemma_filter_push(rest, back, p);
        lemma_filter_push(rest, back, q);
    }
}

} // verus!
