//! Laws of resuming: what waits for a task is handed out once, to the incarnation it is for.
use vstd::prelude::*;

use crate::ids::Asid;
use crate::seqs;
use crate::task::{AsyncResumeClass, BlockedSyscallClass, Tasks, ThreadControlBlock};

verus! {

/// A completion is handed out at most once, and taking one class leaves the other alone.
pub proof fn law_completion_is_taken_once(
    tcb: ThreadControlBlock,
    class: BlockedSyscallClass,
    other: BlockedSyscallClass,
)
    ensures
        crate::task::completion_out(crate::task::completion_taken(tcb, class), class) is None,
        !crate::task::holds_completion(crate::task::completion_taken(tcb, class), class),
        other != class && crate::task::holds_completion(tcb, other)
            ==> crate::task::completion_taken(tcb, class) == tcb,
{
}

/// A completion that answers an older block is handed to nobody.
pub proof fn law_stale_completion_is_dropped(tcb: ThreadControlBlock, class: BlockedSyscallClass)
    requires
        crate::task::holds_completion(tcb, class),
        !tcb.pending_syscall_completion->0.spec_matches(tcb),
    ensures
        crate::task::completion_out(tcb, class) is None,
        crate::task::completion_taken(tcb, class).pending_syscall_completion is None,
{
}

/// A thread pointer that waits to be restored is taken once.
pub proof fn law_thread_pointer_is_taken_once(tasks: Tasks, tid: u64)
    requires
        seqs::count_where(tasks.tls_pending, crate::task::pends(tid)) <= 1,
    ensures
        !tasks.tls_taken(tid).tls_is_pending(tid),
        forall|other: u64|
            other != tid ==> #[trigger] tasks.tls_taken(tid).tls_is_pending(other)
                == tasks.tls_is_pending(other),
{
    let pends = crate::task::pends(tid);
    let i = seqs::first_where(tasks.tls_pending, pends);
    seqs::lemma_first_where(tasks.tls_pending, pends);
    let after = tasks.tls_taken(tid).tls_pending;
    if i < tasks.tls_pending.len() {
        seqs::lemma_count_remove(tasks.tls_pending, i, pends);
        let rest = tasks.tls_pending.remove(i);
        seqs::lemma_count_zero(rest, pends);
        seqs::lemma_first_where(rest, pends);
        assert forall|j: int| 0 <= j < after.len() implies !pends(#[trigger] after[j]) by {
            if j < i {
                assert(after[j] == rest[j]);
            } else if j > i {
                assert(after[j] == rest[j - 1]);
            }
        }
        seqs::lemma_first_where_is(after, pends, after.len() as int);
    }
    assert forall|other: u64| other != tid implies #[trigger] tasks.tls_taken(tid).tls_is_pending(
        other,
    ) == tasks.tls_is_pending(other) by {
        let q = crate::task::pends(other);
        seqs::lemma_first_where(tasks.tls_pending, q);
        seqs::lemma_first_where(after, q);
        if tasks.tls_is_pending(other) {
            let w = seqs::first_where(tasks.tls_pending, q);
            assert(w != i);
            assert(after[w] == tasks.tls_pending[w]);
            assert(q(after[w]));
        }
        if tasks.tls_taken(tid).tls_is_pending(other) {
            let w = seqs::first_where(after, q);
            assert(w != i);
            assert(after[w] == tasks.tls_pending[w]);
            assert(q(tasks.tls_pending[w]));
        }
    }
}

/// A resume takes everything that waits for the task: a second one finds its registers and
/// nothing else.
pub proof fn law_resume_takes_all_at_once(tasks: Tasks, tid: u64)
    requires
        tasks.find(tid) is Some,
        seqs::count_where(tasks.tls_pending, crate::task::pends(tid)) <= 1,
    ensures
        tasks.restore_taken(tid).find(tid) matches Some(tcb) && {
            let facts = tasks.restore_taken(tid).restore_facts(tcb);
            &&& facts.context == tasks.find(tid)->0.user_context
            &&& facts.tls is None
            &&& facts.send_completion is None
            &&& facts.recv_completion is None
        },
{
    let tcb = tasks.find(tid)->0;
    let left = crate::task::completion_taken(
        crate::task::completion_taken(tcb, BlockedSyscallClass::IpcSend),
        BlockedSyscallClass::IpcRecv,
    );
    law_thread_pointer_is_taken_once(tasks, tid);
    crate::task::lemma_found_is_exact(tasks, tid);
    let cleared = tasks.tls_taken(tid);
    assert(cleared.tcbs == tasks.tcbs);
    assert(cleared.find(tid) == tasks.find(tid));
    crate::task::lemma_replaced(cleared, tid, left);
    let after = tasks.restore_taken(tid);
    assert(after.tls_pending == cleared.tls_pending);
    assert(!after.tls_is_pending(tid));
}

/// A register snapshot staged by an interrupt is used for one resume at most, and only by the
/// incarnation it was taken from.
pub proof fn law_staged_snapshot_is_used_once(tasks: Tasks, tid: u64, asid: Option<Asid>)
    requires
        tasks.find(tid) is Some,
    ensures
        crate::runtime::resume::async_taken(tasks, tid).find(tid) matches Some(tcb)
            && crate::runtime::resume::async_class(tcb, tid, asid) == AsyncResumeClass::NotStaged,
        crate::runtime::resume::async_class(tasks.find(tid)->0, tid, asid)
            == AsyncResumeClass::Verbatim ==> (tasks.find(tid)->0.async_preempt matches Some(tag)
            && tag.tid == tid && tag.asid == asid),
{
    let tcb = tasks.find(tid)->0;
    crate::task::lemma_found_is_exact(tasks, tid);
    crate::task::lemma_replaced(tasks, tid, ThreadControlBlock { async_preempt: None, ..tcb });
}

} // verus!
