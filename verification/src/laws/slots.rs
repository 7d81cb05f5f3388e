//! Finding tasks by the slots they stand in.
use vstd::prelude::*;

use crate::scheduler::CpuSlot;
use crate::seqs;
use crate::task::{Tasks, ThreadControlBlock};

verus! {

/// Where numbers are apart, a task is found by its number and by its incarnation in the slot it
/// stands in.
pub proof fn law_task_is_found_where_it_stands(tasks: Tasks, i: int)
    requires
        tasks.apart(),
        0 <= i < tasks.tcbs.len(),
        tasks.tcbs[i] is Some,
    ensures
        tasks.slot(tasks.tcbs[i]->0.tid.0) == i,
        tasks.find(tasks.tcbs[i]->0.tid.0) == tasks.tcbs[i],
        tasks.exact_slot(tasks.tcbs[i]->0.tid.0, tasks.tcbs[i]->0.asid) == i,
        tasks.exact(tasks.tcbs[i]->0.tid.0, tasks.tcbs[i]->0.asid) == tasks.tcbs[i],
{
    let tcb = tasks.tcbs[i]->0;
    let p = crate::task::has_tid(tcb.tid.0);
    let q = crate::task::is_incarnation(tcb.tid.0, tcb.asid);
    assert forall|j: int| 0 <= j < i implies !p(#[trigger] tasks.tcbs[j]) && !q(
        tasks.tcbs[j],
    ) by {}
    seqs::lemma_first_where_is(tasks.tcbs, p, i);
    seqs::lemma_first_where_is(tasks.tcbs, q, i);
}

/// Where numbers are apart, whoever is found by an incarnation is the one task of that number.
pub(crate) proof fn lemma_exact_is_found(tasks: Tasks, tid: u64, asid: Option<crate::ids::Asid>)
    requires
        tasks.apart(),
        tasks.exact(tid, asid) is Some,
    ensures
        0 <= tasks.exact_slot(tid, asid) < tasks.tcbs.len(),
        tasks.tcbs[tasks.exact_slot(tid, asid)] == tasks.exact(tid, asid),
        tasks.exact(tid, asid)->0.tid.0 == tid,
        tasks.exact(tid, asid)->0.asid == asid,
        tasks.slot(tid) == tasks.exact_slot(tid, asid),
        tasks.find(tid) == tasks.exact(tid, asid),
{
    seqs::lemma_first_where(tasks.tcbs, crate::task::is_incarnation(tid, asid));
    law_task_is_found_where_it_stands(tasks, tasks.exact_slot(tid, asid));
}

/// Replacing a task by one of the same number and address space keeps numbers apart.
pub(crate) proof fn lemma_with_keeps_apart(tasks: Tasks, i: int, tcb: ThreadControlBlock)
    requires
        tasks.apart(),
        0 <= i < tasks.tcbs.len(),
        tasks.tcbs[i] is Some,
        tcb.tid == tasks.tcbs[i]->0.tid,
    ensures
        tasks.with(i, tcb).apart(),
{
}

/// Exactly one processor is counted online where exactly one is.
pub(crate) proof fn lemma_one_online(cpus: Seq<CpuSlot>, c: int)
    requires
        0 <= c < cpus.len(),
        cpus[c].online,
    ensures
        seqs::count_where(cpus, crate::scheduler::is_online()) > 1 <==> exists|d: int|
            0 <= d < cpus.len() && d != c && (#[trigger] cpus[d]).online,
{
    let p = crate::scheduler::is_online();
    let rest = cpus.remove(c);
    seqs::lemma_count_remove(cpus, c, p);
    seqs::lemma_first_where(rest, p);
    seqs::lemma_count_zero(rest, p);
    if seqs::any_where(rest, p) {
        let f = seqs::first_where(rest, p);
        let d = if f < c {
            f
        } else {
            f + 1
        };
        assert(cpus[d].online);
    }
    if exists|d: int| 0 <= d < cpus.len() && d != c && (#[trigger] cpus[d]).online {
        let d = choose|d: int| 0 <= d < cpus.len() && d != c && (#[trigger] cpus[d]).online;
        let f = if d < c {
            d
        } else {
            d - 1
        };
        assert(p(rest[f]));
    }
}

} // verus!
