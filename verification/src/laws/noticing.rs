//! What is read out of the kernel, and what is made of a look at it.
use vstd::prelude::*;

use crate::ids::{CpuId, KernelError};
use crate::ipc::{EndpointSlot, Ipc, ReceiverWaiterIdentity};
use crate::kernel::Kernel;
use crate::runtime::census::{AckLease, DirectAckStore};
use crate::runtime::dispatch::{OwnerCommit, OwnerRevalidation};
use crate::runtime::wake::BlockingSendCommitOutcome;
use crate::scheduler::{CpuSlot, Sched};
use crate::seqs;
use crate::task::{RecvAbiVariant, Tasks};

verus! {

/// A blocked receive is complete exactly when it is of the second interface and names both of its
/// buffers.
pub proof fn law_complete_receive_names_its_buffers(tasks: Tasks, i: int)
    requires
        tasks.apart(),
        0 <= i < tasks.tcbs.len(),
        tasks.tcbs[i] is Some,
    ensures
        tasks.recv_v2_committed(tasks.tcbs[i]->0.tid.0) <==> (
        tasks.tcbs[i]->0.blocked_recv_state matches Some(state) && state.recv_abi
            == RecvAbiVariant::RecvV2 && state.payload_user_ptr > 0 && state.meta_user_ptr > 0),
{
    crate::laws::slots::law_task_is_found_where_it_stands(tasks, i);
}

/// The stack of the task in slot `i`, if it has both ends of one.
pub open spec fn has_stack(tasks: Tasks, i: int) -> bool {
    &&& 0 <= i < tasks.tcbs.len()
    &&& tasks.tcbs[i] is Some
    &&& tasks.tcbs[i]->0.kernel_context.stack_base is Some
    &&& tasks.tcbs[i]->0.kernel_context.stack_top is Some
}

/// The kernel stacks that are reported are those of the tasks that have one, each with its task,
/// its base and its top, in the order of the slots.
pub proof fn law_kernel_stacks_are_reported(tasks: Tasks, n: int, i: int)
    requires
        0 <= n <= tasks.tcbs.len(),
        0 <= i < n,
    ensures
        has_stack(tasks, i) ==> ({
            let tcb = tasks.tcbs[i]->0;
            let at = tasks.kernel_stacks(i).len() as int;
            &&& at < tasks.kernel_stacks(n).len()
            &&& tasks.kernel_stacks(n)[at] == (
                tcb.tid.0,
                (tcb.kernel_context.stack_base->0).0,
                (tcb.kernel_context.stack_top->0).0,
            )
            &&& tasks.kernel_stacks(i + 1).len() == at + 1
        }),
        !has_stack(tasks, i) ==> tasks.kernel_stacks(i + 1) == tasks.kernel_stacks(i),
        tasks.kernel_stacks(0).len() == 0,
        tasks.kernel_stacks(i + 1).len() <= tasks.kernel_stacks(n).len(),
    decreases n - i,
{
    if i + 1 < n {
        law_kernel_stacks_are_reported(tasks, n - 1, i);
    }
}

/// A notification counts one waiter exactly when a task waits for it.
pub proof fn law_notification_waiter_is_counted(ipc: Ipc, index: usize)
    ensures
        ipc.notification_waiters_at(index) == (if index < ipc.notification_waiters.len()
            && ipc.notification_waiters[index as int] matches Some(_) {
            1usize
        } else {
            0usize
        }),
{
}

/// The candidate of an online processor is the task that its next dispatch would take, whatever
/// runs there now; an offline processor, and one that nobody waits for, has none.
pub proof fn law_candidate_is_the_next(k: Kernel, cpu: CpuId, j: int)
    ensures
        ({
            let online = (cpu.0 as int) < k.sched.cpus.len() && k.sched.cpus[cpu.0 as int].online;
            &&& !online ==> k.next_candidate(cpu) is None
            &&& online && crate::laws::placing::is_next(k.sched, cpu, j) ==> k.next_candidate(cpu)
                == Some(k.sched.queue[j].tid)
            &&& online && (forall|m: int|
                0 <= m < k.sched.queue.len() ==> (#[trigger] k.sched.queue[m]).cpu != cpu)
                ==> k.next_candidate(cpu) is None
        }),
{
    if (cpu.0 as int) < k.sched.cpus.len() && k.sched.cpus[cpu.0 as int].online {
        if crate::laws::placing::is_next(k.sched, cpu, j) {
            crate::laws::placing::lemma_next(k.sched, cpu, j);
        }
        if forall|m: int|
            0 <= m < k.sched.queue.len() ==> (#[trigger] k.sched.queue[m]).cpu != cpu {
            crate::laws::placing::lemma_none_next(k.sched, cpu);
        }
    }
}

/// Looking again on a processor that is free and online makes it the current one and runs the next
/// task there; an offline processor is left alone.
pub proof fn law_owner_is_selected(k: Kernel, cpu: CpuId, j: int)
    ensures
        !((cpu.0 as int) < k.sched.cpus.len() && k.sched.cpus[cpu.0 as int].online)
            ==> k.owner_selected(cpu) is None && k.after_owner_select(cpu) == k,
        crate::laws::placing::is_free(k.sched, cpu) && crate::laws::placing::is_next(
            k.sched,
            cpu,
            j,
        ) ==> k.owner_selected(cpu) == Some(k.sched.queue[j].tid) && k.after_owner_select(cpu)
            == (Kernel {
            sched: Sched {
                current_cpu: cpu,
                ..crate::laws::placing::running_entry(k.sched, cpu, j)
            },
            ..k
        }),
{
    if crate::laws::placing::is_free(k.sched, cpu) && crate::laws::placing::is_next(
        k.sched,
        cpu,
        j,
    ) {
        let bound = Sched { current_cpu: cpu, ..k.sched };
        crate::laws::placing::law_dispatch_runs_the_next(k.sched, cpu, j);
        crate::laws::placing::law_dispatch_runs_the_next(bound, cpu, j);
        assert(k.after_owner_select(cpu).sched.queue == k.sched.queue.remove(j));
    }
}

/// A selection that is taken back clears the processor, and puts the task back where it can still
/// run; it counts as taken back exactly where the task was current there and, if it was to be put
/// back, could be.
pub proof fn law_selection_is_taken_back(k: Kernel, cpu: CpuId, i: int, restorable: bool)
    requires
        k.tasks.apart(),
        0 <= i < k.tasks.tcbs.len(),
        k.tasks.tcbs[i] is Some,
        (cpu.0 as int) < k.sched.cpus.len(),
        k.sched.cpus[cpu.0 as int].online,
    ensures
        ({
            let tid = k.tasks.tcbs[i]->0.tid.0;
            let c = cpu.0 as int;
            let cleared = Kernel {
                sched: Sched {
                    cpus: k.sched.cpus.update(c, CpuSlot { current: None, ..k.sched.cpus[c] }),
                    ..k.sched
                },
                ..k
            };
            let joins = crate::laws::admitting::may_queue(k.tasks.tcbs[i]->0)
                && crate::laws::waking::may_join(cleared.sched, cpu, tid);
            &&& crate::runtime::dispatch::owner_rolled_back(k, cpu, tid, restorable)
                <==> k.sched.cpus[c].current == Some(tid) && (restorable ==> joins)
            &&& crate::runtime::dispatch::after_owner_rollback(k, cpu, tid, restorable)
                == if restorable {
                cleared.enqueued(cpu, tid)
            } else {
                cleared
            }
        }),
{
    let c = cpu.0 as int;
    let cleared = Kernel { sched: k.sched.cleared(cpu), ..k };
    crate::laws::slots::law_task_is_found_where_it_stands(k.tasks, i);
    crate::laws::admitting::law_task_is_queued_by_its_class(cleared, cpu, i);
    assert(cleared.sched.cpus =~= k.sched.cpus.update(
        c,
        CpuSlot { current: None, ..k.sched.cpus[c] },
    ));
}

/// What looking again allows: a task that can be restored runs, a processor where nothing stayed
/// current idles, and one where a task stayed that can neither run nor be taken back does not.
pub proof fn law_idle_only_where_nothing_stayed(seen: OwnerRevalidation)
    ensures
        seen.spec_disposition() is Idle <==> seen is Idle || (seen is RestoreFailed
            && seen->rolled_back),
        seen.spec_disposition() is Replacement <==> seen is Replacement,
        seen is Replacement ==> seen.spec_disposition() == OwnerCommit::Replacement(
            seen->Replacement_0,
        ),
        seen is RestoreFailed && !seen->rolled_back ==> seen.spec_disposition()
            == OwnerCommit::FailClosed(seen->tid),
{
}

/// Does slot `i` lease an incarnation that an earlier slot leases already?
pub open spec fn leases_again(slots: Seq<Option<AckLease>>, i: int) -> bool {
    &&& 0 <= i < slots.len()
    &&& slots[i] is Some
    &&& exists|j: int|
        0 <= j < i && (#[trigger] slots[j]) is Some && slots[j]->0.endpoint_index
            == slots[i]->0.endpoint_index && slots[j]->0.endpoint_generation
            == slots[i]->0.endpoint_generation
}

/// The slots among the first `n` that lease what an earlier one does.
pub open spec fn second_leases(slots: Seq<Option<AckLease>>, n: int) -> Set<int> {
    Set::new(|i: int| 0 <= i < n && leases_again(slots, i))
}

/// As many duplicates are counted as slots lease what an earlier one leases already.
pub proof fn law_duplicate_leases_are_counted(slots: Seq<Option<AckLease>>, n: int)
    requires
        0 <= n <= slots.len(),
    ensures
        second_leases(slots, n).finite(),
        crate::runtime::census::duplicates(slots, n) == second_leases(slots, n).len(),
    decreases n,
{
    if n == 0 {
        assert(second_leases(slots, n) =~= Set::empty());
    } else {
        law_duplicate_leases_are_counted(slots, n - 1);
        let before = second_leases(slots, n - 1);
        if let Some(lease) = slots[n - 1] {
            let p = crate::runtime::census::leases_incarnation(
                lease.endpoint_index,
                lease.endpoint_generation,
            );
            seqs::lemma_first_where(slots, p);
            let f = seqs::first_where(slots, p);
            if f < n - 1 {
                assert(slots[f] is Some);
                assert(leases_again(slots, n - 1));
            } else if leases_again(slots, n - 1) {
                let j = choose|j: int|
                    0 <= j < n - 1 && (#[trigger] slots[j]) is Some && slots[j]->0.endpoint_index
                        == lease.endpoint_index && slots[j]->0.endpoint_generation
                        == lease.endpoint_generation;
                assert(p(slots[j]));
            }
        }
        if leases_again(slots, n - 1) {
            assert(second_leases(slots, n) =~= before.insert(n - 1));
        } else {
            assert(second_leases(slots, n) =~= before);
        }
    }
}

/// Must the waiter at endpoint `e` have a lease: does it wait in a complete receive, at an endpoint
/// that takes part?
pub open spec fn must_have_lease(k: Kernel, admitted: Seq<bool>, e: int) -> bool {
    &&& 0 <= e < k.ipc.endpoints.len()
    &&& k.ipc.endpoints[e].waiter is Some
    &&& e < admitted.len()
    &&& admitted[e]
    &&& k.tasks.recv_v2_committed(k.ipc.endpoints[e].waiter->0.receiver.tid.0)
}

/// Is the lease in slot `e` on the very waiter and the very incarnation of endpoint `e`?
pub open spec fn has_own_lease(k: Kernel, store: &DirectAckStore, e: int) -> bool {
    &&& 0 <= e < store.slots@.len()
    &&& store.slots@[e] is Some
    &&& 0 <= e < k.ipc.endpoints.len()
    &&& k.ipc.endpoints[e].waiter is Some
    &&& store.slots@[e]->0.endpoint_index == e
    &&& store.slots@[e]->0.endpoint_generation == k.ipc.endpoints[e].generation
    &&& store.slots@[e]->0.waiter == k.ipc.endpoints[e].waiter->0.receiver
}

/// The census counts the waiters that must have a lease, the leases, and the waiters that have
/// their own.
pub proof fn law_census_counts(
    k: Kernel,
    store: &DirectAckStore,
    admitted: Seq<bool>,
    n: nat,
)
    ensures
        ({
            let needing = Set::new(|e: int| 0 <= e < n && must_have_lease(k, admitted, e));
            let leased = Set::new(
                |e: int| 0 <= e < n && e < store.slots@.len() && store.slots@[e] is Some,
            );
            let matched = Set::new(
                |e: int|
                    0 <= e < n && must_have_lease(k, admitted, e) && has_own_lease(k, store, e),
            );
            &&& needing.finite() && leased.finite() && matched.finite()
            &&& k.needing(admitted, n as int) == needing.len()
            &&& k.leased(store, n as int) == leased.len()
            &&& k.matched(store, admitted, n as int) == matched.len()
        }),
    decreases n,
{
    let needing = Set::new(|e: int| 0 <= e < n && must_have_lease(k, admitted, e));
    let leased = Set::new(
        |e: int| 0 <= e < n && e < store.slots@.len() && store.slots@[e] is Some,
    );
    let matched = Set::new(
        |e: int| 0 <= e < n && must_have_lease(k, admitted, e) && has_own_lease(k, store, e),
    );
    if n == 0 {
        assert(needing =~= Set::empty());
        assert(leased =~= Set::empty());
        assert(matched =~= Set::empty());
    } else {
        let m = (n - 1) as nat;
        law_census_counts(k, store, admitted, m);
        let needing0 = Set::new(|e: int| 0 <= e < m && must_have_lease(k, admitted, e));
        let leased0 = Set::new(
            |e: int| 0 <= e < m && e < store.slots@.len() && store.slots@[e] is Some,
        );
        let matched0 = Set::new(
            |e: int| 0 <= e < m && must_have_lease(k, admitted, e) && has_own_lease(k, store, e),
        );
        let e = m as int;
        assert(crate::runtime::census::needs_lease(k.census_waiter(e, admitted))
            == must_have_lease(k, admitted, e));
        assert(crate::runtime::census::has_lease(
            e,
            k.census_waiter(e, admitted),
            store.spec_lease_at(e),
        ) == (must_have_lease(k, admitted, e) && has_own_lease(k, store, e)));
        if must_have_lease(k, admitted, e) {
            assert(needing =~= needing0.insert(e));
        } else {
            assert(needing =~= needing0);
        }
        if e < store.slots@.len() && store.slots@[e] is Some {
            assert(leased =~= leased0.insert(e));
        } else {
            assert(leased =~= leased0);
        }
        if must_have_lease(k, admitted, e) && has_own_lease(k, store, e) {
            assert(matched =~= matched0.insert(e));
        } else {
            assert(matched =~= matched0);
        }
    }
}

/// A sender that is refused is told why: an endpoint that is not the one it meant is a wrong
/// object, one without a place is full, a sender that is not there is missing, and in every other
/// case it would block.  A sender that blocks is told nothing.
pub proof fn law_refused_sender_is_told_why(outcome: BlockingSendCommitOutcome)
    ensures
        outcome is Committed <==> outcome.spec_immediate_error() is None,
        outcome.spec_immediate_error() == Some(KernelError::WrongObject) <==> outcome
            is RefusedEndpointMissing || outcome is RefusedEndpointGenerationChanged,
        outcome.spec_immediate_error() == Some(KernelError::EndpointQueueFull) <==> outcome
            is RefusedWaiterQueueFull,
        outcome.spec_immediate_error() == Some(KernelError::TaskMissing) <==> outcome
            is RefusedSenderMissing,
        outcome.spec_immediate_error() is Some && !(outcome is RefusedEndpointMissing)
            && !(outcome is RefusedEndpointGenerationChanged) && !(outcome
            is RefusedWaiterQueueFull) && !(outcome is RefusedSenderMissing)
            ==> outcome.spec_immediate_error() == Some(KernelError::WouldBlock),
{
}

/// Where an incarnation stops waiting everywhere, it waits at no endpoint and its task for no
/// notification; whoever else waits goes on waiting.
pub proof fn law_waits_are_cleared(ipc: Ipc, identity: ReceiverWaiterIdentity, e: int, n: int)
    ensures
        ({
            let after = ipc.waits_cleared(identity);
            &&& after.endpoints.len() == ipc.endpoints.len()
            &&& after.notification_waiters.len() == ipc.notification_waiters.len()
            &&& 0 <= e < ipc.endpoints.len() ==> after.endpoints[e] == if ipc.endpoints[e].waiter
                is Some && ipc.endpoints[e].waiter->0.receiver == identity {
                EndpointSlot { waiter: None, ..ipc.endpoints[e] }
            } else {
                ipc.endpoints[e]
            }
            &&& 0 <= n < ipc.notification_waiters.len() ==> after.notification_waiters[n]
                == if ipc.notification_waiters[n] == Some(identity.tid) {
                None
            } else {
                ipc.notification_waiters[n]
            }
            &&& after == (Ipc {
                endpoints: after.endpoints,
                notification_waiters: after.notification_waiters,
                ..ipc
            })
        }),
{
}

} // verus!
