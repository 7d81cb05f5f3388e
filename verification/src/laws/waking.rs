//! What a wake comes to, said of the task's slot and of the run queue.
use vstd::prelude::*;

use crate::ids::{Asid, CpuId, KernelError, ThreadId};
use crate::ipc::{EndpointSlot, SenderWakeTarget, TokenState};
use crate::kernel::Kernel;
use crate::scheduler::{RunEntry, Sched, TaskPriority};
use crate::seqs;
use crate::task::{
    BlockedSyscallClass, BlockedSyscallCompletion, TaskClass, TaskStatus, Tasks,
    ThreadControlBlock, WaitReason,
};

verus! {

/// The places of the entries that wait for `cpu`.
pub open spec fn places_for(queue: Seq<RunEntry>, cpu: CpuId) -> Set<int> {
    Set::new(|i: int| 0 <= i < queue.len() && queue[i].cpu == cpu)
}

/// As many tasks wait for a processor as entries name it.
pub proof fn law_runnable_counts_entries(s: Sched, cpu: CpuId)
    ensures
        places_for(s.queue, cpu).finite(),
        s.runnable_on(cpu) == places_for(s.queue, cpu).len(),
    decreases s.queue.len(),
{
    if s.queue.len() == 0 {
        assert(places_for(s.queue, cpu) =~= Set::empty());
    } else {
        let init = Sched { queue: s.queue.drop_last(), ..s };
        law_runnable_counts_entries(init, cpu);
        if s.queue.last().cpu == cpu {
            assert(places_for(s.queue, cpu) =~= places_for(init.queue, cpu).insert(
                s.queue.len() - 1,
            ));
            assert(!places_for(init.queue, cpu).contains(s.queue.len() - 1));
        } else {
            assert(places_for(s.queue, cpu) =~= places_for(init.queue, cpu));
        }
    }
}

/// May task `tid` join the run queue of `cpu`?  The processor is there, online and runs a
/// dispatcher; the task is neither current there nor queued there; and the queue is not full.
pub open spec fn may_join(s: Sched, cpu: CpuId, tid: u64) -> bool {
    &&& (cpu.0 as int) < s.cpus.len()
    &&& s.cpus[cpu.0 as int].online
    &&& !s.cpus[cpu.0 as int].wake_only
    &&& s.cpus[cpu.0 as int].current != Some(tid)
    &&& forall|i: int|
        0 <= i < s.queue.len() ==> (#[trigger] s.queue[i]).cpu != cpu || s.queue[i].tid != tid
    &&& places_for(s.queue, cpu).len() < 64
}

/// Queueing a task puts its entry at the end of the queue exactly when it may join, and changes
/// nothing else.
pub proof fn law_enqueue_is_exact(s: Sched, cpu: CpuId, tid: u64, priority: TaskPriority)
    ensures
        s.enqueue_verdict(cpu, tid) is Ok <==> may_join(s, cpu, tid),
        s.enqueued(cpu, tid, priority) == (if may_join(s, cpu, tid) {
            Sched { queue: s.queue.push(RunEntry { cpu, tid, priority }), ..s }
        } else {
            s
        }),
{
    let p = crate::scheduler::entry_of(cpu, tid);
    law_runnable_counts_entries(s, cpu);
    seqs::lemma_first_where(s.queue, p);
    if seqs::any_where(s.queue, p) {
        let f = seqs::first_where(s.queue, p);
        assert(s.queue[f].cpu == cpu && s.queue[f].tid == tid);
    } else {
        assert forall|i: int| 0 <= i < s.queue.len() implies (#[trigger] s.queue[i]).cpu != cpu
            || s.queue[i].tid != tid by {
            assert(!p(s.queue[i]));
        }
    }
}

/// The priority that a task of this class runs with.
pub open spec fn class_priority(class: Option<TaskClass>) -> TaskPriority {
    if class == Some(TaskClass::SystemServer) {
        TaskPriority::High
    } else {
        TaskPriority::Normal
    }
}

/// Does a task in this state take part in scheduling?
pub open spec fn takes_part(status: TaskStatus) -> bool {
    status == TaskStatus::Runnable || status == TaskStatus::Running || status is Blocked
}

/// The task behind a wake.
pub open spec fn awake(tcb: ThreadControlBlock) -> ThreadControlBlock {
    ThreadControlBlock {
        status: TaskStatus::Runnable,
        ipc_timeout_deadline: None,
        ipc_timeout_fired: false,
        reply_timeout_token: None,
        ..tcb
    }
}

/// Waking a task: one that takes part in scheduling is runnable behind it, with no deadline and no
/// reply deadline; it is queued on its home, or else on the current processor, exactly when it may
/// join there, and not at all where it already runs on the processor that wakes it.  A task that
/// is over is refused and nothing changes.  No other task changes.
pub proof fn law_wake_is_exact(k: Kernel, cpu: CpuId, i: int)
    requires
        k.tasks.apart(),
        0 <= i < k.tasks.tcbs.len(),
        k.tasks.tcbs[i] is Some,
    ensures
        ({
            let tcb = k.tasks.tcbs[i]->0;
            let tid = tcb.tid.0;
            let after = k.after_wake(cpu, tid);
            let home = match tcb.cpu_affinity {
                Some(home) => home,
                None => k.sched.current_cpu,
            };
            let running = tcb.status == TaskStatus::Running && (cpu.0 as int) < k.sched.cpus.len()
                && k.sched.cpus[cpu.0 as int].current == Some(tid);
            let priority = if tid == 0 {
                TaskPriority::Normal
            } else {
                class_priority(tcb.class)
            };
            &&& !takes_part(tcb.status) ==> after == k && k.wake_result(cpu, tid) == Err::<
                (),
                KernelError,
            >(KernelError::WouldBlock)
            &&& takes_part(tcb.status) ==> after.tasks == (Tasks {
                tcbs: k.tasks.tcbs.update(i, Some(awake(tcb))),
                ..k.tasks
            })
            &&& takes_part(tcb.status) && tid != 0 && tcb.class is None ==> after.sched == k.sched
                && k.wake_result(cpu, tid) is Err
            &&& takes_part(tcb.status) && (tid == 0 || tcb.class is Some) && running
                ==> after.sched == k.sched && k.wake_result(cpu, tid) is Ok
            &&& takes_part(tcb.status) && (tid == 0 || tcb.class is Some) && !running
                && tcb.spawn_reservation ==> after.sched == k.sched && k.wake_result(cpu, tid)
                is Err
            &&& takes_part(tcb.status) && (tid == 0 || tcb.class is Some) && !running
                && !tcb.spawn_reservation ==> (k.wake_result(cpu, tid) is Ok <==> may_join(
                k.sched,
                home,
                tid,
            )) && after.sched == (if may_join(k.sched, home, tid) {
                Sched {
                    queue: k.sched.queue.push(RunEntry { cpu: home, tid, priority }),
                    ..k.sched
                }
            } else {
                k.sched
            })
            &&& after == (Kernel {
                tasks: after.tasks,
                sched: after.sched,
                ipc: after.ipc,
                ..k
            })
            &&& after.ipc == (crate::ipc::Ipc { tokens: after.ipc.tokens, ..k.ipc })
            &&& after.ipc.tokens.len() == k.ipc.tokens.len()
            &&& forall|t: int|
                0 <= t < k.ipc.tokens.len() && (tcb.reply_timeout_token is None
                    || tcb.reply_timeout_token->0.identity.token_index != t)
                    ==> #[trigger] after.ipc.tokens[t] == k.ipc.tokens[t]
            &&& takes_part(tcb.status) && (tid == 0 || tcb.class is Some) && (
            tcb.reply_timeout_token matches Some(handle) && handle.identity.token_index
                < k.ipc.tokens.len() && k.ipc.tokens[handle.identity.token_index as int].identity
                == handle.identity && k.ipc.tokens[handle.identity.token_index as int].epoch
                == handle.epoch && (k.ipc.tokens[handle.identity.token_index as int].state
                == TokenState::Armed || k.ipc.tokens[handle.identity.token_index as int].state
                == TokenState::ClaimedByReply))
                ==> after.ipc.tokens[tcb.reply_timeout_token->0.identity.token_index as int].state
                == TokenState::Disarmed
        }),
{
    let tcb = k.tasks.tcbs[i]->0;
    let tid = tcb.tid.0;
    crate::laws::slots::law_task_is_found_where_it_stands(k.tasks, i);
    let home = k.wake_target(tcb);
    law_enqueue_is_exact(
        k.sched,
        home,
        tid,
        if tid == 0 {
            TaskPriority::Normal
        } else {
            tcb.class->0.spec_priority()
        },
    );
}

/// The completion of a send that succeeded while its sender was blocked.
pub open spec fn send_result(tid: u64, asid: Asid, generation: u64) -> BlockedSyscallCompletion {
    BlockedSyscallCompletion {
        syscall_class: BlockedSyscallClass::IpcSend,
        result: 0,
        tid,
        asid,
        blocked_generation: generation,
    }
}

/// Did the sender in slot `i` go on between two states?  It is runnable, has no deadline, and has
/// the success of this very send to take; it is queued on its home, or else on `cpu`, exactly if it
/// may join there.
pub open spec fn sender_went_on(before: Kernel, after: Kernel, cpu: CpuId, i: int) -> bool {
    let tcb = before.tasks.tcbs[i]->0;
    let home = match tcb.cpu_affinity {
        Some(home) => home,
        None => cpu,
    };
    &&& after.tasks.tcbs.len() == before.tasks.tcbs.len()
    &&& after.tasks.tcbs[i] == Some(
        ThreadControlBlock {
            pending_syscall_completion: Some(
                send_result(tcb.tid.0, tcb.asid->0, tcb.blocked_send_generation),
            ),
            ..awake(tcb)
        },
    )
    &&& forall|j: int|
        0 <= j < before.tasks.tcbs.len() && j != i ==> #[trigger] after.tasks.tcbs[j]
            == before.tasks.tcbs[j]
    &&& after.sched.cpus == before.sched.cpus
    &&& after.sched.queue == (if may_join(before.sched, home, tcb.tid.0) {
        before.sched.queue.push(
            RunEntry { cpu: home, tid: tcb.tid.0, priority: class_priority(tcb.class) },
        )
    } else {
        before.sched.queue
    })
}

/// Is the task in slot `i` blocked in the send of this generation, and may it be woken?
pub open spec fn is_blocked_sender(k: Kernel, i: int, target: SenderWakeTarget) -> bool {
    &&& 0 <= i < k.tasks.tcbs.len()
    &&& k.tasks.tcbs[i] is Some
    &&& k.tasks.tcbs[i]->0.tid == target.tid
    &&& k.tasks.tcbs[i]->0.tid.0 != 0
    &&& k.tasks.tcbs[i]->0.asid is Some
    &&& k.tasks.tcbs[i]->0.asid == target.asid
    &&& k.tasks.tcbs[i]->0.blocked_send_generation == target.send_generation
    &&& k.tasks.tcbs[i]->0.status matches TaskStatus::Blocked(WaitReason::EndpointSend(_))
    &&& k.tasks.tcbs[i]->0.class is Some
    &&& !k.tasks.tcbs[i]->0.spawn_reservation
}

/// Letting a blocked sender go from an online processor: it goes on with the success of its send.
pub proof fn law_blocked_sender_goes_on(k: Kernel, cpu: CpuId, i: int, target: SenderWakeTarget)
    requires
        k.tasks.apart(),
        (cpu.0 as int) < k.sched.cpus.len(),
        k.sched.cpus[cpu.0 as int].online,
        is_blocked_sender(k, i, target),
    ensures
        sender_went_on(k, k.after_sender_wake(cpu, target), cpu, i),
        k.after_sender_wake(cpu, target).ipc.senders == k.ipc.senders,
        k.after_sender_wake(cpu, target).ipc.queue == k.ipc.queue,
{
    let tcb = k.tasks.tcbs[i]->0;
    crate::laws::slots::law_task_is_found_where_it_stands(k.tasks, i);
    let answered = k.send_answered(cpu, target);
    let told = ThreadControlBlock {
        pending_syscall_completion: Some(
            send_result(tcb.tid.0, tcb.asid->0, tcb.blocked_send_generation),
        ),
        ..tcb
    };
    assert(answered.tasks.tcbs =~= k.tasks.tcbs.update(i, Some(told)));
    crate::laws::slots::lemma_with_keeps_apart(k.tasks, i, told);
    assert(answered.tasks.apart());
    law_wake_is_exact(answered, cpu, i);
    let home = match tcb.cpu_affinity {
        Some(home) => home,
        None => cpu,
    };
    assert(may_join(answered.sched, home, tcb.tid.0) == may_join(k.sched, home, tcb.tid.0));
}

/// Did the receiver in slot `i` go on between two states?  It is runnable with its return lanes
/// clear, waits no more at endpoint `e`, and is queued on its home, or else on `cpu`, exactly if it
/// may join there.
pub open spec fn receiver_went_on(
    before: Kernel,
    after: Kernel,
    cpu: CpuId,
    i: int,
    e: int,
) -> bool {
    let tcb = before.tasks.tcbs[i]->0;
    let home = match tcb.cpu_affinity {
        Some(home) => home,
        None => cpu,
    };
    &&& after.tasks.tcbs.len() == before.tasks.tcbs.len()
    &&& after.tasks.tcbs[i] == Some(
        ThreadControlBlock {
            user_context: crate::task::UserRegisterContext {
                ret0: 0,
                ret1: 0,
                ret2: 0,
                ret_error: 0,
                ..tcb.user_context
            },
            ..awake(tcb)
        },
    )
    &&& forall|j: int|
        0 <= j < before.tasks.tcbs.len() && j != i ==> #[trigger] after.tasks.tcbs[j]
            == before.tasks.tcbs[j]
    &&& after.sched.cpus == before.sched.cpus
    &&& after.sched.queue == (if may_join(before.sched, home, tcb.tid.0) {
        before.sched.queue.push(
            RunEntry { cpu: home, tid: tcb.tid.0, priority: class_priority(tcb.class) },
        )
    } else {
        before.sched.queue
    })
    &&& after.ipc.endpoints.len() == before.ipc.endpoints.len()
    &&& forall|d: int|
        0 <= d < before.ipc.endpoints.len() ==> #[trigger] after.ipc.endpoints[d] == (if d == e
            && before.ipc.endpoints[d].waiter is Some
            && before.ipc.endpoints[d].waiter->0.receiver.tid == tcb.tid
            && before.ipc.endpoints[d].waiter->0.receiver.asid == (match tcb.asid {
            Some(asid) => asid,
            None => Asid(0),
        }) {
            EndpointSlot { waiter: None, ..before.ipc.endpoints[d] }
        } else {
            before.ipc.endpoints[d]
        })
}

/// Is the task in slot `i` a receiver that may be woken?
pub open spec fn is_blocked_receiver(k: Kernel, i: int) -> bool {
    &&& 0 <= i < k.tasks.tcbs.len()
    &&& k.tasks.tcbs[i] is Some
    &&& k.tasks.tcbs[i]->0.tid.0 != 0
    &&& k.tasks.tcbs[i]->0.status matches TaskStatus::Blocked(WaitReason::EndpointReceive(_))
    &&& k.tasks.tcbs[i]->0.class is Some
    &&& !k.tasks.tcbs[i]->0.spawn_reservation
}

/// Completing a delivery from an online processor: the receiver that is to be woken goes on.
pub proof fn law_receiver_goes_on(k: Kernel, cpu: CpuId, i: int, e: int)
    requires
        k.tasks.apart(),
        (cpu.0 as int) < k.sched.cpus.len(),
        k.sched.cpus[cpu.0 as int].online,
        is_blocked_receiver(k, i),
    ensures
        receiver_went_on(
            k,
            k.after_completion(
                cpu,
                k.tasks.tcbs[i]->0.tid.0,
                e,
                Some(ThreadId(k.tasks.tcbs[i]->0.tid.0)),
            ),
            cpu,
            i,
            e,
        ),
{
    let tcb = k.tasks.tcbs[i]->0;
    let tid = tcb.tid.0;
    crate::laws::slots::law_task_is_found_where_it_stands(k.tasks, i);
    let settled = k.settled(cpu, tid, e, Some(ThreadId(tid)));
    let told = ThreadControlBlock { user_context: tcb.user_context.spec_returns_cleared(), ..tcb };
    assert(settled.tasks.tcbs =~= k.tasks.tcbs.update(i, Some(told)));
    crate::laws::slots::lemma_with_keeps_apart(k.tasks, i, told);
    assert(settled.tasks.apart());
    crate::laws::slots::law_task_is_found_where_it_stands(settled.tasks, i);
    law_wake_is_exact(settled, cpu, i);
    let home = match tcb.cpu_affinity {
        Some(home) => home,
        None => cpu,
    };
    assert(may_join(settled.sched, home, tid) == may_join(k.sched, home, tid));
}

} // verus!
