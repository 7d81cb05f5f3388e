//! Single steps of processors and tasks, said of their slots.
use vstd::prelude::*;

use crate::capability::KernelCapacityProfile;
use crate::deferred::SharedRegionSnapshot;
use crate::ids::{CpuId, SchedulerError};
use crate::ipc::{Ipc, IpcTelemetry, RecvAdmission, SenderWakeTarget};
use crate::kernel::Kernel;
use crate::runtime::dispatch::CpuDispatch;
use crate::runtime::placement::EnqueueRefusalPolicy;
use crate::scheduler::{CpuSlot, Sched};
use crate::task::{
    BlockedSyscallClass, BlockedSyscallCompletion, TaskStatus, Tasks, ThreadControlBlock,
    WaitReason,
};

verus! {

/// Work is done in the name of a processor exactly where there is a slot for it and it is online;
/// binding it makes it the current one, and nothing else changes.
pub proof fn law_processor_is_bound(k: Kernel, cpu: CpuId)
    ensures
        ({
            let c = cpu.0 as int;
            let online = c < k.sched.cpus.len() && k.sched.cpus[c].online;
            &&& k.sched.admits(cpu) == if c >= k.sched.cpus.len() {
                Err::<(), SchedulerError>(SchedulerError::InvalidCpu)
            } else if !k.sched.cpus[c].online {
                Err(SchedulerError::CpuOffline)
            } else {
                Ok(())
            }
            &&& k.bound(cpu) == if online {
                Kernel { sched: Sched { current_cpu: cpu, ..k.sched }, ..k }
            } else {
                k
            }
            &&& k.sched.bound(cpu) == (Sched { current_cpu: cpu, ..k.sched })
        }),
{
}

/// A processor that gives its task up has nothing current; only an online one gives it up, and no
/// queue changes.
pub proof fn law_processor_is_freed(s: Sched, cpu: CpuId)
    requires
        (cpu.0 as int) < s.cpus.len(),
    ensures
        ({
            let c = cpu.0 as int;
            let freed = Sched {
                cpus: s.cpus.update(c, CpuSlot { current: None, ..s.cpus[c] }),
                ..s
            };
            &&& s.cleared(cpu) == freed
            &&& s.given_up(cpu) == if s.cpus[c].online {
                freed
            } else {
                s
            }
            &&& s.current_on(cpu) == s.cpus[c].current
        }),
{
}

/// A dispatch step is taken exactly on the current processor; asked for another, it is refused and
/// changes nothing.
pub proof fn law_step_is_for_the_current_processor(k: Kernel, cpu: CpuId)
    ensures
        k.sched.current_cpu != cpu ==> k.after_step(cpu) == k && k.step_result(cpu) == (
        CpuDispatch::RefusedCpuMismatch {
            requested: cpu,
            authoritative: k.sched.current_cpu,
        }),
        k.sched.current_cpu == cpu ==> k.after_step(cpu) == (Kernel {
            sched: k.sched.dispatched(cpu),
            ..k
        }) && k.step_result(cpu) == (CpuDispatch::Selected {
            cpu,
            selection: k.sched.selection_on(cpu),
        }),
{
}

/// A dispatch on a free processor starts the next task: it leaves the queue, is current with its
/// priority, and runs.
pub proof fn law_dispatch_starts_the_task(k: Kernel, cpu: CpuId, j: int, i: int)
    requires
        k.tasks.apart(),
        crate::laws::placing::is_free(k.sched, cpu),
        crate::laws::placing::is_next(k.sched, cpu, j),
        0 <= i < k.tasks.tcbs.len(),
        k.tasks.tcbs[i] is Some,
        k.tasks.tcbs[i]->0.tid.0 == k.sched.queue[j].tid,
        k.tasks.tcbs[i]->0.status == TaskStatus::Runnable,
    ensures
        k.dispatched(cpu) == (Kernel {
            sched: crate::laws::placing::running_entry(k.sched, cpu, j),
            tasks: Tasks {
                tcbs: k.tasks.tcbs.update(
                    i,
                    Some(
                        ThreadControlBlock {
                            status: TaskStatus::Running,
                            ..k.tasks.tcbs[i]->0
                        },
                    ),
                ),
                ..k.tasks
            },
            ..k
        }),
        k.sched.selection_on(cpu).spec_tid() == Some(k.sched.queue[j].tid),
{
    crate::laws::slots::law_task_is_found_where_it_stands(k.tasks, i);
    crate::laws::placing::law_dispatch_runs_the_next(k.sched, cpu, j);
}

/// A dispatch where a task runs, or where nobody waits, changes nothing and names the task that
/// runs there, if one does.
pub proof fn law_dispatch_leaves_the_running_task(k: Kernel, cpu: CpuId)
    requires
        !crate::laws::placing::is_free(k.sched, cpu) || forall|m: int|
            0 <= m < k.sched.queue.len() ==> (#[trigger] k.sched.queue[m]).cpu != cpu,
    ensures
        k.dispatched(cpu) == k,
        k.sched.selection_on(cpu).spec_tid() == (if (cpu.0 as int) < k.sched.cpus.len()
            && k.sched.cpus[cpu.0 as int].online {
            k.sched.cpus[cpu.0 as int].current
        } else {
            None
        }),
{
    crate::laws::placing::law_dispatch_keeps_what_runs(k.sched, cpu);
}

/// A dispatch follows an attempt to queue a task where the task was queued, and otherwise only
/// where that was asked for.
pub proof fn law_dispatch_follows_a_queued_task(
    k: Kernel,
    cpu: CpuId,
    tid: u64,
    policy: EnqueueRefusalPolicy,
)
    ensures
        k.dispatch_follows(cpu, tid, policy) <==> k.enqueue_verdict(cpu, tid) is Ok || policy
            == EnqueueRefusalPolicy::DispatchAnyway,
{
}

/// The first user task belongs on the first processor: placing it elsewhere, waking it to a home
/// elsewhere and taking it back elsewhere break that, and nothing else does.
pub proof fn law_only_the_first_user_task_is_pinned(
    k: Kernel,
    cpu: CpuId,
    tid: u64,
    restorable: bool,
)
    ensures
        crate::runtime::pinning::off_pin(cpu, tid) <==> tid == 1 && cpu.0 != 0,
        k.placement_breaks_pin(cpu, tid) <==> tid == 1 && cpu.0 != 0 && (cpu.0 as int)
            < k.sched.cpus.len() && k.sched.cpus[cpu.0 as int].online && k.tasks.enqueue_policy(
            tid,
        ) is Ok,
        k.wake_breaks_pin(cpu, tid) ==> tid == 1,
        k.rollback_breaks_pin(cpu, tid, restorable) ==> tid == 1 && cpu.0 != 0 && restorable,
{
}

/// The result of a blocked send is parked exactly for the send that is meant: the same incarnation,
/// in the same block, still blocked in a send.
pub proof fn law_send_result_is_parked(tasks: Tasks, target: SenderWakeTarget, result: u64, i: int)
    requires
        tasks.apart(),
        0 <= i < tasks.tcbs.len(),
        tasks.tcbs[i] is Some,
        tasks.tcbs[i]->0.tid == target.tid,
        tasks.tcbs[i]->0.asid == target.asid,
    ensures
        ({
            let tcb = tasks.tcbs[i]->0;
            let meant = tcb.asid is Some && tcb.blocked_send_generation == target.send_generation
                && (match tcb.status {
                TaskStatus::Blocked(WaitReason::EndpointSend(_)) => true,
                _ => false,
            });
            &&& tasks.send_is_blocked(target) == meant
            &&& tasks.send_completed(target, result) == if meant {
                Tasks {
                    tcbs: tasks.tcbs.update(
                        i,
                        Some(
                            ThreadControlBlock {
                                pending_syscall_completion: Some(
                                    BlockedSyscallCompletion {
                                        syscall_class: BlockedSyscallClass::IpcSend,
                                        result,
                                        tid: tcb.tid.0,
                                        asid: tcb.asid->0,
                                        blocked_generation: tcb.blocked_send_generation,
                                    },
                                ),
                                ..tcb
                            },
                        ),
                    ),
                    ..tasks
                }
            } else {
                tasks
            }
        }),
{
    crate::laws::slots::law_task_is_found_where_it_stands(tasks, i);
}

/// A message taken at the receive boundary is counted as one receive, and a reply that is handed
/// over as one reply.
pub proof fn law_receives_and_replies_are_counted(k: Kernel, e: int)
    ensures
        k.dequeued(e).ipc.telemetry.queued_recvs == crate::laws::counting::one_off(
            k.ipc.telemetry.queued_recvs,
            true,
        ),
        k.dequeued(e) == (Kernel {
            ipc: Ipc {
                telemetry: IpcTelemetry {
                    queued_recvs: k.dequeued(e).ipc.telemetry.queued_recvs,
                    ..k.ipc.telemetry
                },
                ..k.ipc.received(e, RecvAdmission::Boundary)
            },
            ..k
        }),
        k.reply_counted() == (Kernel {
            ipc: Ipc {
                telemetry: IpcTelemetry {
                    d5_split_reply_materializations: crate::laws::counting::one_off(
                        k.ipc.telemetry.d5_split_reply_materializations,
                        true,
                    ) as u64,
                    ..k.ipc.telemetry
                },
                ..k.ipc
            },
            ..k
        }),
{
}

/// A region for a receiver that waits at no endpoint is settled by waking it: whether it was woken
/// is whether it takes part in scheduling.
pub proof fn law_region_receiver_that_waits_nowhere(k: Kernel, snap: SharedRegionSnapshot, i: int)
    requires
        k.tasks.apart(),
        !snap.blocked_endpoint_waiter,
        0 <= i < k.tasks.tcbs.len(),
        k.tasks.tcbs[i] is Some,
        k.tasks.tcbs[i]->0.tid.0 == snap.receiver_tid,
    ensures
        k.finalize_result(snap) == Some(
            crate::laws::waking::takes_part(k.tasks.tcbs[i]->0.status),
        ),
        k.after_finalize(snap) == k.receiver_woken(snap.receiver_tid),
{
    crate::laws::slots::law_task_is_found_where_it_stands(k.tasks, i);
}

/// The limits of the two profiles.
pub proof fn law_profiles_have_their_limits(profile: KernelCapacityProfile)
    ensures
        ({
            let limits = profile.spec_config();
            let (tasks, endpoints, slots, links) = match profile {
                KernelCapacityProfile::Constrained => (64int, 32int, 64int, 64int),
                KernelCapacityProfile::Standard => (512int, 128int, 256int, 512int),
            };
            &&& limits.max_tasks == tasks
            &&& limits.max_endpoints == endpoints
            &&& limits.max_cnode_slots == slots
            &&& limits.max_delegations == links
        }),
{
}

/// A kernel that has just been started runs the idle task on the first processor, the only one
/// that is online; no other task is there, nothing waits, and no memory is anybody's.
pub proof fn law_fresh_kernel_idles(k: Kernel, profile: KernelCapacityProfile, c: int, i: int)
    requires
        k.is_fresh(profile),
    ensures
        k.sched.cpus.len() == 8,
        k.sched.current_cpu.0 == 0,
        0 <= c < 8 ==> k.sched.cpus[c].online == (c == 0) && k.sched.cpus[c].present == (c == 0)
            && !k.sched.cpus[c].wake_only && k.sched.cpus[c].current == (if c == 0 {
            Some(0u64)
        } else {
            None
        }),
        k.sched.queue.len() == 0,
        k.tasks.tcbs.len() == profile.spec_config().max_tasks,
        k.tasks.tcbs[0] is Some,
        k.tasks.tcbs[0]->0.tid.0 == 0,
        k.tasks.tcbs[0]->0.status == TaskStatus::Running,
        0 < i < k.tasks.tcbs.len() ==> k.tasks.tcbs[i] is None,
        0 <= i < k.tasks.tcbs.len() ==> k.tasks.tls_pending[i] is None,
        k.ipc.endpoints.len() == profile.spec_config().max_endpoints,
        0 <= i < k.ipc.endpoints.len() ==> k.ipc.endpoints[i].mode is None
            && k.ipc.endpoints[i].waiter is None && k.ipc.endpoints[i].generation == 0,
        k.ipc.senders.len() == 8 * k.ipc.endpoints.len(),
        0 <= i < k.ipc.senders.len() ==> k.ipc.senders[i] is None,
        k.ipc.queue.len() == 0,
        k.ipc.envelopes.len() == 64,
        0 <= i < 64 ==> k.ipc.envelopes[i].envelope is None && k.ipc.envelopes[i].generation == 0,
        k.ipc.replies.len() == 64,
        0 <= i < 64 ==> k.ipc.replies[i].record is None && k.ipc.replies[i].terminal.epoch == 0
            && k.ipc.replies[i].generation == 0,
        k.ipc.tokens.len() == 64,
        k.ipc.active_mappings.len() == 0,
        k.ipc.cancels.len() == 0,
        !k.ipc.cancel_overflow,
        k.caps.entries.len() == 0,
        k.caps.links.len() == 0,
        k.caps.cnodes.len() == 1,
        k.caps.cnodes[0].cnode.0 == 0,
        k.caps.cnodes[0].slots == 16,
        k.vm.pages.len() == 0,
        k.vm.spaces.len() == 0,
        k.mem.objects.len() == 128,
        0 <= i < 128 ==> k.mem.objects[i] is None,
        k.mem.brk.len() == 0,
        k.profile == profile,
{
}

} // verus!
