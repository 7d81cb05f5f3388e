//! Run queues, dispatch, and what undoes a dispatch.
use yarm_runtime::ids::{Asid, CapId, CpuId, KernelError, SchedulerError, ThreadId, VirtAddr};
use yarm_runtime::kernel::Bootstrap;
use yarm_runtime::runtime::dispatch::{
    CpuDispatch, DispatchDisposition, DispatchMarkOutcome, MarkedIncarnation, OwnerCommit,
    OwnerRevalidation, OwnerRevalidationSelection,
};
use yarm_runtime::runtime::placement::EnqueueRefusalPolicy;
use yarm_runtime::runtime::SharedKernel;
use yarm_runtime::scheduler::{
    DispatchSelection, RunEntry, SchedulerState, TaskPriority, WithdrawOutcome, MAX_RUN_QUEUE,
};
use yarm_runtime::task::{
    TaskClass, TaskStatus, TaskTransition, ThreadControlBlock, TransitionRefusal, WaitReason,
};

const CPU0: CpuId = CpuId(0);

fn boot() -> SharedKernel {
    SharedKernel::new(Bootstrap::init().expect("init"))
}

fn spawn(kernel: &mut SharedKernel, tid: u64, asid: u16) {
    kernel.with(|state| state.register_task(tid).expect("task"));
    edit(kernel, tid, |tcb| tcb.asid = Some(Asid(asid)));
}

fn edit<F: FnOnce(&mut ThreadControlBlock)>(kernel: &mut SharedKernel, tid: u64, f: F) {
    kernel.with_task_tcbs_split_mut(|tcbs| {
        f(tcbs
            .iter_mut()
            .flatten()
            .find(|tcb| tcb.tid.0 == tid)
            .expect("control block"))
    });
}

fn status(kernel: &mut SharedKernel, tid: u64) -> TaskStatus {
    kernel.with(|state| state.task_status(tid)).expect("status")
}

fn queue(kernel: &mut SharedKernel, tid: u64) {
    kernel.with(|state| state.enqueue_current_cpu(tid).expect("enqueue"));
}

/// Takes the idle task off the first processor.
fn vacate(kernel: &mut SharedKernel) {
    let _ = kernel.block_current_on_cpu_split(CPU0).expect("block");
}

#[test]
fn enqueue_refuses_each_bad_request() {
    let mut sched = SchedulerState::boot();
    assert_eq!(
        sched.enqueue_on_with_priority(CpuId(9), 5, TaskPriority::Normal),
        Err(SchedulerError::InvalidCpu)
    );
    assert_eq!(
        sched.enqueue_on_with_priority(CpuId(1), 5, TaskPriority::Normal),
        Err(SchedulerError::CpuOffline)
    );
    assert_eq!(sched.enqueue_on_with_priority(CPU0, 5, TaskPriority::Normal), Ok(()));
    assert_eq!(
        sched.enqueue_on_with_priority(CPU0, 5, TaskPriority::Normal),
        Err(SchedulerError::AlreadyQueued)
    );
    for tid in 100..100 + MAX_RUN_QUEUE as u64 - 1 {
        sched
            .enqueue_on_with_priority(CPU0, tid, TaskPriority::Normal)
            .expect("room");
    }
    assert_eq!(
        sched.enqueue_on_with_priority(CPU0, 900, TaskPriority::Normal),
        Err(SchedulerError::QueueFull)
    );
    sched.bring_up(CpuId(1)).expect("bring up");
    sched.cpus[1].wake_only = true;
    assert_eq!(
        sched.enqueue_on_with_priority(CpuId(1), 900, TaskPriority::Normal),
        Err(SchedulerError::WakeOnly)
    );
}

#[test]
fn dispatch_takes_the_oldest_of_the_highest_priority() {
    let mut sched = SchedulerState::boot();
    sched.block_current_on(CPU0);
    for (tid, priority) in [
        (11, TaskPriority::Normal),
        (12, TaskPriority::High),
        (13, TaskPriority::High),
        (14, TaskPriority::Normal),
    ] {
        sched.enqueue_on_with_priority(CPU0, tid, priority).expect("enqueue");
    }
    assert_eq!(sched.peek_next_runnable_on(CPU0), Some(12));
    let mut order = Vec::new();
    for _ in 0..4 {
        order.push(sched.dispatch_next_on(CPU0).expect("task"));
        sched.block_current_on(CPU0);
    }
    assert_eq!(order, vec![12, 13, 11, 14]);
    assert_eq!(sched.runnable_count_on(CPU0), 0);
    assert_eq!(sched.dispatch_next_selection_on(CPU0), DispatchSelection::Idle);
}

#[test]
fn a_running_task_goes_on_when_nothing_is_queued() {
    let mut sched = SchedulerState::boot();
    sched.block_current_on(CPU0);
    sched.enqueue_on_with_priority(CPU0, 7, TaskPriority::Normal).expect("enqueue");
    assert_eq!(
        sched.dispatch_next_selection_on(CPU0),
        DispatchSelection::Dequeued { tid: 7 }
    );
    assert_eq!(
        sched.dispatch_next_selection_on(CPU0),
        DispatchSelection::ContinuedCurrent { tid: 7 }
    );
    assert_eq!(sched.current_tid_on(CPU0), Some(7));
}

#[test]
fn withdrawing_takes_only_a_queued_task() {
    let mut sched = SchedulerState::boot();
    sched.block_current_on(CPU0);
    sched.enqueue_on_with_priority(CPU0, 7, TaskPriority::Normal).expect("enqueue");
    sched.enqueue_on_with_priority(CPU0, 8, TaskPriority::Normal).expect("enqueue");
    sched.dispatch_next_on(CPU0);
    assert_eq!(sched.withdraw_queued_tid_on(CpuId(9), 8), WithdrawOutcome::InvalidCpu);
    assert_eq!(sched.withdraw_queued_tid_on(CPU0, 7), WithdrawOutcome::RefusedCurrent);
    assert_eq!(sched.withdraw_queued_tid_on(CPU0, 9), WithdrawOutcome::NotQueued);
    assert_eq!(sched.withdraw_queued_tid_on(CPU0, 8), WithdrawOutcome::Removed);
    assert_eq!(sched.withdraw_queued_tid_on(CPU0, 8), WithdrawOutcome::NotQueued);
    assert_eq!(sched.runnable_count_on(CPU0), 0);
}

#[test]
fn selections_have_stable_names() {
    assert_eq!(DispatchSelection::Dequeued { tid: 4 }.tid(), Some(4));
    assert_eq!(DispatchSelection::ContinuedCurrent { tid: 5 }.tid(), Some(5));
    assert_eq!(DispatchSelection::Idle.tid(), None);
    let markers = [
        DispatchSelection::Idle.marker(),
        DispatchSelection::Dequeued { tid: 4 }.marker(),
        DispatchSelection::ContinuedCurrent { tid: 4 }.marker(),
    ];
    assert_ne!(markers[0], markers[1]);
    assert_ne!(markers[1], markers[2]);
    assert_ne!(markers[0], markers[2]);
}

#[test]
fn a_dispatch_for_another_processor_is_refused() {
    let mut kernel = boot();
    spawn(&mut kernel, 5, 3);
    queue(&mut kernel, 5);
    let refused = kernel.d2_recv_dispatch_step_mut(CpuId(1));
    assert_eq!(
        refused,
        CpuDispatch::RefusedCpuMismatch { requested: CpuId(1), authoritative: CPU0 }
    );
    assert_eq!(refused.tid(), None);
    assert_eq!(
        kernel.d6_genuine_mark_running_via_task_seam(refused),
        DispatchMarkOutcome::RefusedNoSchedulerChange
    );
    assert_eq!(kernel.current_tid_authoritative(CPU0), Some(0));
    assert_eq!(kernel.dispatch_next_candidate_split_read(CPU0), Some(5));
    assert_eq!(status(&mut kernel, 5), TaskStatus::Runnable);
}

#[test]
fn a_marked_dispatch_runs_and_can_be_rolled_back() {
    let mut kernel = boot();
    spawn(&mut kernel, 5, 3);
    vacate(&mut kernel);
    queue(&mut kernel, 5);
    let dispatch = kernel.d6_genuine_local_dispatch_step_mut(CPU0);
    assert_eq!(
        dispatch,
        CpuDispatch::Selected { cpu: CPU0, selection: DispatchSelection::Dequeued { tid: 5 } }
    );
    let outcome = kernel.d6_genuine_mark_running_via_task_seam(dispatch);
    assert_eq!(outcome.disposition(), DispatchDisposition::ResumeIncoming);
    let token = outcome.token().expect("token");
    assert_eq!(token.tid(), 5);
    assert_eq!(token.cpu(), CPU0);
    assert_eq!(token.expect_asid(), Some(Asid(3)));
    assert_eq!(status(&mut kernel, 5), TaskStatus::Running);
    assert!(kernel.direct_dispatch_current_agrees_split_read(CPU0, 5));

    let authority = token.into_dequeued_authority().expect("authority");
    assert!(kernel.direct_dispatch_rollback_split(authority));
    assert_eq!(status(&mut kernel, 5), TaskStatus::Runnable);
    assert_eq!(kernel.current_tid_authoritative(CPU0), None);
    assert_eq!(kernel.dispatch_next_candidate_split_read(CPU0), Some(5));
}

#[test]
fn only_a_dequeue_gives_authority_to_roll_back() {
    let mut kernel = boot();
    spawn(&mut kernel, 5, 3);
    let continued = kernel.continued_dispatch_mark_token_for_test(CPU0, 5, Asid(3));
    assert!(continued.into_dequeued_authority().is_none());
    let stale = kernel.stale_dispatch_mark_token_for_test(CPU0, 5, Asid(4));
    let authority = stale.into_dequeued_authority().expect("dequeued");
    assert_eq!(authority.token().expect_asid(), Some(Asid(4)));
    assert!(!kernel.direct_dispatch_rollback_split(authority));
    assert_eq!(status(&mut kernel, 5), TaskStatus::Runnable);
}

#[test]
fn a_task_that_cannot_run_is_given_back_to_its_queue() {
    let mut kernel = boot();
    spawn(&mut kernel, 5, 3);
    vacate(&mut kernel);
    queue(&mut kernel, 5);
    edit(&mut kernel, 5, |tcb| tcb.status = TaskStatus::Dead);
    let dispatch = kernel.d2_send_dispatch_step_mut(CPU0);
    let outcome = kernel.d6_genuine_mark_running_via_task_seam(dispatch);
    assert_eq!(outcome, DispatchMarkOutcome::RefusedRolledBack);
    assert_eq!(outcome.disposition(), DispatchDisposition::DeclineDequeueUndone);
    assert_eq!(kernel.current_tid_authoritative(CPU0), None);
    assert_eq!(kernel.dispatch_next_candidate_split_read(CPU0), Some(5));
    assert_eq!(status(&mut kernel, 5), TaskStatus::Dead);
}

#[test]
fn dispositions_tell_the_outcomes_apart() {
    assert_eq!(DispatchMarkOutcome::Idle.disposition(), DispatchDisposition::SettleIdle);
    assert_eq!(
        DispatchMarkOutcome::RefusedNoSchedulerChange.disposition(),
        DispatchDisposition::DeclineSchedulerUntouched
    );
    assert_eq!(DispatchMarkOutcome::RefusedTorn.disposition(), DispatchDisposition::Fatal);
    assert_eq!(DispatchMarkOutcome::RefusedTorn.token(), None);
    assert_eq!(
        MarkedIncarnation::resolve(0, None),
        Some(MarkedIncarnation::Idle)
    );
    assert_eq!(MarkedIncarnation::resolve(5, None), None);
    assert_eq!(
        MarkedIncarnation::resolve(5, Some(Asid(2))),
        Some(MarkedIncarnation::User { asid: Asid(2) })
    );
}

#[test]
fn an_idle_owner_finds_work_that_came_late() {
    let mut kernel = boot();
    spawn(&mut kernel, 5, 3);
    edit(&mut kernel, 5, |tcb| tcb.user_context.instruction_ptr = VirtAddr(0x4000));
    vacate(&mut kernel);
    let (idle, none) = kernel.revalidate_idle_owner_after_drains(CPU0);
    assert_eq!(idle, OwnerRevalidation::Idle);
    assert_eq!(idle.disposition(), OwnerCommit::Idle);
    assert!(none.is_none());

    queue(&mut kernel, 5);
    let (found, snapshot) = kernel.revalidate_idle_owner_after_drains(CPU0);
    assert_eq!(found, OwnerRevalidation::Replacement(5));
    assert_eq!(found.disposition(), OwnerCommit::Replacement(5));
    let snapshot = snapshot.expect("snapshot");
    assert_eq!(snapshot.asid, Some(Asid(3)));
    assert_eq!(snapshot.context.instruction_ptr, VirtAddr(0x4000));
    assert_eq!(
        OwnerRevalidation::RestoreFailed { tid: 5, rolled_back: true }.disposition(),
        OwnerCommit::Idle
    );
    assert_eq!(
        OwnerRevalidation::RestoreFailed { tid: 5, rolled_back: false }.disposition(),
        OwnerCommit::FailClosed(5)
    );
}

#[test]
fn blocking_empties_the_processor() {
    let mut kernel = boot();
    assert_eq!(kernel.block_current_on_cpu_split(CPU0), Ok(Some(0)));
    assert_eq!(kernel.block_current_on_cpu_split(CPU0), Ok(None));
    assert_eq!(
        kernel.block_current_on_cpu_split(CpuId(3)),
        Err(KernelError::Scheduler(SchedulerError::CpuOffline))
    );
}

#[test]
fn a_refused_enqueue_declines_or_dispatches_anyway() {
    let mut kernel = boot();
    spawn(&mut kernel, 5, 3);
    spawn(&mut kernel, 6, 3);
    vacate(&mut kernel);
    queue(&mut kernel, 5);
    queue(&mut kernel, 6);
    let declined = kernel
        .enqueue_then_dispatch_on_cpu_split(CPU0, 5, EnqueueRefusalPolicy::Decline)
        .expect("declined");
    assert_eq!(
        declined.enqueued,
        Err(KernelError::Scheduler(SchedulerError::AlreadyQueued))
    );
    assert_eq!(declined.selected, None);
    assert_eq!(kernel.current_tid_authoritative(CPU0), None);
    let anyway = kernel
        .enqueue_then_dispatch_on_cpu_split(CPU0, 5, EnqueueRefusalPolicy::DispatchAnyway)
        .expect("anyway");
    assert!(anyway.enqueued.is_err());
    assert_eq!(anyway.selected, Some(5));
    assert_eq!(kernel.dispatch_next_candidate_split_read(CPU0), Some(6));
}

#[test]
fn preemption_prefers_the_task_that_is_asked_for() {
    let mut kernel = boot();
    for tid in [5, 6, 7] {
        spawn(&mut kernel, tid, 3);
    }
    vacate(&mut kernel);
    for tid in [5, 6, 7] {
        queue(&mut kernel, tid);
    }
    kernel.with(|state| state.dispatch_next_task());
    assert_eq!(kernel.on_preempt_prefer_on_cpu_split(CPU0, 7), Some(7));
    assert_eq!(kernel.current_tid_authoritative(CPU0), Some(7));
    assert_eq!(kernel.dispatch_next_candidate_split_read(CPU0), Some(6));
}

#[test]
fn a_wake_queues_a_task_once() {
    let mut kernel = boot();
    spawn(&mut kernel, 5, 3);
    edit(&mut kernel, 5, |tcb| {
        tcb.status = TaskStatus::Blocked(WaitReason::EndpointReceive(CapId(1)));
        tcb.ipc_timeout_deadline = Some(77);
    });
    assert!(kernel.d2_recv_reverify_blocked(5));
    assert_eq!(kernel.wake_tid_to_runnable_split(CPU0, ThreadId(5)), Ok(()));
    assert_eq!(status(&mut kernel, 5), TaskStatus::Runnable);
    assert!(!kernel.d2_recv_reverify_blocked(5));
    assert_eq!(
        kernel.wake_tid_to_runnable_split(CPU0, ThreadId(5)),
        Err(KernelError::Scheduler(SchedulerError::AlreadyQueued))
    );
    let queued = kernel.with_scheduler_split_mut(|sched| sched.runnable_count_on(CPU0));
    assert_eq!(queued, 1);
}

#[test]
fn a_wake_refuses_what_cannot_run() {
    let mut kernel = boot();
    for tid in [5, 6, 7] {
        spawn(&mut kernel, tid, 3);
    }
    assert_eq!(
        kernel.wake_tid_to_runnable_split(CPU0, ThreadId(99)),
        Err(KernelError::TaskMissing)
    );
    edit(&mut kernel, 5, |tcb| tcb.status = TaskStatus::Dead);
    assert_eq!(
        kernel.wake_tid_to_runnable_split(CPU0, ThreadId(5)),
        Err(KernelError::WouldBlock)
    );
    edit(&mut kernel, 6, |tcb| tcb.spawn_reservation = true);
    assert_eq!(
        kernel.wake_tid_to_runnable_split(CPU0, ThreadId(6)),
        Err(KernelError::WrongObject)
    );
    edit(&mut kernel, 7, |tcb| tcb.class = None);
    assert_eq!(
        kernel.wake_tid_to_runnable_split(CPU0, ThreadId(7)),
        Err(KernelError::TaskMissing)
    );
}

#[test]
fn a_pinned_task_wakes_at_home() {
    let mut kernel = boot();
    kernel.with(|state| state.bring_up_cpu(CpuId(1)).expect("cpu1"));
    spawn(&mut kernel, 5, 3);
    assert!(kernel.smp_assign_task_home_cpu(5, CpuId(1)));
    assert!(!kernel.smp_assign_task_home_cpu(99, CpuId(1)));
    edit(&mut kernel, 5, |tcb| {
        tcb.status = TaskStatus::Blocked(WaitReason::Futex(VirtAddr(0x100)))
    });
    assert_eq!(kernel.wake_tid_to_runnable_split(CPU0, ThreadId(5)), Ok(()));
    let (here, there) = kernel.with_scheduler_split_mut(|sched| {
        (sched.runnable_count_on(CPU0), sched.runnable_count_on(CpuId(1)))
    });
    assert_eq!((here, there), (0, 1));
}

#[test]
fn registration_and_class_policy() {
    let mut kernel = boot();
    kernel.with(|state| {
        state.register_task_with_class(9, TaskClass::Driver).expect("driver");
        assert_eq!(state.task_class(9), Some(TaskClass::Driver));
        assert_eq!(state.register_task(9), Err(KernelError::WrongObject));
        assert_eq!(state.enqueue_current_cpu(42), Err(KernelError::TaskMissing));
        state.enqueue_current_cpu(9).expect("enqueue");
        assert_eq!(
            state.enqueue_on_cpu(CpuId(2), 9),
            Err(KernelError::Scheduler(SchedulerError::CpuOffline))
        );
    });
}

#[test]
fn the_task_table_fills_up() {
    let mut kernel = boot();
    kernel.with(|state| {
        for tid in 1..512 {
            state.register_task(tid).expect("room");
        }
        assert_eq!(state.register_task(512), Err(KernelError::TaskTableFull));
    });
}

#[test]
fn a_doubled_entry_is_not_withdrawn() {
    let mut sched = SchedulerState::boot();
    let entry = RunEntry { cpu: CPU0, tid: 8, priority: TaskPriority::Normal };
    sched.queue.push(entry);
    sched.queue.push(entry);
    assert_eq!(sched.withdraw_queued_tid_on(CPU0, 8), WithdrawOutcome::RefusedDuplicate);
    assert_eq!(sched.runnable_count_on(CPU0), 2);
}

#[test]
fn a_selection_that_is_not_current_is_torn() {
    let mut kernel = boot();
    spawn(&mut kernel, 5, 3);
    edit(&mut kernel, 5, |tcb| tcb.status = TaskStatus::Faulted);
    let claimed =
        CpuDispatch::Selected { cpu: CPU0, selection: DispatchSelection::Dequeued { tid: 5 } };
    let outcome = kernel.d6_genuine_mark_running_via_task_seam(claimed);
    assert_eq!(outcome, DispatchMarkOutcome::RefusedTorn);
    assert_eq!(outcome.disposition(), DispatchDisposition::Fatal);
    let continued = CpuDispatch::Selected {
        cpu: CPU0,
        selection: DispatchSelection::ContinuedCurrent { tid: 5 },
    };
    assert_eq!(
        kernel.d6_genuine_mark_running_via_task_seam(continued),
        DispatchMarkOutcome::RefusedNoSchedulerChange
    );
    assert_eq!(kernel.current_tid_authoritative(CPU0), Some(0));
    assert_eq!(status(&mut kernel, 5), TaskStatus::Faulted);
}

#[test]
fn status_changes_say_why_they_are_refused() {
    let mut kernel = boot();
    spawn(&mut kernel, 5, 3);
    kernel.with_task_return_split_mut(|tasks| {
        let incoming = TaskTransition::DispatchIncoming;
        assert_eq!(
            tasks.apply_task_transition(99, None, incoming),
            Err(TransitionRefusal::TaskMissing)
        );
        assert_eq!(
            tasks.apply_task_transition(5, Some(Asid(9)), incoming),
            Err(TransitionRefusal::WrongIncarnation)
        );
        assert_eq!(
            tasks.apply_task_transition(5, Some(Asid(3)), TaskTransition::ContinueCurrent),
            Err(TransitionRefusal::WrongStatus)
        );
        assert_eq!(tasks.apply_task_transition(5, Some(Asid(3)), incoming), Ok(()));
        assert_eq!(tasks.get(5).expect("control block").status, TaskStatus::Running);
        assert_eq!(
            tasks.apply_task_transition(5, None, TaskTransition::RollbackDispatchedIncoming),
            Ok(())
        );
        assert_eq!(tasks.get(5).expect("control block").status, TaskStatus::Runnable);
    });
}

/// A kernel with two processors and the first user task, blocked and without a home.
fn boot_with_first_user() -> SharedKernel {
    let mut kernel = boot();
    spawn(&mut kernel, 1, 3);
    kernel.with(|state| state.bring_up_cpu(CpuId(1)).expect("cpu1"));
    edit(&mut kernel, 1, |tcb| {
        tcb.status = TaskStatus::Blocked(WaitReason::EndpointReceive(CapId(1)))
    });
    kernel
}

#[test]
fn placing_the_first_user_task_elsewhere_breaks_its_pin() {
    let mut kernel = boot_with_first_user();
    spawn(&mut kernel, 5, 4);
    assert!(!kernel.placement_breaks_pin_split_read(CPU0, 1));
    assert!(kernel.placement_breaks_pin_split_read(CpuId(1), 1));
    assert!(!kernel.placement_breaks_pin_split_read(CpuId(1), 5));
    assert!(!kernel.placement_breaks_pin_split_read(CpuId(2), 1), "refused as offline");
    edit(&mut kernel, 1, |tcb| tcb.spawn_reservation = true);
    assert!(!kernel.placement_breaks_pin_split_read(CpuId(1), 1), "refused as reserved");
}

#[test]
fn waking_the_first_user_task_elsewhere_breaks_its_pin() {
    let mut kernel = boot_with_first_user();
    assert!(!kernel.wake_breaks_pin_split_read(CPU0, ThreadId(1)));
    assert!(!kernel.wake_breaks_pin_split_read(CPU0, ThreadId(99)));
    kernel.bind_current_cpu_split(CpuId(1)).expect("bind");
    assert!(kernel.wake_breaks_pin_split_read(CpuId(1), ThreadId(1)));
    edit(&mut kernel, 1, |tcb| tcb.status = TaskStatus::Dead);
    assert!(!kernel.wake_breaks_pin_split_read(CpuId(1), ThreadId(1)), "refused as dead");
    edit(&mut kernel, 1, |tcb| {
        tcb.status = TaskStatus::Runnable;
        tcb.cpu_affinity = Some(CPU0);
    });
    assert!(!kernel.wake_breaks_pin_split_read(CpuId(1), ThreadId(1)), "it is at home");
    assert_eq!(kernel.wake_tid_to_runnable_split(CpuId(1), ThreadId(1)), Ok(()));
    assert_eq!(
        kernel.state.sched.queue,
        vec![RunEntry { cpu: CPU0, tid: 1, priority: TaskPriority::Normal }]
    );
    vacate(&mut kernel);
    assert_eq!(kernel.with(|state| state.dispatch_next_on_cpu(CpuId(1))), None);
    assert_eq!(kernel.with(|state| state.dispatch_next_on_cpu(CPU0)), Some(1));
}

#[test]
fn taking_the_first_user_task_back_elsewhere_breaks_its_pin() {
    let kernel = boot_with_first_user();
    let away = OwnerRevalidationSelection { cpu: CpuId(1), tid: 1 };
    assert!(kernel.rollback_breaks_pin_split_read(away, true));
    assert!(!kernel.rollback_breaks_pin_split_read(away, false));
    let home = OwnerRevalidationSelection { cpu: CPU0, tid: 1 };
    assert!(!kernel.rollback_breaks_pin_split_read(home, true));
    let other = OwnerRevalidationSelection { cpu: CpuId(1), tid: 99 };
    assert!(!kernel.rollback_breaks_pin_split_read(other, true));
}

#[test]
fn a_fresh_scheduler_has_run_nothing() {
    let kernel = boot();
    let timer = kernel.state.sched.timer;
    assert_eq!((timer.ticks, timer.quantum_used), (0, 0));
    for (c, slot) in kernel.state.sched.cpus.iter().enumerate() {
        assert_eq!(slot.current_priority, TaskPriority::Normal);
        assert_eq!(slot.current, if c == 0 { Some(0) } else { None });
    }
    for token in &kernel.state.ipc.tokens {
        assert_eq!((token.epoch, token.deadline), (0, 0));
    }
}
