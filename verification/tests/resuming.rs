//! What a resumed task gets, each thing once.
use yarm_runtime::ids::{Asid, CapId, CpuId, KernelError, SchedulerError, ThreadId, VirtAddr};
use yarm_runtime::kernel::Bootstrap;
use yarm_runtime::runtime::resume::{
    ApSavedResumeContext, DirectDispatchWork, OutgoingObservation, PostSwitchRestoreOutcome,
    SplitReturnIdentity,
};
use yarm_runtime::runtime::SharedKernel;
use yarm_runtime::task::{
    AsyncPreemptTag, AsyncResumeClass, BlockedSyscallClass, BlockedSyscallCompletion, TaskStatus,
    ThreadControlBlock, UserRegisterContext, WaitReason,
};

const CPU0: CpuId = CpuId(0);
const ASID: Asid = Asid(3);

fn edit<F: FnOnce(&mut ThreadControlBlock)>(kernel: &mut SharedKernel, tid: u64, f: F) {
    kernel.with_task_tcbs_split_mut(|tcbs| {
        f(tcbs
            .iter_mut()
            .flatten()
            .find(|tcb| tcb.tid.0 == tid)
            .expect("control block"))
    });
}

/// A kernel in which task 5 has saved registers and a storage base that waits to be restored.
fn boot() -> SharedKernel {
    let mut kernel = SharedKernel::new(Bootstrap::init().expect("init"));
    kernel.with(|state| state.register_task(5).expect("task"));
    edit(&mut kernel, 5, |tcb| {
        tcb.asid = Some(ASID);
        tcb.tls_ptr = Some(VirtAddr(0x7700));
        tcb.user_context.instruction_ptr = VirtAddr(0x4000);
        tcb.user_context.stack_ptr = VirtAddr(0x9000);
        tcb.user_context.user_gprs[2] = 22;
    });
    kernel.with_task_return_split_mut(|tasks| tasks.tls_pending[0] = Some(ThreadId(5)));
    kernel
}

fn completion(class: BlockedSyscallClass, generation: u64) -> BlockedSyscallCompletion {
    BlockedSyscallCompletion {
        syscall_class: class,
        result: 9,
        tid: 5,
        asid: ASID,
        blocked_generation: generation,
    }
}

fn run(kernel: &mut SharedKernel) {
    let _ = kernel.block_current_on_cpu_split(CPU0);
    kernel.with(|state| {
        state.enqueue_current_cpu(5).expect("enqueue");
        assert_eq!(state.dispatch_next_task(), Some(5));
    });
}

#[test]
fn a_completion_is_taken_once_by_its_own_path() {
    let mut kernel = boot();
    edit(&mut kernel, 5, |tcb| {
        tcb.blocked_send_generation = 4;
        tcb.pending_syscall_completion = Some(completion(BlockedSyscallClass::IpcSend, 4));
    });
    let token = kernel.stale_dispatch_mark_token_for_test(CPU0, 5, ASID);
    let other = kernel.stale_dispatch_mark_token_for_test(CPU0, 5, Asid(9));
    assert_eq!(kernel.direct_dispatch_take_send_completion_split(other), None);
    assert_eq!(kernel.direct_dispatch_take_completion_split(token), None);
    assert_eq!(
        kernel.direct_dispatch_take_send_completion_split(token),
        Some(completion(BlockedSyscallClass::IpcSend, 4))
    );
    assert_eq!(kernel.direct_dispatch_take_send_completion_split(token), None);
}

#[test]
fn a_completion_of_an_earlier_block_is_dropped() {
    let mut kernel = boot();
    edit(&mut kernel, 5, |tcb| {
        tcb.blocked_recv_generation = 5;
        tcb.pending_syscall_completion = Some(completion(BlockedSyscallClass::IpcRecv, 4));
    });
    let token = kernel.stale_dispatch_mark_token_for_test(CPU0, 5, ASID);
    assert_eq!(kernel.direct_dispatch_take_completion_split(token), None);
    let tcb = kernel.state.tasks.get(5).expect("control block");
    assert_eq!(tcb.pending_syscall_completion, None);
}

#[test]
fn a_storage_base_is_restored_once() {
    let mut kernel = boot();
    let id = SplitReturnIdentity { tid: 5, asid: ASID };
    assert_eq!(
        kernel.split_return_take_tls_split(SplitReturnIdentity { tid: 5, asid: Asid(9) }),
        None
    );
    assert_eq!(kernel.split_return_take_tls_split(id), Some(Some(0x7700)));
    assert_eq!(kernel.split_return_take_tls_split(id), Some(None));
    let idle = SplitReturnIdentity { tid: 0, asid: ASID };
    assert_eq!(kernel.split_return_take_tls_split(idle), None);
}

#[test]
fn registers_are_saved_for_the_incarnation_that_entered() {
    let mut kernel = boot();
    let context = UserRegisterContext {
        instruction_ptr: VirtAddr(0x5000),
        stack_ptr: VirtAddr(0xA000),
        ret0: 1,
        ret1: 2,
        ret2: 3,
        ret_error: 4,
        user_gprs: [6; 15],
    };
    let other = SplitReturnIdentity { tid: 5, asid: Asid(9) };
    assert!(!kernel.split_return_commit_context_split(other, context));
    let id = SplitReturnIdentity { tid: 5, asid: ASID };
    assert!(kernel.split_return_commit_context_split(id, context));
    assert_eq!(kernel.state.tasks.get(5).expect("control block").user_context, context);
    let token = kernel.stale_dispatch_mark_token_for_test(CPU0, 5, ASID);
    assert_eq!(
        kernel.direct_dispatch_restore_context_split(token),
        Some((context, Some(0x7700)))
    );
    assert_eq!(
        kernel.direct_dispatch_restore_context_split(token),
        Some((context, None))
    );
    assert_eq!(kernel.direct_dispatch_activate_asid_split(token), Some(3));
    let stale = kernel.stale_dispatch_mark_token_for_test(CPU0, 5, Asid(9));
    assert_eq!(kernel.direct_dispatch_activate_asid_split(stale), None);
    assert_eq!(kernel.direct_dispatch_restore_context_split(stale), None);
}

#[test]
fn a_restore_behind_a_switch_takes_everything() {
    let mut kernel = boot();
    edit(&mut kernel, 5, |tcb| {
        tcb.blocked_recv_generation = 4;
        tcb.pending_syscall_completion = Some(completion(BlockedSyscallClass::IpcRecv, 4));
    });
    let facts = match kernel.post_switch_restore_facts_split(5) {
        PostSwitchRestoreOutcome::Facts(facts) => facts,
        other => panic!("{other:?}"),
    };
    assert_eq!(facts.tls, Some(0x7700));
    assert_eq!(facts.context.instruction_ptr, VirtAddr(0x4000));
    assert_eq!(facts.send_completion, None);
    assert_eq!(
        facts.recv_completion,
        Some(completion(BlockedSyscallClass::IpcRecv, 4))
    );
    let again = match kernel.post_switch_restore_facts_split(5) {
        PostSwitchRestoreOutcome::Facts(facts) => facts,
        other => panic!("{other:?}"),
    };
    assert_eq!(again.tls, None);
    assert_eq!(again.recv_completion, None);
    assert_eq!(kernel.post_switch_restore_facts_split(0), PostSwitchRestoreOutcome::Idle);
    assert_eq!(kernel.post_switch_restore_facts_split(99), PostSwitchRestoreOutcome::Idle);
    let snapshot = kernel.post_switch_restore_snapshot_split(5).expect("snapshot");
    assert_eq!((snapshot.asid, snapshot.tls), (Some(ASID), None));
    assert!(kernel.post_switch_restore_snapshot_split(99).is_none());
}

#[test]
fn a_replacement_is_restored_only_where_it_runs() {
    let mut kernel = boot();
    run(&mut kernel);
    assert_eq!(
        kernel.post_exit_replacement_restore_split(CPU0, 9, 0, true),
        Err(KernelError::TaskMissing)
    );
    assert_eq!(
        kernel.post_exit_replacement_restore_split(CPU0, 5, 5, true),
        Err(KernelError::TaskMissing)
    );
    assert_eq!(
        kernel.post_exit_replacement_restore_split(CpuId(4), 9, 5, true),
        Err(KernelError::Scheduler(SchedulerError::CpuOffline))
    );
    let without = kernel
        .post_exit_replacement_restore_split(CPU0, 9, 5, false)
        .expect("without frame");
    assert_eq!(without.asid, Some(ASID));
    assert!(without.facts.is_none() && !without.enter_idle);
    let with = kernel
        .post_exit_replacement_restore_split(CPU0, 9, 5, true)
        .expect("with frame");
    assert_eq!(with.facts.expect("facts").tls, Some(0x7700));
    edit(&mut kernel, 5, |tcb| tcb.asid = None);
    let idle = kernel
        .post_exit_replacement_restore_split(CPU0, 9, 5, true)
        .expect("no address space");
    assert!(idle.enter_idle && idle.facts.is_none() && idle.asid.is_none());
}

#[test]
fn an_exiting_task_is_observed() {
    let mut kernel = boot();
    run(&mut kernel);
    let seen = kernel.post_lock_exit_validation_split(CPU0, 5, ASID).expect("online");
    assert_eq!(seen.current, Some(5));
    assert!(seen.identity_ok && !seen.terminal && seen.in_runqueue);
    edit(&mut kernel, 5, |tcb| tcb.status = TaskStatus::Exited(0));
    let _ = kernel.block_current_on_cpu_split(CPU0);
    let seen = kernel.post_lock_exit_validation_split(CPU0, 5, Asid(9)).expect("online");
    assert!(!seen.identity_ok && seen.terminal && !seen.in_runqueue);
    assert!(kernel.post_lock_exit_validation_split(CpuId(5), 5, ASID).is_err());
    assert_eq!(kernel.post_switch_restore_admit_split(CPU0), Ok(None));
}

#[test]
fn an_outgoing_task_is_observed_in_its_own_incarnation() {
    let mut kernel = boot();
    let work = DirectDispatchWork { outgoing_tid: 5, outgoing_asid: 3 };
    assert_eq!(
        kernel.direct_dispatch_observe_outgoing_split(work),
        OutgoingObservation::MadeRunnable
    );
    edit(&mut kernel, 5, |tcb| {
        tcb.status = TaskStatus::Blocked(WaitReason::EndpointReceive(CapId(1)))
    });
    assert_eq!(
        kernel.direct_dispatch_observe_outgoing_split(work),
        OutgoingObservation::StillBlocked
    );
    edit(&mut kernel, 5, |tcb| tcb.status = TaskStatus::Faulted);
    assert_eq!(
        kernel.direct_dispatch_observe_outgoing_split(work),
        OutgoingObservation::OtherState
    );
    let stale = DirectDispatchWork { outgoing_asid: 4, ..work };
    assert_eq!(
        kernel.direct_dispatch_observe_outgoing_split(stale),
        OutgoingObservation::Gone
    );
}

#[test]
fn a_staged_snapshot_is_used_once() {
    let mut kernel = boot();
    let tag = AsyncPreemptTag { tid: 5, asid: Some(ASID) };
    edit(&mut kernel, 5, |tcb| tcb.async_preempt = Some(tag));
    assert_eq!(
        kernel.take_async_preempt_for_incoming_split(5, Some(ASID)),
        AsyncResumeClass::Verbatim
    );
    assert_eq!(
        kernel.take_async_preempt_for_incoming_split(5, Some(ASID)),
        AsyncResumeClass::NotStaged
    );
    edit(&mut kernel, 5, |tcb| tcb.async_preempt = Some(tag));
    assert_eq!(
        kernel.take_async_preempt_for_incoming_split(5, Some(Asid(9))),
        AsyncResumeClass::Stale
    );
    edit(&mut kernel, 5, |tcb| tcb.async_preempt = Some(tag));
    assert!(kernel.cancel_async_preempt_for_split(5));
    assert!(!kernel.cancel_async_preempt_for_split(5));
    assert!(!kernel.cancel_async_preempt_for_split(99));
}

#[test]
fn a_secondary_processor_resumes_from_saved_state() {
    let mut kernel = boot();
    let mut gprs = [0; 15];
    gprs[2] = 22;
    let context = ApSavedResumeContext {
        asid: 3,
        cr3: 0x100000,
        rip: 0x4000,
        rsp: 0x9000,
        gprs,
        fs_base: 0x7700,
        runnable_saved: true,
    };
    assert_eq!(kernel.ap_saved_resume_context_split(5, Some(0x100000)), Some(context));
    assert_eq!(kernel.ap_saved_resume_context_split(5, None), None);
    assert_eq!(kernel.ap_saved_resume_context_split(99, Some(0x100000)), None);
    edit(&mut kernel, 5, |tcb| tcb.user_context.stack_ptr = VirtAddr(0));
    let torn = kernel.ap_saved_resume_context_split(5, Some(0x100000)).expect("context");
    assert!(!torn.runnable_saved);
}
