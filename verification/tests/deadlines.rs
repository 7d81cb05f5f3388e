//! Deadlines of sends, receives and calls, and servers that end.
use yarm_runtime::capability::CapObject;
use yarm_runtime::deferred::{
    CpuItem, RecvTimeoutPostWork, ReplyTimeoutPostWork, SendTimeoutPostWork, ServerDeathPostWork,
};
use yarm_runtime::ids::{Asid, CapId, CpuId, PhysAddr, ThreadId};
use yarm_runtime::ipc::{
    DeadlineToken, EndpointMode, EndpointSlot, EndpointWaiterRecord, EnvelopeSlot, Message,
    ReceiverWaiterIdentity, ReplyRecordReservation, SenderWaiter, SharedRegion, TerminalCell,
    TerminalOwner, TokenState, TransferEnvelope, TransferState,
};
use yarm_runtime::kernel::Bootstrap;
use yarm_runtime::memory::MemoryObject;
use yarm_runtime::runtime::timeouts::ReplyTimeoutOutcome;
use yarm_runtime::runtime::SharedKernel;
use yarm_runtime::task::{
    BlockedSyscallClass, DeadlineHandle, ReplyDeadlineClock, TaskStatus, TerminalIdentity,
    ThreadControlBlock, TokenIdentity, WaitReason, CALL_COMPLETION_SERVER_DIED,
    SEND_COMPLETION_TIMED_OUT,
};

const CPU0: CpuId = CpuId(0);
const ASID: Asid = Asid(3);
const ENDPOINT: CapObject = CapObject::Endpoint { index: 2, generation: 4 };
const CALLER: ReceiverWaiterIdentity = ReceiverWaiterIdentity { tid: ThreadId(5), asid: ASID };
const SERVER: ReceiverWaiterIdentity =
    ReceiverWaiterIdentity { tid: ThreadId(8), asid: Asid(4) };

fn edit<F: FnOnce(&mut ThreadControlBlock)>(kernel: &mut SharedKernel, tid: u64, f: F) {
    kernel.with_task_tcbs_split_mut(|tcbs| {
        f(tcbs
            .iter_mut()
            .flatten()
            .find(|tcb| tcb.tid.0 == tid)
            .expect("control block"))
    });
}

fn tcb_of(kernel: &SharedKernel, tid: u64) -> ThreadControlBlock {
    kernel.state.tasks.get(tid).expect("control block")
}

fn boot() -> SharedKernel {
    let mut kernel = SharedKernel::new(Bootstrap::init().expect("init"));
    for identity in [CALLER, SERVER] {
        kernel.with(|state| state.register_task(identity.tid.0).expect("task"));
        edit(&mut kernel, identity.tid.0, |tcb| tcb.asid = Some(identity.asid));
    }
    kernel.with_ipc_split_mut(|ipc| {
        ipc.endpoints[2] = EndpointSlot {
            mode: Some(EndpointMode::Synchronous),
            generation: 4,
            waiter: None,
        }
    });
    kernel
}

fn wait_to_receive(kernel: &mut SharedKernel) {
    edit(kernel, 5, |tcb| {
        tcb.status = TaskStatus::Blocked(WaitReason::EndpointReceive(CapId(1)));
        tcb.blocked_recv_generation = 7;
        tcb.ipc_timeout_deadline = Some(100);
    });
    kernel.with_ipc_split_mut(|ipc| {
        ipc.endpoints[2].waiter =
            Some(EndpointWaiterRecord { receiver: CALLER, wait_generation: 7 })
    });
}

/// A call by task 5 to task 8 that is open, waits for its answer, and has a deadline of 100.
fn call(kernel: &mut SharedKernel) -> DeadlineHandle {
    let (index, generation) = kernel
        .reserve_direct_reply_record_split(CALLER, SERVER, ENDPOINT)
        .expect("reserve");
    let identity = TerminalIdentity {
        caller_tid: CALLER.tid,
        caller_asid: CALLER.asid,
        replier_tid: SERVER.tid,
        replier_asid: SERVER.asid,
        endpoint_index: 2,
        endpoint_generation: 4,
        reply_record_index: index,
        reply_record_generation: generation,
    };
    let token = TokenIdentity { token_index: 3, token_generation: 2, terminal_identity: identity };
    kernel.with_ipc_split_mut(|ipc| {
        ipc.replies[index].terminal =
            TerminalCell { epoch: 1, identity, owner: TerminalOwner::Unclaimed };
        ipc.tokens[3] =
            DeadlineToken { identity: token, epoch: 5, deadline: 100, state: TokenState::Armed };
    });
    let handle = DeadlineHandle { identity: token, epoch: 5 };
    wait_to_receive(kernel);
    edit(kernel, 5, |tcb| tcb.reply_timeout_token = Some(handle));
    handle
}

fn block_in_send(kernel: &mut SharedKernel, transfer: Option<CapId>) {
    let msg = Message::with_header(5, 7, 0, transfer, b"late").expect("message");
    edit(kernel, 5, |tcb| {
        tcb.status = TaskStatus::Blocked(WaitReason::EndpointSend(CapId(1)));
        tcb.blocked_send_generation = 9;
        tcb.ipc_timeout_deadline = Some(100);
    });
    kernel.with_ipc_split_mut(|ipc| {
        ipc.senders[17] = Some(SenderWaiter {
            tid: ThreadId(5),
            asid: Some(ASID),
            send_generation: 9,
            msg,
        })
    });
}

fn queued(kernel: &mut SharedKernel) -> usize {
    kernel.with_scheduler_split_mut(|sched| sched.runnable_count_on(CPU0))
}

#[test]
fn a_deadline_ends_a_call_once() {
    let mut kernel = boot();
    let handle = call(&mut kernel);
    assert_eq!(
        kernel.complete_reply_timeout(handle, 99),
        ReplyTimeoutOutcome::StaleToken
    );
    assert_eq!(kernel.complete_reply_timeout(handle, 100), ReplyTimeoutOutcome::Woken);
    let tcb = tcb_of(&kernel, 5);
    assert_eq!(tcb.status, TaskStatus::Runnable);
    assert!(tcb.ipc_timeout_fired);
    assert_eq!(tcb.ipc_timeout_deadline, None);
    assert_eq!(tcb.reply_timeout_token, None);
    let completion = tcb.pending_syscall_completion.expect("completion");
    assert_eq!(completion.result, SEND_COMPLETION_TIMED_OUT);
    assert_eq!(completion.syscall_class, BlockedSyscallClass::IpcRecv);
    assert_eq!(completion.blocked_generation, 7);
    assert_eq!(kernel.state.ipc.tokens[3].state, TokenState::Completed);
    let slot = kernel.state.ipc.replies[0];
    assert_eq!(slot.terminal.owner, TerminalOwner::Timeout);
    assert_eq!(
        slot.record.expect("record").reservation,
        ReplyRecordReservation::Consumed
    );
    assert_eq!(kernel.state.ipc.waiter_at(2), None);
    assert_eq!(queued(&mut kernel), 1);
    assert_eq!(
        kernel.complete_reply_timeout(handle, 200),
        ReplyTimeoutOutcome::StaleToken
    );
    assert!(kernel.reply_record_terminal_arbitrated_split_read(0, 1));
}

#[test]
fn a_deadline_loses_to_an_answer() {
    let mut kernel = boot();
    let handle = call(&mut kernel);
    kernel.with_ipc_split_mut(|ipc| ipc.replies[0].terminal.owner = TerminalOwner::Reply);
    assert_eq!(
        kernel.complete_reply_timeout(handle, 100),
        ReplyTimeoutOutcome::LostToTerminal
    );
    assert_eq!(kernel.state.ipc.tokens[3].state, TokenState::Disarmed);
    assert_eq!(queued(&mut kernel), 0);
}

#[test]
fn a_deadline_of_a_caller_that_left_only_cleans_up() {
    let mut kernel = boot();
    let handle = call(&mut kernel);
    edit(&mut kernel, 5, |tcb| tcb.asid = Some(Asid(9)));
    assert_eq!(
        kernel.complete_reply_timeout(handle, 100),
        ReplyTimeoutOutcome::CleanupNoWake
    );
    assert_eq!(kernel.state.ipc.replies[0].terminal.owner, TerminalOwner::Timeout);
    assert_eq!(queued(&mut kernel), 0);
}

#[test]
fn an_answer_disarms_the_deadline() {
    let mut kernel = boot();
    let handle = call(&mut kernel);
    assert!(!kernel.disarm_reply_deadline_on_reply_win(5, Asid(9)));
    assert!(kernel.disarm_reply_deadline_on_reply_win(5, ASID));
    assert_eq!(kernel.state.ipc.tokens[3].state, TokenState::Disarmed);
    assert!(!kernel.disarm_reply_deadline_on_reply_win(5, ASID));
    assert_eq!(
        kernel.complete_reply_timeout(handle, 500),
        ReplyTimeoutOutcome::StaleToken
    );
}

#[test]
fn a_scan_lists_what_is_due_and_decides_nothing() {
    let mut kernel = boot();
    let handle = call(&mut kernel);
    kernel.collect_due_ipc_timeout_work(99, 99, 99, CPU0);
    assert!(kernel.state.pending.reply.items.is_empty());
    kernel.collect_due_ipc_timeout_work(100, 0, 0, CPU0);
    assert_eq!(kernel.state.pending.reply.count(CPU0), 1);
    assert_eq!(kernel.state.pending.reply.items[0].item.handle, handle);
    assert_eq!(tcb_of(&kernel, 5).reply_timeout_token, Some(handle));
    kernel.collect_due_ipc_timeout_work(100, 0, 0, CPU0);
    assert_eq!(kernel.state.pending.reply.count(CPU0), 1, "each deadline is listed once");
    kernel.drain_reply_timeout_post_work(CPU0, 100, 0);
    assert!(kernel.state.pending.reply.items.is_empty());
    assert_eq!(tcb_of(&kernel, 5).status, TaskStatus::Runnable);
}

#[test]
fn a_reply_deadline_has_its_own_clock() {
    let mut kernel = boot();
    call(&mut kernel);
    edit(&mut kernel, 5, |tcb| tcb.reply_timeout_clock = ReplyDeadlineClock::OracleHardware);
    kernel.collect_due_ipc_timeout_work(1000, 99, 1000, CPU0);
    assert!(kernel.state.pending.reply.items.is_empty());
    kernel.run_due_ipc_timeout_work_at(CPU0, 0, 100, 0);
    assert_eq!(tcb_of(&kernel, 5).status, TaskStatus::Runnable);
    assert_eq!(kernel.reply_timeout_oracle_now_split_read(Some(77)), 77);
    assert_eq!(kernel.scheduler_tick_now_split_read(), 0);
}

#[test]
fn a_due_deadline_that_is_early_on_its_clock_goes_back() {
    let mut kernel = boot();
    let handle = call(&mut kernel);
    let work = ReplyTimeoutPostWork {
        handle,
        deadline: 100,
        clock: ReplyDeadlineClock::ProductionTick,
    };
    kernel.state.pending.reply.items.push(CpuItem { cpu: CPU0, item: work });
    kernel.drain_reply_timeout_post_work(CPU0, 50, 1000);
    assert_eq!(kernel.state.pending.reply.count(CPU0), 1);
    assert_eq!(kernel.state.ipc.tokens[3].state, TokenState::Armed);
}

#[test]
fn an_expired_send_is_answered_and_withdrawn() {
    let mut kernel = boot();
    kernel.with_memory_split_mut(|mem| {
        mem.memory_objects[0] = Some(MemoryObject {
            id: 30,
            phys: PhysAddr(0xA0000),
            len: 4096,
            cap_refcount: 1,
            map_refcount: 0,
            pin_refcount: 1,
        })
    });
    kernel.with_ipc_split_mut(|ipc| {
        ipc.envelopes[0] = EnvelopeSlot {
            generation: 6,
            envelope: Some(TransferEnvelope {
                endpoint: ENDPOINT,
                source_object: CapObject::MemoryObject { id: 30 },
                source_tid: ThreadId(5),
                source_cap: CapId(1),
                receiver_tid: None,
                shared_region: Some(SharedRegion { offset: 0, len: 4096 }),
                state: TransferState::Stashed,
            }),
        }
    });
    block_in_send(&mut kernel, Some(CapId(6 << 16)));
    kernel.run_due_ipc_timeout_work_at(CPU0, 99, 99, 99);
    assert!(kernel.d2_send_reverify_blocked(5));
    kernel.run_due_ipc_timeout_work_at(CPU0, 100, 100, 100);
    let tcb = tcb_of(&kernel, 5);
    assert_eq!(tcb.status, TaskStatus::Runnable);
    assert!(tcb.ipc_timeout_fired);
    let completion = tcb.pending_syscall_completion.expect("completion");
    assert_eq!(completion.result, SEND_COMPLETION_TIMED_OUT);
    assert_eq!(completion.syscall_class, BlockedSyscallClass::IpcSend);
    assert_eq!(kernel.state.ipc.senders[17], None);
    assert_eq!(kernel.state.ipc.envelopes[0].envelope, None);
    assert_eq!(kernel.state.mem.object(30).expect("object").1.pin_refcount, 0);
    assert_eq!(queued(&mut kernel), 1);
    assert_eq!(
        kernel.with(|state| state.consume_ipc_timeout_fired_for_tid(5)),
        Ok(true)
    );
    assert_eq!(
        kernel.with(|state| state.consume_ipc_timeout_fired_for_tid(5)),
        Ok(false)
    );
}

#[test]
fn a_send_that_is_over_is_left_alone() {
    let mut kernel = boot();
    block_in_send(&mut kernel, None);
    let work = SendTimeoutPostWork { tid: 5, asid: Some(ASID), send_generation: 8, deadline: 100 };
    kernel.state.pending.send.items.push(CpuItem { cpu: CPU0, item: work });
    kernel.drain_send_timeout_post_work(CPU0, 100);
    assert!(kernel.state.pending.send.items.is_empty());
    assert!(kernel.d2_send_reverify_blocked(5));
    assert!(kernel.state.ipc.senders[17].is_some());
    assert_eq!(queued(&mut kernel), 0);
}

#[test]
fn an_expired_receive_waits_nowhere() {
    let mut kernel = boot();
    wait_to_receive(&mut kernel);
    kernel.with_ipc_split_mut(|ipc| ipc.notification_waiters[4] = Some(ThreadId(5)));
    kernel.run_due_ipc_timeout_work_at(CPU0, 100, 100, 100);
    let tcb = tcb_of(&kernel, 5);
    assert_eq!(tcb.status, TaskStatus::Runnable);
    assert!(tcb.ipc_timeout_fired);
    assert_eq!(kernel.state.ipc.waiter_at(2), None);
    assert_eq!(kernel.state.ipc.notification_waiters[4], None);
    assert_eq!(queued(&mut kernel), 1);
}

#[test]
fn a_receive_that_is_over_is_left_alone() {
    let mut kernel = boot();
    wait_to_receive(&mut kernel);
    for work in [
        RecvTimeoutPostWork { tid: 5, asid: Some(ASID), wait_generation: 6, deadline: 100 },
        RecvTimeoutPostWork { tid: 5, asid: Some(Asid(9)), wait_generation: 7, deadline: 100 },
        RecvTimeoutPostWork { tid: 5, asid: Some(ASID), wait_generation: 7, deadline: 50 },
    ] {
        kernel.state.pending.recv.items.push(CpuItem { cpu: CPU0, item: work });
    }
    kernel.drain_recv_timeout_post_work(CPU0, 500);
    assert!(kernel.state.pending.recv.items.is_empty());
    assert!(kernel.d2_recv_reverify_blocked(5));
    assert!(kernel.state.ipc.waiter_at(2).is_some());
}

#[test]
fn a_dead_server_answers_its_caller() {
    let mut kernel = boot();
    let handle = call(&mut kernel);
    let work = ServerDeathPostWork {
        reply_record_index: 0,
        reply_record_generation: 1,
        exiting_server: SERVER,
    };
    let other = ServerDeathPostWork {
        exiting_server: ReceiverWaiterIdentity { tid: ThreadId(8), asid: Asid(9) },
        ..work
    };
    for item in [other, work, work] {
        kernel.state.pending.death.items.push(CpuItem { cpu: CPU0, item });
    }
    kernel.drain_server_death_post_work(CPU0);
    assert!(kernel.state.pending.death.items.is_empty());
    let tcb = tcb_of(&kernel, 5);
    assert_eq!(tcb.status, TaskStatus::Runnable);
    assert!(!tcb.ipc_timeout_fired);
    let completion = tcb.pending_syscall_completion.expect("completion");
    assert_eq!(completion.result, CALL_COMPLETION_SERVER_DIED);
    assert_eq!(kernel.state.ipc.replies[0].terminal.owner, TerminalOwner::PeerDeath);
    assert_eq!(kernel.state.ipc.tokens[3].state, TokenState::Disarmed);
    assert_eq!(
        kernel.complete_reply_timeout(handle, 500),
        ReplyTimeoutOutcome::StaleToken
    );
    assert_eq!(queued(&mut kernel), 1);
}

#[test]
fn lists_are_bounded_and_kept_apart() {
    let mut kernel = boot();
    let work = SendTimeoutPostWork { tid: 5, asid: None, send_generation: 1, deadline: 1 };
    let list = &mut kernel.state.pending.send;
    for _ in 0..16 {
        assert!(list.offer(CPU0, work, 16));
    }
    assert!(!list.offer(CPU0, work, 16));
    let second = SendTimeoutPostWork { tid: 6, ..work };
    assert!(list.offer(CpuId(1), second, 16));
    assert_eq!(list.take_oldest(CpuId(1)), Some(second));
    assert_eq!(list.take_oldest(CpuId(1)), None);
    assert_eq!(list.count(CPU0), 16);
}
