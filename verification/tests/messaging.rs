//! Sending, receiving, and the capabilities that travel with messages.
use yarm_runtime::capability::{
    CapObject, CapRights, Capability, RIGHT_MAP, RIGHT_RECEIVE, RIGHT_SEND,
};
use yarm_runtime::deferred::BlockingSendCommitSnapshot;
use yarm_runtime::ids::{
    Asid, CNodeId, CapId, CpuId, KernelError, PhysAddr, SyscallError, ThreadId, TrapHandleError,
    VirtAddr,
};
use yarm_runtime::ipc::{
    EndpointMode, EndpointSlot, EnvelopeSlot, Message, QueuedMessage, QueuedRecv, SenderWaiter,
    SenderWakeTarget, SharedRegion, TransferEnvelope, TransferState, FLAG_REPLY_CAP,
    NO_TRANSFER_CAP, OPCODE_SHARED_MEM,
};
use yarm_runtime::kernel::Bootstrap;
use yarm_runtime::memory::MemoryObject;
use yarm_runtime::runtime::recv::{plan_recv_core, RecvPlan};
use yarm_runtime::runtime::wake::BlockingSendCommitOutcome;
use yarm_runtime::runtime::{IpcRecvQueuedPlainWritebackPlan, SharedKernel};
use yarm_runtime::task::{
    BlockedSyscallClass, TaskStatus, ThreadControlBlock, WaitReason, SEND_COMPLETION_OK,
};
use yarm_runtime::trap::{FaultAccess, TrapFrame, RECV_META_TRANSFERRED_CAP};
use yarm_runtime::vm::{Mapping, PageFlags};

const CPU0: CpuId = CpuId(0);
const ASID: Asid = Asid(3);
const ENDPOINT: CapObject = CapObject::Endpoint { index: 2, generation: 4 };

fn boot() -> SharedKernel {
    let mut kernel = SharedKernel::new(Bootstrap::init().expect("init"));
    kernel.with_ipc_split_mut(|ipc| {
        ipc.endpoints[2] = EndpointSlot {
            mode: Some(EndpointMode::Buffered),
            generation: 4,
            waiter: None,
        }
    });
    kernel
}

fn edit<F: FnOnce(&mut ThreadControlBlock)>(kernel: &mut SharedKernel, tid: u64, f: F) {
    kernel.with_task_tcbs_split_mut(|tcbs| {
        f(tcbs
            .iter_mut()
            .flatten()
            .find(|tcb| tcb.tid.0 == tid)
            .expect("control block"))
    });
}

fn tcb_of(kernel: &SharedKernel, tid: u64) -> ThreadControlBlock {
    kernel.state.tasks.get(tid).expect("control block")
}

/// Registers `tid` in its own address space, or as a kernel task.
fn spawn(kernel: &mut SharedKernel, tid: u64, asid: Option<Asid>) {
    kernel.with(|state| state.register_task(tid).expect("task"));
    edit(kernel, tid, |tcb| tcb.asid = asid);
    if let Some(asid) = asid {
        kernel.with_vm_user_spaces_split_mut(|vm| vm.spaces.push(asid));
    }
}

/// Makes `tid` the running task of the first processor.
fn run(kernel: &mut SharedKernel, tid: u64) {
    let _ = kernel.block_current_on_cpu_split(CPU0);
    kernel.with(|state| {
        state.enqueue_current_cpu(tid).expect("enqueue");
        assert_eq!(state.dispatch_next_task(), Some(tid));
    });
}

fn map(kernel: &mut SharedKernel, va: u64, phys: u64) {
    let mapping = Mapping { phys: PhysAddr(phys), flags: PageFlags::user_rw() };
    kernel
        .map_user_page_in_asid_split(ASID, VirtAddr(va), mapping)
        .expect("map");
}

fn grant(kernel: &mut SharedKernel, tid: u64, object: CapObject, rights: u8) -> CapId {
    kernel
        .mint_capability_with_memory_ref_split(
            CNodeId(tid),
            Capability { object, rights: CapRights(rights) },
        )
        .expect("mint")
}

fn message(sender: u64, flags: u16, transfer: Option<u64>, payload: &[u8]) -> Message {
    Message::with_header(sender, 7, flags, transfer.map(CapId), payload).expect("message")
}

fn post(kernel: &mut SharedKernel, msg: Message) {
    kernel.with_ipc_split_mut(|ipc| ipc.queue.push(QueuedMessage { endpoint: 2, msg }));
}

/// Stashes an envelope in slot 1 and returns its handle.
fn stash(kernel: &mut SharedKernel, object: CapObject, tid: u64, cap: CapId) -> u64 {
    kernel.with_ipc_split_mut(|ipc| {
        ipc.envelopes[1] = EnvelopeSlot {
            generation: 9,
            envelope: Some(TransferEnvelope {
                endpoint: ENDPOINT,
                source_object: object,
                source_tid: ThreadId(tid),
                source_cap: cap,
                receiver_tid: None,
                shared_region: None,
                state: TransferState::Stashed,
            }),
        }
    });
    (9 << 16) | 1
}

fn send_snapshot(tid: u64, msg: Message) -> BlockingSendCommitSnapshot {
    BlockingSendCommitSnapshot {
        cpu: CPU0,
        sender_tid: tid,
        sender_asid: ASID,
        endpoint_idx: 2,
        endpoint_generation: 4,
        msg,
        send_cap: CapId(1),
        deadline: Some(500),
        transfer_envelope: None,
    }
}

fn user_bytes(kernel: &SharedKernel, va: usize, len: usize) -> Vec<u8> {
    kernel
        .copy_from_user_asid_split_read(ASID.0 as u64, va, len)
        .expect("readable")[..len]
        .to_vec()
}

#[test]
fn message_headers_are_kept() {
    let msg = message(12, FLAG_REPLY_CAP, Some(5), b"abc");
    assert_eq!(msg.sender_tid, ThreadId(12));
    assert_eq!(msg.as_slice(), b"abc");
    assert_eq!(msg.transferred_cap(), Some(CapId(5)));
    assert!(msg.is_reply_cap());
    let plain = message(12, 0, None, &[]);
    assert_eq!(plain.transferred_cap(), None);
    assert!(!plain.is_reply_cap());
    assert!(Message::with_header(1, 0, 0, None, &[0u8; 128]).is_some());
    assert!(Message::with_header(1, 0, 0, None, &[0u8; 129]).is_none());
}

#[test]
fn a_committed_send_blocks_its_sender() {
    let mut kernel = boot();
    spawn(&mut kernel, 5, Some(ASID));
    run(&mut kernel, 5);
    let msg = message(5, 0, None, b"hello");
    let outcome = kernel.commit_blocking_send_split(&send_snapshot(5, msg));
    assert_eq!(outcome, BlockingSendCommitOutcome::Committed { send_generation: 1 });
    assert_eq!(outcome.slug(), "committed");
    assert_eq!(outcome.immediate_error(), None);
    let tcb = tcb_of(&kernel, 5);
    assert_eq!(tcb.status, TaskStatus::Blocked(WaitReason::EndpointSend(CapId(1))));
    assert_eq!(tcb.ipc_timeout_deadline, Some(500));
    assert_eq!(tcb.blocked_send_generation, 1);
    assert_eq!(kernel.current_tid_authoritative(CPU0), None);
    assert!(kernel.d2_send_reverify_blocked(5));
    let waiter = kernel.state.ipc.senders[16].expect("waiter");
    assert_eq!(waiter.tid, ThreadId(5));
    assert_eq!(waiter.msg, msg);
}

#[test]
fn each_refusal_of_a_send_changes_nothing() {
    let mut kernel = boot();
    spawn(&mut kernel, 5, Some(ASID));
    spawn(&mut kernel, 6, Some(Asid(8)));
    run(&mut kernel, 5);
    let good = send_snapshot(5, message(5, 0, None, b"x"));

    let mut snap = good;
    snap.cpu = CpuId(1);
    let outcome = kernel.commit_blocking_send_split(&snap);
    assert_eq!(
        outcome,
        BlockingSendCommitOutcome::RefusedCpuMismatch { requested: CpuId(1), authoritative: CPU0 }
    );
    assert_eq!(outcome.immediate_error(), Some(KernelError::WouldBlock));
    assert_eq!(outcome.slug(), "refused_cpu_mismatch");

    let mut snap = good;
    snap.sender_tid = 6;
    let outcome = kernel.commit_blocking_send_split(&snap);
    assert_eq!(
        outcome,
        BlockingSendCommitOutcome::RefusedNotCurrent { expected: 6, observed: Some(5) }
    );
    assert_eq!(outcome.slug(), "refused_not_current");

    let mut snap = good;
    snap.sender_asid = Asid(9);
    let outcome = kernel.commit_blocking_send_split(&snap);
    assert_eq!(outcome, BlockingSendCommitOutcome::RefusedSenderMissing);
    assert_eq!(outcome.immediate_error(), Some(KernelError::TaskMissing));

    let mut snap = good;
    snap.endpoint_idx = 3;
    let outcome = kernel.commit_blocking_send_split(&snap);
    assert_eq!(outcome, BlockingSendCommitOutcome::RefusedEndpointMissing);
    assert_eq!(outcome.immediate_error(), Some(KernelError::WrongObject));
    snap.endpoint_idx = 100_000;
    assert_eq!(
        kernel.commit_blocking_send_split(&snap),
        BlockingSendCommitOutcome::RefusedEndpointMissing
    );

    let mut snap = good;
    snap.endpoint_generation = 5;
    assert_eq!(
        kernel.commit_blocking_send_split(&snap),
        BlockingSendCommitOutcome::RefusedEndpointGenerationChanged
    );

    edit(&mut kernel, 5, |tcb| tcb.blocked_send_generation = u64::MAX);
    assert_eq!(
        kernel.commit_blocking_send_split(&good),
        BlockingSendCommitOutcome::RefusedGenerationExhausted
    );
    edit(&mut kernel, 5, |tcb| {
        tcb.blocked_send_generation = 0;
        tcb.status = TaskStatus::Blocked(WaitReason::EndpointSend(CapId(1)));
    });
    assert_eq!(
        kernel.commit_blocking_send_split(&good),
        BlockingSendCommitOutcome::RefusedAlreadyBlocked
    );
    edit(&mut kernel, 5, |tcb| tcb.status = TaskStatus::Running);

    let waiting = |tid: u64| {
        Some(SenderWaiter {
            tid: ThreadId(tid),
            asid: None,
            send_generation: 1,
            msg: message(tid, 0, None, &[]),
        })
    };
    kernel.with_ipc_split_mut(|ipc| ipc.senders[20] = waiting(5));
    assert_eq!(
        kernel.commit_blocking_send_split(&good),
        BlockingSendCommitOutcome::RefusedDuplicateWaiter
    );
    kernel.with_ipc_split_mut(|ipc| {
        for (i, tid) in (16..24).zip(50..) {
            ipc.senders[i] = waiting(tid);
        }
    });
    let outcome = kernel.commit_blocking_send_split(&good);
    assert_eq!(outcome, BlockingSendCommitOutcome::RefusedWaiterQueueFull);
    assert_eq!(outcome.immediate_error(), Some(KernelError::EndpointQueueFull));

    assert_eq!(tcb_of(&kernel, 5).status, TaskStatus::Running);
    assert_eq!(kernel.current_tid_authoritative(CPU0), Some(5));
}

#[test]
fn a_receive_is_first_in_first_out_and_is_refilled() {
    let mut kernel = boot();
    spawn(&mut kernel, 5, Some(ASID));
    run(&mut kernel, 5);
    let third = message(5, 0, None, b"third");
    assert!(matches!(
        kernel.commit_blocking_send_split(&send_snapshot(5, third)),
        BlockingSendCommitOutcome::Committed { .. }
    ));
    let first = message(8, 0, None, b"first");
    let second = message(9, 0, None, b"second");
    post(&mut kernel, first);
    post(&mut kernel, second);
    let woken = SenderWakeTarget { tid: ThreadId(5), asid: Some(ASID), send_generation: 1 };
    assert_eq!(
        kernel.ipc_try_recv_queued_plain_endpoint_only_split(2),
        QueuedRecv::Delivered { msg: first, wake: Some(woken) }
    );
    assert_eq!(kernel.apply_split_sender_wake_plan_split(CPU0, woken), Ok(()));
    let tcb = tcb_of(&kernel, 5);
    assert_eq!(tcb.status, TaskStatus::Runnable);
    assert_eq!(tcb.ipc_timeout_deadline, None);
    let completion = tcb.pending_syscall_completion.expect("completion");
    assert_eq!(completion.result, SEND_COMPLETION_OK);
    assert_eq!(completion.syscall_class, BlockedSyscallClass::IpcSend);
    assert_eq!(completion.blocked_generation, 1);
    assert_eq!(
        kernel.ipc_try_recv_queued_plain_endpoint_only_split(2),
        QueuedRecv::Delivered { msg: second, wake: None }
    );
    assert_eq!(
        kernel.ipc_try_recv_queued_plain_endpoint_only_split(2),
        QueuedRecv::Delivered { msg: third, wake: None }
    );
    assert_eq!(
        kernel.ipc_try_recv_queued_plain_endpoint_only_split(2),
        QueuedRecv::Empty
    );
    assert_eq!(
        kernel.ipc_try_recv_queued_plain_endpoint_only_split(77_777),
        QueuedRecv::Empty
    );
}

#[test]
fn a_stale_send_gets_no_result() {
    let mut kernel = boot();
    spawn(&mut kernel, 5, Some(ASID));
    run(&mut kernel, 5);
    let msg = message(5, 0, None, b"x");
    kernel.commit_blocking_send_split(&send_snapshot(5, msg));
    for stale in [
        SenderWakeTarget { tid: ThreadId(5), asid: Some(ASID), send_generation: 2 },
        SenderWakeTarget { tid: ThreadId(5), asid: Some(Asid(9)), send_generation: 1 },
        SenderWakeTarget { tid: ThreadId(5), asid: None, send_generation: 1 },
    ] {
        assert!(!kernel.publish_blocking_send_completion_split(stale, 3));
    }
    assert_eq!(tcb_of(&kernel, 5).pending_syscall_completion, None);
}

#[test]
fn a_plain_receive_declines_capabilities() {
    let mut kernel = boot();
    let msg = message(8, 0, Some(44), b"cap");
    post(&mut kernel, msg);
    assert_eq!(
        kernel.ipc_try_recv_queued_plain_endpoint_only_split(2),
        QueuedRecv::Declined
    );
    assert_eq!(
        kernel.ipc_try_recv_queued_with_cap_transfer_split(2),
        QueuedRecv::Delivered { msg, wake: None }
    );
}

#[test]
fn receives_are_planned_by_task_and_metadata() {
    assert_eq!(plan_recv_core(true, 0, 0), RecvPlan::KernelPlainEligible);
    assert_eq!(plan_recv_core(false, 0, 0), RecvPlan::UserPlainEligible);
    assert_eq!(plan_recv_core(false, 0x1000, 40), RecvPlan::UserPlainV2Eligible);
    assert_eq!(plan_recv_core(false, 0x1000, 39), RecvPlan::FallbackRequired);
    assert_eq!(plan_recv_core(true, 0x1000, 40), RecvPlan::FallbackRequired);
}

#[test]
fn endpoint_capabilities_resolve_or_say_why_not() {
    let mut kernel = boot();
    spawn(&mut kernel, 5, Some(ASID));
    let both = grant(&mut kernel, 5, ENDPOINT, RIGHT_SEND | RIGHT_RECEIVE);
    let send_only = grant(&mut kernel, 5, ENDPOINT, RIGHT_SEND);
    let other = grant(&mut kernel, 5, CapObject::MemoryObject { id: 3 }, RIGHT_RECEIVE);
    let snapshot = kernel.resolve_endpoint_recv_cap_split_read(5, both).expect("resolve");
    assert_eq!(snapshot.endpoint, ENDPOINT);
    assert_eq!(snapshot.endpoint_index(), Some(2));
    assert_eq!(snapshot.requester_tid, 5);
    assert_eq!(snapshot.requester_pid, 5);
    assert_eq!(
        kernel.resolve_endpoint_recv_cap_split_read(5, send_only),
        Err(KernelError::MissingRight)
    );
    assert_eq!(kernel.resolve_endpoint_send_cap_split_read(5, send_only), Ok(ENDPOINT));
    assert_eq!(
        kernel.resolve_endpoint_recv_cap_split_read(5, other),
        Err(KernelError::WrongObject)
    );
    assert_eq!(
        kernel.resolve_endpoint_recv_cap_split_read(5, CapId(99)),
        Err(KernelError::InvalidCapability)
    );
    assert_eq!(
        kernel.resolve_endpoint_recv_cap_split_read(77, both),
        Err(KernelError::InvalidCapability)
    );
    assert_eq!(kernel.resolve_endpoint_index_split(ENDPOINT), Ok(2));
    assert_eq!(
        kernel.resolve_endpoint_index_split(CapObject::Endpoint { index: 2, generation: 3 }),
        Err(KernelError::StaleCapability)
    );
    assert_eq!(
        kernel.resolve_endpoint_index_split(CapObject::Endpoint { index: 3, generation: 0 }),
        Err(KernelError::WrongObject)
    );
}

#[test]
fn a_kernel_task_receives_in_registers() {
    let mut kernel = boot();
    spawn(&mut kernel, 5, None);
    let cap = grant(&mut kernel, 5, ENDPOINT, RIGHT_RECEIVE);
    run(&mut kernel, 5);
    post(&mut kernel, message(8, 0, None, &[1, 2, 3, 4, 5, 6, 7, 8, 9]));
    let mut frame = TrapFrame::new(0, [cap.0, 0, 0, 0, 0, 0]);
    assert_eq!(
        kernel.try_split_ipc_recv_queued_plain_into_frame(CPU0, &mut frame),
        Some(Ok(()))
    );
    assert_eq!(frame.ret0, 8);
    assert_eq!(frame.ret1, 9);
    assert_eq!(frame.ret2, NO_TRANSFER_CAP);
    assert_eq!(frame.args[3], 0x0807_0605_0403_0201);
    assert_eq!(frame.args[4], 9);
    assert_eq!(kernel.state.ipc.telemetry.queued_recvs, 1);
    assert_eq!(
        kernel.try_split_ipc_recv_queued_plain_into_frame(CPU0, &mut frame),
        None,
        "metadata that a kernel task cannot have leaves the receive to the general path"
    );
    let mut empty = TrapFrame::new(0, [cap.0, 0, 0, 0, 0, 0]);
    assert_eq!(
        kernel.try_split_ipc_recv_queued_plain_into_frame(CPU0, &mut empty),
        None
    );
    assert_eq!(
        kernel.try_split_ipc_recv_queued_plain_into_frame(CpuId(4), &mut empty),
        None
    );
}

#[test]
fn a_user_task_receives_in_its_memory() {
    let mut kernel = boot();
    spawn(&mut kernel, 5, Some(ASID));
    let cap = grant(&mut kernel, 5, ENDPOINT, RIGHT_RECEIVE);
    map(&mut kernel, 0x4000, 0x9000);
    map(&mut kernel, 0x5000, 0xB000);
    run(&mut kernel, 5);
    post(&mut kernel, message(8, 0, None, b"payload"));
    let mut frame = TrapFrame::new(0, [cap.0, 0x4FFE, 16, 0, 0, 0]);
    assert_eq!(
        kernel.try_split_ipc_recv_queued_plain_into_frame(CPU0, &mut frame),
        Some(Ok(()))
    );
    assert_eq!((frame.ret0, frame.ret1, frame.error), (8, 7, 0));
    assert_eq!(user_bytes(&kernel, 0x4FFE, 7), b"payload".to_vec());
    assert_eq!(kernel.state.mem.read_byte(0x9FFE), b'p');
    assert_eq!(kernel.state.mem.read_byte(0xB000), b'y');
}

#[test]
fn a_small_buffer_or_an_unmapped_one_fails_the_copy() {
    let mut kernel = boot();
    spawn(&mut kernel, 5, Some(ASID));
    let cap = grant(&mut kernel, 5, ENDPOINT, RIGHT_RECEIVE);
    run(&mut kernel, 5);
    post(&mut kernel, message(8, 0, None, b"payload"));
    post(&mut kernel, message(8, 0, None, b"payload"));
    let mut frame = TrapFrame::new(0, [cap.0, 0x4000, 6, 0, 0, 0]);
    assert_eq!(
        kernel.try_split_ipc_recv_queued_plain_into_frame(CPU0, &mut frame),
        Some(Err(TrapHandleError::Syscall(SyscallError::InvalidArgs)))
    );
    let mut frame = TrapFrame::new(0, [cap.0, 0x4000, 7, 0, 0, 0]);
    assert_eq!(
        kernel.try_split_ipc_recv_queued_plain_into_frame(CPU0, &mut frame),
        Some(Ok(()))
    );
    assert_eq!(frame.error, SyscallError::PageFault.code());
    let fault = kernel.last_fault_split_read().expect("fault");
    assert_eq!(fault.addr, VirtAddr(0x4000));
    assert_eq!(fault.access, FaultAccess::Write);
}

#[test]
fn a_capability_arrives_with_its_message() {
    let mut kernel = boot();
    spawn(&mut kernel, 5, Some(ASID));
    spawn(&mut kernel, 8, Some(Asid(4)));
    kernel.with_memory_split_mut(|mem| {
        mem.memory_objects[0] = Some(MemoryObject {
            id: 30,
            phys: PhysAddr(0xC000),
            len: 4096,
            cap_refcount: 0,
            map_refcount: 0,
            pin_refcount: 0,
        })
    });
    let object = CapObject::MemoryObject { id: 30 };
    let source = grant(&mut kernel, 8, object, RIGHT_MAP);
    let recv_cap = grant(&mut kernel, 5, ENDPOINT, RIGHT_RECEIVE);
    map(&mut kernel, 0x4000, 0x9000);
    run(&mut kernel, 5);
    let handle = stash(&mut kernel, object, 8, source);
    assert_eq!(
        kernel.peek_transfer_envelope_source_object_split(handle),
        Some(object)
    );
    post(&mut kernel, message(8, 0, Some(handle), b"look"));
    let mut frame = TrapFrame::new(0, [recv_cap.0, 0x4000, 16, 0x4100, 40, 0]);
    assert_eq!(
        kernel.try_split_ipc_recv_queued_plain_into_frame(CPU0, &mut frame),
        Some(Ok(()))
    );
    let cap = CapId(frame.ret2);
    let copy = kernel.resolve_capability_for_task_split(5, cap).expect("copied");
    assert_eq!(copy, Capability { object, rights: CapRights(RIGHT_MAP) });
    assert_eq!(user_bytes(&kernel, 0x4000, 4), b"look".to_vec());
    let meta = user_bytes(&kernel, 0x4100, 40);
    assert_eq!(&meta[0..8], &[0u8; 8]);
    assert_eq!(&meta[8..16], &[4, 0, 0, 0, 0, 0, 7, 0]);
    assert_eq!(&meta[16..24], &cap.0.to_le_bytes());
    assert_eq!(&meta[24..32], &RECV_META_TRANSFERRED_CAP.to_le_bytes());
    assert_eq!(&meta[32..40], &8u64.to_le_bytes());
    let link = kernel.state.caps.links[0];
    assert_eq!((link.source_tid, link.source_cap), (8, source));
    assert_eq!((link.dest_tid, link.dest_cap), (5, cap));
    let object = kernel.state.mem.memory_objects[0].expect("object");
    assert_eq!(object.cap_refcount, 2);
    assert_eq!(kernel.peek_transfer_envelope_source_object_split(handle), None);
}

#[test]
fn an_undelivered_capability_is_taken_back() {
    let mut kernel = boot();
    spawn(&mut kernel, 5, Some(ASID));
    spawn(&mut kernel, 8, Some(Asid(4)));
    let object = CapObject::Notification { index: 1, generation: 0 };
    let source = grant(&mut kernel, 8, object, RIGHT_SEND);
    let recv_cap = grant(&mut kernel, 5, ENDPOINT, RIGHT_RECEIVE);
    run(&mut kernel, 5);
    let handle = stash(&mut kernel, object, 8, source);
    post(&mut kernel, message(8, 0, Some(handle), b"payload"));
    let mut frame = TrapFrame::new(0, [recv_cap.0, 0x4000, 2, 0, 0, 0]);
    assert_eq!(
        kernel.try_split_ipc_recv_queued_plain_into_frame(CPU0, &mut frame),
        Some(Err(TrapHandleError::Syscall(SyscallError::InvalidArgs)))
    );
    assert_eq!(frame.ret2, NO_TRANSFER_CAP);
    assert_eq!(kernel.state.caps.entries.len(), 2);
    assert!(kernel.state.caps.links.is_empty());
}

#[test]
fn a_message_that_is_not_served_stays_queued() {
    let mut kernel = boot();
    spawn(&mut kernel, 5, Some(ASID));
    let cap = grant(&mut kernel, 5, ENDPOINT, RIGHT_RECEIVE);
    run(&mut kernel, 5);
    let region = Message::with_header(8, OPCODE_SHARED_MEM, 0, Some(CapId(7)), &[]).expect("msg");
    post(&mut kernel, region);
    let mut frame = TrapFrame::new(0, [cap.0, 0x4000, 16, 0, 0, 0]);
    let before = frame.clone();
    assert_eq!(
        kernel.try_split_ipc_recv_queued_plain_into_frame(CPU0, &mut frame),
        None
    );
    assert_eq!(frame, before);
    assert_eq!(kernel.state.ipc.queue.len(), 1);
}

#[test]
fn an_envelope_is_taken_once_and_only_where_it_belongs() {
    let mut kernel = boot();
    let object = CapObject::MemoryObject { id: 30 };
    kernel.with_memory_split_mut(|mem| {
        mem.memory_objects[0] = Some(MemoryObject {
            id: 30,
            phys: PhysAddr(0xC000),
            len: 4096,
            cap_refcount: 1,
            map_refcount: 0,
            pin_refcount: 1,
        })
    });
    let handle = stash(&mut kernel, object, 8, CapId(2));
    kernel.with_ipc_split_mut(|ipc| {
        let envelope = ipc.envelopes[1].envelope.as_mut().expect("stashed");
        envelope.receiver_tid = Some(ThreadId(5));
        envelope.shared_region = Some(SharedRegion { offset: 0, len: 4096 });
    });
    assert_eq!(kernel.take_transfer_envelope_facts_split(handle, 3, ThreadId(5)), None);
    assert_eq!(kernel.take_transfer_envelope_facts_split(handle, 2, ThreadId(6)), None);
    assert_eq!(
        kernel.take_transfer_envelope_facts_split(handle + (1 << 16), 2, ThreadId(5)),
        None
    );
    assert!(kernel.settle_blocked_send_envelope_split(handle, 2, ThreadId(5)));
    assert!(!kernel.settle_blocked_send_envelope_split(handle, 2, ThreadId(5)));
    let object = kernel.state.mem.memory_objects[0].expect("object");
    assert_eq!(object.pin_refcount, 0);
    assert_eq!(kernel.state.ipc.telemetry.transfer_records_materialized, 1);
}

#[test]
fn register_plans_hold_what_a_kernel_task_gets() {
    let mut kernel = boot();
    spawn(&mut kernel, 5, None);
    let cap = grant(&mut kernel, 5, ENDPOINT, RIGHT_RECEIVE);
    let snapshot = kernel.resolve_endpoint_recv_cap_split_read(5, cap).expect("resolve");
    let plan = IpcRecvQueuedPlainWritebackPlan::for_kernel_task(&snapshot, 8, b"hi").expect("plan");
    assert_eq!(plan.payload(), b"hi");
    assert_eq!(plan.payload_len(), 2);
    assert_eq!(plan.sender_tid(), 8);
    assert!(plan.is_kernel_task());
    assert_eq!((plan.user_payload_ptr(), plan.user_payload_len()), (0, 0));
    assert_eq!(plan.ret_cap(), NO_TRANSFER_CAP);
    assert_eq!(plan.endpoint(), ENDPOINT);
    assert!(
        IpcRecvQueuedPlainWritebackPlan::for_kernel_task(&snapshot, 8, &[0u8; 129]).is_none()
    );
}
