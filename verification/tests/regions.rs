//! Shared regions and deliveries to blocked receivers.
use yarm_runtime::capability::{CapObject, CapRights, Capability, RIGHT_MAP, RIGHT_SEND};
use yarm_runtime::deferred::{
    BlockingSendCommitSnapshot, DispatchPostWork, EnvelopeCleanup, OrdinaryCapDelivery,
    PlainDelivery, ReplyCapDelivery, SharedRegionSnapshot, WaiterDelivery,
};
use yarm_runtime::ids::{
    Asid, CNodeId, CapId, CpuId, KernelError, PhysAddr, SchedulerError, SyscallError, ThreadId,
    TrapHandleError, VirtAddr,
};
use yarm_runtime::ipc::{
    ActiveMapping, CancelRequest, EndpointMode, EndpointSlot, EndpointWaiterRecord, EnvelopeSlot,
    Message, ReceiverWaiterIdentity, TransferEnvelope, TransferState, MAX_ACTIVE_MAPPINGS,
};
use yarm_runtime::kernel::Bootstrap;
use yarm_runtime::memory::MemoryObject;
use yarm_runtime::runtime::delivery::DispatchPostWorkDisposition;
use yarm_runtime::runtime::shared_region::{
    ReceiverCommit, ReceiverEnqueue, SharedRegionError, SharedRegionPublish, WaiterClaim,
};
use yarm_runtime::runtime::SharedKernel;
use yarm_runtime::scheduler::WithdrawOutcome;
use yarm_runtime::task::{TaskStatus, ThreadControlBlock, WaitReason};
use yarm_runtime::trap::{RecvMeta, TrapFrame};
use yarm_runtime::vm::{Mapping, PageFlags};

const CPU0: CpuId = CpuId(0);
const ASID: Asid = Asid(3);
const ENDPOINT: CapObject = CapObject::Endpoint { index: 2, generation: 4 };
const REGION: CapObject = CapObject::MemoryObject { id: 30 };
const RECEIVER: ReceiverWaiterIdentity =
    ReceiverWaiterIdentity { tid: ThreadId(5), asid: ASID };

fn edit<F: FnOnce(&mut ThreadControlBlock)>(kernel: &mut SharedKernel, tid: u64, f: F) {
    kernel.with_task_tcbs_split_mut(|tcbs| {
        f(tcbs
            .iter_mut()
            .flatten()
            .find(|tcb| tcb.tid.0 == tid)
            .expect("control block"))
    });
}

fn status(kernel: &SharedKernel, tid: u64) -> TaskStatus {
    kernel.state.tasks.get(tid).expect("control block").status
}

/// A kernel in which task 5 is blocked in a receive, with one page for what it gets, and a
/// pinned region of two pages exists.
fn boot() -> SharedKernel {
    let mut kernel = SharedKernel::new(Bootstrap::init().expect("init"));
    kernel.with(|state| state.register_task(5).expect("task"));
    edit(&mut kernel, 5, |tcb| {
        tcb.asid = Some(ASID);
        tcb.status = TaskStatus::Blocked(WaitReason::EndpointReceive(CapId(1)));
        tcb.user_context.ret0 = 99;
    });
    kernel.with_vm_user_spaces_split_mut(|vm| vm.spaces.push(ASID));
    kernel.with_ipc_split_mut(|ipc| {
        ipc.endpoints[2] = EndpointSlot {
            mode: Some(EndpointMode::Buffered),
            generation: 4,
            waiter: Some(EndpointWaiterRecord { receiver: RECEIVER, wait_generation: 6 }),
        }
    });
    let mapping = Mapping { phys: PhysAddr(0x9000), flags: PageFlags::user_rw() };
    kernel
        .map_user_page_in_asid_split(ASID, VirtAddr(0x4000), mapping)
        .expect("map");
    kernel.with_memory_split_mut(|mem| {
        mem.memory_objects[0] = Some(MemoryObject {
            id: 30,
            phys: PhysAddr(0xA0000),
            len: 8192,
            cap_refcount: 1,
            map_refcount: 0,
            pin_refcount: 1,
        })
    });
    kernel
}

fn region() -> SharedRegionSnapshot {
    SharedRegionSnapshot {
        receiver_tid: 5,
        receiver_asid: ASID,
        receiver_cnode: CNodeId(5),
        endpoint: ENDPOINT,
        blocked_endpoint_waiter: true,
        object: REGION,
        rights: CapRights(RIGHT_MAP),
        map_va: 0x80000,
        map_pages: 2,
        writable: true,
        meta_user_ptr: 0x4100,
        opcode: 7,
        sender_tid: 8,
    }
}

fn delivery(msg: Message) -> WaiterDelivery {
    WaiterDelivery {
        waiter_tid: 5,
        waiter_asid: ASID,
        payload_user_ptr: 0x4000,
        meta_user_ptr: 0x4100,
        endpoint_idx: 2,
        wake_tid: Some(ThreadId(5)),
        msg,
    }
}

fn message(payload: &[u8]) -> Message {
    Message::with_header(8, 7, 0, None, payload).expect("message")
}

fn refcounts(kernel: &SharedKernel) -> (u64, u64, u64) {
    let object = kernel.state.mem.object(30).expect("object").1;
    (object.cap_refcount, object.map_refcount, object.pin_refcount)
}

fn mapped(kernel: &SharedKernel, va: u64) -> Option<Mapping> {
    kernel.state.vm.resolve(ASID, VirtAddr(va))
}

/// Nothing of a failed delivery is left but that the pin is released.
fn assert_undone(kernel: &SharedKernel) {
    assert_eq!(refcounts(kernel), (1, 0, 0));
    assert!(kernel.state.caps.entries.is_empty());
    assert!(kernel.state.ipc.active_mappings.is_empty());
    assert_eq!(mapped(kernel, 0x80000), None);
    assert_eq!(mapped(kernel, 0x81000), None);
}

fn stash(kernel: &mut SharedKernel, work: DispatchPostWork) {
    kernel.state.pending.stash[0] = Some(work);
}

#[test]
fn a_region_is_delivered_whole() {
    let mut kernel = boot();
    let published = kernel.run_shared_region_txn(&region(), &[]).expect("delivered");
    assert_eq!(published, SharedRegionPublish { cap: CapId(1), woke_receiver: true });
    assert_eq!(
        kernel.resolve_capability_for_task_split(5, published.cap),
        Ok(Capability { object: REGION, rights: CapRights(RIGHT_MAP) })
    );
    let flags = PageFlags { user: true, read: true, write: true, execute: false };
    assert_eq!(
        mapped(&kernel, 0x81000),
        Some(Mapping { phys: PhysAddr(0xA1000), flags })
    );
    assert_eq!(refcounts(&kernel), (2, 2, 0));
    assert_eq!(
        kernel.state.ipc.active_mappings,
        vec![ActiveMapping {
            tid: ThreadId(5),
            cap: published.cap,
            va: VirtAddr(0x80000),
            len: 8192
        }]
    );
    let meta = kernel.copy_from_user_asid_split_read(3, 0x4100, 40).expect("meta");
    assert_eq!(&meta[16..24], &1u64.to_le_bytes());
    assert_eq!(&meta[32..40], &8u64.to_le_bytes());
    assert_eq!(status(&kernel, 5), TaskStatus::Runnable);
    assert_eq!(kernel.state.ipc.waiter_at(2), None);
    assert!(kernel.receiver_has_scheduler_membership_split_read(5));
    assert_eq!(
        kernel.state.tasks.get(5).expect("control block").user_context.ret0,
        0,
        "return lanes are cleared"
    );
}

#[test]
fn each_failure_of_a_region_delivery_is_undone() {
    let mut kernel = boot();
    kernel.with_ipc_split_mut(|ipc| ipc.cancels.push(CancelRequest { tid: 5, asid: ASID }));
    assert_eq!(kernel.run_shared_region_txn(&region(), &[]), Err(SharedRegionError::Cancelled));
    assert_undone(&kernel);
    assert!(kernel.state.ipc.cancels.is_empty());

    let mut kernel = boot();
    kernel.with_ipc_split_mut(|ipc| ipc.cancel_overflow = true);
    assert!(kernel.sr_cancel_overflowed_split());
    assert_eq!(kernel.run_shared_region_txn(&region(), &[]), Err(SharedRegionError::Cancelled));
    assert_undone(&kernel);

    let mut kernel = boot();
    edit(&mut kernel, 5, |tcb| tcb.asid = Some(Asid(8)));
    assert_eq!(
        kernel.run_shared_region_txn(&region(), &[]),
        Err(SharedRegionError::ReceiverGone)
    );
    assert_undone(&kernel);

    let mut kernel = boot();
    let mut snap = region();
    snap.object = CapObject::Notification { index: 1, generation: 9 };
    assert_eq!(kernel.run_shared_region_txn(&snap, &[]), Err(SharedRegionError::ObjectGone));

    let mut kernel = boot();
    let mut snap = region();
    snap.receiver_cnode = CNodeId(77);
    assert_eq!(kernel.run_shared_region_txn(&snap, &[]), Err(SharedRegionError::NoCapability));
    assert_undone(&kernel);

    let mut kernel = boot();
    let mut snap = region();
    snap.map_va = 0x80010;
    assert_eq!(kernel.run_shared_region_txn(&snap, &[]), Err(SharedRegionError::MapFailed));
    assert_undone(&kernel);

    let mut kernel = boot();
    let mut snap = region();
    snap.meta_user_ptr = 0x7000;
    assert_eq!(kernel.run_shared_region_txn(&snap, &[]), Err(SharedRegionError::CopyFailed));
    assert_undone(&kernel);

    let mut kernel = boot();
    let mut snap = region();
    snap.endpoint = CapObject::Endpoint { index: 2, generation: 5 };
    assert_eq!(kernel.run_shared_region_txn(&snap, &[]), Err(SharedRegionError::Stale));
    assert_undone(&kernel);
    assert_eq!(
        status(&kernel, 5),
        TaskStatus::Blocked(WaitReason::EndpointReceive(CapId(1)))
    );
}

#[test]
fn a_full_mapping_table_stops_a_region() {
    let mut kernel = boot();
    for cap in 0..MAX_ACTIVE_MAPPINGS as u64 {
        assert!(kernel.sr_register_active_mapping_split(9, CapId(cap), 0x1000, 4096));
    }
    assert!(!kernel.sr_register_active_mapping_split(9, CapId(400), 0x1000, 4096));
    assert_eq!(
        kernel.run_shared_region_txn(&region(), &[]),
        Err(SharedRegionError::NoMappingSlot)
    );
    assert_eq!(refcounts(&kernel), (1, 0, 0));
    assert!(kernel.sr_update_mapped_prefix_split(9, CapId(3), 8192));
    assert!(!kernel.sr_update_mapped_prefix_split(9, CapId(300), 8192));
    assert_eq!(kernel.state.ipc.active_mappings[3].len, 8192);
    assert!(kernel.sr_remove_active_mapping_split(9, CapId(3)));
    assert!(!kernel.sr_remove_active_mapping_split(9, CapId(3)));
}

#[test]
fn a_receiver_that_cannot_be_placed_waits_again() {
    let mut kernel = boot();
    edit(&mut kernel, 5, |tcb| tcb.cpu_affinity = Some(CpuId(6)));
    assert_eq!(kernel.run_shared_region_txn(&region(), &[]), Err(SharedRegionError::Stale));
    assert_undone(&kernel);
    assert_eq!(
        status(&kernel, 5),
        TaskStatus::Blocked(WaitReason::EndpointReceive(CapId(1)))
    );
    assert_eq!(
        kernel.state.ipc.waiter_at(2),
        Some(EndpointWaiterRecord { receiver: RECEIVER, wait_generation: 6 })
    );
}

#[test]
fn a_claim_is_restored_only_into_a_vacant_place() {
    let mut kernel = boot();
    assert!(kernel.sr_prevalidate_blocked_receiver_split(5, ASID));
    assert!(!kernel.sr_prevalidate_blocked_receiver_split(5, Asid(9)));
    assert!(kernel.endpoint_waiter_is_split_read(2, 4, RECEIVER));
    assert_eq!(kernel.endpoint_mode_split_read(2, 4), Some(EndpointMode::Buffered));
    assert_eq!(kernel.endpoint_mode_split_read(2, 5), None);
    assert_eq!(kernel.sr_claim_endpoint_waiter_split(2, 5, RECEIVER), None);
    let claim = kernel.sr_claim_endpoint_waiter_split(2, 4, RECEIVER).expect("claim");
    assert_eq!(
        claim,
        WaiterClaim { eidx: 2, generation: 4, receiver: RECEIVER, wait_generation: 6 }
    );
    assert_eq!(kernel.sr_claim_endpoint_waiter_split(2, 4, RECEIVER), None);
    assert!(kernel.sr_restore_endpoint_waiter_split(&claim));
    assert!(kernel.endpoint_waiter_is_split_read(2, 4, RECEIVER));
    assert!(!kernel.sr_restore_endpoint_waiter_split(&claim), "the place is taken");
}

#[test]
fn a_commit_can_be_taken_back() {
    let mut kernel = boot();
    assert_eq!(kernel.blocked_recv_cap_split_read(5, ASID), Some(CapId(1)));
    assert_eq!(
        kernel.sr_commit_blocked_receiver_split(5, Asid(9)),
        ReceiverCommit::Replaced
    );
    assert_eq!(
        kernel.sr_commit_blocked_receiver_split(99, ASID),
        ReceiverCommit::GoneDead
    );
    assert_eq!(
        kernel.sr_commit_blocked_receiver_split(5, ASID),
        ReceiverCommit::Committed(None)
    );
    assert_eq!(status(&kernel, 5), TaskStatus::Runnable);
    assert_eq!(kernel.blocked_recv_cap_split_read(5, ASID), None);
    assert!(!kernel.sr_uncommit_blocked_receiver_split(5, Asid(9), CapId(1)));
    assert!(kernel.sr_uncommit_blocked_receiver_split(5, ASID, CapId(1)));
    assert_eq!(kernel.blocked_recv_cap_split_read(5, ASID), Some(CapId(1)));
    edit(&mut kernel, 5, |tcb| tcb.status = TaskStatus::Dead);
    assert_eq!(
        kernel.sr_commit_blocked_receiver_split(5, ASID),
        ReceiverCommit::GoneDead
    );
}

#[test]
fn placing_a_receiver_says_where_or_why_not() {
    let mut kernel = boot();
    let placed = kernel.sr_enqueue_committed_receiver_split(5, None);
    assert_eq!(placed, ReceiverEnqueue::Enqueued { cpu: CPU0 });
    assert_eq!(placed.enqueued_cpu(), Some(CPU0));
    assert!(!placed.receiver_is_unplaced());
    let again = kernel.sr_enqueue_committed_receiver_split(5, None);
    assert_eq!(
        again,
        ReceiverEnqueue::Rejected {
            cpu: CPU0,
            error: SchedulerError::AlreadyQueued,
            reconciled: None
        }
    );
    assert!(!again.receiver_is_unplaced());
    assert!(!again.rejection_is_runtime_recoverable());
    let withdrawn = kernel.sr_enqueue_committed_receiver_reconciled_split(5, None);
    assert_eq!(
        withdrawn,
        ReceiverEnqueue::Rejected {
            cpu: CPU0,
            error: SchedulerError::AlreadyQueued,
            reconciled: Some(WithdrawOutcome::Removed)
        }
    );
    assert!(withdrawn.receiver_is_unplaced());
    assert!(!kernel.receiver_has_scheduler_membership_split_read(5));
    let offline = kernel.sr_enqueue_committed_receiver_split(5, Some(CpuId(6)));
    assert_eq!(offline.enqueued_cpu(), None);
    assert!(offline.receiver_is_unplaced());
    assert!(offline.rejection_is_runtime_recoverable());
}

#[test]
fn region_parts_work_one_by_one() {
    let mut kernel = boot();
    assert_eq!(kernel.sr_phys_base_split(REGION), Some(PhysAddr(0xA0000)));
    assert_eq!(kernel.sr_phys_base_split(ENDPOINT), None);
    assert!(kernel.sr_object_live_split(ENDPOINT));
    assert!(!kernel.sr_object_live_split(CapObject::Endpoint { index: 2, generation: 9 }));
    assert!(kernel.sr_receiver_alive_split(5, ASID));
    assert!(!kernel.sr_receiver_alive_split(5, Asid(9)));
    assert!(!kernel.sr_consume_cancel_split(5, ASID));
    let cap = kernel
        .sr_mint_split(
            CNodeId(5),
            Capability { object: REGION, rights: CapRights(RIGHT_MAP) },
        )
        .expect("mint");
    assert_eq!(refcounts(&kernel).0, 2);
    kernel.sr_revoke_split(CNodeId(5), cap, REGION);
    assert_eq!(refcounts(&kernel).0, 1);
    assert!(kernel.sr_wake_receiver_split(5));
    assert!(!kernel.sr_wake_receiver_split(99));
    assert_eq!(status(&kernel, 5), TaskStatus::Runnable);
}

#[test]
fn left_work_is_done_once() {
    let mut kernel = boot();
    let meta = RecvMeta {
        status: 0,
        opcode: 7,
        payload_len: 5,
        cap: u64::MAX,
        flags: 0,
        sender_tid: 8,
    };
    stash(
        &mut kernel,
        DispatchPostWork::BlockedWaiterPlainDelivery(PlainDelivery {
            to: delivery(message(b"hello")),
            meta,
        }),
    );
    assert_eq!(
        kernel.drain_dispatch_post_work(CPU0, None, &[]),
        Ok(DispatchPostWorkDisposition::NoCallerAction)
    );
    let bytes = kernel.copy_from_user_asid_split_read(3, 0x4000, 5).expect("payload");
    assert_eq!(&bytes[..5], b"hello");
    assert_eq!(status(&kernel, 5), TaskStatus::Runnable);
    assert_eq!(kernel.state.ipc.waiter_at(2), None);
    assert_eq!(kernel.state.pending.stash[0], None);
    assert_eq!(
        kernel.drain_dispatch_post_work(CPU0, None, &[]),
        Ok(DispatchPostWorkDisposition::NoCallerAction)
    );
}

#[test]
fn a_delivery_that_faults_wakes_nobody() {
    let mut kernel = boot();
    let mut to = delivery(message(b"hello"));
    to.meta_user_ptr = 0x7000;
    let snap = OrdinaryCapDelivery {
        to,
        receiver_cnode: CNodeId(5),
        object: REGION,
        rights: CapRights(RIGHT_MAP),
        source_tid: 8,
        source_cap: CapId(2),
    };
    assert_eq!(
        kernel.execute_blocked_waiter_ordinary_cap_delivery(CPU0, snap),
        Err(TrapHandleError::Syscall(SyscallError::InvalidArgs))
    );
    assert!(kernel.state.caps.entries.is_empty());
    assert!(kernel.state.caps.links.is_empty());
    assert_eq!(refcounts(&kernel).0, 1);
    assert_eq!(
        status(&kernel, 5),
        TaskStatus::Blocked(WaitReason::EndpointReceive(CapId(1)))
    );

    let snap = OrdinaryCapDelivery { to: delivery(message(b"hello")), ..snap };
    assert_eq!(kernel.execute_blocked_waiter_ordinary_cap_delivery(CPU0, snap), Ok(()));
    assert_eq!(
        kernel.resolve_capability_for_task_split(5, CapId(1)),
        Ok(Capability { object: REGION, rights: CapRights(RIGHT_MAP) })
    );
    assert_eq!(status(&kernel, 5), TaskStatus::Runnable);
}

#[test]
fn a_reply_is_delivered_to_a_blocked_receiver() {
    let mut kernel = boot();
    let caller = ReceiverWaiterIdentity { tid: ThreadId(8), asid: Asid(4) };
    let (index, generation) = kernel
        .reserve_direct_reply_record_split(caller, RECEIVER, ENDPOINT)
        .expect("reserve");
    let stale = ReplyCapDelivery {
        to: delivery(message(b"call")),
        receiver_cnode: CNodeId(5),
        reply_index: index,
        reply_generation: generation + 1,
    };
    assert_eq!(
        kernel.execute_blocked_waiter_reply_cap_delivery(CPU0, stale),
        Err(TrapHandleError::Syscall(SyscallError::WrongObject))
    );
    assert!(kernel.state.caps.entries.is_empty());
    let good = ReplyCapDelivery { reply_generation: generation, ..stale };
    assert_eq!(kernel.execute_blocked_waiter_reply_cap_delivery(CPU0, good), Ok(()));
    assert_eq!(
        kernel.resolve_capability_for_task_split(5, CapId(1)),
        Ok(Capability {
            object: CapObject::Reply { index, generation },
            rights: CapRights(RIGHT_SEND)
        })
    );
    let record = kernel.state.ipc.reply_record(index, generation).expect("record");
    assert_eq!(record.waiter_cap_id, Some(CapId(1)));
    assert_eq!(status(&kernel, 5), TaskStatus::Runnable);
}

#[test]
fn a_region_can_be_left_for_the_way_out() {
    let mut kernel = boot();
    stash(&mut kernel, DispatchPostWork::BlockedWaiterSharedRegionDelivery(region()));
    assert_eq!(
        kernel.drain_dispatch_post_work(CPU0, None, &[]),
        Ok(DispatchPostWorkDisposition::NoCallerAction)
    );
    assert_eq!(refcounts(&kernel), (2, 2, 0));
    assert_eq!(
        kernel.execute_blocked_waiter_shared_region_delivery(CPU0, region(), &[]),
        Err(TrapHandleError::Syscall(SyscallError::InvalidArgs)),
        "the receiver no longer waits"
    );
}

#[test]
fn a_refused_send_gets_its_error_and_its_envelope_back() {
    let mut kernel = boot();
    kernel.with_ipc_split_mut(|ipc| {
        ipc.envelopes[0] = EnvelopeSlot {
            generation: 6,
            envelope: Some(TransferEnvelope {
                endpoint: ENDPOINT,
                source_object: REGION,
                source_tid: ThreadId(0),
                source_cap: CapId(1),
                receiver_tid: None,
                shared_region: None,
                state: TransferState::Stashed,
            }),
        }
    });
    let handle = 6 << 16;
    let snap = BlockingSendCommitSnapshot {
        cpu: CPU0,
        sender_tid: 0,
        sender_asid: Asid(7),
        endpoint_idx: 2,
        endpoint_generation: 4,
        msg: message(b"x"),
        send_cap: CapId(1),
        deadline: None,
        transfer_envelope: Some(EnvelopeCleanup {
            handle,
            endpoint_idx: 2,
            cleanup_tid: ThreadId(0),
        }),
    };
    stash(&mut kernel, DispatchPostWork::BlockingSendCommit(snap));
    let mut frame = TrapFrame::new(0, [0; 6]);
    assert_eq!(
        kernel.drain_dispatch_post_work(CPU0, Some(&mut frame), &[]),
        Ok(DispatchPostWorkDisposition::ImmediateReturn { error: KernelError::TaskMissing })
    );
    assert_eq!(
        frame.error,
        SyscallError::from_kernel(KernelError::TaskMissing).code()
    );
    assert_eq!(kernel.peek_transfer_envelope_source_object_split(handle), None);
}

#[test]
fn a_committed_send_is_left_to_the_next_dispatch() {
    let mut kernel = boot();
    edit(&mut kernel, 0, |tcb| tcb.asid = Some(Asid(7)));
    let snap = BlockingSendCommitSnapshot {
        cpu: CPU0,
        sender_tid: 0,
        sender_asid: Asid(7),
        endpoint_idx: 2,
        endpoint_generation: 4,
        msg: message(b"x"),
        send_cap: CapId(1),
        deadline: None,
        transfer_envelope: None,
    };
    stash(&mut kernel, DispatchPostWork::BlockingSendCommit(snap));
    let mut frame = TrapFrame::new(0, [0; 6]);
    let before = frame.clone();
    assert_eq!(
        kernel.drain_dispatch_post_work(CPU0, Some(&mut frame), &[]),
        Ok(DispatchPostWorkDisposition::SenderCommittedBlocked { tid: 0 })
    );
    assert_eq!(frame, before);
    assert_eq!(kernel.state.pending.send_deferrals[0], Some(0));
    assert_eq!(kernel.current_tid_authoritative(CPU0), None);
}

#[test]
fn errors_have_stable_codes() {
    assert_eq!(
        SyscallError::from_kernel(KernelError::UserMemoryFault),
        SyscallError::PageFault
    );
    assert_eq!(
        SyscallError::from_kernel(KernelError::MissingRight),
        SyscallError::MissingRight
    );
    let codes = [
        SyscallError::InvalidArgs,
        SyscallError::InvalidCapability,
        SyscallError::MissingRight,
        SyscallError::WrongObject,
        SyscallError::WouldBlock,
        SyscallError::QueueFull,
        SyscallError::PageFault,
        SyscallError::Internal,
    ]
    .map(SyscallError::code);
    assert_eq!(codes, [1, 2, 3, 4, 5, 6, 7, 8]);
}
