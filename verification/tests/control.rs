//! Node sizes, the census of acknowledgement leases, and reads for reports.
use yarm_runtime::capability::{CapObject, CapRights, Capability};
use yarm_runtime::deferred::WorkItem;
use yarm_runtime::ids::{Asid, CNodeId, CapId, CpuId, KernelError, ThreadId, VirtAddr};
use yarm_runtime::ipc::{
    EndpointMode, EndpointSlot, EndpointWaiterRecord, ReceiverWaiterIdentity,
};
use yarm_runtime::kernel::Bootstrap;
use yarm_runtime::runtime::census::{AckLease, DirectAckStore, LeaseBijection};
use yarm_runtime::runtime::{
    begin_boot_raw_borrow_window, boot_raw_borrow_is_active, end_boot_raw_borrow_window,
    BootRawBorrowWindow, BootRawKernelBorrowGuard, SharedKernel,
};
use yarm_runtime::task::{
    BlockedRecvState, RecvAbiVariant, TaskClass, TaskStatus, ThreadControlBlock, WaitReason,
};
use yarm_runtime::trap::{FaultAccess, FaultInfo};

fn boot() -> SharedKernel {
    SharedKernel::new(Bootstrap::init().expect("init"))
}

fn edit<F: FnOnce(&mut ThreadControlBlock)>(kernel: &mut SharedKernel, tid: u64, f: F) {
    kernel.with_task_tcbs_split_mut(|tcbs| {
        f(tcbs
            .iter_mut()
            .flatten()
            .find(|tcb| tcb.tid.0 == tid)
            .expect("control block"))
    });
}

/// Two endpoints at which committed receivers wait.
fn with_waiters(kernel: &mut SharedKernel) -> [ReceiverWaiterIdentity; 2] {
    let waiters = [
        ReceiverWaiterIdentity { tid: ThreadId(5), asid: Asid(3) },
        ReceiverWaiterIdentity { tid: ThreadId(6), asid: Asid(4) },
    ];
    for (e, waiter) in waiters.iter().enumerate() {
        kernel.with(|state| state.register_task(waiter.tid.0).expect("task"));
        edit(kernel, waiter.tid.0, |tcb| {
            tcb.asid = Some(waiter.asid);
            tcb.status = TaskStatus::Blocked(WaitReason::EndpointReceive(CapId(1)));
            tcb.blocked_recv_state = Some(BlockedRecvState {
                recv_abi: RecvAbiVariant::RecvV2,
                payload_user_ptr: 0x4000,
                payload_user_len: 64,
                meta_user_ptr: 0x5000,
            });
        });
        kernel.with_ipc_split_mut(|ipc| {
            ipc.endpoints[e] = EndpointSlot {
                mode: Some(EndpointMode::Synchronous),
                generation: 7,
                waiter: Some(EndpointWaiterRecord { receiver: *waiter, wait_generation: 1 }),
            }
        });
    }
    waiters
}

fn lease(endpoint_index: usize, waiter: ReceiverWaiterIdentity) -> AckLease {
    AckLease { endpoint_index, endpoint_generation: 7, waiter }
}

#[test]
fn a_census_of_matching_leases_holds() {
    let mut kernel = boot();
    let waiters = with_waiters(&mut kernel);
    let store = DirectAckStore {
        slots: vec![Some(lease(0, waiters[0])), Some(lease(1, waiters[1]))],
    };
    let census = kernel.direct_ack_lease_bijection(&store, &vec![true, true]);
    assert_eq!(
        census,
        LeaseBijection {
            eligible_waiters: 2,
            live_leases: 2,
            matched: 2,
            missing_leases: 0,
            orphan_leases: 0,
            duplicate_endpoint_incarnations: 0,
        }
    );
    assert!(census.holds());
}

#[test]
fn a_census_finds_missing_orphaned_and_doubled_leases() {
    let mut kernel = boot();
    let waiters = with_waiters(&mut kernel);
    let missing = DirectAckStore { slots: vec![Some(lease(0, waiters[0])), None] };
    let census = kernel.direct_ack_lease_bijection(&missing, &vec![true, true]);
    assert_eq!((census.missing_leases, census.orphan_leases), (1, 0));
    assert!(!census.holds());

    let foreign = DirectAckStore { slots: vec![Some(lease(0, waiters[1])), None] };
    let census = kernel.direct_ack_lease_bijection(&foreign, &vec![true, false]);
    assert_eq!((census.eligible_waiters, census.live_leases), (1, 1));
    assert_eq!((census.missing_leases, census.orphan_leases), (1, 1));

    let doubled = DirectAckStore {
        slots: vec![Some(lease(0, waiters[0])), Some(lease(0, waiters[0]))],
    };
    assert_eq!(doubled.duplicate_live_incarnations(), 1);
    assert_eq!(doubled.live_lease_at(1), Some(lease(0, waiters[0])));
    assert_eq!(doubled.live_lease_at(9), None);
    let census = kernel.direct_ack_lease_bijection(&doubled, &vec![true, false]);
    assert_eq!(census.duplicate_endpoint_incarnations, 1);
    assert!(!census.holds());
}

#[test]
fn resizing_a_node_reads_back() {
    let mut kernel = boot();
    kernel.with(|state| {
        state.register_task_with_class(5, TaskClass::App).expect("app");
        state.register_task_with_class(6, TaskClass::App).expect("app");
        state.register_task_with_class(7, TaskClass::SystemServer).expect("server");
    });
    assert_eq!(kernel.control_plane_set_process_cnode_slots_split_mut(5, 5, 40), Ok(()));
    assert_eq!(kernel.cnode_slot_capacity_split_read(5), Some(40));
    assert_eq!(
        kernel.control_plane_set_process_cnode_slots_split_mut(5, 6, 40),
        Err(KernelError::MissingRight)
    );
    assert_eq!(kernel.control_plane_set_process_cnode_slots_split_mut(7, 6, 41), Ok(()));
    assert_eq!(kernel.cnode_slot_capacity_split_read(6), Some(41));
    assert_eq!(
        kernel.control_plane_set_process_cnode_slots_split_mut(99, 5, 8),
        Err(KernelError::TaskMissing)
    );
    assert_eq!(
        kernel.control_plane_set_process_cnode_slots_split_mut(7, 5, 257),
        Err(KernelError::CapabilityFull)
    );
    assert_eq!(
        kernel.control_plane_set_process_cnode_slots_split_mut(7, 5, 0),
        Err(KernelError::WrongObject)
    );
    for _ in 0..3 {
        kernel
            .mint_capability_with_memory_ref_split(
                CNodeId(5),
                Capability {
                    object: CapObject::AddressSpace { asid: Asid(3) },
                    rights: CapRights(1),
                },
            )
            .expect("mint");
    }
    assert_eq!(
        kernel.control_plane_set_process_cnode_slots_split_mut(5, 5, 2),
        Err(KernelError::WrongObject),
        "a slot in use would be cut off"
    );
    assert_eq!(kernel.control_plane_set_process_cnode_slots_split_mut(5, 5, 3), Ok(()));
}

#[test]
fn minting_fills_the_lowest_slot_and_revoking_frees_it() {
    let mut kernel = boot();
    kernel.with(|state| state.register_task(5).expect("task"));
    let capability = |index| Capability {
        object: CapObject::Notification { index, generation: 0 },
        rights: CapRights(1),
    };
    let (first, second, third) = kernel.with_capability_state_split_mut(|caps| {
        let cnode = caps.cnode_of(5).expect("node");
        let first = caps.mint(cnode, capability(1)).expect("mint");
        let second = caps.mint(cnode, capability(2)).expect("mint");
        caps.revoke(cnode, first);
        assert_eq!(caps.resolve(cnode, first), None);
        assert_eq!(caps.resolve(cnode, second), Some(capability(2)));
        let third = caps.mint(cnode, capability(3)).expect("mint");
        (first, second, third)
    });
    assert_eq!((first, second, third), (CapId(1), CapId(2), CapId(1)));
    assert_eq!(
        kernel.resolve_capability_for_task_split(5, CapId(9)),
        Err(KernelError::InvalidCapability)
    );
    assert_eq!(
        kernel.resolve_capability_for_task_split(99, first),
        Err(KernelError::TaskMissing)
    );
    let identity = ReceiverWaiterIdentity { tid: ThreadId(5), asid: Asid(3) };
    assert_eq!(kernel.process_cnode_for_identity_split_read(identity), None);
    edit(&mut kernel, 5, |tcb| tcb.asid = Some(Asid(3)));
    assert_eq!(
        kernel.process_cnode_for_identity_split_read(identity),
        Some(CNodeId(5))
    );
}

#[test]
fn work_for_another_processor_waits_for_it() {
    let mut kernel = boot();
    kernel.with(|state| {
        state.bring_up_cpu(CpuId(1)).expect("cpu1");
        state.register_task(5).expect("task");
        assert_eq!(state.set_current_cpu(CpuId(1)), Ok(()));
        assert!(state.set_current_cpu(CpuId(3)).is_err());
        state
            .submit_cross_cpu_work(CpuId(1), WorkItem::WakeTask { tid: ThreadId(5) })
            .expect("submit");
        assert_eq!(state.process_cross_cpu_work_for_cpu(CpuId(0)), Ok(0));
        assert_eq!(state.process_cross_cpu_work_for_cpu(CpuId(1)), Ok(1));
        assert_eq!(state.process_cross_cpu_work_for_cpu(CpuId(1)), Ok(0));
        assert_eq!(state.dispatch_next_on_cpu(CpuId(1)), Some(5));
        for _ in 0..64 {
            state
                .submit_cross_cpu_work(CpuId(0), WorkItem::Reschedule)
                .expect("room");
        }
        assert_eq!(
            state.submit_cross_cpu_work(CpuId(0), WorkItem::Reschedule),
            Err(KernelError::WorkQueueFull)
        );
    });
}

#[test]
fn the_boot_window_opens_and_closes() {
    let mut kernel = boot();
    let mut window = BootRawBorrowWindow::closed();
    assert!(!boot_raw_borrow_is_active(&window));
    kernel
        .borrow_kernel_for_boot(&mut window)
        .register_task(5)
        .expect("task");
    assert!(boot_raw_borrow_is_active(&window));
    end_boot_raw_borrow_window(&mut window);
    assert!(!boot_raw_borrow_is_active(&window));
    assert!(kernel.task_exists_split_read(5));
    begin_boot_raw_borrow_window(&mut window);
    drop(BootRawKernelBorrowGuard { window: &mut window });
    assert!(!boot_raw_borrow_is_active(&window), "dropping the guard closes it");
}

#[test]
fn kernel_stacks_are_listed_as_far_as_there_is_room() {
    let mut kernel = boot();
    for tid in [5, 6, 7] {
        kernel.with(|state| state.register_task(tid).expect("task"));
        if tid != 6 {
            edit(&mut kernel, tid, |tcb| {
                tcb.kernel_context.initialized = true;
                tcb.kernel_context.stack_base = Some(VirtAddr(tid * 0x1000));
                tcb.kernel_context.stack_top = Some(VirtAddr(tid * 0x1000 + 0x800));
            });
        }
    }
    let mut out = vec![(0, 0, 0); 3];
    assert_eq!(kernel.d6_live_kernel_stacks_split(&mut out), 2);
    assert_eq!(out, vec![(5, 0x5000, 0x5800), (7, 0x7000, 0x7800), (0, 0, 0)]);
    let mut short = vec![(9, 9, 9)];
    assert_eq!(kernel.d6_live_kernel_stacks_split(&mut short), 1);
    assert_eq!(short, vec![(5, 0x5000, 0x5800)]);
    assert!(kernel.d2_recv_incoming_has_kernel_switch_ctx(5));
    assert!(!kernel.d2_recv_incoming_has_kernel_switch_ctx(6));
}

#[test]
fn reports_name_the_running_task() {
    let mut kernel = boot();
    kernel.with(|state| state.register_task(5).expect("task"));
    edit(&mut kernel, 5, |tcb| tcb.asid = Some(Asid(3)));
    let _ = kernel.block_current_on_cpu_split(CpuId(0));
    assert!(kernel.yield_reverify_ready(CpuId(0)));
    assert_eq!(kernel.terminal_idle_on_cpu_split(CpuId(0)), Ok(true));
    kernel.with(|state| state.enqueue_current_cpu(5).expect("enqueue"));
    assert_eq!(kernel.terminal_idle_on_cpu_split(CpuId(0)), Ok(false));
    assert!(!kernel.d6_genuine_dispatch_queue_neutral(CpuId(0)));
    kernel.with(|state| state.dispatch_next_task());
    assert!(kernel.d6_genuine_dispatch_queue_neutral(CpuId(0)));
    assert_eq!(kernel.d6_genuine_local_dispatch_observe(CpuId(0)), Some(5));
    let report = kernel.fatal_trap_read_snapshot(CpuId(0));
    assert_eq!((report.current_tid, report.current_asid), (5, 3));
    assert_eq!(kernel.task_asid_opt_split_read(5), Some(Asid(3)));
    assert_eq!(kernel.task_asid_opt_split_read(99), None);
}

#[test]
fn seams_reach_one_domain_each() {
    let mut kernel = boot();
    let fault = FaultInfo { addr: VirtAddr(0x10), access: FaultAccess::Read };
    kernel.with_fault_split_mut(|faults| {
        faults.last_fault = Some(fault);
        faults.supervisor_endpoint = Some(3);
    });
    assert_eq!(kernel.with_fault_split_read(|faults| faults.last_fault), Some(fault));
    assert_eq!(kernel.supervisor_endpoint_split(), Some(3));
    kernel.with_telemetry_split_mut(|telemetry| telemetry.tlb_shootdown_count = 8);
    assert_eq!(
        kernel.with_telemetry_split_read(|telemetry| telemetry.tlb_shootdown_count),
        8
    );
    kernel.with_task_return_split_mut(|tasks| {
        assert_eq!(tasks.tls_pending.len(), 512);
    });
}
