//! The shared kernel: reads of one domain agree with what the whole state says.
use yarm_runtime::capability::KernelCapacityProfile;
use yarm_runtime::deferred::WorkItem;
use yarm_runtime::ids::{
    Asid, CNodeId, CpuId, PhysAddr, SyscallError, ThreadId, TrapHandleError, VirtAddr,
    SYSCALL_COUNT,
};
use yarm_runtime::kernel::Bootstrap;
use yarm_runtime::memory::MemoryObject;
use yarm_runtime::runtime::SharedKernel;
use yarm_runtime::task::{FaultPolicy, TaskClass};
use yarm_runtime::trap::{FaultAccess, FaultInfo, TrapFrame};
use yarm_runtime::vm::{Mapping, PageFlags};

fn control_plane_set_process_cnode_slots_via_syscall(
    kernel: &mut SharedKernel,
    target_pid: u64,
    slot_capacity: usize,
) -> Result<(), TrapHandleError> {
    kernel.with(|state| {
        state.control_plane_set_process_cnode_slots_via_syscall(target_pid, slot_capacity)
    })
}

/// Is `cpu` idle?  One that is not online counts as idle.
fn u3_futex_idle_current_none(kernel: &SharedKernel, cpu: CpuId) -> bool {
    kernel
        .current_tid_authoritative(cpu)
        .map(|current| current == 0)
        .unwrap_or(true)
}

#[test]
fn shared_kernel_serializes_access() {
    let mut kernel = SharedKernel::new(Bootstrap::init().expect("init"));

    kernel.with(|state| {
        state
            .submit_cross_cpu_work(CpuId(0), WorkItem::Reschedule)
            .expect("submit");
    });

    let processed = kernel.with(|state| {
        state
            .process_cross_cpu_work_for_cpu(CpuId(0))
            .expect("process")
    });

    assert_eq!(processed, 1);
}

#[test]
fn current_tid_split_read_matches_scheduler_current_on_cpu() {
    let mut kernel = SharedKernel::new(Bootstrap::init().expect("init"));
    kernel.with(|state| {
        state.register_task(42).expect("task42");
        state.enqueue_current_cpu(42).expect("enqueue");
        state.dispatch_next_task().expect("dispatch");
        assert_eq!(state.current_tid_on_cpu(CpuId(0)), Some(42));
    });

    assert_eq!(kernel.current_tid_split_read(CpuId(0)), Some(42));
    assert_eq!(kernel.current_tid_split_read(CpuId(7)), None);
}

#[test]
fn topology_count_split_reads_match_scheduler_state() {
    let mut kernel = SharedKernel::new(Bootstrap::init().expect("init"));
    let (online, present) =
        kernel.with(|state| (state.online_cpu_count(), state.present_cpu_count()));

    assert_eq!(kernel.online_cpu_count_split_read(), online);
    assert_eq!(kernel.present_cpu_count_split_read(), present);
    assert!(kernel.online_cpu_count_split_read() <= kernel.present_cpu_count_split_read());
}

#[test]
fn boot_config_split_reads_match_kernel_state_capacity_config() {
    let mut kernel = SharedKernel::new(
        Bootstrap::init_with_capacity_profile(KernelCapacityProfile::Constrained)
            .expect("init constrained"),
    );
    let (profile, config) =
        kernel.with(|state| (state.capacity_profile(), state.runtime_capacity_config()));

    assert_eq!(kernel.capacity_profile_split_read(), profile);
    assert_eq!(kernel.runtime_capacity_config_split_read(), config);
}

#[test]
fn fault_bookkeeping_split_mut_helpers_match_kernel_state_accessors() {
    let mut kernel = SharedKernel::new(Bootstrap::init().expect("init"));
    let fault = FaultInfo {
        addr: VirtAddr(0xdead_beef),
        access: FaultAccess::Write,
    };
    let mut frame = TrapFrame::new(11, [1, 2, 3, 4, 5, 6]);
    frame.set_saved_pc(0x4000);
    frame.set_saved_sp(0x8000);

    kernel.record_fault_split_mut(fault);
    assert_eq!(kernel.with(|state| state.last_fault()), Some(fault));

    kernel.record_fault_frame_snapshot_split_mut(&frame);
    assert_eq!(
        kernel.with(|state| state.last_fault_frame()),
        Some(frame.clone())
    );

    kernel.clear_last_fault_split_mut();
    assert_eq!(kernel.with(|state| state.last_fault()), None);
    assert_eq!(kernel.with(|state| state.last_fault_frame()), None);

    kernel.with(|state| {
        state.record_fault(fault);
        state.record_fault_frame_snapshot(&frame);
        assert_eq!(state.last_fault(), Some(fault));
        assert_eq!(state.last_fault_frame(), Some(frame.clone()));
        state.clear_last_fault();
        assert_eq!(state.last_fault(), None);
        assert_eq!(state.last_fault_frame(), None);
    });
}

#[test]
fn with_cpu_applies_targeted_cross_cpu_work_before_closure() {
    let mut kernel = SharedKernel::new(Bootstrap::init().expect("init"));
    kernel.with(|state| {
        state.bring_up_cpu(CpuId(1)).expect("cpu1");
        state.register_task(2).expect("task2");
        state
            .submit_cross_cpu_work(CpuId(1), WorkItem::WakeTask { tid: ThreadId(2) })
            .expect("submit");
    });

    let processed = kernel
        .with_cpu(CpuId(1), |state| {
            assert_eq!(state.current_cpu(), CpuId(1));
            state
                .process_cross_cpu_work_for_cpu(CpuId(1))
                .expect("drain")
        })
        .expect("with_cpu");
    assert_eq!(processed, 1);
}

#[test]
fn with_cpu_propagates_invalid_cpu_errors() {
    let mut kernel = SharedKernel::new(Bootstrap::init().expect("init"));
    let result = kernel.with_cpu(CpuId(1), |_| 0);
    assert!(result.is_err());
}

#[test]
fn shared_kernel_allows_concurrent_serialized_access() {
    let mut kernel = SharedKernel::new(Bootstrap::init().expect("init"));
    for _ in 0..32 {
        kernel.with(|state| {
            state
                .submit_cross_cpu_work(CpuId(0), WorkItem::Reschedule)
                .expect("submit t1");
        });
    }
    for _ in 0..32 {
        kernel.with(|state| {
            state
                .submit_cross_cpu_work(CpuId(0), WorkItem::Reschedule)
                .expect("submit t2");
        });
    }

    let drained =
        kernel.with(|state| state.process_cross_cpu_work_for_cpu(CpuId(1)).unwrap_or(0));
    assert_eq!(drained, 0);

    let drained_cpu0 = kernel.with(|state| {
        state
            .process_cross_cpu_work_for_cpu(CpuId(0))
            .expect("drain cpu0")
    });
    assert_eq!(drained_cpu0, 64);
}

#[test]
fn shared_kernel_control_plane_syscall_wrapper_resizes_target_cnode() {
    let mut kernel = SharedKernel::new(Bootstrap::init().expect("init"));
    kernel.with(|state| {
        state
            .register_task_with_class(900, TaskClass::SystemServer)
            .expect("system server");
        state
            .register_task_with_class(901, TaskClass::App)
            .expect("target app");
        state.enqueue_current_cpu(900).expect("enqueue");
        state.dispatch_next_task().expect("dispatch");
        if state.current_tid() != Some(900) {
            state.yield_current().expect("switch");
        }
    });

    let (target_cnode, before) = kernel.with(|state| {
        let cnode = state.process_cnode_for_pid(901).expect("target cnode");
        let before = state.cnode_slot_capacity(cnode).expect("before");
        (cnode, before)
    });
    let requested = before.saturating_add(4);
    control_plane_set_process_cnode_slots_via_syscall(&mut kernel, 901, requested).expect("resize");
    let after = kernel.with(|state| state.cnode_slot_capacity(target_cnode));
    assert_eq!(after, Some(requested));
}

#[test]
fn shared_kernel_control_plane_syscall_wrapper_denies_unprivileged_cross_process_resize() {
    let mut kernel = SharedKernel::new(Bootstrap::init().expect("init"));
    kernel.with(|state| {
        state
            .register_task_with_class(910, TaskClass::App)
            .expect("requester");
        state
            .register_task_with_class(911, TaskClass::App)
            .expect("target");
        state.enqueue_current_cpu(910).expect("enqueue");
        state.dispatch_next_task().expect("dispatch");
        if state.current_tid() != Some(910) {
            state.yield_current().expect("switch");
        }
    });

    let err = control_plane_set_process_cnode_slots_via_syscall(&mut kernel, 911, 8)
        .expect_err("must deny");
    assert_eq!(
        err,
        TrapHandleError::Syscall(SyscallError::MissingRight)
    );
}

#[test]
fn fault_split_read_helpers_match_kernel_state_accessors() {
    let mut kernel = SharedKernel::new(Bootstrap::init().expect("init"));

    assert_eq!(kernel.last_fault_split_read(), None);
    assert_eq!(kernel.last_fault_frame_split_read(), None);

    let fault = FaultInfo {
        addr: VirtAddr(0xDEAD_0000),
        access: FaultAccess::Write,
    };
    kernel.record_fault_split_mut(fault);

    assert_eq!(
        kernel.last_fault_split_read(),
        kernel.with(|state| state.last_fault()),
        "last_fault_split_read must match kernel.with last_fault after record"
    );
    assert_eq!(kernel.last_fault_split_read(), Some(fault));

    let mut frame = TrapFrame::new(11, [1, 2, 3, 4, 5, 6]);
    frame.set_saved_pc(0x6000);
    frame.set_saved_sp(0xA000);
    kernel.record_fault_frame_snapshot_split_mut(&frame);

    assert_eq!(
        kernel.last_fault_frame_split_read(),
        kernel.with(|state| state.last_fault_frame()),
        "last_fault_frame_split_read must match kernel.with last_fault_frame after snapshot"
    );
    assert!(kernel.last_fault_frame_split_read().is_some());

    kernel.clear_last_fault_split_mut();
    assert_eq!(kernel.last_fault_split_read(), None);
    assert_eq!(kernel.with(|state| state.last_fault()), None);
}

#[test]
fn fault_policy_split_read_matches_kernel_state_accessor() {
    let mut kernel = SharedKernel::new(Bootstrap::init().expect("init"));
    let expected = kernel.with(|state| state.fault_policy());
    let split = kernel.fault_policy_split_read();
    assert_eq!(
        split, expected,
        "fault_policy_split_read must match kernel.with fault_policy"
    );
    assert_eq!(split, FaultPolicy::KillTask);
}

#[test]
fn telemetry_split_read_helpers_match_kernel_state_accessors() {
    let mut kernel = SharedKernel::new(Bootstrap::init().expect("init"));

    let (count0, timeout0) = kernel.with(|state| {
        (
            state.tlb_shootdown_count(),
            state.tlb_shootdown_timeout_count(),
        )
    });

    assert_eq!(kernel.tlb_shootdown_count_split_read(), count0);
    assert_eq!(kernel.tlb_shootdown_timeout_count_split_read(), timeout0);

    kernel.increment_tlb_shootdown_count_split_mut();
    kernel.add_tlb_shootdown_timeout_count_split_mut(5);

    assert_eq!(
        kernel.tlb_shootdown_count_split_read(),
        count0.wrapping_add(1)
    );
    assert_eq!(
        kernel.tlb_shootdown_timeout_count_split_read(),
        timeout0.wrapping_add(5)
    );

    assert_eq!(
        kernel.tlb_shootdown_count_split_read(),
        kernel.with(|state| state.tlb_shootdown_count()),
        "tlb_shootdown_count split_read must match global read"
    );
    assert_eq!(
        kernel.tlb_shootdown_timeout_count_split_read(),
        kernel.with(|state| state.tlb_shootdown_timeout_count()),
        "tlb_shootdown_timeout_count split_read must match global read"
    );
}

#[test]
fn current_tid_split_read_matches_with_cpu_current_tid_entering_snapshot() {
    let mut kernel = SharedKernel::new(Bootstrap::init().expect("init"));
    let cpu = CpuId(0);

    kernel.with(|state| {
        state.register_task(77).expect("task77");
        state.enqueue_current_cpu(77).expect("enqueue");
        state.dispatch_next_task().expect("dispatch");
    });

    let split = kernel.current_tid_split_read(cpu);
    let conservative = kernel.with_cpu(cpu, |k| k.current_tid()).unwrap_or(None);
    assert_eq!(
        split, conservative,
        "entering_tid: current_tid_split_read must equal with_cpu current_tid"
    );
    assert_eq!(split, Some(77));
}

#[test]
fn current_tid_split_read_reflects_task_switch_for_exiting_snapshot() {
    let mut kernel = SharedKernel::new(Bootstrap::init().expect("init"));
    let cpu = CpuId(0);

    kernel.with(|state| {
        state.register_task(81).expect("task81");
        state.register_task(82).expect("task82");
        state.enqueue_current_cpu(81).expect("enqueue 81");
        state.enqueue_current_cpu(82).expect("enqueue 82");
        state.dispatch_next_task().expect("dispatch to 81");
    });

    let entering_tid = kernel.current_tid_split_read(cpu);
    assert_eq!(entering_tid, Some(81), "entering_tid must be task 81");

    kernel.with(|state| {
        state.yield_current().expect("yield 81");
    });

    let exiting_tid = kernel.current_tid_split_read(cpu);
    assert_ne!(
        exiting_tid, entering_tid,
        "exiting_tid must differ from entering_tid after yield"
    );
    let task_switched = entering_tid != exiting_tid;
    assert!(task_switched, "task_switched must be true when TIDs differ");
}

#[test]
fn current_tid_split_read_no_switch_detection_for_same_task_return() {
    let mut kernel = SharedKernel::new(Bootstrap::init().expect("init"));
    let cpu = CpuId(0);

    kernel.with(|state| {
        state.register_task(91).expect("task91");
        state.enqueue_current_cpu(91).expect("enqueue");
        state.dispatch_next_task().expect("dispatch");
    });

    let entering_tid = kernel.current_tid_split_read(cpu);

    let exiting_tid = kernel.current_tid_split_read(cpu);

    assert_eq!(
        entering_tid, exiting_tid,
        "exiting_tid must equal entering_tid when no task switch"
    );
    let task_switched = entering_tid != exiting_tid;
    assert!(
        !task_switched,
        "task_switched must be false for same-task return"
    );
}

#[test]
fn current_tid_split_read_offline_cpu_returns_none() {
    let mut kernel = SharedKernel::new(Bootstrap::init().expect("init"));
    let offline_cpu = CpuId(7);

    let split = kernel.current_tid_split_read(offline_cpu);
    let conservative = kernel
        .with_cpu(offline_cpu, |k| k.current_tid())
        .unwrap_or(None);
    assert_eq!(
        split, None,
        "offline CPU must return None from current_tid_split_read"
    );
    assert_eq!(
        split, conservative,
        "split_read must match with_cpu for offline CPU"
    );
}

#[test]
fn with_cpu_entering_exiting_tid_detects_task_switch() {
    let mut kernel = SharedKernel::new(Bootstrap::init().expect("init"));
    let cpu = CpuId(0);

    kernel.with(|state| {
        state.register_task(83).expect("task83");
        state.register_task(84).expect("task84");
        state.enqueue_current_cpu(83).expect("enqueue 83");
        state.enqueue_current_cpu(84).expect("enqueue 84");
        state.dispatch_next_task().expect("dispatch to 83");
    });

    let entering_tid = kernel.with_cpu(cpu, |k| k.current_tid()).unwrap_or(None);
    assert_eq!(entering_tid, Some(83), "entering_tid must be task 83");

    kernel.with(|state| {
        state.yield_current().expect("yield 83");
    });

    let exiting_tid = kernel.with_cpu(cpu, |k| k.current_tid()).unwrap_or(None);
    assert_ne!(
        exiting_tid, entering_tid,
        "exiting_tid must differ from entering_tid after task switch"
    );
    let task_switched = entering_tid != exiting_tid;
    assert!(task_switched, "task_switched must be true after yield");
}

#[test]
fn with_cpu_entering_exiting_tid_no_switch_same_task() {
    let mut kernel = SharedKernel::new(Bootstrap::init().expect("init"));
    let cpu = CpuId(0);

    kernel.with(|state| {
        state.register_task(85).expect("task85");
        state.enqueue_current_cpu(85).expect("enqueue");
        state.dispatch_next_task().expect("dispatch");
    });

    let entering_tid = kernel.with_cpu(cpu, |k| k.current_tid()).unwrap_or(None);
    let exiting_tid = kernel.with_cpu(cpu, |k| k.current_tid()).unwrap_or(None);
    assert_eq!(
        entering_tid, exiting_tid,
        "entering_tid must equal exiting_tid when no task switch"
    );
    let task_switched = entering_tid != exiting_tid;
    assert!(
        !task_switched,
        "task_switched must be false for same-task return"
    );
}

#[test]
fn with_cpu_entering_tid_offline_cpu_returns_none() {
    let mut kernel = SharedKernel::new(Bootstrap::init().expect("init"));
    let offline_cpu = CpuId(7);

    let entering_tid = kernel
        .with_cpu(offline_cpu, |k| k.current_tid())
        .unwrap_or(None);
    assert_eq!(
        entering_tid, None,
        "offline CPU must return None from with_cpu→current_tid"
    );
}

#[test]
fn u3_authoritative_binds_cpu_and_reads_the_current_tid() {
    let mut kernel = SharedKernel::new(Bootstrap::init().expect("init"));
    kernel.with(|state| {
        state.register_task(77).expect("task77");
        state.enqueue_current_cpu(77).expect("enqueue");
        state.dispatch_next_task().expect("dispatch");
    });
    assert_eq!(kernel.current_tid_authoritative(CpuId(0)), Some(77));
    assert_eq!(
        kernel.with(|s| s.current_cpu()),
        CpuId(0),
        "a successful call binds current_cpu"
    );
}

#[test]
fn u3_authoritative_reads_without_binding_when_no_current_task() {
    let mut kernel = SharedKernel::new(Bootstrap::init().expect("init"));
    kernel.with(|s| s.bring_up_cpu(CpuId(1)).expect("cpu 1 online"));
    let ambient_before = kernel.with(|s| s.current_cpu());
    assert_eq!(kernel.current_tid_authoritative(CpuId(1)), None);
    assert_eq!(
        kernel.with(|s| s.current_cpu()),
        ambient_before,
        "an explicit-CPU read must NOT retarget the process-global ambient current_cpu"
    );
}

#[test]
fn u3_authoritative_offline_cpu_returns_none_and_leaves_the_binding() {
    let mut kernel = SharedKernel::new(Bootstrap::init().expect("init"));
    let baseline = kernel.current_tid_authoritative(CpuId(0));
    assert_eq!(kernel.with(|s| s.current_cpu()), CpuId(0));
    for bad in [CpuId(7), CpuId(200)] {
        assert_eq!(
            kernel.current_tid_authoritative(bad),
            None,
            "an invalid/offline CPU returns None"
        );
        assert_eq!(
            kernel.with(|s| s.current_cpu()),
            CpuId(0),
            "a refused call must not change the prior binding"
        );
    }
    assert_eq!(kernel.current_tid_authoritative(CpuId(0)), baseline);
}

#[test]
fn u3_futex_idle_predicate_maps_every_legacy_outcome() {
    let mut kernel = SharedKernel::new(Bootstrap::init().expect("init"));
    kernel.with(|s| s.bring_up_cpu(CpuId(1)).expect("cpu 1 online"));

    assert!(
        u3_futex_idle_current_none(&kernel, CpuId(1)),
        "an online CPU with no current task is the idle outcome"
    );

    assert_eq!(
        kernel.with(|s| s.current_tid_on_cpu(CpuId(0))),
        Some(0),
        "bootstrap leaves the idle task current on CPU 0"
    );
    assert_eq!(kernel.current_tid_authoritative(CpuId(0)), Some(0));
    assert!(
        u3_futex_idle_current_none(&kernel, CpuId(0)),
        "tid 0 is the idle task and must still read as idle"
    );

    kernel.with(|state| {
        state.register_task(91).expect("task 91");
        state.enqueue_on_cpu(CpuId(0), 91).expect("enqueue 91");
        assert_eq!(state.dispatch_next_on_cpu(CpuId(0)), Some(91));
    });
    assert_eq!(kernel.current_tid_authoritative(CpuId(0)), Some(91));
    assert!(
        !u3_futex_idle_current_none(&kernel, CpuId(0)),
        "a running non-idle task must NOT read as idle"
    );

    for bad in [CpuId(7), CpuId(200)] {
        assert!(
            u3_futex_idle_current_none(&kernel, bad),
            "a refused CPU must still map to true"
        );
    }
    assert!(!u3_futex_idle_current_none(&kernel, CpuId(0)));
}

#[test]
fn u3_futex_idle_observes_the_requested_cpu_not_the_ambient_binding() {
    let mut kernel = SharedKernel::new(Bootstrap::init().expect("init"));
    kernel.with(|state| {
        state.bring_up_cpu(CpuId(1)).expect("cpu 1 online");
        state.register_task(93).expect("task 93");
        state.enqueue_on_cpu(CpuId(0), 93).expect("queue on cpu 0");
        assert_eq!(state.dispatch_next_on_cpu(CpuId(0)), Some(93));
    });
    assert_eq!(kernel.with(|s| s.current_cpu()), CpuId(0));
    assert!(!u3_futex_idle_current_none(&kernel, CpuId(0)));
    let ambient_before = kernel.with(|s| s.current_cpu());
    assert!(
        u3_futex_idle_current_none(&kernel, CpuId(1)),
        "CPU 1 is idle; the answer must not be borrowed from the ambient CPU 0 binding"
    );
    assert_eq!(
        kernel.with(|s| s.current_cpu()),
        ambient_before,
        "an explicit-CPU read must NOT retarget the process-global ambient current_cpu"
    );
    assert!(!u3_futex_idle_current_none(&kernel, CpuId(0)));
}

#[test]
fn u3_authoritative_entering_exiting_switch_classification() {
    let mut kernel = SharedKernel::new(Bootstrap::init().expect("init"));
    let cpu = CpuId(0);
    kernel.with(|state| {
        state.register_task(31).expect("task31");
        state.register_task(32).expect("task32");
        state.enqueue_current_cpu(31).expect("enqueue31");
        state.enqueue_current_cpu(32).expect("enqueue32");
        state.dispatch_next_task().expect("dispatch to 31");
    });
    let entering = kernel.current_tid_authoritative(cpu);
    let exiting = kernel.current_tid_authoritative(cpu);
    assert_eq!(entering, Some(31));
    assert_eq!(entering, exiting, "no switch leaves the snapshots equal");
    assert!(!(entering != exiting), "task_switched must be false");
    let entering = kernel.current_tid_authoritative(cpu);
    kernel.with(|state| state.yield_current().expect("yield 31"));
    let exiting = kernel.current_tid_authoritative(cpu);
    assert_ne!(
        entering, exiting,
        "task_switched must be true after a yield"
    );
}

#[test]
fn fatal_trap_read_snapshot_tid_matches_split_read() {
    let mut kernel = SharedKernel::new(Bootstrap::init().expect("init"));
    let cpu = CpuId(0);

    kernel.with(|state| {
        state.register_task(73).expect("task73");
        state.enqueue_current_cpu(73).expect("enqueue");
        state.dispatch_next_task().expect("dispatch");
    });

    let snapshot = kernel.fatal_trap_read_snapshot(cpu);
    let expected_tid = kernel.current_tid_split_read(cpu).unwrap_or(0);
    assert_eq!(
        snapshot.current_tid, expected_tid,
        "fatal_trap_read_snapshot.current_tid must equal current_tid_split_read"
    );
    assert_eq!(snapshot.current_tid, 73);
}

#[test]
fn fatal_trap_read_snapshot_asid_matches_kernel_state_task_asid() {
    let mut kernel = SharedKernel::new(Bootstrap::init().expect("init"));
    let cpu = CpuId(0);

    kernel.with(|state| {
        state.register_task(74).expect("task74");
        state.enqueue_current_cpu(74).expect("enqueue");
        state.dispatch_next_task().expect("dispatch");
    });

    let snapshot = kernel.fatal_trap_read_snapshot(cpu);
    let asid_via_split = kernel.task_asid_for_tid_split_read(74);
    let asid_via_global =
        kernel.with(|state| state.task_asid(74).map(|a| a.0 as u64).unwrap_or(0));

    assert_eq!(
        snapshot.current_asid, asid_via_split,
        "snapshot.current_asid must match task_asid_for_tid_split_read"
    );
    assert_eq!(
        snapshot.current_asid, asid_via_global,
        "snapshot.current_asid must match global-lock task_asid"
    );
    assert_eq!(snapshot.current_asid, 0);
}

#[test]
fn fatal_trap_read_snapshot_offline_cpu_returns_zeros() {
    let mut kernel = SharedKernel::new(Bootstrap::init().expect("init"));
    let offline_cpu = CpuId(255);

    let snapshot = kernel.fatal_trap_read_snapshot(offline_cpu);
    assert_eq!(
        snapshot.current_tid, 0,
        "offline CPU must produce current_tid=0 in fatal_trap_read_snapshot"
    );
    assert_eq!(
        snapshot.current_asid, 0,
        "offline CPU must produce current_asid=0 in fatal_trap_read_snapshot"
    );
}

#[test]
fn task_class_split_read_matches_global() {
    let mut kernel = SharedKernel::new(Bootstrap::init().expect("init"));

    assert_eq!(
        kernel.task_class_split_read(501),
        kernel.with(|state| state.task_class(501)),
        "task_class_split_read must match global for absent TID"
    );
    assert_eq!(kernel.task_class_split_read(501), None);

    kernel.with(|state| {
        state
            .register_task_with_class(501, TaskClass::App)
            .expect("app");
        state
            .register_task_with_class(502, TaskClass::SystemServer)
            .expect("sys_srv");
    });

    assert_eq!(
        kernel.task_class_split_read(501),
        kernel.with(|state| state.task_class(501)),
        "task_class_split_read must match global for App"
    );
    assert_eq!(kernel.task_class_split_read(501), Some(TaskClass::App));

    assert_eq!(
        kernel.task_class_split_read(502),
        kernel.with(|state| state.task_class(502)),
        "task_class_split_read must match global for SystemServer"
    );
    assert_eq!(
        kernel.task_class_split_read(502),
        Some(TaskClass::SystemServer)
    );

    assert_eq!(
        kernel.task_class_split_read(999),
        kernel.with(|state| state.task_class(999)),
        "task_class_split_read must match global for unknown TID"
    );
    assert_eq!(kernel.task_class_split_read(999), None);
}

#[test]
fn task_exists_split_read_matches_global() {
    let mut kernel = SharedKernel::new(Bootstrap::init().expect("init"));

    let absent_via_global = kernel.with(|state| state.task_class(511)).is_some();
    assert_eq!(
        kernel.task_exists_split_read(511),
        absent_via_global,
        "task_exists_split_read must match global for absent TID"
    );
    assert!(!kernel.task_exists_split_read(511));

    kernel.with(|state| {
        state.register_task(511).expect("task511");
    });

    let present_via_global = kernel.with(|state| state.task_class(511)).is_some();
    assert_eq!(
        kernel.task_exists_split_read(511),
        present_via_global,
        "task_exists_split_read must match global for registered TID"
    );
    assert!(kernel.task_exists_split_read(511));
}

#[test]
fn cnode_slot_capacity_split_read_matches_global() {
    let mut kernel = SharedKernel::new(Bootstrap::init().expect("init"));
    const PID: u64 = 520;

    let before_global = kernel.with(|state| {
        state.cnode_slot_capacity(CNodeId(PID))
    });
    assert_eq!(
        kernel.cnode_slot_capacity_split_read(PID),
        before_global,
        "cnode_slot_capacity_split_read must match global before creation"
    );
    assert_eq!(kernel.cnode_slot_capacity_split_read(PID), None);

    kernel.with(|state| {
        state
            .register_task_with_class(PID, TaskClass::SystemServer)
            .expect("system server");
        state
            .register_task_with_class(521, TaskClass::App)
            .expect("target");
        state.enqueue_current_cpu(PID).expect("enqueue");
        state.dispatch_next_task().expect("dispatch");
        if state.current_tid() != Some(PID) {
            state.yield_current().expect("switch");
        }
    });
    let requested_slots = 8usize;
    control_plane_set_process_cnode_slots_via_syscall(&mut kernel, 521, requested_slots)
        .expect("create cnode");

    let after_global = kernel.with(|state| {
        state.cnode_slot_capacity(CNodeId(521))
    });
    assert_eq!(
        kernel.cnode_slot_capacity_split_read(521),
        after_global,
        "cnode_slot_capacity_split_read must match global after creation"
    );
    assert_eq!(
        kernel.cnode_slot_capacity_split_read(521),
        Some(requested_slots)
    );
}

#[test]
fn process_id_split_read_matches_global() {
    let mut kernel = SharedKernel::new(Bootstrap::init().expect("init"));

    assert_eq!(
        kernel.process_id_split_read(530),
        kernel.with(|state| state.process_id(530)),
        "process_id_split_read must match global for absent TID"
    );
    assert_eq!(kernel.process_id_split_read(530), None);

    kernel.with(|state| {
        state.register_task(530).expect("leader");
    });

    let via_global = kernel.with(|state| state.process_id(530));
    assert_eq!(
        kernel.process_id_split_read(530),
        via_global,
        "process_id_split_read must match global for group leader"
    );
    assert_eq!(kernel.process_id_split_read(530), Some(530));

    assert_eq!(
        kernel.process_id_split_read(999),
        kernel.with(|state| state.process_id(999)),
        "process_id_split_read must match global for unknown TID"
    );
    assert_eq!(kernel.process_id_split_read(999), None);
}

#[test]
fn is_group_leader_split_read_matches_global() {
    let mut kernel = SharedKernel::new(Bootstrap::init().expect("init"));

    assert_eq!(
        kernel.is_group_leader_split_read(540),
        kernel.with(|state| state.is_thread_group_leader(540)),
        "is_group_leader_split_read must match global for absent TID"
    );
    assert!(!kernel.is_group_leader_split_read(540));

    kernel.with(|state| {
        state.register_task(540).expect("leader");
    });

    let via_global = kernel.with(|state| state.is_thread_group_leader(540));
    assert_eq!(
        kernel.is_group_leader_split_read(540),
        via_global,
        "is_group_leader_split_read must match global for registered leader"
    );
    assert!(kernel.is_group_leader_split_read(540));

    assert_eq!(
        kernel.is_group_leader_split_read(999),
        kernel.with(|state| state.is_thread_group_leader(999)),
        "is_group_leader_split_read must match global for unknown TID"
    );
    assert!(!kernel.is_group_leader_split_read(999));
}

#[test]
fn stage26_global_lock_audit_syscall_count_unchanged() {
    assert_eq!(
        SYSCALL_COUNT,
        32,
        "the number of system calls is part of the interface"
    );
}

#[test]
fn stage26_cnode_registered_split_read_matches_global() {
    let mut kernel = SharedKernel::new(Bootstrap::init().expect("init"));
    const PID: u64 = 620;

    let before_global = kernel.with(|state| {
        state.cnode_slot_capacity(CNodeId(621)).is_some()
    });
    assert_eq!(
        kernel.cnode_registered_split_read(621),
        before_global,
        "split-read must match global before creation"
    );
    assert!(!kernel.cnode_registered_split_read(621));

    kernel.with(|state| {
        state
            .register_task_with_class(PID, TaskClass::SystemServer)
            .expect("system server");
        state
            .register_task_with_class(621, TaskClass::App)
            .expect("target");
        state.enqueue_current_cpu(PID).expect("enqueue");
        state.dispatch_next_task().expect("dispatch");
        if state.current_tid() != Some(PID) {
            state.yield_current().expect("switch");
        }
    });
    control_plane_set_process_cnode_slots_via_syscall(&mut kernel, 621, 8).expect("create cnode");

    let after_global = kernel.with(|state| {
        state.cnode_slot_capacity(CNodeId(621)).is_some()
    });
    assert_eq!(
        kernel.cnode_registered_split_read(621),
        after_global,
        "split-read must match global after creation"
    );
    assert!(kernel.cnode_registered_split_read(621));

    assert!(!kernel.cnode_registered_split_read(999));
}

#[test]
fn telemetry_split_mut_helpers_match_kernel_state_accessors() {
    let mut kernel = SharedKernel::new(Bootstrap::init().expect("init"));
    let (initial_shootdowns, initial_timeouts) = kernel.with(|state| {
        (
            state.tlb_shootdown_count(),
            state.tlb_shootdown_timeout_count(),
        )
    });

    kernel.increment_tlb_shootdown_count_split_mut();
    assert_eq!(
        kernel.with(|state| state.tlb_shootdown_count()),
        initial_shootdowns.wrapping_add(1)
    );

    kernel.add_tlb_shootdown_timeout_count_split_mut(7);
    assert_eq!(
        kernel.with(|state| state.tlb_shootdown_timeout_count()),
        initial_timeouts.wrapping_add(7)
    );
}

#[test]
fn stage26_notification_waiter_count_split_read_matches_global() {
    let mut kernel = SharedKernel::new(Bootstrap::init().expect("init"));

    let notif_idx = kernel.with(|state| {
        state.register_task(610).expect("task");
        state.ipc.notification_generations[4] = 1;
        4usize
    });

    let before_global = kernel.with(|state| state.notification_waiter_count(notif_idx));
    assert_eq!(
        kernel.notification_waiter_count_split_read(notif_idx),
        before_global,
        "split-read must match global before waiter"
    );
    assert_eq!(kernel.notification_waiter_count_split_read(notif_idx), 0);

    kernel.with_ipc_split_mut(|ipc| {
        ipc.notification_waiters[notif_idx] = Some(ThreadId(610));
    });

    let after_global = kernel.with(|state| state.notification_waiter_count(notif_idx));
    assert_eq!(
        kernel.notification_waiter_count_split_read(notif_idx),
        after_global,
        "split-read must match global after waiter"
    );
    assert_eq!(kernel.notification_waiter_count_split_read(notif_idx), 1);

    let other_idx = if notif_idx == 0 { 1 } else { 0 };
    assert_eq!(kernel.notification_waiter_count_split_read(other_idx), 0);
}

#[test]
fn stage108_scheduler_seam_matches_global_current_cpu() {
    let mut kernel = SharedKernel::new(Bootstrap::init().expect("init"));
    kernel.with(|state| {
        state.register_task(839).expect("register");
        state.enqueue_current_cpu(839).expect("enqueue");
    });
    let global_count = kernel.with(|state| state.sched.runnable_count_on(CpuId(0)));
    let seam_count = kernel.with_scheduler_split_mut(|sched| sched.runnable_count_on(CpuId(0)));
    assert_eq!(seam_count, global_count);
    assert!(seam_count >= 1, "enqueued task visible through the seam");
}

#[test]
fn stage108_task_seam_matches_global_tcb_view() {
    let mut kernel = SharedKernel::new(Bootstrap::init().expect("init"));
    kernel.with(|state| state.register_task(840).expect("register"));
    let global_present = kernel.with(|state| state.task_status(840).is_some());
    let seam_present =
        kernel.with_task_tcbs_split_mut(|tcbs| tcbs.iter().flatten().any(|tcb| tcb.tid.0 == 840));
    assert_eq!(seam_present, global_present);
    assert!(
        seam_present,
        "registered TCB must be visible through the seam"
    );
    kernel.with_task_tcbs_split_mut(|tcbs| {
        if let Some(tcb) = tcbs.iter_mut().flatten().find(|tcb| tcb.tid.0 == 840) {
            tcb.ipc_timeout_fired = true;
        }
    });
    let global_fired = kernel.with(|state| {
        state
            .consume_ipc_timeout_fired_for_tid(840)
            .expect("consume")
    });
    assert!(
        global_fired,
        "seam mutation must be visible under the global lock"
    );
}

#[test]
fn stage108_vm_seam_matches_global_mapping_view() {
    let mut kernel = SharedKernel::new(Bootstrap::init().expect("init"));
    let asid = Asid(1);
    kernel.with(|state| {
        state.vm.spaces.push(asid);
    });
    kernel
        .map_user_page_in_asid_split(
            asid,
            VirtAddr(0x5000),
            Mapping {
                phys: PhysAddr(0x9000),
                flags: PageFlags::user_rw(),
            },
        )
        .expect("map page");
    let global_mapped = kernel.with(|state| state.vm.resolve(asid, VirtAddr(0x5000)).is_some());
    let seam_mapped = kernel
        .with_vm_user_spaces_split_mut(|spaces| spaces.resolve(asid, VirtAddr(0x5000)).is_some());
    assert_eq!(seam_mapped, global_mapped);
    assert!(seam_mapped, "mapping must be visible through the VM seam");
}

#[test]
fn stage108_memory_seam_matches_global_object_count() {
    let mut kernel = SharedKernel::new(Bootstrap::init().expect("init"));
    kernel.with(|state| {
        state.mem.memory_objects[0] = Some(MemoryObject {
            id: 1,
            phys: PhysAddr(0x9000),
            len: 4096,
            cap_refcount: 1,
            map_refcount: 0,
            pin_refcount: 0,
        });
    });
    let global_count = kernel.with(|state| state.mem.memory_objects.iter().flatten().count());
    let seam_count =
        kernel.with_memory_split_mut(|memory| memory.memory_objects.iter().flatten().count());
    assert_eq!(seam_count, global_count);
    assert!(seam_count >= 1);
}

#[test]
fn u3_authoritative_is_broad_lock_free_and_never_binds() {
    let mut kernel = SharedKernel::new(Bootstrap::init().expect("init"));
    kernel.with(|state| state.bring_up_cpu(CpuId(1)).expect("cpu1"));
    let ambient = kernel.current_cpu_split_read();
    assert_eq!(ambient, CpuId(0));

    // The answer is for the processor that is named, and validation comes before the read.
    assert_eq!(kernel.current_tid_authoritative(CpuId(0)), Some(0));
    let named = kernel.with(|state| state.current_tid_on_cpu(CpuId(1)));
    assert_eq!(kernel.current_tid_authoritative(CpuId(1)), named);
    assert_eq!(kernel.current_tid_authoritative(CpuId(2)), None);
    assert_eq!(kernel.current_tid_authoritative(CpuId(200)), None);
    assert_eq!(kernel.current_cpu_split_read(), ambient, "no question binds a processor");

    // `with_cpu` does bind.
    kernel.with_cpu(CpuId(1), |_| ()).expect("with_cpu");
    assert_eq!(kernel.current_cpu_split_read(), CpuId(1));
}

#[test]
fn u3_split_read_remains_intentionally_non_binding() {
    let mut kernel = SharedKernel::new(Bootstrap::init().expect("init"));
    kernel.with(|state| state.bring_up_cpu(CpuId(1)).expect("cpu1"));
    for cpu in 0..16 {
        let expected = kernel.with(|state| state.current_tid_on_cpu(CpuId(cpu)));
        assert_eq!(kernel.current_tid_split_read(CpuId(cpu)), expected);
        assert_eq!(kernel.current_cpu_split_read(), CpuId(0));
    }
}
