//! User memory: copies, mappings, lowered breaks, and futex words.
use yarm_runtime::ids::{
    Asid, CpuId, KernelError, PhysAddr, SyscallError, TrapHandleError, VirtAddr, VmError,
    KERNEL_SPACE_BASE,
};
use yarm_runtime::kernel::Bootstrap;
use yarm_runtime::memory::{MemoryObject, MAX_BRK_RECORDS};
use yarm_runtime::runtime::brk::round_up_page;
use yarm_runtime::runtime::paging::ShootdownRequest;
use yarm_runtime::runtime::SharedKernel;
use yarm_runtime::task::{TaskClass, TaskStatus, ThreadControlBlock, WaitReason};
use yarm_runtime::trap::TrapFrame;
use yarm_runtime::vm::{Mapping, PageFlags};

const CPU0: CpuId = CpuId(0);
const ASID: Asid = Asid(3);

fn edit<F: FnOnce(&mut ThreadControlBlock)>(kernel: &mut SharedKernel, tid: u64, f: F) {
    kernel.with_task_tcbs_split_mut(|tcbs| {
        f(tcbs
            .iter_mut()
            .flatten()
            .find(|tcb| tcb.tid.0 == tid)
            .expect("control block"))
    });
}

/// A kernel in which task 5 runs in its own address space.
fn boot() -> SharedKernel {
    let mut kernel = SharedKernel::new(Bootstrap::init().expect("init"));
    kernel.with(|state| state.register_task(5).expect("task"));
    edit(&mut kernel, 5, |tcb| tcb.asid = Some(ASID));
    kernel.with_vm_user_spaces_split_mut(|vm| vm.spaces.push(ASID));
    let _ = kernel.block_current_on_cpu_split(CPU0);
    kernel.with(|state| {
        state.enqueue_current_cpu(5).expect("enqueue");
        assert_eq!(state.dispatch_next_task(), Some(5));
    });
    kernel
}

fn status(kernel: &SharedKernel, tid: u64) -> TaskStatus {
    kernel.state.tasks.get(tid).expect("control block").status
}

fn rw(phys: u64) -> Mapping {
    Mapping { phys: PhysAddr(phys), flags: PageFlags::user_rw() }
}

fn map(kernel: &mut SharedKernel, va: u64, phys: u64) {
    let follow = kernel
        .map_user_page_in_asid_split(ASID, VirtAddr(va), rw(phys))
        .expect("map");
    kernel.sr_apply_map_followup_split(follow);
}

fn object(kernel: &mut SharedKernel, slot: usize, id: u64, phys: u64) {
    kernel.with_memory_split_mut(|mem| {
        mem.memory_objects[slot] = Some(MemoryObject {
            id,
            phys: PhysAddr(phys),
            len: 4096,
            cap_refcount: 0,
            map_refcount: 0,
            pin_refcount: 0,
        })
    });
}

fn mapped(kernel: &SharedKernel, va: u64) -> Option<Mapping> {
    kernel.state.vm.resolve(ASID, VirtAddr(va))
}

#[test]
fn a_copy_reads_back_across_a_page_boundary() {
    let mut kernel = boot();
    map(&mut kernel, 0x4000, 0x9000);
    map(&mut kernel, 0x5000, 0xF000);
    let bytes: Vec<u8> = (1..=100).collect();
    assert_eq!(kernel.copy_to_user_split(ASID, 0x4FD0, &bytes), Ok(()));
    let back = kernel
        .copy_from_user_asid_split_read(3, 0x4FD0, 100)
        .expect("readable");
    assert_eq!(&back[..100], &bytes[..]);
    assert_eq!(&back[100..], &[0u8; 92]);
    assert_eq!(kernel.state.mem.read_byte(0x9FD0), 1);
    assert_eq!(kernel.state.mem.read_byte(0xF000), 49);
    assert_eq!(kernel.copy_slice_to_user_asid_split_write(3, 0x4000, &[7]), Ok(()));
    assert_eq!(kernel.state.mem.read_byte(0x9000), 7);
    assert_eq!(kernel.state.mem.read_byte(0x9001), 0, "other bytes stay");
}

#[test]
fn a_copy_that_faults_writes_nothing() {
    let mut kernel = boot();
    map(&mut kernel, 0x4000, 0x9000);
    assert_eq!(
        kernel.copy_to_user_split(ASID, 0x4FFC, &[1, 2, 3, 4, 5]),
        Err(KernelError::UserMemoryFault)
    );
    assert_eq!(kernel.state.mem.read_byte(0x9FFC), 0);
    assert!(kernel.copy_to_user_split(ASID, u64::MAX - 1, &[1, 2, 3]).is_err());
    assert!(kernel.copy_from_user_asid_split_read(3, 0x4FFC, 5).is_none());
    assert!(kernel.copy_from_user_asid_split_read(3, 0x4000, 0).is_none());
    assert!(kernel.copy_from_user_asid_split_read(3, 0x4000, 193).is_none());
    assert!(kernel.copy_from_user_asid_split_read(3, 0x4000, 192).is_some());
    assert!(kernel.copy_from_user_asid_split_read(0, 0x4000, 1).is_none());
    assert!(kernel.copy_from_user_asid_split_read(70_000, 0x4000, 1).is_none());
}

#[test]
fn a_read_only_page_can_be_read_and_not_written() {
    let mut kernel = boot();
    let flags = PageFlags { user: true, read: true, write: false, execute: false };
    kernel
        .map_user_page_in_asid_split(
            ASID,
            VirtAddr(0x4000),
            Mapping { phys: PhysAddr(0x9000), flags },
        )
        .expect("map");
    assert!(kernel.copy_from_user_asid_split_read(3, 0x4000, 4).is_some());
    assert!(kernel.copy_to_user_split(ASID, 0x4000, &[1]).is_err());
}

#[test]
fn a_mapped_page_is_found_until_it_is_unmapped() {
    let mut kernel = boot();
    object(&mut kernel, 0, 30, 0x9000);
    map(&mut kernel, 0x4000, 0x9000);
    assert_eq!(mapped(&kernel, 0x4000), Some(rw(0x9000)));
    assert_eq!(kernel.state.mem.object(30).expect("object").1.map_refcount, 1);
    let follow = kernel
        .map_user_page_in_asid_split(ASID, VirtAddr(0x4000), rw(0xA000))
        .expect("remap");
    assert_eq!(follow.inserted_phys, PhysAddr(0xA000));
    assert_eq!(follow.replaced, Some(rw(0x9000)));
    kernel.sr_apply_map_followup_split(follow);
    assert!(kernel.state.mem.object(30).is_none(), "nothing refers to it any more");
    assert!(kernel.unmap_range_two_phase_split(ASID, 0x4000, 4096, &[]));
    assert_eq!(mapped(&kernel, 0x4000), None);
}

#[test]
fn mapping_refuses_bad_places() {
    let mut kernel = boot();
    assert_eq!(
        kernel.map_user_page_in_asid_split(ASID, VirtAddr(0x4001), rw(0x9000)),
        Err(KernelError::Vm(VmError::InvalidAddress))
    );
    assert_eq!(
        kernel.map_user_page_in_asid_split(Asid(9), VirtAddr(0x4000), rw(0x9000)),
        Err(KernelError::Vm(VmError::InvalidAsid))
    );
}

#[test]
fn frames_stay_while_another_processor_may_use_them() {
    let mut kernel = boot();
    object(&mut kernel, 0, 30, 0x9000);
    map(&mut kernel, 0x4000, 0x9000);
    assert_eq!(kernel.live_cpu_bitmap_for_asid_split(ASID), 1);
    assert!(kernel.complete_unmap_shootdown_split(ASID, VirtAddr(0x4000), 0));
    kernel.with(|state| {
        state.bring_up_cpu(CpuId(2)).expect("cpu2");
        state.register_task(6).expect("task");
    });
    edit(&mut kernel, 6, |tcb| tcb.asid = Some(ASID));
    kernel.with(|state| {
        state.enqueue_on_cpu(CpuId(2), 6).expect("enqueue");
        assert_eq!(state.dispatch_next_on_cpu(CpuId(2)), Some(6));
    });
    assert_eq!(kernel.live_cpu_bitmap_for_asid_split(ASID), 5);
    assert!(!kernel.complete_unmap_shootdown_split(ASID, VirtAddr(0x4000), 0));
    assert!(!kernel.unmap_range_two_phase_split(ASID, 0x4000, 4096, &[]));
    assert_eq!(mapped(&kernel, 0x4000), None);
    assert!(kernel.state.mem.object(30).is_some(), "the frame is not free yet");
}

/// A kernel in which processors 0, 2 and 3 run tasks of one address space.
fn boot_on_three() -> SharedKernel {
    let mut kernel = boot();
    for (cpu, tid) in [(CpuId(2), 6), (CpuId(3), 7)] {
        kernel.with(|state| {
            state.bring_up_cpu(cpu).expect("cpu");
            state.register_task(tid).expect("task");
        });
        edit(&mut kernel, tid, |tcb| tcb.asid = Some(ASID));
        kernel.with(|state| {
            state.enqueue_on_cpu(cpu, tid).expect("enqueue");
            assert_eq!(state.dispatch_next_on_cpu(cpu), Some(tid));
        });
    }
    kernel
}

#[test]
fn an_unmapped_page_is_asked_of_every_other_holder() {
    let kernel = boot_on_three();
    assert_eq!(
        kernel.shootdown_request_split(ASID, VirtAddr(0x4000)),
        Some(ShootdownRequest { targets: 0b1100, want: 2, virt: VirtAddr(0x4000) })
    );
    assert_eq!(kernel.shootdown_request_split(Asid(9), VirtAddr(0x4000)), None);
    assert!(!kernel.complete_unmap_shootdown_split(ASID, VirtAddr(0x4000), 0));
    assert!(!kernel.complete_unmap_shootdown_split(ASID, VirtAddr(0x4000), 1));
    assert!(kernel.complete_unmap_shootdown_split(ASID, VirtAddr(0x4000), 2));
    assert!(!kernel.complete_unmap_shootdown_split(ASID, VirtAddr(0x4000), 3));
    assert!(kernel.complete_unmap_shootdown_split(Asid(9), VirtAddr(0x4000), 7));
}

#[test]
fn frames_go_where_every_holder_answered() {
    let mut kernel = boot_on_three();
    object(&mut kernel, 0, 30, 0x9000);
    object(&mut kernel, 1, 31, 0xA000);
    map(&mut kernel, 0x4000, 0x9000);
    map(&mut kernel, 0x5000, 0xA000);
    assert!(!kernel.unmap_range_two_phase_split(ASID, 0x4000, 8192, &[2, 1]));
    assert_eq!(mapped(&kernel, 0x4000), None);
    assert_eq!(mapped(&kernel, 0x5000), None);
    assert!(kernel.state.mem.object(30).is_none(), "both others answered");
    assert!(kernel.state.mem.object(31).is_some(), "one answer is missing");
    map(&mut kernel, 0x5000, 0xA000);
    assert!(kernel.unmap_range_two_phase_split(ASID, 0x4000, 8192, &[0, 2]));
    assert!(kernel.state.mem.object(31).is_none());
}

#[test]
fn a_page_is_unmapped_in_two_halves() {
    let mut kernel = boot_on_three();
    object(&mut kernel, 0, 30, 0x9000);
    map(&mut kernel, 0x4000, 0x9000);
    assert_eq!(kernel.unmap_page_begin_split(ASID, VirtAddr(0x6000)), None);
    let removed = kernel.unmap_page_begin_split(ASID, VirtAddr(0x4000)).expect("mapped");
    assert_eq!(removed, rw(0x9000));
    assert_eq!(mapped(&kernel, 0x4000), None);
    assert_eq!(kernel.state.mem.object(30).expect("object").1.map_refcount, 0);
    assert!(!kernel.unmap_page_finish_split(ASID, VirtAddr(0x4000), removed, 1));
    assert!(kernel.state.mem.object(30).is_some());
    assert!(kernel.unmap_page_finish_split(ASID, VirtAddr(0x4000), removed, 2));
    assert!(kernel.state.mem.object(30).is_none());
}

#[test]
fn addresses_round_up_to_pages() {
    assert_eq!(round_up_page(0), Some(0));
    assert_eq!(round_up_page(1), Some(4096));
    assert_eq!(round_up_page(4096), Some(4096));
    assert_eq!(round_up_page(u64::MAX - 4095), Some(u64::MAX - 4095));
    assert_eq!(round_up_page(u64::MAX - 4094), None);
}

#[test]
fn a_lowered_break_frees_its_pages() {
    let mut kernel = boot();
    for (va, phys) in [(0x10000, 0x20000), (0x11000, 0x21000), (0x13000, 0x23000)] {
        map(&mut kernel, va, phys);
    }
    kernel.with_memory_split_mut(|mem| mem.set_brk(5, 0x10000, 0x14000).expect("break"));
    let mut frame = TrapFrame::new(0, [0x10800, 0, 0, 0, 0, 0]);
    assert_eq!(
        kernel.try_split_vm_brk_shrink_into_frame(CPU0, &mut frame),
        Some(Ok(()))
    );
    assert_eq!(frame.ret0, 0x10800);
    assert!(mapped(&kernel, 0x10000).is_some());
    assert_eq!(mapped(&kernel, 0x11000), None);
    assert_eq!(mapped(&kernel, 0x13000), None);
    assert_eq!(kernel.state.mem.brk_of(5), Some((0x10000, 0x10800)));
    assert_eq!(kernel.d3_vm_brk_shrink_split_live_calls_split_read(), 1);
    assert_eq!(kernel.d3_vm_brk_shrink_split_live_pages_unmapped_split_read(), 2);
}

#[test]
fn other_break_requests_are_left_alone() {
    let mut kernel = boot();
    kernel.with_memory_split_mut(|mem| mem.set_brk(5, 0x10000, 0x14000).expect("break"));
    for requested in [0, 0x14000, 0x15000, 0xF000, 0x13FFF, KERNEL_SPACE_BASE, u64::MAX] {
        let mut frame = TrapFrame::new(0, [requested, 0, 0, 0, 0, 0]);
        let before = frame.clone();
        assert_eq!(kernel.try_split_vm_brk_shrink_into_frame(CPU0, &mut frame), None);
        assert_eq!(frame, before);
    }
    edit(&mut kernel, 5, |tcb| tcb.asid = None);
    let mut frame = TrapFrame::new(0, [0x10000, 0, 0, 0, 0, 0]);
    assert_eq!(
        kernel.try_split_vm_brk_shrink_into_frame(CPU0, &mut frame),
        Some(Err(TrapHandleError::Syscall(SyscallError::PageFault)))
    );
    assert_eq!(kernel.state.mem.brk_of(5), Some((0x10000, 0x14000)));
    kernel.with(|state| state.bring_up_cpu(CpuId(1)).expect("cpu1"));
    assert_eq!(kernel.try_split_vm_brk_shrink_into_frame(CPU0, &mut frame), None);
}

#[test]
fn only_leaders_move_the_break() {
    let mut kernel = boot();
    assert!(kernel.is_group_leader_split_read(5));
    assert!(!kernel.is_group_leader_split_read(99));
    kernel.with_memory_split_mut(|mem| mem.set_brk(5, 0x10000, 0x14000).expect("break"));
    edit(&mut kernel, 5, |tcb| tcb.thread_group_id.0 = 4);
    assert!(!kernel.is_group_leader_split_read(5));
    let mut frame = TrapFrame::new(0, [0x10000, 0, 0, 0, 0, 0]);
    assert_eq!(kernel.try_split_vm_brk_shrink_into_frame(CPU0, &mut frame), None);
}

#[test]
fn a_futex_wake_finds_the_waiters_of_its_word() {
    let mut kernel = boot();
    for tid in [6, 7, 8] {
        kernel.with(|state| state.register_task(tid).expect("task"));
        edit(&mut kernel, tid, |tcb| tcb.asid = Some(ASID));
    }
    assert!(kernel.futex_wait_publish_block_split_mut(CPU0, 5, 0x700));
    assert!(kernel.futex_wait_reverify_blocked(5));
    assert_eq!(kernel.current_tid_authoritative(CPU0), None);
    for (tid, word) in [(6, 0x700), (7, 0x708), (8, 0x700)] {
        edit(&mut kernel, tid, |tcb| {
            tcb.status = TaskStatus::Blocked(WaitReason::Futex(VirtAddr(word)))
        });
    }
    assert_eq!(kernel.futex_wake_split_mut(CPU0, 0x700, 2), 2);
    assert_eq!(status(&kernel, 5), TaskStatus::Runnable);
    assert_eq!(status(&kernel, 6), TaskStatus::Runnable);
    assert!(kernel.futex_wait_reverify_blocked(8));
    assert!(kernel.futex_wait_reverify_blocked(7));
    assert_eq!(kernel.futex_wake_split_mut(CPU0, 0x700, u32::MAX), 1);
    assert_eq!(kernel.futex_wake_split_mut(CPU0, 0x700, u32::MAX), 0);
    let queued = kernel.with_scheduler_split_mut(|sched| sched.runnable_count_on(CPU0));
    assert_eq!(queued, 3);
}

#[test]
fn a_wait_ends_with_the_first_wake_of_its_word() {
    let mut kernel = boot();
    assert!(kernel.futex_wait_publish_block_split_mut(CPU0, 5, 0x700));
    let waits = TaskStatus::Blocked(WaitReason::Futex(VirtAddr(0x700)));
    let queued = |kernel: &mut SharedKernel| {
        kernel.with_scheduler_split_mut(|sched| sched.runnable_count_on(CPU0))
    };
    assert_eq!(kernel.futex_wake_split_mut(CPU0, 0x708, u32::MAX), 0);
    assert_eq!(status(&kernel, 5), waits);
    assert_eq!(queued(&mut kernel), 0);
    assert_eq!(kernel.futex_wake_split_mut(CPU0, 0x700, 1), 1);
    assert_eq!(status(&kernel, 5), TaskStatus::Runnable);
    assert_eq!(queued(&mut kernel), 1);
    assert_eq!(kernel.futex_wake_split_mut(CPU0, 0x700, 1), 0);
    assert_eq!(status(&kernel, 5), TaskStatus::Runnable);
    assert_eq!(queued(&mut kernel), 1);
    assert_eq!(kernel.with(|state| state.dispatch_next_task()), Some(5));
}

#[test]
fn a_woken_driver_gets_a_home() {
    let mut kernel = boot();
    kernel.with(|state| {
        state.register_task_with_class(6, TaskClass::Driver).expect("driver")
    });
    edit(&mut kernel, 6, |tcb| {
        tcb.status = TaskStatus::Blocked(WaitReason::Futex(VirtAddr(0x700)))
    });
    assert_eq!(kernel.futex_wake_split_mut(CPU0, 0x700, 1), 1);
    assert_eq!(kernel.smp_request_wake_target_split_read(6), Some(CPU0));
}

#[test]
fn a_futex_wait_blocks_only_on_the_expected_value() {
    let mut kernel = boot();
    map(&mut kernel, 0x4000, 0x9000);
    assert_eq!(kernel.futex_wait_would_block_split_read(5, 0x4700, 1, 1), Some(true));
    assert_eq!(kernel.futex_wait_would_block_split_read(5, 0x4700, 1, 2), Some(false));
    assert_eq!(kernel.futex_wait_would_block_split_read(99, 0x4700, 1, 1), None);
    assert_eq!(kernel.futex_wait_would_block_split_read(5, 0x4FFD, 1, 1), None);
    assert_eq!(kernel.futex_wait_would_block_split_read(5, 0, 1, 1), None);
    assert_eq!(kernel.futex_wait_would_block_split_read(5, usize::MAX - 2, 1, 1), None);
    assert!(!kernel.futex_wait_publish_block_split_mut(CPU0, 99, 0x700));
    assert_eq!(kernel.current_tid_authoritative(CPU0), Some(5));
    assert_eq!(kernel.task_asid_for_tid_split_read(5), 3);
    assert_eq!(kernel.task_asid_for_tid_split_read(99), 0);
}

#[test]
fn breaks_are_recorded_as_long_as_there_is_room() {
    let mut kernel = boot();
    kernel.with_memory_split_mut(|mem| {
        for tid in 0..MAX_BRK_RECORDS as u64 {
            mem.set_brk(tid, 0x1000, 0x2000).expect("room");
        }
        assert_eq!(mem.set_brk(900, 0x1000, 0x2000), Err(KernelError::MemoryExhausted));
        assert_eq!(mem.set_brk(7, 0x1000, 0x3000), Ok(()));
        assert_eq!(mem.brk_of(7), Some((0x1000, 0x3000)));
        assert_eq!(mem.brk_of(900), None);
    });
}
