//! Access to one domain of the kernel state at a time.
//!
//! Each function hands one domain to its caller and leaves the others as they are.
use vstd::prelude::*;

use crate::capability::CapabilitySubsystem;
use crate::ipc::IpcSubsystem;
use crate::kernel::KernelState;
use crate::memory::MemorySubsystem;
use crate::runtime::{begin_boot_raw_borrow_window, BootRawBorrowWindow, SharedKernel};
use crate::scheduler::SchedulerState;
use crate::task::{TaskSubsystem, ThreadControlBlock};
use crate::trap::{FaultSubsystem, TelemetrySubsystem};
use crate::vm::AddressSpaceManager;

verus! {

impl SharedKernel {
    /// Runs `f` on the scheduler alone.
    pub fn with_scheduler_split_mut<R, F: FnOnce(&mut SchedulerState) -> R>(&mut self, f: F) -> (r: R)
        requires
            forall|d: &mut SchedulerState| *d == old(self).state.sched ==> call_requires(f, (d,)),
        ensures
            exists|d: &mut SchedulerState|
                *d == old(self).state.sched && *final(d) == final(self).state.sched
                    && #[trigger] call_ensures(f, (d,), r),
            final(self).state == (KernelState {
                sched: final(self).state.sched,
                ..old(self).state
            }),
    {
        f(&mut self.state.sched)
    }

    /// Runs `f` on the task table alone.
    pub fn with_task_tcbs_split_mut<R, F: FnOnce(&mut Vec<Option<ThreadControlBlock>>) -> R>(&mut self, f: F) -> (r: R)
        requires
            forall|d: &mut Vec<Option<ThreadControlBlock>>| *d == old(self).state.tasks.tcbs ==> call_requires(f, (d,)),
        ensures
            exists|d: &mut Vec<Option<ThreadControlBlock>>|
                *d == old(self).state.tasks.tcbs && *final(d) == final(self).state.tasks.tcbs
                    && #[trigger] call_ensures(f, (d,), r),
            final(self).state == (KernelState {
                tasks: TaskSubsystem { tcbs: final(self).state.tasks.tcbs, ..old(self).state.tasks },
                ..old(self).state
            }),
    {
        f(&mut self.state.tasks.tcbs)
    }

    /// Runs `f` on the task table and the pending thread-pointer restores alone.
    pub fn with_task_return_split_mut<R, F: FnOnce(&mut TaskSubsystem) -> R>(&mut self, f: F) -> (r: R)
        requires
            forall|d: &mut TaskSubsystem| *d == old(self).state.tasks ==> call_requires(f, (d,)),
        ensures
            exists|d: &mut TaskSubsystem|
                *d == old(self).state.tasks && *final(d) == final(self).state.tasks
                    && #[trigger] call_ensures(f, (d,), r),
            final(self).state == (KernelState {
                tasks: final(self).state.tasks,
                ..old(self).state
            }),
    {
        f(&mut self.state.tasks)
    }

    /// Runs `f` on the message domain alone.
    pub fn with_ipc_split_mut<R, F: FnOnce(&mut IpcSubsystem) -> R>(&mut self, f: F) -> (r: R)
        requires
            forall|d: &mut IpcSubsystem| *d == old(self).state.ipc ==> call_requires(f, (d,)),
        ensures
            exists|d: &mut IpcSubsystem|
                *d == old(self).state.ipc && *final(d) == final(self).state.ipc
                    && #[trigger] call_ensures(f, (d,), r),
            final(self).state == (KernelState {
                ipc: final(self).state.ipc,
                ..old(self).state
            }),
    {
        f(&mut self.state.ipc)
    }

    /// Runs `f` on the capability domain alone.
    pub fn with_capability_state_split_mut<R, F: FnOnce(&mut CapabilitySubsystem) -> R>(&mut self, f: F) -> (r: R)
        requires
            forall|d: &mut CapabilitySubsystem| *d == old(self).state.caps ==> call_requires(f, (d,)),
        ensures
            exists|d: &mut CapabilitySubsystem|
                *d == old(self).state.caps && *final(d) == final(self).state.caps
                    && #[trigger] call_ensures(f, (d,), r),
            final(self).state == (KernelState {
                caps: final(self).state.caps,
                ..old(self).state
            }),
    {
        f(&mut self.state.caps)
    }

    /// Runs `f` on the address spaces alone.
    pub fn with_vm_user_spaces_split_mut<R, F: FnOnce(&mut AddressSpaceManager) -> R>(&mut self, f: F) -> (r: R)
        requires
            forall|d: &mut AddressSpaceManager| *d == old(self).state.vm ==> call_requires(f, (d,)),
        ensures
            exists|d: &mut AddressSpaceManager|
                *d == old(self).state.vm && *final(d) == final(self).state.vm
                    && #[trigger] call_ensures(f, (d,), r),
            final(self).state == (KernelState {
                vm: final(self).state.vm,
                ..old(self).state
            }),
    {
        f(&mut self.state.vm)
    }

    /// Runs `f` on the memory domain alone.
    pub fn with_memory_split_mut<R, F: FnOnce(&mut MemorySubsystem) -> R>(&mut self, f: F) -> (r: R)
        requires
            forall|d: &mut MemorySubsystem| *d == old(self).state.mem ==> call_requires(f, (d,)),
        ensures
            exists|d: &mut MemorySubsystem|
                *d == old(self).state.mem && *final(d) == final(self).state.mem
                    && #[trigger] call_ensures(f, (d,), r),
            final(self).state == (KernelState {
                mem: final(self).state.mem,
                ..old(self).state
            }),
    {
        f(&mut self.state.mem)
    }

    /// Runs `f` on the record of faults alone.
    pub fn with_fault_split_mut<R, F: FnOnce(&mut FaultSubsystem) -> R>(&mut self, f: F) -> (r: R)
        requires
            forall|d: &mut FaultSubsystem| *d == old(self).state.faults ==> call_requires(f, (d,)),
        ensures
            exists|d: &mut FaultSubsystem|
                *d == old(self).state.faults && *final(d) == final(self).state.faults
                    && #[trigger] call_ensures(f, (d,), r),
            final(self).state == (KernelState {
                faults: final(self).state.faults,
                ..old(self).state
            }),
    {
        f(&mut self.state.faults)
    }

    /// Runs `f` on the diagnostic counters alone.
    pub fn with_telemetry_split_mut<R, F: FnOnce(&mut TelemetrySubsystem) -> R>(&mut self, f: F) -> (r: R)
        requires
            forall|d: &mut TelemetrySubsystem| *d == old(self).state.telemetry ==> call_requires(f, (d,)),
        ensures
            exists|d: &mut TelemetrySubsystem|
                *d == old(self).state.telemetry && *final(d) == final(self).state.telemetry
                    && #[trigger] call_ensures(f, (d,), r),
            final(self).state == (KernelState {
                telemetry: final(self).state.telemetry,
                ..old(self).state
            }),
    {
        f(&mut self.state.telemetry)
    }

    /// Lets `f` read the record of faults.
    pub fn with_fault_split_read<R, F: FnOnce(&FaultSubsystem) -> R>(&self, f: F) -> (r: R)
        requires
            call_requires(f, (&self.state.faults,)),
        ensures
            call_ensures(f, (&self.state.faults,), r),
    {
        f(&self.state.faults)
    }

    /// Lets `f` read the diagnostic counters.
    pub fn with_telemetry_split_read<R, F: FnOnce(&TelemetrySubsystem) -> R>(&self, f: F) -> (r: R)
        requires
            call_requires(f, (&self.state.telemetry,)),
        ensures
            call_ensures(f, (&self.state.telemetry,), r),
    {
        f(&self.state.telemetry)
    }

    /// The state for the boot code, which never gives it back.  Opens the window that tells trap
    /// handlers to keep out.
    pub fn borrow_kernel_for_boot(&mut self, window: &mut BootRawBorrowWindow) -> (r:
        &mut KernelState)
        requires
            !old(window).active,
        ensures
            final(window).active,
            *r == old(self).state,
            *final(r) == final(self).state,
    {
        begin_boot_raw_borrow_window(window);
        &mut self.state
    }
}

} // verus!
