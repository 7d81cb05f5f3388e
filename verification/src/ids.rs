//! Plain identifiers, error codes and fixed limits shared by all domains.
use vstd::prelude::*;

verus! {

/// A processor number.
#[derive(Clone, Copy, Debug, PartialEq, Eq, Structural)]
pub struct CpuId(pub u8);

/// A thread number.  Numbers are reused; a thread number with an address space
/// identifies one incarnation.
#[derive(Clone, Copy, Debug, PartialEq, Eq, Structural)]
pub struct ThreadId(pub u64);

/// An address-space number.
#[derive(Clone, Copy, Debug, PartialEq, Eq, Structural)]
pub struct Asid(pub u16);

/// A virtual address.
#[derive(Clone, Copy, Debug, PartialEq, Eq, Structural)]
pub struct VirtAddr(pub u64);

/// A physical address.
#[derive(Clone, Copy, Debug, PartialEq, Eq, Structural)]
pub struct PhysAddr(pub u64);

/// A capability number inside one capability node.
#[derive(Clone, Copy, Debug, PartialEq, Eq, Structural)]
pub struct CapId(pub u64);

/// A capability node; a process uses the node that bears its process number.
#[derive(Clone, Copy, Debug, PartialEq, Eq, Structural)]
pub struct CNodeId(pub u64);

/// The idle task, which owns no user context.
pub const IDLE_TID: u64 = 0;

/// The first user task.
pub const FIRST_USER_TID: u64 = 1;

/// The processor that the machine starts on, where the first user task belongs.
pub const BOOTSTRAP_CPU_ID: u8 = 0;

/// Processors the scheduler has slots for.
pub const MAX_CPUS: usize = 8;

/// Bytes in one page.
pub const PAGE_SIZE: usize = 4096;

/// First address that belongs to the kernel in every address space.
pub const KERNEL_SPACE_BASE: u64 = 0xFFFF_8000_0000_0000;

/// Number of system calls in the interface.
pub const SYSCALL_COUNT: usize = 32;

/// What the scheduler refuses.
#[derive(Clone, Copy, Debug, PartialEq, Eq, Structural)]
pub enum SchedulerError {
    InvalidCpu,
    CpuOffline,
    WakeOnly,
    QueueFull,
    AlreadyQueued,
}

/// What the address-space manager refuses.
#[derive(Clone, Copy, Debug, PartialEq, Eq, Structural)]
pub enum VmError {
    InvalidAddress,
    InvalidAsid,
}

/// Errors of kernel operations.
#[derive(Clone, Copy, Debug, PartialEq, Eq, Structural)]
pub enum KernelError {
    TaskMissing,
    TaskTableFull,
    WrongObject,
    InvalidCapability,
    StaleCapability,
    MissingRight,
    CapabilityFull,
    EndpointQueueFull,
    WouldBlock,
    UserMemoryFault,
    WorkQueueFull,
    MemoryExhausted,
    Vm(VmError),
    Scheduler(SchedulerError),
}

/// Errors that a system call returns to user space.
#[derive(Clone, Copy, Debug, PartialEq, Eq, Structural)]
pub enum SyscallError {
    InvalidArgs,
    InvalidCapability,
    MissingRight,
    WrongObject,
    WouldBlock,
    QueueFull,
    PageFault,
    Internal,
}

/// Errors that a trap handler reports.
#[derive(Clone, Copy, Debug, PartialEq, Eq, Structural)]
pub enum TrapHandleError {
    Syscall(SyscallError),
}

/// The system-call error for a kernel error.
pub open spec fn syscall_error_of(error: KernelError) -> SyscallError {
    match error {
        KernelError::InvalidCapability | KernelError::StaleCapability =>
            SyscallError::InvalidCapability,
        KernelError::MissingRight => SyscallError::MissingRight,
        KernelError::WrongObject => SyscallError::WrongObject,
        KernelError::WouldBlock => SyscallError::WouldBlock,
        KernelError::EndpointQueueFull => SyscallError::QueueFull,
        KernelError::UserMemoryFault => SyscallError::PageFault,
        _ => SyscallError::Internal,
    }
}

impl SyscallError {
    /// Converts a kernel error into the error that user space sees.
    pub fn from_kernel(error: KernelError) -> (r: SyscallError)
        ensures
            r == syscall_error_of(error),
    {
        match error {
            KernelError::InvalidCapability | KernelError::StaleCapability =>
                SyscallError::InvalidCapability,
            KernelError::MissingRight => SyscallError::MissingRight,
            KernelError::WrongObject => SyscallError::WrongObject,
            KernelError::WouldBlock => SyscallError::WouldBlock,
            KernelError::EndpointQueueFull => SyscallError::QueueFull,
            KernelError::UserMemoryFault => SyscallError::PageFault,
            _ => SyscallError::Internal,
        }
    }
}

/// The kernel error for a scheduler error.
pub fn map_scheduler_error(error: SchedulerError) -> (r: KernelError)
    ensures
        r == KernelError::Scheduler(error),
{
    KernelError::Scheduler(error)
}

} // verus!
