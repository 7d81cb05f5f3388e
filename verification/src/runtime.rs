//! The shared kernel: one owner of the kernel state, and the transactions on it.
use vstd::prelude::*;
use vstd::slice::slice_subrange;

use crate::capability::{CapObject, CapRights};
use crate::ids::{CpuId, KernelError};
use crate::ipc::{padded, NO_TRANSFER_CAP};
use crate::kernel::{Kernel, KernelState};
use crate::scheduler::SchedulerState;

pub mod brk;
pub mod census;
pub mod delivery;
pub mod dispatch;
pub mod futex;
pub mod paging;
pub mod pinning;
pub mod placement;
pub mod reads;
pub mod recv;
pub mod replies;
pub mod resume;
pub mod seams;
pub mod shared_region;
pub mod timeouts;
pub mod transfer;
pub mod usercopy;
pub mod wake;

verus! {

/// Whether the boot code holds the kernel state without its lock.
pub struct BootRawBorrowWindow {
    pub active: bool,
}

impl BootRawBorrowWindow {
    /// A closed window.
    pub fn closed() -> (r: BootRawBorrowWindow)
        ensures
            !r.active,
    {
        BootRawBorrowWindow { active: false }
    }
}

/// Opens the window.  It must be closed: two holders would share the state mutably.
pub fn begin_boot_raw_borrow_window(window: &mut BootRawBorrowWindow)
    requires
        !old(window).active,
    ensures
        final(window).active,
{
    window.active = true;
}

/// Closes the window.
pub fn end_boot_raw_borrow_window(window: &mut BootRawBorrowWindow)
    ensures
        !final(window).active,
    opens_invariants none
    no_unwind
{
    window.active = false;
}

/// Is the window open?
pub fn boot_raw_borrow_is_active(window: &BootRawBorrowWindow) -> (r: bool)
    ensures
        r == window.active,
{
    window.active
}

/// Holds the window open and closes it when dropped.
pub struct BootRawKernelBorrowGuard<'a> {
    pub window: &'a mut BootRawBorrowWindow,
}

impl<'a> Drop for BootRawKernelBorrowGuard<'a> {
    fn drop(&mut self)
        ensures
            !final(self).window.active,
        opens_invariants none
        no_unwind
    {
        end_boot_raw_borrow_window(self.window);
    }
}

/// What the fatal-trap report says of the trapping processor.
#[derive(Clone, Copy, Debug)]
pub struct FatalTrapReadSnapshot {
    pub current_tid: u64,
    pub current_asid: u64,
}

/// A receive capability that was looked up.
#[derive(Clone, Copy, Debug, PartialEq, Eq, Structural)]
pub struct EndpointRecvCapSnapshot {
    pub endpoint: CapObject,
    pub rights: CapRights,
    pub requester_tid: u64,
    pub requester_pid: u64,
}

impl EndpointRecvCapSnapshot {
    /// The endpoint's slot, if the object is an endpoint.
    pub fn endpoint_index(&self) -> (r: Option<usize>)
        ensures
            r == match self.endpoint {
                CapObject::Endpoint { index, .. } => Some(index),
                _ => None,
            },
    {
        match self.endpoint {
            CapObject::Endpoint { index, .. } => Some(index),
            _ => None,
        }
    }
}

/// Payload bytes a writeback plan can carry.
pub const MAX_PLAIN_PAYLOAD: usize = 128;

/// How to hand one plain message to its receiver.
#[derive(Clone, Copy, Debug)]
pub struct IpcRecvQueuedPlainWritebackPlan {
    payload: [u8; 128],
    payload_len: usize,
    sender_tid: u64,
    ret_cap: u64,
    user_payload_ptr: u64,
    user_payload_len: usize,
    is_kernel_task: bool,
    endpoint: CapObject,
}

impl IpcRecvQueuedPlainWritebackPlan {
    /// Capability word of a message that transfers none.
    pub const NO_TRANSFER_CAP: u64 = 0xFFFF_FFFF_FFFF_FFFF;

    /// The payload fits the plan.
    pub closed spec fn wf(self) -> bool {
        self.payload_len <= MAX_PLAIN_PAYLOAD
    }

    pub closed spec fn spec_payload(self) -> Seq<u8> {
        self.payload@.subrange(0, self.payload_len as int)
    }

    pub closed spec fn spec_payload_len(self) -> usize {
        self.payload_len
    }

    pub closed spec fn spec_sender_tid(self) -> u64 {
        self.sender_tid
    }

    pub closed spec fn spec_ret_cap(self) -> u64 {
        self.ret_cap
    }

    pub closed spec fn spec_is_kernel_task(self) -> bool {
        self.is_kernel_task
    }

    pub closed spec fn spec_user_payload_ptr(self) -> u64 {
        self.user_payload_ptr
    }

    pub closed spec fn spec_user_payload_len(self) -> usize {
        self.user_payload_len
    }

    pub closed spec fn spec_endpoint(self) -> CapObject {
        self.endpoint
    }

    /// A plan for a kernel task; refused when the payload is too long.
    pub fn for_kernel_task(
        snapshot: &EndpointRecvCapSnapshot,
        sender_tid: u64,
        msg_payload: &[u8],
    ) -> (r: Option<Self>)
        ensures
            r is Some <==> msg_payload@.len() <= MAX_PLAIN_PAYLOAD,
            r matches Some(plan) ==> {
                &&& plan.wf()
                &&& plan.spec_payload() == msg_payload@
                &&& plan.spec_payload_len() == msg_payload@.len()
                &&& plan.spec_sender_tid() == sender_tid
                &&& plan.spec_ret_cap() == NO_TRANSFER_CAP
                &&& plan.spec_user_payload_ptr() == 0
                &&& plan.spec_user_payload_len() == 0
                &&& plan.spec_is_kernel_task()
                &&& plan.spec_endpoint() == snapshot.endpoint
            },
    {
        if msg_payload.len() > MAX_PLAIN_PAYLOAD {
            return None;
        }
        Some(
            Self {
                payload: padded(msg_payload),
                payload_len: msg_payload.len(),
                sender_tid,
                ret_cap: NO_TRANSFER_CAP,
                user_payload_ptr: 0,
                user_payload_len: 0,
                is_kernel_task: true,
                endpoint: snapshot.endpoint,
            },
        )
    }

    /// The payload.
    pub fn payload(&self) -> (r: &[u8])
        requires
            self.wf(),
        ensures
            r@ == self.spec_payload(),
    {
        slice_subrange(self.payload.as_slice(), 0, self.payload_len)
    }

    /// Length of the payload.
    pub fn payload_len(&self) -> (r: usize)
        ensures
            r == self.spec_payload_len(),
    {
        self.payload_len
    }

    /// Who sent the message.
    pub fn sender_tid(&self) -> (r: u64)
        ensures
            r == self.spec_sender_tid(),
    {
        self.sender_tid
    }

    /// Capability lane.
    pub fn ret_cap(&self) -> (r: u64)
        ensures
            r == self.spec_ret_cap(),
    {
        self.ret_cap
    }

    /// Is the receiver a kernel task?
    pub fn is_kernel_task(&self) -> (r: bool)
        ensures
            r == self.spec_is_kernel_task(),
    {
        self.is_kernel_task
    }

    /// User buffer.
    pub fn user_payload_ptr(&self) -> (r: u64)
        ensures
            r == self.spec_user_payload_ptr(),
    {
        self.user_payload_ptr
    }

    /// Length of the user buffer.
    pub fn user_payload_len(&self) -> (r: usize)
        ensures
            r == self.spec_user_payload_len(),
    {
        self.user_payload_len
    }

    /// The endpoint the message came through.
    pub fn endpoint(&self) -> (r: CapObject)
        ensures
            r == self.spec_endpoint(),
    {
        self.endpoint
    }
}

/// The kernel state with its one owner.
pub struct SharedKernel {
    pub state: KernelState,
}

impl View for SharedKernel {
    type V = Kernel;

    open spec fn view(&self) -> Kernel {
        self.state@
    }
}

impl SharedKernel {
    /// Takes over a kernel state.
    pub fn new(state: KernelState) -> (r: Self)
        ensures
            r.state == state,
    {
        SharedKernel { state }
    }

    /// The state, for as long as the caller holds it.
    pub fn lock(&mut self) -> (r: &mut KernelState)
        ensures
            *r == old(self).state,
            *final(r) == final(self).state,
    {
        &mut self.state
    }

    /// Runs `f` on the state.
    pub fn with<R, F: FnOnce(&mut KernelState) -> R>(&mut self, f: F) -> (r: R)
        requires
            forall|k: &mut KernelState| *k == old(self).state ==> call_requires(f, (k,)),
        ensures
            exists|k: &mut KernelState|
                *k == old(self).state && *final(k) == final(self).state && #[trigger] call_ensures(
                    f,
                    (k,),
                    r,
                ),
    {
        f(&mut self.state)
    }

    /// Runs `f` on the state bound to `cpu`; refused, with nothing changed, when `cpu` is
    /// not online.
    pub fn with_cpu<R, F: FnOnce(&mut KernelState) -> R>(&mut self, cpu: CpuId, f: F) -> (r: Result<
        R,
        KernelError,
    >)
        requires
            forall|k: &mut KernelState|
                *k == bound_state(old(self).state, cpu) ==> call_requires(f, (k,)),
        ensures
            old(self)@.sched.admits(cpu) matches Err(e) ==> r == Err::<R, KernelError>(
                KernelError::Scheduler(e),
            ) && *final(self) == *old(self),
            old(self)@.sched.admits(cpu) is Ok ==> r is Ok,
            r is Ok ==> exists|k: &mut KernelState|
                *k == bound_state(old(self).state, cpu) && *final(k) == final(self).state
                    && #[trigger] call_ensures(f, (k,), r->Ok_0),
    {
        if let Err(e) = self.state.sched.validate_online_cpu(cpu) {
            return Err(KernelError::Scheduler(e));
        }
        self.state.sched.current_cpu = cpu;
        let out = self.with(f);
        let r: Result<R, KernelError> = Ok(out);
        assert(r->Ok_0 == out);
        r
    }
}

/// The state with `cpu` as its current processor.
pub open spec fn bound_state(state: KernelState, cpu: CpuId) -> KernelState {
    KernelState { sched: SchedulerState { current_cpu: cpu, ..state.sched }, ..state }
}

} // verus!
