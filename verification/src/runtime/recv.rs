//! Receiving a message that is queued already.
use vstd::prelude::*;

use crate::capability::{CapObject, CapRights, RIGHT_RECEIVE, RIGHT_SEND};
use crate::ids::{
    Asid, CNodeId, CapId, CpuId, KernelError, SyscallError, ThreadId, TrapHandleError, VirtAddr,
};
use crate::ipc::{
    bump, Ipc, IpcTelemetry, Message, QueuedRecv, RecvAdmission, SenderWakeTarget, NO_TRANSFER_CAP,
};
use crate::kernel::Kernel;
use crate::runtime::transfer::{
    CapTransferMaterializeOutcome, TransferCapDelegation, TransferCapSnapshot,
};
use crate::runtime::{EndpointRecvCapSnapshot, SharedKernel};
use crate::trap::{
    pack_register_payload, FaultAccess, FaultInfo, FaultSubsystem, RecvMeta, TrapFrame,
    RECV_META_LEN, RECV_META_REPLY_CAP, RECV_META_TRANSFERRED_CAP, SYSCALL_ARG_CAP,
    SYSCALL_ARG_INLINE_PAYLOAD0, SYSCALL_ARG_INLINE_PAYLOAD1, SYSCALL_ARG_LEN, SYSCALL_ARG_PTR,
};

verus! {

/// How a receive is served.
#[derive(Clone, Copy, Debug, PartialEq, Eq, Structural)]
pub enum RecvPlan {
    /// A kernel task gets the message in registers.
    KernelPlainEligible,
    /// A user task gets the payload in memory.
    UserPlainEligible,
    /// A user task gets payload and metadata in memory.
    UserPlainV2Eligible,
    /// Not served here.
    FallbackRequired,
}

/// Where a message goes.
#[derive(Clone, Copy, Debug, PartialEq, Eq, Structural)]
pub enum RecvWritebackPlan {
    KernelRegister,
    UserMemory { user_ptr: u64, user_len: u64 },
    UserMemoryV2 { user_ptr: u64, user_len: u64, meta_ptr: u64 },
}

/// A received message that is still to be copied to user memory.
#[derive(Clone, Copy, Debug, PartialEq, Eq)]
pub struct RecvBoundaryUserCopySnapshot {
    pub asid: Option<Asid>,
    pub receiver_tid: u64,
    pub msg: Message,
    pub writeback: RecvWritebackPlan,
    pub materialized_cap: Option<u64>,
    pub is_reply_cap: bool,
    /// The reply that the capability answers, when it is one.
    pub reply_record: Option<(usize, u64)>,
}

/// A received message whose capability, too, is still to be copied.
#[derive(Clone, Copy, Debug, PartialEq, Eq)]
pub struct RecvBoundaryOrdinaryCapSnapshot {
    pub receiver_cnode: CNodeId,
    pub object: CapObject,
    pub rights: CapRights,
    pub source_tid: u64,
    pub source_cap: CapId,
    pub wake_tid: Option<SenderWakeTarget>,
    pub asid: Option<Asid>,
    pub receiver_tid: u64,
    pub msg: Message,
    pub writeback: RecvWritebackPlan,
}

/// What the first half of a receive came to.
#[derive(Clone, Copy, Debug, PartialEq, Eq)]
pub enum RecvQueuedSplitPhaseA {
    /// Not served here; nothing was consumed.
    Fallback,
    /// Served in full.
    Completed(Result<(), TrapHandleError>),
    PendingUserCopy(RecvBoundaryUserCopySnapshot),
    PendingOrdinaryCapUserCopy(RecvBoundaryOrdinaryCapSnapshot),
}

/// What copying a message to user memory came to.
#[derive(Clone, Copy, Debug, PartialEq, Eq, Structural)]
pub enum RecvUserWritebackOutcome {
    Copied,
    Undersized,
    MetaFault,
    PayloadFault { user_ptr: u64 },
}

/// The state and the frame behind the first half of a receive.
#[verifier::ext_equal]
pub struct PhaseAEnd {
    pub kernel: Kernel,
    pub frame: TrapFrame,
    pub outcome: RecvQueuedSplitPhaseA,
}

/// The state and the frame behind a receive.
#[verifier::ext_equal]
pub struct RecvEnd {
    pub kernel: Kernel,
    pub frame: TrapFrame,
    pub result: Result<(), TrapHandleError>,
}

/// The failure that user space sees as `e`.
pub open spec fn failure(e: SyscallError) -> Result<(), TrapHandleError> {
    Err(TrapHandleError::Syscall(e))
}

/// How a receive is served: metadata asks for room for it, and only a user task can have it.
pub open spec fn recv_plan(kernel_task: bool, meta_ptr: u64, meta_len: u64) -> RecvPlan {
    if meta_ptr == 0 {
        if kernel_task {
            RecvPlan::KernelPlainEligible
        } else {
            RecvPlan::UserPlainEligible
        }
    } else if kernel_task || meta_len < RECV_META_LEN {
        RecvPlan::FallbackRequired
    } else {
        RecvPlan::UserPlainV2Eligible
    }
}

/// Decides how a receive is served.
pub fn plan_recv_core(kernel_task: bool, meta_ptr: u64, meta_len: u64) -> (r: RecvPlan)
    ensures
        r == recv_plan(kernel_task, meta_ptr, meta_len),
{
    if meta_ptr == 0 {
        if kernel_task {
            RecvPlan::KernelPlainEligible
        } else {
            RecvPlan::UserPlainEligible
        }
    } else if kernel_task || meta_len < RECV_META_LEN as u64 {
        RecvPlan::FallbackRequired
    } else {
        RecvPlan::UserPlainV2Eligible
    }
}

/// Where the message of a receive goes.
pub open spec fn writeback_of(plan: RecvPlan, frame: TrapFrame) -> RecvWritebackPlan {
    match plan {
        RecvPlan::UserPlainEligible => RecvWritebackPlan::UserMemory {
            user_ptr: frame.args@[1],
            user_len: frame.args@[2],
        },
        RecvPlan::UserPlainV2Eligible => RecvWritebackPlan::UserMemoryV2 {
            user_ptr: frame.args@[1],
            user_len: frame.args@[2],
            meta_ptr: frame.args@[3],
        },
        _ => RecvWritebackPlan::KernelRegister,
    }
}

/// Metadata of a received message.
pub open spec fn recv_meta(msg: Message, cap: Option<u64>, is_reply_cap: bool) -> RecvMeta {
    RecvMeta {
        status: 0,
        opcode: msg.opcode,
        payload_len: msg.used() as u64,
        cap: crate::trap::cap_word(cap),
        flags: if cap is None {
            0
        } else if is_reply_cap {
            RECV_META_REPLY_CAP
        } else {
            RECV_META_TRANSFERRED_CAP
        },
        sender_tid: msg.sender_tid.0,
    }
}

/// The frame and the result of a message that is handed over in registers.
pub open spec fn register_writeback(frame: TrapFrame, msg: Message) -> (
    TrapFrame,
    Result<(), TrapHandleError>,
) {
    let told = frame.ok(msg.sender_tid.0, msg.used() as u64, frame.ret2);
    match crate::trap::register_words(msg.bytes()) {
        None => (told, failure(SyscallError::InvalidArgs)),
        Some(words) => (told.with_words(words), Ok(())),
    }
}

impl Kernel {
    /// The endpoint slot that `object` names.
    pub open spec fn endpoint_slot(self, object: CapObject) -> Result<usize, KernelError> {
        match object {
            CapObject::Endpoint { index, generation } => if index
                >= self.profile.spec_config().max_endpoints || !self.ipc.exists_at(index as int) {
                Err(KernelError::WrongObject)
            } else if self.ipc.endpoints[index as int].generation != generation {
                Err(KernelError::StaleCapability)
            } else {
                Ok(index)
            },
            _ => Err(KernelError::WrongObject),
        }
    }

    /// The endpoint object that `cap` names for `tid`, if `cap` has `right`.
    pub open spec fn endpoint_cap(self, tid: u64, cap: CapId, right: u8) -> Result<
        (CapObject, CapRights, u64),
        KernelError,
    > {
        match self.tasks.group_of(tid) {
            None => Err(KernelError::InvalidCapability),
            Some(pid) => match self.caps.cnode_of(pid) {
                None => Err(KernelError::InvalidCapability),
                Some(cnode) => match self.caps.resolve(cnode, cap) {
                    None => Err(KernelError::InvalidCapability),
                    Some(capability) => if !(capability.object is Endpoint) {
                        Err(KernelError::WrongObject)
                    } else if !capability.rights.spec_allows(right) {
                        Err(KernelError::MissingRight)
                    } else {
                        Ok((capability.object, capability.rights, pid))
                    },
                },
            },
        }
    }

    /// The state after a message was taken at endpoint `e` at the receive boundary.
    pub open spec fn dequeued(self, e: int) -> Kernel {
        let after = self.ipc.received(e, RecvAdmission::Boundary);
        Kernel {
            ipc: Ipc {
                telemetry: IpcTelemetry {
                    queued_recvs: crate::ipc::bumped(after.telemetry.queued_recvs),
                    ..after.telemetry
                },
                ..after
            },
            ..self
        }
    }

    /// The state after a sender was woken, if there is one to wake.
    pub open spec fn sender_let_go(self, cpu: CpuId, wake: Option<SenderWakeTarget>) -> Kernel {
        match wake {
            Some(target) => self.after_sender_wake(cpu, target),
            None => self,
        }
    }

    /// The state after another reply was handed over.
    pub open spec fn reply_counted(self) -> Kernel {
        Kernel {
            ipc: Ipc {
                telemetry: IpcTelemetry {
                    d5_split_reply_materializations: crate::ipc::bumped(
                        self.ipc.telemetry.d5_split_reply_materializations,
                    ),
                    ..self.ipc.telemetry
                },
                ..self.ipc
            },
            ..self
        }
    }

    /// Behind the hand-over of a message and its capability: the sender goes on, and the
    /// message is in registers or still to be copied.
    pub open spec fn phase_a_tail(
        self,
        cpu: CpuId,
        frame: TrapFrame,
        wake: Option<SenderWakeTarget>,
        copy: RecvBoundaryUserCopySnapshot,
    ) -> PhaseAEnd {
        let kernel = self.sender_let_go(cpu, wake);
        match copy.writeback {
            RecvWritebackPlan::KernelRegister => {
                let (told, result) = register_writeback(frame, copy.msg);
                PhaseAEnd {
                    kernel,
                    frame: told,
                    outcome: RecvQueuedSplitPhaseA::Completed(result),
                }
            },
            _ => PhaseAEnd {
                kernel,
                frame,
                outcome: RecvQueuedSplitPhaseA::PendingUserCopy(
                    RecvBoundaryUserCopySnapshot {
                        asid: kernel.tasks.asid_of(copy.receiver_tid),
                        ..copy
                    },
                ),
            },
        }
    }

    /// The first half of a receive ends with an error.
    pub open spec fn phase_a_failed(self, frame: TrapFrame, e: SyscallError) -> PhaseAEnd {
        PhaseAEnd {
            kernel: self,
            frame,
            outcome: RecvQueuedSplitPhaseA::Completed(failure(e)),
        }
    }

    /// A message with a capability for a user task: the capability is looked up, and copied
    /// later.
    pub open spec fn phase_a_user_cap(
        self,
        frame: TrapFrame,
        e: int,
        receiver: u64,
        msg: Message,
        wake: Option<SenderWakeTarget>,
        writeback: RecvWritebackPlan,
    ) -> PhaseAEnd {
        let handle = msg.transfer;
        let taken = self.envelope_gone(handle, e, receiver);
        match self.ipc.takeable(handle, e, ThreadId(receiver)) {
            None => taken.phase_a_failed(frame, SyscallError::InvalidCapability),
            Some(env) => match taken.task_capability(env.source_tid.0, env.source_cap) {
                Err(err) => taken.phase_a_failed(frame, crate::ids::syscall_error_of(err)),
                Ok(source) => match taken.cnode_of_task(receiver) {
                    None => taken.phase_a_failed(frame, SyscallError::InvalidCapability),
                    Some(cnode) => PhaseAEnd {
                        kernel: taken,
                        frame,
                        outcome: RecvQueuedSplitPhaseA::PendingOrdinaryCapUserCopy(
                            RecvBoundaryOrdinaryCapSnapshot {
                                receiver_cnode: cnode,
                                object: source.object,
                                rights: source.rights,
                                source_tid: env.source_tid.0,
                                source_cap: env.source_cap,
                                wake_tid: wake,
                                asid: taken.tasks.asid_of(receiver),
                                receiver_tid: receiver,
                                msg,
                                writeback,
                            },
                        ),
                    },
                },
            },
        }
    }

    /// A message with a capability for a kernel task: the capability is copied at once.
    pub open spec fn phase_a_kernel_cap(
        self,
        cpu: CpuId,
        frame: TrapFrame,
        e: int,
        receiver: u64,
        msg: Message,
        wake: Option<SenderWakeTarget>,
    ) -> PhaseAEnd {
        let handed = self.after_cap_hand_over(e, receiver, msg.transfer);
        match self.cap_hand_over(e, receiver, msg.transfer) {
            Err(err) => handed.phase_a_failed(frame, err),
            Ok(cap) => if cap.0 == NO_TRANSFER_CAP {
                handed.phase_a_failed(frame, SyscallError::Internal)
            } else {
                handed.phase_a_tail(
                    cpu,
                    frame.with_cap_word(cap.0),
                    wake,
                    RecvBoundaryUserCopySnapshot {
                        asid: None,
                        receiver_tid: receiver,
                        msg,
                        writeback: RecvWritebackPlan::KernelRegister,
                        materialized_cap: Some(cap.0),
                        is_reply_cap: false,
                        reply_record: None,
                    },
                )
            },
        }
    }

    /// A message with a reply, or without any capability.
    pub open spec fn phase_a_reply(
        self,
        cpu: CpuId,
        frame: TrapFrame,
        e: int,
        receiver: u64,
        msg: Message,
        wake: Option<SenderWakeTarget>,
        writeback: RecvWritebackPlan,
    ) -> PhaseAEnd {
        match msg.spec_transferred_cap() {
            None => self.phase_a_tail(
                cpu,
                frame.with_cap_word(NO_TRANSFER_CAP),
                wake,
                RecvBoundaryUserCopySnapshot {
                    asid: None,
                    receiver_tid: receiver,
                    msg,
                    writeback,
                    materialized_cap: None,
                    is_reply_cap: msg.spec_is_reply_cap(),
                    reply_record: None,
                },
            ),
            Some(handle) => {
                let handed = self.after_reply_hand_over(e, receiver, handle.0);
                match self.reply_hand_over(e, receiver, handle.0) {
                    Err(err) => handed.phase_a_failed(frame, err),
                    Ok(m) => if m.cap.0 == NO_TRANSFER_CAP {
                        handed.phase_a_failed(frame, SyscallError::Internal)
                    } else {
                        handed.reply_counted().phase_a_tail(
                            cpu,
                            frame.with_cap_word(m.cap.0),
                            wake,
                            RecvBoundaryUserCopySnapshot {
                                asid: None,
                                receiver_tid: receiver,
                                msg,
                                writeback,
                                materialized_cap: Some(m.cap.0),
                                is_reply_cap: msg.spec_is_reply_cap(),
                                reply_record: Some((m.reply_index, m.reply_generation)),
                            },
                        )
                    },
                }
            },
        }
    }

    /// The first half of a receive at the endpoint of `snapshot`.
    pub open spec fn phase_a(
        self,
        cpu: CpuId,
        frame: TrapFrame,
        snapshot: EndpointRecvCapSnapshot,
    ) -> PhaseAEnd {
        let receiver = snapshot.requester_tid;
        let plan = recv_plan(
            self.tasks.asid_of(receiver) is None,
            frame.args@[3],
            frame.args@[4],
        );
        let fallback = PhaseAEnd {
            kernel: self,
            frame,
            outcome: RecvQueuedSplitPhaseA::Fallback,
        };
        if plan is FallbackRequired {
            fallback
        } else {
            match self.endpoint_slot(snapshot.endpoint) {
                Err(err) => self.phase_a_failed(frame, crate::ids::syscall_error_of(err)),
                Ok(e) => match self.ipc.recv_result(e as int, RecvAdmission::Boundary) {
                    QueuedRecv::Delivered { msg, wake } => {
                        let taken = self.dequeued(e as int);
                        let writeback = writeback_of(plan, frame);
                        if msg.spec_transferred_cap() is Some && !msg.spec_is_reply_cap() {
                            if plan is KernelPlainEligible {
                                taken.phase_a_kernel_cap(cpu, frame, e as int, receiver, msg, wake)
                            } else {
                                taken.phase_a_user_cap(
                                    frame,
                                    e as int,
                                    receiver,
                                    msg,
                                    wake,
                                    writeback,
                                )
                            }
                        } else {
                            taken.phase_a_reply(
                                cpu,
                                frame,
                                e as int,
                                receiver,
                                msg,
                                wake,
                                writeback,
                            )
                        }
                    },
                    _ => fallback,
                },
            }
        }
    }

    /// What copying a message to user memory comes to: the payload must fit, and metadata is
    /// copied first.
    pub open spec fn writeback_result(self, pending: RecvBoundaryUserCopySnapshot) -> RecvUserWritebackOutcome {
        let bytes = pending.msg.bytes();
        match pending.writeback {
            RecvWritebackPlan::KernelRegister => RecvUserWritebackOutcome::Copied,
            RecvWritebackPlan::UserMemory { user_ptr, user_len } => if bytes.len() > user_len {
                RecvUserWritebackOutcome::Undersized
            } else if pending.asid is None || !self.user_copy_fits(
                pending.asid->0,
                user_ptr,
                bytes,
            ) {
                RecvUserWritebackOutcome::PayloadFault { user_ptr }
            } else {
                RecvUserWritebackOutcome::Copied
            },
            RecvWritebackPlan::UserMemoryV2 { user_ptr, user_len, meta_ptr } => if bytes.len()
                > user_len {
                RecvUserWritebackOutcome::Undersized
            } else if pending.asid is None || !self.user_copy_fits(
                pending.asid->0,
                meta_ptr,
                self.pending_meta(pending),
            ) {
                RecvUserWritebackOutcome::MetaFault
            } else if !self.user_copy_fits(pending.asid->0, user_ptr, bytes) {
                RecvUserWritebackOutcome::PayloadFault { user_ptr }
            } else {
                RecvUserWritebackOutcome::Copied
            },
        }
    }

    /// Metadata of a message that is still to be copied.
    pub open spec fn pending_meta(self, pending: RecvBoundaryUserCopySnapshot) -> Seq<u8> {
        recv_meta(pending.msg, pending.materialized_cap, pending.is_reply_cap).bytes()
    }

    /// The state after copying a message to user memory.
    pub open spec fn after_writeback(self, pending: RecvBoundaryUserCopySnapshot) -> Kernel {
        let bytes = pending.msg.bytes();
        let outcome = self.writeback_result(pending);
        match pending.writeback {
            RecvWritebackPlan::KernelRegister => self,
            RecvWritebackPlan::UserMemory { user_ptr, .. } => if outcome is Copied {
                self.user_copied(pending.asid->0, user_ptr, bytes)
            } else {
                self
            },
            RecvWritebackPlan::UserMemoryV2 { user_ptr, meta_ptr, .. } => {
                let told = self.user_copied(
                    pending.asid->0,
                    meta_ptr,
                    self.pending_meta(pending),
                );
                if outcome is Copied {
                    told.user_copied(pending.asid->0, user_ptr, bytes)
                } else if outcome is PayloadFault {
                    told
                } else {
                    self
                }
            },
        }
    }

    /// The state after the capability of an undelivered message was taken back.
    pub open spec fn pending_cap_undone(self, pending: RecvBoundaryUserCopySnapshot) -> Kernel {
        match (pending.materialized_cap, pending.reply_record) {
            (Some(cap), Some((index, generation))) => self.reply_taken_back(
                pending.receiver_tid,
                CapId(cap),
                index,
                generation,
            ),
            (Some(cap), None) => self.copy_taken_back(pending.receiver_tid, CapId(cap)),
            (None, _) => self,
        }
    }

    /// The state after a fault of user memory at `addr` was recorded from `cpu`.
    pub open spec fn fault_noted(self, cpu: CpuId, addr: u64) -> Kernel {
        if self.sched.admits(cpu) is Ok {
            Kernel {
                faults: FaultSubsystem {
                    last_fault: Some(
                        FaultInfo { addr: VirtAddr(addr), access: FaultAccess::Write },
                    ),
                    ..self.faults
                },
                ..self.bound(cpu)
            }
        } else {
            self
        }
    }

    /// The second half of a receive: the copy to user memory and what follows from it.
    pub open spec fn user_copy_end(
        self,
        cpu: CpuId,
        frame: TrapFrame,
        pending: RecvBoundaryUserCopySnapshot,
    ) -> RecvEnd {
        let copied = self.after_writeback(pending);
        let len = pending.msg.used() as u64;
        let cleared = if pending.materialized_cap is Some {
            frame.with_cap_word(NO_TRANSFER_CAP)
        } else {
            frame
        };
        match self.writeback_result(pending) {
            RecvUserWritebackOutcome::Copied => RecvEnd {
                kernel: copied,
                frame: if pending.writeback is UserMemory {
                    frame.ok(pending.msg.sender_tid.0, len, frame.ret2)
                } else {
                    frame.ok(0, len, frame.ret2)
                },
                result: Ok(()),
            },
            RecvUserWritebackOutcome::Undersized => RecvEnd {
                kernel: copied.pending_cap_undone(pending),
                frame: cleared,
                result: failure(SyscallError::InvalidArgs),
            },
            RecvUserWritebackOutcome::MetaFault => RecvEnd {
                kernel: copied.pending_cap_undone(pending),
                frame: cleared,
                result: failure(SyscallError::PageFault),
            },
            RecvUserWritebackOutcome::PayloadFault { user_ptr } => RecvEnd {
                kernel: copied.fault_noted(cpu, user_ptr),
                frame: if copied.sched.admits(cpu) is Ok {
                    frame.failed(SyscallError::PageFault.spec_code())
                } else {
                    frame
                },
                result: Ok(()),
            },
        }
    }

    /// The second half of a receive whose capability is copied first.
    pub open spec fn ordinary_cap_end(
        self,
        cpu: CpuId,
        frame: TrapFrame,
        pending: RecvBoundaryOrdinaryCapSnapshot,
    ) -> RecvEnd {
        let snap = TransferCapSnapshot {
            receiver_cnode: pending.receiver_cnode,
            object: pending.object,
            rights: pending.rights,
        };
        let delegation = TransferCapDelegation {
            source_tid: pending.source_tid,
            source_cap: pending.source_cap,
            dest_tid: pending.receiver_tid,
        };
        let handed = self.after_materialize(snap, Some(delegation));
        match self.materialize_result(snap, Some(delegation)) {
            Err(err) => RecvEnd {
                kernel: self,
                frame,
                result: failure(crate::ids::syscall_error_of(err)),
            },
            Ok(CapTransferMaterializeOutcome::DeferredReplyCap) => RecvEnd {
                kernel: self,
                frame,
                result: failure(SyscallError::WrongObject),
            },
            Ok(CapTransferMaterializeOutcome::Materialized(cap)) => if cap.0 == NO_TRANSFER_CAP {
                RecvEnd {
                    kernel: handed.copy_taken_back(pending.receiver_tid, cap),
                    frame,
                    result: failure(SyscallError::Internal),
                }
            } else {
                handed.sender_let_go(cpu, pending.wake_tid).user_copy_end(
                    cpu,
                    frame.with_cap_word(cap.0),
                    RecvBoundaryUserCopySnapshot {
                        asid: pending.asid,
                        receiver_tid: pending.receiver_tid,
                        msg: pending.msg,
                        writeback: pending.writeback,
                        materialized_cap: Some(cap.0),
                        is_reply_cap: false,
                        reply_record: None,
                    },
                )
            },
        }
    }

    /// A whole receive on `cpu`: nothing when it is not served here.
    pub open spec fn split_recv(self, cpu: CpuId, frame: TrapFrame) -> Option<RecvEnd> {
        if !self.sched.online(cpu) || self.sched.current_on(cpu) is None {
            None
        } else {
            let tid = self.sched.current_on(cpu)->0;
            match self.endpoint_cap(tid, CapId(frame.args@[0]), RIGHT_RECEIVE) {
                Err(err) => Some(
                    RecvEnd {
                        kernel: self,
                        frame,
                        result: failure(crate::ids::syscall_error_of(err)),
                    },
                ),
                Ok((endpoint, rights, pid)) => {
                    let a = self.phase_a(
                        cpu,
                        frame,
                        EndpointRecvCapSnapshot {
                            endpoint,
                            rights,
                            requester_tid: tid,
                            requester_pid: pid,
                        },
                    );
                    match a.outcome {
                        RecvQueuedSplitPhaseA::Fallback => None,
                        RecvQueuedSplitPhaseA::Completed(result) => Some(
                            RecvEnd { kernel: a.kernel, frame: a.frame, result },
                        ),
                        RecvQueuedSplitPhaseA::PendingUserCopy(pending) => Some(
                            a.kernel.user_copy_end(cpu, a.frame, pending),
                        ),
                        RecvQueuedSplitPhaseA::PendingOrdinaryCapUserCopy(pending) => Some(
                            a.kernel.ordinary_cap_end(cpu, a.frame, pending),
                        ),
                    }
                },
            }
        }
    }
}

impl SharedKernel {
    /// Takes the first message at an endpoint if it carries no capability.
    pub fn ipc_try_recv_queued_plain_endpoint_only_split(&mut self, endpoint_idx: usize) -> (r:
        QueuedRecv)
        ensures
            r == old(self)@.ipc.recv_result(endpoint_idx as int, RecvAdmission::Plain),
            final(self)@ == (Kernel {
                ipc: old(self)@.ipc.received(endpoint_idx as int, RecvAdmission::Plain),
                ..old(self)@
            }),
    {
        self.state.ipc.recv_queued(endpoint_idx, RecvAdmission::Plain)
    }

    /// Takes the first message at an endpoint, whatever it carries.
    pub fn ipc_try_recv_queued_with_cap_transfer_split(&mut self, endpoint_idx: usize) -> (r:
        QueuedRecv)
        ensures
            r == old(self)@.ipc.recv_result(endpoint_idx as int, RecvAdmission::WithCapTransfer),
            final(self)@ == (Kernel {
                ipc: old(self)@.ipc.received(endpoint_idx as int, RecvAdmission::WithCapTransfer),
                ..old(self)@
            }),
    {
        self.state.ipc.recv_queued(endpoint_idx, RecvAdmission::WithCapTransfer)
    }

    /// The endpoint slot that `object` names, if it is this very endpoint.
    pub fn resolve_endpoint_index_split(&self, object: CapObject) -> (r: Result<usize, KernelError>)
        ensures
            r == self@.endpoint_slot(object),
            r matches Ok(e) ==> e < self@.ipc.endpoints.len(),
    {
        match object {
            CapObject::Endpoint { index, generation } => {
                if index >= self.state.profile.config().max_endpoints {
                    return Err(KernelError::WrongObject);
                }
                if index >= self.state.ipc.endpoints.len() {
                    return Err(KernelError::WrongObject);
                }
                let slot = self.state.ipc.endpoints[index];
                if slot.mode.is_none() {
                    return Err(KernelError::WrongObject);
                }
                if slot.generation != generation {
                    return Err(KernelError::StaleCapability);
                }
                Ok(index)
            },
            _ => Err(KernelError::WrongObject),
        }
    }

    /// The object in the envelope that `handle` names.
    pub fn peek_transfer_envelope_source_object_split(&self, handle: u64) -> (r: Option<CapObject>)
        ensures
            r == match self@.ipc.envelope_at(handle) {
                Some(env) => Some(env.source_object),
                None => None,
            },
    {
        match self.state.ipc.envelope_at(handle) {
            Some(env) => Some(env.source_object),
            None => None,
        }
    }

    /// Counts a receive of a queued message.
    pub fn note_endpoint_only_queued_recv_split_seam(&mut self)
        ensures
            final(self)@ == (Kernel {
                ipc: Ipc {
                    telemetry: IpcTelemetry {
                        queued_recvs: crate::ipc::bumped(old(self)@.ipc.telemetry.queued_recvs),
                        ..old(self)@.ipc.telemetry
                    },
                    ..old(self)@.ipc
                },
                ..old(self)@
            }),
    {
        self.state.ipc.telemetry.queued_recvs = bump(self.state.ipc.telemetry.queued_recvs);
    }

    /// Counts a reply that was handed over.
    pub fn note_d5_split_reply_materialize_split(&mut self)
        ensures
            final(self)@ == old(self)@.reply_counted(),
    {
        self.state.ipc.telemetry.d5_split_reply_materializations =
        bump(self.state.ipc.telemetry.d5_split_reply_materializations);
    }

    /// The address space of `tid`.
    pub fn task_asid_option_split_read(&self, tid: u64) -> (r: Option<Asid>)
        ensures
            r == self@.tasks.asid_of(tid),
    {
        self.state.tasks.asid_of(tid)
    }

    /// The endpoint object that `cap` names for `tid`, if `cap` has `right`.
    fn endpoint_cap(&self, tid: u64, cap: CapId, right: u8) -> (r: Result<
        (CapObject, CapRights, u64),
        KernelError,
    >)
        ensures
            r == self@.endpoint_cap(tid, cap, right),
    {
        let pid = match self.state.tasks.group_of(tid) {
            None => {
                return Err(KernelError::InvalidCapability);
            },
            Some(pid) => pid,
        };
        let cnode = match self.state.caps.cnode_of(pid) {
            None => {
                return Err(KernelError::InvalidCapability);
            },
            Some(cnode) => cnode,
        };
        match self.state.caps.resolve(cnode, cap) {
            None => Err(KernelError::InvalidCapability),
            Some(capability) => {
                if !matches!(capability.object, CapObject::Endpoint { .. }) {
                    return Err(KernelError::WrongObject);
                }
                if !capability.rights.allows(right) {
                    return Err(KernelError::MissingRight);
                }
                Ok((capability.object, capability.rights, pid))
            },
        }
    }

    /// The endpoint that `requester_tid` may receive from by `cap`.
    pub fn resolve_endpoint_recv_cap_split_read(&self, requester_tid: u64, cap: CapId) -> (r: Result<
        EndpointRecvCapSnapshot,
        KernelError,
    >)
        ensures
            match self@.endpoint_cap(requester_tid, cap, RIGHT_RECEIVE) {
                Err(e) => r == Err::<EndpointRecvCapSnapshot, KernelError>(e),
                Ok((endpoint, rights, pid)) => r == Ok::<EndpointRecvCapSnapshot, KernelError>(
                    EndpointRecvCapSnapshot {
                        endpoint,
                        rights,
                        requester_tid,
                        requester_pid: pid,
                    },
                ),
            },
    {
        match self.endpoint_cap(requester_tid, cap, RIGHT_RECEIVE) {
            Err(e) => Err(e),
            Ok((endpoint, rights, requester_pid)) => Ok(
                EndpointRecvCapSnapshot { endpoint, rights, requester_tid, requester_pid },
            ),
        }
    }

    /// The endpoint that `requester_tid` may send to by `cap`.
    pub fn resolve_endpoint_send_cap_split_read(&self, requester_tid: u64, cap: CapId) -> (r: Result<
        CapObject,
        KernelError,
    >)
        ensures
            match self@.endpoint_cap(requester_tid, cap, RIGHT_SEND) {
                Err(e) => r == Err::<CapObject, KernelError>(e),
                Ok((endpoint, _, _)) => r == Ok::<CapObject, KernelError>(endpoint),
            },
    {
        match self.endpoint_cap(requester_tid, cap, RIGHT_SEND) {
            Err(e) => Err(e),
            Ok((endpoint, _, _)) => Ok(endpoint),
        }
    }

    /// Wakes a sender, if there is one to wake.
    fn let_sender_go(&mut self, cpu: CpuId, wake: Option<SenderWakeTarget>)
        ensures
            final(self)@ == old(self)@.sender_let_go(cpu, wake),
    {
        if let Some(target) = wake {
            let _ = self.apply_split_sender_wake_plan_split(cpu, target);
        }
    }

    /// Hands a message over in registers.
    fn write_registers(frame: &mut TrapFrame, msg: &Message) -> (r: Result<(), TrapHandleError>)
        ensures
            (*final(frame), r) == register_writeback(*old(frame), *msg),
    {
        let bytes = msg.as_slice();
        let ret2: u64 = frame.ret2;
        frame.set_ok(msg.sender_tid.0, bytes.len() as u64, ret2);
        match pack_register_payload(bytes) {
            None => Err(TrapHandleError::Syscall(SyscallError::InvalidArgs)),
            Some(words) => {
                frame.set_words(words);
                Ok(())
            },
        }
    }

    /// Lets the sender go and hands the message over, or leaves it to be copied.
    fn finish_phase_a(
        &mut self,
        cpu: CpuId,
        frame: &mut TrapFrame,
        wake: Option<SenderWakeTarget>,
        copy: RecvBoundaryUserCopySnapshot,
    ) -> (r: RecvQueuedSplitPhaseA)
        ensures
            (PhaseAEnd { kernel: final(self)@, frame: *final(frame), outcome: r }) == old(
                self,
            )@.phase_a_tail(cpu, *old(frame), wake, copy),
    {
        self.let_sender_go(cpu, wake);
        match copy.writeback {
            RecvWritebackPlan::KernelRegister => RecvQueuedSplitPhaseA::Completed(
                Self::write_registers(frame, &copy.msg),
            ),
            _ => {
                let asid = self.task_asid_option_split_read(copy.receiver_tid);
                RecvQueuedSplitPhaseA::PendingUserCopy(
                    RecvBoundaryUserCopySnapshot { asid, ..copy },
                )
            },
        }
    }

    /// Looks up the capability of a message for a user task.
    fn phase_a_user_cap(
        &mut self,
        endpoint_idx: usize,
        receiver_tid: u64,
        msg: Message,
        wake_tid: Option<SenderWakeTarget>,
        writeback: RecvWritebackPlan,
        frame: &TrapFrame,
    ) -> (r: RecvQueuedSplitPhaseA)
        ensures
            (PhaseAEnd { kernel: final(self)@, frame: *frame, outcome: r }) == old(
                self,
            )@.phase_a_user_cap(
                *frame,
                endpoint_idx as int,
                receiver_tid,
                msg,
                wake_tid,
                writeback,
            ),
    {
        let facts = match self.take_transfer_envelope_facts_split(
            msg.transfer,
            endpoint_idx,
            ThreadId(receiver_tid),
        ) {
            None => {
                return RecvQueuedSplitPhaseA::Completed(
                    Err(TrapHandleError::Syscall(SyscallError::InvalidCapability)),
                );
            },
            Some(facts) => facts,
        };
        let source = match self.resolve_capability_for_task_split(
            facts.source_tid,
            facts.source_cap,
        ) {
            Err(e) => {
                return RecvQueuedSplitPhaseA::Completed(
                    Err(TrapHandleError::Syscall(SyscallError::from_kernel(e))),
                );
            },
            Ok(source) => source,
        };
        let receiver_cnode = match self.task_cnode_split(receiver_tid) {
            None => {
                return RecvQueuedSplitPhaseA::Completed(
                    Err(TrapHandleError::Syscall(SyscallError::InvalidCapability)),
                );
            },
            Some(cnode) => cnode,
        };
        let asid = self.task_asid_option_split_read(receiver_tid);
        RecvQueuedSplitPhaseA::PendingOrdinaryCapUserCopy(
            RecvBoundaryOrdinaryCapSnapshot {
                receiver_cnode,
                object: source.object,
                rights: source.rights,
                source_tid: facts.source_tid,
                source_cap: facts.source_cap,
                wake_tid,
                asid,
                receiver_tid,
                msg,
                writeback,
            },
        )
    }

    /// The first half of a receive: takes the message and its capability, and lets the
    /// sender go.  A message that is not served here stays queued.
    pub fn recv_queued_split_phase_a_split(
        &mut self,
        cpu: CpuId,
        frame: &mut TrapFrame,
        snapshot: &EndpointRecvCapSnapshot,
    ) -> (r: RecvQueuedSplitPhaseA)
        ensures
            (PhaseAEnd { kernel: final(self)@, frame: *final(frame), outcome: r }) == old(
                self,
            )@.phase_a(cpu, *old(frame), *snapshot),
    {
        let receiver_tid: u64 = snapshot.requester_tid;
        let is_kernel_task = self.task_asid_option_split_read(receiver_tid).is_none();
        let user_ptr: u64 = frame.arg(SYSCALL_ARG_PTR);
        let user_len: u64 = frame.arg(SYSCALL_ARG_LEN);
        let meta_ptr: u64 = frame.arg(SYSCALL_ARG_INLINE_PAYLOAD0);
        let meta_len: u64 = frame.arg(SYSCALL_ARG_INLINE_PAYLOAD1);
        let plan = plan_recv_core(is_kernel_task, meta_ptr, meta_len);
        let writeback = match plan {
            RecvPlan::KernelPlainEligible => RecvWritebackPlan::KernelRegister,
            RecvPlan::UserPlainEligible => RecvWritebackPlan::UserMemory { user_ptr, user_len },
            RecvPlan::UserPlainV2Eligible => RecvWritebackPlan::UserMemoryV2 {
                user_ptr,
                user_len,
                meta_ptr,
            },
            RecvPlan::FallbackRequired => {
                return RecvQueuedSplitPhaseA::Fallback;
            },
        };
        let endpoint_idx = match self.resolve_endpoint_index_split(snapshot.endpoint) {
            Err(e) => {
                return RecvQueuedSplitPhaseA::Completed(
                    Err(TrapHandleError::Syscall(SyscallError::from_kernel(e))),
                );
            },
            Ok(idx) => idx,
        };
        let (msg, wake) = match self.state.ipc.recv_queued(endpoint_idx, RecvAdmission::Boundary) {
            QueuedRecv::Delivered { msg, wake } => (msg, wake),
            _ => {
                return RecvQueuedSplitPhaseA::Fallback;
            },
        };
        self.note_endpoint_only_queued_recv_split_seam();
        let is_reply_cap = msg.is_reply_cap();
        let carried = msg.transferred_cap();
        if carried.is_some() && !is_reply_cap {
            if plan != RecvPlan::KernelPlainEligible {
                return self.phase_a_user_cap(
                    endpoint_idx,
                    receiver_tid,
                    msg,
                    wake,
                    writeback,
                    frame,
                );
            }
            let local_cap = match self.materialize_ordinary_cap_split(
                endpoint_idx,
                receiver_tid,
                msg.transfer,
            ) {
                Err(e) => {
                    return RecvQueuedSplitPhaseA::Completed(Err(TrapHandleError::Syscall(e)));
                },
                Ok(cap) => cap,
            };
            if let Err(e) = frame.encode_transfer_cap(Some(local_cap.0)) {
                return RecvQueuedSplitPhaseA::Completed(Err(TrapHandleError::Syscall(e)));
            }
            return self.finish_phase_a(
                cpu,
                frame,
                wake,
                RecvBoundaryUserCopySnapshot {
                    asid: None,
                    receiver_tid,
                    msg,
                    writeback,
                    materialized_cap: Some(local_cap.0),
                    is_reply_cap: false,
                    reply_record: None,
                },
            );
        }
        let (materialized_cap, reply_record) = match carried {
            None => {
                let _ = frame.encode_transfer_cap(None);
                (None, None)
            },
            Some(handle) => {
                let handed = match self.materialize_reply_cap_split(
                    endpoint_idx,
                    receiver_tid,
                    handle.0,
                ) {
                    Err(e) => {
                        return RecvQueuedSplitPhaseA::Completed(Err(TrapHandleError::Syscall(e)));
                    },
                    Ok(handed) => handed,
                };
                if let Err(e) = frame.encode_transfer_cap(Some(handed.cap.0)) {
                    return RecvQueuedSplitPhaseA::Completed(Err(TrapHandleError::Syscall(e)));
                }
                self.note_d5_split_reply_materialize_split();
                (Some(handed.cap.0), Some((handed.reply_index, handed.reply_generation)))
            },
        };
        self.finish_phase_a(
            cpu,
            frame,
            wake,
            RecvBoundaryUserCopySnapshot {
                asid: None,
                receiver_tid,
                msg,
                writeback,
                materialized_cap,
                is_reply_cap,
                reply_record,
            },
        )
    }

    /// Copies a message to user memory.
    fn execute_user_writeback(&mut self, pending: &RecvBoundaryUserCopySnapshot) -> (r:
        RecvUserWritebackOutcome)
        ensures
            r == old(self)@.writeback_result(*pending),
            final(self)@ == old(self)@.after_writeback(*pending),
    {
        let bytes = pending.msg.as_slice();
        match pending.writeback {
            RecvWritebackPlan::KernelRegister => RecvUserWritebackOutcome::Copied,
            RecvWritebackPlan::UserMemory { user_ptr, user_len } => {
                if bytes.len() as u64 > user_len {
                    return RecvUserWritebackOutcome::Undersized;
                }
                match pending.asid {
                    None => RecvUserWritebackOutcome::PayloadFault { user_ptr },
                    Some(asid) => match self.copy_to_user_split(asid, user_ptr, bytes) {
                        Err(_) => RecvUserWritebackOutcome::PayloadFault { user_ptr },
                        Ok(_) => RecvUserWritebackOutcome::Copied,
                    },
                }
            },
            RecvWritebackPlan::UserMemoryV2 { user_ptr, user_len, meta_ptr } => {
                if bytes.len() as u64 > user_len {
                    return RecvUserWritebackOutcome::Undersized;
                }
                let asid = match pending.asid {
                    None => {
                        return RecvUserWritebackOutcome::MetaFault;
                    },
                    Some(asid) => asid,
                };
                let meta = RecvMeta {
                    status: 0,
                    opcode: pending.msg.opcode,
                    payload_len: bytes.len() as u64,
                    cap: match pending.materialized_cap {
                        Some(cap) => cap,
                        None => NO_TRANSFER_CAP,
                    },
                    flags: if pending.materialized_cap.is_none() {
                        0
                    } else if pending.is_reply_cap {
                        RECV_META_REPLY_CAP
                    } else {
                        RECV_META_TRANSFERRED_CAP
                    },
                    sender_tid: pending.msg.sender_tid.0,
                };
                let encoded = meta.encode();
                if self.copy_to_user_split(asid, meta_ptr, encoded.as_slice()).is_err() {
                    return RecvUserWritebackOutcome::MetaFault;
                }
                match self.copy_to_user_split(asid, user_ptr, bytes) {
                    Err(_) => RecvUserWritebackOutcome::PayloadFault { user_ptr },
                    Ok(_) => RecvUserWritebackOutcome::Copied,
                }
            },
        }
    }

    /// Takes back the capability of a message that could not be delivered.
    fn undo_pending_cap(&mut self, frame: &mut TrapFrame, pending: &RecvBoundaryUserCopySnapshot)
        ensures
            final(self)@ == old(self)@.pending_cap_undone(*pending),
            *final(frame) == if pending.materialized_cap is Some {
                old(frame).with_cap_word(NO_TRANSFER_CAP)
            } else {
                *old(frame)
            },
    {
        if let Some(cap) = pending.materialized_cap {
            match pending.reply_record {
                Some((index, generation)) => {
                    let _ = self.rollback_reply_cap_split(
                        pending.receiver_tid,
                        CapId(cap),
                        index,
                        generation,
                    );
                },
                None => {
                    let _ = self.rollback_materialized_recv_cap_no_vm_split(
                        pending.receiver_tid,
                        CapId(cap),
                    );
                },
            }
            frame.ret2 = NO_TRANSFER_CAP;
        }
    }

    /// The second half of a receive: the copy to user memory.  A capability is taken back when
    /// the message does not fit or its metadata faults; a fault of the payload is recorded.
    pub fn complete_recv_boundary_user_copy(
        &mut self,
        cpu: CpuId,
        frame: &mut TrapFrame,
        pending: &RecvBoundaryUserCopySnapshot,
    ) -> (r: Result<(), TrapHandleError>)
        ensures
            (RecvEnd { kernel: final(self)@, frame: *final(frame), result: r }) == old(
                self,
            )@.user_copy_end(cpu, *old(frame), *pending),
    {
        let len: u64 = pending.msg.as_slice().len() as u64;
        let ret2: u64 = frame.ret2;
        match self.execute_user_writeback(pending) {
            RecvUserWritebackOutcome::Copied => {
                match pending.writeback {
                    RecvWritebackPlan::UserMemory { .. } => {
                        frame.set_ok(pending.msg.sender_tid.0, len, ret2);
                    },
                    _ => {
                        frame.set_ok(0, len, ret2);
                    },
                }
                Ok(())
            },
            RecvUserWritebackOutcome::Undersized => {
                self.undo_pending_cap(frame, pending);
                Err(TrapHandleError::Syscall(SyscallError::InvalidArgs))
            },
            RecvUserWritebackOutcome::MetaFault => {
                self.undo_pending_cap(frame, pending);
                Err(TrapHandleError::Syscall(SyscallError::PageFault))
            },
            RecvUserWritebackOutcome::PayloadFault { user_ptr } => {
                let _ = self.record_recv_boundary_user_fault_split(cpu, frame, user_ptr);
                Ok(())
            },
        }
    }

    /// Records a fault of user memory and reports it in the frame; refused, with no effect, on
    /// a processor that is not online.
    pub fn record_recv_boundary_user_fault_split(
        &mut self,
        cpu: CpuId,
        frame: &mut TrapFrame,
        addr: u64,
    ) -> (r: Result<(), KernelError>)
        ensures
            r == match old(self)@.sched.admits(cpu) {
                Err(e) => Err::<(), KernelError>(KernelError::Scheduler(e)),
                Ok(_) => Ok(()),
            },
            final(self)@ == old(self)@.fault_noted(cpu, addr),
            *final(frame) == if r is Ok {
                old(frame).failed(SyscallError::PageFault.spec_code())
            } else {
                *old(frame)
            },
    {
        if let Err(e) = self.bind_current_cpu_split(cpu) {
            return Err(e);
        }
        self.state.faults.last_fault = Some(
            FaultInfo { addr: VirtAddr(addr), access: FaultAccess::Write },
        );
        frame.set_err(SyscallError::PageFault.code());
        Ok(())
    }

    /// The second half of a receive with a capability: the capability is copied, the sender
    /// goes on, and the message is copied to user memory.
    pub fn complete_recv_boundary_ordinary_cap(
        &mut self,
        cpu: CpuId,
        frame: &mut TrapFrame,
        pending: RecvBoundaryOrdinaryCapSnapshot,
    ) -> (r: Result<(), TrapHandleError>)
        ensures
            (RecvEnd { kernel: final(self)@, frame: *final(frame), result: r }) == old(
                self,
            )@.ordinary_cap_end(cpu, *old(frame), pending),
    {
        let snap = TransferCapSnapshot {
            receiver_cnode: pending.receiver_cnode,
            object: pending.object,
            rights: pending.rights,
        };
        let delegation = TransferCapDelegation {
            source_tid: pending.source_tid,
            source_cap: pending.source_cap,
            dest_tid: pending.receiver_tid,
        };
        let local_cap = match self.materialize_received_message_cap_routed_with_delegation_split(
            snap,
            Some(delegation),
        ) {
            Ok(CapTransferMaterializeOutcome::Materialized(cap)) => cap,
            Ok(CapTransferMaterializeOutcome::DeferredReplyCap) => {
                return Err(TrapHandleError::Syscall(SyscallError::WrongObject));
            },
            Err(e) => {
                return Err(TrapHandleError::Syscall(SyscallError::from_kernel(e)));
            },
        };
        if let Err(e) = frame.encode_transfer_cap(Some(local_cap.0)) {
            let _ = self.rollback_materialized_recv_cap_no_vm_split(
                pending.receiver_tid,
                local_cap,
            );
            return Err(TrapHandleError::Syscall(e));
        }
        self.let_sender_go(cpu, pending.wake_tid);
        let copy = RecvBoundaryUserCopySnapshot {
            asid: pending.asid,
            receiver_tid: pending.receiver_tid,
            msg: pending.msg,
            writeback: pending.writeback,
            materialized_cap: Some(local_cap.0),
            is_reply_cap: false,
            reply_record: None,
        };
        self.complete_recv_boundary_user_copy(cpu, frame, &copy)
    }

    /// Serves a receive of a queued message for the current task of `cpu`; nothing when it is
    /// not served here.
    pub fn try_split_ipc_recv_queued_plain_into_frame(&mut self, cpu: CpuId, frame: &mut TrapFrame) -> (r:
        Option<Result<(), TrapHandleError>>)
        ensures
            match old(self)@.split_recv(cpu, *old(frame)) {
                None => r is None && final(self)@ == old(self)@ && *final(frame) == *old(frame),
                Some(end) => r == Some(end.result) && final(self)@ == end.kernel && *final(frame)
                    == end.frame,
            },
    {
        let requester_tid = match self.current_tid_authoritative(cpu) {
            None => {
                return None;
            },
            Some(tid) => tid,
        };
        let recv_cap = CapId(frame.arg(SYSCALL_ARG_CAP));
        let snapshot = match self.resolve_endpoint_recv_cap_split_read(requester_tid, recv_cap) {
            Err(e) => {
                return Some(Err(TrapHandleError::Syscall(SyscallError::from_kernel(e))));
            },
            Ok(snapshot) => snapshot,
        };
        match self.recv_queued_split_phase_a_split(cpu, frame, &snapshot) {
            RecvQueuedSplitPhaseA::Fallback => None,
            RecvQueuedSplitPhaseA::Completed(result) => Some(result),
            RecvQueuedSplitPhaseA::PendingUserCopy(pending) => Some(
                self.complete_recv_boundary_user_copy(cpu, frame, &pending),
            ),
            RecvQueuedSplitPhaseA::PendingOrdinaryCapUserCopy(pending) => Some(
                self.complete_recv_boundary_ordinary_cap(cpu, frame, pending),
            ),
        }
    }
}

} // verus!
