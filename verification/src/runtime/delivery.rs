//! Finishing what a system-call handler left for the way out: a sender that blocks, and
//! deliveries to blocked receivers.
use vstd::prelude::*;

use crate::capability::{CapObject, CapRights, Capability, RIGHT_SEND};
use crate::deferred::{
    BlockingSendCommitSnapshot, DispatchPostWork, OrdinaryCapDelivery, Pending, PlainDelivery,
    ReplyCapDelivery, SharedRegionSnapshot, WaiterDelivery,
};
use crate::ids::{CapId, CpuId, KernelError, SyscallError, TrapHandleError, MAX_CPUS};
use crate::ipc::ReplyRecordSetOutcome;
use crate::kernel::Kernel;
use crate::runtime::transfer::{
    CapTransferMaterializeOutcome, TransferCapDelegation, TransferCapSnapshot,
};
use crate::runtime::SharedKernel;
use crate::trap::{
    RecvMeta, TrapFrame, RECV_META_REPLY_CAP, RECV_META_TRANSFERRED_CAP,
};

verus! {

/// What the trap handler owes behind the work that was left for it.
#[derive(Clone, Copy, Debug, PartialEq, Eq, Structural)]
pub enum DispatchPostWorkDisposition {
    NoCallerAction,
    /// The caller is blocked; another task must be dispatched.
    SenderCommittedBlocked { tid: u64 },
    /// The caller goes on with this error.
    ImmediateReturn { error: KernelError },
}

/// The state behind a delivery, and what it came to.
#[verifier::ext_equal]
pub struct DeliveryEnd {
    pub kernel: Kernel,
    pub result: Result<(), TrapHandleError>,
}

/// The metadata of a message whose receiver has `cap`.
pub open spec fn delivery_meta(to: WaiterDelivery, cap: CapId, flags: u64) -> RecvMeta {
    RecvMeta {
        status: 0,
        opcode: to.msg.opcode,
        payload_len: to.msg.used() as u64,
        cap: cap.0,
        flags,
        sender_tid: to.msg.sender_tid.0,
    }
}

impl Kernel {
    /// Can payload and metadata be copied to the waiter?
    pub open spec fn delivery_fits(self, to: WaiterDelivery, meta: Seq<u8>) -> bool {
        self.user_copy_fits(to.waiter_asid, to.payload_user_ptr, to.msg.bytes())
            && self.user_copy_fits(to.waiter_asid, to.meta_user_ptr, meta)
    }

    /// The state after copying payload, then metadata, as far as the copies go.
    pub open spec fn delivery_copied(self, to: WaiterDelivery, meta: Seq<u8>) -> Kernel {
        let payload = self.user_copied(to.waiter_asid, to.payload_user_ptr, to.msg.bytes());
        if self.user_copy_fits(to.waiter_asid, to.payload_user_ptr, to.msg.bytes()) {
            payload.user_copied(to.waiter_asid, to.meta_user_ptr, meta)
        } else {
            self
        }
    }

    /// The state after a delivery was completed.
    pub open spec fn delivery_done(self, cpu: CpuId, to: WaiterDelivery) -> Kernel {
        self.after_completion(cpu, to.waiter_tid, to.endpoint_idx as int, to.wake_tid)
    }

    /// A delivery that fails and leaves this state.
    pub open spec fn delivery_failed(self, e: SyscallError) -> DeliveryEnd {
        DeliveryEnd { kernel: self, result: crate::runtime::recv::failure(e) }
    }

    /// Delivering a message without a capability.
    pub open spec fn plain_delivered(self, cpu: CpuId, snap: PlainDelivery) -> DeliveryEnd {
        let copied = self.delivery_copied(snap.to, snap.meta.bytes());
        if self.delivery_fits(snap.to, snap.meta.bytes()) {
            DeliveryEnd { kernel: copied.delivery_done(cpu, snap.to), result: Ok(()) }
        } else {
            copied.delivery_failed(SyscallError::InvalidArgs)
        }
    }

    /// Delivering a message with a copied capability.  When the copy to user memory faults, the
    /// capability is taken back.
    pub open spec fn cap_delivered(self, cpu: CpuId, snap: OrdinaryCapDelivery) -> DeliveryEnd {
        let what = TransferCapSnapshot {
            receiver_cnode: snap.receiver_cnode,
            object: snap.object,
            rights: snap.rights,
        };
        let delegation = Some(
            TransferCapDelegation {
                source_tid: snap.source_tid,
                source_cap: snap.source_cap,
                dest_tid: snap.to.waiter_tid,
            },
        );
        let handed = self.after_materialize(what, delegation);
        match self.materialize_result(what, delegation) {
            Err(err) => self.delivery_failed(crate::ids::syscall_error_of(err)),
            Ok(CapTransferMaterializeOutcome::DeferredReplyCap) => self.delivery_failed(
                SyscallError::WrongObject,
            ),
            Ok(CapTransferMaterializeOutcome::Materialized(cap)) => {
                let meta = delivery_meta(snap.to, cap, RECV_META_TRANSFERRED_CAP).bytes();
                let copied = handed.delivery_copied(snap.to, meta);
                if handed.delivery_fits(snap.to, meta) {
                    DeliveryEnd { kernel: copied.delivery_done(cpu, snap.to), result: Ok(()) }
                } else {
                    copied.copy_taken_back(snap.to.waiter_tid, cap).delivery_failed(
                        SyscallError::InvalidArgs,
                    )
                }
            },
        }
    }

    /// Delivering a message with a reply.  A reply that is gone by now, or a copy to user memory
    /// that faults, undoes the hand-over.
    pub open spec fn reply_delivered(self, cpu: CpuId, snap: ReplyCapDelivery) -> DeliveryEnd {
        let index = snap.reply_index as int;
        let generation = snap.reply_generation;
        let object = CapObject::Reply { index: snap.reply_index, generation };
        let minted = self.ref_minted(
            snap.receiver_cnode,
            Capability { object, rights: CapRights(RIGHT_SEND) },
        );
        match self.caps.mint_verdict(snap.receiver_cnode) {
            Err(err) => self.delivery_failed(crate::ids::syscall_error_of(err)),
            Ok(cap) => {
                let recorded = Kernel {
                    ipc: self.ipc.with_waiter_cap(index, generation, Some(cap)),
                    ..minted
                };
                let meta = delivery_meta(snap.to, cap, RECV_META_REPLY_CAP).bytes();
                let copied = recorded.delivery_copied(snap.to, meta);
                if !(self.ipc.waiter_cap_verdict(index, generation) is Recorded) {
                    self.delivery_failed(SyscallError::WrongObject)
                } else if recorded.delivery_fits(snap.to, meta) {
                    DeliveryEnd { kernel: copied.delivery_done(cpu, snap.to), result: Ok(()) }
                } else {
                    Kernel {
                        ipc: copied.ipc.with_waiter_cap(index, generation, None),
                        ..copied
                    }.mint_undone(snap.receiver_cnode, cap, object).delivery_failed(
                        SyscallError::InvalidArgs,
                    )
                }
            },
        }
    }

    /// Delivering a shared region.
    pub open spec fn region_work_done(self, snap: SharedRegionSnapshot, acks: Seq<usize>) -> DeliveryEnd {
        let end = self.region_delivered(snap, acks);
        DeliveryEnd {
            kernel: end.kernel,
            result: if end.result is Ok {
                Ok(())
            } else {
                crate::runtime::recv::failure(SyscallError::InvalidArgs)
            },
        }
    }

    /// Doing one item of work other than the commit of a blocking send.
    pub open spec fn post_work_done(
        self,
        cpu: CpuId,
        work: DispatchPostWork,
        acks: Seq<usize>,
    ) -> DeliveryEnd {
        match work {
            DispatchPostWork::Nothing => DeliveryEnd { kernel: self, result: Ok(()) },
            DispatchPostWork::BlockingSendCommit(_) => DeliveryEnd {
                kernel: self,
                result: Ok(()),
            },
            DispatchPostWork::BlockedWaiterPlainDelivery(snap) => self.plain_delivered(cpu, snap),
            DispatchPostWork::BlockedWaiterOrdinaryCapDelivery(snap) => self.cap_delivered(
                cpu,
                snap,
            ),
            DispatchPostWork::BlockedWaiterReplyCapDelivery(snap) => self.reply_delivered(
                cpu,
                snap,
            ),
            DispatchPostWork::BlockedWaiterSharedRegionDelivery(snap) => self.region_work_done(
                snap,
                acks,
            ),
        }
    }

    /// The state after the next dispatch of `cpu` was told that it follows a blocked send, unless
    /// it was told so already.
    pub open spec fn send_deferred(self, cpu: CpuId, tid: u64) -> Kernel {
        let c = cpu.0 as int;
        if c < MAX_CPUS && c < self.pending.send_deferrals.len()
            && self.pending.send_deferrals[c] is None {
            Kernel {
                pending: Pending {
                    send_deferrals: self.pending.send_deferrals.update(c, Some(tid)),
                    ..self.pending
                },
                ..self
            }
        } else {
            self
        }
    }

    /// What the trap handler owes behind the commit of a blocking send.
    pub open spec fn send_commit_disposition(self, snap: BlockingSendCommitSnapshot) -> DispatchPostWorkDisposition {
        match self.send_commit_result(snap).spec_immediate_error() {
            None => DispatchPostWorkDisposition::SenderCommittedBlocked { tid: snap.sender_tid },
            Some(error) => DispatchPostWorkDisposition::ImmediateReturn { error },
        }
    }

    /// The state after the commit of a blocking send.  A refused send gets its envelope back.
    pub open spec fn send_commit_done(self, cpu: CpuId, snap: BlockingSendCommitSnapshot) -> Kernel {
        if self.send_commit_result(snap) is Committed {
            self.after_send_commit(snap).send_deferred(cpu, snap.sender_tid)
        } else {
            match snap.transfer_envelope {
                Some(cleanup) => self.envelope_settled(
                    cleanup.handle,
                    cleanup.endpoint_idx as int,
                    cleanup.cleanup_tid,
                ),
                None => self,
            }
        }
    }

    /// What the handler on `cpu` left.
    pub open spec fn stashed(self, cpu: CpuId) -> Option<DispatchPostWork> {
        let c = cpu.0 as int;
        if c < MAX_CPUS && c < self.pending.stash.len() {
            self.pending.stash[c]
        } else {
            None
        }
    }

    /// The state after what the handler on `cpu` left was taken.
    pub open spec fn unstashed(self, cpu: CpuId) -> Kernel {
        if self.stashed(cpu) is Some {
            Kernel {
                pending: Pending {
                    stash: self.pending.stash.update(cpu.0 as int, None),
                    ..self.pending
                },
                ..self
            }
        } else {
            self
        }
    }

    /// The state after what the handler on `cpu` left was done, where `acks` has the answers to
    /// the requests for pages that were unmapped on the way.
    pub open spec fn stash_done(self, cpu: CpuId, acks: Seq<usize>) -> Kernel {
        match self.stashed(cpu) {
            None => self,
            Some(DispatchPostWork::BlockingSendCommit(snap)) => self.unstashed(
                cpu,
            ).send_commit_done(cpu, snap),
            Some(work) => self.unstashed(cpu).post_work_done(cpu, work, acks).kernel,
        }
    }

    /// What doing what the handler on `cpu` left comes to.
    pub open spec fn stash_result(self, cpu: CpuId, acks: Seq<usize>) -> Result<
        DispatchPostWorkDisposition,
        TrapHandleError,
    > {
        match self.stashed(cpu) {
            None => Ok(DispatchPostWorkDisposition::NoCallerAction),
            Some(DispatchPostWork::BlockingSendCommit(snap)) => Ok(
                self.unstashed(cpu).send_commit_disposition(snap),
            ),
            Some(work) => match self.unstashed(cpu).post_work_done(cpu, work, acks).result {
                Ok(_) => Ok(DispatchPostWorkDisposition::NoCallerAction),
                Err(e) => Err(e),
            },
        }
    }
}

/// The frame of a caller behind its blocking send: a refused one sees its error.
pub open spec fn frame_behind(
    frame: TrapFrame,
    result: Result<DispatchPostWorkDisposition, TrapHandleError>,
) -> TrapFrame {
    match result {
        Ok(DispatchPostWorkDisposition::ImmediateReturn { error }) => frame.failed(
            crate::ids::syscall_error_of(error).spec_code(),
        ),
        _ => frame,
    }
}

impl SharedKernel {
    /// Takes what the handler on `cpu` left and does it; the caller's frame gets the error of a
    /// send that was refused.  `acks` says of each page that is unmapped on the way how many
    /// processors answered the request for it.
    pub fn drain_dispatch_post_work(
        &mut self,
        cpu: CpuId,
        frame: Option<&mut TrapFrame>,
        acks: &[usize],
    ) -> (r: Result<DispatchPostWorkDisposition, TrapHandleError>)
        ensures
            r == old(self)@.stash_result(cpu, acks@),
            final(self)@ == old(self)@.stash_done(cpu, acks@),
            frame matches Some(f) ==> *final(f) == frame_behind(*f, r),
    {
        let c: usize = cpu.0 as usize;
        if c >= MAX_CPUS || c >= self.state.pending.stash.len() {
            return Ok(DispatchPostWorkDisposition::NoCallerAction);
        }
        let work = match self.state.pending.stash[c] {
            None => {
                return Ok(DispatchPostWorkDisposition::NoCallerAction);
            },
            Some(work) => work,
        };
        self.state.pending.stash[c] = None;
        if let DispatchPostWork::BlockingSendCommit(snap) = work {
            return Ok(self.execute_blocking_send_commit(cpu, snap, frame));
        }
        match self.execute_dispatch_post_work(cpu, work, acks) {
            Ok(_) => Ok(DispatchPostWorkDisposition::NoCallerAction),
            Err(e) => Err(e),
        }
    }

    /// Commits a blocking send: the next dispatch is told of it, or the refused sender gets its
    /// envelope back and its error.
    fn execute_blocking_send_commit(
        &mut self,
        cpu: CpuId,
        snap: BlockingSendCommitSnapshot,
        frame: Option<&mut TrapFrame>,
    ) -> (r: DispatchPostWorkDisposition)
        ensures
            r == old(self)@.send_commit_disposition(snap),
            final(self)@ == old(self)@.send_commit_done(cpu, snap),
            frame matches Some(f) ==> *final(f) == frame_behind(*f, Ok(r)),
    {
        let outcome = self.commit_blocking_send_split(&snap);
        match outcome.immediate_error() {
            None => {
                let c: usize = cpu.0 as usize;
                if c < MAX_CPUS && c < self.state.pending.send_deferrals.len()
                    && self.state.pending.send_deferrals[c].is_none() {
                    self.state.pending.send_deferrals[c] = Some(snap.sender_tid);
                }
                DispatchPostWorkDisposition::SenderCommittedBlocked { tid: snap.sender_tid }
            },
            Some(error) => {
                if let Some(cleanup) = snap.transfer_envelope {
                    let _ = self.settle_blocked_send_envelope_split(
                        cleanup.handle,
                        cleanup.endpoint_idx,
                        cleanup.cleanup_tid,
                    );
                }
                if let Some(frame) = frame {
                    frame.set_err(SyscallError::from_kernel(error).code());
                }
                DispatchPostWorkDisposition::ImmediateReturn { error }
            },
        }
    }

    /// Does one item of work.
    fn execute_dispatch_post_work(
        &mut self,
        cpu: CpuId,
        work: DispatchPostWork,
        acks: &[usize],
    ) -> (r: Result<(), TrapHandleError>)
        ensures
            (DeliveryEnd { kernel: final(self)@, result: r }) == old(self)@.post_work_done(
                cpu,
                work,
                acks@,
            ),
    {
        match work {
            DispatchPostWork::Nothing => Ok(()),
            DispatchPostWork::BlockingSendCommit(_) => Ok(()),
            DispatchPostWork::BlockedWaiterPlainDelivery(snap) => {
                let meta = snap.meta.encode();
                if !self.copy_delivery(&snap.to, meta.as_slice()) {
                    return Err(TrapHandleError::Syscall(SyscallError::InvalidArgs));
                }
                self.finish_delivery(cpu, &snap.to);
                Ok(())
            },
            DispatchPostWork::BlockedWaiterOrdinaryCapDelivery(snap) =>
                self.execute_blocked_waiter_ordinary_cap_delivery(cpu, snap),
            DispatchPostWork::BlockedWaiterReplyCapDelivery(snap) =>
                self.execute_blocked_waiter_reply_cap_delivery(cpu, snap),
            DispatchPostWork::BlockedWaiterSharedRegionDelivery(snap) =>
                self.execute_blocked_waiter_shared_region_delivery(cpu, snap, acks),
        }
    }

    /// Copies payload, then metadata, to a waiter; says whether both went.
    fn copy_delivery(&mut self, to: &WaiterDelivery, meta: &[u8]) -> (r: bool)
        ensures
            r == old(self)@.delivery_fits(*to, meta@),
            final(self)@ == old(self)@.delivery_copied(*to, meta@),
    {
        if self.copy_to_user_split(
            to.waiter_asid,
            to.payload_user_ptr,
            to.msg.as_slice(),
        ).is_err() {
            return false;
        }
        self.copy_to_user_split(to.waiter_asid, to.meta_user_ptr, meta).is_ok()
    }

    /// Lets the receiver of a delivery go on.
    fn finish_delivery(&mut self, cpu: CpuId, to: &WaiterDelivery)
        ensures
            final(self)@ == old(self)@.delivery_done(cpu, *to),
    {
        let _ = self.complete_blocked_waiter_delivery_split(
            cpu,
            to.waiter_tid,
            to.endpoint_idx,
            to.wake_tid,
        );
    }

    /// Delivers a shared region, whichever processor it is delivered from.
    pub fn execute_blocked_waiter_shared_region_delivery(
        &mut self,
        _cpu: CpuId,
        snap: SharedRegionSnapshot,
        acks: &[usize],
    ) -> (r: Result<(), TrapHandleError>)
        ensures
            (DeliveryEnd { kernel: final(self)@, result: r }) == old(self)@.region_work_done(
                snap,
                acks@,
            ),
    {
        match self.run_shared_region_txn(&snap, acks) {
            Ok(_) => Ok(()),
            Err(_) => Err(TrapHandleError::Syscall(SyscallError::InvalidArgs)),
        }
    }

    /// Delivers a message with a reply.
    pub fn execute_blocked_waiter_reply_cap_delivery(&mut self, cpu: CpuId, snap: ReplyCapDelivery) -> (r:
        Result<(), TrapHandleError>)
        ensures
            (DeliveryEnd { kernel: final(self)@, result: r }) == old(self)@.reply_delivered(
                cpu,
                snap,
            ),
    {
        let reply_object = CapObject::Reply {
            index: snap.reply_index,
            generation: snap.reply_generation,
        };
        let capability = Capability { object: reply_object, rights: CapRights(RIGHT_SEND) };
        let local_cap = match self.mint_capability_with_memory_ref_split(
            snap.receiver_cnode,
            capability,
        ) {
            Err(e) => {
                return Err(TrapHandleError::Syscall(SyscallError::from_kernel(e)));
            },
            Ok(cap) => cap,
        };
        match self.try_record_reply_waiter_cap_split(
            snap.reply_index,
            snap.reply_generation,
            local_cap,
        ) {
            ReplyRecordSetOutcome::Recorded => {},
            _ => {
                proof {
                    crate::runtime::transfer::law_mint_and_revoke(
                        old(self)@.caps,
                        snap.receiver_cnode,
                        capability,
                    );
                }
                self.rollback_minted_cap_split(snap.receiver_cnode, local_cap, reply_object);
                return Err(TrapHandleError::Syscall(SyscallError::WrongObject));
            },
        }
        let meta = RecvMeta {
            status: 0,
            opcode: snap.to.msg.opcode,
            payload_len: snap.to.msg.as_slice().len() as u64,
            cap: local_cap.0,
            flags: RECV_META_REPLY_CAP,
            sender_tid: snap.to.msg.sender_tid.0,
        };
        let encoded = meta.encode();
        if !self.copy_delivery(&snap.to, encoded.as_slice()) {
            self.clear_reply_waiter_cap_split(snap.reply_index, snap.reply_generation);
            self.rollback_minted_cap_split(snap.receiver_cnode, local_cap, reply_object);
            return Err(TrapHandleError::Syscall(SyscallError::InvalidArgs));
        }
        self.finish_delivery(cpu, &snap.to);
        Ok(())
    }

    /// Delivers a message with a copied capability.
    pub fn execute_blocked_waiter_ordinary_cap_delivery(
        &mut self,
        cpu: CpuId,
        snap: OrdinaryCapDelivery,
    ) -> (r: Result<(), TrapHandleError>)
        ensures
            (DeliveryEnd { kernel: final(self)@, result: r }) == old(self)@.cap_delivered(
                cpu,
                snap,
            ),
    {
        let what = TransferCapSnapshot {
            receiver_cnode: snap.receiver_cnode,
            object: snap.object,
            rights: snap.rights,
        };
        let delegation = TransferCapDelegation {
            source_tid: snap.source_tid,
            source_cap: snap.source_cap,
            dest_tid: snap.to.waiter_tid,
        };
        let local_cap = match self.materialize_received_message_cap_routed_with_delegation_split(
            what,
            Some(delegation),
        ) {
            Ok(CapTransferMaterializeOutcome::Materialized(cap)) => cap,
            Ok(CapTransferMaterializeOutcome::DeferredReplyCap) => {
                return Err(TrapHandleError::Syscall(SyscallError::WrongObject));
            },
            Err(e) => {
                return Err(TrapHandleError::Syscall(SyscallError::from_kernel(e)));
            },
        };
        let meta = RecvMeta {
            status: 0,
            opcode: snap.to.msg.opcode,
            payload_len: snap.to.msg.as_slice().len() as u64,
            cap: local_cap.0,
            flags: RECV_META_TRANSFERRED_CAP,
            sender_tid: snap.to.msg.sender_tid.0,
        };
        let encoded = meta.encode();
        if !self.copy_delivery(&snap.to, encoded.as_slice()) {
            let _ = self.rollback_materialized_recv_cap_no_vm_split(snap.to.waiter_tid, local_cap);
            return Err(TrapHandleError::Syscall(SyscallError::InvalidArgs));
        }
        self.finish_delivery(cpu, &snap.to);
        Ok(())
    }
}

} // verus!
