//! Delivering a shared memory region to a blocked receiver.
use vstd::prelude::*;

use crate::capability::{CapObject, Capability};
use crate::deferred::SharedRegionSnapshot;
use crate::ids::{
    Asid, CNodeId, CapId, CpuId, PhysAddr, SchedulerError, ThreadId, VirtAddr, PAGE_SIZE,
};
use crate::ipc::{
    ActiveMapping, EndpointMode, EndpointWaiterRecord, Ipc, ReceiverWaiterIdentity,
    MAX_ACTIVE_MAPPINGS,
};
use crate::kernel::Kernel;
use crate::runtime::SharedKernel;
use crate::scheduler::{TaskPriority, WithdrawOutcome};
use crate::seqs;
use crate::task::{TaskStatus, Tasks, ThreadControlBlock, WaitReason};
use crate::trap::{RecvMeta, RECV_META_TRANSFERRED_CAP};
use crate::vm::{Mapping, PageFlags};

verus! {

/// A waiter that was taken off an endpoint, with all that is needed to put it back.
#[derive(Clone, Copy, Debug, PartialEq, Eq, Structural)]
pub struct WaiterClaim {
    pub eidx: usize,
    pub generation: u64,
    pub receiver: ReceiverWaiterIdentity,
    pub wait_generation: u64,
}

/// What queueing a committed receiver came to.
#[derive(Clone, Copy, Debug, PartialEq, Eq, Structural)]
pub enum ReceiverEnqueue {
    /// The receiver is on the run queue of `cpu`.
    Enqueued { cpu: CpuId },
    /// This attempt placed nothing.  `reconciled` says what became of an entry that was
    /// there before.
    Rejected { cpu: CpuId, error: SchedulerError, reconciled: Option<WithdrawOutcome> },
}

impl ReceiverEnqueue {
    /// The processor to wake, if the receiver was placed.
    pub fn enqueued_cpu(self) -> (r: Option<CpuId>)
        ensures
            r == match self {
                ReceiverEnqueue::Enqueued { cpu } => Some(cpu),
                ReceiverEnqueue::Rejected { .. } => None,
            },
    {
        match self {
            ReceiverEnqueue::Enqueued { cpu } => Some(cpu),
            ReceiverEnqueue::Rejected { .. } => None,
        }
    }

    pub open spec fn spec_receiver_is_unplaced(self) -> bool {
        match self {
            ReceiverEnqueue::Enqueued { .. } => false,
            ReceiverEnqueue::Rejected { error, reconciled, .. } => if error is AlreadyQueued {
                reconciled == Some(WithdrawOutcome::Removed)
            } else {
                true
            },
        }
    }

    /// Is the receiver known to be on no run queue?
    #[verifier::when_used_as_spec(spec_receiver_is_unplaced)]
    pub fn receiver_is_unplaced(self) -> (r: bool)
        ensures
            r == self.spec_receiver_is_unplaced(),
    {
        match self {
            ReceiverEnqueue::Enqueued { .. } => false,
            ReceiverEnqueue::Rejected { error, reconciled, .. } => {
                if error == SchedulerError::AlreadyQueued {
                    reconciled == Some(WithdrawOutcome::Removed)
                } else {
                    true
                }
            },
        }
    }

    pub open spec fn spec_rejection_is_runtime_recoverable(self) -> bool {
        self matches ReceiverEnqueue::Rejected { error, .. } && !(error is AlreadyQueued)
    }

    /// May the sender try again?  Not when the receiver was queued already: it may have run.
    #[verifier::when_used_as_spec(spec_rejection_is_runtime_recoverable)]
    pub fn rejection_is_runtime_recoverable(self) -> (r: bool)
        ensures
            r == self.spec_rejection_is_runtime_recoverable(),
    {
        match self {
            ReceiverEnqueue::Enqueued { .. } => false,
            ReceiverEnqueue::Rejected { error, .. } => error != SchedulerError::AlreadyQueued,
        }
    }
}

/// What committing a claimed receiver came to.
#[derive(Clone, Copy, Debug, PartialEq, Eq, Structural)]
pub enum ReceiverCommit {
    /// The receiver is runnable; this is its home processor.
    Committed(Option<CpuId>),
    /// The receiver is gone.
    GoneDead,
    /// The number belongs to another task, or the receiver no longer waits.
    Replaced,
}

/// A region that was delivered.
#[derive(Clone, Copy, Debug, PartialEq, Eq, Structural)]
pub struct SharedRegionPublish {
    pub cap: CapId,
    pub woke_receiver: bool,
}

/// Why a region was not delivered.
#[derive(Clone, Copy, Debug, PartialEq, Eq, Structural)]
pub enum SharedRegionError {
    Cancelled,
    ReceiverGone,
    ObjectGone,
    NoCapability,
    NoMappingSlot,
    MapFailed,
    CopyFailed,
    Stale,
}

impl Tasks {
    /// Is the receiver alive in this very incarnation?
    pub open spec fn receiver_alive(self, tid: u64, asid: Asid) -> bool {
        self.find(tid) matches Some(tcb) && tcb.asid == Some(asid) && !tcb.status.spec_terminal()
    }

    /// Is `tid`, in this very incarnation, blocked in a receive?
    pub open spec fn receiver_blocked(self, tid: u64, asid: Asid) -> bool {
        self.find(tid) matches Some(tcb) && tcb.asid == Some(asid) && tcb.status.spec_receiving()
    }

    /// What committing the receiver comes to.
    pub open spec fn commit_verdict(self, tid: u64, asid: Asid) -> ReceiverCommit {
        match self.find(tid) {
            None => ReceiverCommit::GoneDead,
            Some(tcb) => if tcb.status.spec_terminal() {
                ReceiverCommit::GoneDead
            } else if tcb.asid == Some(asid) && tcb.status.spec_receiving() {
                ReceiverCommit::Committed(tcb.cpu_affinity)
            } else {
                ReceiverCommit::Replaced
            },
        }
    }

    /// The state after committing the receiver: runnable, with its return lanes cleared.
    pub open spec fn committed(self, tid: u64, asid: Asid) -> Tasks {
        if self.commit_verdict(tid, asid) is Committed {
            let tcb = self.find(tid)->0;
            self.with_task(
                tid,
                ThreadControlBlock {
                    status: TaskStatus::Runnable,
                    user_context: tcb.user_context.spec_returns_cleared(),
                    ..tcb
                },
            )
        } else {
            self
        }
    }

    /// Can a commit of this incarnation be taken back?
    pub open spec fn can_uncommit(self, tid: u64, asid: Asid) -> bool {
        self.exact(tid, Some(asid)) matches Some(tcb) && tcb.status is Runnable
    }

    /// The state after a commit was taken back: the receiver waits by `recv_cap` again.
    pub open spec fn uncommitted(self, tid: u64, asid: Asid, recv_cap: CapId) -> Tasks {
        if self.can_uncommit(tid, asid) {
            self.with_exact(
                tid,
                Some(asid),
                ThreadControlBlock {
                    status: TaskStatus::Blocked(WaitReason::EndpointReceive(recv_cap)),
                    ..self.exact(tid, Some(asid))->0
                },
            )
        } else {
            self
        }
    }

    /// The capability by which this incarnation waits to receive.
    pub open spec fn blocked_recv_cap(self, tid: u64, asid: Asid) -> Option<CapId> {
        match self.exact(tid, Some(asid)) {
            Some(tcb) => match tcb.status {
                TaskStatus::Blocked(WaitReason::EndpointReceive(cap)) => Some(cap),
                _ => None,
            },
            None => None,
        }
    }
}

impl Ipc {
    /// Does exactly this receiver wait at exactly this endpoint?
    pub open spec fn claimable(self, e: int, generation: u64, receiver: ReceiverWaiterIdentity) -> bool {
        self.waits_at(e, receiver) && self.endpoints[e].generation == generation
    }

    /// May the claimed waiter be put back?
    pub open spec fn waiter_restorable(self, claim: WaiterClaim) -> bool {
        let e = claim.eidx as int;
        e < self.endpoints.len() && self.endpoints[e].generation == claim.generation
            && self.endpoints[e].waiter is None
    }

    /// The state with the claimed waiter put back.
    pub open spec fn waiter_restored(self, claim: WaiterClaim) -> Ipc {
        self.with_waiter(
            claim.eidx as int,
            Some(
                EndpointWaiterRecord {
                    receiver: claim.receiver,
                    wait_generation: claim.wait_generation,
                },
            ),
        )
    }

    /// Has this incarnation asked for its delivery to be stopped?
    pub open spec fn cancelled(self, tid: u64, asid: Asid) -> bool {
        seqs::any_where(self.cancels, crate::ipc::cancels(tid, asid))
    }

    /// The state after the request of this incarnation, if any, was taken.
    pub open spec fn cancel_taken(self, tid: u64, asid: Asid) -> Ipc {
        if self.cancelled(tid, asid) {
            Ipc {
                cancels: self.cancels.remove(
                    seqs::first_where(self.cancels, crate::ipc::cancels(tid, asid)),
                ),
                ..self
            }
        } else {
            self
        }
    }

    /// Is there room for another active mapping?
    pub open spec fn mapping_fits(self) -> bool {
        self.active_mappings.len() < MAX_ACTIVE_MAPPINGS
    }

    /// The state after an active mapping was registered, if there was room.
    pub open spec fn mapping_registered(self, mapping: ActiveMapping) -> Ipc {
        if self.mapping_fits() {
            Ipc { active_mappings: self.active_mappings.push(mapping), ..self }
        } else {
            self
        }
    }

    /// Place of the active mapping of capability `cap` of task `tid`.
    pub open spec fn mapping_place(self, tid: u64, cap: CapId) -> int {
        seqs::first_where(self.active_mappings, crate::ipc::maps_cap(tid, cap))
    }

    /// Is there an active mapping of capability `cap` of task `tid`?
    pub open spec fn has_mapping(self, tid: u64, cap: CapId) -> bool {
        self.mapping_place(tid, cap) < self.active_mappings.len()
    }

    /// The state after the length of an active mapping, if there is one, was changed.
    pub open spec fn mapping_resized(self, tid: u64, cap: CapId, len: usize) -> Ipc {
        let i = self.mapping_place(tid, cap);
        if self.has_mapping(tid, cap) {
            Ipc {
                active_mappings: self.active_mappings.update(
                    i,
                    ActiveMapping { len, ..self.active_mappings[i] },
                ),
                ..self
            }
        } else {
            self
        }
    }

    /// The state after an active mapping, if there is one, was removed.
    pub open spec fn mapping_removed(self, tid: u64, cap: CapId) -> Ipc {
        if self.has_mapping(tid, cap) {
            Ipc {
                active_mappings: self.active_mappings.remove(self.mapping_place(tid, cap)),
                ..self
            }
        } else {
            self
        }
    }
}

impl Kernel {
    /// The state after a live receiver was made runnable and queued.
    pub open spec fn receiver_woken(self, tid: u64) -> Kernel {
        match self.tasks.find(tid) {
            Some(tcb) if tcb.status.spec_live() => {
                let tasks = self.tasks.with_task(
                    tid,
                    ThreadControlBlock { status: TaskStatus::Runnable, ..tcb },
                );
                Kernel {
                    tasks,
                    sched: self.sched.enqueued(
                        self.wake_target(tcb),
                        tid,
                        tasks.wake_priority(tid),
                    ),
                    ..self
                }
            },
            _ => self,
        }
    }

    /// Where a committed receiver is queued.
    pub open spec fn commit_home(self, affinity: Option<CpuId>) -> CpuId {
        match affinity {
            Some(home) => home,
            None => self.sched.current_cpu,
        }
    }

    /// What queueing a committed receiver comes to.
    pub open spec fn receiver_enqueue(self, tid: u64, affinity: Option<CpuId>, reconcile: bool) -> ReceiverEnqueue {
        let cpu = self.commit_home(affinity);
        match self.sched.enqueue_verdict(cpu, tid) {
            Ok(_) => ReceiverEnqueue::Enqueued { cpu },
            Err(error) => ReceiverEnqueue::Rejected {
                cpu,
                error,
                reconciled: if error is AlreadyQueued && reconcile {
                    Some(self.sched.withdraw_verdict(cpu, tid))
                } else {
                    None
                },
            },
        }
    }

    /// The state after queueing a committed receiver.  An entry that was there before is
    /// withdrawn when the caller asked for that.
    pub open spec fn after_receiver_enqueue(
        self,
        tid: u64,
        affinity: Option<CpuId>,
        reconcile: bool,
    ) -> Kernel {
        let cpu = self.commit_home(affinity);
        Kernel {
            sched: match self.sched.enqueue_verdict(cpu, tid) {
                Ok(_) => self.sched.enqueued(cpu, tid, self.tasks.wake_priority(tid)),
                Err(error) => if error is AlreadyQueued && reconcile {
                    self.sched.withdrawn(cpu, tid)
                } else {
                    self.sched
                },
            },
            ..self
        }
    }

    /// The waiter that a finalization takes off the endpoint, if it may.
    pub open spec fn finalize_claim(self, snap: SharedRegionSnapshot) -> Option<WaiterClaim> {
        let receiver = ReceiverWaiterIdentity {
            tid: ThreadId(snap.receiver_tid),
            asid: snap.receiver_asid,
        };
        match snap.endpoint {
            CapObject::Endpoint { index, generation } => if self.tasks.receiver_blocked(
                snap.receiver_tid,
                snap.receiver_asid,
            ) && self.ipc.claimable(index as int, generation, receiver) {
                Some(
                    WaiterClaim {
                        eidx: index,
                        generation,
                        receiver,
                        wait_generation: self.ipc.endpoints[index as int].waiter->0.wait_generation,
                    },
                )
            } else {
                None
            },
            _ => None,
        }
    }

    /// The state in which a claimed receiver is runnable and about to be queued.
    pub open spec fn finalize_committed(self, snap: SharedRegionSnapshot, claim: WaiterClaim) -> Kernel {
        Kernel {
            ipc: self.ipc.with_waiter(claim.eidx as int, None),
            tasks: self.tasks.committed(snap.receiver_tid, snap.receiver_asid),
            ..self
        }
    }

    /// What finalizing a delivery comes to: whether the receiver was woken, or nothing when the
    /// delivery is stale.
    pub open spec fn finalize_result(self, snap: SharedRegionSnapshot) -> Option<bool> {
        if !snap.blocked_endpoint_waiter {
            Some(
                self.tasks.find(snap.receiver_tid) matches Some(tcb) && tcb.status.spec_live(),
            )
        } else {
            match self.finalize_claim(snap) {
                None => None,
                Some(claim) => {
                    let home = self.tasks.find(snap.receiver_tid)->0.cpu_affinity;
                    if self.finalize_committed(snap, claim).receiver_enqueue(
                        snap.receiver_tid,
                        home,
                        false,
                    ) is Enqueued {
                        Some(true)
                    } else {
                        None
                    }
                },
            }
        }
    }

    /// The state after finalizing a delivery.  A receiver that could not be queued waits again,
    /// unless it was queued already: then it is left alone.
    pub open spec fn after_finalize(self, snap: SharedRegionSnapshot) -> Kernel {
        let tid = snap.receiver_tid;
        let asid = snap.receiver_asid;
        if !snap.blocked_endpoint_waiter {
            self.receiver_woken(tid)
        } else {
            match self.finalize_claim(snap) {
                None => self,
                Some(claim) => {
                    let home = self.tasks.find(tid)->0.cpu_affinity;
                    let committed = self.finalize_committed(snap, claim);
                    let queued = committed.after_receiver_enqueue(tid, home, false);
                    match committed.receiver_enqueue(tid, home, false) {
                        ReceiverEnqueue::Enqueued { .. } => queued,
                        ReceiverEnqueue::Rejected { error, .. } => if error is AlreadyQueued {
                            queued
                        } else {
                            queued.finalize_undone(claim, self.tasks.blocked_recv_cap(tid, asid))
                        },
                    }
                },
            }
        }
    }

    /// The state after a claimed and committed receiver was put back to wait by `recv_cap`.
    pub open spec fn finalize_undone(self, claim: WaiterClaim, recv_cap: Option<CapId>) -> Kernel {
        let tid = claim.receiver.tid.0;
        let asid = claim.receiver.asid;
        match recv_cap {
            None => self,
            Some(cap) => if !self.tasks.can_uncommit(tid, asid) {
                self
            } else {
                let blocked = Kernel {
                    tasks: self.tasks.uncommitted(tid, asid, cap),
                    ..self
                };
                blocked.claim_restored(claim)
            },
        }
    }

    /// May the claimed waiter be put back?
    pub open spec fn claim_restorable(self, claim: WaiterClaim) -> bool {
        self.tasks.receiver_blocked(claim.receiver.tid.0, claim.receiver.asid)
            && self.ipc.waiter_restorable(claim)
    }

    /// The state with the claimed waiter put back, if it may be.
    pub open spec fn claim_restored(self, claim: WaiterClaim) -> Kernel {
        if self.claim_restorable(claim) {
            Kernel { ipc: self.ipc.waiter_restored(claim), ..self }
        } else {
            self
        }
    }

    /// Address of page `i` behind `base`, if there is one.
    pub open spec fn page_address(base: u64, i: int) -> Option<u64> {
        if base + 4096 * i <= u64::MAX {
            Some((base + 4096 * i) as u64)
        } else {
            None
        }
    }

    /// Can page `i` of a region be mapped?
    pub open spec fn region_page_fits(self, snap: SharedRegionSnapshot, base: PhysAddr, i: int) -> bool {
        match (Kernel::page_address(snap.map_va, i), Kernel::page_address(base.0, i)) {
            (Some(va), Some(_)) => self.vm.page_verdict(snap.receiver_asid, VirtAddr(va)) is Ok,
            _ => false,
        }
    }

    /// The state after page `i` of a region was mapped.
    pub open spec fn region_page_mapped(self, snap: SharedRegionSnapshot, base: PhysAddr, i: int) -> Kernel {
        let va = VirtAddr(Kernel::page_address(snap.map_va, i)->0);
        let phys = PhysAddr(Kernel::page_address(base.0, i)->0);
        Kernel {
            vm: self.vm.mapped(
                snap.receiver_asid,
                va,
                Mapping {
                    phys,
                    flags: PageFlags {
                        user: true,
                        read: true,
                        write: snap.writable,
                        execute: false,
                    },
                },
            ),
            mem: self.mem.page_mapped(
                phys,
                self.vm.page_verdict(snap.receiver_asid, va)->Ok_0,
            ),
            ..self
        }
    }

    /// Mapping the pages from `i` up to `n`: the state behind it, and the first page that could
    /// not be mapped.
    pub open spec fn region_mapped(self, snap: SharedRegionSnapshot, base: PhysAddr, i: int, n: int) -> (
        Kernel,
        int,
    )
        decreases n - i,
    {
        if i >= n || !self.region_page_fits(snap, base, i) {
            (self, i)
        } else {
            self.region_page_mapped(snap, base, i).region_mapped(snap, base, i + 1, n)
        }
    }

    /// The state after a delivery was taken back: the first `pages` pages are unmapped, the
    /// mapping and the capability are gone, and the pin is released.  `acks` has the answers to the
    /// requests for those pages.
    pub open spec fn region_undone(
        self,
        snap: SharedRegionSnapshot,
        cap: Option<CapId>,
        pages: int,
        acks: Seq<usize>,
    ) -> Kernel {
        match cap {
            None => self.unpinned(snap.object),
            Some(cap) => {
                let base = snap.map_va as usize;
                let unmapped = self.range_unmapped(
                    snap.receiver_asid,
                    base as int,
                    self.range_end(base, Kernel::region_len(pages)),
                    true,
                    acks,
                    0,
                ).0;
                Kernel {
                    ipc: unmapped.ipc.mapping_removed(snap.receiver_tid, cap),
                    ..unmapped
                }.mint_undone(snap.receiver_cnode, cap, snap.object).unpinned(snap.object)
            },
        }
    }

    /// Bytes of the first `pages` pages, as far as numbers go.
    pub open spec fn region_len(pages: int) -> usize {
        if 4096 * pages <= usize::MAX {
            (4096 * pages) as usize
        } else {
            usize::MAX
        }
    }

    /// The metadata that announces a region.
    pub open spec fn region_meta(snap: SharedRegionSnapshot, cap: CapId) -> RecvMeta {
        RecvMeta {
            status: 0,
            opcode: snap.opcode,
            payload_len: 0,
            cap: cap.0,
            flags: RECV_META_TRANSFERRED_CAP,
            sender_tid: snap.sender_tid,
        }
    }

    /// A delivery that fails and leaves this state.
    pub open spec fn region_failed(self, error: SharedRegionError) -> RegionEnd {
        RegionEnd { kernel: self, result: Err(error) }
    }

    /// The part of a delivery behind the capability `cap`.
    pub open spec fn region_published(
        self,
        snap: SharedRegionSnapshot,
        cap: CapId,
        acks: Seq<usize>,
    ) -> RegionEnd {
        let registered = Kernel {
            ipc: self.ipc.mapping_registered(
                ActiveMapping {
                    tid: ThreadId(snap.receiver_tid),
                    cap,
                    va: VirtAddr(snap.map_va),
                    len: Kernel::region_len(snap.map_pages as int),
                },
            ),
            ..self
        };
        if !self.ipc.mapping_fits() {
            self.region_undone(snap, Some(cap), 0, acks).region_failed(SharedRegionError::NoMappingSlot)
        } else {
            match registered.mem.phys_base(snap.object) {
                None => registered.region_undone(snap, Some(cap), 0, acks).region_failed(
                    SharedRegionError::MapFailed,
                ),
                Some(base) => {
                    let (mapped, n) = registered.region_mapped(
                        snap,
                        base,
                        0,
                        snap.map_pages as int,
                    );
                    if n < snap.map_pages {
                        mapped.region_undone(snap, Some(cap), n, acks).region_failed(
                            SharedRegionError::MapFailed,
                        )
                    } else {
                        mapped.region_announced(snap, cap, acks)
                    }
                },
            }
        }
    }

    /// The part of a delivery behind the mapping: metadata, and the receiver goes on.
    pub open spec fn region_announced(
        self,
        snap: SharedRegionSnapshot,
        cap: CapId,
        acks: Seq<usize>,
    ) -> RegionEnd {
        let meta = Kernel::region_meta(snap, cap).bytes();
        let pages = snap.map_pages as int;
        if !self.user_copy_fits(snap.receiver_asid, snap.meta_user_ptr, meta) {
            self.region_undone(snap, Some(cap), pages, acks).region_failed(SharedRegionError::CopyFailed)
        } else {
            let told = self.user_copied(snap.receiver_asid, snap.meta_user_ptr, meta);
            match told.finalize_result(snap) {
                None => told.after_finalize(snap).region_undone(
                    snap,
                    Some(cap),
                    pages,
                    acks,
                ).region_failed(SharedRegionError::Stale),
                Some(woke_receiver) => RegionEnd {
                    kernel: told.after_finalize(snap).unpinned(snap.object),
                    result: Ok(SharedRegionPublish { cap, woke_receiver }),
                },
            }
        }
    }

    /// A whole delivery of a region.  Whatever fails, everything done before is undone; the pin
    /// is released in every case.
    pub open spec fn region_delivered(self, snap: SharedRegionSnapshot, acks: Seq<usize>) -> RegionEnd {
        let heard = Kernel {
            ipc: self.ipc.cancel_taken(snap.receiver_tid, snap.receiver_asid),
            ..self
        };
        if self.ipc.cancel_overflow {
            self.region_undone(snap, None, 0, acks).region_failed(SharedRegionError::Cancelled)
        } else if self.ipc.cancelled(snap.receiver_tid, snap.receiver_asid) {
            heard.region_undone(snap, None, 0, acks).region_failed(SharedRegionError::Cancelled)
        } else if !self.tasks.receiver_alive(snap.receiver_tid, snap.receiver_asid) {
            heard.region_undone(snap, None, 0, acks).region_failed(SharedRegionError::ReceiverGone)
        } else if !heard.ipc.object_live(snap.object) {
            heard.region_undone(snap, None, 0, acks).region_failed(SharedRegionError::ObjectGone)
        } else {
            match heard.caps.mint_verdict(snap.receiver_cnode) {
                Err(_) => heard.region_undone(snap, None, 0, acks).region_failed(
                    SharedRegionError::NoCapability,
                ),
                Ok(cap) => heard.ref_minted(
                    snap.receiver_cnode,
                    Capability { object: snap.object, rights: snap.rights },
                ).region_published(snap, cap, acks),
            }
        }
    }
}

/// The state behind a delivery, and what it came to.
#[verifier::ext_equal]
pub struct RegionEnd {
    pub kernel: Kernel,
    pub result: Result<SharedRegionPublish, SharedRegionError>,
}

impl SharedKernel {
    /// Is the receiver alive in this very incarnation?
    pub fn sr_receiver_alive_split(&self, tid: u64, asid: Asid) -> (r: bool)
        ensures
            r == self@.tasks.receiver_alive(tid, asid),
    {
        match self.state.tasks.get(tid) {
            Some(tcb) => tcb.asid == Some(asid) && !tcb.status.terminal(),
            None => false,
        }
    }

    /// Were more cancellations asked for than could be recorded?
    pub fn sr_cancel_overflowed_split(&self) -> (r: bool)
        ensures
            r == self@.ipc.cancel_overflow,
    {
        self.state.ipc.cancel_overflow
    }

    /// Takes the cancellation request of this incarnation; says whether there was one.
    pub fn sr_consume_cancel_split(&mut self, tid: u64, asid: Asid) -> (r: bool)
        ensures
            r == old(self)@.ipc.cancelled(tid, asid),
            final(self)@ == (Kernel {
                ipc: old(self)@.ipc.cancel_taken(tid, asid),
                ..old(self)@
            }),
    {
        let mut i: usize = 0;
        while i < self.state.ipc.cancels.len() && !(self.state.ipc.cancels[i].tid == tid
            && self.state.ipc.cancels[i].asid == asid)
            invariant
                *self == *old(self),
                i <= self.state.ipc.cancels@.len(),
                forall|j: int|
                    0 <= j < i ==> !crate::ipc::cancels(tid, asid)(
                        #[trigger] self.state.ipc.cancels@[j],
                    ),
            decreases self.state.ipc.cancels@.len() - i,
        {
            i += 1;
        }
        proof {
            seqs::lemma_first_where_is(
                self.state.ipc.cancels@,
                crate::ipc::cancels(tid, asid),
                i as int,
            );
        }
        if i < self.state.ipc.cancels.len() {
            let _request = self.state.ipc.cancels.remove(i);
            true
        } else {
            false
        }
    }

    /// Registers an active mapping; refused when the table is full.
    pub fn sr_register_active_mapping_split(&mut self, tid: u64, cap: CapId, va: u64, len: usize) -> (r:
        bool)
        ensures
            r == old(self)@.ipc.mapping_fits(),
            final(self)@ == (Kernel {
                ipc: old(self)@.ipc.mapping_registered(
                    ActiveMapping { tid: ThreadId(tid), cap, va: VirtAddr(va), len },
                ),
                ..old(self)@
            }),
    {
        if self.state.ipc.active_mappings.len() >= MAX_ACTIVE_MAPPINGS {
            return false;
        }
        self.state.ipc.active_mappings.push(
            ActiveMapping { tid: ThreadId(tid), cap, va: VirtAddr(va), len },
        );
        true
    }

    fn mapping_position(&self, tid: u64, cap: CapId) -> (r: usize)
        ensures
            r == self@.ipc.mapping_place(tid, cap),
            r <= self@.ipc.active_mappings.len(),
    {
        let mut i: usize = 0;
        while i < self.state.ipc.active_mappings.len() && !(
        self.state.ipc.active_mappings[i].tid.0 == tid && self.state.ipc.active_mappings[i].cap
            == cap)
            invariant
                i <= self.state.ipc.active_mappings@.len(),
                forall|j: int|
                    0 <= j < i ==> !crate::ipc::maps_cap(tid, cap)(
                        #[trigger] self.state.ipc.active_mappings@[j],
                    ),
            decreases self.state.ipc.active_mappings@.len() - i,
        {
            i += 1;
        }
        proof {
            seqs::lemma_first_where_is(
                self.state.ipc.active_mappings@,
                crate::ipc::maps_cap(tid, cap),
                i as int,
            );
        }
        i
    }

    /// Changes the length of an active mapping; says whether there is one.
    pub fn sr_update_mapped_prefix_split(&mut self, tid: u64, cap: CapId, prefix_len: usize) -> (r:
        bool)
        ensures
            r == old(self)@.ipc.has_mapping(tid, cap),
            final(self)@ == (Kernel {
                ipc: old(self)@.ipc.mapping_resized(tid, cap, prefix_len),
                ..old(self)@
            }),
    {
        let i: usize = self.mapping_position(tid, cap);
        if i < self.state.ipc.active_mappings.len() {
            let mapping = self.state.ipc.active_mappings[i];
            self.state.ipc.active_mappings[i] = ActiveMapping { len: prefix_len, ..mapping };
            true
        } else {
            false
        }
    }

    /// Removes an active mapping; says whether there was one.
    pub fn sr_remove_active_mapping_split(&mut self, tid: u64, cap: CapId) -> (r: bool)
        ensures
            r == old(self)@.ipc.has_mapping(tid, cap),
            final(self)@ == (Kernel {
                ipc: old(self)@.ipc.mapping_removed(tid, cap),
                ..old(self)@
            }),
    {
        let i: usize = self.mapping_position(tid, cap);
        if i < self.state.ipc.active_mappings.len() {
            let _mapping = self.state.ipc.active_mappings.remove(i);
            true
        } else {
            false
        }
    }

    /// First physical address of the memory behind `object`.
    pub fn sr_phys_base_split(&self, object: CapObject) -> (r: Option<PhysAddr>)
        ensures
            r == self@.mem.phys_base(object),
    {
        self.state.mem.phys_base(object)
    }

    /// Does the object exist in this very incarnation?
    pub fn sr_object_live_split(&self, object: CapObject) -> (r: bool)
        ensures
            r == self@.ipc.object_live(object),
    {
        self.state.ipc.object_live(object)
    }

    /// Puts a capability into a node; the memory behind it counts it.
    pub fn sr_mint_split(&mut self, cnode: CNodeId, cap: Capability) -> (r: Option<CapId>)
        ensures
            r == match old(self)@.caps.mint_verdict(cnode) {
                Ok(cap) => Some(cap),
                Err(_) => None,
            },
            final(self)@ == old(self)@.ref_minted(cnode, cap),
    {
        match self.mint_capability_with_memory_ref_split(cnode, cap) {
            Ok(cap) => Some(cap),
            Err(_) => None,
        }
    }

    /// Takes a fresh capability back.
    pub fn sr_revoke_split(&mut self, cnode: CNodeId, cap: CapId, object: CapObject)
        ensures
            final(self)@ == old(self)@.mint_undone(cnode, cap, object),
    {
        self.rollback_minted_cap_split(cnode, cap, object);
    }

    /// Makes a live receiver runnable and queues it; says whether it is live.
    pub fn sr_wake_receiver_split(&mut self, tid: u64) -> (r: bool)
        ensures
            r == (old(self)@.tasks.find(tid) matches Some(tcb) && tcb.status.spec_live()),
            final(self)@ == old(self)@.receiver_woken(tid),
    {
        let (i, tcb) = match self.state.tasks.lookup(tid) {
            None => {
                return false;
            },
            Some(found) => found,
        };
        if !tcb.status.live() {
            return false;
        }
        self.state.tasks.put(i, ThreadControlBlock { status: TaskStatus::Runnable, ..tcb });
        let priority = self.state.tasks.wake_priority(tid);
        let cpu = match tcb.cpu_affinity {
            Some(home) => home,
            None => self.state.sched.current_cpu,
        };
        let _ = self.state.sched.enqueue_on_with_priority(cpu, tid, priority);
        true
    }

    /// Is `tid`, in this very incarnation, blocked in a receive?
    pub fn sr_prevalidate_blocked_receiver_split(&self, tid: u64, asid: Asid) -> (r: bool)
        ensures
            r == self@.tasks.receiver_blocked(tid, asid),
    {
        match self.state.tasks.get(tid) {
            Some(tcb) => tcb.asid == Some(asid) && tcb.status.receiving(),
            None => false,
        }
    }

    /// Takes exactly this receiver off exactly this endpoint.
    pub fn sr_claim_endpoint_waiter_split(
        &mut self,
        eidx: usize,
        egen: u64,
        receiver: ReceiverWaiterIdentity,
    ) -> (r: Option<WaiterClaim>)
        ensures
            r == if old(self)@.ipc.claimable(eidx as int, egen, receiver) {
                Some(
                    WaiterClaim {
                        eidx,
                        generation: egen,
                        receiver,
                        wait_generation: old(
                            self,
                        )@.ipc.endpoints[eidx as int].waiter->0.wait_generation,
                    },
                )
            } else {
                None
            },
            final(self)@ == if r is Some {
                Kernel { ipc: old(self)@.ipc.with_waiter(eidx as int, None), ..old(self)@ }
            } else {
                old(self)@
            },
    {
        match self.state.ipc.waiter_at(eidx) {
            None => None,
            Some(record) => {
                if record.receiver != receiver || self.state.ipc.endpoints[eidx].generation
                    != egen {
                    return None;
                }
                self.state.ipc.put_waiter(eidx, None);
                Some(
                    WaiterClaim {
                        eidx,
                        generation: egen,
                        receiver,
                        wait_generation: record.wait_generation,
                    },
                )
            },
        }
    }

    /// How this very endpoint treats its queue; nothing when it is gone.
    pub fn endpoint_mode_split_read(&self, eidx: usize, egen: u64) -> (r: Option<EndpointMode>)
        ensures
            r == if eidx < self@.ipc.endpoints.len() && self@.ipc.endpoints[eidx as int].generation
                == egen {
                self@.ipc.endpoints[eidx as int].mode
            } else {
                None
            },
    {
        if eidx >= self.state.ipc.endpoints.len() {
            return None;
        }
        let slot = self.state.ipc.endpoints[eidx];
        if slot.generation != egen {
            return None;
        }
        slot.mode
    }

    /// Does exactly this incarnation wait at exactly this endpoint?
    pub fn endpoint_waiter_is_split_read(
        &self,
        eidx: usize,
        egen: u64,
        identity: ReceiverWaiterIdentity,
    ) -> (r: bool)
        ensures
            r == self@.ipc.claimable(eidx as int, egen, identity),
    {
        self.state.ipc.waits_at(eidx, identity) && self.state.ipc.endpoints[eidx].generation == egen
    }

    /// Puts a claimed waiter back: only while exactly that receiver still waits, at exactly that
    /// endpoint, and nobody else took its place.
    pub fn sr_restore_endpoint_waiter_split(&mut self, claim: &WaiterClaim) -> (r: bool)
        ensures
            r == old(self)@.claim_restorable(*claim),
            final(self)@ == old(self)@.claim_restored(*claim),
    {
        if !self.sr_prevalidate_blocked_receiver_split(
            claim.receiver.tid.0,
            claim.receiver.asid,
        ) {
            return false;
        }
        if claim.eidx >= self.state.ipc.endpoints.len() {
            return false;
        }
        let slot = self.state.ipc.endpoints[claim.eidx];
        if slot.generation != claim.generation || slot.waiter.is_some() {
            return false;
        }
        self.state.ipc.put_waiter(
            claim.eidx,
            Some(
                EndpointWaiterRecord {
                    receiver: claim.receiver,
                    wait_generation: claim.wait_generation,
                },
            ),
        );
        true
    }

    /// Makes a claimed receiver runnable and clears its return lanes.
    pub fn sr_commit_blocked_receiver_split(&mut self, tid: u64, asid: Asid) -> (r: ReceiverCommit)
        ensures
            r == old(self)@.tasks.commit_verdict(tid, asid),
            final(self)@ == (Kernel {
                tasks: old(self)@.tasks.committed(tid, asid),
                ..old(self)@
            }),
    {
        match self.state.tasks.lookup(tid) {
            None => ReceiverCommit::GoneDead,
            Some((i, tcb)) => {
                if tcb.status.terminal() {
                    return ReceiverCommit::GoneDead;
                }
                if tcb.asid != Some(asid) || !tcb.status.receiving() {
                    return ReceiverCommit::Replaced;
                }
                let user_context = tcb.user_context.returns_cleared();
                self.state.tasks.put(
                    i,
                    ThreadControlBlock { status: TaskStatus::Runnable, user_context, ..tcb },
                );
                ReceiverCommit::Committed(tcb.cpu_affinity)
            },
        }
    }

    /// Queues a committed receiver on its home, or else on the current processor.
    pub fn sr_enqueue_committed_receiver_split(&mut self, tid: u64, affinity: Option<CpuId>) -> (r:
        ReceiverEnqueue)
        ensures
            r == old(self)@.receiver_enqueue(tid, affinity, false),
            final(self)@ == old(self)@.after_receiver_enqueue(tid, affinity, false),
    {
        let priority = self.state.tasks.wake_priority(tid);
        self.enqueue_committed_receiver_inner(tid, priority, affinity, false)
    }

    /// Queues a committed receiver; an entry that was there before is withdrawn.
    pub fn sr_enqueue_committed_receiver_reconciled_split(
        &mut self,
        tid: u64,
        affinity: Option<CpuId>,
    ) -> (r: ReceiverEnqueue)
        ensures
            r == old(self)@.receiver_enqueue(tid, affinity, true),
            final(self)@ == old(self)@.after_receiver_enqueue(tid, affinity, true),
    {
        let priority = self.state.tasks.wake_priority(tid);
        self.enqueue_committed_receiver_inner(tid, priority, affinity, true)
    }

    fn enqueue_committed_receiver_inner(
        &mut self,
        tid: u64,
        priority: TaskPriority,
        affinity: Option<CpuId>,
        reconcile: bool,
    ) -> (r: ReceiverEnqueue)
        requires
            priority == old(self)@.tasks.wake_priority(tid),
        ensures
            r == old(self)@.receiver_enqueue(tid, affinity, reconcile),
            final(self)@ == old(self)@.after_receiver_enqueue(tid, affinity, reconcile),
    {
        let cpu = match affinity {
            Some(home) => home,
            None => self.state.sched.current_cpu,
        };
        match self.state.sched.enqueue_on_with_priority(cpu, tid, priority) {
            Ok(_) => ReceiverEnqueue::Enqueued { cpu },
            Err(error) => {
                let reconciled = if error == SchedulerError::AlreadyQueued && reconcile {
                    Some(self.state.sched.withdraw_queued_tid_on(cpu, tid))
                } else {
                    None
                };
                ReceiverEnqueue::Rejected { cpu, error, reconciled }
            },
        }
    }

    /// Is `tid` current on, or queued for, any processor?
    pub fn receiver_has_scheduler_membership_split_read(&self, tid: u64) -> (r: bool)
        ensures
            r == self@.sched.present(tid),
    {
        self.state.sched.task_present_anywhere(tid)
    }

    /// Takes a commit back: a receiver that is runnable waits by `recv_cap` again.
    pub fn sr_uncommit_blocked_receiver_split(&mut self, tid: u64, asid: Asid, recv_cap: CapId) -> (r:
        bool)
        ensures
            r == old(self)@.tasks.can_uncommit(tid, asid),
            final(self)@ == (Kernel {
                tasks: old(self)@.tasks.uncommitted(tid, asid, recv_cap),
                ..old(self)@
            }),
    {
        match self.state.tasks.lookup_exact(tid, Some(asid)) {
            None => false,
            Some((i, tcb)) => {
                if !matches!(tcb.status, TaskStatus::Runnable) {
                    return false;
                }
                self.state.tasks.put(
                    i,
                    ThreadControlBlock {
                        status: TaskStatus::Blocked(WaitReason::EndpointReceive(recv_cap)),
                        ..tcb
                    },
                );
                true
            },
        }
    }

    /// The capability by which this incarnation waits to receive.
    pub fn blocked_recv_cap_split_read(&self, tid: u64, asid: Asid) -> (r: Option<CapId>)
        ensures
            r == self@.tasks.blocked_recv_cap(tid, asid),
    {
        match self.state.tasks.lookup_exact(tid, Some(asid)) {
            None => None,
            Some((_, tcb)) => match tcb.status {
                TaskStatus::Blocked(WaitReason::EndpointReceive(cap)) => Some(cap),
                _ => None,
            },
        }
    }

    /// Lets the receiver of a region go on.  Returns whether it was woken, or nothing when the
    /// receiver no longer waits for this delivery.
    pub fn sr_finalize_blocked_receiver_and_wake_split(&mut self, snap: &SharedRegionSnapshot) -> (r:
        Option<bool>)
        ensures
            r == old(self)@.finalize_result(*snap),
            final(self)@ == old(self)@.after_finalize(*snap),
    {
        let tid: u64 = snap.receiver_tid;
        let asid = snap.receiver_asid;
        if !snap.blocked_endpoint_waiter {
            return Some(self.sr_wake_receiver_split(tid));
        }
        let (eidx, egen) = match snap.endpoint {
            CapObject::Endpoint { index, generation } => (index, generation),
            _ => {
                return None;
            },
        };
        let receiver = ReceiverWaiterIdentity { tid: ThreadId(tid), asid };
        if !self.sr_prevalidate_blocked_receiver_split(tid, asid) {
            return None;
        }
        let claim = match self.sr_claim_endpoint_waiter_split(eidx, egen, receiver) {
            None => {
                return None;
            },
            Some(claim) => claim,
        };
        let recv_cap = self.blocked_recv_cap_split_read(tid, asid);
        match self.sr_commit_blocked_receiver_split(tid, asid) {
            ReceiverCommit::Committed(affinity) => {
                match self.sr_enqueue_committed_receiver_split(tid, affinity) {
                    ReceiverEnqueue::Enqueued { .. } => Some(true),
                    ReceiverEnqueue::Rejected { error, .. } => {
                        if error != SchedulerError::AlreadyQueued {
                            if let Some(cap) = recv_cap {
                                if self.sr_uncommit_blocked_receiver_split(tid, asid, cap) {
                                    let _ = self.sr_restore_endpoint_waiter_split(&claim);
                                }
                            }
                        }
                        None
                    },
                }
            },
            _ => None,
        }
    }
}

fn page_at(base: u64, i: u64) -> (r: Option<u64>)
    ensures
        r == Kernel::page_address(base, i as int),
{
    if i > u64::MAX / 4096 {
        return None;
    }
    base.checked_add(4096 * i)
}

fn bytes_of_pages(pages: usize) -> (r: usize)
    ensures
        r == Kernel::region_len(pages as int),
{
    match pages.checked_mul(PAGE_SIZE) {
        None => usize::MAX,
        Some(len) => len,
    }
}

impl SharedKernel {
    /// Maps page `i` of a region; says whether it could be.
    fn map_region_page(&mut self, snap: &SharedRegionSnapshot, base: PhysAddr, i: u64) -> (r: bool)
        ensures
            r == old(self)@.region_page_fits(*snap, base, i as int),
            final(self)@ == if r {
                old(self)@.region_page_mapped(*snap, base, i as int)
            } else {
                old(self)@
            },
    {
        let va = match page_at(snap.map_va, i) {
            None => {
                return false;
            },
            Some(va) => va,
        };
        let phys = match page_at(base.0, i) {
            None => {
                return false;
            },
            Some(phys) => phys,
        };
        let flags = PageFlags { user: true, read: true, write: snap.writable, execute: false };
        match self.map_user_page_in_asid_split(
            snap.receiver_asid,
            VirtAddr(va),
            Mapping { phys: PhysAddr(phys), flags },
        ) {
            Err(_) => false,
            Ok(follow) => {
                self.sr_apply_map_followup_split(follow);
                true
            },
        }
    }

    /// Maps the pages of a region in order, and returns how many could be mapped.
    fn map_region(&mut self, snap: &SharedRegionSnapshot, base: PhysAddr) -> (r: usize)
        ensures
            (final(self)@, r as int) == old(self)@.region_mapped(
                *snap,
                base,
                0,
                snap.map_pages as int,
            ),
            r <= snap.map_pages,
    {
        let mut i: usize = 0;
        while i < snap.map_pages
            invariant
                i <= snap.map_pages,
                old(self)@.region_mapped(*snap, base, 0, snap.map_pages as int)
                    == self@.region_mapped(*snap, base, i as int, snap.map_pages as int),
            decreases snap.map_pages - i,
        {
            if !self.map_region_page(snap, base, i as u64) {
                return i;
            }
            i += 1;
        }
        i
    }

    /// Takes a delivery back and releases the pin.
    fn undo_region(
        &mut self,
        snap: &SharedRegionSnapshot,
        cap: Option<CapId>,
        pages: usize,
        acks: &[usize],
    )
        ensures
            final(self)@ == old(self)@.region_undone(*snap, cap, pages as int, acks@),
    {
        if let Some(cap) = cap {
            let _ = self.unmap_range_two_phase_split(
                snap.receiver_asid,
                snap.map_va as usize,
                bytes_of_pages(pages),
                acks,
            );
            let _ = self.sr_remove_active_mapping_split(snap.receiver_tid, cap);
            self.sr_revoke_split(snap.receiver_cnode, cap, snap.object);
        }
        self.sr_release_pin_split(snap.object);
    }

    /// Gives the receiver the capability `cap` mapped and announced.
    fn publish_region(&mut self, snap: &SharedRegionSnapshot, cap: CapId, acks: &[usize]) -> (r:
        Result<SharedRegionPublish, SharedRegionError>)
        ensures
            (RegionEnd { kernel: final(self)@, result: r }) == old(self)@.region_published(
                *snap,
                cap,
                acks@,
            ),
    {
        let len: usize = bytes_of_pages(snap.map_pages);
        if !self.sr_register_active_mapping_split(snap.receiver_tid, cap, snap.map_va, len) {
            self.undo_region(snap, Some(cap), 0, acks);
            return Err(SharedRegionError::NoMappingSlot);
        }
        let base = match self.sr_phys_base_split(snap.object) {
            None => {
                self.undo_region(snap, Some(cap), 0, acks);
                return Err(SharedRegionError::MapFailed);
            },
            Some(base) => base,
        };
        let mapped: usize = self.map_region(snap, base);
        if mapped < snap.map_pages {
            self.undo_region(snap, Some(cap), mapped, acks);
            return Err(SharedRegionError::MapFailed);
        }
        let meta = RecvMeta {
            status: 0,
            opcode: snap.opcode,
            payload_len: 0,
            cap: cap.0,
            flags: RECV_META_TRANSFERRED_CAP,
            sender_tid: snap.sender_tid,
        };
        let encoded = meta.encode();
        if self.copy_to_user_split(
            snap.receiver_asid,
            snap.meta_user_ptr,
            encoded.as_slice(),
        ).is_err() {
            self.undo_region(snap, Some(cap), mapped, acks);
            return Err(SharedRegionError::CopyFailed);
        }
        match self.sr_finalize_blocked_receiver_and_wake_split(snap) {
            None => {
                self.undo_region(snap, Some(cap), mapped, acks);
                Err(SharedRegionError::Stale)
            },
            Some(woke_receiver) => {
                self.sr_release_pin_split(snap.object);
                Ok(SharedRegionPublish { cap, woke_receiver })
            },
        }
    }

    /// Delivers a region to its receiver: a fresh capability, the pages mapped, metadata
    /// copied, and the receiver woken.  Whatever fails, what was done before is undone; `acks`
    /// says of each page that is unmapped then how many processors answered the request for it.
    pub fn run_shared_region_txn(&mut self, snap: &SharedRegionSnapshot, acks: &[usize]) -> (r:
        Result<SharedRegionPublish, SharedRegionError>)
        ensures
            (RegionEnd { kernel: final(self)@, result: r }) == old(self)@.region_delivered(
                *snap,
                acks@,
            ),
    {
        if self.sr_cancel_overflowed_split() {
            self.undo_region(snap, None, 0, acks);
            return Err(SharedRegionError::Cancelled);
        }
        if self.sr_consume_cancel_split(snap.receiver_tid, snap.receiver_asid) {
            self.undo_region(snap, None, 0, acks);
            return Err(SharedRegionError::Cancelled);
        }
        if !self.sr_receiver_alive_split(snap.receiver_tid, snap.receiver_asid) {
            self.undo_region(snap, None, 0, acks);
            return Err(SharedRegionError::ReceiverGone);
        }
        if !self.sr_object_live_split(snap.object) {
            self.undo_region(snap, None, 0, acks);
            return Err(SharedRegionError::ObjectGone);
        }
        let capability = Capability { object: snap.object, rights: snap.rights };
        match self.sr_mint_split(snap.receiver_cnode, capability) {
            None => {
                self.undo_region(snap, None, 0, acks);
                Err(SharedRegionError::NoCapability)
            },
            Some(cap) => self.publish_region(snap, cap, acks),
        }
    }
}

} // verus!
