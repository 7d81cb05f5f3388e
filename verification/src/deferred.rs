//! Work that one processor sets aside and finishes later.
use vstd::prelude::*;

use crate::capability::{CapObject, CapRights};
use crate::ids::{Asid, CNodeId, CapId, CpuId, ThreadId};
use crate::ipc::{Message, ReceiverWaiterIdentity};
use crate::seqs;
use crate::task::{DeadlineHandle, ReplyDeadlineClock};
use crate::trap::RecvMeta;

verus! {

/// Due reply deadlines that one processor may have waiting.
pub const RT_POST_WORK_SLOTS: usize = 16;

/// Due send deadlines that one processor may have waiting.
pub const ST_POST_WORK_SLOTS: usize = 16;

/// Due receive deadlines that one processor may have waiting.
pub const CT_POST_WORK_SLOTS: usize = 16;

/// Occupied task slots one deadline scan looks at.
pub const IPC_TIMEOUT_SCAN_WINDOW: usize = 64;

/// Cross-processor work items one processor may have waiting.
pub const MAX_WORK_ITEMS: usize = 64;

/// A reply deadline that is due.
#[derive(Clone, Copy, Debug, PartialEq, Eq, Structural)]
pub struct ReplyTimeoutPostWork {
    pub handle: DeadlineHandle,
    pub deadline: u64,
    pub clock: ReplyDeadlineClock,
}

/// A blocked send whose deadline is due.
#[derive(Clone, Copy, Debug, PartialEq, Eq, Structural)]
pub struct SendTimeoutPostWork {
    pub tid: u64,
    pub asid: Option<Asid>,
    pub send_generation: u64,
    pub deadline: u64,
}

/// A blocked receive whose deadline is due.
#[derive(Clone, Copy, Debug, PartialEq, Eq, Structural)]
pub struct RecvTimeoutPostWork {
    pub tid: u64,
    pub asid: Option<Asid>,
    pub wait_generation: u64,
    pub deadline: u64,
}

/// A server that ended while it owed a reply.
#[derive(Clone, Copy, Debug, PartialEq, Eq, Structural)]
pub struct ServerDeathPostWork {
    pub reply_record_index: usize,
    pub reply_record_generation: u64,
    pub exiting_server: ReceiverWaiterIdentity,
}

/// Work that one processor asks of another.
#[derive(Clone, Copy, Debug, PartialEq, Eq, Structural)]
pub enum WorkItem {
    Reschedule,
    WakeTask { tid: ThreadId },
}

/// An item in the list of one processor.
#[derive(Debug)]
pub struct CpuItem<T> {
    pub cpu: CpuId,
    pub item: T,
}

/// Items in the list of `cpu`.
pub open spec fn listed_for<T>(cpu: CpuId) -> spec_fn(CpuItem<T>) -> bool {
    |i: CpuItem<T>| i.cpu == cpu
}

/// Lists of items, one for each processor, in order of arrival.
pub struct CpuList<T> {
    pub items: Vec<CpuItem<T>>,
}

impl<T> View for CpuList<T> {
    type V = Seq<CpuItem<T>>;

    open spec fn view(&self) -> Seq<CpuItem<T>> {
        self.items@
    }
}

/// Has the list of `cpu` room for one more, with `limit` as its length?
pub open spec fn has_room<T>(items: Seq<CpuItem<T>>, cpu: CpuId, limit: usize) -> bool {
    seqs::count_where(items, listed_for::<T>(cpu)) < limit
}

/// The lists after an item was offered to the list of `cpu`.
pub open spec fn offered<T>(items: Seq<CpuItem<T>>, cpu: CpuId, item: T, limit: usize) -> Seq<
    CpuItem<T>,
> {
    if has_room(items, cpu, limit) {
        items.push(CpuItem { cpu, item })
    } else {
        items
    }
}

/// The oldest item of `cpu`.
pub open spec fn oldest<T>(items: Seq<CpuItem<T>>, cpu: CpuId) -> Option<T> {
    let i = seqs::first_where(items, listed_for::<T>(cpu));
    if i < items.len() {
        Some(items[i].item)
    } else {
        None
    }
}

/// The lists after the oldest item of `cpu` was taken.
pub open spec fn oldest_taken<T>(items: Seq<CpuItem<T>>, cpu: CpuId) -> Seq<CpuItem<T>> {
    let i = seqs::first_where(items, listed_for::<T>(cpu));
    if i < items.len() {
        items.remove(i)
    } else {
        items
    }
}

impl<T: Copy> CpuList<T> {
    /// Empty lists.
    pub fn empty() -> (r: CpuList<T>)
        ensures
            r@.len() == 0,
    {
        CpuList { items: Vec::new() }
    }

    /// Length of the list of `cpu`.
    pub fn count(&self, cpu: CpuId) -> (r: usize)
        ensures
            r == seqs::count_where(self@, listed_for::<T>(cpu)),
    {
        let mut n: usize = 0;
        let mut i: usize = 0;
        assert(self.items@.take(0).len() == 0);
        while i < self.items.len()
            invariant
                i <= self.items@.len(),
                n <= i,
                n == seqs::count_where(self.items@.take(i as int), listed_for::<T>(cpu)),
            decreases self.items@.len() - i,
        {
            proof {
                seqs::lemma_count_step(self.items@, listed_for::<T>(cpu), i as int);
            }
            if self.items[i].cpu == cpu {
                n += 1;
            }
            i += 1;
        }
        assert(self.items@.take(self.items@.len() as int) =~= self.items@);
        n
    }

    /// Appends an item to the list of `cpu`; refused when the list is full.
    pub fn offer(&mut self, cpu: CpuId, item: T, limit: usize) -> (r: bool)
        ensures
            r == has_room(old(self)@, cpu, limit),
            final(self)@ == offered(old(self)@, cpu, item, limit),
    {
        if self.count(cpu) < limit {
            self.items.push(CpuItem { cpu, item });
            true
        } else {
            false
        }
    }

    /// Takes the oldest item of `cpu`.
    pub fn take_oldest(&mut self, cpu: CpuId) -> (r: Option<T>)
        ensures
            r == oldest(old(self)@, cpu),
            final(self)@ == oldest_taken(old(self)@, cpu),
            r is Some ==> final(self)@.len() == old(self)@.len() - 1,
            r is None ==> final(self)@ == old(self)@,
    {
        let mut i: usize = 0;
        while i < self.items.len() && self.items[i].cpu != cpu
            invariant
                *self == *old(self),
                i <= self.items@.len(),
                forall|j: int| 0 <= j < i ==> !listed_for::<T>(cpu)(#[trigger] self.items@[j]),
            decreases self.items@.len() - i,
        {
            i += 1;
        }
        proof {
            seqs::lemma_first_where_is(self.items@, listed_for::<T>(cpu), i as int);
        }
        if i < self.items.len() {
            let taken = self.items.remove(i);
            Some(taken.item)
        } else {
            None
        }
    }
}

/// Which envelope a refused send takes back.
#[derive(Clone, Copy, Debug, PartialEq, Eq, Structural)]
pub struct EnvelopeCleanup {
    pub handle: u64,
    pub endpoint_idx: usize,
    pub cleanup_tid: ThreadId,
}

/// A send that is to block its sender.
#[derive(Clone, Copy, Debug, PartialEq, Eq)]
pub struct BlockingSendCommitSnapshot {
    pub cpu: CpuId,
    pub sender_tid: u64,
    pub sender_asid: Asid,
    pub endpoint_idx: usize,
    pub endpoint_generation: u64,
    pub msg: Message,
    pub send_cap: CapId,
    pub deadline: Option<u64>,
    pub transfer_envelope: Option<EnvelopeCleanup>,
}

/// Where a blocked receiver's message goes.
#[derive(Clone, Copy, Debug, PartialEq, Eq)]
pub struct WaiterDelivery {
    pub waiter_tid: u64,
    pub waiter_asid: Asid,
    pub payload_user_ptr: u64,
    pub meta_user_ptr: u64,
    pub endpoint_idx: usize,
    pub wake_tid: Option<ThreadId>,
    pub msg: Message,
}

/// A message without a capability for a blocked receiver.
#[derive(Clone, Copy, Debug, PartialEq, Eq)]
pub struct PlainDelivery {
    pub to: WaiterDelivery,
    pub meta: RecvMeta,
}

/// A capability to be copied to a blocked receiver.
#[derive(Clone, Copy, Debug, PartialEq, Eq)]
pub struct OrdinaryCapDelivery {
    pub to: WaiterDelivery,
    pub receiver_cnode: CNodeId,
    pub object: CapObject,
    pub rights: CapRights,
    pub source_tid: u64,
    pub source_cap: CapId,
}

/// A reply to be handed to a blocked receiver.
#[derive(Clone, Copy, Debug, PartialEq, Eq)]
pub struct ReplyCapDelivery {
    pub to: WaiterDelivery,
    pub receiver_cnode: CNodeId,
    pub reply_index: usize,
    pub reply_generation: u64,
}

/// A memory region to be mapped at a blocked receiver.
#[derive(Clone, Copy, Debug, PartialEq, Eq)]
pub struct SharedRegionSnapshot {
    pub receiver_tid: u64,
    pub receiver_asid: Asid,
    pub receiver_cnode: CNodeId,
    pub endpoint: CapObject,
    pub blocked_endpoint_waiter: bool,
    pub object: CapObject,
    pub rights: CapRights,
    pub map_va: u64,
    pub map_pages: usize,
    pub writable: bool,
    pub meta_user_ptr: u64,
    pub opcode: u16,
    pub sender_tid: u64,
}

/// Work that a system-call handler leaves for the way out.
#[derive(Clone, Copy, Debug, PartialEq, Eq)]
pub enum DispatchPostWork {
    Nothing,
    BlockingSendCommit(BlockingSendCommitSnapshot),
    BlockedWaiterPlainDelivery(PlainDelivery),
    BlockedWaiterOrdinaryCapDelivery(OrdinaryCapDelivery),
    BlockedWaiterReplyCapDelivery(ReplyCapDelivery),
    BlockedWaiterSharedRegionDelivery(SharedRegionSnapshot),
}

/// The state of everything set aside.
#[verifier::ext_equal]
pub struct Pending {
    pub reply: Seq<CpuItem<ReplyTimeoutPostWork>>,
    pub send: Seq<CpuItem<SendTimeoutPostWork>>,
    pub recv: Seq<CpuItem<RecvTimeoutPostWork>>,
    pub death: Seq<CpuItem<ServerDeathPostWork>>,
    pub work: Seq<CpuItem<WorkItem>>,
    pub cursors: Seq<usize>,
    pub stash: Seq<Option<DispatchPostWork>>,
    pub send_deferrals: Seq<Option<u64>>,
}

/// Everything set aside.
pub struct DeferredWork {
    pub reply: CpuList<ReplyTimeoutPostWork>,
    pub send: CpuList<SendTimeoutPostWork>,
    pub recv: CpuList<RecvTimeoutPostWork>,
    pub death: CpuList<ServerDeathPostWork>,
    pub work: CpuList<WorkItem>,
    /// Where each processor's next deadline scan starts.
    pub cursors: Vec<usize>,
    /// What each processor's trap handler left for the way out.
    pub stash: Vec<Option<DispatchPostWork>>,
    /// The sender whose block each processor's next dispatch follows.
    pub send_deferrals: Vec<Option<u64>>,
}

impl View for DeferredWork {
    type V = Pending;

    open spec fn view(&self) -> Pending {
        Pending {
            reply: self.reply@,
            send: self.send@,
            recv: self.recv@,
            death: self.death@,
            work: self.work@,
            cursors: self.cursors@,
            stash: self.stash@,
            send_deferrals: self.send_deferrals@,
        }
    }
}

} // verus!
