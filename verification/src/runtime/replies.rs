//! Replies that are owed: the records, and the links from servers to them.
use vstd::prelude::*;

use crate::capability::{CapObject, RIGHT_SEND};
use crate::ids::{Asid, CapId, KernelError};
use crate::ipc::{
    Ipc, ReceiverWaiterIdentity, ReplyCapRecord, ReplyRecordReservation, ReplySlot, MAX_REPLY_CAPS,
};
use crate::kernel::Kernel;
use crate::runtime::SharedKernel;
use crate::seqs;
use crate::task::{server_reply_link_fits, ServerReplyLink, Tasks, ThreadControlBlock};

verus! {

/// Is the record bound to exactly this replier?
pub open spec fn bound_to(record: ReplyCapRecord, replier: ReceiverWaiterIdentity) -> bool {
    record.responder_tid == Some(replier.tid) && record.replier_asid == Some(replier.asid)
}

fn is_bound_to(record: &ReplyCapRecord, replier: ReceiverWaiterIdentity) -> (r: bool)
    ensures
        r == bound_to(*record, replier),
{
    record.responder_tid == Some(replier.tid) && record.replier_asid == Some(replier.asid)
}

/// The link of a server to the record it owes.
pub open spec fn link_of(server: ReceiverWaiterIdentity, index: usize, generation: u64) -> ServerReplyLink {
    ServerReplyLink {
        server_tid: server.tid.0,
        server_asid: server.asid,
        reply_record_index: index,
        reply_record_generation: generation,
    }
}

impl Ipc {
    /// The first vacant reply slot; the limit if there is none.
    pub open spec fn vacant_reply(self) -> int {
        seqs::first_where(self.replies, crate::ipc::reply_vacant())
    }

    /// Is there a vacant reply slot?
    pub open spec fn reply_fits(self) -> bool {
        self.vacant_reply() < self.replies.len() && self.vacant_reply() < MAX_REPLY_CAPS
    }

    /// The record of a call that was just reserved.
    pub open spec fn fresh_record(
        caller: ReceiverWaiterIdentity,
        replier: ReceiverWaiterIdentity,
        reply_endpoint: CapObject,
    ) -> ReplyCapRecord {
        ReplyCapRecord {
            reservation: ReplyRecordReservation::Reserved,
            caller_tid: caller.tid,
            caller_asid: caller.asid,
            reply_endpoint,
            responder_tid: Some(replier.tid),
            replier_asid: Some(replier.asid),
            caller_cap_id: CapId(0),
            waiter_cap_id: None,
        }
    }

    /// The state after a reply was reserved, if a slot was vacant.
    pub open spec fn reply_reserved(
        self,
        caller: ReceiverWaiterIdentity,
        replier: ReceiverWaiterIdentity,
        reply_endpoint: CapObject,
    ) -> Ipc {
        let i = self.vacant_reply();
        if self.reply_fits() {
            Ipc {
                replies: self.replies.update(
                    i,
                    ReplySlot {
                        record: Some(Ipc::fresh_record(caller, replier, reply_endpoint)),
                        generation: crate::ipc::next_generation(self.replies[i].generation),
                        ..self.replies[i]
                    },
                ),
                ..self
            }
        } else {
            self
        }
    }

    /// Is the record there, in this state, and bound to exactly this replier?
    pub open spec fn record_is_of(
        self,
        index: int,
        generation: u64,
        reservation: ReplyRecordReservation,
        replier: ReceiverWaiterIdentity,
    ) -> bool {
        self.record_is(index, generation, reservation) && bound_to(
            self.reply_record(index, generation)->0,
            replier,
        )
    }
}

impl Tasks {
    /// Does the server still have its link to exactly this record?
    pub open spec fn has_link(self, server: ReceiverWaiterIdentity, index: usize, generation: u64) -> bool {
        self.exact(server.tid.0, Some(server.asid)) matches Some(tcb) && tcb.server_reply_link
            == Some(link_of(server, index, generation))
    }

    /// The state after the server's link to exactly this record, if it had it, was removed.
    pub open spec fn unlinked(self, server: ReceiverWaiterIdentity, index: usize, generation: u64) -> Tasks {
        if self.has_link(server, index, generation) {
            self.with_exact(
                server.tid.0,
                Some(server.asid),
                ThreadControlBlock {
                    server_reply_link: None,
                    ..self.exact(server.tid.0, Some(server.asid))->0
                },
            )
        } else {
            self
        }
    }

    /// May the server get a link to this record?
    pub open spec fn link_admitted(self, server: ReceiverWaiterIdentity, index: usize, generation: u64) -> bool {
        self.exact(server.tid.0, Some(server.asid)) matches Some(tcb) && crate::task::link_fits(
            tcb,
            link_of(server, index, generation),
        )
    }

    /// The state after the server got a link to this record, if it may.
    pub open spec fn linked(self, server: ReceiverWaiterIdentity, index: usize, generation: u64) -> Tasks {
        if self.link_admitted(server, index, generation) {
            self.with_exact(
                server.tid.0,
                Some(server.asid),
                ThreadControlBlock {
                    server_reply_link: Some(link_of(server, index, generation)),
                    ..self.exact(server.tid.0, Some(server.asid))->0
                },
            )
        } else {
            self
        }
    }
}

impl Kernel {
    /// The server that a record is bound to.
    pub open spec fn bound_server(self, index: int, generation: u64) -> Option<
        ReceiverWaiterIdentity,
    > {
        match self.ipc.reply_record(index, generation) {
            Some(record) => match (record.responder_tid, record.replier_asid) {
                (Some(tid), Some(asid)) => Some(ReceiverWaiterIdentity { tid, asid }),
                _ => None,
            },
            None => None,
        }
    }

    /// Does the server of this record still have its link to it?
    pub open spec fn link_is_open(self, index: usize, generation: u64) -> bool {
        match self.bound_server(index as int, generation) {
            Some(server) => self.tasks.has_link(server, index, generation),
            None => false,
        }
    }

    /// The state after the link of the record's server, if it had it, was removed.
    pub open spec fn link_finalized(self, index: usize, generation: u64) -> Kernel {
        match self.bound_server(index as int, generation) {
            Some(server) => Kernel {
                tasks: self.tasks.unlinked(server, index, generation),
                ..self
            },
            None => self,
        }
    }

    /// The state after a reserved reply was used up, if it was reserved.
    pub open spec fn reply_consumed(self, index: usize, generation: u64) -> Kernel {
        if self.ipc.record_is(index as int, generation, ReplyRecordReservation::Reserved) {
            Kernel {
                ipc: self.ipc.record_moved(
                    index as int,
                    generation,
                    ReplyRecordReservation::Reserved,
                    ReplyRecordReservation::Consumed,
                ),
                ..self
            }.link_finalized(index, generation)
        } else {
            self
        }
    }

    /// Can a used-up reply be made good again for exactly this replier?
    pub open spec fn reply_restorable(self, index: usize, generation: u64, replier: ReceiverWaiterIdentity) -> bool {
        self.tasks.link_admitted(replier, index, generation) && self.ipc.record_is_of(
            index as int,
            generation,
            ReplyRecordReservation::Consumed,
            replier,
        )
    }

    /// The state after a used-up reply was made good again, if it could be: record and link
    /// come back together.
    pub open spec fn reply_restored(self, index: usize, generation: u64, replier: ReceiverWaiterIdentity) -> Kernel {
        if self.reply_restorable(index, generation, replier) {
            Kernel {
                ipc: self.ipc.record_moved(
                    index as int,
                    generation,
                    ReplyRecordReservation::Consumed,
                    ReplyRecordReservation::Available,
                ),
                tasks: self.tasks.linked(replier, index, generation),
                ..self
            }
        } else {
            self
        }
    }
}

impl SharedKernel {
    /// Reserves a reply record for a call; it cannot be answered yet.
    pub fn reserve_direct_reply_record_split(
        &mut self,
        caller: ReceiverWaiterIdentity,
        replier: ReceiverWaiterIdentity,
        reply_endpoint: CapObject,
    ) -> (r: Result<(usize, u64), KernelError>)
        ensures
            r == if old(self)@.ipc.reply_fits() {
                Ok::<(usize, u64), KernelError>(
                    (
                        old(self)@.ipc.vacant_reply() as usize,
                        crate::ipc::next_generation(
                            old(self)@.ipc.replies[old(self)@.ipc.vacant_reply()].generation,
                        ),
                    ),
                )
            } else {
                Err(KernelError::CapabilityFull)
            },
            final(self)@ == (Kernel {
                ipc: old(self)@.ipc.reply_reserved(caller, replier, reply_endpoint),
                ..old(self)@
            }),
    {
        let mut i: usize = 0;
        while i < self.state.ipc.replies.len() && self.state.ipc.replies[i].record.is_some()
            invariant
                *self == *old(self),
                i <= self.state.ipc.replies@.len(),
                forall|j: int|
                    0 <= j < i ==> !crate::ipc::reply_vacant()(
                        #[trigger] self.state.ipc.replies@[j],
                    ),
            decreases self.state.ipc.replies@.len() - i,
        {
            i += 1;
        }
        proof {
            seqs::lemma_first_where_is(
                self.state.ipc.replies@,
                crate::ipc::reply_vacant(),
                i as int,
            );
        }
        if i >= self.state.ipc.replies.len() || i >= MAX_REPLY_CAPS {
            return Err(KernelError::CapabilityFull);
        }
        let slot = self.state.ipc.replies[i];
        let generation: u64 = if slot.generation == u64::MAX {
            1
        } else {
            slot.generation + 1
        };
        let record = ReplyCapRecord {
            reservation: ReplyRecordReservation::Reserved,
            caller_tid: caller.tid,
            caller_asid: caller.asid,
            reply_endpoint,
            responder_tid: Some(replier.tid),
            replier_asid: Some(replier.asid),
            caller_cap_id: CapId(0),
            waiter_cap_id: None,
        };
        self.state.ipc.replies[i] = ReplySlot { record: Some(record), generation, ..slot };
        Ok((i, generation))
    }

    /// Binds the server's capability to a reserved record.
    pub fn bind_direct_reply_record_server_cap_split(
        &mut self,
        index: usize,
        generation: u64,
        server_cap: CapId,
    ) -> (r: bool)
        ensures
            r == old(self)@.ipc.record_is(
                index as int,
                generation,
                ReplyRecordReservation::Reserved,
            ),
            final(self)@ == if r {
                Kernel {
                    ipc: old(self)@.ipc.with_waiter_cap(index as int, generation, Some(server_cap)),
                    ..old(self)@
                }
            } else {
                old(self)@
            },
    {
        match self.state.ipc.reply_record(index, generation) {
            None => false,
            Some(record) => {
                if record.reservation != ReplyRecordReservation::Reserved {
                    return false;
                }
                let _ = self.state.ipc.record_reply_waiter_cap(index, generation, server_cap);
                true
            },
        }
    }

    /// Makes a reserved record good for an answer.
    pub fn commit_direct_reply_record_split(&mut self, index: usize, generation: u64) -> (r: bool)
        ensures
            r == old(self)@.ipc.record_is(
                index as int,
                generation,
                ReplyRecordReservation::Reserved,
            ),
            final(self)@ == (Kernel {
                ipc: old(self)@.ipc.record_moved(
                    index as int,
                    generation,
                    ReplyRecordReservation::Reserved,
                    ReplyRecordReservation::Available,
                ),
                ..old(self)@
            }),
    {
        self.state.ipc.move_record(
            index,
            generation,
            ReplyRecordReservation::Reserved,
            ReplyRecordReservation::Available,
        )
    }

    /// Gives a reserved record up; its slot is vacant again.
    pub fn cancel_direct_reply_record_split(&mut self, index: usize, generation: u64) -> (r: bool)
        ensures
            r == old(self)@.ipc.record_is(
                index as int,
                generation,
                ReplyRecordReservation::Reserved,
            ),
            final(self)@ == if r {
                Kernel { ipc: old(self)@.ipc.with_record(index as int, None), ..old(self)@ }
            } else {
                old(self)@
            },
    {
        match self.state.ipc.reply_record(index, generation) {
            None => false,
            Some(record) => {
                if record.reservation != ReplyRecordReservation::Reserved {
                    return false;
                }
                self.state.ipc.put_record(index, None);
                true
            },
        }
    }

    /// Reserves an existing record for the answer of exactly the replier it is bound to.
    pub fn reserve_existing_reply_record_split(
        &mut self,
        index: usize,
        generation: u64,
        replier: ReceiverWaiterIdentity,
    ) -> (r: bool)
        ensures
            r == old(self)@.ipc.record_is_of(
                index as int,
                generation,
                ReplyRecordReservation::Available,
                replier,
            ),
            final(self)@ == if r {
                Kernel {
                    ipc: old(self)@.ipc.record_moved(
                        index as int,
                        generation,
                        ReplyRecordReservation::Available,
                        ReplyRecordReservation::Reserved,
                    ),
                    ..old(self)@
                }
            } else {
                old(self)@
            },
    {
        match self.state.ipc.reply_record(index, generation) {
            None => false,
            Some(record) => {
                if !is_bound_to(&record, replier) {
                    return false;
                }
                self.state.ipc.move_record(
                    index,
                    generation,
                    ReplyRecordReservation::Available,
                    ReplyRecordReservation::Reserved,
                )
            },
        }
    }

    /// Uses a reserved reply up, for good, and removes the link of its server.
    pub fn consume_reply_record_split(&mut self, index: usize, generation: u64) -> (r: bool)
        ensures
            r == old(self)@.ipc.record_is(
                index as int,
                generation,
                ReplyRecordReservation::Reserved,
            ),
            final(self)@ == old(self)@.reply_consumed(index, generation),
    {
        let consumed = self.state.ipc.move_record(
            index,
            generation,
            ReplyRecordReservation::Reserved,
            ReplyRecordReservation::Consumed,
        );
        if consumed {
            let _ = self.finalize_server_reply_link_for_record_split(index, generation);
        }
        consumed
    }

    /// Removes the link of the record's server; says whether it had it.
    pub fn finalize_server_reply_link_for_record_split(&mut self, index: usize, generation: u64) -> (r:
        bool)
        ensures
            r == old(self)@.link_is_open(index, generation),
            final(self)@ == old(self)@.link_finalized(index, generation),
    {
        match self.state.ipc.reply_record(index, generation) {
            None => false,
            Some(record) => match (record.responder_tid, record.replier_asid) {
                (Some(tid), Some(asid)) => self.unregister_server_reply_link_split(
                    tid.0,
                    asid,
                    index,
                    generation,
                ),
                _ => false,
            },
        }
    }

    /// Makes a reserved record good for an answer again.
    pub fn release_reply_record_split(&mut self, index: usize, generation: u64) -> (r: bool)
        ensures
            r == old(self)@.ipc.record_is(
                index as int,
                generation,
                ReplyRecordReservation::Reserved,
            ),
            final(self)@ == (Kernel {
                ipc: old(self)@.ipc.record_moved(
                    index as int,
                    generation,
                    ReplyRecordReservation::Reserved,
                    ReplyRecordReservation::Available,
                ),
                ..old(self)@
            }),
    {
        self.state.ipc.move_record(
            index,
            generation,
            ReplyRecordReservation::Reserved,
            ReplyRecordReservation::Available,
        )
    }

    /// Makes a used-up reply good again for exactly its replier, record and link together, or
    /// changes nothing.
    pub fn restore_consumed_reply_record_split(
        &mut self,
        index: usize,
        generation: u64,
        replier: ReceiverWaiterIdentity,
    ) -> (r: bool)
        ensures
            r == old(self)@.reply_restorable(index, generation, replier),
            final(self)@ == old(self)@.reply_restored(index, generation, replier),
    {
        let link = ServerReplyLink {
            server_tid: replier.tid.0,
            server_asid: replier.asid,
            reply_record_index: index,
            reply_record_generation: generation,
        };
        let (i, tcb) = match self.state.tasks.lookup_exact(replier.tid.0, Some(replier.asid)) {
            None => {
                return false;
            },
            Some(found) => found,
        };
        if !server_reply_link_fits(&tcb, link) {
            return false;
        }
        match self.state.ipc.reply_record(index, generation) {
            None => {
                return false;
            },
            Some(record) => {
                if !is_bound_to(&record, replier) {
                    return false;
                }
            },
        }
        if !self.state.ipc.move_record(
            index,
            generation,
            ReplyRecordReservation::Consumed,
            ReplyRecordReservation::Available,
        ) {
            return false;
        }
        self.state.tasks.put(i, ThreadControlBlock { server_reply_link: Some(link), ..tcb });
        true
    }

    /// Uses up a reserved reply that nobody can answer any more.
    pub fn discard_reply_record_split(&mut self, index: usize, generation: u64) -> (r: bool)
        ensures
            r == old(self)@.ipc.record_is(
                index as int,
                generation,
                ReplyRecordReservation::Reserved,
            ),
            final(self)@ == old(self)@.reply_consumed(index, generation),
    {
        self.consume_reply_record_split(index, generation)
    }

    /// The endpoint to which a reply goes, as slot and generation.
    pub fn reply_record_endpoint_ref_split_read(&self, index: usize, generation: u64) -> (r: Option<
        (usize, u64),
    >)
        ensures
            r == match self@.ipc.reply_record(index as int, generation) {
                Some(record) => match record.reply_endpoint {
                    CapObject::Endpoint { index, generation } => Some((index, generation)),
                    _ => None,
                },
                None => None,
            },
    {
        match self.state.ipc.reply_record(index, generation) {
            Some(record) => match record.reply_endpoint {
                CapObject::Endpoint { index, generation } => Some((index, generation)),
                _ => None,
            },
            None => None,
        }
    }

    /// Links a server to the reply it owes; refused when the server is gone, has ended, or owes
    /// another reply.
    pub fn register_server_reply_link_split(
        &mut self,
        server_tid: u64,
        server_asid: Asid,
        record_index: usize,
        record_generation: u64,
    ) -> (r: bool)
        ensures
            r == old(self)@.tasks.link_admitted(
                server_identity(server_tid, server_asid),
                record_index,
                record_generation,
            ),
            final(self)@ == (Kernel {
                tasks: old(self)@.tasks.linked(
                    server_identity(server_tid, server_asid),
                    record_index,
                    record_generation,
                ),
                ..old(self)@
            }),
    {
        let link = ServerReplyLink {
            server_tid,
            server_asid,
            reply_record_index: record_index,
            reply_record_generation: record_generation,
        };
        match self.state.tasks.lookup_exact(server_tid, Some(server_asid)) {
            None => false,
            Some((i, tcb)) => {
                if !server_reply_link_fits(&tcb, link) {
                    return false;
                }
                self.state.tasks.put(
                    i,
                    ThreadControlBlock { server_reply_link: Some(link), ..tcb },
                );
                true
            },
        }
    }

    /// Whether the server could be linked to some reply now.
    pub fn can_reserve_server_reply_link_split(&self, server_tid: u64, server_asid: Asid) -> (r:
        bool)
        ensures
            r == (self@.tasks.exact(server_tid, Some(server_asid)) matches Some(tcb)
                && tcb.server_reply_link is None && tcb.status.spec_live()),
    {
        match self.state.tasks.lookup_exact(server_tid, Some(server_asid)) {
            None => false,
            Some((_, tcb)) => tcb.server_reply_link.is_none() && tcb.status.live(),
        }
    }

    /// Removes the server's link to exactly this record; says whether it had it.
    pub fn unregister_server_reply_link_split(
        &mut self,
        server_tid: u64,
        server_asid: Asid,
        record_index: usize,
        record_generation: u64,
    ) -> (r: bool)
        ensures
            r == old(self)@.tasks.has_link(
                server_identity(server_tid, server_asid),
                record_index,
                record_generation,
            ),
            final(self)@ == (Kernel {
                tasks: old(self)@.tasks.unlinked(
                    server_identity(server_tid, server_asid),
                    record_index,
                    record_generation,
                ),
                ..old(self)@
            }),
    {
        let link = ServerReplyLink {
            server_tid,
            server_asid,
            reply_record_index: record_index,
            reply_record_generation: record_generation,
        };
        match self.state.tasks.lookup_exact(server_tid, Some(server_asid)) {
            None => false,
            Some((i, tcb)) => {
                if tcb.server_reply_link != Some(link) {
                    return false;
                }
                self.state.tasks.put(i, ThreadControlBlock { server_reply_link: None, ..tcb });
                true
            },
        }
    }

    /// The reply that `requester_tid` may answer by `cap`.
    pub fn resolve_reply_cap_split_read(&self, requester_tid: u64, cap: CapId) -> (r: Result<
        (usize, u64),
        KernelError,
    >)
        ensures
            r == match self@.cnode_of_task(requester_tid) {
                None => Err::<(usize, u64), KernelError>(KernelError::InvalidCapability),
                Some(cnode) => match self@.caps.resolve(cnode, cap) {
                    None => Err(KernelError::InvalidCapability),
                    Some(capability) => match capability.object {
                        CapObject::Reply { index, generation } => if capability.rights.spec_allows(
                            RIGHT_SEND,
                        ) {
                            Ok((index, generation))
                        } else {
                            Err(KernelError::MissingRight)
                        },
                        _ => Err(KernelError::WrongObject),
                    },
                },
            },
    {
        let cnode = match self.task_cnode_split(requester_tid) {
            None => {
                return Err(KernelError::InvalidCapability);
            },
            Some(cnode) => cnode,
        };
        match self.resolved_capability_split(cnode, cap) {
            None => Err(KernelError::InvalidCapability),
            Some(capability) => match capability.object {
                CapObject::Reply { index, generation } => {
                    if capability.rights.allows(RIGHT_SEND) {
                        Ok((index, generation))
                    } else {
                        Err(KernelError::MissingRight)
                    }
                },
                _ => Err(KernelError::WrongObject),
            },
        }
    }
}

/// The identity of a server.
pub open spec fn server_identity(tid: u64, asid: Asid) -> ReceiverWaiterIdentity {
    ReceiverWaiterIdentity { tid: crate::ids::ThreadId(tid), asid }
}

} // verus!
