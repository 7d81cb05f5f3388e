//! Handing capabilities from one task to another.
use vstd::prelude::*;

use crate::capability::{CapObject, CapRights, Capability, Caps, DelegationLink, RIGHT_SEND};
use crate::ids::{CNodeId, CapId, KernelError, SyscallError, ThreadId};
use crate::ipc::{Ipc, ReplyCapRecord, ReplyRecordSetOutcome};
use crate::kernel::Kernel;
use crate::memory::Mem;
use crate::runtime::SharedKernel;
use crate::seqs;

verus! {

/// A reply that was handed to a receiver.
#[derive(Clone, Copy, Debug, PartialEq, Eq, Structural)]
pub struct ReplyCapMaterialization {
    pub cap: CapId,
    pub reply_index: usize,
    pub reply_generation: u64,
}

/// What a receiver is to get.
#[derive(Clone, Copy, Debug, PartialEq, Eq, Structural)]
pub struct TransferCapSnapshot {
    pub receiver_cnode: CNodeId,
    pub object: CapObject,
    pub rights: CapRights,
}

/// Whence, and for whom, a capability is copied.
#[derive(Clone, Copy, Debug, PartialEq, Eq, Structural)]
pub struct TransferCapDelegation {
    pub source_tid: u64,
    pub source_cap: CapId,
    pub dest_tid: u64,
}

/// What copying a capability came to.
#[derive(Clone, Copy, Debug, PartialEq, Eq, Structural)]
pub enum CapTransferMaterializeOutcome {
    Materialized(CapId),
    /// Replies are not copied.
    DeferredReplyCap,
}

/// How a capability that was copied compares with its source.
#[derive(Clone, Copy, Debug, PartialEq, Eq, Structural)]
pub struct OrdinaryCapAttestation {
    /// Endpoint slots of source and copy, where they are endpoints.
    pub source_endpoint: Option<usize>,
    pub copied_endpoint: Option<usize>,
    /// The copy names the very object of the source.
    pub identity_match: bool,
    /// Rights of the copy.
    pub copied_rights: Option<u8>,
    /// The copy has exactly the expected rights.
    pub rights_ok: bool,
    pub is_endpoint: bool,
    pub reply_object: bool,
    /// Generation of the copy, where it is an endpoint.
    pub generation: u64,
}

/// The endpoint slot that `object` names.
pub open spec fn endpoint_of(object: CapObject) -> Option<usize> {
    match object {
        CapObject::Endpoint { index, .. } => Some(index),
        _ => None,
    }
}

/// How `installed` compares with a source of this object and these rights.
pub open spec fn attestation(
    installed: Option<Capability>,
    source: CapObject,
    rights: CapRights,
) -> OrdinaryCapAttestation {
    match installed {
        None => OrdinaryCapAttestation {
            source_endpoint: endpoint_of(source),
            copied_endpoint: None,
            identity_match: false,
            copied_rights: None,
            rights_ok: false,
            is_endpoint: false,
            reply_object: false,
            generation: 0,
        },
        Some(capability) => OrdinaryCapAttestation {
            source_endpoint: endpoint_of(source),
            copied_endpoint: endpoint_of(capability.object),
            identity_match: capability.object == source,
            copied_rights: Some(capability.rights.0),
            rights_ok: capability.rights == rights,
            is_endpoint: capability.object is Endpoint,
            reply_object: capability.object is Reply,
            generation: match capability.object {
                CapObject::Endpoint { generation, .. } => generation,
                _ => 0,
            },
        },
    }
}

impl Ipc {
    /// What recording a receiver's capability in a reply record comes to.
    pub open spec fn waiter_cap_verdict(self, index: int, generation: u64) -> ReplyRecordSetOutcome {
        if !self.reply_at(index, generation) {
            ReplyRecordSetOutcome::StaleGeneration
        } else if self.replies[index].record is None {
            ReplyRecordSetOutcome::Vacant
        } else {
            ReplyRecordSetOutcome::Recorded
        }
    }

    /// The state with the receiver's capability of a reply record replaced, if there is one.
    pub open spec fn with_waiter_cap(self, index: int, generation: u64, cap: Option<CapId>) -> Ipc {
        match self.reply_record(index, generation) {
            Some(record) => self.with_record(
                index,
                Some(ReplyCapRecord { waiter_cap_id: cap, ..record }),
            ),
            None => self,
        }
    }
}

impl Mem {
    /// The state after a capability to `object` came or went.
    pub open spec fn object_cap_noted(self, object: CapObject, up: bool) -> Mem {
        match object.spec_memory_id() {
            Some(id) => self.cap_noted(id, up),
            None => self,
        }
    }

    /// The state after the last use of a capability to `object`: the memory behind it is
    /// freed when nothing else refers to it.
    pub open spec fn object_cap_dropped(self, object: CapObject) -> Mem {
        match self.phys_base(object) {
            Some(phys) => self.object_cap_noted(object, false).reclaimed(phys),
            None => self.object_cap_noted(object, false),
        }
    }
}

impl Kernel {
    /// The node of the process that `tid` belongs to.
    pub open spec fn cnode_of_task(self, tid: u64) -> Option<CNodeId> {
        match self.tasks.group_of(tid) {
            Some(pid) => self.caps.cnode_of(pid),
            None => None,
        }
    }

    /// The capability that `cap` names for `tid`.
    pub open spec fn task_capability(self, tid: u64, cap: CapId) -> Result<Capability, KernelError> {
        match self.cnode_of_task(tid) {
            None => Err(KernelError::TaskMissing),
            Some(cnode) => match self.caps.resolve(cnode, cap) {
                None => Err(KernelError::InvalidCapability),
                Some(capability) => Ok(capability),
            },
        }
    }

    /// The state after `capability` was put into `cnode`, if it could be; memory counts it.
    pub open spec fn ref_minted(self, cnode: CNodeId, capability: Capability) -> Kernel {
        if self.caps.mint_verdict(cnode) is Ok {
            Kernel {
                caps: self.caps.minted(cnode, capability),
                mem: self.mem.object_cap_noted(capability.object, true),
                ..self
            }
        } else {
            self
        }
    }

    /// The state after a fresh capability was taken back.
    pub open spec fn mint_undone(self, cnode: CNodeId, cap: CapId, object: CapObject) -> Kernel {
        Kernel {
            caps: self.caps.revoked(cnode, cap),
            mem: self.mem.object_cap_noted(object, false),
            ..self
        }
    }

    /// What copying a capability comes to.
    pub open spec fn materialize_result(
        self,
        snap: TransferCapSnapshot,
        delegation: Option<TransferCapDelegation>,
    ) -> Result<CapTransferMaterializeOutcome, KernelError> {
        if snap.object is Reply {
            Ok(CapTransferMaterializeOutcome::DeferredReplyCap)
        } else {
            match self.caps.mint_verdict(snap.receiver_cnode) {
                Err(e) => Err(e),
                Ok(cap) => if delegation is Some && self.caps.links.len()
                    >= self.profile.spec_config().max_delegations {
                    Err(KernelError::CapabilityFull)
                } else {
                    Ok(CapTransferMaterializeOutcome::Materialized(cap))
                },
            }
        }
    }

    /// The state after copying a capability: it is in the receiver's node, memory counts it,
    /// and the link to its source is recorded.
    pub open spec fn after_materialize(
        self,
        snap: TransferCapSnapshot,
        delegation: Option<TransferCapDelegation>,
    ) -> Kernel {
        match self.materialize_result(snap, delegation) {
            Ok(CapTransferMaterializeOutcome::Materialized(cap)) => {
                let minted = self.ref_minted(
                    snap.receiver_cnode,
                    Capability { object: snap.object, rights: snap.rights },
                );
                match delegation {
                    None => minted,
                    Some(d) => Kernel {
                        caps: Caps {
                            links: minted.caps.links.push(
                                DelegationLink {
                                    source_tid: d.source_tid,
                                    source_cap: d.source_cap,
                                    dest_tid: d.dest_tid,
                                    dest_cap: cap,
                                },
                            ),
                            ..minted.caps
                        },
                        ..minted
                    },
                }
            },
            _ => self,
        }
    }

    /// The state after the envelope `handle` was taken, if it could be.
    pub open spec fn envelope_gone(self, handle: u64, e: int, receiver: u64) -> Kernel {
        Kernel { ipc: self.ipc.envelope_taken(handle, e, ThreadId(receiver)), ..self }
    }

    /// What handing a reply to `receiver` comes to.
    pub open spec fn reply_hand_over(self, e: int, receiver: u64, handle: u64) -> Result<
        ReplyCapMaterialization,
        SyscallError,
    > {
        let taken = self.envelope_gone(handle, e, receiver);
        match self.ipc.takeable(handle, e, ThreadId(receiver)) {
            None => Err(SyscallError::InvalidCapability),
            Some(env) => match env.source_object {
                CapObject::Reply { index, generation } if env.shared_region is None => {
                    if index >= crate::ipc::MAX_REPLY_CAPS || !taken.ipc.reply_at(
                        index as int,
                        generation,
                    ) {
                        Err(SyscallError::InvalidCapability)
                    } else {
                        match self.cnode_of_task(receiver) {
                            None => Err(SyscallError::InvalidCapability),
                            Some(cnode) => match self.caps.mint_verdict(cnode) {
                                Err(err) => Err(crate::ids::syscall_error_of(err)),
                                Ok(cap) => if taken.ipc.waiter_cap_verdict(
                                    index as int,
                                    generation,
                                ) is Recorded {
                                    Ok(
                                        ReplyCapMaterialization {
                                            cap,
                                            reply_index: index,
                                            reply_generation: generation,
                                        },
                                    )
                                } else {
                                    Err(SyscallError::WrongObject)
                                },
                            },
                        }
                    }
                },
                _ => Err(SyscallError::WrongObject),
            },
        }
    }

    /// The state after handing a reply to `receiver`.  The envelope is gone either way;
    /// nothing else changes unless the receiver has the reply.
    pub open spec fn after_reply_hand_over(self, e: int, receiver: u64, handle: u64) -> Kernel {
        let taken = self.envelope_gone(handle, e, receiver);
        match self.reply_hand_over(e, receiver, handle) {
            Err(_) => taken,
            Ok(m) => Kernel {
                caps: self.caps.minted(
                    self.cnode_of_task(receiver)->0,
                    Capability {
                        object: CapObject::Reply {
                            index: m.reply_index,
                            generation: m.reply_generation,
                        },
                        rights: CapRights(RIGHT_SEND),
                    },
                ),
                ipc: taken.ipc.with_waiter_cap(
                    m.reply_index as int,
                    m.reply_generation,
                    Some(m.cap),
                ),
                ..taken
            },
        }
    }

    /// What copying a transferred capability to `receiver` comes to.
    pub open spec fn cap_hand_over(self, e: int, receiver: u64, handle: u64) -> Result<
        CapId,
        SyscallError,
    > {
        match self.ipc.takeable(handle, e, ThreadId(receiver)) {
            None => Err(SyscallError::InvalidCapability),
            Some(env) => if env.shared_region is Some {
                Err(SyscallError::WrongObject)
            } else {
                match self.task_capability(env.source_tid.0, env.source_cap) {
                    Err(err) => Err(crate::ids::syscall_error_of(err)),
                    Ok(source) => match self.cnode_of_task(receiver) {
                        None => Err(SyscallError::InvalidCapability),
                        Some(cnode) => match self.materialize_result(
                            self.hand_over_snapshot(cnode, source),
                            Some(
                                TransferCapDelegation {
                                    source_tid: env.source_tid.0,
                                    source_cap: env.source_cap,
                                    dest_tid: receiver,
                                },
                            ),
                        ) {
                            Ok(CapTransferMaterializeOutcome::Materialized(cap)) => Ok(cap),
                            Ok(CapTransferMaterializeOutcome::DeferredReplyCap) => Err(
                                SyscallError::WrongObject,
                            ),
                            Err(err) => Err(crate::ids::syscall_error_of(err)),
                        },
                    },
                }
            },
        }
    }

    /// What a receiver with node `cnode` is to get of `source`.
    pub open spec fn hand_over_snapshot(self, cnode: CNodeId, source: Capability) -> TransferCapSnapshot {
        TransferCapSnapshot { receiver_cnode: cnode, object: source.object, rights: source.rights }
    }

    /// The state after copying a transferred capability to `receiver`.
    pub open spec fn after_cap_hand_over(self, e: int, receiver: u64, handle: u64) -> Kernel {
        let taken = self.envelope_gone(handle, e, receiver);
        match self.cap_hand_over(e, receiver, handle) {
            Err(_) => taken,
            Ok(_) => {
                let env = self.ipc.takeable(handle, e, ThreadId(receiver))->0;
                taken.after_materialize(
                    self.hand_over_snapshot(
                        self.cnode_of_task(receiver)->0,
                        self.task_capability(env.source_tid.0, env.source_cap)->Ok_0,
                    ),
                    Some(
                        TransferCapDelegation {
                            source_tid: env.source_tid.0,
                            source_cap: env.source_cap,
                            dest_tid: receiver,
                        },
                    ),
                )
            },
        }
    }

    /// Does `cap` of `receiver` still name exactly this reply?
    pub open spec fn holds_reply(self, receiver: u64, cap: CapId, index: usize, generation: u64) -> bool {
        &&& self.cnode_of_task(receiver) is Some
        &&& self.caps.resolve(self.cnode_of_task(receiver)->0, cap) matches Some(capability)
        &&& capability.object == (CapObject::Reply { index, generation })
    }

    /// The state after a reply was taken back from `receiver`, if it still had it.
    pub open spec fn reply_taken_back(
        self,
        receiver: u64,
        cap: CapId,
        index: usize,
        generation: u64,
    ) -> Kernel {
        if self.holds_reply(receiver, cap, index, generation) {
            Kernel {
                caps: self.caps.revoked(self.cnode_of_task(receiver)->0, cap),
                ipc: self.ipc.with_waiter_cap(index as int, generation, None),
                ..self
            }
        } else {
            self
        }
    }

    /// The state after a copied capability was taken back from `receiver`, if it is there.
    pub open spec fn copy_taken_back(self, receiver: u64, cap: CapId) -> Kernel {
        match self.task_capability(receiver, cap) {
            Err(_) => self,
            Ok(capability) => Kernel {
                caps: self.caps.revoked(self.cnode_of_task(receiver)->0, cap).unlinked(
                    receiver,
                    cap,
                ),
                mem: self.mem.object_cap_dropped(capability.object),
                ..self
            },
        }
    }
}

proof fn lemma_free_slot(caps: Caps, cnode: CNodeId, from: int, slots: int)
    ensures
        caps.free_slot_from(cnode, from, slots) matches Some(cap) ==> caps.resolve(cnode, cap)
            is None,
    decreases slots + 1 - from,
{
    if 0 <= from <= slots && caps.resolve(cnode, CapId(from as u64)) is Some {
        lemma_free_slot(caps, cnode, from + 1, slots);
    }
}

/// A capability that was just put into a node is found in the slot that was named, and
/// taking it back leaves the node as it was.
pub proof fn law_mint_and_revoke(caps: Caps, cnode: CNodeId, capability: Capability)
    requires
        caps.mint_verdict(cnode) is Ok,
    ensures
        caps.resolve(cnode, caps.mint_verdict(cnode)->Ok_0) is None,
        caps.minted(cnode, capability).resolve(cnode, caps.mint_verdict(cnode)->Ok_0) == Some(
            capability,
        ),
        caps.minted(cnode, capability).revoked(cnode, caps.mint_verdict(cnode)->Ok_0) == caps,
{
    let cap = caps.mint_verdict(cnode)->Ok_0;
    lemma_free_slot(caps, cnode, 1, caps.slots_of(cnode)->0 as int);
    let p = crate::capability::in_slot(cnode, cap);
    seqs::lemma_first_where(caps.entries, p);
    let after = caps.minted(cnode, capability);
    let n = caps.entries.len() as int;
    assert forall|j: int| 0 <= j < n implies !p(#[trigger] after.entries[j]) by {
        assert(after.entries[j] == caps.entries[j]);
    }
    seqs::lemma_first_where_is(after.entries, p, n);
    assert(after.entries.remove(n) =~= caps.entries);
}

impl SharedKernel {
    /// The node of the process that `tid` belongs to.
    pub fn task_cnode_split(&self, tid: u64) -> (r: Option<CNodeId>)
        ensures
            r == self@.cnode_of_task(tid),
    {
        match self.state.tasks.group_of(tid) {
            None => None,
            Some(pid) => self.state.caps.cnode_of(pid),
        }
    }

    /// The capability in slot `cap` of `cnode`.
    pub fn resolved_capability_split(&self, cnode: CNodeId, cap: CapId) -> (r: Option<Capability>)
        ensures
            r == self@.caps.resolve(cnode, cap),
    {
        self.state.caps.resolve(cnode, cap)
    }

    /// Holds the capability in slot `cap` of the receiver's node against what was to be copied.
    pub fn ordinary_cap_attestation_split(
        &self,
        receiver_cnode: CNodeId,
        source_object: CapObject,
        expected_rights: CapRights,
        cap: CapId,
    ) -> (r: OrdinaryCapAttestation)
        ensures
            r == attestation(
                self@.caps.resolve(receiver_cnode, cap),
                source_object,
                expected_rights,
            ),
    {
        let source_endpoint = match source_object {
            CapObject::Endpoint { index, .. } => Some(index),
            _ => None,
        };
        let capability = match self.resolved_capability_split(receiver_cnode, cap) {
            None => {
                return OrdinaryCapAttestation {
                    source_endpoint,
                    copied_endpoint: None,
                    identity_match: false,
                    copied_rights: None,
                    rights_ok: false,
                    is_endpoint: false,
                    reply_object: false,
                    generation: 0,
                };
            },
            Some(capability) => capability,
        };
        let (copied_endpoint, generation) = match capability.object {
            CapObject::Endpoint { index, generation } => (Some(index), generation),
            _ => (None, 0),
        };
        OrdinaryCapAttestation {
            source_endpoint,
            copied_endpoint,
            identity_match: capability.object == source_object,
            copied_rights: Some(capability.rights.0),
            rights_ok: capability.rights == expected_rights,
            is_endpoint: copied_endpoint.is_some(),
            reply_object: matches!(capability.object, CapObject::Reply { .. }),
            generation,
        }
    }

    /// The capability that `cap` names for `tid`.
    pub fn resolve_capability_for_task_split(&self, tid: u64, cap: CapId) -> (r: Result<
        Capability,
        KernelError,
    >)
        ensures
            r == self@.task_capability(tid, cap),
    {
        match self.task_cnode_split(tid) {
            None => Err(KernelError::TaskMissing),
            Some(cnode) => match self.resolved_capability_split(cnode, cap) {
                None => Err(KernelError::InvalidCapability),
                Some(capability) => Ok(capability),
            },
        }
    }

    /// Is the reply slot still at this generation?
    pub fn reply_object_live_split(&self, index: usize, generation: u64) -> (r: bool)
        ensures
            r == (index < crate::ipc::MAX_REPLY_CAPS && self@.ipc.reply_at(
                index as int,
                generation,
            )),
    {
        if index >= crate::ipc::MAX_REPLY_CAPS {
            return false;
        }
        self.state.ipc.object_live(CapObject::Reply { index, generation })
    }

    /// Notes that a capability to `object` came or went.
    fn note_object_cap(&mut self, object: CapObject, up: bool)
        ensures
            final(self)@ == (Kernel {
                mem: old(self)@.mem.object_cap_noted(object, up),
                ..old(self)@
            }),
    {
        if let Some(id) = object.memory_id() {
            self.state.mem.note_cap(id, up);
        }
    }

    /// Puts a capability into a node; the memory behind it counts it.
    pub fn mint_capability_with_memory_ref_split(&mut self, cnode: CNodeId, capability: Capability) -> (r:
        Result<CapId, KernelError>)
        ensures
            r == old(self)@.caps.mint_verdict(cnode),
            final(self)@ == old(self)@.ref_minted(cnode, capability),
    {
        let minted = self.state.caps.mint(cnode, capability);
        if minted.is_ok() {
            self.note_object_cap(capability.object, true);
        }
        minted
    }

    /// Takes a fresh capability back.
    pub fn rollback_minted_cap_split(&mut self, cnode: CNodeId, cap: CapId, object: CapObject)
        ensures
            final(self)@ == old(self)@.mint_undone(cnode, cap, object),
    {
        self.state.caps.revoke(cnode, cap);
        self.note_object_cap(object, false);
    }

    /// Records a receiver's capability in a reply record of this very generation.
    pub fn try_record_reply_waiter_cap_split(&mut self, index: usize, generation: u64, cap: CapId) -> (r:
        ReplyRecordSetOutcome)
        ensures
            r == old(self)@.ipc.waiter_cap_verdict(index as int, generation),
            final(self)@ == (Kernel {
                ipc: old(self)@.ipc.with_waiter_cap(index as int, generation, Some(cap)),
                ..old(self)@
            }),
    {
        self.state.ipc.record_reply_waiter_cap(index, generation, cap)
    }

    /// Forgets the receiver's capability of a reply record of this very generation.
    pub fn clear_reply_waiter_cap_split(&mut self, index: usize, generation: u64)
        ensures
            final(self)@ == (Kernel {
                ipc: old(self)@.ipc.with_waiter_cap(index as int, generation, None),
                ..old(self)@
            }),
    {
        self.state.ipc.clear_reply_waiter_cap(index, generation);
    }

    /// Copies a capability into a receiver's node and records the link to its source; when
    /// the link cannot be recorded, nothing is copied.
    pub fn materialize_received_message_cap_routed_with_delegation_split(
        &mut self,
        snap: TransferCapSnapshot,
        delegation: Option<TransferCapDelegation>,
    ) -> (r: Result<CapTransferMaterializeOutcome, KernelError>)
        ensures
            r == old(self)@.materialize_result(snap, delegation),
            final(self)@ == old(self)@.after_materialize(snap, delegation),
    {
        if matches!(snap.object, CapObject::Reply { .. }) {
            return Ok(CapTransferMaterializeOutcome::DeferredReplyCap);
        }
        let capability = Capability { object: snap.object, rights: snap.rights };
        let cap = match self.state.caps.mint(snap.receiver_cnode, capability) {
            Err(e) => {
                return Err(e);
            },
            Ok(cap) => cap,
        };
        if let Some(d) = delegation {
            if self.state.caps.links.len() >= self.state.profile.config().max_delegations {
                proof {
                    law_mint_and_revoke(old(self)@.caps, snap.receiver_cnode, capability);
                }
                self.state.caps.revoke(snap.receiver_cnode, cap);
                return Err(KernelError::CapabilityFull);
            }
            self.state.caps.links.push(
                DelegationLink {
                    source_tid: d.source_tid,
                    source_cap: d.source_cap,
                    dest_tid: d.dest_tid,
                    dest_cap: cap,
                },
            );
        }
        self.note_object_cap(snap.object, true);
        Ok(CapTransferMaterializeOutcome::Materialized(cap))
    }

    /// Hands the reply in envelope `raw_handle` to `receiver_tid`, as a capability good for
    /// one answer.
    pub fn materialize_reply_cap_split(
        &mut self,
        endpoint_idx: usize,
        receiver_tid: u64,
        raw_handle: u64,
    ) -> (r: Result<ReplyCapMaterialization, SyscallError>)
        ensures
            r == old(self)@.reply_hand_over(endpoint_idx as int, receiver_tid, raw_handle),
            final(self)@ == old(self)@.after_reply_hand_over(
                endpoint_idx as int,
                receiver_tid,
                raw_handle,
            ),
    {
        let facts = match self.take_transfer_envelope_facts_split(
            raw_handle,
            endpoint_idx,
            ThreadId(receiver_tid),
        ) {
            None => {
                return Err(SyscallError::InvalidCapability);
            },
            Some(facts) => facts,
        };
        if facts.pinned_object.is_some() {
            return Err(SyscallError::WrongObject);
        }
        let (reply_index, reply_generation) = match facts.source_object {
            CapObject::Reply { index, generation } => (index, generation),
            _ => {
                return Err(SyscallError::WrongObject);
            },
        };
        if !self.reply_object_live_split(reply_index, reply_generation) {
            return Err(SyscallError::InvalidCapability);
        }
        let cnode = match self.task_cnode_split(receiver_tid) {
            None => {
                return Err(SyscallError::InvalidCapability);
            },
            Some(cnode) => cnode,
        };
        let reply_object = CapObject::Reply { index: reply_index, generation: reply_generation };
        let capability = Capability { object: reply_object, rights: CapRights(RIGHT_SEND) };
        let minted = match self.mint_capability_with_memory_ref_split(cnode, capability) {
            Err(e) => {
                return Err(SyscallError::from_kernel(e));
            },
            Ok(cap) => cap,
        };
        match self.try_record_reply_waiter_cap_split(reply_index, reply_generation, minted) {
            ReplyRecordSetOutcome::Recorded => Ok(
                ReplyCapMaterialization { cap: minted, reply_index, reply_generation },
            ),
            _ => {
                proof {
                    law_mint_and_revoke(old(self)@.caps, cnode, capability);
                }
                self.rollback_minted_cap_split(cnode, minted, reply_object);
                Err(SyscallError::WrongObject)
            },
        }
    }

    /// Copies the capability in envelope `raw_handle` to `receiver_tid`.
    pub fn materialize_ordinary_cap_split(
        &mut self,
        endpoint_idx: usize,
        receiver_tid: u64,
        raw_handle: u64,
    ) -> (r: Result<CapId, SyscallError>)
        ensures
            r == old(self)@.cap_hand_over(endpoint_idx as int, receiver_tid, raw_handle),
            final(self)@ == old(self)@.after_cap_hand_over(
                endpoint_idx as int,
                receiver_tid,
                raw_handle,
            ),
    {
        let facts = match self.take_transfer_envelope_facts_split(
            raw_handle,
            endpoint_idx,
            ThreadId(receiver_tid),
        ) {
            None => {
                return Err(SyscallError::InvalidCapability);
            },
            Some(facts) => facts,
        };
        if facts.pinned_object.is_some() {
            return Err(SyscallError::WrongObject);
        }
        let source = match self.resolve_capability_for_task_split(
            facts.source_tid,
            facts.source_cap,
        ) {
            Err(e) => {
                return Err(SyscallError::from_kernel(e));
            },
            Ok(source) => source,
        };
        let receiver_cnode = match self.task_cnode_split(receiver_tid) {
            None => {
                return Err(SyscallError::InvalidCapability);
            },
            Some(cnode) => cnode,
        };
        let snap = TransferCapSnapshot {
            receiver_cnode,
            object: source.object,
            rights: source.rights,
        };
        let delegation = TransferCapDelegation {
            source_tid: facts.source_tid,
            source_cap: facts.source_cap,
            dest_tid: receiver_tid,
        };
        match self.materialize_received_message_cap_routed_with_delegation_split(
            snap,
            Some(delegation),
        ) {
            Ok(CapTransferMaterializeOutcome::Materialized(cap)) => Ok(cap),
            Ok(CapTransferMaterializeOutcome::DeferredReplyCap) => Err(SyscallError::WrongObject),
            Err(e) => Err(SyscallError::from_kernel(e)),
        }
    }

    /// Takes a reply back from `receiver_tid`, when its slot still names exactly this reply.
    pub fn rollback_reply_cap_split(
        &mut self,
        receiver_tid: u64,
        minted: CapId,
        reply_index: usize,
        reply_generation: u64,
    ) -> (r: bool)
        ensures
            r == old(self)@.holds_reply(receiver_tid, minted, reply_index, reply_generation),
            final(self)@ == old(self)@.reply_taken_back(
                receiver_tid,
                minted,
                reply_index,
                reply_generation,
            ),
    {
        let cnode = match self.task_cnode_split(receiver_tid) {
            None => {
                return false;
            },
            Some(cnode) => cnode,
        };
        let expected = CapObject::Reply { index: reply_index, generation: reply_generation };
        match self.resolved_capability_split(cnode, minted) {
            Some(capability) => {
                if capability.object != expected {
                    return false;
                }
            },
            None => {
                return false;
            },
        }
        self.rollback_minted_cap_split(cnode, minted, expected);
        self.clear_reply_waiter_cap_split(reply_index, reply_generation);
        true
    }

    /// Takes a copied capability back from `receiver_tid`: its slot and its link are gone, and
    /// the memory behind it is freed when nothing else refers to it.
    pub fn rollback_materialized_recv_cap_no_vm_split(&mut self, receiver_tid: u64, cap: CapId) -> (r:
        bool)
        ensures
            r == (old(self)@.task_capability(receiver_tid, cap) is Ok),
            final(self)@ == old(self)@.copy_taken_back(receiver_tid, cap),
    {
        let cnode = match self.task_cnode_split(receiver_tid) {
            None => {
                return false;
            },
            Some(cnode) => cnode,
        };
        let capability = match self.resolved_capability_split(cnode, cap) {
            None => {
                return false;
            },
            Some(capability) => capability,
        };
        self.state.caps.revoke(cnode, cap);
        self.state.caps.unlink(receiver_tid, cap);
        let phys = self.state.mem.phys_base(capability.object);
        self.note_object_cap(capability.object, false);
        if let Some(phys) = phys {
            self.state.mem.reclaim(phys);
        }
        true
    }
}

} // verus!
