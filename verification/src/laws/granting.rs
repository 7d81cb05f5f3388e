//! What a task is granted: which slot a capability goes to, and what comes with it.
use vstd::prelude::*;

use crate::capability::{
    CapEntry, CapObject, CapRights, Capability, Caps, DelegationLink,
};
use crate::ids::{CNodeId, CapId, KernelError, SyscallError, ThreadId};
use crate::ipc::{EnvelopeSlot, Ipc, IpcTelemetry, ReplyCapRecord, ReplySlot, TransferState};
use crate::kernel::Kernel;
use crate::memory::{Mem, MemoryObject};
use crate::runtime::transfer::{
    CapTransferMaterializeOutcome, TransferCapDelegation, TransferCapSnapshot,
};
use crate::seqs;

verus! {

/// Does some entry fill slot `cap` of `cnode`?
pub open spec fn filled(caps: Caps, cnode: CNodeId, cap: u64) -> bool {
    exists|i: int|
        0 <= i < caps.entries.len() && (#[trigger] caps.entries[i]).cnode == cnode
            && caps.entries[i].cap.0 == cap
}

/// Is `n` the first slot of `cnode` that nothing fills?  Slots count from one.
pub open spec fn first_unfilled(caps: Caps, cnode: CNodeId, n: int) -> bool {
    &&& 1 <= n <= u64::MAX
    &&& !filled(caps, cnode, n as u64)
    &&& forall|m: u64| 1 <= m < n ==> #[trigger] filled(caps, cnode, m)
}

proof fn lemma_filled(caps: Caps, cnode: CNodeId, cap: u64)
    ensures
        filled(caps, cnode, cap) <==> caps.resolve(cnode, CapId(cap)) is Some,
{
    let p = crate::capability::in_slot(cnode, CapId(cap));
    seqs::lemma_first_where(caps.entries, p);
    if filled(caps, cnode, cap) {
        let i = choose|i: int|
            0 <= i < caps.entries.len() && (#[trigger] caps.entries[i]).cnode == cnode
                && caps.entries[i].cap.0 == cap;
        assert(p(caps.entries[i]));
    }
    let f = seqs::first_where(caps.entries, p);
    if f < caps.entries.len() {
        assert(caps.entries[f].cnode == cnode && caps.entries[f].cap.0 == cap);
    }
}

proof fn lemma_free_from(caps: Caps, cnode: CNodeId, from: int, slots: int, n: int)
    requires
        1 <= from <= n,
        slots <= u64::MAX,
        first_unfilled(caps, cnode, n),
    ensures
        caps.free_slot_from(cnode, from, slots) == if n <= slots {
            Some(CapId(n as u64))
        } else {
            None
        },
    decreases n - from,
{
    if from <= slots {
        lemma_filled(caps, cnode, from as u64);
        if from < n {
            assert(filled(caps, cnode, from as u64));
            lemma_free_from(caps, cnode, from + 1, slots, n);
        }
    }
}

/// A capability goes into the first unfilled slot of its node, exactly where that slot is one of
/// the node's; it is then the last entry, and nothing else changes.
pub proof fn law_capability_goes_into_the_first_slot(
    caps: Caps,
    cnode: CNodeId,
    capability: Capability,
    n: int,
)
    requires
        first_unfilled(caps, cnode, n),
    ensures
        match caps.slots_of(cnode) {
            None => caps.mint_verdict(cnode) == Err::<CapId, KernelError>(
                KernelError::InvalidCapability,
            ),
            Some(slots) => caps.mint_verdict(cnode) == if n <= slots {
                Ok::<CapId, KernelError>(CapId(n as u64))
            } else {
                Err(KernelError::CapabilityFull)
            },
        },
        caps.minted(cnode, capability) == if caps.slots_of(cnode) is Some && n <= caps.slots_of(
            cnode,
        )->0 {
            Caps {
                entries: caps.entries.push(
                    CapEntry { cnode, cap: CapId(n as u64), capability },
                ),
                ..caps
            }
        } else {
            caps
        },
{
    if let Some(slots) = caps.slots_of(cnode) {
        lemma_free_from(caps, cnode, 1, slots as int, n);
    }
}

/// Emptying a slot takes exactly its first entry; an empty slot stays as it is.  A link comes off
/// the same way.
pub proof fn law_slot_is_emptied(caps: Caps, cnode: CNodeId, cap: CapId, tid: u64, i: int)
    ensures
        0 <= i < caps.entries.len() && caps.entries[i].cnode == cnode && caps.entries[i].cap == cap
            && (forall|j: int|
            0 <= j < i ==> (#[trigger] caps.entries[j]).cnode != cnode || caps.entries[j].cap
                != cap) ==> caps.revoked(cnode, cap) == (Caps {
            entries: caps.entries.remove(i),
            ..caps
        }),
        !filled(caps, cnode, cap.0) ==> caps.revoked(cnode, cap) == caps,
        0 <= i < caps.links.len() && caps.links[i].dest_tid == tid && caps.links[i].dest_cap == cap
            && (forall|j: int|
            0 <= j < i ==> (#[trigger] caps.links[j]).dest_tid != tid || caps.links[j].dest_cap
                != cap) ==> caps.unlinked(tid, cap) == (Caps {
            links: caps.links.remove(i),
            ..caps
        }),
        (forall|j: int|
            0 <= j < caps.links.len() ==> (#[trigger] caps.links[j]).dest_tid != tid
                || caps.links[j].dest_cap != cap) ==> caps.unlinked(tid, cap) == caps,
{
    let p = crate::capability::in_slot(cnode, cap);
    let q = crate::capability::leads_to(tid, cap);
    if 0 <= i < caps.entries.len() && caps.entries[i].cnode == cnode && caps.entries[i].cap == cap
        && (forall|j: int|
        0 <= j < i ==> (#[trigger] caps.entries[j]).cnode != cnode || caps.entries[j].cap != cap) {
        seqs::lemma_first_where_is(caps.entries, p, i);
    }
    lemma_filled(caps, cnode, cap.0);
    if 0 <= i < caps.links.len() && caps.links[i].dest_tid == tid && caps.links[i].dest_cap == cap
        && (forall|j: int|
        0 <= j < i ==> (#[trigger] caps.links[j]).dest_tid != tid || caps.links[j].dest_cap
            != cap) {
        seqs::lemma_first_where_is(caps.links, q, i);
    }
    if forall|j: int|
        0 <= j < caps.links.len() ==> (#[trigger] caps.links[j]).dest_tid != tid
            || caps.links[j].dest_cap != cap {
        seqs::lemma_first_where_is(caps.links, q, caps.links.len() as int);
    }
}

/// The memory with one capability more, or less, to the object with number `id`.
pub open spec fn cap_counted(mem: Mem, object: CapObject, up: bool) -> Mem {
    match object {
        CapObject::MemoryObject { id } | CapObject::DmaRegion { id } => mem.cap_noted(id, up),
        _ => mem,
    }
}

/// Copying a capability: a reply is put off, and anything else goes into the receiver's first
/// unfilled slot with its object and its rights, is counted by the memory behind it and leaves a
/// link from its source.  Where the slot or the link does not fit, nothing changes.
pub proof fn law_capability_is_copied(
    k: Kernel,
    snap: TransferCapSnapshot,
    d: TransferCapDelegation,
    n: int,
)
    requires
        first_unfilled(k.caps, snap.receiver_cnode, n),
    ensures
        ({
            let slots = k.caps.slots_of(snap.receiver_cnode);
            let fits = slots is Some && n <= slots->0 && k.caps.links.len()
                < k.profile.spec_config().max_delegations;
            let result = k.materialize_result(snap, Some(d));
            let after = k.after_materialize(snap, Some(d));
            &&& snap.object is Reply ==> result == Ok::<CapTransferMaterializeOutcome, KernelError>(
                CapTransferMaterializeOutcome::DeferredReplyCap,
            )
            &&& !(snap.object is Reply) ==> (result is Ok <==> fits)
            &&& snap.object is Reply || !fits ==> after == k
            &&& !(snap.object is Reply) && fits ==> result == Ok::<
                CapTransferMaterializeOutcome,
                KernelError,
            >(CapTransferMaterializeOutcome::Materialized(CapId(n as u64)))
            &&& !(snap.object is Reply) && fits ==> after == (Kernel {
                caps: Caps {
                    entries: k.caps.entries.push(
                        CapEntry {
                            cnode: snap.receiver_cnode,
                            cap: CapId(n as u64),
                            capability: Capability { object: snap.object, rights: snap.rights },
                        },
                    ),
                    links: k.caps.links.push(
                        DelegationLink {
                            source_tid: d.source_tid,
                            source_cap: d.source_cap,
                            dest_tid: d.dest_tid,
                            dest_cap: CapId(n as u64),
                        },
                    ),
                    ..k.caps
                },
                mem: cap_counted(k.mem, snap.object, true),
                ..k
            })
        }),
{
    law_capability_goes_into_the_first_slot(
        k.caps,
        snap.receiver_cnode,
        Capability { object: snap.object, rights: snap.rights },
        n,
    );
}

/// A capability that is put into a node is counted by the memory behind it, and taking it back
/// empties its slot and uncounts it.
pub proof fn law_mint_is_counted(
    k: Kernel,
    cnode: CNodeId,
    capability: Capability,
    cap: CapId,
)
    ensures
        k.caps.mint_verdict(cnode) is Ok ==> k.ref_minted(cnode, capability) == (Kernel {
            caps: k.caps.minted(cnode, capability),
            mem: cap_counted(k.mem, capability.object, true),
            ..k
        }),
        k.caps.mint_verdict(cnode) is Err ==> k.ref_minted(cnode, capability) == k,
        k.mint_undone(cnode, cap, capability.object) == (Kernel {
            caps: k.caps.revoked(cnode, cap),
            mem: cap_counted(k.mem, capability.object, false),
            ..k
        }),
{
}

/// Does `handle` name the envelope in slot `i`: its low sixteen bits the slot, and the rest the
/// slot's generation, which is not zero?
pub open spec fn names_envelope(ipc: Ipc, handle: u64, i: int) -> bool {
    &&& 0 <= i < ipc.envelopes.len()
    &&& i < 65536
    &&& ipc.envelopes[i].generation > 0
    &&& handle as int == ipc.envelopes[i].generation * 65536 + i
}

proof fn lemma_handle(handle: u64)
    ensures
        handle & 0xFFFF == handle % 65536,
        handle >> 16 == handle / 65536,
{
    assert(handle & 0xFFFF == handle % 65536) by (bit_vector);
    assert(handle >> 16 == handle / 65536) by (bit_vector);
}

/// An envelope is taken exactly by its handle, at its endpoint, by the receiver it is for where it
/// is for one, and while it is stashed; it is then gone, and counted.
pub proof fn law_envelope_is_taken_by_its_receiver(
    ipc: Ipc,
    handle: u64,
    e: int,
    receiver: ThreadId,
    i: int,
)
    requires
        names_envelope(ipc, handle, i),
        ipc.envelopes[i].envelope is Some,
    ensures
        ({
            let env = ipc.envelopes[i].envelope->0;
            let may = env.state == TransferState::Stashed && (env.receiver_tid is None
                || env.receiver_tid == Some(receiver)) && (match env.endpoint {
                CapObject::Endpoint { index, .. } => index == e,
                _ => false,
            });
            &&& ipc.envelope_at(handle) == Some(env)
            &&& ipc.takeable(handle, e, receiver) == if may {
                Some(env)
            } else {
                None
            }
            &&& !may ==> ipc.envelope_taken(handle, e, receiver) == ipc
            &&& may ==> ipc.envelope_taken(handle, e, receiver) == (Ipc {
                envelopes: ipc.envelopes.update(
                    i,
                    EnvelopeSlot { envelope: None, ..ipc.envelopes[i] },
                ),
                telemetry: IpcTelemetry {
                    transfer_records_materialized: crate::laws::counting::one_off(
                        ipc.telemetry.transfer_records_materialized,
                        true,
                    ) as u64,
                    ..ipc.telemetry
                },
                ..ipc
            })
        }),
{
    lemma_handle(handle);
    let g = ipc.envelopes[i].generation as int;
    assert((g * 65536 + i) % 65536 == i) by (nonlinear_arith)
        requires
            0 <= i < 65536,
    ;
    assert((g * 65536 + i) / 65536 == g) by (nonlinear_arith)
        requires
            0 <= i < 65536,
    ;
}

/// A handle that names no slot, or whose generation is not the slot's, takes nothing.
pub proof fn law_strange_handle_takes_nothing(
    ipc: Ipc,
    handle: u64,
    e: int,
    receiver: ThreadId,
)
    requires
        forall|i: int| !names_envelope(ipc, handle, i),
    ensures
        ipc.envelope_at(handle) is None,
        ipc.takeable(handle, e, receiver) is None,
        ipc.envelope_taken(handle, e, receiver) == ipc,
{
    lemma_handle(handle);
    let i = (handle % 65536) as int;
    assert(handle == (handle / 65536) * 65536 + i);
    if i < ipc.envelopes.len() && handle / 65536 != 0 && ipc.envelopes[i].generation == handle
        / 65536 {
        assert(names_envelope(ipc, handle, i));
    }
}

/// Handing a reply over: the envelope must hold a reply and no region, its record must be there at
/// this generation, and the receiver's node must have an unfilled slot.  The receiver then holds
/// the reply in that slot, with the right to send alone, and the record knows the slot.
pub proof fn law_reply_is_handed_over(
    k: Kernel,
    e: int,
    receiver: u64,
    handle: u64,
    cnode: CNodeId,
    n: int,
)
    requires
        k.cnode_of_task(receiver) == Some(cnode),
        first_unfilled(k.caps, cnode, n),
        k.ipc.takeable(handle, e, ThreadId(receiver)) matches Some(env) && env.shared_region
            is None && env.source_object is Reply,
    ensures
        ({
            let env = k.ipc.takeable(handle, e, ThreadId(receiver))->0;
            let index = env.source_object->Reply_index;
            let generation = env.source_object->Reply_generation;
            let i = index as int;
            let fits = index < 64 && i < k.ipc.replies.len() && k.ipc.replies[i].generation
                == generation && k.ipc.replies[i].record is Some && k.caps.slots_of(cnode) is Some
                && n <= k.caps.slots_of(cnode)->0;
            let result = k.reply_hand_over(e, receiver, handle);
            let after = k.after_reply_hand_over(e, receiver, handle);
            let taken = k.ipc.envelope_taken(handle, e, ThreadId(receiver));
            &&& result is Ok <==> fits
            &&& !fits ==> after == (Kernel { ipc: taken, ..k })
            &&& fits ==> result->Ok_0.cap == CapId(n as u64) && result->Ok_0.reply_index == index
                && result->Ok_0.reply_generation == generation
            &&& fits ==> after == (Kernel {
                caps: Caps {
                    entries: k.caps.entries.push(
                        CapEntry {
                            cnode,
                            cap: CapId(n as u64),
                            capability: Capability {
                                object: CapObject::Reply { index, generation },
                                rights: CapRights(1),
                            },
                        },
                    ),
                    ..k.caps
                },
                ipc: Ipc {
                    replies: k.ipc.replies.update(
                        i,
                        ReplySlot {
                            record: Some(
                                ReplyCapRecord {
                                    waiter_cap_id: Some(CapId(n as u64)),
                                    ..k.ipc.replies[i].record->0
                                },
                            ),
                            ..k.ipc.replies[i]
                        },
                    ),
                    ..taken
                },
                ..k
            })
        }),
{
    let env = k.ipc.takeable(handle, e, ThreadId(receiver))->0;
    law_capability_goes_into_the_first_slot(
        k.caps,
        cnode,
        Capability { object: env.source_object, rights: CapRights(1) },
        n,
    );
}

/// Copying a transferred capability: the envelope must hold no region, and the source must still
/// hold what it offered, and no reply.  The receiver then has a copy of the source's capability.
pub proof fn law_capability_is_handed_over(
    k: Kernel,
    e: int,
    receiver: u64,
    handle: u64,
    cnode: CNodeId,
    from: CNodeId,
    source: Capability,
    n: int,
)
    requires
        k.cnode_of_task(receiver) == Some(cnode),
        first_unfilled(k.caps, cnode, n),
        k.ipc.takeable(handle, e, ThreadId(receiver)) matches Some(env) && env.shared_region
            is None && k.cnode_of_task(env.source_tid.0) == Some(from) && k.caps.resolve(
            from,
            env.source_cap,
        ) == Some(source),
    ensures
        ({
            let env = k.ipc.takeable(handle, e, ThreadId(receiver))->0;
            let fits = !(source.object is Reply) && k.caps.slots_of(cnode) is Some && n
                <= k.caps.slots_of(cnode)->0 && k.caps.links.len()
                < k.profile.spec_config().max_delegations;
            let result = k.cap_hand_over(e, receiver, handle);
            let after = k.after_cap_hand_over(e, receiver, handle);
            let taken = k.ipc.envelope_taken(handle, e, ThreadId(receiver));
            &&& result is Ok <==> fits
            &&& !fits ==> after == (Kernel { ipc: taken, ..k })
            &&& fits ==> result == Ok::<CapId, SyscallError>(CapId(n as u64))
            &&& fits ==> after == (Kernel {
                caps: Caps {
                    entries: k.caps.entries.push(
                        CapEntry { cnode, cap: CapId(n as u64), capability: source },
                    ),
                    links: k.caps.links.push(
                        DelegationLink {
                            source_tid: env.source_tid.0,
                            source_cap: env.source_cap,
                            dest_tid: receiver,
                            dest_cap: CapId(n as u64),
                        },
                    ),
                    ..k.caps
                },
                mem: cap_counted(k.mem, source.object, true),
                ipc: taken,
                ..k
            })
        }),
{
    let env = k.ipc.takeable(handle, e, ThreadId(receiver))->0;
    let snap = TransferCapSnapshot {
        receiver_cnode: cnode,
        object: source.object,
        rights: source.rights,
    };
    let d = TransferCapDelegation {
        source_tid: env.source_tid.0,
        source_cap: env.source_cap,
        dest_tid: receiver,
    };
    law_capability_is_copied(k, snap, d, n);
    law_capability_is_copied(
        Kernel { ipc: k.ipc.envelope_taken(handle, e, ThreadId(receiver)), ..k },
        snap,
        d,
        n,
    );
    assert(source == (Capability { object: source.object, rights: source.rights }));
}

/// A reply is taken back exactly from a receiver whose slot still names it: the slot is emptied
/// and the record forgets it.
pub proof fn law_reply_is_taken_back(
    k: Kernel,
    receiver: u64,
    cap: CapId,
    index: usize,
    generation: u64,
    cnode: CNodeId,
)
    requires
        k.cnode_of_task(receiver) == Some(cnode),
    ensures
        ({
            let held = k.caps.resolve(cnode, cap);
            let names = held is Some && held->0.object == (CapObject::Reply { index, generation });
            let i = index as int;
            let there = i < k.ipc.replies.len() && k.ipc.replies[i].generation == generation
                && k.ipc.replies[i].record is Some;
            let after = k.reply_taken_back(receiver, cap, index, generation);
            &&& k.holds_reply(receiver, cap, index, generation) == names
            &&& !names ==> after == k
            &&& names ==> after == (Kernel {
                caps: k.caps.revoked(cnode, cap),
                ipc: if there {
                    Ipc {
                        replies: k.ipc.replies.update(
                            i,
                            ReplySlot {
                                record: Some(
                                    ReplyCapRecord {
                                        waiter_cap_id: None,
                                        ..k.ipc.replies[i].record->0
                                    },
                                ),
                                ..k.ipc.replies[i]
                            },
                        ),
                        ..k.ipc
                    }
                } else {
                    k.ipc
                },
                ..k
            })
        }),
{
}

/// A copy is taken back exactly where it is: its slot is emptied, its link comes off, and the
/// memory behind it is let go.
pub proof fn law_copy_is_taken_back(k: Kernel, receiver: u64, cap: CapId, cnode: CNodeId)
    requires
        k.cnode_of_task(receiver) == Some(cnode),
    ensures
        match k.caps.resolve(cnode, cap) {
            None => k.copy_taken_back(receiver, cap) == k,
            Some(capability) => k.copy_taken_back(receiver, cap) == (Kernel {
                caps: Caps {
                    entries: k.caps.revoked(cnode, cap).entries,
                    links: k.caps.unlinked(receiver, cap).links,
                    ..k.caps
                },
                mem: k.mem.object_cap_dropped(capability.object),
                ..k
            }),
        },
{
}

/// A capability is found for a task through the node of the process that the task belongs to.
pub proof fn law_task_uses_its_process_s_node(k: Kernel, i: int, p: int, cap: CapId)
    requires
        k.tasks.apart(),
        0 <= i < k.tasks.tcbs.len(),
        k.tasks.tcbs[i] is Some,
        0 <= p < k.caps.process_cnodes.len(),
        k.caps.process_cnodes[p].pid == k.tasks.tcbs[i]->0.thread_group_id.0,
        forall|q: int|
            0 <= q < p ==> (#[trigger] k.caps.process_cnodes[q]).pid
                != k.caps.process_cnodes[p].pid,
    ensures
        ({
            let tid = k.tasks.tcbs[i]->0.tid.0;
            let cnode = k.caps.process_cnodes[p].cnode;
            &&& k.cnode_of_task(tid) == Some(cnode)
            &&& k.task_capability(tid, cap) == match k.caps.resolve(cnode, cap) {
                Some(capability) => Ok::<Capability, KernelError>(capability),
                None => Err(KernelError::InvalidCapability),
            }
        }),
{
    crate::laws::slots::law_task_is_found_where_it_stands(k.tasks, i);
    crate::laws::admitting::law_first_record_counts(k.caps, p);
}

/// Settling the envelope of a send that is not delivered takes it out, and unpins the memory
/// behind a region.
pub proof fn law_settled_envelope_unpins(k: Kernel, handle: u64, e: int, receiver: ThreadId)
    ensures
        ({
            let taken = Kernel { ipc: k.ipc.envelope_taken(handle, e, receiver), ..k };
            let after = k.envelope_settled(handle, e, receiver);
            match k.ipc.takeable(handle, e, receiver) {
                None => after == k,
                Some(env) => after == match (env.shared_region, env.source_object) {
                    (Some(_), CapObject::MemoryObject { id }) => Kernel {
                        mem: k.mem.pin_noted(id, false),
                        ..taken
                    },
                    (Some(_), CapObject::DmaRegion { id }) => Kernel {
                        mem: k.mem.pin_noted(id, false),
                        ..taken
                    },
                    _ => taken,
                },
            }
        }),
{
}

/// What is attested of a slot is what it holds: whether it is the very object, whether it has
/// exactly the rights, and what kind of object it is.
pub proof fn law_attestation_tells_what_is_held(
    installed: Option<Capability>,
    source: CapObject,
    rights: CapRights,
)
    ensures
        ({
            let seen = crate::runtime::transfer::attestation(installed, source, rights);
            &&& seen.identity_match <==> installed is Some && installed->0.object == source
            &&& seen.rights_ok <==> installed is Some && installed->0.rights == rights
            &&& seen.is_endpoint <==> installed is Some && installed->0.object is Endpoint
            &&& seen.reply_object <==> installed is Some && installed->0.object is Reply
            &&& seen.copied_rights is Some <==> installed is Some
            &&& installed is Some ==> seen.copied_rights == Some(installed->0.rights.0)
            &&& seen.source_endpoint is Some <==> source is Endpoint
            &&& source is Endpoint ==> seen.source_endpoint == Some(source->Endpoint_index)
            &&& seen.copied_endpoint is Some <==> seen.is_endpoint
            &&& seen.is_endpoint ==> seen.copied_endpoint == Some(
                installed->0.object->Endpoint_index,
            ) && seen.generation == installed->0.object->Endpoint_generation
            &&& !seen.is_endpoint ==> seen.generation == 0
        }),
{
}

} // verus!
