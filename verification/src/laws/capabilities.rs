//! Laws of capabilities: slots hold one capability each, a copy is what it was copied from, and
//! what was handed over can be taken back.
use vstd::prelude::*;

use crate::capability::{
    CapObject, CapRights, Capability, Caps, ControlPlaneCnodePlan, RuntimeCapacityConfig,
    RIGHT_SEND,
};
use crate::ids::{CNodeId, CapId, KernelError, ThreadId};
use crate::kernel::Kernel;
use crate::runtime::transfer::{
    CapTransferMaterializeOutcome, TransferCapDelegation, TransferCapSnapshot,
};
use crate::seqs;
use crate::task::TaskClass;

verus! {

impl Caps {
    /// No slot of a node holds two capabilities.
    pub open spec fn apart(self) -> bool {
        forall|i: int, j: int|
            0 <= i < j < self.entries.len() ==> (#[trigger] self.entries[i]).cnode != (
            #[trigger] self.entries[j]).cnode || self.entries[i].cap != self.entries[j].cap
    }
}

/// Filling a free slot keeps slots apart and leaves every other slot alone.
pub proof fn law_mint_spares_other_slots(
    caps: Caps,
    cnode: CNodeId,
    capability: Capability,
    other: CNodeId,
    slot: CapId,
)
    requires
        caps.apart(),
        caps.mint_verdict(cnode) is Ok,
        other != cnode || slot != caps.mint_verdict(cnode)->Ok_0,
    ensures
        caps.minted(cnode, capability).apart(),
        caps.minted(cnode, capability).resolve(other, slot) == caps.resolve(other, slot),
{
    let cap = caps.mint_verdict(cnode)->Ok_0;
    let after = caps.minted(cnode, capability);
    let n = caps.entries.len() as int;
    crate::runtime::transfer::law_mint_and_revoke(caps, cnode, capability);
    seqs::lemma_first_where(caps.entries, crate::capability::in_slot(cnode, cap));
    assert forall|i: int, j: int| 0 <= i < j < after.entries.len() implies (
    #[trigger] after.entries[i]).cnode != (#[trigger] after.entries[j]).cnode
        || after.entries[i].cap != after.entries[j].cap by {
        assert(after.entries[i] == caps.entries[i]);
        if j == n {
            assert(!crate::capability::in_slot(cnode, cap)(caps.entries[i]));
        } else {
            assert(after.entries[j] == caps.entries[j]);
        }
    }
    let p = crate::capability::in_slot(other, slot);
    seqs::lemma_first_where(caps.entries, p);
    let k = seqs::first_where(caps.entries, p);
    assert forall|j: int| 0 <= j < k implies !p(#[trigger] after.entries[j]) by {
        assert(after.entries[j] == caps.entries[j]);
    }
    if k < n {
        assert(after.entries[k] == caps.entries[k]);
        seqs::lemma_first_where_is(after.entries, p, k);
    } else {
        assert(!p(after.entries[n]));
        seqs::lemma_first_where_is(after.entries, p, n + 1);
    }
}

/// A slot that was emptied is empty; the others are as they were, and slots stay apart.
pub proof fn law_revoked_slot_is_empty(
    caps: Caps,
    cnode: CNodeId,
    cap: CapId,
    other: CNodeId,
    slot: CapId,
)
    requires
        caps.apart(),
        other != cnode || slot != cap,
    ensures
        caps.revoked(cnode, cap).apart(),
        caps.revoked(cnode, cap).resolve(cnode, cap) is None,
        caps.revoked(cnode, cap).resolve(other, slot) == caps.resolve(other, slot),
        caps.revoked(cnode, cap).revoked(cnode, cap) == caps.revoked(cnode, cap),
{
    let p = crate::capability::in_slot(cnode, cap);
    let q = crate::capability::in_slot(other, slot);
    let i = seqs::first_where(caps.entries, p);
    let after = caps.revoked(cnode, cap);
    seqs::lemma_first_where(caps.entries, p);
    if i < caps.entries.len() {
        assert forall|j: int| 0 <= j < after.entries.len() implies !p(#[trigger] after.entries[j]) by {
            if j < i {
                assert(after.entries[j] == caps.entries[j]);
            } else {
                assert(after.entries[j] == caps.entries[j + 1]);
                assert(caps.entries[i].cnode == cnode && caps.entries[i].cap == cap);
            }
        }
        seqs::lemma_first_where_is(after.entries, p, after.entries.len() as int);
        assert forall|a: int, b: int| 0 <= a < b < after.entries.len() implies (
        #[trigger] after.entries[a]).cnode != (#[trigger] after.entries[b]).cnode
            || after.entries[a].cap != after.entries[b].cap by {
            let a0 = if a < i {
                a
            } else {
                a + 1
            };
            let b0 = if b < i {
                b
            } else {
                b + 1
            };
            assert(after.entries[a] == caps.entries[a0] && after.entries[b] == caps.entries[b0]);
        }
        seqs::lemma_first_where(caps.entries, q);
        let k = seqs::first_where(caps.entries, q);
        assert(k != i);
        let k1 = if k < i {
            k
        } else {
            k - 1
        };
        assert forall|j: int| 0 <= j < k1 implies !q(#[trigger] after.entries[j]) by {
            if j < i {
                assert(after.entries[j] == caps.entries[j]);
            } else {
                assert(after.entries[j] == caps.entries[j + 1]);
            }
        }
        if k < caps.entries.len() {
            if k < i {
                assert(after.entries[k1] == caps.entries[k]);
            } else {
                assert(after.entries[k1] == caps.entries[k1 + 1]);
            }
        }
        seqs::lemma_first_where_is(after.entries, q, k1);
    }
}

/// A copy that was made is attested: it names the very object that was to be copied, with exactly
/// the expected rights, and it is no reply.
pub proof fn law_copy_is_attested(
    k: Kernel,
    snap: TransferCapSnapshot,
    delegation: Option<TransferCapDelegation>,
)
    requires
        k.materialize_result(snap, delegation) matches Ok(
            CapTransferMaterializeOutcome::Materialized(_),
        ),
    ensures
        ({
            let cap = k.materialize_result(snap, delegation)->Ok_0->Materialized_0;
            let seen = crate::runtime::transfer::attestation(
                k.after_materialize(snap, delegation).caps.resolve(snap.receiver_cnode, cap),
                snap.object,
                snap.rights,
            );
            &&& seen.identity_match
            &&& seen.rights_ok
            &&& !seen.reply_object
            &&& seen.copied_endpoint == seen.source_endpoint
        }),
{
    let capability = Capability { object: snap.object, rights: snap.rights };
    let cap = k.materialize_result(snap, delegation)->Ok_0->Materialized_0;
    let minted = k.caps.minted(snap.receiver_cnode, capability);
    crate::runtime::transfer::law_mint_and_revoke(k.caps, snap.receiver_cnode, capability);
    assert(k.after_materialize(snap, delegation).caps.entries == minted.entries);
    assert(k.after_materialize(snap, delegation).caps.resolve(snap.receiver_cnode, cap)
        == minted.resolve(snap.receiver_cnode, cap));
}

/// A capability that was handed over is the sender's: same object, same rights, in a slot of
/// its own; the sender keeps what it had.  The envelope is gone.
pub proof fn law_copy_is_the_source(k: Kernel, e: int, receiver: u64, handle: u64)
    requires
        k.caps.apart(),
        k.cap_hand_over(e, receiver, handle) is Ok,
    ensures
        ({
            let env = k.ipc.takeable(handle, e, ThreadId(receiver))->0;
            let source = k.task_capability(env.source_tid.0, env.source_cap);
            let after = k.after_cap_hand_over(e, receiver, handle);
            let cap = k.cap_hand_over(e, receiver, handle)->Ok_0;
            &&& source is Ok
            &&& !(source->Ok_0.object is Reply)
            &&& k.task_capability(receiver, cap) is Err
            &&& after.task_capability(receiver, cap) == source
            &&& after.task_capability(env.source_tid.0, env.source_cap) == source
            &&& after.caps.apart()
            &&& after.ipc.envelope_at(handle) is None
        }),
{
    let env = k.ipc.takeable(handle, e, ThreadId(receiver))->0;
    let source = k.task_capability(env.source_tid.0, env.source_cap)->Ok_0;
    let from = k.cnode_of_task(env.source_tid.0)->0;
    let to = k.cnode_of_task(receiver)->0;
    let cap = k.cap_hand_over(e, receiver, handle)->Ok_0;
    let taken = k.envelope_gone(handle, e, receiver);
    let after = k.after_cap_hand_over(e, receiver, handle);
    let minted = k.caps.minted(to, source);
    crate::laws::messages::law_envelope_is_taken_once(
        k.ipc,
        handle,
        e,
        ThreadId(receiver),
        e,
        ThreadId(receiver),
    );
    crate::runtime::transfer::law_mint_and_revoke(k.caps, to, source);
    assert(from != to || env.source_cap != cap);
    law_mint_spares_other_slots(k.caps, to, source, from, env.source_cap);
    assert(source == (Capability { object: source.object, rights: source.rights }));
    assert(after.caps.entries == minted.entries);
    assert(after.caps.process_cnodes == k.caps.process_cnodes);
    assert(after.caps.resolve(to, cap) == minted.resolve(to, cap));
    assert(after.caps.resolve(from, env.source_cap) == minted.resolve(from, env.source_cap));
    assert(after.cnode_of_task(receiver) == Some(to));
    assert(after.cnode_of_task(env.source_tid.0) == Some(from));
}

/// A hand-over that fails takes the envelope and changes nothing else.
pub proof fn law_failed_hand_over_takes_only_the_envelope(
    k: Kernel,
    e: int,
    receiver: u64,
    handle: u64,
)
    ensures
        k.cap_hand_over(e, receiver, handle) is Err ==> k.after_cap_hand_over(e, receiver, handle)
            == k.envelope_gone(handle, e, receiver),
        k.reply_hand_over(e, receiver, handle) is Err ==> k.after_reply_hand_over(
            e,
            receiver,
            handle,
        ) == k.envelope_gone(handle, e, receiver),
{
}

/// A reply that was handed over is held by its receiver and known to its record; taking it back
/// leaves the receiver's node as it was and the record without the receiver's capability.
pub proof fn law_reply_can_be_taken_back(k: Kernel, e: int, receiver: u64, handle: u64)
    requires
        k.reply_hand_over(e, receiver, handle) is Ok,
    ensures
        ({
            let m = k.reply_hand_over(e, receiver, handle)->Ok_0;
            let given = k.after_reply_hand_over(e, receiver, handle);
            let back = given.reply_taken_back(
                receiver,
                m.cap,
                m.reply_index,
                m.reply_generation,
            );
            &&& given.holds_reply(receiver, m.cap, m.reply_index, m.reply_generation)
            &&& given.ipc.reply_record(
                m.reply_index as int,
                m.reply_generation,
            ) matches Some(record) && record.waiter_cap_id == Some(m.cap)
            &&& back == (Kernel {
                ipc: k.envelope_gone(handle, e, receiver).ipc.with_waiter_cap(
                    m.reply_index as int,
                    m.reply_generation,
                    None,
                ),
                ..k
            })
        }),
{
    let m = k.reply_hand_over(e, receiver, handle)->Ok_0;
    let cnode = k.cnode_of_task(receiver)->0;
    let object = CapObject::Reply { index: m.reply_index, generation: m.reply_generation };
    let capability = Capability { object, rights: CapRights(RIGHT_SEND) };
    let taken = k.envelope_gone(handle, e, receiver);
    let given = k.after_reply_hand_over(e, receiver, handle);
    let i = m.reply_index as int;
    crate::runtime::transfer::law_mint_and_revoke(k.caps, cnode, capability);
    assert(given.caps == k.caps.minted(cnode, capability));
    assert(given.cnode_of_task(receiver) == Some(cnode)) by {
        assert(given.caps.process_cnodes == k.caps.process_cnodes);
    }
    assert(given.ipc.with_waiter_cap(i, m.reply_generation, None).replies
        =~= taken.ipc.with_waiter_cap(i, m.reply_generation, None).replies);
}

/// Taking a reply back twice is the same as taking it back once.
pub proof fn law_taking_back_twice_is_harmless(
    k: Kernel,
    receiver: u64,
    cap: CapId,
    index: usize,
    generation: u64,
)
    requires
        k.caps.apart(),
    ensures
        k.reply_taken_back(receiver, cap, index, generation).reply_taken_back(
            receiver,
            cap,
            index,
            generation,
        ) == k.reply_taken_back(receiver, cap, index, generation),
{
    if k.holds_reply(receiver, cap, index, generation) {
        let cnode = k.cnode_of_task(receiver)->0;
        let other = if cap.0 == 0 {
            CapId(1)
        } else {
            CapId(0)
        };
        law_revoked_slot_is_empty(k.caps, cnode, cap, cnode, other);
        let back = k.reply_taken_back(receiver, cap, index, generation);
        assert(back.caps.process_cnodes == k.caps.process_cnodes);
        assert(back.cnode_of_task(receiver) == Some(cnode));
    }
}

/// A copy that was handed over and taken back leaves the capability domain as it was.
pub proof fn law_copy_can_be_taken_back(k: Kernel, e: int, receiver: u64, handle: u64)
    requires
        k.cap_hand_over(e, receiver, handle) is Ok,
        !seqs::any_where(
            k.caps.links,
            crate::capability::leads_to(receiver, k.cap_hand_over(e, receiver, handle)->Ok_0),
        ),
    ensures
        k.after_cap_hand_over(e, receiver, handle).copy_taken_back(
            receiver,
            k.cap_hand_over(e, receiver, handle)->Ok_0,
        ).caps == k.caps,
{
    let env = k.ipc.takeable(handle, e, ThreadId(receiver))->0;
    let source = k.task_capability(env.source_tid.0, env.source_cap)->Ok_0;
    let to = k.cnode_of_task(receiver)->0;
    let cap = k.cap_hand_over(e, receiver, handle)->Ok_0;
    let given = k.after_cap_hand_over(e, receiver, handle);
    let minted = k.caps.minted(to, source);
    let p = crate::capability::in_slot(to, cap);
    let l = crate::capability::leads_to(receiver, cap);
    let n = k.caps.links.len() as int;
    crate::runtime::transfer::law_mint_and_revoke(k.caps, to, source);
    assert(source == (Capability { object: source.object, rights: source.rights }));
    assert(given.caps.entries == minted.entries);
    assert(given.caps.process_cnodes == k.caps.process_cnodes);
    assert(given.cnode_of_task(receiver) == Some(to));
    assert(given.caps.resolve(to, cap) == minted.resolve(to, cap));
    seqs::lemma_first_where(minted.entries, p);
    assert(given.caps.revoked(to, cap).entries == minted.revoked(to, cap).entries);
    seqs::lemma_first_where(k.caps.links, l);
    assert forall|j: int| 0 <= j < n implies !l(#[trigger] given.caps.links[j]) by {
        assert(given.caps.links[j] == k.caps.links[j]);
    }
    seqs::lemma_first_where_is(given.caps.links, l, n);
    assert(given.caps.links.remove(n) =~= k.caps.links);
}

/// A node that was resized has the slots it was given, and no other node changes.
pub proof fn law_resize_reads_back(
    caps: Caps,
    plan: ControlPlaneCnodePlan,
    pid: u64,
    slots: usize,
    limits: RuntimeCapacityConfig,
    other: CNodeId,
)
    requires
        caps.resize_verdict(plan, pid, slots, limits) is Ok,
        other != CNodeId(pid),
    ensures
        caps.resized(pid, slots).slots_of(CNodeId(pid)) == Some(slots),
        caps.resized(pid, slots).slots_of(other) == caps.slots_of(other),
        caps.resized(pid, slots).cnode_of(pid) is Some,
        caps.resized(pid, slots).entries == caps.entries,
        0 < slots <= limits.max_cnode_slots,
{
    let own = crate::capability::of_cnode(CNodeId(pid));
    let others = crate::capability::of_cnode(other);
    let process = crate::capability::of_process(pid);
    let after = caps.resized(pid, slots);
    let n = caps.cnodes.len() as int;
    seqs::lemma_first_where(caps.cnodes, own);
    seqs::lemma_first_where(caps.cnodes, others);
    seqs::lemma_first_where(caps.process_cnodes, process);
    let i = seqs::first_where(caps.cnodes, own);
    let k = seqs::first_where(caps.cnodes, others);
    assert forall|j: int| 0 <= j < i implies !own(#[trigger] after.cnodes[j]) by {
        assert(after.cnodes[j] == caps.cnodes[j]);
    }
    seqs::lemma_first_where_is(after.cnodes, own, i);
    assert forall|j: int| 0 <= j < k implies !others(#[trigger] after.cnodes[j]) by {
        if j != i {
            assert(after.cnodes[j] == caps.cnodes[j]);
        }
    }
    if k < n {
        assert(k != i);
        assert(after.cnodes[k] == caps.cnodes[k]);
        seqs::lemma_first_where_is(after.cnodes, others, k);
    } else if i < n {
        seqs::lemma_first_where_is(after.cnodes, others, n);
    } else {
        assert(!others(after.cnodes[n]));
        seqs::lemma_first_where_is(after.cnodes, others, n + 1);
    }
    if caps.cnode_of(pid) is None {
        let m = caps.process_cnodes.len() as int;
        assert(process(after.process_cnodes[m]));
        assert forall|j: int| 0 <= j < m implies !process(#[trigger] after.process_cnodes[j]) by {
            assert(after.process_cnodes[j] == caps.process_cnodes[j]);
        }
        seqs::lemma_first_where_is(after.process_cnodes, process, m);
    }
}

/// Only a system server may resize the node of another process; a request by anybody else is
/// denied and changes nothing.
pub proof fn law_resize_across_processes_is_privileged(
    k: Kernel,
    requester: u64,
    pid: u64,
    slots: usize,
)
    requires
        k.tasks.class_of(requester) matches Some(class) && class != TaskClass::SystemServer,
        k.tasks.group_of(requester) != Some(pid),
    ensures
        k.resize_verdict(requester, pid, slots) == Err::<(), KernelError>(
            KernelError::MissingRight,
        ),
        k.after_resize(requester, pid, slots) == k,
{
}

} // verus!
