//! What a delivery to a blocked receiver leaves in its memory and in its capability node.
use vstd::prelude::*;

use crate::capability::{CapEntry, CapObject, CapRights, Capability, DelegationLink};
use crate::deferred::{OrdinaryCapDelivery, PlainDelivery, ReplyCapDelivery, WaiterDelivery};
use crate::ids::{Asid, CapId, CpuId};
use crate::kernel::Kernel;
use crate::memory::Mem;
use crate::vm::Vm;

verus! {

/// Physical address that user code of `asid` writes to at `ptr + i`.
pub open spec fn behind(vm: Vm, asid: Asid, ptr: u64, i: int) -> u64 {
    vm.user_phys(asid, (ptr + i) as u64, true)->0
}

/// Do the eight bytes at `ptr + at` hold `word`, lowest byte first?
pub open spec fn reads_word(k: Kernel, asid: Asid, ptr: u64, at: int, word: u64) -> bool {
    forall|b: int|
        0 <= b < 8 ==> k.mem.byte(#[trigger] behind(k.vm, asid, ptr, at + b)) == ((word >> ((8
            * b) as u64)) & 0xFF) as u8
}

/// Do the bytes at `ptr` hold `bytes`?
pub open spec fn reads_bytes(k: Kernel, asid: Asid, ptr: u64, bytes: Seq<u8>) -> bool {
    forall|b: int|
        0 <= b < bytes.len() ==> k.mem.byte(#[trigger] behind(k.vm, asid, ptr, b)) == bytes[b]
}

/// Are the `len` bytes at `ptr` distinct, and distinct from the `other_len` bytes at `other`?
pub open spec fn buffers_apart(
    vm: Vm,
    asid: Asid,
    ptr: u64,
    len: int,
    other: u64,
    other_len: int,
) -> bool {
    &&& forall|a: int, b: int|
        0 <= a < b < len ==> #[trigger] behind(vm, asid, ptr, a) != #[trigger] behind(
            vm,
            asid,
            ptr,
            b,
        )
    &&& forall|a: int, b: int|
        0 <= a < b < other_len ==> #[trigger] behind(vm, asid, other, a) != #[trigger] behind(
            vm,
            asid,
            other,
            b,
        )
    &&& forall|a: int, b: int|
        0 <= a < len && 0 <= b < other_len ==> #[trigger] behind(vm, asid, ptr, a)
            != #[trigger] behind(vm, asid, other, b)
}

/// What was copied to two buffers that are apart is read back from both.
pub(crate) proof fn lemma_both_read_back(
    mem: Mem,
    vm: Vm,
    asid: Asid,
    first: u64,
    one: Seq<u8>,
    second: u64,
    two: Seq<u8>,
)
    requires
        buffers_apart(vm, asid, first, one.len() as int, second, two.len() as int),
    ensures
        forall|b: int|
            0 <= b < one.len() ==> mem.user_written(vm, asid, first, one).user_written(
                vm,
                asid,
                second,
                two,
            ).byte(#[trigger] behind(vm, asid, first, b)) == one[b],
        forall|b: int|
            0 <= b < two.len() ==> mem.user_written(vm, asid, first, one).user_written(
                vm,
                asid,
                second,
                two,
            ).byte(#[trigger] behind(vm, asid, second, b)) == two[b],
{
    let mid = mem.user_written(vm, asid, first, one);
    assert forall|p: u64, i: int|
        #[trigger] vm.user_byte_phys(asid, p, i, true) == behind(vm, asid, p, i) by {}
    assert forall|b: int| 0 <= b < one.len() implies mid.user_written(
        vm,
        asid,
        second,
        two,
    ).byte(#[trigger] behind(vm, asid, first, b)) == one[b] by {
        crate::runtime::usercopy::law_copy_reads_back(mem, vm, asid, first, one, b);
        crate::runtime::usercopy::law_copy_spares_others(
            mid,
            vm,
            asid,
            second,
            two,
            behind(vm, asid, first, b),
        );
    }
    assert forall|b: int| 0 <= b < two.len() implies mid.user_written(
        vm,
        asid,
        second,
        two,
    ).byte(#[trigger] behind(vm, asid, second, b)) == two[b] by {
        crate::runtime::usercopy::law_copy_reads_back(mid, vm, asid, second, two, b);
    }
}

/// Does the metadata at `ptr` tell of the message, of the capability numbered `cap` and of its
/// kind?
pub open spec fn tells_of(
    k: Kernel,
    asid: Asid,
    ptr: u64,
    msg: crate::ipc::Message,
    cap: u64,
    kind: u64,
) -> bool {
    &&& reads_word(k, asid, ptr, 0, 0)
    &&& reads_word(k, asid, ptr, 8, ((msg.opcode as u64) << 48) | (msg.used() as u64))
    &&& reads_word(k, asid, ptr, 16, cap)
    &&& reads_word(k, asid, ptr, 24, kind)
    &&& reads_word(k, asid, ptr, 32, msg.sender_tid.0)
}

/// Metadata that stands in memory is read word by word.
pub(crate) proof fn lemma_meta_words(k: Kernel, asid: Asid, ptr: u64, meta: crate::trap::RecvMeta)
    requires
        reads_bytes(k, asid, ptr, meta.bytes()),
    ensures
        meta.bytes().len() == 40,
        reads_word(k, asid, ptr, 0, meta.status),
        reads_word(k, asid, ptr, 8, ((meta.opcode as u64) << 48) | meta.payload_len),
        reads_word(k, asid, ptr, 16, meta.cap),
        reads_word(k, asid, ptr, 24, meta.flags),
        reads_word(k, asid, ptr, 32, meta.sender_tid),
{
    let bytes = meta.bytes();
    let second = ((meta.opcode as u64) << 48) | meta.payload_len;
    assert(bytes.len() == 40);
    assert forall|b: int| 0 <= b < 8 implies k.mem.byte(#[trigger] behind(k.vm, asid, ptr, 0 + b))
        == ((meta.status >> ((8 * b) as u64)) & 0xFF) as u8 by {
        assert(bytes[b] == crate::trap::word_bytes(meta.status)[b]);
    }
    assert forall|b: int| 0 <= b < 8 implies k.mem.byte(#[trigger] behind(k.vm, asid, ptr, 8 + b))
        == ((second >> ((8 * b) as u64)) & 0xFF) as u8 by {
        assert(bytes[8 + b] == crate::trap::word_bytes(second)[b]);
    }
    assert forall|b: int| 0 <= b < 8 implies k.mem.byte(
        #[trigger] behind(k.vm, asid, ptr, 16 + b),
    ) == ((meta.cap >> ((8 * b) as u64)) & 0xFF) as u8 by {
        assert(bytes[16 + b] == crate::trap::word_bytes(meta.cap)[b]);
    }
    assert forall|b: int| 0 <= b < 8 implies k.mem.byte(
        #[trigger] behind(k.vm, asid, ptr, 24 + b),
    ) == ((meta.flags >> ((8 * b) as u64)) & 0xFF) as u8 by {
        assert(bytes[24 + b] == crate::trap::word_bytes(meta.flags)[b]);
    }
    assert forall|b: int| 0 <= b < 8 implies k.mem.byte(
        #[trigger] behind(k.vm, asid, ptr, 32 + b),
    ) == ((meta.sender_tid >> ((8 * b) as u64)) & 0xFF) as u8 by {
        assert(bytes[32 + b] == crate::trap::word_bytes(meta.sender_tid)[b]);
    }
}

/// Is the delivery for the blocked receiver in slot `i`, to buffers that are apart?
pub open spec fn delivers_to(k: Kernel, cpu: CpuId, i: int, to: WaiterDelivery) -> bool {
    &&& k.tasks.apart()
    &&& (cpu.0 as int) < k.sched.cpus.len()
    &&& k.sched.cpus[cpu.0 as int].online
    &&& crate::laws::waking::is_blocked_receiver(k, i)
    &&& k.tasks.tcbs[i]->0.tid.0 == to.waiter_tid
    &&& to.wake_tid == Some(crate::ids::ThreadId(to.waiter_tid))
    &&& buffers_apart(
        k.vm,
        to.waiter_asid,
        to.payload_user_ptr,
        to.msg.used(),
        to.meta_user_ptr,
        40,
    )
}

/// The second half of every delivery: both copies are there and the receiver goes on.
proof fn lemma_delivered(
    start: Kernel,
    k: Kernel,
    cpu: CpuId,
    i: int,
    to: WaiterDelivery,
    meta: crate::trap::RecvMeta,
)
    requires
        delivers_to(start, cpu, i, to),
        k.tasks == start.tasks,
        k.sched == start.sched,
        k.vm == start.vm,
        k.ipc.endpoints == start.ipc.endpoints,
        k.delivery_fits(to, meta.bytes()),
    ensures
        ({
            let after = k.delivery_copied(to, meta.bytes()).delivery_done(cpu, to);
            &&& reads_bytes(after, to.waiter_asid, to.payload_user_ptr, to.msg.bytes())
            &&& reads_bytes(after, to.waiter_asid, to.meta_user_ptr, meta.bytes())
            &&& crate::laws::waking::receiver_went_on(
                start,
                after,
                cpu,
                i,
                to.endpoint_idx as int,
            )
            &&& after.caps == k.caps
            &&& after.vm == k.vm
            &&& after.ipc.replies == k.ipc.replies
        }),
{
    let copied = k.delivery_copied(to, meta.bytes());
    let bytes = to.msg.bytes();
    assert(bytes.len() == to.msg.used());
    assert(meta.bytes().len() == 40);
    lemma_both_read_back(
        k.mem,
        k.vm,
        to.waiter_asid,
        to.payload_user_ptr,
        bytes,
        to.meta_user_ptr,
        meta.bytes(),
    );
    assert(copied.mem == k.mem.user_written(
        k.vm,
        to.waiter_asid,
        to.payload_user_ptr,
        bytes,
    ).user_written(k.vm, to.waiter_asid, to.meta_user_ptr, meta.bytes()));
    crate::laws::waking::law_receiver_goes_on(copied, cpu, i, to.endpoint_idx as int);
    let after = copied.delivery_done(cpu, to);
    assert(after.mem == copied.mem && after.vm == copied.vm);
}

/// A plain delivery that succeeds: payload and metadata stand in the receiver's memory as they were
/// given, and the receiver goes on.
pub proof fn law_plain_delivery_arrives(k: Kernel, cpu: CpuId, i: int, snap: PlainDelivery)
    requires
        delivers_to(k, cpu, i, snap.to),
        k.plain_delivered(cpu, snap).result is Ok,
    ensures
        ({
            let after = k.plain_delivered(cpu, snap).kernel;
            let asid = snap.to.waiter_asid;
            let ptr = snap.to.meta_user_ptr;
            &&& reads_bytes(after, asid, snap.to.payload_user_ptr, snap.to.msg.bytes())
            &&& reads_word(after, asid, ptr, 0, snap.meta.status)
            &&& reads_word(
                after,
                asid,
                ptr,
                8,
                ((snap.meta.opcode as u64) << 48) | snap.meta.payload_len,
            )
            &&& reads_word(after, asid, ptr, 16, snap.meta.cap)
            &&& reads_word(after, asid, ptr, 24, snap.meta.flags)
            &&& reads_word(after, asid, ptr, 32, snap.meta.sender_tid)
            &&& crate::laws::waking::receiver_went_on(
                k,
                after,
                cpu,
                i,
                snap.to.endpoint_idx as int,
            )
            &&& after.caps == k.caps
        }),
{
    lemma_delivered(k, k, cpu, i, snap.to, snap.meta);
    lemma_meta_words(
        k.plain_delivered(cpu, snap).kernel,
        snap.to.waiter_asid,
        snap.to.meta_user_ptr,
        snap.meta,
    );
}

/// A delivery with a copied capability that succeeds: the receiver's node has one entry more, in a
/// slot that was free, with exactly the object and the rights that were sent, and the metadata in
/// the receiver's memory names that very slot.  The payload stands there too, the copy is linked to
/// its source, and the receiver goes on.
pub proof fn law_cap_delivery_arrives(k: Kernel, cpu: CpuId, i: int, snap: OrdinaryCapDelivery)
    requires
        delivers_to(k, cpu, i, snap.to),
        k.cap_delivered(cpu, snap).result is Ok,
    ensures
        ({
            let after = k.cap_delivered(cpu, snap).kernel;
            &&& reads_bytes(
                after,
                snap.to.waiter_asid,
                snap.to.payload_user_ptr,
                snap.to.msg.bytes(),
            )
            &&& crate::laws::waking::receiver_went_on(
                k,
                after,
                cpu,
                i,
                snap.to.endpoint_idx as int,
            )
            &&& !(snap.object is Reply)
            &&& exists|cap: CapId|
                {
                    &&& #[trigger] after.caps.resolve(snap.receiver_cnode, cap) == Some(
                        Capability { object: snap.object, rights: snap.rights },
                    )
                    &&& k.caps.resolve(snap.receiver_cnode, cap) is None
                    &&& after.caps.entries == k.caps.entries.push(
                        CapEntry {
                            cnode: snap.receiver_cnode,
                            cap,
                            capability: Capability { object: snap.object, rights: snap.rights },
                        },
                    )
                    &&& after.caps.links == k.caps.links.push(
                        DelegationLink {
                            source_tid: snap.source_tid,
                            source_cap: snap.source_cap,
                            dest_tid: snap.to.waiter_tid,
                            dest_cap: cap,
                        },
                    )
                    &&& tells_of(
                        after,
                        snap.to.waiter_asid,
                        snap.to.meta_user_ptr,
                        snap.to.msg,
                        cap.0,
                        1,
                    )
                }
        }),
{
    let what = crate::runtime::transfer::TransferCapSnapshot {
        receiver_cnode: snap.receiver_cnode,
        object: snap.object,
        rights: snap.rights,
    };
    let delegation = Some(
        crate::runtime::transfer::TransferCapDelegation {
            source_tid: snap.source_tid,
            source_cap: snap.source_cap,
            dest_tid: snap.to.waiter_tid,
        },
    );
    let handed = k.after_materialize(what, delegation);
    let cap = k.caps.mint_verdict(snap.receiver_cnode)->Ok_0;
    let capability = Capability { object: snap.object, rights: snap.rights };
    crate::runtime::transfer::law_mint_and_revoke(k.caps, snap.receiver_cnode, capability);
    let meta = crate::runtime::delivery::delivery_meta(
        snap.to,
        cap,
        crate::trap::RECV_META_TRANSFERRED_CAP,
    );
    lemma_delivered(k, handed, cpu, i, snap.to, meta);
    let after = k.cap_delivered(cpu, snap).kernel;
    lemma_meta_words(after, snap.to.waiter_asid, snap.to.meta_user_ptr, meta);
    assert(handed.caps.entries == k.caps.minted(snap.receiver_cnode, capability).entries);
    assert(after.caps.resolve(snap.receiver_cnode, cap) == Some(capability));
}

/// A delivery with a reply that succeeds: the receiver's node has one entry more, in a slot that
/// was free, that names exactly this reply with the right to send; the record of the reply knows
/// the slot, and so does the metadata in the receiver's memory.  The payload stands there too, and
/// the receiver goes on.
pub proof fn law_reply_delivery_arrives(k: Kernel, cpu: CpuId, i: int, snap: ReplyCapDelivery)
    requires
        delivers_to(k, cpu, i, snap.to),
        k.reply_delivered(cpu, snap).result is Ok,
    ensures
        ({
            let after = k.reply_delivered(cpu, snap).kernel;
            let r = snap.reply_index as int;
            let capability = Capability {
                object: CapObject::Reply {
                    index: snap.reply_index,
                    generation: snap.reply_generation,
                },
                rights: CapRights(crate::capability::RIGHT_SEND),
            };
            &&& reads_bytes(
                after,
                snap.to.waiter_asid,
                snap.to.payload_user_ptr,
                snap.to.msg.bytes(),
            )
            &&& crate::laws::waking::receiver_went_on(
                k,
                after,
                cpu,
                i,
                snap.to.endpoint_idx as int,
            )
            &&& 0 <= r < k.ipc.replies.len()
            &&& k.ipc.replies[r].generation == snap.reply_generation
            &&& k.ipc.replies[r].record is Some
            &&& exists|cap: CapId|
                {
                    &&& #[trigger] after.caps.resolve(snap.receiver_cnode, cap) == Some(capability)
                    &&& k.caps.resolve(snap.receiver_cnode, cap) is None
                    &&& after.caps.entries == k.caps.entries.push(
                        CapEntry { cnode: snap.receiver_cnode, cap, capability },
                    )
                    &&& after.ipc.replies[r].record == Some(
                        crate::ipc::ReplyCapRecord {
                            waiter_cap_id: Some(cap),
                            ..k.ipc.replies[r].record->0
                        },
                    )
                    &&& tells_of(
                        after,
                        snap.to.waiter_asid,
                        snap.to.meta_user_ptr,
                        snap.to.msg,
                        cap.0,
                        2,
                    )
                }
        }),
{
    let r = snap.reply_index as int;
    let object = CapObject::Reply { index: snap.reply_index, generation: snap.reply_generation };
    let capability = Capability { object, rights: CapRights(crate::capability::RIGHT_SEND) };
    let cap = k.caps.mint_verdict(snap.receiver_cnode)->Ok_0;
    crate::runtime::transfer::law_mint_and_revoke(k.caps, snap.receiver_cnode, capability);
    let recorded = Kernel {
        ipc: k.ipc.with_waiter_cap(r, snap.reply_generation, Some(cap)),
        ..k.ref_minted(snap.receiver_cnode, capability)
    };
    let meta = crate::runtime::delivery::delivery_meta(
        snap.to,
        cap,
        crate::trap::RECV_META_REPLY_CAP,
    );
    lemma_delivered(k, recorded, cpu, i, snap.to, meta);
    let after = k.reply_delivered(cpu, snap).kernel;
    lemma_meta_words(after, snap.to.waiter_asid, snap.to.meta_user_ptr, meta);
    assert(after.caps.resolve(snap.receiver_cnode, cap) == Some(capability));
}

} // verus!
