//! What a receiver finds in its registers, in its memory and in its capability node.
use vstd::prelude::*;

use crate::capability::{CapObject, Capability, RIGHT_RECEIVE};
use crate::ids::{Asid, CapId, CpuId, SyscallError, ThreadId, TrapHandleError, VirtAddr};
use crate::ipc::{RecvAdmission, SenderWakeTarget, NO_TRANSFER_CAP};
use crate::kernel::Kernel;
use crate::runtime::EndpointRecvCapSnapshot;
use crate::seqs;
use crate::task::Tasks;
use crate::trap::{FaultAccess, FaultInfo, TrapFrame};

verus! {

proof fn lemma_byte_shift(w: u64, b: u8, n: u64)
    requires
        n <= 48,
    ensures
        (((w << 8u64) | (b as u64)) >> ((n + 8) as u64)) & 0xFF == (w >> n) & 0xFF,
        (((w << 8u64) | (b as u64)) >> 0u64) & 0xFF == b,
{
    assert((((w << 8u64) | (b as u64)) >> ((n + 8) as u64)) & 0xFF == (w >> n) & 0xFF)
        by (bit_vector)
        requires
            n <= 48,
    ;
    assert((((w << 8u64) | (b as u64)) >> 0u64) & 0xFF == b) by (bit_vector);
}

proof fn lemma_word_holds(bytes: Seq<u8>, from: int, to: int, j: int)
    requires
        0 <= from <= to <= bytes.len(),
        0 <= j < to - from <= 8,
    ensures
        (crate::trap::word_from(bytes, from, to) >> ((8 * j) as u64)) & 0xFF == bytes[from + j],
    decreases j,
{
    let w = crate::trap::word_from(bytes, from + 1, to);
    if j == 0 {
        lemma_byte_shift(w, bytes[from], 0);
    } else {
        lemma_word_holds(bytes, from + 1, to, j - 1);
        lemma_byte_shift(w, bytes[from], (8 * (j - 1)) as u64);
        assert((8 * (j - 1)) as u64 + 8 == 8 * j);
    }
}

/// A payload that fits into two register words stands there byte by byte, lowest byte first; one
/// of more than sixteen bytes does not fit.
pub proof fn law_register_words_hold_the_payload(bytes: Seq<u8>)
    ensures
        crate::trap::register_words(bytes) is Some <==> bytes.len() <= 16,
        crate::trap::register_words(bytes) matches Some((low, high)) ==> forall|j: int|
            0 <= j < bytes.len() ==> #[trigger] bytes[j] == (if j < 8 {
                (low >> ((8 * j) as u64)) & 0xFF
            } else {
                (high >> ((8 * (j - 8)) as u64)) & 0xFF
            }),
{
    if bytes.len() <= 16 {
        let n = bytes.len() as int;
        let cut = if n > 8 {
            8
        } else {
            n
        };
        assert forall|j: int| 0 <= j < bytes.len() implies #[trigger] bytes[j] == (if j < 8 {
            (crate::trap::word_from(bytes, 0, cut) >> ((8 * j) as u64)) & 0xFF
        } else {
            (crate::trap::word_from(bytes, 8, n) >> ((8 * (j - 8)) as u64)) & 0xFF
        }) by {
            if j < 8 {
                lemma_word_holds(bytes, 0, cut, j);
            } else {
                lemma_word_holds(bytes, 8, n, j - 8);
            }
        }
    }
}

/// The same tasks in the same slots, as far as number, group and address space go.
pub open spec fn same_identities(a: Tasks, b: Tasks) -> bool {
    &&& a.tcbs.len() == b.tcbs.len()
    &&& forall|j: int|
        0 <= j < a.tcbs.len() ==> ((#[trigger] a.tcbs[j]) is Some <==> b.tcbs[j] is Some) && (
        a.tcbs[j] is Some ==> a.tcbs[j]->0.tid == b.tcbs[j]->0.tid && a.tcbs[j]->0.asid
            == b.tcbs[j]->0.asid && a.tcbs[j]->0.thread_group_id == b.tcbs[j]->0.thread_group_id)
}

pub(crate) proof fn lemma_same_identities(a: Tasks, b: Tasks, tid: u64)
    requires
        same_identities(a, b),
    ensures
        a.asid_of(tid) == b.asid_of(tid),
        a.group_of(tid) == b.group_of(tid),
        a.slot(tid) == b.slot(tid),
{
    let p = crate::task::has_tid(tid);
    seqs::lemma_first_where(a.tcbs, p);
    let i = a.slot(tid);
    assert forall|j: int| 0 <= j < i implies !p(#[trigger] b.tcbs[j]) by {
        assert(!p(a.tcbs[j]));
        assert(a.tcbs[j] is Some <==> b.tcbs[j] is Some);
    }
    if i < a.tcbs.len() {
        assert(p(a.tcbs[i]));
        assert(p(b.tcbs[i]));
    }
    seqs::lemma_first_where_is(b.tcbs, p, i);
}

pub(crate) proof fn lemma_let_go_keeps_identities(
    k: Kernel,
    cpu: CpuId,
    wake: Option<SenderWakeTarget>,
)
    ensures
        same_identities(k.tasks, k.sender_let_go(cpu, wake).tasks),
        k.sender_let_go(cpu, wake).caps == k.caps,
        k.sender_let_go(cpu, wake).vm == k.vm,
        k.sender_let_go(cpu, wake).mem == k.mem,
        k.sender_let_go(cpu, wake).ipc.envelopes == k.ipc.envelopes,
        k.sender_let_go(cpu, wake).ipc.replies == k.ipc.replies,
        k.sender_let_go(cpu, wake).sched.cpus == k.sched.cpus,
        k.sender_let_go(cpu, wake).faults == k.faults,
{
    if let Some(target) = wake {
        let answered = k.send_answered(cpu, target);
        seqs::lemma_first_where(
            k.tasks.tcbs,
            crate::task::is_incarnation(target.tid.0, target.asid),
        );
        seqs::lemma_first_where(answered.tasks.tcbs, crate::task::has_tid(target.tid.0));
        assert(same_identities(k.tasks, answered.tasks));
    }
}

/// Is a message queued first at endpoint `e`, in place `h`, which the task current on `cpu` may
/// receive by the capability in its first argument?
pub open spec fn may_receive(
    k: Kernel,
    cpu: CpuId,
    frame: TrapFrame,
    tid: u64,
    e: int,
    h: int,
) -> bool {
    &&& (cpu.0 as int) < k.sched.cpus.len()
    &&& k.sched.cpus[cpu.0 as int].online
    &&& k.sched.cpus[cpu.0 as int].current == Some(tid)
    &&& k.endpoint_cap(tid, CapId(frame.args@[0]), RIGHT_RECEIVE) matches Ok(
        (CapObject::Endpoint { index, generation }, _, _),
    ) && index == e && generation == k.ipc.endpoints[e].generation
    &&& 0 <= e < k.ipc.endpoints.len()
    &&& e < k.profile.spec_config().max_endpoints
    &&& k.ipc.endpoints[e].mode is Some
    &&& 0 <= h < k.ipc.queue.len()
    &&& k.ipc.queue[h].endpoint == e
    &&& forall|m: int| 0 <= m < h ==> (#[trigger] k.ipc.queue[m]).endpoint != e
}

pub(crate) proof fn lemma_may_receive(k: Kernel, cpu: CpuId, frame: TrapFrame, tid: u64, e: int, h: int)
    requires
        may_receive(k, cpu, frame, tid, e, h),
    ensures
        k.ipc.head(e) == h,
        k.ipc.exists_at(e),
        k.sched.online(cpu),
        k.sched.current_on(cpu) == Some(tid),
        k.endpoint_slot(
            k.endpoint_cap(tid, CapId(frame.args@[0]), RIGHT_RECEIVE)->Ok_0.0,
        ) == Ok::<usize, crate::ids::KernelError>(e as usize),
{
    seqs::lemma_first_where_is(k.ipc.queue, crate::ipc::queued_at(e), h);
}

pub(crate) proof fn lemma_single_read_back(k: Kernel, asid: Asid, ptr: u64, bytes: Seq<u8>)
    requires
        forall|a: int, b: int|
            0 <= a < b < bytes.len() ==> #[trigger] crate::laws::handing::behind(
                k.vm,
                asid,
                ptr,
                a,
            ) != #[trigger] crate::laws::handing::behind(k.vm, asid, ptr, b),
    ensures
        crate::laws::handing::reads_bytes(
            (Kernel { mem: k.mem.user_written(k.vm, asid, ptr, bytes), ..k }),
            asid,
            ptr,
            bytes,
        ),
{
    assert forall|p: u64, i: int|
        #[trigger] k.vm.user_byte_phys(asid, p, i, true) == crate::laws::handing::behind(
            k.vm,
            asid,
            p,
            i,
        ) by {}
    assert forall|b: int| 0 <= b < bytes.len() implies k.mem.user_written(
        k.vm,
        asid,
        ptr,
        bytes,
    ).byte(#[trigger] crate::laws::handing::behind(k.vm, asid, ptr, b)) == bytes[b] by {
        crate::runtime::usercopy::law_copy_reads_back(k.mem, k.vm, asid, ptr, bytes, b);
    }
}

/// May user code write every one of the `len` bytes at `ptr`?
pub open spec fn writable(k: Kernel, asid: Asid, ptr: u64, len: int) -> bool {
    forall|i: int|
        0 <= i < len ==> ptr + i <= u64::MAX && (#[trigger] k.vm.user_phys(
            asid,
            (ptr + i) as u64,
            true,
        )) is Some
}

/// A user task receives a message without a capability, and asks for no metadata.  Where the
/// payload fits and the buffer can be written, the bytes stand there, and the registers tell the
/// sender, the length and that there is no capability.  A payload that does not fit is refused;
/// a buffer that cannot be written is recorded as a fault of this address.
pub proof fn law_user_receives_payload(
    k: Kernel,
    cpu: CpuId,
    frame: TrapFrame,
    tid: u64,
    e: int,
    h: int,
    asid: Asid,
)
    requires
        may_receive(k, cpu, frame, tid, e, h),
        k.tasks.asid_of(tid) == Some(asid),
        k.ipc.queue[h].msg.transfer == NO_TRANSFER_CAP,
        frame.args@[3] == 0,
    ensures
        k.split_recv(cpu, frame) is Some,
        ({
            let end = k.split_recv(cpu, frame)->0;
            let msg = k.ipc.queue[h].msg;
            let ptr = frame.args@[1];
            let fits = msg.used() <= frame.args@[2];
            let open = writable(k, asid, ptr, msg.used());
            &&& !fits ==> end.result == Err::<(), TrapHandleError>(
                TrapHandleError::Syscall(SyscallError::InvalidArgs),
            ) && end.kernel.mem == k.mem
            &&& fits && !open ==> end.result is Ok && end.frame.error == 7 && end.kernel.mem
                == k.mem && end.kernel.faults.last_fault == Some(
                FaultInfo { addr: VirtAddr(ptr), access: FaultAccess::Write },
            )
            &&& fits && open ==> end.result is Ok && end.frame.error == 0 && end.frame.ret0
                == msg.sender_tid.0 && end.frame.ret1 == msg.used() && end.frame.ret2
                == 0xFFFF_FFFF_FFFF_FFFF && end.frame.args == frame.args && end.kernel.faults
                == k.faults
            &&& fits && open && (forall|a: int, b: int|
                0 <= a < b < msg.used() ==> #[trigger] crate::laws::handing::behind(
                    k.vm,
                    asid,
                    ptr,
                    a,
                ) != #[trigger] crate::laws::handing::behind(k.vm, asid, ptr, b))
                ==> crate::laws::handing::reads_bytes(end.kernel, asid, ptr, msg.bytes())
            &&& end.kernel.caps == k.caps
            &&& end.kernel.vm == k.vm
        }),
{
    lemma_may_receive(k, cpu, frame, tid, e, h);
    let msg = k.ipc.queue[h].msg;
    let taken = k.dequeued(e);
    let wake = k.ipc.recv_result(e, RecvAdmission::Boundary)->wake;
    let gone = taken.sender_let_go(cpu, wake);
    lemma_let_go_keeps_identities(taken, cpu, wake);
    lemma_same_identities(taken.tasks, gone.tasks, tid);
    assert(msg.bytes().len() == msg.used());
    assert(gone.user_copy_fits(asid, frame.args@[1], msg.bytes()) == writable(
        k,
        asid,
        frame.args@[1],
        msg.used(),
    ));
    if forall|a: int, b: int|
        0 <= a < b < msg.used() ==> #[trigger] crate::laws::handing::behind(
            k.vm,
            asid,
            frame.args@[1],
            a,
        ) != #[trigger] crate::laws::handing::behind(k.vm, asid, frame.args@[1], b) {
        lemma_single_read_back(gone, asid, frame.args@[1], msg.bytes());
    }
}

/// A user task receives a message without a capability, with room for metadata: payload and
/// metadata stand in its memory, and the metadata tells the operation, the length, that there is no
/// capability, and the sender.
pub proof fn law_user_receives_payload_and_metadata(
    k: Kernel,
    cpu: CpuId,
    frame: TrapFrame,
    tid: u64,
    e: int,
    h: int,
    asid: Asid,
)
    requires
        may_receive(k, cpu, frame, tid, e, h),
        k.tasks.asid_of(tid) == Some(asid),
        k.ipc.queue[h].msg.transfer == NO_TRANSFER_CAP,
        frame.args@[3] != 0,
        frame.args@[4] >= 40,
        k.ipc.queue[h].msg.used() <= frame.args@[2],
        writable(k, asid, frame.args@[1], k.ipc.queue[h].msg.used()),
        writable(k, asid, frame.args@[3], 40),
        crate::laws::handing::buffers_apart(
            k.vm,
            asid,
            frame.args@[3],
            40,
            frame.args@[1],
            k.ipc.queue[h].msg.used(),
        ),
    ensures
        k.split_recv(cpu, frame) is Some,
        ({
            let end = k.split_recv(cpu, frame)->0;
            let msg = k.ipc.queue[h].msg;
            &&& end.result is Ok
            &&& end.frame.error == 0
            &&& end.frame.ret0 == 0
            &&& end.frame.ret1 == msg.used()
            &&& end.frame.ret2 == 0xFFFF_FFFF_FFFF_FFFF
            &&& crate::laws::handing::reads_bytes(end.kernel, asid, frame.args@[1], msg.bytes())
            &&& crate::laws::handing::tells_of(
                end.kernel,
                asid,
                frame.args@[3],
                msg,
                0xFFFF_FFFF_FFFF_FFFF,
                0,
            )
            &&& end.kernel.caps == k.caps
        }),
{
    lemma_may_receive(k, cpu, frame, tid, e, h);
    let msg = k.ipc.queue[h].msg;
    let taken = k.dequeued(e);
    let wake = k.ipc.recv_result(e, RecvAdmission::Boundary)->wake;
    let gone = taken.sender_let_go(cpu, wake);
    lemma_let_go_keeps_identities(taken, cpu, wake);
    lemma_same_identities(taken.tasks, gone.tasks, tid);
    let meta = crate::runtime::recv::recv_meta(msg, None, msg.spec_is_reply_cap());
    assert(meta.bytes().len() == 40);
    assert(msg.bytes().len() == msg.used());
    crate::laws::handing::lemma_both_read_back(
        gone.mem,
        k.vm,
        asid,
        frame.args@[3],
        meta.bytes(),
        frame.args@[1],
        msg.bytes(),
    );
    assert(gone.user_copy_fits(asid, frame.args@[3], meta.bytes()));
    let told = gone.user_copied(asid, frame.args@[3], meta.bytes());
    assert(gone.user_copy_fits(asid, frame.args@[1], msg.bytes()));
    assert(told.user_copy_fits(asid, frame.args@[1], msg.bytes()));
    let end = k.split_recv(cpu, frame)->0;
    assert(end.kernel.mem == gone.mem.user_written(
        k.vm,
        asid,
        frame.args@[3],
        meta.bytes(),
    ).user_written(k.vm, asid, frame.args@[1], msg.bytes()));
    crate::laws::handing::lemma_meta_words(end.kernel, asid, frame.args@[3], meta);
}

/// Metadata without room for it is not served here, and neither is metadata for a kernel task.
pub proof fn law_metadata_needs_room(
    k: Kernel,
    cpu: CpuId,
    frame: TrapFrame,
    tid: u64,
    e: int,
    h: int,
)
    requires
        may_receive(k, cpu, frame, tid, e, h),
        frame.args@[3] != 0,
        frame.args@[4] < 40 || k.tasks.asid_of(tid) is None,
    ensures
        k.split_recv(cpu, frame) is None,
{
    lemma_may_receive(k, cpu, frame, tid, e, h);
}

/// A kernel task receives a message without a capability in registers: sender, length, and the
/// payload byte by byte in two argument words.  A payload of more than sixteen bytes is refused.
pub proof fn law_kernel_task_receives_in_registers(
    k: Kernel,
    cpu: CpuId,
    frame: TrapFrame,
    tid: u64,
    e: int,
    h: int,
)
    requires
        may_receive(k, cpu, frame, tid, e, h),
        k.tasks.asid_of(tid) is None,
        k.ipc.queue[h].msg.transfer == NO_TRANSFER_CAP,
        frame.args@[3] == 0,
    ensures
        k.split_recv(cpu, frame) is Some,
        ({
            let end = k.split_recv(cpu, frame)->0;
            let msg = k.ipc.queue[h].msg;
            &&& end.result is Ok <==> msg.used() <= 16
            &&& end.frame.ret0 == msg.sender_tid.0
            &&& end.frame.ret1 == msg.used()
            &&& end.frame.ret2 == 0xFFFF_FFFF_FFFF_FFFF
            &&& end.frame.error == 0
            &&& msg.used() <= 16 ==> forall|j: int|
                0 <= j < msg.used() ==> #[trigger] msg.bytes()[j] == (if j < 8 {
                    (end.frame.args@[3] >> ((8 * j) as u64)) & 0xFF
                } else {
                    (end.frame.args@[4] >> ((8 * (j - 8)) as u64)) & 0xFF
                })
            &&& end.kernel.mem == k.mem
            &&& end.kernel.caps == k.caps
        }),
{
    lemma_may_receive(k, cpu, frame, tid, e, h);
    let msg = k.ipc.queue[h].msg;
    let taken = k.dequeued(e);
    let wake = k.ipc.recv_result(e, RecvAdmission::Boundary)->wake;
    lemma_let_go_keeps_identities(taken, cpu, wake);
    law_register_words_hold_the_payload(msg.bytes());
    assert(msg.bytes().len() == msg.used());
}

/// A message that carries a capability hands it over: where the receive succeeds without a fault,
/// the receiver's node has one entry more, in a slot that was free.  The slot's number is in the
/// register for it.  The entry has the object and the rights of the sender's capability, or names
/// exactly the reply of the envelope with the right to send.  The envelope is gone.
pub proof fn law_received_capability_is_held(
    k: Kernel,
    cpu: CpuId,
    frame: TrapFrame,
    tid: u64,
    e: int,
    h: int,
)
    requires
        may_receive(k, cpu, frame, tid, e, h),
        k.ipc.queue[h].msg.transfer != NO_TRANSFER_CAP,
        k.split_recv(cpu, frame) matches Some(end) && end.result is Ok && end.frame.error == 0,
    ensures
        ({
            let end = k.split_recv(cpu, frame)->0;
            let msg = k.ipc.queue[h].msg;
            let slot = (msg.transfer & 0xFFFF) as int;
            let env = k.ipc.envelopes[slot].envelope->0;
            let cnode = k.cnode_of_task(tid)->0;
            let cap = CapId(end.frame.ret2);
            &&& slot < k.ipc.envelopes.len()
            &&& k.ipc.envelopes[slot].envelope is Some
            &&& k.ipc.envelopes[slot].generation == msg.transfer >> 16
            &&& end.kernel.ipc.envelopes[slot].envelope is None
            &&& k.cnode_of_task(tid) is Some
            &&& k.caps.resolve(cnode, cap) is None
            &&& end.kernel.caps.resolve(cnode, cap) is Some
            &&& end.kernel.caps.entries == k.caps.entries.push(
                crate::capability::CapEntry {
                    cnode,
                    cap,
                    capability: end.kernel.caps.resolve(cnode, cap)->0,
                },
            )
            &&& msg.flags & 1 == 0 ==> k.cnode_of_task(env.source_tid.0) is Some
                && end.kernel.caps.resolve(cnode, cap) == k.caps.resolve(
                k.cnode_of_task(env.source_tid.0)->0,
                env.source_cap,
            )
            &&& msg.flags & 1 != 0 ==> env.source_object is Reply && end.kernel.caps.resolve(
                cnode,
                cap,
            ) == Some(
                Capability {
                    object: env.source_object,
                    rights: crate::capability::CapRights(crate::capability::RIGHT_SEND),
                },
            )
        }),
{
    lemma_may_receive(k, cpu, frame, tid, e, h);
    let msg = k.ipc.queue[h].msg;
    let taken = k.dequeued(e);
    let wake = k.ipc.recv_result(e, RecvAdmission::Boundary)->wake;
    let env = taken.ipc.takeable(msg.transfer, e, ThreadId(tid))->0;
    let cnode = k.cnode_of_task(tid)->0;
    let end = k.split_recv(cpu, frame)->0;
    let (endpoint, rights, pid) = k.endpoint_cap(tid, CapId(frame.args@[0]), RIGHT_RECEIVE)->Ok_0;
    let snapshot = EndpointRecvCapSnapshot {
        endpoint,
        rights,
        requester_tid: tid,
        requester_pid: pid,
    };
    let a = k.phase_a(cpu, frame, snapshot);
    assert(k.ipc.recv_result(e, RecvAdmission::Boundary) is Delivered);
    if msg.spec_is_reply_cap() {
        let handed = taken.after_reply_hand_over(e, tid, msg.transfer);
        let m = taken.reply_hand_over(e, tid, msg.transfer)->Ok_0;
        let capability = Capability {
            object: CapObject::Reply { index: m.reply_index, generation: m.reply_generation },
            rights: crate::capability::CapRights(crate::capability::RIGHT_SEND),
        };
        crate::runtime::transfer::law_mint_and_revoke(k.caps, cnode, capability);
        lemma_let_go_keeps_identities(handed.reply_counted(), cpu, wake);
        assert(end.kernel.caps == handed.caps);
    } else if k.tasks.asid_of(tid) is None {
        let handed = taken.after_cap_hand_over(e, tid, msg.transfer);
        let source = taken.task_capability(env.source_tid.0, env.source_cap)->Ok_0;
        crate::runtime::transfer::law_mint_and_revoke(
            k.caps,
            cnode,
            Capability { object: source.object, rights: source.rights },
        );
        lemma_let_go_keeps_identities(handed, cpu, wake);
        assert(end.kernel.caps == handed.caps);
        assert(handed.caps.entries == k.caps.minted(
            cnode,
            Capability { object: source.object, rights: source.rights },
        ).entries);
    } else {
        let gone = taken.envelope_gone(msg.transfer, e, tid);
        let source = gone.task_capability(env.source_tid.0, env.source_cap)->Ok_0;
        let pending = a.outcome->PendingOrdinaryCapUserCopy_0;
        let snap = crate::runtime::transfer::TransferCapSnapshot {
            receiver_cnode: pending.receiver_cnode,
            object: pending.object,
            rights: pending.rights,
        };
        let delegation = crate::runtime::transfer::TransferCapDelegation {
            source_tid: pending.source_tid,
            source_cap: pending.source_cap,
            dest_tid: pending.receiver_tid,
        };
        let handed = a.kernel.after_materialize(snap, Some(delegation));
        crate::runtime::transfer::law_mint_and_revoke(
            k.caps,
            cnode,
            Capability { object: source.object, rights: source.rights },
        );
        lemma_let_go_keeps_identities(handed, cpu, wake);
        assert(handed.caps.entries == k.caps.minted(
            cnode,
            Capability { object: source.object, rights: source.rights },
        ).entries);
        assert(end.kernel.caps == handed.caps);
    }
}

} // verus!
