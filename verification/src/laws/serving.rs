//! How a request is served: what a capability leads to, what is refused, and what is told.
use vstd::prelude::*;

use crate::capability::{CapObject, CapRights, RIGHT_RECEIVE};
use crate::deferred::{BlockingSendCommitSnapshot, Pending, PlainDelivery};
use crate::ids::{Asid, CapId, CpuId, KernelError, SyscallError, TrapHandleError, VirtAddr};
use crate::ipc::{Ipc, Message, RecvAdmission};
use crate::kernel::Kernel;
use crate::runtime::delivery::DispatchPostWorkDisposition;
use crate::runtime::recv::{RecvBoundaryUserCopySnapshot, RecvWritebackPlan};
use crate::runtime::EndpointRecvCapSnapshot;
use crate::seqs;
use crate::trap::{FaultAccess, FaultInfo, TrapFrame};
use crate::vm::Vm;

verus! {

/// User code reaches the memory behind an address exactly through the first entry of its page in
/// an address space that is there, where the page is the user's and may be read or, to write it,
/// written; what it reaches lies as far behind the frame as the address behind the page.
pub proof fn law_user_address_is_translated(vm: Vm, asid: Asid, va: u64, write: bool, i: int)
    requires
        0 <= i < vm.pages.len(),
        vm.pages[i].asid == asid,
        vm.pages[i].page == va - va % 4096,
        forall|j: int|
            0 <= j < i ==> (#[trigger] vm.pages[j]).asid != asid || vm.pages[j].page != va - va
                % 4096,
    ensures
        ({
            let m = vm.pages[i].mapping;
            let there = exists|s: int| 0 <= s < vm.spaces.len() && #[trigger] vm.spaces[s] == asid;
            let may = there && m.flags.user && (if write {
                m.flags.write
            } else {
                m.flags.read
            }) && m.phys.0 + va % 4096 <= u64::MAX;
            &&& vm.resolve(asid, va) == if there {
                Some(m)
            } else {
                None
            }
            &&& vm.user_phys(asid, va, write) is Some <==> may
            &&& may ==> vm.user_phys(asid, va, write)->0 == m.phys.0 + va % 4096
        }),
{
    seqs::lemma_first_where_is(
        vm.pages,
        crate::vm::maps_page(asid, crate::vm::page_of(va)),
        i,
    );
    let p = crate::vm::is_space(asid);
    seqs::lemma_first_where(vm.spaces, p);
    if exists|s: int| 0 <= s < vm.spaces.len() && #[trigger] vm.spaces[s] == asid {
        let s = choose|s: int| 0 <= s < vm.spaces.len() && #[trigger] vm.spaces[s] == asid;
        assert(p(vm.spaces[s]));
    }
    let f = seqs::first_where(vm.spaces, p);
    if f < vm.spaces.len() {
        assert(vm.spaces[f] == asid);
    }
}

/// No user code reaches a page that is not mapped.
pub proof fn law_unmapped_address_is_nobody_s(vm: Vm, asid: Asid, va: u64, write: bool)
    requires
        forall|j: int|
            0 <= j < vm.pages.len() ==> (#[trigger] vm.pages[j]).asid != asid || vm.pages[j].page
                != va - va % 4096,
    ensures
        vm.resolve(asid, va) is None,
        vm.user_phys(asid, va, write) is None,
{
    seqs::lemma_first_where_is(
        vm.pages,
        crate::vm::maps_page(asid, crate::vm::page_of(va)),
        vm.pages.len() as int,
    );
}

/// A task reaches an endpoint by a capability of its process that names one and has the right;
/// what is missing decides the refusal.
pub proof fn law_endpoint_is_reached_by_its_capability(
    k: Kernel,
    tid: u64,
    cap: CapId,
    right: u8,
)
    ensures
        ({
            let cnode = k.cnode_of_task(tid);
            let held = if cnode is Some {
                k.caps.resolve(cnode->0, cap)
            } else {
                None
            };
            let result = k.endpoint_cap(tid, cap, right);
            &&& held is None ==> result == Err::<(CapObject, CapRights, u64), KernelError>(
                KernelError::InvalidCapability,
            )
            &&& held is Some && !(held->0.object is Endpoint) ==> result == Err::<
                (CapObject, CapRights, u64),
                KernelError,
            >(KernelError::WrongObject)
            &&& held is Some && held->0.object is Endpoint && held->0.rights.0 & right != right
                ==> result == Err::<(CapObject, CapRights, u64), KernelError>(
                KernelError::MissingRight,
            )
            &&& held is Some && held->0.object is Endpoint && held->0.rights.0 & right == right
                ==> result == Ok::<(CapObject, CapRights, u64), KernelError>(
                (held->0.object, held->0.rights, k.tasks.group_of(tid)->0),
            )
        }),
{
}

/// An endpoint capability leads to its slot exactly where the slot is within the limits, in use,
/// and at the generation that the capability names; an older generation is stale.
pub proof fn law_endpoint_slot_is_of_its_generation(k: Kernel, index: usize, generation: u64)
    ensures
        ({
            let i = index as int;
            let used = i < k.ipc.endpoints.len() && k.ipc.endpoints[i].mode is Some && index
                < k.profile.spec_config().max_endpoints;
            k.endpoint_slot(CapObject::Endpoint { index, generation }) == if !used {
                Err::<usize, KernelError>(KernelError::WrongObject)
            } else if k.ipc.endpoints[i].generation == generation {
                Ok(index)
            } else {
                Err(KernelError::StaleCapability)
            }
        }),
{
}

/// Which messages are served: one without a capability always; one with a capability everywhere
/// but in a plain receive, except that the boundary serves no shared region and no reply that is
/// not tagged as one.
pub proof fn law_served_messages(ipc: Ipc, msg: Message)
    ensures
        ({
            let carries = msg.transfer != u64::MAX;
            let env = ipc.envelope_at(msg.transfer);
            &&& ipc.serves(RecvAdmission::Plain, msg) <==> !carries
            &&& ipc.serves(RecvAdmission::WithCapTransfer, msg)
            &&& ipc.serves(RecvAdmission::Boundary, msg) <==> {
                ||| !carries
                ||| msg.opcode != 0xFFF0 && msg.flags & 1 != 0
                ||| msg.opcode != 0xFFF0 && !(env is Some && env->0.source_object is Reply)
            }
        }),
{
}

/// How a receive is served: without a metadata buffer in registers for a kernel task and in memory
/// for a user task; with one only for a user task that has forty bytes of room for it.
pub proof fn law_receive_is_planned(kernel_task: bool, frame: TrapFrame)
    ensures
        ({
            let meta = frame.args@[3];
            let room = frame.args@[4];
            let plan = crate::runtime::recv::recv_plan(kernel_task, meta, room);
            let to = crate::runtime::recv::writeback_of(plan, frame);
            &&& plan is KernelPlainEligible <==> meta == 0 && kernel_task
            &&& plan is UserPlainEligible <==> meta == 0 && !kernel_task
            &&& plan is UserPlainV2Eligible <==> meta != 0 && !kernel_task && room >= 40
            &&& plan is KernelPlainEligible ==> to is KernelRegister
            &&& plan is UserPlainEligible ==> to == (RecvWritebackPlan::UserMemory {
                user_ptr: frame.args@[1],
                user_len: frame.args@[2],
            })
            &&& plan is UserPlainV2Eligible ==> to == (RecvWritebackPlan::UserMemoryV2 {
                user_ptr: frame.args@[1],
                user_len: frame.args@[2],
                meta_ptr: meta,
            })
        }),
{
}

/// A receive without the right to it, or at no endpoint, is told so and changes nothing; where
/// nothing runs, nothing is received.
pub proof fn law_receive_is_refused(k: Kernel, cpu: CpuId, frame: TrapFrame)
    ensures
        ({
            let c = cpu.0 as int;
            let runs = c < k.sched.cpus.len() && k.sched.cpus[c].online && k.sched.cpus[c].current
                is Some;
            let tid = k.sched.cpus[c].current->0;
            let end = k.split_recv(cpu, frame);
            &&& !runs ==> end is None
            &&& runs && k.endpoint_cap(tid, CapId(frame.args@[0]), 2) is Err ==> {
                &&& end is Some
                &&& end->0.kernel == k
                &&& end->0.frame == frame
                &&& end->0.result == Err::<(), TrapHandleError>(
                    TrapHandleError::Syscall(
                        crate::ids::syscall_error_of(
                            k.endpoint_cap(tid, CapId(frame.args@[0]), 2)->Err_0,
                        ),
                    ),
                )
            }
        }),
{
}

/// A message whose copy to user memory fails for want of room, or of a metadata buffer, is refused:
/// nothing is written, the capability is taken back, and the register for it says that there is
/// none.
pub proof fn law_undelivered_message_is_refused(
    k: Kernel,
    cpu: CpuId,
    frame: TrapFrame,
    pending: RecvBoundaryUserCopySnapshot,
)
    requires
        k.writeback_result(pending) is Undersized || k.writeback_result(pending) is MetaFault,
    ensures
        ({
            let end = k.user_copy_end(cpu, frame, pending);
            &&& end.kernel == k.pending_cap_undone(pending)
            &&& end.frame == (if pending.materialized_cap is Some {
                TrapFrame { ret2: u64::MAX, ..frame }
            } else {
                frame
            })
            &&& end.result == Err::<(), TrapHandleError>(
                TrapHandleError::Syscall(
                    if k.writeback_result(pending) is Undersized {
                        SyscallError::InvalidArgs
                    } else {
                        SyscallError::PageFault
                    },
                ),
            )
        }),
{
}

/// What a copy to user memory comes to: too long a payload is refused before anything else, then
/// the metadata buffer and then the payload buffer must be writable.
pub proof fn law_copy_is_judged(k: Kernel, pending: RecvBoundaryUserCopySnapshot)
    ensures
        ({
            let n = pending.msg.used();
            let result = k.writeback_result(pending);
            match pending.writeback {
                RecvWritebackPlan::KernelRegister => result is Copied,
                RecvWritebackPlan::UserMemory { user_ptr, user_len } => {
                    let open = pending.asid is Some && crate::laws::reading::writable(
                        k,
                        pending.asid->0,
                        user_ptr,
                        n,
                    );
                    &&& result is Undersized <==> n > user_len
                    &&& result is Copied <==> n <= user_len && open
                    &&& result is PayloadFault <==> n <= user_len && !open
                    &&& result is PayloadFault ==> result->user_ptr == user_ptr
                },
                RecvWritebackPlan::UserMemoryV2 { user_ptr, user_len, meta_ptr } => {
                    let told = pending.asid is Some && crate::laws::reading::writable(
                        k,
                        pending.asid->0,
                        meta_ptr,
                        40,
                    );
                    let open = pending.asid is Some && crate::laws::reading::writable(
                        k,
                        pending.asid->0,
                        user_ptr,
                        n,
                    );
                    &&& result is Undersized <==> n > user_len
                    &&& result is MetaFault <==> n <= user_len && !told
                    &&& result is PayloadFault <==> n <= user_len && told && !open
                    &&& result is PayloadFault ==> result->user_ptr == user_ptr
                    &&& result is Copied <==> n <= user_len && told && open
                },
            }
        }),
{
    assert(pending.msg.bytes().len() == pending.msg.used());
    assert(k.pending_meta(pending).len() == 40);
    if let Some(asid) = pending.asid {
        match pending.writeback {
            RecvWritebackPlan::KernelRegister => {},
            RecvWritebackPlan::UserMemory { user_ptr, .. } => {
                assert(k.user_copy_fits(asid, user_ptr, pending.msg.bytes())
                    == crate::laws::reading::writable(k, asid, user_ptr, pending.msg.used()));
            },
            RecvWritebackPlan::UserMemoryV2 { user_ptr, meta_ptr, .. } => {
                assert(k.user_copy_fits(asid, user_ptr, pending.msg.bytes())
                    == crate::laws::reading::writable(k, asid, user_ptr, pending.msg.used()));
                assert(k.user_copy_fits(asid, meta_ptr, k.pending_meta(pending))
                    == crate::laws::reading::writable(k, asid, meta_ptr, 40));
            },
        }
    }
}

/// A payload buffer that cannot be written is a fault of the task at that address: it is recorded
/// as a write, and the task sees the error of a page fault.
pub proof fn law_payload_fault_is_recorded(
    k: Kernel,
    cpu: CpuId,
    frame: TrapFrame,
    pending: RecvBoundaryUserCopySnapshot,
)
    requires
        k.writeback_result(pending) is PayloadFault,
        (cpu.0 as int) < k.sched.cpus.len(),
        k.sched.cpus[cpu.0 as int].online,
    ensures
        ({
            let end = k.user_copy_end(cpu, frame, pending);
            &&& end.result is Ok
            &&& end.frame == (TrapFrame { error: 7, ..frame })
            &&& end.kernel.faults.last_fault == Some(
                FaultInfo {
                    addr: VirtAddr(k.writeback_result(pending)->user_ptr),
                    access: FaultAccess::Write,
                },
            )
            &&& end.kernel.caps == k.caps
            &&& end.kernel.tasks == k.tasks
            &&& end.kernel.ipc == k.ipc
        }),
{
}

/// An undelivered capability is taken back as it was given: a reply from the slot and its record,
/// any other capability as a copy, and nothing where none was given.
pub proof fn law_undelivered_capability_goes_back(k: Kernel, pending: RecvBoundaryUserCopySnapshot)
    ensures
        k.pending_cap_undone(pending) == match pending.materialized_cap {
            None => k,
            Some(cap) => match pending.reply_record {
                Some(record) => k.reply_taken_back(
                    pending.receiver_tid,
                    CapId(cap),
                    record.0,
                    record.1,
                ),
                None => k.copy_taken_back(pending.receiver_tid, CapId(cap)),
            },
        },
{
}

/// Where a receive with a metadata buffer hands a capability over, payload and metadata stand in
/// the receiver's memory, and the metadata names the very slot that the register names: as a reply
/// where the message is tagged as one, and else as a transferred capability.
pub proof fn law_received_capability_is_told(
    k: Kernel,
    cpu: CpuId,
    frame: TrapFrame,
    tid: u64,
    e: int,
    h: int,
    asid: Asid,
)
    requires
        crate::laws::reading::may_receive(k, cpu, frame, tid, e, h),
        k.tasks.asid_of(tid) == Some(asid),
        k.ipc.queue[h].msg.transfer != u64::MAX,
        frame.args@[3] != 0,
        k.split_recv(cpu, frame) matches Some(end) && end.result is Ok && end.frame.error == 0,
        crate::laws::handing::buffers_apart(
            k.vm,
            asid,
            frame.args@[3],
            40,
            frame.args@[1],
            k.ipc.queue[h].msg.used(),
        ),
    ensures
        ({
            let end = k.split_recv(cpu, frame)->0;
            let msg = k.ipc.queue[h].msg;
            &&& end.frame.ret0 == 0
            &&& end.frame.ret1 == msg.used()
            &&& crate::laws::handing::reads_bytes(end.kernel, asid, frame.args@[1], msg.bytes())
            &&& crate::laws::handing::tells_of(
                end.kernel,
                asid,
                frame.args@[3],
                msg,
                end.frame.ret2,
                if msg.flags & 1 != 0 {
                    2
                } else {
                    1
                },
            )
        }),
{
    crate::laws::reading::lemma_may_receive(k, cpu, frame, tid, e, h);
    let msg = k.ipc.queue[h].msg;
    let taken = k.dequeued(e);
    let wake = k.ipc.recv_result(e, RecvAdmission::Boundary)->wake;
    let end = k.split_recv(cpu, frame)->0;
    let (endpoint, rights, pid) = k.endpoint_cap(tid, CapId(frame.args@[0]), RIGHT_RECEIVE)->Ok_0;
    let snapshot = EndpointRecvCapSnapshot {
        endpoint,
        rights,
        requester_tid: tid,
        requester_pid: pid,
    };
    let a = k.phase_a(cpu, frame, snapshot);
    let writeback = RecvWritebackPlan::UserMemoryV2 {
        user_ptr: frame.args@[1],
        user_len: frame.args@[2],
        meta_ptr: frame.args@[3],
    };
    let (before, cap, reply) = if msg.spec_is_reply_cap() {
        let handed = taken.after_reply_hand_over(e, tid, msg.transfer);
        let m = taken.reply_hand_over(e, tid, msg.transfer)->Ok_0;
        (handed.reply_counted().sender_let_go(cpu, wake), m.cap.0, true)
    } else {
        let pending = a.outcome->PendingOrdinaryCapUserCopy_0;
        let snap = crate::runtime::transfer::TransferCapSnapshot {
            receiver_cnode: pending.receiver_cnode,
            object: pending.object,
            rights: pending.rights,
        };
        let delegation = crate::runtime::transfer::TransferCapDelegation {
            source_tid: pending.source_tid,
            source_cap: pending.source_cap,
            dest_tid: pending.receiver_tid,
        };
        let handed = a.kernel.after_materialize(snap, Some(delegation));
        let out = a.kernel.materialize_result(snap, Some(delegation))->Ok_0;
        (handed.sender_let_go(cpu, wake), out->Materialized_0.0, false)
    };
    if msg.spec_is_reply_cap() {
        let handed = taken.after_reply_hand_over(e, tid, msg.transfer);
        crate::laws::reading::lemma_let_go_keeps_identities(handed.reply_counted(), cpu, wake);
        crate::laws::reading::lemma_same_identities(
            handed.reply_counted().tasks,
            before.tasks,
            tid,
        );
    } else {
        let pending = a.outcome->PendingOrdinaryCapUserCopy_0;
        let snap = crate::runtime::transfer::TransferCapSnapshot {
            receiver_cnode: pending.receiver_cnode,
            object: pending.object,
            rights: pending.rights,
        };
        let delegation = crate::runtime::transfer::TransferCapDelegation {
            source_tid: pending.source_tid,
            source_cap: pending.source_cap,
            dest_tid: pending.receiver_tid,
        };
        let handed = a.kernel.after_materialize(snap, Some(delegation));
        crate::laws::reading::lemma_let_go_keeps_identities(handed, cpu, wake);
    }
    let meta = crate::runtime::recv::recv_meta(msg, Some(cap), reply);
    assert(meta.bytes().len() == 40);
    assert(msg.bytes().len() == msg.used());
    assert(before.vm == k.vm);
    crate::laws::handing::lemma_both_read_back(
        before.mem,
        k.vm,
        asid,
        frame.args@[3],
        meta.bytes(),
        frame.args@[1],
        msg.bytes(),
    );
    assert(end.kernel.mem == before.mem.user_written(
        k.vm,
        asid,
        frame.args@[3],
        meta.bytes(),
    ).user_written(k.vm, asid, frame.args@[1], msg.bytes()));
    assert(end.kernel.vm == k.vm);
    assert(end.frame.ret2 == cap);
    crate::laws::handing::lemma_meta_words(end.kernel, asid, frame.args@[3], meta);
}

/// A delivery without a capability succeeds exactly where both buffers of the waiter can be
/// written; it then wakes the waiter, and else wakes nobody.
pub proof fn law_plain_delivery_needs_both_buffers(k: Kernel, cpu: CpuId, snap: PlainDelivery)
    ensures
        ({
            let to = snap.to;
            let open = crate::laws::reading::writable(
                k,
                to.waiter_asid,
                to.payload_user_ptr,
                to.msg.used(),
            ) && crate::laws::reading::writable(k, to.waiter_asid, to.meta_user_ptr, 40);
            let end = k.plain_delivered(cpu, snap);
            &&& end.result is Ok <==> open
            &&& !open ==> end.kernel.tasks == k.tasks && end.kernel.sched == k.sched
                && end.kernel.ipc == k.ipc && end.result == Err::<(), TrapHandleError>(
                TrapHandleError::Syscall(SyscallError::InvalidArgs),
            )
        }),
{
    let to = snap.to;
    assert(to.msg.bytes().len() == to.msg.used());
    assert(snap.meta.bytes().len() == 40);
    assert(k.user_copy_fits(to.waiter_asid, to.payload_user_ptr, to.msg.bytes())
        == crate::laws::reading::writable(
        k,
        to.waiter_asid,
        to.payload_user_ptr,
        to.msg.used(),
    ));
    assert(k.user_copy_fits(to.waiter_asid, to.meta_user_ptr, snap.meta.bytes())
        == crate::laws::reading::writable(k, to.waiter_asid, to.meta_user_ptr, 40));
}

/// What a handler left for the way out is taken exactly once, from the place of its processor.
pub proof fn law_left_work_is_taken(k: Kernel, cpu: CpuId, acks: Seq<usize>)
    ensures
        ({
            let c = cpu.0 as int;
            let there = c < 8 && c < k.pending.stash.len();
            &&& k.stashed(cpu) == if there {
                k.pending.stash[c]
            } else {
                None
            }
            &&& k.unstashed(cpu) == if there && k.pending.stash[c] is Some {
                Kernel {
                    pending: Pending { stash: k.pending.stash.update(c, None), ..k.pending },
                    ..k
                }
            } else {
                k
            }
            &&& k.stashed(cpu) is None ==> k.stash_done(cpu, acks) == k
        }),
{
}

/// Behind the commit of a blocking send: a sender that blocked is what the next dispatch of the
/// processor follows, unless it follows one already; a sender that was refused gets its envelope
/// back and its error.
pub proof fn law_send_commit_is_followed_up(
    k: Kernel,
    cpu: CpuId,
    snap: BlockingSendCommitSnapshot,
)
    ensures
        ({
            let c = cpu.0 as int;
            let outcome = k.send_commit_result(snap);
            let after = k.send_commit_done(cpu, snap);
            let blocked = k.after_send_commit(snap);
            &&& outcome is Committed ==> after == (if c < 8 && c
                < blocked.pending.send_deferrals.len() && blocked.pending.send_deferrals[c]
                is None {
                Kernel {
                    pending: Pending {
                        send_deferrals: blocked.pending.send_deferrals.update(
                            c,
                            Some(snap.sender_tid),
                        ),
                        ..blocked.pending
                    },
                    ..blocked
                }
            } else {
                blocked
            })
            &&& outcome is Committed ==> k.send_commit_disposition(snap) == (
            DispatchPostWorkDisposition::SenderCommittedBlocked { tid: snap.sender_tid })
            &&& !(outcome is Committed) ==> after == (match snap.transfer_envelope {
                Some(cleanup) => k.envelope_settled(
                    cleanup.handle,
                    cleanup.endpoint_idx as int,
                    cleanup.cleanup_tid,
                ),
                None => k,
            })
            &&& !(outcome is Committed) ==> outcome.spec_immediate_error() is Some
                && k.send_commit_disposition(snap) == (
            DispatchPostWorkDisposition::ImmediateReturn {
                error: outcome.spec_immediate_error()->0,
            })
        }),
{
}

/// A sender that was refused sees the code of its error in its frame; nobody else's frame changes.
pub proof fn law_refused_sender_sees_its_error(
    frame: TrapFrame,
    result: Result<DispatchPostWorkDisposition, TrapHandleError>,
)
    ensures
        ({
            let after = crate::runtime::delivery::frame_behind(frame, result);
            let refused = result is Ok && result->Ok_0 is ImmediateReturn;
            &&& !refused ==> after == frame
            &&& refused ==> after == (TrapFrame {
                error: crate::ids::syscall_error_of(result->Ok_0->error).spec_code(),
                ..frame
            })
            &&& refused ==> after.error != 0
        }),
{
}

/// No two errors have the same code, and none has the code of success.
pub proof fn law_error_codes_are_apart(a: SyscallError, b: SyscallError)
    ensures
        a.spec_code() == b.spec_code() <==> a == b,
        1 <= a.spec_code() <= 8,
{
}

/// User space sees an error of its own for a capability, a right, an object, a block, a full queue
/// and a fault; every other failure is internal.
pub proof fn law_errors_are_told_apart(e: KernelError)
    ensures
        ({
            let seen = crate::ids::syscall_error_of(e);
            &&& seen is InvalidCapability <==> e is InvalidCapability || e is StaleCapability
            &&& seen is MissingRight <==> e is MissingRight
            &&& seen is WrongObject <==> e is WrongObject
            &&& seen is WouldBlock <==> e is WouldBlock
            &&& seen is QueueFull <==> e is EndpointQueueFull
            &&& seen is PageFault <==> e is UserMemoryFault
            &&& !(seen is InvalidArgs)
        }),
{
}

/// A delivery clears the return lanes of the waiter it served, before anybody is woken.
pub proof fn law_delivery_clears_the_lanes(k: Kernel, cpu: CpuId, i: int, e: int)
    requires
        k.tasks.apart(),
        0 <= i < k.tasks.tcbs.len(),
        k.tasks.tcbs[i] is Some,
        (cpu.0 as int) < k.sched.cpus.len(),
        k.sched.cpus[cpu.0 as int].online,
    ensures
        ({
            let tcb = k.tasks.tcbs[i]->0;
            let after = k.after_completion(cpu, tcb.tid.0, e, None);
            &&& k.completion_result(cpu, tcb.tid.0, e, None) is Ok
            &&& after.sched == (crate::scheduler::Sched { current_cpu: cpu, ..k.sched })
            &&& after.tasks == (crate::task::Tasks {
                tcbs: k.tasks.tcbs.update(
                    i,
                    Some(
                        crate::task::ThreadControlBlock {
                            user_context: crate::task::UserRegisterContext {
                                ret0: 0,
                                ret1: 0,
                                ret2: 0,
                                ret_error: 0,
                                ..tcb.user_context
                            },
                            ..tcb
                        },
                    ),
                ),
                ..k.tasks
            })
            &&& after.ipc == k.ipc
        }),
{
    crate::laws::slots::law_task_is_found_where_it_stands(k.tasks, i);
}

} // verus!
