//! How rights, ends, marks, deadlines and requests are judged.
use vstd::prelude::*;

use crate::capability::CapRights;
use crate::ids::{Asid, CpuId, KernelError, VirtAddr, VmError};
use crate::ipc::{DeadlineToken, Ipc, SenderWakeTarget, TokenState};
use crate::kernel::Kernel;
use crate::runtime::census::LeaseBijection;
use crate::runtime::dispatch::MarkedIncarnation;
use crate::task::{DeadlineHandle, TaskClass, TaskStatus, Tasks, WaitReason};
use crate::vm::{Mapping, Vm};

verus! {

/// Rights allow what all their parts allow and nothing that they lack: adding a right that they
/// allow changes nothing, none is allowed by the empty set, and two are allowed together exactly
/// where each is.
pub proof fn law_rights_allow_what_they_hold(rights: CapRights, a: u8, b: u8)
    ensures
        rights.spec_allows(a) <==> rights.0 | a == rights.0,
        CapRights(0).spec_allows(a) <==> a == 0,
        rights.spec_allows(a | b) <==> rights.spec_allows(a) && rights.spec_allows(b),
{
    let r = rights.0;
    assert(r & a == a <==> r | a == r) by (bit_vector);
    assert(0u8 & a == a <==> a == 0) by (bit_vector);
    assert(r & (a | b) == (a | b) <==> (r & a == a && r & b == b)) by (bit_vector);
}

/// A task is over once it has exited or died, and then takes no part in scheduling; while it is
/// faulted or only reserved it is neither.
pub proof fn law_task_is_over(status: TaskStatus)
    ensures
        status.spec_terminal() <==> status == TaskStatus::Dead || exists|code: u64|
            status == TaskStatus::Exited(code),
        status.spec_live() <==> status != TaskStatus::Faulted && status != TaskStatus::Reserved
            && !status.spec_terminal(),
        status.spec_live() <==> status == TaskStatus::Runnable || status == TaskStatus::Running
            || exists|why: WaitReason| status == TaskStatus::Blocked(why),
{
    if status is Exited {
        assert(status == TaskStatus::Exited(status->Exited_0));
    }
    if status is Blocked {
        assert(status == TaskStatus::Blocked(status->Blocked_0));
    }
}

/// A receiver is alive in the incarnation that it has, unless it is over.
pub proof fn law_receiver_is_alive(tasks: Tasks, i: int, asid: Asid)
    requires
        tasks.apart(),
        0 <= i < tasks.tcbs.len(),
        tasks.tcbs[i] is Some,
    ensures
        tasks.receiver_alive(tasks.tcbs[i]->0.tid.0, asid) == (tasks.tcbs[i]->0.asid == Some(asid)
            && !(tasks.tcbs[i]->0.status is Exited) && tasks.tcbs[i]->0.status
            != TaskStatus::Dead),
{
    crate::laws::slots::law_task_is_found_where_it_stands(tasks, i);
}

/// A page of a shared region is mapped only where a page begins.
pub proof fn law_shared_page_begins_a_page(vm: Vm, asid: Asid, virt: VirtAddr)
    ensures
        virt.0 % 4096 != 0 ==> vm.page_verdict(asid, virt) == Err::<
            Option<Mapping>,
            VmError,
        >(VmError::InvalidAddress),
        virt.0 % 4096 == 0 ==> vm.page_verdict(asid, virt) == vm.map_verdict(asid, virt),
{
}

/// The idle task is marked as itself whatever address space it is said to have; another task is
/// marked by its address space, and without one not at all.
pub proof fn law_mark_names_the_incarnation(tid: u64, asid: Option<Asid>)
    ensures
        MarkedIncarnation::spec_resolve(0, asid) == Some(MarkedIncarnation::Idle),
        tid != 0 && asid is Some ==> MarkedIncarnation::spec_resolve(tid, asid) == Some(
            MarkedIncarnation::User { asid: asid->0 },
        ),
        tid != 0 && asid is None ==> MarkedIncarnation::spec_resolve(tid, asid) is None,
{
}

/// A handle names one registration alone: the one with its identity that was armed at its epoch.
/// It fires only while that registration is armed, and not before its deadline.
pub proof fn law_handle_names_one_registration(
    ipc: Ipc,
    handle: DeadlineHandle,
    token: DeadlineToken,
    now: u64,
)
    ensures
        token.spec_named_by(handle) <==> handle == (DeadlineHandle {
            identity: token.identity,
            epoch: token.epoch,
        }),
        token.spec_retired() <==> token.state == TokenState::Completed || token.state
            == TokenState::Disarmed,
        ({
            let i = handle.identity.token_index as int;
            ipc.can_fire(handle, now) <==> {
                &&& i < ipc.tokens.len()
                &&& ipc.tokens[i].identity == handle.identity
                &&& ipc.tokens[i].epoch == handle.epoch
                &&& ipc.tokens[i].state == TokenState::Armed
                &&& ipc.tokens[i].deadline <= now
            }
        }),
{
}

/// A census holds exactly where no waiter lacks its lease, no lease lacks its waiter, and no
/// incarnation is leased twice.
pub proof fn law_census_holds(found: LeaseBijection)
    ensures
        found.spec_holds() <==> found.missing_leases == 0 && found.orphan_leases == 0
            && found.duplicate_endpoint_incarnations == 0,
        found.spec_holds() && found.missing_leases == found.eligible_waiters - found.matched
            && found.orphan_leases == found.live_leases - found.matched ==> found.eligible_waiters
            == found.live_leases,
{
}

/// The task that runs on the current processor may resize the node of a process exactly where it
/// is a system server or of that process, asks for a number of slots between one and the limit,
/// leaves no capability beyond them, and there is room for the node; where nothing runs, nobody
/// may.
pub proof fn law_running_task_resizes_a_node(k: Kernel, i: int, pid: u64, slots: usize)
    requires
        k.tasks.apart(),
        0 <= i < k.tasks.tcbs.len(),
        k.tasks.tcbs[i] is Some,
        k.tasks.tcbs[i]->0.class is Some,
    ensures
        ({
            let c = k.sched.current_cpu.0 as int;
            let tcb = k.tasks.tcbs[i]->0;
            let limits = k.profile.spec_config();
            let has_node = exists|n: int|
                0 <= n < k.caps.cnodes.len() && (#[trigger] k.caps.cnodes[n]).cnode.0 == pid;
            &&& !(c < k.sched.cpus.len()) || k.sched.cpus[c].current is None
                ==> k.syscall_resize_verdict(pid, slots) is Err
            &&& c < k.sched.cpus.len() && k.sched.cpus[c].current == Some(tcb.tid.0) ==> (
            k.syscall_resize_verdict(pid, slots) is Ok <==> {
                &&& tcb.class == Some(TaskClass::SystemServer) || tcb.thread_group_id.0 == pid
                &&& 1 <= slots <= limits.max_cnode_slots
                &&& has_node || k.caps.cnodes.len() < limits.max_tasks
                &&& forall|j: int|
                    0 <= j < k.caps.entries.len() && (#[trigger] k.caps.entries[j]).cnode.0 == pid
                        ==> k.caps.entries[j].cap.0 <= slots
            })
        }),
{
    let tcb = k.tasks.tcbs[i]->0;
    crate::laws::slots::law_task_is_found_where_it_stands(k.tasks, i);
    crate::laws::admitting::law_node_is_resized(
        k.caps,
        crate::capability::ControlPlaneCnodePlan {
            requester_class: tcb.class->0,
            requester_pid: tcb.thread_group_id.0,
        },
        pid,
        slots,
        k.profile.spec_config(),
    );
}

/// Waking a blocked sender succeeds exactly where the task is live and of some class, and runs on
/// the processor or may be queued at its home; from a processor that is not online it is refused,
/// and nothing changes.
pub proof fn law_sender_wake_is_told(k: Kernel, cpu: CpuId, target: SenderWakeTarget, i: int)
    requires
        k.tasks.apart(),
        0 <= i < k.tasks.tcbs.len(),
        k.tasks.tcbs[i] is Some,
        k.tasks.tcbs[i]->0.tid == target.tid,
    ensures
        k.sched.admits(cpu) is Err ==> k.sender_wake_result(cpu, target) is Err
            && k.after_sender_wake(cpu, target) == k,
        ({
            let tcb = k.tasks.tcbs[i]->0;
            let home = match tcb.cpu_affinity {
                Some(home) => home,
                None => cpu,
            };
            let running = tcb.status == TaskStatus::Running && (cpu.0 as int) < k.sched.cpus.len()
                && k.sched.cpus[cpu.0 as int].current == Some(tcb.tid.0);
            k.sched.admits(cpu) is Ok ==> (k.sender_wake_result(cpu, target) is Ok <==> {
                &&& crate::laws::waking::takes_part(tcb.status)
                &&& tcb.tid.0 == 0 || tcb.class is Some
                &&& running || (!tcb.spawn_reservation && crate::laws::waking::may_join(
                    k.sched,
                    home,
                    tcb.tid.0,
                ))
            })
        }),
{
    crate::laws::slots::law_task_is_found_where_it_stands(k.tasks, i);
    let answered = k.send_answered(cpu, target);
    if k.tasks.send_is_blocked(target) {
        crate::laws::slots::lemma_exact_is_found(k.tasks, target.tid.0, target.asid);
        crate::laws::slots::lemma_with_keeps_apart(
            k.tasks,
            i,
            answered.tasks.tcbs[i]->0,
        );
        assert(answered.tasks == k.tasks.with(i, answered.tasks.tcbs[i]->0));
    }
    crate::laws::waking::law_wake_is_exact(answered, cpu, i);
}

proof fn lemma_answers_shift(
    k: Kernel,
    asid: Asid,
    va: int,
    end: int,
    acked: bool,
    acks: Seq<usize>,
    i: int,
)
    requires
        acks.len() > 0,
        i >= 0,
    ensures
        k.range_unmapped(asid, va, end, acked, acks, i + 1) == k.range_unmapped(
            asid,
            va,
            end,
            acked,
            acks.drop_first(),
            i,
        ),
    decreases (if end > va {
        end - va
    } else {
        0
    }),
{
    if va < end {
        let answer = crate::runtime::paging::acknowledged_at(acks, i + 1);
        assert(answer == crate::runtime::paging::acknowledged_at(acks.drop_first(), i));
        lemma_answers_shift(
            k.page_unmapped(asid, va, answer),
            asid,
            va + 4096,
            end,
            acked && !k.page_unacknowledged(asid, va, answer),
            acks,
            i + 1,
        );
    }
}

/// A range is unmapped page by page, each page with an answer of its own: the first answer is for
/// the first page and the other answers for the rest.  Every page that was mapped must have been
/// answered by each other processor that may translate it, or the whole is not acknowledged.
pub proof fn law_each_page_has_its_answer(
    k: Kernel,
    asid: Asid,
    va: int,
    end: int,
    acked: bool,
    acks: Seq<usize>,
)
    requires
        acks.len() > 0,
    ensures
        va >= end ==> k.range_unmapped(asid, va, end, acked, acks, 0) == (k, acked),
        va < end ==> k.range_unmapped(asid, va, end, acked, acks, 0) == k.page_unmapped(
            asid,
            va,
            acks[0],
        ).range_unmapped(
            asid,
            va + 4096,
            end,
            acked && (acks[0] == k.remote_holders(asid, 8) || k.remote_holders(asid, 8) == 0 || !(
            k.vm.map_verdict(asid, VirtAddr(va as u64)) matches Ok(Some(_)))),
            acks.drop_first(),
            0,
        ),
{
    if va < end {
        lemma_answers_shift(
            k.page_unmapped(asid, va, acks[0]),
            asid,
            va + 4096,
            end,
            acked && !k.page_unacknowledged(asid, va, acks[0]),
            acks,
            0,
        );
    }
}

/// A range ends where its length reaches, and at the last address where that is beyond it.
pub proof fn law_range_ends_within_the_addresses(k: Kernel, base: usize, len: usize)
    ensures
        k.range_end(base, len) <= usize::MAX,
        base <= k.range_end(base, len) <= base + len,
        k.range_end(base, len) == base + len || k.range_end(base, len) == usize::MAX,
{
}

} // verus!
