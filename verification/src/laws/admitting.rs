//! What is let in: tasks into the table, work into the lists, processors and nodes into use.
use vstd::prelude::*;

use crate::capability::{
    Caps, CnodeRecord, ControlPlaneCnodePlan, ProcessCnode, RuntimeCapacityConfig,
};
use crate::deferred::{CpuItem, Pending, WorkItem};
use crate::ids::{CNodeId, CpuId, KernelError, SchedulerError};
use crate::kernel::Kernel;
use crate::scheduler::{CpuSlot, RunEntry, Sched, TaskPriority};
use crate::seqs;
use crate::task::{TaskClass, TaskStatus, Tasks, ThreadControlBlock};

verus! {

/// The places at which `s` satisfies `p`.
pub open spec fn places<T>(s: Seq<T>, p: spec_fn(T) -> bool) -> Set<int> {
    Set::new(|i: int| 0 <= i < s.len() && p(s[i]))
}

/// A count is the number of places.
pub proof fn law_count_is_how_many<T>(s: Seq<T>, p: spec_fn(T) -> bool)
    ensures
        places(s, p).finite(),
        seqs::count_where(s, p) == places(s, p).len(),
    decreases s.len(),
{
    if s.len() == 0 {
        assert(places(s, p) =~= Set::empty());
    } else {
        let init = s.drop_last();
        law_count_is_how_many(init, p);
        if p(s.last()) {
            assert(places(s, p) =~= places(init, p).insert(s.len() - 1));
            assert(!places(init, p).contains(s.len() - 1));
        } else {
            assert(places(s, p) =~= places(init, p));
        }
    }
}

/// A processor is counted online, or present, exactly when it is.
pub proof fn law_processors_are_counted(s: Sched)
    ensures
        seqs::count_where(s.cpus, crate::scheduler::is_online()) == places(
            s.cpus,
            |c: CpuSlot| c.online,
        ).len(),
        seqs::count_where(s.cpus, crate::scheduler::is_present()) == places(
            s.cpus,
            |c: CpuSlot| c.present,
        ).len(),
{
    law_count_is_how_many(s.cpus, crate::scheduler::is_online());
    law_count_is_how_many(s.cpus, crate::scheduler::is_present());
    assert(places(s.cpus, crate::scheduler::is_online()) =~= places(
        s.cpus,
        |c: CpuSlot| c.online,
    ));
    assert(places(s.cpus, crate::scheduler::is_present()) =~= places(
        s.cpus,
        |c: CpuSlot| c.present,
    ));
}

/// As many tasks owe a reply as have a link to one.
pub proof fn law_debtors_are_counted(tasks: Tasks)
    ensures
        seqs::count_where(tasks.tcbs, crate::runtime::reads::owes_reply()) == places(
            tasks.tcbs,
            |t: Option<ThreadControlBlock>| t is Some && t->0.server_reply_link is Some,
        ).len(),
{
    law_count_is_how_many(tasks.tcbs, crate::runtime::reads::owes_reply());
    assert(places(tasks.tcbs, crate::runtime::reads::owes_reply()) =~= places(
        tasks.tcbs,
        |t: Option<ThreadControlBlock>| t is Some && t->0.server_reply_link is Some,
    ));
}

/// A process without a node of its own number gets one with sixteen slots, and is led to the node
/// of its number where it was led to none; nothing that was there changes.
pub proof fn law_process_is_given_a_node(caps: Caps, pid: u64)
    ensures
        ({
            let after = caps.provided(pid);
            let has_node = exists|i: int|
                0 <= i < caps.cnodes.len() && (#[trigger] caps.cnodes[i]).cnode.0 == pid;
            let is_led = exists|i: int|
                0 <= i < caps.process_cnodes.len() && (#[trigger] caps.process_cnodes[i]).pid
                    == pid;
            &&& after.cnodes == if has_node {
                caps.cnodes
            } else {
                caps.cnodes.push(CnodeRecord { cnode: CNodeId(pid), slots: 16 })
            }
            &&& after.process_cnodes == if is_led {
                caps.process_cnodes
            } else {
                caps.process_cnodes.push(ProcessCnode { pid, cnode: CNodeId(pid) })
            }
            &&& after.entries == caps.entries
            &&& after.links == caps.links
        }),
{
    lemma_node_is_there(caps, pid);
}

proof fn lemma_node_is_there(caps: Caps, pid: u64)
    ensures
        caps.slots_of(CNodeId(pid)) is Some <==> exists|i: int|
            0 <= i < caps.cnodes.len() && (#[trigger] caps.cnodes[i]).cnode.0 == pid,
        caps.cnode_of(pid) is Some <==> exists|i: int|
            0 <= i < caps.process_cnodes.len() && (#[trigger] caps.process_cnodes[i]).pid == pid,
{
    let p = crate::capability::of_cnode(CNodeId(pid));
    let q = crate::capability::of_process(pid);
    seqs::lemma_first_where(caps.cnodes, p);
    seqs::lemma_first_where(caps.process_cnodes, q);
    if exists|i: int| 0 <= i < caps.cnodes.len() && (#[trigger] caps.cnodes[i]).cnode.0 == pid {
        let i = choose|i: int|
            0 <= i < caps.cnodes.len() && (#[trigger] caps.cnodes[i]).cnode.0 == pid;
        assert(p(caps.cnodes[i]));
    }
    if exists|i: int|
        0 <= i < caps.process_cnodes.len() && (#[trigger] caps.process_cnodes[i]).pid == pid {
        let i = choose|i: int|
            0 <= i < caps.process_cnodes.len() && (#[trigger] caps.process_cnodes[i]).pid == pid;
        assert(q(caps.process_cnodes[i]));
    }
}

/// A node has the slots, and a process the node, that its first record says.
pub proof fn law_first_record_counts(caps: Caps, i: int)
    ensures
        0 <= i < caps.cnodes.len() && (forall|j: int|
            0 <= j < i ==> (#[trigger] caps.cnodes[j]).cnode != caps.cnodes[i].cnode)
            ==> caps.slots_of(caps.cnodes[i].cnode) == Some(caps.cnodes[i].slots),
        0 <= i < caps.process_cnodes.len() && (forall|j: int|
            0 <= j < i ==> (#[trigger] caps.process_cnodes[j]).pid != caps.process_cnodes[i].pid)
            ==> caps.cnode_of(caps.process_cnodes[i].pid) == Some(caps.process_cnodes[i].cnode),
        0 <= i < caps.entries.len() && (forall|j: int|
            0 <= j < i ==> (#[trigger] caps.entries[j]).cnode != caps.entries[i].cnode
                || caps.entries[j].cap != caps.entries[i].cap) ==> caps.resolve(
            caps.entries[i].cnode,
            caps.entries[i].cap,
        ) == Some(caps.entries[i].capability),
{
    if 0 <= i < caps.cnodes.len() && (forall|j: int|
        0 <= j < i ==> (#[trigger] caps.cnodes[j]).cnode != caps.cnodes[i].cnode) {
        seqs::lemma_first_where_is(
            caps.cnodes,
            crate::capability::of_cnode(caps.cnodes[i].cnode),
            i,
        );
    }
    if 0 <= i < caps.process_cnodes.len() && (forall|j: int|
        0 <= j < i ==> (#[trigger] caps.process_cnodes[j]).pid != caps.process_cnodes[i].pid) {
        seqs::lemma_first_where_is(
            caps.process_cnodes,
            crate::capability::of_process(caps.process_cnodes[i].pid),
            i,
        );
    }
    if 0 <= i < caps.entries.len() && (forall|j: int|
        0 <= j < i ==> (#[trigger] caps.entries[j]).cnode != caps.entries[i].cnode
            || caps.entries[j].cap != caps.entries[i].cap) {
        seqs::lemma_first_where_is(
            caps.entries,
            crate::capability::in_slot(caps.entries[i].cnode, caps.entries[i].cap),
            i,
        );
    }
}

/// A new task takes the first free slot of the table: it leads its own group, is runnable, has the
/// class it was registered with, no address space, no home and nothing that waits for it.  It is
/// refused where the number is taken or the table full, and then nothing changes.
pub proof fn law_new_task_is_registered(k: Kernel, tid: u64, class: TaskClass, i: int)
    requires
        0 <= i <= k.tasks.tcbs.len(),
        forall|j: int| 0 <= j < i ==> (#[trigger] k.tasks.tcbs[j]) is Some,
        i < k.tasks.tcbs.len() ==> k.tasks.tcbs[i] is None,
    ensures
        ({
            let taken = exists|j: int|
                0 <= j < k.tasks.tcbs.len() && (#[trigger] k.tasks.tcbs[j]) is Some
                    && k.tasks.tcbs[j]->0.tid.0 == tid;
            let after = k.after_register(tid, class);
            &&& k.register_verdict(tid) == if taken {
                Err::<(), KernelError>(KernelError::WrongObject)
            } else if i == k.tasks.tcbs.len() {
                Err(KernelError::TaskTableFull)
            } else {
                Ok(())
            }
            &&& k.register_verdict(tid) is Err ==> after == k
            &&& k.register_verdict(tid) is Ok ==> {
                &&& after.tasks.tcbs.len() == k.tasks.tcbs.len()
                &&& after.tasks.tls_pending == k.tasks.tls_pending
                &&& forall|j: int|
                    0 <= j < k.tasks.tcbs.len() && j != i ==> #[trigger] after.tasks.tcbs[j]
                        == k.tasks.tcbs[j]
                &&& after.tasks.tcbs[i] is Some
                &&& ({
                    let t = after.tasks.tcbs[i]->0;
                    &&& t.tid.0 == tid
                    &&& t.thread_group_id == t.tid
                    &&& t.status == TaskStatus::Runnable
                    &&& t.class == Some(class)
                    &&& t.asid is None
                    &&& t.cpu_affinity is None
                    &&& !t.spawn_reservation
                    &&& t.tls_ptr is None
                    &&& t.ipc_timeout_deadline is None
                    &&& !t.ipc_timeout_fired
                    &&& t.reply_timeout_token is None
                    &&& t.blocked_send_generation == 0
                    &&& t.blocked_recv_generation == 0
                    &&& t.pending_syscall_completion is None
                    &&& t.blocked_recv_state is None
                    &&& t.server_reply_link is None
                    &&& t.async_preempt is None
                    &&& !t.kernel_context.initialized
                })
                &&& after == (Kernel { tasks: after.tasks, caps: k.caps.provided(tid), ..k })
            }
        }),
{
    let p = crate::task::has_tid(tid);
    seqs::lemma_first_where(k.tasks.tcbs, p);
    seqs::lemma_first_where_is(k.tasks.tcbs, crate::kernel::slot_free(), i);
    if exists|j: int|
        0 <= j < k.tasks.tcbs.len() && (#[trigger] k.tasks.tcbs[j]) is Some
            && k.tasks.tcbs[j]->0.tid.0 == tid {
        let j = choose|j: int|
            0 <= j < k.tasks.tcbs.len() && (#[trigger] k.tasks.tcbs[j]) is Some
                && k.tasks.tcbs[j]->0.tid.0 == tid;
        assert(p(k.tasks.tcbs[j]));
    }
    let f = seqs::first_where(k.tasks.tcbs, p);
    if f < k.tasks.tcbs.len() {
        assert(k.tasks.tcbs[f] is Some);
    }
}

/// The items in the list of `cpu`.
pub open spec fn listed<T>(items: Seq<CpuItem<T>>, cpu: CpuId) -> Set<int> {
    Set::new(|i: int| 0 <= i < items.len() && items[i].cpu == cpu)
}

/// A list takes an item exactly while it holds fewer than its limit; the item goes to the end.
/// The oldest item is the first of its processor, and taking it leaves the rest in order.
pub proof fn law_lists_are_first_in_first_out<T>(
    items: Seq<CpuItem<T>>,
    cpu: CpuId,
    item: T,
    limit: usize,
    i: int,
)
    ensures
        listed(items, cpu).finite(),
        crate::deferred::has_room(items, cpu, limit) <==> listed(items, cpu).len() < limit,
        crate::deferred::offered(items, cpu, item, limit) == if listed(items, cpu).len() < limit {
            items.push(CpuItem { cpu, item })
        } else {
            items
        },
        0 <= i < items.len() && items[i].cpu == cpu && (forall|j: int|
            0 <= j < i ==> (#[trigger] items[j]).cpu != cpu) ==> crate::deferred::oldest(
            items,
            cpu,
        ) == Some(items[i].item) && crate::deferred::oldest_taken(items, cpu) == items.remove(i),
        (forall|j: int| 0 <= j < items.len() ==> (#[trigger] items[j]).cpu != cpu)
            ==> crate::deferred::oldest(items, cpu) is None && crate::deferred::oldest_taken(
            items,
            cpu,
        ) == items,
{
    let p = crate::deferred::listed_for::<T>(cpu);
    law_count_is_how_many(items, p);
    assert(places(items, p) =~= listed(items, cpu));
    if 0 <= i < items.len() && items[i].cpu == cpu && (forall|j: int|
        0 <= j < i ==> (#[trigger] items[j]).cpu != cpu) {
        seqs::lemma_first_where_is(items, p, i);
    }
    if forall|j: int| 0 <= j < items.len() ==> (#[trigger] items[j]).cpu != cpu {
        seqs::lemma_first_where_is(items, p, items.len() as int);
    }
}

/// Work is handed to a processor exactly where it is online and fewer than 64 items wait there; it
/// then waits behind them, and nothing else changes.
pub proof fn law_work_is_handed_over(k: Kernel, cpu: CpuId, item: WorkItem)
    ensures
        ({
            let c = cpu.0 as int;
            let verdict = k.submit_verdict(cpu);
            &&& verdict is Ok <==> c < k.sched.cpus.len() && k.sched.cpus[c].online && listed(
                k.pending.work,
                cpu,
            ).len() < 64
            &&& c >= k.sched.cpus.len() ==> verdict == Err::<(), KernelError>(
                KernelError::Scheduler(SchedulerError::InvalidCpu),
            )
            &&& c < k.sched.cpus.len() && !k.sched.cpus[c].online ==> verdict == Err::<
                (),
                KernelError,
            >(KernelError::Scheduler(SchedulerError::CpuOffline))
            &&& k.after_submit(cpu, item) == if verdict is Ok {
                Kernel {
                    pending: Pending {
                        work: k.pending.work.push(CpuItem { cpu, item }),
                        ..k.pending
                    },
                    ..k
                }
            } else {
                k
            }
        }),
{
    law_lists_are_first_in_first_out(k.pending.work, cpu, item, 64, 0);
}

/// The priority that the task in slot `i` is queued with, if it may be queued at all.
pub open spec fn may_queue(tcb: ThreadControlBlock) -> bool {
    !tcb.spawn_reservation && (tcb.tid.0 == 0 || tcb.class is Some)
}

/// A task is queued by its class: a system server with high priority and any other, like the idle
/// task, with normal priority.  A spawn reservation, and a task without a class, are not queued.
pub proof fn law_task_is_queued_by_its_class(k: Kernel, cpu: CpuId, i: int)
    requires
        k.tasks.apart(),
        0 <= i < k.tasks.tcbs.len(),
        k.tasks.tcbs[i] is Some,
    ensures
        ({
            let tcb = k.tasks.tcbs[i]->0;
            let tid = tcb.tid.0;
            let joins = may_queue(tcb) && crate::laws::waking::may_join(k.sched, cpu, tid);
            let priority = if tid != 0 && tcb.class == Some(TaskClass::SystemServer) {
                TaskPriority::High
            } else {
                TaskPriority::Normal
            };
            &&& k.enqueue_verdict(cpu, tid) is Ok <==> joins
            &&& k.enqueued(cpu, tid) == if joins {
                Kernel {
                    sched: Sched {
                        queue: k.sched.queue.push(RunEntry { cpu, tid, priority }),
                        ..k.sched
                    },
                    ..k
                }
            } else {
                k
            }
        }),
{
    let tcb = k.tasks.tcbs[i]->0;
    crate::laws::slots::law_task_is_found_where_it_stands(k.tasks, i);
    crate::laws::waking::law_enqueue_is_exact(k.sched, cpu, tcb.tid.0, TaskPriority::Normal);
    crate::laws::waking::law_enqueue_is_exact(k.sched, cpu, tcb.tid.0, TaskPriority::High);
}

/// One item of work: a wake makes a task that takes part in scheduling runnable and queues it on
/// the processor that does the work; a task that is over, and a reschedule, change nothing.
pub proof fn law_work_wakes_the_task(k: Kernel, cpu: CpuId, i: int)
    requires
        k.tasks.apart(),
        0 <= i < k.tasks.tcbs.len(),
        k.tasks.tcbs[i] is Some,
    ensures
        ({
            let tcb = k.tasks.tcbs[i]->0;
            let after = k.worked(cpu, WorkItem::WakeTask { tid: tcb.tid });
            let woken = Tasks {
                tcbs: k.tasks.tcbs.update(
                    i,
                    Some(ThreadControlBlock { status: TaskStatus::Runnable, ..tcb }),
                ),
                ..k.tasks
            };
            let joins = may_queue(tcb) && crate::laws::waking::may_join(
                k.sched,
                cpu,
                tcb.tid.0,
            );
            &&& k.worked(cpu, WorkItem::Reschedule) == k
            &&& !crate::laws::waking::takes_part(tcb.status) ==> after == k
            &&& crate::laws::waking::takes_part(tcb.status) ==> after == (Kernel {
                tasks: woken,
                sched: if joins {
                    Sched {
                        queue: k.sched.queue.push(
                            RunEntry {
                                cpu,
                                tid: tcb.tid.0,
                                priority: if tcb.tid.0 != 0 && tcb.class == Some(
                                    TaskClass::SystemServer,
                                ) {
                                    TaskPriority::High
                                } else {
                                    TaskPriority::Normal
                                },
                            },
                        ),
                        ..k.sched
                    }
                } else {
                    k.sched
                },
                ..k
            })
        }),
{
    let tcb = k.tasks.tcbs[i]->0;
    let told = ThreadControlBlock { status: TaskStatus::Runnable, ..tcb };
    crate::laws::slots::law_task_is_found_where_it_stands(k.tasks, i);
    crate::laws::slots::lemma_with_keeps_apart(k.tasks, i, told);
    let runnable = Kernel { tasks: k.tasks.with(i, told), ..k };
    law_task_is_queued_by_its_class(runnable, cpu, i);
}

/// Doing all the work of a processor does the oldest item first and then the rest; nothing is left
/// where nothing waits.
pub proof fn law_work_is_done_oldest_first(k: Kernel, cpu: CpuId, n: nat, i: int)
    requires
        0 <= i < k.pending.work.len(),
        k.pending.work[i].cpu == cpu,
        forall|j: int| 0 <= j < i ==> (#[trigger] k.pending.work[j]).cpu != cpu,
    ensures
        k.work_for(cpu) == listed(k.pending.work, cpu).len(),
        k.worked_off(cpu, n + 1) == (Kernel {
            pending: Pending { work: k.pending.work.remove(i), ..k.pending },
            ..k
        }).worked(cpu, k.pending.work[i].item).worked_off(cpu, n),
        k.worked_off(cpu, 0) == k,
{
    let item = k.pending.work[i].item;
    law_lists_are_first_in_first_out(k.pending.work, cpu, item, 64, i);
    let p = crate::deferred::listed_for::<WorkItem>(cpu);
    law_count_is_how_many(k.pending.work, p);
    assert(places(k.pending.work, p) =~= listed(k.pending.work, cpu));
}

/// A processor that is brought up is present and online with nothing current on it; one that is
/// online already, and one that there is no slot for, stay as they are.
pub proof fn law_processor_is_brought_up(s: Sched, cpu: CpuId)
    ensures
        ({
            let c = cpu.0 as int;
            let after = s.brought_up(cpu);
            &&& s.known(cpu) <==> c < s.cpus.len()
            &&& c >= s.cpus.len() || s.cpus[c].online ==> after == s
            &&& c < s.cpus.len() && !s.cpus[c].online ==> after == (Sched {
                cpus: s.cpus.update(
                    c,
                    CpuSlot { present: true, online: true, current: None, ..s.cpus[c] },
                ),
                ..s
            })
        }),
{
}

/// A yield puts the running task behind the others and lets whoever is next run: the task that
/// gave way is runnable again, and the one that was taken runs.
pub proof fn law_yield_gives_way(k: Kernel, i: int, j: int, n: int)
    requires
        k.tasks.apart(),
        (k.sched.current_cpu.0 as int) < k.sched.cpus.len(),
        k.sched.cpus[k.sched.current_cpu.0 as int].online,
        crate::laws::waking::places_for(k.sched.queue, k.sched.current_cpu).len() < 64,
        0 <= i < k.tasks.tcbs.len(),
        k.tasks.tcbs[i] is Some,
        k.tasks.tcbs[i]->0.status == TaskStatus::Running,
        k.sched.cpus[k.sched.current_cpu.0 as int].current == Some(k.tasks.tcbs[i]->0.tid.0),
        0 <= j < k.tasks.tcbs.len(),
        j != i,
        k.tasks.tcbs[j] is Some,
        k.tasks.tcbs[j]->0.status == TaskStatus::Runnable,
        ({
            let back = k.sched.reenqueued(k.sched.current_cpu);
            &&& crate::laws::placing::is_next(back, k.sched.current_cpu, n)
            &&& back.queue[n].tid == k.tasks.tcbs[j]->0.tid.0
        }),
    ensures
        ({
            let cpu = k.sched.current_cpu;
            let after = k.yielded();
            &&& k.sched.can_reenqueue(cpu)
            &&& after.sched == crate::laws::placing::running_entry(
                k.sched.reenqueued(cpu),
                cpu,
                n,
            )
            &&& after.tasks == (Tasks {
                tcbs: k.tasks.tcbs.update(
                    i,
                    Some(
                        ThreadControlBlock {
                            status: TaskStatus::Runnable,
                            ..k.tasks.tcbs[i]->0
                        },
                    ),
                ).update(
                    j,
                    Some(
                        ThreadControlBlock {
                            status: TaskStatus::Running,
                            ..k.tasks.tcbs[j]->0
                        },
                    ),
                ),
                ..k.tasks
            })
            &&& after == (Kernel { sched: after.sched, tasks: after.tasks, ..k })
        }),
{
    let cpu = k.sched.current_cpu;
    let told = ThreadControlBlock { status: TaskStatus::Runnable, ..k.tasks.tcbs[i]->0 };
    crate::laws::waking::law_runnable_counts_entries(k.sched, cpu);
    crate::laws::slots::law_task_is_found_where_it_stands(k.tasks, i);
    crate::laws::slots::lemma_with_keeps_apart(k.tasks, i, told);
    let back = k.put_back(cpu);
    assert(back.tasks.tcbs =~= k.tasks.tcbs.update(i, Some(told)));
    assert(back.tasks == k.tasks.with(i, told));
    crate::laws::slots::law_task_is_found_where_it_stands(back.tasks, j);
    crate::laws::placing::law_reenqueue_is_exact(k.sched, cpu);
    crate::laws::placing::law_dispatch_runs_the_next(back.sched, cpu, n);
}

/// Without a task that can give way nothing is yielded.
pub proof fn law_nobody_yields(k: Kernel)
    requires
        ({
            let c = k.sched.current_cpu.0 as int;
            ||| c >= k.sched.cpus.len()
            ||| !k.sched.cpus[c].online
            ||| k.sched.cpus[c].current is None
            ||| crate::laws::waking::places_for(k.sched.queue, k.sched.current_cpu).len() >= 64
        }),
    ensures
        !k.sched.can_reenqueue(k.sched.current_cpu),
        k.yielded() == k,
{
    crate::laws::waking::law_runnable_counts_entries(k.sched, k.sched.current_cpu);
}

/// A task is given a home, and nothing else about it or any other task changes.
pub proof fn law_task_is_given_a_home(tasks: Tasks, i: int, cpu: CpuId)
    requires
        tasks.apart(),
        0 <= i < tasks.tcbs.len(),
        tasks.tcbs[i] is Some,
    ensures
        tasks.homed(tasks.tcbs[i]->0.tid.0, cpu) == (Tasks {
            tcbs: tasks.tcbs.update(
                i,
                Some(ThreadControlBlock { cpu_affinity: Some(cpu), ..tasks.tcbs[i]->0 }),
            ),
            ..tasks
        }),
{
    crate::laws::slots::law_task_is_found_where_it_stands(tasks, i);
}

/// A node is resized exactly where a system server or the process itself asks, for at least one
/// slot and no more than the limit, with no capability behind the last slot, and where the table
/// has room for a node that is not there yet.
pub proof fn law_node_is_resized(
    caps: Caps,
    plan: ControlPlaneCnodePlan,
    pid: u64,
    slots: usize,
    limits: RuntimeCapacityConfig,
)
    ensures
        ({
            let has_node = exists|i: int|
                0 <= i < caps.cnodes.len() && (#[trigger] caps.cnodes[i]).cnode.0 == pid;
            let is_led = exists|i: int|
                0 <= i < caps.process_cnodes.len() && (#[trigger] caps.process_cnodes[i]).pid
                    == pid;
            let after = caps.resized(pid, slots);
            &&& caps.resize_verdict(plan, pid, slots, limits) is Ok <==> {
                &&& plan.requester_class == TaskClass::SystemServer || plan.requester_pid == pid
                &&& 1 <= slots <= limits.max_cnode_slots
                &&& has_node || caps.cnodes.len() < limits.max_tasks
                &&& forall|i: int|
                    0 <= i < caps.entries.len() && (#[trigger] caps.entries[i]).cnode.0 == pid
                        ==> caps.entries[i].cap.0 <= slots
            }
            &&& !has_node ==> after.cnodes == caps.cnodes.push(
                CnodeRecord { cnode: CNodeId(pid), slots },
            )
            &&& has_node ==> after.cnodes.len() == caps.cnodes.len()
            &&& after.process_cnodes == if is_led {
                caps.process_cnodes
            } else {
                caps.process_cnodes.push(ProcessCnode { pid, cnode: CNodeId(pid) })
            }
            &&& after.entries == caps.entries
            &&& after.links == caps.links
        }),
{
    lemma_node_is_there(caps, pid);
    seqs::lemma_first_where(caps.cnodes, crate::capability::of_cnode(CNodeId(pid)));
    let p = crate::capability::beyond(CNodeId(pid), slots);
    seqs::lemma_first_where(caps.entries, p);
    if seqs::any_where(caps.entries, p) {
        let f = seqs::first_where(caps.entries, p);
        assert(p(caps.entries[f]));
        assert(caps.entries[f].cnode.0 == pid && caps.entries[f].cap.0 > slots);
    } else {
        assert forall|i: int|
            0 <= i < caps.entries.len() && (#[trigger] caps.entries[i]).cnode.0
                == pid implies caps.entries[i].cap.0 <= slots by {
            assert(!(p(caps.entries[i])));
        }
    }
}

/// The processor that an unpinned task goes to decides whether it may be placed; without one the
/// task is refused.
pub proof fn law_unpinned_is_placed(s: Sched, tid: u64, priority: TaskPriority)
    ensures
        match s.balanced_cpu() {
            None => s.balanced_verdict(tid) == Err::<(), SchedulerError>(
                SchedulerError::CpuOffline,
            ) && s.enqueued_balanced(tid, priority) == s,
            Some(cpu) => {
                &&& s.balanced_verdict(tid) is Ok <==> crate::laws::waking::may_join(s, cpu, tid)
                &&& s.enqueued_balanced(tid, priority) == if crate::laws::waking::may_join(
                    s,
                    cpu,
                    tid,
                ) {
                    Sched { queue: s.queue.push(RunEntry { cpu, tid, priority }), ..s }
                } else {
                    s
                }
            },
        },
{
    if let Some(cpu) = s.balanced_cpu() {
        crate::laws::waking::law_enqueue_is_exact(s, cpu, tid, priority);
    }
}

/// A task is present exactly where some processor runs it or some entry names it.
pub proof fn law_task_is_present(s: Sched, tid: u64)
    ensures
        s.present(tid) <==> (exists|c: int|
            0 <= c < s.cpus.len() && (#[trigger] s.cpus[c]).current == Some(tid)) || (exists|
            q: int,
        |
            0 <= q < s.queue.len() && (#[trigger] s.queue[q]).tid == tid),
{
    let p = crate::scheduler::runs_tid(tid);
    let q = crate::scheduler::names_tid(tid);
    seqs::lemma_first_where(s.cpus, p);
    seqs::lemma_first_where(s.queue, q);
    if exists|c: int| 0 <= c < s.cpus.len() && (#[trigger] s.cpus[c]).current == Some(tid) {
        let c = choose|c: int|
            0 <= c < s.cpus.len() && (#[trigger] s.cpus[c]).current == Some(tid);
        assert(p(s.cpus[c]));
    }
    if exists|m: int| 0 <= m < s.queue.len() && (#[trigger] s.queue[m]).tid == tid {
        let m = choose|m: int| 0 <= m < s.queue.len() && (#[trigger] s.queue[m]).tid == tid;
        assert(q(s.queue[m]));
    }
}

} // verus!
