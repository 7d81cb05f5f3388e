//! Waiting on, and waking, futex words.
use vstd::prelude::*;

use crate::ids::{CpuId, VirtAddr, KERNEL_SPACE_BASE};
use crate::kernel::Kernel;
use crate::runtime::SharedKernel;
use crate::scheduler::{Sched, SchedulerTimer};
use crate::seqs;
use crate::task::{TaskClass, TaskStatus, Tasks, ThreadControlBlock, WaitReason};

verus! {

/// Most tasks that one wake makes runnable.
pub const FUTEX_WAKE_CAP: usize = 512;

/// A task that a wake made runnable, with its home processor.
#[derive(Clone, Copy, Debug, PartialEq, Eq, Structural)]
pub struct WokenTask {
    pub tid: u64,
    pub affinity: Option<CpuId>,
}

/// Slots whose task waits on the futex word at `addr`.
pub open spec fn waits_on_word(addr: u64) -> spec_fn(Option<ThreadControlBlock>) -> bool {
    |slot: Option<ThreadControlBlock>|
        slot is Some && slot->0.status == TaskStatus::Blocked(WaitReason::Futex(VirtAddr(addr)))
}

/// How many tasks a wake of `max_wake` may make runnable.
pub open spec fn wake_limit(max_wake: u32) -> nat {
    if max_wake <= FUTEX_WAKE_CAP {
        max_wake as nat
    } else {
        FUTEX_WAKE_CAP as nat
    }
}

impl Tasks {
    /// The tasks among the first `n` slots that a wake makes runnable, in slot order.
    pub open spec fn futex_woken(self, addr: u64, limit: nat, n: int) -> Seq<WokenTask>
        decreases n,
    {
        if n <= 0 {
            Seq::empty()
        } else {
            let before = self.futex_woken(addr, limit, n - 1);
            if before.len() < limit && waits_on_word(addr)(self.tcbs[n - 1]) {
                let tcb = self.tcbs[n - 1]->0;
                before.push(WokenTask { tid: tcb.tid.0, affinity: tcb.cpu_affinity })
            } else {
                before
            }
        }
    }

    /// The state after a wake: the first waiting tasks are runnable.
    pub open spec fn futex_scanned(self, addr: u64, limit: nat) -> Tasks {
        Tasks {
            tcbs: Seq::new(
                self.tcbs.len(),
                |i: int|
                    if waits_on_word(addr)(self.tcbs[i]) && self.futex_woken(addr, limit, i).len()
                        < limit {
                        Some(
                            ThreadControlBlock {
                                status: TaskStatus::Runnable,
                                ..self.tcbs[i]->0
                            },
                        )
                    } else {
                        self.tcbs[i]
                    },
            ),
            ..self
        }
    }

    /// Number of tasks that wait on the futex word at `addr`.
    pub open spec fn futex_waiters(self, addr: u64) -> nat {
        seqs::count_where(self.tcbs, waits_on_word(addr))
    }
}

impl Kernel {
    /// Does a wake from `cpu` give the woken task a home?
    pub open spec fn gets_home(self, woken: WokenTask) -> bool {
        self.tasks.class_of(woken.tid) == Some(TaskClass::Driver) && woken.affinity is None
    }

    /// The home of a woken task when it is queued.
    pub open spec fn woken_home(self, cpu: CpuId, woken: WokenTask) -> Option<CpuId> {
        if self.gets_home(woken) {
            match self.tasks.affinity_of(woken.tid) {
                Some(home) => Some(home),
                None => Some(cpu),
            }
        } else {
            woken.affinity
        }
    }

    /// The state after one woken task was queued: a driver without a home gets one, a task
    /// with a home goes there, and any other goes where the least work waits.
    pub open spec fn woken_queued(self, cpu: CpuId, woken: WokenTask) -> Kernel {
        let priority = self.tasks.wake_priority(woken.tid);
        Kernel {
            tasks: if self.gets_home(woken) {
                self.tasks.with_task(
                    woken.tid,
                    ThreadControlBlock {
                        cpu_affinity: self.woken_home(cpu, woken),
                        ..self.tasks.find(woken.tid)->0
                    },
                )
            } else {
                self.tasks
            },
            sched: match self.woken_home(cpu, woken) {
                Some(home) => self.sched.enqueued(home, woken.tid, priority),
                None => self.sched.enqueued_balanced(woken.tid, priority),
            },
            ..self
        }
    }

    /// The state after the first `n` of the woken tasks were queued.
    pub open spec fn woken_all_queued(self, cpu: CpuId, woken: Seq<WokenTask>, n: int) -> Kernel
        decreases n,
    {
        if n <= 0 {
            self
        } else {
            self.woken_all_queued(cpu, woken, n - 1).woken_queued(cpu, woken[n - 1])
        }
    }

    /// The tasks that a wake of the word at `addr` makes runnable.
    pub open spec fn futex_wake_list(self, addr: u64, max_wake: u32) -> Seq<WokenTask> {
        self.tasks.futex_woken(addr, wake_limit(max_wake), self.tasks.tcbs.len() as int)
    }

    /// The state after a wake of the word at `addr`.
    pub open spec fn futex_awake(self, cpu: CpuId, addr: u64, max_wake: u32) -> Kernel {
        let list = self.futex_wake_list(addr, max_wake);
        Kernel {
            tasks: self.tasks.futex_scanned(addr, wake_limit(max_wake)),
            ..self
        }.woken_all_queued(cpu, list, list.len() as int)
    }

    /// The state after `tid` blocked on the word at `addr` and left `cpu`.
    pub open spec fn futex_blocked(self, cpu: CpuId, tid: u64, addr: u64) -> Kernel {
        let gone = self.sched.given_up(cpu);
        match self.tasks.find(tid) {
            None => self,
            Some(tcb) => Kernel {
                tasks: self.tasks.with_task(
                    tid,
                    ThreadControlBlock {
                        status: TaskStatus::Blocked(WaitReason::Futex(VirtAddr(addr))),
                        ..tcb
                    },
                ),
                sched: if self.sched.online(cpu) && self.sched.current_on(cpu) is Some {
                    Sched { timer: SchedulerTimer { quantum_used: 0, ..gone.timer }, ..gone }
                } else {
                    gone
                },
                ..self
            },
        }
    }
}

proof fn lemma_futex_woken_count(tasks: Tasks, addr: u64, limit: nat, n: int)
    requires
        0 <= n <= tasks.tcbs.len(),
    ensures
        tasks.futex_woken(addr, limit, n).len() == if seqs::count_where(
            tasks.tcbs.take(n),
            waits_on_word(addr),
        ) <= limit {
            seqs::count_where(tasks.tcbs.take(n), waits_on_word(addr))
        } else {
            limit
        },
    decreases n,
{
    if n > 0 {
        lemma_futex_woken_count(tasks, addr, limit, n - 1);
        seqs::lemma_count_step(tasks.tcbs, waits_on_word(addr), n - 1);
    } else {
        assert(tasks.tcbs.take(0) =~= Seq::<Option<ThreadControlBlock>>::empty());
    }
}

/// A wake makes exactly as many tasks runnable as wait on the word, up to what was asked
/// for and to the most that one wake serves.
pub proof fn law_wake_count(k: Kernel, addr: u64, max_wake: u32)
    ensures
        k.futex_wake_list(addr, max_wake).len() == if k.tasks.futex_waiters(addr) <= wake_limit(
            max_wake,
        ) {
            k.tasks.futex_waiters(addr)
        } else {
            wake_limit(max_wake)
        },
{
    lemma_futex_woken_count(
        k.tasks,
        addr,
        wake_limit(max_wake),
        k.tasks.tcbs.len() as int,
    );
    assert(k.tasks.tcbs.take(k.tasks.tcbs.len() as int) =~= k.tasks.tcbs);
}

proof fn lemma_scan_count(tasks: Tasks, addr: u64, limit: nat, n: int)
    requires
        0 <= n <= tasks.tcbs.len(),
    ensures
        seqs::count_where(tasks.futex_scanned(addr, limit).tcbs.take(n), waits_on_word(addr))
            + tasks.futex_woken(addr, limit, n).len() == seqs::count_where(
            tasks.tcbs.take(n),
            waits_on_word(addr),
        ),
    decreases n,
{
    let after = tasks.futex_scanned(addr, limit);
    if n > 0 {
        lemma_scan_count(tasks, addr, limit, n - 1);
        lemma_futex_woken_count(tasks, addr, limit, n - 1);
        seqs::lemma_count_step(tasks.tcbs, waits_on_word(addr), n - 1);
        seqs::lemma_count_step(after.tcbs, waits_on_word(addr), n - 1);
        assert(!waits_on_word(addr)(
            Some(ThreadControlBlock { status: TaskStatus::Runnable, ..tasks.tcbs[n - 1]->0 }),
        ));
    } else {
        assert(tasks.tcbs.take(0) =~= Seq::<Option<ThreadControlBlock>>::empty());
        assert(after.tcbs.take(0) =~= Seq::<Option<ThreadControlBlock>>::empty());
    }
}

/// No task is woken twice: every task that a wake makes runnable has stopped waiting, so
/// that a further wake finds only those that are left.
pub proof fn law_wake_is_once(k: Kernel, addr: u64, max_wake: u32)
    ensures
        k.tasks.futex_scanned(addr, wake_limit(max_wake)).futex_waiters(addr)
            + k.futex_wake_list(addr, max_wake).len() == k.tasks.futex_waiters(addr),
{
    let limit = wake_limit(max_wake);
    let n = k.tasks.tcbs.len() as int;
    lemma_scan_count(k.tasks, addr, limit, n);
    assert(k.tasks.tcbs.take(n) =~= k.tasks.tcbs);
    assert(k.tasks.futex_scanned(addr, limit).tcbs.take(n) =~= k.tasks.futex_scanned(
        addr,
        limit,
    ).tcbs);
}

/// No wake is lost: once a task has blocked on a word, a wake of that word finds it.
pub proof fn law_block_is_seen_by_wake(k: Kernel, cpu: CpuId, tid: u64, addr: u64, max_wake: u32)
    requires
        k.tasks.find(tid) is Some,
        max_wake > 0,
    ensures
        k.futex_blocked(cpu, tid, addr).tasks.futex_waiters(addr) >= 1,
        k.futex_blocked(cpu, tid, addr).futex_wake_list(addr, max_wake).len() >= 1,
{
    let after = k.futex_blocked(cpu, tid, addr);
    let i = k.tasks.slot(tid);
    seqs::lemma_first_where(k.tasks.tcbs, crate::task::has_tid(tid));
    assert(waits_on_word(addr)(after.tasks.tcbs[i]));
    seqs::lemma_first_where(after.tasks.tcbs, waits_on_word(addr));
    seqs::lemma_count_zero(after.tasks.tcbs, waits_on_word(addr));
    law_wake_count(after, addr, max_wake);
}

impl SharedKernel {
    /// Makes waiting tasks runnable and lists them.
    fn futex_scan(&mut self, addr: u64, limit: usize) -> (r: Vec<WokenTask>)
        ensures
            r@ == old(self)@.tasks.futex_woken(
                addr,
                limit as nat,
                old(self)@.tasks.tcbs.len() as int,
            ),
            final(self)@ == (Kernel {
                tasks: old(self)@.tasks.futex_scanned(addr, limit as nat),
                ..old(self)@
            }),
    {
        let mut woken: Vec<WokenTask> = Vec::new();
        let ghost before = self@;
        let ghost target = before.tasks.futex_scanned(addr, limit as nat);
        let mut i: usize = 0;
        while i < self.state.tasks.tcbs.len()
            invariant
                before == old(self)@,
                target == before.tasks.futex_scanned(addr, limit as nat),
                i <= self@.tasks.tcbs.len(),
                self@.tasks.tcbs.len() == before.tasks.tcbs.len(),
                self@ == (Kernel { tasks: self@.tasks, ..before }),
                self@.tasks.tls_pending == before.tasks.tls_pending,
                woken@ == before.tasks.futex_woken(addr, limit as nat, i as int),
                forall|j: int| 0 <= j < i ==> #[trigger] self@.tasks.tcbs[j] == target.tcbs[j],
                forall|j: int|
                    i <= j < self@.tasks.tcbs.len() ==> #[trigger] self@.tasks.tcbs[j]
                        == before.tasks.tcbs[j],
            decreases self@.tasks.tcbs.len() - i,
        {
            if let Some(tcb) = self.state.tasks.tcbs[i] {
                if woken.len() < limit && tcb.status == TaskStatus::Blocked(
                    WaitReason::Futex(VirtAddr(addr)),
                ) {
                    self.state.tasks.put(
                        i,
                        ThreadControlBlock { status: TaskStatus::Runnable, ..tcb },
                    );
                    woken.push(WokenTask { tid: tcb.tid.0, affinity: tcb.cpu_affinity });
                }
            }
            i += 1;
        }
        assert(self@.tasks =~= target);
        woken
    }

    /// Queues one woken task.
    fn futex_queue(&mut self, cpu: CpuId, woken: WokenTask)
        ensures
            final(self)@ == old(self)@.woken_queued(cpu, woken),
    {
        let class = self.state.tasks.class_of(woken.tid);
        let priority = self.state.tasks.wake_priority(woken.tid);
        let mut affinity = woken.affinity;
        if class == Some(TaskClass::Driver) && affinity.is_none() {
            if let Some((i, tcb)) = self.state.tasks.lookup(woken.tid) {
                let home = match tcb.cpu_affinity {
                    Some(home) => home,
                    None => cpu,
                };
                self.state.tasks.put(i, ThreadControlBlock { cpu_affinity: Some(home), ..tcb });
                affinity = Some(home);
            }
        }
        match affinity {
            Some(home) => {
                let _ = self.state.sched.enqueue_on_with_priority(home, woken.tid, priority);
            },
            None => {
                let _ = self.state.sched.enqueue_balanced(woken.tid, priority);
            },
        }
    }

    /// Wakes up to `max_wake` tasks that wait on the futex word at `addr`, in slot order,
    /// and returns how many.
    pub fn futex_wake_split_mut(&mut self, cpu: CpuId, addr: usize, max_wake: u32) -> (r: u32)
        ensures
            r == old(self)@.futex_wake_list(addr as u64, max_wake).len(),
            final(self)@ == old(self)@.futex_awake(cpu, addr as u64, max_wake),
            r <= max_wake,
    {
        proof {
            law_wake_count(self@, addr as u64, max_wake);
            if max_wake == 0 {
                assert(self@.tasks.futex_scanned(addr as u64, 0).tcbs =~= self@.tasks.tcbs);
            }
        }
        if max_wake == 0 {
            return 0;
        }
        let limit: usize = if max_wake as usize <= FUTEX_WAKE_CAP {
            max_wake as usize
        } else {
            FUTEX_WAKE_CAP
        };
        let woken = self.futex_scan(addr as u64, limit);
        let ghost scanned = self@;
        let mut i: usize = 0;
        while i < woken.len()
            invariant
                i <= woken@.len(),
                self@ == scanned.woken_all_queued(cpu, woken@, i as int),
            decreases woken@.len() - i,
        {
            self.futex_queue(cpu, woken[i]);
            i += 1;
        }
        woken.len() as u32
    }

    /// Whether a wait of `tid` on the word at `addr` blocks; nothing when the word is not
    /// readable user memory.
    pub fn futex_wait_would_block_split_read(
        &self,
        tid: u64,
        addr: usize,
        expected: u32,
        observed: u32,
    ) -> (r: Option<bool>)
        ensures
            r == match self@.tasks.asid_of(tid) {
                Some(asid) if addr != 0 && addr + 3 < KERNEL_SPACE_BASE && addr + 3 <= usize::MAX
                    && asid.0 != 0 && self@.vm.user_range(asid, addr as u64, 4, false) => Some(
                    expected == observed,
                ),
                _ => None,
            },
    {
        if addr == 0 {
            return None;
        }
        let end = match addr.checked_add(3) {
            None => {
                return None;
            },
            Some(end) => end,
        };
        if end as u64 >= KERNEL_SPACE_BASE {
            return None;
        }
        let asid = self.task_asid_for_tid_split_read(tid);
        match self.copy_from_user_asid_split_read(asid, addr, 4) {
            None => None,
            Some(_) => Some(expected == observed),
        }
    }

    /// Blocks `tid` on the word at `addr` and takes the current task off `cpu`; says whether
    /// there is such a task.
    pub fn futex_wait_publish_block_split_mut(&mut self, cpu: CpuId, tid: u64, addr: usize) -> (r:
        bool)
        ensures
            r == (old(self)@.tasks.find(tid) is Some),
            final(self)@ == old(self)@.futex_blocked(cpu, tid, addr as u64),
    {
        match self.state.tasks.lookup(tid) {
            None => false,
            Some((i, tcb)) => {
                self.state.tasks.put(
                    i,
                    ThreadControlBlock {
                        status: TaskStatus::Blocked(WaitReason::Futex(VirtAddr(addr as u64))),
                        ..tcb
                    },
                );
                let blocked = self.state.sched.block_current_on(cpu);
                if blocked.is_some() {
                    self.state.sched.timer.quantum_used = 0;
                }
                true
            },
        }
    }

    /// The number of the address space of `tid`; zero when it has none.
    pub fn task_asid_for_tid_split_read(&self, tid: u64) -> (r: u64)
        ensures
            r == match self@.tasks.asid_of(tid) {
                Some(asid) => asid.0 as u64,
                None => 0,
            },
    {
        match self.state.tasks.asid_of(tid) {
            Some(asid) => asid.0 as u64,
            None => 0,
        }
    }
}

} // verus!
