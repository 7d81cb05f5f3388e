//! The scheduler domain: processors, their current tasks and the run queue.
//!
//! Runnable tasks wait in one arrival-ordered queue.  Each entry names the processor
//! it waits for and a priority, so a processor's run queue is the part of the queue
//! that names it.
use vstd::prelude::*;

use crate::ids::{CpuId, SchedulerError, IDLE_TID, MAX_CPUS};
use crate::seqs;

verus! {

/// Tasks that may wait for one processor.
pub const MAX_RUN_QUEUE: usize = 64;

/// Dispatch priority; `High` always goes first.
#[derive(Clone, Copy, Debug, PartialEq, Eq, Structural)]
pub enum TaskPriority {
    High,
    Normal,
}

/// One processor.
#[derive(Clone, Copy, Debug, PartialEq, Eq, Structural)]
pub struct CpuSlot {
    pub present: bool,
    pub online: bool,
    /// An online processor that runs no dispatcher and takes no tasks.
    pub wake_only: bool,
    pub current: Option<u64>,
    pub current_priority: TaskPriority,
}

/// One runnable task that waits for a processor.
#[derive(Clone, Copy, Debug, PartialEq, Eq, Structural)]
pub struct RunEntry {
    pub cpu: CpuId,
    pub tid: u64,
    pub priority: TaskPriority,
}

/// The tick counter and the running task's share of its quantum.
#[derive(Clone, Copy, Debug, PartialEq, Eq, Structural)]
pub struct SchedulerTimer {
    pub ticks: u64,
    pub quantum_used: u64,
}

/// What a dispatch did to the run queue.
#[derive(Clone, Copy, Debug, PartialEq, Eq, Structural)]
pub enum DispatchSelection {
    /// Nothing is current and nothing was runnable.
    Idle,
    /// The task left the run queue and became current.
    Dequeued { tid: u64 },
    /// The task was current before and still is.
    ContinuedCurrent { tid: u64 },
}

impl DispatchSelection {
    pub open spec fn spec_tid(self) -> Option<u64> {
        match self {
            DispatchSelection::Idle => None,
            DispatchSelection::Dequeued { tid } => Some(tid),
            DispatchSelection::ContinuedCurrent { tid } => Some(tid),
        }
    }

    /// The selected task, if there is one.
    #[verifier::when_used_as_spec(spec_tid)]
    pub fn tid(self) -> (r: Option<u64>)
        ensures
            r == self.spec_tid(),
    {
        match self {
            DispatchSelection::Idle => None,
            DispatchSelection::Dequeued { tid } => Some(tid),
            DispatchSelection::ContinuedCurrent { tid } => Some(tid),
        }
    }

    pub open spec fn marker_text(self) -> Seq<char> {
        match self {
            DispatchSelection::Idle => "idle"@,
            DispatchSelection::Dequeued { .. } => "dequeued"@,
            DispatchSelection::ContinuedCurrent { .. } => "continued_current"@,
        }
    }

    /// A short stable name.
    pub fn marker(self) -> (r: &'static str)
        ensures
            r@ == self.marker_text(),
    {
        match self {
            DispatchSelection::Idle => "idle",
            DispatchSelection::Dequeued { .. } => "dequeued",
            DispatchSelection::ContinuedCurrent { .. } => "continued_current",
        }
    }
}

/// What an attempt to withdraw a queued task did.
#[derive(Clone, Copy, Debug, PartialEq, Eq, Structural)]
pub enum WithdrawOutcome {
    Removed,
    RefusedCurrent,
    RefusedDuplicate,
    NotQueued,
    InvalidCpu,
}

/// Entries that wait for `cpu`.
pub open spec fn waits_on(cpu: CpuId) -> spec_fn(RunEntry) -> bool {
    |e: RunEntry| e.cpu == cpu
}

/// Entries that wait for `cpu` with the given priority.
pub open spec fn waits_at(cpu: CpuId, priority: TaskPriority) -> spec_fn(RunEntry) -> bool {
    |e: RunEntry| e.cpu == cpu && e.priority == priority
}

/// Entries of `tid` on `cpu`.
pub open spec fn entry_of(cpu: CpuId, tid: u64) -> spec_fn(RunEntry) -> bool {
    |e: RunEntry| e.cpu == cpu && e.tid == tid
}

/// Entries of `tid` on any processor.
pub open spec fn names_tid(tid: u64) -> spec_fn(RunEntry) -> bool {
    |e: RunEntry| e.tid == tid
}

/// Processors on which `tid` is current.
pub open spec fn runs_tid(tid: u64) -> spec_fn(CpuSlot) -> bool {
    |c: CpuSlot| c.current == Some(tid)
}

/// Processors that are online.
pub open spec fn is_online() -> spec_fn(CpuSlot) -> bool {
    |c: CpuSlot| c.online
}

/// Processors that are present.
pub open spec fn is_present() -> spec_fn(CpuSlot) -> bool {
    |c: CpuSlot| c.present
}

/// The state of the scheduler domain.
#[verifier::ext_equal]
pub struct Sched {
    pub cpus: Seq<CpuSlot>,
    pub queue: Seq<RunEntry>,
    pub current_cpu: CpuId,
    pub timer: SchedulerTimer,
}

impl Sched {
    /// Is there a slot for `cpu`?
    pub open spec fn known(self, cpu: CpuId) -> bool {
        (cpu.0 as int) < self.cpus.len()
    }

    /// Is `cpu` online?
    pub open spec fn online(self, cpu: CpuId) -> bool {
        self.known(cpu) && self.cpus[cpu.0 as int].online
    }

    /// Whether work may be done in the name of `cpu`.
    pub open spec fn admits(self, cpu: CpuId) -> Result<(), SchedulerError> {
        if !self.known(cpu) {
            Err(SchedulerError::InvalidCpu)
        } else if !self.cpus[cpu.0 as int].online {
            Err(SchedulerError::CpuOffline)
        } else {
            Ok(())
        }
    }

    /// The task that is current on `cpu`.
    pub open spec fn current_on(self, cpu: CpuId) -> Option<u64> {
        if self.known(cpu) {
            self.cpus[cpu.0 as int].current
        } else {
            None
        }
    }

    /// How many tasks wait for `cpu`.
    pub open spec fn runnable_on(self, cpu: CpuId) -> nat {
        seqs::count_where(self.queue, waits_on(cpu))
    }

    /// Is `tid` current on `cpu` or waiting for it?
    pub open spec fn holds(self, cpu: CpuId, tid: u64) -> bool {
        self.current_on(cpu) == Some(tid) || seqs::any_where(self.queue, entry_of(cpu, tid))
    }

    /// Is `tid` current on, or waiting for, any processor?
    pub open spec fn present(self, tid: u64) -> bool {
        seqs::any_where(self.cpus, runs_tid(tid)) || seqs::any_where(self.queue, names_tid(tid))
    }

    /// Place in the queue of the entry that `cpu` would take next; the queue's length if none.
    pub open spec fn next_on(self, cpu: CpuId) -> int {
        let high = seqs::first_where(self.queue, waits_at(cpu, TaskPriority::High));
        if high < self.queue.len() {
            high
        } else {
            seqs::first_where(self.queue, waits_at(cpu, TaskPriority::Normal))
        }
    }

    /// The state after `tid` became current on `cpu` (or nothing did).
    pub open spec fn with_current(self, cpu: CpuId, tid: Option<u64>, priority: TaskPriority) -> Sched {
        Sched {
            cpus: self.cpus.update(
                cpu.0 as int,
                CpuSlot { current: tid, current_priority: priority, ..self.cpus[cpu.0 as int] },
            ),
            ..self
        }
    }

    /// The state after `cpu` lost its current task.
    pub open spec fn cleared(self, cpu: CpuId) -> Sched {
        self.with_current(cpu, None, self.cpus[cpu.0 as int].current_priority)
    }

    /// The state after `cpu` was brought online with nothing current on it, if it is known and
    /// was not online.
    pub open spec fn brought_up(self, cpu: CpuId) -> Sched {
        if self.known(cpu) && !self.online(cpu) {
            Sched {
                cpus: self.cpus.update(
                    cpu.0 as int,
                    CpuSlot {
                        present: true,
                        online: true,
                        current: None,
                        ..self.cpus[cpu.0 as int]
                    },
                ),
                ..self
            }
        } else {
            self
        }
    }

    /// The state bound to `cpu`.
    pub open spec fn bound(self, cpu: CpuId) -> Sched {
        Sched { current_cpu: cpu, ..self }
    }

    /// Whether `tid` may join the run queue of `cpu`.
    pub open spec fn enqueue_verdict(self, cpu: CpuId, tid: u64) -> Result<(), SchedulerError> {
        if !self.known(cpu) {
            Err(SchedulerError::InvalidCpu)
        } else if !self.cpus[cpu.0 as int].online {
            Err(SchedulerError::CpuOffline)
        } else if self.cpus[cpu.0 as int].wake_only {
            Err(SchedulerError::WakeOnly)
        } else if self.holds(cpu, tid) {
            Err(SchedulerError::AlreadyQueued)
        } else if self.runnable_on(cpu) >= MAX_RUN_QUEUE {
            Err(SchedulerError::QueueFull)
        } else {
            Ok(())
        }
    }

    /// The state after an attempt to put `tid` on the run queue of `cpu`.
    pub open spec fn enqueued(self, cpu: CpuId, tid: u64, priority: TaskPriority) -> Sched {
        if self.enqueue_verdict(cpu, tid) is Ok {
            Sched { queue: self.queue.push(RunEntry { cpu, tid, priority }), ..self }
        } else {
            self
        }
    }

    /// May a dispatch on `cpu` take a task from the queue?
    pub open spec fn wants_task(self, cpu: CpuId) -> bool {
        self.online(cpu) && (self.current_on(cpu) is None || self.current_on(cpu) == Some(IDLE_TID))
    }

    /// What a dispatch on `cpu` selects.
    pub open spec fn selection_on(self, cpu: CpuId) -> DispatchSelection {
        if self.wants_task(cpu) && self.next_on(cpu) < self.queue.len() {
            DispatchSelection::Dequeued { tid: self.queue[self.next_on(cpu)].tid }
        } else if self.online(cpu) && self.current_on(cpu) is Some {
            DispatchSelection::ContinuedCurrent { tid: self.current_on(cpu)->0 }
        } else {
            DispatchSelection::Idle
        }
    }

    /// The state after a dispatch on `cpu`.
    pub open spec fn dispatched(self, cpu: CpuId) -> Sched {
        if self.wants_task(cpu) && self.next_on(cpu) < self.queue.len() {
            self.taking(cpu, self.next_on(cpu))
        } else {
            self
        }
    }

    /// The state after queue entry `i` became current on `cpu`.
    pub open spec fn taking(self, cpu: CpuId, i: int) -> Sched {
        Sched {
            queue: self.queue.remove(i),
            ..self.with_current(cpu, Some(self.queue[i].tid), self.queue[i].priority)
        }
    }

    /// May the current task of `cpu` go back to the run queue?
    pub open spec fn can_reenqueue(self, cpu: CpuId) -> bool {
        self.online(cpu) && self.current_on(cpu) is Some && self.runnable_on(cpu) < MAX_RUN_QUEUE
    }

    /// The state after the current task of `cpu` went to the end of the run queue.
    pub open spec fn reenqueued(self, cpu: CpuId) -> Sched {
        if self.current_on(cpu) is Some {
            Sched {
                queue: self.queue.push(
                    RunEntry {
                        cpu,
                        tid: self.current_on(cpu)->0,
                        priority: self.cpus[cpu.0 as int].current_priority,
                    },
                ),
                ..self.cleared(cpu)
            }
        } else {
            self
        }
    }

    /// The state after a preemption of `cpu` that favours `preferred`.
    pub open spec fn preempted_for(self, cpu: CpuId, preferred: u64) -> Sched {
        let back = self.reenqueued(cpu);
        let favoured = seqs::first_where(back.queue, entry_of(cpu, preferred));
        if !self.online(cpu) {
            self
        } else if favoured < back.queue.len() {
            back.taking(cpu, favoured)
        } else {
            back.dispatched(cpu)
        }
    }

    /// What withdrawing `tid` from the run queue of `cpu` comes to.
    pub open spec fn withdraw_verdict(self, cpu: CpuId, tid: u64) -> WithdrawOutcome {
        if !self.known(cpu) {
            WithdrawOutcome::InvalidCpu
        } else if self.current_on(cpu) == Some(tid) {
            WithdrawOutcome::RefusedCurrent
        } else if seqs::count_where(self.queue, entry_of(cpu, tid)) == 0 {
            WithdrawOutcome::NotQueued
        } else if seqs::count_where(self.queue, entry_of(cpu, tid)) > 1 {
            WithdrawOutcome::RefusedDuplicate
        } else {
            WithdrawOutcome::Removed
        }
    }

    /// The state after withdrawing `tid` from the run queue of `cpu`.
    pub open spec fn withdrawn(self, cpu: CpuId, tid: u64) -> Sched {
        if self.withdraw_verdict(cpu, tid) == WithdrawOutcome::Removed {
            Sched { queue: self.queue.remove(seqs::first_where(self.queue, entry_of(cpu, tid))), ..self }
        } else {
            self
        }
    }

    /// Does slot `c` run a dispatcher?
    pub open spec fn dispatches(self, c: int) -> bool {
        self.cpus[c].online && !self.cpus[c].wake_only
    }

    /// Among the first `n` processors, the dispatching one with the fewest waiting tasks.
    pub open spec fn least_loaded(self, n: nat) -> Option<CpuId>
        decreases n,
    {
        if n == 0 {
            None
        } else {
            let best = self.least_loaded((n - 1) as nat);
            let cpu = CpuId((n - 1) as u8);
            if !self.dispatches(n - 1) {
                best
            } else if best is Some && self.runnable_on(best->0) <= self.runnable_on(cpu) {
                best
            } else {
                Some(cpu)
            }
        }
    }

    /// The processor that an unpinned task goes to.
    pub open spec fn balanced_cpu(self) -> Option<CpuId> {
        self.least_loaded(if self.cpus.len() <= MAX_CPUS {
            self.cpus.len()
        } else {
            MAX_CPUS as nat
        })
    }

    /// Whether `tid` may be placed without naming a processor.
    pub open spec fn balanced_verdict(self, tid: u64) -> Result<(), SchedulerError> {
        match self.balanced_cpu() {
            None => Err(SchedulerError::CpuOffline),
            Some(cpu) => self.enqueue_verdict(cpu, tid),
        }
    }

    /// The state after an attempt to place `tid` without naming a processor.
    pub open spec fn enqueued_balanced(self, tid: u64, priority: TaskPriority) -> Sched {
        match self.balanced_cpu() {
            None => self,
            Some(cpu) => self.enqueued(cpu, tid, priority),
        }
    }
}

/// The scheduler domain.
pub struct SchedulerState {
    pub cpus: Vec<CpuSlot>,
    pub queue: Vec<RunEntry>,
    pub current_cpu: CpuId,
    pub timer: SchedulerTimer,
}

impl View for SchedulerState {
    type V = Sched;

    open spec fn view(&self) -> Sched {
        Sched {
            cpus: self.cpus@,
            queue: self.queue@,
            current_cpu: self.current_cpu,
            timer: self.timer,
        }
    }
}

impl SchedulerState {
    /// A machine with one online processor, on which the idle task is current.
    pub fn boot() -> (r: SchedulerState)
        ensures
            r@.cpus.len() == MAX_CPUS,
            r@.queue.len() == 0,
            r@.current_cpu == CpuId(0),
            r@.timer == (SchedulerTimer { ticks: 0, quantum_used: 0 }),
            forall|c: int|
                0 <= c < MAX_CPUS ==> #[trigger] r@.cpus[c] == (CpuSlot {
                    present: c == 0,
                    online: c == 0,
                    wake_only: false,
                    current: if c == 0 {
                        Some(IDLE_TID)
                    } else {
                        None
                    },
                    current_priority: TaskPriority::Normal,
                }),
    {
        let mut cpus: Vec<CpuSlot> = Vec::new();
        let mut c: usize = 0;
        while c < MAX_CPUS
            invariant
                c <= MAX_CPUS,
                cpus@.len() == c,
                forall|j: int|
                    0 <= j < c ==> #[trigger] cpus@[j] == (CpuSlot {
                        present: j == 0,
                        online: j == 0,
                        wake_only: false,
                        current: if j == 0 {
                            Some(IDLE_TID)
                        } else {
                            None
                        },
                        current_priority: TaskPriority::Normal,
                    }),
            decreases MAX_CPUS - c,
        {
            cpus.push(
                CpuSlot {
                    present: c == 0,
                    online: c == 0,
                    wake_only: false,
                    current: if c == 0 {
                        Some(IDLE_TID)
                    } else {
                        None
                    },
                    current_priority: TaskPriority::Normal,
                },
            );
            c += 1;
        }
        SchedulerState {
            cpus,
            queue: Vec::new(),
            current_cpu: CpuId(0),
            timer: SchedulerTimer { ticks: 0, quantum_used: 0 },
        }
    }

    /// Refuses processors that do not exist or are offline.
    pub fn validate_online_cpu(&self, cpu: CpuId) -> (r: Result<(), SchedulerError>)
        ensures
            r == self@.admits(cpu),
    {
        let c: usize = cpu.0 as usize;
        if c >= self.cpus.len() {
            Err(SchedulerError::InvalidCpu)
        } else if !self.cpus[c].online {
            Err(SchedulerError::CpuOffline)
        } else {
            Ok(())
        }
    }

    /// The task that is current on `cpu`.
    pub fn current_tid_on(&self, cpu: CpuId) -> (r: Option<u64>)
        ensures
            r == self@.current_on(cpu),
    {
        let c: usize = cpu.0 as usize;
        if c < self.cpus.len() {
            self.cpus[c].current
        } else {
            None
        }
    }

    fn online(&self, cpu: CpuId) -> (r: bool)
        ensures
            r == self@.online(cpu),
    {
        let c: usize = cpu.0 as usize;
        c < self.cpus.len() && self.cpus[c].online
    }

    /// How many tasks wait for `cpu`.
    pub fn runnable_count_on(&self, cpu: CpuId) -> (r: usize)
        ensures
            r == self@.runnable_on(cpu),
    {
        let mut n: usize = 0;
        let mut i: usize = 0;
        assert(self.queue@.take(0).len() == 0);
        while i < self.queue.len()
            invariant
                i <= self.queue@.len(),
                n <= i,
                n == seqs::count_where(self.queue@.take(i as int), waits_on(cpu)),
            decreases self.queue@.len() - i,
        {
            proof {
                seqs::lemma_count_step(self.queue@, waits_on(cpu), i as int);
            }
            if self.queue[i].cpu == cpu {
                n += 1;
            }
            i += 1;
        }
        assert(self.queue@.take(self.queue@.len() as int) =~= self.queue@);
        n
    }

    /// Place in the queue of the first entry of `tid` on `cpu`.
    fn entry_position(&self, cpu: CpuId, tid: u64) -> (r: usize)
        ensures
            r == seqs::first_where(self.queue@, entry_of(cpu, tid)),
            r <= self.queue@.len(),
    {
        let mut i: usize = 0;
        while i < self.queue.len() && !(self.queue[i].cpu == cpu && self.queue[i].tid == tid)
            invariant
                i <= self.queue@.len(),
                forall|j: int| 0 <= j < i ==> !entry_of(cpu, tid)(#[trigger] self.queue@[j]),
            decreases self.queue@.len() - i,
        {
            i += 1;
        }
        proof {
            seqs::lemma_first_where_is(self.queue@, entry_of(cpu, tid), i as int);
        }
        i
    }

    fn priority_position(&self, cpu: CpuId, priority: TaskPriority) -> (r: usize)
        ensures
            r == seqs::first_where(self.queue@, waits_at(cpu, priority)),
            r <= self.queue@.len(),
    {
        let mut i: usize = 0;
        while i < self.queue.len() && !(self.queue[i].cpu == cpu && self.queue[i].priority
            == priority)
            invariant
                i <= self.queue@.len(),
                forall|j: int| 0 <= j < i ==> !waits_at(cpu, priority)(#[trigger] self.queue@[j]),
            decreases self.queue@.len() - i,
        {
            i += 1;
        }
        proof {
            seqs::lemma_first_where_is(self.queue@, waits_at(cpu, priority), i as int);
        }
        i
    }

    fn next_position(&self, cpu: CpuId) -> (r: usize)
        ensures
            r == self@.next_on(cpu),
            r <= self.queue@.len(),
    {
        let high: usize = self.priority_position(cpu, TaskPriority::High);
        if high < self.queue.len() {
            high
        } else {
            self.priority_position(cpu, TaskPriority::Normal)
        }
    }

    /// Is `tid` current on `cpu` or waiting for it?
    fn holds(&self, cpu: CpuId, tid: u64) -> (r: bool)
        ensures
            r == self@.holds(cpu, tid),
    {
        self.current_tid_on(cpu) == Some(tid) || self.entry_position(cpu, tid) < self.queue.len()
    }

    /// Is `tid` current on, or waiting for, any processor?
    pub fn task_present_anywhere(&self, tid: u64) -> (r: bool)
        ensures
            r == self@.present(tid),
    {
        let mut c: usize = 0;
        while c < self.cpus.len() && self.cpus[c].current != Some(tid)
            invariant
                c <= self.cpus@.len(),
                forall|j: int| 0 <= j < c ==> !runs_tid(tid)(#[trigger] self.cpus@[j]),
            decreases self.cpus@.len() - c,
        {
            c += 1;
        }
        proof {
            seqs::lemma_first_where_is(self.cpus@, runs_tid(tid), c as int);
        }
        if c < self.cpus.len() {
            return true;
        }
        let mut i: usize = 0;
        while i < self.queue.len() && self.queue[i].tid != tid
            invariant
                i <= self.queue@.len(),
                forall|j: int| 0 <= j < i ==> !names_tid(tid)(#[trigger] self.queue@[j]),
            decreases self.queue@.len() - i,
        {
            i += 1;
        }
        proof {
            seqs::lemma_first_where_is(self.queue@, names_tid(tid), i as int);
        }
        i < self.queue.len()
    }

    /// Puts `tid` at the end of the run queue of `cpu`.
    pub fn enqueue_on_with_priority(
        &mut self,
        cpu: CpuId,
        tid: u64,
        priority: TaskPriority,
    ) -> (r: Result<(), SchedulerError>)
        ensures
            r == old(self)@.enqueue_verdict(cpu, tid),
            final(self)@ == old(self)@.enqueued(cpu, tid, priority),
    {
        let c: usize = cpu.0 as usize;
        if c >= self.cpus.len() {
            return Err(SchedulerError::InvalidCpu);
        }
        if !self.cpus[c].online {
            return Err(SchedulerError::CpuOffline);
        }
        if self.cpus[c].wake_only {
            return Err(SchedulerError::WakeOnly);
        }
        if self.holds(cpu, tid) {
            return Err(SchedulerError::AlreadyQueued);
        }
        if self.runnable_count_on(cpu) >= MAX_RUN_QUEUE {
            return Err(SchedulerError::QueueFull);
        }
        self.queue.push(RunEntry { cpu, tid, priority });
        Ok(())
    }

    /// Puts `tid` on the run queue of the least loaded dispatching processor.
    pub fn enqueue_balanced(&mut self, tid: u64, priority: TaskPriority) -> (r: Result<
        (),
        SchedulerError,
    >)
        ensures
            r == old(self)@.balanced_verdict(tid),
            final(self)@ == old(self)@.enqueued_balanced(tid, priority),
    {
        let n: usize = if self.cpus.len() <= MAX_CPUS {
            self.cpus.len()
        } else {
            MAX_CPUS
        };
        let mut best: Option<CpuId> = None;
        let mut c: usize = 0;
        while c < n
            invariant
                c <= n <= self.cpus@.len(),
                n <= MAX_CPUS,
                best == self@.least_loaded(c as nat),
            decreases n - c,
        {
            let slot = self.cpus[c];
            let cpu = CpuId(c as u8);
            if slot.online && !slot.wake_only {
                best = match best {
                    Some(b) => if self.runnable_count_on(b) <= self.runnable_count_on(cpu) {
                        Some(b)
                    } else {
                        Some(cpu)
                    },
                    None => Some(cpu),
                };
            }
            c += 1;
        }
        match best {
            Some(cpu) => self.enqueue_on_with_priority(cpu, tid, priority),
            None => Err(SchedulerError::CpuOffline),
        }
    }

    fn take_entry(&mut self, cpu: CpuId, i: usize)
        requires
            i < old(self).queue@.len(),
            old(self)@.known(cpu),
        ensures
            final(self)@ == old(self)@.taking(cpu, i as int),
    {
        let entry = self.queue.remove(i);
        let c: usize = cpu.0 as usize;
        let slot = self.cpus[c];
        self.cpus[c] = CpuSlot {
            current: Some(entry.tid),
            current_priority: entry.priority,
            ..slot
        };
    }

    /// Dispatches on `cpu` and says what the dispatch did.
    pub fn dispatch_next_selection_on(&mut self, cpu: CpuId) -> (r: DispatchSelection)
        ensures
            r == old(self)@.selection_on(cpu),
            final(self)@ == old(self)@.dispatched(cpu),
    {
        if !self.online(cpu) {
            return DispatchSelection::Idle;
        }
        let current = self.current_tid_on(cpu);
        let idle = match current {
            None => true,
            Some(tid) => tid == IDLE_TID,
        };
        if idle {
            let i: usize = self.next_position(cpu);
            if i < self.queue.len() {
                let tid: u64 = self.queue[i].tid;
                self.take_entry(cpu, i);
                return DispatchSelection::Dequeued { tid };
            }
        }
        match current {
            Some(tid) => DispatchSelection::ContinuedCurrent { tid },
            None => DispatchSelection::Idle,
        }
    }

    /// Dispatches on `cpu` and returns the task that is now current.
    pub fn dispatch_next_on(&mut self, cpu: CpuId) -> (r: Option<u64>)
        ensures
            r == old(self)@.selection_on(cpu).spec_tid(),
            final(self)@ == old(self)@.dispatched(cpu),
    {
        let selection = self.dispatch_next_selection_on(cpu);
        selection.tid()
    }

    /// The task that a dispatch on `cpu` would take from the queue; changes nothing.
    pub fn peek_next_runnable_on(&self, cpu: CpuId) -> (r: Option<u64>)
        ensures
            r == if self@.online(cpu) && self@.next_on(cpu) < self@.queue.len() {
                Some(self@.queue[self@.next_on(cpu)].tid)
            } else {
                None
            },
    {
        if !self.online(cpu) {
            return None;
        }
        let i: usize = self.next_position(cpu);
        if i < self.queue.len() {
            Some(self.queue[i].tid)
        } else {
            None
        }
    }

    /// Takes the current task off `cpu` without queueing it.
    pub fn block_current_on(&mut self, cpu: CpuId) -> (r: Option<u64>)
        ensures
            r == if old(self)@.online(cpu) {
                old(self)@.current_on(cpu)
            } else {
                None
            },
            final(self)@ == if old(self)@.online(cpu) {
                old(self)@.cleared(cpu)
            } else {
                old(self)@
            },
    {
        if !self.online(cpu) {
            return None;
        }
        let c: usize = cpu.0 as usize;
        let slot = self.cpus[c];
        self.cpus[c] = CpuSlot { current: None, ..slot };
        slot.current
    }

    /// Moves the current task of `cpu` to the end of its run queue.
    pub fn preempt_reenqueue_only_on(&mut self, cpu: CpuId) -> (r: Option<u64>)
        ensures
            r == if old(self)@.can_reenqueue(cpu) {
                old(self)@.current_on(cpu)
            } else {
                None
            },
            final(self)@ == if old(self)@.can_reenqueue(cpu) {
                old(self)@.reenqueued(cpu)
            } else {
                old(self)@
            },
    {
        if !self.online(cpu) {
            return None;
        }
        let current = self.current_tid_on(cpu);
        match current {
            None => None,
            Some(tid) => {
                if self.runnable_count_on(cpu) >= MAX_RUN_QUEUE {
                    return None;
                }
                self.push_current(cpu, tid);
                Some(tid)
            },
        }
    }

    fn push_current(&mut self, cpu: CpuId, tid: u64)
        requires
            old(self)@.current_on(cpu) == Some(tid),
        ensures
            final(self)@ == old(self)@.reenqueued(cpu),
    {
        let c: usize = cpu.0 as usize;
        let slot = self.cpus[c];
        self.cpus[c] = CpuSlot { current: None, ..slot };
        self.queue.push(RunEntry { cpu, tid, priority: slot.current_priority });
    }

    /// Preempts `cpu` in favour of `preferred`, or of the next task when that one is not queued.
    pub fn on_preempt_prefer_on(&mut self, cpu: CpuId, preferred: u64) -> (r: Option<u64>)
        ensures
            final(self)@ == old(self)@.preempted_for(cpu, preferred),
            r == if old(self)@.online(cpu) {
                final(self)@.current_on(cpu)
            } else {
                None
            },
    {
        if !self.online(cpu) {
            return None;
        }
        if let Some(tid) = self.current_tid_on(cpu) {
            self.push_current(cpu, tid);
        }
        let i: usize = self.entry_position(cpu, preferred);
        if i < self.queue.len() {
            self.take_entry(cpu, i);
            self.current_tid_on(cpu)
        } else {
            self.dispatch_next_on(cpu)
        }
    }

    /// Removes the one queue entry of `tid` on `cpu`.
    pub fn withdraw_queued_tid_on(&mut self, cpu: CpuId, tid: u64) -> (r: WithdrawOutcome)
        ensures
            r == old(self)@.withdraw_verdict(cpu, tid),
            final(self)@ == old(self)@.withdrawn(cpu, tid),
    {
        let c: usize = cpu.0 as usize;
        if c >= self.cpus.len() {
            return WithdrawOutcome::InvalidCpu;
        }
        if self.current_tid_on(cpu) == Some(tid) {
            return WithdrawOutcome::RefusedCurrent;
        }
        let mut n: usize = 0;
        let mut i: usize = 0;
        assert(self.queue@.take(0).len() == 0);
        while i < self.queue.len()
            invariant
                i <= self.queue@.len(),
                n <= i,
                n == seqs::count_where(self.queue@.take(i as int), entry_of(cpu, tid)),
            decreases self.queue@.len() - i,
        {
            proof {
                seqs::lemma_count_step(self.queue@, entry_of(cpu, tid), i as int);
            }
            if self.queue[i].cpu == cpu && self.queue[i].tid == tid {
                n += 1;
            }
            i += 1;
        }
        assert(self.queue@.take(self.queue@.len() as int) =~= self.queue@);
        if n == 0 {
            return WithdrawOutcome::NotQueued;
        }
        if n > 1 {
            return WithdrawOutcome::RefusedDuplicate;
        }
        let at: usize = self.entry_position(cpu, tid);
        proof {
            crate::seqs::lemma_count_zero(self.queue@, entry_of(cpu, tid));
        }
        let _removed = self.queue.remove(at);
        WithdrawOutcome::Removed
    }

    /// Brings `cpu` online with nothing current on it.
    pub fn bring_up(&mut self, cpu: CpuId) -> (r: Result<(), SchedulerError>)
        ensures
            r == if old(self)@.known(cpu) {
                Ok::<(), SchedulerError>(())
            } else {
                Err(SchedulerError::InvalidCpu)
            },
            final(self)@ == old(self)@.brought_up(cpu),
    {
        let c: usize = cpu.0 as usize;
        if c >= self.cpus.len() {
            return Err(SchedulerError::InvalidCpu);
        }
        let slot = self.cpus[c];
        if !slot.online {
            self.cpus[c] = CpuSlot { present: true, online: true, current: None, ..slot };
        }
        Ok(())
    }

    /// How many processors are online.
    pub fn online_cpu_count(&self) -> (r: usize)
        ensures
            r == seqs::count_where(self@.cpus, is_online()),
    {
        let mut n: usize = 0;
        let mut i: usize = 0;
        assert(self.cpus@.take(0).len() == 0);
        while i < self.cpus.len()
            invariant
                i <= self.cpus@.len(),
                n <= i,
                n == seqs::count_where(self.cpus@.take(i as int), is_online()),
            decreases self.cpus@.len() - i,
        {
            proof {
                seqs::lemma_count_step(self.cpus@, is_online(), i as int);
            }
            if self.cpus[i].online {
                n += 1;
            }
            i += 1;
        }
        assert(self.cpus@.take(self.cpus@.len() as int) =~= self.cpus@);
        n
    }

    /// How many processors are present.
    pub fn present_cpu_count(&self) -> (r: usize)
        ensures
            r == seqs::count_where(self@.cpus, is_present()),
    {
        let mut n: usize = 0;
        let mut i: usize = 0;
        assert(self.cpus@.take(0).len() == 0);
        while i < self.cpus.len()
            invariant
                i <= self.cpus@.len(),
                n <= i,
                n == seqs::count_where(self.cpus@.take(i as int), is_present()),
            decreases self.cpus@.len() - i,
        {
            proof {
                seqs::lemma_count_step(self.cpus@, is_present(), i as int);
            }
            if self.cpus[i].present {
                n += 1;
            }
            i += 1;
        }
        assert(self.cpus@.take(self.cpus@.len() as int) =~= self.cpus@);
        n
    }
}

} // verus!
