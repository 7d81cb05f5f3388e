//! Deadlines of blocked operations, and calls whose server ended.
use vstd::prelude::*;

use crate::deferred::{
    CpuItem, Pending, RecvTimeoutPostWork, ReplyTimeoutPostWork, SendTimeoutPostWork,
    ServerDeathPostWork, CT_POST_WORK_SLOTS, IPC_TIMEOUT_SCAN_WINDOW, RT_POST_WORK_SLOTS,
    ST_POST_WORK_SLOTS,
};
use crate::ids::{Asid, CpuId, ThreadId};
use crate::ipc::{
    Ipc, ReceiverWaiterIdentity, ReplyCapRecord, ReplyRecordReservation, ReplySlot, SenderWaiter,
    TerminalCell, TerminalOwner, TokenState,
};
use crate::kernel::Kernel;
use crate::runtime::SharedKernel;
use crate::seqs;
use crate::task::{
    BlockedSyscallClass, BlockedSyscallCompletion, DeadlineHandle, ReplyDeadlineClock, TaskStatus,
    Tasks, TerminalIdentity, ThreadControlBlock, CALL_COMPLETION_SERVER_DIED,
    SEND_COMPLETION_TIMED_OUT,
};

verus! {

/// What the deadline of a call came to.
#[derive(Clone, Copy, Debug, PartialEq, Eq, Structural)]
pub enum ReplyTimeoutOutcome {
    /// The deadline ended the call, and the caller was woken.
    Woken,
    /// The deadline ended the call, but the caller no longer waits.
    CleanupNoWake,
    /// Something else had ended the call.
    LostToTerminal,
    /// The deadline is not armed any more; nothing was changed.
    StaleToken,
}

/// The values of the clocks at one moment.
#[derive(Clone, Copy, Debug, PartialEq, Eq, Structural)]
pub struct Clocks {
    pub production_now: u64,
    pub oracle_now: u64,
    pub send_now: u64,
}

impl Clocks {
    pub open spec fn spec_reply_now(self, clock: ReplyDeadlineClock) -> u64 {
        match clock {
            ReplyDeadlineClock::ProductionTick => self.production_now,
            ReplyDeadlineClock::OracleHardware => self.oracle_now,
        }
    }

    /// The time on the clock that a reply deadline was armed with.
    #[verifier::when_used_as_spec(spec_reply_now)]
    pub fn reply_now(self, clock: ReplyDeadlineClock) -> (r: u64)
        ensures
            r == self.spec_reply_now(clock),
    {
        match clock {
            ReplyDeadlineClock::ProductionTick => self.production_now,
            ReplyDeadlineClock::OracleHardware => self.oracle_now,
        }
    }
}

/// What a scan for due deadlines has found so far.
#[verifier::ext_equal]
pub struct Scan {
    pub reply: Seq<ReplyTimeoutPostWork>,
    pub send: Seq<SendTimeoutPostWork>,
    pub recv: Seq<RecvTimeoutPostWork>,
    /// Tasks looked at.
    pub examined: nat,
    /// Slots passed.
    pub scanned: nat,
}

impl Scan {
    pub open spec fn empty() -> Scan {
        Scan {
            reply: Seq::empty(),
            send: Seq::empty(),
            recv: Seq::empty(),
            examined: 0,
            scanned: 0,
        }
    }

    /// The scan after one task: its deadline, when due, goes to the list of its kind as long as
    /// that has room.
    pub open spec fn with_task(self, tcb: ThreadControlBlock, clocks: Clocks) -> Scan {
        match (tcb.ipc_timeout_deadline, tcb.reply_timeout_token) {
            (None, _) => self,
            (Some(deadline), Some(handle)) => if clocks.spec_reply_now(tcb.reply_timeout_clock)
                >= deadline && self.reply.len() < RT_POST_WORK_SLOTS {
                Scan {
                    reply: self.reply.push(
                        ReplyTimeoutPostWork { handle, deadline, clock: tcb.reply_timeout_clock },
                    ),
                    ..self
                }
            } else {
                self
            },
            (Some(deadline), None) => if clocks.send_now < deadline {
                self
            } else if tcb.status.spec_sending() {
                if self.send.len() < ST_POST_WORK_SLOTS {
                    Scan {
                        send: self.send.push(
                            SendTimeoutPostWork {
                                tid: tcb.tid.0,
                                asid: tcb.asid,
                                send_generation: tcb.blocked_send_generation,
                                deadline,
                            },
                        ),
                        ..self
                    }
                } else {
                    self
                }
            } else if tcb.status.spec_receiving() && self.recv.len() < CT_POST_WORK_SLOTS {
                Scan {
                    recv: self.recv.push(
                        RecvTimeoutPostWork {
                            tid: tcb.tid.0,
                            asid: tcb.asid,
                            wait_generation: tcb.blocked_recv_generation,
                            deadline,
                        },
                    ),
                    ..self
                }
            } else {
                self
            },
        }
    }

    /// The scan after one more slot; a scan that has looked at enough tasks passes no more.
    pub open spec fn with_slot(self, slot: Option<ThreadControlBlock>, clocks: Clocks) -> Scan {
        if self.examined >= IPC_TIMEOUT_SCAN_WINDOW {
            self
        } else {
            match slot {
                None => Scan { scanned: self.scanned + 1, ..self },
                Some(tcb) => Scan {
                    scanned: self.scanned + 1,
                    examined: self.examined + 1,
                    ..self
                }.with_task(tcb, clocks),
            }
        }
    }
}

impl Tasks {
    /// The slot `step` places behind `start`, around the table.
    pub open spec fn around(self, start: int, step: int) -> int {
        if start + step < self.tcbs.len() {
            start + step
        } else {
            start + step - self.tcbs.len()
        }
    }

    /// A scan of `n` slots from `start` on.
    pub open spec fn scan(self, start: int, clocks: Clocks, n: int) -> Scan
        decreases n,
    {
        if n <= 0 {
            Scan::empty()
        } else {
            self.scan(start, clocks, n - 1).with_slot(
                self.tcbs[self.around(start, n - 1)],
                clocks,
            )
        }
    }
}

/// Items of `cpu` for this very deadline.
pub open spec fn same_deadline(cpu: CpuId, handle: DeadlineHandle) -> spec_fn(
    CpuItem<ReplyTimeoutPostWork>,
) -> bool {
    |i: CpuItem<ReplyTimeoutPostWork>| i.cpu == cpu && i.item.handle == handle
}

/// The list after a due reply deadline was published: each deadline is listed once.
pub open spec fn reply_published(
    items: Seq<CpuItem<ReplyTimeoutPostWork>>,
    cpu: CpuId,
    work: ReplyTimeoutPostWork,
) -> Seq<CpuItem<ReplyTimeoutPostWork>> {
    if seqs::any_where(items, same_deadline(cpu, work.handle)) {
        items
    } else {
        crate::deferred::offered(items, cpu, work, RT_POST_WORK_SLOTS)
    }
}

/// The list after the first `n` due reply deadlines were published.
pub open spec fn replies_published(
    items: Seq<CpuItem<ReplyTimeoutPostWork>>,
    cpu: CpuId,
    works: Seq<ReplyTimeoutPostWork>,
    n: int,
) -> Seq<CpuItem<ReplyTimeoutPostWork>>
    decreases n,
{
    if n <= 0 {
        items
    } else {
        reply_published(replies_published(items, cpu, works, n - 1), cpu, works[n - 1])
    }
}

/// The list after the first `n` works were offered.
pub open spec fn all_offered<T>(
    items: Seq<CpuItem<T>>,
    cpu: CpuId,
    works: Seq<T>,
    limit: usize,
    n: int,
) -> Seq<CpuItem<T>>
    decreases n,
{
    if n <= 0 {
        items
    } else {
        crate::deferred::offered(
            all_offered(items, cpu, works, limit, n - 1),
            cpu,
            works[n - 1],
            limit,
        )
    }
}

impl Pending {
    /// Where the next scan of `cpu` starts in a table of `len` slots.
    pub open spec fn scan_start(self, cpu: CpuId, len: int) -> int {
        let c = cpu.0 as int;
        if len > 0 && c < self.cursors.len() {
            self.cursors[c] as int % len
        } else {
            0
        }
    }

    /// The state after a scan of `cpu` was published.
    pub open spec fn scan_published(self, cpu: CpuId, tasks: Tasks, clocks: Clocks) -> Pending {
        let len = tasks.tcbs.len() as int;
        let c = cpu.0 as int;
        let start = self.scan_start(cpu, len);
        let found = tasks.scan(start, clocks, len);
        Pending {
            cursors: if len > 0 && c < self.cursors.len() {
                self.cursors.update(c, tasks.around(start, found.scanned as int) as usize)
            } else {
                self.cursors
            },
            reply: replies_published(self.reply, cpu, found.reply, found.reply.len() as int),
            send: all_offered(
                self.send,
                cpu,
                found.send,
                ST_POST_WORK_SLOTS,
                found.send.len() as int,
            ),
            recv: all_offered(
                self.recv,
                cpu,
                found.recv,
                CT_POST_WORK_SLOTS,
                found.recv.len() as int,
            ),
            ..self
        }
    }
}

impl Ipc {
    /// Is the call that `identity` names still open?
    pub open spec fn call_open(self, identity: TerminalIdentity) -> bool {
        let i = identity.reply_record_index as int;
        &&& self.reply_at(i, identity.reply_record_generation)
        &&& self.replies[i].terminal.epoch != 0
        &&& self.replies[i].terminal.identity == identity
        &&& self.replies[i].terminal.owner is Unclaimed
    }

    /// The state after the call that `identity` names was ended by `owner`: its record cannot be
    /// answered any more.
    pub open spec fn call_ended(self, identity: TerminalIdentity, owner: TerminalOwner) -> Ipc {
        let i = identity.reply_record_index as int;
        let slot = self.replies[i];
        Ipc {
            replies: self.replies.update(
                i,
                ReplySlot {
                    terminal: TerminalCell { owner, ..slot.terminal },
                    record: match slot.record {
                        Some(record) => Some(
                            ReplyCapRecord {
                                reservation: ReplyRecordReservation::Consumed,
                                ..record
                            },
                        ),
                        None => None,
                    },
                    ..slot
                },
            ),
            ..self
        }
    }

    /// Can the deadline that `handle` names fire at `now`?
    pub open spec fn can_fire(self, handle: DeadlineHandle, now: u64) -> bool {
        let i = handle.identity.token_index as int;
        i < self.tokens.len() && self.tokens[i].spec_named_by(handle) && self.tokens[i].state is Armed
            && now >= self.tokens[i].deadline
    }

    /// Can the registration in this place never fire again?
    pub open spec fn token_retired(self, i: int) -> bool {
        0 <= i < self.tokens.len() && self.tokens[i].spec_retired()
    }

    /// The state with every waiting sender `tid` of this block removed.
    pub open spec fn sends_withdrawn(self, tid: u64, send_generation: u64) -> Ipc {
        Ipc {
            senders: Seq::new(
                self.senders.len(),
                |i: int|
                    if sends_as(tid, send_generation)(self.senders[i]) {
                        None
                    } else {
                        self.senders[i]
                    },
            ),
            ..self
        }
    }

    /// The envelope that the waiting sender in place `i` still owes: its handle, its endpoint and
    /// the receiver it was meant for.
    pub open spec fn owed_at(self, i: int) -> Option<(u64, usize, ThreadId)> {
        let e = i / 8;
        match self.senders[i] {
            None => None,
            Some(waiter) => match waiter.msg.spec_transferred_cap() {
                None => None,
                Some(handle) => match self.envelope_at(handle.0) {
                    Some(env) => match env.endpoint {
                        crate::capability::CapObject::Endpoint { index, .. } => if index == e {
                            Some(
                                (
                                    handle.0,
                                    index,
                                    match env.receiver_tid {
                                        Some(receiver) => receiver,
                                        None => waiter.tid,
                                    },
                                ),
                            )
                        } else {
                            None
                        },
                        _ => None,
                    },
                    None => None,
                },
            },
        }
    }

    /// The envelope that the withdrawn sends among the first `n` places owe; the last one counts.
    pub open spec fn owed_by(self, tid: u64, send_generation: u64, n: int) -> Option<
        (u64, usize, ThreadId),
    >
        decreases n,
    {
        if n <= 0 {
            None
        } else if sends_as(tid, send_generation)(self.senders[n - 1]) && self.owed_at(n - 1)
            is Some {
            self.owed_at(n - 1)
        } else {
            self.owed_by(tid, send_generation, n - 1)
        }
    }
}

/// Waiting senders that are this very block of `tid`.
pub open spec fn sends_as(tid: u64, send_generation: u64) -> spec_fn(Option<SenderWaiter>) -> bool {
    |w: Option<SenderWaiter>|
        w is Some && w->0.tid.0 == tid && w->0.send_generation == send_generation
}

/// The incarnation that made a call.
pub open spec fn caller_of(identity: TerminalIdentity) -> ReceiverWaiterIdentity {
    ReceiverWaiterIdentity { tid: identity.caller_tid, asid: identity.caller_asid }
}

/// The control block of a caller whose call ended with `result`.
pub open spec fn answered_tcb(tcb: ThreadControlBlock, result: u64, fired: bool) -> ThreadControlBlock {
    ThreadControlBlock {
        status: TaskStatus::Runnable,
        ipc_timeout_deadline: None,
        ipc_timeout_fired: fired,
        reply_timeout_token: None,
        pending_syscall_completion: Some(
            BlockedSyscallCompletion {
                syscall_class: BlockedSyscallClass::IpcRecv,
                result,
                tid: tcb.tid.0,
                asid: tcb.asid->0,
                blocked_generation: tcb.blocked_recv_generation,
            },
        ),
        ..tcb
    }
}

/// Is `tcb` still blocked in the send that `work` names, with this deadline, and is it due?
pub open spec fn send_is_due(tcb: ThreadControlBlock, work: SendTimeoutPostWork, now: u64) -> bool {
    &&& tcb.blocked_send_generation == work.send_generation
    &&& tcb.status.spec_sending()
    &&& tcb.ipc_timeout_deadline == Some(work.deadline)
    &&& now >= work.deadline
}

/// The control block of a sender whose deadline passed.
pub open spec fn send_expired_tcb(tcb: ThreadControlBlock, work: SendTimeoutPostWork) -> ThreadControlBlock {
    ThreadControlBlock {
        status: TaskStatus::Runnable,
        ipc_timeout_deadline: None,
        ipc_timeout_fired: true,
        pending_syscall_completion: match work.asid {
            Some(asid) => Some(
                BlockedSyscallCompletion {
                    syscall_class: BlockedSyscallClass::IpcSend,
                    result: SEND_COMPLETION_TIMED_OUT,
                    tid: work.tid,
                    asid,
                    blocked_generation: work.send_generation,
                },
            ),
            None => tcb.pending_syscall_completion,
        },
        ..tcb
    }
}

/// Is `tcb` still blocked in the receive that `work` names, with this deadline, and is it due?
pub open spec fn recv_is_due(tcb: ThreadControlBlock, work: RecvTimeoutPostWork, now: u64) -> bool {
    &&& tcb.blocked_recv_generation == work.wait_generation
    &&& tcb.status.spec_receiving()
    &&& tcb.reply_timeout_token is None
    &&& tcb.ipc_timeout_deadline == Some(work.deadline)
    &&& now >= work.deadline
}

/// The control block of a receiver whose deadline passed.
pub open spec fn recv_expired_tcb(tcb: ThreadControlBlock) -> ThreadControlBlock {
    ThreadControlBlock {
        status: TaskStatus::Runnable,
        ipc_timeout_deadline: None,
        ipc_timeout_fired: true,
        ..tcb
    }
}

impl Kernel {
    /// The state after a task whose wait ended was queued: at home, or where the least work
    /// waits.
    pub open spec fn timeout_woken(self, tid: u64) -> Kernel {
        let priority = self.tasks.wake_priority(tid);
        Kernel {
            sched: match self.tasks.affinity_of(tid) {
                Some(home) => self.sched.enqueued(home, tid, priority),
                None => self.sched.enqueued_balanced(tid, priority),
            },
            ..self
        }
    }

    /// Does the caller still wait for the answer to this very call?
    pub open spec fn caller_waits(self, identity: TerminalIdentity) -> bool {
        &&& self.tasks.exact(identity.caller_tid.0, Some(identity.caller_asid)) matches Some(tcb)
        &&& tcb.status.spec_receiving()
        &&& self.ipc.claimable(
            identity.endpoint_index as int,
            identity.endpoint_generation,
            caller_of(identity),
        )
    }

    /// The state after the caller got `result` as the answer to its call and was woken.
    pub open spec fn caller_answered(self, identity: TerminalIdentity, result: u64, fired: bool) -> Kernel {
        let tid = identity.caller_tid.0;
        let asid = Some(identity.caller_asid);
        Kernel {
            ipc: self.ipc.with_waiter(identity.endpoint_index as int, None),
            tasks: self.tasks.with_exact(
                tid,
                asid,
                answered_tcb(self.tasks.exact(tid, asid)->0, result, fired),
            ),
            ..self
        }.timeout_woken(tid)
    }

    /// What the firing of a reply deadline comes to.
    pub open spec fn reply_fire_result(self, handle: DeadlineHandle, now: u64) -> ReplyTimeoutOutcome {
        let identity = handle.identity.terminal_identity;
        if !self.ipc.can_fire(handle, now) {
            ReplyTimeoutOutcome::StaleToken
        } else if !self.ipc.call_open(identity) {
            ReplyTimeoutOutcome::LostToTerminal
        } else if self.caller_waits(identity) {
            ReplyTimeoutOutcome::Woken
        } else {
            ReplyTimeoutOutcome::CleanupNoWake
        }
    }

    /// The state after the firing of a reply deadline.
    pub open spec fn after_reply_fire(self, handle: DeadlineHandle, now: u64) -> Kernel {
        let identity = handle.identity.terminal_identity;
        let i = handle.identity.token_index as int;
        let ended = Kernel {
            ipc: self.ipc.with_token_state(i, TokenState::Completed).call_ended(
                identity,
                TerminalOwner::Timeout,
            ),
            ..self
        };
        match self.reply_fire_result(handle, now) {
            ReplyTimeoutOutcome::StaleToken => self,
            ReplyTimeoutOutcome::LostToTerminal => Kernel {
                ipc: self.ipc.with_token_state(i, TokenState::Disarmed),
                ..self
            },
            ReplyTimeoutOutcome::CleanupNoWake => ended,
            ReplyTimeoutOutcome::Woken => ended.caller_answered(
                identity,
                SEND_COMPLETION_TIMED_OUT,
                true,
            ),
        }
    }

    /// The state after the caller's reference to this deadline was dropped, if the deadline can
    /// never fire again and the caller still refers to it.
    pub open spec fn reply_ref_dropped(self, handle: DeadlineHandle) -> Kernel {
        let tid = handle.identity.terminal_identity.caller_tid.0;
        match self.tasks.find(tid) {
            Some(tcb) if self.ipc.token_retired(handle.identity.token_index as int)
                && tcb.reply_timeout_token == Some(handle) => Kernel {
                tasks: self.tasks.with_task(
                    tid,
                    ThreadControlBlock {
                        ipc_timeout_deadline: None,
                        reply_timeout_token: None,
                        ..tcb
                    },
                ),
                ..self
            },
            _ => self,
        }
    }

    /// The state after one due reply deadline was settled.
    pub open spec fn reply_settled(self, work: ReplyTimeoutPostWork, now: u64) -> Kernel {
        let fired = self.after_reply_fire(work.handle, now);
        if self.reply_fire_result(work.handle, now) is Woken {
            fired
        } else {
            fired.reply_ref_dropped(work.handle)
        }
    }

    /// The state after `cpu` settled its oldest `n` due reply deadlines.  One that is not due on
    /// its own clock goes back, and ends the pass.
    pub open spec fn replies_settled(self, cpu: CpuId, clocks: Clocks, n: nat) -> Kernel
        decreases n,
    {
        if n == 0 {
            self
        } else {
            match crate::deferred::oldest(self.pending.reply, cpu) {
                None => self,
                Some(work) => {
                    let items = crate::deferred::oldest_taken(self.pending.reply, cpu);
                    let taken = Kernel { pending: Pending { reply: items, ..self.pending }, ..self };
                    let now = clocks.spec_reply_now(work.clock);
                    if now < work.deadline {
                        Kernel {
                            pending: Pending {
                                reply: reply_published(items, cpu, work),
                                ..self.pending
                            },
                            ..self
                        }
                    } else {
                        taken.reply_settled(work, now).replies_settled(
                            cpu,
                            clocks,
                            (n - 1) as nat,
                        )
                    }
                },
            }
        }
    }

    /// Is the send that `work` names still blocked and due?
    pub open spec fn send_claimable(self, work: SendTimeoutPostWork, now: u64) -> bool {
        self.tasks.exact(work.tid, work.asid) matches Some(tcb) && send_is_due(tcb, work, now)
    }

    /// The state after one due send deadline was settled: the sender has its result, its message
    /// and envelope are withdrawn, and it is queued.  A send that is over by now is left alone.
    pub open spec fn send_settled(self, work: SendTimeoutPostWork, now: u64) -> Kernel {
        if self.send_claimable(work, now) {
            let expired = Kernel {
                tasks: self.tasks.with_exact(
                    work.tid,
                    work.asid,
                    send_expired_tcb(self.tasks.exact(work.tid, work.asid)->0, work),
                ),
                ipc: self.ipc.sends_withdrawn(work.tid, work.send_generation),
                ..self
            };
            let settled = match self.ipc.owed_by(
                work.tid,
                work.send_generation,
                self.ipc.senders.len() as int,
            ) {
                Some((handle, e, receiver)) => expired.envelope_settled(handle, e as int, receiver),
                None => expired,
            };
            settled.timeout_woken(work.tid)
        } else {
            self
        }
    }

    /// The state after `cpu` settled its oldest `n` due send deadlines.
    pub open spec fn sends_settled(self, cpu: CpuId, now: u64, n: nat) -> Kernel
        decreases n,
    {
        if n == 0 {
            self
        } else {
            match crate::deferred::oldest(self.pending.send, cpu) {
                None => self,
                Some(work) => Kernel {
                    pending: Pending {
                        send: crate::deferred::oldest_taken(self.pending.send, cpu),
                        ..self.pending
                    },
                    ..self
                }.send_settled(work, now).sends_settled(cpu, now, (n - 1) as nat),
            }
        }
    }

    /// Is the receive that `work` names still blocked and due?
    pub open spec fn recv_claimable(self, work: RecvTimeoutPostWork, now: u64) -> bool {
        self.tasks.exact(work.tid, work.asid) matches Some(tcb) && recv_is_due(tcb, work, now)
    }

    /// The state after one due receive deadline was settled: the receiver waits nowhere, and is
    /// queued.  A receive that is over by now is left alone.
    pub open spec fn recv_settled(self, work: RecvTimeoutPostWork, now: u64) -> Kernel {
        if self.recv_claimable(work, now) {
            Kernel {
                tasks: self.tasks.with_exact(
                    work.tid,
                    work.asid,
                    recv_expired_tcb(self.tasks.exact(work.tid, work.asid)->0),
                ),
                ipc: self.ipc.waits_cleared(
                    ReceiverWaiterIdentity {
                        tid: ThreadId(work.tid),
                        asid: match work.asid {
                            Some(asid) => asid,
                            None => Asid(0),
                        },
                    },
                ),
                ..self
            }.timeout_woken(work.tid)
        } else {
            self
        }
    }

    /// The state after `cpu` settled its oldest `n` due receive deadlines.
    pub open spec fn recvs_settled(self, cpu: CpuId, now: u64, n: nat) -> Kernel
        decreases n,
    {
        if n == 0 {
            self
        } else {
            match crate::deferred::oldest(self.pending.recv, cpu) {
                None => self,
                Some(work) => Kernel {
                    pending: Pending {
                        recv: crate::deferred::oldest_taken(self.pending.recv, cpu),
                        ..self.pending
                    },
                    ..self
                }.recv_settled(work, now).recvs_settled(cpu, now, (n - 1) as nat),
            }
        }
    }

    /// Does the record of a dead server still name the call, and the server that ended?
    pub open spec fn death_applies(self, work: ServerDeathPostWork) -> bool {
        let i = work.reply_record_index as int;
        let identity = self.ipc.replies[i].terminal.identity;
        &&& self.ipc.reply_at(i, work.reply_record_generation)
        &&& identity.reply_record_index == work.reply_record_index
        &&& identity.reply_record_generation == work.reply_record_generation
        &&& identity.replier_tid == work.exiting_server.tid
        &&& identity.replier_asid == work.exiting_server.asid
    }

    /// The state after a call ended because its server did, if it was still open.
    pub open spec fn death_completed(self, identity: TerminalIdentity) -> Kernel {
        if !self.ipc.call_open(identity) {
            self
        } else {
            let ended = Kernel {
                ipc: self.ipc.call_ended(identity, TerminalOwner::PeerDeath),
                ..self
            };
            if !self.caller_waits(identity) {
                ended
            } else {
                let caller = self.tasks.exact(
                    identity.caller_tid.0,
                    Some(identity.caller_asid),
                )->0;
                Kernel {
                    ipc: match caller.reply_timeout_token {
                        Some(handle) => ended.ipc.disarmed(handle),
                        None => ended.ipc,
                    },
                    ..ended
                }.caller_answered(identity, CALL_COMPLETION_SERVER_DIED, false)
            }
        }
    }

    /// The state after one dead server was dealt with.
    pub open spec fn death_settled(self, work: ServerDeathPostWork) -> Kernel {
        if self.death_applies(work) {
            self.death_completed(self.ipc.replies[work.reply_record_index as int].terminal.identity)
        } else {
            self
        }
    }

    /// The state after `cpu` dealt with its oldest `n` dead servers.
    pub open spec fn deaths_settled(self, cpu: CpuId, n: nat) -> Kernel
        decreases n,
    {
        if n == 0 {
            self
        } else {
            match crate::deferred::oldest(self.pending.death, cpu) {
                None => self,
                Some(work) => Kernel {
                    pending: Pending {
                        death: crate::deferred::oldest_taken(self.pending.death, cpu),
                        ..self.pending
                    },
                    ..self
                }.death_settled(work).deaths_settled(cpu, (n - 1) as nat),
            }
        }
    }

    /// Number of due reply deadlines that wait for `cpu`.
    pub open spec fn replies_for(self, cpu: CpuId) -> nat {
        seqs::count_where(
            self.pending.reply,
            crate::deferred::listed_for::<ReplyTimeoutPostWork>(cpu),
        )
    }

    /// Number of due send deadlines that wait for `cpu`.
    pub open spec fn sends_for(self, cpu: CpuId) -> nat {
        seqs::count_where(
            self.pending.send,
            crate::deferred::listed_for::<SendTimeoutPostWork>(cpu),
        )
    }

    /// Number of due receive deadlines that wait for `cpu`.
    pub open spec fn recvs_for(self, cpu: CpuId) -> nat {
        seqs::count_where(
            self.pending.recv,
            crate::deferred::listed_for::<RecvTimeoutPostWork>(cpu),
        )
    }

    /// Number of dead servers that wait for `cpu`.
    pub open spec fn deaths_for(self, cpu: CpuId) -> nat {
        seqs::count_where(
            self.pending.death,
            crate::deferred::listed_for::<ServerDeathPostWork>(cpu),
        )
    }

    /// The state after `cpu` looked for due deadlines.
    pub open spec fn timeouts_collected(self, cpu: CpuId, clocks: Clocks) -> Kernel {
        Kernel { pending: self.pending.scan_published(cpu, self.tasks, clocks), ..self }
    }

    /// The state after a whole pass of `cpu`: one scan, then replies, sends and receives.
    pub open spec fn timeouts_run(self, cpu: CpuId, clocks: Clocks) -> Kernel {
        let found = self.timeouts_collected(cpu, clocks);
        let replied = found.replies_settled(cpu, clocks, found.replies_for(cpu));
        let sent = replied.sends_settled(cpu, clocks.send_now, replied.sends_for(cpu));
        sent.recvs_settled(cpu, clocks.send_now, sent.recvs_for(cpu))
    }
}

/// The lists that a scan fills.
struct DueLists {
    reply: Vec<ReplyTimeoutPostWork>,
    send: Vec<SendTimeoutPostWork>,
    recv: Vec<RecvTimeoutPostWork>,
    examined: usize,
    scanned: usize,
}

impl DueLists {
    spec fn is(self, scan: Scan) -> bool {
        &&& self.reply@ == scan.reply
        &&& self.send@ == scan.send
        &&& self.recv@ == scan.recv
        &&& self.examined == scan.examined
        &&& self.scanned == scan.scanned
    }

    fn empty() -> (r: DueLists)
        ensures
            r.is(Scan::empty()),
    {
        DueLists {
            reply: Vec::new(),
            send: Vec::new(),
            recv: Vec::new(),
            examined: 0,
            scanned: 0,
        }
    }

    /// Looks at one task.
    fn note_task(&mut self, tcb: &ThreadControlBlock, clocks: Clocks, Ghost(scan): Ghost<Scan>)
        requires
            old(self).is(scan),
        ensures
            final(self).is(scan.with_task(*tcb, clocks)),
    {
        let deadline = match tcb.ipc_timeout_deadline {
            None => {
                return ;
            },
            Some(deadline) => deadline,
        };
        if let Some(handle) = tcb.reply_timeout_token {
            let clock = tcb.reply_timeout_clock;
            if clocks.reply_now(clock) >= deadline && self.reply.len() < RT_POST_WORK_SLOTS {
                self.reply.push(ReplyTimeoutPostWork { handle, deadline, clock });
            }
            return ;
        }
        if clocks.send_now < deadline {
            return ;
        }
        if tcb.status.sending() {
            if self.send.len() < ST_POST_WORK_SLOTS {
                self.send.push(
                    SendTimeoutPostWork {
                        tid: tcb.tid.0,
                        asid: tcb.asid,
                        send_generation: tcb.blocked_send_generation,
                        deadline,
                    },
                );
            }
        } else if tcb.status.receiving() && self.recv.len() < CT_POST_WORK_SLOTS {
            self.recv.push(
                RecvTimeoutPostWork {
                    tid: tcb.tid.0,
                    asid: tcb.asid,
                    wait_generation: tcb.blocked_recv_generation,
                    deadline,
                },
            );
        }
    }
}

/// A scan passes at most one slot with each step, and looks at no more than it passes.
proof fn lemma_scan_bound(tasks: Tasks, start: int, clocks: Clocks, n: int)
    requires
        0 <= n,
    ensures
        tasks.scan(start, clocks, n).scanned <= n,
        tasks.scan(start, clocks, n).examined <= tasks.scan(start, clocks, n).scanned,
    decreases n,
{
    if n > 0 {
        lemma_scan_bound(tasks, start, clocks, n - 1);
    }
}

/// A scan that has looked at enough tasks does not change any more.
proof fn lemma_scan_stops(tasks: Tasks, start: int, clocks: Clocks, n: int, m: int)
    requires
        0 <= n <= m,
        tasks.scan(start, clocks, n).examined >= IPC_TIMEOUT_SCAN_WINDOW,
    ensures
        tasks.scan(start, clocks, m) == tasks.scan(start, clocks, n),
    decreases m - n,
{
    if n < m {
        assert(tasks.scan(start, clocks, n + 1) == tasks.scan(start, clocks, n));
        lemma_scan_stops(tasks, start, clocks, n + 1, m);
    }
}

impl SharedKernel {
    /// The scheduler tick.
    pub fn scheduler_tick_now_split_read(&self) -> (r: u64)
        ensures
            r == self@.sched.timer.ticks,
    {
        self.state.sched.timer.ticks
    }

    /// The time on the hardware clock where there is one, else the scheduler tick.
    pub fn reply_timeout_oracle_now_split_read(&self, hardware_now: Option<u64>) -> (r: u64)
        ensures
            r == match hardware_now {
                Some(now) => now,
                None => self@.sched.timer.ticks,
            },
    {
        match hardware_now {
            Some(now) => now,
            None => self.scheduler_tick_now_split_read(),
        }
    }

    /// Scans the table from `start` on.
    fn scan_deadlines(&self, start: usize, clocks: Clocks) -> (r: DueLists)
        requires
            start < self@.tasks.tcbs.len(),
        ensures
            r.is(self@.tasks.scan(start as int, clocks, self@.tasks.tcbs.len() as int)),
            r.scanned <= self@.tasks.tcbs.len(),
    {
        let len: usize = self.state.tasks.tcbs.len();
        let mut found = DueLists::empty();
        let mut step: usize = 0;
        while step < len
            invariant
                len == self@.tasks.tcbs.len(),
                start < len,
                step <= len,
                found.is(self@.tasks.scan(start as int, clocks, step as int)),
            decreases len - step,
        {
            proof {
                lemma_scan_bound(self@.tasks, start as int, clocks, step as int);
            }
            if found.examined >= IPC_TIMEOUT_SCAN_WINDOW {
                proof {
                    lemma_scan_stops(
                        self@.tasks,
                        start as int,
                        clocks,
                        step as int,
                        len as int,
                    );
                }
                return found;
            }
            let place: usize = if step < len - start {
                start + step
            } else {
                step - (len - start)
            };
            let ghost before = self@.tasks.scan(start as int, clocks, step as int);
            found.scanned = found.scanned + 1;
            if let Some(tcb) = self.state.tasks.tcbs[place] {
                found.examined = found.examined + 1;
                found.note_task(
                    &tcb,
                    clocks,
                    Ghost(
                        Scan {
                            scanned: before.scanned + 1,
                            examined: before.examined + 1,
                            ..before
                        },
                    ),
                );
            }
            step += 1;
        }
        proof {
            lemma_scan_bound(self@.tasks, start as int, clocks, len as int);
        }
        found
    }

    /// Publishes a due reply deadline; one that is listed already is not listed again.
    fn publish_reply(&mut self, cpu: CpuId, work: ReplyTimeoutPostWork)
        ensures
            final(self)@ == (Kernel {
                pending: Pending {
                    reply: reply_published(old(self)@.pending.reply, cpu, work),
                    ..old(self)@.pending
                },
                ..old(self)@
            }),
    {
        let mut i: usize = 0;
        while i < self.state.pending.reply.items.len()
            invariant
                *self == *old(self),
                i <= self.state.pending.reply.items@.len(),
                forall|j: int|
                    0 <= j < i ==> !same_deadline(cpu, work.handle)(
                        #[trigger] self.state.pending.reply.items@[j],
                    ),
            decreases self.state.pending.reply.items@.len() - i,
        {
            if self.state.pending.reply.items[i].cpu == cpu
                && self.state.pending.reply.items[i].item.handle == work.handle {
                proof {
                    seqs::lemma_first_where_is(
                        self.state.pending.reply.items@,
                        same_deadline(cpu, work.handle),
                        i as int,
                    );
                }
                return ;
            }
            i += 1;
        }
        proof {
            seqs::lemma_first_where_is(
                self.state.pending.reply.items@,
                same_deadline(cpu, work.handle),
                i as int,
            );
        }
        let _ = self.state.pending.reply.offer(cpu, work, RT_POST_WORK_SLOTS);
    }

    /// Looks for due deadlines, a bounded number of tasks at a time, and publishes what it finds.
    /// It decides nothing: a deadline that finds no room stays armed for a later scan.
    pub fn collect_due_ipc_timeout_work(
        &mut self,
        production_now: u64,
        oracle_now: u64,
        send_now: u64,
        cpu: CpuId,
    )
        ensures
            final(self)@ == old(self)@.timeouts_collected(
                cpu,
                Clocks { production_now, oracle_now, send_now },
            ),
    {
        let clocks = Clocks { production_now, oracle_now, send_now };
        let len: usize = self.state.tasks.tcbs.len();
        if len == 0 {
            assert(self@.tasks.scan(0, clocks, 0) == Scan::empty());
            return ;
        }
        let c: usize = cpu.0 as usize;
        let start: usize = if c < self.state.pending.cursors.len() {
            self.state.pending.cursors[c] % len
        } else {
            0
        };
        let found = self.scan_deadlines(start, clocks);
        if c < self.state.pending.cursors.len() {
            let next: usize = if found.scanned < len - start {
                start + found.scanned
            } else {
                found.scanned - (len - start)
            };
            self.state.pending.cursors[c] = next;
        }
        let ghost moved = self@;
        let mut i: usize = 0;
        while i < found.reply.len()
            invariant
                i <= found.reply@.len(),
                self@ == (Kernel {
                    pending: Pending {
                        reply: replies_published(
                            moved.pending.reply,
                            cpu,
                            found.reply@,
                            i as int,
                        ),
                        ..moved.pending
                    },
                    ..moved
                }),
            decreases found.reply@.len() - i,
        {
            self.publish_reply(cpu, found.reply[i]);
            i += 1;
        }
        let ghost replied = self@;
        let mut j: usize = 0;
        while j < found.send.len()
            invariant
                j <= found.send@.len(),
                self@ == (Kernel {
                    pending: Pending {
                        send: all_offered(
                            replied.pending.send,
                            cpu,
                            found.send@,
                            ST_POST_WORK_SLOTS,
                            j as int,
                        ),
                        ..replied.pending
                    },
                    ..replied
                }),
            decreases found.send@.len() - j,
        {
            let _ = self.state.pending.send.offer(cpu, found.send[j], ST_POST_WORK_SLOTS);
            j += 1;
        }
        let ghost sent = self@;
        let mut k: usize = 0;
        while k < found.recv.len()
            invariant
                k <= found.recv@.len(),
                self@ == (Kernel {
                    pending: Pending {
                        recv: all_offered(
                            sent.pending.recv,
                            cpu,
                            found.recv@,
                            CT_POST_WORK_SLOTS,
                            k as int,
                        ),
                        ..sent.pending
                    },
                    ..sent
                }),
            decreases found.recv@.len() - k,
        {
            let _ = self.state.pending.recv.offer(cpu, found.recv[k], CT_POST_WORK_SLOTS);
            k += 1;
        }
    }

    /// Queues a task whose wait ended.
    pub fn enqueue_reply_timeout_wake_split(&mut self, tid: u64)
        ensures
            final(self)@ == old(self)@.timeout_woken(tid),
    {
        let priority = self.state.tasks.wake_priority(tid);
        match self.state.tasks.affinity_of(tid) {
            Some(home) => {
                let _ = self.state.sched.enqueue_on_with_priority(home, tid, priority);
            },
            None => {
                let _ = self.state.sched.enqueue_balanced(tid, priority);
            },
        }
    }

    /// Is the call that `identity` names still open?
    fn call_open(&self, identity: TerminalIdentity) -> (r: bool)
        ensures
            r == self@.ipc.call_open(identity),
            r ==> identity.reply_record_index < self@.ipc.replies.len(),
    {
        let i: usize = identity.reply_record_index;
        if i >= self.state.ipc.replies.len() {
            return false;
        }
        let slot = self.state.ipc.replies[i];
        slot.generation == identity.reply_record_generation && slot.terminal.epoch != 0
            && slot.terminal.identity == identity && slot.terminal.owner
            == TerminalOwner::Unclaimed
    }

    /// Ends the call that `identity` names.
    fn end_call(&mut self, identity: TerminalIdentity, owner: TerminalOwner)
        requires
            identity.reply_record_index < old(self)@.ipc.replies.len(),
        ensures
            final(self)@ == (Kernel {
                ipc: old(self)@.ipc.call_ended(identity, owner),
                ..old(self)@
            }),
    {
        let i: usize = identity.reply_record_index;
        let slot = self.state.ipc.replies[i];
        let record = match slot.record {
            Some(record) => Some(
                ReplyCapRecord { reservation: ReplyRecordReservation::Consumed, ..record },
            ),
            None => None,
        };
        self.state.ipc.replies[i] = ReplySlot {
            terminal: TerminalCell { owner, ..slot.terminal },
            record,
            ..slot
        };
    }

    /// Does the caller still wait for the answer to this very call?
    fn caller_waits(&self, identity: TerminalIdentity) -> (r: bool)
        ensures
            r == self@.caller_waits(identity),
            r ==> identity.endpoint_index < self@.ipc.endpoints.len(),
    {
        match self.state.tasks.lookup_exact(identity.caller_tid.0, Some(identity.caller_asid)) {
            None => false,
            Some((_, tcb)) => {
                if !tcb.status.receiving() {
                    return false;
                }
                let caller = ReceiverWaiterIdentity {
                    tid: identity.caller_tid,
                    asid: identity.caller_asid,
                };
                self.endpoint_waiter_is_split_read(
                    identity.endpoint_index,
                    identity.endpoint_generation,
                    caller,
                )
            },
        }
    }

    /// Gives the caller its result and queues it.
    fn answer_caller(&mut self, identity: TerminalIdentity, result: u64, fired: bool)
        requires
            old(self)@.tasks.exact(
                identity.caller_tid.0,
                Some(identity.caller_asid),
            ) is Some,
            identity.endpoint_index < old(self)@.ipc.endpoints.len(),
        ensures
            final(self)@ == old(self)@.caller_answered(identity, result, fired),
    {
        let tid: u64 = identity.caller_tid.0;
        self.state.ipc.put_waiter(identity.endpoint_index, None);
        if let Some((i, tcb)) = self.state.tasks.lookup_exact(tid, Some(identity.caller_asid)) {
            let completion = BlockedSyscallCompletion {
                syscall_class: BlockedSyscallClass::IpcRecv,
                result,
                tid,
                asid: identity.caller_asid,
                blocked_generation: tcb.blocked_recv_generation,
            };
            self.state.tasks.put(
                i,
                ThreadControlBlock {
                    status: TaskStatus::Runnable,
                    ipc_timeout_deadline: None,
                    ipc_timeout_fired: fired,
                    reply_timeout_token: None,
                    pending_syscall_completion: Some(completion),
                    ..tcb
                },
            );
        }
        self.enqueue_reply_timeout_wake_split(tid);
    }

    /// Lets a reply deadline fire.
    pub fn complete_reply_timeout(&mut self, handle: DeadlineHandle, now: u64) -> (r:
        ReplyTimeoutOutcome)
        ensures
            r == old(self)@.reply_fire_result(handle, now),
            final(self)@ == old(self)@.after_reply_fire(handle, now),
    {
        let identity = handle.identity.terminal_identity;
        let i: usize = handle.identity.token_index;
        if i >= self.state.ipc.tokens.len() {
            return ReplyTimeoutOutcome::StaleToken;
        }
        let token = self.state.ipc.tokens[i];
        if !token.named_by(handle) || token.state != TokenState::Armed || now < token.deadline {
            return ReplyTimeoutOutcome::StaleToken;
        }
        if !self.call_open(identity) {
            self.state.ipc.set_token_state(i, TokenState::Disarmed);
            return ReplyTimeoutOutcome::LostToTerminal;
        }
        let waits = self.caller_waits(identity);
        self.state.ipc.set_token_state(i, TokenState::Completed);
        self.end_call(identity, TerminalOwner::Timeout);
        if !waits {
            return ReplyTimeoutOutcome::CleanupNoWake;
        }
        self.answer_caller(identity, SEND_COMPLETION_TIMED_OUT, true);
        ReplyTimeoutOutcome::Woken
    }

    /// Drops the caller's reference to a deadline that can never fire again.
    fn drop_reply_ref(&mut self, handle: DeadlineHandle)
        ensures
            final(self)@ == old(self)@.reply_ref_dropped(handle),
    {
        let i: usize = handle.identity.token_index;
        if i >= self.state.ipc.tokens.len() || !self.state.ipc.tokens[i].retired() {
            return ;
        }
        let tid: u64 = handle.identity.terminal_identity.caller_tid.0;
        if let Some((slot, tcb)) = self.state.tasks.lookup(tid) {
            if tcb.reply_timeout_token == Some(handle) {
                self.state.tasks.put(
                    slot,
                    ThreadControlBlock {
                        ipc_timeout_deadline: None,
                        reply_timeout_token: None,
                        ..tcb
                    },
                );
            }
        }
    }

    /// Settles the due reply deadlines of `cpu`, each by its own clock.
    pub fn drain_reply_timeout_post_work(
        &mut self,
        cpu: CpuId,
        production_now: u64,
        oracle_now: u64,
    )
        ensures
            final(self)@ == old(self)@.replies_settled(
                cpu,
                Clocks { production_now, oracle_now, send_now: 0 },
                old(self)@.replies_for(cpu),
            ),
    {
        let clocks = Clocks { production_now, oracle_now, send_now: 0 };
        let mut left: usize = self.state.pending.reply.count(cpu);
        while left > 0
            invariant
                old(self)@.replies_settled(cpu, clocks, old(self)@.replies_for(cpu))
                    == self@.replies_settled(cpu, clocks, left as nat),
                clocks == (Clocks { production_now, oracle_now, send_now: 0 }),
            decreases left,
        {
            let work = match self.state.pending.reply.take_oldest(cpu) {
                None => {
                    return ;
                },
                Some(work) => work,
            };
            let now: u64 = clocks.reply_now(work.clock);
            if now < work.deadline {
                self.publish_reply(cpu, work);
                return ;
            }
            match self.complete_reply_timeout(work.handle, now) {
                ReplyTimeoutOutcome::Woken => {},
                _ => {
                    self.drop_reply_ref(work.handle);
                },
            }
            left -= 1;
        }
    }

    /// Withdraws every waiting sender of this block and says which envelope is still owed.
    fn withdraw_sends(&mut self, tid: u64, send_generation: u64) -> (r: Option<
        (u64, usize, ThreadId),
    >)
        ensures
            r == old(self)@.ipc.owed_by(
                tid,
                send_generation,
                old(self)@.ipc.senders.len() as int,
            ),
            final(self)@ == (Kernel {
                ipc: old(self)@.ipc.sends_withdrawn(tid, send_generation),
                ..old(self)@
            }),
    {
        let ghost before = self@;
        let ghost target = before.ipc.sends_withdrawn(tid, send_generation);
        let mut owed: Option<(u64, usize, ThreadId)> = None;
        let mut i: usize = 0;
        while i < self.state.ipc.senders.len()
            invariant
                before == old(self)@,
                target == before.ipc.sends_withdrawn(tid, send_generation),
                i <= self@.ipc.senders.len(),
                self@.ipc.senders.len() == before.ipc.senders.len(),
                self@ == (Kernel {
                    ipc: Ipc { senders: self@.ipc.senders, ..before.ipc },
                    ..before
                }),
                owed == before.ipc.owed_by(tid, send_generation, i as int),
                forall|j: int| 0 <= j < i ==> #[trigger] self@.ipc.senders[j] == target.senders[j],
                forall|j: int|
                    i <= j < self@.ipc.senders.len() ==> #[trigger] self@.ipc.senders[j]
                        == before.ipc.senders[j],
            decreases self@.ipc.senders.len() - i,
        {
            if let Some(waiter) = self.state.ipc.senders[i] {
                if waiter.tid.0 == tid && waiter.send_generation == send_generation {
                    self.state.ipc.senders[i] = None;
                    if let Some(handle) = waiter.msg.transferred_cap() {
                        if let Some(env) = self.state.ipc.envelope_at(handle.0) {
                            if let crate::capability::CapObject::Endpoint { index, .. } =
                                env.endpoint {
                                if index == i / 8 {
                                    let receiver = match env.receiver_tid {
                                        Some(receiver) => receiver,
                                        None => waiter.tid,
                                    };
                                    owed = Some((handle.0, index, receiver));
                                }
                            }
                        }
                    }
                }
            }
            i += 1;
        }
        assert(self@.ipc =~= target);
        owed
    }

    /// Settles one due send deadline.
    fn settle_send(&mut self, work: SendTimeoutPostWork, now: u64)
        ensures
            final(self)@ == old(self)@.send_settled(work, now),
    {
        let (i, tcb) = match self.state.tasks.lookup_exact(work.tid, work.asid) {
            None => {
                return ;
            },
            Some(found) => found,
        };
        if tcb.blocked_send_generation != work.send_generation || !tcb.status.sending()
            || tcb.ipc_timeout_deadline != Some(work.deadline) || now < work.deadline {
            return ;
        }
        let completion = match work.asid {
            Some(asid) => Some(
                BlockedSyscallCompletion {
                    syscall_class: BlockedSyscallClass::IpcSend,
                    result: SEND_COMPLETION_TIMED_OUT,
                    tid: work.tid,
                    asid,
                    blocked_generation: work.send_generation,
                },
            ),
            None => tcb.pending_syscall_completion,
        };
        self.state.tasks.put(
            i,
            ThreadControlBlock {
                status: TaskStatus::Runnable,
                ipc_timeout_deadline: None,
                ipc_timeout_fired: true,
                pending_syscall_completion: completion,
                ..tcb
            },
        );
        if let Some((handle, endpoint_idx, cleanup_tid)) = self.withdraw_sends(
            work.tid,
            work.send_generation,
        ) {
            let _ = self.settle_blocked_send_envelope_split(handle, endpoint_idx, cleanup_tid);
        }
        self.enqueue_reply_timeout_wake_split(work.tid);
    }

    /// Settles the due send deadlines of `cpu`.
    pub fn drain_send_timeout_post_work(&mut self, cpu: CpuId, now: u64)
        ensures
            final(self)@ == old(self)@.sends_settled(cpu, now, old(self)@.sends_for(cpu)),
    {
        let mut left: usize = self.state.pending.send.count(cpu);
        while left > 0
            invariant
                old(self)@.sends_settled(cpu, now, old(self)@.sends_for(cpu))
                    == self@.sends_settled(cpu, now, left as nat),
            decreases left,
        {
            match self.state.pending.send.take_oldest(cpu) {
                None => {
                    return ;
                },
                Some(work) => {
                    self.settle_send(work, now);
                },
            }
            left -= 1;
        }
    }

    /// Settles one due receive deadline.
    fn settle_recv(&mut self, work: RecvTimeoutPostWork, now: u64)
        ensures
            final(self)@ == old(self)@.recv_settled(work, now),
    {
        let (i, tcb) = match self.state.tasks.lookup_exact(work.tid, work.asid) {
            None => {
                return ;
            },
            Some(found) => found,
        };
        if tcb.blocked_recv_generation != work.wait_generation || !tcb.status.receiving()
            || tcb.reply_timeout_token.is_some() || tcb.ipc_timeout_deadline != Some(work.deadline)
            || now < work.deadline {
            return ;
        }
        self.state.tasks.put(
            i,
            ThreadControlBlock {
                status: TaskStatus::Runnable,
                ipc_timeout_deadline: None,
                ipc_timeout_fired: true,
                ..tcb
            },
        );
        let asid = match work.asid {
            Some(asid) => asid,
            None => Asid(0),
        };
        self.state.ipc.clear_waits(ReceiverWaiterIdentity { tid: ThreadId(work.tid), asid });
        self.enqueue_reply_timeout_wake_split(work.tid);
    }

    /// Settles the due receive deadlines of `cpu`.
    pub fn drain_recv_timeout_post_work(&mut self, cpu: CpuId, now: u64)
        ensures
            final(self)@ == old(self)@.recvs_settled(cpu, now, old(self)@.recvs_for(cpu)),
    {
        let mut left: usize = self.state.pending.recv.count(cpu);
        while left > 0
            invariant
                old(self)@.recvs_settled(cpu, now, old(self)@.recvs_for(cpu))
                    == self@.recvs_settled(cpu, now, left as nat),
            decreases left,
        {
            match self.state.pending.recv.take_oldest(cpu) {
                None => {
                    return ;
                },
                Some(work) => {
                    self.settle_recv(work, now);
                },
            }
            left -= 1;
        }
    }

    /// Ends a call whose server ended.
    fn complete_server_death(&mut self, identity: TerminalIdentity)
        ensures
            final(self)@ == old(self)@.death_completed(identity),
    {
        if !self.call_open(identity) {
            return ;
        }
        let waits = self.caller_waits(identity);
        self.end_call(identity, TerminalOwner::PeerDeath);
        if !waits {
            return ;
        }
        if let Some((_, caller)) = self.state.tasks.lookup_exact(
            identity.caller_tid.0,
            Some(identity.caller_asid),
        ) {
            if let Some(handle) = caller.reply_timeout_token {
                let _ = self.state.ipc.disarm(handle);
            }
        }
        self.answer_caller(identity, CALL_COMPLETION_SERVER_DIED, false);
    }

    /// Deals with the dead servers of `cpu`; returns how many there were.
    pub fn drain_server_death_post_work(&mut self, cpu: CpuId) -> (r: usize)
        ensures
            r == old(self)@.deaths_for(cpu),
            final(self)@ == old(self)@.deaths_settled(cpu, old(self)@.deaths_for(cpu)),
    {
        let total: usize = self.state.pending.death.count(cpu);
        let mut left: usize = total;
        while left > 0
            invariant
                total == old(self)@.deaths_for(cpu),
                old(self)@.deaths_settled(cpu, old(self)@.deaths_for(cpu))
                    == self@.deaths_settled(cpu, left as nat),
            decreases left,
        {
            match self.state.pending.death.take_oldest(cpu) {
                None => {
                    return total;
                },
                Some(work) => {
                    let i: usize = work.reply_record_index;
                    if i < self.state.ipc.replies.len() && self.state.ipc.replies[i].generation
                        == work.reply_record_generation {
                        let identity = self.state.ipc.replies[i].terminal.identity;
                        if identity.reply_record_index == work.reply_record_index
                            && identity.reply_record_generation == work.reply_record_generation
                            && identity.replier_tid == work.exiting_server.tid
                            && identity.replier_asid == work.exiting_server.asid {
                            self.complete_server_death(identity);
                        }
                    }
                },
            }
            left -= 1;
        }
        total
    }

    /// A whole pass over due deadlines, with the scheduler tick as production clock.
    pub fn run_due_ipc_timeout_work(&mut self, cpu: CpuId, hardware_now: Option<u64>)
        ensures
            final(self)@ == old(self)@.timeouts_run(
                cpu,
                Clocks {
                    production_now: old(self)@.sched.timer.ticks,
                    oracle_now: match hardware_now {
                        Some(now) => now,
                        None => old(self)@.sched.timer.ticks,
                    },
                    send_now: old(self)@.sched.timer.ticks,
                },
            ),
    {
        let production_now: u64 = self.scheduler_tick_now_split_read();
        let oracle_now: u64 = self.reply_timeout_oracle_now_split_read(hardware_now);
        let send_now: u64 = self.scheduler_tick_now_split_read();
        self.run_due_ipc_timeout_work_at(cpu, production_now, oracle_now, send_now);
    }

    /// A whole pass over due deadlines: one scan, then replies, sends and receives.
    pub fn run_due_ipc_timeout_work_at(
        &mut self,
        cpu: CpuId,
        production_now: u64,
        oracle_now: u64,
        send_now: u64,
    )
        ensures
            final(self)@ == old(self)@.timeouts_run(
                cpu,
                Clocks { production_now, oracle_now, send_now },
            ),
    {
        let ghost clocks = Clocks { production_now, oracle_now, send_now };
        self.collect_due_ipc_timeout_work(production_now, oracle_now, send_now, cpu);
        proof {
            lemma_reply_clock(
                self@,
                cpu,
                Clocks { send_now: 0, ..clocks },
                clocks,
                self@.replies_for(cpu),
            );
        }
        self.drain_reply_timeout_post_work(cpu, production_now, oracle_now);
        self.drain_send_timeout_post_work(cpu, send_now);
        self.drain_recv_timeout_post_work(cpu, send_now);
    }

    /// Disarms the deadline of a call that was answered; says whether one was armed.
    pub fn disarm_reply_deadline_on_reply_win(&mut self, caller_tid: u64, caller_asid: Asid) -> (r:
        bool)
        ensures
            match old(self)@.tasks.exact(caller_tid, Some(caller_asid)) {
                Some(tcb) => match tcb.reply_timeout_token {
                    Some(handle) => r == old(self)@.ipc.can_disarm(handle) && final(self)@ == (
                    Kernel { ipc: old(self)@.ipc.disarmed(handle), ..old(self)@ }),
                    None => !r && final(self)@ == old(self)@,
                },
                None => !r && final(self)@ == old(self)@,
            },
    {
        match self.state.tasks.lookup_exact(caller_tid, Some(caller_asid)) {
            None => false,
            Some((_, tcb)) => match tcb.reply_timeout_token {
                None => false,
                Some(handle) => self.state.ipc.disarm(handle),
            },
        }
    }
}

/// Reply deadlines do not depend on the clock of sends and receives.
proof fn lemma_reply_clock(k: Kernel, cpu: CpuId, a: Clocks, b: Clocks, n: nat)
    requires
        a.production_now == b.production_now,
        a.oracle_now == b.oracle_now,
    ensures
        k.replies_settled(cpu, a, n) == k.replies_settled(cpu, b, n),
    decreases n,
{
    if n > 0 {
        if let Some(work) = crate::deferred::oldest(k.pending.reply, cpu) {
            let items = crate::deferred::oldest_taken(k.pending.reply, cpu);
            let taken = Kernel { pending: Pending { reply: items, ..k.pending }, ..k };
            let now = a.spec_reply_now(work.clock);
            lemma_reply_clock(taken.reply_settled(work, now), cpu, a, b, (n - 1) as nat);
        }
    }
}

} // verus!
