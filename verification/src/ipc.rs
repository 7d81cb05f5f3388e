//! The IPC domain: messages, endpoints, transfer envelopes, reply records and reply
//! deadlines.
use vstd::prelude::*;
use vstd::slice::slice_subrange;

use crate::capability::CapObject;
use crate::ids::{Asid, CapId, ThreadId, VirtAddr};
use crate::seqs;
use crate::task::{DeadlineHandle, TerminalIdentity, TokenIdentity};

verus! {

/// Payload bytes a message can carry.
pub const MAX_PAYLOAD: usize = 128;

/// Capability word of a message that transfers none.
pub const NO_TRANSFER_CAP: u64 = 0xFFFF_FFFF_FFFF_FFFF;

/// Message flag: the transferred capability is a reply.
pub const FLAG_REPLY_CAP: u16 = 1;

/// Operation code of a message that hands over a shared memory region.
pub const OPCODE_SHARED_MEM: u16 = 0xFFF0;

/// Blocked senders one endpoint can hold.
pub const MAX_ENDPOINT_SENDER_WAITERS: usize = 8;

/// Transfer envelopes in the table.
pub const MAX_TRANSFER_ENVELOPES: usize = 64;

/// Reply records in the table.
pub const MAX_REPLY_CAPS: usize = 64;

/// Active transfer mappings in the table.
pub const MAX_ACTIVE_MAPPINGS: usize = 32;

/// A message.
#[derive(Clone, Copy, Debug, PartialEq, Eq)]
pub struct Message {
    pub sender_tid: ThreadId,
    pub opcode: u16,
    pub flags: u16,
    pub transfer: u64,
    pub len: usize,
    pub payload: [u8; 128],
}

impl Message {
    /// The length is within the payload.
    pub open spec fn wf(self) -> bool {
        self.len <= MAX_PAYLOAD
    }

    /// How many payload bytes count.
    pub open spec fn used(self) -> int {
        if self.len <= MAX_PAYLOAD {
            self.len as int
        } else {
            MAX_PAYLOAD as int
        }
    }

    /// The payload bytes that count.
    pub open spec fn bytes(self) -> Seq<u8> {
        self.payload@.subrange(0, self.used())
    }

    /// Builds a message; refused when the payload does not fit.
    pub fn with_header(
        sender_tid: u64,
        opcode: u16,
        flags: u16,
        transfer: Option<CapId>,
        payload: &[u8],
    ) -> (r: Option<Message>)
        ensures
            r is Some <==> payload@.len() <= MAX_PAYLOAD,
            r matches Some(m) ==> m.sender_tid == ThreadId(sender_tid) && m.opcode == opcode
                && m.flags == flags && m.wf() && m.bytes() == payload@ && m.transfer == (
            match transfer {
                Some(cap) => cap.0,
                None => NO_TRANSFER_CAP,
            }) && forall|i: int| payload@.len() <= i < 128 ==> m.payload@[i] == 0,
    {
        if payload.len() > MAX_PAYLOAD {
            return None;
        }
        let buffer = padded(payload);
        let m = Message {
            sender_tid: ThreadId(sender_tid),
            opcode,
            flags,
            transfer: match transfer {
                Some(cap) => cap.0,
                None => NO_TRANSFER_CAP,
            },
            len: payload.len(),
            payload: buffer,
        };
        assert(m.bytes() =~= payload@);
        Some(m)
    }

    pub open spec fn spec_transferred_cap(self) -> Option<CapId> {
        if self.transfer == NO_TRANSFER_CAP {
            None
        } else {
            Some(CapId(self.transfer))
        }
    }

    /// Handle of the transferred capability, if the message carries one.
    pub fn transferred_cap(&self) -> (r: Option<CapId>)
        ensures
            r == self.spec_transferred_cap(),
    {
        if self.transfer == NO_TRANSFER_CAP {
            None
        } else {
            Some(CapId(self.transfer))
        }
    }

    pub open spec fn spec_is_reply_cap(self) -> bool {
        self.flags & FLAG_REPLY_CAP != 0
    }

    /// Is the transferred capability a reply?
    pub fn is_reply_cap(&self) -> (r: bool)
        ensures
            r == self.spec_is_reply_cap(),
    {
        self.flags & FLAG_REPLY_CAP != 0
    }

    /// The payload bytes that count.
    pub fn as_slice(&self) -> (r: &[u8])
        ensures
            r@ == self.bytes(),
            r@.len() <= MAX_PAYLOAD,
    {
        let used: usize = if self.len <= MAX_PAYLOAD {
            self.len
        } else {
            MAX_PAYLOAD
        };
        slice_subrange(self.payload.as_slice(), 0, used)
    }
}

/// `bytes` followed by zeros.
pub fn padded(bytes: &[u8]) -> (r: [u8; 128])
    requires
        bytes@.len() <= 128,
    ensures
        r@.subrange(0, bytes@.len() as int) == bytes@,
        forall|i: int| bytes@.len() <= i < 128 ==> r@[i] == 0,
{
    let mut buffer: [u8; 128] = [0u8; 128];
    let mut i: usize = 0;
    while i < bytes.len()
        invariant
            i <= bytes@.len() <= 128,
            forall|j: int| 0 <= j < i ==> buffer@[j] == bytes@[j],
            forall|j: int| i <= j < 128 ==> buffer@[j] == 0,
        decreases bytes@.len() - i,
    {
        buffer[i] = bytes[i];
        i += 1;
    }
    assert(buffer@.subrange(0, bytes@.len() as int) =~= bytes@);
    buffer
}

/// How an endpoint treats its queue.
#[derive(Clone, Copy, Debug, PartialEq, Eq, Structural)]
pub enum EndpointMode {
    Buffered,
    Synchronous,
}

/// One incarnation of a task.
#[derive(Clone, Copy, Debug, PartialEq, Eq, Structural)]
pub struct ReceiverWaiterIdentity {
    pub tid: ThreadId,
    pub asid: Asid,
}

/// A receiver that waits at an endpoint.
#[derive(Clone, Copy, Debug, PartialEq, Eq, Structural)]
pub struct EndpointWaiterRecord {
    pub receiver: ReceiverWaiterIdentity,
    pub wait_generation: u64,
}

/// One endpoint slot.
#[derive(Clone, Copy, Debug, PartialEq, Eq, Structural)]
pub struct EndpointSlot {
    pub mode: Option<EndpointMode>,
    pub generation: u64,
    pub waiter: Option<EndpointWaiterRecord>,
}

/// A message in an endpoint's queue.
#[derive(Clone, Copy, Debug, PartialEq, Eq)]
pub struct QueuedMessage {
    pub endpoint: usize,
    pub msg: Message,
}

/// A sender that waits for room in an endpoint's queue.
#[derive(Clone, Copy, Debug, PartialEq, Eq)]
pub struct SenderWaiter {
    pub tid: ThreadId,
    pub asid: Option<Asid>,
    pub send_generation: u64,
    pub msg: Message,
}

/// The blocked send that a wake completes.
#[derive(Clone, Copy, Debug, PartialEq, Eq, Structural)]
pub struct SenderWakeTarget {
    pub tid: ThreadId,
    pub asid: Option<Asid>,
    pub send_generation: u64,
}

/// What a queued receive found.
#[derive(Clone, Copy, Debug, PartialEq, Eq)]
pub enum QueuedRecv {
    /// No message waits at the endpoint.
    Empty,
    /// The first message is of a shape the caller does not serve; it stays queued.
    Declined,
    /// The first message, and the blocked sender that took its place in the queue.
    Delivered { msg: Message, wake: Option<SenderWakeTarget> },
}

/// Which messages a queued receive serves.
#[derive(Clone, Copy, Debug, PartialEq, Eq, Structural)]
pub enum RecvAdmission {
    /// Messages without a capability.
    Plain,
    /// Every message.
    WithCapTransfer,
    /// Every message but shared regions and replies tagged as ordinary transfers.
    Boundary,
}

/// State of a transfer envelope.
#[derive(Clone, Copy, Debug, PartialEq, Eq, Structural)]
pub enum TransferState {
    Stashed,
    Released,
}

/// The part of a memory object that a transfer maps.
#[derive(Clone, Copy, Debug, PartialEq, Eq, Structural)]
pub struct SharedRegion {
    pub offset: u64,
    pub len: u64,
}

/// A capability on its way from a sender to a receiver.
#[derive(Clone, Copy, Debug, PartialEq, Eq, Structural)]
pub struct TransferEnvelope {
    pub endpoint: CapObject,
    pub source_object: CapObject,
    pub source_tid: ThreadId,
    pub source_cap: CapId,
    pub receiver_tid: Option<ThreadId>,
    pub shared_region: Option<SharedRegion>,
    pub state: TransferState,
}

/// One slot of the envelope table.
#[derive(Clone, Copy, Debug, PartialEq, Eq, Structural)]
pub struct EnvelopeSlot {
    pub envelope: Option<TransferEnvelope>,
    pub generation: u64,
}

/// Life cycle of a reply record.
#[derive(Clone, Copy, Debug, PartialEq, Eq, Structural)]
pub enum ReplyRecordReservation {
    Available,
    Reserved,
    Consumed,
}

/// A reply that somebody is owed.
#[derive(Clone, Copy, Debug, PartialEq, Eq, Structural)]
pub struct ReplyCapRecord {
    pub reservation: ReplyRecordReservation,
    pub caller_tid: ThreadId,
    pub caller_asid: Asid,
    pub reply_endpoint: CapObject,
    pub responder_tid: Option<ThreadId>,
    pub replier_asid: Option<Asid>,
    pub caller_cap_id: CapId,
    pub waiter_cap_id: Option<CapId>,
}

/// Who ended a call.
#[derive(Clone, Copy, Debug, PartialEq, Eq, Structural)]
pub enum TerminalOwner {
    Unclaimed,
    Reply,
    Timeout,
    PeerDeath,
    CallerExit,
    EndpointGone,
}

/// Arbitrates which event ends a call; epoch zero means never armed.
#[derive(Clone, Copy, Debug, PartialEq, Eq, Structural)]
pub struct TerminalCell {
    pub epoch: u64,
    pub identity: TerminalIdentity,
    pub owner: TerminalOwner,
}

/// One slot of the reply table.
#[derive(Clone, Copy, Debug, PartialEq, Eq, Structural)]
pub struct ReplySlot {
    pub record: Option<ReplyCapRecord>,
    pub generation: u64,
    pub terminal: TerminalCell,
}

/// What recording a receiver's reply capability came to.
#[derive(Clone, Copy, Debug, PartialEq, Eq, Structural)]
pub enum ReplyRecordSetOutcome {
    Recorded,
    StaleGeneration,
    Vacant,
}

/// Life cycle of an armed deadline.
#[derive(Clone, Copy, Debug, PartialEq, Eq, Structural)]
pub enum TokenState {
    Vacant,
    Armed,
    ClaimedByReply,
    ClaimedByTimeout,
    Completed,
    Disarmed,
}

/// One slot of the deadline store.
#[derive(Clone, Copy, Debug, PartialEq, Eq, Structural)]
pub struct DeadlineToken {
    pub identity: TokenIdentity,
    pub epoch: u64,
    pub deadline: u64,
    pub state: TokenState,
}

impl DeadlineToken {
    /// Does `handle` name this registration?
    pub open spec fn spec_named_by(self, handle: DeadlineHandle) -> bool {
        self.identity == handle.identity && self.epoch == handle.epoch
    }

    pub fn named_by(&self, handle: DeadlineHandle) -> (r: bool)
        ensures
            r == self.spec_named_by(handle),
    {
        self.identity == handle.identity && self.epoch == handle.epoch
    }

    pub open spec fn spec_retired(self) -> bool {
        self.state is Completed || self.state is Disarmed
    }

    /// Can the registration never fire again?
    pub fn retired(&self) -> (r: bool)
        ensures
            r == self.spec_retired(),
    {
        matches!(self.state, TokenState::Completed | TokenState::Disarmed)
    }
}

/// A request to stop a shared-region delivery.
#[derive(Clone, Copy, Debug, PartialEq, Eq, Structural)]
pub struct CancelRequest {
    pub tid: u64,
    pub asid: Asid,
}

/// A transferred region that is mapped at a receiver.
#[derive(Clone, Copy, Debug, PartialEq, Eq, Structural)]
pub struct ActiveMapping {
    pub tid: ThreadId,
    pub cap: CapId,
    pub va: VirtAddr,
    pub len: usize,
}

/// Counters of the IPC domain.
#[derive(Clone, Copy, Debug, PartialEq, Eq, Structural)]
pub struct IpcTelemetry {
    pub transfer_records_materialized: u64,
    pub queued_recvs: u64,
    pub d5_split_reply_materializations: u64,
}

/// `n + 1`, or `n` at the maximum.
pub open spec fn bumped(n: u64) -> u64 {
    if n < u64::MAX {
        (n + 1) as u64
    } else {
        n
    }
}

/// Messages queued at `endpoint`.
pub open spec fn queued_at(endpoint: int) -> spec_fn(QueuedMessage) -> bool {
    |q: QueuedMessage| q.endpoint == endpoint
}

/// Slots that hold a waiting sender.
pub open spec fn occupied() -> spec_fn(Option<SenderWaiter>) -> bool {
    |w: Option<SenderWaiter>| w is Some
}

/// Slots that hold no waiting sender.
pub open spec fn vacant() -> spec_fn(Option<SenderWaiter>) -> bool {
    |w: Option<SenderWaiter>| w is None
}

/// Slots that hold task `tid` as waiting sender.
pub open spec fn sent_by(tid: u64) -> spec_fn(Option<SenderWaiter>) -> bool {
    |w: Option<SenderWaiter>| w is Some && w->0.tid.0 == tid
}

/// Cancel requests for one incarnation.
pub open spec fn cancels(tid: u64, asid: Asid) -> spec_fn(CancelRequest) -> bool {
    |c: CancelRequest| c.tid == tid && c.asid == asid
}

/// Active mappings of capability `cap` of task `tid`.
pub open spec fn maps_cap(tid: u64, cap: CapId) -> spec_fn(ActiveMapping) -> bool {
    |m: ActiveMapping| m.tid.0 == tid && m.cap == cap
}

/// Vacant reply slots.
pub open spec fn reply_vacant() -> spec_fn(ReplySlot) -> bool {
    |s: ReplySlot| s.record is None
}

/// The generation behind `generation` of a reply slot; zero is skipped.
pub open spec fn next_generation(generation: u64) -> u64 {
    if generation == u64::MAX {
        1
    } else {
        (generation + 1) as u64
    }
}

/// The state of the IPC domain.
#[verifier::ext_equal]
pub struct Ipc {
    pub endpoints: Seq<EndpointSlot>,
    pub queue: Seq<QueuedMessage>,
    pub senders: Seq<Option<SenderWaiter>>,
    pub envelopes: Seq<EnvelopeSlot>,
    pub replies: Seq<ReplySlot>,
    pub tokens: Seq<DeadlineToken>,
    pub notification_generations: Seq<u64>,
    pub notification_waiters: Seq<Option<ThreadId>>,
    pub cancels: Seq<CancelRequest>,
    pub cancel_overflow: bool,
    pub active_mappings: Seq<ActiveMapping>,
    pub telemetry: IpcTelemetry,
}

impl Ipc {
    /// Is endpoint slot `e` in use?
    pub open spec fn exists_at(self, e: int) -> bool {
        0 <= e < self.endpoints.len() && self.endpoints[e].mode is Some
    }

    /// First place behind the sender slots of endpoint `e`.
    pub open spec fn row_end(self, e: int) -> int {
        if 8 * e + 8 <= self.senders.len() {
            8 * e + 8
        } else {
            self.senders.len() as int
        }
    }

    /// The sender slots of endpoint `e`.
    pub open spec fn row(self, e: int) -> Seq<Option<SenderWaiter>> {
        if 0 <= e && 8 * e <= self.senders.len() {
            self.senders.subrange(8 * e, self.row_end(e))
        } else {
            Seq::empty()
        }
    }

    /// The envelope that `handle` names.
    pub open spec fn envelope_at(self, handle: u64) -> Option<TransferEnvelope> {
        let i = (handle & 0xFFFF) as int;
        if i < self.envelopes.len() && handle >> 16 != 0 && self.envelopes[i].generation == handle
            >> 16 {
            self.envelopes[i].envelope
        } else {
            None
        }
    }

    /// The envelope that `receiver` may take at endpoint `e`.
    pub open spec fn takeable(self, handle: u64, e: int, receiver: ThreadId) -> Option<
        TransferEnvelope,
    > {
        match self.envelope_at(handle) {
            Some(env) if env.endpoint matches CapObject::Endpoint { index, .. } && index == e && (
            env.receiver_tid is None || env.receiver_tid == Some(receiver))
                && env.state is Stashed => Some(env),
            _ => None,
        }
    }

    /// The state after an envelope was taken, if it could be.
    pub open spec fn envelope_taken(self, handle: u64, e: int, receiver: ThreadId) -> Ipc {
        let i = (handle & 0xFFFF) as int;
        if self.takeable(handle, e, receiver) is Some {
            Ipc {
                envelopes: self.envelopes.update(
                    i,
                    EnvelopeSlot { envelope: None, ..self.envelopes[i] },
                ),
                telemetry: IpcTelemetry {
                    transfer_records_materialized: bumped(
                        self.telemetry.transfer_records_materialized,
                    ),
                    ..self.telemetry
                },
                ..self
            }
        } else {
            self
        }
    }

    /// Is a message of this shape served under `admission`?
    pub open spec fn serves(self, admission: RecvAdmission, msg: Message) -> bool {
        match admission {
            RecvAdmission::Plain => msg.spec_transferred_cap() is None,
            RecvAdmission::WithCapTransfer => true,
            RecvAdmission::Boundary => match msg.spec_transferred_cap() {
                None => true,
                Some(handle) => if msg.opcode == OPCODE_SHARED_MEM {
                    false
                } else if msg.spec_is_reply_cap() {
                    true
                } else {
                    match self.envelope_at(handle.0) {
                        Some(env) => !(env.source_object is Reply),
                        None => true,
                    }
                },
            },
        }
    }

    /// Place of the first message queued at `e`.
    pub open spec fn head(self, e: int) -> int {
        seqs::first_where(self.queue, queued_at(e))
    }

    /// Does a queued receive at `e` deliver?
    pub open spec fn delivers(self, e: int, admission: RecvAdmission) -> bool {
        self.exists_at(e) && self.head(e) < self.queue.len() && self.serves(
            admission,
            self.queue[self.head(e)].msg,
        )
    }

    /// Place within its row of the first sender that waits at `e`.
    pub open spec fn first_sender(self, e: int) -> int {
        seqs::first_where(self.row(e), occupied())
    }

    /// The blocked sender whose message refills the queue of `e`.
    pub open spec fn refiller(self, e: int) -> Option<SenderWaiter> {
        if self.first_sender(e) < self.row(e).len() {
            self.row(e)[self.first_sender(e)]
        } else {
            None
        }
    }

    /// What a queued receive at `e` returns.
    pub open spec fn recv_result(self, e: int, admission: RecvAdmission) -> QueuedRecv {
        if !self.exists_at(e) || self.head(e) >= self.queue.len() {
            QueuedRecv::Empty
        } else if !self.serves(admission, self.queue[self.head(e)].msg) {
            QueuedRecv::Declined
        } else {
            QueuedRecv::Delivered {
                msg: self.queue[self.head(e)].msg,
                wake: match self.refiller(e) {
                    Some(w) => Some(
                        SenderWakeTarget {
                            tid: w.tid,
                            asid: w.asid,
                            send_generation: w.send_generation,
                        },
                    ),
                    None => None,
                },
            }
        }
    }

    /// The state after a queued receive at `e`.
    pub open spec fn received(self, e: int, admission: RecvAdmission) -> Ipc {
        if !self.delivers(e, admission) {
            self
        } else {
            match self.refiller(e) {
                None => Ipc { queue: self.queue.remove(self.head(e)), ..self },
                Some(w) => Ipc {
                    queue: self.queue.remove(self.head(e)).push(
                        QueuedMessage { endpoint: e as usize, msg: w.msg },
                    ),
                    senders: self.senders.update(8 * e + self.first_sender(e), None),
                    ..self
                },
            }
        }
    }

    /// Is slot `index` of the reply table at `generation`?
    pub open spec fn reply_at(self, index: int, generation: u64) -> bool {
        0 <= index < self.replies.len() && self.replies[index].generation == generation
    }

    /// The reply record of this index and generation.
    pub open spec fn reply_record(self, index: int, generation: u64) -> Option<ReplyCapRecord> {
        if self.reply_at(index, generation) {
            self.replies[index].record
        } else {
            None
        }
    }

    /// The state with the record in slot `index` replaced.
    pub open spec fn with_record(self, index: int, record: Option<ReplyCapRecord>) -> Ipc {
        Ipc { replies: self.replies.update(index, ReplySlot { record, ..self.replies[index] }), ..self }
    }

    /// Is the record there and in the given state?
    pub open spec fn record_is(
        self,
        index: int,
        generation: u64,
        reservation: ReplyRecordReservation,
    ) -> bool {
        self.reply_record(index, generation) is Some && self.reply_record(
            index,
            generation,
        )->0.reservation == reservation
    }

    /// The state after the record moved from one state to another, if it was in the first.
    pub open spec fn record_moved(
        self,
        index: int,
        generation: u64,
        from: ReplyRecordReservation,
        to: ReplyRecordReservation,
    ) -> Ipc {
        if self.record_is(index, generation, from) {
            self.with_record(
                index,
                Some(
                    ReplyCapRecord {
                        reservation: to,
                        ..self.reply_record(index, generation)->0
                    },
                ),
            )
        } else {
            self
        }
    }

    /// Does the object exist in this very incarnation?
    pub open spec fn object_live(self, object: CapObject) -> bool {
        match object {
            CapObject::Endpoint { index, generation } => (index as int) < self.endpoints.len()
                && self.endpoints[index as int].generation == generation,
            CapObject::Notification { index, generation } => (index as int)
                < self.notification_generations.len()
                && self.notification_generations[index as int] == generation,
            CapObject::Reply { index, generation } => self.reply_at(index as int, generation),
            _ => true,
        }
    }

    /// May the deadline that `handle` names still be disarmed?
    pub open spec fn can_disarm(self, handle: DeadlineHandle) -> bool {
        let i = handle.identity.token_index as int;
        i < self.tokens.len() && self.tokens[i].spec_named_by(handle) && (self.tokens[i].state is Armed
            || self.tokens[i].state is ClaimedByReply)
    }

    /// The state with token `i` in the given state.
    pub open spec fn with_token_state(self, i: int, state: TokenState) -> Ipc {
        Ipc { tokens: self.tokens.update(i, DeadlineToken { state, ..self.tokens[i] }), ..self }
    }

    /// The state after the deadline that `handle` names was disarmed, if it could be.
    pub open spec fn disarmed(self, handle: DeadlineHandle) -> Ipc {
        if self.can_disarm(handle) {
            self.with_token_state(handle.identity.token_index as int, TokenState::Disarmed)
        } else {
            self
        }
    }

    /// The incarnation that waits at endpoint `e`.
    pub open spec fn waiter_at(self, e: int) -> Option<EndpointWaiterRecord> {
        if 0 <= e < self.endpoints.len() {
            self.endpoints[e].waiter
        } else {
            None
        }
    }

    /// Does exactly this incarnation wait at endpoint `e`?
    pub open spec fn waits_at(self, e: int, identity: ReceiverWaiterIdentity) -> bool {
        self.waiter_at(e) is Some && self.waiter_at(e)->0.receiver == identity
    }

    /// The state with the waiter of endpoint `e` replaced.
    pub open spec fn with_waiter(self, e: int, waiter: Option<EndpointWaiterRecord>) -> Ipc {
        Ipc { endpoints: self.endpoints.update(e, EndpointSlot { waiter, ..self.endpoints[e] }), ..self }
    }

    /// The state in which the incarnation waits nowhere.
    pub open spec fn waits_cleared(self, identity: ReceiverWaiterIdentity) -> Ipc {
        Ipc {
            endpoints: Seq::new(
                self.endpoints.len(),
                |e: int|
                    if self.waits_at(e, identity) {
                        EndpointSlot { waiter: None, ..self.endpoints[e] }
                    } else {
                        self.endpoints[e]
                    },
            ),
            notification_waiters: Seq::new(
                self.notification_waiters.len(),
                |n: int|
                    if self.notification_waiters[n] == Some(identity.tid) {
                        None
                    } else {
                        self.notification_waiters[n]
                    },
            ),
            ..self
        }
    }
}

/// The IPC domain.
pub struct IpcSubsystem {
    pub endpoints: Vec<EndpointSlot>,
    pub queue: Vec<QueuedMessage>,
    /// Eight slots for each endpoint, in the order of the endpoints.
    pub senders: Vec<Option<SenderWaiter>>,
    pub envelopes: Vec<EnvelopeSlot>,
    pub replies: Vec<ReplySlot>,
    pub tokens: Vec<DeadlineToken>,
    pub notification_generations: Vec<u64>,
    pub notification_waiters: Vec<Option<ThreadId>>,
    pub cancels: Vec<CancelRequest>,
    pub cancel_overflow: bool,
    pub active_mappings: Vec<ActiveMapping>,
    pub telemetry: IpcTelemetry,
}

impl View for IpcSubsystem {
    type V = Ipc;

    open spec fn view(&self) -> Ipc {
        Ipc {
            endpoints: self.endpoints@,
            queue: self.queue@,
            senders: self.senders@,
            envelopes: self.envelopes@,
            replies: self.replies@,
            tokens: self.tokens@,
            notification_generations: self.notification_generations@,
            notification_waiters: self.notification_waiters@,
            cancels: self.cancels@,
            cancel_overflow: self.cancel_overflow,
            active_mappings: self.active_mappings@,
            telemetry: self.telemetry,
        }
    }
}

fn envelope_index(handle: u64) -> (r: usize)
    ensures
        r == handle & 0xFFFF,
{
    assert(handle & 0xFFFF <= 0xFFFF) by (bit_vector);
    (handle & 0xFFFF) as usize
}

impl IpcSubsystem {
    /// The envelope that `handle` names.
    pub fn envelope_at(&self, handle: u64) -> (r: Option<TransferEnvelope>)
        ensures
            r == self@.envelope_at(handle),
    {
        let i: usize = envelope_index(handle);
        let generation: u64 = handle >> 16;
        if i < self.envelopes.len() && generation != 0 && self.envelopes[i].generation
            == generation {
            self.envelopes[i].envelope
        } else {
            None
        }
    }

    /// Takes an envelope out of the table, once.
    pub fn take_envelope(&mut self, handle: u64, e: usize, receiver: ThreadId) -> (r: Option<
        TransferEnvelope,
    >)
        ensures
            r == old(self)@.takeable(handle, e as int, receiver),
            final(self)@ == old(self)@.envelope_taken(handle, e as int, receiver),
    {
        let env = match self.envelope_at(handle) {
            None => {
                return None;
            },
            Some(env) => env,
        };
        let here = match env.endpoint {
            CapObject::Endpoint { index, .. } => index == e,
            _ => false,
        };
        if !here {
            return None;
        }
        if env.receiver_tid.is_some() && env.receiver_tid != Some(receiver) {
            return None;
        }
        if env.state != TransferState::Stashed {
            return None;
        }
        let i: usize = envelope_index(handle);
        let slot = self.envelopes[i];
        self.telemetry.transfer_records_materialized =
        bump(self.telemetry.transfer_records_materialized);
        self.envelopes[i] = EnvelopeSlot { envelope: None, ..slot };
        Some(env)
    }

    /// Is a message of this shape served under `admission`?
    pub fn serves(&self, admission: RecvAdmission, msg: &Message) -> (r: bool)
        ensures
            r == self@.serves(admission, *msg),
    {
        match admission {
            RecvAdmission::Plain => msg.transferred_cap().is_none(),
            RecvAdmission::WithCapTransfer => true,
            RecvAdmission::Boundary => {
                match msg.transferred_cap() {
                    None => true,
                    Some(handle) => {
                        if msg.opcode == OPCODE_SHARED_MEM {
                            return false;
                        }
                        if msg.is_reply_cap() {
                            return true;
                        }
                        match self.envelope_at(handle.0) {
                            Some(env) => !matches!(env.source_object, CapObject::Reply { .. }),
                            None => true,
                        }
                    },
                }
            },
        }
    }

    fn head_position(&self, e: usize) -> (r: usize)
        ensures
            r == self@.head(e as int),
            r <= self.queue@.len(),
    {
        let mut i: usize = 0;
        while i < self.queue.len() && self.queue[i].endpoint != e
            invariant
                i <= self.queue@.len(),
                forall|j: int| 0 <= j < i ==> !queued_at(e as int)(#[trigger] self.queue@[j]),
            decreases self.queue@.len() - i,
        {
            i += 1;
        }
        proof {
            seqs::lemma_first_where_is(self.queue@, queued_at(e as int), i as int);
        }
        i
    }

    /// First place behind the sender slots of endpoint `e`, and the first of them.
    fn row_bounds(&self, e: usize) -> (r: (usize, usize))
        ensures
            r.0 <= r.1 <= self.senders@.len(),
            r.1 - r.0 == self@.row(e as int).len(),
            8 * e <= self.senders@.len() ==> r.0 == 8 * e,
            forall|j: int|
                #![trigger self.senders@[r.0 + j]]
                #![trigger self@.row(e as int)[j]]
                0 <= j < r.1 - r.0 ==> self@.row(e as int)[j] == self.senders@[r.0 + j],
    {
        let n: usize = self.senders.len();
        if e > n / 8 {
            assert(8 * e > n);
            return (n, n);
        }
        let start: usize = e * 8;
        if n - start >= 8 {
            (start, start + 8)
        } else {
            (start, n)
        }
    }

    /// Place in the sender table of the first sender that waits at `e`.
    fn first_sender_position(&self, e: usize) -> (r: Option<usize>)
        ensures
            r is Some <==> self@.refiller(e as int) is Some,
            r matches Some(i) ==> i < self.senders@.len() && i == 8 * e + self@.first_sender(
                e as int,
            ) && self.senders@[i as int] == self@.refiller(e as int),
    {
        let (start, end) = self.row_bounds(e);
        let ghost row = self@.row(e as int);
        let mut i: usize = start;
        while i < end
            invariant
                start <= i <= end <= self.senders@.len(),
                end - start == row.len(),
                row == self@.row(e as int),
                8 * e <= self.senders@.len() ==> start == 8 * e,
                forall|j: int|
                    #![trigger self.senders@[start + j]]
                    #![trigger row[j]]
                    0 <= j < end - start ==> row[j] == self.senders@[start + j],
                forall|j: int| 0 <= j < i - start ==> !occupied()(#[trigger] row[j]),
            decreases end - i,
        {
            assert(row[i - start] == self.senders@[start + (i - start)]);
            if self.senders[i].is_some() {
                proof {
                    seqs::lemma_first_where_is(row, occupied(), i - start);
                }
                return Some(i);
            }
            i += 1;
        }
        proof {
            seqs::lemma_first_where_is(row, occupied(), i - start);
        }
        None
    }

    /// Takes the first message queued at `e` and lets a blocked sender refill the queue.
    pub fn recv_queued(&mut self, e: usize, admission: RecvAdmission) -> (r: QueuedRecv)
        ensures
            r == old(self)@.recv_result(e as int, admission),
            final(self)@ == old(self)@.received(e as int, admission),
    {
        if e >= self.endpoints.len() || self.endpoints[e].mode.is_none() {
            return QueuedRecv::Empty;
        }
        let head: usize = self.head_position(e);
        if head >= self.queue.len() {
            return QueuedRecv::Empty;
        }
        let msg = self.queue[head].msg;
        if !self.serves(admission, &msg) {
            return QueuedRecv::Declined;
        }
        match self.first_sender_position(e) {
            None => {
                let _first = self.queue.remove(head);
                QueuedRecv::Delivered { msg, wake: None }
            },
            Some(i) => {
                let waiter = self.senders[i];
                let _first = self.queue.remove(head);
                match waiter {
                    Some(w) => {
                        self.senders[i] = None;
                        self.queue.push(QueuedMessage { endpoint: e, msg: w.msg });
                        QueuedRecv::Delivered {
                            msg,
                            wake: Some(
                                SenderWakeTarget {
                                    tid: w.tid,
                                    asid: w.asid,
                                    send_generation: w.send_generation,
                                },
                            ),
                        }
                    },
                    None => QueuedRecv::Delivered { msg, wake: None },
                }
            },
        }
    }

    /// Is any sender slot of `e` taken by task `tid`?
    pub fn sender_waits(&self, e: usize, tid: u64) -> (r: bool)
        ensures
            r == seqs::any_where(self@.row(e as int), sent_by(tid)),
    {
        let (start, end) = self.row_bounds(e);
        let ghost row = self@.row(e as int);
        let mut i: usize = start;
        while i < end
            invariant
                start <= i <= end <= self.senders@.len(),
                end - start == row.len(),
                row == self@.row(e as int),
                forall|j: int|
                    #![trigger self.senders@[start + j]]
                    #![trigger row[j]]
                    0 <= j < end - start ==> row[j] == self.senders@[start + j],
                forall|j: int| 0 <= j < i - start ==> !sent_by(tid)(#[trigger] row[j]),
            decreases end - i,
        {
            assert(row[i - start] == self.senders@[start + (i - start)]);
            if let Some(w) = self.senders[i] {
                if w.tid.0 == tid {
                    proof {
                        seqs::lemma_first_where_is(row, sent_by(tid), i - start);
                    }
                    return true;
                }
            }
            i += 1;
        }
        proof {
            seqs::lemma_first_where_is(row, sent_by(tid), i - start);
        }
        false
    }

    /// Place in the sender table of the first free sender slot of `e`.
    pub fn free_sender_slot(&self, e: usize) -> (r: Option<usize>)
        ensures
            r is Some <==> seqs::any_where(self@.row(e as int), vacant()),
            r matches Some(i) ==> i < self.senders@.len() && i == 8 * e + seqs::first_where(
                self@.row(e as int),
                vacant(),
            ),
    {
        let (start, end) = self.row_bounds(e);
        let ghost row = self@.row(e as int);
        let mut i: usize = start;
        while i < end
            invariant
                start <= i <= end <= self.senders@.len(),
                end - start == row.len(),
                row == self@.row(e as int),
                8 * e <= self.senders@.len() ==> start == 8 * e,
                forall|j: int|
                    #![trigger self.senders@[start + j]]
                    #![trigger row[j]]
                    0 <= j < end - start ==> row[j] == self.senders@[start + j],
                forall|j: int| 0 <= j < i - start ==> !vacant()(#[trigger] row[j]),
            decreases end - i,
        {
            assert(row[i - start] == self.senders@[start + (i - start)]);
            if self.senders[i].is_none() {
                proof {
                    seqs::lemma_first_where_is(row, vacant(), i - start);
                }
                return Some(i);
            }
            i += 1;
        }
        proof {
            seqs::lemma_first_where_is(row, vacant(), i - start);
        }
        None
    }

    /// The reply record of this index and generation.
    pub fn reply_record(&self, index: usize, generation: u64) -> (r: Option<ReplyCapRecord>)
        ensures
            r == self@.reply_record(index as int, generation),
            r is Some ==> index < self.replies@.len(),
    {
        if index < self.replies.len() && self.replies[index].generation == generation {
            self.replies[index].record
        } else {
            None
        }
    }

    /// Replaces the record in slot `index`.
    pub fn put_record(&mut self, index: usize, record: Option<ReplyCapRecord>)
        requires
            index < old(self).replies@.len(),
        ensures
            final(self)@ == old(self)@.with_record(index as int, record),
    {
        let slot = self.replies[index];
        self.replies[index] = ReplySlot { record, ..slot };
    }

    /// Moves a record from one state to another; refused when it is not in the first.
    pub fn move_record(
        &mut self,
        index: usize,
        generation: u64,
        from: ReplyRecordReservation,
        to: ReplyRecordReservation,
    ) -> (r: bool)
        ensures
            r == old(self)@.record_is(index as int, generation, from),
            final(self)@ == old(self)@.record_moved(index as int, generation, from, to),
    {
        match self.reply_record(index, generation) {
            Some(record) => {
                if record.reservation != from {
                    return false;
                }
                self.put_record(index, Some(ReplyCapRecord { reservation: to, ..record }));
                true
            },
            None => false,
        }
    }

    /// Does the object exist in this very incarnation?
    pub fn object_live(&self, object: CapObject) -> (r: bool)
        ensures
            r == self@.object_live(object),
    {
        match object {
            CapObject::Endpoint { index, generation } => index < self.endpoints.len()
                && self.endpoints[index].generation == generation,
            CapObject::Notification { index, generation } => index
                < self.notification_generations.len() && self.notification_generations[index]
                == generation,
            CapObject::Reply { index, generation } => index < self.replies.len()
                && self.replies[index].generation == generation,
            _ => true,
        }
    }

    /// Disarms the deadline that `handle` names, and no other.
    pub fn disarm(&mut self, handle: DeadlineHandle) -> (r: bool)
        ensures
            r == old(self)@.can_disarm(handle),
            final(self)@ == old(self)@.disarmed(handle),
    {
        let i: usize = handle.identity.token_index;
        if i >= self.tokens.len() {
            return false;
        }
        let token = self.tokens[i];
        if !token.named_by(handle) || !matches!(
            token.state,
            TokenState::Armed | TokenState::ClaimedByReply
        ) {
            return false;
        }
        self.set_token_state(i, TokenState::Disarmed);
        true
    }

    /// Puts token `i` into the given state.
    pub fn set_token_state(&mut self, i: usize, state: TokenState)
        requires
            i < old(self).tokens@.len(),
        ensures
            final(self)@ == old(self)@.with_token_state(i as int, state),
    {
        let token = self.tokens[i];
        self.tokens[i] = DeadlineToken { state, ..token };
    }

    /// The incarnation that waits at endpoint `e`.
    pub fn waiter_at(&self, e: usize) -> (r: Option<EndpointWaiterRecord>)
        ensures
            r == self@.waiter_at(e as int),
            r is Some ==> e < self.endpoints@.len(),
    {
        if e < self.endpoints.len() {
            self.endpoints[e].waiter
        } else {
            None
        }
    }

    /// Does exactly this incarnation wait at endpoint `e`?
    pub fn waits_at(&self, e: usize, identity: ReceiverWaiterIdentity) -> (r: bool)
        ensures
            r == self@.waits_at(e as int, identity),
            r ==> e < self.endpoints@.len(),
    {
        match self.waiter_at(e) {
            Some(record) => record.receiver == identity,
            None => false,
        }
    }

    /// Replaces the waiter of endpoint `e`.
    pub fn put_waiter(&mut self, e: usize, waiter: Option<EndpointWaiterRecord>)
        requires
            e < old(self).endpoints@.len(),
        ensures
            final(self)@ == old(self)@.with_waiter(e as int, waiter),
    {
        let slot = self.endpoints[e];
        self.endpoints[e] = EndpointSlot { waiter, ..slot };
    }

    /// Clears the waiter of endpoint `e` when it is exactly this incarnation.
    pub fn clear_endpoint_waiter_if_identity(
        &mut self,
        e: usize,
        identity: ReceiverWaiterIdentity,
    ) -> (r: bool)
        ensures
            r == old(self)@.waits_at(e as int, identity),
            final(self)@ == if r {
                old(self)@.with_waiter(e as int, None)
            } else {
                old(self)@
            },
    {
        if self.waits_at(e, identity) {
            self.put_waiter(e, None);
            true
        } else {
            false
        }
    }

    /// Takes the incarnation off every endpoint and its task off every notification.
    pub fn clear_waits(&mut self, identity: ReceiverWaiterIdentity)
        ensures
            final(self)@ == old(self)@.waits_cleared(identity),
    {
        let ghost before = self@;
        let mut e: usize = 0;
        while e < self.endpoints.len()
            invariant
                e <= self.endpoints@.len(),
                before == old(self)@,
                self.endpoints@.len() == before.endpoints.len(),
                self@ == (Ipc { endpoints: self.endpoints@, ..before }),
                forall|j: int|
                    0 <= j < e ==> #[trigger] self.endpoints@[j] == before.waits_cleared(
                        identity,
                    ).endpoints[j],
                forall|j: int|
                    e <= j < self.endpoints@.len() ==> #[trigger] self.endpoints@[j]
                        == before.endpoints[j],
            decreases self.endpoints@.len() - e,
        {
            if self.waits_at(e, identity) {
                self.put_waiter(e, None);
            }
            e += 1;
        }
        let mut n: usize = 0;
        while n < self.notification_waiters.len()
            invariant
                n <= self.notification_waiters@.len(),
                self.notification_waiters@.len() == before.notification_waiters.len(),
                self.endpoints@ =~= before.waits_cleared(identity).endpoints,
                self@ == (Ipc {
                    endpoints: self.endpoints@,
                    notification_waiters: self.notification_waiters@,
                    ..before
                }),
                forall|j: int|
                    0 <= j < n ==> #[trigger] self.notification_waiters@[j]
                        == before.waits_cleared(identity).notification_waiters[j],
                forall|j: int|
                    n <= j < self.notification_waiters@.len()
                        ==> #[trigger] self.notification_waiters@[j]
                        == before.notification_waiters[j],
            decreases self.notification_waiters@.len() - n,
        {
            if self.notification_waiters[n] == Some(identity.tid) {
                self.notification_waiters[n] = None;
            }
            n += 1;
        }
        assert(self@ =~= before.waits_cleared(identity));
    }

    /// Records the receiver's capability in a reply record of this very generation.
    pub fn record_reply_waiter_cap(&mut self, index: usize, generation: u64, cap: CapId) -> (r:
        ReplyRecordSetOutcome)
        ensures
            r == if !old(self)@.reply_at(index as int, generation) {
                ReplyRecordSetOutcome::StaleGeneration
            } else if old(self)@.replies[index as int].record is None {
                ReplyRecordSetOutcome::Vacant
            } else {
                ReplyRecordSetOutcome::Recorded
            },
            final(self)@ == if r is Recorded {
                old(self)@.with_record(
                    index as int,
                    Some(
                        ReplyCapRecord {
                            waiter_cap_id: Some(cap),
                            ..old(self)@.reply_record(index as int, generation)->0
                        },
                    ),
                )
            } else {
                old(self)@
            },
    {
        if index >= self.replies.len() || self.replies[index].generation != generation {
            return ReplyRecordSetOutcome::StaleGeneration;
        }
        match self.replies[index].record {
            None => ReplyRecordSetOutcome::Vacant,
            Some(record) => {
                self.put_record(index, Some(ReplyCapRecord { waiter_cap_id: Some(cap), ..record }));
                ReplyRecordSetOutcome::Recorded
            },
        }
    }

    /// Forgets the receiver's capability in a reply record of this very generation.
    pub fn clear_reply_waiter_cap(&mut self, index: usize, generation: u64)
        ensures
            final(self)@ == match old(self)@.reply_record(index as int, generation) {
                Some(record) => old(self)@.with_record(
                    index as int,
                    Some(ReplyCapRecord { waiter_cap_id: None, ..record }),
                ),
                None => old(self)@,
            },
    {
        if let Some(record) = self.reply_record(index, generation) {
            self.put_record(index, Some(ReplyCapRecord { waiter_cap_id: None, ..record }));
        }
    }
}

/// `n + 1`, or `n` at the maximum.
pub fn bump(n: u64) -> (r: u64)
    ensures
        r == bumped(n),
{
    if n < u64::MAX {
        n + 1
    } else {
        n
    }
}

} // verus!
