//! What becomes of a reply: who holds it, in which slot, and when it is used up.
use vstd::prelude::*;

use crate::capability::CapObject;
use crate::ids::CapId;
use crate::ipc::{
    Ipc, ReceiverWaiterIdentity, ReplyCapRecord, ReplyRecordReservation, ReplySlot,
};
use crate::kernel::Kernel;
use crate::seqs;
use crate::task::{ServerReplyLink, TaskStatus, Tasks, ThreadControlBlock};

verus! {

/// A reservation takes the first slot without a record, gives it the generation behind its last
/// one, and writes down who asked, who is to answer and where to.  It is refused exactly when
/// none of the first 64 slots is free.
pub proof fn law_reservation_takes_the_first_slot(
    ipc: Ipc,
    caller: ReceiverWaiterIdentity,
    replier: ReceiverWaiterIdentity,
    reply_endpoint: CapObject,
    i: int,
)
    requires
        0 <= i <= ipc.replies.len(),
        forall|j: int| 0 <= j < i ==> (#[trigger] ipc.replies[j]).record is Some,
        i < ipc.replies.len() ==> ipc.replies[i].record is None,
    ensures
        ({
            let fits = i < 64 && i < ipc.replies.len();
            let after = ipc.reply_reserved(caller, replier, reply_endpoint);
            &&& ipc.reply_fits() == fits
            &&& fits ==> ipc.vacant_reply() == i
            &&& !fits ==> after == ipc
            &&& fits ==> after == (Ipc {
                replies: ipc.replies.update(
                    i,
                    ReplySlot {
                        record: Some(
                            ReplyCapRecord {
                                reservation: ReplyRecordReservation::Reserved,
                                caller_tid: caller.tid,
                                caller_asid: caller.asid,
                                reply_endpoint,
                                responder_tid: Some(replier.tid),
                                replier_asid: Some(replier.asid),
                                caller_cap_id: CapId(0),
                                waiter_cap_id: None,
                            },
                        ),
                        generation: if ipc.replies[i].generation == u64::MAX {
                            1
                        } else {
                            (ipc.replies[i].generation + 1) as u64
                        },
                        terminal: ipc.replies[i].terminal,
                    },
                ),
                ..ipc
            })
        }),
{
    seqs::lemma_first_where_is(ipc.replies, crate::ipc::reply_vacant(), i);
}

/// Is there, in slot `index` and at this very generation, a record in the given state?
pub open spec fn stands(
    ipc: Ipc,
    index: int,
    generation: u64,
    reservation: ReplyRecordReservation,
) -> bool {
    &&& 0 <= index < ipc.replies.len()
    &&& ipc.replies[index].generation == generation
    &&& ipc.replies[index].record matches Some(record) && record.reservation == reservation
}

/// The messages with the record in slot `index` in another state.
pub open spec fn moved_to(ipc: Ipc, index: int, reservation: ReplyRecordReservation) -> Ipc {
    Ipc {
        replies: ipc.replies.update(
            index,
            ReplySlot {
                record: Some(ReplyCapRecord { reservation, ..ipc.replies[index].record->0 }),
                ..ipc.replies[index]
            },
        ),
        ..ipc
    }
}

/// A record moves from one state to another exactly when it is in the first at this generation,
/// and then nothing but its state changes.
pub proof fn law_record_moves_as_asked(
    ipc: Ipc,
    index: int,
    generation: u64,
    from: ReplyRecordReservation,
    to: ReplyRecordReservation,
)
    ensures
        ipc.record_is(index, generation, from) == stands(ipc, index, generation, from),
        ipc.record_moved(index, generation, from, to) == if stands(ipc, index, generation, from) {
            moved_to(ipc, index, to)
        } else {
            ipc
        },
{
}

/// Does the task in slot `s` owe exactly this reply?
pub open spec fn owes(tasks: Tasks, s: int, index: usize, generation: u64) -> bool {
    &&& 0 <= s < tasks.tcbs.len()
    &&& tasks.tcbs[s] is Some
    &&& tasks.tcbs[s]->0.asid is Some
    &&& tasks.tcbs[s]->0.server_reply_link == Some(
        ServerReplyLink {
            server_tid: tasks.tcbs[s]->0.tid.0,
            server_asid: tasks.tcbs[s]->0.asid->0,
            reply_record_index: index,
            reply_record_generation: generation,
        },
    )
}

/// The tasks with the link of the one in slot `s` replaced.
pub open spec fn relinked(tasks: Tasks, s: int, link: Option<ServerReplyLink>) -> Tasks {
    Tasks {
        tcbs: tasks.tcbs.update(
            s,
            Some(ThreadControlBlock { server_reply_link: link, ..tasks.tcbs[s]->0 }),
        ),
        ..tasks
    }
}

/// A server is linked to a reply exactly when it lives and owes no other; it then owes that reply,
/// and nothing else about it changes.  The link comes off exactly when it leads to this reply.
pub proof fn law_link_goes_on_and_off(tasks: Tasks, s: int, index: usize, generation: u64)
    requires
        tasks.apart(),
        0 <= s < tasks.tcbs.len(),
        tasks.tcbs[s] is Some,
        tasks.tcbs[s]->0.asid is Some,
    ensures
        ({
            let tcb = tasks.tcbs[s]->0;
            let server = ReceiverWaiterIdentity { tid: tcb.tid, asid: tcb.asid->0 };
            let link = ServerReplyLink {
                server_tid: tcb.tid.0,
                server_asid: tcb.asid->0,
                reply_record_index: index,
                reply_record_generation: generation,
            };
            let lives = match tcb.status {
                TaskStatus::Runnable | TaskStatus::Running | TaskStatus::Blocked(_) => true,
                _ => false,
            };
            let admitted = lives && (tcb.server_reply_link is None || owes(
                tasks,
                s,
                index,
                generation,
            ));
            &&& tasks.link_admitted(server, index, generation) == admitted
            &&& tasks.linked(server, index, generation) == if admitted {
                relinked(tasks, s, Some(link))
            } else {
                tasks
            }
            &&& tasks.has_link(server, index, generation) == owes(tasks, s, index, generation)
            &&& tasks.unlinked(server, index, generation) == if owes(tasks, s, index, generation) {
                relinked(tasks, s, None)
            } else {
                tasks
            }
        }),
{
    crate::laws::slots::law_task_is_found_where_it_stands(tasks, s);
}

/// Is the record in slot `index` bound to the task in slot `s`?
pub open spec fn is_bound(k: Kernel, index: int, s: int) -> bool {
    &&& 0 <= index < k.ipc.replies.len()
    &&& k.ipc.replies[index].record is Some
    &&& 0 <= s < k.tasks.tcbs.len()
    &&& k.tasks.tcbs[s] is Some
    &&& k.tasks.tcbs[s]->0.asid is Some
    &&& k.ipc.replies[index].record->0.responder_tid == Some(k.tasks.tcbs[s]->0.tid)
    &&& k.ipc.replies[index].record->0.replier_asid == k.tasks.tcbs[s]->0.asid
}

/// Using a reply up takes it from reserved to consumed and releases the server from its debt; a
/// reply that is not reserved is not used up.
pub proof fn law_used_reply_releases_its_server(k: Kernel, index: usize, generation: u64, s: int)
    requires
        k.tasks.apart(),
        is_bound(k, index as int, s),
    ensures
        ({
            let after = k.reply_consumed(index, generation);
            let reserved = stands(
                k.ipc,
                index as int,
                generation,
                ReplyRecordReservation::Reserved,
            );
            &&& !reserved ==> after == k
            &&& reserved ==> after == (Kernel {
                ipc: moved_to(k.ipc, index as int, ReplyRecordReservation::Consumed),
                tasks: if owes(k.tasks, s, index, generation) {
                    relinked(k.tasks, s, None)
                } else {
                    k.tasks
                },
                ..k
            })
        }),
{
    crate::laws::slots::law_task_is_found_where_it_stands(k.tasks, s);
    law_link_goes_on_and_off(k.tasks, s, index, generation);
}

/// A link is taken off for the sake of a record exactly when the server that the record is bound
/// to owes that very reply.
pub proof fn law_record_finds_its_server(k: Kernel, index: usize, generation: u64, s: int)
    requires
        k.tasks.apart(),
        is_bound(k, index as int, s),
        k.ipc.replies[index as int].generation == generation,
    ensures
        k.link_is_open(index, generation) == owes(k.tasks, s, index, generation),
        k.link_finalized(index, generation) == (Kernel {
            tasks: if owes(k.tasks, s, index, generation) {
                relinked(k.tasks, s, None)
            } else {
                k.tasks
            },
            ..k
        }),
{
    crate::laws::slots::law_task_is_found_where_it_stands(k.tasks, s);
    law_link_goes_on_and_off(k.tasks, s, index, generation);
}

/// A reply that was used up is made good again exactly for the server it is bound to, and only
/// while that server lives and owes no other: record and debt come back together.
pub proof fn law_used_reply_is_made_good(k: Kernel, index: usize, generation: u64, s: int)
    requires
        k.tasks.apart(),
        0 <= s < k.tasks.tcbs.len(),
        k.tasks.tcbs[s] is Some,
        k.tasks.tcbs[s]->0.asid is Some,
    ensures
        ({
            let tcb = k.tasks.tcbs[s]->0;
            let replier = ReceiverWaiterIdentity { tid: tcb.tid, asid: tcb.asid->0 };
            let lives = match tcb.status {
                TaskStatus::Runnable | TaskStatus::Running | TaskStatus::Blocked(_) => true,
                _ => false,
            };
            let good = lives && (tcb.server_reply_link is None || owes(
                k.tasks,
                s,
                index,
                generation,
            )) && stands(k.ipc, index as int, generation, ReplyRecordReservation::Consumed)
                && is_bound(k, index as int, s);
            &&& k.reply_restorable(index, generation, replier) == good
            &&& k.reply_restored(index, generation, replier) == if good {
                Kernel {
                    ipc: moved_to(k.ipc, index as int, ReplyRecordReservation::Available),
                    tasks: relinked(
                        k.tasks,
                        s,
                        Some(
                            ServerReplyLink {
                                server_tid: tcb.tid.0,
                                server_asid: tcb.asid->0,
                                reply_record_index: index,
                                reply_record_generation: generation,
                            },
                        ),
                    ),
                    ..k
                }
            } else {
                k
            }
        }),
{
    crate::laws::slots::law_task_is_found_where_it_stands(k.tasks, s);
    law_link_goes_on_and_off(k.tasks, s, index, generation);
}

/// An answer may be begun exactly on a record that is available, at this generation, and bound
/// to the very incarnation that answers.
pub proof fn law_only_the_bound_server_answers(
    ipc: Ipc,
    index: int,
    generation: u64,
    reservation: ReplyRecordReservation,
    replier: ReceiverWaiterIdentity,
)
    ensures
        ipc.record_is_of(index, generation, reservation, replier) == (stands(
            ipc,
            index,
            generation,
            reservation,
        ) && ipc.replies[index].record->0.responder_tid == Some(replier.tid)
            && ipc.replies[index].record->0.replier_asid == Some(replier.asid)),
{
}

/// The receiver's capability is written into the record of this very generation and nowhere else;
/// whether it was is told apart from a slot without a record and from a slot of another time.
pub proof fn law_receiver_s_capability_is_recorded(
    ipc: Ipc,
    index: int,
    generation: u64,
    cap: Option<CapId>,
)
    ensures
        ({
            let there = 0 <= index < ipc.replies.len() && ipc.replies[index].generation
                == generation;
            let held = there && ipc.replies[index].record is Some;
            &&& ipc.waiter_cap_verdict(index, generation) is StaleGeneration <==> !there
            &&& ipc.waiter_cap_verdict(index, generation) is Vacant <==> there && !held
            &&& ipc.waiter_cap_verdict(index, generation) is Recorded <==> held
            &&& ipc.with_waiter_cap(index, generation, cap) == if held {
                Ipc {
                    replies: ipc.replies.update(
                        index,
                        ReplySlot {
                            record: Some(
                                ReplyCapRecord {
                                    waiter_cap_id: cap,
                                    ..ipc.replies[index].record->0
                                },
                            ),
                            ..ipc.replies[index]
                        },
                    ),
                    ..ipc
                }
            } else {
                ipc
            }
        }),
{
}

/// An object is alive exactly at the generation its slot is at; what has no generation is always
/// alive.
pub proof fn law_object_lives_in_one_generation(ipc: Ipc, object: CapObject)
    ensures
        ipc.object_live(object) == match object {
            CapObject::Endpoint { index, generation } => index < ipc.endpoints.len()
                && ipc.endpoints[index as int].generation == generation,
            CapObject::Notification { index, generation } => index
                < ipc.notification_generations.len() && ipc.notification_generations[index as int]
                == generation,
            CapObject::Reply { index, generation } => index < ipc.replies.len()
                && ipc.replies[index as int].generation == generation,
            _ => true,
        },
{
}

/// Is the end of a call to be decided between several parties: was its cell armed, for this very
/// record?
pub proof fn law_arbitrated_call_is_armed(ipc: Ipc, index: usize, generation: u64)
    ensures
        ipc.terminal_arbitrated(index, generation) <==> (exists|i: int|
            i == index && 0 <= i < ipc.replies.len() && (#[trigger] ipc.replies[i]).generation
                == generation && ipc.replies[i].terminal.epoch > 0
                && ipc.replies[i].terminal.identity.reply_record_index == i
                && ipc.replies[i].terminal.identity.reply_record_generation == generation),
{
    if ipc.terminal_arbitrated(index, generation) {
        assert(ipc.replies[index as int].generation == generation);
    }
}

} // verus!
