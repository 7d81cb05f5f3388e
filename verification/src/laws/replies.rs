//! Laws of replies: a reply is owed by one server and given at most once.
use vstd::prelude::*;

use crate::capability::CapObject;
use crate::ipc::{Ipc, ReceiverWaiterIdentity, ReplyRecordReservation};
use crate::kernel::Kernel;
use crate::seqs;
use crate::task::{Tasks, ThreadControlBlock};

verus! {

/// A reservation names a record that no earlier reference to the slot names, and leaves the
/// other slots alone.
pub proof fn law_reservation_is_fresh(
    ipc: Ipc,
    caller: ReceiverWaiterIdentity,
    replier: ReceiverWaiterIdentity,
    reply_endpoint: CapObject,
)
    requires
        ipc.reply_fits(),
    ensures
        ({
            let i = ipc.vacant_reply();
            let after = ipc.reply_reserved(caller, replier, reply_endpoint);
            let generation = crate::ipc::next_generation(ipc.replies[i].generation);
            &&& generation != ipc.replies[i].generation
            &&& generation != 0
            &&& ipc.replies[i].record is None
            &&& after.record_is_of(i, generation, ReplyRecordReservation::Reserved, replier)
            &&& after.reply_record(i, ipc.replies[i].generation) is None
            &&& forall|j: int|
                0 <= j < ipc.replies.len() && j != i ==> #[trigger] after.replies[j]
                    == ipc.replies[j]
        }),
{
    seqs::lemma_first_where(ipc.replies, crate::ipc::reply_vacant());
}

/// A reference of another generation than the slot's names nothing: whatever is asked of it is
/// refused and changes nothing.
pub proof fn law_stale_reply_reference_is_inert(
    k: Kernel,
    index: usize,
    generation: u64,
    from: ReplyRecordReservation,
    to: ReplyRecordReservation,
    replier: ReceiverWaiterIdentity,
)
    requires
        !k.ipc.reply_at(index as int, generation),
    ensures
        !k.ipc.record_is(index as int, generation, from),
        k.ipc.record_moved(index as int, generation, from, to) == k.ipc,
        k.reply_consumed(index, generation) == k,
        k.link_finalized(index, generation) == k,
        k.reply_restored(index, generation, replier) == k,
{
}

/// A record leaves a state once: what moved it cannot move it again from there.
pub proof fn law_record_moves_once(
    ipc: Ipc,
    index: int,
    generation: u64,
    from: ReplyRecordReservation,
    to: ReplyRecordReservation,
)
    requires
        ipc.record_is(index, generation, from),
        from != to,
    ensures
        ipc.record_moved(index, generation, from, to).record_is(index, generation, to),
        !ipc.record_moved(index, generation, from, to).record_is(index, generation, from),
        ipc.record_moved(index, generation, from, to).record_moved(index, generation, to, from)
            == ipc,
{
    let there = ipc.record_moved(index, generation, from, to);
    assert(there.record_moved(index, generation, to, from).replies =~= ipc.replies);
}

/// A reply is used up at most once.
pub proof fn law_reply_is_used_up_once(k: Kernel, index: usize, generation: u64)
    requires
        k.ipc.record_is(index as int, generation, ReplyRecordReservation::Reserved),
    ensures
        k.reply_consumed(index, generation).ipc.record_is(
            index as int,
            generation,
            ReplyRecordReservation::Consumed,
        ),
        k.reply_consumed(index, generation).reply_consumed(index, generation) == k.reply_consumed(
            index,
            generation,
        ),
{
    law_record_moves_once(
        k.ipc,
        index as int,
        generation,
        ReplyRecordReservation::Reserved,
        ReplyRecordReservation::Consumed,
    );
}

/// A server that owes nothing may be linked to a reply; the link comes off as it went on, and
/// while it is on the server can owe no other reply.
pub proof fn law_server_owes_one_reply(
    tasks: Tasks,
    server: ReceiverWaiterIdentity,
    index: usize,
    generation: u64,
    other_index: usize,
    other_generation: u64,
)
    requires
        tasks.link_admitted(server, index, generation),
        other_index != index || other_generation != generation,
    ensures
        tasks.linked(server, index, generation).has_link(server, index, generation),
        !tasks.linked(server, index, generation).link_admitted(
            server,
            other_index,
            other_generation,
        ),
        tasks.exact(server.tid.0, Some(server.asid))->0.server_reply_link is None ==> tasks.linked(
            server,
            index,
            generation,
        ).unlinked(server, index, generation) == tasks,
{
    let asid = Some(server.asid);
    let tcb = tasks.exact(server.tid.0, asid)->0;
    seqs::lemma_first_where(tasks.tcbs, crate::task::is_incarnation(server.tid.0, asid));
    crate::task::lemma_exact_replaced(
        tasks,
        server.tid.0,
        asid,
        ThreadControlBlock {
            server_reply_link: Some(
                crate::runtime::replies::link_of(server, index, generation),
            ),
            ..tcb
        },
    );
    if tcb.server_reply_link is None {
        assert(tasks.linked(server, index, generation).unlinked(server, index, generation).tcbs
            =~= tasks.tcbs);
    }
}

/// A server that is gone, or whose number another incarnation has by now, is not touched by
/// what concerns its links.
pub proof fn law_links_of_the_gone_are_inert(
    tasks: Tasks,
    server: ReceiverWaiterIdentity,
    index: usize,
    generation: u64,
)
    requires
        tasks.exact(server.tid.0, Some(server.asid)) is None,
    ensures
        !tasks.has_link(server, index, generation),
        tasks.linked(server, index, generation) == tasks,
        tasks.unlinked(server, index, generation) == tasks,
{
}

/// An answer that was begun and used its reply up can be undone in full: record and link are
/// as they were.
pub proof fn law_answer_can_be_undone(
    k: Kernel,
    index: usize,
    generation: u64,
    replier: ReceiverWaiterIdentity,
)
    requires
        k.ipc.record_is_of(
            index as int,
            generation,
            ReplyRecordReservation::Available,
            replier,
        ),
        k.tasks.has_link(replier, index, generation),
        k.tasks.exact(replier.tid.0, Some(replier.asid))->0.status.spec_live(),
    ensures
        ({
            let begun = Kernel {
                ipc: k.ipc.record_moved(
                    index as int,
                    generation,
                    ReplyRecordReservation::Available,
                    ReplyRecordReservation::Reserved,
                ),
                ..k
            };
            let used = begun.reply_consumed(index, generation);
            &&& !used.tasks.has_link(replier, index, generation)
            &&& used.reply_restorable(index, generation, replier)
            &&& used.reply_restored(index, generation, replier) == k
        }),
{
    let i = index as int;
    let asid = Some(replier.asid);
    let tcb = k.tasks.exact(replier.tid.0, asid)->0;
    let begun = Kernel {
        ipc: k.ipc.record_moved(
            i,
            generation,
            ReplyRecordReservation::Available,
            ReplyRecordReservation::Reserved,
        ),
        ..k
    };
    let used = begun.reply_consumed(index, generation);
    seqs::lemma_first_where(k.tasks.tcbs, crate::task::is_incarnation(replier.tid.0, asid));
    crate::task::lemma_exact_replaced(
        k.tasks,
        replier.tid.0,
        asid,
        ThreadControlBlock { server_reply_link: None, ..tcb },
    );
    assert(used.tasks == k.tasks.unlinked(replier, index, generation));
    let back = used.reply_restored(index, generation, replier);
    assert(back.ipc.replies =~= k.ipc.replies);
    assert(back.tasks.tcbs =~= k.tasks.tcbs);
}

} // verus!
