//! The life of a reply record, and the link of the server that owes it.
use yarm_runtime::capability::{CapObject, CapRights, Capability, RIGHT_RECEIVE, RIGHT_SEND};
use yarm_runtime::ids::{Asid, CNodeId, CapId, CpuId, KernelError, SyscallError, ThreadId};
use yarm_runtime::ipc::{
    EndpointMode, EndpointSlot, EnvelopeSlot, ReceiverWaiterIdentity, ReplyRecordReservation,
    ReplyRecordSetOutcome, TransferEnvelope, TransferState, MAX_REPLY_CAPS,
};
use yarm_runtime::kernel::Bootstrap;
use yarm_runtime::runtime::transfer::{
    CapTransferMaterializeOutcome, TransferCapDelegation, TransferCapSnapshot,
};
use yarm_runtime::runtime::SharedKernel;
use yarm_runtime::task::{
    BlockedRecvState, RecvAbiVariant, TaskStatus, ThreadControlBlock, WaitReason,
};

const ENDPOINT: CapObject = CapObject::Endpoint { index: 2, generation: 4 };
const CALLER: ReceiverWaiterIdentity = ReceiverWaiterIdentity { tid: ThreadId(5), asid: Asid(3) };
const SERVER: ReceiverWaiterIdentity = ReceiverWaiterIdentity { tid: ThreadId(8), asid: Asid(4) };

fn edit<F: FnOnce(&mut ThreadControlBlock)>(kernel: &mut SharedKernel, tid: u64, f: F) {
    kernel.with_task_tcbs_split_mut(|tcbs| {
        f(tcbs
            .iter_mut()
            .flatten()
            .find(|tcb| tcb.tid.0 == tid)
            .expect("control block"))
    });
}

/// A kernel with a caller, a server and an endpoint.
fn boot() -> SharedKernel {
    let mut kernel = SharedKernel::new(Bootstrap::init().expect("init"));
    for identity in [CALLER, SERVER] {
        kernel.with(|state| state.register_task(identity.tid.0).expect("task"));
        edit(&mut kernel, identity.tid.0, |tcb| tcb.asid = Some(identity.asid));
    }
    kernel.with_ipc_split_mut(|ipc| {
        ipc.endpoints[2] = EndpointSlot {
            mode: Some(EndpointMode::Synchronous),
            generation: 4,
            waiter: None,
        }
    });
    kernel
}

fn reservation(kernel: &SharedKernel, index: usize, generation: u64) -> ReplyRecordReservation {
    kernel
        .state
        .ipc
        .reply_record(index, generation)
        .expect("record")
        .reservation
}

/// Stashes an envelope for the reply in slot 0 and returns its handle.
fn stash_reply(kernel: &mut SharedKernel, generation: u64) -> u64 {
    kernel.with_ipc_split_mut(|ipc| {
        ipc.envelopes[0] = EnvelopeSlot {
            generation: 6,
            envelope: Some(TransferEnvelope {
                endpoint: ENDPOINT,
                source_object: CapObject::Reply { index: 0, generation },
                source_tid: CALLER.tid,
                source_cap: CapId(1),
                receiver_tid: Some(SERVER.tid),
                shared_region: None,
                state: TransferState::Stashed,
            }),
        }
    });
    6 << 16
}

#[test]
fn a_reservation_is_fresh_and_committed_once() {
    let mut kernel = boot();
    let (index, generation) = kernel
        .reserve_direct_reply_record_split(CALLER, SERVER, ENDPOINT)
        .expect("reserve");
    assert_eq!((index, generation), (0, 1));
    let (second, _) = kernel
        .reserve_direct_reply_record_split(CALLER, SERVER, ENDPOINT)
        .expect("reserve");
    assert_eq!(second, 1);
    assert_eq!(
        reservation(&kernel, index, generation),
        ReplyRecordReservation::Reserved
    );
    assert!(kernel.bind_direct_reply_record_server_cap_split(index, generation, CapId(7)));
    assert!(kernel.commit_direct_reply_record_split(index, generation));
    assert!(!kernel.commit_direct_reply_record_split(index, generation));
    assert!(!kernel.bind_direct_reply_record_server_cap_split(index, generation, CapId(8)));
    let record = kernel.state.ipc.reply_record(index, generation).expect("record");
    assert_eq!(record.reservation, ReplyRecordReservation::Available);
    assert_eq!(record.waiter_cap_id, Some(CapId(7)));
    assert_eq!((record.caller_tid, record.caller_asid), (CALLER.tid, CALLER.asid));
    assert_eq!(
        kernel.reply_record_endpoint_ref_split_read(index, generation),
        Some((2, 4))
    );
}

#[test]
fn a_stale_reference_does_nothing() {
    let mut kernel = boot();
    let (index, generation) = kernel
        .reserve_direct_reply_record_split(CALLER, SERVER, ENDPOINT)
        .expect("reserve");
    let stale = generation + 1;
    assert!(!kernel.bind_direct_reply_record_server_cap_split(index, stale, CapId(7)));
    assert!(!kernel.commit_direct_reply_record_split(index, stale));
    assert!(!kernel.cancel_direct_reply_record_split(index, stale));
    assert!(!kernel.consume_reply_record_split(index, stale));
    assert!(!kernel.release_reply_record_split(index, stale));
    assert!(!kernel.discard_reply_record_split(index, stale));
    assert!(!kernel.reserve_existing_reply_record_split(index, stale, SERVER));
    assert_eq!(kernel.reply_record_endpoint_ref_split_read(index, stale), None);
    assert!(!kernel.reply_object_live_split(index, stale));
    assert!(kernel.reply_object_live_split(index, generation));
    assert_eq!(
        reservation(&kernel, index, generation),
        ReplyRecordReservation::Reserved
    );
}

#[test]
fn a_cancelled_record_makes_room() {
    let mut kernel = boot();
    for _ in 0..MAX_REPLY_CAPS {
        kernel
            .reserve_direct_reply_record_split(CALLER, SERVER, ENDPOINT)
            .expect("room");
    }
    assert_eq!(
        kernel.reserve_direct_reply_record_split(CALLER, SERVER, ENDPOINT),
        Err(KernelError::CapabilityFull)
    );
    assert!(kernel.cancel_direct_reply_record_split(3, 1));
    assert!(!kernel.cancel_direct_reply_record_split(3, 1));
    let (index, generation) = kernel
        .reserve_direct_reply_record_split(CALLER, SERVER, ENDPOINT)
        .expect("room again");
    assert_eq!(index, 3);
    assert_ne!(generation, 1);
}

#[test]
fn a_reply_is_used_up_once_and_can_be_made_good() {
    let mut kernel = boot();
    let (index, generation) = kernel
        .reserve_direct_reply_record_split(CALLER, SERVER, ENDPOINT)
        .expect("reserve");
    assert!(kernel.commit_direct_reply_record_split(index, generation));
    assert!(kernel.register_server_reply_link_split(8, SERVER.asid, index, generation));
    assert_eq!(kernel.live_server_reply_link_count_split_read(), 1);
    assert!(!kernel.consume_reply_record_split(index, generation), "not reserved yet");
    assert!(!kernel.reserve_existing_reply_record_split(index, generation, CALLER));
    assert!(kernel.reserve_existing_reply_record_split(index, generation, SERVER));
    assert!(!kernel.reserve_existing_reply_record_split(index, generation, SERVER));
    assert!(kernel.consume_reply_record_split(index, generation));
    assert!(!kernel.consume_reply_record_split(index, generation));
    assert_eq!(kernel.live_server_reply_link_count_split_read(), 0);
    assert_eq!(
        reservation(&kernel, index, generation),
        ReplyRecordReservation::Consumed
    );
    assert!(!kernel.restore_consumed_reply_record_split(index, generation, CALLER));
    assert!(kernel.restore_consumed_reply_record_split(index, generation, SERVER));
    assert_eq!(
        reservation(&kernel, index, generation),
        ReplyRecordReservation::Available
    );
    assert_eq!(kernel.live_server_reply_link_count_split_read(), 1);
}

#[test]
fn a_released_reservation_can_be_taken_again() {
    let mut kernel = boot();
    let (index, generation) = kernel
        .reserve_direct_reply_record_split(CALLER, SERVER, ENDPOINT)
        .expect("reserve");
    assert!(kernel.release_reply_record_split(index, generation));
    assert!(!kernel.release_reply_record_split(index, generation));
    assert!(kernel.reserve_existing_reply_record_split(index, generation, SERVER));
}

#[test]
fn a_server_owes_one_reply_at_a_time() {
    let mut kernel = boot();
    assert!(kernel.can_reserve_server_reply_link_split(8, SERVER.asid));
    assert!(kernel.register_server_reply_link_split(8, SERVER.asid, 1, 2));
    assert!(
        kernel.register_server_reply_link_split(8, SERVER.asid, 1, 2),
        "the same link again"
    );
    assert!(!kernel.register_server_reply_link_split(8, SERVER.asid, 2, 2));
    assert!(!kernel.register_server_reply_link_split(8, Asid(9), 1, 2));
    assert!(!kernel.register_server_reply_link_split(99, SERVER.asid, 1, 2));
    assert!(!kernel.can_reserve_server_reply_link_split(8, SERVER.asid));
    assert!(!kernel.unregister_server_reply_link_split(8, SERVER.asid, 1, 3));
    assert!(kernel.unregister_server_reply_link_split(8, SERVER.asid, 1, 2));
    assert!(!kernel.unregister_server_reply_link_split(8, SERVER.asid, 1, 2));
    assert!(kernel.can_reserve_server_reply_link_split(8, SERVER.asid));
}

#[test]
fn a_reply_is_handed_over_and_taken_back() {
    let mut kernel = boot();
    let (index, generation) = kernel
        .reserve_direct_reply_record_split(CALLER, SERVER, ENDPOINT)
        .expect("reserve");
    let handle = stash_reply(&mut kernel, generation);
    let handed = kernel.materialize_reply_cap_split(2, 8, handle).expect("handed over");
    assert_eq!((handed.reply_index, handed.reply_generation), (index, generation));
    let held = kernel
        .resolve_capability_for_task_split(8, handed.cap)
        .expect("held");
    assert_eq!(
        held,
        Capability {
            object: CapObject::Reply { index, generation },
            rights: CapRights(RIGHT_SEND)
        }
    );
    assert_eq!(
        kernel.resolve_reply_cap_split_read(8, handed.cap),
        Ok((index, generation))
    );
    let record = kernel.state.ipc.reply_record(index, generation).expect("record");
    assert_eq!(record.waiter_cap_id, Some(handed.cap));
    assert_eq!(
        kernel.materialize_reply_cap_split(2, 8, handle),
        Err(SyscallError::InvalidCapability),
        "the envelope is gone"
    );
    assert!(!kernel.rollback_reply_cap_split(8, handed.cap, index, generation + 1));
    assert!(kernel.rollback_reply_cap_split(8, handed.cap, index, generation));
    assert!(!kernel.rollback_reply_cap_split(8, handed.cap, index, generation));
    assert!(kernel.resolve_capability_for_task_split(8, handed.cap).is_err());
    let record = kernel.state.ipc.reply_record(index, generation).expect("record");
    assert_eq!(record.waiter_cap_id, None);
}

#[test]
fn a_reply_that_is_gone_is_not_handed_over() {
    let mut kernel = boot();
    let (index, generation) = kernel
        .reserve_direct_reply_record_split(CALLER, SERVER, ENDPOINT)
        .expect("reserve");
    let handle = stash_reply(&mut kernel, generation + 3);
    assert_eq!(
        kernel.materialize_reply_cap_split(2, 8, handle),
        Err(SyscallError::InvalidCapability)
    );
    assert!(kernel.cancel_direct_reply_record_split(index, generation));
    let handle = stash_reply(&mut kernel, generation);
    assert!(kernel.materialize_reply_cap_split(2, 8, handle).is_err());
    assert!(kernel.state.caps.entries.is_empty());
    assert_eq!(
        kernel.try_record_reply_waiter_cap_split(index, generation + 3, CapId(1)),
        ReplyRecordSetOutcome::StaleGeneration
    );
    kernel.with_ipc_split_mut(|ipc| ipc.put_record(index, None));
    let vacant = kernel.state.ipc.replies[index].generation;
    assert_eq!(
        kernel.try_record_reply_waiter_cap_split(index, vacant, CapId(1)),
        ReplyRecordSetOutcome::Vacant
    );
}

#[test]
fn reply_capabilities_resolve_or_say_why_not() {
    let mut kernel = boot();
    let (index, generation) = kernel
        .reserve_direct_reply_record_split(CALLER, SERVER, ENDPOINT)
        .expect("reserve");
    let endpoint = kernel
        .mint_capability_with_memory_ref_split(
            CNodeId(8),
            Capability { object: ENDPOINT, rights: CapRights(RIGHT_RECEIVE) },
        )
        .expect("mint");
    let reply = kernel
        .mint_capability_with_memory_ref_split(
            CNodeId(8),
            Capability {
                object: CapObject::Reply { index, generation },
                rights: CapRights(RIGHT_SEND),
            },
        )
        .expect("mint");
    assert_eq!(kernel.resolve_reply_cap_split_read(8, reply), Ok((index, generation)));
    assert!(kernel.resolve_reply_cap_split_read(8, endpoint).is_err());
    assert!(kernel.resolve_reply_cap_split_read(8, CapId(50)).is_err());
    assert!(kernel.resolve_reply_cap_split_read(99, reply).is_err());
}

#[test]
fn a_capability_is_copied_with_its_link_and_taken_back() {
    let mut kernel = boot();
    let object = CapObject::Notification { index: 4, generation: 0 };
    let snap = TransferCapSnapshot {
        receiver_cnode: CNodeId(8),
        object,
        rights: CapRights(RIGHT_SEND),
    };
    let delegation =
        TransferCapDelegation { source_tid: 5, source_cap: CapId(2), dest_tid: 8 };
    let outcome = kernel
        .materialize_received_message_cap_routed_with_delegation_split(snap, Some(delegation))
        .expect("copy");
    let cap = match outcome {
        CapTransferMaterializeOutcome::Materialized(cap) => cap,
        CapTransferMaterializeOutcome::DeferredReplyCap => panic!("not a reply"),
    };
    assert_eq!(kernel.state.caps.links.len(), 1);
    let seen = kernel.ordinary_cap_attestation_split(CNodeId(8), object, snap.rights, cap);
    assert!(seen.identity_match && seen.rights_ok && !seen.reply_object && !seen.is_endpoint);
    assert_eq!(seen.copied_rights, Some(RIGHT_SEND));
    let wrong = kernel.ordinary_cap_attestation_split(CNodeId(8), ENDPOINT, CapRights(0), cap);
    assert!(!wrong.identity_match && !wrong.rights_ok);
    assert_eq!((wrong.source_endpoint, wrong.copied_endpoint), (Some(2), None));
    assert!(kernel.rollback_materialized_recv_cap_no_vm_split(8, cap));
    assert!(!kernel.rollback_materialized_recv_cap_no_vm_split(8, cap));
    assert!(kernel.state.caps.links.is_empty());
    assert!(kernel.state.caps.entries.is_empty());

    let reply = TransferCapSnapshot {
        object: CapObject::Reply { index: 0, generation: 1 },
        ..snap
    };
    assert_eq!(
        kernel.materialize_received_message_cap_routed_with_delegation_split(reply, None),
        Ok(CapTransferMaterializeOutcome::DeferredReplyCap)
    );
    let nowhere = TransferCapSnapshot { receiver_cnode: CNodeId(77), ..snap };
    assert_eq!(
        kernel.materialize_received_message_cap_routed_with_delegation_split(nowhere, None),
        Err(KernelError::InvalidCapability)
    );
    for _ in 0..16 {
        kernel
            .materialize_received_message_cap_routed_with_delegation_split(snap, None)
            .expect("room");
    }
    assert_eq!(
        kernel.materialize_received_message_cap_routed_with_delegation_split(snap, None),
        Err(KernelError::CapabilityFull)
    );
}

#[test]
fn a_blocked_receive_is_complete_with_its_state() {
    let mut kernel = boot();
    assert!(!kernel.blocked_recv_v2_commit_is_complete_split_read(8));
    edit(&mut kernel, 8, |tcb| {
        tcb.status = TaskStatus::Blocked(WaitReason::EndpointReceive(CapId(1)));
        tcb.blocked_recv_state = Some(BlockedRecvState {
            recv_abi: RecvAbiVariant::RecvV2,
            payload_user_ptr: 0x4000,
            payload_user_len: 64,
            meta_user_ptr: 0x5000,
        });
    });
    assert!(kernel.blocked_recv_v2_commit_is_complete_split_read(8));
    edit(&mut kernel, 8, |tcb| {
        tcb.blocked_recv_state.as_mut().expect("state").recv_abi = RecvAbiVariant::Legacy
    });
    assert!(!kernel.blocked_recv_v2_commit_is_complete_split_read(8));
    assert!(!kernel.blocked_recv_v2_commit_is_complete_split_read(99));
    assert_eq!(kernel.current_tid_authoritative(CpuId(0)), Some(0));
}
