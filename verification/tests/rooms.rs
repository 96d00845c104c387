use std::sync::atomic::{AtomicUsize, Ordering};
use std::sync::Arc;

use signal_fish_server::broadcast::{
    BroadcastProgress, BroadcastRequest, BroadcastStep, QueueReservation,
};
use signal_fish_server::connection::{ClientDeliveryHandle, DeliverySender, RelayStamp};
use signal_fish_server::delivery::SendReceipt;
use signal_fish_server::protocol::{GameDataEncoding, ServerMessage};
use signal_fish_server::relay_fanout::{
    broadcast_game_data_with, immediate_broadcast, one_shot_message_builder,
    start_routed_deliveries, start_routed_owned_deliveries, GameDataHandoff,
    ImmediateGameDataBroadcast, RelayPlan,
};
use signal_fish_server::room_transaction::{
    collect_phase_frames, validate_room_transaction, HookAnswer, PhaseFrame,
    RoomMessageTransactionOutcome, RoomRecipientMessages, RoomTransactionError,
    TransactionProgress, TransactionStep,
};
use signal_fish_server::routing::InMemoryMessageCoordinator;
use signal_fish_server::routing_gates::RoutingGateRegistry;

const ROOM: u128 = 7;

fn sender(channel: u64) -> DeliverySender {
    DeliverySender {
        channel,
        generation: 0,
    }
}

fn handle(channel: u64) -> ClientDeliveryHandle {
    ClientDeliveryHandle {
        sender: sender(channel),
        lifecycle: channel,
    }
}

fn room_of(players: &[u128]) -> InMemoryMessageCoordinator {
    let mut coordinator = InMemoryMessageCoordinator::new();
    for player in players {
        coordinator.register_local_client(*player, Some(ROOM), handle(*player as u64));
    }
    coordinator
}

fn reserved(player_id: u128) -> QueueReservation {
    QueueReservation::Reserved {
        player_id,
        sender: sender(player_id as u64),
    }
}

fn slow(player_id: u128) -> QueueReservation {
    QueueReservation::SlowConsumer {
        player_id,
        sender: sender(player_id as u64),
    }
}

fn closing(player_id: u128) -> QueueReservation {
    QueueReservation::ChannelClosed {
        player_id,
        sender: sender(player_id as u64),
    }
}

fn pong() -> Arc<ServerMessage> {
    Arc::new(ServerMessage::Pong)
}

struct DropProbe(Arc<AtomicUsize>);

impl Drop for DropProbe {
    fn drop(&mut self) {
        self.0.fetch_add(1, Ordering::Relaxed);
    }
}

#[test]
fn one_shot_message_builder_consumes_builder_once_and_defends_against_repeat_calls() {
    let calls = Arc::new(AtomicUsize::new(0));
    let calls_for_builder = Arc::clone(&calls);
    let mut builder = one_shot_message_builder(move || {
        calls_for_builder.fetch_add(1, Ordering::Relaxed);
        Some(ServerMessage::Pong)
    });

    assert!(matches!(builder.build(), Some(ServerMessage::Pong)));
    assert!(
        builder.build().is_none(),
        "a repeated call must cancel defensively"
    );
    assert_eq!(calls.load(Ordering::Relaxed), 1);
}

#[test]
fn one_shot_message_builder_preserves_cancellation_and_drops_called_capture() {
    let drops = Arc::new(AtomicUsize::new(0));
    let probe = DropProbe(Arc::clone(&drops));
    let mut builder = one_shot_message_builder(move || {
        drop(probe);
        None
    });

    assert!(
        builder.build().is_none(),
        "a missing stamp must cancel the relay"
    );
    assert!(builder.build().is_none(), "cancellation remains one-shot");
    assert_eq!(drops.load(Ordering::Relaxed), 1);
}

#[test]
fn one_shot_message_builder_drops_uncalled_builder_capture() {
    let drops = Arc::new(AtomicUsize::new(0));
    let probe = DropProbe(Arc::clone(&drops));
    let builder = one_shot_message_builder(move || {
        let _probe = probe;
        Some(ServerMessage::Pong)
    });

    drop(builder);
    assert_eq!(drops.load(Ordering::Relaxed), 1);
}

#[test]
fn registration_replaces_the_players_room_routing_scope() {
    let mut coordinator = InMemoryMessageCoordinator::new();
    let player_id = 0x660B_70BA_DA11_4CE1_8168_DA1A_D311_0020;
    let room_a = 0x660B_70BA_DA11_4CE1_8168_DA1A_D311_0021;
    let room_b = 0x660B_70BA_DA11_4CE1_8168_DA1A_D311_0022;
    let delivery = handle(1);

    coordinator.register_local_client(player_id, Some(room_a), delivery);
    coordinator.register_local_client(player_id, None, delivery);
    assert!(
        coordinator
            .collect_routed_recipients(room_a, None)
            .is_empty(),
        "clearing room routing must remove the player from the former room"
    );

    coordinator.register_local_client(player_id, Some(room_b), delivery);
    assert!(
        coordinator
            .collect_routed_recipients(room_a, None)
            .is_empty(),
        "the stale room must not contribute a second delivery"
    );
    assert_eq!(
        coordinator.collect_routed_recipients(room_b, None),
        vec![(player_id, delivery)]
    );
}

#[test]
fn a_player_is_routed_in_its_last_scope_until_it_unregisters() {
    let mut coordinator = InMemoryMessageCoordinator::new();
    coordinator.register_local_client(1, Some(ROOM), handle(1));
    assert!(coordinator.is_routed(1, ROOM));
    coordinator.register_local_client(1, Some(8), handle(2));
    assert!(!coordinator.is_routed(1, ROOM));
    assert!(coordinator.is_routed(1, 8));
    assert!(coordinator.keeps_room_gate(8) && !coordinator.keeps_room_gate(ROOM));
    assert_eq!(coordinator.delivery_handle(1), Some(handle(2)));
    coordinator.register_local_client(1, None, handle(3));
    assert!(!coordinator.is_routed(1, 8));
    assert_eq!(coordinator.delivery_handle(1), Some(handle(3)));
    coordinator.unregister_local_client(1);
    assert_eq!(coordinator.delivery_handle(1), None);
}

#[test]
fn a_terminal_unroute_keeps_the_tail_it_was_handed() {
    let mut coordinator = room_of(&[1, 2]);
    let tail = coordinator.unroute_local_client_with_tail(
        1,
        Some((handle(11), RelayStamp { epoch: 2, seq: 9 })),
    );
    assert_eq!(tail, Some(RelayStamp { epoch: 2, seq: 9 }));
    assert!(!coordinator.is_routed(1, ROOM));
    assert_eq!(coordinator.delivery_handle(1), Some(handle(11)));
    assert_eq!(coordinator.unroute_local_client_with_tail(2, None), None);
    assert_eq!(coordinator.delivery_handle(2), None);
}

#[test]
fn recipients_are_the_routed_members_but_the_sender() {
    let coordinator = room_of(&[3, 1, 2]);
    assert_eq!(coordinator.routed_player_ids(ROOM), vec![1, 2, 3]);
    let mut recipients: Vec<u128> = coordinator
        .collect_routed_recipients(ROOM, Some(2))
        .into_iter()
        .map(|(player, _)| player)
        .collect();
    recipients.sort_unstable();
    assert_eq!(recipients, vec![1, 3]);
    assert!(coordinator.collect_routed_recipients(8, None).is_empty());
    assert_eq!(coordinator.player_routing_lock_order(1, Some(3)), vec![3, ROOM]);
}

#[test]
fn a_replacement_survives_the_pruning_of_its_predecessor() {
    let mut coordinator = room_of(&[1]);
    coordinator.remove_client_if_same_sender(1, &sender(99));
    assert!(coordinator.delivery_handle(1).is_some());
    coordinator.remove_client_if_same_sender(
        1,
        &DeliverySender {
            channel: 1,
            generation: 5,
        },
    );
    assert!(coordinator.delivery_handle(1).is_none());
}

#[test]
fn a_broadcast_commits_only_once_everybody_is_covered() {
    let mut coordinator = room_of(&[1, 2, 3]);
    let request = BroadcastRequest {
        room_id: ROOM,
        except_player: Some(3),
        expected_members: None,
    };
    let mut progress = BroadcastProgress::new();
    let mut step = |progress: &BroadcastProgress| {
        coordinator.broadcast_to_room_if_with_hook(&request, progress)
    };
    assert_eq!(step(&progress), BroadcastStep::ReadGate);
    progress.open_at_start = Some(true);
    assert_eq!(step(&progress), BroadcastStep::Reserve);
    progress.reservations = Some(vec![reserved(2), closing(1)]);
    assert_eq!(step(&progress), BroadcastStep::ReadGateAgain);
    progress.open_after_reservations = Some(true);
    assert_eq!(step(&progress), BroadcastStep::ReadGateForCommit);
    progress.open_before_commit = Some(true);
    assert_eq!(step(&progress), BroadcastStep::Commit);
    progress.receipts = Some(vec![SendReceipt::Closed, SendReceipt::Enqueued]);
    assert_eq!(
        step(&progress),
        BroadcastStep::Done {
            delivered: true,
            canceled: 0
        }
    );
}

#[test]
fn a_slow_member_is_pruned_and_the_broadcast_starts_over() {
    let mut coordinator = room_of(&[1, 2]);
    let request = BroadcastRequest {
        room_id: ROOM,
        except_player: None,
        expected_members: None,
    };
    let mut progress = BroadcastProgress::new();
    progress.open_at_start = Some(true);
    progress.reservations = Some(vec![reserved(1), slow(2)]);
    progress.open_after_reservations = Some(true);
    assert_eq!(
        coordinator.broadcast_to_room_if_with_hook(&request, &progress),
        BroadcastStep::Retry { canceled: 1 }
    );
    assert!(coordinator.delivery_handle(2).is_none());
    assert!(coordinator.delivery_handle(1).is_some());
}

#[test]
fn a_rerouted_member_makes_the_broadcast_start_over() {
    let mut coordinator = room_of(&[1, 2]);
    let request = BroadcastRequest {
        room_id: ROOM,
        except_player: None,
        expected_members: None,
    };
    let mut progress = BroadcastProgress::new();
    progress.open_at_start = Some(true);
    progress.reservations = Some(vec![reserved(1), reserved(2)]);
    progress.open_after_reservations = Some(true);
    coordinator.register_local_client(2, Some(ROOM), handle(22));
    assert_eq!(
        coordinator.broadcast_to_room_if_with_hook(&request, &progress),
        BroadcastStep::Retry { canceled: 2 }
    );
}

#[test]
fn a_broadcast_for_another_membership_is_dropped() {
    let mut coordinator = room_of(&[1, 2]);
    let request = BroadcastRequest {
        room_id: ROOM,
        except_player: None,
        expected_members: Some(vec![1, 2, 3]),
    };
    let mut progress = BroadcastProgress::new();
    progress.open_at_start = Some(true);
    progress.reservations = Some(vec![reserved(1), reserved(2)]);
    progress.open_after_reservations = Some(true);
    assert_eq!(
        coordinator.broadcast_to_room_if_with_hook(&request, &progress),
        BroadcastStep::Done {
            delivered: false,
            canceled: 2
        }
    );
}

fn two_phase_batches() -> Vec<RoomRecipientMessages> {
    vec![
        RoomRecipientMessages::in_order(1, vec![pong(), pong()]),
        RoomRecipientMessages::from_first_phase(2, 1, vec![pong()]),
    ]
}

#[test]
fn transactions_are_validated_before_they_begin() {
    assert_eq!(
        validate_room_transaction(&vec![], &vec![]),
        Err(RoomTransactionError::MembershipNotUnique)
    );
    assert_eq!(
        validate_room_transaction(&vec![1, 1], &two_phase_batches()),
        Err(RoomTransactionError::MembershipNotUnique)
    );
    assert_eq!(
        validate_room_transaction(&vec![1, 3], &two_phase_batches()),
        Err(RoomTransactionError::BatchesDoNotCover)
    );
    assert_eq!(
        validate_room_transaction(
            &vec![1],
            &vec![RoomRecipientMessages::in_order(1, vec![])]
        ),
        Err(RoomTransactionError::NoFrames)
    );
    assert_eq!(
        validate_room_transaction(
            &vec![1],
            &vec![RoomRecipientMessages::in_order(
                1,
                vec![pong(), pong(), pong()]
            )]
        ),
        Err(RoomTransactionError::UnsupportedPhases)
    );
    assert_eq!(
        validate_room_transaction(&vec![2, 1], &two_phase_batches()),
        Ok(())
    );
    assert_eq!(
        RoomTransactionError::NoFrames.message(),
        "room message transaction requires at least one frame"
    );
}

#[test]
fn every_first_phase_frame_precedes_the_second_phase() {
    let batches = two_phase_batches();
    let reservations = vec![reserved(2), reserved(1)];
    assert_eq!(
        collect_phase_frames(&batches, &reservations, 0),
        vec![PhaseFrame {
            player_id: 1,
            message_index: 0
        }]
    );
    assert_eq!(
        collect_phase_frames(&batches, &reservations, 1),
        vec![
            PhaseFrame {
                player_id: 2,
                message_index: 0
            },
            PhaseFrame {
                player_id: 1,
                message_index: 1
            }
        ]
    );
}

fn transact(
    coordinator: &mut InMemoryMessageCoordinator,
    expected: &Vec<u128>,
    batches: &Vec<RoomRecipientMessages>,
    progress: &TransactionProgress,
) -> TransactionStep {
    coordinator
        .commit_room_messages_if_members_with_hook(ROOM, expected, batches, progress)
        .expect("the transaction is well formed")
}

#[test]
fn a_malformed_transaction_is_refused_and_changes_no_routing() {
    let mut coordinator = room_of(&[1, 2]);
    let mut progress = TransactionProgress::new();
    progress.reservations = Some(vec![reserved(1), slow(2)]);
    for (expected, batches, error) in [
        (
            vec![1, 1],
            two_phase_batches(),
            RoomTransactionError::MembershipNotUnique,
        ),
        (
            vec![],
            vec![],
            RoomTransactionError::MembershipNotUnique,
        ),
        (
            vec![1, 3],
            two_phase_batches(),
            RoomTransactionError::BatchesDoNotCover,
        ),
        (
            vec![1],
            vec![RoomRecipientMessages::in_order(1, vec![])],
            RoomTransactionError::NoFrames,
        ),
        (
            vec![1],
            vec![RoomRecipientMessages::in_order(
                1,
                vec![pong(), pong(), pong()],
            )],
            RoomTransactionError::UnsupportedPhases,
        ),
    ] {
        assert_eq!(
            coordinator
                .commit_room_messages_if_members_with_hook(ROOM, &expected, &batches, &progress),
            Err(error)
        );
        assert!(coordinator.is_routed(1, ROOM) && coordinator.is_routed(2, ROOM));
    }
}

#[test]
fn members_and_batches_may_come_in_any_order() {
    for expected in [vec![1, 2], vec![2, 1]] {
        for turned in [false, true] {
            let mut batches = two_phase_batches();
            if turned {
                batches.reverse();
            }
            let mut coordinator = room_of(&[1, 2]);
            let mut progress = TransactionProgress::new();
            assert_eq!(
                transact(&mut coordinator, &expected, &batches, &progress),
                TransactionStep::Reserve
            );
            progress.reservations = Some(vec![reserved(1), reserved(2)]);
            progress.hook = Some(HookAnswer::Rejected);
            assert_eq!(
                transact(&mut coordinator, &expected, &batches, &progress),
                TransactionStep::Done {
                    outcome: RoomMessageTransactionOutcome::HookRejected,
                    canceled: 3
                }
            );
        }
    }
    assert_eq!(
        validate_room_transaction(&vec![3, 1], &two_phase_batches()),
        validate_room_transaction(&vec![1, 3], &two_phase_batches())
    );
}

#[test]
fn a_transaction_publishes_both_phases() {
    let mut coordinator = room_of(&[1, 2]);
    let (expected, batches) = (vec![1, 2], two_phase_batches());
    let mut progress = TransactionProgress::new();
    let mut step = |progress: &TransactionProgress| {
        transact(&mut coordinator, &expected, &batches, progress)
    };
    assert_eq!(step(&progress), TransactionStep::Reserve);
    progress.reservations = Some(vec![reserved(1), reserved(2)]);
    assert_eq!(step(&progress), TransactionStep::RunHook);
    progress.hook = Some(HookAnswer::Accepted);
    assert_eq!(step(&progress), TransactionStep::PublishFirstPhase);
    progress.first_phase = Some(vec![SendReceipt::Enqueued]);
    assert_eq!(step(&progress), TransactionStep::AskContinuation { failed: 0 });
    progress.continue_publication = Some(true);
    assert_eq!(step(&progress), TransactionStep::PublishSecondPhase);
    progress.second_phase = Some(vec![SendReceipt::Enqueued, SendReceipt::Enqueued]);
    assert_eq!(
        step(&progress),
        TransactionStep::Done {
            outcome: RoomMessageTransactionOutcome::Committed,
            canceled: 0
        }
    );
    progress.second_phase = Some(vec![SendReceipt::Closed, SendReceipt::Enqueued]);
    assert_eq!(
        step(&progress),
        TransactionStep::Done {
            outcome: RoomMessageTransactionOutcome::CommittedDegraded { failed_frames: 1 },
            canceled: 0
        }
    );
}

#[test]
fn a_failed_first_phase_can_cancel_the_second() {
    let mut coordinator = room_of(&[1, 2]);
    let progress = TransactionProgress {
        reservations: Some(vec![reserved(1), reserved(2)]),
        hook: Some(HookAnswer::Accepted),
        first_phase: Some(vec![SendReceipt::Closed]),
        continue_publication: Some(false),
        second_phase: None,
    };
    assert_eq!(
        transact(
            &mut coordinator,
            &vec![1, 2],
            &two_phase_batches(),
            &progress
        ),
        TransactionStep::Done {
            outcome: RoomMessageTransactionOutcome::CommittedDegraded { failed_frames: 3 },
            canceled: 2
        }
    );
}

#[test]
fn a_refused_or_failed_hook_publishes_nothing() {
    let mut coordinator = room_of(&[1, 2]);
    for (hook, expected) in [
        (
            HookAnswer::Rejected,
            TransactionStep::Done {
                outcome: RoomMessageTransactionOutcome::HookRejected,
                canceled: 3,
            },
        ),
        (
            HookAnswer::Failed,
            TransactionStep::HookError { canceled: 3 },
        ),
    ] {
        let mut progress = TransactionProgress::new();
        progress.reservations = Some(vec![reserved(1), reserved(2)]);
        progress.hook = Some(hook);
        assert_eq!(
            transact(
                &mut coordinator,
                &vec![1, 2],
                &two_phase_batches(),
                &progress
            ),
            expected
        );
    }
}

#[test]
fn a_member_that_leaves_aborts_the_transaction() {
    let mut coordinator = room_of(&[1, 2]);
    let mut progress = TransactionProgress::new();
    progress.reservations = Some(vec![reserved(1), reserved(2)]);
    coordinator.register_local_client(2, None, handle(2));
    assert_eq!(
        transact(
            &mut coordinator,
            &vec![1, 2],
            &two_phase_batches(),
            &progress
        ),
        TransactionStep::Done {
            outcome: RoomMessageTransactionOutcome::RoutingChanged,
            canceled: 3
        }
    );
}

#[test]
fn a_full_member_aborts_the_transaction_before_the_hook() {
    let mut coordinator = room_of(&[1, 2]);
    let (expected, batches) = (vec![1, 2], two_phase_batches());
    let mut progress = TransactionProgress::new();
    progress.reservations = Some(vec![reserved(1), slow(2)]);
    assert_eq!(
        transact(&mut coordinator, &expected, &batches, &progress),
        TransactionStep::Retry { canceled: 2 }
    );
    assert_eq!(
        transact(
            &mut coordinator,
            &expected,
            &batches,
            &TransactionProgress::new()
        ),
        TransactionStep::Done {
            outcome: RoomMessageTransactionOutcome::RoutingChanged,
            canceled: 0
        }
    );
}

#[test]
fn relayed_frames_are_shared_where_projecting_them_repeats() {
    let frame = ServerMessage::GameData {
        from_player: 1,
        data: "{}".to_string(),
        seq: Some(1),
        epoch: Some(1),
        class: None,
        key: None,
    };
    let v3 = Some((true, GameDataEncoding::Json));
    assert_eq!(
        start_routed_owned_deliveries(&frame, &vec![v3, v3]),
        RelayPlan::CoownedShared
    );
    assert_eq!(
        start_routed_owned_deliveries(&frame, &vec![v3, v3, None]),
        RelayPlan::Shared
    );
    assert_eq!(
        start_routed_owned_deliveries(&frame, &vec![v3, None]),
        RelayPlan::PerRecipient
    );
    assert_eq!(
        start_routed_deliveries(&frame, &vec![v3, v3]),
        RelayPlan::Shared
    );
}

#[test]
fn frames_addressed_to_each_recipient_are_never_shared() {
    let frame = ServerMessage::AuthorityChanged {
        authority_player: Some(1),
        you_are_authority: false,
    };
    let v3 = Some((true, GameDataEncoding::Json));
    assert_eq!(
        start_routed_owned_deliveries(&frame, &vec![v3, v3]),
        RelayPlan::PerRecipient
    );
    assert_eq!(
        start_routed_deliveries(&frame, &vec![v3, v3, None]),
        RelayPlan::PerRecipient
    );
}

#[test]
fn only_an_attempt_that_started_nothing_is_repeated() {
    assert_eq!(
        immediate_broadcast(false, None),
        ImmediateGameDataBroadcast::Unavailable
    );
    assert_eq!(
        immediate_broadcast(true, None),
        ImmediateGameDataBroadcast::Complete
    );
    assert_eq!(
        immediate_broadcast(true, Some((0, 0))),
        ImmediateGameDataBroadcast::Complete
    );
    assert_eq!(
        immediate_broadcast(true, Some((1, 0))),
        ImmediateGameDataBroadcast::Pending
    );
    assert_eq!(
        broadcast_game_data_with(ImmediateGameDataBroadcast::Complete),
        GameDataHandoff::Finished
    );
    assert_eq!(
        broadcast_game_data_with(ImmediateGameDataBroadcast::Pending),
        GameDataHandoff::AwaitCompletion
    );
    assert_eq!(
        broadcast_game_data_with(ImmediateGameDataBroadcast::Unavailable),
        GameDataHandoff::BroadcastAfterContention
    );
}

#[test]
fn held_gates_are_shared_and_idle_ones_leave_nothing_behind() {
    let mut gates = RoutingGateRegistry::new();
    let first = gates.gate(ROOM);
    assert_eq!(gates.gate(ROOM), first);
    assert!(!gates.release(ROOM, first));
    gates.mark_active(ROOM, first);
    assert!(!gates.release(ROOM, first));
    assert_eq!(gates.gate(ROOM), first, "an active room keeps its gate");
    assert!(!gates.release(ROOM, first));
    assert_eq!(gates.mark_inactive(ROOM), Some(first));
    let second = gates.gate(ROOM);
    assert_ne!(second, first);
    gates.drop_gate(ROOM, first);
    assert_eq!(gates.len(), 1, "a late cleanup spares the replacement");
    assert!(gates.release(ROOM, second));
    gates.drop_gate(ROOM, second);
    assert_eq!(gates.len(), 0);
}
