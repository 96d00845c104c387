use signal_fish_server::connection::{ClientDeliveryHandle, DeliverySender};
use signal_fish_server::delivery::{
    capacity_deadline, CapacityWait, CapacityWake, DeliveryOutcome, DeliveryProgress,
    DeliveryResolution, DeliveryStep, InitialProgress, InitialStep, LateAttempt,
    ReservationOutcome, ReservationProgress, ReservationStep, ReserveAttempt, SendAttempt,
    SendReceipt,
};
use signal_fish_server::player_sends::{
    handle_bus_message, reserve_room_batch, start_deliveries, BatchStep, BusRoute, DeliveryStart,
    FarewellStep, SettledWait, StartedDeliveries, StartedDelivery, TargetedProgress, TargetedSend,
    TargetedStep,
};
use signal_fish_server::routing::InMemoryMessageCoordinator;

const TIMEOUT: u128 = 1_000;

fn coordinator() -> InMemoryMessageCoordinator {
    InMemoryMessageCoordinator::with_delivery_policy(TIMEOUT)
}

fn handle(channel: u64) -> ClientDeliveryHandle {
    ClientDeliveryHandle {
        sender: DeliverySender {
            channel,
            generation: 0,
        },
        lifecycle: channel,
    }
}

fn full_delivery() -> DeliveryProgress {
    let mut progress = DeliveryProgress::new();
    progress.open_at_start = Some(true);
    progress.attempt = Some(SendAttempt::Full {
        witnessed_at: Some(100),
        now: 130,
    });
    progress
}

fn at_deadline(late: LateAttempt) -> CapacityWait {
    CapacityWait {
        wake: Some(CapacityWake::DeadlineReached),
        open_at_wake: Some(true),
        late: Some(late),
        initiated_close: None,
    }
}

#[test]
fn the_grace_runs_from_the_witnessed_full() {
    assert_eq!(capacity_deadline(Some(100), 130, TIMEOUT), 1_100);
    assert_eq!(capacity_deadline(None, 130, TIMEOUT), 1_130);
    assert_eq!(capacity_deadline(Some(u128::MAX), 0, TIMEOUT), u128::MAX);
    assert_eq!(
        coordinator().deliver_to_one_if(&full_delivery()),
        DeliveryStep::AwaitCapacity { deadline: 1_100 }
    );
}

#[test]
fn a_healthy_delivery_settles_at_once() {
    let coordinator = coordinator();
    let mut progress = DeliveryProgress::new();
    assert_eq!(
        coordinator.deliver_to_one_if(&progress),
        DeliveryStep::ReadGate
    );
    progress.open_at_start = Some(true);
    assert_eq!(
        coordinator.deliver_to_one_if(&progress),
        DeliveryStep::TrySend
    );
    progress.attempt = Some(SendAttempt::Taken {
        outcome: DeliveryOutcome::Delivered,
    });
    match coordinator.deliver_to_one_if(&progress) {
        DeliveryStep::Done { outcome, record } => {
            assert_eq!(outcome, Some(DeliveryOutcome::Delivered));
            assert_eq!(record.resolution, Some(DeliveryResolution::RecordedByQueue));
            assert!(!record.backpressured);
        }
        other => panic!("expected a settled delivery, got {other:?}"),
    }
}

#[test]
fn an_unwanted_delivery_is_not_attempted() {
    let mut progress = DeliveryProgress::new();
    progress.open_at_start = Some(false);
    match coordinator().deliver_to_one_if(&progress) {
        DeliveryStep::Done { outcome, record } => {
            assert_eq!(outcome, None);
            assert!(!record.attempted);
        }
        other => panic!("expected a settled delivery, got {other:?}"),
    }
}

#[test]
fn capacity_that_returns_late_does_not_revive_a_wait() {
    let coordinator = coordinator();
    let mut progress = full_delivery();
    progress.wait = CapacityWait::new();
    progress.wait.wake = Some(CapacityWake::DeadlineReached);
    assert_eq!(
        coordinator.deliver_to_one_if(&progress),
        DeliveryStep::ReadGateAgain
    );
    progress.wait.open_at_wake = Some(true);
    assert_eq!(
        coordinator.deliver_to_one_if(&progress),
        DeliveryStep::TryReleasedBefore { deadline: 1_100 }
    );
    progress.wait.late = Some(LateAttempt::NotReleased);
    assert_eq!(
        coordinator.deliver_to_one_if(&progress),
        DeliveryStep::RequestClose
    );
    progress.wait.initiated_close = Some(true);
    match coordinator.deliver_to_one_if(&progress) {
        DeliveryStep::Done { outcome, record } => {
            assert_eq!(outcome, Some(DeliveryOutcome::SlowConsumer));
            assert_eq!(record.resolution, Some(DeliveryResolution::Dropped));
            assert!(record.disconnected_slow_consumer);
        }
        other => panic!("expected a settled delivery, got {other:?}"),
    }
}

#[test]
fn capacity_released_before_the_deadline_is_still_granted() {
    let coordinator = coordinator();
    let mut progress = full_delivery();
    progress.wait = at_deadline(LateAttempt::Permit);
    assert_eq!(
        coordinator.deliver_to_one_if(&progress),
        DeliveryStep::Send
    );
    for (receipt, outcome, resolution) in [
        (
            SendReceipt::Enqueued,
            DeliveryOutcome::Delivered,
            DeliveryResolution::Enqueued,
        ),
        (
            SendReceipt::Stale,
            DeliveryOutcome::Canceled,
            DeliveryResolution::Canceled,
        ),
        (
            SendReceipt::Closed,
            DeliveryOutcome::ChannelClosed,
            DeliveryResolution::ChannelClosed,
        ),
    ] {
        progress.receipt = Some(receipt);
        match coordinator.deliver_to_one_if(&progress) {
            DeliveryStep::Done {
                outcome: settled,
                record,
            } => {
                assert_eq!(settled, Some(outcome));
                assert_eq!(record.resolution, Some(resolution));
                assert!(record.backpressured);
            }
            other => panic!("expected a settled delivery, got {other:?}"),
        }
    }
}

#[test]
fn a_terminal_queue_is_no_slow_consumer() {
    let coordinator = coordinator();
    for (late, expected) in [
        (LateAttempt::Closed, DeliveryOutcome::ChannelClosed),
        (LateAttempt::Canceled, DeliveryOutcome::Canceled),
    ] {
        let mut progress = full_delivery();
        progress.wait = at_deadline(late);
        match coordinator.deliver_to_one_if(&progress) {
            DeliveryStep::Done { outcome, record } => {
                assert_eq!(outcome, Some(expected));
                assert!(!record.disconnected_slow_consumer);
            }
            other => panic!("expected a settled delivery, got {other:?}"),
        }
    }
}

#[test]
fn a_drained_wait_is_neither_a_drop_nor_a_disconnect() {
    let mut progress = full_delivery();
    progress.wait.wake = Some(CapacityWake::Drained);
    match coordinator().deliver_to_one_if(&progress) {
        DeliveryStep::Done { outcome, record } => {
            assert_eq!(outcome, None);
            assert_eq!(record.resolution, Some(DeliveryResolution::Canceled));
            assert!(!record.disconnected_slow_consumer);
        }
        other => panic!("expected a settled delivery, got {other:?}"),
    }
}

#[test]
fn reservations_hold_a_permit_or_say_why_not() {
    let coordinator = coordinator();
    let mut progress = ReservationProgress::new();
    assert_eq!(
        coordinator.reserve_one_if(&progress),
        ReservationStep::ReadGate
    );
    progress.open_at_start = Some(true);
    assert_eq!(
        coordinator.reserve_one_if(&progress),
        ReservationStep::TryReserve
    );
    for (attempt, expected) in [
        (ReserveAttempt::Permit, ReservationOutcome::Reserved),
        (ReserveAttempt::Closed, ReservationOutcome::ChannelClosed),
        (ReserveAttempt::Canceled, ReservationOutcome::Canceled),
    ] {
        progress.attempt = Some(attempt);
        match coordinator.reserve_one_if(&progress) {
            ReservationStep::Done { outcome, record } => {
                assert_eq!(outcome, expected);
                assert_eq!(
                    record.resolution.is_none(),
                    expected == ReservationOutcome::Reserved
                );
            }
            other => panic!("expected a settled reservation, got {other:?}"),
        }
    }
    progress.attempt = Some(ReserveAttempt::Full {
        witnessed_at: None,
        now: 5,
    });
    assert_eq!(
        coordinator.reserve_one_if(&progress),
        ReservationStep::AwaitCapacity { deadline: 1_005 }
    );
    progress.wait.wake = Some(CapacityWake::Permit);
    progress.wait.open_at_wake = Some(true);
    assert!(matches!(
        coordinator.reserve_one_if(&progress),
        ReservationStep::Done {
            outcome: ReservationOutcome::Reserved,
            ..
        }
    ));
}

#[test]
fn transitions_wait_for_capacity_and_cannot_be_called_off() {
    let coordinator = coordinator();
    let mut progress = InitialProgress::new();
    assert_eq!(
        coordinator.reserve_initial_transition(&progress),
        InitialStep::TryReserve
    );
    progress.attempt = Some(ReserveAttempt::Full {
        witnessed_at: None,
        now: 0,
    });
    assert_eq!(
        coordinator.reserve_initial_transition(&progress),
        InitialStep::AwaitCapacity { deadline: 1_000 }
    );
    progress.wake = Some(CapacityWake::DeadlineReached);
    assert_eq!(
        coordinator.reserve_initial_transition(&progress),
        InitialStep::TryReleasedBefore { deadline: 1_000 }
    );
    progress.late = Some(LateAttempt::Full);
    assert_eq!(
        coordinator.reserve_initial_transition(&progress),
        InitialStep::RequestClose
    );
    progress.initiated_close = Some(false);
    match coordinator.reserve_initial_transition(&progress) {
        InitialStep::Done { permit, record } => {
            assert_eq!(permit, Err(DeliveryOutcome::SlowConsumer));
            assert!(!record.disconnected_slow_consumer, "another call closed it");
        }
        other => panic!("expected a settled transition, got {other:?}"),
    }
}

#[test]
fn a_batch_gives_its_permits_back_when_one_fails() {
    let (reserved, slow) = (
        ReservationOutcome::Reserved,
        ReservationOutcome::SlowConsumer,
    );
    assert_eq!(reserve_room_batch(2, &vec![]), BatchStep::ReserveNext);
    assert_eq!(
        reserve_room_batch(2, &vec![reserved]),
        BatchStep::ReserveNext
    );
    assert_eq!(
        reserve_room_batch(2, &vec![reserved, reserved]),
        BatchStep::Done {
            outcome: reserved,
            canceled: 0
        }
    );
    assert_eq!(
        reserve_room_batch(2, &vec![reserved, slow]),
        BatchStep::Done {
            outcome: slow,
            canceled: 1
        }
    );
}

#[test]
fn started_deliveries_leave_the_waiting_and_the_lost() {
    let started = |player_id: u128, start| StartedDelivery {
        player_id,
        sender: handle(player_id as u64).sender,
        start,
    };
    let left = start_deliveries(&vec![
        started(1, DeliveryStart::Complete(DeliveryOutcome::Delivered)),
        started(2, DeliveryStart::Backpressured),
        started(3, DeliveryStart::Complete(DeliveryOutcome::SlowConsumer)),
        started(4, DeliveryStart::Backpressured),
    ]);
    assert_eq!(left.pending, vec![1, 3]);
    assert_eq!(left.slow_consumers, vec![(3, handle(3).sender)]);
}

#[test]
fn a_slow_consumer_is_pruned_but_a_replacement_is_not() {
    let mut coordinator = coordinator();
    coordinator.register_local_client(1, None, handle(10));
    coordinator.register_local_client(2, None, handle(20));
    coordinator.register_local_client(4, None, handle(40));
    coordinator.register_local_client(5, None, handle(50));
    let settled = |player_id: u128, channel: u64, outcome| SettledWait {
        player_id,
        sender: handle(channel).sender,
        outcome,
    };
    coordinator.finish_deliveries(
        &StartedDeliveries {
            pending: vec![0, 2],
            slow_consumers: vec![(1, handle(10).sender), (2, handle(99).sender)],
        },
        &vec![
            settled(4, 40, DeliveryOutcome::SlowConsumer),
            settled(5, 50, DeliveryOutcome::Delivered),
        ],
    );
    assert!(coordinator.delivery_handle(1).is_none());
    assert!(coordinator.delivery_handle(2).is_some());
    assert!(coordinator.delivery_handle(4).is_none());
    assert!(coordinator.delivery_handle(5).is_some());
    assert!(!coordinator.finish_send(
        2,
        &handle(20).sender,
        Some(DeliveryOutcome::SlowConsumer)
    ));
    assert!(coordinator.delivery_handle(2).is_none());
    coordinator.register_local_client(3, None, handle(30));
    assert!(coordinator.finish_send(3, &handle(30).sender, Some(DeliveryOutcome::Delivered)));
    assert!(coordinator.delivery_handle(3).is_some());
}

#[test]
fn a_farewell_is_tried_once_and_never_waits() {
    let mut coordinator = coordinator();
    assert_eq!(
        coordinator.try_send_to_player_if(1, true, None, None),
        FarewellStep::Done { enqueued: false }
    );
    coordinator.register_local_client(1, None, handle(10));
    assert_eq!(
        coordinator.try_send_to_player_if(1, true, None, None),
        FarewellStep::ReadGate
    );
    assert_eq!(
        coordinator.try_send_to_player_if(1, true, Some(false), None),
        FarewellStep::Done { enqueued: false }
    );
    assert_eq!(
        coordinator.try_send_to_player_if(1, true, Some(true), None),
        FarewellStep::TrySend { handle: handle(10) }
    );
    assert_eq!(
        coordinator.try_send_to_player_if(1, false, None, None),
        FarewellStep::TrySend { handle: handle(10) }
    );
    assert_eq!(
        coordinator.try_send_to_player_if(1, true, Some(true), Some(true)),
        FarewellStep::Done { enqueued: true }
    );
}

#[test]
fn targeted_sends_check_the_membership_at_the_end() {
    let mut coordinator = coordinator();
    let room = 5;
    coordinator.register_local_client(1, Some(room), handle(10));
    coordinator.register_local_client(2, Some(room), handle(20));
    let request = TargetedSend {
        player_id: 1,
        room_id: room,
        expected_members: vec![2, 1],
    };
    let mut progress = TargetedProgress {
        reservation: None,
        receipt: None,
    };
    assert_eq!(
        coordinator.send_to_player_in_room_if_members(&request, &progress),
        TargetedStep::Reserve { handle: handle(10) }
    );
    progress.reservation = Some((ReservationOutcome::Reserved, handle(10).sender));
    assert_eq!(
        coordinator.send_to_player_in_room_if_members(&request, &progress),
        TargetedStep::Send
    );
    coordinator.register_local_client(2, None, handle(20));
    assert_eq!(
        coordinator.send_to_player_in_room_if_members(&request, &progress),
        TargetedStep::Done {
            delivered: false,
            resolution: Some(DeliveryResolution::Canceled)
        }
    );
}

#[test]
fn a_delivered_opening_frame_routes_the_player() {
    let mut coordinator = coordinator();
    coordinator.register_local_client(2, Some(5), handle(20));
    assert_eq!(coordinator.transition_roster(1, 5), vec![1, 2]);
    let (outcome, _) = coordinator.register_local_client_with_initial_message(
        1,
        5,
        handle(10),
        SendReceipt::Closed,
    );
    assert_eq!(outcome, DeliveryOutcome::ChannelClosed);
    assert!(!coordinator.is_routed(1, 5));
    let (outcome, resolution) = coordinator.register_local_client_with_initial_message(
        1,
        5,
        handle(10),
        SendReceipt::Enqueued,
    );
    assert_eq!(outcome, DeliveryOutcome::Delivered);
    assert_eq!(resolution, DeliveryResolution::Enqueued);
    assert!(coordinator.is_routed(1, 5));
    assert_eq!(coordinator.room_delivery_handle(1, 5), Some(handle(10)));
    assert_eq!(coordinator.room_delivery_handle(1, 6), None);
}

#[test]
fn bus_messages_prefer_a_player_over_a_room() {
    assert_eq!(handle_bus_message(Some(1), Some(2)), BusRoute::Player(1));
    assert_eq!(handle_bus_message(None, Some(2)), BusRoute::Room(2));
    assert_eq!(handle_bus_message(None, None), BusRoute::Nowhere);
}
