use signal_fish_server::clock::Clock;
use signal_fish_server::close::CloseReason;
use signal_fish_server::connection::{
    AppContext, ClientAddr, DeliverySender, ErrorReplyCharge, NegotiatedProtocol, RateLimits,
    RelayStamp, TransportStatusUpdate,
};
use signal_fish_server::connection_manager::{
    always_draining, never_draining, ConnectionLimits, ConnectionManager, ReassignmentOutcome,
};
use signal_fish_server::durations::STD_DURATION_MAX;
use signal_fish_server::errors::RegisterClientError;
use signal_fish_server::protocol::{GameDataEncoding, PlayerId, Topology, Transport};
use signal_fish_server::routing::InMemoryMessageCoordinator;

const MILLI: u128 = 1_000_000;
const SECOND: u128 = 1_000_000_000;

struct Fixture {
    manager: ConnectionManager,
    coordinator: InMemoryMessageCoordinator,
    next_channel: u64,
}

impl Fixture {
    fn new(max_connections: usize, max_connections_per_ip: usize) -> Self {
        Fixture {
            manager: ConnectionManager::new(ConnectionLimits {
                max_connections,
                max_connections_per_ip,
                max_error_replies: 2,
            }),
            coordinator: InMemoryMessageCoordinator::new(),
            next_channel: 0,
        }
    }

    fn sender(&mut self) -> DeliverySender {
        self.next_channel += 1;
        DeliverySender {
            channel: self.next_channel,
            generation: 0,
        }
    }

    fn register(&mut self, addr: ClientAddr) -> Result<PlayerId, RegisterClientError> {
        let sender = self.sender();
        self.manager
            .register_client(&mut self.coordinator, sender, addr)
    }

    fn connect(&mut self, player: PlayerId, addr: ClientAddr) {
        let sender = self.sender();
        self.manager
            .connect_test_client(&mut self.coordinator, player, sender, addr);
    }

    fn seat(&mut self, player: PlayerId, room: u128) {
        self.manager
            .assign_client_to_room(&mut self.coordinator, player, room);
    }
}

fn addr(octets: [u8; 4], port: u16) -> ClientAddr {
    ClientAddr {
        ip: (4, u128::from(u32::from_be_bytes(octets))),
        port,
    }
}

fn manager(max_connections_per_ip: usize) -> Fixture {
    Fixture::new(usize::MAX, max_connections_per_ip)
}

fn v3_protocol() -> NegotiatedProtocol {
    NegotiatedProtocol {
        version: 3,
        transports: vec![Transport::Relay, Transport::WebRtc],
        topologies: vec![Topology::Relay, Topology::Mesh],
    }
}

#[test]
fn register_client_enforces_ip_limits_and_releases_on_remove() {
    let mut fixture = manager(1);
    let from = addr([127, 0, 0, 1], 5000);

    let first_id = fixture.register(from).expect("first registration succeeds");
    match fixture
        .register(from)
        .expect_err("second client hits per-IP limit")
    {
        RegisterClientError::IpLimitExceeded { current, limit } => {
            assert_eq!(current, 1);
            assert_eq!(limit, 1);
        }
        RegisterClientError::CapacityExceeded { .. } => {
            panic!("per-IP refusal must win when both caps bind at one IP")
        }
        RegisterClientError::ServerDraining => {
            panic!("connection manager does not own shutdown drain admission")
        }
    }

    assert!(fixture.manager.remove_client(first_id).is_some());
    fixture
        .register(from)
        .expect("registrations resume after slot release");
}

#[test]
fn global_connection_ceiling_refuses_across_ips_and_releases_on_remove() {
    let mut fixture = Fixture::new(2, 8);
    let addrs = [
        addr([127, 0, 0, 1], 6001),
        addr([198, 51, 100, 1], 6002),
        addr([198, 51, 100, 2], 6003),
    ];

    let mut ids = Vec::new();
    for (i, from) in addrs.iter().take(2).enumerate() {
        ids.push(fixture.register(*from).unwrap_or_else(|err| {
            panic!("registration {i} under the global ceiling must succeed: {err:?}")
        }));
    }

    match fixture.register(addrs[2]) {
        Err(RegisterClientError::CapacityExceeded { current, limit }) => {
            assert_eq!((current, limit), (2, 2));
        }
        other => panic!("expected CapacityExceeded, got {other:?}"),
    }

    assert!(fixture.manager.remove_client(ids[0]).is_some());
    let fourth_id = fixture
        .register(addrs[2])
        .expect("registration resumes after a global slot is released");

    assert!(fixture.manager.remove_client(ids[1]).is_some());
    assert!(fixture.manager.remove_client(fourth_id).is_some());
    for i in 0..2 {
        fixture
            .register(addrs[2])
            .unwrap_or_else(|err| panic!("re-admission {i} after full drain must succeed: {err:?}"));
    }
}

#[test]
fn per_ip_refusal_wins_when_both_caps_bind() {
    let mut fixture = Fixture::new(1, 1);
    let from = addr([127, 0, 0, 1], 6004);
    fixture.register(from).expect("first registration succeeds");

    let err = fixture
        .register(from)
        .expect_err("second registration hits both caps");
    assert!(
        matches!(err, RegisterClientError::IpLimitExceeded { .. }),
        "per-IP refusal must take precedence, got {err:?}"
    );
}

#[test]
fn test_only_registrations_count_but_bypass_the_global_ceiling() {
    let mut fixture = Fixture::new(1, 8);
    let from = addr([127, 0, 0, 1], 6005);

    let production_id = fixture
        .register(from)
        .expect("production registration consumes the one slot");
    let test_id = 0x7e57;
    fixture.connect(test_id, from);

    assert!(fixture.manager.remove_client(production_id).is_some());
    assert!(fixture.manager.remove_client(test_id).is_some());

    fixture
        .register(from)
        .expect("counter must be fully released after mixed entries drain");
}

#[test]
fn same_id_test_replacement_releases_the_displaced_slots() {
    let mut fixture = Fixture::new(1, 8);
    let from = addr([127, 0, 0, 1], 6006);
    let reused_id = 0x1dea;

    fixture.connect(reused_id, from);
    fixture.connect(reused_id, from);
    assert!(fixture.manager.remove_client(reused_id).is_some());

    fixture
        .register(from)
        .expect("the one slot must be free after the replaced entry drains");
}

#[test]
fn remove_client_for_unregistration_uses_drain_predicate_at_close_request() {
    let mut fixture = manager(1);
    let player_id = fixture
        .register(addr([127, 0, 0, 1], 5001))
        .expect("registration succeeds");

    let (connection, reason) = fixture
        .manager
        .remove_client_for_unregistration(player_id, always_draining)
        .expect("client should be removed");

    assert_eq!(reason, CloseReason::Shutdown);
    assert_eq!(
        connection.close.requested_reason(),
        Some(CloseReason::Shutdown),
        "removal must request shutdown when the final drain predicate is true"
    );
}

#[test]
fn generic_removal_cannot_discard_a_room_members_terminal_tail() {
    let mut fixture = manager(1);
    let room_id = 0x660B_70BA_DA11_4CE1_8168_DA1A_D311_00A0;
    let player_id = fixture
        .register(addr([127, 0, 0, 1], 5002))
        .expect("registration succeeds");
    fixture.seat(player_id, room_id);
    assert_eq!(
        fixture.manager.next_relay_stamp_in_room(player_id, room_id),
        Some(RelayStamp { epoch: 1, seq: 1 })
    );

    assert!(
        fixture
            .manager
            .remove_client_for_unregistration(player_id, never_draining)
            .is_none(),
        "generic teardown must leave a room-bound connection intact"
    );
    assert!(fixture.manager.has_client(player_id));
    let (_, terminal_tail) = fixture
        .manager
        .clear_room_assignment_with_tail(player_id, room_id)
        .expect("terminal unroute retains the connection and tail");
    assert_eq!(terminal_tail, RelayStamp { epoch: 1, seq: 1 });
    assert!(
        fixture
            .manager
            .remove_client_for_unregistration(player_id, never_draining)
            .is_some(),
        "connection removal becomes valid after terminal capture"
    );
}

#[test]
fn reassign_connection_applies_the_resumed_epoch_immediately() {
    let mut fixture = manager(4);
    let transient_id = fixture
        .register(addr([127, 0, 0, 1], 5003))
        .expect("registration succeeds");
    let (restored_id, room_id) = (0x4e57, 0x400);

    let _ = fixture
        .manager
        .reassign_connection(transient_id, restored_id, room_id, 7);

    assert_eq!(
        fixture
            .manager
            .current_relay_stamp_in_room(restored_id, room_id),
        Some(RelayStamp { epoch: 7, seq: 0 }),
        "reassignment must publish the resumed epoch atomically"
    );
    assert_eq!(
        fixture
            .manager
            .next_relay_stamp_in_room(restored_id, room_id),
        Some(RelayStamp { epoch: 7, seq: 1 }),
    );
}

#[test]
fn clear_room_assignment_with_tail_refuses_a_foreign_room() {
    let mut fixture = manager(4);
    let player_id = fixture
        .register(addr([127, 0, 0, 1], 5004))
        .expect("registration succeeds");
    let (room_a, room_b) = (0xA, 0xB);
    fixture.seat(player_id, room_a);
    assert_eq!(
        fixture.manager.next_relay_stamp_in_room(player_id, room_a),
        Some(RelayStamp { epoch: 1, seq: 1 })
    );

    assert!(
        fixture
            .manager
            .clear_room_assignment_with_tail(player_id, room_b)
            .is_none(),
        "a foreign expected_room must not capture a tail"
    );
    assert_eq!(
        fixture
            .manager
            .current_relay_stamp_in_room(player_id, room_a),
        Some(RelayStamp { epoch: 1, seq: 1 }),
        "membership and stamp stream stay intact after the refusal"
    );

    let (_, tail) = fixture
        .manager
        .clear_room_assignment_with_tail(player_id, room_a)
        .expect("matching expected_room captures the terminal tail");
    assert_eq!(tail, RelayStamp { epoch: 1, seq: 1 });
}

#[test]
fn default_ip_cap_admits_a_sixteen_player_nat() {
    let cap = signal_fish_server::config::ServerConfig::default().max_connections_per_ip;
    assert!(
        cap >= 16,
        "default per-IP cap ({cap}) must admit a 16-player NAT session"
    );

    let mut fixture = manager(cap);
    let mut ids = Vec::new();
    for i in 0..16u16 {
        let id = fixture
            .register(addr([203, 0, 113, 7], 6000 + i))
            .unwrap_or_else(|e| panic!("client {i} from one IP must be admitted: {e:?}"));
        ids.push(id);
    }
    assert_eq!(
        ids.len(),
        16,
        "all 16 same-IP clients admitted at default cap"
    );
}

#[test]
fn should_update_last_seen_throttles_until_threshold_elapses() {
    let mut fixture = manager(4);
    let player_id = fixture
        .register(addr([127, 0, 0, 1], 7100))
        .expect("registration succeeds");
    let threshold = 30 * SECOND;
    let start = 5 * SECOND;

    assert!(
        fixture
            .manager
            .should_update_last_seen_at(player_id, start, threshold),
        "first observation must update"
    );
    assert!(
        !fixture
            .manager
            .should_update_last_seen_at(player_id, start, threshold),
        "an update within the throttle window must be suppressed"
    );
    assert!(
        !fixture
            .manager
            .should_update_last_seen_at(player_id, start + threshold - MILLI, threshold),
        "an update just under the threshold must stay suppressed"
    );
    assert!(
        fixture
            .manager
            .should_update_last_seen_at(player_id, start + threshold, threshold),
        "an update at/after the threshold must fire"
    );
    assert!(
        !fixture
            .manager
            .should_update_last_seen_at(player_id, start + threshold, threshold),
        "the update after the release is throttled from the new baseline"
    );
}

#[test]
fn should_update_last_seen_suppresses_unknown_player() {
    let mut fixture = manager(4);
    assert!(
        !fixture
            .manager
            .should_update_last_seen(0xdead, 30 * SECOND),
        "unknown player must be suppressed, not allowed"
    );

    let late_id = fixture
        .register(addr([127, 0, 0, 1], 7101))
        .expect("registration succeeds");
    assert!(
        fixture
            .manager
            .should_update_last_seen(late_id, 30 * SECOND),
        "freshly registered player keeps the first-update release"
    );
}

#[test]
fn assign_client_to_room_updates_coordinator_membership() {
    let mut fixture = manager(4);
    let player_id = fixture
        .register(addr([127, 0, 0, 1], 6000))
        .expect("registration succeeds");
    let room_id = 0x600;
    assert!(fixture.coordinator.delivery_handle(player_id).is_some());
    assert!(!fixture.coordinator.is_routed(player_id, room_id));

    fixture.seat(player_id, room_id);

    assert_eq!(fixture.manager.get_client_room(player_id), Some(room_id));
    assert!(fixture.coordinator.is_routed(player_id, room_id));
}

#[test]
fn a_resumed_stream_follows_the_earlier_one() {
    let mut fixture = manager(4);
    let player_id = fixture
        .register(addr([127, 0, 0, 1], 5103))
        .expect("registration succeeds");
    let room_id = 0x400;
    fixture.seat(player_id, room_id);
    let _ = fixture.manager.next_relay_stamp_in_room(player_id, room_id);
    let last = fixture
        .manager
        .next_relay_stamp_in_room(player_id, room_id)
        .expect("the sender is seated");
    let _ = fixture
        .manager
        .reassign_connection(player_id, 0x4e58, room_id, last.epoch + 1);
    let resumed = fixture
        .manager
        .next_relay_stamp_in_room(0x4e58, room_id)
        .expect("the sender is seated again");
    assert_eq!(last, RelayStamp { epoch: 1, seq: 2 });
    assert_eq!(resumed, RelayStamp { epoch: 2, seq: 1 });
}

#[test]
fn relay_stamp_allocation_is_bound_to_the_expected_room() {
    let mut fixture = manager(4);
    let player_id = fixture
        .register(addr([127, 0, 0, 1], 6001))
        .expect("registration succeeds");
    let (room_a, room_b) = (0xAAAA, 0xBBBB);

    fixture.seat(player_id, room_a);
    assert_eq!(
        fixture.manager.next_relay_stamp_in_room(player_id, room_a),
        Some(RelayStamp { epoch: 1, seq: 1 })
    );
    assert_eq!(
        fixture
            .manager
            .current_relay_stamp_in_room(player_id, room_a),
        Some(RelayStamp { epoch: 1, seq: 1 })
    );

    assert!(fixture.manager.clear_room_assignment(player_id).is_some());
    assert_eq!(
        fixture.manager.next_relay_stamp_in_room(player_id, room_a),
        None,
        "roomless teardown window must cancel the old-room relay"
    );
    assert_eq!(
        fixture
            .manager
            .current_relay_stamp_in_room(player_id, room_a),
        None,
        "roomless players must be filtered from live snapshots"
    );

    fixture.seat(player_id, room_b);
    assert_eq!(
        fixture.manager.next_relay_stamp_in_room(player_id, room_a),
        None,
        "a room switch must not allocate against the stale room"
    );
    assert_eq!(
        fixture.manager.next_relay_stamp_in_room(player_id, room_b),
        Some(RelayStamp { epoch: 2, seq: 1 })
    );
}

#[test]
fn twenty_registrations_from_one_address_take_five_slots() {
    let mut fixture = manager(5);
    let from = addr([10, 0, 0, 1], 9000);
    let mut successes = Vec::new();
    let mut failures = 0usize;
    for _ in 0..20 {
        match fixture.register(from) {
            Ok(player_id) => successes.push(player_id),
            Err(_) => failures += 1,
        }
    }
    assert_eq!(successes.len(), 5);
    assert_eq!(failures, 15);

    for player_id in successes {
        assert!(fixture.manager.remove_client(player_id).is_some());
    }
    assert!(
        fixture.register(from).is_ok(),
        "Registration should succeed after all clients removed"
    );
}

#[test]
fn reassign_connection_refuses_an_occupied_target_instead_of_stomping_it() {
    let mut fixture = manager(8);
    let occupant_id = 0x0cc;
    fixture.connect(occupant_id, addr([10, 0, 0, 64], 9000));
    let transient_id = fixture
        .register(addr([10, 0, 0, 65], 9000))
        .expect("transient registration succeeds");

    let outcome = fixture
        .manager
        .reassign_connection(transient_id, occupant_id, 0x400, 1);
    assert!(
        matches!(outcome, ReassignmentOutcome::RefusedTargetOccupied),
        "an occupied target must be refused, got {outcome:?}"
    );
    assert!(fixture.manager.has_client(occupant_id));
    assert!(fixture.manager.has_client(transient_id));
}

#[test]
fn test_reassign_connection_preserves_ip_count() {
    let mut fixture = manager(5);
    let original_id = fixture
        .register(addr([10, 0, 0, 2], 9000))
        .expect("registration should succeed");
    let new_player_id = 0x9e3;

    let reassigned = fixture
        .manager
        .reassign_connection(original_id, new_player_id, 0x400, 1);
    assert!(matches!(reassigned, ReassignmentOutcome::Reassigned(_)));
    assert!(!fixture.manager.has_client(original_id));
    assert!(fixture.manager.has_client(new_player_id));

    for i in 0..4 {
        fixture
            .register(addr([10, 0, 0, 2], 9001 + i))
            .expect("should succeed within limit");
    }
    assert!(
        fixture.register(addr([10, 0, 0, 2], 10000)).is_err(),
        "6th connection from same IP should be rejected"
    );

    assert!(fixture.manager.remove_client(new_player_id).is_some());
    assert!(!fixture.manager.has_client(new_player_id));
    assert!(
        fixture.register(addr([10, 0, 0, 2], 10001)).is_ok(),
        "Registration should succeed after removing the reassigned client"
    );
}

#[test]
fn reassign_and_restore_preserve_physical_lifecycle_identity() {
    let mut fixture = manager(5);
    let transient_id = fixture
        .register(addr([10, 0, 0, 20], 9000))
        .expect("registration should succeed");
    let restored_id = 0x4e5;
    let lifecycle = fixture
        .manager
        .client_lifecycle(transient_id)
        .expect("registered connection has lifecycle identity");

    assert!(matches!(
        fixture
            .manager
            .reassign_connection(transient_id, restored_id, 0x400, 1),
        ReassignmentOutcome::Reassigned(_)
    ));
    assert_eq!(
        fixture.manager.client_lifecycle(restored_id),
        Some(lifecycle)
    );
    assert_eq!(
        fixture.manager.lifecycle_player(lifecycle),
        Some(restored_id)
    );
    assert!(fixture.manager.lifecycle_matches(restored_id, lifecycle));
    assert!(!fixture.manager.lifecycle_matches(transient_id, lifecycle));

    fixture
        .manager
        .restore_reassigned_connection(transient_id, restored_id)
        .expect("rollback succeeds");
    assert_eq!(
        fixture.manager.client_lifecycle(transient_id),
        Some(lifecycle)
    );
    assert_eq!(
        fixture.manager.lifecycle_player(lifecycle),
        Some(transient_id)
    );
    assert!(fixture.manager.lifecycle_matches(transient_id, lifecycle));
    assert!(!fixture.manager.lifecycle_matches(restored_id, lifecycle));
}

#[test]
fn restore_gives_back_what_a_connection_negotiated_and_reported() {
    let mut fixture = manager(5);
    let transient_id = fixture
        .register(addr([10, 0, 0, 22], 9000))
        .expect("registration should succeed");
    let restored_id = 0x4e6;
    fixture.manager.set_protocol(transient_id, v3_protocol());
    assert_eq!(
        fixture
            .manager
            .set_transport_status(transient_id, Transport::WebRtc, true),
        TransportStatusUpdate::Changed
    );
    assert!(matches!(
        fixture
            .manager
            .reassign_connection(transient_id, restored_id, 0x400, 3),
        ReassignmentOutcome::Reassigned(_)
    ));
    fixture
        .manager
        .restore_reassigned_connection(transient_id, restored_id)
        .expect("rollback succeeds");
    assert_eq!(fixture.manager.protocol(transient_id).version, 3);
    assert_eq!(
        fixture.manager.transport_status(transient_id),
        Some((Transport::WebRtc, true))
    );
    assert_eq!(
        fixture
            .manager
            .set_transport_status(transient_id, Transport::WebRtc, true),
        TransportStatusUpdate::Duplicate
    );
}

#[test]
fn reassign_refused_while_transient_socket_carries_per_socket_close() {
    let mut fixture = manager(4);
    let (restored_id, room_id) = (0x4e5, 0x400);
    for reason in [
        CloseReason::ActivityTimeout,
        CloseReason::IdleTimeout,
        CloseReason::SlowConsumer,
        CloseReason::AuthTimeout,
        CloseReason::OutboundMessageTooLarge,
        CloseReason::Unregistered,
    ] {
        let transient_id = fixture
            .register(addr([127, 0, 0, 1], 5104))
            .expect("registration succeeds");
        assert!(
            fixture.manager.request_close_for(transient_id, reason),
            "{reason:?}: pin must be the first close on the entry"
        );
        match fixture
            .manager
            .reassign_connection(transient_id, restored_id, room_id, 1)
        {
            ReassignmentOutcome::RefusedTransientClose(pinned) => assert_eq!(pinned, reason),
            other => panic!("{reason:?}: expected refusal, got {other:?}"),
        }
        assert!(
            fixture.manager.has_client(transient_id),
            "{reason:?}: refusal must restore the transient entry"
        );
        assert!(
            !fixture.manager.has_client(restored_id),
            "{reason:?}: refusal must not publish the restored identity"
        );
        assert!(fixture.manager.remove_client(transient_id).is_some());
    }
}

#[test]
fn reassign_still_adopts_entry_pinned_for_shutdown() {
    let mut fixture = manager(4);
    for (offset, reason) in [CloseReason::Shutdown, CloseReason::RoomInactive]
        .into_iter()
        .enumerate()
    {
        let transient_id = fixture
            .register(addr([127, 0, 0, 1], 5105))
            .expect("registration succeeds");
        assert!(fixture.manager.request_close_for(transient_id, reason));
        assert!(matches!(
            fixture
                .manager
                .reassign_connection(transient_id, 0x4e0 + offset as u128, 0x400, 1),
            ReassignmentOutcome::Reassigned(_)
        ));
    }
}

#[test]
fn protocol_defaults_to_v2_relay_only() {
    let mut fixture = manager(4);
    let player = fixture
        .register(addr([127, 0, 0, 1], 7100))
        .expect("register");

    let protocol = fixture.manager.protocol(player);
    assert_eq!(protocol.version, 2);
    assert_eq!(protocol.transports, vec![Transport::Relay]);
    assert_eq!(protocol.topologies, vec![Topology::Relay]);

    assert!(!fixture.manager.supports_v3(player));
    assert!(fixture
        .manager
        .supports_transport(player, Transport::Relay));
    assert!(!fixture
        .manager
        .supports_transport(player, Transport::WebRtc));
}

#[test]
fn set_protocol_updates_capabilities_and_v3_gate() {
    let mut fixture = manager(4);
    let player = fixture
        .register(addr([127, 0, 0, 1], 7101))
        .expect("register");
    fixture.manager.set_protocol(player, v3_protocol());

    assert!(fixture.manager.supports_v3(player));
    assert!(fixture
        .manager
        .supports_transport(player, Transport::WebRtc));
    assert!(fixture
        .manager
        .supports_transport(player, Transport::Relay));
    assert!(!fixture
        .manager
        .supports_transport(player, Transport::Direct));

    let protocol = fixture.manager.protocol(player);
    assert_eq!(protocol.version, 3);
    assert_eq!(protocol.topologies, vec![Topology::Relay, Topology::Mesh]);
}

#[test]
fn protocol_helpers_default_for_unknown_player() {
    let fixture = manager(4);
    let unknown = 0xdead;
    assert_eq!(fixture.manager.protocol(unknown).version, 2);
    assert!(!fixture.manager.supports_v3(unknown));
    assert!(!fixture
        .manager
        .supports_transport(unknown, Transport::Relay));
}

#[test]
fn protocol_is_preserved_across_reconnect() {
    let mut fixture = manager(4);
    let original = fixture
        .register(addr([127, 0, 0, 1], 7102))
        .expect("register");
    fixture.manager.set_protocol(original, v3_protocol());

    let new_player = 0x9e3;
    assert!(matches!(
        fixture
            .manager
            .reassign_connection(original, new_player, 0x400, 1),
        ReassignmentOutcome::Reassigned(_)
    ));

    assert_eq!(fixture.manager.protocol(new_player).version, 3);
    assert!(fixture.manager.supports_v3(new_player));
    assert!(fixture
        .manager
        .supports_transport(new_player, Transport::WebRtc));
}

#[test]
fn releasing_every_slot_does_not_underflow() {
    let mut fixture = manager(10);
    let mut player_ids = Vec::new();
    for i in 0..3u16 {
        player_ids.push(
            fixture
                .register(addr([10, 0, 0, 3], 9000 + i))
                .expect("registration should succeed"),
        );
    }
    for player in player_ids {
        assert!(fixture.manager.remove_client(player).is_some());
        assert!(fixture.manager.remove_client(player).is_none());
    }
    for i in 0..10u16 {
        assert!(
            fixture.register(addr([10, 0, 0, 3], 8000 + i)).is_ok(),
            "Registration #{} should succeed after complete removal (no underflow)",
            i + 1
        );
    }
}

#[test]
fn a_prepared_assignment_can_be_rolled_back() {
    let mut fixture = manager(4);
    let player = fixture
        .register(addr([127, 0, 0, 1], 5200))
        .expect("register");
    fixture.manager.set_protocol(player, v3_protocol());
    assert_eq!(
        fixture
            .manager
            .set_transport_status(player, Transport::WebRtc, true),
        TransportStatusUpdate::Changed
    );
    let (prepared, stamp) = fixture
        .manager
        .prepare_client_to_room(player, 0x400)
        .expect("connected");
    assert_eq!(prepared.sender.generation, 1);
    assert_eq!(stamp, RelayStamp { epoch: 1, seq: 0 });
    assert!(fixture
        .manager
        .rollback_prepared_room_assignment(player, 0x401, 1)
        .is_none());
    let restored = fixture
        .manager
        .rollback_prepared_room_assignment(player, 0x400, 1)
        .expect("the prepared incarnation is rolled back");
    assert_eq!(restored.sender.generation, 0);
    assert_eq!(fixture.manager.get_client_room(player), None);
    assert_eq!(
        fixture.manager.transport_status(player),
        Some((Transport::WebRtc, true)),
        "the membership before the entry is the current one again"
    );
    assert_eq!(fixture.manager.game_data_epoch(player), Some(1));
}

#[test]
fn delivery_generations_advance_and_roll_back() {
    let mut fixture = manager(4);
    let player = fixture
        .register(addr([127, 0, 0, 1], 5201))
        .expect("register");
    fixture
        .manager
        .advance_delivery_generation(&mut fixture.coordinator, player);
    let advanced = fixture.coordinator.delivery_handle(player);
    assert_eq!(advanced.map(|handle| handle.sender.generation), Some(1));
    fixture
        .manager
        .rollback_delivery_generation(&mut fixture.coordinator, player);
    let back = fixture.coordinator.delivery_handle(player);
    assert_eq!(back.map(|handle| handle.sender.generation), Some(0));
}

#[test]
fn quiet_clients_expire_and_a_later_ping_rescues_them() {
    let mut fixture = manager(4);
    let player = fixture
        .register(addr([127, 0, 0, 1], 5202))
        .expect("register");
    fixture.manager.record_ping_at(player, 10 * SECOND);
    let timeout = 30 * SECOND;
    assert!(fixture
        .manager
        .collect_expired_clients_at(40 * SECOND, timeout)
        .is_empty());
    assert_eq!(
        fixture
            .manager
            .collect_expired_clients_at(40 * SECOND + 1, timeout),
        vec![player]
    );
    fixture.manager.record_ping_at(player, 40 * SECOND);
    assert!(!fixture
        .manager
        .request_activity_timeout_if_expired_at(player, 40 * SECOND + 1, timeout));
    assert!(fixture
        .manager
        .request_activity_timeout_if_expired_at(player, 71 * SECOND, timeout));
    assert!(
        !fixture
            .manager
            .request_activity_timeout_if_expired_at(player, 71 * SECOND, timeout),
        "only the first request initiates the close"
    );
}

#[test]
fn the_wall_clock_variants_agree_with_a_fresh_registration() {
    let mut fixture = manager(4);
    let player = fixture
        .register(addr([127, 0, 0, 1], 5203))
        .expect("register");
    fixture.manager.record_ping(player);
    let hour = 3600 * SECOND;
    assert!(fixture.manager.collect_expired_clients(hour).is_empty());
    assert!(!fixture
        .manager
        .request_activity_timeout_if_expired(player, hour));
}

#[test]
fn error_replies_are_budgeted_per_connection() {
    let mut fixture = manager(4);
    let player = fixture
        .register(addr([127, 0, 0, 1], 5204))
        .expect("register");
    assert_eq!(
        fixture.manager.charge_error_reply(player),
        ErrorReplyCharge::Admitted
    );
    assert_eq!(
        fixture.manager.charge_error_reply(player),
        ErrorReplyCharge::Admitted
    );
    assert_eq!(
        fixture.manager.charge_error_reply(player),
        ErrorReplyCharge::Exhausted {
            initiated_close: true
        }
    );
    assert_eq!(
        fixture.manager.charge_error_reply(player),
        ErrorReplyCharge::Exhausted {
            initiated_close: false
        }
    );
    let removed = fixture.manager.remove_client(player).expect("registered");
    assert_eq!(
        removed.close.requested_reason(),
        Some(CloseReason::InboundRateLimited)
    );
    assert_eq!(
        fixture.manager.charge_error_reply(player),
        ErrorReplyCharge::Admitted,
        "an unknown player has no budget to exhaust"
    );
}

#[test]
fn recorded_settings_are_answered_back() {
    let mut fixture = manager(4);
    let player = fixture
        .register(addr([127, 0, 0, 1], 5205))
        .expect("register");
    assert_eq!(
        fixture.manager.game_data_format(player),
        GameDataEncoding::Json
    );
    fixture
        .manager
        .set_game_data_format(player, GameDataEncoding::MessagePack);
    assert!(fixture
        .manager
        .prefers_encoding(player, GameDataEncoding::MessagePack));
    assert!(!fixture.manager.supports_room_operation_ids(player));
    fixture.manager.set_room_operation_ids(player, true);
    assert!(fixture.manager.supports_room_operation_ids(player));
    fixture.manager.set_app_context(
        player,
        AppContext {
            id: 9,
            name: "app".to_string(),
            organization: None,
            max_rooms: None,
            max_players_per_room: None,
            rate_limit_per_minute: None,
            max_relay_bytes: Some(300),
            rate_limits: RateLimits {
                per_minute: 1000,
                per_hour: 60_000,
                per_day: 1_440_000,
            },
        },
    );
    assert_eq!(fixture.manager.app_id(player), Some(9));
    assert_eq!(
        fixture
            .manager
            .app_context(player)
            .and_then(|context| context.max_relay_bytes),
        Some(300)
    );
    fixture
        .manager
        .set_reconnection_identity(player, Some("who".to_string()));
    assert_eq!(
        fixture.manager.reconnection_identity(player),
        Some("who".to_string())
    );
    fixture.manager.bump_game_data_epoch_for_test(player);
    assert_eq!(fixture.manager.game_data_epoch(player), Some(1));
    assert_eq!(fixture.manager.client_ids(), vec![player]);
}

#[test]
fn a_close_follows_the_physical_connection() {
    let mut fixture = manager(4);
    let player = fixture
        .register(addr([127, 0, 0, 1], 5206))
        .expect("register");
    let lifecycle = fixture
        .manager
        .client_lifecycle(player)
        .expect("registered");
    assert!(matches!(
        fixture.manager.reassign_connection(player, 0x77, 0x400, 1),
        ReassignmentOutcome::Reassigned(_)
    ));
    assert!(fixture
        .manager
        .request_close_for_lifecycle(lifecycle, CloseReason::SlowConsumer));
    let removed = fixture.manager.remove_client(0x77).expect("registered");
    assert_eq!(
        removed.close.requested_reason(),
        Some(CloseReason::SlowConsumer)
    );
    assert!(!fixture
        .manager
        .request_close_for_lifecycle(lifecycle, CloseReason::SlowConsumer));
}

#[test]
fn clock_readings_are_standard_spans_that_never_go_back() {
    let clock = Clock::start();
    let first = clock.now();
    let second = clock.now();
    assert!(first <= second && second <= STD_DURATION_MAX);
    let fixture = manager(4);
    let first = fixture.manager.now();
    let second = fixture.manager.now();
    assert!(first <= second && second <= STD_DURATION_MAX);
}
