use signal_fish_server::authority::{AuthorityOutcome, AuthorityStep};
use signal_fish_server::cleanup_task::{CleanupAction, Sweep};
use signal_fish_server::close::{is_transient_socket_close_reason, CloseReason, ConnectionCloseSignal};
use signal_fish_server::config::ServerConfig;
use signal_fish_server::connection::{
    AppContext, ClientAddr, DeliverySender, NegotiatedProtocol, RateLimits, TransportStatusUpdate,
};
use signal_fish_server::errors::{
    MaxPlayersPerApplicationExceededError, MaxRoomsPerApplicationExceededError,
    MaxRoomsPerGameExceededError, RegisterClientError, ServerConfigError,
};
use signal_fish_server::game_data::{connection_info_stored, ConnectionInfoStep, GameDataStep};
use signal_fish_server::heartbeat::HeartbeatStep;
use signal_fish_server::maintenance::{
    cleanup_expired_reconnections, count_cleaned, count_empty_rooms, count_expired_rooms,
    count_swept, empty_cleanup_operation, prune_ready_players, publishes_room_closed,
    DeletedRoomProgress, DeletedRoomStep, DetachProgress, DetachStep, ExpiredReconnectionStep,
    RoomCleanupOutcome, RoomRead, RoomSweepCounts,
};
use signal_fish_server::message_router::{
    ClientMessage, ClientRequest, FanoutProgress, FanoutStep, JoinRequest, ReconnectRequest,
    RoomMembers, RoomOperationRequest, SpectateRequest, TransportMetric, TransportReport,
    TransportReportStep,
};
use signal_fish_server::messaging::Reply;
use signal_fish_server::missing_rooms::{MissingRoomAction, MissingRoomSweepStep};
use signal_fish_server::player_sends::FarewellStep;
use signal_fish_server::protocol::{
    DeliveryClass, ErrorCode, GameDataEncoding, PlayerId, RoomOperationResult, ServerMessage,
    Topology, Transport,
};
use signal_fish_server::server::EnhancedGameServer;
use signal_fish_server::unregister::{UnregisterAction, UnregisterStage};

const MILLI: u128 = 1_000_000;
const SECOND: u128 = 1_000_000_000;
const ROOM: u128 = 0x400;

fn server_with(mutate: impl FnOnce(&mut ServerConfig)) -> EnhancedGameServer {
    let mut config = ServerConfig::default();
    mutate(&mut config);
    EnhancedGameServer::new(config).expect("the configuration is valid")
}

fn server() -> EnhancedGameServer {
    server_with(|_| {})
}

fn from_port(port: u16) -> ClientAddr {
    ClientAddr {
        ip: (4, 0x7f00_0001),
        port,
    }
}

fn register(server: &mut EnhancedGameServer, channel: u64) -> PlayerId {
    server
        .register_client(
            DeliverySender {
                channel,
                generation: 0,
            },
            from_port(5000),
        )
        .expect("client registration succeeds")
}

fn seat(server: &mut EnhancedGameServer, player: PlayerId, room: u128) {
    let lifecycle = server.client_lifecycle(player).expect("registered");
    server.assign_client_to_room(player, lifecycle, room);
    assert_eq!(server.get_client_room(player), Some(room));
}

fn seated(server: &mut EnhancedGameServer, channel: u64) -> PlayerId {
    let player = register(server, channel);
    seat(server, player, ROOM);
    player
}

fn v3() -> NegotiatedProtocol {
    NegotiatedProtocol {
        version: 3,
        transports: vec![Transport::Relay, Transport::WebRtc],
        topologies: vec![Topology::Relay, Topology::Mesh],
    }
}

fn app(id: u128, max_relay_bytes: Option<u64>) -> AppContext {
    app_named("Tiered", id, max_relay_bytes)
}

fn app_named(name: &str, id: u128, max_relay_bytes: Option<u64>) -> AppContext {
    AppContext {
        id,
        name: name.to_string(),
        organization: None,
        max_rooms: None,
        max_players_per_room: None,
        rate_limit_per_minute: None,
        max_relay_bytes,
        rate_limits: RateLimits {
            per_minute: 1000,
            per_hour: 60_000,
            per_day: 1_440_000,
        },
    }
}

fn expect_error(frame: &ServerMessage, expected: ErrorCode) {
    match frame {
        ServerMessage::Error {
            message,
            error_code,
        } => assert_eq!(*error_code, Some(expected), "error code mismatch: {message}"),
        other => panic!("expected an Error frame, got {other:?}"),
    }
}

fn expect_refused(step: GameDataStep, expected: ErrorCode) {
    match step {
        GameDataStep::Refused(Reply::Send(frame)) => expect_error(&frame, expected),
        other => panic!("expected a refusal, got {other:?}"),
    }
}

fn expect_relayed(step: GameDataStep) {
    match step {
        GameDataStep::Relay { room } => assert_eq!(room, ROOM),
        other => panic!("expected a relay, got {other:?}"),
    }
}

/// Relays `bytes` bytes, and tells who gets them.
fn relay(
    server: &mut EnhancedGameServer,
    sender: PlayerId,
    bytes: usize,
    now: u128,
) -> Vec<PlayerId> {
    let payload = vec![0u8; bytes];
    let room = match server
        .handle_game_data_binary_at(sender, &payload, None, now)
        .1
    {
        GameDataStep::Relay { room } => room,
        other => panic!("expected a relay, got {other:?}"),
    };
    match server.stamp_game_data_binary(sender, room, GameDataEncoding::MessagePack, payload) {
        Some(ServerMessage::GameDataBinary {
            from_player,
            payload,
            ..
        }) => {
            assert_eq!(from_player, sender);
            assert_eq!(payload.len(), bytes);
        }
        other => panic!("expected relayed binary game data, got {other:?}"),
    }
    let mut recipients: Vec<PlayerId> = server
        .message_coordinator
        .collect_routed_recipients(room, Some(sender))
        .into_iter()
        .map(|(player, _)| player)
        .collect();
    recipients.sort_unstable();
    recipients
}

fn ascending(mut players: Vec<PlayerId>) -> Vec<PlayerId> {
    players.sort_unstable();
    players
}

fn submit(server: &mut EnhancedGameServer, player: PlayerId, bytes: usize, now: u128) -> GameDataStep {
    server
        .handle_game_data_binary_at(player, &vec![0u8; bytes], None, now)
        .1
}

#[test]
fn roomless_text_and_binary_game_data_reply_not_in_room() {
    let mut server = server();
    let player = register(&mut server, 1);
    let text = server.handle_game_data(player, &"\"payload\"".to_string(), None, None);
    expect_refused(text, ErrorCode::NotInRoom);
    let (_, binary) = server.handle_game_data_binary(player, &b"payload".to_vec(), None);
    expect_refused(binary, ErrorCode::NotInRoom);
}

#[test]
fn pre_v3_sender_with_delivery_metadata_rejects_invalid_delivery_class() {
    let mut server = server();
    let player = register(&mut server, 1);
    assert!(
        !server.client_supports_v3(player),
        "default registration negotiates below v3"
    );
    let step = server.handle_game_data(
        player,
        &"1".to_string(),
        Some(DeliveryClass::Latest),
        Some(7),
    );
    expect_refused(step, ErrorCode::InvalidDeliveryClass);
    let step = server.handle_game_data(
        player,
        &"1".to_string(),
        Some(DeliveryClass::Reliable),
        None,
    );
    expect_refused(step, ErrorCode::InvalidDeliveryClass);
}

#[test]
fn v3_senders_attach_a_key_exactly_to_the_latest_class() {
    let mut server = server();
    let player = seated(&mut server, 1);
    server.set_client_protocol(player, v3());
    for (class, key, valid) in [
        (None, None, true),
        (Some(DeliveryClass::Reliable), None, true),
        (Some(DeliveryClass::Volatile), None, true),
        (Some(DeliveryClass::Latest), Some(7), true),
        (None, Some(7), false),
        (Some(DeliveryClass::Reliable), Some(7), false),
        (Some(DeliveryClass::Volatile), Some(7), false),
        (Some(DeliveryClass::Latest), None, false),
    ] {
        let step = server.handle_game_data_at(player, &"1".to_string(), class, key, 0);
        if valid {
            expect_relayed(step);
        } else {
            expect_refused(step, ErrorCode::InvalidDeliveryClass);
        }
    }
}

#[test]
fn provide_connection_info_on_vanished_membership_surfaces_internal_error() {
    let mut server = server();
    let player = register(&mut server, 1);
    let info = "{\"type\":\"direct\",\"host\":\"127.0.0.1\",\"port\":7777}".to_string();
    match server.handle_provide_connection_info(player, &info) {
        ConnectionInfoStep::Refused(frame) => expect_error(&frame, ErrorCode::NotInRoom),
        other => panic!("expected a refusal, got {other:?}"),
    }
    seat(&mut server, player, ROOM);
    assert!(matches!(
        server.handle_provide_connection_info(player, &info),
        ConnectionInfoStep::Store { room: ROOM }
    ));
    let vanished = connection_info_stored::<()>(Ok(false)).expect("the player is told");
    expect_error(&vanished, ErrorCode::InternalError);
    let failed = connection_info_stored(Err("storage is away")).expect("the player is told");
    expect_error(&failed, ErrorCode::InternalError);
    assert!(connection_info_stored::<()>(Ok(true)).is_none());
}

#[test]
fn oversized_connection_info_is_rejected_and_not_stored() {
    let mut server = server_with(|config| config.max_connection_info_bytes = 64);
    let player = seated(&mut server, 1);
    let oversized =
        "{\"type\":\"direct\",\"host\":\"host-name-longer-than-sixteen-bytes\",\"port\":7777}"
            .to_string();
    match server.handle_provide_connection_info(player, &oversized) {
        ConnectionInfoStep::Refused(frame) => expect_error(&frame, ErrorCode::MessageTooLarge),
        other => panic!("an oversized entry must not be stored: {other:?}"),
    }
    let small = "{\"type\":\"direct\",\"host\":\"h\",\"port\":1}".to_string();
    assert!(matches!(
        server.handle_provide_connection_info(player, &small),
        ConnectionInfoStep::Store { .. }
    ));
}

#[test]
fn relay_byte_budget_rejects_over_budget_frames_and_recovers() {
    let mut server = server_with(|config| {
        config.rate_limit_config.max_relay_bytes = 1000;
        config.rate_limit_config.time_window = 100 * MILLI;
    });
    let sender = seated(&mut server, 1);
    let peer = seated(&mut server, 2);
    let start = 10 * MILLI;
    assert_eq!(
        relay(&mut server, sender, b"within-budget".len(), start),
        vec![peer]
    );
    expect_refused(
        submit(&mut server, sender, 2000, start),
        ErrorCode::RateLimitExceeded,
    );
    assert_eq!(
        server.relay_budgets.sender_rejections(),
        1,
        "the over-budget frame is attributed exactly once"
    );
    assert_eq!(
        server.relay_budgets.bytes_total(),
        b"within-budget".len() as u64,
        "only admitted bytes are accounted"
    );
    assert_eq!(
        relay(&mut server, sender, 1000, start + 150 * MILLI),
        vec![peer]
    );
}

#[test]
fn relay_byte_budget_covers_the_text_lane() {
    let mut server = server_with(|config| {
        config.rate_limit_config.max_relay_bytes = 1;
        config.rate_limit_config.time_window = 100 * MILLI;
    });
    let sender = seated(&mut server, 1);
    let step = server.handle_game_data(
        sender,
        &"\"any payload consumes the budget\"".to_string(),
        None,
        None,
    );
    expect_refused(step, ErrorCode::RateLimitExceeded);
    assert_eq!(server.relay_budgets.bytes_total(), 0);
}

#[test]
fn room_relay_byte_budget_bounds_joint_senders() {
    let mut server = server_with(|config| {
        config.app_id_allowlist_enabled = true;
        config.rate_limit_config.max_relay_bytes = 1000;
        config.rate_limit_config.max_room_relay_bytes = 1200;
        config.rate_limit_config.time_window = 60 * SECOND;
    });
    let sender_a = seated(&mut server, 1);
    let sender_b = seated(&mut server, 2);
    let peer = seated(&mut server, 3);
    let app_id = 0xa11;
    for player in [sender_a, sender_b, peer] {
        server.set_client_app_context(player, app(app_id, None));
    }
    assert_eq!(
        relay(&mut server, sender_a, 600, 0),
        ascending(vec![sender_b, peer])
    );
    assert_eq!(
        relay(&mut server, sender_b, 600, 0),
        ascending(vec![sender_a, peer])
    );
    expect_refused(
        submit(&mut server, sender_a, 1, 0),
        ErrorCode::RateLimitExceeded,
    );
    assert_eq!(
        server.relay_budgets.room_rejections(),
        1,
        "the room-ceiling rejection is attributed on its own lane"
    );
    assert_eq!(
        server.relay_budgets.sender_rejections(),
        0,
        "no sender budget rejected anything"
    );
    assert_eq!(
        server.relay_budgets.bytes_total(),
        1200,
        "only admitted bytes are accounted"
    );
    assert_eq!(
        server.relay_budgets.app_bytes(app_id),
        Some(1200),
        "the rejected 1-byte submit is attributed nowhere"
    );
    assert_eq!(
        server.relay_budgets.sender_bytes(sender_a),
        Some(601),
        "a room-ceiling rejection retains the sender-budget charge"
    );
}

#[test]
fn per_app_relay_budget_override_bounds_the_apps_senders_and_attracts_their_bytes() {
    let app_id = 0xa11;
    let mut server = server_with(|config| {
        config.app_id_allowlist_enabled = true;
        config.rate_limit_config.max_relay_bytes = 1000;
        config.rate_limit_config.max_room_relay_bytes = 100_000;
        config.rate_limit_config.time_window = 60 * SECOND;
    });
    let sender_a = seated(&mut server, 1);
    let sender_b = seated(&mut server, 2);
    let peer = seated(&mut server, 3);
    let untiered = register(&mut server, 4);
    seat(&mut server, untiered, ROOM + 1);
    for player in [sender_a, sender_b, peer] {
        server.set_client_app_context(player, app_named("Trial Tier", app_id, Some(300)));
    }
    server.set_client_app_context(untiered, app_named("Untiered", 0xb22, None));

    assert_eq!(
        relay(&mut server, sender_a, 300, 0),
        ascending(vec![sender_b, peer])
    );
    expect_refused(
        submit(&mut server, sender_a, 1, 0),
        ErrorCode::RateLimitExceeded,
    );
    assert_eq!(
        relay(&mut server, sender_b, 300, 0),
        ascending(vec![sender_a, peer])
    );
    expect_refused(
        submit(&mut server, sender_b, 1, 0),
        ErrorCode::RateLimitExceeded,
    );
    assert_eq!(
        server.relay_budgets.sender_rejections(),
        2,
        "each tiered sender's over-override frame lands on the sender-budget lane"
    );
    assert_eq!(
        server.relay_budgets.bytes_total(),
        600,
        "only admitted bytes are accounted server-wide"
    );
    assert_eq!(
        server.relay_budgets.app_bytes(app_id),
        Some(600),
        "admitted bytes are attributed to the sending application"
    );
    assert_eq!(
        server.relay_budgets.attributed_apps(),
        1,
        "only the tiered app carries attributed bytes"
    );

    assert!(relay(&mut server, untiered, 1000, 0).is_empty());
    expect_refused(
        submit(&mut server, untiered, 1, 0),
        ErrorCode::RateLimitExceeded,
    );
    assert_eq!(
        server.relay_budgets.app_bytes(app_id),
        Some(600),
        "a rejected frame is never attributed to an app"
    );
    assert_eq!(
        server.relay_budgets.attributed_apps(),
        2,
        "every allowlisted app is attributed"
    );
    assert_eq!(server.relay_budgets.sender_rejections(), 3);
    assert_eq!(server.relay_budgets.bytes_total(), 1600);
}

#[test]
fn open_mode_ignores_app_relay_policy_for_enforcement_and_attribution() {
    let mut server = server_with(|config| {
        config.app_id_allowlist_enabled = false;
        config.rate_limit_config.max_relay_bytes = 1000;
        config.rate_limit_config.max_room_relay_bytes = 100_000;
        config.rate_limit_config.time_window = 60 * SECOND;
    });
    let sender = seated(&mut server, 1);
    let peer = seated(&mut server, 2);
    for player in [sender, peer] {
        server.set_client_app_context(
            player,
            app_named("spoofed-tier", 0x5900f, Some(u64::MAX)),
        );
    }
    assert_eq!(relay(&mut server, sender, 1000, 0), vec![peer]);
    expect_refused(
        submit(&mut server, sender, 1, 0),
        ErrorCode::RateLimitExceeded,
    );
    assert_eq!(server.relay_budgets.bytes_total(), 1000);
    assert_eq!(
        server.relay_budgets.attributed_apps(),
        0,
        "open-mode relays are never attributed per app: the label is spoofable"
    );
}

#[test]
fn relayed_frames_share_one_stamp_sequence() {
    let mut server = server();
    let player = seated(&mut server, 1);
    match server.stamp_game_data(player, ROOM, "{}".to_string(), None, None) {
        Some(ServerMessage::GameData {
            from_player,
            seq,
            epoch,
            ..
        }) => assert_eq!((from_player, seq, epoch), (player, Some(1), Some(1))),
        other => panic!("expected a stamped frame, got {other:?}"),
    }
    match server.stamp_game_data_binary(player, ROOM, GameDataEncoding::MessagePack, vec![1]) {
        Some(ServerMessage::GameDataBinary { seq, epoch, .. }) => {
            assert_eq!((seq, epoch), (Some(2), Some(1)));
        }
        other => panic!("expected a stamped frame, got {other:?}"),
    }
    assert!(server
        .stamp_game_data(player, ROOM + 1, "{}".to_string(), None, None)
        .is_none());
}

#[test]
fn oversized_binary_payload_does_not_refresh_client_or_room_liveness() {
    let mut server = server_with(|config| {
        config.heartbeat_throttle = 0;
        config.max_connections_per_ip = 32;
        config.max_message_size = 4;
        config.max_signal_bytes = 4;
        config.max_connection_info_bytes = 4;
    });
    let player = seated(&mut server, 1);
    server.connection_manager.record_ping_at(player, 0);
    let now = 25 * MILLI;
    assert_eq!(
        server
            .connection_manager
            .collect_expired_clients_at(now, 5 * MILLI),
        vec![player],
        "client should be stale before the rejected payload"
    );
    let (heartbeat, step) =
        server.handle_game_data_binary_at(player, &b"12345".to_vec(), None, now);
    assert!(
        heartbeat.is_none(),
        "a rejected payload must not keep an inactive room alive"
    );
    match step {
        GameDataStep::Refused(Reply::Send(ServerMessage::Error {
            message,
            error_code,
        })) => {
            assert_eq!(error_code, Some(ErrorCode::MessageTooLarge));
            assert_eq!(message, "Binary payload exceeded maximum size (4 bytes)");
        }
        other => panic!("expected a refusal, got {other:?}"),
    }
    assert_eq!(
        server
            .connection_manager
            .collect_expired_clients_at(now, 5 * MILLI),
        vec![player],
        "a rejected payload must not keep an inactive client alive"
    );

    let (heartbeat, _) = server.handle_game_data_binary_at(player, &vec![0; 4], None, now);
    assert_eq!(heartbeat, Some(HeartbeatStep::Update { room: Some(ROOM) }));
    assert!(server
        .connection_manager
        .collect_expired_clients_at(now, 5 * MILLI)
        .is_empty());
}

#[test]
fn zero_throttle_still_suppresses_unknown_player_last_seen() {
    let mut server = server_with(|config| config.heartbeat_throttle = 0);
    assert_eq!(
        server.maybe_update_last_seen(0xdead, None),
        HeartbeatStep::Skipped
    );
    let player = register(&mut server, 1);
    for _ in 0..2 {
        assert_eq!(
            server.maybe_update_last_seen(player, None),
            HeartbeatStep::Update { room: None }
        );
    }
}

#[test]
fn handle_ping_resets_timeout_and_replies() {
    let mut server = server_with(|config| config.max_connections_per_ip = 32);
    let player = register(&mut server, 1);
    server.connection_manager.record_ping_at(player, 0);
    let now = 25 * MILLI;
    assert_eq!(
        server
            .connection_manager
            .collect_expired_clients_at(now, 5 * MILLI),
        vec![player],
        "player should look expired before ping"
    );
    assert!(
        matches!(server.handle_ping_at(player, now), ServerMessage::Pong),
        "server responds with Pong"
    );
    assert!(
        server
            .connection_manager
            .collect_expired_clients_at(now, 5 * MILLI)
            .is_empty(),
        "ping refresh should remove player from expired set"
    );
    assert!(matches!(server.handle_ping(player), ServerMessage::Pong));
}

#[test]
fn transport_traffic_counts_and_the_room_it_occupies_is_refreshed() {
    let mut server = server();
    let player = register(&mut server, 1);
    assert_eq!(
        server.record_activity_at(player, Some(0x5bec), 10),
        HeartbeatStep::Update { room: Some(0x5bec) },
        "a spectator keeps the room it watches alive"
    );
    assert_eq!(
        server.record_activity_at(player, Some(0x5bec), 20),
        HeartbeatStep::Skipped
    );
    seat(&mut server, player, ROOM);
    assert_eq!(
        server.record_activity_at(player, Some(0x5bec), 10 + 30 * SECOND),
        HeartbeatStep::Update { room: Some(ROOM) }
    );
    let _ = server.record_transport_activity(player, None);
}

#[test]
fn roomless_authority_denials_exhaust_the_error_reply_budget() {
    let mut server = server_with(|config| {
        config.rate_limit_config.max_inbound_error_replies = 2;
    });
    let player = register(&mut server, 1);
    let lifecycle = server.client_lifecycle(player).expect("registered");

    for _ in 0..2 {
        match server.handle_authority_request(player, lifecycle) {
            AuthorityStep::Refused(Reply::Send(ServerMessage::AuthorityResponse {
                granted,
                reason,
                error_code,
            })) => {
                assert!(!granted);
                assert_eq!(reason, Some("Not in a room".to_string()));
                assert_eq!(error_code, Some(ErrorCode::NotInRoom));
            }
            other => panic!("the budgeted denial must still be delivered, got {other:?}"),
        }
    }
    match server.handle_authority_request(player, lifecycle) {
        AuthorityStep::Refused(Reply::Withheld {
            farewell: Some(frame),
        }) => expect_error(&frame, ErrorCode::RateLimitExceeded),
        other => panic!("an exhausted budget must withhold the denial, got {other:?}"),
    }
    assert!(matches!(
        server.handle_authority_request(player, lifecycle),
        AuthorityStep::Refused(Reply::Withheld { farewell: None })
    ));
    let removed = server
        .connection_manager
        .remove_client(player)
        .expect("registered");
    assert_eq!(
        removed.close.requested_reason(),
        Some(CloseReason::InboundRateLimited)
    );
}

#[test]
fn authority_outcomes_are_answered_and_charged() {
    let mut server = server_with(|config| {
        config.rate_limit_config.max_inbound_error_replies = 2;
    });
    let player = seated(&mut server, 1);
    let lifecycle = server.client_lifecycle(player).expect("registered");
    assert!(matches!(
        server.handle_authority_request(player, lifecycle),
        AuthorityStep::Ask { room: ROOM }
    ));
    assert!(matches!(
        server.handle_authority_request(player, lifecycle + 1),
        AuthorityStep::Stale
    ));
    assert!(server
        .finish_authority_request(player, AuthorityOutcome::Granted)
        .is_none());
    assert!(server
        .finish_authority_request(player, AuthorityOutcome::Denied)
        .is_none());
    match server.finish_authority_request(player, AuthorityOutcome::Failed) {
        Some(Reply::Send(ServerMessage::AuthorityResponse { reason, .. })) => {
            assert_eq!(reason, Some("Internal error".to_string()));
        }
        other => panic!("a failure is answered, got {other:?}"),
    }
    assert!(matches!(
        server.finish_authority_request(player, AuthorityOutcome::Denied),
        Some(Reply::Withheld { farewell: Some(_) })
    ));
}

#[test]
fn refusals_are_charged_and_correlated() {
    let mut server = server();
    let player = register(&mut server, 1);
    match server.send_join_failure_to_player(player, "full".to_string(), None, None) {
        Reply::Send(ServerMessage::RoomJoinFailed { reason, .. }) => assert_eq!(reason, "full"),
        other => panic!("unexpected reply {other:?}"),
    }
    match server.send_join_failure_to_player(player, "full".to_string(), None, Some(9)) {
        Reply::Send(ServerMessage::RoomOperationResult {
            operation_id,
            result: RoomOperationResult::RoomJoinFailed { reason, .. },
        }) => assert_eq!((operation_id, reason.as_str()), (9, "full")),
        other => panic!("unexpected reply {other:?}"),
    }
    assert!(matches!(
        server.send_spectator_join_failure_to_player(player, String::new(), None, Some(9)),
        Reply::Send(ServerMessage::RoomOperationResult {
            operation_id: 9,
            result: RoomOperationResult::SpectatorJoinFailed { .. }
        })
    ));
    assert!(matches!(
        server.send_reconnection_failure_to_player(
            player,
            String::new(),
            ErrorCode::InternalError,
            Some(9)
        ),
        Reply::Send(ServerMessage::RoomOperationResult {
            operation_id: 9,
            result: RoomOperationResult::ReconnectionFailed { .. }
        })
    ));
    assert!(matches!(
        server.send_room_operation_failure_to_player(player, 10, String::new(), None),
        Reply::Send(ServerMessage::RoomOperationResult {
            operation_id: 10,
            result: RoomOperationResult::Failed { .. }
        })
    ));
    match server.send_error_to_player(player, "no".to_string(), Some(ErrorCode::InternalError)) {
        Reply::Send(frame) => expect_error(&frame, ErrorCode::InternalError),
        other => panic!("unexpected reply {other:?}"),
    }
}

#[test]
fn farewells_go_to_routed_players_only() {
    let mut server = server();
    let player = register(&mut server, 1);
    let (step, frame) = server.send_farewell_to_player(
        player,
        "bye".to_string(),
        Some(ErrorCode::ActivityTimeout),
        None,
    );
    assert!(matches!(step, FarewellStep::TrySend { .. }));
    expect_error(&frame, ErrorCode::ActivityTimeout);
    let (step, _) =
        server.send_farewell_to_player_if(player, "bye".to_string(), None, Some(false), None);
    assert_eq!(step, FarewellStep::Done { enqueued: false });
    let (step, _) = server.send_farewell_to_player(0xdead, String::new(), None, None);
    assert_eq!(step, FarewellStep::Done { enqueued: false });
}

#[test]
fn client_protocol_round_trips_through_server() {
    let mut server = server();
    let player = register(&mut server, 1);

    assert!(!server.client_supports_v3(player));
    assert_eq!(server.client_protocol(player).version, 2);
    assert!(server.client_supports_transport(player, Transport::Relay));
    assert!(!server.client_supports_transport(player, Transport::WebRtc));

    server.set_client_protocol(player, v3());
    assert!(server.client_supports_v3(player));
    assert!(server.client_supports_transport(player, Transport::WebRtc));
    let protocol = server.client_protocol(player);
    assert_eq!(protocol.version, 3);
    assert_eq!(protocol.topologies, vec![Topology::Relay, Topology::Mesh]);
}

#[test]
fn client_settings_round_trip_through_server() {
    let mut server = server();
    let player = register(&mut server, 1);
    server.set_client_protocol(player, v3());
    assert_eq!(
        server.client_protocol(player).transports,
        vec![Transport::Relay, Transport::WebRtc]
    );
    assert!(!server.client_supports_transport(player, Transport::Direct));
    server.set_client_game_data_format(player, GameDataEncoding::Rkyv);
    assert_eq!(server.client_game_data_format(player), GameDataEncoding::Rkyv);
    assert!(server.prefers_encoding(player, GameDataEncoding::Rkyv));
    server.set_client_app_context(player, app(3, None));
    assert_eq!(server.client_app_id(player), Some(3));
    assert_eq!(server.client_app_context(player).map(|c| c.id), Some(3));
}

#[test]
fn transport_status_update_results_are_distinct() {
    let mut server = server();
    let missing_player_id = 0xdead;
    assert_eq!(
        server.set_client_transport_status(missing_player_id, Transport::WebRtc, true),
        TransportStatusUpdate::MissingConnection
    );
    assert_eq!(server.client_transport_status(missing_player_id), None);

    let player = register(&mut server, 1);
    assert_eq!(
        server.set_client_transport_status(player, Transport::WebRtc, true),
        TransportStatusUpdate::UnsupportedProtocolVersion
    );

    server.set_client_protocol(
        player,
        NegotiatedProtocol {
            version: 3,
            transports: vec![Transport::Relay],
            topologies: vec![Topology::Relay],
        },
    );
    assert_eq!(
        server.set_client_transport_status(player, Transport::WebRtc, true),
        TransportStatusUpdate::UnsupportedTransport
    );
    assert_eq!(
        server.set_client_transport_status(player, Transport::Relay, true),
        TransportStatusUpdate::Changed
    );

    server.set_client_protocol(player, v3());
    assert_eq!(
        server.set_client_transport_status(player, Transport::WebRtc, true),
        TransportStatusUpdate::Changed
    );
    assert_eq!(
        server.set_client_transport_status(player, Transport::WebRtc, true),
        TransportStatusUpdate::Duplicate
    );
    assert_eq!(
        server.set_client_transport_status(player, Transport::WebRtc, false),
        TransportStatusUpdate::Changed
    );
}

#[test]
fn transport_status_dedup_is_scoped_to_membership_generation() {
    let mut server = server();
    let player = register(&mut server, 1);
    server.set_client_protocol(player, v3());

    let status = (Transport::WebRtc, true);
    assert_eq!(
        server.set_client_transport_status(player, status.0, status.1),
        TransportStatusUpdate::Changed
    );
    assert_eq!(
        server.set_client_transport_status(player, status.0, status.1),
        TransportStatusUpdate::Duplicate,
        "same-generation duplicate must remain suppressed"
    );

    let (_, prepared_stamp) = server
        .connection_manager
        .prepare_client_to_room(player, ROOM)
        .expect("prepare room A membership");
    assert_eq!(
        server.client_transport_status(player),
        None,
        "a prepared membership must not expose the prior generation's status"
    );
    server
        .connection_manager
        .rollback_prepared_room_assignment(player, ROOM, prepared_stamp.epoch)
        .expect("roll back unpublished room A membership");
    assert_eq!(
        server.client_transport_status(player),
        Some(status),
        "a failed prepared membership must restore the prior dedup generation"
    );
    assert_eq!(
        server.set_client_transport_status(player, status.0, status.1),
        TransportStatusUpdate::Duplicate
    );

    seat(&mut server, player, ROOM);
    assert_eq!(
        server.set_client_transport_status(player, status.0, status.1),
        TransportStatusUpdate::Changed,
        "room A's first report must be fresh"
    );
    assert_eq!(
        server.set_client_transport_status(player, status.0, status.1),
        TransportStatusUpdate::Duplicate
    );

    server
        .connection_manager
        .clear_room_assignment(player)
        .expect("leave room A");
    assert_eq!(server.client_transport_status(player), None);
    assert_eq!(
        server.set_client_transport_status(player, status.0, status.1),
        TransportStatusUpdate::Changed,
        "roomless membership generation starts with no dedup baseline"
    );
}

#[test]
fn library_constructor_rejects_unjoinable_generated_room_codes() {
    let config = ServerConfig {
        room_code_prefix: Some("EU-".to_string()),
        ..ServerConfig::default()
    };
    let error = match EnhancedGameServer::new(config) {
        Ok(_) => panic!("invalid prefix must fail before server construction"),
        Err(error) => error,
    };
    assert!(
        error
            .message()
            .contains("server.room_code_prefix must contain only ASCII alphanumeric"),
        "constructor must report the exact invalid generation field: {error:?}"
    );
}

#[test]
fn alphanumeric_prefixes_are_joinable() {
    for prefix in [None, Some(""), Some("EU1"), Some("azAZ09")] {
        let config = ServerConfig {
            room_code_prefix: prefix.map(str::to_string),
            ..ServerConfig::default()
        };
        let server = EnhancedGameServer::new(config).expect("a joinable prefix");
        assert_eq!(server.room_code_prefix(), prefix);
    }
    for prefix in ["-", "E U", "\u{e9}", "EU_", "EU\u{661}", "@", "[", "`", "{", "/", ":"] {
        let config = ServerConfig {
            room_code_prefix: Some(prefix.to_string()),
            ..ServerConfig::default()
        };
        assert_eq!(
            config.validate_room_code_generation(),
            Err(ServerConfigError::RoomCodePrefixNotAlphanumeric),
            "{prefix:?}"
        );
        assert!(EnhancedGameServer::new(config).is_err(), "{prefix:?}");
    }
}

#[test]
fn a_deleted_room_is_seen_to_step_by_step() {
    for (cleared, claim, publishes) in [
        (true, Ok(true), true),
        (false, Ok(false), false),
        (false, Err(()), true),
    ] {
        let mut server = server();
        assert_eq!(server.record_room_application::<()>(ROOM, 3, Ok(())), Ok(()));
        assert_eq!(
            server.record_room_application::<()>(ROOM + 1, 4, Ok(())),
            Ok(())
        );
        let mut progress = DeletedRoomProgress::new();
        assert_eq!(
            server.cleanup_deleted_room(ROOM, &progress),
            DeletedRoomStep::DropSessionPlan
        );
        assert_eq!(server.owned_rooms().len(), 2);
        progress.plan_dropped = true;
        assert_eq!(
            server.cleanup_deleted_room(ROOM, &progress),
            DeletedRoomStep::ClearReadyPlayers
        );
        assert_eq!(server.owned_rooms(), vec![ROOM + 1]);
        progress.ready_cleared = Some(cleared);
        assert_eq!(
            server.cleanup_deleted_room(ROOM, &progress),
            DeletedRoomStep::Claim {
                instance: server.instance_id()
            }
        );
        progress.claim = Some(claim);
        assert_eq!(
            server.cleanup_deleted_room(ROOM, &progress),
            DeletedRoomStep::Done { publishes }
        );
        assert_eq!(server.owned_rooms(), vec![ROOM + 1]);
    }
    assert_eq!(empty_cleanup_operation(), "empty_cleanup");
}

#[test]
fn room_sweeps_record_what_they_deleted() {
    assert_eq!(
        count_empty_rooms::<()>(&Ok(vec![1, 2, 3])),
        RoomSweepCounts {
            empty_rooms_cleaned: 3,
            inactive_rooms_cleaned: 0,
            rooms_deleted: 3
        }
    );
    assert_eq!(
        count_expired_rooms::<()>(&Ok(RoomCleanupOutcome {
            empty_rooms_cleaned: 2,
            inactive_rooms_cleaned: 5
        })),
        RoomSweepCounts {
            empty_rooms_cleaned: 2,
            inactive_rooms_cleaned: 5,
            rooms_deleted: 7
        }
    );
    let nothing = RoomSweepCounts {
        empty_rooms_cleaned: 0,
        inactive_rooms_cleaned: 0,
        rooms_deleted: 0,
    };
    assert_eq!(count_empty_rooms(&Err("storage is away")), nothing);
    assert_eq!(count_expired_rooms(&Err("storage is away")), nothing);
}

#[test]
fn drawn_identities_are_random_identifiers() {
    let mut server = server();
    let player = register(&mut server, 1);
    for id in [server.instance_id(), player] {
        assert_eq!((id >> 76) & 0xf, 4);
        assert_eq!((id >> 62) & 3, 2);
    }
}

#[test]
fn sweeps_are_counted() {
    let done = |cleaned| DetachStep::Done {
        forgotten: true,
        cleaned,
    };
    assert_eq!(count_cleaned(&vec![]), 0);
    assert_eq!(
        count_cleaned(&vec![done(true), done(false), DetachStep::ReadRoom, done(true)]),
        2
    );
    assert_eq!(count_swept(&vec![]), 0);
    assert_eq!(count_swept(&vec![true, false, true, true]), 3);
}

#[test]
fn an_authenticate_message_goes_nowhere_but_counts_as_activity() {
    let mut server = server();
    let player = register(&mut server, 1);
    server.connection_manager.record_ping_at(player, 0);
    let (heartbeat, request) = server.handle_client_message_at(
        player,
        ClientMessage::Authenticate {
            app_id: "late".to_string(),
        },
        None,
        40 * SECOND,
    );
    assert!(matches!(request, ClientRequest::Ignore));
    assert_eq!(heartbeat, HeartbeatStep::Update { room: None });
    assert!(server
        .connection_manager
        .collect_expired_clients_at(60 * SECOND, 30 * SECOND)
        .is_empty());
}

#[test]
fn room_operation_requires_explicit_capability_negotiation() {
    let mut server = server();
    let player = register(&mut server, 1);
    let operation = |operation| ClientMessage::RoomOperation {
        operation_id: 9,
        operation,
    };
    match server
        .handle_client_message(player, operation(RoomOperationRequest::LeaveRoom), None)
        .1
    {
        ClientRequest::Refused(Reply::Send(frame)) => {
            expect_error(&frame, ErrorCode::UnsupportedProtocolVersion);
        }
        other => panic!("expected a refusal, got {other:?}"),
    }
    server.set_client_room_operation_ids(player, true);
    assert!(server.client_supports_room_operation_ids(player));
    assert!(matches!(
        server
            .handle_client_message(player, operation(RoomOperationRequest::LeaveRoom), None)
            .1,
        ClientRequest::LeaveRoom {
            operation_id: Some(9)
        }
    ));
    assert!(matches!(
        server
            .handle_client_message(
                player,
                operation(RoomOperationRequest::LeaveSpectator),
                None
            )
            .1,
        ClientRequest::LeaveSpectator {
            operation_id: Some(9)
        }
    ));
    assert!(matches!(
        server.handle_client_message(player, ClientMessage::LeaveRoom, None).1,
        ClientRequest::LeaveRoom { operation_id: None }
    ));
}

#[test]
fn every_message_reaches_its_handler() {
    let mut server = server();
    let player = register(&mut server, 1);
    let mut route = |message| server.handle_client_message(player, message, None).1;
    let join = || JoinRequest {
        game_name: "game".to_string(),
        room_code: None,
        player_name: "Alice".to_string(),
        max_players: Some(2),
        supports_authority: Some(true),
        relay_transport: None,
    };
    match route(ClientMessage::JoinRoom(join())) {
        ClientRequest::JoinRoom {
            request,
            operation_id,
        } => {
            assert_eq!(request.game_name, "game");
            assert_eq!(request.player_name, "Alice");
            assert_eq!(request.max_players, Some(2));
            assert_eq!(operation_id, None);
        }
        other => panic!("unexpected request {other:?}"),
    }
    assert!(matches!(route(ClientMessage::Ping), ClientRequest::Ping));
    assert!(matches!(
        route(ClientMessage::PlayerReady),
        ClientRequest::PlayerReady
    ));
    assert!(matches!(
        route(ClientMessage::StartGame),
        ClientRequest::StartGame
    ));
    assert!(matches!(
        route(ClientMessage::AuthorityRequest {
            become_authority: true
        }),
        ClientRequest::AuthorityRequest {
            become_authority: true
        }
    ));
    assert!(matches!(
        route(ClientMessage::GameData {
            data: "1".to_string(),
            class: None,
            key: Some(4)
        }),
        ClientRequest::GameData { key: Some(4), .. }
    ));
    assert!(matches!(
        route(ClientMessage::Signal {
            to: 5,
            generation: None,
            signal: "{}".to_string()
        }),
        ClientRequest::Signal { to: 5, .. }
    ));
    assert!(matches!(
        route(ClientMessage::ProvideConnectionInfo {
            connection_info: "{}".to_string()
        }),
        ClientRequest::ProvideConnectionInfo { .. }
    ));
    assert!(matches!(
        route(ClientMessage::Reconnect(ReconnectRequest {
            player_id: 5,
            room_id: 6,
            auth_token: "SECRET-REDACTED".to_string()
        })),
        ClientRequest::Reconnect {
            operation_id: None,
            ..
        }
    ));
    assert!(matches!(
        route(ClientMessage::JoinAsSpectator(SpectateRequest {
            game_name: "game".to_string(),
            room_code: "CODE".to_string(),
            spectator_name: "Bob".to_string()
        })),
        ClientRequest::JoinAsSpectator {
            operation_id: None,
            ..
        }
    ));
    assert!(matches!(
        route(ClientMessage::TransportStatus {
            transport: Transport::WebRtc,
            connected: false
        }),
        ClientRequest::TransportStatus {
            transport: Transport::WebRtc,
            connected: false
        }
    ));
}

#[test]
fn transport_reports_are_counted_once_and_fan_out_to_v3_peers() {
    let mut server = server();
    let reporter = seated(&mut server, 1);
    let peer = seated(&mut server, 2);
    let legacy = seated(&mut server, 3);
    server.set_client_protocol(reporter, v3());
    server.set_client_protocol(peer, v3());
    let lifecycle = server.client_lifecycle(reporter).expect("registered");

    assert_eq!(
        server.handle_transport_status(reporter, lifecycle, Transport::WebRtc, true),
        TransportReportStep::Recorded {
            metric: Some(TransportMetric::PeerToPeerEstablished),
            room: Some(ROOM)
        }
    );
    assert!(matches!(
        server.handle_transport_status(reporter, lifecycle, Transport::WebRtc, true),
        TransportReportStep::Ignored(_)
    ));
    assert!(matches!(
        server.handle_transport_status(reporter, lifecycle, Transport::Direct, true),
        TransportReportStep::Ignored(_)
    ));
    assert_eq!(
        server.handle_transport_status(reporter, lifecycle, Transport::WebRtc, false),
        TransportReportStep::Recorded {
            metric: Some(TransportMetric::RelayFallback),
            room: Some(ROOM)
        }
    );
    assert_eq!(
        server.handle_transport_status(reporter, lifecycle, Transport::Relay, true),
        TransportReportStep::Recorded {
            metric: None,
            room: Some(ROOM)
        }
    );
    assert_eq!(
        server.handle_transport_status(reporter, lifecycle + 9, Transport::WebRtc, true),
        TransportReportStep::Stale
    );

    let report = TransportReport {
        player: reporter,
        room: ROOM,
        transport: Transport::Relay,
        connected: true,
    };
    let mut progress = FanoutProgress {
        available: None,
        members: None,
        charged: None,
    };
    assert!(matches!(
        server.handle_transport_status_under_lifecycle(&report, &progress),
        FanoutStep::CheckSignalAvailable
    ));
    progress.available = Some(true);
    assert!(matches!(
        server.handle_transport_status_under_lifecycle(&report, &progress),
        FanoutStep::ReadMembers { room: ROOM }
    ));
    progress.members = Some(RoomMembers::Routed(
        server.message_coordinator.routed_player_ids(ROOM),
    ));
    assert!(matches!(
        server.handle_transport_status_under_lifecycle(&report, &progress),
        FanoutStep::ChargeSignal
    ));
    progress.charged = Some(true);
    match server.handle_transport_status_under_lifecycle(&report, &progress) {
        FanoutStep::Send { recipients, frame } => {
            assert_eq!(recipients, vec![peer]);
            assert!(matches!(
                frame,
                ServerMessage::PeerTransportStatus { peer_id, transport: Transport::Relay, connected: true }
                    if peer_id == reporter
            ));
        }
        other => panic!("expected a fan-out, got {other:?}"),
    }
    progress.members = Some(RoomMembers::Routed(vec![peer, legacy]));
    assert!(
        matches!(
            server.handle_transport_status_under_lifecycle(&report, &progress),
            FanoutStep::Stop
        ),
        "an unrouted sender fans nothing out"
    );
    progress.members = Some(RoomMembers::Stored(vec![peer, legacy]));
    assert!(matches!(
        server.handle_transport_status_under_lifecycle(&report, &progress),
        FanoutStep::Send { .. }
    ));
    progress.members = Some(RoomMembers::Unreadable);
    assert!(matches!(
        server.handle_transport_status_under_lifecycle(&report, &progress),
        FanoutStep::Stop
    ));
    progress.available = Some(false);
    assert!(matches!(
        server.handle_transport_status_under_lifecycle(&report, &progress),
        FanoutStep::Stop
    ));
}

fn run_unregistration(server: &mut EnhancedGameServer, player: PlayerId) -> Vec<UnregisterAction> {
    let lifecycle = server.client_lifecycle(player);
    let mut job = server
        .unregister_client(player, lifecycle)
        .expect("the connection is there");
    let mut actions = Vec::new();
    loop {
        let action = server.unregister_client_locked(&mut job);
        match action {
            UnregisterAction::Continue => {}
            UnregisterAction::Finish { .. } => {
                actions.push(action);
                return actions;
            }
            UnregisterAction::FetchRoomSnapshot { .. } => {
                job.snapshot = Some(true);
                actions.push(action);
            }
            UnregisterAction::LeaveRoom { .. } | UnregisterAction::RemoveForDrain { .. } => {
                let _ = server.connection_manager.clear_room_assignment(player);
                actions.push(action);
            }
            _ => actions.push(action),
        }
    }
}

#[test]
fn a_roomless_client_is_unregistered() {
    let mut server = server();
    let player = register(&mut server, 1);
    assert_eq!(
        run_unregistration(&mut server, player),
        vec![
            UnregisterAction::DetachSpectator,
            UnregisterAction::DiscardPreIssuedToken,
            UnregisterAction::Finish {
                removed: Some(CloseReason::Unregistered)
            }
        ]
    );
    assert!(!server.connection_manager.has_client(player));
    assert!(server.message_coordinator.delivery_handle(player).is_none());
}

#[test]
fn a_seated_client_is_offered_for_reconnection() {
    let mut server = server();
    let player = seated(&mut server, 1);
    assert_eq!(
        run_unregistration(&mut server, player),
        vec![
            UnregisterAction::FetchRoomSnapshot { room: ROOM },
            UnregisterAction::DetachSpectator,
            UnregisterAction::RegisterDisconnection {
                room: ROOM,
                was_authority: true
            },
            UnregisterAction::LeaveRoom { room: ROOM },
            UnregisterAction::Finish {
                removed: Some(CloseReason::Unregistered)
            }
        ]
    );
}

#[test]
fn a_draining_server_unregisters_quietly() {
    let mut server = server();
    let player = seated(&mut server, 1);
    server.begin_drain(77);
    assert_eq!(
        run_unregistration(&mut server, player),
        vec![
            UnregisterAction::FetchRoomSnapshot { room: ROOM },
            UnregisterAction::DetachSpectator,
            UnregisterAction::DiscardPreIssuedToken,
            UnregisterAction::RemoveForDrain { room: ROOM },
            UnregisterAction::Finish {
                removed: Some(CloseReason::Shutdown)
            }
        ]
    );
}

#[test]
fn a_drain_that_begins_late_withdraws_the_reconnection_offer() {
    let mut server = server();
    let player = seated(&mut server, 1);
    let mut job = server.begin_unregistration(player);
    assert!(matches!(
        server.unregister_client_locked(&mut job),
        UnregisterAction::FetchRoomSnapshot { .. }
    ));
    job.snapshot = Some(false);
    while job.stage != UnregisterStage::AfterLeave {
        let _ = server.unregister_client_locked(&mut job);
    }
    let _ = server.connection_manager.clear_room_assignment(player);
    server.begin_drain(1);
    assert_eq!(
        server.unregister_client_locked(&mut job),
        UnregisterAction::DiscardPendingReconnection
    );
    assert_eq!(
        server.unregister_client_locked(&mut job),
        UnregisterAction::Continue
    );
    assert!(server.message_coordinator.delivery_handle(player).is_none());
    assert_eq!(
        server.unregister_client_locked(&mut job),
        UnregisterAction::DiscardPendingReconnection
    );
    assert_eq!(
        server.unregister_client_locked(&mut job),
        UnregisterAction::DiscardPendingReconnection
    );
    assert_eq!(
        server.unregister_client_locked(&mut job),
        UnregisterAction::Finish {
            removed: Some(CloseReason::Shutdown)
        }
    );
    assert!(server.disconnect_client(player, None).is_some());
    assert!(server.disconnect_client(player, Some(99)).is_none());
}

#[test]
fn a_draining_server_admits_nobody() {
    let mut server = server();
    let player = register(&mut server, 1);
    assert!(!server.is_draining());
    server.begin_drain(0);
    assert!(server.is_draining());
    let refused = server.register_client(
        DeliverySender {
            channel: 2,
            generation: 0,
        },
        from_port(5001),
    );
    assert_eq!(refused, Err(RegisterClientError::ServerDraining));
    assert_eq!(
        RegisterClientError::ServerDraining.message(),
        "Server is draining for shutdown"
    );
    server.close_if_draining(player);
    let removed = server
        .connection_manager
        .remove_client(player)
        .expect("registered");
    assert_eq!(
        removed.close.requested_reason(),
        Some(CloseReason::Shutdown)
    );
}

#[test]
fn a_signal_pulled_before_registration_stays_pulled() {
    let mut server = server();
    let mut close = ConnectionCloseSignal::detached();
    assert!(close.request_close(CloseReason::AuthTimeout));
    let player = server
        .register_client_with_close(
            DeliverySender {
                channel: 1,
                generation: 0,
            },
            close,
            from_port(5000),
        )
        .expect("registration succeeds");
    let removed = server
        .connection_manager
        .remove_client(player)
        .expect("registered");
    assert_eq!(
        removed.close.requested_reason(),
        Some(CloseReason::AuthTimeout)
    );
}

#[test]
fn instances_and_players_get_identities_of_their_own() {
    let mut one = server();
    let other = server();
    assert_ne!(one.instance_id(), 0);
    assert_ne!(one.instance_id(), other.instance_id());
    let first = register(&mut one, 1);
    let second = register(&mut one, 2);
    assert_ne!(first, second);
    assert_eq!(one.region_id(), "default");
    assert_eq!(one.room_code_prefix(), None);
    assert_eq!(one.reconnection_window_secs(), Some(300));
    assert!(!one.keeps_delivery_stats());
    assert_eq!(one.config().max_rooms_per_game, 1000);
    let european = server_with(|config| {
        config.room_code_prefix = Some("EU".to_string());
        config.enable_reconnection = false;
        config.websocket_config.delivery_stats_interval_secs = 5;
    });
    assert_eq!(european.room_code_prefix(), Some("EU"));
    assert_eq!(european.reconnection_window_secs(), None);
    assert!(european.keeps_delivery_stats());
}

#[test]
fn room_owners_are_cached_only_once_persisted() {
    let mut server = server();
    assert_eq!(
        server.record_room_application(ROOM, 3, Err("refused")),
        Err("refused")
    );
    assert_eq!(server.room_application_id(ROOM), None);
    assert_eq!(
        server.record_room_application::<()>(ROOM, 3, Ok(())),
        Ok(())
    );
    assert_eq!(server.room_application_id(ROOM), Some(3));
    assert_eq!(server.owned_rooms(), vec![ROOM]);
    assert!(!server.prune_room_applications(ROOM, RoomRead::Unreadable));
    assert!(!server.prune_room_applications(ROOM, RoomRead::Present));
    assert!(server.prune_room_applications(ROOM, RoomRead::Missing));
    assert!(!server.prune_room_applications(ROOM, RoomRead::Missing));
    assert_eq!(server.room_application_id(ROOM), None);
    let _ = server.record_room_application::<()>(ROOM, 4, Ok(()));
    server.clear_room_application(ROOM);
    assert_eq!(server.room_application_id(ROOM), None);
}

#[test]
fn a_retried_removal_goes_row_first_and_claim_second() {
    let mut server = server();
    server.retain_pending_detach(ROOM, 5, Some(3));
    assert_eq!(server.pending_detach_candidates(), vec![(ROOM, 5)]);
    let mut progress = DetachProgress::new();
    assert_eq!(
        server.cleanup_pending_durable_player_detaches(ROOM, 5, &progress),
        DetachStep::ReadRoom
    );
    progress.room = Some(RoomRead::Present);
    assert_eq!(
        server.cleanup_pending_durable_player_detaches(ROOM, 5, &progress),
        DetachStep::RemovePlayer { claim: Some(3) }
    );
    progress.claim = Some(3);
    progress.removed = Some(false);
    assert_eq!(
        server.cleanup_pending_durable_player_detaches(ROOM, 5, &progress),
        DetachStep::Done {
            forgotten: false,
            cleaned: false
        }
    );
    progress.removed = Some(true);
    assert_eq!(
        server.cleanup_pending_durable_player_detaches(ROOM, 5, &progress),
        DetachStep::RollBackClaim { app: 3 }
    );
    progress.rolled_back = Some(false);
    assert_eq!(
        server.cleanup_pending_durable_player_detaches(ROOM, 5, &progress),
        DetachStep::Done {
            forgotten: false,
            cleaned: false
        }
    );
    assert_eq!(server.pending_detach_candidates().len(), 1);
    progress.rolled_back = Some(true);
    assert_eq!(
        server.cleanup_pending_durable_player_detaches(ROOM, 5, &progress),
        DetachStep::Done {
            forgotten: true,
            cleaned: true
        }
    );
    assert!(server.pending_detach_candidates().is_empty());
}

#[test]
fn a_deleted_room_and_a_returned_player_end_a_retry() {
    let mut server = server();
    server.retain_pending_detach(ROOM, 5, Some(3));
    let mut progress = DetachProgress::new();
    progress.room = Some(RoomRead::Missing);
    assert_eq!(
        server.cleanup_pending_durable_player_detaches(ROOM, 5, &progress),
        DetachStep::Done {
            forgotten: true,
            cleaned: true
        }
    );
    let player = seated(&mut server, 1);
    server.retain_pending_detach(ROOM, player, None);
    assert_eq!(
        server.cleanup_pending_durable_player_detaches(ROOM, player, &DetachProgress::new()),
        DetachStep::Done {
            forgotten: true,
            cleaned: false
        }
    );
    assert!(server.pending_detach_candidates().is_empty());
}

#[test]
fn small_sweep_decisions() {
    assert!(prune_ready_players(RoomRead::Missing));
    assert!(!prune_ready_players(RoomRead::Unreadable));
    assert_eq!(
        cleanup_expired_reconnections(None, None),
        ExpiredReconnectionStep::RemovePlayerRow
    );
    assert_eq!(
        cleanup_expired_reconnections(Some(false), None),
        ExpiredReconnectionStep::Done { cleaned: false }
    );
    assert_eq!(
        cleanup_expired_reconnections(Some(true), None),
        ExpiredReconnectionStep::ForgetOffer
    );
    assert_eq!(
        cleanup_expired_reconnections(Some(true), Some(true)),
        ExpiredReconnectionStep::Done { cleaned: true }
    );
    assert!(publishes_room_closed::<()>(Ok(true)));
    assert!(!publishes_room_closed::<()>(Ok(false)));
    assert!(publishes_room_closed(Err("unknown")));
    let outcome = RoomCleanupOutcome {
        empty_rooms_cleaned: 2,
        inactive_rooms_cleaned: 3,
    };
    assert!(!outcome.is_empty());
    assert_eq!(outcome.total_cleaned(), 5);
}

#[test]
fn everybody_in_a_missing_room_is_closed_with_it() {
    let mut server = server();
    let lost = seated(&mut server, 1);
    let other = register(&mut server, 2);
    seat(&mut server, other, ROOM + 1);

    let mut sweep = server.begin_missing_room_sweep();
    let mut touched = Vec::new();
    loop {
        match server.cleanup_clients_in_missing_rooms(&mut sweep) {
            MissingRoomSweepStep::ReadRoom { room } => {
                sweep.read = Some(if room == ROOM {
                    RoomRead::Missing
                } else {
                    RoomRead::Present
                });
            }
            MissingRoomSweepStep::Continue => {}
            MissingRoomSweepStep::Cleanup { player, room } => touched.push((player, room)),
            MissingRoomSweepStep::Done => break,
        }
    }
    assert_eq!(touched, vec![(lost, ROOM)]);

    let mut job = server
        .begin_missing_room_cleanup(lost, ROOM)
        .expect("connected");
    assert_eq!(
        server.cleanup_client_in_missing_room(&mut job),
        MissingRoomAction::ReadRoom { room: ROOM }
    );
    job.read = RoomRead::Missing;
    assert_eq!(
        server.cleanup_client_in_missing_room(&mut job),
        MissingRoomAction::SendFarewell
    );
    assert!(server.room_farewell_wanted(&mut job));
    assert!(server.room_farewell_wanted(&mut job), "the pin is kept");
    for expected in [
        MissingRoomAction::DiscardPreIssuedToken,
        MissingRoomAction::DiscardPendingReconnection,
        MissingRoomAction::Unregister,
    ] {
        assert_eq!(server.cleanup_client_in_missing_room(&mut job), expected);
    }
    let removed = server
        .connection_manager
        .remove_client(lost)
        .expect("registered");
    assert_eq!(
        removed.close.requested_reason(),
        Some(CloseReason::RoomInactive)
    );
    assert_eq!(
        server.cleanup_client_in_missing_room(&mut job),
        MissingRoomAction::Done { cleaned: true }
    );
    assert_eq!(
        signal_fish_server::missing_rooms::room_farewell(),
        "Room closed after exceeding the inactivity timeout"
    );
}

#[test]
fn a_candidate_that_moved_on_is_left_alone() {
    let mut server = server();
    let player = seated(&mut server, 1);
    let mut job = server
        .begin_missing_room_cleanup(player, ROOM)
        .expect("connected");
    seat(&mut server, player, ROOM + 1);
    assert_eq!(
        server.cleanup_client_in_missing_room(&mut job),
        MissingRoomAction::Done { cleaned: false }
    );
    assert!(server.begin_missing_room_cleanup(0xdead, ROOM).is_none());

    let mut job = server
        .begin_missing_room_cleanup(player, ROOM + 1)
        .expect("connected");
    let _ = server.cleanup_client_in_missing_room(&mut job);
    job.read = RoomRead::Unreadable;
    assert_eq!(
        server.cleanup_client_in_missing_room(&mut job),
        MissingRoomAction::Done { cleaned: false }
    );
}

fn quiet_server() -> (EnhancedGameServer, PlayerId, PlayerId) {
    let mut server = server();
    let quiet = register(&mut server, 1);
    let active = register(&mut server, 2);
    server.connection_manager.record_ping_at(quiet, 0);
    server.connection_manager.record_ping_at(active, 40 * SECOND);
    (server, quiet, active)
}

#[test]
fn a_tick_evicts_the_quiet_and_runs_every_sweep_in_order() {
    let (mut server, quiet, _) = quiet_server();
    let now = 41 * SECOND;
    let mut tick = server.begin_cleanup_tick_at(now);
    assert_eq!(tick.expired, vec![quiet]);
    let mut actions = Vec::new();
    loop {
        let action = server.cleanup_task_until(&mut tick, now);
        match action {
            CleanupAction::Continue => {}
            CleanupAction::SendFarewell { .. } => {
                assert!(server.eviction_farewell_wanted_at(&mut tick, now));
                actions.push(action);
            }
            CleanupAction::Wait => break,
            _ => actions.push(action),
        }
    }
    assert_eq!(
        actions,
        vec![
            CleanupAction::SendFarewell { player: quiet },
            CleanupAction::Unregister { player: quiet },
            CleanupAction::CountEvicted { count: 1 },
            CleanupAction::Run(Sweep::SpectatorDetaches),
            CleanupAction::Run(Sweep::PendingDetaches),
            CleanupAction::Run(Sweep::EmptyRooms),
            CleanupAction::Run(Sweep::ExpiredRooms),
            CleanupAction::Run(Sweep::MissingRoomClients),
            CleanupAction::Run(Sweep::SpectatorRoles),
            CleanupAction::Run(Sweep::SessionPlans),
            CleanupAction::Run(Sweep::RoomApplications),
            CleanupAction::Run(Sweep::ReadyPlayers),
            CleanupAction::Run(Sweep::ExpiredLocks),
            CleanupAction::Run(Sweep::ExpiredReconnections),
            CleanupAction::Run(Sweep::CleanupEvents),
        ]
    );
    assert_eq!(
        server.eviction_farewell(),
        "Disconnected: no activity received for 30000 ms (server.ping_timeout)"
    );
}

#[test]
fn a_rescued_client_is_not_evicted() {
    let (mut server, quiet, _) = quiet_server();
    let now = 41 * SECOND;
    let mut tick = server.begin_cleanup_tick_at(now);
    let _ = server.cleanup_task_until(&mut tick, now);
    assert_eq!(
        server.cleanup_task_until(&mut tick, now),
        CleanupAction::SendFarewell { player: quiet }
    );
    server.connection_manager.record_ping_at(quiet, now);
    assert!(!server.eviction_farewell_wanted_at(&mut tick, now));
    assert_eq!(
        server.cleanup_task_until(&mut tick, now),
        CleanupAction::Continue
    );
    assert_eq!(tick.evicted, 0);
    assert!(server.connection_manager.has_client(quiet));
}

#[test]
fn a_drain_stops_the_tick_before_it_sweeps() {
    let (mut server, quiet, _) = quiet_server();
    let now = 41 * SECOND;
    let mut tick = server.begin_cleanup_tick_at(now);
    let _ = server.cleanup_task_until(&mut tick, now);
    assert_eq!(
        server.cleanup_task_until(&mut tick, now),
        CleanupAction::SendFarewell { player: quiet }
    );
    server.begin_drain(1);
    assert!(!server.eviction_farewell_wanted_at(&mut tick, now));
    for expected in [
        CleanupAction::Continue,
        CleanupAction::Continue,
        CleanupAction::Stop,
    ] {
        assert_eq!(server.cleanup_task_until(&mut tick, now), expected);
    }
    let mut late = server.begin_cleanup_tick();
    assert_eq!(
        server.cleanup_task_until(&mut late, now),
        CleanupAction::Stop
    );
}

#[test]
fn the_reaper_can_be_turned_off_and_intervals_are_clamped() {
    let mut server = server_with(|config| {
        config.ping_timeout = 0;
        config.room_cleanup_interval = 0;
    });
    let player = register(&mut server, 1);
    server.connection_manager.record_ping_at(player, 0);
    assert!(server
        .begin_cleanup_tick_at(1_000_000 * SECOND)
        .expired
        .is_empty());
    assert_eq!(server.cleanup_interval(), SECOND);
    assert_eq!(server.room_timeouts(), (300 * SECOND, 3600 * SECOND));
}

#[test]
fn test_clients_connect_from_the_loopback_address() {
    let mut server = server_with(|config| config.max_connections = 0);
    server.connect_client(
        7,
        DeliverySender {
            channel: 1,
            generation: 0,
        },
    );
    assert!(server.connection_manager.has_client(7));
    server.record_client_activity(7);
    assert_eq!(server.client_transport_status(7), None);
    assert!(matches!(
        server.register_client(
            DeliverySender {
                channel: 2,
                generation: 0
            },
            from_port(1)
        ),
        Err(RegisterClientError::CapacityExceeded {
            current: 1,
            limit: 0
        })
    ));
}

#[test]
fn admission_errors_say_what_was_exceeded() {
    assert_eq!(
        RegisterClientError::IpLimitExceeded {
            current: 24,
            limit: 24
        }
        .message(),
        "Too many connections from your IP (24/24)"
    );
    assert_eq!(
        RegisterClientError::CapacityExceeded {
            current: 2,
            limit: 2
        }
        .message(),
        "Server connection limit exceeded (2/2)"
    );
    assert_eq!(
        MaxRoomsPerGameExceededError {
            game_name: "chess".to_string(),
            current: 1000,
            limit: 1000
        }
        .message(),
        "Game `chess` already has 1000 rooms (limit 1000)"
    );
    assert_eq!(
        MaxRoomsPerApplicationExceededError {
            current: 5,
            limit: 5
        }
        .message(),
        "Application already has 5 rooms (limit 5)"
    );
    assert_eq!(
        MaxPlayersPerApplicationExceededError {
            requested: 16,
            limit: 8
        }
        .message(),
        "Requested room capacity 16 exceeds the application limit 8"
    );
}

#[test]
fn a_pinned_close_is_replaced_only_by_the_shutdown() {
    let mut close = ConnectionCloseSignal::detached();
    assert_eq!(close.requested_reason(), None);
    assert!(close.request_close(CloseReason::SlowConsumer));
    assert!(!close.request_close(CloseReason::IdleTimeout));
    assert_eq!(close.requested_reason(), Some(CloseReason::SlowConsumer));
    assert!(!close.request_close(CloseReason::Shutdown));
    assert_eq!(close.requested_reason(), Some(CloseReason::Shutdown));
    assert!(!close.request_close(CloseReason::Unregistered));
    assert_eq!(close.requested_reason(), Some(CloseReason::Shutdown));
    assert!(is_transient_socket_close_reason(
        CloseReason::InboundRateLimited
    ));
    assert!(!is_transient_socket_close_reason(CloseReason::RoomInactive));
}
