use std::sync::Arc;

use signal_fish_server::protocol::{GameDataEncoding, ServerMessage};
use signal_fish_server::relay_projection::RelayProjectionCohort::{
    BinaryDirectV2, BinaryDirectV3, BinaryFallbackV2, BinaryFallbackV3, TextV2, TextV3,
};
use signal_fish_server::relay_projection::{
    relay_projection_cohort, relay_projection_summary, relay_projection_work_repeats,
    room_message_for_recipient,
};

#[test]
fn cache_is_created_only_when_projection_work_repeats() {
    assert!(!relay_projection_work_repeats(&[
        BinaryDirectV3,
        BinaryFallbackV3,
    ]));
    assert!(!relay_projection_work_repeats(&[TextV2, TextV3]));
    assert!(relay_projection_work_repeats(&[
        BinaryDirectV3,
        BinaryDirectV3,
    ]));
    assert!(relay_projection_work_repeats(&[
        BinaryFallbackV2,
        BinaryFallbackV3,
    ]));

    let binary = ServerMessage::GameDataBinary {
        from_player: 0,
        encoding: GameDataEncoding::MessagePack,
        payload: vec![0xc1],
        seq: Some(1),
        epoch: Some(1),
    };
    assert_eq!(
        relay_projection_cohort(&binary, true, GameDataEncoding::MessagePack),
        Some(BinaryDirectV3)
    );
    assert_eq!(
        relay_projection_cohort(&binary, true, GameDataEncoding::Json),
        Some(BinaryFallbackV3)
    );

    for encoding in [GameDataEncoding::Json, GameDataEncoding::Rkyv] {
        let raw_v2 = ServerMessage::GameDataBinary {
            from_player: 0,
            encoding,
            payload: vec![0x01],
            seq: Some(1),
            epoch: Some(1),
        };
        assert_eq!(
            relay_projection_cohort(&raw_v2, false, encoding),
            None,
            "v2 {encoding:?} raw passthrough has no reusable projection work"
        );
        assert_eq!(
            relay_projection_cohort(&raw_v2, true, encoding),
            Some(BinaryDirectV3),
            "v3 {encoding:?} still needs its stamped MessagePack envelope cached"
        );
    }
}

#[test]
fn repeated_projection_scan_still_observes_a_later_legacy_recipient() {
    let summary =
        relay_projection_summary(&[(true, Some(TextV3)), (true, Some(TextV3)), (false, None)]);

    assert_eq!(summary, (true, false));
}

#[test]
fn cohorts_have_bits_of_their_own() {
    let cohorts = [
        TextV2,
        TextV3,
        BinaryDirectV2,
        BinaryDirectV3,
        BinaryFallbackV2,
        BinaryFallbackV3,
    ];
    let mut seen = 0_u8;
    for cohort in cohorts {
        assert_eq!(seen & cohort.cache_bit(), 0);
        seen |= cohort.cache_bit();
    }
    assert_eq!(seen, 0b11_1111);
    assert!(BinaryFallbackV2.is_binary_fallback());
    assert!(!BinaryDirectV2.is_binary_fallback());
}

#[test]
fn authority_changes_are_addressed_per_recipient() {
    let frame = Arc::new(ServerMessage::AuthorityChanged {
        authority_player: Some(7),
        you_are_authority: false,
    });
    for (player, expected) in [(7_u128, true), (8, false)] {
        match &*room_message_for_recipient(&frame, &player) {
            ServerMessage::AuthorityChanged {
                authority_player,
                you_are_authority,
            } => {
                assert_eq!(*authority_player, Some(7));
                assert_eq!(*you_are_authority, expected);
            }
            other => panic!("unexpected frame {other:?}"),
        }
    }
    let pong = Arc::new(ServerMessage::Pong);
    assert!(matches!(
        &*room_message_for_recipient(&pong, &7),
        ServerMessage::Pong
    ));
}
