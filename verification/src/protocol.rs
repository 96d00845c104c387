//! Plain protocol vocabulary shared by every module of the library.

use vstd::prelude::*;

verus! {

/// A player identity: the 128-bit value of its UUID.
pub type PlayerId = u128;

/// A room identity: the 128-bit value of its UUID.
pub type RoomId = u128;

/// An application identity: the 128-bit value of its UUID.
pub type AppId = u128;

/// The lowest protocol version the server speaks: the relay-only floor.
pub const SERVER_MIN_PROTOCOL_VERSION: u16 = 2;

/// The first protocol version with the additive signaling and delivery
/// surface.
pub const V3_PROTOCOL_VERSION: u16 = 3;

/// Encodings a game-data payload may travel in.
#[derive(Clone, Copy, Debug, PartialEq, Eq, Structural)]
pub enum GameDataEncoding {
    Json,
    MessagePack,
    Rkyv,
}

/// Data-path transports a client may negotiate.
#[derive(Clone, Copy, Debug, PartialEq, Eq, Structural)]
pub enum Transport {
    Relay,
    WebRtc,
    Direct,
}

/// Session topologies a client may negotiate.
#[derive(Clone, Copy, Debug, PartialEq, Eq, Structural)]
pub enum Topology {
    Relay,
    Mesh,
    Host,
}

/// Delivery classes a v3 sender may attach to text game data.
#[derive(Clone, Copy, Debug, PartialEq, Eq, Structural)]
pub enum DeliveryClass {
    Reliable,
    Volatile,
    Latest,
}

/// Error codes the server attaches to its replies.
#[derive(Clone, Copy, Debug, PartialEq, Eq, Structural)]
pub enum ErrorCode {
    ActivityTimeout,
    InternalError,
    InvalidDeliveryClass,
    MessageTooLarge,
    NotInRoom,
    RateLimitExceeded,
    RoomNotFound,
    UnsupportedProtocolVersion,
}

/// The identity a client gives a room operation to recognize its outcome by.
pub type RoomOperationId = u128;

/// How a correlated room operation can be refused.
#[derive(Debug)]
#[allow(inconsistent_fields)]
pub enum RoomOperationResult {
    RoomJoinFailed { reason: String, error_code: Option<ErrorCode> },
    SpectatorJoinFailed { reason: String, error_code: Option<ErrorCode> },
    ReconnectionFailed { reason: String, error_code: ErrorCode },
    Failed { reason: String, error_code: Option<ErrorCode> },
}

/// Frames the server sends, as far as this library reads or builds them.
#[derive(Debug)]
#[allow(inconsistent_fields)]
pub enum ServerMessage {
    /// The room's authority moved.
    AuthorityChanged { authority_player: Option<PlayerId>, you_are_authority: bool },
    /// The answer to an authority request.
    AuthorityResponse { granted: bool, reason: Option<String>, error_code: Option<ErrorCode> },
    /// Relayed text game data; `data` is its JSON text.
    GameData {
        from_player: PlayerId,
        data: String,
        seq: Option<u64>,
        epoch: Option<u32>,
        class: Option<DeliveryClass>,
        key: Option<u32>,
    },
    /// Relayed binary game data.
    GameDataBinary {
        from_player: PlayerId,
        encoding: GameDataEncoding,
        payload: Vec<u8>,
        seq: Option<u64>,
        epoch: Option<u32>,
    },
    /// A peer's data path changed.
    PeerTransportStatus { peer_id: PlayerId, transport: Transport, connected: bool },
    /// A join was refused.
    RoomJoinFailed { reason: String, error_code: Option<ErrorCode> },
    /// A spectator join was refused.
    SpectatorJoinFailed { reason: String, error_code: Option<ErrorCode> },
    /// A reconnection was refused.
    ReconnectionFailed { reason: String, error_code: ErrorCode },
    /// The outcome of a correlated room operation.
    RoomOperationResult { operation_id: RoomOperationId, result: RoomOperationResult },
    /// An error reply.
    Error { message: String, error_code: Option<ErrorCode> },
    /// The answer to a ping.
    Pong,
    /// Any other frame, passed through as it is.
    Encoded { body: Vec<u8> },
}

} // verus!
