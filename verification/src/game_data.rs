//! Relayed game data and peer metadata: what is refused, what is stamped, and
//! what is stored.

use vstd::prelude::*;
use vstd::string::*;

use crate::connection::Moment;
use crate::errors::append_decimal;
use crate::heartbeat::HeartbeatStep;
use crate::messaging::Reply;
use crate::protocol::{
    DeliveryClass, ErrorCode, GameDataEncoding, PlayerId, RoomId, ServerMessage,
};
use crate::relay_budget::{relay_policy, RelayAdmission, RelaySubmission};
use crate::server::{EnhancedGameServer, ServerView};

verus! {

/// What becomes of a game-data frame.
#[derive(Debug)]
pub enum GameDataStep {
    /// Nothing is relayed; the sender is told.
    Refused(Reply),
    /// The frame is stamped and relayed in `room`.
    Relay { room: RoomId },
}

/// What becomes of peer metadata.
#[derive(Debug)]
pub enum ConnectionInfoStep {
    /// Nothing is stored; the player is told.
    Refused(ServerMessage),
    /// The metadata is stored for the player in `room`.
    Store { room: RoomId },
}

/// Whether a sender may attach this delivery metadata: a v3 sender a key
/// exactly to the latest class, an earlier one nothing at all.
pub open spec fn valid_delivery(
    supports_v3: bool,
    class: Option<DeliveryClass>,
    key: Option<u32>,
) -> bool {
    if supports_v3 {
        key is Some <==> class == Some(DeliveryClass::Latest)
    } else {
        class is None && key is None
    }
}

/// Whether a sender may attach this delivery metadata.
pub fn is_valid_delivery(supports_v3: bool, class: Option<DeliveryClass>, key: Option<u32>) -> (
    valid: bool)
    ensures
        valid == valid_delivery(supports_v3, class, key),
{
    if supports_v3 {
        match (class, key) {
            (None, None) => true,
            (Some(DeliveryClass::Reliable), None) => true,
            (Some(DeliveryClass::Volatile), None) => true,
            (Some(DeliveryClass::Latest), Some(_)) => true,
            _ => false,
        }
    } else {
        class.is_none() && key.is_none()
    }
}

/// The size of a text in encoded bytes.
pub open spec fn text_bytes(text: Seq<char>) -> usize {
    vstd::utf8::encode_utf8(text).len() as usize
}

/// Why a frame is refused, and how it says so.
pub ghost struct Refusal {
    pub text: Seq<char>,
    pub code: ErrorCode,
}

/// The text of a refusal for size.
pub open spec fn oversized_text(limit: usize) -> Seq<char> {
    "Binary payload exceeded maximum size ("@ + crate::errors::decimal(limit as nat) + " bytes)"@
}

impl ServerView {
    /// A frame of `bytes` bytes that `player` submits for `room`, under the
    /// budget and for the application the relay policy gives it.
    pub open spec fn submission(self, player: PlayerId, room: RoomId, bytes: u64) -> RelaySubmission {
        let context = self.manager.clients[player].app_context;
        RelaySubmission {
            sender: player,
            room,
            app: match context {
                Some(context) => if self.config.app_id_allowlist_enabled {
                    Some(context.id)
                } else {
                    None
                },
                None => None,
            },
            sender_budget: crate::relay_budget::spec_sender_budget(
                self.config.app_id_allowlist_enabled,
                match context {
                    Some(context) => context.max_relay_bytes,
                    None => None,
                },
                self.config.rate_limit_config.max_relay_bytes,
            ),
            bytes,
        }
    }

    /// Whether `player`'s frame for `room` is admitted at `now`.
    pub open spec fn relay_admission(
        self,
        player: PlayerId,
        room: RoomId,
        bytes: u64,
        now: Moment,
    ) -> RelayAdmission {
        self.relay.admission(
            self.submission(player, room, bytes),
            now,
            self.config.rate_limit_config,
        )
    }

    /// Why a frame of `player` cannot be relayed at `now`, if it cannot: it is
    /// not seated, or a budget is spent.
    pub open spec fn relay_refusal(self, player: PlayerId, bytes: u64, now: Moment) -> Option<
        Refusal,
    > {
        match self.manager.room_of(player) {
            None => Some(Refusal { text: "Not in a room"@, code: ErrorCode::NotInRoom }),
            Some(room) => match self.relay_admission(player, room, bytes, now) {
                RelayAdmission::Admitted => None,
                RelayAdmission::SenderBudgetExceeded => Some(
                    Refusal {
                        text: "Relay byte budget exceeded"@,
                        code: ErrorCode::RateLimitExceeded,
                    },
                ),
                RelayAdmission::RoomCeilingExceeded => Some(
                    Refusal {
                        text: "Room relay byte budget exceeded"@,
                        code: ErrorCode::RateLimitExceeded,
                    },
                ),
            },
        }
    }

    /// The server after `player`'s frame was submitted at `now`: the accounts
    /// of a seated sender move.
    pub open spec fn relay_submitted(self, player: PlayerId, bytes: u64, now: Moment) -> ServerView {
        match self.manager.room_of(player) {
            None => self,
            Some(room) => ServerView {
                relay: self.relay.after(
                    self.submission(player, room, bytes),
                    now,
                    self.config.rate_limit_config,
                ),
                ..self
            },
        }
    }
}

/// `step` and `after` are what becomes of a frame on `server`, where `refusal`
/// is why it is refused, if it is, and `submitted` is the server once its bytes
/// are accounted.
pub open spec fn game_data_outcome(
    submitted: ServerView,
    after: ServerView,
    step: GameDataStep,
    player: PlayerId,
    refusal: Option<Refusal>,
) -> bool {
    match refusal {
        Some(refusal) => {
            &&& after == submitted.reply_charged(player)
            &&& step matches GameDataStep::Refused(reply) && reply.refuses(
                submitted.reply_charge(player),
                refusal.text,
                refusal.code,
            )
        },
        None => {
            &&& after == submitted
            &&& step matches GameDataStep::Relay { room } && submitted.manager.room_of(player)
                == Some(room)
        },
    }
}

/// The text of a refusal for size.
fn oversized_message(limit: usize) -> (message: String)
    ensures
        message@ == oversized_text(limit),
{
    let mut message = "Binary payload exceeded maximum size (".to_owned();
    append_decimal(&mut message, limit as u128);
    message.append(" bytes)");
    message
}

impl EnhancedGameServer {
    /// Submits a frame of `player_id` at `now`.
    fn submit_game_data(&mut self, player_id: PlayerId, bytes: u64, now: Moment) -> (step:
        GameDataStep)
        requires
            old(self).wf(),
        ensures
            final(self).wf(),
            game_data_outcome(
                old(self)@.relay_submitted(player_id, bytes, now),
                final(self)@,
                step,
                player_id,
                old(self)@.relay_refusal(player_id, bytes, now),
            ),
    {
        let room = match self.connection_manager.get_client_room(player_id) {
            None => {
                return GameDataStep::Refused(
                    self.refuse(player_id, "Not in a room", ErrorCode::NotInRoom),
                );
            },
            Some(room) => room,
        };
        let context = self.connection_manager.app_context(player_id);
        let (sender_budget, app) = relay_policy(
            self.config.app_id_allowlist_enabled,
            &context,
            self.config.rate_limit_config.max_relay_bytes,
        );
        let frame = RelaySubmission { sender: player_id, room, app, sender_budget, bytes };
        match self.relay_budgets.submit(frame, now, &self.config.rate_limit_config) {
            RelayAdmission::Admitted => GameDataStep::Relay { room },
            RelayAdmission::SenderBudgetExceeded => GameDataStep::Refused(
                self.refuse(player_id, "Relay byte budget exceeded", ErrorCode::RateLimitExceeded),
            ),
            RelayAdmission::RoomCeilingExceeded => GameDataStep::Refused(
                self.refuse(
                    player_id,
                    "Room relay byte budget exceeded",
                    ErrorCode::RateLimitExceeded,
                ),
            ),
        }
    }

    /// Takes text game data of `player_id` in at `now`; `data` is its JSON
    /// text. Delivery metadata the sender may not attach is refused first.
    pub fn handle_game_data_at(
        &mut self,
        player_id: PlayerId,
        data: &String,
        class: Option<DeliveryClass>,
        key: Option<u32>,
        now: Moment,
    ) -> (step: GameDataStep)
        requires
            old(self).wf(),
        ensures
            final(self).wf(),
            if valid_delivery(old(self)@.supports_v3(player_id), class, key) {
                game_data_outcome(
                    old(self)@.relay_submitted(player_id, text_bytes(data@) as u64, now),
                    final(self)@,
                    step,
                    player_id,
                    old(self)@.relay_refusal(player_id, text_bytes(data@) as u64, now),
                )
            } else {
                game_data_outcome(
                    old(self)@,
                    final(self)@,
                    step,
                    player_id,
                    Some(
                        Refusal {
                            text:
                                "Invalid delivery class: latest requires a key; reliable and volatile forbid one"@,
                            code: ErrorCode::InvalidDeliveryClass,
                        },
                    ),
                )
            },
    {
        let supports_v3 = self.connection_manager.supports_v3(player_id);
        if !is_valid_delivery(supports_v3, class, key) {
            return GameDataStep::Refused(
                self.refuse(
                    player_id,
                    "Invalid delivery class: latest requires a key; reliable and volatile forbid one",
                    ErrorCode::InvalidDeliveryClass,
                ),
            );
        }
        self.submit_game_data(player_id, data.as_str().len() as u64, now)
    }

    /// Takes binary game data of `player_id` in at `now`. An oversized payload
    /// is refused before it counts as a sign of life; any other one does.
    pub fn handle_game_data_binary_at(
        &mut self,
        player_id: PlayerId,
        payload: &Vec<u8>,
        watched: Option<RoomId>,
        now: Moment,
    ) -> (handled: (Option<HeartbeatStep>, GameDataStep))
        requires
            old(self).wf(),
        ensures
            final(self).wf(),
            if payload@.len() > old(self)@.config.max_message_size {
                &&& handled.0 is None
                &&& game_data_outcome(
                    old(self)@,
                    final(self)@,
                    handled.1,
                    player_id,
                    Some(
                        Refusal {
                            text: oversized_text(old(self)@.config.max_message_size),
                            code: ErrorCode::MessageTooLarge,
                        },
                    ),
                )
            } else {
                let active = old(self)@.active(player_id, now);
                &&& handled.0 == Some(
                    old(self)@.heard(player_id, now).heartbeat(player_id, watched, now),
                )
                &&& game_data_outcome(
                    active.relay_submitted(player_id, payload@.len() as u64, now),
                    final(self)@,
                    handled.1,
                    player_id,
                    active.relay_refusal(player_id, payload@.len() as u64, now),
                )
            },
    {
        if payload.len() > self.config.max_message_size {
            let message = oversized_message(self.config.max_message_size);
            let reply = self.send_error_to_player(
                player_id,
                message,
                Some(ErrorCode::MessageTooLarge),
            );
            return (None, GameDataStep::Refused(reply));
        }
        let heartbeat = self.record_activity_at(player_id, watched, now);
        let step = self.submit_game_data(player_id, payload.len() as u64, now);
        (Some(heartbeat), step)
    }

    /// Takes text game data of `player_id` in; `data` is its JSON text.
    pub fn handle_game_data(
        &mut self,
        player_id: PlayerId,
        data: &String,
        class: Option<DeliveryClass>,
        key: Option<u32>,
    ) -> (step: GameDataStep)
        requires
            old(self).wf(),
        ensures
            final(self).wf(),
            !valid_delivery(old(self)@.supports_v3(player_id), class, key) ==> game_data_outcome(
                old(self)@,
                final(self)@,
                step,
                player_id,
                Some(
                    Refusal {
                        text:
                            "Invalid delivery class: latest requires a key; reliable and volatile forbid one"@,
                        code: ErrorCode::InvalidDeliveryClass,
                    },
                ),
            ),
            valid_delivery(old(self)@.supports_v3(player_id), class, key) ==> exists|now: Moment|
                game_data_outcome(
                    #[trigger] old(self)@.relay_submitted(
                        player_id,
                        text_bytes(data@) as u64,
                        now,
                    ),
                    final(self)@,
                    step,
                    player_id,
                    old(self)@.relay_refusal(player_id, text_bytes(data@) as u64, now),
                ),
    {
        let now = self.connection_manager.now();
        self.handle_game_data_at(player_id, data, class, key, now)
    }

    /// Takes binary game data of `player_id` in.
    pub fn handle_game_data_binary(
        &mut self,
        player_id: PlayerId,
        payload: &Vec<u8>,
        watched: Option<RoomId>,
    ) -> (handled: (Option<HeartbeatStep>, GameDataStep))
        requires
            old(self).wf(),
        ensures
            final(self).wf(),
            payload@.len() > old(self)@.config.max_message_size ==> handled.0 is None
                && game_data_outcome(
                old(self)@,
                final(self)@,
                handled.1,
                player_id,
                Some(
                    Refusal {
                        text: oversized_text(old(self)@.config.max_message_size),
                        code: ErrorCode::MessageTooLarge,
                    },
                ),
            ),
            payload@.len() <= old(self)@.config.max_message_size ==> exists|now: Moment|
                {
                    let active = #[trigger] old(self)@.active(player_id, now);
                    &&& handled.0 == Some(
                        old(self)@.heard(player_id, now).heartbeat(player_id, watched, now),
                    )
                    &&& game_data_outcome(
                        active.relay_submitted(player_id, payload@.len() as u64, now),
                        final(self)@,
                        handled.1,
                        player_id,
                        active.relay_refusal(player_id, payload@.len() as u64, now),
                    )
                },
    {
        let now = self.connection_manager.now();
        let handled = self.handle_game_data_binary_at(player_id, payload, watched, now);
        assert(old(self)@.active(player_id, now) == old(self)@.active(player_id, now));
        handled
    }

    /// Stamps text game data that `player_id` relays in `room`. None if it is
    /// not seated there any more, or its sequence is exhausted.
    pub fn stamp_game_data(
        &mut self,
        player_id: PlayerId,
        room: RoomId,
        data: String,
        class: Option<DeliveryClass>,
        key: Option<u32>,
    ) -> (frame: Option<ServerMessage>)
        requires
            old(self).wf(),
        ensures
            final(self).wf(),
            final(self)@ == old(self)@.stamp_taken(player_id, room),
            frame == (match old(self)@.next_stamp(player_id, room) {
                Some(stamp) => Some(
                    ServerMessage::GameData {
                        from_player: player_id,
                        data,
                        seq: Some(stamp.seq),
                        epoch: Some(stamp.epoch),
                        class,
                        key,
                    },
                ),
                None => None,
            }),
    {
        match self.connection_manager.next_relay_stamp_in_room(player_id, room) {
            Some(stamp) => Some(
                ServerMessage::GameData {
                    from_player: player_id,
                    data,
                    seq: Some(stamp.seq),
                    epoch: Some(stamp.epoch),
                    class,
                    key,
                },
            ),
            None => None,
        }
    }

    /// Stamps binary game data that `player_id` relays in `room`. Text and
    /// binary frames share one sequence.
    pub fn stamp_game_data_binary(
        &mut self,
        player_id: PlayerId,
        room: RoomId,
        encoding: GameDataEncoding,
        payload: Vec<u8>,
    ) -> (frame: Option<ServerMessage>)
        requires
            old(self).wf(),
        ensures
            final(self).wf(),
            final(self)@ == old(self)@.stamp_taken(player_id, room),
            frame == (match old(self)@.next_stamp(player_id, room) {
                Some(stamp) => Some(
                    ServerMessage::GameDataBinary {
                        from_player: player_id,
                        encoding,
                        payload,
                        seq: Some(stamp.seq),
                        epoch: Some(stamp.epoch),
                    },
                ),
                None => None,
            }),
    {
        match self.connection_manager.next_relay_stamp_in_room(player_id, room) {
            Some(stamp) => Some(
                ServerMessage::GameDataBinary {
                    from_player: player_id,
                    encoding,
                    payload,
                    seq: Some(stamp.seq),
                    epoch: Some(stamp.epoch),
                },
            ),
            None => None,
        }
    }

    /// Takes peer metadata of `player_id` in; `connection_info` is its
    /// canonical JSON text.
    pub fn handle_provide_connection_info(
        &self,
        player_id: PlayerId,
        connection_info: &String,
    ) -> (step: ConnectionInfoStep)
        ensures
            match self@.manager.room_of(player_id) {
                None => step matches ConnectionInfoStep::Refused(frame)
                    && crate::messaging::is_error(
                    frame,
                    "Not in a room"@,
                    ErrorCode::NotInRoom,
                ),
                Some(room) => if text_bytes(connection_info@)
                    > self@.config.max_connection_info_bytes {
                    step matches ConnectionInfoStep::Refused(frame) && crate::messaging::is_error(
                        frame,
                        "Legacy peer metadata exceeds the maximum size"@,
                        ErrorCode::MessageTooLarge,
                    )
                } else {
                    step == (ConnectionInfoStep::Store { room })
                },
            },
    {
        match self.connection_manager.get_client_room(player_id) {
            None => ConnectionInfoStep::Refused(
                ServerMessage::Error {
                    message: "Not in a room".to_owned(),
                    error_code: Some(ErrorCode::NotInRoom),
                },
            ),
            Some(room) => {
                if connection_info.as_str().len() > self.config.max_connection_info_bytes {
                    ConnectionInfoStep::Refused(
                        ServerMessage::Error {
                            message: "Legacy peer metadata exceeds the maximum size".to_owned(),
                            error_code: Some(ErrorCode::MessageTooLarge),
                        },
                    )
                } else {
                    ConnectionInfoStep::Store { room }
                }
            },
        }
    }
}

/// What the player is told once its metadata was stored: nothing on success,
/// an internal error if storage failed or had no such member.
pub fn connection_info_stored<E>(outcome: Result<bool, E>) -> (frame: Option<ServerMessage>)
    ensures
        match outcome {
            Ok(true) => frame is None,
            _ => frame is Some && crate::messaging::is_error(
                frame->0,
                "Failed to store legacy peer metadata"@,
                ErrorCode::InternalError,
            ),
        },
{
    match outcome {
        Ok(true) => None,
        _ => Some(
            ServerMessage::Error {
                message: "Failed to store legacy peer metadata".to_owned(),
                error_code: Some(ErrorCode::InternalError),
            },
        ),
    }
}

impl ServerView {
    /// The stamp `player` relays its next frame in `room` under, if it may.
    pub open spec fn next_stamp(self, player: PlayerId, room: RoomId) -> Option<
        crate::connection::RelayStamp,
    > {
        if self.manager.room_of(player) == Some(room)
            && self.manager.clients[player].game_data_seq < u64::MAX {
            Some(self.manager.clients[player].stamped().stamp())
        } else {
            None
        }
    }

    /// The server after `player` took that stamp.
    pub open spec fn stamp_taken(self, player: PlayerId, room: RoomId) -> ServerView {
        if self.next_stamp(player, room) is Some {
            self.with_manager(
                self.manager.with_client(player, self.manager.clients[player].stamped()),
            )
        } else {
            self
        }
    }
}

/// Without an allowlist the application a client names changes nothing: its
/// budget is the server's, and its bytes are attributed to nobody.
pub proof fn law_open_mode_ignores_the_named_application(
    server: ServerView,
    player: PlayerId,
    room: RoomId,
    bytes: u64,
)
    requires
        !server.config.app_id_allowlist_enabled,
    ensures
        server.submission(player, room, bytes).sender_budget
            == server.config.rate_limit_config.max_relay_bytes,
        server.submission(player, room, bytes).app is None,
{
}

/// A sender learns of every frame that is not relayed, as long as its replies
/// are budgeted, and a refused frame takes no stamp.
pub proof fn law_refused_frames_are_answered_and_unstamped(
    submitted: ServerView,
    after: ServerView,
    step: GameDataStep,
    player: PlayerId,
    refusal: Refusal,
    room: RoomId,
)
    requires
        game_data_outcome(submitted, after, step, player, Some(refusal)),
    ensures
        step is Refused,
        submitted.reply_charge(player) is Admitted ==> step->Refused_0 is Send,
        after.next_stamp(player, room) == submitted.next_stamp(player, room),
{
}

/// Two frames relayed in one membership carry consecutive stamps of one epoch.
pub proof fn law_consecutive_frames_carry_consecutive_stamps(
    server: ServerView,
    player: PlayerId,
    room: RoomId,
)
    requires
        server.next_stamp(player, room) is Some,
        server.stamp_taken(player, room).next_stamp(player, room) is Some,
    ensures
        server.stamp_taken(player, room).next_stamp(player, room)->0.seq == server.next_stamp(
            player,
            room,
        )->0.seq + 1,
        server.stamp_taken(player, room).next_stamp(player, room)->0.epoch == server.next_stamp(
            player,
            room,
        )->0.epoch,
{
}

/// A sender below the additive protocol may attach no delivery metadata; above
/// it, a key goes with the latest class and with no other.
pub proof fn law_keys_go_with_the_latest_class(class: Option<DeliveryClass>, key: Option<u32>)
    ensures
        valid_delivery(false, class, key) <==> class is None && key is None,
        valid_delivery(true, Some(DeliveryClass::Latest), key) <==> key is Some,
        class != Some(DeliveryClass::Latest) ==> (valid_delivery(true, class, key) <==> key is None),
{
}

/// A frame is submitted by its sender, for the room it is seated in, with its own
/// size, and on behalf of the application the allowlist vouches for, if any.
pub proof fn law_submissions_say_whose_and_how_much(
    server: ServerView,
    player: PlayerId,
    room: RoomId,
    bytes: u64,
)
    ensures
        ({
            let frame = server.submission(player, room, bytes);
            let context = server.manager.clients[player].app_context;
            let vouched = server.config.app_id_allowlist_enabled && context is Some;
            &&& frame.sender == player
            &&& frame.room == room
            &&& frame.bytes == bytes
            &&& vouched ==> frame.app == Some(context->0.id)
            &&& !vouched ==> frame.app is None
            &&& vouched && context->0.max_relay_bytes is Some ==> frame.sender_budget
                == context->0.max_relay_bytes->0
            &&& !vouched || context->0.max_relay_bytes is None ==> frame.sender_budget
                == server.config.rate_limit_config.max_relay_bytes
        }),
{
}

/// A frame is not relayed exactly if its sender is not seated or a budget is
/// spent, and the refusal says which.
pub proof fn law_frames_are_relayed_unless_refused_for_a_reason(
    server: ServerView,
    player: PlayerId,
    bytes: u64,
    now: Moment,
)
    ensures
        ({
            let refusal = server.relay_refusal(player, bytes, now);
            let seated = server.manager.clients.contains_key(player)
                && server.manager.clients[player].room_id is Some;
            let room = server.manager.clients[player].room_id->0;
            let admission = server.relay.admission(
                server.submission(player, room, bytes),
                now,
                server.config.rate_limit_config,
            );
            &&& refusal is None <==> seated && admission is Admitted
            &&& !seated ==> refusal->0.code == ErrorCode::NotInRoom && refusal->0.text
                == "Not in a room"@
            &&& seated && admission is SenderBudgetExceeded ==> refusal->0.code
                == ErrorCode::RateLimitExceeded && refusal->0.text == "Relay byte budget exceeded"@
            &&& seated && admission is RoomCeilingExceeded ==> refusal->0.code
                == ErrorCode::RateLimitExceeded && refusal->0.text
                == "Room relay byte budget exceeded"@
        }),
{
}

/// Submitting a frame moves the relay accounts of a seated sender and nothing
/// else.
pub proof fn law_submissions_move_only_the_accounts(
    server: ServerView,
    player: PlayerId,
    bytes: u64,
    now: Moment,
)
    ensures
        ({
            let after = server.relay_submitted(player, bytes, now);
            let seated = server.manager.clients.contains_key(player)
                && server.manager.clients[player].room_id is Some;
            &&& after == (ServerView { relay: after.relay, ..server })
            &&& !seated ==> after == server
            &&& seated ==> after.relay == server.relay.after(
                server.submission(player, server.manager.clients[player].room_id->0, bytes),
                now,
                server.config.rate_limit_config,
            )
        }),
{
}

/// An accepted frame is relayed in the room its sender sits in and changes
/// nothing more; a refused one is answered, with the refusal while the sender's
/// replies last, and charged as one reply.
pub proof fn law_frames_are_relayed_where_the_sender_sits(
    submitted: ServerView,
    after: ServerView,
    step: GameDataStep,
    player: PlayerId,
    refusal: Option<Refusal>,
)
    requires
        game_data_outcome(submitted, after, step, player, refusal),
    ensures
        step is Relay <==> refusal is None,
        step is Relay ==> after == submitted,
        step matches GameDataStep::Relay { room } ==> submitted.manager.clients.contains_key(player)
            && submitted.manager.clients[player].room_id == Some(room),
        ({
            let client = submitted.manager.clients[player];
            let polite = !submitted.manager.clients.contains_key(player) || client.error_replies
                < submitted.manager.limits.max_error_replies;
            &&& step is Refused && polite ==> (
            step->Refused_0 matches crate::messaging::Reply::Send(frame) && (
            frame matches ServerMessage::Error { message, error_code } && message@
                == refusal->0.text && error_code == Some(refusal->0.code)))
            &&& step is Refused && !polite ==> step->Refused_0 is Withheld
            &&& step is Refused && polite && submitted.manager.clients.contains_key(player)
                ==> after.manager.clients[player].error_replies == client.error_replies + 1
        }),
{
}

/// A frame is stamped exactly if its sender sits in the room and its sequence is
/// not exhausted: with the number after its last one, in its current epoch. The
/// stamp is then spent, and nothing else changes.
pub proof fn law_stamps_follow_the_senders_sequence(
    server: ServerView,
    player: PlayerId,
    room: RoomId,
)
    ensures
        ({
            let client = server.manager.clients[player];
            let stamp = server.next_stamp(player, room);
            let after = server.stamp_taken(player, room);
            &&& stamp is Some <==> server.manager.clients.contains_key(player) && client.room_id
                == Some(room) && client.game_data_seq < u64::MAX
            &&& stamp is Some ==> stamp->0.seq == client.game_data_seq + 1 && stamp->0.epoch
                == client.game_data_epoch
            &&& stamp is Some ==> after.manager.clients == server.manager.clients.insert(
                player,
                crate::connection::ConnectionView { game_data_seq: stamp->0.seq, ..client },
            )
            &&& after == (ServerView { manager: after.manager, ..server })
            &&& stamp is None ==> after == server
        }),
{
}

} // verus!
