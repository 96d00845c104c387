//! Polite replies: each one is charged to its connection's budget first, and
//! an exhausted budget closes the connection instead of answering.

use vstd::prelude::*;
use vstd::string::*;

use crate::connection::ErrorReplyCharge;
use crate::player_sends::FarewellStep;
use crate::protocol::{ErrorCode, PlayerId, RoomOperationId, RoomOperationResult, ServerMessage};
use crate::server::{EnhancedGameServer, ServerView};

verus! {

/// What becomes of one polite reply.
#[derive(Debug)]
pub enum Reply {
    /// The frame goes to the player.
    Send(ServerMessage),
    /// The budget is exhausted: the reply is withheld, and the connection
    /// closes as rate limited. The call that initiated the close sends the
    /// farewell.
    Withheld { farewell: Option<ServerMessage> },
}

/// The text of the farewell that goes with an exhausted budget.
pub open spec fn farewell_text() -> Seq<char> {
    "Too many rejected requests on this connection"@
}

/// Whether `frame` is the error frame with this text and code.
pub open spec fn is_error(frame: ServerMessage, text: Seq<char>, code: ErrorCode) -> bool {
    frame matches ServerMessage::Error { message, error_code } && message@ == text && error_code
        == Some(code)
}

/// Whether `frame` is the farewell that goes with an exhausted budget.
pub open spec fn is_budget_farewell(frame: ServerMessage) -> bool {
    is_error(frame, farewell_text(), ErrorCode::RateLimitExceeded)
}

impl Reply {
    /// Whether this withholds a reply, with the farewell exactly where the call
    /// initiated the close.
    pub open spec fn withholds(self, initiated_close: bool) -> bool {
        &&& self matches Reply::Withheld { farewell }
        &&& farewell is Some <==> initiated_close
        &&& farewell is Some ==> is_budget_farewell(farewell->0)
    }

    /// Whether this tells a player that it was refused, and why, after
    /// `charge`.
    pub open spec fn refuses(self, charge: ErrorReplyCharge, text: Seq<char>, code: ErrorCode) -> bool {
        match charge {
            ErrorReplyCharge::Admitted => self matches Reply::Send(frame) && is_error(
                frame,
                text,
                code,
            ),
            ErrorReplyCharge::Exhausted { initiated_close } => self.withholds(initiated_close),
        }
    }

    /// Whether this is what becomes of `frame` after `charge`.
    pub open spec fn answers(self, charge: ErrorReplyCharge, frame: ServerMessage) -> bool {
        match charge {
            ErrorReplyCharge::Admitted => self == Reply::Send(frame),
            ErrorReplyCharge::Exhausted { initiated_close } => self.withholds(initiated_close),
        }
    }
}

/// The frame a reply to `operation_id` is sent as, where it answers a
/// correlated operation; the other frames stay as they are.
pub open spec fn correlated(frame: ServerMessage, operation_id: Option<RoomOperationId>) -> ServerMessage {
    match operation_id {
        None => frame,
        Some(operation_id) => match frame {
            ServerMessage::RoomJoinFailed { reason, error_code } =>
                ServerMessage::RoomOperationResult {
                    operation_id,
                    result: RoomOperationResult::RoomJoinFailed { reason, error_code },
                },
            ServerMessage::SpectatorJoinFailed { reason, error_code } =>
                ServerMessage::RoomOperationResult {
                    operation_id,
                    result: RoomOperationResult::SpectatorJoinFailed { reason, error_code },
                },
            ServerMessage::ReconnectionFailed { reason, error_code } =>
                ServerMessage::RoomOperationResult {
                    operation_id,
                    result: RoomOperationResult::ReconnectionFailed { reason, error_code },
                },
            _ => frame,
        },
    }
}

/// Wraps a refusal in the envelope of the operation it answers.
pub fn correlate_room_operation(frame: ServerMessage, operation_id: Option<RoomOperationId>) -> (
    wrapped: ServerMessage)
    ensures
        wrapped == correlated(frame, operation_id),
{
    match operation_id {
        None => frame,
        Some(operation_id) => match frame {
            ServerMessage::RoomJoinFailed { reason, error_code } =>
                ServerMessage::RoomOperationResult {
                    operation_id,
                    result: RoomOperationResult::RoomJoinFailed { reason, error_code },
                },
            ServerMessage::SpectatorJoinFailed { reason, error_code } =>
                ServerMessage::RoomOperationResult {
                    operation_id,
                    result: RoomOperationResult::SpectatorJoinFailed { reason, error_code },
                },
            ServerMessage::ReconnectionFailed { reason, error_code } =>
                ServerMessage::RoomOperationResult {
                    operation_id,
                    result: RoomOperationResult::ReconnectionFailed { reason, error_code },
                },
            other => other,
        },
    }
}

/// The farewell that goes with an exhausted budget.
fn budget_farewell() -> (frame: ServerMessage)
    ensures
        is_budget_farewell(frame),
{
    ServerMessage::Error {
        message: "Too many rejected requests on this connection".to_owned(),
        error_code: Some(ErrorCode::RateLimitExceeded),
    }
}

/// The withheld reply of an exhausted budget.
pub fn withheld_reply(initiated_close: bool) -> (reply: Reply)
    ensures
        reply.withholds(initiated_close),
{
    Reply::Withheld {
        farewell: if initiated_close {
            Some(budget_farewell())
        } else {
            None
        },
    }
}

impl ServerView {
    /// How one polite reply to `player` is charged. A player without a
    /// connection has no budget to exhaust.
    pub open spec fn reply_charge(self, player: PlayerId) -> ErrorReplyCharge {
        if self.manager.clients.contains_key(player) {
            self.manager.clients[player].charge_outcome(self.manager.limits.max_error_replies)
        } else {
            ErrorReplyCharge::Admitted
        }
    }

    /// The server after one polite reply to `player` is charged.
    pub open spec fn reply_charged(self, player: PlayerId) -> ServerView {
        self.with_manager(
            self.manager.updated(
                player,
                self.manager.clients[player].charged(self.manager.limits.max_error_replies),
            ),
        )
    }
}

impl EnhancedGameServer {
    /// Charges one polite reply to `player_id`.
    pub fn charge_error_reply(&mut self, player_id: PlayerId) -> (charge: ErrorReplyCharge)
        requires
            old(self).wf(),
        ensures
            final(self).wf(),
            charge == old(self)@.reply_charge(player_id),
            final(self)@ == old(self)@.reply_charged(player_id),
    {
        self.connection_manager.charge_error_reply(player_id)
    }

    /// Charges `frame` as one polite reply to `player_id`.
    pub fn charged_reply(&mut self, player_id: PlayerId, frame: ServerMessage) -> (reply: Reply)
        requires
            old(self).wf(),
        ensures
            final(self).wf(),
            final(self)@ == old(self)@.reply_charged(player_id),
            reply.answers(old(self)@.reply_charge(player_id), frame),
    {
        match self.charge_error_reply(player_id) {
            ErrorReplyCharge::Admitted => Reply::Send(frame),
            ErrorReplyCharge::Exhausted { initiated_close } => withheld_reply(initiated_close),
        }
    }

    /// Refuses a frame of `player_id` with an error reply.
    pub fn refuse(&mut self, player_id: PlayerId, text: &str, code: ErrorCode) -> (reply: Reply)
        requires
            old(self).wf(),
        ensures
            final(self).wf(),
            final(self)@ == old(self)@.reply_charged(player_id),
            reply.refuses(old(self)@.reply_charge(player_id), text@, code),
    {
        self.send_error_to_player(player_id, text.to_owned(), Some(code))
    }

    /// An error reply to `player_id`.
    pub fn send_error_to_player(
        &mut self,
        player_id: PlayerId,
        message: String,
        error_code: Option<ErrorCode>,
    ) -> (reply: Reply)
        requires
            old(self).wf(),
        ensures
            final(self).wf(),
            final(self)@ == old(self)@.reply_charged(player_id),
            reply.answers(
                old(self)@.reply_charge(player_id),
                ServerMessage::Error { message, error_code },
            ),
    {
        self.charged_reply(player_id, ServerMessage::Error { message, error_code })
    }

    /// The refusal of one join frame.
    pub fn send_join_failure_to_player(
        &mut self,
        player_id: PlayerId,
        reason: String,
        error_code: Option<ErrorCode>,
        operation_id: Option<RoomOperationId>,
    ) -> (reply: Reply)
        requires
            old(self).wf(),
        ensures
            final(self).wf(),
            final(self)@ == old(self)@.reply_charged(player_id),
            reply.answers(
                old(self)@.reply_charge(player_id),
                correlated(ServerMessage::RoomJoinFailed { reason, error_code }, operation_id),
            ),
    {
        self.charged_reply(
            player_id,
            correlate_room_operation(
                ServerMessage::RoomJoinFailed { reason, error_code },
                operation_id,
            ),
        )
    }

    /// The refusal of one spectator-join frame.
    pub fn send_spectator_join_failure_to_player(
        &mut self,
        player_id: PlayerId,
        reason: String,
        error_code: Option<ErrorCode>,
        operation_id: Option<RoomOperationId>,
    ) -> (reply: Reply)
        requires
            old(self).wf(),
        ensures
            final(self).wf(),
            final(self)@ == old(self)@.reply_charged(player_id),
            reply.answers(
                old(self)@.reply_charge(player_id),
                correlated(ServerMessage::SpectatorJoinFailed { reason, error_code }, operation_id),
            ),
    {
        self.charged_reply(
            player_id,
            correlate_room_operation(
                ServerMessage::SpectatorJoinFailed { reason, error_code },
                operation_id,
            ),
        )
    }

    /// The refusal of one reconnect frame.
    pub fn send_reconnection_failure_to_player(
        &mut self,
        player_id: PlayerId,
        reason: String,
        error_code: ErrorCode,
        operation_id: Option<RoomOperationId>,
    ) -> (reply: Reply)
        requires
            old(self).wf(),
        ensures
            final(self).wf(),
            final(self)@ == old(self)@.reply_charged(player_id),
            reply.answers(
                old(self)@.reply_charge(player_id),
                correlated(ServerMessage::ReconnectionFailed { reason, error_code }, operation_id),
            ),
    {
        self.charged_reply(
            player_id,
            correlate_room_operation(
                ServerMessage::ReconnectionFailed { reason, error_code },
                operation_id,
            ),
        )
    }

    /// The terminal failure of one correlated room operation.
    pub fn send_room_operation_failure_to_player(
        &mut self,
        player_id: PlayerId,
        operation_id: RoomOperationId,
        reason: String,
        error_code: Option<ErrorCode>,
    ) -> (reply: Reply)
        requires
            old(self).wf(),
        ensures
            final(self).wf(),
            final(self)@ == old(self)@.reply_charged(player_id),
            reply.answers(
                old(self)@.reply_charge(player_id),
                ServerMessage::RoomOperationResult {
                    operation_id,
                    result: RoomOperationResult::Failed { reason, error_code },
                },
            ),
    {
        self.charged_reply(
            player_id,
            ServerMessage::RoomOperationResult {
                operation_id,
                result: RoomOperationResult::Failed { reason, error_code },
            },
        )
    }
}

/// The next step of a farewell to `player` on a server: unroutable and unwanted
/// farewells are skipped, the others are tried once.
pub open spec fn farewell_step(
    server: ServerView,
    player: PlayerId,
    conditional: bool,
    wanted: Option<bool>,
    enqueued: Option<bool>,
) -> FarewellStep {
    if !server.routing.clients.contains_key(player) {
        FarewellStep::Done { enqueued: false }
    } else if conditional && wanted is None {
        FarewellStep::ReadGate
    } else if conditional && wanted == Some(false) {
        FarewellStep::Done { enqueued: false }
    } else {
        match enqueued {
            None => FarewellStep::TrySend { handle: server.routing.clients[player] },
            Some(enqueued) => FarewellStep::Done { enqueued },
        }
    }
}

impl EnhancedGameServer {
    /// The next step of an unconditional farewell, and its frame. It is never
    /// charged, never waits, and never escalates: the close itself carries the
    /// reason.
    pub fn send_farewell_to_player(
        &self,
        player_id: PlayerId,
        message: String,
        error_code: Option<ErrorCode>,
        enqueued: Option<bool>,
    ) -> (planned: (FarewellStep, ServerMessage))
        ensures
            planned.0 == farewell_step(self@, player_id, false, None, enqueued),
            planned.1 == (ServerMessage::Error { message, error_code }),
    {
        let step = self.message_coordinator.try_send_to_player_if(
            player_id,
            false,
            None,
            enqueued,
        );
        (step, ServerMessage::Error { message, error_code })
    }

    /// The next step of a farewell that is sent only if it is still wanted
    /// right before it is enqueued, and its frame.
    pub fn send_farewell_to_player_if(
        &self,
        player_id: PlayerId,
        message: String,
        error_code: Option<ErrorCode>,
        wanted: Option<bool>,
        enqueued: Option<bool>,
    ) -> (planned: (FarewellStep, ServerMessage))
        ensures
            planned.0 == farewell_step(self@, player_id, true, wanted, enqueued),
            planned.1 == (ServerMessage::Error { message, error_code }),
    {
        let step = self.message_coordinator.try_send_to_player_if(
            player_id,
            true,
            wanted,
            enqueued,
        );
        (step, ServerMessage::Error { message, error_code })
    }
}

/// A connection is answered until its budget is spent, and never again after:
/// the first withheld reply closes it as rate limited, with the one farewell.
pub proof fn law_exhausted_budgets_answer_no_more(server: ServerView, player: PlayerId)
    requires
        server.manager.clients.contains_key(player),
    ensures
        ({
            let after = server.reply_charged(player);
            let exhausted = server.manager.clients[player].error_replies
                >= server.manager.limits.max_error_replies;
            &&& server.reply_charge(player) is Admitted <==> !exhausted
            &&& exhausted ==> after.manager.clients[player].close is Some
            &&& exhausted ==> after.reply_charge(player) == (ErrorReplyCharge::Exhausted {
                initiated_close: false,
            })
            &&& exhausted && server.manager.clients[player].close is None
                ==> after.manager.clients[player].close == Some(
                crate::close::CloseReason::InboundRateLimited,
            )
        }),
{
}

/// A correlated refusal names the operation it answers and loses nothing of
/// what it says.
pub proof fn law_correlated_refusals_echo_the_operation(
    reason: String,
    error_code: Option<ErrorCode>,
    code: ErrorCode,
    operation_id: RoomOperationId,
)
    ensures
        correlated(ServerMessage::RoomJoinFailed { reason, error_code }, Some(operation_id)) == (
        ServerMessage::RoomOperationResult {
            operation_id,
            result: RoomOperationResult::RoomJoinFailed { reason, error_code },
        }),
        correlated(ServerMessage::SpectatorJoinFailed { reason, error_code }, Some(operation_id))
            == (ServerMessage::RoomOperationResult {
            operation_id,
            result: RoomOperationResult::SpectatorJoinFailed { reason, error_code },
        }),
        correlated(
            ServerMessage::ReconnectionFailed { reason, error_code: code },
            Some(operation_id),
        ) == (ServerMessage::RoomOperationResult {
            operation_id,
            result: RoomOperationResult::ReconnectionFailed { reason, error_code: code },
        }),
{
}

/// A refusal is sent, with its text and code, exactly while the charge was
/// admitted; afterwards it is withheld, and the farewell goes with the charge
/// that initiated the close, and with no other.
pub proof fn law_replies_follow_the_charge(
    reply: Reply,
    charge: ErrorReplyCharge,
    text: Seq<char>,
    code: ErrorCode,
)
    requires
        reply.refuses(charge, text, code),
    ensures
        reply is Send <==> charge == ErrorReplyCharge::Admitted,
        reply matches Reply::Send(frame) ==> (frame matches ServerMessage::Error {
            message,
            error_code,
        } && message@ == text && error_code == Some(code)),
        reply matches Reply::Withheld { farewell } ==> {
            &&& farewell is Some <==> charge == (ErrorReplyCharge::Exhausted {
                initiated_close: true,
            })
            &&& farewell is Some ==> (farewell->0 matches ServerMessage::Error {
                message,
                error_code,
            } && message@ == "Too many rejected requests on this connection"@ && error_code
                == Some(ErrorCode::RateLimitExceeded))
        },
{
}

/// An answer is the very frame it was asked to be while the charge was admitted,
/// and withheld afterwards, like a refusal.
pub proof fn law_answers_are_sent_unchanged(
    reply: Reply,
    charge: ErrorReplyCharge,
    frame: ServerMessage,
)
    requires
        reply.answers(charge, frame),
    ensures
        charge == ErrorReplyCharge::Admitted ==> reply == Reply::Send(frame),
        charge != ErrorReplyCharge::Admitted ==> reply is Withheld,
        reply matches Reply::Withheld { farewell } ==> (farewell is Some <==> charge == (
        ErrorReplyCharge::Exhausted { initiated_close: true })),
{
}

/// A reply costs the player it goes to one of its replies, or its connection once
/// none are left, and costs nobody else anything. A player without a connection
/// is always answered.
pub proof fn law_replies_are_charged_to_their_player(
    server: ServerView,
    player: PlayerId,
    other: PlayerId,
)
    requires
        other != player,
    ensures
        ({
            let client = server.manager.clients[player];
            let after = server.reply_charged(player);
            let connected = server.manager.clients.contains_key(player);
            let left = client.error_replies < server.manager.limits.max_error_replies;
            &&& server.reply_charge(player) is Admitted <==> !connected || left
            &&& connected && !left ==> server.reply_charge(player) == (ErrorReplyCharge::Exhausted {
                initiated_close: client.close is None,
            })
            &&& !connected ==> after == server
            &&& connected && left ==> after.manager.clients[player].error_replies
                == client.error_replies + 1 && after.manager.clients[player].close == client.close
            &&& connected && !left ==> after.manager.clients[player].error_replies
                == client.error_replies && after.manager.clients[player].close is Some
            &&& after == (ServerView { manager: after.manager, ..server })
            &&& after.manager.clients.contains_key(other) == server.manager.clients.contains_key(
                other,
            )
            &&& server.manager.clients.contains_key(other) ==> after.manager.clients[other]
                == server.manager.clients[other]
        }),
{
}

/// Without a correlation every frame goes out as it is, and with one, only the
/// refusals of room operations are wrapped.
pub proof fn law_only_refused_operations_are_wrapped(
    frame: ServerMessage,
    operation_id: RoomOperationId,
)
    ensures
        correlated(frame, None) == frame,
        !(frame is RoomJoinFailed) && !(frame is SpectatorJoinFailed) && !(frame
            is ReconnectionFailed) ==> correlated(frame, Some(operation_id)) == frame,
        frame is RoomJoinFailed || frame is SpectatorJoinFailed || frame is ReconnectionFailed ==> (
        correlated(frame, Some(operation_id)) matches ServerMessage::RoomOperationResult {
            operation_id: answered,
            ..
        } && answered == operation_id),
{
}

/// A farewell is tried exactly if its player is reachable and it is still wanted,
/// on the player's own queue, and counts as sent exactly if the queue took it.
pub proof fn law_farewells_are_tried_once_if_wanted(
    server: ServerView,
    player: PlayerId,
    conditional: bool,
    wanted: Option<bool>,
    enqueued: Option<bool>,
)
    ensures
        ({
            let step = farewell_step(server, player, conditional, wanted, enqueued);
            let reachable = server.routing.clients.contains_key(player);
            let asked = !conditional || wanted is Some;
            let goes = reachable && (!conditional || wanted == Some(true));
            &&& step is ReadGate <==> reachable && !asked
            &&& step is TrySend <==> goes && enqueued is None
            &&& step matches FarewellStep::TrySend { handle } ==> handle
                == server.routing.clients[player]
            &&& (step matches FarewellStep::Done { enqueued: true }) <==> goes && enqueued == Some(
                true,
            )
        }),
{
    assert(wanted is Some && wanted != Some(false) ==> wanted == Some(true)) by {
        if let Some(asked) = wanted {
            assert(asked || !asked);
            if asked {
                assert(wanted == Some(true));
            } else {
                assert(wanted == Some(false));
            }
        }
    }
}

} // verus!
