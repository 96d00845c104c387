//! Authority requests.

use vstd::prelude::*;
use vstd::string::*;

use crate::connection::{ErrorReplyCharge, LifecycleId};
use crate::messaging::{withheld_reply, Reply};
use crate::protocol::{ErrorCode, PlayerId, RoomId, ServerMessage};
use crate::server::{EnhancedGameServer, ServerView};

verus! {

/// What becomes of an authority request.
#[derive(Debug)]
pub enum AuthorityStep {
    /// The connection it came from is gone, or stands for another player.
    Stale,
    /// It is refused without asking the room.
    Refused(Reply),
    /// The room's coordinator decides.
    Ask { room: RoomId },
}

/// What the room's coordinator decided.
#[derive(Clone, Copy, Debug, PartialEq, Eq, Structural)]
pub enum AuthorityOutcome {
    Granted,
    /// The denial is on its way to the player already.
    Denied,
    Failed,
}

/// Whether `frame` denies an authority request.
pub open spec fn is_denial(frame: ServerMessage, reason: Seq<char>, code: ErrorCode) -> bool {
    frame matches ServerMessage::AuthorityResponse { granted, reason: given, error_code }
        && !granted && given is Some && given->0@ == reason && error_code == Some(code)
}

/// Whether `reply` is what becomes of a denial after `charge`.
pub open spec fn denies(
    reply: Reply,
    charge: ErrorReplyCharge,
    reason: Seq<char>,
    code: ErrorCode,
) -> bool {
    exists|frame: ServerMessage|
        is_denial(frame, reason, code) && #[trigger] reply.answers(charge, frame)
}

fn not_in_a_room() -> (frame: ServerMessage)
    ensures
        is_denial(frame, "Not in a room"@, ErrorCode::NotInRoom),
{
    ServerMessage::AuthorityResponse {
        granted: false,
        reason: Some("Not in a room".to_owned()),
        error_code: Some(ErrorCode::NotInRoom),
    }
}

fn internal_error() -> (frame: ServerMessage)
    ensures
        is_denial(frame, "Internal error"@, ErrorCode::InternalError),
{
    ServerMessage::AuthorityResponse {
        granted: false,
        reason: Some("Internal error".to_owned()),
        error_code: Some(ErrorCode::InternalError),
    }
}

impl EnhancedGameServer {
    /// Takes an authority request of `player_id` in, which came over the
    /// physical connection `lifecycle`. A roomless request is denied, and the
    /// denial is charged.
    pub fn handle_authority_request(&mut self, player_id: PlayerId, lifecycle: LifecycleId) -> (
        step: AuthorityStep)
        requires
            old(self).wf(),
        ensures
            final(self).wf(),
            if !old(self)@.holds_lifecycle(player_id, lifecycle) {
                step is Stale && final(self)@ == old(self)@
            } else {
                match old(self)@.manager.room_of(player_id) {
                    Some(room) => step == (AuthorityStep::Ask { room }) && final(self)@ == old(
                        self,
                    )@,
                    None => {
                        &&& final(self)@ == old(self)@.reply_charged(player_id)
                        &&& step matches AuthorityStep::Refused(reply) && denies(
                            reply,
                            old(self)@.reply_charge(player_id),
                            "Not in a room"@,
                            ErrorCode::NotInRoom,
                        )
                    },
                }
            },
    {
        if !self.connection_manager.lifecycle_matches(player_id, lifecycle) {
            return AuthorityStep::Stale;
        }
        match self.connection_manager.get_client_room(player_id) {
            Some(room) => AuthorityStep::Ask { room },
            None => AuthorityStep::Refused(self.charged_reply(player_id, not_in_a_room())),
        }
    }

    /// Takes the coordinator's decision in. A denial is charged though it is on
    /// its way: an exhausted budget closes the connection. A failure is
    /// answered, and charged.
    pub fn finish_authority_request(&mut self, player_id: PlayerId, outcome: AuthorityOutcome) -> (
        reply: Option<Reply>)
        requires
            old(self).wf(),
        ensures
            final(self).wf(),
            match outcome {
                AuthorityOutcome::Granted => reply is None && final(self)@ == old(self)@,
                AuthorityOutcome::Denied => {
                    &&& final(self)@ == old(self)@.reply_charged(player_id)
                    &&& match old(self)@.reply_charge(player_id) {
                        ErrorReplyCharge::Admitted => reply is None,
                        ErrorReplyCharge::Exhausted { initiated_close } => reply is Some
                            && reply->0.withholds(initiated_close),
                    }
                },
                AuthorityOutcome::Failed => {
                    &&& final(self)@ == old(self)@.reply_charged(player_id)
                    &&& reply is Some
                    &&& denies(
                        reply->0,
                        old(self)@.reply_charge(player_id),
                        "Internal error"@,
                        ErrorCode::InternalError,
                    )
                },
            },
    {
        match outcome {
            AuthorityOutcome::Granted => None,
            AuthorityOutcome::Denied => match self.charge_error_reply(player_id) {
                ErrorReplyCharge::Admitted => None,
                ErrorReplyCharge::Exhausted { initiated_close } => Some(
                    withheld_reply(initiated_close),
                ),
            },
            AuthorityOutcome::Failed => Some(self.charged_reply(player_id, internal_error())),
        }
    }
}

/// Roomless requests are denied as often as the budget says and no more: the
/// next one closes the connection and is not answered.
pub proof fn law_roomless_denials_are_budgeted(
    server: ServerView,
    player: PlayerId,
    reply: Reply,
    reason: Seq<char>,
    code: ErrorCode,
)
    requires
        server.manager.clients.contains_key(player),
        denies(reply, server.reply_charge(player), reason, code),
    ensures
        reply is Send <==> server.manager.clients[player].error_replies
            < server.manager.limits.max_error_replies,
        reply is Withheld ==> server.reply_charged(player).manager.clients[player].close is Some,
{
}

/// A denial is a frame that grants nothing and gives its reason and code; it is
/// sent while the player's replies last, and withheld afterwards.
pub proof fn law_denials_say_why(
    reply: Reply,
    charge: ErrorReplyCharge,
    reason: Seq<char>,
    code: ErrorCode,
)
    requires
        denies(reply, charge, reason, code),
    ensures
        charge == ErrorReplyCharge::Admitted ==> (reply matches Reply::Send(frame) && (
        frame matches ServerMessage::AuthorityResponse { granted, reason: given, error_code }
            && !granted && given is Some && given->0@ == reason && error_code == Some(code))),
        charge != ErrorReplyCharge::Admitted ==> reply is Withheld,
{
}

} // verus!
