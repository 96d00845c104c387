//! Liveness: what a heard message refreshes.

use vstd::prelude::*;

use crate::connection::Moment;
use crate::protocol::{PlayerId, RoomId, ServerMessage};
use crate::server::{EnhancedGameServer, ServerView};

verus! {

/// What storage is told of a heard message.
#[derive(Clone, Copy, Debug, PartialEq, Eq, Structural)]
pub enum HeartbeatStep {
    /// The player was recorded recently enough, or is not connected.
    Skipped,
    /// Record the player as seen, and the room it occupies, if any, as active.
    Update { room: Option<RoomId> },
}

impl ServerView {
    /// The server after `player` is heard from at `now`.
    pub open spec fn heard(self, player: PlayerId, now: Moment) -> ServerView {
        self.with_manager(self.manager.updated(player, self.manager.clients[player].pinged(now)))
    }

    /// Whether `player` is to be recorded as seen at `now`.
    pub open spec fn heartbeat_due(self, player: PlayerId, now: Moment) -> bool {
        self.manager.last_seen_due(player, now, self.config.heartbeat_throttle)
    }

    /// The room `player` occupies: the seated one before the watched one.
    pub open spec fn occupied_room(self, player: PlayerId, watched: Option<RoomId>) -> Option<
        RoomId,
    > {
        match self.manager.room_of(player) {
            Some(room) => Some(room),
            None => watched,
        }
    }

    /// What storage is told of `player` at `now`.
    pub open spec fn heartbeat(
        self,
        player: PlayerId,
        watched: Option<RoomId>,
        now: Moment,
    ) -> HeartbeatStep {
        if self.heartbeat_due(player, now) {
            HeartbeatStep::Update { room: self.occupied_room(player, watched) }
        } else {
            HeartbeatStep::Skipped
        }
    }

    /// The server after storage was told of `player` at `now`.
    pub open spec fn after_heartbeat(self, player: PlayerId, now: Moment) -> ServerView {
        if self.heartbeat_due(player, now) {
            self.with_manager(
                self.manager.with_client(player, self.manager.clients[player].seen(now)),
            )
        } else {
            self
        }
    }

    /// The server after `player` is heard from at `now` and storage was told.
    pub open spec fn active(self, player: PlayerId, now: Moment) -> ServerView {
        self.heard(player, now).after_heartbeat(player, now)
    }
}

impl EnhancedGameServer {
    /// Decides at `now` whether storage is told of `player_id`. A due update
    /// restarts the throttle. `watched` is the room it spectates, if any.
    pub fn maybe_update_last_seen_at(
        &mut self,
        player_id: PlayerId,
        watched: Option<RoomId>,
        now: Moment,
    ) -> (step: HeartbeatStep)
        requires
            old(self).wf(),
        ensures
            final(self).wf(),
            step == old(self)@.heartbeat(player_id, watched, now),
            final(self)@ == old(self)@.after_heartbeat(player_id, now),
    {
        let due = self.connection_manager.should_update_last_seen_at(
            player_id,
            now,
            self.config.heartbeat_throttle,
        );
        if due {
            let seated = self.connection_manager.get_client_room(player_id);
            HeartbeatStep::Update {
                room: match seated {
                    Some(room) => Some(room),
                    None => watched,
                },
            }
        } else {
            HeartbeatStep::Skipped
        }
    }

    /// Decides whether storage is told of `player_id`.
    pub fn maybe_update_last_seen(&mut self, player_id: PlayerId, watched: Option<RoomId>) -> (step:
        HeartbeatStep)
        requires
            old(self).wf(),
        ensures
            final(self).wf(),
            exists|now: Moment|
                final(self)@ == #[trigger] old(self)@.after_heartbeat(player_id, now) && step
                    == old(self)@.heartbeat(player_id, watched, now),
    {
        let now = self.connection_manager.now();
        self.maybe_update_last_seen_at(player_id, watched, now)
    }

    /// Takes any sign of life of `player_id` in at `now`.
    pub fn record_activity_at(
        &mut self,
        player_id: PlayerId,
        watched: Option<RoomId>,
        now: Moment,
    ) -> (step: HeartbeatStep)
        requires
            old(self).wf(),
        ensures
            final(self).wf(),
            step == old(self)@.heard(player_id, now).heartbeat(player_id, watched, now),
            final(self)@ == old(self)@.active(player_id, now),
    {
        self.connection_manager.record_ping_at(player_id, now);
        self.maybe_update_last_seen_at(player_id, watched, now)
    }

    /// Takes transport-level traffic of `player_id` in. It is answered by
    /// nothing.
    pub fn record_transport_activity(&mut self, player_id: PlayerId, watched: Option<RoomId>) -> (
        step: HeartbeatStep)
        requires
            old(self).wf(),
        ensures
            final(self).wf(),
            exists|now: Moment|
                final(self)@ == #[trigger] old(self)@.active(player_id, now) && step == old(
                    self,
                )@.heard(player_id, now).heartbeat(player_id, watched, now),
    {
        let now = self.connection_manager.now();
        self.record_activity_at(player_id, watched, now)
    }

    /// Answers a ping of `player_id` at `now`.
    pub fn handle_ping_at(&mut self, player_id: PlayerId, now: Moment) -> (frame: ServerMessage)
        requires
            old(self).wf(),
        ensures
            final(self).wf(),
            final(self)@ == old(self)@.heard(player_id, now),
            frame is Pong,
    {
        self.connection_manager.record_ping_at(player_id, now);
        ServerMessage::Pong
    }

    /// Answers a ping of `player_id`.
    pub fn handle_ping(&mut self, player_id: PlayerId) -> (frame: ServerMessage)
        requires
            old(self).wf(),
        ensures
            final(self).wf(),
            exists|now: Moment| final(self)@ == #[trigger] old(self)@.heard(player_id, now),
            frame is Pong,
    {
        let now = self.connection_manager.now();
        self.handle_ping_at(player_id, now)
    }
}

/// Whatever a connected client sends keeps it from the activity reaper for
/// another timeout, and with no throttle it is recorded every time.
pub proof fn law_activity_keeps_a_client_alive(
    server: ServerView,
    player: PlayerId,
    now: Moment,
    later: Moment,
    timeout: crate::connection::Nanos,
)
    requires
        server.manager.clients.contains_key(player),
        crate::connection::elapsed_since(later, now) <= timeout,
    ensures
        !server.active(player, now).manager.expired_clients(later, timeout).contains(player),
        server.config.heartbeat_throttle == 0 ==> server.heartbeat_due(player, now),
{
}

/// A player that is not connected is never recorded.
pub proof fn law_unknown_players_are_never_recorded(
    server: ServerView,
    player: PlayerId,
    watched: Option<RoomId>,
    now: Moment,
)
    requires
        !server.manager.clients.contains_key(player),
    ensures
        server.heard(player, now).heartbeat(player, watched, now) is Skipped,
        server.active(player, now) == server,
{
}

/// A sign of life moves the time the client was last heard from, and nothing of
/// anybody else; a player that is not connected leaves no trace.
pub proof fn law_signs_of_life_refresh_the_client(
    server: ServerView,
    player: PlayerId,
    now: Moment,
    other: PlayerId,
)
    requires
        other != player,
    ensures
        ({
            let heard = server.heard(player, now);
            let active = server.active(player, now);
            &&& heard == (ServerView { manager: heard.manager, ..server })
            &&& active == (ServerView { manager: active.manager, ..server })
            &&& heard.manager.clients.dom() == server.manager.clients.dom()
            &&& active.manager.clients.dom() == server.manager.clients.dom()
            &&& server.manager.clients.contains_key(player) ==> heard.manager.clients[player] == (
            crate::connection::ConnectionView {
                last_ping: now,
                ..server.manager.clients[player]
            })
            &&& server.manager.clients.contains_key(player)
                ==> active.manager.clients[player].last_ping == now
            &&& server.manager.clients.contains_key(other) ==> heard.manager.clients[other]
                == server.manager.clients[other] && active.manager.clients[other]
                == server.manager.clients[other]
            &&& active.manager.limits == server.manager.limits
            &&& active.manager.next_lifecycle == server.manager.next_lifecycle
        }),
{
    assert(server.heard(player, now).manager.clients.dom() =~= server.manager.clients.dom());
    assert(server.active(player, now).manager.clients.dom() =~= server.manager.clients.dom());
}

/// Storage is told of a connected client exactly if it was not told within the
/// throttle, and then of the room the client sits in or, if it sits nowhere, of
/// the one it watches; being told restarts the throttle.
pub proof fn law_storage_is_told_once_per_throttle(
    server: ServerView,
    player: PlayerId,
    watched: Option<RoomId>,
    now: Moment,
)
    ensures
        ({
            let client = server.manager.clients[player];
            let throttle = server.config.heartbeat_throttle;
            let due = server.manager.clients.contains_key(player) && (client.last_heartbeat_update
                is None || throttle == 0 || now >= client.last_heartbeat_update->0 + throttle);
            let told = server.heartbeat(player, watched, now);
            let after = server.after_heartbeat(player, now);
            &&& told is Update <==> due
            &&& told matches HeartbeatStep::Update { room } ==> room == (if client.room_id is Some {
                client.room_id
            } else {
                watched
            })
            &&& due ==> after.manager.clients[player].last_heartbeat_update == Some(now)
                && after.manager.clients == server.manager.clients.insert(
                player,
                crate::connection::ConnectionView { last_heartbeat_update: Some(now), ..client },
            )
            &&& !due ==> after == server
            &&& due && throttle > 0 ==> after.heartbeat(player, watched, now) is Skipped
        }),
{
}

} // verus!
