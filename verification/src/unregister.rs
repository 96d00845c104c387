//! Unregistering a connection, step by step.
//!
//! Between two steps the caller performs what the last step asked for, and the
//! shutdown drain may begin.

use vstd::prelude::*;

use crate::close::CloseReason;
use crate::connection::LifecycleId;
use crate::connection_manager::{always_draining, never_draining, ManagerView};
use crate::protocol::{PlayerId, RoomId};
use crate::server::{EnhancedGameServer, ServerView};

verus! {

/// How far an unregistration has come.
#[derive(Clone, Copy, Debug, PartialEq, Eq, Structural)]
pub enum UnregisterStage {
    /// The seated room, if any, is about to be read from storage.
    Snapshot,
    /// Spectator state is about to be detached.
    Detach,
    /// The disconnection is about to be offered for reconnection.
    Register,
    /// The seated membership is about to end.
    Teardown,
    /// The player has left its room.
    AfterLeave,
    /// The drain began while the player left.
    UnrouteForDrain,
    /// Nothing is routed to the player any more.
    Settle,
    /// The entry is about to go.
    Remove,
    Finished,
}

/// One unregistration.
#[derive(Clone, Copy, Debug)]
pub struct Unregistration {
    pub player: PlayerId,
    /// The room the player was seated in when it began.
    pub room: Option<RoomId>,
    /// What storage said of the player in that room: whether it had the
    /// authority. None if the room or the player was absent or unreadable.
    pub snapshot: Option<bool>,
    /// Whether the disconnection was offered for reconnection.
    pub registered_reconnect: bool,
    /// The close reason of the entry that was removed.
    pub removed: Option<CloseReason>,
    pub stage: UnregisterStage,
}

/// What the caller does next.
#[derive(Clone, Copy, Debug, PartialEq, Eq, Structural)]
pub enum UnregisterAction {
    /// Read the room, and record what it says of the player.
    FetchRoomSnapshot { room: RoomId },
    /// Detach spectator state, telling the room only while the server is not
    /// draining.
    DetachSpectator,
    DiscardPreIssuedToken,
    RegisterDisconnection { room: RoomId, was_authority: bool },
    /// Remove the player from the room without telling anybody.
    RemoveForDrain { room: RoomId },
    /// Leave the room as an ordinary departure.
    LeaveRoom { room: RoomId },
    DiscardPendingReconnection,
    /// Nothing: take the next step.
    Continue,
    /// The unregistration is over. A removed entry ends one active connection.
    Finish { removed: Option<CloseReason> },
}

/// An action on `room`, or nothing where there is no room.
pub open spec fn drain_removal(room: Option<RoomId>) -> UnregisterAction {
    match room {
        Some(room) => UnregisterAction::RemoveForDrain { room },
        None => UnregisterAction::Continue,
    }
}

/// The withdrawal of an offered reconnection, or nothing where none was
/// offered.
pub open spec fn withdrawal(offered: bool) -> UnregisterAction {
    if offered {
        UnregisterAction::DiscardPendingReconnection
    } else {
        UnregisterAction::Continue
    }
}

impl Unregistration {
    /// The removal of `player`'s entry takes place: it has one, and is not
    /// seated.
    pub open spec fn removes(self, server: ServerView) -> bool {
        server.manager.clients.contains_key(self.player) && server.manager.room_of(self.player)
            is None
    }

    /// The reason an entry removed now closes with.
    pub open spec fn removal_reason(self, server: ServerView) -> CloseReason {
        if server.draining() {
            CloseReason::Shutdown
        } else {
            CloseReason::Unregistered
        }
    }

    /// What the next step asks the caller for.
    pub open spec fn action(self, server: ServerView) -> UnregisterAction {
        let draining = server.draining();
        match self.stage {
            UnregisterStage::Snapshot => match self.room {
                Some(room) => UnregisterAction::FetchRoomSnapshot { room },
                None => UnregisterAction::Continue,
            },
            UnregisterStage::Detach => UnregisterAction::DetachSpectator,
            UnregisterStage::Register => match (self.room, self.snapshot) {
                _ if draining => UnregisterAction::DiscardPreIssuedToken,
                (Some(room), Some(was_authority)) => UnregisterAction::RegisterDisconnection {
                    room,
                    was_authority,
                },
                (Some(_), None) => UnregisterAction::Continue,
                (None, _) => UnregisterAction::DiscardPreIssuedToken,
            },
            UnregisterStage::Teardown => match self.room {
                _ if draining => drain_removal(self.room),
                Some(room) => UnregisterAction::LeaveRoom { room },
                None => UnregisterAction::Continue,
            },
            UnregisterStage::AfterLeave => withdrawal(draining && self.registered_reconnect),
            UnregisterStage::UnrouteForDrain => drain_removal(
                server.manager.room_of(self.player),
            ),
            UnregisterStage::Settle => withdrawal(draining && self.registered_reconnect),
            UnregisterStage::Remove => withdrawal(
                draining && self.registered_reconnect && self.removes(server),
            ),
            UnregisterStage::Finished => UnregisterAction::Finish { removed: self.removed },
        }
    }

    /// The unregistration after the next step.
    pub open spec fn next(self, server: ServerView) -> Unregistration {
        let draining = server.draining();
        Unregistration {
            stage: match self.stage {
                UnregisterStage::Snapshot => UnregisterStage::Detach,
                UnregisterStage::Detach => UnregisterStage::Register,
                UnregisterStage::Register => UnregisterStage::Teardown,
                UnregisterStage::Teardown => if draining {
                    UnregisterStage::Settle
                } else {
                    UnregisterStage::AfterLeave
                },
                UnregisterStage::AfterLeave => if draining {
                    UnregisterStage::UnrouteForDrain
                } else {
                    UnregisterStage::Settle
                },
                UnregisterStage::UnrouteForDrain => UnregisterStage::Settle,
                UnregisterStage::Settle => UnregisterStage::Remove,
                UnregisterStage::Remove | UnregisterStage::Finished => UnregisterStage::Finished,
            },
            registered_reconnect: if self.stage is Register {
                !draining && self.room is Some && self.snapshot is Some
            } else {
                self.registered_reconnect
            },
            removed: if self.stage is Remove && self.removes(server) {
                Some(self.removal_reason(server))
            } else {
                self.removed
            },
            ..self
        }
    }

    /// The server after the next step.
    pub open spec fn server_after(self, server: ServerView) -> ServerView {
        match self.stage {
            UnregisterStage::Register | UnregisterStage::Settle => server.closing_for_drain(
                self.player,
            ),
            UnregisterStage::Teardown => if server.draining() {
                server.closing_for_drain(self.player).unrouted(self.player)
            } else {
                server
            },
            UnregisterStage::AfterLeave => if server.draining() {
                server.closing_for_drain(self.player)
            } else {
                server.unrouted(self.player)
            },
            UnregisterStage::UnrouteForDrain => server.unrouted(self.player),
            UnregisterStage::Remove => if self.removes(server) {
                server.with_manager(
                    ManagerView {
                        clients: server.manager.clients.remove(self.player),
                        ..server.manager
                    },
                )
            } else {
                server
            },
            UnregisterStage::Snapshot | UnregisterStage::Detach | UnregisterStage::Finished =>
                server,
        }
    }

    /// How many steps are left at most.
    pub open spec fn steps_left(self) -> nat {
        match self.stage {
            UnregisterStage::Snapshot => 8,
            UnregisterStage::Detach => 7,
            UnregisterStage::Register => 6,
            UnregisterStage::Teardown => 5,
            UnregisterStage::AfterLeave => 4,
            UnregisterStage::UnrouteForDrain => 3,
            UnregisterStage::Settle => 2,
            UnregisterStage::Remove => 1,
            UnregisterStage::Finished => 0,
        }
    }
}

fn removal_for_drain(room: Option<RoomId>) -> (action: UnregisterAction)
    ensures
        action == drain_removal(room),
{
    match room {
        Some(room) => UnregisterAction::RemoveForDrain { room },
        None => UnregisterAction::Continue,
    }
}

fn withdraw_if(offered: bool) -> (action: UnregisterAction)
    ensures
        action == withdrawal(offered),
{
    if offered {
        UnregisterAction::DiscardPendingReconnection
    } else {
        UnregisterAction::Continue
    }
}

impl EnhancedGameServer {
    /// Begins the unregistration of `player_id`.
    pub fn begin_unregistration(&self, player_id: PlayerId) -> (job: Unregistration)
        ensures
            job == (Unregistration {
                player: player_id,
                room: self@.manager.room_of(player_id),
                snapshot: None,
                registered_reconnect: false,
                removed: None,
                stage: UnregisterStage::Snapshot,
            }),
    {
        Unregistration {
            player: player_id,
            room: self.connection_manager.get_client_room(player_id),
            snapshot: None,
            registered_reconnect: false,
            removed: None,
            stage: UnregisterStage::Snapshot,
        }
    }

    /// Begins the unregistration of a client. With a physical connection, the
    /// player it stands for by now is unregistered, and nobody if it is gone;
    /// without one, `player_id` is.
    pub fn unregister_client(&self, player_id: PlayerId, lifecycle: Option<LifecycleId>) -> (job:
        Option<Unregistration>)
        requires
            self.wf(),
        ensures
            match lifecycle {
                None => job is Some && job->0.player == player_id,
                Some(lifecycle) => match job {
                    Some(job) => self@.holds_lifecycle(job.player, lifecycle),
                    None => forall|player: PlayerId| !self@.holds_lifecycle(player, lifecycle),
                },
            },
            job is Some ==> job->0 == (Unregistration {
                player: job->0.player,
                room: self@.manager.room_of(job->0.player),
                snapshot: None,
                registered_reconnect: false,
                removed: None,
                stage: UnregisterStage::Snapshot,
            }),
    {
        match lifecycle {
            None => Some(self.begin_unregistration(player_id)),
            Some(lifecycle) => match self.connection_manager.lifecycle_player(lifecycle) {
                Some(player) => Some(self.begin_unregistration(player)),
                None => None,
            },
        }
    }

    /// Begins the unregistration of a client: the same as
    /// [`Self::unregister_client`].
    pub fn disconnect_client(&self, player_id: PlayerId, lifecycle: Option<LifecycleId>) -> (job:
        Option<Unregistration>)
        requires
            self.wf(),
        ensures
            match lifecycle {
                None => job is Some && job->0.player == player_id,
                Some(lifecycle) => match job {
                    Some(job) => self@.holds_lifecycle(job.player, lifecycle),
                    None => forall|player: PlayerId| !self@.holds_lifecycle(player, lifecycle),
                },
            },
            job is Some ==> job->0 == (Unregistration {
                player: job->0.player,
                room: self@.manager.room_of(job->0.player),
                snapshot: None,
                registered_reconnect: false,
                removed: None,
                stage: UnregisterStage::Snapshot,
            }),
    {
        self.unregister_client(player_id, lifecycle)
    }

    /// Ends the seated membership of `job`'s player, or asks for it.
    fn unregister_teardown(&mut self, job: &mut Unregistration) -> (action: UnregisterAction)
        requires
            old(self).wf(),
            old(job).stage is Teardown,
        ensures
            final(self).wf(),
            action == old(job).action(old(self)@),
            *final(job) == old(job).next(old(self)@),
            final(self)@ == old(job).server_after(old(self)@),
    {
        if self.is_draining() {
            let _ = self.connection_manager.request_close_for(job.player, CloseReason::Shutdown);
            self.message_coordinator.unregister_local_client(job.player);
            job.stage = UnregisterStage::Settle;
            removal_for_drain(job.room)
        } else {
            job.stage = UnregisterStage::AfterLeave;
            match job.room {
                Some(room) => UnregisterAction::LeaveRoom { room },
                None => UnregisterAction::Continue,
            }
        }
    }

    /// Stops routing to `job`'s player once it has left its room.
    fn unregister_after_leave(&mut self, job: &mut Unregistration) -> (action: UnregisterAction)
        requires
            old(self).wf(),
            old(job).stage is AfterLeave,
        ensures
            final(self).wf(),
            action == old(job).action(old(self)@),
            *final(job) == old(job).next(old(self)@),
            final(self)@ == old(job).server_after(old(self)@),
    {
        if self.is_draining() {
            let _ = self.connection_manager.request_close_for(job.player, CloseReason::Shutdown);
            job.stage = UnregisterStage::UnrouteForDrain;
            withdraw_if(job.registered_reconnect)
        } else {
            self.message_coordinator.unregister_local_client(job.player);
            job.stage = UnregisterStage::Settle;
            UnregisterAction::Continue
        }
    }

    /// Removes the entry of `job`'s player.
    fn unregister_remove(&mut self, job: &mut Unregistration) -> (action: UnregisterAction)
        requires
            old(self).wf(),
            old(job).stage is Remove,
        ensures
            final(self).wf(),
            action == old(job).action(old(self)@),
            *final(job) == old(job).next(old(self)@),
            final(self)@ == old(job).server_after(old(self)@),
    {
        job.stage = UnregisterStage::Finished;
        let removed = if self.is_draining() {
            self.connection_manager.remove_client_for_unregistration(job.player, always_draining)
        } else {
            self.connection_manager.remove_client_for_unregistration(job.player, never_draining)
        };
        match removed {
            Some((_, reason)) => {
                job.removed = Some(reason);
                withdraw_if(reason == CloseReason::Shutdown && job.registered_reconnect)
            },
            None => UnregisterAction::Continue,
        }
    }

    /// Takes the next step of an unregistration. Before the step after
    /// `FetchRoomSnapshot` the caller records in `job.snapshot` what storage
    /// said.
    pub fn unregister_client_locked(&mut self, job: &mut Unregistration) -> (action: UnregisterAction)
        requires
            old(self).wf(),
        ensures
            final(self).wf(),
            action == old(job).action(old(self)@),
            *final(job) == old(job).next(old(self)@),
            final(self)@ == old(job).server_after(old(self)@),
    {
        match job.stage {
            UnregisterStage::Snapshot => {
                job.stage = UnregisterStage::Detach;
                match job.room {
                    Some(room) => UnregisterAction::FetchRoomSnapshot { room },
                    None => UnregisterAction::Continue,
                }
            },
            UnregisterStage::Detach => {
                job.stage = UnregisterStage::Register;
                UnregisterAction::DetachSpectator
            },
            UnregisterStage::Register => {
                job.stage = UnregisterStage::Teardown;
                job.registered_reconnect = false;
                if self.is_draining() {
                    let _ = self.connection_manager.request_close_for(
                        job.player,
                        CloseReason::Shutdown,
                    );
                    UnregisterAction::DiscardPreIssuedToken
                } else {
                    match (job.room, job.snapshot) {
                        (Some(room), Some(was_authority)) => {
                            job.registered_reconnect = true;
                            UnregisterAction::RegisterDisconnection { room, was_authority }
                        },
                        (Some(_), None) => UnregisterAction::Continue,
                        (None, _) => UnregisterAction::DiscardPreIssuedToken,
                    }
                }
            },
            UnregisterStage::Teardown => self.unregister_teardown(job),
            UnregisterStage::AfterLeave => self.unregister_after_leave(job),
            UnregisterStage::UnrouteForDrain => {
                self.message_coordinator.unregister_local_client(job.player);
                job.stage = UnregisterStage::Settle;
                removal_for_drain(self.connection_manager.get_client_room(job.player))
            },
            UnregisterStage::Settle => {
                job.stage = UnregisterStage::Remove;
                if self.is_draining() {
                    let _ = self.connection_manager.request_close_for(
                        job.player,
                        CloseReason::Shutdown,
                    );
                    withdraw_if(job.registered_reconnect)
                } else {
                    UnregisterAction::Continue
                }
            },
            UnregisterStage::Remove => self.unregister_remove(job),
            UnregisterStage::Finished => UnregisterAction::Finish { removed: job.removed },
        }
    }
}

/// Every step brings an unregistration closer to its end.
pub proof fn law_unregistration_ends(job: Unregistration, server: ServerView)
    requires
        !(job.stage is Finished),
    ensures
        job.next(server).steps_left() < job.steps_left(),
        job.next(server).player == job.player,
{
}

/// Routing to a player has stopped before its entry goes: the steps that lead
/// to the last check leave it unrouted, and the later ones route nothing.
pub proof fn law_routing_stops_before_the_entry_goes(job: Unregistration, server: ServerView)
    ensures
        job.next(server).stage is Settle ==> !job.server_after(
            server,
        ).routing.clients.contains_key(job.player),
        job.stage is Settle || job.stage is Remove ==> job.server_after(server).routing
            == server.routing,
        job.server_after(server).manager.clients.dom() != server.manager.clients.dom() ==> job.stage
            is Remove,
{
    assert(job.server_after(server).manager.clients.dom() =~= server.manager.clients.dom()
        || job.stage is Remove);
}

/// While the server drains, a step that decides anything about a registered
/// player pins the shutdown as its close reason, and no step sends an ordinary
/// departure.
pub proof fn law_draining_unregistration_closes_for_shutdown(
    job: Unregistration,
    server: ServerView,
)
    requires
        server.draining(),
        server.manager.clients.contains_key(job.player),
    ensures
        job.stage is Register || job.stage is Teardown || job.stage is AfterLeave || job.stage
            is Settle ==> job.server_after(server).manager.clients[job.player].close == Some(
            CloseReason::Shutdown,
        ),
        !(job.action(server) is LeaveRoom),
        !(job.action(server) is RegisterDisconnection),
        job.stage is Remove && job.removes(server) ==> job.next(server).removed == Some(
            CloseReason::Shutdown,
        ),
{
}

/// An entry removed for the shutdown leaves no reconnection offer behind.
pub proof fn law_shutdown_keeps_no_reconnection_offer(job: Unregistration, server: ServerView)
    requires
        job.stage is Remove,
        job.registered_reconnect,
    ensures
        job.next(server).removed == Some(CloseReason::Shutdown) && job.removed is None
            ==> job.action(server) is DiscardPendingReconnection,
{
}

/// A server and an unregistration after `count` steps between which nothing
/// else happens.
pub open spec fn after_steps(server: ServerView, job: Unregistration, count: nat) -> (
    ServerView,
    Unregistration,
)
    decreases count,
{
    if count == 0 {
        (server, job)
    } else {
        after_steps(job.server_after(server), job.next(server), (count - 1) as nat)
    }
}

/// Left to itself, the unregistration of a roomless connection removes exactly
/// that connection and its routing.
pub proof fn law_roomless_unregistration_removes_the_connection(
    server: ServerView,
    job: Unregistration,
)
    requires
        server.manager.clients.contains_key(job.player),
        server.manager.room_of(job.player) is None,
        !server.draining(),
        job.stage is Snapshot,
        job.room is None,
    ensures
        ({
            let (after, finished) = after_steps(server, job, 8);
            &&& finished.stage is Finished
            &&& finished.removed == Some(CloseReason::Unregistered)
            &&& after == (ServerView {
                manager: ManagerView {
                    clients: server.manager.clients.remove(job.player),
                    ..server.manager
                },
                routing: server.routing.unregistered(job.player),
                ..server
            })
        }),
{
    reveal_with_fuel(after_steps, 9);
}

/// A disconnection is offered for reconnection exactly while the server does not
/// drain and storage knew the player in the room it was seated in, and the offer
/// names that room and the authority storage recorded.
pub proof fn law_offers_say_what_storage_recorded(
    job: Unregistration,
    server: ServerView,
    room: RoomId,
    was_authority: bool,
)
    ensures
        job.action(server) == (UnregisterAction::RegisterDisconnection { room, was_authority })
            <==> job.stage is Register && server.drain_deadline_ms == 0 && job.room == Some(room)
            && job.snapshot == Some(was_authority),
        job.stage is Register ==> (job.next(server).registered_reconnect <==> job.action(server)
            is RegisterDisconnection),
        !(job.stage is Register) ==> job.next(server).registered_reconnect
            == job.registered_reconnect,
{
}

/// Every request about a room names the room the player was seated in: the one
/// the unregistration began with or, if the drain begins after the player left,
/// the one it is seated in by then. An ordinary departure and a silent removal
/// exclude each other.
pub proof fn law_departures_name_the_seated_room(
    job: Unregistration,
    server: ServerView,
    room: RoomId,
)
    ensures
        job.action(server) == (UnregisterAction::FetchRoomSnapshot { room }) <==> job.stage
            is Snapshot && job.room == Some(room),
        job.action(server) == (UnregisterAction::LeaveRoom { room }) <==> job.stage is Teardown
            && server.drain_deadline_ms == 0 && job.room == Some(room),
        job.action(server) == (UnregisterAction::RemoveForDrain { room }) <==> (job.stage
            is Teardown && server.drain_deadline_ms != 0 && job.room == Some(room)) || (job.stage
            is UnrouteForDrain && server.manager.clients.contains_key(job.player)
            && server.manager.clients[job.player].room_id == Some(room)),
{
}

/// Spectator state is detached once, before the disconnection is offered; a
/// token issued in advance is discarded exactly if the player had no room or the
/// server drains; an offer is withdrawn exactly if there is one and the drain
/// has begun; and the end reports the close reason of the removed entry.
pub proof fn law_what_was_offered_is_withdrawn_for_the_drain(
    job: Unregistration,
    server: ServerView,
)
    ensures
        job.action(server) is DetachSpectator <==> job.stage is Detach,
        job.action(server) is DiscardPreIssuedToken <==> job.stage is Register && (job.room is None
            || server.drain_deadline_ms != 0),
        job.action(server) is DiscardPendingReconnection <==> job.registered_reconnect
            && server.drain_deadline_ms != 0 && (job.stage is AfterLeave || job.stage is Settle || (
        job.stage is Remove && server.manager.clients.contains_key(job.player)
            && server.manager.clients[job.player].room_id is None)),
        job.action(server) is Finish <==> job.stage is Finished,
        job.action(server) matches UnregisterAction::Finish { removed } ==> removed == job.removed,
{
}

/// An unregistration stays about the same player, room, and snapshot, and
/// reports a removal exactly for the step that took the player's entry, which is
/// never a seated one. The reason says whether the drain had begun.
pub proof fn law_removals_are_reported_once(job: Unregistration, server: ServerView)
    ensures
        job.next(server).player == job.player,
        job.next(server).room == job.room,
        job.next(server).snapshot == job.snapshot,
        ({
            let taken = server.manager.clients.contains_key(job.player) && !job.server_after(
                server,
            ).manager.clients.contains_key(job.player);
            &&& taken <==> job.stage is Remove && server.manager.clients.contains_key(job.player)
                && server.manager.clients[job.player].room_id is None
            &&& taken ==> job.next(server).removed == Some(
                if server.drain_deadline_ms != 0 {
                    CloseReason::Shutdown
                } else {
                    CloseReason::Unregistered
                },
            )
            &&& !taken ==> job.next(server).removed == job.removed
        }),
{
}

/// No step touches another player, another table, or the player's own entry
/// otherwise than by asking it to close for the shutdown or by taking it.
pub proof fn law_unregistration_touches_only_its_player(
    job: Unregistration,
    server: ServerView,
    other: PlayerId,
    room: RoomId,
)
    requires
        server.routing.wf(),
        other != job.player,
    ensures
        ({
            let after = job.server_after(server);
            &&& after.manager.clients.contains_key(other) == server.manager.clients.contains_key(
                other,
            )
            &&& server.manager.clients.contains_key(other) ==> after.manager.clients[other]
                == server.manager.clients[other]
            &&& after.manager.limits == server.manager.limits
            &&& after.manager.next_lifecycle == server.manager.next_lifecycle
            &&& after.routing.clients.contains_key(other) == server.routing.clients.contains_key(
                other,
            )
            &&& after.routing.routes(other, room) == server.routing.routes(other, room)
            &&& after.applications == server.applications
            &&& after.detaches == server.detaches
            &&& after.relay == server.relay
            &&& after.config == server.config
            &&& after.drain_deadline_ms == server.drain_deadline_ms
            &&& after.manager.clients.contains_key(job.player) ==> after.manager.clients[job.player]
                == (crate::connection::ConnectionView {
                close: after.manager.clients[job.player].close,
                ..server.manager.clients[job.player]
            })
            &&& after.manager.clients.contains_key(job.player) && server.drain_deadline_ms == 0
                ==> after.manager.clients[job.player].close
                == server.manager.clients[job.player].close
        }),
{
    crate::routing::law_other_players_keep_their_routing(
        server.routing,
        job.player,
        None,
        crate::connection::ClientDeliveryHandle {
            sender: crate::connection::DeliverySender { channel: 0, generation: 0 },
            lifecycle: 0,
        },
        other,
        room,
    );
}

/// Left to itself on a server that does not drain, an unregistration reads the
/// room, detaches the spectator, makes its offer, leaves the room, stops the
/// routing, and then takes the entry, in this order.
pub proof fn law_unregistration_takes_its_steps_in_order(server: ServerView, job: Unregistration)
    requires
        job.stage is Snapshot,
        server.drain_deadline_ms == 0,
    ensures
        ({
            let at = |count: nat| after_steps(server, job, count);
            let asks = |count: nat| at(count).1.action(at(count).0);
            &&& job.room matches Some(room) ==> asks(0) == (UnregisterAction::FetchRoomSnapshot {
                room,
            }) && asks(3) == (UnregisterAction::LeaveRoom { room })
            &&& job.room is None ==> asks(0) is Continue && asks(3) is Continue && asks(2)
                is DiscardPreIssuedToken
            &&& asks(1) is DetachSpectator
            &&& job.room is Some && job.snapshot is Some ==> asks(2) == (
            UnregisterAction::RegisterDisconnection {
                room: job.room->0,
                was_authority: job.snapshot->0,
            })
            &&& job.room is Some && job.snapshot is None ==> asks(2) is Continue
            &&& asks(4) is Continue && asks(5) is Continue && asks(6) is Continue
            &&& at(4).0 == server
            &&& !at(5).0.routing.clients.contains_key(job.player)
            &&& at(6).0 == at(5).0
            &&& asks(7) is Finish
        }),
{
    reveal_with_fuel(after_steps, 9);
}

/// Once the drain has begun, an unregistration discards the token, removes the
/// player from its room without telling anybody, and takes the entry, in this
/// order, with the shutdown pinned from its first decision on.
pub proof fn law_draining_unregistration_takes_its_steps_in_order(
    server: ServerView,
    job: Unregistration,
)
    requires
        job.stage is Snapshot,
        server.drain_deadline_ms != 0,
        !job.registered_reconnect,
    ensures
        ({
            let at = |count: nat| after_steps(server, job, count);
            let asks = |count: nat| at(count).1.action(at(count).0);
            &&& asks(1) is DetachSpectator
            &&& asks(2) is DiscardPreIssuedToken
            &&& server.manager.clients.contains_key(job.player) ==> at(
                3,
            ).0.manager.clients[job.player].close == Some(CloseReason::Shutdown)
            &&& job.room matches Some(room) ==> asks(3) == (UnregisterAction::RemoveForDrain {
                room,
            })
            &&& job.room is None ==> asks(3) is Continue
            &&& !at(4).0.routing.clients.contains_key(job.player)
            &&& asks(4) is Continue && asks(5) is Continue
            &&& asks(6) is Finish
        }),
{
    reveal_with_fuel(after_steps, 9);
}

/// A connection is taken out only after it was settled, whenever the drain
/// begins: the last step before the removal is the settling one, and a drain
/// that begins while the player leaves takes it off the routing in between.
pub proof fn law_removals_are_settled_first(job: Unregistration, server: ServerView)
    ensures
        job.next(server).stage is Remove <==> job.stage is Settle,
        job.next(server).stage is Finished <==> job.stage is Remove || job.stage is Finished,
        job.stage is AfterLeave && server.drain_deadline_ms != 0 ==> {
            let unrouting = job.next(server);
            &&& server.manager.room_of(job.player) matches Some(room) ==> unrouting.action(server)
                == (UnregisterAction::RemoveForDrain { room })
            &&& !unrouting.server_after(server).routing.clients.contains_key(job.player)
            &&& unrouting.next(server).stage is Settle
        },
        job.stage is AfterLeave && server.drain_deadline_ms == 0 ==> {
            &&& !job.server_after(server).routing.clients.contains_key(job.player)
            &&& job.next(server).stage is Settle
        },
{
}

} // verus!
