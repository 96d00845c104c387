//! Connected players whose room is gone from storage.
//!
//! Room collection deletes occupied rooms on purpose, and routing and seats are
//! process-local, so a deletion is followed by an explicit terminal transition
//! of everybody who sat there.

use vstd::prelude::*;
use vstd::string::*;

use crate::close::CloseReason;
use crate::connection::LifecycleId;
use crate::identifiers::contains_id;
use crate::maintenance::RoomRead;
use crate::protocol::{PlayerId, RoomId};
use crate::server::{EnhancedGameServer, ServerView};

verus! {

/// The text a player is told before its connection closes with its room.
pub open spec fn room_farewell_text() -> Seq<char> {
    "Room closed after exceeding the inactivity timeout"@
}

/// The text a player is told before its connection closes with its room. It
/// goes out as a missing-room error.
pub fn room_farewell() -> (text: String)
    ensures
        text@ == room_farewell_text(),
{
    "Room closed after exceeding the inactivity timeout".to_owned()
}

/// How far the cleanup of one player has come.
#[derive(Clone, Copy, Debug, PartialEq, Eq, Structural)]
pub enum MissingRoomStage {
    /// The candidate is about to be checked again.
    Check,
    /// Storage was asked again.
    Read,
    /// The farewell was tried.
    AfterFarewell,
    /// The pre-issued token was discarded.
    DiscardOffer,
    /// No reconnection is on offer any more.
    Unregister,
    Finished,
}

/// The cleanup of one player.
#[derive(Clone, Copy, Debug)]
pub struct MissingRoomCleanup {
    pub player: PlayerId,
    pub room: RoomId,
    pub lifecycle: LifecycleId,
    /// What storage says of the room, asked again.
    pub read: RoomRead,
    /// Whether this cleanup owns the connection's close.
    pub pinned: bool,
    pub stage: MissingRoomStage,
}

/// What the caller does next.
#[derive(Clone, Copy, Debug, PartialEq, Eq, Structural)]
pub enum MissingRoomAction {
    /// Ask storage for the room, and record the answer.
    ReadRoom { room: RoomId },
    /// Try the farewell; whether it is wanted is asked right before it is
    /// enqueued.
    SendFarewell,
    DiscardPreIssuedToken,
    DiscardPendingReconnection,
    Unregister,
    Done { cleaned: bool },
}

impl MissingRoomCleanup {
    /// Whether the player is still the one that was found, in the room it was
    /// found in.
    pub open spec fn current(self, server: ServerView) -> bool {
        server.holds_lifecycle(self.player, self.lifecycle) && server.manager.room_of(self.player)
            == Some(self.room)
    }

    /// Whether the farewell is wanted: this cleanup owns the close already, or
    /// pins it now.
    pub open spec fn wants_farewell(self, server: ServerView) -> bool {
        self.pinned || !server.draining() && server.manager.room_of(self.player) == Some(self.room)
            && server.manager.clients[self.player].close is None
    }

    /// The server after it was asked whether the farewell is wanted.
    pub open spec fn server_after_gate(self, server: ServerView) -> ServerView {
        if !self.pinned && !server.draining() && server.manager.room_of(self.player) == Some(
            self.room,
        ) {
            server.closing(self.player, CloseReason::RoomInactive)
        } else {
            server
        }
    }

    /// What the next step asks the caller for.
    pub open spec fn action(self, server: ServerView) -> MissingRoomAction {
        match self.stage {
            MissingRoomStage::Check => if self.current(server) {
                MissingRoomAction::ReadRoom { room: self.room }
            } else {
                MissingRoomAction::Done { cleaned: false }
            },
            MissingRoomStage::Read => if self.read is Missing {
                MissingRoomAction::SendFarewell
            } else {
                MissingRoomAction::Done { cleaned: false }
            },
            MissingRoomStage::AfterFarewell => if server.draining() {
                MissingRoomAction::Done { cleaned: false }
            } else {
                MissingRoomAction::DiscardPreIssuedToken
            },
            MissingRoomStage::DiscardOffer => MissingRoomAction::DiscardPendingReconnection,
            MissingRoomStage::Unregister => MissingRoomAction::Unregister,
            MissingRoomStage::Finished => MissingRoomAction::Done {
                cleaned: !server.manager.clients.contains_key(self.player),
            },
        }
    }

    /// The cleanup after the next step.
    pub open spec fn next(self, server: ServerView) -> MissingRoomCleanup {
        match self.stage {
            MissingRoomStage::Check => MissingRoomCleanup { stage: MissingRoomStage::Read, ..self },
            MissingRoomStage::Read => MissingRoomCleanup {
                stage: MissingRoomStage::AfterFarewell,
                ..self
            },
            MissingRoomStage::AfterFarewell => MissingRoomCleanup {
                stage: MissingRoomStage::DiscardOffer,
                pinned: self.pinned || !server.draining() && server.manager.clients.contains_key(
                    self.player,
                ) && server.manager.clients[self.player].close is None,
                ..self
            },
            MissingRoomStage::DiscardOffer => MissingRoomCleanup {
                stage: MissingRoomStage::Unregister,
                ..self
            },
            MissingRoomStage::Unregister | MissingRoomStage::Finished => MissingRoomCleanup {
                stage: MissingRoomStage::Finished,
                ..self
            },
        }
    }

    /// The server after the next step. A drain takes the close over; otherwise
    /// the close is pinned even where the farewell found no route.
    pub open spec fn server_after(self, server: ServerView) -> ServerView {
        if self.stage is AfterFarewell {
            if server.draining() {
                server.closing(self.player, CloseReason::Shutdown)
            } else if !self.pinned {
                server.closing(self.player, CloseReason::RoomInactive)
            } else {
                server
            }
        } else {
            server
        }
    }
}

/// Whether somebody is seated in `room`.
pub open spec fn occupied(server: ServerView, room: RoomId) -> bool {
    exists|player: PlayerId| #[trigger] server.manager.room_of(player) == Some(room)
}

/// The players that are seated in `room`.
pub open spec fn seated_in(server: ServerView, room: RoomId) -> Set<PlayerId> {
    server.manager.clients.dom().filter(
        |player: PlayerId| server.manager.room_of(player) == Some(room),
    )
}

/// Whether `room` is one of the rooms of `candidates`.
pub open spec fn lists_room(candidates: Seq<(RoomId, Vec<PlayerId>)>, room: RoomId) -> bool {
    exists|i: int| 0 <= i < candidates.len() && (#[trigger] candidates[i]).0 == room
}

/// Whether `candidates` lists every room somebody sits in once, and no other
/// one, with everybody who sits there.
pub open spec fn seats_by_room(
    server: ServerView,
    candidates: Seq<(RoomId, Vec<PlayerId>)>,
) -> bool {
    &&& forall|i: int, j: int|
        #![trigger candidates[i], candidates[j]]
        0 <= i < j < candidates.len() ==> candidates[i].0 != candidates[j].0
    &&& forall|i: int|
        0 <= i < candidates.len() ==> (#[trigger] candidates[i]).1@.no_duplicates()
            && candidates[i].1@.to_set() == seated_in(server, candidates[i].0) && occupied(
            server,
            candidates[i].0,
        )
    &&& forall|room: RoomId| occupied(server, room) ==> lists_room(candidates, room)
}

impl EnhancedGameServer {
    /// The players of `ids` that are seated in `room_id`.
    fn members_among(&self, ids: &Vec<PlayerId>, room_id: RoomId) -> (players: Vec<PlayerId>)
        requires
            ids@.no_duplicates(),
            ids@.to_set() == self@.manager.clients.dom(),
        ensures
            players@.no_duplicates(),
            players@.to_set() == seated_in(self@, room_id),
    {
        let mut players: Vec<PlayerId> = Vec::new();
        let mut index: usize = 0;
        while index < ids.len()
            invariant
                index <= ids.len(),
                ids@.no_duplicates(),
                ids@.to_set() == self@.manager.clients.dom(),
                players@.no_duplicates(),
                forall|player: PlayerId| #[trigger]
                    players@.contains(player) <==> ids@.take(index as int).contains(player)
                        && self@.manager.room_of(player) == Some(room_id),
            decreases ids.len() - index,
        {
            let player = ids[index];
            proof {
                crate::identifiers::lemma_take_next(ids@, index as int);
                if ids@.take(index as int).contains(player) {
                    let at = choose|i: int|
                        0 <= i < index && #[trigger] ids@.take(index as int)[i] == player;
                    assert(ids@[at] == ids@[index as int]);
                }
            }
            if self.connection_manager.get_client_room(player) == Some(room_id) {
                proof {
                    crate::identifiers::lemma_push_contains(players@, player);
                }
                players.push(player);
            }
            index += 1;
        }
        proof {
            assert(ids@.take(index as int) =~= ids@);
            assert forall|player: PlayerId|
                players@.to_set().contains(player) <==> seated_in(self@, room_id).contains(
                    player,
                ) by {
                assert(players@.contains(player) <==> ids@.contains(player)
                    && self@.manager.room_of(player) == Some(room_id));
                assert(ids@.to_set().contains(player) == self@.manager.clients.contains_key(
                    player,
                ));
            }
            assert(players@.to_set() =~= seated_in(self@, room_id));
        }
        players
    }

    /// The rooms somebody of `ids` is seated in, each once.
    fn rooms_among(&self, ids: &Vec<PlayerId>) -> (rooms: Vec<RoomId>)
        requires
            ids@.to_set() == self@.manager.clients.dom(),
        ensures
            rooms@.no_duplicates(),
            forall|room: RoomId| #[trigger]
                rooms@.contains(room) <==> occupied(self@, room),
    {
        let mut rooms: Vec<RoomId> = Vec::new();
        let mut index: usize = 0;
        while index < ids.len()
            invariant
                index <= ids.len(),
                ids@.to_set() == self@.manager.clients.dom(),
                rooms@.no_duplicates(),
                forall|room: RoomId| #[trigger]
                    rooms@.contains(room) ==> occupied(self@, room),
                forall|i: int|
                    0 <= i < index ==> match self@.manager.room_of(#[trigger] ids@[i]) {
                        Some(room) => rooms@.contains(room),
                        None => true,
                    },
            decreases ids.len() - index,
        {
            if let Some(room) = self.connection_manager.get_client_room(ids[index]) {
                if !contains_id(&rooms, room) {
                    proof {
                        crate::identifiers::lemma_push_contains(rooms@, room);
                        assert(self@.manager.room_of(ids@[index as int]) == Some(room));
                    }
                    rooms.push(room);
                }
            }
            index += 1;
        }
        proof {
            assert forall|room: RoomId| #[trigger]
                rooms@.contains(room) <==> occupied(self@, room) by {
                if occupied(self@, room) {
                    let player = choose|player: PlayerId| #[trigger]
                        self@.manager.room_of(player) == Some(room);
                    assert(ids@.to_set().contains(player));
                    assert(ids@.contains(player));
                    let at = choose|i: int| 0 <= i < ids@.len() && ids@[i] == player;
                    assert(self@.manager.room_of(ids@[at]) == Some(room));
                }
            }
        }
        rooms
    }

    /// The seated players by room: every room somebody sits in once, with
    /// everybody who sits there. Storage is asked once per room.
    pub fn missing_room_candidates(&self) -> (candidates: Vec<(RoomId, Vec<PlayerId>)>)
        ensures
            seats_by_room(self@, candidates@),
    {
        let ids = self.connection_manager.client_ids();
        let rooms = self.rooms_among(&ids);
        let mut candidates: Vec<(RoomId, Vec<PlayerId>)> = Vec::new();
        let mut index: usize = 0;
        while index < rooms.len()
            invariant
                index <= rooms.len(),
                ids@.no_duplicates(),
                ids@.to_set() == self@.manager.clients.dom(),
                candidates@.len() == index,
                forall|i: int|
                    0 <= i < index ==> (#[trigger] candidates@[i]).0 == rooms@[i]
                        && candidates@[i].1@.no_duplicates() && candidates@[i].1@.to_set()
                        == seated_in(self@, rooms@[i]),
            decreases rooms.len() - index,
        {
            let room = rooms[index];
            let players = self.members_among(&ids, room);
            candidates.push((room, players));
            index += 1;
        }
        proof {
            assert forall|room: RoomId| occupied(self@, room) implies lists_room(
                candidates@,
                room,
            ) by {
                assert(rooms@.contains(room));
                let at = choose|i: int| 0 <= i < rooms@.len() && rooms@[i] == room;
                assert(candidates@[at].0 == room);
            }
            assert forall|i: int| 0 <= i < candidates@.len() implies occupied(
                self@,
                (#[trigger] candidates@[i]).0,
            ) by {
                assert(rooms@.contains(rooms@[i]));
            }
        }
        candidates
    }

    /// Begins the cleanup of `player_id`, found in `room_id`. None if it is not
    /// connected any more.
    pub fn begin_missing_room_cleanup(&self, player_id: PlayerId, room_id: RoomId) -> (job: Option<
        MissingRoomCleanup,
    >)
        ensures
            job == (if self@.manager.clients.contains_key(player_id) {
                Some(
                    MissingRoomCleanup {
                        player: player_id,
                        room: room_id,
                        lifecycle: self@.manager.clients[player_id].lifecycle,
                        read: RoomRead::Unreadable,
                        pinned: false,
                        stage: MissingRoomStage::Check,
                    },
                )
            } else {
                None
            }),
    {
        match self.connection_manager.client_lifecycle(player_id) {
            None => None,
            Some(lifecycle) => Some(
                MissingRoomCleanup {
                    player: player_id,
                    room: room_id,
                    lifecycle,
                    read: RoomRead::Unreadable,
                    pinned: false,
                    stage: MissingRoomStage::Check,
                },
            ),
        }
    }

    /// Whether the farewell is still wanted, asked right before it is enqueued.
    /// The close is pinned first, so that the farewell never goes to a
    /// connection that stays.
    pub fn room_farewell_wanted(&mut self, job: &mut MissingRoomCleanup) -> (wanted: bool)
        requires
            old(self).wf(),
        ensures
            final(self).wf(),
            wanted == old(job).wants_farewell(old(self)@),
            *final(job) == (MissingRoomCleanup { pinned: wanted, ..*old(job) }),
            final(self)@ == old(job).server_after_gate(old(self)@),
    {
        if job.pinned {
            return true;
        }
        let seated = self.connection_manager.get_client_room(job.player) == Some(job.room);
        let pinned = if !self.is_draining() && seated {
            self.connection_manager.request_close_for(job.player, CloseReason::RoomInactive)
        } else {
            false
        };
        job.pinned = pinned;
        pinned
    }

    /// Takes the next step of a cleanup, under the connection's lifecycle
    /// guard. Before the step after `ReadRoom` the caller records in `job.read`
    /// what storage said.
    pub fn cleanup_client_in_missing_room(&mut self, job: &mut MissingRoomCleanup) -> (action:
        MissingRoomAction)
        requires
            old(self).wf(),
        ensures
            final(self).wf(),
            action == old(job).action(old(self)@),
            *final(job) == old(job).next(old(self)@),
            final(self)@ == old(job).server_after(old(self)@),
    {
        match job.stage {
            MissingRoomStage::Check => {
                job.stage = MissingRoomStage::Read;
                let seated = self.connection_manager.get_client_room(job.player) == Some(job.room);
                if self.connection_manager.lifecycle_matches(job.player, job.lifecycle) && seated {
                    MissingRoomAction::ReadRoom { room: job.room }
                } else {
                    MissingRoomAction::Done { cleaned: false }
                }
            },
            MissingRoomStage::Read => {
                job.stage = MissingRoomStage::AfterFarewell;
                match job.read {
                    RoomRead::Missing => MissingRoomAction::SendFarewell,
                    RoomRead::Present | RoomRead::Unreadable => MissingRoomAction::Done {
                        cleaned: false,
                    },
                }
            },
            MissingRoomStage::AfterFarewell => {
                job.stage = MissingRoomStage::DiscardOffer;
                if self.is_draining() {
                    let _ = self.connection_manager.request_close_for(
                        job.player,
                        CloseReason::Shutdown,
                    );
                    return MissingRoomAction::Done { cleaned: false };
                }
                if !job.pinned {
                    job.pinned = self.connection_manager.request_close_for(
                        job.player,
                        CloseReason::RoomInactive,
                    );
                }
                MissingRoomAction::DiscardPreIssuedToken
            },
            MissingRoomStage::DiscardOffer => {
                job.stage = MissingRoomStage::Unregister;
                MissingRoomAction::DiscardPendingReconnection
            },
            MissingRoomStage::Unregister => {
                job.stage = MissingRoomStage::Finished;
                MissingRoomAction::Unregister
            },
            MissingRoomStage::Finished => MissingRoomAction::Done {
                cleaned: !self.connection_manager.has_client(job.player),
            },
        }
    }
}

/// A sweep over everybody who is seated somewhere.
#[derive(Debug)]
pub struct MissingRoomSweep {
    /// The seated players by room, as they were when the sweep began.
    pub candidates: Vec<(RoomId, Vec<PlayerId>)>,
    /// The room that is being seen to.
    pub group: usize,
    /// What storage says of it, once it was asked.
    pub read: Option<RoomRead>,
    /// The player in it that is next.
    pub member: usize,
}

/// What the caller does next about a sweep.
#[derive(Clone, Copy, Debug, PartialEq, Eq, Structural)]
pub enum MissingRoomSweepStep {
    /// Ask storage for the room, and record the answer.
    ReadRoom { room: RoomId },
    /// Nothing: take the next step.
    Continue,
    /// Clean this player up.
    Cleanup { player: PlayerId, room: RoomId },
    Done,
}

impl MissingRoomSweep {
    /// Whether the sweep is still to see somebody of the current room, which
    /// storage does not have.
    pub open spec fn has_member(&self) -> bool {
        self.group < self.candidates@.len() && self.read == Some(RoomRead::Missing) && self.member
            < self.candidates@[self.group as int].1@.len()
    }

    /// The next step of the sweep: nobody is cleaned up once the server drains.
    pub open spec fn step(&self, server: ServerView) -> MissingRoomSweepStep {
        if self.group >= self.candidates@.len() {
            MissingRoomSweepStep::Done
        } else if self.read is None {
            MissingRoomSweepStep::ReadRoom { room: self.candidates@[self.group as int].0 }
        } else if !self.has_member() {
            MissingRoomSweepStep::Continue
        } else if server.draining() {
            MissingRoomSweepStep::Done
        } else {
            MissingRoomSweepStep::Cleanup {
                player: self.candidates@[self.group as int].1@[self.member as int],
                room: self.candidates@[self.group as int].0,
            }
        }
    }

    /// The sweep after the next step.
    pub open spec fn next(&self, server: ServerView) -> MissingRoomSweep {
        match self.step(server) {
            MissingRoomSweepStep::Cleanup { .. } => MissingRoomSweep {
                member: (self.member + 1) as usize,
                ..*self
            },
            MissingRoomSweepStep::Continue => MissingRoomSweep {
                group: (self.group + 1) as usize,
                read: None,
                member: 0,
                ..*self
            },
            _ => *self,
        }
    }
}

impl EnhancedGameServer {
    /// Begins a sweep.
    pub fn begin_missing_room_sweep(&self) -> (sweep: MissingRoomSweep)
        ensures
            sweep.group == 0,
            sweep.read is None,
            sweep.member == 0,
            seats_by_room(self@, sweep.candidates@),
    {
        MissingRoomSweep {
            candidates: self.missing_room_candidates(),
            group: 0,
            read: None,
            member: 0,
        }
    }

    /// Takes the next step of a sweep. Before the step after `ReadRoom` the
    /// caller records in `sweep.read` what storage said.
    pub fn cleanup_clients_in_missing_rooms(&self, sweep: &mut MissingRoomSweep) -> (step:
        MissingRoomSweepStep)
        ensures
            step == old(sweep).step(self@),
            *final(sweep) == old(sweep).next(self@),
    {
        if sweep.group >= sweep.candidates.len() {
            return MissingRoomSweepStep::Done;
        }
        let room = sweep.candidates[sweep.group].0;
        let members = sweep.candidates[sweep.group].1.len();
        match sweep.read {
            None => MissingRoomSweepStep::ReadRoom { room },
            Some(read) => {
                if read != RoomRead::Missing || sweep.member >= members {
                    sweep.group = sweep.group + 1;
                    sweep.read = None;
                    sweep.member = 0;
                    MissingRoomSweepStep::Continue
                } else if self.is_draining() {
                    MissingRoomSweepStep::Done
                } else {
                    let player = sweep.candidates[sweep.group].1[sweep.member];
                    sweep.member = sweep.member + 1;
                    MissingRoomSweepStep::Cleanup { player, room }
                }
            },
        }
    }
}

/// A sweep touches only players of rooms that storage does not have, and nobody
/// once the server drains.
pub proof fn law_sweeps_touch_only_missing_rooms(sweep: MissingRoomSweep, server: ServerView)
    requires
        sweep.step(server) is Cleanup,
    ensures
        sweep.read == Some(RoomRead::Missing),
        !server.draining(),
{
}

/// A candidate that moved on, or whose room storage still has or cannot be
/// asked for, is left exactly as it was.
pub proof fn law_stale_candidates_are_left_alone(job: MissingRoomCleanup, server: ServerView)
    requires
        job.stage is Check && !job.current(server) || job.stage is Read && !(job.read is Missing),
    ensures
        job.action(server) == (MissingRoomAction::Done { cleaned: false }),
        job.server_after(server) == server,
{
}

/// The farewell goes only to a connection that is pinned to close, and a
/// connection this cleanup pinned closes for its room.
pub proof fn law_room_farewells_follow_the_pin(job: MissingRoomCleanup, server: ServerView)
    requires
        job.wants_farewell(server),
        !job.pinned,
    ensures
        server.manager.clients.contains_key(job.player),
        job.server_after_gate(server).manager.clients[job.player].close == Some(
            CloseReason::RoomInactive,
        ),
{
}

/// Past the farewell the connection closes in any case: for the shutdown if the
/// server drains by then, else for its room unless it was closing already.
pub proof fn law_missing_rooms_close_their_connections(job: MissingRoomCleanup, server: ServerView)
    requires
        job.stage is AfterFarewell,
        server.manager.clients.contains_key(job.player),
        job.pinned ==> server.manager.clients[job.player].close is Some,
    ensures
        ({
            let before = server.manager.clients[job.player].close;
            let after = job.server_after(server).manager.clients[job.player].close;
            &&& after is Some
            &&& server.draining() ==> after == Some(CloseReason::Shutdown)
            &&& !server.draining() && before is None ==> after == Some(CloseReason::RoomInactive)
            &&& !server.draining() && before is Some ==> after == before
        }),
{
}

/// The cleanup of a player reads its room again exactly while it is still the one
/// that was found there, says farewell exactly if storage has no such room,
/// withdraws what was offered, and unregisters it, in this order; it counts as
/// cleaned exactly if the player's entry is gone.
pub proof fn law_missing_room_cleanups_ask_in_order(job: MissingRoomCleanup, server: ServerView)
    ensures
        ({
            let found = server.manager.clients.contains_key(job.player)
                && server.manager.clients[job.player].lifecycle == job.lifecycle
                && server.manager.clients[job.player].room_id == Some(job.room);
            let action = job.action(server);
            &&& action is ReadRoom <==> job.stage is Check && found
            &&& action matches MissingRoomAction::ReadRoom { room } ==> room == job.room
            &&& action is SendFarewell <==> job.stage is Read && job.read == RoomRead::Missing
            &&& action is DiscardPreIssuedToken <==> job.stage is AfterFarewell
                && server.drain_deadline_ms == 0
            &&& action is DiscardPendingReconnection <==> job.stage is DiscardOffer
            &&& action is Unregister <==> job.stage is Unregister
            &&& action == (MissingRoomAction::Done { cleaned: true }) <==> job.stage is Finished
                && !server.manager.clients.contains_key(job.player)
            &&& action == (MissingRoomAction::Done { cleaned: false }) <==> (job.stage is Check
                && !found) || (job.stage is Read && job.read != RoomRead::Missing) || (job.stage
                is AfterFarewell && server.drain_deadline_ms != 0) || (job.stage is Finished
                && server.manager.clients.contains_key(job.player))
        }),
{
}

/// A cleanup stays about the same player, room, and connection, and moves on by
/// one stage; it owns the close exactly if it did before or takes it over past
/// the farewell from a connection that was not closing.
pub proof fn law_missing_room_cleanups_move_on(job: MissingRoomCleanup, server: ServerView)
    ensures
        ({
            let next = job.next(server);
            &&& next.player == job.player
            &&& next.room == job.room
            &&& next.lifecycle == job.lifecycle
            &&& next.read == job.read
            &&& job.stage is Check <==> next.stage is Read
            &&& job.stage is Read <==> next.stage is AfterFarewell
            &&& job.stage is AfterFarewell <==> next.stage is DiscardOffer
            &&& job.stage is DiscardOffer <==> next.stage is Unregister
            &&& job.stage is Unregister || job.stage is Finished <==> next.stage is Finished
            &&& next.pinned <==> job.pinned || (job.stage is AfterFarewell
                && server.drain_deadline_ms == 0 && server.manager.clients.contains_key(job.player)
                && server.manager.clients[job.player].close is None)
        }),
{
}

/// The farewell is wanted exactly if the cleanup owns the close or can take it
/// over: the server does not drain, the player still sits in the room, and its
/// connection is not closing. Asking pins the close of exactly that player.
pub proof fn law_room_farewells_are_wanted_by_the_owner(
    job: MissingRoomCleanup,
    server: ServerView,
    other: PlayerId,
)
    requires
        other != job.player,
    ensures
        ({
            let client = server.manager.clients[job.player];
            let sits = server.drain_deadline_ms == 0 && server.manager.clients.contains_key(
                job.player,
            ) && client.room_id == Some(job.room);
            let gated = job.server_after_gate(server);
            let after = job.server_after(server);
            &&& job.wants_farewell(server) <==> job.pinned || (sits && client.close is None)
            &&& job.pinned || !sits ==> gated == server
            &&& !job.pinned && sits ==> gated.manager.clients[job.player].close == (if client.close
                is None {
                Some(CloseReason::RoomInactive)
            } else {
                client.close
            })
            &&& server.manager.clients.contains_key(other) ==> gated.manager.clients[other]
                == server.manager.clients[other] && after.manager.clients[other]
                == server.manager.clients[other]
            &&& gated.routing == server.routing && after.routing == server.routing
            &&& !(job.stage is AfterFarewell) ==> after == server
        }),
{
}

/// A sweep asks storage for the rooms it found somebody in, one after the other,
/// and cleans up everybody who sat in one that storage does not have, one after
/// the other, until the server drains.
pub proof fn law_sweeps_see_to_everybody_in_turn(sweep: MissingRoomSweep, server: ServerView)
    requires
        sweep.candidates@.len() < usize::MAX,
        sweep.group < sweep.candidates@.len() ==> sweep.candidates@[sweep.group as int].1@.len()
            < usize::MAX,
    ensures
        ({
            let step = sweep.step(server);
            let next = sweep.next(server);
            let open = sweep.group < sweep.candidates@.len();
            let room = sweep.candidates@[sweep.group as int].0;
            let players = sweep.candidates@[sweep.group as int].1@;
            let due = open && sweep.read == Some(RoomRead::Missing) && sweep.member < players.len();
            &&& next.candidates == sweep.candidates
            &&& step is ReadRoom <==> open && sweep.read is None
            &&& step matches MissingRoomSweepStep::ReadRoom { room: asked } ==> asked == room
            &&& step is Cleanup <==> due && server.drain_deadline_ms == 0
            &&& step matches MissingRoomSweepStep::Cleanup { player, room: found } ==> player
                == players[sweep.member as int] && found == room && next.member == sweep.member + 1
                && next.group == sweep.group && next.read == sweep.read
            &&& step is Continue <==> open && sweep.read is Some && !due
            &&& step is Continue ==> next.group == sweep.group + 1 && next.member == 0 && next.read
                is None
            &&& step is Done <==> !open || (due && server.drain_deadline_ms != 0)
            &&& step is ReadRoom || step is Done ==> next == sweep
        }),
{
}

/// The players found in a room are exactly those whose entries sit in it.
pub proof fn law_everybody_who_sits_in_a_room_is_found(
    server: ServerView,
    candidates: Seq<(RoomId, Vec<PlayerId>)>,
    player: PlayerId,
    room: RoomId,
)
    requires
        seats_by_room(server, candidates),
    ensures
        server.manager.clients.contains_key(player) && server.manager.clients[player].room_id
            == Some(room) <==> exists|i: int|
            0 <= i < candidates.len() && (#[trigger] candidates[i]).0 == room
                && candidates[i].1@.contains(player),
{
    if server.manager.clients.contains_key(player) && server.manager.clients[player].room_id
        == Some(room) {
        assert(server.manager.room_of(player) == Some(room));
        assert(lists_room(candidates, room));
        let i = choose|i: int| 0 <= i < candidates.len() && (#[trigger] candidates[i]).0 == room;
        assert(seated_in(server, room).contains(player));
        assert(candidates[i].1@.to_set().contains(player));
    }
    if exists|i: int|
        0 <= i < candidates.len() && (#[trigger] candidates[i]).0 == room
            && candidates[i].1@.contains(player) {
        let i = choose|i: int|
            0 <= i < candidates.len() && (#[trigger] candidates[i]).0 == room
                && candidates[i].1@.contains(player);
        assert(candidates[i].1@.to_set().contains(player));
        assert(seated_in(server, room).contains(player));
    }
}

} // verus!
