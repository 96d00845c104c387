//! Process-local routing: which room every player is routed in, and which
//! delivery handle reaches it.

use std::collections::{HashMap, HashSet};

use vstd::prelude::*;

use crate::config::DEFAULT_SLOW_CONSUMER_TIMEOUT_MS;
use crate::connection::{ClientDeliveryHandle, DeliverySender, Nanos, RelayStamp};
use crate::durations::{from_millis, NANOS_PER_MILLI};
use crate::identifiers::insert_ascending;
use crate::protocol::{PlayerId, RoomId};

verus! {

broadcast use vstd::std_specs::hash::group_hash_axioms;

/// The mathematical view of the routing tables.
#[verifier::ext_equal]
pub ghost struct RoutingView {
    /// Delivery handles by player.
    pub clients: Map<PlayerId, ClientDeliveryHandle>,
    /// Routed players by room.
    pub rooms: Map<RoomId, Set<PlayerId>>,
    /// Rooms whose routing gate is retained.
    pub active_gates: Set<RoomId>,
    /// How long a recipient may stay full before it is disconnected.
    pub slow_consumer_timeout: Nanos,
}

/// Whether some player other than `player` is in `players`.
pub open spec fn outlives(players: Set<PlayerId>, player: PlayerId) -> bool {
    exists|other: PlayerId| other != player && #[trigger] players.contains(other)
}

/// The room table without `player`; rooms that held nobody else are gone.
pub open spec fn rooms_without(
    rooms: Map<RoomId, Set<PlayerId>>,
    player: PlayerId,
) -> Map<RoomId, Set<PlayerId>> {
    Map::new(
        |room: RoomId| rooms.contains_key(room) && outlives(rooms[room], player),
        |room: RoomId| rooms[room].remove(player),
    )
}

/// The room table with `player` routed in `room` and nowhere else.
pub open spec fn rooms_with_only(
    rooms: Map<RoomId, Set<PlayerId>>,
    player: PlayerId,
    room: RoomId,
) -> Map<RoomId, Set<PlayerId>> {
    let cleared = rooms_without(rooms, player);
    cleared.insert(
        room,
        (if cleared.contains_key(room) {
            cleared[room]
        } else {
            Set::empty()
        }).insert(player),
    )
}

/// The room table after `player`'s routing scope is replaced by `room`.
pub open spec fn rescoped(
    rooms: Map<RoomId, Set<PlayerId>>,
    player: PlayerId,
    room: Option<RoomId>,
) -> Map<RoomId, Set<PlayerId>> {
    match room {
        Some(room) => rooms_with_only(rooms, player, room),
        None => rooms_without(rooms, player),
    }
}

impl RoutingView {
    /// Whether `player` is routed in `room`.
    pub open spec fn routes(self, player: PlayerId, room: RoomId) -> bool {
        self.rooms.contains_key(room) && self.rooms[room].contains(player)
    }

    /// The players a frame for `room` reaches.
    pub open spec fn recipients(self, room: RoomId, except: Option<PlayerId>) -> Set<PlayerId> {
        Set::new(
            |player: PlayerId|
                self.routes(player, room) && self.clients.contains_key(player) && except != Some(
                    player,
                ),
        )
    }

    /// The rooms whose routing changes when `player` moves to `target`.
    pub open spec fn affected_rooms(self, player: PlayerId, target: Option<RoomId>) -> Set<RoomId> {
        Set::new(|room: RoomId| self.routes(player, room) || target == Some(room))
    }

    /// The tables after `player` registers `handle` with scope `room`.
    pub open spec fn registered(
        self,
        player: PlayerId,
        room: Option<RoomId>,
        handle: ClientDeliveryHandle,
    ) -> RoutingView {
        RoutingView {
            clients: self.clients.insert(player, handle),
            rooms: rescoped(self.rooms, player, room),
            active_gates: rescoped(self.rooms, player, room).dom(),
            ..self
        }
    }

    /// The tables after `player` is gone.
    pub open spec fn unregistered(self, player: PlayerId) -> RoutingView {
        RoutingView {
            clients: self.clients.remove(player),
            rooms: rooms_without(self.rooms, player),
            active_gates: rooms_without(self.rooms, player).dom(),
            ..self
        }
    }

    /// The tables after the handle of `player` is dropped, if it still feeds
    /// the queue of `sender`.
    pub open spec fn pruned(self, player: PlayerId, sender: DeliverySender) -> RoutingView {
        if self.clients.contains_key(player) && self.clients[player].sender.channel
            == sender.channel {
            RoutingView { clients: self.clients.remove(player), ..self }
        } else {
            self
        }
    }

    /// No room is empty, nobody is routed twice, and a routing gate is
    /// retained exactly for the rooms that have routed players.
    pub open spec fn wf(self) -> bool {
        &&& self.rooms.dom().finite()
        &&& forall|room: RoomId| #[trigger]
            self.rooms.contains_key(room) ==> self.rooms[room].finite() && exists|player: PlayerId|
                self.rooms[room].contains(player)
        &&& forall|player: PlayerId, one: RoomId, other: RoomId|
            #![trigger self.rooms[one].contains(player), self.rooms[other].contains(player)]
            self.routes(player, one) && self.routes(player, other) ==> one == other
        &&& self.active_gates == self.rooms.dom()
    }
}

/// Replacing one player's scope keeps the tables well formed.
pub proof fn lemma_rescoped_keeps_wf(
    view: RoutingView,
    after: RoutingView,
    player: PlayerId,
    room: Option<RoomId>,
)
    requires
        view.wf(),
        after.rooms == rescoped(view.rooms, player, room),
        after.active_gates == after.rooms.dom(),
    ensures
        after.wf(),
{
    let cleared = rooms_without(view.rooms, player);
    assert(cleared.dom().subset_of(view.rooms.dom()));
    vstd::set_lib::lemma_set_subset_finite(view.rooms.dom(), cleared.dom());
    if let Some(room) = room {
        assert(after.rooms.dom() =~= cleared.dom().insert(room));
        assert(after.rooms[room].contains(player));
    } else {
        assert(after.rooms == cleared);
    }
    assert forall|r: RoomId| #[trigger] after.rooms.contains_key(r) implies after.rooms[r].finite()
        && exists|p: PlayerId| after.rooms[r].contains(p) by {
        if room == Some(r) {
            assert(after.rooms[r].contains(player));
            if cleared.contains_key(r) {
                assert(view.rooms.contains_key(r));
            }
        } else {
            assert(cleared.contains_key(r));
            assert(view.rooms.contains_key(r));
            let other = choose|other: PlayerId|
                other != player && #[trigger] view.rooms[r].contains(other);
            assert(after.rooms[r].contains(other));
        }
    }
    assert forall|p: PlayerId, one: RoomId, other: RoomId|
        #![trigger after.rooms[one].contains(p), after.rooms[other].contains(p)]
        after.routes(p, one) && after.routes(p, other) implies one == other by {
        if p != player {
            if cleared.contains_key(one) {
                assert(view.rooms[one].contains(p));
            }
            if cleared.contains_key(other) {
                assert(view.rooms[other].contains(p));
            }
            assert(view.routes(p, one));
            assert(view.routes(p, other));
        } else {
            assert(!cleared.contains_key(one) || !cleared[one].contains(p));
            assert(!cleared.contains_key(other) || !cleared[other].contains(p));
            assert(room == Some(one));
            assert(room == Some(other));
        }
    }
}

/// The rooms of a table, as sets of players.
pub open spec fn room_sets(rooms: Map<RoomId, HashSet<PlayerId>>) -> Map<RoomId, Set<PlayerId>> {
    rooms.map_values(|players: HashSet<PlayerId>| players@)
}

/// The members of a set, in no particular order.
fn members_of(players: &HashSet<PlayerId>) -> (members: Vec<PlayerId>)
    ensures
        members@.no_duplicates(),
        members@.to_set() == players@,
{
    let mut members: Vec<PlayerId> = Vec::new();
    for player in walk: players.iter()
        invariant
            members@ == walk.seq().unref().take(walk.index()),
            walk.seq().unref().to_set() == players@,
            walk.seq().unref().no_duplicates(),
            walk.seq().unref().take(walk.seq().len() as int) == walk.seq().unref(),
        ensures
            members@.no_duplicates(),
            members@.to_set() == players@,
    {
        members.push(*player);
        assert(members@ =~= walk.seq().unref().take(walk.index() + 1));
    }
    members
}

/// The rooms of a table, in no particular order.
fn room_ids_of(rooms: &HashMap<RoomId, HashSet<PlayerId>>) -> (ids: Vec<RoomId>)
    ensures
        ids@.no_duplicates(),
        ids@.to_set() == rooms@.dom(),
{
    let mut ids: Vec<RoomId> = Vec::new();
    for room in walk: rooms.keys()
        invariant
            ids@ == walk.seq().unref().take(walk.index()),
            walk.seq().unref().to_set() == rooms@.dom(),
            walk.seq().unref().no_duplicates(),
            walk.seq().unref().take(walk.seq().len() as int) == walk.seq().unref(),
        ensures
            ids@.no_duplicates(),
            ids@.to_set() == rooms@.dom(),
    {
        ids.push(*room);
        assert(ids@ =~= walk.seq().unref().take(walk.index() + 1));
    }
    ids
}

/// The in-memory routing tables of the message coordinator.
///
/// Delivery contract: a message is never silently dropped. Each delivery is
/// enqueued, or it is accounted for as canceled, unroutable, or lost to a
/// recipient that is disconnected for it.
pub struct InMemoryMessageCoordinator {
    local_clients: HashMap<PlayerId, ClientDeliveryHandle>,
    room_players: HashMap<RoomId, HashSet<PlayerId>>,
    active_room_gates: HashSet<RoomId>,
    slow_consumer_timeout: Nanos,
}

impl View for InMemoryMessageCoordinator {
    type V = RoutingView;

    closed spec fn view(&self) -> RoutingView {
        RoutingView {
            clients: self.local_clients@,
            rooms: room_sets(self.room_players@),
            active_gates: self.active_room_gates@,
            slow_consumer_timeout: self.slow_consumer_timeout,
        }
    }
}

impl InMemoryMessageCoordinator {
    /// Empty tables with the default slow-consumer timeout.
    pub fn new() -> (coordinator: Self)
        ensures
            coordinator@ == (RoutingView {
                clients: Map::empty(),
                rooms: Map::empty(),
                active_gates: Set::empty(),
                slow_consumer_timeout: (DEFAULT_SLOW_CONSUMER_TIMEOUT_MS * NANOS_PER_MILLI) as u128,
            }),
            coordinator@.wf(),
    {
        Self::with_delivery_policy(from_millis(DEFAULT_SLOW_CONSUMER_TIMEOUT_MS))
    }

    /// Empty tables with an explicit slow-consumer timeout.
    pub fn with_delivery_policy(slow_consumer_timeout: Nanos) -> (coordinator: Self)
        ensures
            coordinator@ == (RoutingView {
                clients: Map::empty(),
                rooms: Map::empty(),
                active_gates: Set::empty(),
                slow_consumer_timeout,
            }),
            coordinator@.wf(),
    {
        let coordinator = InMemoryMessageCoordinator {
            local_clients: HashMap::new(),
            room_players: HashMap::new(),
            active_room_gates: HashSet::new(),
            slow_consumer_timeout,
        };
        assert(coordinator@.rooms =~= Map::empty());
        assert(coordinator@.active_gates =~= Set::empty());
        assert(coordinator@.rooms.dom() =~= Set::empty());
        coordinator
    }

    /// How long a recipient may stay full before it is disconnected.
    pub fn slow_consumer_timeout(&self) -> (timeout: Nanos)
        ensures
            timeout == self@.slow_consumer_timeout,
    {
        self.slow_consumer_timeout
    }

    /// The delivery handle of `player`, if it is registered.
    pub fn delivery_handle(&self, player: PlayerId) -> (handle: Option<ClientDeliveryHandle>)
        ensures
            handle == (if self@.clients.contains_key(player) {
                Some(self@.clients[player])
            } else {
                None
            }),
    {
        match self.local_clients.get(&player) {
            Some(handle) => Some(*handle),
            None => None,
        }
    }

    /// Whether `player` is routed in `room`.
    pub fn is_routed(&self, player: PlayerId, room: RoomId) -> (routed: bool)
        ensures
            routed == self@.routes(player, room),
    {
        match self.room_players.get(&room) {
            Some(players) => players.contains(&player),
            None => false,
        }
    }

    /// Whether the routing gate of `room` is kept for it: it has members.
    pub fn keeps_room_gate(&self, room: RoomId) -> (kept: bool)
        ensures
            kept == self@.active_gates.contains(room),
    {
        self.active_room_gates.contains(&room)
    }

    /// Takes `player` out of every room, and empty rooms out of the table.
    fn drop_from_rooms(&mut self, player: PlayerId)
        ensures
            final(self)@ == (RoutingView {
                rooms: rooms_without(old(self)@.rooms, player),
                ..old(self)@
            }),
    {
        let ids = room_ids_of(&self.room_players);
        let ghost before = self.room_players@;
        let ghost mut done: Set<RoomId> = Set::empty();
        let mut index: usize = 0;
        while index < ids.len()
            invariant
                index <= ids.len(),
                before == old(self).room_players@,
                self.local_clients == old(self).local_clients,
                self.active_room_gates == old(self).active_room_gates,
                self.slow_consumer_timeout == old(self).slow_consumer_timeout,
                ids@.no_duplicates(),
                ids@.to_set() == before.dom(),
                done == ids@.take(index as int).to_set(),
                forall|room: RoomId|
                    #![trigger self.room_players@.contains_key(room)]
                    #![trigger self.room_players@[room]]
                    if done.contains(room) {
                        &&& self.room_players@.contains_key(room) <==> before.contains_key(room)
                            && outlives(before[room]@, player)
                        &&& self.room_players@.contains_key(room) ==> self.room_players@[room]@
                            == before[room]@.remove(player)
                    } else {
                        &&& self.room_players@.contains_key(room) <==> before.contains_key(room)
                        &&& self.room_players@.contains_key(room) ==> self.room_players@[room]
                            == before[room]
                    },
            decreases ids.len() - index,
        {
            let room = ids[index];
            assert(ids@.take(index + 1) =~= ids@.take(index as int).push(room));
            proof {
                assert(ids@.to_set().contains(room));
                assert(!done.contains(room)) by {
                    if ids@.take(index as int).contains(room) {
                        let at = choose|i: int| 0 <= i < index && ids@.take(index as int)[i] == room;
                        assert(ids@[at] == ids@[index as int]);
                    }
                }
                ids@.take(index as int).lemma_push_to_set_commute(room);
                done = done.insert(room);
            }
            match self.room_players.remove(&room) {
                Some(mut players) => {
                    let _ = players.remove(&player);
                    if !players.is_empty() {
                        assert(outlives(before[room]@, player)) by {
                            let other = players@.choose();
                            assert(players@.contains(other));
                            assert(before[room]@.contains(other));
                        }
                        let _ = self.room_players.insert(room, players);
                    } else {
                        assert(!outlives(before[room]@, player)) by {
                            assert(players@ =~= Set::empty());
                            if outlives(before[room]@, player) {
                                let other = choose|other: PlayerId|
                                    other != player && #[trigger] before[room]@.contains(other);
                                assert(players@.contains(other));
                            }
                        }
                    }
                },
                None => {},
            }
            index += 1;
        }
        proof {
            assert(ids@.take(index as int) =~= ids@);
            assert(room_sets(self.room_players@) =~= rooms_without(room_sets(before), player));
            assert(self@ =~= (RoutingView {
                rooms: rooms_without(old(self)@.rooms, player),
                ..old(self)@
            }));
        }
    }

    /// The order in which the routing gates of the rooms that `player`'s move
    /// to `target_room` affects are taken: each once, in ascending order.
    pub fn player_routing_lock_order(
        &self,
        player: PlayerId,
        target_room: Option<RoomId>,
    ) -> (order: Vec<RoomId>)
        ensures
            crate::identifiers::ascending(order@),
            order@.to_set() == self@.affected_rooms(player, target_room),
    {
        let ids = room_ids_of(&self.room_players);
        let mut order: Vec<RoomId> = Vec::new();
        let mut index: usize = 0;
        assert(order@.to_set() =~= Set::empty());
        while index < ids.len()
            invariant
                index <= ids.len(),
                ids@.to_set() == self.room_players@.dom(),
                crate::identifiers::ascending(order@),
                forall|room: RoomId| #[trigger]
                    order@.to_set().contains(room) <==> ids@.take(index as int).contains(room)
                        && self@.routes(player, room),
            decreases ids.len() - index,
        {
            let room = ids[index];
            proof {
                crate::identifiers::lemma_take_next(ids@, index as int);
            }
            if self.is_routed(player, room) {
                insert_ascending(&mut order, room);
            }
            index += 1;
        }
        assert(ids@.take(index as int) =~= ids@);
        assert forall|room: RoomId| order@.to_set().contains(room) <==> self@.routes(player, room) by {
            if self@.routes(player, room) {
                assert(ids@.to_set().contains(room));
                assert(ids@.contains(room));
            }
        }
        if let Some(room) = target_room {
            insert_ascending(&mut order, room);
        }
        assert(order@.to_set() =~= self@.affected_rooms(player, target_room));
        order
    }

    /// Retains the routing gates of the listed rooms that have routed players
    /// and lets go of those of the others.
    fn sync_active_room_gates(&mut self, rooms: &Vec<RoomId>)
        requires
            forall|room: RoomId| !rooms@.contains(room) ==> (#[trigger]
            old(self)@.active_gates.contains(room) <==> old(self)@.rooms.contains_key(room)),
            forall|room: RoomId| #[trigger]
                old(self)@.rooms.contains_key(room) ==> exists|player: PlayerId|
                    old(self)@.rooms[room].contains(player),
        ensures
            final(self)@ == (RoutingView { active_gates: old(self)@.rooms.dom(), ..old(self)@ }),
    {
        let mut index: usize = 0;
        assert forall|room: RoomId| !rooms@.contains(room) implies (
        #[trigger] self.active_room_gates@.contains(room) <==> old(self)@.rooms.contains_key(room)) by {
            assert(self@.active_gates.contains(room) == self.active_room_gates@.contains(room));
        }
        while index < rooms.len()
            invariant
                index <= rooms.len(),
                self.local_clients == old(self).local_clients,
                self.room_players == old(self).room_players,
                self.slow_consumer_timeout == old(self).slow_consumer_timeout,
                forall|room: RoomId| #[trigger]
                    old(self)@.rooms.contains_key(room) ==> exists|player: PlayerId|
                        old(self)@.rooms[room].contains(player),
                forall|room: RoomId|
                    (rooms@.take(index as int).contains(room) || !rooms@.contains(room)) ==> (
                    #[trigger] self.active_room_gates@.contains(room) <==> old(
                        self,
                    )@.rooms.contains_key(room)),
            decreases rooms.len() - index,
        {
            let room = rooms[index];
            let occupied = match self.room_players.get(&room) {
                Some(players) => !players.is_empty(),
                None => false,
            };
            proof {
                assert(old(self)@.rooms.contains_key(room) == self.room_players@.contains_key(room));
                if self.room_players@.contains_key(room) {
                    let player = choose|player: PlayerId|
                        old(self)@.rooms[room].contains(player);
                    assert(self.room_players@[room]@.contains(player));
                    assert(!(self.room_players@[room]@ =~= Set::empty()));
                }
                assert(occupied == old(self)@.rooms.contains_key(room));
            }
            if occupied {
                let _ = self.active_room_gates.insert(room);
            } else {
                let _ = self.active_room_gates.remove(&room);
            }
            proof {
                crate::identifiers::lemma_take_next(rooms@, index as int);
            }
            index += 1;
        }
        assert(rooms@.take(index as int) =~= rooms@);
        assert(self@.active_gates =~= old(self)@.rooms.dom());
    }

    /// Replaces `player`'s routing scope in the room table and the retained
    /// gates.
    fn rescope(&mut self, player: PlayerId, room: Option<RoomId>)
        requires
            old(self)@.wf(),
        ensures
            final(self)@ == (RoutingView {
                rooms: rescoped(old(self)@.rooms, player, room),
                active_gates: rescoped(old(self)@.rooms, player, room).dom(),
                ..old(self)@
            }),
            final(self)@.wf(),
    {
        let affected = self.player_routing_lock_order(player, room);
        self.drop_from_rooms(player);
        let ghost cleared = self@;
        if let Some(room) = room {
            let mut players = match self.room_players.remove(&room) {
                Some(players) => players,
                None => HashSet::new(),
            };
            let _ = players.insert(player);
            let _ = self.room_players.insert(room, players);
            proof {
                if !cleared.rooms.contains_key(room) {
                    assert(players@ =~= Set::empty().insert(player));
                }
                assert(self@.rooms =~= rooms_with_only(old(self)@.rooms, player, room));
            }
        }
        proof {
            assert(self@.rooms == rescoped(old(self)@.rooms, player, room));
            let synced = RoutingView { active_gates: self@.rooms.dom(), ..self@ };
            lemma_rescoped_keeps_wf(old(self)@, synced, player, room);
            assert forall|other: RoomId| !affected@.contains(other) implies (#[trigger]
            self@.active_gates.contains(other) <==> self@.rooms.contains_key(other)) by {
                assert(!affected@.to_set().contains(other));
                assert(!old(self)@.affected_rooms(player, room).contains(other));
                assert(!old(self)@.routes(player, other));
                if old(self)@.rooms.contains_key(other) {
                    let member = choose|member: PlayerId|
                        old(self)@.rooms[other].contains(member);
                    assert(outlives(old(self)@.rooms[other], player)) by {
                        assert(member != player);
                    }
                }
            }
            assert forall|other: RoomId| #[trigger] self@.rooms.contains_key(other) implies exists|
                member: PlayerId,
            |
                self@.rooms[other].contains(member) by {
                assert(synced.rooms.contains_key(other));
            }
        }
        self.sync_active_room_gates(&affected);
    }

    /// Registers `delivery` for `player` and replaces its routing scope:
    /// `None` leaves it registered but routed in no room.
    pub fn register_local_client(
        &mut self,
        player: PlayerId,
        room: Option<RoomId>,
        delivery: ClientDeliveryHandle,
    )
        requires
            old(self)@.wf(),
        ensures
            final(self)@ == old(self)@.registered(player, room, delivery),
            final(self)@.wf(),
    {
        self.rescope(player, room);
        let _ = self.local_clients.insert(player, delivery);
        assert(self@ =~= old(self)@.registered(player, room, delivery));
    }

    /// Ends `player`'s membership of `room` at the captured relay tail.
    /// `cleared` is what the connection table answered when it was asked to
    /// clear that membership: the roomless handle and the terminal stamp, or
    /// nothing, in which case the player is not registered any more.
    pub fn unroute_local_client_with_tail(
        &mut self,
        player: PlayerId,
        cleared: Option<(ClientDeliveryHandle, RelayStamp)>,
    ) -> (tail: Option<RelayStamp>)
        requires
            old(self)@.wf(),
        ensures
            final(self)@ == (match cleared {
                Some((delivery, _)) => old(self)@.registered(player, None, delivery),
                None => old(self)@.unregistered(player),
            }),
            tail == (match cleared {
                Some((_, stamp)) => Some(stamp),
                None => None,
            }),
            final(self)@.wf(),
    {
        self.rescope(player, None);
        match cleared {
            Some((delivery, stamp)) => {
                let _ = self.local_clients.insert(player, delivery);
                assert(self@ =~= old(self)@.registered(player, None, delivery));
                Some(stamp)
            },
            None => {
                let _ = self.local_clients.remove(&player);
                assert(self@ =~= old(self)@.unregistered(player));
                None
            },
        }
    }

    /// Forgets `player`: its handle and its routing scope.
    pub fn unregister_local_client(&mut self, player: PlayerId)
        requires
            old(self)@.wf(),
        ensures
            final(self)@ == old(self)@.unregistered(player),
            final(self)@.wf(),
    {
        self.rescope(player, None);
        let _ = self.local_clients.remove(&player);
        assert(self@ =~= old(self)@.unregistered(player));
    }

    /// Drops the handle of a recipient that failed a delivery, unless another
    /// connection has taken the identity over in the meantime.
    pub fn remove_client_if_same_sender(
        &mut self,
        player: PlayerId,
        attempted_sender: &DeliverySender,
    )
        ensures
            final(self)@ == old(self)@.pruned(player, *attempted_sender),
            old(self)@.wf() ==> final(self)@.wf(),
    {
        let same = match self.local_clients.get(&player) {
            Some(current) => current.sender.same_channel(attempted_sender),
            None => false,
        };
        if same {
            let _ = self.local_clients.remove(&player);
        }
        assert(self@ =~= old(self)@.pruned(player, *attempted_sender));
    }

    /// The delivery handles a frame for `room` goes to, one per recipient, in
    /// no particular order.
    pub fn collect_routed_recipients(
        &self,
        room: RoomId,
        except_player: Option<PlayerId>,
    ) -> (recipients: Vec<(PlayerId, ClientDeliveryHandle)>)
        ensures
            recipient_players(recipients@).no_duplicates(),
            recipient_players(recipients@).to_set() == self@.recipients(room, except_player),
            forall|i: int|
                0 <= i < recipients@.len() ==> (#[trigger] recipients@[i]).1
                    == self@.clients[recipients@[i].0],
    {
        let members: Vec<PlayerId> = match self.room_players.get(&room) {
            Some(players) => members_of(players),
            None => Vec::new(),
        };
        let mut recipients: Vec<(PlayerId, ClientDeliveryHandle)> = Vec::new();
        let mut index: usize = 0;
        proof {
            assert(recipient_players(recipients@) =~= Seq::empty());
            assert forall|player: PlayerId| members@.contains(player) <==> self@.routes(player, room) by {
                if self.room_players@.contains_key(room) {
                    assert(members@.to_set().contains(player)
                        == self.room_players@[room]@.contains(player));
                }
            }
        }
        while index < members.len()
            invariant
                index <= members.len(),
                members@.no_duplicates(),
                forall|player: PlayerId| #[trigger]
                    members@.contains(player) <==> self@.routes(player, room),
                recipient_players(recipients@).no_duplicates(),
                forall|player: PlayerId| #[trigger]
                    recipient_players(recipients@).contains(player) <==> members@.take(
                        index as int,
                    ).contains(player) && self@.clients.contains_key(player) && except_player
                        != Some(player),
                forall|i: int|
                    0 <= i < recipients@.len() ==> (#[trigger] recipients@[i]).1
                        == self@.clients[recipients@[i].0],
            decreases members.len() - index,
        {
            let player = members[index];
            let excepted = match except_player {
                Some(except) => except == player,
                None => false,
            };
            proof {
                crate::identifiers::lemma_take_next(members@, index as int);
                assert(!members@.take(index as int).contains(player)) by {
                    if members@.take(index as int).contains(player) {
                        let at = choose|i: int|
                            0 <= i < index && #[trigger] members@.take(index as int)[i] == player;
                        assert(members@[at] == members@[index as int]);
                    }
                }
            }
            if !excepted {
                match self.local_clients.get(&player) {
                    Some(handle) => {
                        proof {
                            lemma_recipient_push(recipients@, player, *handle);
                        }
                        recipients.push((player, *handle));
                    },
                    None => {},
                }
            }
            index += 1;
        }
        proof {
            assert(members@.take(index as int) =~= members@);
            assert forall|player: PlayerId|
                recipient_players(recipients@).to_set().contains(player) <==> self@.recipients(
                    room,
                    except_player,
                ).contains(player) by {
                assert(recipient_players(recipients@).contains(player) <==> members@.contains(player)
                    && self@.clients.contains_key(player) && except_player != Some(player));
                assert(members@.contains(player) <==> self@.routes(player, room));
            }
            assert(recipient_players(recipients@).to_set() =~= self@.recipients(
                room,
                except_player,
            ));
        }
        recipients
    }

    /// The players that frames for `room` reach, in ascending order.
    pub fn routed_player_ids(&self, room: RoomId) -> (players: Vec<PlayerId>)
        ensures
            crate::identifiers::ascending(players@),
            players@.to_set() == self@.recipients(room, None),
    {
        let recipients = self.collect_routed_recipients(room, None);
        let mut players: Vec<PlayerId> = Vec::new();
        let mut index: usize = 0;
        assert(players@.to_set() =~= recipient_players(recipients@).take(0).to_set());
        while index < recipients.len()
            invariant
                index <= recipients.len(),
                crate::identifiers::ascending(players@),
                players@.to_set() == recipient_players(recipients@).take(index as int).to_set(),
            decreases recipients.len() - index,
        {
            let player = recipients[index].0;
            proof {
                crate::identifiers::lemma_take_next(recipient_players(recipients@), index as int);
                recipient_players(recipients@).take(index as int).lemma_push_to_set_commute(player);
            }
            insert_ascending(&mut players, player);
            index += 1;
        }
        assert(recipient_players(recipients@).take(index as int) =~= recipient_players(recipients@));
        players
    }
}

/// The players of a recipient list.
pub open spec fn recipient_players(recipients: Seq<(PlayerId, ClientDeliveryHandle)>) -> Seq<
    PlayerId,
> {
    recipients.map_values(|recipient: (PlayerId, ClientDeliveryHandle)| recipient.0)
}

proof fn lemma_recipient_push(
    recipients: Seq<(PlayerId, ClientDeliveryHandle)>,
    player: PlayerId,
    handle: ClientDeliveryHandle,
)
    requires
        recipient_players(recipients).no_duplicates(),
        !recipient_players(recipients).contains(player),
    ensures
        recipient_players(recipients.push((player, handle))).no_duplicates(),
        forall|other: PlayerId| #[trigger]
            recipient_players(recipients.push((player, handle))).contains(other)
                <==> recipient_players(recipients).contains(other) || other == player,
{
    let before = recipient_players(recipients);
    let after = recipient_players(recipients.push((player, handle)));
    assert(after =~= before.push(player));
    assert forall|other: PlayerId| #[trigger] after.contains(other) <==> before.contains(other)
        || other == player by {
        if before.contains(other) {
            let at = choose|i: int| 0 <= i < before.len() && before[i] == other;
            assert(after[at] == other);
        }
        assert(after[before.len() as int] == player);
    }
}

/// After a registration the player is routed exactly in the registered scope:
/// no older room keeps reaching it.
pub proof fn law_registration_replaces_the_routing_scope(
    view: RoutingView,
    player: PlayerId,
    room: Option<RoomId>,
    handle: ClientDeliveryHandle,
)
    requires
        view.wf(),
    ensures
        forall|other: RoomId| #[trigger]
            view.registered(player, room, handle).routes(player, other) <==> room == Some(other),
        view.registered(player, room, handle).clients[player] == handle,
{
    assert forall|other: RoomId| #[trigger]
        view.registered(player, room, handle).routes(player, other) <==> room == Some(other) by {
        let cleared = rooms_without(view.rooms, player);
        assert(!cleared.contains_key(other) || !cleared[other].contains(player));
    }
}

/// Nobody else's routing changes when one player moves, registers, or leaves.
pub proof fn law_other_players_keep_their_routing(
    view: RoutingView,
    player: PlayerId,
    room: Option<RoomId>,
    handle: ClientDeliveryHandle,
    other: PlayerId,
    anywhere: RoomId,
)
    requires
        view.wf(),
        other != player,
    ensures
        view.registered(player, room, handle).routes(other, anywhere) <==> view.routes(
            other,
            anywhere,
        ),
        view.unregistered(player).routes(other, anywhere) <==> view.routes(other, anywhere),
{
    let cleared = rooms_without(view.rooms, player);
    if view.routes(other, anywhere) {
        assert(outlives(view.rooms[anywhere], player));
        assert(cleared.contains_key(anywhere));
    }
}

/// Pruning a failed recipient never removes the connection that replaced it.
pub proof fn law_pruning_spares_a_replacement(
    view: RoutingView,
    player: PlayerId,
    attempted: DeliverySender,
    replacement: ClientDeliveryHandle,
    room: Option<RoomId>,
)
    requires
        replacement.sender.channel != attempted.channel,
    ensures
        view.registered(player, room, replacement).pruned(player, attempted) == view.registered(
            player,
            room,
            replacement,
        ),
{
}

/// A frame for a room reaches exactly the players that are routed in it and have
/// a delivery handle, but for the one it excepts.
pub proof fn law_room_frames_reach_the_routed_players(
    view: RoutingView,
    room: RoomId,
    except: Option<PlayerId>,
    player: PlayerId,
)
    ensures
        view.recipients(room, except).contains(player) <==> view.rooms.contains_key(room)
            && view.rooms[room].contains(player) && view.clients.contains_key(player) && except
            != Some(player),
        view.routes(player, room) <==> view.rooms.contains_key(room) && view.rooms[room].contains(
            player,
        ),
{
}

/// Moving a player touches exactly the rooms it is routed in and the one it
/// moves to.
pub proof fn law_moves_touch_the_old_and_the_new_room(
    view: RoutingView,
    player: PlayerId,
    target: Option<RoomId>,
    room: RoomId,
)
    ensures
        view.affected_rooms(player, target).contains(room) <==> (view.rooms.contains_key(room)
            && view.rooms[room].contains(player)) || target == Some(room),
{
}

/// Once a player registers, its frames go to the handle it registered, and to
/// nobody else's; once it is gone, it has no handle and is routed nowhere.
pub proof fn law_handles_follow_registrations(
    view: RoutingView,
    player: PlayerId,
    room: Option<RoomId>,
    handle: ClientDeliveryHandle,
    other: PlayerId,
    anywhere: RoomId,
)
    requires
        view.wf(),
        other != player,
    ensures
        ({
            let registered = view.registered(player, room, handle);
            let gone = view.unregistered(player);
            &&& registered.clients.contains_key(player) && registered.clients[player] == handle
            &&& registered.clients.contains_key(other) == view.clients.contains_key(other)
            &&& view.clients.contains_key(other) ==> registered.clients[other]
                == view.clients[other]
            &&& registered.slow_consumer_timeout == view.slow_consumer_timeout
            &&& room is Some ==> registered.recipients(room->0, None).contains(player)
            &&& registered.active_gates.contains(anywhere) <==> exists|one: PlayerId|
                registered.routes(one, anywhere)
            &&& !gone.clients.contains_key(player)
            &&& !gone.routes(player, anywhere)
            &&& gone.clients.contains_key(other) == view.clients.contains_key(other)
            &&& view.clients.contains_key(other) ==> gone.clients[other] == view.clients[other]
            &&& gone.slow_consumer_timeout == view.slow_consumer_timeout
            &&& gone.active_gates.contains(anywhere) <==> exists|one: PlayerId|
                gone.routes(one, anywhere)
        }),
{
    let registered = view.registered(player, room, handle);
    let gone = view.unregistered(player);
    law_registration_replaces_the_routing_scope(view, player, room, handle);
    lemma_rescoped_keeps_wf(view, registered, player, room);
    lemma_rescoped_keeps_wf(view, gone, player, None);
    if let Some(room) = room {
        assert(registered.routes(player, room));
    }
    if registered.active_gates.contains(anywhere) {
        assert(registered.rooms.contains_key(anywhere));
        let one = choose|one: PlayerId| registered.rooms[anywhere].contains(one);
        assert(registered.routes(one, anywhere));
    }
    if gone.active_gates.contains(anywhere) {
        assert(gone.rooms.contains_key(anywhere));
        let one = choose|one: PlayerId| gone.rooms[anywhere].contains(one);
        assert(gone.routes(one, anywhere));
    }
}

/// Pruning takes a player's handle exactly if it still feeds the queue that
/// failed, and changes nothing else.
pub proof fn law_pruning_takes_only_the_failed_queue(
    view: RoutingView,
    player: PlayerId,
    sender: DeliverySender,
    other: PlayerId,
)
    ensures
        ({
            let after = view.pruned(player, sender);
            &&& after.clients.contains_key(other) <==> view.clients.contains_key(other) && !(other
                == player && view.clients[other].sender.channel == sender.channel)
            &&& after.clients.contains_key(other) ==> after.clients[other] == view.clients[other]
            &&& after.rooms == view.rooms
            &&& after.active_gates == view.active_gates
            &&& after.slow_consumer_timeout == view.slow_consumer_timeout
        }),
{
}

} // verus!
