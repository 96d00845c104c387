//! The table of registered connections: admission, room assignment, relay
//! stamps, liveness, and reconnect identity swaps.

use std::collections::HashMap;

use dashmap::DashMap;
use vstd::prelude::*;

use crate::clock::Clock;
use crate::close::{is_transient_socket_close_reason, CloseReason};
use crate::concurrent_maps::{
    clear_ip_slots, connection_ids, get_connection, get_ip_slots, has_connection,
    insert_connection, new_connections, new_ip_slots, remove_connection, set_ip_slots,
};
use crate::connection::{
    contains_transport, AppContext, ClientAddr, ClientConnection, ClientDeliveryHandle,
    ConnectionView, DeliverySender, ErrorReplyCharge, IpKey, LifecycleId, MembershipGeneration,
    Moment, Nanos, NegotiatedProtocol, RelayStamp, TransportStatusUpdate,
};
use crate::errors::RegisterClientError;
use crate::identifiers::fresh_uuid;
use crate::protocol::{AppId, GameDataEncoding, PlayerId, RoomId, Transport, V3_PROTOCOL_VERSION};
use crate::routing::InMemoryMessageCoordinator;

verus! {

broadcast use vstd::std_specs::hash::group_hash_axioms;

/// The budgets connections are admitted and answered under.
#[derive(Clone, Copy, Debug, PartialEq, Eq, Structural)]
pub struct ConnectionLimits {
    /// Concurrent connections of the whole server.
    pub max_connections: usize,
    /// Concurrent connections of one source address.
    pub max_connections_per_ip: usize,
    /// Polite per-frame replies of one connection.
    pub max_error_replies: u64,
}

/// Result of a reconnect identity swap.
#[derive(Clone, Copy, Debug, PartialEq, Eq, Structural)]
pub enum ReassignmentOutcome {
    /// The swap committed; the handle routes to the restored identity.
    Reassigned(ClientDeliveryHandle),
    /// The transient connection vanished before the swap.
    TransientConnectionMissing,
    /// The transient connection already carries a per-socket close. It stays
    /// as it was: the pending close tears down only that socket.
    RefusedTransientClose(CloseReason),
    /// Another connection lives under the target identity. Both entries stay
    /// as they were.
    RefusedTargetOccupied,
}

/// The mathematical view of [`ConnectionManager`].
#[verifier::ext_equal]
pub ghost struct ManagerView {
    pub clients: Map<PlayerId, ConnectionView>,
    /// The identity the next physical connection gets.
    pub next_lifecycle: LifecycleId,
    pub limits: ConnectionLimits,
}

/// The players connected from `ip`.
pub open spec fn clients_at(clients: Map<PlayerId, ConnectionView>, ip: IpKey) -> Set<PlayerId> {
    clients.dom().filter(|player: PlayerId| clients[player].client_addr.ip == ip)
}

impl ManagerView {
    /// Every entry stands for a physical connection of its own.
    pub open spec fn wf(self) -> bool {
        &&& self.clients.dom().finite()
        &&& forall|player: PlayerId| #[trigger]
            self.clients.contains_key(player) ==> self.clients[player].lifecycle
                < self.next_lifecycle
        &&& forall|one: PlayerId, other: PlayerId|
            #![trigger self.clients[one].lifecycle, self.clients[other].lifecycle]
            self.clients.contains_key(one) && self.clients.contains_key(other)
                && self.clients[one].lifecycle == self.clients[other].lifecycle ==> one == other
    }

    /// The table with one entry changed.
    pub open spec fn with_client(self, player: PlayerId, connection: ConnectionView) -> ManagerView {
        ManagerView { clients: self.clients.insert(player, connection), ..self }
    }

    /// Why a connection from `ip` is refused, if it is. The address budget is
    /// checked before the server's.
    pub open spec fn refusal(self, ip: IpKey) -> Option<RegisterClientError> {
        if clients_at(self.clients, ip).len() >= self.limits.max_connections_per_ip {
            Some(
                RegisterClientError::IpLimitExceeded {
                    current: clients_at(self.clients, ip).len() as usize,
                    limit: self.limits.max_connections_per_ip,
                },
            )
        } else if self.clients.dom().len() >= self.limits.max_connections {
            Some(
                RegisterClientError::CapacityExceeded {
                    current: self.clients.dom().len() as usize,
                    limit: self.limits.max_connections,
                },
            )
        } else {
            None
        }
    }

    /// The table after `player` registers at `now`.
    pub open spec fn admitted(
        self,
        player: PlayerId,
        now: Moment,
        sender: DeliverySender,
        client_addr: ClientAddr,
    ) -> ManagerView {
        ManagerView {
            clients: self.clients.insert(
                player,
                ConnectionView::registered(self.next_lifecycle, now, sender, client_addr),
            ),
            next_lifecycle: (self.next_lifecycle + 1) as u64,
            ..self
        }
    }

    /// The handle a connection that registers next is reached by.
    pub open spec fn next_handle(self, sender: DeliverySender) -> ClientDeliveryHandle {
        ClientDeliveryHandle { sender, lifecycle: self.next_lifecycle }
    }

    /// `after` is this table with a fresh seated incarnation of `player` in
    /// `room`, under some membership token the entry may draw.
    pub open spec fn room_entered(
        self,
        after: ManagerView,
        player: PlayerId,
        room: RoomId,
    ) -> bool {
        exists|generation: MembershipGeneration|
            self.clients[player].draws_generation(generation) && after == self.with_client(
                player,
                #[trigger] self.clients[player].entered_room(room, generation),
            )
    }

    /// `after` is this table with `player`'s seated membership ended, under
    /// some membership token the entry may draw.
    pub open spec fn room_left(self, after: ManagerView, player: PlayerId) -> bool {
        exists|generation: MembershipGeneration|
            self.clients[player].draws_generation(generation) && after == self.with_client(
                player,
                #[trigger] self.clients[player].left_room(generation),
            )
    }

    /// The table after `player`'s entry, if there is one, becomes `connection`.
    pub open spec fn updated(self, player: PlayerId, connection: ConnectionView) -> ManagerView {
        if self.clients.contains_key(player) {
            self.with_client(player, connection)
        } else {
            self
        }
    }

    /// The table after the entry of `from` moves to `to` as `connection`.
    pub open spec fn moved(
        self,
        from: PlayerId,
        to: PlayerId,
        connection: ConnectionView,
    ) -> ManagerView {
        ManagerView { clients: self.clients.remove(from).insert(to, connection), ..self }
    }

    /// Why the connection of `current` cannot take the identity `target` over,
    /// if it cannot.
    pub open spec fn reassignment_refusal(
        self,
        current: PlayerId,
        target: PlayerId,
    ) -> Option<ReassignmentOutcome> {
        if self.clients.contains_key(target) {
            Some(ReassignmentOutcome::RefusedTargetOccupied)
        } else if !self.clients.contains_key(current) {
            Some(ReassignmentOutcome::TransientConnectionMissing)
        } else {
            match self.clients[current].close {
                Some(reason) => if crate::close::transient_socket_close_reason(reason) {
                    Some(ReassignmentOutcome::RefusedTransientClose(reason))
                } else {
                    None
                },
                None => None,
            }
        }
    }

    /// `after` is this table with `current`'s connection taken over by
    /// `target`, under some membership token it admits and at some time.
    pub open spec fn taken_over(
        self,
        after: ManagerView,
        current: PlayerId,
        target: PlayerId,
        room: RoomId,
        epoch: u32,
    ) -> bool {
        exists|generation: MembershipGeneration, now: Moment|
            self.clients[current].draws_generation(generation) && after == self.moved(
                current,
                target,
                #[trigger] self.clients[current].reassigned(room, epoch, generation, now),
            )
    }

    /// `after` is this table with a roomless transition of `player`, under some
    /// membership token the entry may draw.
    pub open spec fn delivery_advanced(self, after: ManagerView, player: PlayerId) -> bool {
        exists|generation: MembershipGeneration|
            self.clients[player].draws_generation(generation) && after == self.with_client(
                player,
                #[trigger] self.clients[player].delivery_advanced(generation),
            )
    }

    /// `after` is this table with `player` heard from at some time.
    pub open spec fn pinged(self, after: ManagerView, player: PlayerId) -> bool {
        exists|now: Moment|
            after == self.updated(player, #[trigger] self.clients[player].pinged(now))
    }

    /// Whether `last_seen` is due for `player` at `now`.
    pub open spec fn last_seen_due(self, player: PlayerId, now: Moment, threshold: Nanos) -> bool {
        self.clients.contains_key(player) && self.clients[player].last_seen_due(now, threshold)
    }

    /// The players quiet for longer than `timeout` at `now`.
    pub open spec fn expired_clients(self, now: Moment, timeout: Nanos) -> Set<PlayerId> {
        self.clients.dom().filter(|player: PlayerId| self.clients[player].expired(now, timeout))
    }

    /// The table after `player`'s liveness is checked at `now`: still quiet, it
    /// is asked to close.
    pub open spec fn activity_checked(
        self,
        player: PlayerId,
        now: Moment,
        timeout: Nanos,
    ) -> ManagerView {
        if self.clients.contains_key(player) && self.clients[player].expired(now, timeout) {
            self.with_client(player, self.clients[player].closing(CloseReason::ActivityTimeout))
        } else {
            self
        }
    }

    /// Whether a liveness check of `player` at `now` initiates a close.
    pub open spec fn times_out(self, player: PlayerId, now: Moment, timeout: Nanos) -> bool {
        self.clients.contains_key(player) && self.clients[player].expired(now, timeout)
            && self.clients[player].close is None
    }

    /// Whether `removed` is the entry of `player` once its membership has ended,
    /// under some membership token it admits, and its close is requested.
    pub open spec fn departed(self, player: PlayerId, removed: ConnectionView) -> bool {
        exists|generation: MembershipGeneration|
            self.clients[player].draws_generation(generation) && removed == (
            #[trigger] self.clients[player].left_room(generation)).closing(
                CloseReason::Unregistered,
            )
    }

    /// The room `player` is seated in.
    pub open spec fn room_of(self, player: PlayerId) -> Option<RoomId> {
        if self.clients.contains_key(player) {
            self.clients[player].room_id
        } else {
            None
        }
    }
}

/// The number of slots a table records for `ip`.
pub open spec fn slots_at(slots: Map<IpKey, usize>, ip: IpKey) -> int {
    if slots.contains_key(ip) {
        slots[ip] as int
    } else {
        0
    }
}

/// Whether the slot table counts the connections of every source address.
pub open spec fn slots_match(
    slots: Map<IpKey, usize>,
    clients: Map<PlayerId, ConnectionView>,
) -> bool {
    forall|ip: IpKey|
        #![trigger slots_at(slots, ip)]
        slots_at(slots, ip) == clients_at(clients, ip).len() && (slots.contains_key(ip)
            ==> slots[ip] > 0)
}

/// Whether the lifecycle index names the current player of every physical
/// connection, and nothing else.
pub open spec fn lifecycles_match(
    lifecycles: Map<LifecycleId, PlayerId>,
    clients: Map<PlayerId, ConnectionView>,
) -> bool {
    &&& forall|player: PlayerId| #[trigger]
        clients.contains_key(player) ==> lifecycles.contains_key(clients[player].lifecycle)
            && lifecycles[clients[player].lifecycle] == player
    &&& forall|lifecycle: LifecycleId| #[trigger]
        lifecycles.contains_key(lifecycle) ==> clients.contains_key(lifecycles[lifecycle])
            && clients[lifecycles[lifecycle]].lifecycle == lifecycle
}

/// Changing an entry without moving it to another address keeps the counts.
proof fn lemma_update_keeps_counts(
    before: Map<PlayerId, ConnectionView>,
    player: PlayerId,
    connection: ConnectionView,
)
    requires
        before.contains_key(player),
        connection.client_addr.ip == before[player].client_addr.ip,
    ensures
        before.insert(player, connection).dom() == before.dom(),
        forall|ip: IpKey| #[trigger]
            clients_at(before.insert(player, connection), ip) == clients_at(before, ip),
{
    let after = before.insert(player, connection);
    assert(after.dom() =~= before.dom());
    assert forall|ip: IpKey| #[trigger] clients_at(after, ip) == clients_at(before, ip) by {
        assert(clients_at(after, ip) =~= clients_at(before, ip));
    }
}

/// A new entry adds one to the count of its address and to no other.
proof fn lemma_insert_counts(
    before: Map<PlayerId, ConnectionView>,
    player: PlayerId,
    connection: ConnectionView,
)
    requires
        before.dom().finite(),
        !before.contains_key(player),
    ensures
        before.insert(player, connection).dom().finite(),
        before.insert(player, connection).dom().len() == before.dom().len() + 1,
        forall|ip: IpKey| #[trigger]
            clients_at(before.insert(player, connection), ip).len() == clients_at(before, ip).len()
                + (if connection.client_addr.ip == ip {
                1int
            } else {
                0int
            }),
{
    let after = before.insert(player, connection);
    assert(after.dom() =~= before.dom().insert(player));
    assert forall|ip: IpKey| #[trigger] clients_at(after, ip).len() == clients_at(before, ip).len() + (
    if connection.client_addr.ip == ip {
        1int
    } else {
        0int
    }) by {
        vstd::set_lib::lemma_set_subset_finite(before.dom(), clients_at(before, ip));
        if connection.client_addr.ip == ip {
            assert(clients_at(after, ip) =~= clients_at(before, ip).insert(player));
        } else {
            assert(clients_at(after, ip) =~= clients_at(before, ip));
        }
    }
}

/// A removed entry takes one from the count of its address and from no other.
proof fn lemma_remove_counts(before: Map<PlayerId, ConnectionView>, player: PlayerId)
    requires
        before.dom().finite(),
        before.contains_key(player),
    ensures
        before.remove(player).dom().finite(),
        before.remove(player).dom().len() == before.dom().len() - 1,
        forall|ip: IpKey| #[trigger]
            clients_at(before.remove(player), ip).len() == clients_at(before, ip).len() - (
            if before[player].client_addr.ip == ip {
                1int
            } else {
                0int
            }),
        clients_at(before, before[player].client_addr.ip).len() >= 1,
{
    let after = before.remove(player);
    assert(after.dom() =~= before.dom().remove(player));
    assert forall|ip: IpKey| #[trigger] clients_at(after, ip).len() == clients_at(before, ip).len() - (
    if before[player].client_addr.ip == ip {
        1int
    } else {
        0int
    }) by {
        vstd::set_lib::lemma_set_subset_finite(before.dom(), clients_at(before, ip));
        if before[player].client_addr.ip == ip {
            assert(clients_at(after, ip) =~= clients_at(before, ip).remove(player));
            assert(clients_at(before, ip).contains(player));
        } else {
            assert(clients_at(after, ip) =~= clients_at(before, ip));
        }
    }
    let ip = before[player].client_addr.ip;
    vstd::set_lib::lemma_set_subset_finite(before.dom(), clients_at(before, ip));
    assert(clients_at(before, ip).contains(player));
    assert(clients_at(after, ip).len() == clients_at(before, ip).len() - 1);
}

/// The connections of one address are among those of the server.
proof fn lemma_address_count_is_bounded(clients: Map<PlayerId, ConnectionView>, ip: IpKey)
    requires
        clients.dom().finite(),
    ensures
        clients_at(clients, ip).len() <= clients.dom().len(),
{
    vstd::set_lib::lemma_len_subset(clients_at(clients, ip), clients.dom());
}

/// The drain predicate of a server that is not shutting down.
pub fn never_draining() -> (draining: bool)
    ensures
        !draining,
{
    false
}

/// The drain predicate of a server that is shutting down.
pub fn always_draining() -> (draining: bool)
    ensures
        draining,
{
    true
}

/// Registered connections and their admission budgets.
pub struct ConnectionManager {
    clients: DashMap<u128, ClientConnection>,
    connections_per_ip: DashMap<(u8, u128), usize>,
    lifecycles: HashMap<LifecycleId, PlayerId>,
    next_lifecycle: LifecycleId,
    live_connections: usize,
    limits: ConnectionLimits,
    clock: Clock,
}

impl View for ConnectionManager {
    type V = ManagerView;

    closed spec fn view(&self) -> ManagerView {
        ManagerView {
            clients: crate::concurrent_maps::connections(self.clients),
            next_lifecycle: self.next_lifecycle,
            limits: self.limits,
        }
    }
}

impl ConnectionManager {
    /// Whether the counters and the lifecycle index agree with the entries:
    /// every entry holds exactly one slot of its address and one of the
    /// server.
    pub closed spec fn tables_match(&self) -> bool {
        &&& self.live_connections == self@.clients.dom().len()
        &&& slots_match(
            crate::concurrent_maps::ip_slots(self.connections_per_ip),
            self@.clients,
        )
        &&& lifecycles_match(self.lifecycles@, self@.clients)
    }

    /// The invariant of the table.
    pub open spec fn wf(&self) -> bool {
        &&& self@.wf()
        &&& self.tables_match()
    }

    /// An empty table.
    pub fn new(limits: ConnectionLimits) -> (manager: Self)
        ensures
            manager@ == (ManagerView { clients: Map::empty(), next_lifecycle: 0, limits }),
            manager.wf(),
    {
        let manager = ConnectionManager {
            clients: new_connections(),
            connections_per_ip: new_ip_slots(),
            lifecycles: HashMap::new(),
            next_lifecycle: 0,
            live_connections: 0,
            limits,
            clock: Clock::start(),
        };
        proof {
            assert(manager@.clients =~= Map::empty());
            assert(manager@.clients.dom() =~= Set::empty());
            assert forall|ip: IpKey|
                #![trigger slots_at(crate::concurrent_maps::ip_slots(manager.connections_per_ip), ip)]
                clients_at(manager@.clients, ip).len() == 0 by {
                assert(clients_at(manager@.clients, ip) =~= Set::empty());
            }
        }
        manager
    }

    /// The time on the table's clock, as a span since the table was made.
    pub fn now(&self) -> (now: Moment)
        ensures
            now <= crate::durations::STD_DURATION_MAX,
    {
        self.clock.now()
    }

    /// Takes one slot of `ip`, unless its budget is spent.
    fn try_reserve_ip_slot(&mut self, ip: IpKey) -> (reserved: Result<usize, usize>)
        ensures
            final(self).clients == old(self).clients,
            final(self).lifecycles == old(self).lifecycles,
            final(self).next_lifecycle == old(self).next_lifecycle,
            final(self).live_connections == old(self).live_connections,
            final(self).limits == old(self).limits,
            ({
                let before = crate::concurrent_maps::ip_slots(old(self).connections_per_ip);
                let after = crate::concurrent_maps::ip_slots(final(self).connections_per_ip);
                let held = slots_at(before, ip);
                if held >= old(self).limits.max_connections_per_ip {
                    reserved == Err::<usize, usize>(held as usize) && after == before
                } else {
                    reserved == Ok::<usize, usize>((held + 1) as usize) && after == before.insert(
                        ip,
                        (held + 1) as usize,
                    )
                }
            }),
    {
        let held: usize = match get_ip_slots(&self.connections_per_ip, ip) {
            Some(count) => count,
            None => 0,
        };
        if held >= self.limits.max_connections_per_ip {
            Err(held)
        } else {
            let count: usize = held.saturating_add(1);
            set_ip_slots(&mut self.connections_per_ip, ip, count);
            Ok(count)
        }
    }

    /// Takes one slot of `ip` whatever its budget.
    fn increment_ip_slot_unbounded(&mut self, ip: IpKey)
        requires
            slots_at(crate::concurrent_maps::ip_slots(old(self).connections_per_ip), ip)
                < usize::MAX,
        ensures
            final(self).clients == old(self).clients,
            final(self).lifecycles == old(self).lifecycles,
            final(self).next_lifecycle == old(self).next_lifecycle,
            final(self).live_connections == old(self).live_connections,
            final(self).limits == old(self).limits,
            crate::concurrent_maps::ip_slots(final(self).connections_per_ip)
                == crate::concurrent_maps::ip_slots(old(self).connections_per_ip).insert(
                ip,
                (slots_at(crate::concurrent_maps::ip_slots(old(self).connections_per_ip), ip)
                    + 1) as usize,
            ),
    {
        let held: usize = match get_ip_slots(&self.connections_per_ip, ip) {
            Some(count) => count,
            None => 0,
        };
        set_ip_slots(&mut self.connections_per_ip, ip, held.saturating_add(1));
    }

    /// Gives one slot of `ip` back.
    fn release_ip_slot(&mut self, ip: IpKey)
        ensures
            final(self).clients == old(self).clients,
            final(self).lifecycles == old(self).lifecycles,
            final(self).next_lifecycle == old(self).next_lifecycle,
            final(self).live_connections == old(self).live_connections,
            final(self).limits == old(self).limits,
            ({
                let before = crate::concurrent_maps::ip_slots(old(self).connections_per_ip);
                let after = crate::concurrent_maps::ip_slots(final(self).connections_per_ip);
                if slots_at(before, ip) > 1 {
                    after == before.insert(ip, (slots_at(before, ip) - 1) as usize)
                } else {
                    after == before.remove(ip)
                }
            }),
    {
        match get_ip_slots(&self.connections_per_ip, ip) {
            Some(count) => {
                if count > 1 {
                    set_ip_slots(&mut self.connections_per_ip, ip, count.saturating_sub(1));
                } else {
                    clear_ip_slots(&mut self.connections_per_ip, ip);
                }
            },
            None => {
                assert(crate::concurrent_maps::ip_slots(self.connections_per_ip)
                    =~= crate::concurrent_maps::ip_slots(self.connections_per_ip).remove(ip));
            },
        }
    }

    /// Takes one slot of the server, unless its budget is spent.
    fn try_reserve_global_slot(&mut self) -> (reserved: Result<usize, usize>)
        ensures
            if old(self).live_connections >= old(self).limits.max_connections {
                reserved == Err::<usize, usize>(old(self).live_connections) && *final(self)
                    == *old(self)
            } else {
                reserved == Ok::<usize, usize>((old(self).live_connections + 1) as usize)
                    && *final(self) == (ConnectionManager {
                    live_connections: (old(self).live_connections + 1) as usize,
                    ..*old(self)
                })
            },
    {
        let current = self.live_connections;
        if current >= self.limits.max_connections {
            Err(current)
        } else {
            self.live_connections = current + 1;
            Ok(current + 1)
        }
    }

    /// Takes one slot of the server whatever its budget.
    fn increment_global_slot_unbounded(&mut self)
        requires
            old(self).live_connections < usize::MAX,
        ensures
            *final(self) == (ConnectionManager {
                live_connections: (old(self).live_connections + 1) as usize,
                ..*old(self)
            }),
    {
        self.live_connections = self.live_connections + 1;
    }

    /// Gives one slot of the server back; an unpaired release is ignored.
    fn release_global_slot(&mut self)
        ensures
            *final(self) == (ConnectionManager {
                live_connections: if old(self).live_connections == 0 {
                    0
                } else {
                    (old(self).live_connections - 1) as usize
                },
                ..*old(self)
            }),
    {
        if self.live_connections > 0 {
            self.live_connections = self.live_connections - 1;
        }
    }

    /// Publishes an entry whose slots are taken already. A displaced entry
    /// gives its slots back, so that the counters stay paired with entries.
    fn publish(&mut self, player: PlayerId, connection: ClientConnection)
        requires
            old(self)@.wf(),
            lifecycles_match(old(self).lifecycles@, old(self)@.clients),
            connection@.lifecycle == old(self).next_lifecycle,
            old(self).next_lifecycle < u64::MAX,
            old(self).live_connections == old(self)@.clients.dom().len() + 1,
            forall|ip: IpKey|
                #![trigger slots_at(crate::concurrent_maps::ip_slots(old(self).connections_per_ip), ip)]
                slots_at(crate::concurrent_maps::ip_slots(old(self).connections_per_ip), ip)
                    == clients_at(old(self)@.clients, ip).len() + (if connection@.client_addr.ip
                    == ip {
                    1int
                } else {
                    0int
                }) && (crate::concurrent_maps::ip_slots(
                    old(self).connections_per_ip,
                ).contains_key(ip) ==> crate::concurrent_maps::ip_slots(
                    old(self).connections_per_ip,
                )[ip] > 0),
        ensures
            final(self)@ == (ManagerView {
                clients: old(self)@.clients.insert(player, connection@),
                next_lifecycle: (old(self)@.next_lifecycle + 1) as u64,
                ..old(self)@
            }),
            final(self).wf(),
    {
        let lifecycle = connection.lifecycle;
        let ghost view = connection@;
        let ghost before = old(self)@.clients;
        let displaced = insert_connection(&mut self.clients, player, connection);
        self.next_lifecycle = self.next_lifecycle + 1;
        if let Some(entry) = displaced {
            let _ = self.lifecycles.remove(&entry.lifecycle);
            self.release_ip_slot(entry.client_addr.ip);
            self.release_global_slot();
        }
        let _ = self.lifecycles.insert(lifecycle, player);
        proof {
            let after = self@.clients;
            let slots = crate::concurrent_maps::ip_slots(self.connections_per_ip);
            let taken = crate::concurrent_maps::ip_slots(old(self).connections_per_ip);
            assert(after == before.insert(player, view));
            assert forall|one: PlayerId, other: PlayerId|
                #![trigger after[one].lifecycle, after[other].lifecycle]
                after.contains_key(one) && after.contains_key(other) && after[one].lifecycle
                    == after[other].lifecycle implies one == other by {
                if one != player && other != player {
                    assert(before[one].lifecycle == before[other].lifecycle);
                } else if one != player {
                    assert(before.contains_key(one));
                } else if other != player {
                    assert(before.contains_key(other));
                }
            }
            if before.contains_key(player) {
                let rest = before.remove(player);
                lemma_remove_counts(before, player);
                assert(!rest.contains_key(player));
                lemma_insert_counts(rest, player, view);
                assert(rest.insert(player, view) =~= after);
                assert forall|ip: IpKey|
                    #![trigger slots_at(slots, ip)]
                    slots_at(slots, ip) == clients_at(after, ip).len() && (slots.contains_key(ip)
                        ==> slots[ip] > 0) by {
                    assert(slots_at(taken, ip) == clients_at(before, ip).len() + (
                    if view.client_addr.ip == ip {
                        1int
                    } else {
                        0int
                    }));
                    assert(clients_at(rest, ip).len() == clients_at(before, ip).len() - (
                    if before[player].client_addr.ip == ip {
                        1int
                    } else {
                        0int
                    }));
                    assert(clients_at(after, ip).len() == clients_at(rest, ip).len() + (
                    if view.client_addr.ip == ip {
                        1int
                    } else {
                        0int
                    }));
                    let home = before[player].client_addr.ip;
                    assert(slots_at(taken, home) >= 1);
                }
            } else {
                lemma_insert_counts(before, player, view);
                assert forall|ip: IpKey|
                    #![trigger slots_at(slots, ip)]
                    slots_at(slots, ip) == clients_at(after, ip).len() && (slots.contains_key(ip)
                        ==> slots[ip] > 0) by {
                    assert(slots_at(taken, ip) == slots_at(slots, ip));
                    assert(clients_at(after, ip).len() == clients_at(before, ip).len() + (
                    if view.client_addr.ip == ip {
                        1int
                    } else {
                        0int
                    }));
                }
            }
            assert(lifecycles_match(self.lifecycles@, after)) by {
                assert forall|someone: PlayerId| #[trigger] after.contains_key(someone) implies self.lifecycles@.contains_key(
                    after[someone].lifecycle,
                ) && self.lifecycles@[after[someone].lifecycle] == someone by {
                    if someone != player {
                        assert(before.contains_key(someone));
                        if before.contains_key(player) {
                            assert(before[someone].lifecycle != before[player].lifecycle);
                        }
                    }
                }
                assert forall|l: LifecycleId| #[trigger] self.lifecycles@.contains_key(l) implies after.contains_key(
                    self.lifecycles@[l],
                ) && after[self.lifecycles@[l]].lifecycle == l by {
                    if l != lifecycle {
                        assert(old(self).lifecycles@.contains_key(l));
                        let holder = old(self).lifecycles@[l];
                        assert(before.contains_key(holder));
                        if holder == player {
                            assert(before[player].lifecycle == l);
                        }
                    }
                }
            }
        }
    }

    /// Registers `player_id` at `now`, within both admission budgets. A server
    /// refusal gives the address slot back that was just taken.
    pub fn register_delivery(
        &mut self,
        coordinator: &mut InMemoryMessageCoordinator,
        player_id: PlayerId,
        now: Moment,
        sender: DeliverySender,
        client_addr: ClientAddr,
    ) -> (registered: Result<PlayerId, RegisterClientError>)
        requires
            old(self).wf(),
            old(coordinator)@.wf(),
            old(self)@.next_lifecycle < u64::MAX,
        ensures
            final(self).wf(),
            final(coordinator)@.wf(),
            match old(self)@.refusal(client_addr.ip) {
                Some(error) => {
                    &&& registered == Err::<PlayerId, RegisterClientError>(error)
                    &&& final(self)@ == old(self)@
                    &&& final(coordinator)@ == old(coordinator)@
                },
                None => {
                    &&& registered == Ok::<PlayerId, RegisterClientError>(player_id)
                    &&& final(self)@ == old(self)@.admitted(player_id, now, sender, client_addr)
                    &&& final(coordinator)@ == old(coordinator)@.registered(
                        player_id,
                        None,
                        old(self)@.next_handle(sender),
                    )
                },
            },
    {
        let ip = client_addr.ip;
        let ghost slots = crate::concurrent_maps::ip_slots(self.connections_per_ip);
        assert(slots_at(slots, ip) == clients_at(self@.clients, ip).len());
        if let Err(current) = self.try_reserve_ip_slot(ip) {
            return Err(
                RegisterClientError::IpLimitExceeded {
                    current,
                    limit: self.limits.max_connections_per_ip,
                },
            );
        }
        let ghost taken = crate::concurrent_maps::ip_slots(self.connections_per_ip);
        if let Err(current) = self.try_reserve_global_slot() {
            self.release_ip_slot(ip);
            proof {
                let released = crate::concurrent_maps::ip_slots(self.connections_per_ip);
                assert(released =~= slots);
            }
            return Err(
                RegisterClientError::CapacityExceeded {
                    current,
                    limit: self.limits.max_connections,
                },
            );
        }
        let connection = ClientConnection::new(self.next_lifecycle, now, sender, client_addr);
        let delivery = connection.delivery_handle();
        proof {
            assert forall|other: IpKey|
                #![trigger slots_at(taken, other)]
                slots_at(taken, other) == clients_at(self@.clients, other).len() + (if ip == other {
                    1int
                } else {
                    0int
                }) && (taken.contains_key(other) ==> taken[other] > 0) by {
                assert(slots_at(slots, other) == clients_at(self@.clients, other).len());
            }
        }
        self.publish(player_id, connection);
        coordinator.register_local_client(player_id, None, delivery);
        Ok(player_id)
    }

    /// Registers a connection under a freshly drawn identity. The identity and
    /// the time of registration are the machine's choice.
    pub fn register_client(
        &mut self,
        coordinator: &mut InMemoryMessageCoordinator,
        sender: DeliverySender,
        client_addr: ClientAddr,
    ) -> (registered: Result<PlayerId, RegisterClientError>)
        requires
            old(self).wf(),
            old(coordinator)@.wf(),
            old(self)@.next_lifecycle < u64::MAX,
        ensures
            final(self).wf(),
            final(coordinator)@.wf(),
            match old(self)@.refusal(client_addr.ip) {
                Some(error) => {
                    &&& registered == Err::<PlayerId, RegisterClientError>(error)
                    &&& final(self)@ == old(self)@
                    &&& final(coordinator)@ == old(coordinator)@
                },
                None => exists|player: PlayerId, now: Moment|
                    {
                        &&& crate::identifiers::random_uuid(player)
                        &&& registered == Ok::<PlayerId, RegisterClientError>(player)
                        &&& final(self)@ == #[trigger] old(self)@.admitted(
                            player,
                            now,
                            sender,
                            client_addr,
                        )
                        &&& final(coordinator)@ == old(coordinator)@.registered(
                            player,
                            None,
                            old(self)@.next_handle(sender),
                        )
                    },
            },
    {
        let player_id = fresh_uuid();
        let now = self.now();
        self.register_delivery(coordinator, player_id, now, sender, client_addr)
    }

    /// Registers `player_id` past both admission budgets. The entry still
    /// counts, so that its removal gives back exactly what it holds; a same-id
    /// replacement releases the entry it displaces.
    pub fn connect_test_client(
        &mut self,
        coordinator: &mut InMemoryMessageCoordinator,
        player_id: PlayerId,
        sender: DeliverySender,
        client_addr: ClientAddr,
    )
        requires
            old(self).wf(),
            old(coordinator)@.wf(),
            old(self)@.next_lifecycle < u64::MAX,
            old(self)@.clients.dom().len() < usize::MAX,
        ensures
            final(self).wf(),
            final(coordinator)@.wf(),
            exists|now: Moment|
                final(self)@ == #[trigger] old(self)@.admitted(player_id, now, sender, client_addr),
            final(coordinator)@ == old(coordinator)@.registered(
                player_id,
                None,
                old(self)@.next_handle(sender),
            ),
    {
        let now = self.now();
        let connection = ClientConnection::new(self.next_lifecycle, now, sender, client_addr);
        let delivery = connection.delivery_handle();
        let ip = client_addr.ip;
        let ghost slots = crate::concurrent_maps::ip_slots(self.connections_per_ip);
        proof {
            assert(slots_at(slots, ip) == clients_at(self@.clients, ip).len());
            lemma_address_count_is_bounded(self@.clients, ip);
        }
        self.increment_ip_slot_unbounded(ip);
        self.increment_global_slot_unbounded();
        proof {
            let taken = crate::concurrent_maps::ip_slots(self.connections_per_ip);
            assert forall|other: IpKey|
                #![trigger slots_at(taken, other)]
                slots_at(taken, other) == clients_at(self@.clients, other).len() + (if ip == other {
                    1int
                } else {
                    0int
                }) && (taken.contains_key(other) ==> taken[other] > 0) by {
                assert(slots_at(slots, other) == clients_at(self@.clients, other).len());
            }
        }
        self.publish(player_id, connection);
        coordinator.register_local_client(player_id, None, delivery);
        assert(self@ == old(self)@.admitted(player_id, now, sender, client_addr));
    }

    /// Puts a changed entry back that was taken out of the table.
    fn put_entry(
        &mut self,
        player: PlayerId,
        connection: ClientConnection,
        Ghost(before): Ghost<Map<PlayerId, ConnectionView>>,
    )
        requires
            (ManagerView { clients: before, ..old(self)@ }).wf(),
            old(self).live_connections == before.dom().len(),
            slots_match(crate::concurrent_maps::ip_slots(old(self).connections_per_ip), before),
            lifecycles_match(old(self).lifecycles@, before),
            before.contains_key(player),
            old(self)@.clients == before.remove(player),
            connection@.lifecycle == before[player].lifecycle,
            connection@.client_addr == before[player].client_addr,
        ensures
            final(self)@ == (ManagerView {
                clients: before.insert(player, connection@),
                ..old(self)@
            }),
            final(self).wf(),
    {
        let ghost view = connection@;
        let _ = insert_connection(&mut self.clients, player, connection);
        proof {
            let after = self@.clients;
            assert(after =~= before.insert(player, view));
            lemma_update_keeps_counts(before, player, view);
            assert forall|one: PlayerId| #[trigger] after.contains_key(one) implies before.contains_key(
                one,
            ) && after[one].lifecycle == before[one].lifecycle by {}
            assert forall|one: PlayerId, other: PlayerId|
                #![trigger after[one].lifecycle, after[other].lifecycle]
                after.contains_key(one) && after.contains_key(other) && after[one].lifecycle
                    == after[other].lifecycle implies one == other by {
                assert(before[one].lifecycle == before[other].lifecycle);
            }
            let slots = crate::concurrent_maps::ip_slots(self.connections_per_ip);
            assert forall|ip: IpKey|
                #![trigger slots_at(slots, ip)]
                slots_at(slots, ip) == clients_at(after, ip).len() && (slots.contains_key(ip)
                    ==> slots[ip] > 0) by {
                assert(clients_at(after, ip) == clients_at(before, ip));
            }
            assert(lifecycles_match(self.lifecycles@, after));
        }
    }

    /// A membership token that `connection` admits: drawn at random, and drawn
    /// again in the event that it names a membership still remembered.
    fn fresh_membership_generation(connection: &ClientConnection) -> (generation:
        MembershipGeneration)
        ensures
            connection@.draws_generation(generation),
    {
        let current = connection.membership_generation;
        let retained = match connection.transport_status {
            Some((reported_in, _, _)) => reported_in,
            None => current,
        };
        let mut candidate = fresh_uuid();
        let mut attempts: u64 = u64::MAX;
        while attempts > 0 && (candidate == current || candidate == retained)
            invariant
                crate::identifiers::random_uuid(candidate),
            decreases attempts,
        {
            candidate = fresh_uuid();
            attempts = attempts - 1;
        }
        if candidate != current && candidate != retained {
            return candidate;
        }
        // No run of draws gets here. The last two bits are left to chance, so
        // each of these is a token that a further draw may give.
        let one: u128 = candidate ^ 1;
        let other: u128 = candidate ^ 2;
        proof {
            assert(one != candidate && other != candidate && one != other && (one
                & 0xf000_c000_0000_0000_0000u128) == (candidate & 0xf000_c000_0000_0000_0000u128)
                && (other & 0xf000_c000_0000_0000_0000u128) == (candidate
                & 0xf000_c000_0000_0000_0000u128)) by (bit_vector)
                requires
                    one == candidate ^ 1,
                    other == candidate ^ 2,
            ;
        }
        if one != current && one != retained {
            one
        } else {
            other
        }
    }

    /// Begins a fresh seated incarnation of `player_id` in `room_id` without
    /// publishing it to room routing. The membership token is drawn at random.
    pub fn prepare_client_to_room(&mut self, player_id: PlayerId, room_id: RoomId) -> (prepared:
        Option<(ClientDeliveryHandle, RelayStamp)>)
        requires
            old(self).wf(),
        ensures
            final(self).wf(),
            !old(self)@.clients.contains_key(player_id) ==> prepared is None && final(self)@ == old(
                self,
            )@,
            old(self)@.clients.contains_key(player_id) ==> {
                let after = final(self)@.clients[player_id];
                &&& old(self)@.room_entered(final(self)@, player_id, room_id)
                &&& prepared == Some((after.delivery(), after.stamp()))
            },
    {
        let ghost before = self@.clients;
        match remove_connection(&mut self.clients, player_id) {
            None => {
                assert(self@.clients =~= before);
                None
            },
            Some(mut client) => {
                let generation = Self::fresh_membership_generation(&client);
                client.enter_room(room_id, generation);
                let prepared = (client.delivery_handle(), client.relay_stamp());
                self.put_entry(player_id, client, Ghost(before));
                assert(self@ == old(self)@.with_client(
                    player_id,
                    before[player_id].entered_room(room_id, generation),
                ));
                Some(prepared)
            },
        }
    }

    /// Seats `player_id` in `room_id` and routes it there.
    pub fn assign_client_to_room(
        &mut self,
        coordinator: &mut InMemoryMessageCoordinator,
        player_id: PlayerId,
        room_id: RoomId,
    )
        requires
            old(self).wf(),
            old(coordinator)@.wf(),
        ensures
            final(self).wf(),
            final(coordinator)@.wf(),
            !old(self)@.clients.contains_key(player_id) ==> final(self)@ == old(self)@,
            !old(self)@.clients.contains_key(player_id) ==> final(coordinator)@ == old(
                coordinator,
            )@,
            old(self)@.clients.contains_key(player_id) ==> {
                &&& old(self)@.room_entered(final(self)@, player_id, room_id)
                &&& final(coordinator)@ == old(coordinator)@.registered(
                    player_id,
                    Some(room_id),
                    final(self)@.clients[player_id].delivery(),
                )
            },
    {
        match self.prepare_client_to_room(player_id, room_id) {
            Some((delivery, _)) => {
                coordinator.register_local_client(player_id, Some(room_id), delivery);
            },
            None => {},
        }
    }

    /// Undoes [`Self::prepare_client_to_room`], provided the entry is still
    /// the prepared incarnation.
    pub fn rollback_prepared_room_assignment(
        &mut self,
        player_id: PlayerId,
        expected_room: RoomId,
        expected_epoch: u32,
    ) -> (restored: Option<ClientDeliveryHandle>)
        requires
            old(self).wf(),
        ensures
            final(self).wf(),
            ({
                let before = old(self)@.clients[player_id];
                if old(self)@.clients.contains_key(player_id) && before.room_id == Some(
                    expected_room,
                ) && before.game_data_epoch == expected_epoch {
                    &&& final(self)@ == old(self)@.with_client(
                        player_id,
                        before.entry_rolled_back(),
                    )
                    &&& restored == Some(before.entry_rolled_back().delivery())
                } else {
                    final(self)@ == old(self)@ && restored is None
                }
            }),
    {
        let ghost before = self@.clients;
        match remove_connection(&mut self.clients, player_id) {
            None => {
                assert(self@.clients =~= before);
                None
            },
            Some(mut client) => {
                let seated = match client.room_id {
                    Some(room) => room == expected_room,
                    None => false,
                };
                if !seated || client.game_data_epoch != expected_epoch {
                    self.put_entry(player_id, client, Ghost(before));
                    assert(self@.clients =~= before);
                    None
                } else {
                    client.roll_back_entry();
                    let restored = client.delivery_handle();
                    self.put_entry(player_id, client, Ghost(before));
                    Some(restored)
                }
            },
        }
    }

    /// Ends a seated membership and captures its terminal relay stamp. With an
    /// `expected_room`, only while the player is seated there. The membership
    /// token is drawn at random.
    fn clear_room_assignment_guarded(
        &mut self,
        player_id: PlayerId,
        expected_room: Option<RoomId>,
    ) -> (cleared: Option<(ClientDeliveryHandle, RelayStamp)>)
        requires
            old(self).wf(),
        ensures
            final(self).wf(),
            ({
                let before = old(self)@.clients[player_id];
                if old(self)@.clients.contains_key(player_id) && (expected_room is None
                    || before.room_id == expected_room) {
                    &&& old(self)@.room_left(final(self)@, player_id)
                    &&& cleared == Some(
                        (final(self)@.clients[player_id].delivery(), before.stamp()),
                    )
                } else {
                    final(self)@ == old(self)@ && cleared is None
                }
            }),
    {
        let ghost before = self@.clients;
        match remove_connection(&mut self.clients, player_id) {
            None => {
                assert(self@.clients =~= before);
                None
            },
            Some(mut client) => {
                let foreign = match expected_room {
                    Some(expected) => match client.room_id {
                        Some(room) => room != expected,
                        None => true,
                    },
                    None => false,
                };
                if foreign {
                    self.put_entry(player_id, client, Ghost(before));
                    assert(self@.clients =~= before);
                    None
                } else {
                    let tail = client.relay_stamp();
                    let generation = Self::fresh_membership_generation(&client);
                    client.leave_room(generation);
                    let delivery = client.delivery_handle();
                    self.put_entry(player_id, client, Ghost(before));
                    assert(self@ == old(self)@.with_client(
                        player_id,
                        before[player_id].left_room(generation),
                    ));
                    Some((delivery, tail))
                }
            },
        }
    }

    /// Ends `player_id`'s membership of `expected_room` and captures its
    /// terminal relay stamp. On any other room nothing changes.
    pub fn clear_room_assignment_with_tail(
        &mut self,
        player_id: PlayerId,
        expected_room: RoomId,
    ) -> (cleared: Option<(ClientDeliveryHandle, RelayStamp)>)
        requires
            old(self).wf(),
        ensures
            final(self).wf(),
            ({
                let before = old(self)@.clients[player_id];
                if old(self)@.room_of(player_id) == Some(expected_room) {
                    &&& old(self)@.room_left(final(self)@, player_id)
                    &&& cleared == Some(
                        (final(self)@.clients[player_id].delivery(), before.stamp()),
                    )
                } else {
                    final(self)@ == old(self)@ && cleared is None
                }
            }),
    {
        self.clear_room_assignment_guarded(player_id, Some(expected_room))
    }

    /// Ends `player_id`'s membership of whatever room it is seated in.
    pub fn clear_room_assignment(&mut self, player_id: PlayerId) -> (delivery: Option<
        ClientDeliveryHandle,
    >)
        requires
            old(self).wf(),
        ensures
            final(self).wf(),
            if old(self)@.clients.contains_key(player_id) {
                &&& old(self)@.room_left(final(self)@, player_id)
                &&& delivery == Some(final(self)@.clients[player_id].delivery())
            } else {
                final(self)@ == old(self)@ && delivery is None
            },
    {
        match self.clear_room_assignment_guarded(player_id, None) {
            Some((delivery, _)) => Some(delivery),
            None => None,
        }
    }

    /// Puts an entry that was taken out of the table back under a free
    /// identity.
    fn put_entry_as(
        &mut self,
        from: PlayerId,
        to: PlayerId,
        connection: ClientConnection,
        Ghost(before): Ghost<Map<PlayerId, ConnectionView>>,
    )
        requires
            (ManagerView { clients: before, ..old(self)@ }).wf(),
            old(self).live_connections == before.dom().len(),
            slots_match(crate::concurrent_maps::ip_slots(old(self).connections_per_ip), before),
            lifecycles_match(old(self).lifecycles@, before),
            before.contains_key(from),
            !before.contains_key(to),
            old(self)@.clients == before.remove(from),
            connection@.lifecycle == before[from].lifecycle,
            connection@.client_addr == before[from].client_addr,
        ensures
            final(self)@ == (ManagerView {
                clients: before.remove(from).insert(to, connection@),
                ..old(self)@
            }),
            final(self).wf(),
    {
        let lifecycle = connection.lifecycle;
        let ghost view = connection@;
        let _ = insert_connection(&mut self.clients, to, connection);
        let _ = self.lifecycles.insert(lifecycle, to);
        proof {
            let after = self@.clients;
            let rest = before.remove(from);
            assert(after == rest.insert(to, view));
            lemma_remove_counts(before, from);
            lemma_insert_counts(rest, to, view);
            assert forall|one: PlayerId, other: PlayerId|
                #![trigger after[one].lifecycle, after[other].lifecycle]
                after.contains_key(one) && after.contains_key(other) && after[one].lifecycle
                    == after[other].lifecycle implies one == other by {
                let one_before = if one == to { from } else { one };
                let other_before = if other == to { from } else { other };
                assert(before.contains_key(one_before));
                assert(before.contains_key(other_before));
                assert(before[one_before].lifecycle == before[other_before].lifecycle);
            }
            assert forall|player: PlayerId| #[trigger] after.contains_key(player) implies after[player].lifecycle
                < self.next_lifecycle by {
                let player_before = if player == to { from } else { player };
                assert(before.contains_key(player_before));
            }
            let slots = crate::concurrent_maps::ip_slots(self.connections_per_ip);
            assert forall|ip: IpKey|
                #![trigger slots_at(slots, ip)]
                slots_at(slots, ip) == clients_at(after, ip).len() && (slots.contains_key(ip)
                    ==> slots[ip] > 0) by {
                assert(clients_at(rest, ip).len() == clients_at(before, ip).len() - (
                if before[from].client_addr.ip == ip {
                    1int
                } else {
                    0int
                }));
                assert(clients_at(after, ip).len() == clients_at(rest, ip).len() + (
                if view.client_addr.ip == ip {
                    1int
                } else {
                    0int
                }));
            }
            assert(lifecycles_match(self.lifecycles@, after)) by {
                assert forall|player: PlayerId| #[trigger] after.contains_key(player) implies self.lifecycles@.contains_key(
                    after[player].lifecycle,
                ) && self.lifecycles@[after[player].lifecycle] == player by {
                    if player != to {
                        assert(before.contains_key(player));
                        assert(before[player].lifecycle != before[from].lifecycle);
                    }
                }
                assert forall|l: LifecycleId| #[trigger] self.lifecycles@.contains_key(l) implies after.contains_key(
                    self.lifecycles@[l],
                ) && after[self.lifecycles@[l]].lifecycle == l by {
                    if l != lifecycle {
                        assert(old(self).lifecycles@.contains_key(l));
                        let holder = old(self).lifecycles@[l];
                        assert(before.contains_key(holder));
                        assert(holder != from);
                        assert(holder != to);
                    }
                }
            }
        }
    }

    /// Hands the connection of `current_player_id` to the reconnecting
    /// identity, seated in `room_id` at the resumed epoch. Refusals leave the
    /// table as it was. Slots and the physical connection follow the entry.
    pub fn reassign_connection(
        &mut self,
        current_player_id: PlayerId,
        reconnect_player_id: PlayerId,
        room_id: RoomId,
        game_data_epoch: u32,
    ) -> (outcome: ReassignmentOutcome)
        requires
            old(self).wf(),
        ensures
            final(self).wf(),
            match old(self)@.reassignment_refusal(current_player_id, reconnect_player_id) {
                Some(refusal) => outcome == refusal && final(self)@ == old(self)@,
                None => {
                    &&& old(self)@.taken_over(
                        final(self)@,
                        current_player_id,
                        reconnect_player_id,
                        room_id,
                        game_data_epoch,
                    )
                    &&& outcome == ReassignmentOutcome::Reassigned(
                        final(self)@.clients[reconnect_player_id].delivery(),
                    )
                },
            },
    {
        if has_connection(&self.clients, reconnect_player_id) {
            return ReassignmentOutcome::RefusedTargetOccupied;
        }
        let ghost before = self@.clients;
        match remove_connection(&mut self.clients, current_player_id) {
            None => {
                assert(self@.clients =~= before);
                ReassignmentOutcome::TransientConnectionMissing
            },
            Some(mut client) => {
                if let Some(reason) = client.close.requested_reason() {
                    if is_transient_socket_close_reason(reason) {
                        self.put_entry(current_player_id, client, Ghost(before));
                        assert(self@.clients =~= before);
                        return ReassignmentOutcome::RefusedTransientClose(reason);
                    }
                }
                let generation = Self::fresh_membership_generation(&client);
                let now = self.now();
                client.reassign(room_id, game_data_epoch, generation, now);
                let delivery = client.delivery_handle();
                self.put_entry_as(current_player_id, reconnect_player_id, client, Ghost(before));
                assert(self@ == old(self)@.moved(
                    current_player_id,
                    reconnect_player_id,
                    before[current_player_id].reassigned(
                        room_id,
                        game_data_epoch,
                        generation,
                        now,
                    ),
                ));
                ReassignmentOutcome::Reassigned(delivery)
            },
        }
    }

    /// Undoes a reconnect identity swap. Refused while another connection
    /// lives under `current_player_id`.
    pub fn restore_reassigned_connection(
        &mut self,
        current_player_id: PlayerId,
        reconnect_player_id: PlayerId,
    ) -> (restored: Option<ClientDeliveryHandle>)
        requires
            old(self).wf(),
        ensures
            final(self).wf(),
            if old(self)@.clients.contains_key(current_player_id) || !old(
                self,
            )@.clients.contains_key(reconnect_player_id) {
                restored is None && final(self)@ == old(self)@
            } else {
                &&& exists|now: Moment|
                    final(self)@ == old(self)@.moved(
                        reconnect_player_id,
                        current_player_id,
                        #[trigger] old(self)@.clients[reconnect_player_id].restored(now),
                    )
                &&& restored == Some(final(self)@.clients[current_player_id].delivery())
            },
    {
        if has_connection(&self.clients, current_player_id) {
            return None;
        }
        let ghost before = self@.clients;
        match remove_connection(&mut self.clients, reconnect_player_id) {
            None => {
                assert(self@.clients =~= before);
                None
            },
            Some(mut client) => {
                let now = self.now();
                client.restore(now);
                let delivery = client.delivery_handle();
                self.put_entry_as(reconnect_player_id, current_player_id, client, Ghost(before));
                assert(self@ == old(self)@.moved(
                    reconnect_player_id,
                    current_player_id,
                    before[reconnect_player_id].restored(now),
                ));
                Some(delivery)
            },
        }
    }

    /// Allocates the next relay stamp of `player_id` in `expected_room`. None
    /// while it is not seated there, or once its sequence is exhausted; no
    /// number is consumed then.
    pub fn next_relay_stamp_in_room(
        &mut self,
        player_id: PlayerId,
        expected_room: RoomId,
    ) -> (stamp: Option<RelayStamp>)
        requires
            old(self).wf(),
        ensures
            final(self).wf(),
            ({
                let before = old(self)@.clients[player_id];
                if old(self)@.room_of(player_id) == Some(expected_room) && before.game_data_seq
                    < u64::MAX {
                    &&& final(self)@ == old(self)@.with_client(player_id, before.stamped())
                    &&& stamp == Some(before.stamped().stamp())
                } else {
                    final(self)@ == old(self)@ && stamp is None
                }
            }),
    {
        let ghost before = self@.clients;
        match remove_connection(&mut self.clients, player_id) {
            None => {
                assert(self@.clients =~= before);
                None
            },
            Some(mut client) => {
                let seated = match client.room_id {
                    Some(room) => room == expected_room,
                    None => false,
                };
                let stamp = if seated {
                    client.next_stamp()
                } else {
                    None
                };
                self.put_entry(player_id, client, Ghost(before));
                proof {
                    if stamp is None {
                        assert(self@.clients =~= before);
                    }
                }
                stamp
            },
        }
    }

    /// The relay stamp `player_id` has reached, while it is seated in
    /// `expected_room`.
    pub fn current_relay_stamp_in_room(
        &self,
        player_id: PlayerId,
        expected_room: RoomId,
    ) -> (stamp: Option<RelayStamp>)
        ensures
            stamp == (if self@.room_of(player_id) == Some(expected_room) {
                Some(self@.clients[player_id].stamp())
            } else {
                None
            }),
    {
        match get_connection(&self.clients, player_id) {
            Some(client) => match client.room_id {
                Some(room) => if room == expected_room {
                    Some(client.relay_stamp())
                } else {
                    None
                },
                None => None,
            },
            None => None,
        }
    }

    /// Moves a roomless role transition's token and queue generation forward
    /// and republishes the handle without a room.
    pub fn advance_delivery_generation(
        &mut self,
        coordinator: &mut InMemoryMessageCoordinator,
        player_id: PlayerId,
    )
        requires
            old(self).wf(),
            old(coordinator)@.wf(),
        ensures
            final(self).wf(),
            final(coordinator)@.wf(),
            if old(self)@.clients.contains_key(player_id) {
                &&& old(self)@.delivery_advanced(final(self)@, player_id)
                &&& final(coordinator)@ == old(coordinator)@.registered(
                    player_id,
                    None,
                    final(self)@.clients[player_id].delivery(),
                )
            } else {
                final(self)@ == old(self)@ && final(coordinator)@ == old(coordinator)@
            },
    {
        let ghost before = self@.clients;
        match remove_connection(&mut self.clients, player_id) {
            None => {
                assert(self@.clients =~= before);
            },
            Some(mut client) => {
                let generation = Self::fresh_membership_generation(&client);
                client.advance_delivery(generation);
                let delivery = client.delivery_handle();
                self.put_entry(player_id, client, Ghost(before));
                assert(self@ == old(self)@.with_client(
                    player_id,
                    before[player_id].delivery_advanced(generation),
                ));
                coordinator.register_local_client(player_id, None, delivery);
            },
        }
    }

    /// Undoes an unpublished roomless transition and republishes the handle of
    /// the generation before it.
    pub fn rollback_delivery_generation(
        &mut self,
        coordinator: &mut InMemoryMessageCoordinator,
        player_id: PlayerId,
    )
        requires
            old(self).wf(),
            old(coordinator)@.wf(),
        ensures
            final(self).wf(),
            final(coordinator)@.wf(),
            if old(self)@.clients.contains_key(player_id) {
                let after = old(self)@.clients[player_id].delivery_rolled_back();
                &&& final(self)@ == old(self)@.with_client(player_id, after)
                &&& final(coordinator)@ == old(coordinator)@.registered(
                    player_id,
                    None,
                    after.delivery(),
                )
            } else {
                final(self)@ == old(self)@ && final(coordinator)@ == old(coordinator)@
            },
    {
        let ghost before = self@.clients;
        match remove_connection(&mut self.clients, player_id) {
            None => {
                assert(self@.clients =~= before);
            },
            Some(mut client) => {
                client.roll_back_delivery();
                let delivery = client.delivery_handle();
                self.put_entry(player_id, client, Ghost(before));
                coordinator.register_local_client(player_id, None, delivery);
            },
        }
    }

    /// Records that `player_id` was heard from at `now`.
    pub fn record_ping_at(&mut self, player_id: PlayerId, now: Moment)
        requires
            old(self).wf(),
        ensures
            final(self).wf(),
            final(self)@ == old(self)@.updated(
                player_id,
                old(self)@.clients[player_id].pinged(now),
            ),
    {
        let ghost before = self@.clients;
        match remove_connection(&mut self.clients, player_id) {
            None => {
                assert(self@.clients =~= before);
            },
            Some(mut client) => {
                client.last_ping = now;
                self.put_entry(player_id, client, Ghost(before));
            },
        }
    }

    /// Records that `player_id` was heard from.
    pub fn record_ping(&mut self, player_id: PlayerId)
        requires
            old(self).wf(),
        ensures
            final(self).wf(),
            old(self)@.pinged(final(self)@, player_id),
    {
        let now = self.now();
        self.record_ping_at(player_id, now);
        assert(self@ == old(self)@.updated(player_id, old(self)@.clients[player_id].pinged(now)));
    }

    /// Whether `last_seen` is due for `player_id` at `now`; if so the throttle
    /// restarts. Never due for an unknown player: it can take no throttle
    /// stamp.
    pub fn should_update_last_seen_at(
        &mut self,
        player_id: PlayerId,
        now: Moment,
        threshold: Nanos,
    ) -> (due: bool)
        requires
            old(self).wf(),
        ensures
            final(self).wf(),
            due == old(self)@.last_seen_due(player_id, now, threshold),
            final(self)@ == (if due {
                old(self)@.with_client(player_id, old(self)@.clients[player_id].seen(now))
            } else {
                old(self)@
            }),
    {
        let ghost before = self@.clients;
        match remove_connection(&mut self.clients, player_id) {
            None => {
                assert(self@.clients =~= before);
                false
            },
            Some(mut client) => {
                let due = client.is_last_seen_due(now, threshold);
                if due {
                    client.last_heartbeat_update = Some(now);
                }
                self.put_entry(player_id, client, Ghost(before));
                proof {
                    if !due {
                        assert(self@.clients =~= before);
                    }
                }
                due
            },
        }
    }

    /// Whether `last_seen` is due for `player_id`; if so the throttle restarts.
    pub fn should_update_last_seen(&mut self, player_id: PlayerId, threshold: Nanos) -> (due: bool)
        requires
            old(self).wf(),
        ensures
            final(self).wf(),
            exists|now: Moment|
                #![trigger old(self)@.last_seen_due(player_id, now, threshold)]
                due == old(self)@.last_seen_due(player_id, now, threshold) && final(self)@ == (
                if due {
                    old(self)@.with_client(player_id, old(self)@.clients[player_id].seen(now))
                } else {
                    old(self)@
                }),
    {
        let now = self.now();
        self.should_update_last_seen_at(player_id, now, threshold)
    }

    /// The players quiet for longer than `ping_timeout` at `now`.
    pub fn collect_expired_clients_at(&self, now: Moment, ping_timeout: Nanos) -> (expired: Vec<
        PlayerId,
    >)
        ensures
            expired@.no_duplicates(),
            expired@.to_set() == self@.expired_clients(now, ping_timeout),
    {
        let ids = connection_ids(&self.clients);
        let mut expired: Vec<PlayerId> = Vec::new();
        let mut index: usize = 0;
        while index < ids.len()
            invariant
                index <= ids.len(),
                ids@.no_duplicates(),
                ids@.to_set() == self@.clients.dom(),
                expired@.no_duplicates(),
                forall|player: PlayerId| #[trigger]
                    expired@.contains(player) <==> ids@.take(index as int).contains(player)
                        && self@.clients[player].expired(now, ping_timeout),
            decreases ids.len() - index,
        {
            let player = ids[index];
            proof {
                crate::identifiers::lemma_take_next(ids@, index as int);
                assert(ids@.to_set().contains(player));
                if ids@.take(index as int).contains(player) {
                    let at = choose|i: int|
                        0 <= i < index && #[trigger] ids@.take(index as int)[i] == player;
                    assert(ids@[at] == ids@[index as int]);
                }
            }
            match get_connection(&self.clients, player) {
                Some(client) => {
                    if client.is_expired(now, ping_timeout) {
                        proof {
                            crate::identifiers::lemma_push_contains(expired@, player);
                        }
                        expired.push(player);
                    }
                },
                None => {},
            }
            index += 1;
        }
        proof {
            assert(ids@.take(index as int) =~= ids@);
            assert forall|player: PlayerId| expired@.to_set().contains(player) <==> self@.expired_clients(
                now,
                ping_timeout,
            ).contains(player) by {
                assert(expired@.contains(player) <==> ids@.contains(player)
                    && self@.clients[player].expired(now, ping_timeout));
                assert(ids@.to_set().contains(player) == self@.clients.contains_key(player));
            }
            assert(expired@.to_set() =~= self@.expired_clients(now, ping_timeout));
        }
        expired
    }

    /// The players quiet for longer than `ping_timeout`.
    pub fn collect_expired_clients(&self, ping_timeout: Nanos) -> (expired: Vec<PlayerId>)
        ensures
            expired@.no_duplicates(),
            exists|now: Moment|
                expired@.to_set() == #[trigger] self@.expired_clients(now, ping_timeout),
    {
        let now = self.now();
        self.collect_expired_clients_at(now, ping_timeout)
    }

    /// Checks liveness again at `now` and pins the activity-timeout close in
    /// the same step. A client heard from in the meantime is rescued. Returns
    /// whether this call initiated the close.
    pub fn request_activity_timeout_if_expired_at(
        &mut self,
        player_id: PlayerId,
        now: Moment,
        ping_timeout: Nanos,
    ) -> (initiated: bool)
        requires
            old(self).wf(),
        ensures
            final(self).wf(),
            final(self)@ == old(self)@.activity_checked(player_id, now, ping_timeout),
            initiated == old(self)@.times_out(player_id, now, ping_timeout),
    {
        let ghost before = self@.clients;
        match remove_connection(&mut self.clients, player_id) {
            None => {
                assert(self@.clients =~= before);
                false
            },
            Some(mut client) => {
                let initiated = if client.is_expired(now, ping_timeout) {
                    client.request_close(CloseReason::ActivityTimeout)
                } else {
                    false
                };
                self.put_entry(player_id, client, Ghost(before));
                proof {
                    if !before[player_id].expired(now, ping_timeout) {
                        assert(self@.clients =~= before);
                    }
                }
                initiated
            },
        }
    }

    /// Checks liveness again and pins the activity-timeout close in the same
    /// step. Returns whether this call initiated the close.
    pub fn request_activity_timeout_if_expired(
        &mut self,
        player_id: PlayerId,
        ping_timeout: Nanos,
    ) -> (initiated: bool)
        requires
            old(self).wf(),
        ensures
            final(self).wf(),
            exists|now: Moment|
                final(self)@ == #[trigger] old(self)@.activity_checked(player_id, now, ping_timeout)
                    && initiated == old(self)@.times_out(player_id, now, ping_timeout),
    {
        let now = self.now();
        self.request_activity_timeout_if_expired_at(player_id, now, ping_timeout)
    }

    /// Requests a close of `player_id`'s connection without unregistering it.
    /// Returns whether this call initiated the close.
    pub fn request_close_for(&mut self, player_id: PlayerId, reason: CloseReason) -> (initiated:
        bool)
        requires
            old(self).wf(),
        ensures
            final(self).wf(),
            final(self)@ == old(self)@.updated(
                player_id,
                old(self)@.clients[player_id].closing(reason),
            ),
            initiated == (old(self)@.clients.contains_key(player_id) && old(
                self,
            )@.clients[player_id].close is None),
    {
        let ghost before = self@.clients;
        match remove_connection(&mut self.clients, player_id) {
            None => {
                assert(self@.clients =~= before);
                false
            },
            Some(mut client) => {
                let initiated = client.request_close(reason);
                self.put_entry(player_id, client, Ghost(before));
                initiated
            },
        }
    }

    /// Charges one polite reply against `player_id`'s budget. An unknown
    /// player has none to exhaust.
    pub fn charge_error_reply(&mut self, player_id: PlayerId) -> (charge: ErrorReplyCharge)
        requires
            old(self).wf(),
        ensures
            final(self).wf(),
            final(self)@ == old(self)@.updated(
                player_id,
                old(self)@.clients[player_id].charged(old(self)@.limits.max_error_replies),
            ),
            charge == (if old(self)@.clients.contains_key(player_id) {
                old(self)@.clients[player_id].charge_outcome(old(self)@.limits.max_error_replies)
            } else {
                ErrorReplyCharge::Admitted
            }),
    {
        let ghost before = self@.clients;
        match remove_connection(&mut self.clients, player_id) {
            None => {
                assert(self@.clients =~= before);
                ErrorReplyCharge::Admitted
            },
            Some(mut client) => {
                let charge = client.charge_error_reply(self.limits.max_error_replies);
                self.put_entry(player_id, client, Ghost(before));
                charge
            },
        }
    }

    /// Records a transport report of `player_id`.
    pub fn set_transport_status(
        &mut self,
        player_id: PlayerId,
        transport: Transport,
        connected: bool,
    ) -> (update: TransportStatusUpdate)
        requires
            old(self).wf(),
        ensures
            final(self).wf(),
            final(self)@ == old(self)@.updated(
                player_id,
                old(self)@.clients[player_id].with_transport_report(transport, connected),
            ),
            update == (if old(self)@.clients.contains_key(player_id) {
                old(self)@.clients[player_id].transport_update(transport, connected)
            } else {
                TransportStatusUpdate::MissingConnection
            }),
    {
        let ghost before = self@.clients;
        match remove_connection(&mut self.clients, player_id) {
            None => {
                assert(self@.clients =~= before);
                TransportStatusUpdate::MissingConnection
            },
            Some(mut client) => {
                let update = client.report_transport(transport, connected);
                self.put_entry(player_id, client, Ghost(before));
                update
            },
        }
    }

    /// Takes a roomless connection out of the table, gives its slots back, and
    /// requests its close: with `Shutdown` if the server drains at that moment,
    /// else with `Unregistered`. Refused while the player is seated, because
    /// the entry holds the only terminal relay stamp of that membership.
    pub fn remove_client_for_unregistration<F: FnOnce() -> bool>(
        &mut self,
        player_id: PlayerId,
        is_draining: F,
    ) -> (removed: Option<(ClientConnection, CloseReason)>)
        requires
            old(self).wf(),
            call_requires(is_draining, ()),
        ensures
            final(self).wf(),
            if old(self)@.clients.contains_key(player_id) && old(self)@.room_of(player_id) is None {
                &&& final(self)@ == (ManagerView {
                    clients: old(self)@.clients.remove(player_id),
                    ..old(self)@
                })
                &&& match removed {
                    Some((connection, reason)) => {
                        &&& reason is Shutdown || reason is Unregistered
                        &&& call_ensures(is_draining, (), reason is Shutdown)
                        &&& connection@ == old(self)@.clients[player_id].closing(reason)
                    },
                    None => false,
                }
            } else {
                removed is None && final(self)@ == old(self)@
            },
    {
        let ghost before = self@.clients;
        match remove_connection(&mut self.clients, player_id) {
            None => {
                assert(self@.clients =~= before);
                None
            },
            Some(mut connection) => {
                if connection.room_id.is_some() {
                    self.put_entry(player_id, connection, Ghost(before));
                    assert(self@.clients =~= before);
                    return None;
                }
                let _ = self.lifecycles.remove(&connection.lifecycle);
                self.release_ip_slot(connection.client_addr.ip);
                self.release_global_slot();
                proof {
                    let after = self@.clients;
                    lemma_remove_counts(before, player_id);
                    let slots = crate::concurrent_maps::ip_slots(self.connections_per_ip);
                    let taken = crate::concurrent_maps::ip_slots(old(self).connections_per_ip);
                    assert forall|ip: IpKey|
                        #![trigger slots_at(slots, ip)]
                        slots_at(slots, ip) == clients_at(after, ip).len() && (slots.contains_key(
                            ip,
                        ) ==> slots[ip] > 0) by {
                        assert(slots_at(taken, ip) == clients_at(before, ip).len());
                        assert(clients_at(after, ip).len() == clients_at(before, ip).len() - (
                        if before[player_id].client_addr.ip == ip {
                            1int
                        } else {
                            0int
                        }));
                    }
                    assert forall|player: PlayerId| #[trigger] after.contains_key(player) implies before.contains_key(player) by {}
                    assert forall|one: PlayerId, other: PlayerId|
                        #![trigger after[one].lifecycle, after[other].lifecycle]
                        after.contains_key(one) && after.contains_key(other) && after[one].lifecycle
                            == after[other].lifecycle implies one == other by {
                        assert(before[one].lifecycle == before[other].lifecycle);
                    }
                    assert(lifecycles_match(self.lifecycles@, after)) by {
                        assert forall|player: PlayerId| #[trigger] after.contains_key(player) implies self.lifecycles@.contains_key(
                            after[player].lifecycle,
                        ) && self.lifecycles@[after[player].lifecycle] == player by {
                            assert(before.contains_key(player));
                            assert(before[player].lifecycle != before[player_id].lifecycle);
                        }
                        assert forall|l: LifecycleId| #[trigger] self.lifecycles@.contains_key(l) implies after.contains_key(
                            self.lifecycles@[l],
                        ) && after[self.lifecycles@[l]].lifecycle == l by {
                            assert(old(self).lifecycles@.contains_key(l));
                        }
                    }
                }
                let close_reason = if is_draining() {
                    CloseReason::Shutdown
                } else {
                    CloseReason::Unregistered
                };
                let _ = connection.request_close(close_reason);
                Some((connection, close_reason))
            },
        }
    }

    /// Records the negotiated game-data encoding.
    pub fn set_game_data_format(&mut self, player_id: PlayerId, format: GameDataEncoding)
        requires
            old(self).wf(),
        ensures
            final(self).wf(),
            final(self)@ == old(self)@.updated(
                player_id,
                (ConnectionView { game_data_format: format, ..old(self)@.clients[player_id] }),
            ),
    {
        let ghost before = self@.clients;
        match remove_connection(&mut self.clients, player_id) {
            None => {
                assert(self@.clients =~= before);
            },
            Some(mut client) => {
                client.game_data_format = format;
                self.put_entry(player_id, client, Ghost(before));
            },
        }
    }

    /// Records the negotiated protocol capabilities.
    pub fn set_protocol(&mut self, player_id: PlayerId, protocol: NegotiatedProtocol)
        requires
            old(self).wf(),
        ensures
            final(self).wf(),
            final(self)@ == old(self)@.updated(
                player_id,
                (ConnectionView { protocol: protocol@, ..old(self)@.clients[player_id] }),
            ),
    {
        let ghost before = self@.clients;
        match remove_connection(&mut self.clients, player_id) {
            None => {
                assert(self@.clients =~= before);
            },
            Some(mut client) => {
                client.protocol = protocol;
                self.put_entry(player_id, client, Ghost(before));
            },
        }
    }

    /// Records whether correlated room operations were negotiated.
    pub fn set_room_operation_ids(&mut self, player_id: PlayerId, enabled: bool)
        requires
            old(self).wf(),
        ensures
            final(self).wf(),
            final(self)@ == old(self)@.updated(
                player_id,
                (ConnectionView { room_operation_ids: enabled, ..old(self)@.clients[player_id] }),
            ),
    {
        let ghost before = self@.clients;
        match remove_connection(&mut self.clients, player_id) {
            None => {
                assert(self@.clients =~= before);
            },
            Some(mut client) => {
                client.room_operation_ids = enabled;
                self.put_entry(player_id, client, Ghost(before));
            },
        }
    }

    /// Attaches the accepted application context.
    pub fn set_app_context(&mut self, player_id: PlayerId, app_context: AppContext)
        requires
            old(self).wf(),
        ensures
            final(self).wf(),
            final(self)@ == old(self)@.updated(
                player_id,
                (ConnectionView { app_context: Some(app_context), ..old(self)@.clients[player_id] }),
            ),
    {
        let ghost before = self@.clients;
        match remove_connection(&mut self.clients, player_id) {
            None => {
                assert(self@.clients =~= before);
            },
            Some(mut client) => {
                client.app_context = Some(app_context);
                self.put_entry(player_id, client, Ghost(before));
            },
        }
    }

    /// Records the identity that reconnect credentials must retain.
    pub fn set_reconnection_identity(&mut self, player_id: PlayerId, identity: Option<String>)
        requires
            old(self).wf(),
        ensures
            final(self).wf(),
            final(self)@ == old(self)@.updated(
                player_id,
                (ConnectionView { reconnection_identity: identity, ..old(self)@.clients[player_id] }),
            ),
    {
        let ghost before = self@.clients;
        match remove_connection(&mut self.clients, player_id) {
            None => {
                assert(self@.clients =~= before);
            },
            Some(mut client) => {
                client.reconnection_identity = identity;
                self.put_entry(player_id, client, Ghost(before));
            },
        }
    }

    /// The negotiated game-data encoding; JSON for an unknown player.
    pub fn game_data_format(&self, player_id: PlayerId) -> (answer: GameDataEncoding)
        ensures
            answer == (if self@.clients.contains_key(player_id) {
                self@.clients[player_id].game_data_format
            } else {
                GameDataEncoding::Json
            }),
    {
        match get_connection(&self.clients, player_id) {
            Some(client) => client.game_data_format,
            None => GameDataEncoding::Json,
        }
    }

    /// Whether the client expects payloads in `encoding`.
    pub fn prefers_encoding(&self, player_id: PlayerId, encoding: GameDataEncoding) -> (answer: bool)
        ensures
            answer == (encoding == (if self@.clients.contains_key(player_id) {
                self@.clients[player_id].game_data_format
            } else {
                GameDataEncoding::Json
            })),
    {
        self.game_data_format(player_id) == encoding
    }

    /// The negotiated protocol; the relay-only floor for an unknown player.
    pub fn protocol(&self, player_id: PlayerId) -> (answer: NegotiatedProtocol)
        ensures
            answer@ == (if self@.clients.contains_key(player_id) {
                self@.clients[player_id].protocol
            } else {
                crate::connection::default_protocol()
            }),
    {
        match get_connection(&self.clients, player_id) {
            Some(client) => client.protocol,
            None => NegotiatedProtocol::default(),
        }
    }

    /// Whether correlated room operations were negotiated.
    pub fn supports_room_operation_ids(&self, player_id: PlayerId) -> (answer: bool)
        ensures
            answer == (if self@.clients.contains_key(player_id) {
                self@.clients[player_id].room_operation_ids
            } else {
                false
            }),
    {
        match get_connection(&self.clients, player_id) {
            Some(client) => client.room_operation_ids,
            None => false,
        }
    }

    /// The data path reported in the current membership, if any.
    pub fn transport_status(&self, player_id: PlayerId) -> (answer: Option<(Transport, bool)>)
        ensures
            answer == (if self@.clients.contains_key(player_id) {
                self@.clients[player_id].current_transport()
            } else {
                None
            }),
    {
        match get_connection(&self.clients, player_id) {
            Some(client) => client.reported_transport(),
            None => None,
        }
    }

    /// Whether the client negotiated protocol v3 or later: the one gate for every
    /// feature over the relay floor.
    pub fn supports_v3(&self, player_id: PlayerId) -> (answer: bool)
        ensures
            answer == (if self@.clients.contains_key(player_id) {
                self@.clients[player_id].protocol.version >= V3_PROTOCOL_VERSION
            } else {
                false
            }),
    {
        match get_connection(&self.clients, player_id) {
            Some(client) => client.protocol.version >= V3_PROTOCOL_VERSION,
            None => false,
        }
    }

    /// Whether the client negotiated `transport`.
    pub fn supports_transport(&self, player_id: PlayerId, transport: Transport) -> (answer: bool)
        ensures
            answer == (if self@.clients.contains_key(player_id) {
                self@.clients[player_id].protocol.transports.contains(transport)
            } else {
                false
            }),
    {
        match get_connection(&self.clients, player_id) {
            Some(client) => contains_transport(&client.protocol.transports, transport),
            None => false,
        }
    }

    /// The accepted application context, if any.
    pub fn app_context(&self, player_id: PlayerId) -> (answer: Option<AppContext>)
        ensures
            answer == (if self@.clients.contains_key(player_id) {
                self@.clients[player_id].app_context
            } else {
                None
            }),
    {
        match get_connection(&self.clients, player_id) {
            Some(client) => client.app_context,
            None => None,
        }
    }

    /// The identity that reconnect credentials must retain, if any.
    pub fn reconnection_identity(&self, player_id: PlayerId) -> (answer: Option<String>)
        ensures
            answer == (if self@.clients.contains_key(player_id) {
                self@.clients[player_id].reconnection_identity
            } else {
                None
            }),
    {
        match get_connection(&self.clients, player_id) {
            Some(client) => client.reconnection_identity,
            None => None,
        }
    }

    /// The application of a connection, if known.
    pub fn app_id(&self, player_id: PlayerId) -> (answer: Option<AppId>)
        ensures
            answer == (if self@.clients.contains_key(player_id) {
                match self@.clients[player_id].app_context {
                    Some(context) => Some(context.id),
                    None => None,
                }
            } else {
                None
            }),
    {
        match self.app_context(player_id) {
            Some(context) => Some(context.id),
            None => None,
        }
    }

    /// The incarnation epoch a connection has reached.
    pub fn game_data_epoch(&self, player_id: PlayerId) -> (answer: Option<u32>)
        ensures
            answer == (if self@.clients.contains_key(player_id) {
                Some(self@.clients[player_id].game_data_epoch)
            } else {
                None
            }),
    {
        match get_connection(&self.clients, player_id) {
            Some(client) => Some(client.game_data_epoch),
            None => None,
        }
    }

    /// Moves the incarnation epoch of a connection on by one, up to its limit.
    pub fn bump_game_data_epoch_for_test(&mut self, player_id: PlayerId)
        requires
            old(self).wf(),
        ensures
            final(self).wf(),
            final(self)@ == old(self)@.updated(
                player_id,
                (ConnectionView {
                    game_data_epoch: if old(self)@.clients[player_id].game_data_epoch == u32::MAX {
                        u32::MAX
                    } else {
                        (old(self)@.clients[player_id].game_data_epoch + 1) as u32
                    },
                    ..old(self)@.clients[player_id]
                }),
            ),
    {
        let ghost before = self@.clients;
        match remove_connection(&mut self.clients, player_id) {
            None => {
                assert(self@.clients =~= before);
            },
            Some(mut client) => {
                client.game_data_epoch = client.game_data_epoch.saturating_add(1);
                self.put_entry(player_id, client, Ghost(before));
            },
        }
    }

    /// The room a player is seated in.
    pub fn get_client_room(&self, player_id: PlayerId) -> (room: Option<RoomId>)
        ensures
            room == self@.room_of(player_id),
    {
        match get_connection(&self.clients, player_id) {
            Some(client) => client.room_id,
            None => None,
        }
    }

    /// The physical connection behind a player.
    pub fn client_lifecycle(&self, player_id: PlayerId) -> (answer: Option<LifecycleId>)
        ensures
            answer == (if self@.clients.contains_key(player_id) {
                Some(self@.clients[player_id].lifecycle)
            } else {
                None
            }),
    {
        match get_connection(&self.clients, player_id) {
            Some(client) => Some(client.lifecycle),
            None => None,
        }
    }

    /// Whether `lifecycle` is the physical connection behind a player.
    pub fn lifecycle_matches(&self, player_id: PlayerId, lifecycle: LifecycleId) -> (matches: bool)
        ensures
            matches == (self@.clients.contains_key(player_id) && self@.clients[player_id].lifecycle
                == lifecycle),
    {
        match get_connection(&self.clients, player_id) {
            Some(client) => client.lifecycle == lifecycle,
            None => false,
        }
    }

    /// The player a physical connection currently stands for. A task that was
    /// queued under an earlier identity follows the surviving connection
    /// through this.
    pub fn lifecycle_player(&self, lifecycle: LifecycleId) -> (player: Option<PlayerId>)
        requires
            self.wf(),
        ensures
            match player {
                Some(player) => self@.clients.contains_key(player)
                    && self@.clients[player].lifecycle == lifecycle,
                None => forall|player: PlayerId| #[trigger]
                    self@.clients.contains_key(player) ==> self@.clients[player].lifecycle
                        != lifecycle,
            },
    {
        match self.lifecycles.get(&lifecycle) {
            Some(player) => Some(*player),
            None => None,
        }
    }

    /// Requests a close of the physical connection `lifecycle`, whichever
    /// player it stands for. Returns whether this call initiated the close.
    pub fn request_close_for_lifecycle(
        &mut self,
        lifecycle: LifecycleId,
        reason: CloseReason,
    ) -> (initiated: bool)
        requires
            old(self).wf(),
        ensures
            final(self).wf(),
            forall|player: PlayerId|
                #![trigger old(self)@.clients[player]]
                old(self)@.clients.contains_key(player) && old(self)@.clients[player].lifecycle
                    == lifecycle ==> final(self)@ == old(self)@.with_client(
                    player,
                    old(self)@.clients[player].closing(reason),
                ) && initiated == (old(self)@.clients[player].close is None),
            (forall|player: PlayerId|
                #![trigger old(self)@.clients[player]]
                old(self)@.clients.contains_key(player) ==> old(self)@.clients[player].lifecycle
                    != lifecycle) ==> final(self)@ == old(self)@ && !initiated,
    {
        match self.lifecycle_player(lifecycle) {
            Some(player) => self.request_close_for(player, reason),
            None => false,
        }
    }

    /// Whether a player is registered.
    pub fn has_client(&self, player_id: PlayerId) -> (registered: bool)
        ensures
            registered == self@.clients.contains_key(player_id),
    {
        has_connection(&self.clients, player_id)
    }

    /// The registered players, in no particular order.
    pub fn client_ids(&self) -> (players: Vec<PlayerId>)
        ensures
            players@.no_duplicates(),
            players@.to_set() == self@.clients.dom(),
    {
        connection_ids(&self.clients)
    }

    /// Ends whatever membership a player has and takes it out of the table.
    pub fn remove_client(&mut self, player_id: PlayerId) -> (removed: Option<ClientConnection>)
        requires
            old(self).wf(),
        ensures
            final(self).wf(),
            final(self)@ == (ManagerView {
                clients: old(self)@.clients.remove(player_id),
                ..old(self)@
            }),
            removed is Some <==> old(self)@.clients.contains_key(player_id),
            removed is Some ==> old(self)@.departed(player_id, removed->0@),
    {
        let _ = self.clear_room_assignment_guarded(player_id, None);
        let ghost cleared = self@;
        let removed = self.remove_client_for_unregistration(player_id, never_draining);
        proof {
            assert(self@.clients =~= old(self)@.clients.remove(player_id));
            if removed is Some {
                let generation = choose|generation: MembershipGeneration|
                    old(self)@.clients[player_id].draws_generation(generation) && cleared == old(
                        self,
                    )@.with_client(
                        player_id,
                        #[trigger] old(self)@.clients[player_id].left_room(generation),
                    );
                assert(cleared.clients[player_id] == old(self)@.clients[player_id].left_room(
                    generation,
                ));
            }
        }
        match removed {
            Some((connection, _)) => Some(connection),
            None => None,
        }
    }
}

/// Admission never exceeds either budget: after an admitted registration the
/// address and the server hold at most what they may.
pub proof fn law_admission_keeps_the_budgets(
    table: ManagerView,
    player: PlayerId,
    now: Moment,
    sender: DeliverySender,
    client_addr: ClientAddr,
)
    requires
        table.wf(),
        !table.clients.contains_key(player),
        table.refusal(client_addr.ip) is None,
    ensures
        ({
            let after = table.admitted(player, now, sender, client_addr);
            &&& clients_at(after.clients, client_addr.ip).len()
                <= table.limits.max_connections_per_ip
            &&& after.clients.dom().len() <= table.limits.max_connections
        }),
{
    lemma_insert_counts(
        table.clients,
        player,
        ConnectionView::registered(table.next_lifecycle, now, sender, client_addr),
    );
}

/// A slot taken by a registration is given back by the removal of that entry:
/// admission is then answered as before the registration.
pub proof fn law_removal_gives_the_slots_back(
    table: ManagerView,
    player: PlayerId,
    now: Moment,
    sender: DeliverySender,
    client_addr: ClientAddr,
    ip: IpKey,
)
    requires
        table.wf(),
        !table.clients.contains_key(player),
    ensures
        ({
            let after = table.admitted(player, now, sender, client_addr);
            (ManagerView { clients: after.clients.remove(player), ..after }).refusal(ip)
                == table.refusal(ip)
        }),
{
    let after = table.admitted(player, now, sender, client_addr);
    assert(after.clients.remove(player) =~= table.clients);
}

/// An identity swap takes and gives no slot: admission from any address is
/// answered as before it.
pub proof fn law_identity_swap_conserves_slots(
    table: ManagerView,
    after: ManagerView,
    current: PlayerId,
    target: PlayerId,
    room: RoomId,
    epoch: u32,
    ip: IpKey,
)
    requires
        table.wf(),
        table.reassignment_refusal(current, target) is None,
        table.taken_over(after, current, target, room, epoch),
    ensures
        after.refusal(ip) == table.refusal(ip),
        after.clients[target].lifecycle == table.clients[current].lifecycle,
        !after.clients.contains_key(current),
{
    let (generation, now) = choose|generation: MembershipGeneration, now: Moment|
        table.clients[current].draws_generation(generation) && after == table.moved(
            current,
            target,
            #[trigger] table.clients[current].reassigned(room, epoch, generation, now),
        );
    let swapped = table.clients[current].reassigned(room, epoch, generation, now);
    lemma_remove_counts(table.clients, current);
    lemma_insert_counts(table.clients.remove(current), target, swapped);
    assert(clients_at(table.clients.remove(current), ip).len() == clients_at(
        table.clients,
        ip,
    ).len() - (if table.clients[current].client_addr.ip == ip {
        1int
    } else {
        0int
    }));
    assert(clients_at(after.clients, ip).len() == clients_at(
        table.clients.remove(current),
        ip,
    ).len() + (if swapped.client_addr.ip == ip {
        1int
    } else {
        0int
    }));
}

/// A client heard from after a sweep collected it is not evicted by that
/// sweep: the check before the close sees the later ping.
pub proof fn law_a_later_ping_rescues(
    before: ConnectionView,
    heard_at: Moment,
    checked_at: Moment,
    timeout: Nanos,
)
    requires
        checked_at - heard_at <= timeout,
    ensures
        !before.pinged(heard_at).expired(checked_at, timeout),
{
}

/// Admission is refused exactly if the source address, or else the server, holds
/// as many connections as it may, and the refusal says how many and how many it
/// may.
pub proof fn law_admission_is_refused_only_at_a_limit(table: ManagerView, ip: IpKey)
    requires
        table.wf(),
        table.clients.dom().len() <= usize::MAX,
    ensures
        ({
            let there = table.clients.dom().filter(
                |player: PlayerId| table.clients[player].client_addr.ip == ip,
            ).len();
            let total = table.clients.dom().len();
            let crowded = there >= table.limits.max_connections_per_ip;
            let full = total >= table.limits.max_connections;
            &&& table.refusal(ip) is None <==> !crowded && !full
            &&& table.refusal(ip) matches Some(RegisterClientError::IpLimitExceeded { current, limit })
                ==> crowded && current == there && limit == table.limits.max_connections_per_ip
            &&& table.refusal(ip) matches Some(RegisterClientError::CapacityExceeded {
                current,
                limit,
            }) ==> !crowded && full && current == total && limit == table.limits.max_connections
            &&& table.refusal(ip) != Some(RegisterClientError::ServerDraining)
            &&& crowded ==> table.refusal(ip)->0 is IpLimitExceeded
            &&& !crowded && full ==> table.refusal(ip)->0 is CapacityExceeded
        }),
{
    let there = clients_at(table.clients, ip);
    assert(there.subset_of(table.clients.dom()));
    vstd::set_lib::lemma_len_subset(there, table.clients.dom());
}

/// An admitted client has an entry of its own under a physical identity nobody
/// had before, and nobody else's entry changes.
pub proof fn law_admission_adds_one_connection(
    table: ManagerView,
    player: PlayerId,
    now: Moment,
    sender: DeliverySender,
    client_addr: ClientAddr,
    other: PlayerId,
)
    requires
        table.wf(),
        table.next_lifecycle < u64::MAX,
        other != player,
    ensures
        ({
            let after = table.admitted(player, now, sender, client_addr);
            &&& after.clients.contains_key(player)
            &&& after.clients[player].sender == sender
            &&& after.clients[player].client_addr == client_addr
            &&& after.clients[player].last_ping == now
            &&& after.clients[player].room_id is None
            &&& after.clients[player].lifecycle == table.next_lifecycle
            &&& table.next_handle(sender).sender == sender
            &&& table.next_handle(sender).lifecycle == after.clients[player].lifecycle
            &&& after.next_lifecycle == table.next_lifecycle + 1
            &&& after.limits == table.limits
            &&& after.clients.contains_key(other) == table.clients.contains_key(other)
            &&& table.clients.contains_key(other) ==> after.clients[other] == table.clients[other]
                && after.clients[other].lifecycle != after.clients[player].lifecycle
        }),
{
}

/// A change of one entry changes no other one, and nothing where there is none.
pub proof fn law_entries_change_alone(
    table: ManagerView,
    player: PlayerId,
    connection: ConnectionView,
    other: PlayerId,
)
    requires
        other != player,
    ensures
        ({
            let after = table.updated(player, connection);
            &&& after.clients.contains_key(player) == table.clients.contains_key(player)
            &&& table.clients.contains_key(player) ==> after.clients[player] == connection
            &&& after.clients.contains_key(other) == table.clients.contains_key(other)
            &&& table.clients.contains_key(other) ==> after.clients[other] == table.clients[other]
            &&& after.limits == table.limits
            &&& after.next_lifecycle == table.next_lifecycle
        }),
{
}

/// A player's room is the one its entry is seated in, and none without an entry.
pub proof fn law_rooms_are_those_of_the_entries(table: ManagerView, player: PlayerId)
    ensures
        table.clients.contains_key(player) ==> table.room_of(player)
            == table.clients[player].room_id,
        !table.clients.contains_key(player) ==> table.room_of(player) is None,
{
}

/// Entering a room seats exactly this player there, under a token and an epoch
/// it did not have before; leaving unseats exactly this player.
pub proof fn law_room_moves_seat_only_the_player(
    table: ManagerView,
    after: ManagerView,
    player: PlayerId,
    room: RoomId,
    other: PlayerId,
)
    requires
        table.clients.contains_key(player),
        other != player,
    ensures
        table.room_entered(after, player, room) || table.room_left(after, player)
            || table.delivery_advanced(after, player) ==> {
            &&& after.clients.contains_key(player)
            &&& after.clients.contains_key(other) == table.clients.contains_key(other)
            &&& table.clients.contains_key(other) ==> after.clients[other] == table.clients[other]
            &&& after.limits == table.limits
            &&& after.next_lifecycle == table.next_lifecycle
            &&& after.clients[player].lifecycle == table.clients[player].lifecycle
            &&& after.clients[player].membership_generation
                != table.clients[player].membership_generation
            &&& after.clients[player].current_transport() is None
        },
        table.room_entered(after, player, room) ==> after.clients[player].room_id == Some(room),
        table.room_left(after, player) ==> after.clients[player].room_id is None,
        table.delivery_advanced(after, player) ==> after.clients[player].room_id
            == table.clients[player].room_id,
{
}

/// A takeover is refused exactly if the target is connected, the transient
/// connection is gone, or it is closing for a reason of its own socket.
pub proof fn law_takeovers_are_refused_for_a_reason(
    table: ManagerView,
    current: PlayerId,
    target: PlayerId,
)
    ensures
        ({
            let refusal = table.reassignment_refusal(current, target);
            let occupied = table.clients.contains_key(target);
            let gone = !table.clients.contains_key(current);
            let close = table.clients[current].close;
            let closing = close is Some && close != Some(CloseReason::Shutdown) && close != Some(
                CloseReason::RoomInactive,
            );
            &&& refusal == Some(ReassignmentOutcome::RefusedTargetOccupied) <==> occupied
            &&& refusal == Some(ReassignmentOutcome::TransientConnectionMissing) <==> !occupied
                && gone
            &&& (refusal is Some && refusal->0 is RefusedTransientClose) <==> !occupied && !gone
                && closing
            &&& refusal matches Some(ReassignmentOutcome::RefusedTransientClose(reason)) ==> close
                == Some(reason)
            &&& refusal is None <==> !occupied && !gone && !closing
        }),
{
}

/// A takeover moves the one connection to the target identity, seated in the
/// restored room and epoch; the transient identity is gone, and nobody else's
/// entry changes.
pub proof fn law_takeovers_move_one_connection(
    table: ManagerView,
    after: ManagerView,
    current: PlayerId,
    target: PlayerId,
    room: RoomId,
    epoch: u32,
    other: PlayerId,
)
    requires
        table.taken_over(after, current, target, room, epoch),
        other != current,
        other != target,
        current != target,
    ensures
        !after.clients.contains_key(current),
        after.clients.contains_key(target),
        after.clients[target].room_id == Some(room),
        after.clients[target].game_data_epoch == epoch,
        after.clients[target].game_data_seq == 0,
        after.clients[target].lifecycle == table.clients[current].lifecycle,
        after.clients[target].protocol == table.clients[current].protocol,
        after.clients[target].client_addr == table.clients[current].client_addr,
        after.clients[target].membership_generation != table.clients[current].membership_generation,
        after.clients.contains_key(other) == table.clients.contains_key(other),
        table.clients.contains_key(other) ==> after.clients[other] == table.clients[other],
        after.limits == table.limits,
        after.next_lifecycle == table.next_lifecycle,
{
}

/// The clients collected as quiet are exactly those not heard from for longer
/// than the timeout.
pub proof fn law_quiet_clients_are_collected(
    table: ManagerView,
    now: Moment,
    timeout: Nanos,
    player: PlayerId,
)
    ensures
        table.expired_clients(now, timeout).contains(player) <==> table.clients.contains_key(player)
            && now > table.clients[player].last_ping + timeout,
{
}

/// A liveness check asks a client to close exactly if it is still quiet, counts
/// as the eviction exactly if nobody had asked before, and leaves everybody else
/// alone.
pub proof fn law_liveness_checks_close_only_the_quiet(
    table: ManagerView,
    player: PlayerId,
    now: Moment,
    timeout: Nanos,
)
    ensures
        ({
            let after = table.activity_checked(player, now, timeout);
            let quiet = table.clients.contains_key(player) && now > table.clients[player].last_ping
                + timeout;
            &&& table.times_out(player, now, timeout) <==> quiet && table.clients[player].close
                is None
            &&& !quiet ==> after == table
            &&& quiet ==> after.clients == table.clients.insert(player, after.clients[player])
                && after.clients[player].close == (if table.clients[player].close is None {
                Some(CloseReason::ActivityTimeout)
            } else {
                table.clients[player].close
            })
        }),
{
}

/// A departed entry is unseated and closing: for the reason it had, or as
/// unregistered if it had none.
pub proof fn law_departed_entries_are_closing(
    table: ManagerView,
    player: PlayerId,
    removed: ConnectionView,
)
    requires
        table.departed(player, removed),
    ensures
        removed.room_id is None,
        removed.lifecycle == table.clients[player].lifecycle,
        removed.game_data_epoch == table.clients[player].game_data_epoch,
        removed.close == (if table.clients[player].close is None {
            Some(CloseReason::Unregistered)
        } else {
            table.clients[player].close
        }),
{
}

/// Hearing from a client renews its liveness and nothing else: its room, its
/// queue and its budget stay, as does every other client; nobody is added.
pub proof fn law_hearing_from_a_client_renews_its_liveness(
    before: ManagerView,
    after: ManagerView,
    player: PlayerId,
)
    requires
        before.pinged(after, player),
    ensures
        after.clients.dom() == before.clients.dom(),
        after.next_lifecycle == before.next_lifecycle,
        after.limits == before.limits,
        before.clients.contains_key(player) ==> after.clients[player] == (ConnectionView {
            last_ping: after.clients[player].last_ping,
            ..before.clients[player]
        }),
        forall|other: PlayerId|
            other != player && #[trigger] before.clients.contains_key(other)
                ==> after.clients[other] == before.clients[other],
{
    assert(after.clients.dom() =~= before.clients.dom());
}

/// `last_seen` is due for a connected client that has none recorded, or one
/// recorded a threshold ago or more, and for nobody else.
pub proof fn law_last_seen_is_due_for_connected_clients(
    view: ManagerView,
    player: PlayerId,
    now: Moment,
    threshold: Nanos,
)
    ensures
        !view.clients.contains_key(player) ==> !view.last_seen_due(player, now, threshold),
        view.clients.contains_key(player) && view.clients[player].last_heartbeat_update is None
            ==> view.last_seen_due(player, now, threshold),
        view.clients.contains_key(player) ==> (view.clients[player].last_heartbeat_update matches Some(
            last,
        ) ==> (view.last_seen_due(player, now, threshold) <==> crate::connection::elapsed_since(
            now,
            last,
        ) >= threshold)),
{
}

} // verus!
