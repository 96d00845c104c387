//! The server: its tables, its configuration, and the operations on them that
//! need nothing from outside.

use dashmap::DashMap;
use vstd::prelude::*;
use vstd::string::*;

use crate::close::{CloseReason, ConnectionCloseSignal};
use crate::concurrent_maps::{
    get_room_owner, new_pending_detaches, new_room_owners, remove_room_owner, set_pending_detach,
    set_room_owner,
};
use crate::config::{MetricsConfig, ServerConfig};
use crate::connection::{
    AppContext, ClientAddr, ConnectionView, DeliverySender, LifecycleId, Moment,
    NegotiatedProtocol, TransportStatusUpdate,
};
use crate::connection_manager::{ConnectionManager, ManagerView};
use crate::dashboard_cache::DashboardMetricsCache;
use crate::durations::{from_millis, from_secs, NANOS_PER_SEC};
use crate::errors::{RegisterClientError, ServerConfigError};
use crate::identifiers::fresh_uuid;
use crate::protocol::{AppId, GameDataEncoding, PlayerId, RoomId, Transport};
use crate::relay_budget::{RelayAccounts, RelayBudgets};
use crate::routing::{InMemoryMessageCoordinator, RoutingView};

verus! {

/// The game server's process-local state.
pub struct EnhancedGameServer {
    pub connection_manager: ConnectionManager,
    pub message_coordinator: InMemoryMessageCoordinator,
    pub config: ServerConfig,
    /// Bytes relayed, and the budgets they are held to.
    pub relay_budgets: RelayBudgets,
    /// Rooms and the applications that own them.
    pub room_applications: DashMap<u128, u128>,
    /// Player removals that failed after the connection was gone.
    pub pending_durable_player_detaches: DashMap<(u128, u128), Option<u128>>,
    pub instance_id: u128,
    /// Nonzero once the shutdown drain has begun: the advertised close
    /// deadline, in milliseconds since the Unix epoch.
    pub shutdown_drain_deadline_ms: u64,
}

/// The mathematical view of [`EnhancedGameServer`].
#[verifier::ext_equal]
pub ghost struct ServerView {
    pub manager: ManagerView,
    pub routing: RoutingView,
    pub config: ServerConfig,
    pub relay: RelayAccounts,
    pub applications: Map<RoomId, AppId>,
    pub detaches: Map<(RoomId, PlayerId), Option<AppId>>,
    pub instance_id: u128,
    pub drain_deadline_ms: u64,
}

impl View for EnhancedGameServer {
    type V = ServerView;

    open spec fn view(&self) -> ServerView {
        ServerView {
            manager: self.connection_manager@,
            routing: self.message_coordinator@,
            config: self.config,
            relay: self.relay_budgets@,
            applications: crate::concurrent_maps::room_owners(self.room_applications),
            detaches: crate::concurrent_maps::pending_detaches(
                self.pending_durable_player_detaches,
            ),
            instance_id: self.instance_id,
            drain_deadline_ms: self.shutdown_drain_deadline_ms,
        }
    }
}

impl ServerView {
    /// Whether the shutdown drain has begun.
    pub open spec fn draining(self) -> bool {
        self.drain_deadline_ms != 0
    }

    /// The server with another connection table.
    pub open spec fn with_manager(self, manager: ManagerView) -> ServerView {
        ServerView { manager, ..self }
    }

    /// The server after `player`'s connection, if there is one, is asked to
    /// close.
    pub open spec fn closing(self, player: PlayerId, reason: CloseReason) -> ServerView {
        self.with_manager(
            self.manager.updated(player, self.manager.clients[player].closing(reason)),
        )
    }

    /// The server after `player`'s connection, if there is one, is asked to
    /// close for the shutdown, provided the drain has begun.
    pub open spec fn closing_for_drain(self, player: PlayerId) -> ServerView {
        if self.draining() {
            self.closing(player, CloseReason::Shutdown)
        } else {
            self
        }
    }

    /// The server after `player` is routed nowhere.
    pub open spec fn unrouted(self, player: PlayerId) -> ServerView {
        ServerView { routing: self.routing.unregistered(player), ..self }
    }

    /// Whether `player` is still the identity of the physical connection
    /// `lifecycle`.
    pub open spec fn holds_lifecycle(self, player: PlayerId, lifecycle: LifecycleId) -> bool {
        self.manager.clients.contains_key(player) && self.manager.clients[player].lifecycle
            == lifecycle
    }

    /// Whether `player` negotiated the additive protocol surface.
    pub open spec fn supports_v3(self, player: PlayerId) -> bool {
        self.manager.clients.contains_key(player) && self.manager.clients[player].protocol.version
            >= crate::protocol::V3_PROTOCOL_VERSION
    }
}

/// The dashboard cache a server with these settings keeps.
pub fn dashboard_metrics_cache<Games: Clone, Players: Clone, PerGame: Clone>(
    metrics_config: &MetricsConfig,
) -> (cache: DashboardMetricsCache<Games, Players, PerGame>)
    ensures
        cache.state.wf(),
        cache.state.snapshot is None,
        cache.state.last_error is None,
        cache.state.history@.len() == 0,
        cache.state.last_refresh is None,
        cache.state.refreshes == 0,
        cache.state.refresh_failures == 0,
        cache.state.history_capacity == crate::dashboard_cache::window_capacity(
            (at_least_one(metrics_config.dashboard_cache_refresh_interval_secs)
                * NANOS_PER_SEC) as u128,
            at_least_one(metrics_config.dashboard_cache_history_window_secs),
        ),
        cache.history_fields.named_by(metrics_config.dashboard_cache_history_fields@),
        cache.refresh_interval == at_least_one(
            metrics_config.dashboard_cache_refresh_interval_secs,
        ) * NANOS_PER_SEC,
        cache.refresh_interval_secs == at_least_one(
            metrics_config.dashboard_cache_refresh_interval_secs,
        ),
        cache.stale_after == crate::dashboard_cache::as_calendar(
            crate::dashboard_cache::longer(
                (at_least_one(metrics_config.dashboard_cache_ttl_secs) * NANOS_PER_SEC) as u128,
                (at_least_one(metrics_config.dashboard_cache_refresh_interval_secs)
                    * NANOS_PER_SEC) as u128,
            ),
        ),
{
    let refresh = from_secs(one_or_more(metrics_config.dashboard_cache_refresh_interval_secs));
    let ttl = from_secs(one_or_more(metrics_config.dashboard_cache_ttl_secs));
    let history_capacity = DashboardMetricsCache::<
        Games,
        Players,
        PerGame,
    >::history_capacity_for_window(
        refresh,
        one_or_more(metrics_config.dashboard_cache_history_window_secs),
    );
    DashboardMetricsCache::new(
        refresh,
        ttl,
        history_capacity,
        metrics_config.dashboard_cache_history_fields.as_slice(),
    )
}

/// A count, but never less than one.
pub open spec fn at_least_one(count: u64) -> u64 {
    if count < 1 {
        1
    } else {
        count
    }
}

fn one_or_more(count: u64) -> (at_least: u64)
    ensures
        at_least == at_least_one(count),
{
    if count < 1 {
        1
    } else {
        count
    }
}

impl EnhancedGameServer {
    /// The invariant of the server's tables.
    pub open spec fn wf(&self) -> bool {
        &&& self.connection_manager.wf()
        &&& self.message_coordinator@.wf()
    }

    /// Whether this is a server with empty tables and this configuration.
    pub open spec fn starts_with(&self, config: ServerConfig) -> bool {
        &&& self.wf()
        &&& self@.config == config
        &&& self@.manager == (ManagerView {
            clients: Map::empty(),
            next_lifecycle: 0,
            limits: config.spec_connection_limits(),
        })
        &&& self@.routing == (RoutingView {
            clients: Map::empty(),
            rooms: Map::empty(),
            active_gates: Set::empty(),
            slow_consumer_timeout: (config.websocket_config.slow_consumer_timeout_ms
                * crate::durations::NANOS_PER_MILLI) as u128,
        })
        &&& self@.relay == (RelayAccounts {
            senders: Map::empty(),
            rooms: Map::empty(),
            app_bytes: Map::empty(),
            bytes_total: 0,
            sender_rejections: 0,
            room_rejections: 0,
        })
        &&& self@.applications == Map::<RoomId, AppId>::empty()
        &&& self@.detaches == Map::<(RoomId, PlayerId), Option<AppId>>::empty()
        &&& crate::identifiers::random_uuid(self@.instance_id)
        &&& !self@.draining()
    }

    /// A server with empty tables, under a freshly drawn instance identity. A
    /// configuration whose generated room codes could not be joined is refused.
    pub fn new(config: ServerConfig) -> (server: Result<Self, ServerConfigError>)
        ensures
            server is Err <==> !crate::config::joinable_prefix(config.room_code_prefix),
            server matches Err(error) ==> error
                == ServerConfigError::RoomCodePrefixNotAlphanumeric,
            server matches Ok(server) ==> server.starts_with(config),
    {
        if let Err(error) = config.validate_room_code_generation() {
            return Err(error);
        }
        let limits = config.connection_limits();
        let slow_consumer_timeout = from_millis(config.websocket_config.slow_consumer_timeout_ms);
        let server = EnhancedGameServer {
            connection_manager: ConnectionManager::new(limits),
            message_coordinator: InMemoryMessageCoordinator::with_delivery_policy(
                slow_consumer_timeout,
            ),
            config,
            relay_budgets: RelayBudgets::new(),
            room_applications: new_room_owners(),
            pending_durable_player_detaches: new_pending_detaches(),
            instance_id: fresh_uuid(),
            shutdown_drain_deadline_ms: 0,
        };
        assert(server.starts_with(config));
        Ok(server)
    }

    /// The reconnection window in whole seconds, where reconnection is on.
    pub fn reconnection_window_secs(&self) -> (secs: Option<u128>)
        ensures
            secs == (if self@.config.enable_reconnection {
                Some((self@.config.reconnection_window / NANOS_PER_SEC) as u128)
            } else {
                None
            }),
    {
        if self.config.enable_reconnection {
            Some(self.config.reconnection_window / NANOS_PER_SEC)
        } else {
            None
        }
    }

    /// Whether per-connection delivery statistics are kept.
    pub fn keeps_delivery_stats(&self) -> (kept: bool)
        ensures
            kept == (self@.config.websocket_config.delivery_stats_interval_secs > 0),
    {
        self.config.websocket_config.delivery_stats_interval_secs > 0
    }

    /// Whether the shutdown drain has begun.
    pub fn is_draining(&self) -> (draining: bool)
        ensures
            draining == self@.draining(),
    {
        self.shutdown_drain_deadline_ms != 0
    }

    /// Begins the shutdown drain. A drain that has begun keeps its deadline.
    pub fn begin_drain(&mut self, deadline_ms: u64)
        requires
            old(self).wf(),
        ensures
            final(self).wf(),
            final(self)@ == (ServerView {
                drain_deadline_ms: if old(self)@.draining() {
                    old(self)@.drain_deadline_ms
                } else {
                    at_least_one(deadline_ms)
                },
                ..old(self)@
            }),
            final(self)@.draining(),
    {
        if self.shutdown_drain_deadline_ms == 0 {
            self.shutdown_drain_deadline_ms = one_or_more(deadline_ms);
        }
    }

    /// The deployment region.
    pub fn region_id(&self) -> (region: &str)
        ensures
            region@ == self@.config.region_id@,
    {
        self.config.region_id.as_str()
    }

    /// The prefix of generated room codes, if one is configured.
    pub fn room_code_prefix(&self) -> (prefix: Option<&str>)
        ensures
            prefix is Some <==> self@.config.room_code_prefix is Some,
            prefix is Some ==> prefix->0@ == self@.config.room_code_prefix->0@,
    {
        match &self.config.room_code_prefix {
            Some(prefix) => Some(prefix.as_str()),
            None => None,
        }
    }

    /// This process's identity.
    pub fn instance_id(&self) -> (id: u128)
        ensures
            id == self@.instance_id,
    {
        self.instance_id
    }

    /// The server's settings.
    pub fn config(&self) -> (config: &ServerConfig)
        ensures
            *config == self@.config,
    {
        &self.config
    }

    /// Registers a connection whose close signal nobody has pulled.
    pub fn register_client(&mut self, sender: DeliverySender, client_addr: ClientAddr) -> (
        registered: Result<PlayerId, RegisterClientError>)
        requires
            old(self).wf(),
            old(self)@.manager.next_lifecycle < u64::MAX,
        ensures
            final(self).wf(),
            old(self)@.registration(final(self)@, registered, sender, None, client_addr),
    {
        self.register_client_with_close(sender, ConnectionCloseSignal::detached(), client_addr)
    }

    /// Registers a connection along with its close signal, which may have been
    /// pulled already. A draining server refuses. The identity and the time of
    /// registration are the machine's choice.
    pub fn register_client_with_close(
        &mut self,
        sender: DeliverySender,
        close: ConnectionCloseSignal,
        client_addr: ClientAddr,
    ) -> (registered: Result<PlayerId, RegisterClientError>)
        requires
            old(self).wf(),
            old(self)@.manager.next_lifecycle < u64::MAX,
        ensures
            final(self).wf(),
            old(self)@.registration(
                final(self)@,
                registered,
                sender,
                close.requested,
                client_addr,
            ),
    {
        if self.is_draining() {
            return Err(RegisterClientError::ServerDraining);
        }
        let registered = self.connection_manager.register_client(
            &mut self.message_coordinator,
            sender,
            client_addr,
        );
        if let Ok(player_id) = registered {
            let ghost admitted = self@.manager;
            if let Some(reason) = close.requested {
                let _ = self.connection_manager.request_close_for(player_id, reason);
            }
            proof {
                let now = choose|now: Moment|
                    admitted == #[trigger] old(self)@.manager.admitted(
                        player_id,
                        now,
                        sender,
                        client_addr,
                    );
                assert(admitted.clients.contains_key(player_id));
                assert(self@ =~= old(self)@.registered_as(
                    player_id,
                    now,
                    sender,
                    close.requested,
                    client_addr,
                ));
            }
        }
        registered
    }

    /// Asks `player_id`'s connection to close for the shutdown, if the drain
    /// has begun. Called once a registration is public, in case the drain began
    /// meanwhile.
    pub fn close_if_draining(&mut self, player_id: PlayerId)
        requires
            old(self).wf(),
        ensures
            final(self).wf(),
            final(self)@ == old(self)@.closing_for_drain(player_id),
    {
        if self.is_draining() {
            let _ = self.connection_manager.request_close_for(player_id, CloseReason::Shutdown);
        }
    }

    /// Records that `player_id` was heard from.
    pub fn record_client_activity(&mut self, player_id: PlayerId)
        requires
            old(self).wf(),
        ensures
            final(self).wf(),
            final(self)@ == old(self)@.with_manager(final(self)@.manager),
            old(self)@.manager.pinged(final(self)@.manager, player_id),
    {
        self.connection_manager.record_ping(player_id);
    }

    /// Caches `app_id` as the owner of `room_id`, once storage has persisted
    /// it. Storage is the authority: what it refused is not cached.
    pub fn record_room_application<E>(
        &mut self,
        room_id: RoomId,
        app_id: AppId,
        persisted: Result<(), E>,
    ) -> (recorded: Result<(), E>)
        requires
            old(self).wf(),
        ensures
            final(self).wf(),
            recorded == persisted,
            final(self)@ == (ServerView {
                applications: if persisted is Ok {
                    old(self)@.applications.insert(room_id, app_id)
                } else {
                    old(self)@.applications
                },
                ..old(self)@
            }),
    {
        if let Ok(_) = persisted {
            set_room_owner(&mut self.room_applications, room_id, app_id);
        }
        persisted
    }

    /// The application that owns `room_id`, if one is cached.
    pub fn room_application_id(&self, room_id: RoomId) -> (owner: Option<AppId>)
        ensures
            owner == (if self@.applications.contains_key(room_id) {
                Some(self@.applications[room_id])
            } else {
                None
            }),
    {
        get_room_owner(&self.room_applications, room_id)
    }

    /// Forgets the owner of a room that storage has deleted.
    pub fn clear_room_application(&mut self, room_id: RoomId)
        requires
            old(self).wf(),
        ensures
            final(self).wf(),
            final(self)@ == (ServerView {
                applications: old(self)@.applications.remove(room_id),
                ..old(self)@
            }),
    {
        let _ = remove_room_owner(&mut self.room_applications, room_id);
    }

    /// Keeps a failed player removal for retry, with the application claim to
    /// roll back once it succeeds.
    pub fn retain_pending_detach(
        &mut self,
        room_id: RoomId,
        player_id: PlayerId,
        claim: Option<AppId>,
    )
        requires
            old(self).wf(),
        ensures
            final(self).wf(),
            final(self)@ == (ServerView {
                detaches: old(self)@.detaches.insert((room_id, player_id), claim),
                ..old(self)@
            }),
    {
        set_pending_detach(
            &mut self.pending_durable_player_detaches,
            (room_id, player_id),
            claim,
        );
    }

    /// Connects `player_id` from the loopback address, past both admission
    /// budgets.
    pub fn connect_client(&mut self, player_id: PlayerId, sender: DeliverySender)
        requires
            old(self).wf(),
            old(self)@.manager.next_lifecycle < u64::MAX,
            old(self)@.manager.clients.dom().len() < usize::MAX,
        ensures
            final(self).wf(),
            exists|now: Moment|
                final(self)@ == #[trigger] old(self)@.registered_as(
                    player_id,
                    now,
                    sender,
                    None,
                    loopback(),
                ),
    {
        self.connection_manager.connect_test_client(
            &mut self.message_coordinator,
            player_id,
            sender,
            ClientAddr { ip: (4, 0x7f00_0001), port: 0 },
        );
        proof {
            let now = choose|now: Moment|
                self@.manager == #[trigger] old(self)@.manager.admitted(
                    player_id,
                    now,
                    sender,
                    loopback(),
                );
            assert(self@ =~= old(self)@.registered_as(player_id, now, sender, None, loopback()));
        }
    }

    /// Seats `player_id` in `room_id`, provided it is still the identity of the
    /// physical connection `lifecycle`.
    pub fn assign_client_to_room(
        &mut self,
        player_id: PlayerId,
        lifecycle: LifecycleId,
        room_id: RoomId,
    )
        requires
            old(self).wf(),
        ensures
            final(self).wf(),
            !old(self)@.holds_lifecycle(player_id, lifecycle) ==> final(self)@ == old(self)@,
            old(self)@.holds_lifecycle(player_id, lifecycle) ==> {
                &&& old(self)@.manager.room_entered(final(self)@.manager, player_id, room_id)
                &&& final(self)@ == (ServerView {
                    manager: final(self)@.manager,
                    routing: old(self)@.routing.registered(
                        player_id,
                        Some(room_id),
                        final(self)@.manager.clients[player_id].delivery(),
                    ),
                    ..old(self)@
                })
            },
    {
        if self.connection_manager.lifecycle_matches(player_id, lifecycle) {
            self.connection_manager.assign_client_to_room(
                &mut self.message_coordinator,
                player_id,
                room_id,
            );
        }
    }
}

/// The loopback address, with no port.
pub open spec fn loopback() -> ClientAddr {
    ClientAddr { ip: (4, 0x7f00_0001), port: 0 }
}

impl ServerView {
    /// The server after `player` registers at `now` with a close signal that
    /// may have been pulled already.
    pub open spec fn registered_as(
        self,
        player: PlayerId,
        now: Moment,
        sender: DeliverySender,
        close: Option<CloseReason>,
        client_addr: ClientAddr,
    ) -> ServerView {
        let entry = ConnectionView {
            close,
            ..ConnectionView::registered(self.manager.next_lifecycle, now, sender, client_addr)
        };
        ServerView {
            manager: ManagerView {
                clients: self.manager.clients.insert(player, entry),
                next_lifecycle: (self.manager.next_lifecycle + 1) as u64,
                ..self.manager
            },
            routing: self.routing.registered(player, None, self.manager.next_handle(sender)),
            ..self
        }
    }

    /// `after` is this server after a registration answered `registered`.
    pub open spec fn registration(
        self,
        after: ServerView,
        registered: Result<PlayerId, RegisterClientError>,
        sender: DeliverySender,
        close: Option<CloseReason>,
        client_addr: ClientAddr,
    ) -> bool {
        if self.draining() {
            after == self && registered == Err::<PlayerId, RegisterClientError>(
                RegisterClientError::ServerDraining,
            )
        } else {
            match self.manager.refusal(client_addr.ip) {
                Some(error) => after == self && registered == Err::<PlayerId, RegisterClientError>(
                    error,
                ),
                None => exists|player: PlayerId, now: Moment|
                    {
                        &&& crate::identifiers::random_uuid(player)
                        &&& registered == Ok::<PlayerId, RegisterClientError>(player)
                        &&& after == #[trigger] self.registered_as(
                            player,
                            now,
                            sender,
                            close,
                            client_addr,
                        )
                    },
            }
        }
    }
}

/// A draining server admits nobody, and asks whom it admitted before to close
/// for the shutdown.
pub proof fn law_drain_refuses_and_closes(
    server: ServerView,
    after: ServerView,
    registered: Result<PlayerId, RegisterClientError>,
    sender: DeliverySender,
    close: Option<CloseReason>,
    client_addr: ClientAddr,
    player: PlayerId,
)
    requires
        server.draining(),
        server.registration(after, registered, sender, close, client_addr),
    ensures
        registered is Err,
        after == server,
        server.manager.clients.contains_key(player) ==> server.closing_for_drain(
            player,
        ).manager.clients[player].close == Some(CloseReason::Shutdown),
{
}

/// A server drains exactly once a deadline was announced.
pub proof fn law_draining_means_a_deadline_was_announced(server: ServerView)
    ensures
        server.draining() <==> server.drain_deadline_ms != 0,
{
}

/// Asking a player to close changes the close of its own entry alone, and asks
/// for the shutdown exactly if the server drains.
pub proof fn law_close_requests_touch_one_entry(
    server: ServerView,
    player: PlayerId,
    reason: CloseReason,
)
    ensures
        ({
            let after = server.closing(player, reason);
            let drained = server.closing_for_drain(player);
            &&& after == (ServerView { manager: after.manager, ..server })
            &&& !server.manager.clients.contains_key(player) ==> after == server
            &&& server.manager.clients.contains_key(player) ==> after.manager.clients
                == server.manager.clients.insert(
                player,
                ConnectionView {
                    close: after.manager.clients[player].close,
                    ..server.manager.clients[player]
                },
            ) && (server.manager.clients[player].close is None
                ==> after.manager.clients[player].close == Some(reason))
            &&& server.drain_deadline_ms == 0 ==> drained == server
            &&& server.drain_deadline_ms != 0 ==> drained == server.closing(
                player,
                CloseReason::Shutdown,
            )
        }),
{
}

/// A player holds a physical connection exactly if its entry stands for it, and
/// speaks the additive protocol exactly if it negotiated at least the third
/// version.
pub proof fn law_players_are_what_their_entries_say(
    server: ServerView,
    player: PlayerId,
    lifecycle: LifecycleId,
)
    ensures
        server.holds_lifecycle(player, lifecycle) <==> server.manager.clients.contains_key(player)
            && server.manager.clients[player].lifecycle == lifecycle,
        server.supports_v3(player) <==> server.manager.clients.contains_key(player)
            && server.manager.clients[player].protocol.version >= 3,
{
}

/// A registration is refused exactly if the server drains or a limit is reached,
/// and then changes nothing; otherwise the client is connected under a fresh
/// identity, closing exactly if its socket asked for it already, reachable, and
/// routed in no room.
pub proof fn law_registration_connects_or_changes_nothing(
    server: ServerView,
    after: ServerView,
    registered: Result<PlayerId, RegisterClientError>,
    sender: DeliverySender,
    close: Option<CloseReason>,
    client_addr: ClientAddr,
    room: RoomId,
)
    requires
        server.registration(after, registered, sender, close, client_addr),
        server.routing.wf(),
        server.manager.next_lifecycle < u64::MAX,
    ensures
        registered is Err ==> after == server,
        registered is Ok <==> server.drain_deadline_ms == 0 && server.manager.refusal(
            client_addr.ip,
        ) is None,
        server.drain_deadline_ms != 0 ==> registered == Err::<PlayerId, RegisterClientError>(
            RegisterClientError::ServerDraining,
        ),
        registered is Err && server.drain_deadline_ms == 0 ==> Some(registered->Err_0)
            == server.manager.refusal(client_addr.ip),
        registered matches Ok(player) ==> {
            let client = after.manager.clients[player];
            &&& after.manager.clients.contains_key(player)
            &&& client.close == close
            &&& client.sender == sender
            &&& client.client_addr == client_addr
            &&& client.room_id is None
            &&& client.lifecycle == server.manager.next_lifecycle
            &&& after.manager.clients == server.manager.clients.insert(player, client)
            &&& after.manager.next_lifecycle == server.manager.next_lifecycle + 1
            &&& after.routing.clients[player].sender == sender
            &&& after.routing.clients[player].lifecycle == client.lifecycle
            &&& !after.routing.routes(player, room)
            &&& after.config == server.config
            &&& after.relay == server.relay
            &&& after.applications == server.applications
            &&& after.detaches == server.detaches
            &&& after.drain_deadline_ms == server.drain_deadline_ms
        },
{
    if let Ok(player) = registered {
        let handle = server.manager.next_handle(sender);
        crate::routing::law_registration_replaces_the_routing_scope(
            server.routing,
            player,
            None,
            handle,
        );
        assert(!server.routing.registered(player, None, handle).routes(player, room));
    }
}

/// A new server serves nobody yet: no client, no route, no room, no relayed
/// byte, no pending detach, and no drain, under the limits it was given.
pub proof fn law_servers_start_empty(server: EnhancedGameServer, config: ServerConfig)
    requires
        server.starts_with(config),
    ensures
        server@.config == config,
        server@.drain_deadline_ms == 0,
        forall|player: PlayerId| !(#[trigger] server@.manager.clients.contains_key(player)),
        server@.manager.next_lifecycle == 0,
        server@.manager.limits.max_connections == config.max_connections,
        server@.manager.limits.max_connections_per_ip == config.max_connections_per_ip,
        forall|player: PlayerId| !(#[trigger] server@.routing.clients.contains_key(player)),
        forall|room: RoomId| !(#[trigger] server@.routing.rooms.contains_key(room)),
        server@.routing.slow_consumer_timeout
            == config.websocket_config.slow_consumer_timeout_ms * 1_000_000,
        server@.relay.bytes_total == 0,
        server@.relay.sender_rejections == 0,
        server@.relay.room_rejections == 0,
        forall|room: RoomId| !(#[trigger] server@.applications.contains_key(room)),
        forall|seat: (RoomId, PlayerId)| !(#[trigger] server@.detaches.contains_key(seat)),
{
}

} // verus!
