//! What the server records and answers about one connected client.

use vstd::prelude::*;

use crate::connection::{
    AppContext, ConnectionView, LifecycleId, NegotiatedProtocol, TransportStatusUpdate,
};
use crate::protocol::{AppId, GameDataEncoding, PlayerId, RoomId, Transport};
use crate::server::{EnhancedGameServer, ServerView};

verus! {

impl ServerView {
    /// The server after `player`'s entry, if there is one, becomes
    /// `connection`.
    pub open spec fn with_entry(self, player: PlayerId, connection: ConnectionView) -> ServerView {
        self.with_manager(self.manager.updated(player, connection))
    }
}

impl EnhancedGameServer {
    /// Records the encoding a client prefers.
    pub fn set_client_game_data_format(&mut self, player_id: PlayerId, format: GameDataEncoding)
        requires
            old(self).wf(),
        ensures
            final(self).wf(),
            final(self)@ == old(self)@.with_entry(
                player_id,
                (ConnectionView { game_data_format: format, ..old(self)@.manager.clients[player_id] }),
            ),
    {
        self.connection_manager.set_game_data_format(player_id, format);
    }

    /// Records the protocol capabilities a client negotiated.
    pub fn set_client_protocol(&mut self, player_id: PlayerId, protocol: NegotiatedProtocol)
        requires
            old(self).wf(),
        ensures
            final(self).wf(),
            final(self)@ == old(self)@.with_entry(
                player_id,
                (ConnectionView { protocol: protocol@, ..old(self)@.manager.clients[player_id] }),
            ),
    {
        self.connection_manager.set_protocol(player_id, protocol);
    }

    /// Records whether a client negotiated correlated room operations.
    pub fn set_client_room_operation_ids(&mut self, player_id: PlayerId, enabled: bool)
        requires
            old(self).wf(),
        ensures
            final(self).wf(),
            final(self)@ == old(self)@.with_entry(
                player_id,
                (ConnectionView { room_operation_ids: enabled, ..old(self)@.manager.clients[player_id] }),
            ),
    {
        self.connection_manager.set_room_operation_ids(player_id, enabled);
    }

    /// Attaches the accepted application context to a client.
    pub fn set_client_app_context(&mut self, player_id: PlayerId, app_context: AppContext)
        requires
            old(self).wf(),
        ensures
            final(self).wf(),
            final(self)@ == old(self)@.with_entry(
                player_id,
                (ConnectionView { app_context: Some(app_context), ..old(self)@.manager.clients[player_id] }),
            ),
    {
        self.connection_manager.set_app_context(player_id, app_context);
    }

    /// Records a client's report of its data path.
    pub fn set_client_transport_status(
        &mut self,
        player_id: PlayerId,
        transport: Transport,
        connected: bool,
    ) -> (update: TransportStatusUpdate)
        requires
            old(self).wf(),
        ensures
            final(self).wf(),
            final(self)@ == old(self)@.with_entry(
                player_id,
                old(self)@.manager.clients[player_id].with_transport_report(transport, connected),
            ),
            update == (if old(self)@.manager.clients.contains_key(player_id) {
                old(self)@.manager.clients[player_id].transport_update(transport, connected)
            } else {
                TransportStatusUpdate::MissingConnection
            }),
    {
        self.connection_manager.set_transport_status(player_id, transport, connected)
    }

    /// The encoding a client prefers; JSON for an unknown one.
    pub fn client_game_data_format(&self, player_id: PlayerId) -> (answer: GameDataEncoding)
        ensures
            answer == (if self@.manager.clients.contains_key(player_id) {
                self@.manager.clients[player_id].game_data_format
            } else {
                GameDataEncoding::Json
            }),
    {
        self.connection_manager.game_data_format(player_id)
    }

    /// The protocol a client negotiated; the relay-only floor for an unknown one.
    pub fn client_protocol(&self, player_id: PlayerId) -> (answer: NegotiatedProtocol)
        ensures
            answer@ == (if self@.manager.clients.contains_key(player_id) {
                self@.manager.clients[player_id].protocol
            } else {
                crate::connection::default_protocol()
            }),
    {
        self.connection_manager.protocol(player_id)
    }

    /// Whether a client negotiated correlated room operations.
    pub fn client_supports_room_operation_ids(&self, player_id: PlayerId) -> (answer: bool)
        ensures
            answer == (if self@.manager.clients.contains_key(player_id) {
                self@.manager.clients[player_id].room_operation_ids
            } else {
                false
            }),
    {
        self.connection_manager.supports_room_operation_ids(player_id)
    }

    /// The data path a client reported in its current membership, if any.
    pub fn client_transport_status(&self, player_id: PlayerId) -> (answer: Option<(Transport, bool)>)
        ensures
            answer == (if self@.manager.clients.contains_key(player_id) {
                self@.manager.clients[player_id].current_transport()
            } else {
                None
            }),
    {
        self.connection_manager.transport_status(player_id)
    }

    /// Whether a client negotiated `transport`.
    pub fn client_supports_transport(&self, player_id: PlayerId, transport: Transport) -> (answer: bool)
        ensures
            answer == (if self@.manager.clients.contains_key(player_id) {
                self@.manager.clients[player_id].protocol.transports.contains(transport)
            } else {
                false
            }),
    {
        self.connection_manager.supports_transport(player_id, transport)
    }

    /// The accepted application context of a client, if any.
    pub fn client_app_context(&self, player_id: PlayerId) -> (answer: Option<AppContext>)
        ensures
            answer == (if self@.manager.clients.contains_key(player_id) {
                self@.manager.clients[player_id].app_context
            } else {
                None
            }),
    {
        self.connection_manager.app_context(player_id)
    }

    /// The physical connection behind a client.
    pub fn client_lifecycle(&self, player_id: PlayerId) -> (answer: Option<LifecycleId>)
        ensures
            answer == (if self@.manager.clients.contains_key(player_id) {
                Some(self@.manager.clients[player_id].lifecycle)
            } else {
                None
            }),
    {
        self.connection_manager.client_lifecycle(player_id)
    }

    /// Whether a client expects payloads in `encoding`.
    pub fn prefers_encoding(&self, player_id: PlayerId, encoding: GameDataEncoding) -> (answer: bool)
        ensures
            answer == (encoding == (if self@.manager.clients.contains_key(player_id) {
                self@.manager.clients[player_id].game_data_format
            } else {
                GameDataEncoding::Json
            })),
    {
        self.connection_manager.prefers_encoding(player_id, encoding)
    }

    /// Whether a client negotiated protocol v3 or later.
    pub fn client_supports_v3(&self, player_id: PlayerId) -> (answer: bool)
        ensures
            answer == self@.supports_v3(player_id),
    {
        self.connection_manager.supports_v3(player_id)
    }

    /// The application of a client, if known.
    pub fn client_app_id(&self, player_id: PlayerId) -> (answer: Option<AppId>)
        ensures
            answer == (if self@.manager.clients.contains_key(player_id) {
                match self@.manager.clients[player_id].app_context {
                    Some(context) => Some(context.id),
                    None => None,
                }
            } else {
                None
            }),
    {
        self.connection_manager.app_id(player_id)
    }

    /// The room a client is seated in.
    pub fn get_client_room(&self, player_id: PlayerId) -> (room: Option<RoomId>)
        ensures
            room == self@.manager.room_of(player_id),
    {
        self.connection_manager.get_client_room(player_id)
    }
}

} // verus!
