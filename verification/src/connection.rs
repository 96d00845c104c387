//! One registered connection: its state, its mathematical view, and the
//! transitions a single entry can take.

use vstd::prelude::*;

use crate::close::{CloseReason, ConnectionCloseSignal};
use crate::protocol::{
    AppId, GameDataEncoding, RoomId, Topology, Transport, SERVER_MIN_PROTOCOL_VERSION,
    V3_PROTOCOL_VERSION,
};

verus! {

/// Monotonic time in nanoseconds since the clock it is read from was started.
pub type Moment = u128;

/// A span of time in nanoseconds.
pub type Nanos = u128;

/// A source address: the address family (4 or 6) and the address bits.
pub type IpKey = (u8, u128);

/// Identity of one physical connection. It survives reconnect identity swaps.
pub type LifecycleId = u64;

/// An opaque membership token; every role transition installs another one.
pub type MembershipGeneration = u128;

/// Where a client connected from.
#[derive(Clone, Copy, Debug, PartialEq, Eq)]
pub struct ClientAddr {
    pub ip: IpKey,
    pub port: u16,
}

/// One end of an outbound queue. Two senders share a queue exactly when their
/// channels agree; the generation fences frames of an earlier room scope.
#[derive(Clone, Copy, Debug, PartialEq, Eq, Structural)]
pub struct DeliverySender {
    pub channel: u64,
    pub generation: u64,
}

impl DeliverySender {
    pub open spec fn spec_next_generation(self) -> DeliverySender {
        DeliverySender {
            channel: self.channel,
            generation: if self.generation == u64::MAX {
                0
            } else {
                (self.generation + 1) as u64
            },
        }
    }

    pub open spec fn spec_previous_generation(self) -> DeliverySender {
        DeliverySender {
            channel: self.channel,
            generation: if self.generation == 0 {
                u64::MAX
            } else {
                (self.generation - 1) as u64
            },
        }
    }

    /// Whether both senders feed the same queue.
    pub fn same_channel(&self, other: &DeliverySender) -> (same: bool)
        ensures
            same == (self.channel == other.channel),
    {
        self.channel == other.channel
    }

    /// The sender of the next room scope on the same queue.
    pub fn next_generation(&self) -> (sender: DeliverySender)
        ensures
            sender == self.spec_next_generation(),
    {
        DeliverySender { channel: self.channel, generation: self.generation.wrapping_add(1) }
    }

    /// The sender of the room scope before this one.
    pub fn previous_generation(&self) -> (sender: DeliverySender)
        ensures
            sender == self.spec_previous_generation(),
    {
        DeliverySender { channel: self.channel, generation: self.generation.wrapping_sub(1) }
    }
}

/// What the delivery layer needs to reach a connection, or failing that to
/// terminate it: the outbound queue, and the physical connection whose close
/// signal belongs to it.
#[derive(Clone, Copy, Debug, PartialEq, Eq, Structural)]
pub struct ClientDeliveryHandle {
    pub sender: DeliverySender,
    pub lifecycle: LifecycleId,
}

/// Stepping a sender to the next generation and back restores it.
pub proof fn law_previous_generation_undoes_next(sender: DeliverySender)
    ensures
        sender.spec_next_generation().spec_previous_generation() == sender,
        sender.spec_previous_generation().spec_next_generation() == sender,
        sender.spec_next_generation() != sender,
{
}

/// One relay stamp: the per-(sender, room) sequence number and the incarnation
/// epoch it belongs to.
#[derive(Clone, Copy, Debug, PartialEq, Eq, Structural)]
pub struct RelayStamp {
    pub seq: u64,
    pub epoch: u32,
}

/// Request quotas of an application.
#[derive(Clone, Copy, Debug, PartialEq, Eq, Structural)]
pub struct RateLimits {
    pub per_minute: u32,
    pub per_hour: u32,
    pub per_day: u32,
}

/// The accepted public application context of a connection.
#[derive(Debug)]
pub struct AppContext {
    pub id: AppId,
    pub name: String,
    pub organization: Option<String>,
    pub max_rooms: Option<u32>,
    pub max_players_per_room: Option<u8>,
    pub rate_limit_per_minute: Option<u32>,
    pub max_relay_bytes: Option<u64>,
    pub rate_limits: RateLimits,
}

impl Clone for AppContext {
    fn clone(&self) -> (copy: Self)
        ensures
            copy == *self,
    {
        AppContext {
            id: self.id,
            name: self.name.clone(),
            organization: match &self.organization {
                Some(organization) => Some(organization.clone()),
                None => None,
            },
            max_rooms: self.max_rooms,
            max_players_per_room: self.max_players_per_room,
            rate_limit_per_minute: self.rate_limit_per_minute,
            max_relay_bytes: self.max_relay_bytes,
            rate_limits: self.rate_limits,
        }
    }
}

/// Protocol capabilities negotiated for a connection.
#[derive(Debug)]
pub struct NegotiatedProtocol {
    pub version: u16,
    pub transports: Vec<Transport>,
    pub topologies: Vec<Topology>,
}

/// The view of [`NegotiatedProtocol`].
#[verifier::ext_equal]
pub ghost struct ProtocolView {
    pub version: u16,
    pub transports: Seq<Transport>,
    pub topologies: Seq<Topology>,
}

impl View for NegotiatedProtocol {
    type V = ProtocolView;

    open spec fn view(&self) -> ProtocolView {
        ProtocolView {
            version: self.version,
            transports: self.transports@,
            topologies: self.topologies@,
        }
    }
}

/// The protocol of a client that negotiated nothing: the relay-only floor.
pub open spec fn default_protocol() -> ProtocolView {
    ProtocolView {
        version: SERVER_MIN_PROTOCOL_VERSION,
        transports: seq![Transport::Relay],
        topologies: seq![Topology::Relay],
    }
}

impl Default for NegotiatedProtocol {
    fn default() -> (protocol: Self)
        ensures
            protocol@ == default_protocol(),
    {
        let protocol = NegotiatedProtocol {
            version: SERVER_MIN_PROTOCOL_VERSION,
            transports: vec![Transport::Relay],
            topologies: vec![Topology::Relay],
        };
        assert(protocol@ =~= default_protocol());
        protocol
    }
}

impl Clone for NegotiatedProtocol {
    fn clone(&self) -> (copy: Self)
        ensures
            copy@ == self@,
    {
        let copy = NegotiatedProtocol {
            version: self.version,
            transports: self.transports.clone(),
            topologies: self.topologies.clone(),
        };
        assert(copy@ =~= self@);
        copy
    }
}

/// Everything the server keeps about one registered connection.
#[derive(Debug)]
pub struct ClientConnection {
    /// The seated room, if any.
    pub room_id: Option<RoomId>,
    /// The physical connection behind this entry.
    pub lifecycle: LifecycleId,
    /// When the client was last heard from.
    pub last_ping: Moment,
    /// When `last_seen` was last recorded, for throttling.
    pub last_heartbeat_update: Option<Moment>,
    pub sender: DeliverySender,
    pub close: ConnectionCloseSignal,
    pub client_addr: ClientAddr,
    pub game_data_format: GameDataEncoding,
    pub app_context: Option<AppContext>,
    /// Authenticated identity that reconnect credentials must retain.
    pub reconnection_identity: Option<String>,
    pub protocol: NegotiatedProtocol,
    /// Whether correlated room-operation envelopes were negotiated.
    pub room_operation_ids: bool,
    /// The last reported data path, tagged with the membership generation it
    /// was reported in.
    pub transport_status: Option<(MembershipGeneration, Transport, bool)>,
    pub membership_generation: MembershipGeneration,
    /// What a rollback of the latest prepared transition restores.
    pub prior_membership_generation: Option<MembershipGeneration>,
    /// The last stamped relay sequence number; 0 before the first stamp.
    pub game_data_seq: u64,
    /// The incarnation epoch of the outbound game-data stream.
    pub game_data_epoch: u32,
    /// Polite per-frame replies charged to this connection so far.
    pub error_replies: u64,
}

/// The view of [`ClientConnection`].
#[verifier::ext_equal]
pub ghost struct ConnectionView {
    pub room_id: Option<RoomId>,
    pub lifecycle: LifecycleId,
    pub last_ping: Moment,
    pub last_heartbeat_update: Option<Moment>,
    pub sender: DeliverySender,
    pub close: Option<CloseReason>,
    pub client_addr: ClientAddr,
    pub game_data_format: GameDataEncoding,
    pub app_context: Option<AppContext>,
    pub reconnection_identity: Option<String>,
    pub protocol: ProtocolView,
    pub room_operation_ids: bool,
    pub transport_status: Option<(MembershipGeneration, Transport, bool)>,
    pub membership_generation: MembershipGeneration,
    pub prior_membership_generation: Option<MembershipGeneration>,
    pub game_data_seq: u64,
    pub game_data_epoch: u32,
    pub error_replies: u64,
}

impl View for ClientConnection {
    type V = ConnectionView;

    open spec fn view(&self) -> ConnectionView {
        ConnectionView {
            room_id: self.room_id,
            lifecycle: self.lifecycle,
            last_ping: self.last_ping,
            last_heartbeat_update: self.last_heartbeat_update,
            sender: self.sender,
            close: self.close.requested,
            client_addr: self.client_addr,
            game_data_format: self.game_data_format,
            app_context: self.app_context,
            reconnection_identity: self.reconnection_identity,
            protocol: self.protocol@,
            room_operation_ids: self.room_operation_ids,
            transport_status: self.transport_status,
            membership_generation: self.membership_generation,
            prior_membership_generation: self.prior_membership_generation,
            game_data_seq: self.game_data_seq,
            game_data_epoch: self.game_data_epoch,
            error_replies: self.error_replies,
        }
    }
}

/// Outcome of a transport report.
#[derive(Clone, Copy, Debug, PartialEq, Eq, Structural)]
pub enum TransportStatusUpdate {
    Changed,
    Duplicate,
    MissingConnection,
    UnsupportedProtocolVersion,
    UnsupportedTransport,
}

/// Outcome of charging one polite reply against a connection's budget.
#[derive(Clone, Copy, Debug, PartialEq, Eq, Structural)]
pub enum ErrorReplyCharge {
    /// The reply may be sent.
    Admitted,
    /// The reply is withheld; the connection closes as rate limited. The
    /// farewell goes out with the call that initiated that close.
    Exhausted { initiated_close: bool },
}

/// The epoch of the incarnation after `epoch`. It saturates: an epoch never
/// regresses.
pub open spec fn next_epoch(epoch: u32) -> u32 {
    if epoch == u32::MAX {
        u32::MAX
    } else {
        (epoch + 1) as u32
    }
}

/// The time from `earlier` to `now`, zero if the clock reads the other way.
pub open spec fn elapsed_since(now: Moment, earlier: Moment) -> Nanos {
    if now >= earlier {
        (now - earlier) as u128
    } else {
        0
    }
}

impl ConnectionView {
    /// A connection that has just registered.
    pub open spec fn registered(
        lifecycle: LifecycleId,
        now: Moment,
        sender: DeliverySender,
        client_addr: ClientAddr,
    ) -> ConnectionView {
        ConnectionView {
            room_id: None,
            lifecycle,
            last_ping: now,
            last_heartbeat_update: None,
            sender,
            close: None,
            client_addr,
            game_data_format: GameDataEncoding::Json,
            app_context: None,
            reconnection_identity: None,
            protocol: default_protocol(),
            room_operation_ids: false,
            transport_status: None,
            membership_generation: 0,
            prior_membership_generation: None,
            game_data_seq: 0,
            game_data_epoch: 0,
            error_replies: 0,
        }
    }

    /// What the delivery layer holds of this connection.
    pub open spec fn delivery(self) -> ClientDeliveryHandle {
        ClientDeliveryHandle { sender: self.sender, lifecycle: self.lifecycle }
    }

    /// The relay stamp this connection has reached.
    pub open spec fn stamp(self) -> RelayStamp {
        RelayStamp { seq: self.game_data_seq, epoch: self.game_data_epoch }
    }

    /// Whether `generation` may follow: it names neither the current
    /// membership nor the one a retained transport report belongs to.
    pub open spec fn admits_generation(self, generation: MembershipGeneration) -> bool {
        &&& generation != self.membership_generation
        &&& match self.transport_status {
            Some((reported_in, _, _)) => generation != reported_in,
            None => true,
        }
    }

    /// Whether `generation` may be drawn to follow: a random identifier that
    /// this connection admits.
    pub open spec fn draws_generation(self, generation: MembershipGeneration) -> bool {
        crate::identifiers::random_uuid(generation) && self.admits_generation(generation)
    }

    /// A role transition into `generation`, remembering what to roll back to.
    pub open spec fn advanced(self, generation: MembershipGeneration) -> ConnectionView {
        ConnectionView {
            prior_membership_generation: Some(self.membership_generation),
            membership_generation: generation,
            ..self
        }
    }

    /// The latest role transition undone, if there is one to undo.
    pub open spec fn retreated(self) -> ConnectionView {
        ConnectionView {
            membership_generation: match self.prior_membership_generation {
                Some(prior) => prior,
                None => self.membership_generation,
            },
            prior_membership_generation: None,
            ..self
        }
    }

    /// A fresh seated incarnation in `room`: new epoch, sequence at the start,
    /// next queue generation.
    pub open spec fn entered_room(
        self,
        room: RoomId,
        generation: MembershipGeneration,
    ) -> ConnectionView {
        ConnectionView {
            room_id: Some(room),
            game_data_seq: 0,
            game_data_epoch: next_epoch(self.game_data_epoch),
            sender: self.sender.spec_next_generation(),
            ..self.advanced(generation)
        }
    }

    /// A prepared room entry undone. The epoch stays spent.
    pub open spec fn entry_rolled_back(self) -> ConnectionView {
        ConnectionView {
            room_id: None,
            game_data_seq: 0,
            sender: self.sender.spec_previous_generation(),
            ..self.retreated()
        }
    }

    /// The seated membership ended. The epoch is kept for the next entry.
    pub open spec fn left_room(self, generation: MembershipGeneration) -> ConnectionView {
        ConnectionView {
            room_id: None,
            game_data_seq: 0,
            sender: self.sender.spec_next_generation(),
            ..self.advanced(generation)
        }
    }

    /// The connection taken over by a reconnecting identity in `room`.
    pub open spec fn reassigned(
        self,
        room: RoomId,
        epoch: u32,
        generation: MembershipGeneration,
        now: Moment,
    ) -> ConnectionView {
        ConnectionView {
            room_id: Some(room),
            last_ping: now,
            last_heartbeat_update: None,
            sender: self.sender.spec_next_generation(),
            game_data_seq: 0,
            game_data_epoch: epoch,
            ..self.advanced(generation)
        }
    }

    /// A takeover undone: roomless again, under the generation before it.
    pub open spec fn restored(self, now: Moment) -> ConnectionView {
        ConnectionView {
            room_id: None,
            last_ping: now,
            last_heartbeat_update: None,
            sender: self.sender.spec_previous_generation(),
            game_data_seq: 0,
            game_data_epoch: 0,
            ..self.retreated()
        }
    }

    /// A roomless role transition: token and queue generation move on.
    pub open spec fn delivery_advanced(self, generation: MembershipGeneration) -> ConnectionView {
        ConnectionView {
            sender: self.sender.spec_next_generation(),
            ..self.advanced(generation)
        }
    }

    /// A roomless role transition undone.
    pub open spec fn delivery_rolled_back(self) -> ConnectionView {
        ConnectionView { sender: self.sender.spec_previous_generation(), ..self.retreated() }
    }

    /// One more frame stamped.
    pub open spec fn stamped(self) -> ConnectionView {
        ConnectionView { game_data_seq: (self.game_data_seq + 1) as u64, ..self }
    }

    /// Heard from at `now`.
    pub open spec fn pinged(self, now: Moment) -> ConnectionView {
        ConnectionView { last_ping: now, ..self }
    }

    /// `last_seen` recorded at `now`.
    pub open spec fn seen(self, now: Moment) -> ConnectionView {
        ConnectionView { last_heartbeat_update: Some(now), ..self }
    }

    /// A close requested with `reason`.
    pub open spec fn closing(self, reason: CloseReason) -> ConnectionView {
        ConnectionView { close: crate::close::close_after(self.close, reason), ..self }
    }

    /// How a transport report is answered.
    pub open spec fn transport_update(
        self,
        transport: Transport,
        connected: bool,
    ) -> TransportStatusUpdate {
        if self.protocol.version < V3_PROTOCOL_VERSION {
            TransportStatusUpdate::UnsupportedProtocolVersion
        } else if !self.protocol.transports.contains(transport) {
            TransportStatusUpdate::UnsupportedTransport
        } else if self.transport_status == Some((self.membership_generation, transport, connected)) {
            TransportStatusUpdate::Duplicate
        } else {
            TransportStatusUpdate::Changed
        }
    }

    /// The connection after a transport report.
    pub open spec fn with_transport_report(
        self,
        transport: Transport,
        connected: bool,
    ) -> ConnectionView {
        if self.transport_update(transport, connected) is Changed {
            ConnectionView {
                transport_status: Some((self.membership_generation, transport, connected)),
                ..self
            }
        } else {
            self
        }
    }

    /// The data path reported in the current membership, if any.
    pub open spec fn current_transport(self) -> Option<(Transport, bool)> {
        match self.transport_status {
            Some((reported_in, transport, connected)) => if reported_in
                == self.membership_generation {
                Some((transport, connected))
            } else {
                None
            },
            None => None,
        }
    }

    /// Whether `last_seen` is due at `now`: never recorded, or recorded at
    /// least `threshold` ago.
    pub open spec fn last_seen_due(self, now: Moment, threshold: Nanos) -> bool {
        match self.last_heartbeat_update {
            None => true,
            Some(last) => elapsed_since(now, last) >= threshold,
        }
    }

    /// Whether the client has been quiet for longer than `timeout` at `now`.
    pub open spec fn expired(self, now: Moment, timeout: Nanos) -> bool {
        elapsed_since(now, self.last_ping) > timeout
    }

    /// The connection after one polite reply is charged against `budget`.
    pub open spec fn charged(self, budget: u64) -> ConnectionView {
        if self.error_replies < budget {
            ConnectionView { error_replies: (self.error_replies + 1) as u64, ..self }
        } else {
            self.closing(CloseReason::InboundRateLimited)
        }
    }

    /// How a charge of one polite reply against `budget` is answered.
    pub open spec fn charge_outcome(self, budget: u64) -> ErrorReplyCharge {
        if self.error_replies < budget {
            ErrorReplyCharge::Admitted
        } else {
            ErrorReplyCharge::Exhausted { initiated_close: self.close is None }
        }
    }
}

/// Whether `transport` is among `transports`.
pub fn contains_transport(transports: &Vec<Transport>, transport: Transport) -> (found: bool)
    ensures
        found == transports@.contains(transport),
{
    let mut index: usize = 0;
    while index < transports.len()
        invariant
            index <= transports.len(),
            forall|i: int| 0 <= i < index ==> transports@[i] != transport,
        decreases transports.len() - index,
    {
        if transports[index] == transport {
            assert(transports@[index as int] == transport);
            return true;
        }
        index += 1;
    }
    false
}

/// The time from `earlier` to `now`, zero if the clock reads the other way.
pub fn duration_since(now: Moment, earlier: Moment) -> (elapsed: Nanos)
    ensures
        elapsed == elapsed_since(now, earlier),
{
    now.saturating_sub(earlier)
}

impl Clone for ClientConnection {
    fn clone(&self) -> (copy: Self)
        ensures
            copy@ == self@,
    {
        let copy = ClientConnection {
            room_id: self.room_id,
            lifecycle: self.lifecycle,
            last_ping: self.last_ping,
            last_heartbeat_update: self.last_heartbeat_update,
            sender: self.sender,
            close: self.close,
            client_addr: self.client_addr,
            game_data_format: self.game_data_format,
            app_context: match &self.app_context {
                Some(context) => Some(context.clone()),
                None => None,
            },
            reconnection_identity: match &self.reconnection_identity {
                Some(identity) => Some(identity.clone()),
                None => None,
            },
            protocol: self.protocol.clone(),
            room_operation_ids: self.room_operation_ids,
            transport_status: self.transport_status,
            membership_generation: self.membership_generation,
            prior_membership_generation: self.prior_membership_generation,
            game_data_seq: self.game_data_seq,
            game_data_epoch: self.game_data_epoch,
            error_replies: self.error_replies,
        };
        assert(copy@ =~= self@);
        copy
    }
}

impl ClientConnection {
    /// The state of a connection that has just registered.
    pub fn new(
        lifecycle: LifecycleId,
        now: Moment,
        sender: DeliverySender,
        client_addr: ClientAddr,
    ) -> (connection: Self)
        ensures
            connection@ == ConnectionView::registered(lifecycle, now, sender, client_addr),
    {
        ClientConnection {
            room_id: None,
            lifecycle,
            last_ping: now,
            last_heartbeat_update: None,
            sender,
            close: ConnectionCloseSignal::detached(),
            client_addr,
            game_data_format: GameDataEncoding::Json,
            app_context: None,
            reconnection_identity: None,
            protocol: NegotiatedProtocol::default(),
            room_operation_ids: false,
            transport_status: None,
            membership_generation: 0,
            prior_membership_generation: None,
            game_data_seq: 0,
            game_data_epoch: 0,
            error_replies: 0,
        }
    }

    /// The pair the delivery layer needs to reach this connection, or failing
    /// that to terminate it.
    pub fn delivery_handle(&self) -> (handle: ClientDeliveryHandle)
        ensures
            handle == self@.delivery(),
    {
        ClientDeliveryHandle { sender: self.sender, lifecycle: self.lifecycle }
    }

    /// The relay stamp this connection has reached.
    pub fn relay_stamp(&self) -> (stamp: RelayStamp)
        ensures
            stamp == self@.stamp(),
    {
        RelayStamp { seq: self.game_data_seq, epoch: self.game_data_epoch }
    }

    /// Install `generation` as the membership token, keeping the current one
    /// for a rollback.
    pub fn advance_membership_generation(&mut self, generation: MembershipGeneration)
        ensures
            final(self)@ == old(self)@.advanced(generation),
    {
        self.prior_membership_generation = Some(self.membership_generation);
        self.membership_generation = generation;
    }

    /// Restore the membership token the latest transition replaced.
    pub fn rollback_membership_generation(&mut self)
        ensures
            final(self)@ == old(self)@.retreated(),
    {
        match self.prior_membership_generation {
            Some(prior) => {
                self.membership_generation = prior;
                self.prior_membership_generation = None;
            },
            None => {},
        }
    }

    /// Begin a fresh seated incarnation in `room`.
    pub fn enter_room(&mut self, room: RoomId, generation: MembershipGeneration)
        ensures
            final(self)@ == old(self)@.entered_room(room, generation),
    {
        self.room_id = Some(room);
        self.advance_membership_generation(generation);
        self.game_data_seq = 0;
        self.game_data_epoch = self.game_data_epoch.saturating_add(1);
        self.sender = self.sender.next_generation();
    }

    /// Undo a prepared room entry whose transition never committed.
    pub fn roll_back_entry(&mut self)
        ensures
            final(self)@ == old(self)@.entry_rolled_back(),
    {
        self.room_id = None;
        self.rollback_membership_generation();
        self.game_data_seq = 0;
        self.sender = self.sender.previous_generation();
    }

    /// End the seated membership.
    pub fn leave_room(&mut self, generation: MembershipGeneration)
        ensures
            final(self)@ == old(self)@.left_room(generation),
    {
        self.room_id = None;
        self.advance_membership_generation(generation);
        self.game_data_seq = 0;
        self.sender = self.sender.next_generation();
    }

    /// Hand this connection to a reconnecting identity seated in `room`.
    pub fn reassign(
        &mut self,
        room: RoomId,
        epoch: u32,
        generation: MembershipGeneration,
        now: Moment,
    )
        ensures
            final(self)@ == old(self)@.reassigned(room, epoch, generation, now),
    {
        self.room_id = Some(room);
        self.last_ping = now;
        self.last_heartbeat_update = None;
        self.sender = self.sender.next_generation();
        self.advance_membership_generation(generation);
        self.game_data_seq = 0;
        self.game_data_epoch = epoch;
    }

    /// Undo a takeover.
    pub fn restore(&mut self, now: Moment)
        ensures
            final(self)@ == old(self)@.restored(now),
    {
        self.room_id = None;
        self.last_ping = now;
        self.last_heartbeat_update = None;
        self.sender = self.sender.previous_generation();
        self.rollback_membership_generation();
        self.game_data_seq = 0;
        self.game_data_epoch = 0;
    }

    /// Move a roomless role transition's token and queue generation forward.
    pub fn advance_delivery(&mut self, generation: MembershipGeneration)
        ensures
            final(self)@ == old(self)@.delivery_advanced(generation),
    {
        self.advance_membership_generation(generation);
        self.sender = self.sender.next_generation();
    }

    /// Undo a roomless role transition.
    pub fn roll_back_delivery(&mut self)
        ensures
            final(self)@ == old(self)@.delivery_rolled_back(),
    {
        self.rollback_membership_generation();
        self.sender = self.sender.previous_generation();
    }

    /// Stamp the next relayed frame. `None` when the sequence is exhausted;
    /// nothing is consumed then.
    pub fn next_stamp(&mut self) -> (stamp: Option<RelayStamp>)
        ensures
            old(self).game_data_seq == u64::MAX ==> stamp is None && final(self)@ == old(self)@,
            old(self).game_data_seq < u64::MAX ==> final(self)@ == old(self)@.stamped() && stamp
                == Some(final(self)@.stamp()),
    {
        match self.game_data_seq.checked_add(1) {
            Some(next_seq) => {
                self.game_data_seq = next_seq;
                Some(self.relay_stamp())
            },
            None => None,
        }
    }

    /// Request a close. Returns whether this call initiated one.
    pub fn request_close(&mut self, reason: CloseReason) -> (initiated: bool)
        ensures
            final(self)@ == old(self)@.closing(reason),
            initiated == (old(self)@.close is None),
    {
        self.close.request_close(reason)
    }

    /// Record a transport report. Duplicates of the current generation leave
    /// the state untouched, and so do reports the client may not make.
    pub fn report_transport(&mut self, transport: Transport, connected: bool) -> (update:
        TransportStatusUpdate)
        ensures
            update == old(self)@.transport_update(transport, connected),
            final(self)@ == old(self)@.with_transport_report(transport, connected),
    {
        if self.protocol.version < V3_PROTOCOL_VERSION {
            return TransportStatusUpdate::UnsupportedProtocolVersion;
        }
        if !contains_transport(&self.protocol.transports, transport) {
            return TransportStatusUpdate::UnsupportedTransport;
        }
        match self.transport_status {
            Some((reported_in, reported, was_connected)) => {
                if reported_in == self.membership_generation && reported == transport
                    && was_connected == connected {
                    return TransportStatusUpdate::Duplicate;
                }
            },
            None => {},
        }
        self.transport_status = Some((self.membership_generation, transport, connected));
        TransportStatusUpdate::Changed
    }

    /// The data path reported in the current membership, if any.
    pub fn reported_transport(&self) -> (status: Option<(Transport, bool)>)
        ensures
            status == self@.current_transport(),
    {
        match self.transport_status {
            Some((reported_in, transport, connected)) => {
                if reported_in == self.membership_generation {
                    Some((transport, connected))
                } else {
                    None
                }
            },
            None => None,
        }
    }

    /// Whether `last_seen` is due at `now`.
    pub fn is_last_seen_due(&self, now: Moment, threshold: Nanos) -> (due: bool)
        ensures
            due == self@.last_seen_due(now, threshold),
    {
        match self.last_heartbeat_update {
            None => true,
            Some(last) => duration_since(now, last) >= threshold,
        }
    }

    /// Whether the client has been quiet for longer than `timeout` at `now`.
    pub fn is_expired(&self, now: Moment, timeout: Nanos) -> (expired: bool)
        ensures
            expired == self@.expired(now, timeout),
    {
        duration_since(now, self.last_ping) > timeout
    }

    /// Charge one polite reply against `budget`. An exhausted budget withholds
    /// the reply and closes the connection as rate limited instead.
    pub fn charge_error_reply(&mut self, budget: u64) -> (charge: ErrorReplyCharge)
        ensures
            charge == old(self)@.charge_outcome(budget),
            final(self)@ == old(self)@.charged(budget),
    {
        if self.error_replies < budget {
            self.error_replies = self.error_replies + 1;
            ErrorReplyCharge::Admitted
        } else {
            let initiated_close = self.request_close(CloseReason::InboundRateLimited);
            ErrorReplyCharge::Exhausted { initiated_close }
        }
    }
}

/// Rolling back a prepared entry restores the membership token and the queue
/// generation, and a transport report made before the entry counts again.
pub proof fn law_entry_rollback_restores_membership(
    before: ConnectionView,
    room: RoomId,
    generation: MembershipGeneration,
)
    ensures
        ({
            let after = before.entered_room(room, generation).entry_rolled_back();
            &&& after.membership_generation == before.membership_generation
            &&& after.sender == before.sender
            &&& after.transport_status == before.transport_status
            &&& after.current_transport() == before.current_transport()
            &&& after.room_id is None
        }),
{
    law_previous_generation_undoes_next(before.sender);
}

/// Undoing a takeover gives back the roomless connection that was taken over:
/// membership token, queue generation, negotiated capabilities, and physical
/// identity included.
pub proof fn law_restore_undoes_reassignment(
    before: ConnectionView,
    room: RoomId,
    epoch: u32,
    generation: MembershipGeneration,
    swapped_at: Moment,
    restored_at: Moment,
)
    requires
        before.room_id is None,
        before.game_data_seq == 0,
        before.game_data_epoch == 0,
        before.prior_membership_generation is None,
    ensures
        before.reassigned(room, epoch, generation, swapped_at).restored(restored_at) == (
        ConnectionView { last_ping: restored_at, last_heartbeat_update: None, ..before }),
{
    law_previous_generation_undoes_next(before.sender);
}

/// Undoing a takeover of any roomless connection gives its physical identity,
/// its membership token and queue generation, and all it negotiated or reported
/// back.
pub proof fn law_restore_keeps_what_was_negotiated(
    before: ConnectionView,
    room: RoomId,
    epoch: u32,
    generation: MembershipGeneration,
    swapped_at: Moment,
    restored_at: Moment,
)
    requires
        before.room_id is None,
    ensures
        ({
            let after = before.reassigned(room, epoch, generation, swapped_at).restored(
                restored_at,
            );
            &&& after.room_id is None
            &&& after.lifecycle == before.lifecycle
            &&& after.client_addr == before.client_addr
            &&& after.close == before.close
            &&& after.sender == before.sender
            &&& after.membership_generation == before.membership_generation
            &&& after.protocol == before.protocol
            &&& after.room_operation_ids == before.room_operation_ids
            &&& after.game_data_format == before.game_data_format
            &&& after.app_context == before.app_context
            &&& after.reconnection_identity == before.reconnection_identity
            &&& after.transport_status == before.transport_status
            &&& after.current_transport() == before.current_transport()
            &&& after.error_replies == before.error_replies
        }),
{
    law_previous_generation_undoes_next(before.sender);
}

/// A transport report is forgotten for deduplication by every role transition
/// into an admitted generation: the next report counts as a change.
pub proof fn law_transport_dedup_is_scoped_to_membership(
    before: ConnectionView,
    transport: Transport,
    connected: bool,
    room: RoomId,
    generation: MembershipGeneration,
)
    requires
        before.admits_generation(generation),
        before.protocol.version >= V3_PROTOCOL_VERSION,
        before.protocol.transports.contains(transport),
    ensures
        before.with_transport_report(transport, connected).transport_update(transport, connected)
            is Duplicate,
        before.entered_room(room, generation).transport_update(transport, connected) is Changed,
        before.left_room(generation).transport_update(transport, connected) is Changed,
        before.entered_room(room, generation).current_transport() is None,
{
}

/// A connection below protocol v3 never changes its transport state.
pub proof fn law_v2_transport_reports_change_nothing(
    before: ConnectionView,
    transport: Transport,
    connected: bool,
)
    requires
        before.protocol.version < V3_PROTOCOL_VERSION,
    ensures
        before.with_transport_report(transport, connected) == before,
        before.transport_update(transport, connected) is UnsupportedProtocolVersion,
{
}

/// Exactly `budget` polite replies are admitted on one connection: while the
/// budget lasts each charge spends one, and from then on every charge is
/// refused with the rate-limit close pinned.
pub proof fn law_error_reply_budget_is_exact(before: ConnectionView, budget: u64)
    ensures
        before.error_replies < budget ==> before.charged(budget).error_replies
            == before.error_replies + 1 && before.charge_outcome(budget) is Admitted,
        before.error_replies >= budget ==> before.charged(budget).error_replies
            == before.error_replies && before.charge_outcome(budget) is Exhausted
            && before.charged(budget).close is Some && (before.close is None ==> before.charged(
            budget,
        ).close == Some(CloseReason::InboundRateLimited)),
{
}

/// The next generation of a queue is one later on the same channel, starting
/// over after the last.
pub proof fn law_generations_count_up_on_one_channel(sender: DeliverySender)
    ensures
        sender.spec_next_generation().channel == sender.channel,
        sender.generation < u64::MAX ==> sender.spec_next_generation().generation
            == sender.generation + 1,
        sender.generation == u64::MAX ==> sender.spec_next_generation().generation == 0,
        sender.spec_previous_generation().channel == sender.channel,
        sender.generation > 0 ==> sender.spec_previous_generation().generation == sender.generation
            - 1,
        sender.generation == 0 ==> sender.spec_previous_generation().generation == u64::MAX,
{
}

/// A client that has just registered sits nowhere, is not closing, has
/// negotiated nothing beyond the relay floor, and was heard from just now.
pub proof fn law_registered_clients_start_from_nothing(
    lifecycle: LifecycleId,
    now: Moment,
    sender: DeliverySender,
    client_addr: ClientAddr,
)
    ensures
        ({
            let client = ConnectionView::registered(lifecycle, now, sender, client_addr);
            &&& client.room_id is None
            &&& client.lifecycle == lifecycle
            &&& client.last_ping == now
            &&& client.last_heartbeat_update is None
            &&& client.sender == sender
            &&& client.close is None
            &&& client.client_addr == client_addr
            &&& client.game_data_format == GameDataEncoding::Json
            &&& client.app_context is None
            &&& client.reconnection_identity is None
            &&& client.protocol.version == 2
            &&& client.protocol.transports == seq![Transport::Relay]
            &&& client.protocol.topologies == seq![Topology::Relay]
            &&& !client.room_operation_ids
            &&& client.transport_status is None
            &&& client.membership_generation == 0
            &&& client.prior_membership_generation is None
            &&& client.game_data_seq == 0
            &&& client.game_data_epoch == 0
            &&& client.error_replies == 0
            &&& client.delivery().sender == sender && client.delivery().lifecycle == lifecycle
        }),
{
}

/// Entering a room seats the client there under a new token, starts its frame
/// sequence over in the next epoch, and fences its queue off from the scope
/// before. Everything else about the client stays.
pub proof fn law_entering_starts_a_new_incarnation(
    before: ConnectionView,
    room: RoomId,
    generation: MembershipGeneration,
)
    ensures
        ({
            let after = before.entered_room(room, generation);
            &&& after.room_id == Some(room)
            &&& after.game_data_seq == 0
            &&& before.game_data_epoch < u32::MAX ==> after.game_data_epoch
                == before.game_data_epoch + 1
            &&& before.game_data_epoch == u32::MAX ==> after.game_data_epoch == u32::MAX
            &&& after.sender.channel == before.sender.channel
            &&& after.sender.generation != before.sender.generation
            &&& after.sender.spec_previous_generation() == before.sender
            &&& after.membership_generation == generation
            &&& after.prior_membership_generation == Some(before.membership_generation)
            &&& after == (ConnectionView {
                room_id: after.room_id,
                game_data_seq: after.game_data_seq,
                game_data_epoch: after.game_data_epoch,
                sender: after.sender,
                membership_generation: after.membership_generation,
                prior_membership_generation: after.prior_membership_generation,
                ..before
            })
        }),
{
}

/// Leaving a room unseats the client under a new token and fences its queue off;
/// the epoch is kept, so that no later entry repeats it. Everything else about
/// the client stays.
pub proof fn law_leaving_keeps_the_epoch(
    before: ConnectionView,
    generation: MembershipGeneration,
    room: RoomId,
    next: MembershipGeneration,
)
    ensures
        ({
            let after = before.left_room(generation);
            &&& after.room_id is None
            &&& after.game_data_seq == 0
            &&& after.game_data_epoch == before.game_data_epoch
            &&& after.sender.channel == before.sender.channel
            &&& after.sender.spec_previous_generation() == before.sender
            &&& after.membership_generation == generation
            &&& after.prior_membership_generation == Some(before.membership_generation)
            &&& after == (ConnectionView {
                room_id: after.room_id,
                game_data_seq: after.game_data_seq,
                sender: after.sender,
                membership_generation: after.membership_generation,
                prior_membership_generation: after.prior_membership_generation,
                ..before
            })
            &&& before.game_data_epoch < u32::MAX ==> after.entered_room(room, next).game_data_epoch
                > before.game_data_epoch
        }),
{
}

/// Undoing a prepared entry unseats the client under the token before it. The
/// epoch stays spent, and everything else about the client stays.
pub proof fn law_undone_entries_leave_the_epoch_spent(before: ConnectionView)
    ensures
        ({
            let after = before.entry_rolled_back();
            &&& after.room_id is None
            &&& after.game_data_seq == 0
            &&& after.sender.spec_next_generation() == before.sender
            &&& after.membership_generation == (if before.prior_membership_generation is Some {
                before.prior_membership_generation->0
            } else {
                before.membership_generation
            })
            &&& after.prior_membership_generation is None
            &&& after == (ConnectionView {
                room_id: after.room_id,
                game_data_seq: after.game_data_seq,
                sender: after.sender,
                membership_generation: after.membership_generation,
                prior_membership_generation: after.prior_membership_generation,
                ..before
            })
        }),
{
}

/// A takeover seats the same physical connection in the restored room, in the
/// epoch that was resumed, under a new token, heard from just now and due to be
/// recorded. Everything it negotiated stays.
pub proof fn law_takeovers_resume_the_stream(
    before: ConnectionView,
    room: RoomId,
    epoch: u32,
    generation: MembershipGeneration,
    now: Moment,
)
    ensures
        ({
            let after = before.reassigned(room, epoch, generation, now);
            &&& after.room_id == Some(room)
            &&& after.last_ping == now
            &&& after.last_heartbeat_update is None
            &&& after.game_data_seq == 0
            &&& after.game_data_epoch == epoch
            &&& after.sender.channel == before.sender.channel
            &&& after.sender.spec_previous_generation() == before.sender
            &&& after.membership_generation == generation
            &&& after.prior_membership_generation == Some(before.membership_generation)
            &&& after == (ConnectionView {
                room_id: after.room_id,
                last_ping: after.last_ping,
                last_heartbeat_update: after.last_heartbeat_update,
                game_data_seq: after.game_data_seq,
                game_data_epoch: after.game_data_epoch,
                sender: after.sender,
                membership_generation: after.membership_generation,
                prior_membership_generation: after.prior_membership_generation,
                ..before
            })
        }),
{
}

/// A roomless transition moves the token and the queue generation on, and its
/// undoing moves both back; nothing else changes.
pub proof fn law_roomless_transitions_can_be_undone(
    before: ConnectionView,
    generation: MembershipGeneration,
)
    ensures
        ({
            let after = before.delivery_advanced(generation);
            &&& after.membership_generation == generation
            &&& after.prior_membership_generation == Some(before.membership_generation)
            &&& after.sender.channel == before.sender.channel
            &&& after.sender != before.sender
            &&& after == (ConnectionView {
                sender: after.sender,
                membership_generation: after.membership_generation,
                prior_membership_generation: after.prior_membership_generation,
                ..before
            })
            &&& after.delivery_rolled_back() == (ConnectionView {
                prior_membership_generation: None,
                ..before
            })
        }),
{
    law_previous_generation_undoes_next(before.sender);
}

/// Hearing from a client, recording it as seen, and stamping a frame of it each
/// change the one thing they are about.
pub proof fn law_small_changes_change_one_thing(before: ConnectionView, now: Moment)
    ensures
        before.pinged(now) == (ConnectionView { last_ping: now, ..before }),
        before.seen(now) == (ConnectionView { last_heartbeat_update: Some(now), ..before }),
        before.game_data_seq < u64::MAX ==> before.stamped().game_data_seq == before.game_data_seq
            + 1 && before.stamped() == (ConnectionView {
            game_data_seq: before.stamped().game_data_seq,
            ..before
        }),
        before.stamp().seq == before.game_data_seq,
        before.stamp().epoch == before.game_data_epoch,
{
}

/// A close request changes the close reason alone, and never withdraws one.
pub proof fn law_close_requests_change_only_the_reason(before: ConnectionView, reason: CloseReason)
    ensures
        before.closing(reason) == (ConnectionView {
            close: before.closing(reason).close,
            ..before
        }),
        before.close is None ==> before.closing(reason).close == Some(reason),
        before.closing(CloseReason::Shutdown).close == Some(CloseReason::Shutdown),
        before.close is Some && reason != CloseReason::Shutdown ==> before.closing(reason)
            == before,
{
}

/// A token may follow exactly if it is neither the current one nor the one a
/// kept report belongs to.
pub proof fn law_tokens_never_revive_a_report(
    before: ConnectionView,
    generation: MembershipGeneration,
)
    ensures
        before.admits_generation(generation) ==> generation != before.membership_generation
            && before.delivery_advanced(generation).current_transport() is None,
        generation != before.membership_generation && before.transport_status is None
            ==> before.admits_generation(generation),
        generation == before.membership_generation ==> !before.admits_generation(generation),
        before.transport_status is Some && (before.transport_status->0).0 == generation
            ==> !before.admits_generation(generation),
        before.draws_generation(generation) ==> generation != 0 && before.admits_generation(
            generation,
        ),
{
    if before.draws_generation(generation) {
        crate::identifiers::law_random_identifiers_are_not_nil(generation);
    }
}

/// A transport report is answered as a change exactly if the client speaks the
/// additive protocol, negotiated the transport, and did not report the same in
/// this membership; a change is then what the client's path reads as, and
/// anything else leaves the client as it was.
pub proof fn law_transport_reports_are_recorded_once(
    before: ConnectionView,
    transport: Transport,
    connected: bool,
)
    ensures
        ({
            let update = before.transport_update(transport, connected);
            let after = before.with_transport_report(transport, connected);
            let speaks = before.protocol.version >= 3;
            let negotiated = before.protocol.transports.contains(transport);
            let known = before.current_transport() == Some((transport, connected));
            &&& update is UnsupportedProtocolVersion <==> !speaks
            &&& update is UnsupportedTransport <==> speaks && !negotiated
            &&& update is Duplicate <==> speaks && negotiated && known
            &&& update is Changed <==> speaks && negotiated && !known
            &&& !(update is MissingConnection)
            &&& update is Changed ==> after.current_transport() == Some((transport, connected))
                && after == (ConnectionView { transport_status: after.transport_status, ..before })
            &&& !(update is Changed) ==> after == before
        }),
{
}

/// A client's path reads as the last one it reported in its current membership,
/// and as none if it reported none since.
pub proof fn law_paths_read_as_last_reported(before: ConnectionView)
    ensures
        before.current_transport() is Some <==> before.transport_status is Some && (
        before.transport_status->0).0 == before.membership_generation,
        before.current_transport() is Some ==> before.current_transport()->0 == (
            (before.transport_status->0).1,
            (before.transport_status->0).2,
        ),
{
}

/// A client counts as quiet exactly once more than the timeout has passed since
/// it was heard from, and as due to be recorded once at least the throttle has
/// passed since it was, or if it never was. A clock that reads earlier counts as
/// no time at all.
pub proof fn law_silence_is_measured_from_the_last_sign(
    client: ConnectionView,
    now: Moment,
    span: Nanos,
)
    ensures
        client.expired(now, span) <==> now > client.last_ping + span,
        client.last_seen_due(now, span) <==> client.last_heartbeat_update is None || span == 0
            || now >= client.last_heartbeat_update->0 + span,
        client.pinged(now).expired(now, span) == false,
        client.seen(now).last_seen_due(now, span) <==> span == 0,
{
}

/// A charge spends one reply while some are left and changes nothing else; an
/// exhausted budget spends none, and asks the connection to close instead, which
/// it initiates exactly if nobody had before.
pub proof fn law_charges_spend_or_close(before: ConnectionView, budget: u64)
    ensures
        ({
            let after = before.charged(budget);
            &&& before.charge_outcome(budget) is Admitted <==> before.error_replies < budget
            &&& before.error_replies < budget ==> after == (ConnectionView {
                error_replies: (before.error_replies + 1) as u64,
                ..before
            })
            &&& before.error_replies >= budget ==> before.charge_outcome(budget) == (
            ErrorReplyCharge::Exhausted { initiated_close: before.close is None }) && after == (
            ConnectionView { close: after.close, ..before }) && after.close == (if before.close
                is None {
                Some(CloseReason::InboundRateLimited)
            } else {
                before.close
            })
        }),
{
}

/// An undone takeover leaves nothing of the room behind, whatever was stamped
/// in between: no seat, no stream, and a liveness that begins at that moment.
pub proof fn law_undone_takeovers_leave_nothing_behind(seated: ConnectionView, now: Moment)
    ensures
        ({
            let after = seated.restored(now);
            &&& after.room_id is None
            &&& after.game_data_seq == 0
            &&& after.game_data_epoch == 0
            &&& after.last_ping == now
            &&& after.last_heartbeat_update is None
            &&& after.sender.channel == seated.sender.channel
            &&& after.lifecycle == seated.lifecycle
            &&& after.close == seated.close
            &&& after.protocol == seated.protocol
        }),
{
}

} // verus!
