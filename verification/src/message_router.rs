//! Inbound messages: where each one goes, and how transport reports fan out.

use vstd::prelude::*;
use vstd::string::*;

use crate::connection::{LifecycleId, Moment, TransportStatusUpdate};
use crate::heartbeat::HeartbeatStep;
use crate::identifiers::contains_id;
use crate::messaging::Reply;
use crate::protocol::{
    DeliveryClass, ErrorCode, PlayerId, RoomId, RoomOperationId, ServerMessage, Transport,
};
use crate::server::{EnhancedGameServer, ServerView};

verus! {

/// A request to join a room.
#[derive(Debug)]
pub struct JoinRequest {
    pub game_name: String,
    pub room_code: Option<String>,
    pub player_name: String,
    pub max_players: Option<u8>,
    pub supports_authority: Option<bool>,
    /// The wire name of the relay transport asked for.
    pub relay_transport: Option<String>,
}

/// A request to take a dropped membership up again.
#[derive(Debug)]
pub struct ReconnectRequest {
    pub player_id: PlayerId,
    pub room_id: RoomId,
    pub auth_token: String,
}

/// A request to watch a room.
#[derive(Debug)]
pub struct SpectateRequest {
    pub game_name: String,
    pub room_code: String,
    pub spectator_name: String,
}

/// The room operations a client can correlate.
#[derive(Debug)]
pub enum RoomOperationRequest {
    JoinRoom(JoinRequest),
    LeaveRoom,
    Reconnect(ReconnectRequest),
    JoinAsSpectator(SpectateRequest),
    LeaveSpectator,
}

/// The messages a client can send once it is connected.
#[derive(Debug)]
pub enum ClientMessage {
    Authenticate { app_id: String },
    JoinRoom(JoinRequest),
    LeaveRoom,
    /// `data` is JSON text.
    GameData { data: String, class: Option<DeliveryClass>, key: Option<u32> },
    /// `signal` is JSON text.
    Signal { to: PlayerId, generation: Option<u64>, signal: String },
    AuthorityRequest { become_authority: bool },
    PlayerReady,
    StartGame,
    /// `connection_info` is JSON text.
    ProvideConnectionInfo { connection_info: String },
    Ping,
    Reconnect(ReconnectRequest),
    JoinAsSpectator(SpectateRequest),
    LeaveSpectator,
    RoomOperation { operation_id: RoomOperationId, operation: RoomOperationRequest },
    TransportStatus { transport: Transport, connected: bool },
}

/// Where a message goes.
#[derive(Debug)]
#[allow(inconsistent_fields)]
pub enum ClientRequest {
    /// Nowhere: it has no place on an established connection.
    Ignore,
    /// It is refused; the client is told.
    Refused(Reply),
    JoinRoom { request: JoinRequest, operation_id: Option<RoomOperationId> },
    LeaveRoom { operation_id: Option<RoomOperationId> },
    GameData { data: String, class: Option<DeliveryClass>, key: Option<u32> },
    Signal { to: PlayerId, generation: Option<u64>, signal: String },
    AuthorityRequest { become_authority: bool },
    PlayerReady,
    StartGame,
    ProvideConnectionInfo { connection_info: String },
    Ping,
    Reconnect { request: ReconnectRequest, operation_id: Option<RoomOperationId> },
    JoinAsSpectator { request: SpectateRequest, operation_id: Option<RoomOperationId> },
    LeaveSpectator { operation_id: Option<RoomOperationId> },
    TransportStatus { transport: Transport, connected: bool },
}

/// Where a room operation goes, correlated or not.
pub open spec fn operation_route(
    operation: RoomOperationRequest,
    operation_id: Option<RoomOperationId>,
) -> ClientRequest {
    match operation {
        RoomOperationRequest::JoinRoom(request) => ClientRequest::JoinRoom {
            request,
            operation_id,
        },
        RoomOperationRequest::LeaveRoom => ClientRequest::LeaveRoom { operation_id },
        RoomOperationRequest::Reconnect(request) => ClientRequest::Reconnect {
            request,
            operation_id,
        },
        RoomOperationRequest::JoinAsSpectator(request) => ClientRequest::JoinAsSpectator {
            request,
            operation_id,
        },
        RoomOperationRequest::LeaveSpectator => ClientRequest::LeaveSpectator { operation_id },
    }
}

/// Where a message goes, unless it is a room operation of a client that did not
/// negotiate them.
pub open spec fn message_route(message: ClientMessage) -> ClientRequest {
    match message {
        ClientMessage::Authenticate { .. } => ClientRequest::Ignore,
        ClientMessage::JoinRoom(request) => operation_route(
            RoomOperationRequest::JoinRoom(request),
            None,
        ),
        ClientMessage::LeaveRoom => operation_route(RoomOperationRequest::LeaveRoom, None),
        ClientMessage::GameData { data, class, key } => ClientRequest::GameData {
            data,
            class,
            key,
        },
        ClientMessage::Signal { to, generation, signal } => ClientRequest::Signal {
            to,
            generation,
            signal,
        },
        ClientMessage::AuthorityRequest { become_authority } => ClientRequest::AuthorityRequest {
            become_authority,
        },
        ClientMessage::PlayerReady => ClientRequest::PlayerReady,
        ClientMessage::StartGame => ClientRequest::StartGame,
        ClientMessage::ProvideConnectionInfo { connection_info } =>
            ClientRequest::ProvideConnectionInfo { connection_info },
        ClientMessage::Ping => ClientRequest::Ping,
        ClientMessage::Reconnect(request) => operation_route(
            RoomOperationRequest::Reconnect(request),
            None,
        ),
        ClientMessage::JoinAsSpectator(request) => operation_route(
            RoomOperationRequest::JoinAsSpectator(request),
            None,
        ),
        ClientMessage::LeaveSpectator => operation_route(
            RoomOperationRequest::LeaveSpectator,
            None,
        ),
        ClientMessage::RoomOperation { operation_id, operation } => operation_route(
            operation,
            Some(operation_id),
        ),
        ClientMessage::TransportStatus { transport, connected } => ClientRequest::TransportStatus {
            transport,
            connected,
        },
    }
}

/// Where a room operation goes.
fn route_operation(operation: RoomOperationRequest, operation_id: Option<RoomOperationId>) -> (
    request: ClientRequest)
    ensures
        request == operation_route(operation, operation_id),
{
    match operation {
        RoomOperationRequest::JoinRoom(request) => ClientRequest::JoinRoom {
            request,
            operation_id,
        },
        RoomOperationRequest::LeaveRoom => ClientRequest::LeaveRoom { operation_id },
        RoomOperationRequest::Reconnect(request) => ClientRequest::Reconnect {
            request,
            operation_id,
        },
        RoomOperationRequest::JoinAsSpectator(request) => ClientRequest::JoinAsSpectator {
            request,
            operation_id,
        },
        RoomOperationRequest::LeaveSpectator => ClientRequest::LeaveSpectator { operation_id },
    }
}

/// Where a message goes.
fn route_message(message: ClientMessage) -> (request: ClientRequest)
    ensures
        request == message_route(message),
{
    match message {
        ClientMessage::Authenticate { .. } => ClientRequest::Ignore,
        ClientMessage::JoinRoom(request) => route_operation(
            RoomOperationRequest::JoinRoom(request),
            None,
        ),
        ClientMessage::LeaveRoom => route_operation(RoomOperationRequest::LeaveRoom, None),
        ClientMessage::GameData { data, class, key } => ClientRequest::GameData {
            data,
            class,
            key,
        },
        ClientMessage::Signal { to, generation, signal } => ClientRequest::Signal {
            to,
            generation,
            signal,
        },
        ClientMessage::AuthorityRequest { become_authority } => ClientRequest::AuthorityRequest {
            become_authority,
        },
        ClientMessage::PlayerReady => ClientRequest::PlayerReady,
        ClientMessage::StartGame => ClientRequest::StartGame,
        ClientMessage::ProvideConnectionInfo { connection_info } =>
            ClientRequest::ProvideConnectionInfo { connection_info },
        ClientMessage::Ping => ClientRequest::Ping,
        ClientMessage::Reconnect(request) => route_operation(
            RoomOperationRequest::Reconnect(request),
            None,
        ),
        ClientMessage::JoinAsSpectator(request) => route_operation(
            RoomOperationRequest::JoinAsSpectator(request),
            None,
        ),
        ClientMessage::LeaveSpectator => route_operation(
            RoomOperationRequest::LeaveSpectator,
            None,
        ),
        ClientMessage::RoomOperation { operation_id, operation } => route_operation(
            operation,
            Some(operation_id),
        ),
        ClientMessage::TransportStatus { transport, connected } => ClientRequest::TransportStatus {
            transport,
            connected,
        },
    }
}

impl ServerView {
    /// Whether `player` negotiated correlated room operations.
    pub open spec fn supports_operation_ids(self, player: PlayerId) -> bool {
        self.manager.clients.contains_key(player)
            && self.manager.clients[player].room_operation_ids
    }
}

/// `request` and `after` are what becomes of `message` of `player` on a server
/// that has taken it as a sign of life already.
pub open spec fn routed(
    active: ServerView,
    after: ServerView,
    request: ClientRequest,
    player: PlayerId,
    message: ClientMessage,
) -> bool {
    if message is RoomOperation && !active.supports_operation_ids(player) {
        &&& after == active.reply_charged(player)
        &&& request matches ClientRequest::Refused(reply) && reply.refuses(
            active.reply_charge(player),
            "RoomOperation requires the negotiated room_operation_ids capability"@,
            ErrorCode::UnsupportedProtocolVersion,
        )
    } else {
        after == active && request == message_route(message)
    }
}

/// What a transport report is counted as.
#[derive(Clone, Copy, Debug, PartialEq, Eq, Structural)]
pub enum TransportMetric {
    /// The client fell back to the relay floor.
    RelayFallback,
    /// A peer-to-peer path came up.
    PeerToPeerEstablished,
}

/// What a transport report is counted as, if anything: a connected relay is
/// just the floor.
pub open spec fn spec_transport_metric(transport: Transport, connected: bool) -> Option<
    TransportMetric,
> {
    if !connected {
        Some(TransportMetric::RelayFallback)
    } else if transport is Relay {
        None
    } else {
        Some(TransportMetric::PeerToPeerEstablished)
    }
}

/// What a transport report is counted as, if anything.
pub fn transport_metric(transport: Transport, connected: bool) -> (metric: Option<TransportMetric>)
    ensures
        metric == spec_transport_metric(transport, connected),
{
    if !connected {
        Some(TransportMetric::RelayFallback)
    } else {
        match transport {
            Transport::Direct | Transport::WebRtc => Some(TransportMetric::PeerToPeerEstablished),
            Transport::Relay => None,
        }
    }
}

/// What becomes of a transport report.
#[derive(Clone, Copy, Debug, PartialEq, Eq, Structural)]
pub enum TransportReportStep {
    /// The connection it came from is gone, or stands for another player.
    Stale,
    /// It changes nothing.
    Ignored(TransportStatusUpdate),
    /// It is recorded. With a room it fans out there, if the signal budget
    /// allows.
    Recorded { metric: Option<TransportMetric>, room: Option<RoomId> },
}

/// What is known of the members of a room.
#[derive(Debug)]
pub enum RoomMembers {
    /// The routed members.
    Routed(Vec<PlayerId>),
    /// The stored members, where the coordinator keeps no routing.
    Stored(Vec<PlayerId>),
    /// Neither could be read.
    Unreadable,
}

/// A recorded transport report that fans out in its sender's room.
#[derive(Clone, Copy, Debug)]
pub struct TransportReport {
    pub player: PlayerId,
    pub room: RoomId,
    pub transport: Transport,
    pub connected: bool,
}

/// What is known so far about a fan-out.
#[derive(Debug)]
pub struct FanoutProgress {
    /// Whether the signal budget of the sender has a slot left.
    pub available: Option<bool>,
    pub members: Option<RoomMembers>,
    /// Whether a slot of the signal budget was charged.
    pub charged: Option<bool>,
}

/// What the caller does next about a fan-out.
#[derive(Debug)]
pub enum FanoutStep {
    /// Look at the sender's signal budget without charging it.
    CheckSignalAvailable,
    /// Read the members of the room.
    ReadMembers { room: RoomId },
    /// Charge one slot of the sender's signal budget.
    ChargeSignal,
    /// Send the frame to all recipients at once, then count one fan-out.
    Send { recipients: Vec<PlayerId>, frame: ServerMessage },
    Stop,
}

impl TransportReport {
    /// Whether `step` is the next step of the fan-out on a server.
    pub open spec fn fans_out(
        self,
        server: ServerView,
        progress: FanoutProgress,
        step: FanoutStep,
    ) -> bool {
        match (progress.available, progress.members) {
            (None, _) => step is CheckSignalAvailable,
            (Some(false), _) => step is Stop,
            (Some(true), None) => step == (FanoutStep::ReadMembers { room: self.room }),
            (Some(true), Some(members)) => {
                let told = fanout(server, self.player, members);
                if told.len() == 0 {
                    step is Stop
                } else {
                    match progress.charged {
                        None => step is ChargeSignal,
                        Some(false) => step is Stop,
                        Some(true) => step matches FanoutStep::Send { recipients, frame }
                            && recipients@ == told && frame == (
                        ServerMessage::PeerTransportStatus {
                            peer_id: self.player,
                            transport: self.transport,
                            connected: self.connected,
                        }),
                    }
                }
            },
        }
    }
}

impl ServerView {
    /// The server after a transport report of `player`.
    pub open spec fn report_recorded(
        self,
        player: PlayerId,
        transport: Transport,
        connected: bool,
    ) -> ServerView {
        self.with_manager(
            self.manager.updated(
                player,
                self.manager.clients[player].with_transport_report(transport, connected),
            ),
        )
    }

    /// What becomes of a transport report of `player`.
    pub open spec fn report_step(
        self,
        player: PlayerId,
        transport: Transport,
        connected: bool,
    ) -> TransportReportStep {
        if !self.manager.clients.contains_key(player) {
            TransportReportStep::Ignored(TransportStatusUpdate::MissingConnection)
        } else {
            let update = self.manager.clients[player].transport_update(transport, connected);
            if update is Changed {
                TransportReportStep::Recorded {
                    metric: spec_transport_metric(transport, connected),
                    room: self.manager.room_of(player),
                }
            } else {
                TransportReportStep::Ignored(update)
            }
        }
    }
}

/// Whether `member` is told of a transport report of `sender`.
pub open spec fn hears_report(server: ServerView, sender: PlayerId, member: PlayerId) -> bool {
    member != sender && server.supports_v3(member)
}

/// The members of `members` that are told of a transport report of `sender`.
pub open spec fn report_recipients(server: ServerView, sender: PlayerId, members: Seq<PlayerId>) -> Seq<
    PlayerId,
> {
    members.filter(|member: PlayerId| hears_report(server, sender, member))
}

/// Whom a transport report of `sender` fans out to: nobody if it is not routed
/// itself, or if the members are not known.
pub open spec fn fanout(server: ServerView, sender: PlayerId, members: RoomMembers) -> Seq<
    PlayerId,
> {
    match members {
        RoomMembers::Routed(routed) => if routed@.contains(sender) {
            report_recipients(server, sender, routed@)
        } else {
            Seq::empty()
        },
        RoomMembers::Stored(stored) => report_recipients(server, sender, stored@),
        RoomMembers::Unreadable => Seq::empty(),
    }
}

impl EnhancedGameServer {
    /// Takes `message` of `player_id` in at `now`. Whatever it is, it is a sign
    /// of life of the client and of the room it occupies. `watched` is the room
    /// it spectates, if any.
    pub fn handle_client_message_at(
        &mut self,
        player_id: PlayerId,
        message: ClientMessage,
        watched: Option<RoomId>,
        now: Moment,
    ) -> (handled: (HeartbeatStep, ClientRequest))
        requires
            old(self).wf(),
        ensures
            final(self).wf(),
            handled.0 == old(self)@.heard(player_id, now).heartbeat(player_id, watched, now),
            routed(
                old(self)@.active(player_id, now),
                final(self)@,
                handled.1,
                player_id,
                message,
            ),
    {
        let heartbeat = self.record_activity_at(player_id, watched, now);
        let correlated = match &message {
            ClientMessage::RoomOperation { .. } => true,
            _ => false,
        };
        if correlated && !self.connection_manager.supports_room_operation_ids(player_id) {
            let reply = self.refuse(
                player_id,
                "RoomOperation requires the negotiated room_operation_ids capability",
                ErrorCode::UnsupportedProtocolVersion,
            );
            return (heartbeat, ClientRequest::Refused(reply));
        }
        (heartbeat, route_message(message))
    }

    /// Takes `message` of `player_id` in.
    pub fn handle_client_message(
        &mut self,
        player_id: PlayerId,
        message: ClientMessage,
        watched: Option<RoomId>,
    ) -> (handled: (HeartbeatStep, ClientRequest))
        requires
            old(self).wf(),
        ensures
            final(self).wf(),
            exists|now: Moment|
                handled.0 == old(self)@.heard(player_id, now).heartbeat(player_id, watched, now)
                    && routed(
                    #[trigger] old(self)@.active(player_id, now),
                    final(self)@,
                    handled.1,
                    player_id,
                    message,
                ),
    {
        let now = self.connection_manager.now();
        self.handle_client_message_at(player_id, message, watched, now)
    }

    /// Takes a transport report of `player_id` in, which came over the physical
    /// connection `lifecycle`.
    pub fn handle_transport_status(
        &mut self,
        player_id: PlayerId,
        lifecycle: LifecycleId,
        transport: Transport,
        connected: bool,
    ) -> (step: TransportReportStep)
        requires
            old(self).wf(),
        ensures
            final(self).wf(),
            if old(self)@.holds_lifecycle(player_id, lifecycle) {
                &&& final(self)@ == old(self)@.report_recorded(player_id, transport, connected)
                &&& step == old(self)@.report_step(player_id, transport, connected)
            } else {
                step is Stale && final(self)@ == old(self)@
            },
    {
        if !self.connection_manager.lifecycle_matches(player_id, lifecycle) {
            return TransportReportStep::Stale;
        }
        self.record_transport_report(player_id, transport, connected)
    }

    /// Records a transport report of `player_id`.
    fn record_transport_report(
        &mut self,
        player_id: PlayerId,
        transport: Transport,
        connected: bool,
    ) -> (step: TransportReportStep)
        requires
            old(self).wf(),
        ensures
            final(self).wf(),
            final(self)@ == old(self)@.report_recorded(player_id, transport, connected),
            step == old(self)@.report_step(player_id, transport, connected),
    {
        let update = self.connection_manager.set_transport_status(player_id, transport, connected);
        if update != TransportStatusUpdate::Changed {
            return TransportReportStep::Ignored(update);
        }
        TransportReportStep::Recorded {
            metric: transport_metric(transport, connected),
            room: self.connection_manager.get_client_room(player_id),
        }
    }

    /// The members of `members` that are told of a transport report of
    /// `sender`.
    fn filter_report_recipients(&self, sender: PlayerId, members: &Vec<PlayerId>) -> (recipients:
        Vec<PlayerId>)
        ensures
            recipients@ == report_recipients(self@, sender, members@),
    {
        let mut recipients: Vec<PlayerId> = Vec::new();
        let mut index: usize = 0;
        let ghost hears = |member: PlayerId| hears_report(self@, sender, member);
        proof {
            reveal(Seq::filter);
            assert(members@.take(0).filter(hears) =~= Seq::<PlayerId>::empty());
        }
        while index < members.len()
            invariant
                index <= members.len(),
                hears == (|member: PlayerId| hears_report(self@, sender, member)),
                recipients@ == members@.take(index as int).filter(hears),
            decreases members.len() - index,
        {
            let member = members[index];
            proof {
                reveal(Seq::filter);
                assert(members@.take(index + 1).drop_last() =~= members@.take(index as int));
                assert(members@.take(index + 1).last() == member);
            }
            if member != sender && self.connection_manager.supports_v3(member) {
                recipients.push(member);
            }
            index += 1;
        }
        assert(members@.take(index as int) =~= members@);
        recipients
    }

    /// Whom a recorded transport report fans out to.
    fn transport_recipients(&self, player_id: PlayerId, members: &RoomMembers) -> (recipients: Vec<
        PlayerId,
    >)
        ensures
            recipients@ == fanout(self@, player_id, *members),
    {
        match members {
            RoomMembers::Routed(routed) => if contains_id(routed, player_id) {
                self.filter_report_recipients(player_id, routed)
            } else {
                Vec::new()
            },
            RoomMembers::Stored(stored) => self.filter_report_recipients(player_id, stored),
            RoomMembers::Unreadable => Vec::new(),
        }
    }

    /// The next step of fanning a recorded report out, with the membership of
    /// its room held still. The signal budget is looked at before the members
    /// are read, and charged only once there is somebody to tell. A report that
    /// finds it spent is dropped: it is informational, and its sender is not
    /// told.
    pub fn handle_transport_status_under_lifecycle(
        &self,
        report: &TransportReport,
        progress: &FanoutProgress,
    ) -> (step: FanoutStep)
        ensures
            report.fans_out(self@, *progress, step),
    {
        match progress.available {
            None => {
                return FanoutStep::CheckSignalAvailable;
            },
            Some(available) => {
                if !available {
                    return FanoutStep::Stop;
                }
            },
        }
        let recipients = match &progress.members {
            None => {
                return FanoutStep::ReadMembers { room: report.room };
            },
            Some(members) => self.transport_recipients(report.player, members),
        };
        if recipients.len() == 0 {
            return FanoutStep::Stop;
        }
        match progress.charged {
            None => FanoutStep::ChargeSignal,
            Some(charged) => {
                if charged {
                    FanoutStep::Send {
                        recipients,
                        frame: ServerMessage::PeerTransportStatus {
                            peer_id: report.player,
                            transport: report.transport,
                            connected: report.connected,
                        },
                    }
                } else {
                    FanoutStep::Stop
                }
            },
        }
    }
}

/// A transport report reaches only other v3 members, and nobody if its sender
/// is not routed in the room.
pub proof fn law_reports_reach_only_other_v3_members(
    server: ServerView,
    sender: PlayerId,
    members: RoomMembers,
    recipient: PlayerId,
)
    requires
        fanout(server, sender, members).contains(recipient),
    ensures
        recipient != sender,
        server.supports_v3(recipient),
        members matches RoomMembers::Routed(routed) ==> routed@.contains(sender)
            && routed@.contains(recipient),
        members matches RoomMembers::Stored(stored) ==> stored@.contains(recipient),
{
    let hears = |member: PlayerId| hears_report(server, sender, member);
    broadcast use vstd::seq_lib::group_filter_ensures;

    match members {
        RoomMembers::Routed(routed) => {
            routed@.lemma_filter_contains_rev(hears, recipient);
        },
        RoomMembers::Stored(stored) => {
            stored@.lemma_filter_contains_rev(hears, recipient);
        },
        RoomMembers::Unreadable => {},
    }
}

/// The signal budget is charged only for a report that somebody is told of.
pub proof fn law_only_heard_reports_are_charged(
    server: ServerView,
    report: TransportReport,
    progress: FanoutProgress,
    step: FanoutStep,
)
    requires
        report.fans_out(server, progress, step),
        step is ChargeSignal || step is Send,
    ensures
        progress.available == Some(true),
        progress.members is Some && fanout(server, report.player, progress.members->0).len() > 0,
        step is Send ==> progress.charged == Some(true),
{
}

/// Repeating a report in the same membership changes nothing, and neither does
/// a report of a client below v3.
pub proof fn law_repeated_reports_are_ignored(
    server: ServerView,
    player: PlayerId,
    transport: Transport,
    connected: bool,
)
    ensures
        ({
            let after = server.report_recorded(player, transport, connected);
            &&& after.report_step(player, transport, connected) is Ignored
            &&& after.report_recorded(player, transport, connected) == after
            &&& !server.supports_v3(player) ==> server.report_step(player, transport, connected)
                is Ignored && after == server
        }),
{
    let after = server.report_recorded(player, transport, connected);
    assert(after.manager.clients =~= after.report_recorded(
        player,
        transport,
        connected,
    ).manager.clients);
    if !server.supports_v3(player) {
        assert(after.manager.clients =~= server.manager.clients);
    }
}

/// A correlated operation and its plain counterpart reach the same handler,
/// and the correlated one carries its identity there.
pub proof fn law_correlated_operations_keep_their_identity(
    operation: RoomOperationRequest,
    operation_id: RoomOperationId,
)
    ensures
        message_route(ClientMessage::RoomOperation { operation_id, operation })
            == operation_route(operation, Some(operation_id)),
        operation matches RoomOperationRequest::JoinRoom(request) ==> message_route(
            ClientMessage::JoinRoom(request),
        ) == operation_route(operation, None),
        operation is LeaveRoom ==> message_route(ClientMessage::LeaveRoom) == operation_route(
            operation,
            None,
        ),
        operation matches RoomOperationRequest::Reconnect(request) ==> message_route(
            ClientMessage::Reconnect(request),
        ) == operation_route(operation, None),
        operation matches RoomOperationRequest::JoinAsSpectator(request) ==> message_route(
            ClientMessage::JoinAsSpectator(request),
        ) == operation_route(operation, None),
        operation is LeaveSpectator ==> message_route(ClientMessage::LeaveSpectator)
            == operation_route(operation, None),
{
}

/// A join, plain or correlated, hands its handler the very request the client
/// sent, in every field, and the identity it was correlated with, if any.
pub proof fn law_joins_are_handed_on_as_sent(
    active: ServerView,
    after: ServerView,
    request: ClientRequest,
    player: PlayerId,
    join: JoinRequest,
    operation_id: RoomOperationId,
)
    ensures
        routed(active, after, request, player, ClientMessage::JoinRoom(join)) ==> request == (
        ClientRequest::JoinRoom { request: join, operation_id: None }),
        routed(
            active,
            after,
            request,
            player,
            ClientMessage::RoomOperation {
                operation_id,
                operation: RoomOperationRequest::JoinRoom(join),
            },
        ) && active.manager.clients.contains_key(player)
            && active.manager.clients[player].room_operation_ids ==> request == (
        ClientRequest::JoinRoom { request: join, operation_id: Some(operation_id) }),
{
}

/// A reconnection, plain or correlated, hands its handler the very request the
/// client sent.
pub proof fn law_reconnections_are_handed_on_as_sent(
    active: ServerView,
    after: ServerView,
    request: ClientRequest,
    player: PlayerId,
    reconnect: ReconnectRequest,
    operation_id: RoomOperationId,
)
    ensures
        routed(active, after, request, player, ClientMessage::Reconnect(reconnect)) ==> request == (
        ClientRequest::Reconnect { request: reconnect, operation_id: None }),
        routed(
            active,
            after,
            request,
            player,
            ClientMessage::RoomOperation {
                operation_id,
                operation: RoomOperationRequest::Reconnect(reconnect),
            },
        ) && active.manager.clients.contains_key(player)
            && active.manager.clients[player].room_operation_ids ==> request == (
        ClientRequest::Reconnect { request: reconnect, operation_id: Some(operation_id) }),
{
}

/// A request to watch a room, plain or correlated, is handed on as the client
/// sent it.
pub proof fn law_spectator_joins_are_handed_on_as_sent(
    active: ServerView,
    after: ServerView,
    request: ClientRequest,
    player: PlayerId,
    spectate: SpectateRequest,
    operation_id: RoomOperationId,
)
    ensures
        routed(active, after, request, player, ClientMessage::JoinAsSpectator(spectate)) ==> request
            == (ClientRequest::JoinAsSpectator { request: spectate, operation_id: None }),
        routed(
            active,
            after,
            request,
            player,
            ClientMessage::RoomOperation {
                operation_id,
                operation: RoomOperationRequest::JoinAsSpectator(spectate),
            },
        ) && active.manager.clients.contains_key(player)
            && active.manager.clients[player].room_operation_ids ==> request == (
        ClientRequest::JoinAsSpectator { request: spectate, operation_id: Some(operation_id) }),
{
}

/// Departures, plain or correlated, reach the handler of their own role.
pub proof fn law_departures_reach_their_own_handler(
    active: ServerView,
    after: ServerView,
    request: ClientRequest,
    player: PlayerId,
    operation_id: RoomOperationId,
)
    ensures
        routed(active, after, request, player, ClientMessage::LeaveRoom) ==> request == (
        ClientRequest::LeaveRoom { operation_id: None }),
        routed(active, after, request, player, ClientMessage::LeaveSpectator) ==> request == (
        ClientRequest::LeaveSpectator { operation_id: None }),
        active.manager.clients.contains_key(player)
            && active.manager.clients[player].room_operation_ids ==> {
            &&& routed(
                active,
                after,
                request,
                player,
                ClientMessage::RoomOperation {
                    operation_id,
                    operation: RoomOperationRequest::LeaveRoom,
                },
            ) ==> request == (ClientRequest::LeaveRoom { operation_id: Some(operation_id) })
            &&& routed(
                active,
                after,
                request,
                player,
                ClientMessage::RoomOperation {
                    operation_id,
                    operation: RoomOperationRequest::LeaveSpectator,
                },
            ) ==> request == (ClientRequest::LeaveSpectator { operation_id: Some(operation_id) })
        },
{
}

/// Every other message reaches its own handler with all it carries, and a
/// handshake on an established connection reaches nobody.
pub proof fn law_messages_reach_their_handler_unchanged(
    active: ServerView,
    after: ServerView,
    request: ClientRequest,
    player: PlayerId,
    message: ClientMessage,
)
    requires
        routed(active, after, request, player, message),
    ensures
        message matches ClientMessage::GameData { data, class, key } ==> request == (
        ClientRequest::GameData { data, class, key }),
        message matches ClientMessage::Signal { to, generation, signal } ==> request == (
        ClientRequest::Signal { to, generation, signal }),
        message matches ClientMessage::AuthorityRequest { become_authority } ==> request == (
        ClientRequest::AuthorityRequest { become_authority }),
        message matches ClientMessage::ProvideConnectionInfo { connection_info } ==> request == (
        ClientRequest::ProvideConnectionInfo { connection_info }),
        message matches ClientMessage::TransportStatus { transport, connected } ==> request == (
        ClientRequest::TransportStatus { transport, connected }),
        message is PlayerReady <==> request is PlayerReady,
        message is StartGame <==> request is StartGame,
        message is Ping <==> request is Ping,
        message is Authenticate <==> request is Ignore,
        message is Authenticate || message is GameData || message is Ping ==> after == active,
{
}

/// A message is refused exactly if it is a correlated operation of a client that
/// did not negotiate them; every other message leaves the server as it is.
pub proof fn law_only_unnegotiated_operations_are_refused(
    active: ServerView,
    after: ServerView,
    request: ClientRequest,
    player: PlayerId,
    message: ClientMessage,
)
    requires
        routed(active, after, request, player, message),
    ensures
        request is Refused <==> message is RoomOperation && !(
        active.manager.clients.contains_key(player)
            && active.manager.clients[player].room_operation_ids),
        !(request is Refused) ==> after == active,
{
}

/// No two different messages that are handed on are handed on alike: nothing a
/// client says is lost on the way to its handler.
pub proof fn law_routing_loses_nothing(one: ClientMessage, other: ClientMessage)
    requires
        message_route(one) == message_route(other),
    ensures
        one is Authenticate <==> other is Authenticate,
        one is Authenticate || one == other,
{
}

/// A lost path counts as a fallback on whatever transport; a path that came up
/// counts unless it is the relay, which is always there.
pub proof fn law_fallbacks_and_peer_paths_are_counted(transport: Transport, connected: bool)
    ensures
        spec_transport_metric(transport, connected) == Some(TransportMetric::RelayFallback)
            <==> !connected,
        spec_transport_metric(transport, connected) == Some(TransportMetric::PeerToPeerEstablished)
            <==> connected && transport != Transport::Relay,
        spec_transport_metric(transport, connected) is None <==> connected && transport
            == Transport::Relay,
{
}

/// A report is recorded exactly if its sender is connected, speaks the additive
/// protocol, negotiated the transport, and did not report the same in this
/// membership already. It is then the sender's status of this membership, and
/// fans out in the room the sender is seated in.
pub proof fn law_fresh_reports_are_recorded(
    server: ServerView,
    player: PlayerId,
    transport: Transport,
    connected: bool,
)
    ensures
        ({
            let client = server.manager.clients[player];
            let step = server.report_step(player, transport, connected);
            let after = server.report_recorded(player, transport, connected);
            let fresh = server.manager.clients.contains_key(player) && client.protocol.version >= 3
                && client.protocol.transports.contains(transport) && client.transport_status
                != Some((client.membership_generation, transport, connected));
            &&& step is Recorded <==> fresh
            &&& !(step is Stale)
            &&& step matches TransportReportStep::Recorded { metric, room } ==> room
                == client.room_id && (metric is None <==> connected && transport
                == Transport::Relay) && (metric == Some(TransportMetric::RelayFallback)
                <==> !connected)
            &&& !fresh ==> after == server
            &&& fresh ==> after.manager.clients[player].transport_status == Some(
                (client.membership_generation, transport, connected),
            )
            &&& step == TransportReportStep::Ignored(TransportStatusUpdate::MissingConnection)
                <==> !server.manager.clients.contains_key(player)
            &&& step == TransportReportStep::Ignored(
                TransportStatusUpdate::UnsupportedProtocolVersion,
            ) <==> server.manager.clients.contains_key(player) && client.protocol.version < 3
            &&& step == TransportReportStep::Ignored(TransportStatusUpdate::UnsupportedTransport)
                <==> server.manager.clients.contains_key(player) && client.protocol.version >= 3
                && !client.protocol.transports.contains(transport)
        }),
{
    let after = server.report_recorded(player, transport, connected);
    if server.manager.clients.contains_key(player) {
        assert(server.manager.clients.insert(player, server.manager.clients[player])
            =~= server.manager.clients);
    }
}

/// The members a list names.
pub open spec fn named_members(members: RoomMembers) -> Seq<PlayerId> {
    match members {
        RoomMembers::Routed(routed) => routed@,
        RoomMembers::Stored(stored) => stored@,
        RoomMembers::Unreadable => Seq::empty(),
    }
}

/// A report reaches every other member of the room that speaks the additive
/// protocol, each as often as it is listed, and nobody else. Where routing is
/// kept, its sender must be routed itself.
pub proof fn law_reports_reach_every_other_v3_member(
    server: ServerView,
    sender: PlayerId,
    members: RoomMembers,
    member: PlayerId,
)
    ensures
        ({
            let told = fanout(server, sender, members);
            let listed = named_members(members);
            let hears = member != sender && server.manager.clients.contains_key(member)
                && server.manager.clients[member].protocol.version >= 3 && (members is Routed
                ==> listed.contains(sender));
            &&& told.contains(member) <==> listed.contains(member) && hears
            &&& hears ==> told.to_multiset().count(member) == listed.to_multiset().count(member)
            &&& !hears ==> told.to_multiset().count(member) == 0
            &&& told.len() <= listed.len()
        }),
{
    let listed = named_members(members);
    lemma_recipients_are_counted(server, sender, listed, member);
    broadcast use vstd::seq_lib::group_to_multiset_ensures;

    let told = fanout(server, sender, members);
    assert(Seq::<PlayerId>::empty().to_multiset().count(member) == 0) by {
        assert(!Seq::<PlayerId>::empty().contains(member));
    }
    assert(told.contains(member) <==> told.to_multiset().count(member) > 0);
    assert(listed.contains(member) <==> listed.to_multiset().count(member) > 0);
}

/// The recipients of a list keep every occurrence of those who hear the report.
proof fn lemma_recipients_are_counted(
    server: ServerView,
    sender: PlayerId,
    members: Seq<PlayerId>,
    member: PlayerId,
)
    ensures
        report_recipients(server, sender, members).to_multiset().count(member) == (if member
            != sender && server.manager.clients.contains_key(member)
            && server.manager.clients[member].protocol.version >= 3 {
            members.to_multiset().count(member)
        } else {
            0
        }),
        report_recipients(server, sender, members).len() <= members.len(),
    decreases members.len(),
{
    broadcast use vstd::seq_lib::group_to_multiset_ensures;

    let hears = |one: PlayerId| hears_report(server, sender, one);
    reveal(Seq::filter);
    if members.len() == 0 {
        assert(!members.contains(member));
        assert(members.filter(hears) =~= Seq::<PlayerId>::empty());
        assert(!Seq::<PlayerId>::empty().contains(member));
    } else {
        let shorter = members.drop_last();
        lemma_recipients_are_counted(server, sender, shorter, member);
        assert(members =~= shorter.push(members.last()));
    }
}

/// The recipients of two lists, one after the other, are the recipients of the
/// first and then those of the second: the order of the members is kept.
pub proof fn law_reports_keep_the_order_of_the_members(
    server: ServerView,
    sender: PlayerId,
    members: Seq<PlayerId>,
    more: Seq<PlayerId>,
)
    ensures
        report_recipients(server, sender, members + more) == report_recipients(
            server,
            sender,
            members,
        ) + report_recipients(server, sender, more),
    decreases more.len(),
{
    let hears = |one: PlayerId| hears_report(server, sender, one);
    reveal(Seq::filter);
    if more.len() == 0 {
        assert(members + more =~= members);
        assert(more.filter(hears) =~= Seq::<PlayerId>::empty());
        assert(members.filter(hears) + Seq::<PlayerId>::empty() =~= members.filter(hears));
    } else {
        law_reports_keep_the_order_of_the_members(server, sender, members, more.drop_last());
        assert((members + more).drop_last() =~= members + more.drop_last());
        assert((members + more).last() == more.last());
        assert(report_recipients(server, sender, members + more) =~= report_recipients(
            server,
            sender,
            members,
        ) + report_recipients(server, sender, more));
    }
}

/// A fan-out looks at the budget first, reads the room it was recorded in, is
/// charged once there is somebody to tell, and then tells them what was
/// reported, by whom. It stops short exactly if the budget is spent or there is
/// nobody to tell.
pub proof fn law_fanouts_tell_what_was_reported(
    server: ServerView,
    report: TransportReport,
    progress: FanoutProgress,
    step: FanoutStep,
)
    requires
        report.fans_out(server, progress, step),
    ensures
        step is CheckSignalAvailable <==> progress.available is None,
        step is ReadMembers <==> progress.available == Some(true) && progress.members is None,
        step matches FanoutStep::ReadMembers { room } ==> room == report.room,
        ({
            let known = progress.available == Some(true) && progress.members is Some;
            let told = fanout(server, report.player, progress.members->0);
            &&& step is ChargeSignal <==> known && told.len() > 0 && progress.charged is None
            &&& step is Send <==> known && told.len() > 0 && progress.charged == Some(true)
            &&& step is Stop <==> progress.available == Some(false) || (known && (told.len() == 0
                || progress.charged == Some(false)))
            &&& step matches FanoutStep::Send { recipients, frame } ==> {
                &&& recipients@ == told
                &&& frame matches ServerMessage::PeerTransportStatus {
                    peer_id,
                    transport,
                    connected,
                } && peer_id == report.player && transport == report.transport && connected
                    == report.connected
            }
        }),
{
}

/// A refused operation is charged to the client that sent it: within its budget
/// it hears why, and beyond it the connection is asked to close and nothing but
/// the one farewell goes out. Nobody else's entry changes.
pub proof fn law_refused_operations_are_charged(
    active: ServerView,
    after: ServerView,
    request: ClientRequest,
    player: PlayerId,
    message: ClientMessage,
    other: PlayerId,
)
    requires
        routed(active, after, request, player, message),
        message is RoomOperation,
        active.manager.clients.contains_key(player),
        !active.manager.clients[player].room_operation_ids,
    ensures
        request is Refused,
        active.manager.clients[player].error_replies < active.manager.limits.max_error_replies ==> {
            &&& after.manager.clients[player].error_replies
                == active.manager.clients[player].error_replies + 1
            &&& after.manager.clients[player].close == active.manager.clients[player].close
            &&& request->Refused_0 matches Reply::Send(frame) && frame matches ServerMessage::Error {
                error_code,
                ..
            } && error_code == Some(ErrorCode::UnsupportedProtocolVersion)
        },
        active.manager.clients[player].error_replies >= active.manager.limits.max_error_replies
            ==> {
            &&& after.manager.clients[player].error_replies
                == active.manager.clients[player].error_replies
            &&& after.manager.clients[player].close is Some
            &&& request->Refused_0 matches Reply::Withheld { farewell } && (farewell is Some
                <==> active.manager.clients[player].close is None)
        },
        after.manager.clients.contains_key(other) <==> active.manager.clients.contains_key(other),
        other != player && active.manager.clients.contains_key(other)
            ==> after.manager.clients[other] == active.manager.clients[other],
        after.routing == active.routing,
        after.relay == active.relay,
{
}

} // verus!
