//! Deliveries to single players, the frames that open a room transition, and
//! what follows once a batch of deliveries has been started.

use vstd::prelude::*;

use crate::connection::{ClientDeliveryHandle, DeliverySender};
use crate::delivery::{
    settle_receipt, DeliveryOutcome, DeliveryResolution, ReservationOutcome, SendReceipt,
};
use crate::identifiers::insert_ascending;
use crate::protocol::{PlayerId, RoomId};
use crate::routing::{InMemoryMessageCoordinator, RoutingView};

verus! {

/// The next step of reserving one room member for several frames.
#[derive(Clone, Copy, Debug, PartialEq, Eq, Structural)]
pub enum BatchStep {
    /// Reserve the next frame.
    ReserveNext,
    /// The member is settled; `canceled` permits are given back and recorded
    /// as canceled.
    Done { outcome: ReservationOutcome, canceled: usize },
}

/// The number of leading reservations that hold a permit.
pub open spec fn leading_permits(outcomes: Seq<ReservationOutcome>) -> nat
    decreases outcomes.len(),
{
    if outcomes.len() == 0 {
        0
    } else {
        let earlier = leading_permits(outcomes.drop_last());
        if earlier == outcomes.len() - 1 && outcomes.last() is Reserved {
            outcomes.len()
        } else {
            earlier
        }
    }
}

/// The leading reservations are exactly those before the first that failed.
pub proof fn lemma_leading_permits(outcomes: Seq<ReservationOutcome>)
    ensures
        leading_permits(outcomes) <= outcomes.len(),
        forall|i: int| 0 <= i < leading_permits(outcomes) ==> (#[trigger] outcomes[i]) is Reserved,
        leading_permits(outcomes) < outcomes.len() ==> !(outcomes[leading_permits(
            outcomes,
        ) as int] is Reserved),
    decreases outcomes.len(),
{
    if outcomes.len() > 0 {
        let earlier = outcomes.drop_last();
        lemma_leading_permits(earlier);
        assert forall|i: int| 0 <= i < leading_permits(outcomes) implies (#[trigger] outcomes[i]) is Reserved by {
            if i < earlier.len() {
                assert(earlier[i] == outcomes[i]);
            }
        }
        if leading_permits(outcomes) < outcomes.len() && leading_permits(outcomes) < earlier.len() {
            assert(earlier[leading_permits(outcomes) as int] == outcomes[leading_permits(
                outcomes,
            ) as int]);
        }
    }
}

/// How a batch of `frame_count` frames stands after `outcomes`.
pub open spec fn batch_step(frame_count: usize, outcomes: Seq<ReservationOutcome>) -> BatchStep {
    let permits = leading_permits(outcomes);
    if permits >= frame_count {
        BatchStep::Done { outcome: ReservationOutcome::Reserved, canceled: 0 }
    } else if permits < outcomes.len() {
        BatchStep::Done { outcome: outcomes[permits as int], canceled: permits as usize }
    } else {
        BatchStep::ReserveNext
    }
}

/// The next step of reserving one room member for `frame_count` frames, one
/// after the other. The first reservation that fails settles the member, and
/// the permits held before it are given back.
pub fn reserve_room_batch(frame_count: usize, outcomes: &Vec<ReservationOutcome>) -> (step:
    BatchStep)
    ensures
        step == batch_step(frame_count, outcomes@),
{
    let mut permits: usize = 0;
    proof {
        lemma_leading_permits(outcomes@);
    }
    while permits < outcomes.len() && outcomes[permits] == ReservationOutcome::Reserved
        invariant
            permits <= outcomes.len(),
            permits <= leading_permits(outcomes@),
            leading_permits(outcomes@) <= outcomes@.len(),
            leading_permits(outcomes@) < outcomes@.len() ==> !(outcomes@[leading_permits(
                outcomes@,
            ) as int] is Reserved),
        decreases outcomes.len() - permits,
    {
        permits += 1;
    }
    assert(permits == leading_permits(outcomes@));
    if permits >= frame_count {
        BatchStep::Done { outcome: ReservationOutcome::Reserved, canceled: 0 }
    } else if permits < outcomes.len() {
        BatchStep::Done { outcome: outcomes[permits], canceled: permits }
    } else {
        BatchStep::ReserveNext
    }
}

/// A frame for one room member that is sent only while the room's membership
/// is the expected one.
#[derive(Debug)]
pub struct TargetedSend {
    pub player_id: PlayerId,
    pub room_id: RoomId,
    pub expected_members: Vec<PlayerId>,
}

/// What has been observed of a targeted send.
#[derive(Clone, Copy, Debug, PartialEq, Eq)]
pub struct TargetedProgress {
    /// What became of reserving the queue, and the queue that was tried.
    pub reservation: Option<(ReservationOutcome, DeliverySender)>,
    pub receipt: Option<SendReceipt>,
}

/// The next step of a targeted send.
#[derive(Clone, Copy, Debug, PartialEq, Eq, Structural)]
pub enum TargetedStep {
    /// Reserve the recipient's queue.
    Reserve { handle: ClientDeliveryHandle },
    /// Send the frame on the permit, with the routing held still.
    Send,
    /// Settled. `resolution` is how a held permit is accounted for; without
    /// one the reservation accounted for itself.
    Done { delivered: bool, resolution: Option<DeliveryResolution> },
}

impl TargetedSend {
    /// The next step of a targeted send.
    pub open spec fn spec_step(self, progress: TargetedProgress, view: RoutingView) -> TargetedStep {
        match progress.reservation {
            None => if view.routes(self.player_id, self.room_id) && view.clients.contains_key(
                self.player_id,
            ) {
                TargetedStep::Reserve { handle: view.clients[self.player_id] }
            } else {
                TargetedStep::Done { delivered: false, resolution: None }
            },
            Some((outcome, sender)) => if !(outcome is Reserved) {
                TargetedStep::Done { delivered: false, resolution: None }
            } else {
                match progress.receipt {
                    None => if crate::identifiers::lists_exactly(
                        self.expected_members@,
                        view.recipients(self.room_id, None),
                    ) && view.clients.contains_key(self.player_id)
                        && view.clients[self.player_id].sender.channel == sender.channel {
                        TargetedStep::Send
                    } else {
                        TargetedStep::Done {
                            delivered: false,
                            resolution: Some(DeliveryResolution::Canceled),
                        }
                    },
                    Some(receipt) => TargetedStep::Done {
                        delivered: receipt is Enqueued,
                        resolution: Some(crate::delivery::receipt_resolution(receipt)),
                    },
                }
            },
        }
    }
}

/// What a delivery that was started at once came to.
#[derive(Clone, Copy, Debug, PartialEq, Eq, Structural)]
pub enum DeliveryStart {
    Complete(DeliveryOutcome),
    /// The recipient's queue is full; the delivery waits for capacity.
    Backpressured,
}

/// One recipient of a batch of deliveries and how its delivery started.
#[derive(Clone, Copy, Debug, PartialEq, Eq, Structural)]
pub struct StartedDelivery {
    pub player_id: PlayerId,
    pub sender: DeliverySender,
    pub start: DeliveryStart,
}

/// What a batch of started deliveries leaves to be done. Healthy recipients
/// leave nothing.
#[derive(Debug)]
pub struct StartedDeliveries {
    /// Positions of the recipients that wait for capacity.
    pub pending: Vec<usize>,
    /// Recipients found to be slow consumers at once.
    pub slow_consumers: Vec<(PlayerId, DeliverySender)>,
}

/// One recipient that waited for capacity, and what its delivery came to.
#[derive(Clone, Copy, Debug, PartialEq, Eq, Structural)]
pub struct SettledWait {
    pub player_id: PlayerId,
    pub sender: DeliverySender,
    pub outcome: DeliveryOutcome,
}

/// The positions of the deliveries that wait for capacity, in order.
pub open spec fn pending_positions(started: Seq<StartedDelivery>) -> Seq<usize>
    decreases started.len(),
{
    if started.len() == 0 {
        Seq::empty()
    } else if started.last().start is Backpressured {
        pending_positions(started.drop_last()).push((started.len() - 1) as usize)
    } else {
        pending_positions(started.drop_last())
    }
}

/// The recipients found to be slow consumers, in order.
pub open spec fn slow_recipients(started: Seq<StartedDelivery>) -> Seq<(PlayerId, DeliverySender)>
    decreases started.len(),
{
    if started.len() == 0 {
        Seq::empty()
    } else if started.last().start == DeliveryStart::Complete(DeliveryOutcome::SlowConsumer) {
        slow_recipients(started.drop_last()).push((started.last().player_id, started.last().sender))
    } else {
        slow_recipients(started.drop_last())
    }
}

/// Sorts a batch of started deliveries into those that wait and those whose
/// recipient is lost.
pub fn start_deliveries(started: &Vec<StartedDelivery>) -> (left: StartedDeliveries)
    ensures
        left.pending@ == pending_positions(started@),
        left.slow_consumers@ == slow_recipients(started@),
{
    let mut pending: Vec<usize> = Vec::new();
    let mut slow_consumers: Vec<(PlayerId, DeliverySender)> = Vec::new();
    let mut index: usize = 0;
    while index < started.len()
        invariant
            index <= started.len(),
            pending@ == pending_positions(started@.take(index as int)),
            slow_consumers@ == slow_recipients(started@.take(index as int)),
        decreases started.len() - index,
    {
        assert(started@.take(index + 1).drop_last() =~= started@.take(index as int));
        let delivery = started[index];
        match delivery.start {
            DeliveryStart::Complete(outcome) => {
                if outcome == DeliveryOutcome::SlowConsumer {
                    slow_consumers.push((delivery.player_id, delivery.sender));
                }
            },
            DeliveryStart::Backpressured => {
                pending.push(index);
            },
        }
        index += 1;
    }
    assert(started@.take(index as int) =~= started@);
    StartedDeliveries { pending, slow_consumers }
}

/// The recipients a settled wait found to be slow consumers, in order.
pub open spec fn slow_waits(waits: Seq<SettledWait>) -> Seq<(PlayerId, DeliverySender)>
    decreases waits.len(),
{
    if waits.len() == 0 {
        Seq::empty()
    } else if waits.last().outcome is SlowConsumer {
        slow_waits(waits.drop_last()).push((waits.last().player_id, waits.last().sender))
    } else {
        slow_waits(waits.drop_last())
    }
}

/// The tables after a run of recipients is pruned.
pub open spec fn pruned_all(view: RoutingView, slow: Seq<(PlayerId, DeliverySender)>) -> RoutingView
    decreases slow.len(),
{
    if slow.len() == 0 {
        view
    } else {
        pruned_all(view, slow.drop_last()).pruned(slow.last().0, slow.last().1)
    }
}

/// The next step of a farewell frame, which never waits for capacity.
#[derive(Clone, Copy, Debug, PartialEq, Eq, Structural)]
pub enum FarewellStep {
    /// Observe whether the farewell is still wanted.
    ReadGate,
    /// Hand the queue the frame without waiting.
    TrySend { handle: ClientDeliveryHandle },
    Done { enqueued: bool },
}

/// Where a bus message goes.
#[derive(Clone, Copy, Debug, PartialEq, Eq, Structural)]
pub enum BusRoute {
    Player(PlayerId),
    Room(RoomId),
    Nowhere,
}

/// Where a bus message goes: a targeted player comes before a room.
pub fn handle_bus_message(target_player: Option<PlayerId>, room_id: Option<RoomId>) -> (route:
    BusRoute)
    ensures
        route == (match target_player {
            Some(player) => BusRoute::Player(player),
            None => match room_id {
                Some(room) => BusRoute::Room(room),
                None => BusRoute::Nowhere,
            },
        }),
{
    match target_player {
        Some(player) => BusRoute::Player(player),
        None => match room_id {
            Some(room) => BusRoute::Room(room),
            None => BusRoute::Nowhere,
        },
    }
}

impl InMemoryMessageCoordinator {
    /// The handle of a player routed in `room`.
    pub fn room_delivery_handle(&self, player: PlayerId, room: RoomId) -> (handle: Option<
        ClientDeliveryHandle,
    >)
        ensures
            handle == (if self@.routes(player, room) && self@.clients.contains_key(player) {
                Some(self@.clients[player])
            } else {
                None
            }),
    {
        if self.is_routed(player, room) {
            self.delivery_handle(player)
        } else {
            None
        }
    }

    /// The next step of a frame for one room member that is sent only while
    /// the room's membership is the expected one.
    pub fn send_to_player_in_room_if_members(
        &self,
        request: &TargetedSend,
        progress: &TargetedProgress,
    ) -> (step: TargetedStep)
        ensures
            step == request.spec_step(*progress, self@),
    {
        let (outcome, sender) = match progress.reservation {
            None => {
                return match self.room_delivery_handle(request.player_id, request.room_id) {
                    Some(handle) => TargetedStep::Reserve { handle },
                    None => TargetedStep::Done { delivered: false, resolution: None },
                };
            },
            Some(reservation) => reservation,
        };
        if outcome != ReservationOutcome::Reserved {
            return TargetedStep::Done { delivered: false, resolution: None };
        }
        match progress.receipt {
            None => {
                let recipient_matches = match self.delivery_handle(request.player_id) {
                    Some(current) => current.sender.same_channel(&sender),
                    None => false,
                };
                if self.routed_membership_is(request.room_id, None, &request.expected_members)
                    && recipient_matches {
                    TargetedStep::Send
                } else {
                    TargetedStep::Done {
                        delivered: false,
                        resolution: Some(DeliveryResolution::Canceled),
                    }
                }
            },
            Some(receipt) => {
                let (_, resolution) = settle_receipt(receipt);
                TargetedStep::Done {
                    delivered: receipt == SendReceipt::Enqueued,
                    resolution: Some(resolution),
                }
            },
        }
    }

    /// Settles a send to one player: a slow consumer is dropped from routing.
    /// Returns whether the frame was delivered.
    pub fn finish_send(
        &mut self,
        player: PlayerId,
        attempted_sender: &DeliverySender,
        outcome: Option<DeliveryOutcome>,
    ) -> (delivered: bool)
        ensures
            delivered == (outcome == Some(DeliveryOutcome::Delivered)),
            final(self)@ == (if outcome == Some(DeliveryOutcome::SlowConsumer) {
                old(self)@.pruned(player, *attempted_sender)
            } else {
                old(self)@
            }),
            old(self)@.wf() ==> final(self)@.wf(),
    {
        match outcome {
            Some(outcome) => {
                if outcome == DeliveryOutcome::SlowConsumer {
                    self.remove_client_if_same_sender(player, attempted_sender);
                }
                outcome == DeliveryOutcome::Delivered
            },
            None => false,
        }
    }

    /// Drops the slow consumers of a batch of deliveries from routing: those
    /// found at once, and those found by the waits that `waits` settled. Later
    /// deliveries then do not wait for connections that are closing already.
    pub fn finish_deliveries(&mut self, started: &StartedDeliveries, waits: &Vec<SettledWait>)
        ensures
            final(self)@ == pruned_all(
                old(self)@,
                started.slow_consumers@ + slow_waits(waits@),
            ),
            old(self)@.wf() ==> final(self)@.wf(),
    {
        let mut index: usize = 0;
        while index < started.slow_consumers.len()
            invariant
                index <= started.slow_consumers.len(),
                self@ == pruned_all(old(self)@, started.slow_consumers@.take(index as int)),
                old(self)@.wf() ==> self@.wf(),
            decreases started.slow_consumers.len() - index,
        {
            assert(started.slow_consumers@.take(index + 1).drop_last()
                =~= started.slow_consumers@.take(index as int));
            let (player, sender) = started.slow_consumers[index];
            self.remove_client_if_same_sender(player, &sender);
            index += 1;
        }
        let ghost slow = started.slow_consumers@;
        assert(slow.take(index as int) =~= slow);
        assert(slow + slow_waits(waits@.take(0)) =~= slow);
        let mut at: usize = 0;
        while at < waits.len()
            invariant
                at <= waits.len(),
                self@ == pruned_all(old(self)@, slow + slow_waits(waits@.take(at as int))),
                old(self)@.wf() ==> self@.wf(),
            decreases waits.len() - at,
        {
            let wait = waits[at];
            proof {
                assert(waits@.take(at + 1).drop_last() =~= waits@.take(at as int));
                let shorter = slow + slow_waits(waits@.take(at as int));
                let longer = slow + slow_waits(waits@.take(at + 1));
                if wait.outcome is SlowConsumer {
                    assert(longer.drop_last() =~= shorter);
                    assert(longer.last() == (wait.player_id, wait.sender));
                }
            }
            if wait.outcome == DeliveryOutcome::SlowConsumer {
                self.remove_client_if_same_sender(wait.player_id, &wait.sender);
            }
            at += 1;
        }
        assert(waits@.take(at as int) =~= waits@);
    }

    /// The next step of a farewell to `player`. `wanted` is whether the caller
    /// still wants it, where the caller asked to be consulted; `enqueued` is
    /// what the queue answered. A full or closing queue skips the frame.
    pub fn try_send_to_player_if(
        &self,
        player: PlayerId,
        conditional: bool,
        wanted: Option<bool>,
        enqueued: Option<bool>,
    ) -> (step: FarewellStep)
        ensures
            step == (if !self@.clients.contains_key(player) {
                FarewellStep::Done { enqueued: false }
            } else if conditional && wanted is None {
                FarewellStep::ReadGate
            } else if conditional && wanted == Some(false) {
                FarewellStep::Done { enqueued: false }
            } else {
                match enqueued {
                    None => FarewellStep::TrySend { handle: self@.clients[player] },
                    Some(enqueued) => FarewellStep::Done { enqueued },
                }
            }),
    {
        match self.delivery_handle(player) {
            None => FarewellStep::Done { enqueued: false },
            Some(handle) => {
                if conditional {
                    match wanted {
                        None => {
                            return FarewellStep::ReadGate;
                        },
                        Some(wanted) => {
                            if !wanted {
                                return FarewellStep::Done { enqueued: false };
                            }
                        },
                    }
                }
                match enqueued {
                    None => FarewellStep::TrySend { handle },
                    Some(enqueued) => FarewellStep::Done { enqueued },
                }
            },
        }
    }

    /// The players that see a transition of `player` into `room`: those routed
    /// there, and `player` itself, in ascending order.
    pub fn transition_roster(&self, player: PlayerId, room: RoomId) -> (players: Vec<PlayerId>)
        ensures
            crate::identifiers::ascending(players@),
            players@.to_set() == self@.recipients(room, None).insert(player),
    {
        let mut players = self.routed_player_ids(room);
        insert_ascending(&mut players, player);
        players
    }

    /// Settles the frame that opens a room transition, sent on its permit:
    /// only a delivered one routes `player` in `room`.
    pub fn register_local_client_with_initial_message(
        &mut self,
        player: PlayerId,
        room: RoomId,
        delivery: ClientDeliveryHandle,
        receipt: SendReceipt,
    ) -> (settled: (DeliveryOutcome, DeliveryResolution))
        requires
            old(self)@.wf(),
        ensures
            settled.0 == crate::delivery::receipt_outcome(receipt),
            settled.1 == crate::delivery::receipt_resolution(receipt),
            final(self)@ == (if settled.0 is Delivered {
                old(self)@.registered(player, Some(room), delivery)
            } else {
                old(self)@
            }),
            final(self)@.wf(),
    {
        let (outcome, resolution) = settle_receipt(receipt);
        if outcome == DeliveryOutcome::Delivered {
            self.register_local_client(player, Some(room), delivery);
        }
        (outcome, resolution)
    }
}

/// A targeted send puts its frame on the wire only while the room's membership
/// is exactly the expected one and the recipient still uses the reserved
/// queue.
pub proof fn law_targeted_sends_respect_membership(
    request: TargetedSend,
    progress: TargetedProgress,
    view: RoutingView,
)
    requires
        request.spec_step(progress, view) is Send,
    ensures
        crate::identifiers::lists_exactly(
            request.expected_members@,
            view.recipients(request.room_id, None),
        ),
        progress.reservation matches Some((_, sender)) && view.clients[request.player_id].sender.channel
            == sender.channel,
{
}

/// A member is reserved exactly once permits for all its frames are held; it is
/// asked for the next one exactly while none failed and some are missing; and
/// the first failure settles it as that failure, giving back exactly the permits
/// held before it.
pub proof fn law_batches_are_reserved_whole(
    frame_count: usize,
    outcomes: Seq<ReservationOutcome>,
    failed: int,
)
    ensures
        batch_step(frame_count, outcomes) == (BatchStep::Done {
            outcome: ReservationOutcome::Reserved,
            canceled: 0,
        }) <==> outcomes.len() >= frame_count && forall|i: int|
            0 <= i < frame_count ==> #[trigger] outcomes[i] is Reserved,
        batch_step(frame_count, outcomes) is ReserveNext <==> outcomes.len() < frame_count
            && forall|i: int| 0 <= i < outcomes.len() ==> #[trigger] outcomes[i] is Reserved,
        0 <= failed < outcomes.len() && failed < frame_count && !(outcomes[failed] is Reserved) && (
        forall|i: int| 0 <= i < failed ==> #[trigger] outcomes[i] is Reserved) ==> batch_step(
            frame_count,
            outcomes,
        ) == (BatchStep::Done { outcome: outcomes[failed], canceled: failed as usize }),
{
    lemma_leading_permits(outcomes);
    let permits = leading_permits(outcomes) as int;
    if outcomes.len() >= frame_count && forall|i: int|
        0 <= i < frame_count ==> #[trigger] outcomes[i] is Reserved {
        if permits < frame_count {
            assert(outcomes[permits] is Reserved);
        }
    }
    if forall|i: int| 0 <= i < outcomes.len() ==> #[trigger] outcomes[i] is Reserved {
        if permits < outcomes.len() {
            assert(outcomes[permits] is Reserved);
        }
    }
    if 0 <= failed < outcomes.len() && failed < frame_count && !(outcomes[failed] is Reserved) && (
    forall|i: int| 0 <= i < failed ==> #[trigger] outcomes[i] is Reserved) {
        if permits < failed {
            assert(outcomes[permits] is Reserved);
        }
        if permits > failed {
            assert(outcomes[failed] is Reserved);
        }
    }
    if permits >= frame_count {
        assert forall|i: int| 0 <= i < frame_count implies #[trigger] outcomes[i] is Reserved by {}
    } else if permits < outcomes.len() {
        assert(!(outcomes[permits] is Reserved));
    }
}

/// A targeted send reserves exactly the queue of a recipient routed in the room,
/// sends exactly while it is reserved, unsent, and the room's members are the
/// expected ones with the recipient still on that queue, and was delivered
/// exactly if the queue took the frame. A permit held in vain is canceled.
pub proof fn law_targeted_sends_reach_the_expected_room(
    request: TargetedSend,
    progress: TargetedProgress,
    view: RoutingView,
)
    ensures
        ({
            let step = request.spec_step(progress, view);
            let player = request.player_id;
            let room = request.room_id;
            let expected = request.expected_members@;
            let reserved = progress.reservation is Some && (progress.reservation->0).0
                == ReservationOutcome::Reserved;
            let unchanged = (forall|i: int, j: int|
                0 <= i < j < expected.len() ==> #[trigger] expected[i] != #[trigger] expected[j])
                && (forall|one: PlayerId| #[trigger]
                expected.contains(one) <==> view.rooms.contains_key(room)
                    && view.rooms[room].contains(one) && view.clients.contains_key(one))
                && view.clients.contains_key(player) && view.clients[player].sender.channel
                == (progress.reservation->0).1.channel;
            &&& step is Reserve <==> progress.reservation is None && view.rooms.contains_key(room)
                && view.rooms[room].contains(player) && view.clients.contains_key(player)
            &&& step matches TargetedStep::Reserve { handle } ==> handle == view.clients[player]
            &&& step is Send <==> reserved && progress.receipt is None && unchanged
            &&& (step matches TargetedStep::Done { delivered: true, .. }) <==> reserved
                && progress.receipt == Some(SendReceipt::Enqueued)
            &&& step matches TargetedStep::Done { resolution, .. } ==> {
                &&& resolution is Some <==> reserved
                &&& resolution == Some(DeliveryResolution::Enqueued) <==> reserved
                    && progress.receipt == Some(SendReceipt::Enqueued)
                &&& resolution == Some(DeliveryResolution::ChannelClosed) <==> reserved
                    && progress.receipt == Some(SendReceipt::Closed)
                &&& resolution == Some(DeliveryResolution::Canceled) <==> reserved && (
                progress.receipt == Some(SendReceipt::Stale) || (progress.receipt is None
                    && !unchanged))
            }
        }),
{
    let expected = request.expected_members@;
    let room = request.room_id;
    let recipients = view.recipients(room, None);
    assert((forall|i: int, j: int|
        0 <= i < j < expected.len() ==> #[trigger] expected[i] != #[trigger] expected[j])
        <==> expected.no_duplicates());
    let same = forall|one: PlayerId| #[trigger]
        expected.contains(one) <==> view.rooms.contains_key(room) && view.rooms[room].contains(one)
            && view.clients.contains_key(one);
    assert(same <==> expected.to_set() == recipients) by {
        if same {
            assert forall|one: PlayerId| expected.to_set().contains(one) == recipients.contains(
                one,
            ) by {
                assert(expected.to_set().contains(one) <==> expected.contains(one));
            }
            assert(expected.to_set() =~= recipients);
        }
        if expected.to_set() == recipients {
            assert forall|one: PlayerId| #[trigger]
                expected.contains(one) <==> view.rooms.contains_key(room)
                    && view.rooms[room].contains(one) && view.clients.contains_key(one) by {
                assert(expected.to_set().contains(one) <==> expected.contains(one));
                assert(recipients.contains(one) <==> view.routes(one, room)
                    && view.clients.contains_key(one));
            }
        }
    }
}

/// A started batch waits for exactly the recipients whose queues were full, in
/// their order, and reports exactly those that turned out slow at once.
pub proof fn law_started_batches_leave_nobody_out(started: Seq<StartedDelivery>)
    requires
        started.len() <= usize::MAX,
    ensures
        forall|i: int|
            0 <= i < started.len() ==> (#[trigger] pending_positions(started).contains(i as usize)
                <==> started[i].start is Backpressured),
        forall|at: usize| #[trigger]
            pending_positions(started).contains(at) ==> at < started.len(),
        forall|i: int, j: int|
            0 <= i < j < pending_positions(started).len() ==> #[trigger] pending_positions(
                started,
            )[i] < #[trigger] pending_positions(started)[j],
        slow_recipients(started) == started.filter(
            |one: StartedDelivery| one.start == DeliveryStart::Complete(
                DeliveryOutcome::SlowConsumer,
            ),
        ).map_values(|one: StartedDelivery| (one.player_id, one.sender)),
    decreases started.len(),
{
    reveal(Seq::filter);
    let slow = |one: StartedDelivery| one.start == DeliveryStart::Complete(
        DeliveryOutcome::SlowConsumer,
    );
    let pair = |one: StartedDelivery| (one.player_id, one.sender);
    if started.len() == 0 {
        assert(started.filter(slow).map_values(pair) =~= slow_recipients(started));
    } else {
        let shorter = started.drop_last();
        law_started_batches_leave_nobody_out(shorter);
        let before = pending_positions(shorter);
        let after = pending_positions(started);
        let last = (started.len() - 1) as usize;
        if started.last().start is Backpressured {
            assert(after == before.push(last));
            assert(after[before.len() as int] == last);
            assert forall|at: usize| #[trigger] after.contains(at) <==> before.contains(at) || at
                == last by {
                if before.contains(at) {
                    let k = choose|k: int| 0 <= k < before.len() && before[k] == at;
                    assert(after[k] == at);
                }
            }
            assert forall|i: int, j: int| 0 <= i < j < after.len() implies #[trigger] after[i]
                < #[trigger] after[j] by {
                assert(before.contains(before[i]));
            }
        } else {
            assert(after == before);
        }
        assert forall|i: int| 0 <= i < started.len() implies (#[trigger] after.contains(i as usize)
            <==> started[i].start is Backpressured) by {
            if i < shorter.len() {
                assert(shorter[i] == started[i]);
                assert(before.contains(i as usize) <==> shorter[i].start is Backpressured);
            } else {
                assert(!before.contains(last)) by {
                    if before.contains(last) {
                        assert(last < shorter.len());
                    }
                }
            }
        }
        assert(started.filter(slow).map_values(pair) =~= slow_recipients(started));
    }
}

/// The waits that found a slow consumer are exactly those that ended so, in
/// order.
pub proof fn law_slow_waits_are_those_that_ended_slow(waits: Seq<SettledWait>)
    ensures
        slow_waits(waits) == waits.filter(
            |wait: SettledWait| wait.outcome == DeliveryOutcome::SlowConsumer,
        ).map_values(|wait: SettledWait| (wait.player_id, wait.sender)),
    decreases waits.len(),
{
    reveal(Seq::filter);
    let slow = |wait: SettledWait| wait.outcome == DeliveryOutcome::SlowConsumer;
    let pair = |wait: SettledWait| (wait.player_id, wait.sender);
    if waits.len() > 0 {
        law_slow_waits_are_those_that_ended_slow(waits.drop_last());
    }
    assert(waits.filter(slow).map_values(pair) =~= slow_waits(waits));
}

/// After a batch a player has lost its route exactly if one of the slow
/// deliveries used the queue it still uses; nothing else changes.
pub proof fn law_batches_prune_only_slow_queues(
    view: RoutingView,
    slow: Seq<(PlayerId, DeliverySender)>,
    player: PlayerId,
)
    ensures
        ({
            let after = pruned_all(view, slow);
            &&& after.clients.contains_key(player) <==> view.clients.contains_key(player) && !(
            exists|i: int|
                0 <= i < slow.len() && (#[trigger] slow[i]).0 == player && slow[i].1.channel
                    == view.clients[player].sender.channel)
            &&& after.clients.contains_key(player) ==> after.clients[player] == view.clients[player]
            &&& after.rooms == view.rooms
            &&& after.active_gates == view.active_gates
            &&& after.slow_consumer_timeout == view.slow_consumer_timeout
        }),
    decreases slow.len(),
{
    if slow.len() > 0 {
        let shorter = slow.drop_last();
        law_batches_prune_only_slow_queues(view, shorter, player);
        let channel = view.clients[player].sender.channel;
        let earlier = exists|i: int|
            0 <= i < shorter.len() && (#[trigger] shorter[i]).0 == player && shorter[i].1.channel
                == channel;
        let now = exists|i: int|
            0 <= i < slow.len() && (#[trigger] slow[i]).0 == player && slow[i].1.channel == channel;
        if earlier {
            let i = choose|i: int|
                0 <= i < shorter.len() && (#[trigger] shorter[i]).0 == player
                    && shorter[i].1.channel == channel;
            assert(slow[i] == shorter[i]);
        }
        if slow.last().0 == player && slow.last().1.channel == channel {
            assert(slow[slow.len() - 1] == slow.last());
        }
        if now {
            let i = choose|i: int|
                0 <= i < slow.len() && (#[trigger] slow[i]).0 == player && slow[i].1.channel
                    == channel;
            if i < shorter.len() {
                assert(shorter[i] == slow[i]);
            }
        }
    }
}

} // verus!
