//! Room broadcasts that reserve every recipient before a hook runs, and what
//! invalidates such a reservation.

use vstd::prelude::*;

use crate::connection::{ClientDeliveryHandle, DeliverySender};
use crate::delivery::SendReceipt;
use crate::identifiers::same_members;
use crate::protocol::{PlayerId, RoomId};
use crate::routing::{InMemoryMessageCoordinator, RoutingView};

verus! {

/// What became of reserving one recipient's queue.
#[derive(Clone, Copy, Debug, PartialEq, Eq, Structural)]
pub enum QueueReservation {
    /// Permits on the queue are held.
    Reserved { player_id: PlayerId, sender: DeliverySender },
    /// The recipient's connection is closing.
    ChannelClosed { player_id: PlayerId, sender: DeliverySender },
    /// The recipient stayed full and is being disconnected.
    SlowConsumer { player_id: PlayerId, sender: DeliverySender },
    /// The reservation was called off or fenced off.
    Canceled,
}

/// Which reservations stand for a recipient that takes no more frames.
#[derive(Clone, Copy, Debug, PartialEq, Eq, Structural)]
pub enum Unavailable {
    /// Slow consumers only.
    SlowConsumers,
    /// Slow consumers and closing connections.
    SlowOrClosing,
}

/// Whether `reservation` shows that the queue `channel` of `player` takes no
/// more frames.
pub open spec fn shows_unavailable(
    reservation: QueueReservation,
    kind: Unavailable,
    player: PlayerId,
    channel: u64,
) -> bool {
    match reservation {
        QueueReservation::SlowConsumer { player_id, sender } => player_id == player
            && sender.channel == channel,
        QueueReservation::ChannelClosed { player_id, sender } => kind is SlowOrClosing && player_id
            == player && sender.channel == channel,
        _ => false,
    }
}

/// Whether a reservation names an unavailable recipient at all.
pub open spec fn names_unavailable(reservation: QueueReservation, kind: Unavailable) -> bool {
    reservation is SlowConsumer || (kind is SlowOrClosing && reservation is ChannelClosed)
}

/// The players whose current queue is shown unavailable.
pub open spec fn unavailable_players(
    view: RoutingView,
    reservations: Seq<QueueReservation>,
    kind: Unavailable,
) -> Set<PlayerId> {
    Set::new(
        |player: PlayerId|
            view.clients.contains_key(player) && exists|i: int|
                0 <= i < reservations.len() && shows_unavailable(
                    #[trigger] reservations[i],
                    kind,
                    player,
                    view.clients[player].sender.channel,
                ),
    )
}

/// The tables without the players whose current queue is shown unavailable.
pub open spec fn without_unavailable(
    view: RoutingView,
    reservations: Seq<QueueReservation>,
    kind: Unavailable,
) -> RoutingView {
    RoutingView {
        clients: view.clients.remove_keys(unavailable_players(view, reservations, kind)),
        ..view
    }
}

/// Whether `reservation` stands for `player` on the queue `channel`, and the
/// recipient may be answered from it. A closing recipient counts as answered
/// where `closing_counts`.
pub open spec fn answers_for(
    reservation: QueueReservation,
    closing_counts: bool,
    player: PlayerId,
    channel: u64,
) -> bool {
    match reservation {
        QueueReservation::Reserved { player_id, sender } => player_id == player && sender.channel
            == channel,
        QueueReservation::ChannelClosed { player_id, sender } => closing_counts && player_id
            == player && sender.channel == channel,
        _ => false,
    }
}

/// Whether the reservations answer for exactly the recipients the tables name
/// now: as many, and each on its current queue.
pub open spec fn covers_recipients(
    view: RoutingView,
    room: RoomId,
    except: Option<PlayerId>,
    reservations: Seq<QueueReservation>,
    closing_counts: bool,
) -> bool {
    &&& reservations.len() == view.recipients(room, except).len()
    &&& forall|player: PlayerId| #[trigger]
        view.recipients(room, except).contains(player) ==> exists|i: int|
            0 <= i < reservations.len() && answers_for(
                #[trigger] reservations[i],
                closing_counts,
                player,
                view.clients[player].sender.channel,
            )
}

/// The number of recipients whose permits are held.
pub open spec fn reserved_count(reservations: Seq<QueueReservation>) -> nat
    decreases reservations.len(),
{
    if reservations.len() == 0 {
        0
    } else {
        reserved_count(reservations.drop_last()) + (if reservations.last() is Reserved {
            1nat
        } else {
            0nat
        })
    }
}

/// The number of recipients whose permits are held.
pub fn count_reserved(reservations: &Vec<QueueReservation>) -> (count: usize)
    ensures
        count == reserved_count(reservations@),
        count <= reservations@.len(),
{
    let mut count: usize = 0;
    let mut index: usize = 0;
    while index < reservations.len()
        invariant
            index <= reservations.len(),
            count <= index,
            count == reserved_count(reservations@.take(index as int)),
        decreases reservations.len() - index,
    {
        assert(reservations@.take(index + 1).drop_last() =~= reservations@.take(index as int));
        if let QueueReservation::Reserved { .. } = reservations[index] {
            count += 1;
        }
        index += 1;
    }
    assert(reservations@.take(index as int) =~= reservations@);
    count
}

/// Whether any reservation was called off.
pub fn any_canceled(reservations: &Vec<QueueReservation>) -> (canceled: bool)
    ensures
        canceled == reservations@.contains(QueueReservation::Canceled),
{
    let mut index: usize = 0;
    while index < reservations.len()
        invariant
            index <= reservations.len(),
            forall|i: int| 0 <= i < index ==> reservations@[i] != QueueReservation::Canceled,
        decreases reservations.len() - index,
    {
        if reservations[index] == QueueReservation::Canceled {
            assert(reservations@[index as int] == QueueReservation::Canceled);
            return true;
        }
        index += 1;
    }
    false
}

/// Whether some reservation in `reservations` answers for the recipient.
fn answered(
    reservations: &Vec<QueueReservation>,
    closing_counts: bool,
    player: PlayerId,
    current: &DeliverySender,
) -> (found: bool)
    ensures
        found == exists|i: int|
            0 <= i < reservations@.len() && answers_for(
                #[trigger] reservations@[i],
                closing_counts,
                player,
                current.channel,
            ),
{
    let mut index: usize = 0;
    while index < reservations.len()
        invariant
            index <= reservations.len(),
            forall|i: int|
                0 <= i < index ==> !answers_for(
                    #[trigger] reservations@[i],
                    closing_counts,
                    player,
                    current.channel,
                ),
        decreases reservations.len() - index,
    {
        let answers = match &reservations[index] {
            QueueReservation::Reserved { player_id, sender } => *player_id == player
                && sender.same_channel(current),
            QueueReservation::ChannelClosed { player_id, sender } => closing_counts && *player_id
                == player && sender.same_channel(current),
            _ => false,
        };
        if answers {
            assert(answers_for(
                reservations@[index as int],
                closing_counts,
                player,
                current.channel,
            ));
            return true;
        }
        index += 1;
    }
    false
}

impl InMemoryMessageCoordinator {
    /// Whether the reservations answer for exactly the recipients `room` has
    /// now, each on its current queue. A recipient that changed its queue or
    /// its room while its reservation was pending is not covered.
    pub fn reservations_cover_recipients(
        &self,
        room: RoomId,
        except_player: Option<PlayerId>,
        reservations: &Vec<QueueReservation>,
        closing_counts: bool,
    ) -> (covered: bool)
        ensures
            covered == covers_recipients(
                self@,
                room,
                except_player,
                reservations@,
                closing_counts,
            ),
    {
        let recipients = self.collect_routed_recipients(room, except_player);
        let ghost players = crate::routing::recipient_players(recipients@);
        proof {
            players.unique_seq_to_set();
            assert(players.len() == recipients@.len());
        }
        if reservations.len() != recipients.len() {
            return false;
        }
        let mut index: usize = 0;
        while index < recipients.len()
            invariant
                index <= recipients.len(),
                players == crate::routing::recipient_players(recipients@),
                players.to_set() == self@.recipients(room, except_player),
                forall|i: int|
                    0 <= i < recipients@.len() ==> (#[trigger] recipients@[i]).1
                        == self@.clients[recipients@[i].0],
                forall|k: int|
                    #![trigger recipients@[k]]
                    0 <= k < index ==> exists|i: int|
                        0 <= i < reservations@.len() && answers_for(
                            #[trigger] reservations@[i],
                            closing_counts,
                            recipients@[k].0,
                            recipients@[k].1.sender.channel,
                        ),
            decreases recipients.len() - index,
        {
            let (player, handle) = recipients[index];
            if !answered(reservations, closing_counts, player, &handle.sender) {
                proof {
                    assert(players[index as int] == player);
                    assert(players.to_set().contains(player));
                    assert(self@.clients[player] == handle);
                }
                return false;
            }
            index += 1;
        }
        proof {
            assert forall|player: PlayerId| #[trigger]
                self@.recipients(room, except_player).contains(player) implies exists|i: int|
                0 <= i < reservations@.len() && answers_for(
                    #[trigger] reservations@[i],
                    closing_counts,
                    player,
                    self@.clients[player].sender.channel,
                ) by {
                assert(players.to_set().contains(player));
                let k = choose|k: int| 0 <= k < players.len() && players[k] == player;
                assert(recipients@[k].0 == player);
            }
        }
        true
    }

    /// Drops the handles of recipients that take no more frames, but for those
    /// whose identity another connection has taken over. Returns whether any
    /// reservation named such a recipient.
    pub fn prune_unavailable(&mut self, reservations: &Vec<QueueReservation>, kind: Unavailable) -> (
        named: bool)
        ensures
            final(self)@ == without_unavailable(old(self)@, reservations@, kind),
            old(self)@.wf() ==> final(self)@.wf(),
            named == exists|i: int|
                0 <= i < reservations@.len() && names_unavailable(
                    #[trigger] reservations@[i],
                    kind,
                ),
    {
        let mut named = false;
        let mut index: usize = 0;
        let slow_or_closing = kind == Unavailable::SlowOrClosing;
        proof {
            assert(unavailable_players(self@, reservations@.take(0), kind) =~= Set::empty());
            assert(self@.clients.remove_keys(Set::empty()) =~= self@.clients);
            assert(self@ =~= without_unavailable(old(self)@, reservations@.take(0), kind));
        }
        while index < reservations.len()
            invariant
                index <= reservations.len(),
                slow_or_closing == (kind is SlowOrClosing),
                self@ == without_unavailable(old(self)@, reservations@.take(index as int), kind),
                named == exists|i: int|
                    0 <= i < index && names_unavailable(#[trigger] reservations@[i], kind),
            decreases reservations.len() - index,
        {
            let ghost shorter = reservations@.take(index as int);
            let ghost longer = reservations@.take(index + 1);
            let ghost before = self@;
            let reservation = reservations[index];
            let target: Option<(PlayerId, DeliverySender)> = match reservation {
                QueueReservation::SlowConsumer { player_id, sender } => Some((player_id, sender)),
                QueueReservation::ChannelClosed { player_id, sender } => if slow_or_closing {
                    Some((player_id, sender))
                } else {
                    None
                },
                _ => None,
            };
            if let Some((player, sender)) = target {
                self.remove_client_if_same_sender(player, &sender);
                named = true;
                assert(names_unavailable(reservations@[index as int], kind));
            }
            proof {
                assert(longer =~= shorter.push(reservation));
                assert forall|player: PlayerId|
                    unavailable_players(old(self)@, longer, kind).contains(player)
                        <==> unavailable_players(old(self)@, shorter, kind).contains(player) || (
                    old(self)@.clients.contains_key(player) && shows_unavailable(
                        reservation,
                        kind,
                        player,
                        old(self)@.clients[player].sender.channel,
                    )) by {
                    if unavailable_players(old(self)@, shorter, kind).contains(player) {
                        let i = choose|i: int|
                            0 <= i < shorter.len() && shows_unavailable(
                                #[trigger] shorter[i],
                                kind,
                                player,
                                old(self)@.clients[player].sender.channel,
                            );
                        assert(longer[i] == shorter[i]);
                    }
                    if unavailable_players(old(self)@, longer, kind).contains(player) {
                        let i = choose|i: int|
                            0 <= i < longer.len() && shows_unavailable(
                                #[trigger] longer[i],
                                kind,
                                player,
                                old(self)@.clients[player].sender.channel,
                            );
                        if i < shorter.len() {
                            assert(longer[i] == shorter[i]);
                        }
                    }
                    assert(longer[index as int] == reservation);
                }
                assert(self@.clients =~= without_unavailable(old(self)@, longer, kind).clients);
                assert(self@ =~= without_unavailable(old(self)@, longer, kind));
            }
            index += 1;
        }
        assert(reservations@.take(index as int) =~= reservations@);
        named
    }
}

/// A conditional room broadcast.
#[derive(Debug)]
pub struct BroadcastRequest {
    pub room_id: RoomId,
    pub except_player: Option<PlayerId>,
    /// The membership the broadcast was decided for, where it matters.
    pub expected_members: Option<Vec<PlayerId>>,
}

impl BroadcastRequest {
    /// Whether the routed membership is the one the broadcast was decided for.
    pub open spec fn membership_holds(self, view: RoutingView) -> bool {
        match self.expected_members {
            Some(expected) => crate::identifiers::lists_exactly(
                expected@,
                view.recipients(self.room_id, self.except_player),
            ),
            None => true,
        }
    }
}

/// What has been observed of one round of a conditional room broadcast.
#[derive(Debug)]
pub struct BroadcastProgress {
    /// Whether the broadcast is wanted: no drain, and the sender's own
    /// condition holds.
    pub open_at_start: Option<bool>,
    pub reservations: Option<Vec<QueueReservation>>,
    pub open_after_reservations: Option<bool>,
    pub open_before_commit: Option<bool>,
    /// The answers to the frames sent on the held permits.
    pub receipts: Option<Vec<SendReceipt>>,
}

/// The next step of a conditional room broadcast. `canceled` counts the held
/// permits that are given back and recorded as canceled.
#[derive(Clone, Copy, Debug, PartialEq, Eq, Structural)]
pub enum BroadcastStep {
    /// Observe whether the broadcast is wanted.
    ReadGate,
    /// Reserve every recipient the room has now.
    Reserve,
    /// Observe whether the broadcast is still wanted.
    ReadGateAgain,
    /// Observe once more whether it is wanted, with the routing held still.
    ReadGateForCommit,
    /// Run the hook, then send every frame on its permit.
    Commit,
    /// Start over with fresh recipients; the hook has not run.
    Retry { canceled: usize },
    /// The broadcast is settled.
    Done { delivered: bool, canceled: usize },
}

/// Whether some frame reached its queue.
pub open spec fn any_enqueued(receipts: Seq<SendReceipt>) -> bool {
    receipts.contains(SendReceipt::Enqueued)
}

impl BroadcastProgress {
    pub fn new() -> (progress: Self)
        ensures
            progress.open_at_start is None,
            progress.reservations is None,
            progress.open_after_reservations is None,
            progress.open_before_commit is None,
            progress.receipts is None,
    {
        BroadcastProgress {
            open_at_start: None,
            reservations: None,
            open_after_reservations: None,
            open_before_commit: None,
            receipts: None,
        }
    }

    /// Whether a recipient stayed full.
    pub open spec fn has_slow_consumer(reservations: Seq<QueueReservation>) -> bool {
        exists|i: int|
            0 <= i < reservations.len() && names_unavailable(
                #[trigger] reservations[i],
                Unavailable::SlowConsumers,
            )
    }

    /// The step that follows once every recipient is reserved and the
    /// broadcast was found still wanted.
    pub open spec fn step_after_reservations(
        self,
        request: BroadcastRequest,
        reservations: Seq<QueueReservation>,
        view: RoutingView,
    ) -> BroadcastStep {
        let canceled = reserved_count(reservations) as usize;
        if reservations.contains(QueueReservation::Canceled) {
            BroadcastStep::Retry { canceled }
        } else if Self::has_slow_consumer(reservations) {
            BroadcastStep::Retry { canceled }
        } else if !request.membership_holds(view) {
            BroadcastStep::Done { delivered: false, canceled }
        } else if !covers_recipients(
            view,
            request.room_id,
            request.except_player,
            reservations,
            true,
        ) {
            BroadcastStep::Retry { canceled }
        } else {
            match self.open_before_commit {
                None => BroadcastStep::ReadGateForCommit,
                Some(false) => BroadcastStep::Done { delivered: false, canceled },
                Some(true) => BroadcastStep::Commit,
            }
        }
    }

    /// The next step of a conditional room broadcast.
    pub open spec fn spec_step(self, request: BroadcastRequest, view: RoutingView) -> BroadcastStep {
        match self.receipts {
            Some(receipts) => BroadcastStep::Done {
                delivered: any_enqueued(receipts@),
                canceled: 0,
            },
            None => match self.open_at_start {
                None => BroadcastStep::ReadGate,
                Some(false) => BroadcastStep::Done { delivered: false, canceled: 0 },
                Some(true) => match self.reservations {
                    None => BroadcastStep::Reserve,
                    Some(reservations) => match self.open_after_reservations {
                        None => BroadcastStep::ReadGateAgain,
                        Some(false) => BroadcastStep::Done {
                            delivered: false,
                            canceled: reserved_count(reservations@) as usize,
                        },
                        Some(true) => self.step_after_reservations(request, reservations@, view),
                    },
                },
            },
        }
    }

    /// Whether this step disconnects slow consumers: none of the reservations
    /// was called off, and at least one recipient stayed full.
    pub open spec fn prunes(self) -> bool {
        &&& self.receipts is None
        &&& self.open_at_start == Some(true)
        &&& self.open_after_reservations == Some(true)
        &&& match self.reservations {
            Some(reservations) => !reservations@.contains(QueueReservation::Canceled)
                && Self::has_slow_consumer(reservations@),
            None => false,
        }
    }
}

/// Whether some frame reached its queue.
pub fn broadcast_delivered(receipts: &Vec<SendReceipt>) -> (delivered: bool)
    ensures
        delivered == any_enqueued(receipts@),
{
    let mut index: usize = 0;
    while index < receipts.len()
        invariant
            index <= receipts.len(),
            forall|i: int| 0 <= i < index ==> receipts@[i] != SendReceipt::Enqueued,
        decreases receipts.len() - index,
    {
        if receipts[index] == SendReceipt::Enqueued {
            assert(receipts@[index as int] == SendReceipt::Enqueued);
            return true;
        }
        index += 1;
    }
    false
}

impl InMemoryMessageCoordinator {
    /// Whether the routed membership of a room is the one expected.
    pub fn routed_membership_is(
        &self,
        room: RoomId,
        except_player: Option<PlayerId>,
        expected: &Vec<PlayerId>,
    ) -> (holds: bool)
        ensures
            holds == crate::identifiers::lists_exactly(
                expected@,
                self@.recipients(room, except_player),
            ),
    {
        let recipients = self.collect_routed_recipients(room, except_player);
        let players = players_of(&recipients);
        same_members(expected, &players)
    }

    /// The next step of a room broadcast whose hook runs once, right before
    /// its frames are committed. Slow consumers found on the way are dropped
    /// from routing.
    pub fn broadcast_to_room_if_with_hook(
        &mut self,
        request: &BroadcastRequest,
        progress: &BroadcastProgress,
    ) -> (step: BroadcastStep)
        ensures
            step == progress.spec_step(*request, old(self)@),
            final(self)@ == (if progress.prunes() {
                without_unavailable(
                    old(self)@,
                    progress.reservations->0@,
                    Unavailable::SlowConsumers,
                )
            } else {
                old(self)@
            }),
            old(self)@.wf() ==> final(self)@.wf(),
    {
        if let Some(receipts) = &progress.receipts {
            return BroadcastStep::Done { delivered: broadcast_delivered(receipts), canceled: 0 };
        }
        match progress.open_at_start {
            None => {
                return BroadcastStep::ReadGate;
            },
            Some(open) => {
                if !open {
                    return BroadcastStep::Done { delivered: false, canceled: 0 };
                }
            },
        }
        let reservations = match &progress.reservations {
            None => {
                return BroadcastStep::Reserve;
            },
            Some(reservations) => reservations,
        };
        let canceled = count_reserved(reservations);
        match progress.open_after_reservations {
            None => {
                return BroadcastStep::ReadGateAgain;
            },
            Some(open) => {
                if !open {
                    return BroadcastStep::Done { delivered: false, canceled };
                }
            },
        }
        if any_canceled(reservations) {
            return BroadcastStep::Retry { canceled };
        }
        let slow = has_slow_consumer(reservations);
        if slow {
            let _ = self.prune_unavailable(reservations, Unavailable::SlowConsumers);
            return BroadcastStep::Retry { canceled };
        }
        if let Some(expected) = &request.expected_members {
            if !self.routed_membership_is(request.room_id, request.except_player, expected) {
                return BroadcastStep::Done { delivered: false, canceled };
            }
        }
        if !self.reservations_cover_recipients(
            request.room_id,
            request.except_player,
            reservations,
            true,
        ) {
            return BroadcastStep::Retry { canceled };
        }
        match progress.open_before_commit {
            None => BroadcastStep::ReadGateForCommit,
            Some(open) => if open {
                BroadcastStep::Commit
            } else {
                BroadcastStep::Done { delivered: false, canceled }
            },
        }
    }
}

/// Whether a recipient stayed full.
fn has_slow_consumer(reservations: &Vec<QueueReservation>) -> (slow: bool)
    ensures
        slow == BroadcastProgress::has_slow_consumer(reservations@),
{
    let mut index: usize = 0;
    while index < reservations.len()
        invariant
            index <= reservations.len(),
            forall|i: int|
                0 <= i < index ==> !names_unavailable(
                    #[trigger] reservations@[i],
                    Unavailable::SlowConsumers,
                ),
        decreases reservations.len() - index,
    {
        if let QueueReservation::SlowConsumer { .. } = reservations[index] {
            assert(names_unavailable(reservations@[index as int], Unavailable::SlowConsumers));
            return true;
        }
        index += 1;
    }
    false
}

/// The players of a recipient list.
pub fn players_of(recipients: &Vec<(PlayerId, ClientDeliveryHandle)>) -> (players: Vec<PlayerId>)
    ensures
        players@ == crate::routing::recipient_players(recipients@),
{
    let mut players: Vec<PlayerId> = Vec::new();
    let mut index: usize = 0;
    while index < recipients.len()
        invariant
            index <= recipients.len(),
            players@ == crate::routing::recipient_players(recipients@).take(index as int),
        decreases recipients.len() - index,
    {
        players.push(recipients[index].0);
        assert(players@ =~= crate::routing::recipient_players(recipients@).take(index + 1));
        index += 1;
    }
    assert(players@ =~= crate::routing::recipient_players(recipients@));
    players
}

/// The hook runs, and frames go out, only for a broadcast that was wanted at
/// every gate, whose expected membership holds, and whose reservations answer
/// for every current recipient on its current queue.
pub proof fn law_hook_runs_only_for_covered_broadcasts(
    request: BroadcastRequest,
    progress: BroadcastProgress,
    view: RoutingView,
)
    requires
        progress.spec_step(request, view) is Commit,
    ensures
        progress.open_at_start == Some(true),
        progress.open_after_reservations == Some(true),
        progress.open_before_commit == Some(true),
        request.membership_holds(view),
        progress.reservations matches Some(reservations) && covers_recipients(
            view,
            request.room_id,
            request.except_player,
            reservations@,
            true,
        ),
        progress.receipts is None,
{
}

/// Every step of a round asks for something not observed yet, so a round ends
/// after finitely many observations.
pub proof fn law_broadcast_rounds_make_progress(
    request: BroadcastRequest,
    progress: BroadcastProgress,
    view: RoutingView,
)
    ensures
        match progress.spec_step(request, view) {
            BroadcastStep::ReadGate => progress.open_at_start is None,
            BroadcastStep::Reserve => progress.reservations is None,
            BroadcastStep::ReadGateAgain => progress.open_after_reservations is None,
            BroadcastStep::ReadGateForCommit => progress.open_before_commit is None,
            BroadcastStep::Commit => progress.receipts is None,
            BroadcastStep::Retry { .. } | BroadcastStep::Done { .. } => true,
        },
{
}

/// A called-off or slow recipient makes the broadcast start over for the
/// others instead of dropping it, with all held permits given back and the
/// hook not run.
pub proof fn law_disturbed_rounds_are_retried(
    request: BroadcastRequest,
    progress: BroadcastProgress,
    view: RoutingView,
    reservations: Vec<QueueReservation>,
)
    requires
        progress.receipts is None,
        progress.open_at_start == Some(true),
        progress.open_after_reservations == Some(true),
        progress.reservations == Some(reservations),
        reservations@.contains(QueueReservation::Canceled)
            || BroadcastProgress::has_slow_consumer(reservations@),
    ensures
        progress.spec_step(request, view) == (BroadcastStep::Retry {
            canceled: reserved_count(reservations@) as usize,
        }),
{
}

/// The permits counted are those of the recipients that are reserved.
pub proof fn law_reserved_recipients_are_counted(reservations: Seq<QueueReservation>)
    ensures
        reserved_count(reservations) == reservations.filter(
            |reservation: QueueReservation| reservation is Reserved,
        ).len(),
        reserved_count(reservations) <= reservations.len(),
    decreases reservations.len(),
{
    reveal(Seq::filter);
    if reservations.len() > 0 {
        law_reserved_recipients_are_counted(reservations.drop_last());
    }
}

/// A broadcast counts as delivered exactly if one of its frames reached its
/// queue.
pub proof fn law_delivered_broadcasts_reached_somebody(
    request: BroadcastRequest,
    progress: BroadcastProgress,
    view: RoutingView,
)
    ensures
        (progress.spec_step(request, view) matches BroadcastStep::Done { delivered: true, .. })
            <==> progress.receipts is Some && exists|i: int|
            0 <= i < progress.receipts->0@.len() && #[trigger] progress.receipts->0@[i]
                == SendReceipt::Enqueued,
        progress.receipts is Some ==> (progress.spec_step(request, view) matches BroadcastStep::Done {
            canceled: 0,
            ..
        }),
{
}

/// The membership a broadcast was decided for is the routed one: nobody missing,
/// nobody more, nobody named twice.
pub open spec fn decided_for(request: BroadcastRequest, view: RoutingView) -> bool {
    match request.expected_members {
        Some(expected) => {
            &&& forall|i: int, j: int|
                0 <= i < j < expected@.len() ==> #[trigger] expected@[i] != #[trigger] expected@[j]
            &&& forall|player: PlayerId| #[trigger]
                expected@.contains(player) <==> view.rooms.contains_key(request.room_id)
                    && view.rooms[request.room_id].contains(player) && view.clients.contains_key(
                    player,
                ) && request.except_player != Some(player)
        },
        None => true,
    }
}

proof fn lemma_decided_for(request: BroadcastRequest, view: RoutingView)
    ensures
        decided_for(request, view) == request.membership_holds(view),
{
    if let Some(expected) = request.expected_members {
        let recipients = view.recipients(request.room_id, request.except_player);
        assert((forall|i: int, j: int|
            0 <= i < j < expected@.len() ==> #[trigger] expected@[i] != #[trigger] expected@[j])
            <==> expected@.no_duplicates());
        if decided_for(request, view) {
            assert forall|player: PlayerId| expected@.to_set().contains(player)
                == recipients.contains(player) by {
                assert(expected@.to_set().contains(player) <==> expected@.contains(player));
            }
            assert(expected@.to_set() =~= recipients);
        }
        if request.membership_holds(view) {
            assert forall|player: PlayerId| #[trigger]
                expected@.contains(player) <==> view.rooms.contains_key(request.room_id)
                    && view.rooms[request.room_id].contains(player) && view.clients.contains_key(
                    player,
                ) && request.except_player != Some(player) by {
                assert(expected@.to_set().contains(player) <==> expected@.contains(player));
                assert(recipients.contains(player) <==> view.routes(player, request.room_id)
                    && view.clients.contains_key(player) && request.except_player != Some(player));
            }
        }
    }
}

/// A round of a broadcast asks for each observation exactly when it is the next
/// one it needs; a broadcast nobody wants, or whose membership changed, ends
/// undelivered; and what was reserved in vain is given back, permit by permit.
pub proof fn law_broadcasts_go_on_only_while_wanted(
    request: BroadcastRequest,
    progress: BroadcastProgress,
    view: RoutingView,
)
    ensures
        ({
            let step = progress.spec_step(request, view);
            let fresh = progress.receipts is None;
            let begun = fresh && progress.open_at_start == Some(true);
            let reserved = begun && progress.reservations is Some;
            let wanted = reserved && progress.open_after_reservations == Some(true);
            let reservations = progress.reservations->0@;
            let disturbed = reservations.contains(QueueReservation::Canceled) || exists|i: int|
                0 <= i < reservations.len() && #[trigger] reservations[i] is SlowConsumer;
            let permits = reservations.filter(
                |reservation: QueueReservation| reservation is Reserved,
            ).len();
            &&& step is ReadGate <==> fresh && progress.open_at_start is None
            &&& step is Reserve <==> begun && progress.reservations is None
            &&& step is ReadGateAgain <==> reserved && progress.open_after_reservations is None
            &&& fresh && progress.open_at_start == Some(false) ==> step == (BroadcastStep::Done {
                delivered: false,
                canceled: 0,
            })
            &&& reserved && progress.open_after_reservations == Some(false) ==> (
            step matches BroadcastStep::Done { delivered: false, canceled } && canceled == permits)
            &&& wanted && disturbed ==> (step matches BroadcastStep::Retry { canceled } && canceled
                == permits)
            &&& wanted && !disturbed && !decided_for(request, view) ==> (
            step matches BroadcastStep::Done { delivered: false, canceled } && canceled == permits)
            &&& step matches BroadcastStep::Retry { canceled } ==> wanted && canceled == permits
            &&& step is Commit ==> wanted && !disturbed && decided_for(request, view)
                && progress.open_before_commit == Some(true)
            &&& step is ReadGateForCommit ==> wanted && !disturbed && decided_for(request, view)
                && progress.open_before_commit is None
        }),
{
    lemma_decided_for(request, view);
    if let Some(reservations) = progress.reservations {
        law_reserved_recipients_are_counted(reservations@);
        assert(reservations@.len() == reservations.len());
        assert(BroadcastProgress::has_slow_consumer(reservations@) <==> exists|i: int|
            0 <= i < reservations@.len() && #[trigger] reservations@[i] is SlowConsumer) by {
            if BroadcastProgress::has_slow_consumer(reservations@) {
                let i = choose|i: int|
                    0 <= i < reservations@.len() && names_unavailable(
                        #[trigger] reservations@[i],
                        Unavailable::SlowConsumers,
                    );
                assert(reservations@[i] is SlowConsumer);
            }
            if exists|i: int|
                0 <= i < reservations@.len() && #[trigger] reservations@[i] is SlowConsumer {
                let i = choose|i: int|
                    0 <= i < reservations@.len() && #[trigger] reservations@[i] is SlowConsumer;
                assert(names_unavailable(reservations@[i], Unavailable::SlowConsumers));
            }
        }
    }
}

/// Frames go out only to a room whose every recipient is answered for on the
/// queue it uses now, reserved or closing, with as many reservations as
/// recipients.
pub proof fn law_committed_broadcasts_answer_for_everybody(
    request: BroadcastRequest,
    progress: BroadcastProgress,
    view: RoutingView,
    player: PlayerId,
)
    requires
        progress.spec_step(request, view) is Commit,
        view.rooms.contains_key(request.room_id),
        view.rooms[request.room_id].contains(player),
        view.clients.contains_key(player),
        request.except_player != Some(player),
    ensures
        exists|i: int|
            0 <= i < progress.reservations->0@.len() && ((
            #[trigger] progress.reservations->0@[i] matches QueueReservation::Reserved {
                player_id,
                sender,
            } && player_id == player && sender.channel == view.clients[player].sender.channel) || (
            progress.reservations->0@[i] matches QueueReservation::ChannelClosed {
                player_id,
                sender,
            } && player_id == player && sender.channel == view.clients[player].sender.channel)),
        progress.reservations->0@.len() == view.recipients(
            request.room_id,
            request.except_player,
        ).len(),
{
    let reservations = progress.reservations->0@;
    assert(view.recipients(request.room_id, request.except_player).contains(player));
    let i = choose|i: int|
        0 <= i < reservations.len() && answers_for(
            #[trigger] reservations[i],
            true,
            player,
            view.clients[player].sender.channel,
        );
    assert(reservations[i] is Reserved || reservations[i] is ChannelClosed);
}

/// A broadcast that is wanted at every gate, whose recipients all hold permits on
/// their current queues, does go out.
pub proof fn law_complete_broadcasts_are_committed(
    request: BroadcastRequest,
    progress: BroadcastProgress,
    view: RoutingView,
    players: Seq<PlayerId>,
)
    requires
        progress.receipts is None,
        progress.open_at_start == Some(true),
        progress.open_after_reservations == Some(true),
        progress.open_before_commit == Some(true),
        decided_for(request, view),
        progress.reservations is Some,
        players.no_duplicates(),
        players.len() == progress.reservations->0@.len(),
        forall|player: PlayerId| #[trigger]
            players.contains(player) <==> view.rooms.contains_key(request.room_id)
                && view.rooms[request.room_id].contains(player) && view.clients.contains_key(player)
                && request.except_player != Some(player),
        forall|i: int|
            0 <= i < players.len() ==> (#[trigger] progress.reservations->0@[i] matches QueueReservation::Reserved {
                player_id,
                sender,
            } && player_id == players[i] && sender.channel
                == view.clients[player_id].sender.channel),
    ensures
        progress.spec_step(request, view) is Commit,
{
    lemma_decided_for(request, view);
    let reservations = progress.reservations->0@;
    let recipients = view.recipients(request.room_id, request.except_player);
    assert forall|player: PlayerId| players.to_set().contains(player) == recipients.contains(
        player,
    ) by {
        assert(players.to_set().contains(player) <==> players.contains(player));
    }
    assert(players.to_set() =~= recipients);
    players.unique_seq_to_set();
    assert forall|player: PlayerId| #[trigger] recipients.contains(player) implies exists|i: int|
        0 <= i < reservations.len() && answers_for(
            #[trigger] reservations[i],
            true,
            player,
            view.clients[player].sender.channel,
        ) by {
        assert(players.to_set().contains(player));
        let i = choose|i: int| 0 <= i < players.len() && players[i] == player;
        assert(reservations[i] is Reserved);
        assert(answers_for(reservations[i], true, player, view.clients[player].sender.channel));
    }
    if reservations.contains(QueueReservation::Canceled) {
        let i = choose|i: int|
            0 <= i < reservations.len() && reservations[i] == QueueReservation::Canceled;
        assert(reservations[i] is Reserved);
    }
    if BroadcastProgress::has_slow_consumer(reservations) {
        let i = choose|i: int|
            0 <= i < reservations.len() && names_unavailable(
                #[trigger] reservations[i],
                Unavailable::SlowConsumers,
            );
        assert(reservations[i] is Reserved);
    }
}

/// A recipient loses its route exactly if a reservation shows that the queue it
/// uses now stayed full or, where that counts, is closing. Whoever has taken its
/// identity over since keeps its route, and so does everybody else.
pub proof fn law_only_unavailable_queues_lose_their_route(
    view: RoutingView,
    reservations: Seq<QueueReservation>,
    kind: Unavailable,
    player: PlayerId,
)
    ensures
        ({
            let after = without_unavailable(view, reservations, kind);
            let channel = view.clients[player].sender.channel;
            let shown = exists|i: int|
                0 <= i < reservations.len() && ((
                #[trigger] reservations[i] matches QueueReservation::SlowConsumer {
                    player_id,
                    sender,
                } && player_id == player && sender.channel == channel) || (kind
                    == Unavailable::SlowOrClosing && (
                reservations[i] matches QueueReservation::ChannelClosed { player_id, sender }
                    && player_id == player && sender.channel == channel)));
            &&& after.clients.contains_key(player) <==> view.clients.contains_key(player) && !shown
            &&& after.clients.contains_key(player) ==> after.clients[player] == view.clients[player]
            &&& after.rooms == view.rooms
            &&& after.active_gates == view.active_gates
            &&& after.slow_consumer_timeout == view.slow_consumer_timeout
        }),
{
    let channel = view.clients[player].sender.channel;
    let shown = exists|i: int|
        0 <= i < reservations.len() && ((
        #[trigger] reservations[i] matches QueueReservation::SlowConsumer { player_id, sender }
            && player_id == player && sender.channel == channel) || (kind
            == Unavailable::SlowOrClosing && (
        reservations[i] matches QueueReservation::ChannelClosed { player_id, sender } && player_id
            == player && sender.channel == channel)));
    assert(shown <==> exists|i: int|
        0 <= i < reservations.len() && shows_unavailable(
            #[trigger] reservations[i],
            kind,
            player,
            channel,
        )) by {
        if shown {
            let i = choose|i: int|
                0 <= i < reservations.len() && ((
                #[trigger] reservations[i] matches QueueReservation::SlowConsumer {
                    player_id,
                    sender,
                } && player_id == player && sender.channel == channel) || (kind
                    == Unavailable::SlowOrClosing && (
                reservations[i] matches QueueReservation::ChannelClosed { player_id, sender }
                    && player_id == player && sender.channel == channel)));
            assert(shows_unavailable(reservations[i], kind, player, channel));
        }
        if exists|i: int|
            0 <= i < reservations.len() && shows_unavailable(
                #[trigger] reservations[i],
                kind,
                player,
                channel,
            ) {
            let i = choose|i: int|
                0 <= i < reservations.len() && shows_unavailable(
                    #[trigger] reservations[i],
                    kind,
                    player,
                    channel,
                );
            assert(reservations[i] is SlowConsumer || reservations[i] is ChannelClosed);
        }
    }
}

/// Slow consumers lose their routes exactly in a round that is wanted, in which
/// nothing was called off, and in which somebody stayed full.
pub proof fn law_broadcasts_prune_only_slow_consumers(progress: BroadcastProgress)
    ensures
        progress.prunes() <==> progress.receipts is None && progress.open_at_start == Some(true)
            && progress.open_after_reservations == Some(true) && progress.reservations is Some
            && !progress.reservations->0@.contains(QueueReservation::Canceled) && exists|i: int|
            0 <= i < progress.reservations->0@.len() && #[trigger] progress.reservations->0@[i]
                is SlowConsumer,
{
    if let Some(reservations) = progress.reservations {
        if exists|i: int|
            0 <= i < reservations@.len() && #[trigger] reservations@[i] is SlowConsumer {
            let i = choose|i: int|
                0 <= i < reservations@.len() && #[trigger] reservations@[i] is SlowConsumer;
            assert(names_unavailable(reservations@[i], Unavailable::SlowConsumers));
        }
    }
}

/// A reservation answers for one player on one queue at most, and only where
/// the permits are held, or where the queue is closing and that counts.
pub proof fn law_reservations_answer_for_one_queue(
    reservation: QueueReservation,
    closing_counts: bool,
    player: PlayerId,
    channel: u64,
    other_player: PlayerId,
    other_channel: u64,
)
    ensures
        answers_for(reservation, closing_counts, player, channel) ==> reservation is Reserved || (
        closing_counts && reservation is ChannelClosed),
        answers_for(reservation, closing_counts, player, channel) && answers_for(
            reservation,
            closing_counts,
            other_player,
            other_channel,
        ) ==> player == other_player && channel == other_channel,
        reservation matches QueueReservation::Reserved { player_id, sender } ==> answers_for(
            reservation,
            closing_counts,
            player_id,
            sender.channel,
        ),
        reservation matches QueueReservation::ChannelClosed { player_id, sender } ==> answers_for(
            reservation,
            closing_counts,
            player_id,
            sender.channel,
        ) == closing_counts,
{
}

/// A slow consumer is always unavailable, a closing connection where closing
/// ones count, and nobody else is; what shows one queue unavailable shows no
/// other one.
pub proof fn law_unavailable_recipients_are_slow_or_closing(
    reservation: QueueReservation,
    kind: Unavailable,
    player: PlayerId,
    channel: u64,
    other_player: PlayerId,
    other_channel: u64,
)
    ensures
        names_unavailable(reservation, Unavailable::SlowConsumers)
            <==> reservation is SlowConsumer,
        names_unavailable(reservation, Unavailable::SlowOrClosing)
            <==> reservation is SlowConsumer || reservation is ChannelClosed,
        shows_unavailable(reservation, kind, player, channel) ==> names_unavailable(
            reservation,
            kind,
        ),
        shows_unavailable(reservation, kind, player, channel) && shows_unavailable(
            reservation,
            kind,
            other_player,
            other_channel,
        ) ==> player == other_player && channel == other_channel,
{
}

/// A recipient that is closing does not hold a broadcast up: where everybody
/// else is reserved, the broadcast is committed.
pub proof fn law_closing_recipients_hold_nothing_up(
    request: BroadcastRequest,
    progress: BroadcastProgress,
    view: RoutingView,
    players: Seq<PlayerId>,
)
    requires
        progress.receipts is None,
        progress.open_at_start == Some(true),
        progress.open_after_reservations == Some(true),
        progress.open_before_commit == Some(true),
        decided_for(request, view),
        progress.reservations is Some,
        players.no_duplicates(),
        players.len() == progress.reservations->0@.len(),
        forall|player: PlayerId| #[trigger]
            players.contains(player) <==> view.rooms.contains_key(request.room_id)
                && view.rooms[request.room_id].contains(player) && view.clients.contains_key(player)
                && request.except_player != Some(player),
        forall|i: int|
            0 <= i < players.len() ==> match #[trigger] progress.reservations->0@[i] {
                QueueReservation::Reserved { player_id, sender } => player_id == players[i]
                    && sender.channel == view.clients[player_id].sender.channel,
                QueueReservation::ChannelClosed { player_id, sender } => player_id == players[i]
                    && sender.channel == view.clients[player_id].sender.channel,
                _ => false,
            },
    ensures
        progress.spec_step(request, view) is Commit,
{
    lemma_decided_for(request, view);
    let reservations = progress.reservations->0@;
    let recipients = view.recipients(request.room_id, request.except_player);
    assert forall|player: PlayerId| players.to_set().contains(player) == recipients.contains(
        player,
    ) by {
        assert(players.to_set().contains(player) <==> players.contains(player));
    }
    assert(players.to_set() =~= recipients);
    players.unique_seq_to_set();
    assert forall|player: PlayerId| #[trigger] recipients.contains(player) implies exists|i: int|
        0 <= i < reservations.len() && answers_for(
            #[trigger] reservations[i],
            true,
            player,
            view.clients[player].sender.channel,
        ) by {
        assert(players.to_set().contains(player));
        let i = choose|i: int| 0 <= i < players.len() && players[i] == player;
        assert(answers_for(reservations[i], true, player, view.clients[player].sender.channel));
    }
    if reservations.contains(QueueReservation::Canceled) {
        let i = choose|i: int|
            0 <= i < reservations.len() && reservations[i] == QueueReservation::Canceled;
        assert(reservations[i] is Canceled);
        assert(false);
    }
}

} // verus!
