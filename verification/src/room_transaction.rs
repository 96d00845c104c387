//! All-or-nothing room publications: every member's frames are reserved before
//! a commit hook runs, and they go out in two ordered phases.

use std::sync::Arc;

use vstd::prelude::*;

use crate::broadcast::{any_canceled, QueueReservation, Unavailable};
use crate::delivery::SendReceipt;
use crate::identifiers::same_members;
use crate::protocol::{PlayerId, RoomId, ServerMessage};
use crate::routing::InMemoryMessageCoordinator;

verus! {

/// The frames one room member gets, the first of them in `first_phase`.
#[derive(Debug)]
pub struct RoomRecipientMessages {
    pub player_id: PlayerId,
    pub first_phase: usize,
    pub messages: Vec<Arc<ServerMessage>>,
}

impl RoomRecipientMessages {
    /// The message that goes out in `phase`, by its position.
    pub open spec fn index_in_phase(self, phase: int) -> Option<int> {
        if self.first_phase <= phase < self.first_phase + self.messages@.len() {
            Some(phase - self.first_phase)
        } else {
            None
        }
    }

    /// Frames from the first phase on.
    pub fn in_order(player_id: PlayerId, messages: Vec<Arc<ServerMessage>>) -> (batch: Self)
        ensures
            batch.player_id == player_id,
            batch.first_phase == 0,
            batch.messages == messages,
    {
        RoomRecipientMessages { player_id, first_phase: 0, messages }
    }

    /// Frames from `first_phase` on.
    pub fn from_first_phase(
        player_id: PlayerId,
        first_phase: usize,
        messages: Vec<Arc<ServerMessage>>,
    ) -> (batch: Self)
        ensures
            batch.player_id == player_id,
            batch.first_phase == first_phase,
            batch.messages == messages,
    {
        RoomRecipientMessages { player_id, first_phase, messages }
    }

    /// The number of phases up to the last frame.
    pub fn phase_count(&self) -> (count: usize)
        ensures
            count == (if self.first_phase + self.messages@.len() <= usize::MAX {
                self.first_phase + self.messages@.len()
            } else {
                usize::MAX as int
            }),
    {
        self.first_phase.saturating_add(self.messages.len())
    }

    /// The position of the message that goes out in `phase`.
    pub fn message_index_in_phase(&self, phase: usize) -> (index: Option<usize>)
        ensures
            index is Some <==> self.index_in_phase(phase as int) is Some,
            index is Some ==> index->0 == self.index_in_phase(phase as int)->0,
    {
        if phase >= self.first_phase && phase - self.first_phase < self.messages.len() {
            Some(phase - self.first_phase)
        } else {
            None
        }
    }
}

/// Why a room transaction was not begun.
#[derive(Clone, Copy, Debug, PartialEq, Eq, Structural)]
pub enum RoomTransactionError {
    /// The expected membership is empty or names somebody twice.
    MembershipNotUnique,
    /// The batches are not one for every expected member.
    BatchesDoNotCover,
    /// No batch holds a frame.
    NoFrames,
    /// Some batch reaches past the second phase.
    UnsupportedPhases,
}

impl RoomTransactionError {
    pub open spec fn text(self) -> Seq<char> {
        match self {
            RoomTransactionError::MembershipNotUnique =>
                "room message transaction requires unique non-empty membership"@,
            RoomTransactionError::BatchesDoNotCover =>
                "room message batches must cover every expected member exactly once"@,
            RoomTransactionError::NoFrames =>
                "room message transaction requires at least one frame"@,
            RoomTransactionError::UnsupportedPhases =>
                "room message transactions support exactly two ordered phases"@,
        }
    }

    /// The text the error is reported with.
    pub fn message(&self) -> (message: String)
        ensures
            message@ == self.text(),
    {
        match self {
            RoomTransactionError::MembershipNotUnique =>
                "room message transaction requires unique non-empty membership".to_owned(),
            RoomTransactionError::BatchesDoNotCover =>
                "room message batches must cover every expected member exactly once".to_owned(),
            RoomTransactionError::NoFrames =>
                "room message transaction requires at least one frame".to_owned(),
            RoomTransactionError::UnsupportedPhases =>
                "room message transactions support exactly two ordered phases".to_owned(),
        }
    }
}

/// The players of a list of batches.
pub open spec fn batch_players(batches: Seq<RoomRecipientMessages>) -> Seq<PlayerId> {
    batches.map_values(|batch: RoomRecipientMessages| batch.player_id)
}

/// Whether some batch holds a frame.
pub open spec fn holds_a_frame(batches: Seq<RoomRecipientMessages>) -> bool {
    exists|i: int| 0 <= i < batches.len() && (#[trigger] batches[i]).messages@.len() > 0
}

/// Whether every batch keeps to the two phases.
pub open spec fn within_two_phases(batches: Seq<RoomRecipientMessages>) -> bool {
    forall|i: int|
        0 <= i < batches.len() ==> (#[trigger] batches[i]).first_phase <= 1
            && batches[i].first_phase + batches[i].messages@.len() <= 2
}

/// Why a transaction over `expected` and `batches` is not begun, if it is not.
pub open spec fn transaction_refusal(
    expected: Seq<PlayerId>,
    batches: Seq<RoomRecipientMessages>,
) -> Option<RoomTransactionError> {
    if expected.len() == 0 || !expected.no_duplicates() {
        Some(RoomTransactionError::MembershipNotUnique)
    } else if !crate::identifiers::lists_exactly(batch_players(batches), expected.to_set()) {
        Some(RoomTransactionError::BatchesDoNotCover)
    } else if !holds_a_frame(batches) {
        Some(RoomTransactionError::NoFrames)
    } else if !within_two_phases(batches) {
        Some(RoomTransactionError::UnsupportedPhases)
    } else {
        None
    }
}

/// Whether no member is named twice.
fn all_distinct(players: &Vec<PlayerId>) -> (distinct: bool)
    ensures
        distinct == players@.no_duplicates(),
{
    let sorted = crate::identifiers::ascending_members(players);
    proof {
        assert(sorted@.no_duplicates()) by {
            assert forall|i: int, j: int|
                0 <= i < sorted@.len() && 0 <= j < sorted@.len() && i != j implies sorted@[i]
                != sorted@[j] by {
                if i < j {
                    assert(sorted@[i] < sorted@[j]);
                } else {
                    assert(sorted@[j] < sorted@[i]);
                }
            }
        }
        sorted@.unique_seq_to_set();
        if sorted@.len() == players@.len() {
            players@.lemma_no_dup_set_cardinality();
        }
        if players@.no_duplicates() {
            players@.unique_seq_to_set();
        }
    }
    sorted.len() == players.len()
}

/// The players of a list of batches.
fn players_of_batches(batches: &Vec<RoomRecipientMessages>) -> (players: Vec<PlayerId>)
    ensures
        players@ == batch_players(batches@),
{
    let mut players: Vec<PlayerId> = Vec::new();
    let mut index: usize = 0;
    while index < batches.len()
        invariant
            index <= batches.len(),
            players@ == batch_players(batches@).take(index as int),
        decreases batches.len() - index,
    {
        players.push(batches[index].player_id);
        assert(players@ =~= batch_players(batches@).take(index + 1));
        index += 1;
    }
    assert(players@ =~= batch_players(batches@));
    players
}

/// Checks a room transaction before anything is reserved for it.
pub fn validate_room_transaction(
    expected_members: &Vec<PlayerId>,
    batches: &Vec<RoomRecipientMessages>,
) -> (valid: Result<(), RoomTransactionError>)
    ensures
        valid == (match transaction_refusal(expected_members@, batches@) {
            Some(error) => Err::<(), RoomTransactionError>(error),
            None => Ok::<(), RoomTransactionError>(()),
        }),
{
    if expected_members.len() == 0 || !all_distinct(expected_members) {
        return Err(RoomTransactionError::MembershipNotUnique);
    }
    let players = players_of_batches(batches);
    if !same_members(&players, expected_members) {
        return Err(RoomTransactionError::BatchesDoNotCover);
    }
    let mut has_frame = false;
    let mut in_range = true;
    let mut index: usize = 0;
    while index < batches.len()
        invariant
            index <= batches.len(),
            has_frame == exists|i: int|
                0 <= i < index && (#[trigger] batches@[i]).messages@.len() > 0,
            in_range == forall|i: int|
                0 <= i < index ==> (#[trigger] batches@[i]).first_phase <= 1
                    && batches@[i].first_phase + batches@[i].messages@.len() <= 2,
        decreases batches.len() - index,
    {
        let batch = &batches[index];
        if batch.messages.len() > 0 {
            assert(batches@[index as int].messages@.len() > 0);
            has_frame = true;
        }
        if batch.first_phase > 1 || batch.phase_count() > 2 {
            assert(!(batches@[index as int].first_phase <= 1 && batches@[index as int].first_phase
                + batches@[index as int].messages@.len() <= 2));
            in_range = false;
        }
        index += 1;
    }
    if !has_frame {
        return Err(RoomTransactionError::NoFrames);
    }
    if !in_range {
        return Err(RoomTransactionError::UnsupportedPhases);
    }
    Ok(())
}

/// One frame of a publication: the recipient and the position of the message
/// in its batch. Permits are held in the same order as messages.
#[derive(Clone, Copy, Debug, PartialEq, Eq, Structural)]
pub struct PhaseFrame {
    pub player_id: PlayerId,
    pub message_index: usize,
}

/// Whether the batch at `at` belongs to `player`.
pub open spec fn is_batch_of(batches: Seq<RoomRecipientMessages>, at: int, player: PlayerId) -> bool {
    0 <= at < batches.len() && batches[at].player_id == player
}

/// The message `player` gets in `phase`, by its position in its batch.
pub open spec fn frame_of(
    batches: Seq<RoomRecipientMessages>,
    player: PlayerId,
    phase: int,
) -> Option<int> {
    if exists|at: int| is_batch_of(batches, at, player) {
        batches[choose|at: int| is_batch_of(batches, at, player)].index_in_phase(phase)
    } else {
        None
    }
}

/// The frames of one phase, in the order of the reservations.
pub open spec fn phase_frames(
    batches: Seq<RoomRecipientMessages>,
    reservations: Seq<QueueReservation>,
    phase: int,
) -> Seq<PhaseFrame>
    decreases reservations.len(),
{
    if reservations.len() == 0 {
        Seq::empty()
    } else {
        let earlier = phase_frames(batches, reservations.drop_last(), phase);
        match reservations.last() {
            QueueReservation::Reserved { player_id, .. } => match frame_of(
                batches,
                player_id,
                phase,
            ) {
                Some(index) => earlier.push(PhaseFrame { player_id, message_index: index as usize }),
                None => earlier,
            },
            _ => earlier,
        }
    }
}

/// A count that stops at the largest machine number.
pub open spec fn capped(count: int) -> usize {
    if count <= usize::MAX {
        count as usize
    } else {
        usize::MAX
    }
}

/// The number of frames held on permits: every frame of every reserved member.
pub open spec fn held_frames(
    batches: Seq<RoomRecipientMessages>,
    reservations: Seq<QueueReservation>,
) -> int {
    (phase_frames(batches, reservations, 0).len() + phase_frames(
        batches,
        reservations,
        1,
    ).len()) as int
}

/// The position of the message `player` gets in `phase`.
fn find_frame(batches: &Vec<RoomRecipientMessages>, player: PlayerId, phase: usize) -> (index:
    Option<usize>)
    requires
        batch_players(batches@).no_duplicates(),
    ensures
        index is Some <==> frame_of(batches@, player, phase as int) is Some,
        index is Some ==> index->0 == frame_of(batches@, player, phase as int)->0,
{
    let mut at: usize = 0;
    while at < batches.len()
        invariant
            at <= batches.len(),
            batch_players(batches@).no_duplicates(),
            forall|i: int| 0 <= i < at ==> !is_batch_of(batches@, i, player),
        decreases batches.len() - at,
    {
        if batches[at].player_id == player {
            proof {
                assert(is_batch_of(batches@, at as int, player));
                let chosen = choose|i: int| is_batch_of(batches@, i, player);
                assert(batch_players(batches@)[chosen] == batch_players(batches@)[at as int]);
                assert(chosen == at);
            }
            return batches[at].message_index_in_phase(phase);
        }
        at += 1;
    }
    None
}

/// The frames of one phase, in the order of the reservations.
pub fn collect_phase_frames(
    batches: &Vec<RoomRecipientMessages>,
    reservations: &Vec<QueueReservation>,
    phase: usize,
) -> (frames: Vec<PhaseFrame>)
    requires
        batch_players(batches@).no_duplicates(),
    ensures
        frames@ == phase_frames(batches@, reservations@, phase as int),
{
    let mut frames: Vec<PhaseFrame> = Vec::new();
    let mut index: usize = 0;
    while index < reservations.len()
        invariant
            index <= reservations.len(),
            batch_players(batches@).no_duplicates(),
            frames@ == phase_frames(batches@, reservations@.take(index as int), phase as int),
        decreases reservations.len() - index,
    {
        assert(reservations@.take(index + 1).drop_last() =~= reservations@.take(index as int));
        if let QueueReservation::Reserved { player_id, .. } = reservations[index] {
            if let Some(message_index) = find_frame(batches, player_id, phase) {
                frames.push(PhaseFrame { player_id, message_index });
            }
        }
        index += 1;
    }
    assert(reservations@.take(index as int) =~= reservations@);
    frames
}

/// The number of frames that did not reach their queue.
pub open spec fn failed_count(receipts: Seq<SendReceipt>) -> nat
    decreases receipts.len(),
{
    if receipts.len() == 0 {
        0
    } else {
        failed_count(receipts.drop_last()) + (if receipts.last() is Enqueued {
            0nat
        } else {
            1nat
        })
    }
}

/// The number of frames that did not reach their queue.
pub fn count_failed(receipts: &Vec<SendReceipt>) -> (failed: usize)
    ensures
        failed == failed_count(receipts@),
        failed <= receipts@.len(),
{
    let mut failed: usize = 0;
    let mut index: usize = 0;
    while index < receipts.len()
        invariant
            index <= receipts.len(),
            failed <= index,
            failed == failed_count(receipts@.take(index as int)),
        decreases receipts.len() - index,
    {
        assert(receipts@.take(index + 1).drop_last() =~= receipts@.take(index as int));
        if receipts[index] != SendReceipt::Enqueued {
            failed += 1;
        }
        index += 1;
    }
    assert(receipts@.take(index as int) =~= receipts@);
    failed
}

/// How a room transaction ends.
#[derive(Clone, Copy, Debug, PartialEq, Eq, Structural)]
pub enum RoomMessageTransactionOutcome {
    /// Every frame was published.
    Committed,
    /// The hook committed, but some frames did not reach their recipients.
    CommittedDegraded { failed_frames: usize },
    /// The hook refused; nothing was published.
    HookRejected,
    /// The room's membership or a recipient's queue is not the expected one;
    /// nothing was published and the hook did not run.
    RoutingChanged,
}

/// What the commit hook answered.
#[derive(Clone, Copy, Debug, PartialEq, Eq, Structural)]
pub enum HookAnswer {
    Accepted,
    Rejected,
    Failed,
}

/// What has been observed of one round of a room transaction.
#[derive(Debug)]
pub struct TransactionProgress {
    pub reservations: Option<Vec<QueueReservation>>,
    pub hook: Option<HookAnswer>,
    /// The answers to the frames of the first phase.
    pub first_phase: Option<Vec<SendReceipt>>,
    /// Whether the publication goes on after the first phase.
    pub continue_publication: Option<bool>,
    /// The answers to the frames of the second phase.
    pub second_phase: Option<Vec<SendReceipt>>,
}

/// The next step of a room transaction. `canceled` counts the frames whose
/// permits are given back and recorded as canceled.
#[derive(Clone, Copy, Debug, PartialEq, Eq, Structural)]
pub enum TransactionStep {
    /// Reserve every member for all its frames.
    Reserve,
    /// Start over with fresh recipients; the hook has not run.
    Retry { canceled: usize },
    /// Run the commit hook, with the routing held still.
    RunHook,
    /// Send the frames of the first phase.
    PublishFirstPhase,
    /// Report the failures of the first phase, and ask whether to go on.
    AskContinuation { failed: usize },
    /// Send the frames of the second phase.
    PublishSecondPhase,
    /// The hook's error ends the transaction; nothing was published.
    HookError { canceled: usize },
    /// The transaction is settled.
    Done { outcome: RoomMessageTransactionOutcome, canceled: usize },
}

/// How a publication with so many failed frames is reported.
pub open spec fn publication_outcome(failed: int) -> RoomMessageTransactionOutcome {
    if failed == 0 {
        RoomMessageTransactionOutcome::Committed
    } else {
        RoomMessageTransactionOutcome::CommittedDegraded { failed_frames: capped(failed) }
    }
}

impl TransactionProgress {
    pub fn new() -> (progress: Self)
        ensures
            progress.reservations is None,
            progress.hook is None,
            progress.first_phase is None,
            progress.continue_publication is None,
            progress.second_phase is None,
    {
        TransactionProgress {
            reservations: None,
            hook: None,
            first_phase: None,
            continue_publication: None,
            second_phase: None,
        }
    }

    /// Whether some member takes no more frames.
    pub open spec fn has_unavailable(reservations: Seq<QueueReservation>) -> bool {
        exists|i: int|
            0 <= i < reservations.len() && crate::broadcast::names_unavailable(
                #[trigger] reservations[i],
                Unavailable::SlowOrClosing,
            )
    }

    /// The step that follows once the hook accepted.
    pub open spec fn step_of_publication(
        self,
        batches: Seq<RoomRecipientMessages>,
        reservations: Seq<QueueReservation>,
    ) -> TransactionStep {
        let later = phase_frames(batches, reservations, 1).len() as int;
        match self.first_phase {
            None => TransactionStep::PublishFirstPhase,
            Some(first) => match self.continue_publication {
                None => TransactionStep::AskContinuation {
                    failed: failed_count(first@) as usize,
                },
                Some(false) => TransactionStep::Done {
                    outcome: publication_outcome(failed_count(first@) + later),
                    canceled: capped(later),
                },
                Some(true) => if later == 0 {
                    TransactionStep::Done {
                        outcome: publication_outcome(failed_count(first@) as int),
                        canceled: 0,
                    }
                } else {
                    match self.second_phase {
                        None => TransactionStep::PublishSecondPhase,
                        Some(second) => TransactionStep::Done {
                            outcome: publication_outcome(
                                (failed_count(first@) + failed_count(second@)) as int,
                            ),
                            canceled: 0,
                        },
                    }
                },
            },
        }
    }

    /// The next step of a room transaction over validated batches.
    pub open spec fn spec_step(
        self,
        room: RoomId,
        expected: Seq<PlayerId>,
        batches: Seq<RoomRecipientMessages>,
        view: crate::routing::RoutingView,
    ) -> TransactionStep {
        match self.reservations {
            None => if crate::identifiers::lists_exactly(expected, view.recipients(room, None)) {
                TransactionStep::Reserve
            } else {
                TransactionStep::Done {
                    outcome: RoomMessageTransactionOutcome::RoutingChanged,
                    canceled: 0,
                }
            },
            Some(reservations) => {
                let canceled = capped(held_frames(batches, reservations@));
                match self.hook {
                    None => if reservations@.contains(QueueReservation::Canceled)
                        || Self::has_unavailable(reservations@) {
                        TransactionStep::Retry { canceled }
                    } else if crate::identifiers::lists_exactly(
                        expected,
                        view.recipients(room, None),
                    ) && crate::broadcast::covers_recipients(
                        view,
                        room,
                        None,
                        reservations@,
                        false,
                    ) {
                        TransactionStep::RunHook
                    } else {
                        TransactionStep::Done {
                            outcome: RoomMessageTransactionOutcome::RoutingChanged,
                            canceled,
                        }
                    },
                    Some(HookAnswer::Rejected) => TransactionStep::Done {
                        outcome: RoomMessageTransactionOutcome::HookRejected,
                        canceled,
                    },
                    Some(HookAnswer::Failed) => TransactionStep::HookError { canceled },
                    Some(HookAnswer::Accepted) => self.step_of_publication(batches, reservations@),
                }
            },
        }
    }

    /// Whether this step drops members that take no more frames from routing.
    pub open spec fn prunes(self) -> bool {
        &&& self.hook is None
        &&& match self.reservations {
            Some(reservations) => !reservations@.contains(QueueReservation::Canceled)
                && Self::has_unavailable(reservations@),
            None => false,
        }
    }
}

/// The next step of a room transaction, or why there is none.
pub open spec fn checked_step(
    progress: TransactionProgress,
    room: RoomId,
    expected: Seq<PlayerId>,
    batches: Seq<RoomRecipientMessages>,
    view: crate::routing::RoutingView,
) -> Result<TransactionStep, RoomTransactionError> {
    match transaction_refusal(expected, batches) {
        Some(error) => Err(error),
        None => Ok(progress.spec_step(room, expected, batches, view)),
    }
}

/// The routing after the next step of a room transaction.
pub open spec fn routing_after_step(
    progress: TransactionProgress,
    expected: Seq<PlayerId>,
    batches: Seq<RoomRecipientMessages>,
    view: crate::routing::RoutingView,
) -> crate::routing::RoutingView {
    if transaction_refusal(expected, batches) is None && progress.prunes() {
        crate::broadcast::without_unavailable(
            view,
            progress.reservations->0@,
            Unavailable::SlowOrClosing,
        )
    } else {
        view
    }
}

/// How a publication with so many failed frames is reported.
fn outcome_of_publication(failed: usize) -> (outcome: RoomMessageTransactionOutcome)
    ensures
        outcome == publication_outcome(failed as int),
{
    if failed == 0 {
        RoomMessageTransactionOutcome::Committed
    } else {
        RoomMessageTransactionOutcome::CommittedDegraded { failed_frames: failed }
    }
}

/// Whether some member takes no more frames.
fn has_unavailable(reservations: &Vec<QueueReservation>) -> (unavailable: bool)
    ensures
        unavailable == TransactionProgress::has_unavailable(reservations@),
{
    let mut index: usize = 0;
    while index < reservations.len()
        invariant
            index <= reservations.len(),
            forall|i: int|
                0 <= i < index ==> !crate::broadcast::names_unavailable(
                    #[trigger] reservations@[i],
                    Unavailable::SlowOrClosing,
                ),
        decreases reservations.len() - index,
    {
        let found = match reservations[index] {
            QueueReservation::SlowConsumer { .. } | QueueReservation::ChannelClosed { .. } => true,
            _ => false,
        };
        if found {
            assert(crate::broadcast::names_unavailable(
                reservations@[index as int],
                Unavailable::SlowOrClosing,
            ));
            return true;
        }
        index += 1;
    }
    false
}

impl InMemoryMessageCoordinator {
    /// The next step of a room transaction. Nothing is reserved, run, or
    /// published for one that is refused. Members found to take no more frames
    /// on the way are dropped from routing.
    pub fn commit_room_messages_if_members_with_hook(
        &mut self,
        room_id: RoomId,
        expected_members: &Vec<PlayerId>,
        batches: &Vec<RoomRecipientMessages>,
        progress: &TransactionProgress,
    ) -> (step: Result<TransactionStep, RoomTransactionError>)
        ensures
            step == checked_step(
                *progress,
                room_id,
                expected_members@,
                batches@,
                old(self)@,
            ),
            final(self)@ == routing_after_step(
                *progress,
                expected_members@,
                batches@,
                old(self)@,
            ),
            old(self)@.wf() ==> final(self)@.wf(),
    {
        match validate_room_transaction(expected_members, batches) {
            Err(refusal) => Err(refusal),
            Ok(_) => Ok(self.transaction_step(room_id, expected_members, batches, progress)),
        }
    }

    /// The next step of a room transaction over batches that passed
    /// [`validate_room_transaction`].
    fn transaction_step(
        &mut self,
        room_id: RoomId,
        expected_members: &Vec<PlayerId>,
        batches: &Vec<RoomRecipientMessages>,
        progress: &TransactionProgress,
    ) -> (step: TransactionStep)
        requires
            transaction_refusal(expected_members@, batches@) is None,
        ensures
            step == progress.spec_step(room_id, expected_members@, batches@, old(self)@),
            final(self)@ == (if progress.prunes() {
                crate::broadcast::without_unavailable(
                    old(self)@,
                    progress.reservations->0@,
                    Unavailable::SlowOrClosing,
                )
            } else {
                old(self)@
            }),
            old(self)@.wf() ==> final(self)@.wf(),
    {
        let reservations = match &progress.reservations {
            None => {
                return if self.routed_membership_is(room_id, None, expected_members) {
                    TransactionStep::Reserve
                } else {
                    TransactionStep::Done {
                        outcome: RoomMessageTransactionOutcome::RoutingChanged,
                        canceled: 0,
                    }
                };
            },
            Some(reservations) => reservations,
        };
        let earlier: usize = collect_phase_frames(batches, reservations, 0).len();
        let later: usize = collect_phase_frames(batches, reservations, 1).len();
        let canceled: usize = earlier.saturating_add(later);
        match progress.hook {
            None => {
                if any_canceled(reservations) {
                    return TransactionStep::Retry { canceled };
                }
                if has_unavailable(reservations) {
                    let _ = self.prune_unavailable(reservations, Unavailable::SlowOrClosing);
                    return TransactionStep::Retry { canceled };
                }
                if self.routed_membership_is(room_id, None, expected_members)
                    && self.reservations_cover_recipients(room_id, None, reservations, false) {
                    TransactionStep::RunHook
                } else {
                    TransactionStep::Done {
                        outcome: RoomMessageTransactionOutcome::RoutingChanged,
                        canceled,
                    }
                }
            },
            Some(HookAnswer::Rejected) => TransactionStep::Done {
                outcome: RoomMessageTransactionOutcome::HookRejected,
                canceled,
            },
            Some(HookAnswer::Failed) => TransactionStep::HookError { canceled },
            Some(HookAnswer::Accepted) => {
                let first = match &progress.first_phase {
                    None => {
                        return TransactionStep::PublishFirstPhase;
                    },
                    Some(first) => first,
                };
                let failed_first = count_failed(first);
                match progress.continue_publication {
                    None => TransactionStep::AskContinuation { failed: failed_first },
                    Some(false) => TransactionStep::Done {
                        outcome: outcome_of_publication(failed_first.saturating_add(later)),
                        canceled: later,
                    },
                    Some(true) => {
                        if later == 0 {
                            return TransactionStep::Done {
                                outcome: outcome_of_publication(failed_first),
                                canceled: 0,
                            };
                        }
                        match &progress.second_phase {
                            None => TransactionStep::PublishSecondPhase,
                            Some(second) => TransactionStep::Done {
                                outcome: outcome_of_publication(
                                    failed_first.saturating_add(count_failed(second)),
                                ),
                                canceled: 0,
                            },
                        }
                    },
                }
            },
        }
    }
}

/// No frame of the second phase goes out before the first phase has been sent
/// and found good to continue, and no frame at all before the hook accepted.
pub proof fn law_phases_are_ordered(
    progress: TransactionProgress,
    room: RoomId,
    expected: Seq<PlayerId>,
    batches: Seq<RoomRecipientMessages>,
    view: crate::routing::RoutingView,
)
    ensures
        progress.spec_step(room, expected, batches, view) is PublishFirstPhase ==> progress.hook
            == Some(HookAnswer::Accepted) && progress.first_phase is None,
        progress.spec_step(room, expected, batches, view) is PublishSecondPhase ==> progress.hook
            == Some(HookAnswer::Accepted) && progress.first_phase is Some
            && progress.continue_publication == Some(true) && progress.second_phase is None,
{
}

/// Two lists with the same items name the same members, and repeat one
/// together.
proof fn lemma_same_items<T>(items: Seq<T>, others: Seq<T>)
    requires
        items.to_multiset() == others.to_multiset(),
    ensures
        items.len() == others.len(),
        items.to_set() == others.to_set(),
        items.no_duplicates() ==> others.no_duplicates(),
{
    broadcast use vstd::seq_lib::group_to_multiset_ensures;

    assert(items.to_multiset().len() == items.len());
    assert(others.to_multiset().len() == others.len());
    assert(items.to_set() =~= others.to_set()) by {
        assert forall|item: T| items.contains(item) == others.contains(item) by {
            assert(items.contains(item) <==> items.to_multiset().count(item) > 0);
            assert(others.contains(item) <==> others.to_multiset().count(item) > 0);
        }
    }
    if items.no_duplicates() {
        items.unique_seq_to_set();
        others.lemma_no_dup_set_cardinality();
    }
}

/// Two lists of batches with the same batches name the same players, equally
/// often.
proof fn lemma_same_batch_players(
    batches: Seq<RoomRecipientMessages>,
    others: Seq<RoomRecipientMessages>,
)
    requires
        batches.to_multiset() == others.to_multiset(),
    ensures
        batch_players(batches).to_multiset() == batch_players(others).to_multiset(),
    decreases batches.len(),
{
    broadcast use vstd::seq_lib::group_to_multiset_ensures;

    lemma_same_items(batches, others);
    if batches.len() == 0 {
        assert(batch_players(batches) =~= batch_players(others));
    } else {
        let last = batches.last();
        let shorter = batches.drop_last();
        assert(batches =~= shorter.push(last));
        assert(batches.to_multiset() =~= shorter.to_multiset().insert(last));
        assert(others.to_multiset().count(last) > 0);
        assert(others.contains(last));
        let at = choose|i: int| 0 <= i < others.len() && others[i] == last;
        let rest = others.remove(at);
        assert(rest.to_multiset() =~= others.to_multiset().remove(last));
        assert(rest.to_multiset() =~= shorter.to_multiset());
        lemma_same_batch_players(shorter, rest);
        assert(batch_players(batches) =~= batch_players(shorter).push(last.player_id));
        assert(batch_players(others).remove(at) =~= batch_players(rest));
        assert(batch_players(others)[at] == last.player_id);
        assert(batch_players(rest).to_multiset() =~= batch_players(
            others,
        ).to_multiset().remove(last.player_id));
        assert(batch_players(others).contains(last.player_id));
        assert(batch_players(batches).to_multiset() =~= batch_players(others).to_multiset());
    }
}

/// What decides over a transaction holds for the same batches in another order.
proof fn lemma_batches_in_another_order(
    batches: Seq<RoomRecipientMessages>,
    others: Seq<RoomRecipientMessages>,
)
    requires
        batches.to_multiset() == others.to_multiset(),
    ensures
        holds_a_frame(batches) ==> holds_a_frame(others),
        within_two_phases(batches) ==> within_two_phases(others),
{
    lemma_same_items(batches, others);
    if holds_a_frame(batches) {
        let at = choose|i: int|
            0 <= i < batches.len() && (#[trigger] batches[i]).messages@.len() > 0;
        assert(batches.to_set().contains(batches[at]));
        let there = choose|i: int| 0 <= i < others.len() && others[i] == batches[at];
        assert(others[there].messages@.len() > 0);
    }
    if within_two_phases(batches) {
        assert forall|i: int| 0 <= i < others.len() implies (#[trigger] others[i]).first_phase <= 1
            && others[i].first_phase + others[i].messages@.len() <= 2 by {
            assert(others.to_set().contains(others[i]));
            let back = choose|j: int| 0 <= j < batches.len() && batches[j] == others[i];
            assert(batches[back].first_phase <= 1);
        }
    }
}

/// The order in which the expected members and the batches are listed does not
/// decide whether, or why, a transaction is refused.
pub proof fn law_refusals_ignore_the_order(
    expected: Seq<PlayerId>,
    batches: Seq<RoomRecipientMessages>,
    other_expected: Seq<PlayerId>,
    other_batches: Seq<RoomRecipientMessages>,
)
    requires
        expected.to_multiset() == other_expected.to_multiset(),
        batches.to_multiset() == other_batches.to_multiset(),
    ensures
        transaction_refusal(expected, batches) == transaction_refusal(
            other_expected,
            other_batches,
        ),
{
    lemma_same_items(expected, other_expected);
    lemma_same_items(other_expected, expected);
    lemma_same_batch_players(batches, other_batches);
    lemma_same_items(batch_players(batches), batch_players(other_batches));
    lemma_same_items(batch_players(other_batches), batch_players(batches));
    lemma_batches_in_another_order(batches, other_batches);
    lemma_batches_in_another_order(other_batches, batches);
}

/// Batches in another order, one for each player, hand every player the same
/// frames.
proof fn lemma_same_frames(
    batches: Seq<RoomRecipientMessages>,
    others: Seq<RoomRecipientMessages>,
    reservations: Seq<QueueReservation>,
    phase: int,
)
    requires
        batches.to_multiset() == others.to_multiset(),
        batch_players(batches).no_duplicates(),
    ensures
        phase_frames(batches, reservations, phase) == phase_frames(others, reservations, phase),
    decreases reservations.len(),
{
    if reservations.len() > 0 {
        lemma_same_frames(batches, others, reservations.drop_last(), phase);
        if let QueueReservation::Reserved { player_id, .. } = reservations.last() {
            lemma_same_items(batches, others);
            if exists|at: int| is_batch_of(others, at, player_id) {
                let there = choose|at: int| is_batch_of(others, at, player_id);
                assert(others.to_set().contains(others[there]));
                let back = choose|i: int| 0 <= i < batches.len() && batches[i] == others[there];
                assert(is_batch_of(batches, back, player_id));
                let at = choose|at: int| is_batch_of(batches, at, player_id);
                assert(batch_players(batches)[at] == batch_players(batches)[back]);
            } else if exists|at: int| is_batch_of(batches, at, player_id) {
                let at = choose|at: int| is_batch_of(batches, at, player_id);
                assert(batches.to_set().contains(batches[at]));
                let there = choose|i: int| 0 <= i < others.len() && others[i] == batches[at];
                assert(is_batch_of(others, there, player_id));
            }
        }
    }
}

/// The order in which the expected members and the batches are listed changes
/// no step of a transaction, no frame it publishes, and no routing it leaves.
pub proof fn law_transactions_ignore_the_order(
    progress: TransactionProgress,
    room: RoomId,
    expected: Seq<PlayerId>,
    batches: Seq<RoomRecipientMessages>,
    other_expected: Seq<PlayerId>,
    other_batches: Seq<RoomRecipientMessages>,
    view: crate::routing::RoutingView,
)
    requires
        expected.to_multiset() == other_expected.to_multiset(),
        batches.to_multiset() == other_batches.to_multiset(),
    ensures
        checked_step(progress, room, expected, batches, view) == checked_step(
            progress,
            room,
            other_expected,
            other_batches,
            view,
        ),
        routing_after_step(progress, expected, batches, view) == routing_after_step(
            progress,
            other_expected,
            other_batches,
            view,
        ),
        transaction_refusal(expected, batches) is None ==> forall|
            reservations: Seq<QueueReservation>,
            phase: int,
        | #[trigger]
            phase_frames(batches, reservations, phase) == phase_frames(
                other_batches,
                reservations,
                phase,
            ),
{
    law_refusals_ignore_the_order(expected, batches, other_expected, other_batches);
    if transaction_refusal(expected, batches) is None {
        lemma_same_items(expected, other_expected);
        lemma_same_items(other_expected, expected);
        assert forall|reservations: Seq<QueueReservation>, phase: int| #[trigger]
            phase_frames(batches, reservations, phase) == phase_frames(
                other_batches,
                reservations,
                phase,
            ) by {
            lemma_same_frames(batches, other_batches, reservations, phase);
        }
    }
}

/// A refused transaction runs no hook, reserves and publishes nothing, and
/// leaves the routing as it is.
pub proof fn law_refused_transactions_do_nothing(
    progress: TransactionProgress,
    room: RoomId,
    expected: Seq<PlayerId>,
    batches: Seq<RoomRecipientMessages>,
    view: crate::routing::RoutingView,
)
    ensures
        checked_step(progress, room, expected, batches, view) is Err <==> transaction_refusal(
            expected,
            batches,
        ) is Some,
        transaction_refusal(expected, batches) is Some ==> routing_after_step(
            progress,
            expected,
            batches,
            view,
        ) == view,
{
}

/// Every step of a round asks for something not observed yet, so a round ends
/// after finitely many observations.
pub proof fn law_transaction_rounds_make_progress(
    progress: TransactionProgress,
    room: RoomId,
    expected: Seq<PlayerId>,
    batches: Seq<RoomRecipientMessages>,
    view: crate::routing::RoutingView,
)
    ensures
        match progress.spec_step(room, expected, batches, view) {
            TransactionStep::Reserve => progress.reservations is None,
            TransactionStep::RunHook => progress.hook is None,
            TransactionStep::PublishFirstPhase => progress.first_phase is None,
            TransactionStep::AskContinuation { .. } => progress.continue_publication is None,
            TransactionStep::PublishSecondPhase => progress.second_phase is None,
            TransactionStep::Retry { .. } | TransactionStep::HookError { .. }
            | TransactionStep::Done { .. } => true,
        },
{
}

/// The hook runs only while the room's membership is exactly the expected one
/// and every member is reserved on its current queue.
pub proof fn law_transaction_hook_runs_only_when_covered(
    progress: TransactionProgress,
    room: RoomId,
    expected: Seq<PlayerId>,
    batches: Seq<RoomRecipientMessages>,
    view: crate::routing::RoutingView,
)
    requires
        progress.spec_step(room, expected, batches, view) is RunHook,
    ensures
        crate::identifiers::lists_exactly(expected, view.recipients(room, None)),
        progress.reservations matches Some(reservations)
            && crate::broadcast::covers_recipients(view, room, None, reservations@, false),
        progress.hook is None,
{
}

/// A rejected or failed hook publishes nothing: every held permit is given
/// back.
pub proof fn law_refused_hooks_publish_nothing(
    progress: TransactionProgress,
    room: RoomId,
    expected: Seq<PlayerId>,
    batches: Seq<RoomRecipientMessages>,
    view: crate::routing::RoutingView,
    reservations: Vec<QueueReservation>,
)
    requires
        progress.reservations == Some(reservations),
        progress.hook == Some(HookAnswer::Rejected) || progress.hook == Some(HookAnswer::Failed),
    ensures
        match progress.spec_step(room, expected, batches, view) {
            TransactionStep::Done { outcome, canceled } => outcome is HookRejected && canceled
                == capped(held_frames(batches, reservations@)),
            TransactionStep::HookError { canceled } => canceled == capped(
                held_frames(batches, reservations@),
            ),
            _ => false,
        },
{
}

proof fn lemma_no_failure_means_all_enqueued(receipts: Seq<SendReceipt>)
    ensures
        failed_count(receipts) == 0 <==> forall|i: int|
            0 <= i < receipts.len() ==> (#[trigger] receipts[i]) is Enqueued,
    decreases receipts.len(),
{
    if receipts.len() > 0 {
        lemma_no_failure_means_all_enqueued(receipts.drop_last());
        if failed_count(receipts) == 0 {
            assert forall|i: int| 0 <= i < receipts.len() implies (#[trigger] receipts[i]) is Enqueued by {
                if i < receipts.len() - 1 {
                    assert(receipts.drop_last()[i] == receipts[i]);
                }
            }
        } else if forall|i: int| 0 <= i < receipts.len() ==> (#[trigger] receipts[i]) is Enqueued {
            assert forall|i: int| 0 <= i < receipts.drop_last().len() implies (
            #[trigger] receipts.drop_last()[i]) is Enqueued by {
                assert(receipts[i] is Enqueued);
            }
        }
    }
}

/// A transaction counts as committed, not degraded, exactly when every frame
/// of both phases reached its queue.
pub proof fn law_committed_means_every_frame_arrived(
    progress: TransactionProgress,
    room: RoomId,
    expected: Seq<PlayerId>,
    batches: Seq<RoomRecipientMessages>,
    view: crate::routing::RoutingView,
    reservations: Vec<QueueReservation>,
    first: Vec<SendReceipt>,
    second: Vec<SendReceipt>,
)
    requires
        progress.reservations == Some(reservations),
        progress.hook == Some(HookAnswer::Accepted),
        progress.first_phase == Some(first),
        progress.continue_publication == Some(true),
        progress.second_phase == Some(second),
        second@.len() == phase_frames(batches, reservations@, 1).len(),
    ensures
        progress.spec_step(room, expected, batches, view) == (TransactionStep::Done {
            outcome: RoomMessageTransactionOutcome::Committed,
            canceled: 0,
        }) <==> (forall|i: int| 0 <= i < first@.len() ==> (#[trigger] first@[i]) is Enqueued) && (
        forall|i: int| 0 <= i < second@.len() ==> (#[trigger] second@[i]) is Enqueued),
{
    lemma_no_failure_means_all_enqueued(first@);
    lemma_no_failure_means_all_enqueued(second@);
}

/// A failure count is the number of receipts that do not say `Enqueued`.
pub proof fn law_failures_are_the_frames_that_were_not_enqueued(receipts: Seq<SendReceipt>)
    ensures
        failed_count(receipts) == receipts.filter(
            |receipt: SendReceipt| receipt != SendReceipt::Enqueued,
        ).len(),
        failed_count(receipts) <= receipts.len(),
        failed_count(receipts) == 0 <==> forall|i: int|
            0 <= i < receipts.len() ==> #[trigger] receipts[i] == SendReceipt::Enqueued,
        failed_count(receipts) == receipts.len() <==> !receipts.contains(SendReceipt::Enqueued),
    decreases receipts.len(),
{
    reveal(Seq::filter);
    if receipts.len() > 0 {
        let shorter = receipts.drop_last();
        law_failures_are_the_frames_that_were_not_enqueued(shorter);
        if failed_count(receipts) == 0 {
            assert forall|i: int| 0 <= i < receipts.len() implies #[trigger] receipts[i]
                == SendReceipt::Enqueued by {
                if i < shorter.len() {
                    assert(shorter[i] == receipts[i]);
                }
            }
        }
        if forall|i: int|
            0 <= i < receipts.len() ==> #[trigger] receipts[i] == SendReceipt::Enqueued {
            assert forall|i: int| 0 <= i < shorter.len() implies #[trigger] shorter[i]
                == SendReceipt::Enqueued by {
                assert(shorter[i] == receipts[i]);
            }
            assert(receipts[receipts.len() - 1] == SendReceipt::Enqueued);
        }
        if receipts.contains(SendReceipt::Enqueued) {
            let at = choose|i: int| 0 <= i < receipts.len() && receipts[i] == SendReceipt::Enqueued;
            if at < shorter.len() {
                assert(shorter[at] == SendReceipt::Enqueued);
            }
        }
        if shorter.contains(SendReceipt::Enqueued) {
            let at = choose|i: int| 0 <= i < shorter.len() && shorter[i] == SendReceipt::Enqueued;
            assert(receipts[at] == SendReceipt::Enqueued);
        }
        if receipts.last() == SendReceipt::Enqueued {
            assert(receipts[receipts.len() - 1] == SendReceipt::Enqueued);
        }
    }
}

/// The continuation is asked exactly once the hook accepted and the first phase
/// is out, and it is told how many frames of that phase did not reach their
/// queue: none exactly if all of them did.
pub proof fn law_continuations_hear_of_every_failure(
    progress: TransactionProgress,
    room: RoomId,
    expected: Seq<PlayerId>,
    batches: Seq<RoomRecipientMessages>,
    view: crate::routing::RoutingView,
    failed: usize,
)
    requires
        transaction_refusal(expected, batches) is None,
    ensures
        checked_step(progress, room, expected, batches, view) == Ok::<
            TransactionStep,
            RoomTransactionError,
        >(TransactionStep::AskContinuation { failed }) <==> progress.reservations is Some
            && progress.hook == Some(HookAnswer::Accepted) && progress.first_phase is Some
            && progress.continue_publication is None && failed == progress.first_phase->0@.filter(
            |receipt: SendReceipt| receipt != SendReceipt::Enqueued,
        ).len(),
        checked_step(progress, room, expected, batches, view) == Ok::<
            TransactionStep,
            RoomTransactionError,
        >(TransactionStep::AskContinuation { failed }) ==> (failed == 0 <==> forall|i: int|
            0 <= i < progress.first_phase->0@.len() ==> #[trigger] progress.first_phase->0@[i]
                == SendReceipt::Enqueued),
{
    if let Some(first) = progress.first_phase {
        law_failures_are_the_frames_that_were_not_enqueued(first@);
        assert(first@.len() == first.len());
    }
}

/// A transaction is refused with each error exactly for its own reason: members
/// must be named, and once each; every member must have exactly one batch; some
/// batch must hold a frame; and no batch may reach past the second phase.
pub proof fn law_transactions_are_refused_for_a_reason(
    expected: Seq<PlayerId>,
    batches: Seq<RoomRecipientMessages>,
)
    ensures
        ({
            let refusal = transaction_refusal(expected, batches);
            let unique = expected.len() > 0 && forall|i: int, j: int|
                0 <= i < j < expected.len() ==> #[trigger] expected[i] != #[trigger] expected[j];
            let one_each = (forall|i: int, j: int|
                0 <= i < j < batches.len() ==> (#[trigger] batches[i]).player_id != (
                #[trigger] batches[j]).player_id) && (forall|i: int|
                0 <= i < batches.len() ==> expected.contains((#[trigger] batches[i]).player_id)) && (
            forall|i: int|
                0 <= i < expected.len() ==> exists|j: int|
                    0 <= j < batches.len() && (#[trigger] batches[j]).player_id
                        == #[trigger] expected[i]);
            let framed = exists|i: int|
                0 <= i < batches.len() && (#[trigger] batches[i]).messages@.len() >= 1;
            let two_phases = forall|i: int|
                0 <= i < batches.len() ==> (#[trigger] batches[i]).first_phase <= 1
                    && batches[i].first_phase + batches[i].messages@.len() <= 2;
            &&& refusal == Some(RoomTransactionError::MembershipNotUnique) <==> !unique
            &&& refusal == Some(RoomTransactionError::BatchesDoNotCover) <==> unique && !one_each
            &&& refusal == Some(RoomTransactionError::NoFrames) <==> unique && one_each && !framed
            &&& refusal == Some(RoomTransactionError::UnsupportedPhases) <==> unique && one_each
                && framed && !two_phases
            &&& refusal is None <==> unique && one_each && framed && two_phases
        }),
{
    let players = batch_players(batches);
    let unique = expected.len() > 0 && forall|i: int, j: int|
        0 <= i < j < expected.len() ==> #[trigger] expected[i] != #[trigger] expected[j];
    assert(unique <==> expected.len() > 0 && expected.no_duplicates());
    assert(players.len() == batches.len());
    assert(forall|i: int| 0 <= i < batches.len() ==> players[i] == (#[trigger] batches[i]).player_id);
    let distinct = forall|i: int, j: int|
        0 <= i < j < batches.len() ==> (#[trigger] batches[i]).player_id != (
        #[trigger] batches[j]).player_id;
    assert(distinct <==> players.no_duplicates()) by {
        if distinct {
            assert forall|i: int, j: int|
                0 <= i < players.len() && 0 <= j < players.len() && i != j implies players[i]
                != players[j] by {
                if i < j {
                    assert(batches[i].player_id != batches[j].player_id);
                } else {
                    assert(batches[j].player_id != batches[i].player_id);
                }
            }
        }
        if players.no_duplicates() {
            assert forall|i: int, j: int| 0 <= i < j < batches.len() implies (
            #[trigger] batches[i]).player_id != (#[trigger] batches[j]).player_id by {
                assert(players[i] != players[j]);
            }
        }
    }
    let within = forall|i: int|
        0 <= i < batches.len() ==> expected.contains((#[trigger] batches[i]).player_id);
    let covered = forall|i: int|
        0 <= i < expected.len() ==> exists|j: int|
            0 <= j < batches.len() && (#[trigger] batches[j]).player_id == #[trigger] expected[i];
    assert(within && covered <==> players.to_set() == expected.to_set()) by {
        if within && covered {
            assert forall|player: PlayerId| players.contains(player) == expected.contains(
                player,
            ) by {
                if players.contains(player) {
                    let i = choose|i: int| 0 <= i < players.len() && players[i] == player;
                    assert(batches[i].player_id == player);
                }
                if expected.contains(player) {
                    let i = choose|i: int| 0 <= i < expected.len() && expected[i] == player;
                    let j = choose|j: int|
                        0 <= j < batches.len() && (#[trigger] batches[j]).player_id == expected[i];
                    assert(players[j] == player);
                }
            }
            assert(players.to_set() =~= expected.to_set());
        }
        if players.to_set() == expected.to_set() {
            assert forall|i: int| 0 <= i < batches.len() implies expected.contains(
                (#[trigger] batches[i]).player_id,
            ) by {
                assert(players[i] == batches[i].player_id);
                assert(players.to_set().contains(players[i]));
            }
            assert forall|i: int| 0 <= i < expected.len() implies exists|j: int|
                0 <= j < batches.len() && (#[trigger] batches[j]).player_id
                    == #[trigger] expected[i] by {
                assert(expected.to_set().contains(expected[i]));
                assert(players.contains(expected[i]));
                let j = choose|j: int| 0 <= j < players.len() && players[j] == expected[i];
                assert(batches[j].player_id == expected[i]);
            }
        }
    }
    let framed = exists|i: int|
        0 <= i < batches.len() && (#[trigger] batches[i]).messages@.len() >= 1;
    assert(framed <==> holds_a_frame(batches)) by {
        if framed {
            let i = choose|i: int|
                0 <= i < batches.len() && (#[trigger] batches[i]).messages@.len() >= 1;
            assert(batches[i].messages@.len() > 0);
        }
        if holds_a_frame(batches) {
            let i = choose|i: int|
                0 <= i < batches.len() && (#[trigger] batches[i]).messages@.len() > 0;
            assert(batches[i].messages@.len() >= 1);
        }
    }
    assert(distinct && within && covered <==> crate::identifiers::lists_exactly(
        players,
        expected.to_set(),
    ));
}

/// The frames of one phase are, reservation by reservation, the messages of the
/// reserved members that fall into it: the message at position `index` of a
/// batch goes out in the phase `index` phases after the first of its batch.
pub proof fn law_phases_hold_the_messages_in_their_turn(
    batches: Seq<RoomRecipientMessages>,
    reservations: Seq<QueueReservation>,
    phase: int,
    player: PlayerId,
    index: usize,
)
    requires
        batch_players(batches).no_duplicates(),
    ensures
        phase_frames(batches, reservations, phase).contains(
            PhaseFrame { player_id: player, message_index: index },
        ) <==> (exists|i: int|
            0 <= i < reservations.len() && (#[trigger] reservations[i] matches QueueReservation::Reserved {
                player_id,
                ..
            } && player_id == player)) && (exists|j: int|
            0 <= j < batches.len() && (#[trigger] batches[j]).player_id == player && index
                < batches[j].messages@.len() && batches[j].first_phase + index == phase),
        phase_frames(batches, reservations, phase).len() <= reservations.len(),
    decreases reservations.len(),
{
    let frame = PhaseFrame { player_id: player, message_index: index };
    let frames = phase_frames(batches, reservations, phase);
    let due = exists|j: int|
        0 <= j < batches.len() && (#[trigger] batches[j]).player_id == player && index
            < batches[j].messages@.len() && batches[j].first_phase + index == phase;
    if reservations.len() > 0 {
        let shorter = reservations.drop_last();
        let earlier = phase_frames(batches, shorter, phase);
        law_phases_hold_the_messages_in_their_turn(batches, shorter, phase, player, index);
        let reserved_earlier = exists|i: int|
            0 <= i < shorter.len() && (#[trigger] shorter[i] matches QueueReservation::Reserved {
                player_id,
                ..
            } && player_id == player);
        let reserved_now = exists|i: int|
            0 <= i < reservations.len() && (#[trigger] reservations[i] matches QueueReservation::Reserved {
                player_id,
                ..
            } && player_id == player);
        let last_is = reservations.last() matches QueueReservation::Reserved { player_id, .. }
            && player_id == player;
        assert(reserved_now <==> reserved_earlier || last_is) by {
            if reserved_earlier {
                let i = choose|i: int|
                    0 <= i < shorter.len() && (#[trigger] shorter[i] matches QueueReservation::Reserved {
                        player_id,
                        ..
                    } && player_id == player);
                assert(reservations[i] == shorter[i]);
            }
            if last_is {
                assert(reservations[reservations.len() - 1] == reservations.last());
            }
            if reserved_now {
                let i = choose|i: int|
                    0 <= i < reservations.len() && (#[trigger] reservations[i] matches QueueReservation::Reserved {
                        player_id,
                        ..
                    } && player_id == player);
                if i < shorter.len() {
                    assert(shorter[i] == reservations[i]);
                }
            }
        }
        if let QueueReservation::Reserved { player_id, .. } = reservations.last() {
            match frame_of(batches, player_id, phase) {
                Some(at) => {
                    let batch = choose|at: int| is_batch_of(batches, at, player_id);
                    assert(is_batch_of(batches, batch, player_id));
                    let next = PhaseFrame { player_id, message_index: at as usize };
                    assert(frames == earlier.push(next));
                    assert(frames.contains(frame) <==> earlier.contains(frame) || next == frame) by {
                        assert(frames[earlier.len() as int] == next);
                        if earlier.contains(frame) {
                            let k = choose|k: int| 0 <= k < earlier.len() && earlier[k] == frame;
                            assert(frames[k] == frame);
                        }
                    }
                    assert(at < batches[batch].messages@.len());
                    assert(batches[batch].messages@.len() == batches[batch].messages.len());
                    if player_id == player && due {
                        let j = choose|j: int|
                            0 <= j < batches.len() && (#[trigger] batches[j]).player_id == player
                                && index < batches[j].messages@.len() && batches[j].first_phase
                                + index == phase;
                        assert(batch_players(batches)[j] == batch_players(batches)[batch]);
                    }
                    if next == frame {
                        assert(batches[batch].player_id == player);
                    }
                },
                None => {
                    if player_id == player && due {
                        let j = choose|j: int|
                            0 <= j < batches.len() && (#[trigger] batches[j]).player_id == player
                                && index < batches[j].messages@.len() && batches[j].first_phase
                                + index == phase;
                        assert(is_batch_of(batches, j, player_id));
                        let batch = choose|at: int| is_batch_of(batches, at, player_id);
                        assert(batch_players(batches)[j] == batch_players(batches)[batch]);
                    }
                },
            }
        }
    }
}

/// The frames of a phase come in the order of the reservations: those of two
/// runs of reservations are the frames of the first, then those of the second.
pub proof fn law_phases_follow_the_reservations(
    batches: Seq<RoomRecipientMessages>,
    reservations: Seq<QueueReservation>,
    more: Seq<QueueReservation>,
    phase: int,
)
    ensures
        phase_frames(batches, reservations + more, phase) == phase_frames(
            batches,
            reservations,
            phase,
        ) + phase_frames(batches, more, phase),
        reservations.len() == 1 ==> phase_frames(batches, reservations, phase).len() <= 1,
    decreases more.len(),
{
    reveal_with_fuel(phase_frames, 2);
    if more.len() == 0 {
        assert(reservations + more =~= reservations);
        assert(phase_frames(batches, reservations, phase) + Seq::<PhaseFrame>::empty()
            =~= phase_frames(batches, reservations, phase));
    } else {
        law_phases_follow_the_reservations(batches, reservations, more.drop_last(), phase);
        assert((reservations + more).drop_last() =~= reservations + more.drop_last());
        assert((reservations + more).last() == more.last());
        assert(phase_frames(batches, reservations + more, phase) =~= phase_frames(
            batches,
            reservations,
            phase,
        ) + phase_frames(batches, more, phase));
    }
}

/// The number of messages of the batch of `player`.
pub open spec fn messages_for(batches: Seq<RoomRecipientMessages>, player: PlayerId) -> int
    decreases batches.len(),
{
    if batches.len() == 0 {
        0
    } else if batches.last().player_id == player {
        batches.last().messages@.len() as int
    } else {
        messages_for(batches.drop_last(), player)
    }
}

/// The last batch of a player is the one whose messages are counted.
proof fn lemma_messages_for(batches: Seq<RoomRecipientMessages>, at: int)
    requires
        batch_players(batches).no_duplicates(),
        0 <= at < batches.len(),
    ensures
        messages_for(batches, batches[at].player_id) == batches[at].messages@.len(),
    decreases batches.len(),
{
    let last = batches.len() - 1;
    assert(batch_players(batches)[at] == batches[at].player_id);
    assert(batch_players(batches)[last] == batches[last].player_id);
    if at < last {
        let shorter = batches.drop_last();
        assert(batch_players(shorter) =~= batch_players(batches).drop_last());
        assert(shorter[at] == batches[at]);
        lemma_messages_for(shorter, at);
    }
}

/// Nobody without a batch has messages.
proof fn lemma_no_messages_for(batches: Seq<RoomRecipientMessages>, player: PlayerId)
    requires
        forall|i: int| !is_batch_of(batches, i, player),
    ensures
        messages_for(batches, player) == 0,
    decreases batches.len(),
{
    if batches.len() > 0 {
        assert(!is_batch_of(batches, batches.len() - 1, player));
        assert forall|i: int| !is_batch_of(batches.drop_last(), i, player) by {
            assert(!is_batch_of(batches, i, player));
        }
        lemma_no_messages_for(batches.drop_last(), player);
    }
}

/// The two phases together hold every message of every reserved member, no more
/// and no fewer: one more reservation adds exactly the messages of its member.
pub proof fn law_the_two_phases_hold_every_reserved_message(
    batches: Seq<RoomRecipientMessages>,
    reservations: Seq<QueueReservation>,
    next: QueueReservation,
)
    requires
        batch_players(batches).no_duplicates(),
        within_two_phases(batches),
    ensures
        held_frames(batches, Seq::empty()) == 0,
        held_frames(batches, reservations.push(next)) - held_frames(batches, reservations) == (
        match next {
            QueueReservation::Reserved { player_id, .. } => messages_for(batches, player_id),
            _ => 0,
        }),
{
    assert(reservations.push(next).drop_last() =~= reservations);
    if let QueueReservation::Reserved { player_id, .. } = next {
        if exists|at: int| is_batch_of(batches, at, player_id) {
            let at = choose|at: int| is_batch_of(batches, at, player_id);
            lemma_messages_for(batches, at);
        } else {
            lemma_no_messages_for(batches, player_id);
        }
    }
}

/// A transaction begins with a reservation exactly if the room's routed members
/// are the expected ones, and asks its hook exactly if they still are and every
/// one of them is reserved on its current queue. Otherwise it ends as changed
/// routing, or starts over where a reservation failed.
pub proof fn law_transactions_begin_with_the_expected_members(
    progress: TransactionProgress,
    room: RoomId,
    expected: Seq<PlayerId>,
    batches: Seq<RoomRecipientMessages>,
    view: crate::routing::RoutingView,
)
    requires
        transaction_refusal(expected, batches) is None,
    ensures
        ({
            let step = checked_step(progress, room, expected, batches, view)->Ok_0;
            let reserved = progress.reservations->0@;
            let members_hold = forall|player: PlayerId|
                #[trigger] expected.contains(player) <==> view.rooms.contains_key(room)
                    && view.rooms[room].contains(player) && view.clients.contains_key(player);
            let failed = reserved.contains(QueueReservation::Canceled) || exists|i: int|
                0 <= i < reserved.len() && (#[trigger] reserved[i] is SlowConsumer || reserved[i]
                    is ChannelClosed);
            &&& checked_step(progress, room, expected, batches, view) is Ok
            &&& step is Reserve <==> progress.reservations is None && members_hold
            &&& progress.reservations is None && !members_hold ==> step == (TransactionStep::Done {
                outcome: RoomMessageTransactionOutcome::RoutingChanged,
                canceled: 0,
            })
            &&& step is Retry <==> progress.reservations is Some && progress.hook is None && failed
            &&& step is RunHook ==> progress.reservations is Some && progress.hook is None
                && !failed && members_hold && forall|player: PlayerId|
                #[trigger] expected.contains(player) ==> exists|i: int|
                    0 <= i < reserved.len() && (#[trigger] reserved[i] matches QueueReservation::Reserved {
                        player_id,
                        sender,
                    } && player_id == player && sender.channel
                        == view.clients[player].sender.channel)
            &&& (step matches TransactionStep::Done {
                outcome: RoomMessageTransactionOutcome::RoutingChanged,
                ..
            }) ==> progress.hook is None || progress.reservations is None
            &&& progress.reservations is Some && progress.hook is None && !failed && !members_hold
                ==> step matches TransactionStep::Done {
                outcome: RoomMessageTransactionOutcome::RoutingChanged,
                ..
            }
        }),
{
    let recipients = view.recipients(room, None);
    let members_hold = forall|player: PlayerId|
        #[trigger] expected.contains(player) <==> view.rooms.contains_key(room)
            && view.rooms[room].contains(player) && view.clients.contains_key(player);
    assert(members_hold <==> expected.to_set() == recipients) by {
        if members_hold {
            assert forall|player: PlayerId| expected.to_set().contains(player)
                == recipients.contains(player) by {
                assert(expected.to_set().contains(player) <==> expected.contains(player));
            }
            assert(expected.to_set() =~= recipients);
        }
        if expected.to_set() == recipients {
            assert forall|player: PlayerId|
                expected.contains(player) <==> view.rooms.contains_key(room)
                    && view.rooms[room].contains(player) && view.clients.contains_key(player) by {
                assert(expected.to_set().contains(player) <==> expected.contains(player));
                assert(recipients.contains(player) <==> view.routes(player, room)
                    && view.clients.contains_key(player));
            }
        }
    }
    if let Some(reservations) = progress.reservations {
        let reserved = reservations@;
        assert(TransactionProgress::has_unavailable(reserved) <==> exists|i: int|
            0 <= i < reserved.len() && (#[trigger] reserved[i] is SlowConsumer || reserved[i]
                is ChannelClosed)) by {
            if TransactionProgress::has_unavailable(reserved) {
                let i = choose|i: int|
                    0 <= i < reserved.len() && crate::broadcast::names_unavailable(
                        #[trigger] reserved[i],
                        Unavailable::SlowOrClosing,
                    );
                assert(reserved[i] is SlowConsumer || reserved[i] is ChannelClosed);
            }
            if exists|i: int|
                0 <= i < reserved.len() && (#[trigger] reserved[i] is SlowConsumer || reserved[i]
                    is ChannelClosed) {
                let i = choose|i: int|
                    0 <= i < reserved.len() && (#[trigger] reserved[i] is SlowConsumer || reserved[i]
                        is ChannelClosed);
                assert(crate::broadcast::names_unavailable(
                    reserved[i],
                    Unavailable::SlowOrClosing,
                ));
            }
        }
        if progress.spec_step(room, expected, batches, view) is RunHook {
            assert forall|player: PlayerId| #[trigger] expected.contains(player) implies exists|
                i: int,
            |
                0 <= i < reserved.len() && (#[trigger] reserved[i] matches QueueReservation::Reserved {
                    player_id,
                    sender,
                } && player_id == player && sender.channel
                    == view.clients[player].sender.channel) by {
                assert(expected.to_set().contains(player));
                assert(recipients.contains(player));
                let i = choose|i: int|
                    0 <= i < reserved.len() && crate::broadcast::answers_for(
                        #[trigger] reserved[i],
                        false,
                        player,
                        view.clients[player].sender.channel,
                    );
                assert(reserved[i] is Reserved);
            }
        }
    }
}

/// A transaction whose members all hold permits on their current queues, and are
/// the expected ones, does ask its hook.
pub proof fn law_complete_reservations_reach_the_hook(
    progress: TransactionProgress,
    room: RoomId,
    expected: Seq<PlayerId>,
    batches: Seq<RoomRecipientMessages>,
    view: crate::routing::RoutingView,
)
    requires
        transaction_refusal(expected, batches) is None,
        progress.hook is None,
        progress.reservations is Some,
        progress.reservations->0@.len() == expected.len(),
        forall|i: int|
            0 <= i < expected.len() ==> (#[trigger] progress.reservations->0@[i] matches QueueReservation::Reserved {
                player_id,
                sender,
            } && player_id == expected[i] && view.clients.contains_key(player_id) && sender.channel
                == view.clients[player_id].sender.channel),
        forall|player: PlayerId|
            #[trigger] expected.contains(player) <==> view.rooms.contains_key(room)
                && view.rooms[room].contains(player) && view.clients.contains_key(player),
    ensures
        checked_step(progress, room, expected, batches, view) == Ok::<
            TransactionStep,
            RoomTransactionError,
        >(TransactionStep::RunHook),
{
    let reserved = progress.reservations->0@;
    let recipients = view.recipients(room, None);
    assert forall|player: PlayerId| expected.to_set().contains(player) == recipients.contains(
        player,
    ) by {
        assert(expected.to_set().contains(player) <==> expected.contains(player));
    }
    assert(expected.to_set() =~= recipients);
    expected.unique_seq_to_set();
    assert forall|player: PlayerId| #[trigger] recipients.contains(player) implies exists|i: int|
        0 <= i < reserved.len() && crate::broadcast::answers_for(
            #[trigger] reserved[i],
            false,
            player,
            view.clients[player].sender.channel,
        ) by {
        assert(expected.to_set().contains(player));
        let i = choose|i: int| 0 <= i < expected.len() && expected[i] == player;
        assert(reserved[i] is Reserved);
        assert(crate::broadcast::answers_for(
            reserved[i],
            false,
            player,
            view.clients[player].sender.channel,
        ));
    }
    assert(!reserved.contains(QueueReservation::Canceled)) by {
        if reserved.contains(QueueReservation::Canceled) {
            let i = choose|i: int| 0 <= i < reserved.len() && reserved[i]
                == QueueReservation::Canceled;
            assert(reserved[i] is Reserved);
        }
    }
    assert(!TransactionProgress::has_unavailable(reserved)) by {
        if TransactionProgress::has_unavailable(reserved) {
            let i = choose|i: int|
                0 <= i < reserved.len() && crate::broadcast::names_unavailable(
                    #[trigger] reserved[i],
                    Unavailable::SlowOrClosing,
                );
            assert(reserved[i] is Reserved);
        }
    }
}

/// What the hook answered decides what follows: a refusal or an error publishes
/// nothing and gives every held frame back, and only an accepted transaction
/// goes on to the first phase. What is given back before anything went out is
/// every frame held on a permit.
pub proof fn law_hooks_decide_over_publication(
    progress: TransactionProgress,
    room: RoomId,
    expected: Seq<PlayerId>,
    batches: Seq<RoomRecipientMessages>,
    view: crate::routing::RoutingView,
)
    requires
        transaction_refusal(expected, batches) is None,
        progress.reservations is Some,
    ensures
        ({
            let step = checked_step(progress, room, expected, batches, view)->Ok_0;
            let held = held_frames(batches, progress.reservations->0@);
            let given_back = if held <= usize::MAX {
                held
            } else {
                usize::MAX as int
            };
            &&& (step matches TransactionStep::Done {
                outcome: RoomMessageTransactionOutcome::HookRejected,
                ..
            }) <==> progress.hook == Some(HookAnswer::Rejected)
            &&& step is HookError <==> progress.hook == Some(HookAnswer::Failed)
            &&& step is PublishFirstPhase <==> progress.hook == Some(HookAnswer::Accepted)
                && progress.first_phase is None
            &&& step matches TransactionStep::Retry { canceled } ==> canceled == given_back
            &&& step matches TransactionStep::HookError { canceled } ==> canceled == given_back
            &&& step matches TransactionStep::Done {
                outcome: RoomMessageTransactionOutcome::HookRejected,
                canceled,
            } ==> canceled == given_back
            &&& step matches TransactionStep::Done {
                outcome: RoomMessageTransactionOutcome::RoutingChanged,
                canceled,
            } ==> canceled == given_back
        }),
{
}

/// Once the first phase is out and the continuation answered, the transaction
/// counts a frame as failed if its receipt says so or if it was never sent: it
/// is committed exactly if nothing failed, and degraded by exactly the number of
/// failures otherwise. Frames of a second phase that is not sent are given back.
pub proof fn law_published_transactions_count_their_failures(
    progress: TransactionProgress,
    room: RoomId,
    expected: Seq<PlayerId>,
    batches: Seq<RoomRecipientMessages>,
    view: crate::routing::RoutingView,
)
    requires
        transaction_refusal(expected, batches) is None,
        progress.reservations is Some,
        progress.hook == Some(HookAnswer::Accepted),
        progress.first_phase is Some,
        progress.continue_publication is Some,
    ensures
        ({
            let step = checked_step(progress, room, expected, batches, view)->Ok_0;
            let goes_on = progress.continue_publication->0;
            let later = phase_frames(batches, progress.reservations->0@, 1).len();
            let lost = |receipts: Seq<SendReceipt>|
                receipts.filter(|receipt: SendReceipt| receipt != SendReceipt::Enqueued).len();
            let failed = lost(progress.first_phase->0@) + (if !goes_on {
                later
            } else if later > 0 && progress.second_phase is Some {
                lost(progress.second_phase->0@)
            } else {
                0
            });
            let settled = !goes_on || later == 0 || progress.second_phase is Some;
            &&& step is PublishSecondPhase <==> !settled
            &&& step is Done <==> settled
            &&& step matches TransactionStep::Done { outcome, canceled } ==> {
                &&& outcome is Committed <==> failed == 0
                &&& outcome matches RoomMessageTransactionOutcome::CommittedDegraded {
                    failed_frames,
                } ==> failed_frames == (if failed <= usize::MAX {
                    failed as int
                } else {
                    usize::MAX as int
                })
                &&& outcome is Committed || outcome is CommittedDegraded
                &&& goes_on ==> canceled == 0
                &&& !goes_on ==> canceled == (if later <= usize::MAX {
                    later as int
                } else {
                    usize::MAX as int
                })
            }
        }),
{
    law_failures_are_the_frames_that_were_not_enqueued(progress.first_phase->0@);
    if let Some(second) = progress.second_phase {
        law_failures_are_the_frames_that_were_not_enqueued(second@);
    }
}

/// Members lose their routes exactly in a round whose hook has not run, in which
/// nothing was called off, and in which somebody stayed full or is closing; a
/// refused transaction costs nobody its route.
pub proof fn law_transactions_prune_only_unavailable_members(
    progress: TransactionProgress,
    expected: Seq<PlayerId>,
    batches: Seq<RoomRecipientMessages>,
    view: crate::routing::RoutingView,
)
    ensures
        ({
            let reserved = progress.reservations->0@;
            let prunes = transaction_refusal(expected, batches) is None && progress.hook is None
                && progress.reservations is Some && !reserved.contains(QueueReservation::Canceled)
                && exists|i: int|
                0 <= i < reserved.len() && (#[trigger] reserved[i] is SlowConsumer || reserved[i]
                    is ChannelClosed);
            let after = routing_after_step(progress, expected, batches, view);
            &&& !prunes ==> after == view
            &&& prunes ==> after == crate::broadcast::without_unavailable(
                view,
                reserved,
                Unavailable::SlowOrClosing,
            )
        }),
{
    if let Some(reservations) = progress.reservations {
        let reserved = reservations@;
        if exists|i: int|
            0 <= i < reserved.len() && (#[trigger] reserved[i] is SlowConsumer || reserved[i]
                is ChannelClosed) {
            let i = choose|i: int|
                0 <= i < reserved.len() && (#[trigger] reserved[i] is SlowConsumer || reserved[i]
                    is ChannelClosed);
            assert(crate::broadcast::names_unavailable(reserved[i], Unavailable::SlowOrClosing));
        }
        if TransactionProgress::has_unavailable(reserved) {
            let i = choose|i: int|
                0 <= i < reserved.len() && crate::broadcast::names_unavailable(
                    #[trigger] reserved[i],
                    Unavailable::SlowOrClosing,
                );
            assert(reserved[i] is SlowConsumer || reserved[i] is ChannelClosed);
        }
    }
}

} // verus!
