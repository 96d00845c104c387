//! How one relayed game-data frame is shared among its recipients, and the
//! one-shot builder that stamps it.

use vstd::prelude::*;

use crate::protocol::{GameDataEncoding, ServerMessage};
use crate::relay_projection::{
    relay_projection_cohort, relay_projection_summary, RelayProjectionCohort,
};

verus! {

/// How a relayed frame is handed to its recipients.
#[derive(Clone, Copy, Debug, PartialEq, Eq, Structural)]
pub enum RelayPlan {
    /// One shared projection, owned together by the classified queues.
    CoownedShared,
    /// One shared projection beside the frame itself.
    Shared,
    /// Each recipient gets the frame projected for itself.
    PerRecipient,
}

/// What a classified queue negotiated: v3 support and the payload encoding.
/// Legacy queues have none.
pub type QueueProjection = Option<(bool, GameDataEncoding)>;

/// Whether a recipient is classified, and the cohort its projection falls in.
pub open spec fn projected(message: ServerMessage, projection: QueueProjection) -> (
    bool,
    Option<RelayProjectionCohort>,
) {
    match projection {
        Some((supports_v3, format)) => (
            true,
            crate::relay_projection::projection_cohort(message, supports_v3, format),
        ),
        None => (false, None),
    }
}

/// All recipients of a frame, projected.
pub open spec fn all_projected(message: ServerMessage, projections: Seq<QueueProjection>) -> Seq<
    (bool, Option<RelayProjectionCohort>),
> {
    projections.map_values(|projection: QueueProjection| projected(message, projection))
}

/// How a frame the relay owns is handed out: shared where projecting it
/// repeats work, and owned by the queues alone where all are classified.
pub open spec fn owned_relay_plan(
    message: ServerMessage,
    projections: Seq<QueueProjection>,
) -> RelayPlan {
    let recipients = all_projected(message, projections);
    if !crate::relay_projection::work_repeats(recipients) {
        RelayPlan::PerRecipient
    } else if crate::relay_projection::all_classified(recipients) {
        RelayPlan::CoownedShared
    } else {
        RelayPlan::Shared
    }
}

/// The recipients of a frame, projected.
fn project_all(message: &ServerMessage, projections: &Vec<QueueProjection>) -> (recipients: Vec<
    (bool, Option<RelayProjectionCohort>),
>)
    ensures
        recipients@ == all_projected(*message, projections@),
{
    let mut recipients: Vec<(bool, Option<RelayProjectionCohort>)> = Vec::new();
    let mut index: usize = 0;
    while index < projections.len()
        invariant
            index <= projections.len(),
            recipients@ == all_projected(*message, projections@).take(index as int),
        decreases projections.len() - index,
    {
        let recipient = match projections[index] {
            Some((supports_v3, format)) => (
                true,
                relay_projection_cohort(message, supports_v3, format),
            ),
            None => (false, None),
        };
        recipients.push(recipient);
        assert(recipients@ =~= all_projected(*message, projections@).take(index + 1));
        index += 1;
    }
    assert(recipients@ =~= all_projected(*message, projections@));
    recipients
}

/// How a frame the relay owns is handed to recipients with these projections.
pub fn start_routed_owned_deliveries(
    message: &ServerMessage,
    projections: &Vec<QueueProjection>,
) -> (plan: RelayPlan)
    ensures
        plan == owned_relay_plan(*message, projections@),
{
    let recipients = project_all(message, projections);
    let (repeats, all_recipients_are_classified) = relay_projection_summary(recipients.as_slice());
    if repeats && all_recipients_are_classified {
        RelayPlan::CoownedShared
    } else if repeats {
        RelayPlan::Shared
    } else {
        RelayPlan::PerRecipient
    }
}

/// How a frame somebody else holds too is handed to recipients with these
/// projections: shared where projecting it repeats work.
pub fn start_routed_deliveries(message: &ServerMessage, projections: &Vec<QueueProjection>) -> (
    plan: RelayPlan)
    ensures
        plan == (if crate::relay_projection::work_repeats(all_projected(*message, projections@)) {
            RelayPlan::Shared
        } else {
            RelayPlan::PerRecipient
        }),
{
    let recipients = project_all(message, projections);
    let (repeats, _) = relay_projection_summary(recipients.as_slice());
    if repeats {
        RelayPlan::Shared
    } else {
        RelayPlan::PerRecipient
    }
}

/// What an attempt to broadcast game data at once came to.
#[derive(Clone, Copy, Debug, PartialEq, Eq, Structural)]
pub enum ImmediateGameDataBroadcast {
    /// Nothing is left to do.
    Complete,
    /// Some recipients wait for capacity or have to be dropped.
    Pending,
    /// The routing was contended; the frame has not been built.
    Unavailable,
}

/// What an attempt to broadcast at once comes to. `left` is the number of
/// recipients that wait and of those that were lost; there is none where the
/// frame was called off when it was to be built.
pub fn immediate_broadcast(routing_available: bool, left: Option<(usize, usize)>) -> (outcome:
    ImmediateGameDataBroadcast)
    ensures
        outcome == (if !routing_available {
            ImmediateGameDataBroadcast::Unavailable
        } else if left is None || left == Some((0usize, 0usize)) {
            ImmediateGameDataBroadcast::Complete
        } else {
            ImmediateGameDataBroadcast::Pending
        }),
{
    if !routing_available {
        return ImmediateGameDataBroadcast::Unavailable;
    }
    match left {
        None => ImmediateGameDataBroadcast::Complete,
        Some((pending, slow)) => if pending == 0 && slow == 0 {
            ImmediateGameDataBroadcast::Complete
        } else {
            ImmediateGameDataBroadcast::Pending
        },
    }
}

/// What is left of a game-data broadcast after the immediate attempt.
#[derive(Clone, Copy, Debug, PartialEq, Eq, Structural)]
pub enum GameDataHandoff {
    Finished,
    /// Wait for the deliveries that are under way.
    AwaitCompletion,
    /// Broadcast again with the same builder, waiting for the routing tables.
    BroadcastAfterContention,
}

/// What is left of a game-data broadcast after the immediate attempt: nothing
/// is sent twice, because only an attempt that started nothing is repeated.
pub fn broadcast_game_data_with(attempt: ImmediateGameDataBroadcast) -> (handoff: GameDataHandoff)
    ensures
        handoff is Finished <==> attempt is Complete,
        handoff is AwaitCompletion <==> attempt is Pending,
        handoff is BroadcastAfterContention <==> attempt is Unavailable,
{
    match attempt {
        ImmediateGameDataBroadcast::Complete => GameDataHandoff::Finished,
        ImmediateGameDataBroadcast::Pending => GameDataHandoff::AwaitCompletion,
        ImmediateGameDataBroadcast::Unavailable => GameDataHandoff::BroadcastAfterContention,
    }
}

/// A frame is shared among its recipients only if all of them are sent it as it
/// is: no frame that is addressed to each recipient is ever shared.
pub proof fn law_shared_frames_address_nobody(
    message: ServerMessage,
    projections: Seq<QueueProjection>,
    player: crate::protocol::PlayerId,
)
    requires
        !(owned_relay_plan(message, projections) is PerRecipient),
    ensures
        crate::relay_projection::message_for_recipient(message, player) == message,
{
    let recipients = all_projected(message, projections);
    let (i, j) = choose|i: int, j: int|
        #![trigger recipients[i], recipients[j]]
        0 <= i < j < recipients.len() && recipients[i].1 is Some && recipients[j].1 is Some
            && crate::relay_projection::shares_work(recipients[i].1->0, recipients[j].1->0);
    assert(recipients[i] == projected(message, projections[i]));
}

/// A message builder that runs at most once.
pub struct OneShotMessageBuilder<F: FnOnce() -> Option<ServerMessage>> {
    build_message: Option<F>,
}

impl<F: FnOnce() -> Option<ServerMessage>> OneShotMessageBuilder<F> {
    /// The builder that is still to be run, if it has not been.
    pub closed spec fn unspent(&self) -> Option<F> {
        self.build_message
    }

    /// Runs the builder the first time. Every later call gives nothing.
    pub fn build(&mut self) -> (message: Option<ServerMessage>)
        requires
            old(self).unspent() matches Some(builder) ==> call_requires(builder, ()),
        ensures
            final(self).unspent() is None,
            match old(self).unspent() {
                Some(builder) => call_ensures(builder, (), message),
                None => message is None,
            },
    {
        match self.build_message.take() {
            Some(build) => build(),
            None => None,
        }
    }
}

/// Wraps `build_message` so that it runs at most once.
pub fn one_shot_message_builder<F: FnOnce() -> Option<ServerMessage>>(build_message: F) -> (builder:
    OneShotMessageBuilder<F>)
    ensures
        builder.unspent() == Some(build_message),
{
    OneShotMessageBuilder { build_message: Some(build_message) }
}

/// A frame is shared exactly if two recipients need the same projection of it,
/// and owned by the queues alone exactly if, besides, every recipient's queue is
/// classified.
pub proof fn law_frames_are_shared_where_work_repeats(
    message: ServerMessage,
    projections: Seq<QueueProjection>,
)
    ensures
        ({
            let plan = owned_relay_plan(message, projections);
            let cohort = |i: int|
                crate::relay_projection::projection_cohort(
                    message,
                    (projections[i]->0).0,
                    (projections[i]->0).1,
                );
            let repeats = exists|i: int, j: int|
                #![trigger projections[i], projections[j]]
                0 <= i < j < projections.len() && projections[i] is Some && projections[j] is Some
                    && cohort(i) is Some && cohort(j) is Some
                    && crate::relay_projection::shares_work(cohort(i)->0, cohort(j)->0);
            let classified = forall|i: int|
                0 <= i < projections.len() ==> #[trigger] projections[i] is Some;
            &&& plan is PerRecipient <==> !repeats
            &&& plan is CoownedShared <==> repeats && classified
            &&& plan is Shared <==> repeats && !classified
        }),
{
    let recipients = all_projected(message, projections);
    let cohort = |i: int|
        crate::relay_projection::projection_cohort(
            message,
            (projections[i]->0).0,
            (projections[i]->0).1,
        );
    assert(recipients.len() == projections.len());
    assert(forall|i: int|
        0 <= i < projections.len() ==> #[trigger] recipients[i] == projected(
            message,
            projections[i],
        ));
    let repeats = exists|i: int, j: int|
        #![trigger projections[i], projections[j]]
        0 <= i < j < projections.len() && projections[i] is Some && projections[j] is Some
            && cohort(i) is Some && cohort(j) is Some && crate::relay_projection::shares_work(
            cohort(i)->0,
            cohort(j)->0,
        );
    if repeats {
        let (i, j) = choose|i: int, j: int|
            #![trigger projections[i], projections[j]]
            0 <= i < j < projections.len() && projections[i] is Some && projections[j] is Some
                && cohort(i) is Some && cohort(j) is Some && crate::relay_projection::shares_work(
                cohort(i)->0,
                cohort(j)->0,
            );
        assert(recipients[i].1 == cohort(i) && recipients[j].1 == cohort(j));
        assert(crate::relay_projection::work_repeats(recipients));
    }
    if crate::relay_projection::work_repeats(recipients) {
        let (i, j) = choose|i: int, j: int|
            #![trigger recipients[i], recipients[j]]
            0 <= i < j < recipients.len() && recipients[i].1 is Some && recipients[j].1 is Some
                && crate::relay_projection::shares_work(recipients[i].1->0, recipients[j].1->0);
        assert(projections[i] is Some && projections[j] is Some);
        assert(recipients[i].1 == cohort(i) && recipients[j].1 == cohort(j));
    }
    let classified = forall|i: int|
        0 <= i < projections.len() ==> #[trigger] projections[i] is Some;
    if classified {
        assert forall|i: int| 0 <= i < recipients.len() implies (#[trigger] recipients[i]).0 by {
            assert(projections[i] is Some);
        }
    }
    if crate::relay_projection::all_classified(recipients) {
        assert forall|i: int| 0 <= i < projections.len() implies #[trigger] projections[i]
            is Some by {
            assert(recipients[i].0);
        }
    }
}

} // verus!
