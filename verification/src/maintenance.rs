//! Sweeps that bring process-local state back in line with storage.

use vstd::prelude::*;

use crate::concurrent_maps::{
    get_pending_detach, owned_rooms, pending_detach_keys, remove_pending_detach, remove_room_owner,
};
use crate::protocol::{AppId, PlayerId, RoomId};
use crate::server::{EnhancedGameServer, ServerView};

verus! {

/// What storage says of a room.
#[derive(Clone, Copy, Debug, PartialEq, Eq, Structural)]
pub enum RoomRead {
    Present,
    Missing,
    /// It could not be asked. Whatever depends on the room is kept for a later
    /// sweep.
    Unreadable,
}

/// What is known so far about one player removal that is being retried.
#[derive(Clone, Copy, Debug)]
pub struct DetachProgress {
    /// What storage says of the room.
    pub room: Option<RoomRead>,
    /// The application claim that goes with the removal, read under the room's
    /// event lane.
    pub claim: Option<AppId>,
    /// Whether the player row was removed.
    pub removed: Option<bool>,
    /// Whether the application claim was rolled back.
    pub rolled_back: Option<bool>,
}

/// What the caller does next about a retried removal.
#[derive(Clone, Copy, Debug, PartialEq, Eq, Structural)]
pub enum DetachStep {
    ReadRoom,
    /// Remove the player row, and remember the claim.
    RemovePlayer { claim: Option<AppId> },
    /// Take the application's claim on the room back, unless it changed.
    RollBackClaim { app: AppId },
    /// The removal is settled. If `forgotten`, it is not retried again;
    /// if `cleaned`, it counts as done.
    Done { forgotten: bool, cleaned: bool },
}

impl DetachProgress {
    /// Nothing is known yet.
    pub fn new() -> (progress: Self)
        ensures
            progress == (DetachProgress {
                room: None,
                claim: None,
                removed: None,
                rolled_back: None,
            }),
    {
        DetachProgress { room: None, claim: None, removed: None, rolled_back: None }
    }
}

impl ServerView {
    /// Whether a removal of `player` from `room` is kept for retry.
    pub open spec fn detach_pending(self, room: RoomId, player: PlayerId) -> bool {
        self.detaches.contains_key((room, player))
    }

    /// The next step of a retried removal. A player seated in the room again is
    /// left alone; in a room that is gone nothing is left to remove; otherwise
    /// the row goes, then the claim.
    pub open spec fn detach_step(
        self,
        room: RoomId,
        player: PlayerId,
        progress: DetachProgress,
    ) -> DetachStep {
        let pending = self.detach_pending(room, player);
        match (progress.room, progress.removed, progress.rolled_back) {
            (None, _, _) => if self.manager.room_of(player) == Some(room) {
                DetachStep::Done { forgotten: true, cleaned: false }
            } else {
                DetachStep::ReadRoom
            },
            (Some(RoomRead::Missing), _, _) => DetachStep::Done {
                forgotten: true,
                cleaned: pending,
            },
            (Some(_), None, _) => DetachStep::RemovePlayer {
                claim: if pending {
                    self.detaches[(room, player)]
                } else {
                    None
                },
            },
            (Some(_), Some(false), _) => DetachStep::Done { forgotten: false, cleaned: false },
            (Some(_), Some(true), rolled_back) => match (progress.claim, rolled_back) {
                (None, _) | (Some(_), Some(true)) => DetachStep::Done {
                    forgotten: true,
                    cleaned: pending,
                },
                (Some(app), None) => DetachStep::RollBackClaim { app },
                (Some(_), Some(false)) => DetachStep::Done { forgotten: false, cleaned: false },
            },
        }
    }

    /// The server after a step of a retried removal.
    pub open spec fn after_detach_step(
        self,
        room: RoomId,
        player: PlayerId,
        step: DetachStep,
    ) -> ServerView {
        match step {
            DetachStep::Done { forgotten, .. } => if forgotten {
                ServerView { detaches: self.detaches.remove((room, player)), ..self }
            } else {
                self
            },
            _ => self,
        }
    }
}

impl EnhancedGameServer {
    /// The removals that are kept for retry, in no particular order.
    pub fn pending_detach_candidates(&self) -> (candidates: Vec<(RoomId, PlayerId)>)
        ensures
            candidates@.no_duplicates(),
            candidates@.to_set() == self@.detaches.dom(),
    {
        pending_detach_keys(&self.pending_durable_player_detaches)
    }

    /// Forgets a removal that is settled.
    fn settle_detach(&mut self, room_id: RoomId, player_id: PlayerId) -> (removed: bool)
        requires
            old(self).wf(),
        ensures
            final(self).wf(),
            removed == old(self)@.detach_pending(room_id, player_id),
            final(self)@ == (ServerView {
                detaches: old(self)@.detaches.remove((room_id, player_id)),
                ..old(self)@
            }),
    {
        remove_pending_detach(&mut self.pending_durable_player_detaches, (room_id, player_id))
    }

    /// Takes the next step of one retried removal, under the room's event lane.
    pub fn cleanup_pending_durable_player_detaches(
        &mut self,
        room_id: RoomId,
        player_id: PlayerId,
        progress: &DetachProgress,
    ) -> (step: DetachStep)
        requires
            old(self).wf(),
        ensures
            final(self).wf(),
            step == old(self)@.detach_step(room_id, player_id, *progress),
            final(self)@ == old(self)@.after_detach_step(room_id, player_id, step),
    {
        match progress.room {
            None => {
                let seated = self.connection_manager.current_relay_stamp_in_room(
                    player_id,
                    room_id,
                );
                if seated.is_some() {
                    let _ = self.settle_detach(room_id, player_id);
                    DetachStep::Done { forgotten: true, cleaned: false }
                } else {
                    DetachStep::ReadRoom
                }
            },
            Some(RoomRead::Missing) => {
                let cleaned = self.settle_detach(room_id, player_id);
                DetachStep::Done { forgotten: true, cleaned }
            },
            Some(_) => match progress.removed {
                None => {
                    let claim = match get_pending_detach(
                        &self.pending_durable_player_detaches,
                        (room_id, player_id),
                    ) {
                        Some(claim) => claim,
                        None => None,
                    };
                    DetachStep::RemovePlayer { claim }
                },
                Some(removed) => {
                    if !removed {
                        return DetachStep::Done { forgotten: false, cleaned: false };
                    }
                    if let Some(app) = progress.claim {
                        match progress.rolled_back {
                            None => {
                                return DetachStep::RollBackClaim { app };
                            },
                            Some(rolled_back) => {
                                if !rolled_back {
                                    return DetachStep::Done { forgotten: false, cleaned: false };
                                }
                            },
                        }
                    }
                    let cleaned = self.settle_detach(room_id, player_id);
                    DetachStep::Done { forgotten: true, cleaned }
                },
            },
        }
    }

    /// The rooms with a cached owner, in no particular order.
    pub fn owned_rooms(&self) -> (rooms: Vec<RoomId>)
        ensures
            rooms@.no_duplicates(),
            rooms@.to_set() == self@.applications.dom(),
    {
        owned_rooms(&self.room_applications)
    }

    /// Forgets the owner of one room if storage has no such room. Returns
    /// whether there was one to forget.
    pub fn prune_room_applications(&mut self, room_id: RoomId, read: RoomRead) -> (pruned: bool)
        requires
            old(self).wf(),
        ensures
            final(self).wf(),
            pruned == (read is Missing && old(self)@.applications.contains_key(room_id)),
            final(self)@ == (ServerView {
                applications: if read is Missing {
                    old(self)@.applications.remove(room_id)
                } else {
                    old(self)@.applications
                },
                ..old(self)@
            }),
    {
        match read {
            RoomRead::Missing => remove_room_owner(&mut self.room_applications, room_id),
            RoomRead::Present | RoomRead::Unreadable => false,
        }
    }
}

/// How many of the retried removals that ended with these steps were cleaned up.
pub open spec fn cleaned_count(steps: Seq<DetachStep>) -> nat
    decreases steps.len(),
{
    if steps.len() == 0 {
        0
    } else if steps.last() matches DetachStep::Done { cleaned: true, .. } {
        cleaned_count(steps.drop_last()) + 1
    } else {
        cleaned_count(steps.drop_last())
    }
}

/// How many of the retried removals that ended with these steps were cleaned up.
pub fn count_cleaned(steps: &Vec<DetachStep>) -> (cleaned: usize)
    ensures
        cleaned == cleaned_count(steps@),
{
    let mut cleaned: usize = 0;
    let mut index: usize = 0;
    while index < steps.len()
        invariant
            index <= steps.len(),
            cleaned <= index,
            cleaned == cleaned_count(steps@.take(index as int)),
        decreases steps.len() - index,
    {
        assert(steps@.take(index + 1).drop_last() =~= steps@.take(index as int));
        if let DetachStep::Done { cleaned: true, .. } = steps[index] {
            cleaned += 1;
        }
        index += 1;
    }
    assert(steps@.take(index as int) =~= steps@);
    cleaned
}

/// How many entries of a sweep were cleaned up.
pub open spec fn swept_count(swept: Seq<bool>) -> nat
    decreases swept.len(),
{
    if swept.len() == 0 {
        0
    } else if swept.last() {
        swept_count(swept.drop_last()) + 1
    } else {
        swept_count(swept.drop_last())
    }
}

/// How many entries of a sweep were cleaned up, given what was said of each:
/// the owners, ready sets, expired reconnections, or clients in missing rooms
/// that are gone now.
pub fn count_swept(swept: &Vec<bool>) -> (count: usize)
    ensures
        count == swept_count(swept@),
{
    let mut count: usize = 0;
    let mut index: usize = 0;
    while index < swept.len()
        invariant
            index <= swept.len(),
            count <= index,
            count == swept_count(swept@.take(index as int)),
        decreases swept.len() - index,
    {
        assert(swept@.take(index + 1).drop_last() =~= swept@.take(index as int));
        if swept[index] {
            count += 1;
        }
        index += 1;
    }
    assert(swept@.take(index as int) =~= swept@);
    count
}

/// Whether the ready set of one room is dropped: only if storage has no such
/// room.
pub fn prune_ready_players(read: RoomRead) -> (prunes: bool)
    ensures
        prunes == (read is Missing),
{
    match read {
        RoomRead::Missing => true,
        RoomRead::Present | RoomRead::Unreadable => false,
    }
}

/// What the caller does next about an expired reconnection offer.
#[derive(Clone, Copy, Debug, PartialEq, Eq, Structural)]
pub enum ExpiredReconnectionStep {
    RemovePlayerRow,
    /// Forget the offer, unless it was taken up or renewed.
    ForgetOffer,
    Done { cleaned: bool },
}

/// The next step about one expired reconnection offer. The offer outlives a
/// failed removal of the row it holds, so that the removal is retried.
pub fn cleanup_expired_reconnections(row_removed: Option<bool>, offer_forgotten: Option<bool>) -> (
    step: ExpiredReconnectionStep)
    ensures
        step == (match (row_removed, offer_forgotten) {
            (None, _) => ExpiredReconnectionStep::RemovePlayerRow,
            (Some(false), _) => ExpiredReconnectionStep::Done { cleaned: false },
            (Some(true), None) => ExpiredReconnectionStep::ForgetOffer,
            (Some(true), Some(forgotten)) => ExpiredReconnectionStep::Done { cleaned: forgotten },
        }),
{
    match row_removed {
        None => ExpiredReconnectionStep::RemovePlayerRow,
        Some(removed) => {
            if !removed {
                ExpiredReconnectionStep::Done { cleaned: false }
            } else {
                match offer_forgotten {
                    None => ExpiredReconnectionStep::ForgetOffer,
                    Some(cleaned) => ExpiredReconnectionStep::Done { cleaned },
                }
            }
        },
    }
}

/// What a count-only room sweep removed.
#[derive(Clone, Copy, Debug, PartialEq, Eq, Structural)]
pub struct RoomCleanupOutcome {
    pub empty_rooms_cleaned: usize,
    pub inactive_rooms_cleaned: usize,
}

impl RoomCleanupOutcome {
    /// Whether nothing was removed.
    pub fn is_empty(&self) -> (empty: bool)
        ensures
            empty == (self.empty_rooms_cleaned == 0 && self.inactive_rooms_cleaned == 0),
    {
        self.empty_rooms_cleaned == 0 && self.inactive_rooms_cleaned == 0
    }

    /// How many rooms were removed.
    pub fn total_cleaned(&self) -> (total: usize)
        ensures
            self.empty_rooms_cleaned + self.inactive_rooms_cleaned <= usize::MAX ==> total
                == self.empty_rooms_cleaned + self.inactive_rooms_cleaned,
            self.empty_rooms_cleaned + self.inactive_rooms_cleaned > usize::MAX ==> total
                == usize::MAX,
    {
        self.empty_rooms_cleaned.saturating_add(self.inactive_rooms_cleaned)
    }
}

/// Whether the closing of a deleted room is published: by whoever claimed it,
/// and also if the claim could not be checked.
pub fn publishes_room_closed<E>(claim: Result<bool, E>) -> (publishes: bool)
    ensures
        publishes == (claim is Err || claim == Ok::<bool, E>(true)),
{
    match claim {
        Ok(claimed) => claimed,
        Err(_) => true,
    }
}

/// What the room sweeps record of one run.
#[derive(Clone, Copy, Debug, PartialEq, Eq, Structural)]
pub struct RoomSweepCounts {
    pub empty_rooms_cleaned: u64,
    pub inactive_rooms_cleaned: u64,
    pub rooms_deleted: u64,
}

/// The rooms a sweep of empty rooms deleted, as it is recorded. A failed sweep
/// records none.
pub fn count_empty_rooms<E>(deleted: &Result<Vec<RoomId>, E>) -> (counts: RoomSweepCounts)
    ensures
        counts.inactive_rooms_cleaned == 0,
        match *deleted {
            Ok(rooms) => counts.empty_rooms_cleaned == rooms@.len() && counts.rooms_deleted
                == rooms@.len(),
            Err(_) => counts.empty_rooms_cleaned == 0 && counts.rooms_deleted == 0,
        },
{
    let cleaned: u64 = match deleted {
        Ok(rooms) => rooms.len() as u64,
        Err(_) => 0,
    };
    RoomSweepCounts {
        empty_rooms_cleaned: cleaned,
        inactive_rooms_cleaned: 0,
        rooms_deleted: cleaned,
    }
}

/// The rooms a count-only sweep removed, as it is recorded. A failed sweep
/// records none.
pub fn count_expired_rooms<E>(outcome: &Result<RoomCleanupOutcome, E>) -> (counts: RoomSweepCounts)
    ensures
        match *outcome {
            Ok(outcome) => {
                let total = outcome.empty_rooms_cleaned + outcome.inactive_rooms_cleaned;
                &&& counts.empty_rooms_cleaned == outcome.empty_rooms_cleaned
                &&& counts.inactive_rooms_cleaned == outcome.inactive_rooms_cleaned
                &&& counts.rooms_deleted == (if total <= usize::MAX {
                    total
                } else {
                    usize::MAX as int
                })
            },
            Err(_) => counts == (RoomSweepCounts {
                empty_rooms_cleaned: 0,
                inactive_rooms_cleaned: 0,
                rooms_deleted: 0,
            }),
        },
{
    match outcome {
        Ok(outcome) => RoomSweepCounts {
            empty_rooms_cleaned: outcome.empty_rooms_cleaned as u64,
            inactive_rooms_cleaned: outcome.inactive_rooms_cleaned as u64,
            rooms_deleted: outcome.total_cleaned() as u64,
        },
        Err(_) => RoomSweepCounts {
            empty_rooms_cleaned: 0,
            inactive_rooms_cleaned: 0,
            rooms_deleted: 0,
        },
    }
}

/// The operation under which the cleanup of an empty room is claimed, and the
/// reason its closing is published with.
pub fn empty_cleanup_operation() -> (operation: String)
    ensures
        operation@ == "empty_cleanup"@,
{
    "empty_cleanup".to_owned()
}

/// What has been done so far about one room that a sweep of empty rooms
/// deleted.
#[derive(Clone, Copy, Debug)]
pub struct DeletedRoomProgress {
    /// The room's session plan was dropped.
    pub plan_dropped: bool,
    /// The room's ready set was cleared, or could not be.
    pub ready_cleared: Option<bool>,
    /// Whether this instance claimed the cleanup; an error where that could
    /// not be asked.
    pub claim: Option<Result<bool, ()>>,
}

/// What the caller does next about a deleted room.
#[derive(Clone, Copy, Debug, PartialEq, Eq, Structural)]
pub enum DeletedRoomStep {
    DropSessionPlan,
    /// Clear the room's ready set. The room has no cached owner any more.
    ClearReadyPlayers,
    /// Claim the cleanup for this instance.
    Claim { instance: u128 },
    /// Nothing is left to do but, if `publishes`, to publish the closing.
    Done { publishes: bool },
}

impl DeletedRoomProgress {
    /// Nothing has been done yet.
    pub fn new() -> (progress: Self)
        ensures
            progress == (DeletedRoomProgress {
                plan_dropped: false,
                ready_cleared: None,
                claim: None,
            }),
    {
        DeletedRoomProgress { plan_dropped: false, ready_cleared: None, claim: None }
    }

    /// The next step about a deleted room: what this process remembers of it
    /// goes whoever claims the cleanup, and its closing is published unless
    /// another instance holds the claim.
    pub open spec fn spec_step(self, instance: u128) -> DeletedRoomStep {
        if !self.plan_dropped {
            DeletedRoomStep::DropSessionPlan
        } else {
            match (self.ready_cleared, self.claim) {
                (None, _) => DeletedRoomStep::ClearReadyPlayers,
                (Some(_), None) => DeletedRoomStep::Claim { instance },
                (Some(_), Some(claim)) => DeletedRoomStep::Done {
                    publishes: claim is Err || claim == Ok::<bool, ()>(true),
                },
            }
        }
    }
}

impl ServerView {
    /// The server after a step about the deleted `room`: its owner is forgotten
    /// once its session plan is gone.
    pub open spec fn after_deleted_room_step(
        self,
        room: RoomId,
        step: DeletedRoomStep,
    ) -> ServerView {
        if step is ClearReadyPlayers {
            ServerView { applications: self.applications.remove(room), ..self }
        } else {
            self
        }
    }
}

impl EnhancedGameServer {
    /// Takes the next step about one room that a sweep of empty rooms deleted.
    pub fn cleanup_deleted_room(&mut self, room_id: RoomId, progress: &DeletedRoomProgress) -> (step:
        DeletedRoomStep)
        requires
            old(self).wf(),
        ensures
            final(self).wf(),
            step == progress.spec_step(old(self)@.instance_id),
            final(self)@ == old(self)@.after_deleted_room_step(room_id, step),
    {
        if !progress.plan_dropped {
            return DeletedRoomStep::DropSessionPlan;
        }
        match progress.ready_cleared {
            None => {
                self.clear_room_application(room_id);
                DeletedRoomStep::ClearReadyPlayers
            },
            Some(_) => match progress.claim {
                None => DeletedRoomStep::Claim { instance: self.instance_id() },
                Some(claim) => DeletedRoomStep::Done { publishes: publishes_room_closed(claim) },
            },
        }
    }
}

/// Whatever each step about a deleted room comes to, the next one follows: its
/// session plan, its owner, and its ready set are all seen to before the cleanup
/// is claimed, and a ready set that could not be cleared holds nothing up.
pub proof fn law_deleted_rooms_are_seen_to_in_order(
    server: ServerView,
    room: RoomId,
    cleared: bool,
    claim: Result<bool, ()>,
)
    ensures
        ({
            let instance = server.instance_id;
            let start = DeletedRoomProgress {
                plan_dropped: false,
                ready_cleared: None,
                claim: None,
            };
            let dropped = DeletedRoomProgress { plan_dropped: true, ..start };
            let ready = DeletedRoomProgress { ready_cleared: Some(cleared), ..dropped };
            let claimed = DeletedRoomProgress { claim: Some(claim), ..ready };
            let forgotten = server.after_deleted_room_step(room, dropped.spec_step(instance));
            &&& start.spec_step(instance) is DropSessionPlan
            &&& dropped.spec_step(instance) is ClearReadyPlayers
            &&& !forgotten.applications.contains_key(room)
            &&& forall|other: RoomId|
                other != room && server.applications.contains_key(other)
                    ==> #[trigger] forgotten.applications.contains_key(other)
                    && forgotten.applications[other] == server.applications[other]
            &&& ready.spec_step(instance) == (DeletedRoomStep::Claim { instance })
            &&& claimed.spec_step(instance) == (DeletedRoomStep::Done {
                publishes: claim is Err || claim == Ok::<bool, ()>(true),
            })
        }),
{
}

/// A retried removal never touches a player that is seated in the room again: it
/// is forgotten instead.
pub proof fn law_retried_removals_spare_seated_players(
    server: ServerView,
    room: RoomId,
    player: PlayerId,
)
    requires
        server.manager.room_of(player) == Some(room),
    ensures
        server.detach_step(
            room,
            player,
            (DetachProgress { room: None, claim: None, removed: None, rolled_back: None }),
        ) == (DetachStep::Done { forgotten: true, cleaned: false }),
{
}

/// A removal is kept for retry whenever its row or its claim could not be
/// removed, and it counts as cleaned only once it is forgotten.
pub proof fn law_failed_removals_are_retried(
    server: ServerView,
    room: RoomId,
    player: PlayerId,
    progress: DetachProgress,
)
    requires
        server.detach_pending(room, player),
        progress.room == Some(RoomRead::Present) || progress.room == Some(RoomRead::Unreadable),
    ensures
        progress.removed == Some(false) || progress.claim is Some && progress.rolled_back == Some(
            false,
        ) && progress.removed is Some ==> {
            let step = server.detach_step(room, player, progress);
            &&& step == (DetachStep::Done { forgotten: false, cleaned: false })
            &&& server.after_detach_step(room, player, step).detach_pending(room, player)
        },
        server.detach_step(room, player, progress) matches DetachStep::Done { forgotten, cleaned }
            ==> cleaned == forgotten,
{
}

/// A retried removal asks storage for the room unless the player sits there
/// again, removes the row unless the room is gone, and takes the claim back once
/// the row is gone; it is forgotten exactly if nothing is left to do, and counts
/// as cleaned exactly if it was still pending then.
pub proof fn law_retried_removals_ask_in_order(
    server: ServerView,
    room: RoomId,
    player: PlayerId,
    progress: DetachProgress,
)
    ensures
        ({
            let step = server.detach_step(room, player, progress);
            let pending = server.detaches.contains_key((room, player));
            let seated = server.manager.clients.contains_key(player)
                && server.manager.clients[player].room_id == Some(room);
            let kept = progress.room == Some(RoomRead::Present) || progress.room == Some(
                RoomRead::Unreadable,
            );
            let removed = kept && progress.removed == Some(true);
            let settled = removed && (progress.claim is None || progress.rolled_back == Some(true));
            let failed = kept && (progress.removed == Some(false) || (removed && progress.claim
                is Some && progress.rolled_back == Some(false)));
            &&& step is ReadRoom <==> progress.room is None && !seated
            &&& step is RemovePlayer <==> kept && progress.removed is None
            &&& step matches DetachStep::RemovePlayer { claim } ==> claim == (if pending {
                server.detaches[(room, player)]
            } else {
                None
            })
            &&& step is RollBackClaim <==> removed && progress.claim is Some && progress.rolled_back
                is None
            &&& step matches DetachStep::RollBackClaim { app } ==> progress.claim == Some(app)
            &&& (step matches DetachStep::Done { forgotten: true, .. }) <==> (progress.room is None
                && seated) || progress.room == Some(RoomRead::Missing) || settled
            &&& (step matches DetachStep::Done { forgotten: false, .. }) <==> failed
            &&& (step matches DetachStep::Done { cleaned: true, .. }) <==> pending && (progress.room
                == Some(RoomRead::Missing) || settled)
        }),
{
    assert(progress.removed is Some && progress.removed != Some(false) ==> progress.removed == Some(
        true,
    )) by {
        if let Some(removed) = progress.removed {
            if removed {
                assert(progress.removed == Some(true));
            } else {
                assert(progress.removed == Some(false));
            }
        }
    }
    assert(progress.rolled_back is Some && progress.rolled_back != Some(false)
        ==> progress.rolled_back == Some(true)) by {
        if let Some(rolled_back) = progress.rolled_back {
            if rolled_back {
                assert(progress.rolled_back == Some(true));
            } else {
                assert(progress.rolled_back == Some(false));
            }
        }
    }
}

/// A step forgets exactly the removal it is about, and only once that is settled.
pub proof fn law_only_settled_removals_are_forgotten(
    server: ServerView,
    room: RoomId,
    player: PlayerId,
    step: DetachStep,
    other: (RoomId, PlayerId),
)
    requires
        other != (room, player),
    ensures
        ({
            let after = server.after_detach_step(room, player, step);
            &&& after == (ServerView { detaches: after.detaches, ..server })
            &&& after.detaches.contains_key(other) == server.detaches.contains_key(other)
            &&& server.detaches.contains_key(other) ==> after.detaches[other]
                == server.detaches[other]
            &&& (step matches DetachStep::Done { forgotten: true, .. }) ==> !after.detach_pending(
                room,
                player,
            )
            &&& !(step matches DetachStep::Done { forgotten: true, .. }) ==> after == server
        }),
{
}

/// The counts of a sweep are the numbers of its entries that were cleaned up.
pub proof fn law_sweeps_count_what_was_cleaned(steps: Seq<DetachStep>, swept: Seq<bool>)
    ensures
        cleaned_count(steps) == steps.filter(
            |step: DetachStep| step matches DetachStep::Done { cleaned: true, .. },
        ).len(),
        swept_count(swept) == swept.filter(|one: bool| one).len(),
    decreases steps.len() + swept.len(),
{
    reveal(Seq::filter);
    if steps.len() > 0 {
        law_sweeps_count_what_was_cleaned(steps.drop_last(), Seq::empty());
    }
    if swept.len() > 0 {
        law_sweeps_count_what_was_cleaned(Seq::empty(), swept.drop_last());
    }
}

/// The closing of a deleted room is published once all else is seen to, exactly
/// unless another instance holds the claim, and each step comes exactly when it
/// is next.
pub proof fn law_deleted_rooms_are_published_unless_claimed_elsewhere(
    progress: DeletedRoomProgress,
    instance: u128,
)
    ensures
        ({
            let step = progress.spec_step(instance);
            &&& step is DropSessionPlan <==> !progress.plan_dropped
            &&& step is ClearReadyPlayers <==> progress.plan_dropped && progress.ready_cleared
                is None
            &&& step is Claim <==> progress.plan_dropped && progress.ready_cleared is Some
                && progress.claim is None
            &&& step matches DeletedRoomStep::Claim { instance: claims } ==> claims == instance
            &&& step is Done <==> progress.plan_dropped && progress.ready_cleared is Some
                && progress.claim is Some
            &&& step matches DeletedRoomStep::Done { publishes } ==> (publishes <==> !(
            progress.claim->0 is Ok && !(progress.claim->0->Ok_0)))
        }),
{
    if let Some(Ok(claimed)) = progress.claim {
        if claimed {
            assert(progress.claim->0 == Ok::<bool, ()>(true));
        } else {
            assert(progress.claim->0 == Ok::<bool, ()>(false));
        }
    }
}

} // verus!
