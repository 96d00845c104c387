//! The order of relay stamps over the life of a sender.

use vstd::prelude::*;

use crate::connection::{ConnectionView, MembershipGeneration, RelayStamp};
use crate::protocol::RoomId;

verus! {

/// The order recipients compare stamps in: by epoch, then by sequence number.
pub open spec fn stamp_precedes(earlier: RelayStamp, later: RelayStamp) -> bool {
    earlier.epoch < later.epoch || (earlier.epoch == later.epoch && earlier.seq < later.seq)
}

/// What can happen to a sender's stamp stream under one identity.
pub ghost enum RelayEvent {
    /// It is seated in a room.
    Enter { room: RoomId, generation: MembershipGeneration },
    /// Its seated membership ends.
    Leave { generation: MembershipGeneration },
    /// A prepared entry is undone.
    RollBack,
    /// A frame of it is stamped for `room`.
    Stamp { room: RoomId },
}

/// Whether an event stamps a frame.
pub open spec fn issues_stamp(sender: ConnectionView, event: RelayEvent) -> bool {
    match event {
        RelayEvent::Stamp { room } => sender.room_id == Some(room) && sender.game_data_seq
            < u64::MAX,
        _ => false,
    }
}

/// The sender after an event. A stamp for a room it is not seated in, or past
/// the end of the sequence, is refused.
pub open spec fn after_event(sender: ConnectionView, event: RelayEvent) -> ConnectionView {
    match event {
        RelayEvent::Enter { room, generation } => sender.entered_room(room, generation),
        RelayEvent::Leave { generation } => sender.left_room(generation),
        RelayEvent::RollBack => sender.entry_rolled_back(),
        RelayEvent::Stamp { .. } => if issues_stamp(sender, event) {
            sender.stamped()
        } else {
            sender
        },
    }
}

/// The sender after a run of events.
pub open spec fn after_events(sender: ConnectionView, events: Seq<RelayEvent>) -> ConnectionView
    decreases events.len(),
{
    if events.len() == 0 {
        sender
    } else {
        after_event(after_events(sender, events.drop_last()), events.last())
    }
}

/// How often the sender enters a room over a run of events.
pub open spec fn entries(events: Seq<RelayEvent>) -> nat
    decreases events.len(),
{
    if events.len() == 0 {
        0
    } else if events.last() is Enter {
        entries(events.drop_last()) + 1
    } else {
        entries(events.drop_last())
    }
}

/// The stamps issued over a run of events, in order.
pub open spec fn stamps_issued(sender: ConnectionView, events: Seq<RelayEvent>) -> Seq<RelayStamp>
    decreases events.len(),
{
    if events.len() == 0 {
        Seq::empty()
    } else {
        let before = after_events(sender, events.drop_last());
        let issued = stamps_issued(sender, events.drop_last());
        if issues_stamp(before, events.last()) {
            issued.push(before.stamped().stamp())
        } else {
            issued
        }
    }
}

/// Whether every stamp issued so far lies behind what `sender` can still
/// issue: behind its current stamp while it is seated, and in an epoch that
/// its next entry leaves behind while it is not.
spec fn covers(sender: ConnectionView, issued: Seq<RelayStamp>) -> bool {
    forall|i: int|
        0 <= i < issued.len() ==> if sender.room_id is Some {
            (#[trigger] issued[i]) == sender.stamp() || stamp_precedes(issued[i], sender.stamp())
        } else {
            issued[i].epoch <= sender.game_data_epoch
        }
}

proof fn lemma_issued_stamps_are_covered(sender: ConnectionView, events: Seq<RelayEvent>)
    requires
        sender.game_data_epoch + entries(events) <= u32::MAX,
    ensures
        covers(after_events(sender, events), stamps_issued(sender, events)),
        after_events(sender, events).game_data_epoch == sender.game_data_epoch + entries(events),
        forall|i: int, j: int|
            #![trigger stamps_issued(sender, events)[i], stamps_issued(sender, events)[j]]
            0 <= i < j < stamps_issued(sender, events).len() ==> stamp_precedes(
                stamps_issued(sender, events)[i],
                stamps_issued(sender, events)[j],
            ),
    decreases events.len(),
{
    if events.len() > 0 {
        let earlier = events.drop_last();
        lemma_issued_stamps_are_covered(sender, earlier);
        let before = after_events(sender, earlier);
        let issued = stamps_issued(sender, earlier);
        let after = after_events(sender, events);
        let all = stamps_issued(sender, events);
        assert(after == after_event(before, events.last()));
        assert forall|i: int| 0 <= i < all.len() implies if after.room_id is Some {
            (#[trigger] all[i]) == after.stamp() || stamp_precedes(all[i], after.stamp())
        } else {
            all[i].epoch <= after.game_data_epoch
        } by {
            if i < issued.len() {
                assert(all[i] == issued[i]);
            }
        }
        assert forall|i: int, j: int|
            #![trigger all[i], all[j]]
            0 <= i < j < all.len() implies stamp_precedes(all[i], all[j]) by {
            assert(all[i] == issued[i]);
            if j < issued.len() {
                assert(all[j] == issued[j]);
            }
        }
    }
}

/// The stamps of one sender strictly increase, over leaving, rejoining the
/// same room, and switching rooms: no recipient ever sees a stamp repeated or
/// going back. Left out are senders that use up the epochs: there the last
/// incarnation is reused.
pub proof fn law_stamps_strictly_increase(
    sender: ConnectionView,
    events: Seq<RelayEvent>,
    earlier: int,
    later: int,
)
    requires
        sender.game_data_epoch + entries(events) <= u32::MAX,
        0 <= earlier < later < stamps_issued(sender, events).len(),
    ensures
        stamp_precedes(
            stamps_issued(sender, events)[earlier],
            stamps_issued(sender, events)[later],
        ),
{
    lemma_issued_stamps_are_covered(sender, events);
}

/// The stamp captured when a membership ends is its last: every stamp issued
/// for it lies at or before that tail, and no further stamp is issued until
/// the sender enters a room again.
pub proof fn law_terminal_tail_is_final(
    sender: ConnectionView,
    generation: MembershipGeneration,
    room: RoomId,
)
    ensures
        sender.left_room(generation).room_id is None,
        !issues_stamp(sender.left_room(generation), RelayEvent::Stamp { room }),
        issues_stamp(sender, RelayEvent::Stamp { room }) ==> stamp_precedes(
            sender.stamp(),
            sender.stamped().stamp(),
        ) && sender.stamped().left_room(generation).game_data_epoch == sender.game_data_epoch,
{
}

/// The first stamp after an entry has sequence number one, in an epoch past
/// the one before.
pub proof fn law_entry_restarts_the_sequence(
    sender: ConnectionView,
    room: RoomId,
    generation: MembershipGeneration,
)
    requires
        sender.game_data_epoch < u32::MAX,
    ensures
        sender.entered_room(room, generation).stamped().stamp() == (RelayStamp {
            seq: 1,
            epoch: (sender.game_data_epoch + 1) as u32,
        }),
{
}

/// A sender that reconnects in an epoch past its last one stamps past
/// everything it has stamped before, for a recipient that never left.
pub proof fn law_resumed_streams_follow_the_earlier_one(
    sender: ConnectionView,
    room: RoomId,
    epoch: u32,
    generation: MembershipGeneration,
    now: crate::connection::Moment,
    earlier: RelayStamp,
)
    requires
        earlier.epoch < epoch,
    ensures
        stamp_precedes(
            earlier,
            sender.reassigned(room, epoch, generation, now).stamped().stamp(),
        ),
        sender.reassigned(room, epoch, generation, now).stamped().stamp().seq == 1,
{
}

} // verus!
