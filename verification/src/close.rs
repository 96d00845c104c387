//! Why a connection is closed, and which close request wins.

use vstd::prelude::*;

verus! {

/// The reason a connection's socket tasks are asked to close with.
#[derive(Clone, Copy, Debug, PartialEq, Eq, Structural)]
pub enum CloseReason {
    AuthTimeout,
    ActivityTimeout,
    IdleTimeout,
    SlowConsumer,
    OutboundMessageTooLarge,
    InboundRateLimited,
    Unregistered,
    Shutdown,
    RoomInactive,
}

/// Per-socket close reasons: pinned for one socket's own quietness,
/// congestion, abuse, or teardown, so they must not cross a reconnect
/// identity swap.
pub open spec fn transient_socket_close_reason(reason: CloseReason) -> bool {
    !(reason is Shutdown) && !(reason is RoomInactive)
}

/// Whether `reason` belongs to one socket only. Identity- and room-scoped
/// reasons (`Shutdown`, `RoomInactive`) still follow a restored identity: a
/// drain must close restored connections, and a room pin reflects the room.
/// Every variant is listed so that a new one has to be classified here.
pub fn is_transient_socket_close_reason(reason: CloseReason) -> (transient: bool)
    ensures
        transient == transient_socket_close_reason(reason),
{
    match reason {
        CloseReason::AuthTimeout
        | CloseReason::ActivityTimeout
        | CloseReason::IdleTimeout
        | CloseReason::SlowConsumer
        | CloseReason::OutboundMessageTooLarge
        | CloseReason::InboundRateLimited
        | CloseReason::Unregistered => true,
        CloseReason::Shutdown | CloseReason::RoomInactive => false,
    }
}

/// Whether a request for `reason` takes effect while `current` is pinned: the
/// first request wins, except that `Shutdown` supersedes any other reason.
pub open spec fn close_takes_effect(current: Option<CloseReason>, reason: CloseReason) -> bool {
    match current {
        None => true,
        Some(pinned) => reason is Shutdown && !(pinned is Shutdown),
    }
}

/// The reason pinned after a request for `reason` while `current` is pinned.
pub open spec fn close_after(current: Option<CloseReason>, reason: CloseReason) -> Option<
    CloseReason,
> {
    if close_takes_effect(current, reason) {
        Some(reason)
    } else {
        current
    }
}

/// The close signal of one physical connection.
#[derive(Clone, Copy, Debug, PartialEq, Eq, Structural)]
pub struct ConnectionCloseSignal {
    pub requested: Option<CloseReason>,
}

impl ConnectionCloseSignal {
    /// A signal nobody has pulled yet.
    pub fn detached() -> (signal: Self)
        ensures
            signal.requested is None,
    {
        ConnectionCloseSignal { requested: None }
    }

    /// The reason the socket tasks close with, once one has been requested.
    pub fn requested_reason(&self) -> (reason: Option<CloseReason>)
        ensures
            reason == self.requested,
    {
        self.requested
    }

    /// Request a close. Returns whether this call initiated one: superseding
    /// an earlier reason by `Shutdown` re-pins the reason of a close that was
    /// already under way.
    pub fn request_close(&mut self, reason: CloseReason) -> (initiated: bool)
        ensures
            final(self).requested == close_after(old(self).requested, reason),
            initiated == (old(self).requested is None),
    {
        match self.requested {
            None => {
                self.requested = Some(reason);
                true
            },
            Some(pinned) => {
                if reason == CloseReason::Shutdown && pinned != CloseReason::Shutdown {
                    self.requested = Some(reason);
                }
                false
            },
        }
    }
}

/// A pinned close is never withdrawn, and only `Shutdown` can replace it.
pub proof fn law_pinned_close_is_stable(current: CloseReason, reason: CloseReason)
    ensures
        close_after(Some(current), reason) is Some,
        close_after(Some(current), reason) != Some(current) ==> reason is Shutdown,
        close_after(Some(CloseReason::Shutdown), reason) == Some(CloseReason::Shutdown),
{
}

/// The first close request wins, unless a later one is for the shutdown: that
/// one always wins.
pub proof fn law_the_first_close_wins_unless_for_shutdown(
    current: Option<CloseReason>,
    reason: CloseReason,
)
    ensures
        current is None ==> close_after(current, reason) == Some(reason),
        reason == CloseReason::Shutdown ==> close_after(current, reason) == Some(
            CloseReason::Shutdown,
        ),
        current is Some && reason != CloseReason::Shutdown ==> close_after(current, reason)
            == current,
        close_after(close_after(current, reason), reason) == close_after(current, reason),
{
}

/// Every close belongs to one socket only, but for the two that follow an
/// identity: the shutdown and the end of its room.
pub proof fn law_only_shutdown_and_room_closes_follow_the_identity(reason: CloseReason)
    ensures
        !transient_socket_close_reason(reason) <==> reason == CloseReason::Shutdown || reason
            == CloseReason::RoomInactive,
{
}

} // verus!
