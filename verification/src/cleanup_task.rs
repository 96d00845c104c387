//! The periodic cleanup task, step by step: evict the clients that went quiet,
//! then sweep.
//!
//! Between two steps the caller performs what the last step asked for, and the
//! shutdown drain may begin.

use vstd::prelude::*;
use vstd::string::*;

use crate::close::CloseReason;
use crate::connection::{Moment, Nanos};
use crate::durations::{chrono_duration_from_std, NANOS_PER_MILLI, NANOS_PER_SEC};
use crate::errors::append_decimal;
use crate::protocol::PlayerId;
use crate::server::{EnhancedGameServer, ServerView};

verus! {

/// The sweeps of a tick, in the order they run.
#[derive(Clone, Copy, Debug, PartialEq, Eq, Structural)]
pub enum Sweep {
    /// Retry the durable detach of disconnected spectators.
    SpectatorDetaches,
    /// Retry player removals that failed.
    PendingDetaches,
    /// Delete rooms that have been empty too long, and what belongs to them.
    EmptyRooms,
    /// Delete rooms that expired otherwise.
    ExpiredRooms,
    /// Close the clients whose room is gone.
    MissingRoomClients,
    /// Forget the spectators of rooms that are gone.
    SpectatorRoles,
    /// Forget the session plans of rooms that are gone.
    SessionPlans,
    /// Forget the owners of rooms that are gone.
    RoomApplications,
    /// Forget the ready sets of rooms that are gone.
    ReadyPlayers,
    /// Release expired locks.
    ExpiredLocks,
    /// Withdraw expired reconnection offers.
    ExpiredReconnections,
    /// Forget old cleanup claims.
    CleanupEvents,
}

impl Sweep {
    /// The place of a sweep in its tick.
    pub open spec fn place(self) -> nat {
        match self {
            Sweep::SpectatorDetaches => 0,
            Sweep::PendingDetaches => 1,
            Sweep::EmptyRooms => 2,
            Sweep::ExpiredRooms => 3,
            Sweep::MissingRoomClients => 4,
            Sweep::SpectatorRoles => 5,
            Sweep::SessionPlans => 6,
            Sweep::RoomApplications => 7,
            Sweep::ReadyPlayers => 8,
            Sweep::ExpiredLocks => 9,
            Sweep::ExpiredReconnections => 10,
            Sweep::CleanupEvents => 11,
        }
    }

    /// The sweep after this one, unless this is the last.
    pub open spec fn spec_following(self) -> Option<Sweep> {
        match self {
            Sweep::SpectatorDetaches => Some(Sweep::PendingDetaches),
            Sweep::PendingDetaches => Some(Sweep::EmptyRooms),
            Sweep::EmptyRooms => Some(Sweep::ExpiredRooms),
            Sweep::ExpiredRooms => Some(Sweep::MissingRoomClients),
            Sweep::MissingRoomClients => Some(Sweep::SpectatorRoles),
            Sweep::SpectatorRoles => Some(Sweep::SessionPlans),
            Sweep::SessionPlans => Some(Sweep::RoomApplications),
            Sweep::RoomApplications => Some(Sweep::ReadyPlayers),
            Sweep::ReadyPlayers => Some(Sweep::ExpiredLocks),
            Sweep::ExpiredLocks => Some(Sweep::ExpiredReconnections),
            Sweep::ExpiredReconnections => Some(Sweep::CleanupEvents),
            Sweep::CleanupEvents => None,
        }
    }

    /// The sweep after this one, unless this is the last.
    pub fn following(self) -> (sweep: Option<Sweep>)
        ensures
            sweep == self.spec_following(),
    {
        match self {
            Sweep::SpectatorDetaches => Some(Sweep::PendingDetaches),
            Sweep::PendingDetaches => Some(Sweep::EmptyRooms),
            Sweep::EmptyRooms => Some(Sweep::ExpiredRooms),
            Sweep::ExpiredRooms => Some(Sweep::MissingRoomClients),
            Sweep::MissingRoomClients => Some(Sweep::SpectatorRoles),
            Sweep::SpectatorRoles => Some(Sweep::SessionPlans),
            Sweep::SessionPlans => Some(Sweep::RoomApplications),
            Sweep::RoomApplications => Some(Sweep::ReadyPlayers),
            Sweep::ReadyPlayers => Some(Sweep::ExpiredLocks),
            Sweep::ExpiredLocks => Some(Sweep::ExpiredReconnections),
            Sweep::ExpiredReconnections => Some(Sweep::CleanupEvents),
            Sweep::CleanupEvents => None,
        }
    }
}

/// How far a tick has come.
#[derive(Clone, Copy, Debug, PartialEq, Eq, Structural)]
pub enum CleanupStage {
    /// The quiet clients were collected.
    Collected,
    /// The next quiet client is about to be told.
    Evict,
    /// Its farewell was tried.
    Farewell,
    /// Every quiet client was seen to.
    Counted,
    /// The drain began meanwhile.
    CountedForDrain,
    Sweeping(Sweep),
    /// The task ends: the server drains.
    Stopped,
    /// The tick is over.
    Finished,
}

/// One tick of the cleanup task.
#[derive(Debug)]
pub struct CleanupTick {
    /// The clients that were quiet for too long when the tick began.
    pub expired: Vec<PlayerId>,
    /// The one that is being seen to.
    pub next: usize,
    /// Whether this tick owns its close.
    pub pinned: bool,
    /// How many were evicted.
    pub evicted: u64,
    pub stage: CleanupStage,
}

/// What the caller does next.
#[derive(Clone, Copy, Debug, PartialEq, Eq, Structural)]
pub enum CleanupAction {
    /// Nothing: take the next step.
    Continue,
    /// Try the eviction farewell; whether it is wanted is asked right before it
    /// is enqueued.
    SendFarewell { player: PlayerId },
    Unregister { player: PlayerId },
    /// Count the evicted clients.
    CountEvicted { count: u64 },
    Run(Sweep),
    /// Leave the task: the server drains.
    Stop,
    /// Wait for the next tick.
    Wait,
}

/// The text a client is told before it is evicted.
pub open spec fn eviction_text(ping_timeout: Nanos) -> Seq<char> {
    "Disconnected: no activity received for "@ + crate::errors::decimal(
        (ping_timeout / NANOS_PER_MILLI) as nat,
    ) + " ms (server.ping_timeout)"@
}

/// The count of evicted clients, as an action.
pub open spec fn count_action(evicted: u64) -> CleanupAction {
    if evicted > 0 {
        CleanupAction::CountEvicted { count: evicted }
    } else {
        CleanupAction::Continue
    }
}

fn count_evicted(evicted: u64) -> (action: CleanupAction)
    ensures
        action == count_action(evicted),
{
    if evicted > 0 {
        CleanupAction::CountEvicted { count: evicted }
    } else {
        CleanupAction::Continue
    }
}

impl CleanupTick {
    /// A client that is being seen to is one of the collected ones.
    pub open spec fn wf(&self) -> bool {
        &&& self.next <= self.expired@.len()
        &&& self.stage is Farewell ==> self.next < self.expired@.len()
    }

    /// The client that is being seen to.
    pub open spec fn client(&self) -> PlayerId {
        self.expired@[self.next as int]
    }

    /// Whether the close of that client can be taken over at `now`: it is still
    /// quiet, and not closing yet.
    pub open spec fn evictable(&self, server: ServerView, now: Moment) -> bool {
        server.manager.clients.contains_key(self.client()) && server.manager.clients[self.client()].expired(
            now,
            server.config.ping_timeout,
        ) && server.manager.clients[self.client()].close is None
    }

    /// The server after the close of that client was asked for at `now`, if it
    /// is still quiet.
    pub open spec fn server_after_pin(&self, server: ServerView, now: Moment) -> ServerView {
        let player = self.client();
        if server.manager.clients.contains_key(player) && server.manager.clients[player].expired(
            now,
            server.config.ping_timeout,
        ) {
            server.closing(player, CloseReason::ActivityTimeout)
        } else {
            server
        }
    }

    /// What the next step asks the caller for.
    pub open spec fn action(&self, server: ServerView, now: Moment) -> CleanupAction {
        match self.stage {
            CleanupStage::Collected => if server.draining() {
                CleanupAction::Stop
            } else {
                CleanupAction::Continue
            },
            CleanupStage::Evict => if self.next < self.expired@.len() && !server.draining() {
                CleanupAction::SendFarewell { player: self.client() }
            } else {
                CleanupAction::Continue
            },
            CleanupStage::Farewell => if self.pinned || !server.draining() && self.evictable(
                server,
                now,
            ) {
                CleanupAction::Unregister { player: self.client() }
            } else {
                CleanupAction::Continue
            },
            CleanupStage::Counted | CleanupStage::CountedForDrain => count_action(self.evicted),
            CleanupStage::Sweeping(sweep) => CleanupAction::Run(sweep),
            CleanupStage::Stopped => CleanupAction::Stop,
            CleanupStage::Finished => CleanupAction::Wait,
        }
    }

    /// The stage after the next step.
    pub open spec fn next_stage(&self, server: ServerView) -> CleanupStage {
        match self.stage {
            CleanupStage::Collected => if server.draining() {
                CleanupStage::Stopped
            } else {
                CleanupStage::Evict
            },
            CleanupStage::Evict => if self.next >= self.expired@.len() {
                CleanupStage::Counted
            } else if server.draining() {
                CleanupStage::CountedForDrain
            } else {
                CleanupStage::Farewell
            },
            CleanupStage::Farewell => if !self.pinned && server.draining() {
                CleanupStage::CountedForDrain
            } else {
                CleanupStage::Evict
            },
            CleanupStage::Counted => CleanupStage::Sweeping(Sweep::SpectatorDetaches),
            CleanupStage::CountedForDrain => CleanupStage::Stopped,
            CleanupStage::Sweeping(sweep) => match sweep.spec_following() {
                Some(following) => CleanupStage::Sweeping(following),
                None => CleanupStage::Finished,
            },
            CleanupStage::Stopped => CleanupStage::Stopped,
            CleanupStage::Finished => CleanupStage::Finished,
        }
    }

    /// Whether `after` is this tick after the next step.
    pub open spec fn advances_to(&self, after: CleanupTick, server: ServerView, now: Moment) -> bool {
        let seen = self.stage is Farewell && (self.pinned || !server.draining());
        &&& after.expired == self.expired
        &&& after.stage == self.next_stage(server)
        &&& after.next == self.next + (if seen {
            1int
        } else {
            0int
        })
        &&& after.evicted == (if self.action(server, now) is Unregister && self.evicted < u64::MAX {
            self.evicted + 1
        } else {
            self.evicted as int
        })
        &&& after.pinned == (self.pinned && !(self.stage is Farewell) && !(self.stage is Evict))
    }

    /// The server after the next step.
    pub open spec fn server_after(&self, server: ServerView, now: Moment) -> ServerView {
        if self.stage is Farewell && !self.pinned && !server.draining() {
            self.server_after_pin(server, now)
        } else {
            server
        }
    }

    /// How many steps are left at most.
    pub open spec fn steps_left(&self) -> int {
        let waiting = self.expired@.len() - self.next;
        match self.stage {
            CleanupStage::Collected => 15 + 2 * waiting,
            CleanupStage::Evict => 14 + 2 * waiting,
            CleanupStage::Farewell => 13 + 2 * waiting,
            CleanupStage::Counted => 13,
            CleanupStage::CountedForDrain => 1,
            CleanupStage::Sweeping(sweep) => 12 - sweep.place(),
            CleanupStage::Stopped => 0,
            CleanupStage::Finished => 0,
        }
    }
}

impl EnhancedGameServer {
    /// How often the cleanup task runs: never more than once a second.
    pub fn cleanup_interval(&self) -> (interval: Nanos)
        ensures
            interval == (if self@.config.room_cleanup_interval < NANOS_PER_SEC {
                NANOS_PER_SEC
            } else {
                self@.config.room_cleanup_interval
            }),
    {
        if self.config.room_cleanup_interval < NANOS_PER_SEC {
            NANOS_PER_SEC
        } else {
            self.config.room_cleanup_interval
        }
    }

    /// The calendar spans after which an empty and an inactive room are
    /// deleted.
    pub fn room_timeouts(&self) -> (timeouts: (Nanos, Nanos))
        ensures
            timeouts.0 == crate::dashboard_cache::as_calendar(self@.config.empty_room_timeout),
            timeouts.1 == crate::dashboard_cache::as_calendar(self@.config.inactive_room_timeout),
    {
        (
            chrono_duration_from_std(self.config.empty_room_timeout),
            chrono_duration_from_std(self.config.inactive_room_timeout),
        )
    }

    /// The text a client is told before it is evicted. It goes out as an
    /// activity timeout, which is not the socket's idle timeout.
    pub fn eviction_farewell(&self) -> (text: String)
        ensures
            text@ == eviction_text(self@.config.ping_timeout),
    {
        let mut text = "Disconnected: no activity received for ".to_owned();
        append_decimal(&mut text, self.config.ping_timeout / NANOS_PER_MILLI);
        text.append(" ms (server.ping_timeout)");
        text
    }

    /// Begins a tick at `now`. A zero timeout evicts nobody.
    pub fn begin_cleanup_tick_at(&self, now: Moment) -> (tick: CleanupTick)
        ensures
            tick.wf(),
            tick.next == 0,
            !tick.pinned,
            tick.evicted == 0,
            tick.expired@.no_duplicates(),
            if self@.draining() {
                tick.stage is Stopped && tick.expired@.len() == 0
            } else {
                tick.stage is Collected && tick.expired@.to_set() == (
                if self@.config.ping_timeout == 0 {
                    Set::empty()
                } else {
                    self@.manager.expired_clients(now, self@.config.ping_timeout)
                })
            },
    {
        let draining = self.is_draining();
        let expired: Vec<PlayerId> = if draining || self.config.ping_timeout == 0 {
            Vec::new()
        } else {
            self.connection_manager.collect_expired_clients_at(now, self.config.ping_timeout)
        };
        proof {
            if self@.config.ping_timeout == 0 {
                assert(expired@.to_set() =~= Set::empty());
            }
        }
        CleanupTick {
            expired,
            next: 0,
            pinned: false,
            evicted: 0,
            stage: if draining {
                CleanupStage::Stopped
            } else {
                CleanupStage::Collected
            },
        }
    }

    /// Begins a tick.
    pub fn begin_cleanup_tick(&self) -> (tick: CleanupTick)
        ensures
            tick.wf(),
            tick.next == 0,
            !tick.pinned,
            tick.evicted == 0,
            tick.expired@.no_duplicates(),
            self@.draining() ==> tick.stage is Stopped && tick.expired@.len() == 0,
            !self@.draining() ==> tick.stage is Collected,
            !self@.draining() && self@.config.ping_timeout == 0 ==> tick.expired@.to_set()
                == Set::<PlayerId>::empty(),
            !self@.draining() && self@.config.ping_timeout != 0 ==> exists|now: Moment|
                tick.expired@.to_set() == #[trigger] self@.manager.expired_clients(
                    now,
                    self@.config.ping_timeout,
                ),
    {
        let now = self.connection_manager.now();
        self.begin_cleanup_tick_at(now)
    }

    /// Whether the eviction farewell is still wanted at `now`, asked right
    /// before it is enqueued. The client is checked again and its close is
    /// pinned first, so that the farewell never goes to a connection that a
    /// later message rescued.
    pub fn eviction_farewell_wanted_at(&mut self, tick: &mut CleanupTick, now: Moment) -> (wanted:
        bool)
        requires
            old(self).wf(),
            old(tick).wf(),
            old(tick).stage is Farewell,
        ensures
            final(self).wf(),
            final(tick).wf(),
            wanted == (old(tick).pinned || !old(self)@.draining() && old(tick).evictable(
                old(self)@,
                now,
            )),
            *final(tick) == (CleanupTick { pinned: wanted, ..*old(tick) }),
            final(self)@ == (if !old(tick).pinned && !old(self)@.draining() {
                old(tick).server_after_pin(old(self)@, now)
            } else {
                old(self)@
            }),
    {
        if tick.pinned {
            return true;
        }
        let pinned = if self.is_draining() {
            false
        } else {
            self.connection_manager.request_activity_timeout_if_expired_at(
                tick.expired[tick.next],
                now,
                self.config.ping_timeout,
            )
        };
        tick.pinned = pinned;
        pinned
    }

    /// Takes the step after a farewell: the client is evicted if its close
    /// belongs to this tick by now, and left alone if it was heard from.
    fn settle_eviction(&mut self, tick: &mut CleanupTick, now: Moment) -> (action: CleanupAction)
        requires
            old(self).wf(),
            old(tick).wf(),
            old(tick).stage is Farewell,
        ensures
            final(self).wf(),
            final(tick).wf(),
            action == old(tick).action(old(self)@, now),
            old(tick).advances_to(*final(tick), old(self)@, now),
            final(self)@ == old(tick).server_after(old(self)@, now),
    {
        assert(tick.next < tick.expired.len());
        let player = tick.expired[tick.next];
        let mut pinned = tick.pinned;
        tick.pinned = false;
        if !pinned {
            if self.is_draining() {
                tick.stage = CleanupStage::CountedForDrain;
                return CleanupAction::Continue;
            }
            pinned = self.connection_manager.request_activity_timeout_if_expired_at(
                player,
                now,
                self.config.ping_timeout,
            );
        }
        tick.next = tick.next + 1;
        tick.stage = CleanupStage::Evict;
        if pinned {
            tick.evicted = tick.evicted.saturating_add(1);
            CleanupAction::Unregister { player }
        } else {
            CleanupAction::Continue
        }
    }

    /// Takes the next step of the cleanup task at `now`.
    pub fn cleanup_task_until(&mut self, tick: &mut CleanupTick, now: Moment) -> (action:
        CleanupAction)
        requires
            old(self).wf(),
            old(tick).wf(),
        ensures
            final(self).wf(),
            final(tick).wf(),
            action == old(tick).action(old(self)@, now),
            old(tick).advances_to(*final(tick), old(self)@, now),
            final(self)@ == old(tick).server_after(old(self)@, now),
    {
        match tick.stage {
            CleanupStage::Collected => {
                if self.is_draining() {
                    tick.stage = CleanupStage::Stopped;
                    CleanupAction::Stop
                } else {
                    tick.stage = CleanupStage::Evict;
                    CleanupAction::Continue
                }
            },
            CleanupStage::Evict => {
                tick.pinned = false;
                if tick.next >= tick.expired.len() {
                    tick.stage = CleanupStage::Counted;
                    CleanupAction::Continue
                } else if self.is_draining() {
                    tick.stage = CleanupStage::CountedForDrain;
                    CleanupAction::Continue
                } else {
                    tick.stage = CleanupStage::Farewell;
                    CleanupAction::SendFarewell { player: tick.expired[tick.next] }
                }
            },
            CleanupStage::Farewell => self.settle_eviction(tick, now),
            CleanupStage::Counted => {
                tick.stage = CleanupStage::Sweeping(Sweep::SpectatorDetaches);
                count_evicted(tick.evicted)
            },
            CleanupStage::CountedForDrain => {
                tick.stage = CleanupStage::Stopped;
                count_evicted(tick.evicted)
            },
            CleanupStage::Sweeping(sweep) => {
                match sweep.following() {
                    Some(following) => {
                        tick.stage = CleanupStage::Sweeping(following);
                    },
                    None => {
                        tick.stage = CleanupStage::Finished;
                    },
                }
                CleanupAction::Run(sweep)
            },
            CleanupStage::Stopped => CleanupAction::Stop,
            CleanupStage::Finished => CleanupAction::Wait,
        }
    }
}

/// Every step brings a tick closer to its end.
pub proof fn law_cleanup_ticks_end(
    tick: CleanupTick,
    after: CleanupTick,
    server: ServerView,
    now: Moment,
)
    requires
        tick.wf(),
        tick.advances_to(after, server, now),
        !(tick.stage is Stopped) && !(tick.stage is Finished),
    ensures
        0 <= after.steps_left() < tick.steps_left(),
{
}

/// The sweeps of a tick run in their order, none twice and none left out.
pub proof fn law_sweeps_run_in_order(
    tick: CleanupTick,
    after: CleanupTick,
    server: ServerView,
    now: Moment,
    sweep: Sweep,
)
    requires
        tick.stage == CleanupStage::Sweeping(sweep),
        tick.advances_to(after, server, now),
    ensures
        tick.action(server, now) == CleanupAction::Run(sweep),
        match after.stage {
            CleanupStage::Sweeping(following) => following.place() == sweep.place() + 1,
            CleanupStage::Finished => sweep is CleanupEvents,
            _ => false,
        },
{
}

/// A client is evicted only if this tick owns its close: it was still quiet
/// when its close was pinned, and it closes for that.
pub proof fn law_evictions_are_pinned_first(tick: CleanupTick, server: ServerView, now: Moment)
    requires
        tick.wf(),
        tick.action(server, now) is Unregister,
        !tick.pinned,
    ensures
        tick.action(server, now) == (CleanupAction::Unregister { player: tick.client() }),
        server.manager.clients[tick.client()].expired(now, server.config.ping_timeout),
        tick.server_after(server, now).manager.clients[tick.client()].close == Some(
            CloseReason::ActivityTimeout,
        ),
{
}

/// A client heard from since the tick began is neither told nor evicted, and
/// stays exactly as it is.
pub proof fn law_rescued_clients_are_left_alone(tick: CleanupTick, server: ServerView, now: Moment)
    requires
        tick.wf(),
        tick.stage is Farewell,
        !tick.pinned,
        !server.manager.clients[tick.client()].expired(now, server.config.ping_timeout),
    ensures
        !tick.evictable(server, now),
        tick.server_after_pin(server, now) == server,
        tick.action(server, now) is Continue,
        tick.server_after(server, now) == server,
{
}

/// Once the server drains, a tick that has not begun to sweep evicts nobody
/// whose close it does not own already, and sweeps nothing.
pub proof fn law_drain_stops_the_tick(tick: CleanupTick, server: ServerView, now: Moment)
    requires
        tick.wf(),
        server.draining(),
    ensures
        tick.stage is Collected ==> tick.next_stage(server) is Stopped,
        tick.stage is Evict && tick.next < tick.expired@.len() ==> tick.next_stage(server)
            is CountedForDrain,
        tick.stage is Farewell && !tick.pinned ==> tick.next_stage(server) is CountedForDrain
            && tick.action(server, now) is Continue,
        tick.stage is CountedForDrain ==> tick.next_stage(server) is Stopped,
        tick.stage is Farewell && !tick.pinned ==> tick.server_after(server, now) == server,
{
}

/// Every quiet client is told in turn; it is evicted exactly if the tick owns its
/// close or takes it over now, from a client that is still quiet and not closing;
/// then the evictions are counted, the sweeps run, and the tick waits for the
/// next. A drain stops the task.
pub proof fn law_ticks_ask_in_order(tick: CleanupTick, server: ServerView, now: Moment)
    requires
        tick.wf(),
    ensures
        ({
            let action = tick.action(server, now);
            let draining = server.drain_deadline_ms != 0;
            let player = tick.expired@[tick.next as int];
            let client = server.manager.clients[player];
            let quiet = server.manager.clients.contains_key(player) && now > client.last_ping
                + server.config.ping_timeout;
            &&& action is SendFarewell <==> tick.stage is Evict && tick.next < tick.expired@.len()
                && !draining
            &&& action matches CleanupAction::SendFarewell { player: told } ==> told == player
            &&& action is Unregister <==> tick.stage is Farewell && (tick.pinned || (!draining
                && quiet && client.close is None))
            &&& action matches CleanupAction::Unregister { player: evicted } ==> evicted == player
            &&& action is CountEvicted <==> (tick.stage is Counted || tick.stage is CountedForDrain)
                && tick.evicted > 0
            &&& action matches CleanupAction::CountEvicted { count } ==> count == tick.evicted
            &&& action is Run <==> tick.stage is Sweeping
            &&& action matches CleanupAction::Run(sweep) ==> tick.stage == CleanupStage::Sweeping(
                sweep,
            )
            &&& action is Stop <==> tick.stage is Stopped || (tick.stage is Collected && draining)
            &&& action is Wait <==> tick.stage is Finished
        }),
{
}

/// A tick moves on to the next client exactly once the current one is seen to,
/// counts exactly those it evicts, and begins with the spectators once all are
/// counted; everything the drain cuts short is still counted.
pub proof fn law_ticks_count_what_they_evict(
    tick: CleanupTick,
    after: CleanupTick,
    server: ServerView,
    now: Moment,
)
    requires
        tick.wf(),
        tick.advances_to(after, server, now),
        tick.evicted < u64::MAX,
    ensures
        ({
            let draining = server.drain_deadline_ms != 0;
            &&& after.expired == tick.expired
            &&& after.evicted - tick.evicted == (if tick.action(server, now) is Unregister {
                1int
            } else {
                0int
            })
            &&& after.next - tick.next == (if tick.stage is Farewell && (tick.pinned || !draining) {
                1int
            } else {
                0int
            })
            &&& tick.stage is Collected && !draining ==> after.stage is Evict
            &&& tick.stage is Evict && tick.next >= tick.expired@.len() ==> after.stage is Counted
            &&& tick.stage is Evict && tick.next < tick.expired@.len() && !draining ==> after.stage
                is Farewell && !after.pinned
            &&& tick.stage is Farewell && (tick.pinned || !draining) ==> after.stage is Evict
            &&& tick.stage is Counted ==> after.stage == CleanupStage::Sweeping(
                Sweep::SpectatorDetaches,
            )
            &&& tick.stage is Farewell || tick.stage is Evict ==> !after.pinned
        }),
{
}

/// A tick asks nobody to close but the quiet client it sees to.
pub proof fn law_ticks_touch_only_the_client_they_see_to(
    tick: CleanupTick,
    server: ServerView,
    now: Moment,
    other: PlayerId,
)
    requires
        tick.wf(),
        other != tick.expired@[tick.next as int],
    ensures
        ({
            let player = tick.expired@[tick.next as int];
            let client = server.manager.clients[player];
            let quiet = server.manager.clients.contains_key(player) && now > client.last_ping
                + server.config.ping_timeout;
            let pinned = tick.server_after_pin(server, now);
            let after = tick.server_after(server, now);
            &&& server.manager.clients.contains_key(other) ==> pinned.manager.clients[other]
                == server.manager.clients[other] && after.manager.clients[other]
                == server.manager.clients[other]
            &&& !quiet ==> pinned == server
            &&& quiet ==> pinned.manager.clients[player].close == (if client.close is None {
                Some(CloseReason::ActivityTimeout)
            } else {
                client.close
            })
            &&& pinned.routing == server.routing && after.routing == server.routing
            &&& tick.stage is Farewell && !tick.pinned && server.drain_deadline_ms == 0 ==> after
                == pinned
            &&& !(tick.stage is Farewell) || tick.pinned || server.drain_deadline_ms != 0 ==> after
                == server
            &&& tick.evictable(server, now) <==> quiet && client.close is None
        }),
{
}

/// The sweeps follow one another from the detaches of spectators to the cleanup
/// claims: rooms are deleted before what belonged to them is forgotten.
pub proof fn law_sweeps_follow_one_another(sweep: Sweep)
    ensures
        sweep.spec_following() is None <==> sweep == Sweep::CleanupEvents,
        sweep.spec_following() == Some(Sweep::PendingDetaches) <==> sweep
            == Sweep::SpectatorDetaches,
        sweep.spec_following() == Some(Sweep::EmptyRooms) <==> sweep == Sweep::PendingDetaches,
        sweep.spec_following() == Some(Sweep::ExpiredRooms) <==> sweep == Sweep::EmptyRooms,
        sweep.spec_following() == Some(Sweep::MissingRoomClients) <==> sweep == Sweep::ExpiredRooms,
        sweep.spec_following() == Some(Sweep::SpectatorRoles) <==> sweep
            == Sweep::MissingRoomClients,
        sweep.spec_following() == Some(Sweep::SessionPlans) <==> sweep == Sweep::SpectatorRoles,
        sweep.spec_following() == Some(Sweep::RoomApplications) <==> sweep == Sweep::SessionPlans,
        sweep.spec_following() == Some(Sweep::ReadyPlayers) <==> sweep == Sweep::RoomApplications,
        sweep.spec_following() == Some(Sweep::ExpiredLocks) <==> sweep == Sweep::ReadyPlayers,
        sweep.spec_following() == Some(Sweep::ExpiredReconnections) <==> sweep
            == Sweep::ExpiredLocks,
        sweep.spec_following() == Some(Sweep::CleanupEvents) <==> sweep
            == Sweep::ExpiredReconnections,
        sweep.spec_following() != Some(Sweep::SpectatorDetaches),
{
}

/// The eviction farewell names the configured timeout in whole milliseconds.
pub proof fn law_eviction_farewells_name_the_timeout(millis: u64)
    ensures
        eviction_text((millis * 1_000_000) as u128) == "Disconnected: no activity received for "@
            + crate::errors::decimal(millis as nat) + " ms (server.ping_timeout)"@,
{
    assert((millis * 1_000_000) as u128 / NANOS_PER_MILLI == millis);
}

/// A tick that stopped stays stopped and one that finished stays finished:
/// neither asks for anything more, and neither touches the server.
pub proof fn law_ended_ticks_stay_ended(
    tick: CleanupTick,
    after: CleanupTick,
    server: ServerView,
    now: Moment,
)
    requires
        tick.stage is Stopped || tick.stage is Finished,
        tick.advances_to(after, server, now),
    ensures
        after.stage == tick.stage,
        after.next == tick.next,
        after.evicted == tick.evicted,
        tick.action(server, now) is Stop <==> tick.stage is Stopped,
        tick.action(server, now) is Wait <==> tick.stage is Finished,
        tick.server_after(server, now) == server,
{
}

} // verus!
