//! Byte budgets of relayed game data: one window per sender, one per room, and
//! the accounts of what was admitted.

use std::collections::HashMap;

use vstd::prelude::*;

use crate::config::RateLimitConfig;
use crate::connection::{duration_since, AppContext, Moment, Nanos};
use crate::protocol::{AppId, PlayerId, RoomId};

verus! {

broadcast use vstd::std_specs::hash::group_hash_axioms;

/// One fixed window of an account.
#[derive(Clone, Copy, Debug, PartialEq, Eq, Structural)]
pub struct RelayWindow {
    pub started: Moment,
    pub bytes: u64,
}

/// Whether a frame may be relayed.
#[derive(Clone, Copy, Debug, PartialEq, Eq, Structural)]
pub enum RelayAdmission {
    Admitted,
    /// The sender's own budget is spent.
    SenderBudgetExceeded,
    /// The room's joint budget is spent.
    RoomCeilingExceeded,
}

/// One frame submitted for relaying.
#[derive(Clone, Copy, Debug)]
pub struct RelaySubmission {
    pub sender: PlayerId,
    pub room: RoomId,
    /// The application the bytes are attributed to, if any.
    pub app: Option<AppId>,
    /// The budget the sender is held to.
    pub sender_budget: u64,
    pub bytes: u64,
}

/// The mathematical view of [`RelayBudgets`].
#[verifier::ext_equal]
pub ghost struct RelayAccounts {
    pub senders: Map<PlayerId, RelayWindow>,
    pub rooms: Map<RoomId, RelayWindow>,
    pub app_bytes: Map<AppId, u64>,
    pub bytes_total: u64,
    pub sender_rejections: u64,
    pub room_rejections: u64,
}

/// The window of `key` at `now`: the recorded one while it lasts, else a fresh
/// one.
pub open spec fn window_at(
    windows: Map<u128, RelayWindow>,
    key: u128,
    now: Moment,
    span: Nanos,
) -> RelayWindow {
    if windows.contains_key(key) && crate::connection::elapsed_since(now, windows[key].started)
        < span {
        windows[key]
    } else {
        RelayWindow { started: now, bytes: 0 }
    }
}

/// A window with `bytes` more in it.
pub open spec fn window_charged(window: RelayWindow, bytes: u64) -> RelayWindow {
    RelayWindow { started: window.started, bytes: (window.bytes + bytes) as u64 }
}

/// A counter that stops at its limit.
pub open spec fn counted(counter: u64, amount: u64) -> u64 {
    if counter + amount <= u64::MAX {
        (counter + amount) as u64
    } else {
        u64::MAX
    }
}

impl RelayAccounts {
    /// Whether a frame is admitted at `now`. The sender's budget is asked
    /// before the room's.
    pub open spec fn admission(
        self,
        frame: RelaySubmission,
        now: Moment,
        limits: RateLimitConfig,
    ) -> RelayAdmission {
        let span = limits.time_window;
        if window_at(self.senders, frame.sender, now, span).bytes + frame.bytes
            > frame.sender_budget {
            RelayAdmission::SenderBudgetExceeded
        } else if window_at(self.rooms, frame.room, now, span).bytes + frame.bytes
            > limits.max_room_relay_bytes {
            RelayAdmission::RoomCeilingExceeded
        } else {
            RelayAdmission::Admitted
        }
    }

    /// The bytes attributed to `app`.
    pub open spec fn attributed(self, app: AppId) -> u64 {
        if self.app_bytes.contains_key(app) {
            self.app_bytes[app]
        } else {
            0
        }
    }

    /// The accounts after a frame is submitted at `now`. A frame the sender's
    /// budget refuses costs nothing; one the room's ceiling refuses keeps the
    /// sender's charge; only admitted bytes are accounted and attributed.
    pub open spec fn after(
        self,
        frame: RelaySubmission,
        now: Moment,
        limits: RateLimitConfig,
    ) -> RelayAccounts {
        let span = limits.time_window;
        let charged_senders = self.senders.insert(
            frame.sender,
            window_charged(window_at(self.senders, frame.sender, now, span), frame.bytes),
        );
        match self.admission(frame, now, limits) {
            RelayAdmission::SenderBudgetExceeded => RelayAccounts {
                sender_rejections: counted(self.sender_rejections, 1),
                ..self
            },
            RelayAdmission::RoomCeilingExceeded => RelayAccounts {
                senders: charged_senders,
                room_rejections: counted(self.room_rejections, 1),
                ..self
            },
            RelayAdmission::Admitted => RelayAccounts {
                senders: charged_senders,
                rooms: self.rooms.insert(
                    frame.room,
                    window_charged(window_at(self.rooms, frame.room, now, span), frame.bytes),
                ),
                bytes_total: counted(self.bytes_total, frame.bytes),
                app_bytes: match frame.app {
                    Some(app) => self.app_bytes.insert(
                        app,
                        counted(self.attributed(app), frame.bytes),
                    ),
                    None => self.app_bytes,
                },
                ..self
            },
        }
    }
}

/// The budget a sender is held to: its application's, where the allowlist
/// vouches for the application, else the server's.
pub open spec fn spec_sender_budget(
    allowlist_enabled: bool,
    app_budget: Option<u64>,
    server_budget: u64,
) -> u64 {
    match app_budget {
        Some(budget) => if allowlist_enabled {
            budget
        } else {
            server_budget
        },
        None => server_budget,
    }
}

/// The budget a sender is held to, and the application its bytes are
/// attributed to. Without an allowlist an application is only a label the
/// client chose, so neither follows it.
pub fn relay_policy(
    allowlist_enabled: bool,
    app_context: &Option<AppContext>,
    server_budget: u64,
) -> (policy: (u64, Option<AppId>))
    ensures
        policy.0 == spec_sender_budget(
            allowlist_enabled,
            match *app_context {
                Some(context) => context.max_relay_bytes,
                None => None,
            },
            server_budget,
        ),
        policy.1 == (match *app_context {
            Some(context) => if allowlist_enabled {
                Some(context.id)
            } else {
                None
            },
            None => None,
        }),
{
    match app_context {
        Some(context) => {
            if allowlist_enabled {
                let budget = match context.max_relay_bytes {
                    Some(own) => own,
                    None => server_budget,
                };
                (budget, Some(context.id))
            } else {
                (server_budget, None)
            }
        },
        None => (server_budget, None),
    }
}

/// The window of `key` at `now`.
fn current_window(
    windows: &HashMap<u128, RelayWindow>,
    key: u128,
    now: Moment,
    span: Nanos,
) -> (window: RelayWindow)
    ensures
        window == window_at(windows@, key, now, span),
{
    match windows.get(&key) {
        Some(window) => {
            if duration_since(now, window.started) < span {
                *window
            } else {
                RelayWindow { started: now, bytes: 0 }
            }
        },
        None => RelayWindow { started: now, bytes: 0 },
    }
}

/// Whether `bytes` more fit a window under `budget`.
fn fits(window: RelayWindow, bytes: u64, budget: u64) -> (answer: bool)
    ensures
        answer == (window.bytes + bytes <= budget),
{
    window.bytes <= budget && bytes <= budget - window.bytes
}

/// The relay budgets of all senders and rooms.
#[derive(Debug)]
pub struct RelayBudgets {
    senders: HashMap<PlayerId, RelayWindow>,
    rooms: HashMap<RoomId, RelayWindow>,
    app_bytes: HashMap<AppId, u64>,
    bytes_total: u64,
    sender_rejections: u64,
    room_rejections: u64,
}

impl View for RelayBudgets {
    type V = RelayAccounts;

    closed spec fn view(&self) -> RelayAccounts {
        RelayAccounts {
            senders: self.senders@,
            rooms: self.rooms@,
            app_bytes: self.app_bytes@,
            bytes_total: self.bytes_total,
            sender_rejections: self.sender_rejections,
            room_rejections: self.room_rejections,
        }
    }
}

impl RelayBudgets {
    /// Budgets nothing has been charged to.
    pub fn new() -> (budgets: Self)
        ensures
            budgets@ == (RelayAccounts {
                senders: Map::empty(),
                rooms: Map::empty(),
                app_bytes: Map::empty(),
                bytes_total: 0,
                sender_rejections: 0,
                room_rejections: 0,
            }),
    {
        RelayBudgets {
            senders: HashMap::new(),
            rooms: HashMap::new(),
            app_bytes: HashMap::new(),
            bytes_total: 0,
            sender_rejections: 0,
            room_rejections: 0,
        }
    }

    /// Submits a frame at `now`.
    pub fn submit(&mut self, frame: RelaySubmission, now: Moment, limits: &RateLimitConfig) -> (
        admission: RelayAdmission)
        ensures
            admission == old(self)@.admission(frame, now, *limits),
            final(self)@ == old(self)@.after(frame, now, *limits),
    {
        let span = limits.time_window;
        let mut sender_window = current_window(&self.senders, frame.sender, now, span);
        if !fits(sender_window, frame.bytes, frame.sender_budget) {
            self.sender_rejections = self.sender_rejections.saturating_add(1);
            return RelayAdmission::SenderBudgetExceeded;
        }
        sender_window.bytes = sender_window.bytes + frame.bytes;
        let _ = self.senders.insert(frame.sender, sender_window);
        let mut room_window = current_window(&self.rooms, frame.room, now, span);
        if !fits(room_window, frame.bytes, limits.max_room_relay_bytes) {
            self.room_rejections = self.room_rejections.saturating_add(1);
            return RelayAdmission::RoomCeilingExceeded;
        }
        room_window.bytes = room_window.bytes + frame.bytes;
        let _ = self.rooms.insert(frame.room, room_window);
        self.bytes_total = self.bytes_total.saturating_add(frame.bytes);
        if let Some(app) = frame.app {
            let attributed: u64 = match self.app_bytes.get(&app) {
                Some(bytes) => *bytes,
                None => 0,
            };
            let _ = self.app_bytes.insert(app, attributed.saturating_add(frame.bytes));
        }
        RelayAdmission::Admitted
    }

    /// The bytes admitted so far.
    pub fn bytes_total(&self) -> (total: u64)
        ensures
            total == self@.bytes_total,
    {
        self.bytes_total
    }

    /// The frames refused by a sender's budget so far.
    pub fn sender_rejections(&self) -> (count: u64)
        ensures
            count == self@.sender_rejections,
    {
        self.sender_rejections
    }

    /// The frames refused by a room's ceiling so far.
    pub fn room_rejections(&self) -> (count: u64)
        ensures
            count == self@.room_rejections,
    {
        self.room_rejections
    }

    /// The bytes attributed to `app`, if any ever were.
    pub fn app_bytes(&self, app: AppId) -> (bytes: Option<u64>)
        ensures
            bytes == (if self@.app_bytes.contains_key(app) {
                Some(self@.app_bytes[app])
            } else {
                None
            }),
    {
        match self.app_bytes.get(&app) {
            Some(bytes) => Some(*bytes),
            None => None,
        }
    }

    /// The number of applications bytes were attributed to.
    pub fn attributed_apps(&self) -> (count: usize)
        ensures
            count == self@.app_bytes.dom().len(),
    {
        self.app_bytes.len()
    }

    /// The bytes charged to the recorded window of `sender`, if there is one.
    pub fn sender_bytes(&self, sender: PlayerId) -> (bytes: Option<u64>)
        ensures
            bytes == (if self@.senders.contains_key(sender) {
                Some(self@.senders[sender].bytes)
            } else {
                None
            }),
    {
        match self.senders.get(&sender) {
            Some(window) => Some(window.bytes),
            None => None,
        }
    }
}

/// Whatever is admitted stays within both budgets of its window, and what is
/// refused is neither counted nor attributed.
pub proof fn law_admitted_bytes_stay_within_the_budgets(
    accounts: RelayAccounts,
    frame: RelaySubmission,
    now: Moment,
    limits: RateLimitConfig,
)
    ensures
        ({
            let admission = accounts.admission(frame, now, limits);
            let after = accounts.after(frame, now, limits);
            &&& admission is Admitted ==> after.senders[frame.sender].bytes <= frame.sender_budget
                && after.rooms[frame.room].bytes <= limits.max_room_relay_bytes
            &&& !(admission is Admitted) ==> after.rooms == accounts.rooms && after.app_bytes
                == accounts.app_bytes && after.bytes_total == accounts.bytes_total
            &&& admission is SenderBudgetExceeded ==> after.senders == accounts.senders
            &&& admission is RoomCeilingExceeded ==> after.senders[frame.sender].bytes
                == window_at(accounts.senders, frame.sender, now, limits.time_window).bytes
                + frame.bytes
        }),
{
}

/// Once its window has elapsed, a sender has its whole budget again.
pub proof fn law_elapsed_windows_restore_the_budget(
    accounts: RelayAccounts,
    frame: RelaySubmission,
    now: Moment,
    limits: RateLimitConfig,
)
    requires
        accounts.senders.contains_key(frame.sender) ==> crate::connection::elapsed_since(
            now,
            accounts.senders[frame.sender].started,
        ) >= limits.time_window,
        accounts.rooms.contains_key(frame.room) ==> crate::connection::elapsed_since(
            now,
            accounts.rooms[frame.room].started,
        ) >= limits.time_window,
    ensures
        accounts.admission(frame, now, limits) is Admitted <==> frame.bytes <= frame.sender_budget
            && frame.bytes <= limits.max_room_relay_bytes,
{
}

/// One sender's frames never use up another sender's budget.
pub proof fn law_sender_budgets_are_separate(
    accounts: RelayAccounts,
    frame: RelaySubmission,
    now: Moment,
    limits: RateLimitConfig,
    other: PlayerId,
    later: Moment,
)
    requires
        other != frame.sender,
    ensures
        window_at(accounts.after(frame, now, limits).senders, other, later, limits.time_window)
            == window_at(accounts.senders, other, later, limits.time_window),
{
}

/// The bytes an account holds in the window that is open at `now`.
pub open spec fn bytes_in_window(
    windows: Map<u128, RelayWindow>,
    key: u128,
    now: Moment,
    span: Nanos,
) -> int {
    if windows.contains_key(key) && span > 0 && now < windows[key].started + span {
        windows[key].bytes as int
    } else {
        0
    }
}

/// A frame is refused exactly if it does not fit what is left of its sender's
/// budget or, if it does, of its room's, in the windows open at the time.
pub proof fn law_frames_are_refused_only_over_budget(
    accounts: RelayAccounts,
    frame: RelaySubmission,
    now: Moment,
    limits: RateLimitConfig,
)
    ensures
        ({
            let span = limits.time_window;
            let sent = bytes_in_window(accounts.senders, frame.sender, now, span);
            let relayed = bytes_in_window(accounts.rooms, frame.room, now, span);
            let over_own = sent + frame.bytes > frame.sender_budget;
            let over_room = relayed + frame.bytes > limits.max_room_relay_bytes;
            let admission = accounts.admission(frame, now, limits);
            &&& admission is SenderBudgetExceeded <==> over_own
            &&& admission is RoomCeilingExceeded <==> !over_own && over_room
            &&& admission is Admitted <==> !over_own && !over_room
        }),
{
}

/// What a frame costs: nothing beside a rejection if its sender's budget refuses
/// it; its sender's charge beside a rejection if the room's ceiling does; and
/// otherwise both charges, the total, and the application's share, by exactly
/// its bytes. Nobody else's account moves.
pub proof fn law_frames_cost_exactly_their_bytes(
    accounts: RelayAccounts,
    frame: RelaySubmission,
    now: Moment,
    limits: RateLimitConfig,
    other: u128,
)
    requires
        limits.time_window > 0,
    ensures
        ({
            let span = limits.time_window;
            let after = accounts.after(frame, now, limits);
            let admission = accounts.admission(frame, now, limits);
            let sent = bytes_in_window(accounts.senders, frame.sender, now, span);
            let relayed = bytes_in_window(accounts.rooms, frame.room, now, span);
            let plus = |counter: u64, amount: int|
                if counter + amount <= u64::MAX {
                    counter + amount
                } else {
                    u64::MAX as int
                };
            &&& admission is SenderBudgetExceeded ==> after == (RelayAccounts {
                sender_rejections: after.sender_rejections,
                ..accounts
            }) && after.sender_rejections == plus(accounts.sender_rejections, 1)
            &&& admission is RoomCeilingExceeded ==> after == (RelayAccounts {
                senders: after.senders,
                room_rejections: after.room_rejections,
                ..accounts
            }) && after.room_rejections == plus(accounts.room_rejections, 1)
            &&& !(admission is SenderBudgetExceeded) ==> bytes_in_window(
                after.senders,
                frame.sender,
                now,
                span,
            ) == sent + frame.bytes
            &&& admission is Admitted ==> {
                &&& bytes_in_window(after.rooms, frame.room, now, span) == relayed + frame.bytes
                &&& after.bytes_total == plus(accounts.bytes_total, frame.bytes as int)
                &&& frame.app matches Some(app) ==> after.attributed(app) == plus(
                    accounts.attributed(app),
                    frame.bytes as int,
                )
                &&& frame.app is None ==> after.app_bytes == accounts.app_bytes
                &&& after.sender_rejections == accounts.sender_rejections
                &&& after.room_rejections == accounts.room_rejections
            }
            &&& other != frame.sender ==> after.senders.contains_key(other)
                == accounts.senders.contains_key(other) && (accounts.senders.contains_key(other)
                ==> after.senders[other] == accounts.senders[other])
            &&& other != frame.room ==> after.rooms.contains_key(other)
                == accounts.rooms.contains_key(other) && (accounts.rooms.contains_key(other)
                ==> after.rooms[other] == accounts.rooms[other])
            &&& frame.app != Some(other) ==> after.attributed(other) == accounts.attributed(other)
        }),
{
}

/// A window lasts from its first frame: later frames in it do not prolong it.
pub proof fn law_windows_are_not_prolonged(
    accounts: RelayAccounts,
    frame: RelaySubmission,
    now: Moment,
    limits: RateLimitConfig,
)
    requires
        accounts.admission(frame, now, limits) is Admitted,
        limits.time_window > 0,
    ensures
        ({
            let span = limits.time_window;
            let after = accounts.after(frame, now, limits);
            &&& accounts.senders.contains_key(frame.sender) && now
                < accounts.senders[frame.sender].started + span
                ==> after.senders[frame.sender].started == accounts.senders[frame.sender].started
            &&& !(accounts.senders.contains_key(frame.sender) && now
                < accounts.senders[frame.sender].started + span)
                ==> after.senders[frame.sender].started == now
            &&& accounts.rooms.contains_key(frame.room) && now < accounts.rooms[frame.room].started
                + span ==> after.rooms[frame.room].started == accounts.rooms[frame.room].started
            &&& !(accounts.rooms.contains_key(frame.room) && now
                < accounts.rooms[frame.room].started + span) ==> after.rooms[frame.room].started
                == now
        }),
{
}

/// A sender is held to its application's own budget exactly where the allowlist
/// vouches for the application and it has one, and to the server's otherwise.
pub proof fn law_only_vouched_applications_have_their_own_budget(
    allowlist_enabled: bool,
    app_budget: Option<u64>,
    server_budget: u64,
)
    ensures
        allowlist_enabled && app_budget is Some ==> spec_sender_budget(
            allowlist_enabled,
            app_budget,
            server_budget,
        ) == app_budget->0,
        !allowlist_enabled || app_budget is None ==> spec_sender_budget(
            allowlist_enabled,
            app_budget,
            server_budget,
        ) == server_budget,
{
}

} // verus!
