//! The cached metrics of the admin dashboard: a bounded history and a
//! staleness decision on monotonic time.
//!
//! Percentiles and per-game tables are payload here: the cache keeps and
//! copies them, and never looks inside. `Games`, `Players`, and `PerGame`
//! stand for their types.

use vstd::prelude::*;

use crate::connection::{duration_since, Moment, Nanos};
use crate::durations::{chrono_duration_from_std, NANOS_PER_SEC, STD_DURATION_MAX};

verus! {

/// The longest history the cache keeps.
pub const DASHBOARD_CACHE_HISTORY_MAX_CAPACITY: usize = 10_000;

/// What a dashboard history can be configured to record.
#[derive(Clone, Copy, Debug, PartialEq, Eq, Structural)]
pub enum DashboardHistoryField {
    ActiveRooms,
    RoomsByGame,
    PlayerPercentiles,
    GamePercentiles,
    ActiveConnections,
    RoomsCreated,
}

/// Which parts of a sample the history keeps.
#[derive(Clone, Copy, Debug, PartialEq, Eq, Structural)]
pub struct HistoryFields {
    pub active_rooms: bool,
    pub rooms_by_game: bool,
    pub player_percentiles: bool,
    pub game_percentiles: bool,
}

/// Whether a configured field is one the history can keep.
pub open spec fn keeps_history(field: DashboardHistoryField) -> bool {
    field is ActiveRooms || field is RoomsByGame || field is PlayerPercentiles
        || field is GamePercentiles
}

impl HistoryFields {
    /// Whether these are the parts named by `fields`: the number of active
    /// rooms alone if they name none that can be kept.
    pub open spec fn named_by(self, fields: Seq<DashboardHistoryField>) -> bool {
        &&& self.rooms_by_game == fields.contains(DashboardHistoryField::RoomsByGame)
        &&& self.player_percentiles == fields.contains(DashboardHistoryField::PlayerPercentiles)
        &&& self.game_percentiles == fields.contains(DashboardHistoryField::GamePercentiles)
        &&& self.active_rooms == (fields.contains(DashboardHistoryField::ActiveRooms)
            || forall|i: int| 0 <= i < fields.len() ==> !keeps_history(#[trigger] fields[i]))
    }

    /// The parts named by `fields`; the number of active rooms if they name
    /// none that can be kept.
    pub fn from_fields(fields: &[DashboardHistoryField]) -> (settings: Self)
        ensures
            settings.named_by(fields@),
    {
        let mut settings = HistoryFields {
            active_rooms: false,
            rooms_by_game: false,
            player_percentiles: false,
            game_percentiles: false,
        };
        let mut index: usize = 0;
        while index < fields.len()
            invariant
                index <= fields.len(),
                settings.active_rooms == fields@.take(index as int).contains(
                    DashboardHistoryField::ActiveRooms,
                ),
                settings.rooms_by_game == fields@.take(index as int).contains(
                    DashboardHistoryField::RoomsByGame,
                ),
                settings.player_percentiles == fields@.take(index as int).contains(
                    DashboardHistoryField::PlayerPercentiles,
                ),
                settings.game_percentiles == fields@.take(index as int).contains(
                    DashboardHistoryField::GamePercentiles,
                ),
            decreases fields.len() - index,
        {
            proof {
                crate::identifiers::lemma_take_next(fields@, index as int);
            }
            match fields[index] {
                DashboardHistoryField::ActiveRooms => {
                    settings.active_rooms = true;
                },
                DashboardHistoryField::RoomsByGame => {
                    settings.rooms_by_game = true;
                },
                DashboardHistoryField::PlayerPercentiles => {
                    settings.player_percentiles = true;
                },
                DashboardHistoryField::GamePercentiles => {
                    settings.game_percentiles = true;
                },
                DashboardHistoryField::ActiveConnections | DashboardHistoryField::RoomsCreated => {},
            }
            index += 1;
        }
        assert(fields@.take(index as int) =~= fields@);
        if !(settings.active_rooms || settings.rooms_by_game || settings.player_percentiles
            || settings.game_percentiles) {
            proof {
                assert forall|i: int| 0 <= i < fields@.len() implies !keeps_history(
                    #[trigger] fields@[i],
                ) by {
                    assert(fields@.contains(fields@[i]));
                }
            }
            settings.active_rooms = true;
        }
        proof {
            if fields@.contains(DashboardHistoryField::RoomsByGame) {
                let at = choose|i: int|
                    0 <= i < fields@.len() && fields@[i] == DashboardHistoryField::RoomsByGame;
                assert(keeps_history(fields@[at]));
            }
            if fields@.contains(DashboardHistoryField::PlayerPercentiles) {
                let at = choose|i: int|
                    0 <= i < fields@.len() && fields@[i]
                        == DashboardHistoryField::PlayerPercentiles;
                assert(keeps_history(fields@[at]));
            }
            if fields@.contains(DashboardHistoryField::GamePercentiles) {
                let at = choose|i: int|
                    0 <= i < fields@.len() && fields@[i] == DashboardHistoryField::GamePercentiles;
                assert(keeps_history(fields@[at]));
            }
        }
        settings
    }
}

/// One sample of the dashboard metrics.
#[derive(Debug)]
pub struct DashboardMetricsSnapshot<Games, Players, PerGame> {
    pub rooms_by_game: Games,
    pub player_percentiles: Players,
    pub game_percentiles: PerGame,
    pub active_rooms: usize,
    /// Wall-clock stamp in milliseconds since the Unix epoch. It is shown, and
    /// decides nothing.
    pub fetched_at: i64,
    /// When the sample was taken, on the monotonic clock.
    pub fetched_at_instant: Moment,
}

/// One entry of the dashboard history.
#[derive(Debug)]
pub struct DashboardHistoryEntry<Games, Players, PerGame> {
    pub fetched_at: i64,
    pub active_rooms: Option<usize>,
    pub rooms_by_game: Option<Games>,
    pub player_percentiles: Option<Players>,
    pub game_percentiles: Option<PerGame>,
}

/// A copy of `value` where it is wanted.
fn copy_if<T: Clone>(wanted: bool, value: &T) -> (copy: Option<T>)
    ensures
        copy is Some <==> wanted,
        copy matches Some(copied) ==> cloned::<T>(*value, copied),
{
    if wanted {
        Some(value.clone())
    } else {
        None
    }
}

impl<Games: Clone, Players: Clone, PerGame: Clone> DashboardHistoryEntry<Games, Players, PerGame> {
    /// Whether this entry keeps exactly the configured parts of `snapshot`.
    pub open spec fn records(
        self,
        snapshot: DashboardMetricsSnapshot<Games, Players, PerGame>,
        fields: HistoryFields,
    ) -> bool {
        &&& self.fetched_at == snapshot.fetched_at
        &&& self.active_rooms == (if fields.active_rooms {
            Some(snapshot.active_rooms)
        } else {
            None
        })
        &&& self.rooms_by_game is Some <==> fields.rooms_by_game
        &&& self.rooms_by_game matches Some(copied) ==> cloned::<Games>(
            snapshot.rooms_by_game,
            copied,
        )
        &&& self.player_percentiles is Some <==> fields.player_percentiles
        &&& self.player_percentiles matches Some(copied) ==> cloned::<Players>(
            snapshot.player_percentiles,
            copied,
        )
        &&& self.game_percentiles is Some <==> fields.game_percentiles
        &&& self.game_percentiles matches Some(copied) ==> cloned::<PerGame>(
            snapshot.game_percentiles,
            copied,
        )
    }

    /// The history entry of a sample.
    pub fn from_snapshot(
        snapshot: &DashboardMetricsSnapshot<Games, Players, PerGame>,
        fields: &HistoryFields,
    ) -> (entry: Self)
        ensures
            entry.records(*snapshot, *fields),
    {
        DashboardHistoryEntry {
            fetched_at: snapshot.fetched_at,
            active_rooms: if fields.active_rooms {
                Some(snapshot.active_rooms)
            } else {
                None
            },
            rooms_by_game: copy_if(fields.rooms_by_game, &snapshot.rooms_by_game),
            player_percentiles: copy_if(fields.player_percentiles, &snapshot.player_percentiles),
            game_percentiles: copy_if(fields.game_percentiles, &snapshot.game_percentiles),
        }
    }
}

/// A copy of an optional value.
fn copy_option<T: Clone>(value: &Option<T>) -> (copy: Option<T>)
    ensures
        copies(*value, copy),
{
    match value {
        Some(held) => Some(held.clone()),
        None => None,
    }
}

/// Whether `copy` is a copy of an optional value.
pub open spec fn copies<T: Clone>(value: Option<T>, copy: Option<T>) -> bool {
    match (value, copy) {
        (Some(held), Some(copied)) => cloned::<T>(held, copied),
        (None, None) => true,
        _ => false,
    }
}

impl<Games: Clone, Players: Clone, PerGame: Clone> DashboardHistoryEntry<Games, Players, PerGame> {
    /// Whether `copy` is a copy of this entry.
    pub open spec fn copied_as(self, copy: Self) -> bool {
        &&& copy.fetched_at == self.fetched_at
        &&& copy.active_rooms == self.active_rooms
        &&& copies(self.rooms_by_game, copy.rooms_by_game)
        &&& copies(self.player_percentiles, copy.player_percentiles)
        &&& copies(self.game_percentiles, copy.game_percentiles)
    }

    /// A copy of this entry.
    pub fn duplicate(&self) -> (copy: Self)
        ensures
            self.copied_as(copy),
    {
        DashboardHistoryEntry {
            fetched_at: self.fetched_at,
            active_rooms: self.active_rooms,
            rooms_by_game: copy_option(&self.rooms_by_game),
            player_percentiles: copy_option(&self.player_percentiles),
            game_percentiles: copy_option(&self.game_percentiles),
        }
    }
}

/// Whether `copy` holds a copy of each entry of `history`, in order.
pub open spec fn history_copied<Games: Clone, Players: Clone, PerGame: Clone>(
    history: Seq<DashboardHistoryEntry<Games, Players, PerGame>>,
    copy: Seq<DashboardHistoryEntry<Games, Players, PerGame>>,
) -> bool {
    &&& copy.len() == history.len()
    &&& forall|i: int| 0 <= i < history.len() ==> (#[trigger] history[i]).copied_as(copy[i])
}

/// The last `capacity` items of a list.
pub open spec fn newest<T>(items: Seq<T>, capacity: int) -> Seq<T> {
    if items.len() > capacity {
        items.subrange(items.len() - capacity, items.len() as int)
    } else {
        items
    }
}

/// A count that goes up by one, and stays at the largest machine number.
pub open spec fn counted(count: u64) -> u64 {
    if count < u64::MAX {
        (count + 1) as u64
    } else {
        count
    }
}

/// The cached sample, the error of the last refresh, the history, and how the
/// refreshes went so far.
#[derive(Debug)]
pub struct DashboardMetricsCacheState<Games, Players, PerGame> {
    pub snapshot: Option<DashboardMetricsSnapshot<Games, Players, PerGame>>,
    pub last_error: Option<String>,
    pub history: Vec<DashboardHistoryEntry<Games, Players, PerGame>>,
    pub history_capacity: usize,
    /// The wall-clock stamp of the last sample taken in.
    pub last_refresh: Option<i64>,
    /// How many samples were taken in.
    pub refreshes: u64,
    /// How many refreshes failed.
    pub refresh_failures: u64,
}

impl<Games: Clone, Players: Clone, PerGame: Clone> DashboardMetricsCacheState<
    Games,
    Players,
    PerGame,
> {
    /// The history fits its capacity, which leaves room for one entry.
    pub open spec fn wf(&self) -> bool {
        1 <= self.history_capacity && self.history@.len() <= self.history_capacity
    }

    /// An empty cache with room for at least one history entry.
    pub fn new(history_capacity: usize) -> (state: Self)
        ensures
            state.wf(),
            state.snapshot is None,
            state.last_error is None,
            state.history@.len() == 0,
            state.last_refresh is None,
            state.refreshes == 0,
            state.refresh_failures == 0,
            state.history_capacity == (if history_capacity < 1 {
                1
            } else {
                history_capacity
            }),
    {
        DashboardMetricsCacheState {
            snapshot: None,
            last_error: None,
            history: Vec::new(),
            history_capacity: if history_capacity < 1 {
                1
            } else {
                history_capacity
            },
            last_refresh: None,
            refreshes: 0,
            refresh_failures: 0,
        }
    }

    /// Appends the entry of a sample; the oldest entries make room.
    pub fn push_history(
        &mut self,
        snapshot: &DashboardMetricsSnapshot<Games, Players, PerGame>,
        fields: &HistoryFields,
    )
        requires
            old(self).wf(),
        ensures
            final(self).wf(),
            final(self).snapshot == old(self).snapshot,
            final(self).last_error == old(self).last_error,
            final(self).history_capacity == old(self).history_capacity,
            final(self).last_refresh == old(self).last_refresh,
            final(self).refreshes == old(self).refreshes,
            final(self).refresh_failures == old(self).refresh_failures,
            final(self).history@.len() > 0,
            final(self).history@.last().records(*snapshot, *fields),
            final(self).history@ == newest(
                old(self).history@.push(final(self).history@.last()),
                old(self).history_capacity as int,
            ),
    {
        let entry = DashboardHistoryEntry::from_snapshot(snapshot, fields);
        if self.history.len() == self.history_capacity {
            let _ = self.history.remove(0);
        }
        self.history.push(entry);
        assert(self.history@ =~= newest(
            old(self).history@.push(self.history@.last()),
            old(self).history_capacity as int,
        ));
    }
}

/// What the dashboard is shown.
#[derive(Debug)]
pub struct DashboardMetricsView<Games, Players, PerGame> {
    /// The cached sample's tables; none before the first refresh.
    pub tables: Option<(Games, Players, PerGame)>,
    pub active_rooms: usize,
    pub fetched_at: Option<i64>,
    pub stale: bool,
    pub last_error: Option<String>,
    pub refresh_interval_secs: u64,
    /// The history, oldest entry first.
    pub history: Vec<DashboardHistoryEntry<Games, Players, PerGame>>,
}

/// The dashboard metrics cache.
#[derive(Debug)]
pub struct DashboardMetricsCache<Games, Players, PerGame> {
    pub state: DashboardMetricsCacheState<Games, Players, PerGame>,
    pub refresh_interval: Nanos,
    pub refresh_interval_secs: u64,
    pub stale_after: Nanos,
    pub history_fields: HistoryFields,
}

/// The larger of two spans.
pub open spec fn longer(one: Nanos, other: Nanos) -> Nanos {
    if one >= other {
        one
    } else {
        other
    }
}

/// A span as a calendar span.
pub open spec fn as_calendar(span: Nanos) -> Nanos {
    if span <= crate::durations::CALENDAR_DURATION_MAX {
        span
    } else {
        crate::durations::CALENDAR_DURATION_MAX
    }
}

/// The samples a history of `window_secs` takes at one per `interval_secs`,
/// the last one counted in full.
pub open spec fn samples_in_window(interval_secs: int, window_secs: int) -> int {
    (window_secs + interval_secs - 1) / interval_secs
}

/// The number of history entries a window of `window_secs` takes: one per
/// refresh, at least one, and never more than the cache keeps.
pub open spec fn window_capacity(refresh_interval: Nanos, window_secs: u64) -> int {
    let interval = if refresh_interval / NANOS_PER_SEC < 1 {
        1int
    } else {
        (refresh_interval / NANOS_PER_SEC) as int
    };
    let window = if window_secs < interval {
        interval
    } else {
        window_secs as int
    };
    let samples = samples_in_window(interval, window);
    if samples <= DASHBOARD_CACHE_HISTORY_MAX_CAPACITY {
        samples
    } else {
        DASHBOARD_CACHE_HISTORY_MAX_CAPACITY as int
    }
}

impl<Games: Clone, Players: Clone, PerGame: Clone> DashboardMetricsCache<Games, Players, PerGame> {
    /// An empty cache. It refreshes at most once a second, and a sample stays
    /// fresh for at least one refresh.
    pub fn new(
        refresh_interval: Nanos,
        stale_after: Nanos,
        history_capacity: usize,
        history_fields: &[DashboardHistoryField],
    ) -> (cache: Self)
        requires
            refresh_interval <= STD_DURATION_MAX,
        ensures
            cache.state.wf(),
            cache.state.snapshot is None,
            cache.state.last_error is None,
            cache.state.history@.len() == 0,
            cache.state.last_refresh is None,
            cache.state.refreshes == 0,
            cache.state.refresh_failures == 0,
            cache.state.history_capacity == (if history_capacity < 1 {
                1
            } else {
                history_capacity
            }),
            cache.refresh_interval == longer(refresh_interval, NANOS_PER_SEC),
            cache.refresh_interval_secs == longer(refresh_interval, NANOS_PER_SEC) / NANOS_PER_SEC,
            cache.stale_after == as_calendar(
                longer(stale_after, longer(refresh_interval, NANOS_PER_SEC)),
            ),
            cache.history_fields.named_by(history_fields@),
    {
        let safe_refresh = if refresh_interval >= NANOS_PER_SEC {
            refresh_interval
        } else {
            NANOS_PER_SEC
        };
        let safe_stale = if stale_after >= safe_refresh {
            stale_after
        } else {
            safe_refresh
        };
        DashboardMetricsCache {
            state: DashboardMetricsCacheState::new(history_capacity),
            refresh_interval: safe_refresh,
            refresh_interval_secs: (safe_refresh / NANOS_PER_SEC) as u64,
            stale_after: chrono_duration_from_std(safe_stale),
            history_fields: HistoryFields::from_fields(history_fields),
        }
    }

    /// The number of history entries a window of `history_window_secs` takes:
    /// one per refresh, at least one, and never more than the cache keeps.
    pub fn history_capacity_for_window(refresh_interval: Nanos, history_window_secs: u64) -> (
        capacity: usize)
        requires
            refresh_interval <= STD_DURATION_MAX,
        ensures
            capacity == window_capacity(refresh_interval, history_window_secs),
            1 <= capacity <= DASHBOARD_CACHE_HISTORY_MAX_CAPACITY,
    {
        let whole_secs: u128 = refresh_interval / NANOS_PER_SEC;
        let interval_secs: u128 = if whole_secs < 1 {
            1
        } else {
            whole_secs
        };
        let window_secs: u128 = if (history_window_secs as u128) < interval_secs {
            interval_secs
        } else {
            history_window_secs as u128
        };
        let samples: u128 = (window_secs + interval_secs - 1) / interval_secs;
        assert(samples >= 1) by (nonlinear_arith)
            requires
                samples == (window_secs + interval_secs - 1) / interval_secs as int,
                window_secs >= interval_secs,
                interval_secs >= 1,
        ;
        if samples <= 10_000 {
            samples as usize
        } else {
            DASHBOARD_CACHE_HISTORY_MAX_CAPACITY
        }
    }

    /// Takes the result of a refresh in: a sample replaces the cached one,
    /// clears the error, enters the history, and counts as a refresh; an error
    /// leaves the sample and the history as they are, and counts as a failure.
    pub fn record_refresh_result(
        &mut self,
        result: Result<DashboardMetricsSnapshot<Games, Players, PerGame>, String>,
    )
        requires
            old(self).state.wf(),
        ensures
            final(self).state.wf(),
            final(self).refresh_interval == old(self).refresh_interval,
            final(self).refresh_interval_secs == old(self).refresh_interval_secs,
            final(self).stale_after == old(self).stale_after,
            final(self).history_fields == old(self).history_fields,
            final(self).state.history_capacity == old(self).state.history_capacity,
            match result {
                Ok(snapshot) => {
                    &&& final(self).state.snapshot == Some(snapshot)
                    &&& final(self).state.last_error is None
                    &&& final(self).state.history@.len() > 0
                    &&& final(self).state.history@.last().records(
                        snapshot,
                        old(self).history_fields,
                    )
                    &&& final(self).state.history@ == newest(
                        old(self).state.history@.push(final(self).state.history@.last()),
                        old(self).state.history_capacity as int,
                    )
                    &&& final(self).state.last_refresh == Some(snapshot.fetched_at)
                    &&& final(self).state.refreshes == counted(old(self).state.refreshes)
                    &&& final(self).state.refresh_failures == old(self).state.refresh_failures
                },
                Err(error) => {
                    &&& final(self).state.snapshot == old(self).state.snapshot
                    &&& final(self).state.last_error == Some(error)
                    &&& final(self).state.history == old(self).state.history
                    &&& final(self).state.last_refresh == old(self).state.last_refresh
                    &&& final(self).state.refreshes == old(self).state.refreshes
                    &&& final(self).state.refresh_failures == counted(
                        old(self).state.refresh_failures,
                    )
                },
            },
    {
        match result {
            Ok(snapshot) => {
                let fields = self.history_fields;
                self.state.push_history(&snapshot, &fields);
                self.state.last_refresh = Some(snapshot.fetched_at);
                self.state.refreshes = self.state.refreshes.saturating_add(1);
                self.state.snapshot = Some(snapshot);
                self.state.last_error = None;
            },
            Err(error) => {
                self.state.refresh_failures = self.state.refresh_failures.saturating_add(1);
                self.state.last_error = Some(error);
            },
        }
    }

    /// Whether the cached sample counts as stale at `now`: there is none, or
    /// it is older than the staleness bound.
    pub open spec fn stale_at(&self, now: Moment) -> bool {
        match self.state.snapshot {
            Some(snapshot) => as_calendar(
                crate::connection::elapsed_since(now, snapshot.fetched_at_instant),
            ) > self.stale_after,
            None => true,
        }
    }

    /// Whether the cached sample counts as stale at `now`.
    pub fn is_stale(&self, now: Moment) -> (stale: bool)
        ensures
            stale == self.stale_at(now),
    {
        match &self.state.snapshot {
            Some(snapshot) => {
                let elapsed = duration_since(now, snapshot.fetched_at_instant);
                chrono_duration_from_std(elapsed) > self.stale_after
            },
            None => true,
        }
    }

    /// What the dashboard is shown at `now`.
    pub fn view(&self, now: Moment) -> (view: DashboardMetricsView<Games, Players, PerGame>)
        ensures
            view.stale == self.stale_at(now),
            view.last_error == self.state.last_error,
            view.refresh_interval_secs == self.refresh_interval_secs,
            history_copied(self.state.history@, view.history@),
            match self.state.snapshot {
                Some(snapshot) => {
                    &&& view.active_rooms == snapshot.active_rooms
                    &&& view.fetched_at == Some(snapshot.fetched_at)
                    &&& view.tables matches Some((games, players, per_game)) && cloned::<Games>(
                        snapshot.rooms_by_game,
                        games,
                    ) && cloned::<Players>(snapshot.player_percentiles, players) && cloned::<
                        PerGame,
                    >(snapshot.game_percentiles, per_game)
                },
                None => view.active_rooms == 0 && view.fetched_at is None && view.tables is None,
            },
    {
        let last_error = match &self.state.last_error {
            Some(error) => Some(error.clone()),
            None => None,
        };
        let stale = self.is_stale(now);
        let mut history: Vec<DashboardHistoryEntry<Games, Players, PerGame>> = Vec::new();
        let mut index: usize = 0;
        while index < self.state.history.len()
            invariant
                index <= self.state.history.len(),
                history_copied(self.state.history@.take(index as int), history@),
            decreases self.state.history.len() - index,
        {
            let ghost before = history@;
            history.push(self.state.history[index].duplicate());
            proof {
                let grown = self.state.history@.take(index + 1);
                assert forall|i: int| 0 <= i < grown.len() implies (#[trigger] grown[i]).copied_as(
                    history@[i],
                ) by {
                    if i < index {
                        assert(self.state.history@.take(index as int)[i].copied_as(before[i]));
                    }
                }
            }
            index += 1;
        }
        assert(self.state.history@.take(index as int) =~= self.state.history@);
        match &self.state.snapshot {
            Some(snapshot) => DashboardMetricsView {
                tables: Some(
                    (
                        snapshot.rooms_by_game.clone(),
                        snapshot.player_percentiles.clone(),
                        snapshot.game_percentiles.clone(),
                    ),
                ),
                active_rooms: snapshot.active_rooms,
                fetched_at: Some(snapshot.fetched_at),
                stale,
                last_error,
                refresh_interval_secs: self.refresh_interval_secs,
                history,
            },
            None => DashboardMetricsView {
                tables: None,
                active_rooms: 0,
                fetched_at: None,
                stale,
                last_error,
                refresh_interval_secs: self.refresh_interval_secs,
                history,
            },
        }
    }
}

/// The number of rooms over all games.
pub open spec fn room_total(counts: Seq<usize>) -> int
    decreases counts.len(),
{
    if counts.len() == 0 {
        0
    } else {
        room_total(counts.drop_last()) + counts.last()
    }
}

/// The number of rooms over all games.
pub fn total_rooms(counts: &Vec<usize>) -> (total: usize)
    requires
        room_total(counts@) <= usize::MAX,
    ensures
        total == room_total(counts@),
{
    let mut total: usize = 0;
    let mut index: usize = 0;
    while index < counts.len()
        invariant
            index <= counts.len(),
            room_total(counts@) <= usize::MAX,
            total == room_total(counts@.take(index as int)),
        decreases counts.len() - index,
    {
        proof {
            lemma_prefix_total(counts@, index + 1);
            assert(counts@.take(index + 1).drop_last() =~= counts@.take(index as int));
        }
        total = total + counts[index];
        index += 1;
    }
    assert(counts@.take(index as int) =~= counts@);
    total
}

/// A prefix never totals more than the whole.
proof fn lemma_prefix_total(counts: Seq<usize>, length: int)
    requires
        0 <= length <= counts.len(),
    ensures
        0 <= room_total(counts.take(length)) <= room_total(counts),
    decreases counts.len(),
{
    if length == counts.len() {
        assert(counts.take(length) =~= counts);
        if counts.len() > 0 {
            lemma_prefix_total(counts.drop_last(), length - 1);
            assert(counts.drop_last().take(length - 1) =~= counts.drop_last());
        }
    } else {
        lemma_prefix_total(counts.drop_last(), length);
        assert(counts.drop_last().take(length) =~= counts.take(length));
    }
}

/// One more entry goes last in a history, behind all that were there; the oldest
/// makes room for it exactly if the history is full.
pub proof fn law_histories_keep_the_newest<T>(items: Seq<T>, next: T, capacity: int)
    requires
        1 <= capacity,
        items.len() <= capacity,
    ensures
        ({
            let after = newest(items.push(next), capacity);
            &&& after.last() == next
            &&& after.len() == (if items.len() < capacity {
                items.len() + 1int
            } else {
                capacity
            })
            &&& items.len() < capacity ==> after.drop_last() == items
            &&& items.len() == capacity ==> after.drop_last() == items.subrange(
                1,
                items.len() as int,
            )
        }),
{
    let after = newest(items.push(next), capacity);
    if items.len() < capacity {
        assert(after.drop_last() =~= items);
    } else {
        assert(after.drop_last() =~= items.subrange(1, items.len() as int));
    }
}

/// A counter goes up by exactly one until it can go no further.
pub proof fn law_refresh_counters_go_up_by_one(count: u64)
    ensures
        count < u64::MAX ==> counted(count) == count + 1,
        count == u64::MAX ==> counted(count) == u64::MAX,
{
}

/// A history can keep exactly four of the configured fields, and keeps those that
/// are named; if none of them is, it keeps the number of active rooms.
pub proof fn law_histories_keep_the_named_fields(
    kept: HistoryFields,
    fields: Seq<DashboardHistoryField>,
)
    requires
        kept.named_by(fields),
    ensures
        kept.rooms_by_game <==> fields.contains(DashboardHistoryField::RoomsByGame),
        kept.player_percentiles <==> fields.contains(DashboardHistoryField::PlayerPercentiles),
        kept.game_percentiles <==> fields.contains(DashboardHistoryField::GamePercentiles),
        fields.contains(DashboardHistoryField::ActiveRooms) ==> kept.active_rooms,
        kept.active_rooms || kept.rooms_by_game || kept.player_percentiles || kept.game_percentiles,
        kept.active_rooms && !fields.contains(DashboardHistoryField::ActiveRooms)
            ==> !kept.rooms_by_game && !kept.player_percentiles && !kept.game_percentiles,
{
    if !kept.active_rooms {
        let i = choose|i: int| 0 <= i < fields.len() && keeps_history(#[trigger] fields[i]);
        assert(fields.contains(fields[i]));
    }
    if kept.active_rooms && !fields.contains(DashboardHistoryField::ActiveRooms) {
        if kept.rooms_by_game {
            let i = choose|i: int|
                0 <= i < fields.len() && fields[i] == DashboardHistoryField::RoomsByGame;
            assert(keeps_history(fields[i]));
        }
        if kept.player_percentiles {
            let i = choose|i: int|
                0 <= i < fields.len() && fields[i] == DashboardHistoryField::PlayerPercentiles;
            assert(keeps_history(fields[i]));
        }
        if kept.game_percentiles {
            let i = choose|i: int|
                0 <= i < fields.len() && fields[i] == DashboardHistoryField::GamePercentiles;
            assert(keeps_history(fields[i]));
        }
    }
}

/// A cached sample is stale exactly once it is older than the bound; without one
/// the dashboard is stale.
pub proof fn law_samples_go_stale_with_age<Games: Clone, Players: Clone, PerGame: Clone>(
    cache: DashboardMetricsCache<Games, Players, PerGame>,
    now: Moment,
)
    requires
        cache.stale_after < crate::durations::CALENDAR_DURATION_MAX,
    ensures
        cache.state.snapshot is None ==> cache.stale_at(now),
        cache.state.snapshot matches Some(snapshot) ==> (cache.stale_at(now) <==> now
            > snapshot.fetched_at_instant + cache.stale_after),
{
}

/// A history has room for every refresh of its window, and for no more than the
/// cache keeps: as many entries as refresh intervals cover the window.
pub proof fn law_histories_cover_their_window(refresh_interval: Nanos, window_secs: u64)
    requires
        refresh_interval <= STD_DURATION_MAX,
    ensures
        ({
            let interval = if refresh_interval < NANOS_PER_SEC {
                1int
            } else {
                refresh_interval as int / NANOS_PER_SEC as int
            };
            let capacity = window_capacity(refresh_interval, window_secs);
            &&& 1 <= capacity <= 10_000
            &&& capacity < 10_000 ==> capacity * interval >= window_secs
            &&& capacity > 1 ==> (capacity - 1) * interval < window_secs
        }),
{
    let interval = if refresh_interval / NANOS_PER_SEC < 1 {
        1int
    } else {
        (refresh_interval / NANOS_PER_SEC) as int
    };
    assert(interval == (if refresh_interval < NANOS_PER_SEC {
        1int
    } else {
        refresh_interval as int / NANOS_PER_SEC as int
    }));
    let window = if window_secs < interval {
        interval
    } else {
        window_secs as int
    };
    let samples = samples_in_window(interval, window);
    assert(interval >= 1);
    assert(samples * interval >= window && (samples - 1) * interval < window && samples >= 1)
        by (nonlinear_arith)
        requires
            samples == (window + interval - 1) / interval,
            interval >= 1,
            window >= interval,
    ;
    let capacity = window_capacity(refresh_interval, window_secs);
    if capacity > 1 {
        assert((capacity - 1) * interval <= (samples - 1) * interval) by (nonlinear_arith)
            requires
                capacity <= samples,
                interval >= 1,
        ;
        if window_secs < interval {
            assert(samples == 1) by (nonlinear_arith)
                requires
                    samples == (interval + interval - 1) / interval,
                    interval >= 1,
            ;
        }
    }
}

/// The number of active rooms is the sum over all games, however they are
/// listed.
pub proof fn law_room_totals_add_up(counts: Seq<usize>, more: Seq<usize>, one: usize)
    ensures
        room_total(counts + more) == room_total(counts) + room_total(more),
        room_total(seq![one]) == one,
        room_total(Seq::empty()) == 0,
    decreases more.len(),
{
    reveal_with_fuel(room_total, 2);
    if more.len() == 0 {
        assert(counts + more =~= counts);
    } else {
        law_room_totals_add_up(counts, more.drop_last(), one);
        assert((counts + more).drop_last() =~= counts + more.drop_last());
    }
    assert(seq![one].drop_last() =~= Seq::<usize>::empty());
}

/// An entry records exactly the configured parts of a sample, under its stamp.
pub proof fn law_entries_record_the_sample<Games: Clone, Players: Clone, PerGame: Clone>(
    entry: DashboardHistoryEntry<Games, Players, PerGame>,
    snapshot: DashboardMetricsSnapshot<Games, Players, PerGame>,
    fields: HistoryFields,
)
    requires
        entry.records(snapshot, fields),
    ensures
        entry.fetched_at == snapshot.fetched_at,
        fields.active_rooms ==> entry.active_rooms == Some(snapshot.active_rooms),
        !fields.active_rooms ==> entry.active_rooms is None,
        fields.rooms_by_game ==> entry.rooms_by_game is Some && cloned::<Games>(
            snapshot.rooms_by_game,
            entry.rooms_by_game->0,
        ),
        !fields.rooms_by_game ==> entry.rooms_by_game is None,
        fields.player_percentiles ==> entry.player_percentiles is Some && cloned::<Players>(
            snapshot.player_percentiles,
            entry.player_percentiles->0,
        ),
        !fields.player_percentiles ==> entry.player_percentiles is None,
        fields.game_percentiles ==> entry.game_percentiles is Some && cloned::<PerGame>(
            snapshot.game_percentiles,
            entry.game_percentiles->0,
        ),
        !fields.game_percentiles ==> entry.game_percentiles is None,
{
}

/// A copied entry shows what the entry shows: the same stamp, the same number
/// of rooms, and a copy of each part exactly where the entry holds that part.
pub proof fn law_copied_entries_show_the_same<Games: Clone, Players: Clone, PerGame: Clone>(
    entry: DashboardHistoryEntry<Games, Players, PerGame>,
    copy: DashboardHistoryEntry<Games, Players, PerGame>,
)
    requires
        entry.copied_as(copy),
    ensures
        copy.fetched_at == entry.fetched_at,
        copy.active_rooms == entry.active_rooms,
        copy.rooms_by_game is Some <==> entry.rooms_by_game is Some,
        copy.player_percentiles is Some <==> entry.player_percentiles is Some,
        copy.game_percentiles is Some <==> entry.game_percentiles is Some,
        entry.rooms_by_game is Some ==> cloned::<Games>(
            entry.rooms_by_game->0,
            copy.rooms_by_game->0,
        ),
        entry.player_percentiles is Some ==> cloned::<Players>(
            entry.player_percentiles->0,
            copy.player_percentiles->0,
        ),
        entry.game_percentiles is Some ==> cloned::<PerGame>(
            entry.game_percentiles->0,
            copy.game_percentiles->0,
        ),
{
}

/// A copied history shows the same samples in the same order, and no other.
pub proof fn law_copied_histories_keep_their_order<Games: Clone, Players: Clone, PerGame: Clone>(
    history: Seq<DashboardHistoryEntry<Games, Players, PerGame>>,
    copy: Seq<DashboardHistoryEntry<Games, Players, PerGame>>,
)
    requires
        history_copied(history, copy),
    ensures
        copy.len() == history.len(),
        forall|i: int|
            0 <= i < history.len() ==> (#[trigger] copy[i]).fetched_at == history[i].fetched_at
                && copy[i].active_rooms == history[i].active_rooms,
{
    assert forall|i: int| 0 <= i < history.len() implies (#[trigger] copy[i]).fetched_at
        == history[i].fetched_at && copy[i].active_rooms == history[i].active_rooms by {
        law_copied_entries_show_the_same(history[i], copy[i]);
    }
}

} // verus!
