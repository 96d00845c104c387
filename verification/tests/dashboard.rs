use std::collections::HashMap;

use signal_fish_server::config::MetricsConfig;
use signal_fish_server::dashboard_cache::{
    total_rooms, DashboardHistoryEntry, DashboardHistoryField, DashboardMetricsCache,
    DashboardMetricsSnapshot, HistoryFields, DASHBOARD_CACHE_HISTORY_MAX_CAPACITY,
};
use signal_fish_server::durations::{
    chrono_duration_from_std, from_millis, from_secs, CALENDAR_DURATION_MAX, STD_DURATION_MAX,
};
use signal_fish_server::server::dashboard_metrics_cache;

type Games = HashMap<String, usize>;
type Players = HashMap<String, f64>;
type PerGame = HashMap<String, HashMap<String, f64>>;
type Cache = DashboardMetricsCache<Games, Players, PerGame>;
type Snapshot = DashboardMetricsSnapshot<Games, Players, PerGame>;

const SECOND: u128 = 1_000_000_000;

fn snapshot(active_rooms: usize, at: u128) -> Snapshot {
    DashboardMetricsSnapshot {
        rooms_by_game: HashMap::from([("game".to_string(), 5usize)]),
        player_percentiles: HashMap::from([("p50".to_string(), 3.0)]),
        game_percentiles: HashMap::from([(
            "game".to_string(),
            HashMap::from([("p95".to_string(), 4.0)]),
        )]),
        active_rooms,
        fetched_at: 1_700_000_000_000,
        fetched_at_instant: at,
    }
}

#[test]
fn history_capacity_scales_with_window() {
    let capacity = Cache::history_capacity_for_window(from_secs(5), 300);
    assert_eq!(capacity, 60);
}

#[test]
fn history_capacity_clamps_to_at_least_one_sample() {
    let capacity = Cache::history_capacity_for_window(from_secs(10), 3);
    assert_eq!(capacity, 1);
}

#[test]
fn history_capacity_is_capped() {
    let capacity = Cache::history_capacity_for_window(
        from_secs(1),
        DASHBOARD_CACHE_HISTORY_MAX_CAPACITY as u64 * 10,
    );
    assert_eq!(capacity, DASHBOARD_CACHE_HISTORY_MAX_CAPACITY);
}

#[test]
fn history_entries_respect_selected_fields() {
    let fields = HistoryFields::from_fields(&[
        DashboardHistoryField::ActiveRooms,
        DashboardHistoryField::PlayerPercentiles,
    ]);

    let entry = DashboardHistoryEntry::from_snapshot(&snapshot(42, 0), &fields);
    assert_eq!(entry.active_rooms, Some(42));
    assert!(entry.rooms_by_game.is_none());
    assert!(entry.game_percentiles.is_none());
    let player_data = entry
        .player_percentiles
        .expect("player percentiles should be present");
    assert_eq!(player_data.get("p50"), Some(&3.0));
}

#[test]
fn fields_that_name_nothing_kept_keep_the_active_rooms() {
    for fields in [
        vec![],
        vec![
            DashboardHistoryField::ActiveConnections,
            DashboardHistoryField::RoomsCreated,
        ],
    ] {
        let kept = HistoryFields::from_fields(&fields);
        assert!(kept.active_rooms);
        assert!(!kept.rooms_by_game && !kept.player_percentiles && !kept.game_percentiles);
    }
    let kept = HistoryFields::from_fields(&[
        DashboardHistoryField::RoomsByGame,
        DashboardHistoryField::GamePercentiles,
    ]);
    assert!(!kept.active_rooms && kept.rooms_by_game && kept.game_percentiles);
}

#[test]
fn staleness_gate_decides_on_monotonic_elapsed_time() {
    let stale_after = from_secs(120);
    let mut cache = Cache::new(
        from_secs(60),
        stale_after,
        1,
        &[DashboardHistoryField::ActiveRooms],
    );
    let start = 7 * SECOND;
    assert!(
        cache.view(start).stale,
        "no snapshot yet: the cache must report stale"
    );

    cache.record_refresh_result(Ok(snapshot(0, start)));
    assert!(
        !cache.view(start).stale,
        "a fresh snapshot must not report stale"
    );
    assert!(
        !cache.view(start + stale_after).stale,
        "staleness boundary is strict (elapsed > stale_after)"
    );
    assert!(
        cache.view(start + stale_after + SECOND).stale,
        "a snapshot older than stale_after must report stale"
    );
}

#[test]
fn the_history_keeps_the_newest_entries() {
    let mut cache = Cache::new(
        from_secs(5),
        from_secs(1),
        2,
        &[DashboardHistoryField::ActiveRooms],
    );
    assert_eq!(cache.refresh_interval_secs, 5);
    assert_eq!(cache.stale_after, from_secs(5), "never below one refresh");
    for rooms in 1..=3 {
        cache.record_refresh_result(Ok(snapshot(rooms, 0)));
    }
    let kept: Vec<Option<usize>> = cache
        .view(0)
        .history
        .iter()
        .map(|entry| entry.active_rooms)
        .collect();
    assert_eq!(kept, vec![Some(2), Some(3)]);
}

#[test]
fn a_failed_refresh_keeps_the_sample_and_shows_the_error() {
    let mut cache = Cache::new(
        0,
        0,
        0,
        &[DashboardHistoryField::RoomsByGame],
    );
    assert_eq!(cache.refresh_interval_secs, 1, "at most once a second");
    assert_eq!(cache.state.history_capacity, 1);
    cache.record_refresh_result(Ok(snapshot(9, 0)));
    cache.record_refresh_result(Err("storage is away".to_string()));
    let view = cache.view(0);
    assert_eq!(view.active_rooms, 9);
    assert_eq!(view.fetched_at, Some(1_700_000_000_000));
    assert_eq!(view.last_error, Some("storage is away".to_string()));
    let (games, players, per_game) = view.tables.expect("the sample is kept");
    assert_eq!(games.get("game"), Some(&5));
    assert_eq!(players.get("p50"), Some(&3.0));
    assert_eq!(per_game["game"].get("p95"), Some(&4.0));
    assert_eq!(cache.view(0).history.len(), 1);
    cache.record_refresh_result(Ok(snapshot(3, 0)));
    assert_eq!(cache.view(0).last_error, None);
}

#[test]
fn refreshes_and_failures_are_counted_apart() {
    let mut cache = Cache::new(0, 0, 1, &[DashboardHistoryField::ActiveRooms]);
    assert_eq!(cache.state.last_refresh, None);
    cache.record_refresh_result(Err("storage is away".to_string()));
    assert_eq!(cache.state.refresh_failures, 1);
    assert_eq!(cache.state.refreshes, 0);
    assert_eq!(cache.state.last_refresh, None);
    cache.record_refresh_result(Ok(snapshot(1, 0)));
    assert_eq!(cache.state.refresh_failures, 1);
    assert_eq!(cache.state.refreshes, 1);
    assert_eq!(cache.state.last_refresh, Some(1_700_000_000_000));
    cache.record_refresh_result(Err("storage is away".to_string()));
    assert_eq!(cache.state.refresh_failures, 2);
    assert_eq!(cache.state.refreshes, 1);
    assert_eq!(cache.state.last_refresh, Some(1_700_000_000_000));
    cache.state.refresh_failures = u64::MAX;
    cache.record_refresh_result(Err("storage is away".to_string()));
    assert_eq!(cache.state.refresh_failures, u64::MAX);
}

#[test]
fn the_configured_cache_is_clamped() {
    let cache = dashboard_metrics_cache::<Games, Players, PerGame>(&MetricsConfig {
        dashboard_cache_refresh_interval_secs: 0,
        dashboard_cache_ttl_secs: 0,
        dashboard_cache_history_window_secs: 0,
        dashboard_cache_history_fields: vec![],
    });
    assert_eq!(cache.refresh_interval_secs, 1);
    assert_eq!(cache.refresh_interval, from_secs(1));
    assert_eq!(cache.stale_after, from_secs(1));
    assert_eq!(cache.state.history_capacity, 1);
    assert!(cache.history_fields.active_rooms);
    let cache = dashboard_metrics_cache::<Games, Players, PerGame>(&MetricsConfig {
        dashboard_cache_refresh_interval_secs: 5,
        dashboard_cache_ttl_secs: 30,
        dashboard_cache_history_window_secs: 300,
        dashboard_cache_history_fields: vec![DashboardHistoryField::GamePercentiles],
    });
    assert!(cache.history_fields.game_percentiles && !cache.history_fields.active_rooms);
    assert_eq!(cache.stale_after, from_secs(30));
    assert_eq!(cache.state.history_capacity, 60);
}

#[test]
fn room_totals_add_up() {
    assert_eq!(total_rooms(&vec![]), 0);
    assert_eq!(total_rooms(&vec![3, 4, 35]), 42);
}

#[test]
fn extreme_std_duration_saturates_without_panicking() {
    assert_eq!(
        chrono_duration_from_std(STD_DURATION_MAX),
        CALENDAR_DURATION_MAX
    );
}

#[test]
fn ordinary_durations_are_kept_by_the_calendar() {
    assert_eq!(chrono_duration_from_std(0), 0);
    assert_eq!(chrono_duration_from_std(from_secs(90)), 90 * SECOND);
    assert_eq!(
        chrono_duration_from_std(CALENDAR_DURATION_MAX),
        CALENDAR_DURATION_MAX
    );
    assert_eq!(
        chrono_duration_from_std(CALENDAR_DURATION_MAX + 1),
        CALENDAR_DURATION_MAX
    );
    assert_eq!(from_millis(1500), 1_500_000_000);
    let max = chrono::TimeDelta::MAX;
    assert_eq!(
        u128::try_from(max.num_seconds()).unwrap() * SECOND
            + u128::try_from(max.subsec_nanos()).unwrap(),
        CALENDAR_DURATION_MAX
    );
    assert_eq!(std::time::Duration::MAX.as_nanos(), STD_DURATION_MAX);
}
