//! What a server is configured with.

use vstd::prelude::*;
use vstd::string::*;

use crate::connection::Nanos;
use crate::connection_manager::ConnectionLimits;
use crate::dashboard_cache::DashboardHistoryField;
use crate::durations::NANOS_PER_SEC;
use crate::errors::ServerConfigError;

verus! {

/// How long a recipient may fail to take one message where nothing else is
/// configured.
pub const DEFAULT_SLOW_CONSUMER_TIMEOUT_MS: u64 = 5000;

/// The budgets traffic is admitted under.
#[derive(Clone, Copy, Debug, PartialEq, Eq, Structural)]
pub struct RateLimitConfig {
    /// Bytes one sender may relay per window.
    pub max_relay_bytes: u64,
    /// Bytes all senders of one room may relay per window.
    pub max_room_relay_bytes: u64,
    /// Polite per-frame replies one connection is answered with.
    pub max_inbound_error_replies: u64,
    /// The length of a window.
    pub time_window: Nanos,
}

/// How connections are served.
#[derive(Clone, Copy, Debug, PartialEq, Eq, Structural)]
pub struct WebSocketConfig {
    /// How long a recipient may fail to take one message before it is
    /// disconnected.
    pub slow_consumer_timeout_ms: u64,
    /// How often delivery statistics are emitted; 0 turns them off.
    pub delivery_stats_interval_secs: u64,
}

/// How the dashboard metrics are cached.
#[derive(Debug)]
pub struct MetricsConfig {
    pub dashboard_cache_refresh_interval_secs: u64,
    pub dashboard_cache_ttl_secs: u64,
    pub dashboard_cache_history_window_secs: u64,
    pub dashboard_cache_history_fields: Vec<DashboardHistoryField>,
}

/// The server's own settings.
#[derive(Debug)]
pub struct ServerConfig {
    pub default_max_players: u8,
    /// How long a client may stay quiet; zero turns the activity reaper off.
    pub ping_timeout: Nanos,
    pub room_cleanup_interval: Nanos,
    pub drain_grace: Nanos,
    pub max_rooms_per_game: usize,
    pub rate_limit_config: RateLimitConfig,
    pub empty_room_timeout: Nanos,
    pub inactive_room_timeout: Nanos,
    pub max_message_size: usize,
    /// The largest signal payload, in serialized bytes.
    pub max_signal_bytes: usize,
    /// The largest peer metadata entry, in serialized bytes.
    pub max_connection_info_bytes: usize,
    pub max_connections: usize,
    pub max_connections_per_ip: usize,
    pub require_metrics_auth: bool,
    pub metrics_auth_token: Option<String>,
    pub reconnection_window: Nanos,
    pub event_buffer_size: usize,
    pub enable_reconnection: bool,
    pub websocket_config: WebSocketConfig,
    pub app_id_allowlist_enabled: bool,
    /// How long after one `last_seen` update the next one is due; zero updates
    /// on every message.
    pub heartbeat_throttle: Nanos,
    /// The deployment region.
    pub region_id: String,
    /// A prefix of generated room codes.
    pub room_code_prefix: Option<String>,
}

impl Default for ServerConfig {
    fn default() -> (config: Self)
        ensures
            config.default_max_players == 8,
            config.ping_timeout == 30 * NANOS_PER_SEC,
            config.room_cleanup_interval == 60 * NANOS_PER_SEC,
            config.drain_grace == 30 * NANOS_PER_SEC,
            config.max_rooms_per_game == 1000,
            config.empty_room_timeout == 300 * NANOS_PER_SEC,
            config.inactive_room_timeout == 3600 * NANOS_PER_SEC,
            config.max_message_size == 65536,
            config.max_signal_bytes == 16384,
            config.max_connection_info_bytes == 4096,
            config.max_connections == usize::MAX,
            config.max_connections_per_ip == 24,
            config.require_metrics_auth,
            config.metrics_auth_token is None,
            config.reconnection_window == 300 * NANOS_PER_SEC,
            config.event_buffer_size == 100,
            config.enable_reconnection,
            !config.app_id_allowlist_enabled,
            config.heartbeat_throttle == 30 * NANOS_PER_SEC,
            config.region_id@ == "default"@,
            config.room_code_prefix is None,
            config.rate_limit_config == (RateLimitConfig {
                max_relay_bytes: 65536,
                max_room_relay_bytes: u64::MAX,
                max_inbound_error_replies: 100,
                time_window: (60 * NANOS_PER_SEC) as u128,
            }),
            config.websocket_config == (WebSocketConfig {
                slow_consumer_timeout_ms: DEFAULT_SLOW_CONSUMER_TIMEOUT_MS,
                delivery_stats_interval_secs: 0,
            }),
    {
        ServerConfig {
            default_max_players: 8,
            ping_timeout: 30 * NANOS_PER_SEC,
            room_cleanup_interval: 60 * NANOS_PER_SEC,
            drain_grace: 30 * NANOS_PER_SEC,
            max_rooms_per_game: 1000,
            rate_limit_config: RateLimitConfig {
                max_relay_bytes: 65536,
                max_room_relay_bytes: u64::MAX,
                max_inbound_error_replies: 100,
                time_window: 60 * NANOS_PER_SEC,
            },
            empty_room_timeout: 300 * NANOS_PER_SEC,
            inactive_room_timeout: 3600 * NANOS_PER_SEC,
            max_message_size: 65536,
            max_signal_bytes: 16384,
            max_connection_info_bytes: 4096,
            max_connections: usize::MAX,
            max_connections_per_ip: 24,
            require_metrics_auth: true,
            metrics_auth_token: None,
            reconnection_window: 300 * NANOS_PER_SEC,
            event_buffer_size: 100,
            enable_reconnection: true,
            websocket_config: WebSocketConfig {
                slow_consumer_timeout_ms: DEFAULT_SLOW_CONSUMER_TIMEOUT_MS,
                delivery_stats_interval_secs: 0,
            },
            app_id_allowlist_enabled: false,
            heartbeat_throttle: 30 * NANOS_PER_SEC,
            region_id: "default".to_owned(),
            room_code_prefix: None,
        }
    }
}

/// Whether `c` is an ASCII letter or digit.
pub open spec fn is_alphanumeric(c: char) -> bool {
    'a' <= c <= 'z' || 'A' <= c <= 'Z' || '0' <= c <= '9'
}

/// Whether rooms whose generated code has this prefix can be joined by it.
pub open spec fn joinable_prefix(prefix: Option<String>) -> bool {
    match prefix {
        Some(prefix) => forall|i: int|
            0 <= i < prefix@.len() ==> is_alphanumeric(#[trigger] prefix@[i]),
        None => true,
    }
}

impl ServerConfig {
    /// Checks that every room code the server generates can be joined.
    pub fn validate_room_code_generation(&self) -> (valid: Result<(), ServerConfigError>)
        ensures
            valid == (if joinable_prefix(self.room_code_prefix) {
                Ok::<(), ServerConfigError>(())
            } else {
                Err::<(), ServerConfigError>(ServerConfigError::RoomCodePrefixNotAlphanumeric)
            }),
    {
        if let Some(prefix) = &self.room_code_prefix {
            let length: usize = prefix.as_str().unicode_len();
            let mut index: usize = 0;
            while index < length
                invariant
                    index <= length,
                    self.room_code_prefix == Some(*prefix),
                    length == prefix@.len(),
                    forall|i: int| 0 <= i < index ==> is_alphanumeric(#[trigger] prefix@[i]),
                decreases length - index,
            {
                let c = prefix.as_str().get_char(index);
                if !('a' <= c && c <= 'z' || 'A' <= c && c <= 'Z' || '0' <= c && c <= '9') {
                    assert(!is_alphanumeric(self.room_code_prefix->0@[index as int]));
                    return Err(ServerConfigError::RoomCodePrefixNotAlphanumeric);
                }
                index += 1;
            }
        }
        Ok(())
    }

    /// The budgets connections are admitted and answered under.
    pub open spec fn spec_connection_limits(&self) -> ConnectionLimits {
        ConnectionLimits {
            max_connections: self.max_connections,
            max_connections_per_ip: self.max_connections_per_ip,
            max_error_replies: self.rate_limit_config.max_inbound_error_replies,
        }
    }

    /// The budgets connections are admitted and answered under.
    pub fn connection_limits(&self) -> (limits: ConnectionLimits)
        ensures
            limits == self.spec_connection_limits(),
    {
        ConnectionLimits {
            max_connections: self.max_connections,
            max_connections_per_ip: self.max_connections_per_ip,
            max_error_replies: self.rate_limit_config.max_inbound_error_replies,
        }
    }
}

/// A prefix is joinable exactly if every character of it is a letter or digit of
/// the basic Latin alphabet; no prefix, and an empty one, are.
pub proof fn law_prefixes_are_letters_and_digits(prefix: Option<String>)
    ensures
        prefix is None ==> joinable_prefix(prefix),
        prefix matches Some(text) ==> (joinable_prefix(prefix) <==> forall|i: int|
            0 <= i < text@.len() ==> {
                let code = #[trigger] text@[i] as int;
                97 <= code <= 122 || 65 <= code <= 90 || 48 <= code <= 57
            }),
{
    if let Some(text) = prefix {
        assert forall|i: int| 0 <= i < text@.len() implies (is_alphanumeric(#[trigger] text@[i])
            <==> {
            let code = text@[i] as int;
            97 <= code <= 122 || 65 <= code <= 90 || 48 <= code <= 57
        }) by {}
        if joinable_prefix(prefix) {
            assert forall|i: int| 0 <= i < text@.len() implies {
                let code = #[trigger] text@[i] as int;
                97 <= code <= 122 || 65 <= code <= 90 || 48 <= code <= 57
            } by {
                assert(is_alphanumeric(text@[i]));
            }
        }
        if forall|i: int|
            0 <= i < text@.len() ==> {
                let code = #[trigger] text@[i] as int;
                97 <= code <= 122 || 65 <= code <= 90 || 48 <= code <= 57
            } {
            assert forall|i: int| 0 <= i < text@.len() implies is_alphanumeric(
                #[trigger] text@[i],
            ) by {
                let code = text@[i] as int;
                assert(97 <= code <= 122 || 65 <= code <= 90 || 48 <= code <= 57);
            }
        }
    }
}

/// Connections are admitted and answered under the configured limits.
pub proof fn law_limits_are_the_configured_ones(config: ServerConfig)
    ensures
        config.spec_connection_limits().max_connections == config.max_connections,
        config.spec_connection_limits().max_connections_per_ip == config.max_connections_per_ip,
        config.spec_connection_limits().max_error_replies
            == config.rate_limit_config.max_inbound_error_replies,
{
}

} // verus!
