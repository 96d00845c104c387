//! Verified core of an in-memory WebSocket signaling server: connection
//! bookkeeping, room routing, delivery decisions, and maintenance policy.

pub mod authority;
pub mod broadcast;
pub mod cleanup_task;
pub mod clock;
pub mod close;
pub mod concurrent_maps;
pub mod config;
pub mod connection;
pub mod connection_manager;
pub mod dashboard_cache;
pub mod delivery;
pub mod durations;
pub mod errors;
pub mod game_data;
pub mod heartbeat;
pub mod identifiers;
pub mod maintenance;
pub mod message_router;
pub mod messaging;
pub mod missing_rooms;
pub mod player_sends;
pub mod protocol;
pub mod relay_budget;
pub mod relay_fanout;
pub mod relay_projection;
pub mod relay_stamps;
pub mod room_transaction;
pub mod routing;
pub mod routing_gates;
pub mod server;
pub mod server_clients;
pub mod unregister;
