//! Market and sports data feeds.
pub mod concurrent_map;
pub mod sports_ws;
pub mod websocket;
pub mod pmxt_ws_pool;
pub mod sportradar;
pub mod sportsdataio;
