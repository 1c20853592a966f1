//! Order bookkeeping, feed decoding and request building for a prediction-market trading bot.
pub mod ai_client;
pub mod client;
pub mod decimal;
pub mod json;
pub mod keyed;
pub mod order;
pub mod text;
pub mod logger;
