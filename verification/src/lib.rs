//! Connectivity engine for the GMO Coin derivatives venue: a token-bucket
//! rate limiter, HMAC-signed request building, response-envelope
//! classification, order-book reconstruction, and the reconnecting state
//! machines of the two streaming clients.

pub mod envelope;
pub mod errors;
pub mod json;
pub mod market_stream;
pub mod messages;
pub mod model;
pub mod order_cache;
pub mod orderbook;
pub mod private_stream;
pub mod rate_limit;
pub mod rest;
pub mod sign;
pub mod subs;
pub mod textnum;
