//! Game-session rules and Telegram mini-app authentication for the racer
//! service: the gas tank that refills over time, the guessing rounds that
//! spend it, and the check of the signed `initData` a mini app sends.

pub mod error;
pub mod extractors;
pub mod handlers;
pub mod shared;
pub mod telegram;
