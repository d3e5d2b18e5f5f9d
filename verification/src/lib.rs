//! Game rules, dealing, scoring and content-pack bookkeeping of a party game
//! in which players answer situations with memes (or memes with situations).
//!
//! Identifiers are held as `u128` values (the 128-bit form of a UUID) and
//! instants as `i64` microseconds since the Unix epoch.

pub mod ids;
pub mod error;
pub mod guard;
pub mod model;
pub mod text;
pub mod handle;
pub mod start;
pub mod play;
pub mod timeout;
pub mod lobby;
pub mod seeder;
pub mod packs;
pub mod outbox;
pub mod worker;
pub mod state_view;
pub mod auth;
pub mod dto;
pub mod effects;
pub mod app_state;
pub mod resync;
pub mod rows;
pub mod params;
