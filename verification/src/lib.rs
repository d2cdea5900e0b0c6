//! A verified rules engine for a networked game of Love Letter.

pub mod cards;
pub mod client;
pub mod events;
pub mod history;
pub mod ids;
pub mod lobby;
pub mod messages;
pub mod outcomes;
pub mod play;
pub mod table;
pub mod text;
pub mod turns;

pub use ids::random_id;
