//! Profile switching logic of a game/window monitor: text utilities,
//! profile records, process matching and the decisions taken on each pass.
pub mod text;
pub mod number;
pub mod encode;
pub mod process;
pub mod profile;
pub mod registry;
pub mod setup;
pub mod commands;
pub mod actions;
pub mod idle;
pub mod monitor;
pub mod settings;
