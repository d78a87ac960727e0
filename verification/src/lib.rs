//! Layered archive resource index and script-driven content registries.
pub mod assets;
pub mod game;
pub mod registries;
