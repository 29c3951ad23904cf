//! Core logic of a small arcade game: a player-controlled circle dodges and
//! shoots falling squares while the game tracks a score and a persisted high
//! score. This crate holds the per-frame update rules (motion, spawning,
//! pruning, collision resolution, scoring, restart) and the high-score text
//! codec; rendering, input polling and storage I/O live with the caller.

pub mod codec;
pub mod game;
mod rng;
pub mod shape;
