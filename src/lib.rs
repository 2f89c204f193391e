//! A live game-session broker for two-player hexagonal chess.
//!
//! The broker pairs players into matches, keeps each match's two colored
//! connections and its spectators, decides what every participant is told,
//! and decides which matches are stale. Sending events and probing
//! connections are the transport's work: the broker returns the deliveries
//! to make and takes the outcome of each liveness probe as an argument.
pub mod event;
pub mod game;
pub mod identity;
pub mod laws;
pub mod registry;
pub mod utils;
