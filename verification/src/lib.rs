//! Deterministic replay engine for a seeded xorshift128+ draw stream.
//!
//! The library reconstructs the exact sequence of pseudo-random draws a game
//! host consumed to produce a chronological stream of game snapshots, labels
//! each draw with its purpose and outcome, and can compare the reconstructed
//! draws against a reference draw stream.
//!
//! Floating-point draw values are represented throughout by their IEEE 754
//! bit patterns (`u64`): every draw and threshold in play is a non-negative
//! finite double, and on those the IEEE ordering coincides with the unsigned
//! ordering of the bit patterns, so comparisons and equality are exact.

pub mod chron;
pub mod compare;
pub mod dblbits;
pub mod engine;
pub mod event_parser;
pub mod fragments;
pub mod game_log;
pub mod numeral;
pub mod rng;
pub mod rolls;
pub mod sim;
pub mod thresholds;
pub mod strutil;
pub mod update_parser;
pub mod xs128p;
