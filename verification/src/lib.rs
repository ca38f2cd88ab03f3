//! Verified core of a personal chess blunder trainer: spaced-repetition
//! scheduling, engine-score interpretation, tactical motif detection,
//! PGN and UCI text handling, and the bookkeeping around game imports and
//! statistics.

pub mod models;
pub mod text;
pub mod json;
pub mod srs;
pub mod bits;
pub mod board;
pub mod attacks;
pub mod chess_io;
pub mod analyzer;
pub mod tactics;
pub mod tags;
pub mod explain;
pub mod pgn;
pub mod uci;
pub mod analysis;
pub mod sync;
pub mod stats;
pub mod requests;
