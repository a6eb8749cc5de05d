//! Session-management and search-orchestration layer of a chess engine
//! driven over a line-based text protocol.
//!
//! The crate covers command tokenization and dispatch, decoding of search
//! arguments, the move codec, the shared search workspace, and the
//! start/cancel lifecycle of the single background search. The board
//! representation, legal-move generation, position decoding and the search
//! algorithm itself are external collaborators: the host process performs
//! them and feeds their outcomes back through the functions of this crate.

pub mod codec;
pub mod scan;
pub mod args;
pub mod state;
pub mod search;
pub mod uci;
