//! Shared and per-session state: the board position as this layer tracks
//! it, the search workspace guarded by the host's lock, and the
//! foreground-owned session flags.

use vstd::prelude::*;
use vstd::string::StringSliceAdditionalSpecFns;
use std::collections::HashMap;
use crate::codec::{Move, null_move};

verus! {

/// The standard initial position description.
pub open spec fn startpos_desc() -> Seq<u8> {
    "rnbqkbnr/pppppppp/8/8/8/8/PPPPPPPP/RNBQKBNR w KQkq - 0 1".spec_bytes()
}

/// The standard initial position description, as bytes.
pub fn startpos_bytes() -> (r: Vec<u8>)
    ensures
        r@ == startpos_desc(),
{
    vstd::slice::slice_to_vec(
        "rnbqkbnr/pppppppp/8/8/8/8/PPPPPPPP/RNBQKBNR w KQkq - 0 1".as_bytes(),
    )
}

/// The board position as this layer tracks it: the description it was last
/// loaded from, and the moves applied to it since. Decoding the description
/// and playing the moves on an actual board is the engine's work; this
/// layer only carries the value to it.
pub struct Board {
    pub desc: Vec<u8>,
    pub moves: Vec<Move>,
}

/// Mathematical model of a `Board` value.
pub ghost struct BoardModel {
    pub desc: Seq<u8>,
    pub moves: Seq<Move>,
}

impl View for Board {
    type V = BoardModel;

    open spec fn view(&self) -> BoardModel {
        BoardModel { desc: self.desc@, moves: self.moves@ }
    }
}

pub open spec fn initial_board() -> BoardModel {
    BoardModel { desc: startpos_desc(), moves: Seq::<Move>::empty() }
}

impl Board {
    /// The standard initial position with no moves played.
    pub fn initial() -> (b: Board)
        ensures
            b@ == initial_board(),
    {
        let b = Board { desc: startpos_bytes(), moves: Vec::new() };
        b
    }
}

/// A cached search outcome for one position hash: the move found best and
/// its score in centipawns.
#[derive(Clone, Copy, PartialEq, Eq, Structural, Debug)]
pub struct CachedEval {
    pub best: Move,
    pub score: i64,
}

/// Worst-case count of legal moves in any reachable chess position; the
/// move buffer is sized to it once and never grows.
pub const MOVE_BUFFER_CAPACITY: usize = 218;

/// The shared mutable unit: board position, the fixed-capacity move buffer,
/// and the transposition table. The host guards a value of this type with a
/// single lock, taken by the command thread for position updates and held
/// by the background task for the whole of move generation and search.
pub struct SearchState {
    pub move_array: Vec<Move>,
    pub board: Board,
    pub transposition_table: HashMap<u64, CachedEval>,
}

/// The buffer as it stands after a reset: full capacity, every slot the
/// placeholder move.
pub open spec fn reset_buffer() -> Seq<Move> {
    Seq::new(MOVE_BUFFER_CAPACITY as nat, |i: int| null_move())
}

impl SearchState {
    /// The move buffer always keeps its fixed capacity.
    pub open spec fn well_formed(&self) -> bool {
        self.move_array@.len() == MOVE_BUFFER_CAPACITY
    }

    /// A fresh workspace: initial position, reset buffer, empty table.
    pub fn new() -> (s: SearchState)
        ensures
            s.well_formed(),
            s.move_array@ == reset_buffer(),
            s.board@ == initial_board(),
            s.transposition_table@ == Map::<u64, CachedEval>::empty(),
    {
        SearchState {
            move_array: null_buffer(),
            board: Board::initial(),
            transposition_table: HashMap::new(),
        }
    }
}

/// A full buffer of placeholder moves.
fn null_buffer() -> (v: Vec<Move>)
    ensures
        v@ == reset_buffer(),
{
    let mut v: Vec<Move> = Vec::new();
    let mut i: usize = 0;
    while i < MOVE_BUFFER_CAPACITY
        invariant
            i <= MOVE_BUFFER_CAPACITY,
            v@.len() == i,
            forall|j: int| 0 <= j < i ==> v@[j] == null_move(),
        decreases MOVE_BUFFER_CAPACITY - i,
    {
        v.push(Move { from: 0, to: 0, promotion: crate::codec::Promotion::NoPromotion });
        i = i + 1;
    }
    proof {
        assert(v@ =~= reset_buffer());
    }
    v
}

/// Resets the move buffer to placeholder moves before a generation pass;
/// board and transposition table are untouched.
pub fn reset_move_buffer(ws: &mut SearchState)
    ensures
        final(ws).well_formed(),
        final(ws).move_array@ == reset_buffer(),
        final(ws).board@ == old(ws).board@,
        final(ws).transposition_table@ == old(ws).transposition_table@,
{
    ws.move_array = null_buffer();
}

/// Per-session state owned by the foreground command thread. The shared
/// workspace and the live cancellation token are held by the host beside
/// this value; `should_stop` models whether the current search's token has
/// been raised, and `search_active` whether a background task handle exists.
#[derive(Clone, Copy, PartialEq, Eq, Structural, Debug)]
pub struct EngineState {
    pub debug: bool,
    pub should_quit: bool,
    pub should_stop: bool,
    pub search_active: bool,
}

pub open spec fn initial_session() -> EngineState {
    EngineState { debug: false, should_quit: false, should_stop: false, search_active: false }
}

impl EngineState {
    /// A fresh session: no search running, no flags set.
    pub fn new() -> (s: EngineState)
        ensures
            s == initial_session(),
    {
        EngineState { debug: false, should_quit: false, should_stop: false, search_active: false }
    }

    /// The host reports that the background task has finished and its
    /// handle has been joined: the orchestrator returns to idle. This is
    /// the one transition back to idle per search generation.
    pub fn search_finished(&mut self)
        ensures
            *final(self) == (EngineState { search_active: false, ..*old(self) }),
    {
        self.search_active = false;
    }
}

} // verus!
