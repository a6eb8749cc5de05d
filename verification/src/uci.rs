//! CommandDispatcher and PositionLoader: tokenizes each input line, routes
//! it to the session's components, and decides what the host must perform.
//!
//! The dispatcher never raises an error to its caller: every outcome is a
//! state change, a batch of output lines, or an action for the host (load a
//! decoded position, spawn the search task, raise the cancellation token).
//! An unrecognized leading token is skipped and the remainder of the line
//! is dispatched again, so a stray prefix is tolerated; a line that yields
//! no known command is a no-op.

use vstd::prelude::*;
use vstd::string::StringSliceAdditionalSpecFns;
use crate::args::{default_args, go_args_from, get_search_arguments, ArgsModel, SearchArguments};
use crate::codec::{move_list_from, parse_moves, Move};
use crate::scan::{
    classify, is_alpha, keyword_of, lemma_scan_alpha_bounds, lemma_scan_space_bounds,
    next_token, scan_alpha, scan_nonspace, scan_space, skip_nonspace, skip_space, Keyword,
};
use crate::search::begin_search;
use crate::state::{startpos_bytes, startpos_desc, Board, BoardModel, EngineState, SearchState};

verus! {

// ---------------------------------------------------------------------------
// Output lines
// ---------------------------------------------------------------------------

pub open spec fn id_name_line() -> Seq<u8> {
    "id name Avie 0.0.1".spec_bytes()
}

pub open spec fn id_author_line() -> Seq<u8> {
    "id author Ruby Rinken & Andrea O'Gara".spec_bytes()
}

pub open spec fn uciok_line() -> Seq<u8> {
    "uciok".spec_bytes()
}

pub open spec fn readyok_line() -> Seq<u8> {
    "readyok".spec_bytes()
}

pub open spec fn decode_error_line() -> Seq<u8> {
    "error: invalid position".spec_bytes()
}

/// The engine's identification lines, sent in reply to "uci".
pub fn introduction() -> (r: Vec<Vec<u8>>)
    ensures
        r@.len() == 2,
        r@[0]@ == id_name_line(),
        r@[1]@ == id_author_line(),
{
    let mut r: Vec<Vec<u8>> = Vec::new();
    r.push(vstd::slice::slice_to_vec("id name Avie 0.0.1".as_bytes()));
    r.push(vstd::slice::slice_to_vec("id author Ruby Rinken & Andrea O'Gara".as_bytes()));
    r
}

/// The engine options offered to the host: none yet.
pub fn options() -> (r: Vec<Vec<u8>>)
    ensures
        r@.len() == 0,
{
    Vec::new()
}

// ---------------------------------------------------------------------------
// What the host must perform after a command
// ---------------------------------------------------------------------------

/// The outward effect of one dispatched line, beyond session-state changes
/// and output: the work only the host can do.
pub enum Action {
    /// Nothing to perform.
    Idle,
    /// Decode this position description, and on success install the board
    /// in the workspace under its lock (dropping the update when the lock
    /// is contended).
    LoadPosition(Board),
    /// Spawn the background search task with these arguments and a fresh
    /// cancellation token.
    StartSearch(SearchArguments),
    /// Raise the current cancellation token.
    RaiseStop,
}

/// Mathematical model of an `Action`.
pub ghost enum ActionModel {
    Idle,
    LoadPosition(BoardModel),
    StartSearch(ArgsModel),
    RaiseStop,
}

impl View for Action {
    type V = ActionModel;

    open spec fn view(&self) -> ActionModel {
        match self {
            Action::Idle => ActionModel::Idle,
            Action::LoadPosition(b) => ActionModel::LoadPosition(b@),
            Action::StartSearch(a) => ActionModel::StartSearch(a@),
            Action::RaiseStop => ActionModel::RaiseStop,
        }
    }
}

// ---------------------------------------------------------------------------
// Dispatch
// ---------------------------------------------------------------------------

pub open spec fn is_command(kw: Keyword) -> bool {
    match kw {
        Keyword::Uci => true,
        Keyword::Debug => true,
        Keyword::IsReady => true,
        Keyword::UciNewGame => true,
        Keyword::Position => true,
        Keyword::Go => true,
        Keyword::Stop => true,
        Keyword::Quit => true,
        _ => false,
    }
}

/// The first known command token of a line, and the position of its body:
/// leading alphabetic tokens that are no command are skipped; a
/// non-alphabetic leading byte, or the line's end, yields nothing.
pub open spec fn dispatch_at(s: Seq<u8>, pos: int) -> Option<(Keyword, int)>
    recommends
        0 <= pos <= s.len(),
    decreases s.len() - pos,
    when 0 <= pos <= s.len()
    via dispatch_at_dec
{
    if pos >= s.len() || !is_alpha(s[pos]) {
        None
    } else {
        let end = scan_alpha(s, pos);
        let rest = scan_space(s, end);
        let kw = keyword_of(s.subrange(pos, end));
        if is_command(kw) {
            Some((kw, rest))
        } else {
            dispatch_at(s, rest)
        }
    }
}

#[via_fn]
proof fn dispatch_at_dec(s: Seq<u8>, pos: int) {
    if pos < s.len() && is_alpha(s[pos]) {
        lemma_scan_alpha_bounds(s, pos + 1);
        lemma_scan_space_bounds(s, scan_alpha(s, pos));
    }
}

/// Effect of the token after "debug": "on" sets the flag, "off" clears it,
/// anything else leaves the session unchanged.
pub open spec fn debug_step(s: Seq<u8>, pos: int, st: EngineState) -> EngineState {
    if 0 <= pos < s.len() && is_alpha(s[pos]) {
        let end = scan_alpha(s, pos);
        match keyword_of(s.subrange(pos, end)) {
            Keyword::On => EngineState { debug: true, ..st },
            Keyword::Off => EngineState { debug: false, ..st },
            _ => st,
        }
    } else {
        st
    }
}

// ---------------------------------------------------------------------------
// The position command's body
// ---------------------------------------------------------------------------

/// End of the `k`-th whitespace-separated field from `pos` on, if that many
/// fields are present.
pub open spec fn fen_fields_end(s: Seq<u8>, pos: int, k: nat) -> Option<int>
    recommends
        0 <= pos <= s.len(),
    decreases k,
{
    if k == 0 {
        Some(pos)
    } else {
        let p = scan_space(s, pos);
        if 0 <= pos <= s.len() && p < s.len() {
            fen_fields_end(s, scan_nonspace(s, p), (k - 1) as nat)
        } else {
            None
        }
    }
}

/// The position description the body names: the literal "startpos" stands
/// for the standard initial position; "fen" is followed by the six fields
/// of a position description, taken verbatim. Yields the description and
/// the position after it (and any following whitespace); anything else is
/// no position command.
pub open spec fn position_parse(s: Seq<u8>, pos: int) -> Option<(Seq<u8>, int)>
    recommends
        0 <= pos <= s.len(),
{
    if 0 <= pos < s.len() && is_alpha(s[pos]) {
        let end = scan_alpha(s, pos);
        let rest = scan_space(s, end);
        match keyword_of(s.subrange(pos, end)) {
            Keyword::Startpos => Some((startpos_desc(), rest)),
            Keyword::Fen => match fen_fields_end(s, rest, 6) {
                Some(fend) => Some((s.subrange(rest, fend), scan_space(s, fend))),
                None => None,
            },
            _ => None,
        }
    } else {
        None
    }
}

/// The move list after the description: present exactly when the next
/// token is the keyword "moves"; a malformed token ends the list, and what
/// follows it is ignored.
pub open spec fn moves_clause(s: Seq<u8>, pos: int) -> Seq<Move>
    recommends
        0 <= pos <= s.len(),
{
    if 0 <= pos < s.len() && is_alpha(s[pos]) {
        let end = scan_alpha(s, pos);
        let rest = scan_space(s, end);
        if keyword_of(s.subrange(pos, end)) == Keyword::Moves {
            move_list_from(s, rest).0
        } else {
            Seq::<Move>::empty()
        }
    } else {
        Seq::<Move>::empty()
    }
}

/// The board a position command's body asks for, if it is well-formed.
pub open spec fn position_board(s: Seq<u8>, pos: int) -> Option<BoardModel>
    recommends
        0 <= pos <= s.len(),
{
    match position_parse(s, pos) {
        Some((desc, rest)) => Some(BoardModel { desc, moves: moves_clause(s, rest) }),
        None => None,
    }
}

/// Finds the end of the six whitespace-separated fields of a position
/// description.
fn fen_fields(line: &[u8], pos: usize) -> (r: Option<usize>)
    requires
        pos <= line@.len(),
    ensures
        match fen_fields_end(line@, pos as int, 6) {
            Some(e) => r matches Some(x) && x as int == e && pos <= x <= line@.len(),
            None => r is None,
        },
{
    let mut p: usize = pos;
    let mut k: usize = 6;
    loop
        invariant
            pos <= p <= line@.len(),
            k <= 6,
            fen_fields_end(line@, pos as int, 6) == fen_fields_end(line@, p as int, k as nat),
        decreases k,
    {
        if k == 0 {
            return Some(p);
        }
        let q = skip_space(line, p);
        if q == line.len() {
            return None;
        }
        p = skip_nonspace(line, q);
        k = k - 1;
    }
}

/// Splits the body of a "position" command into the description named
/// there, returning it and the position of what follows.
pub fn accept_new_position(line: &[u8], pos: usize) -> (r: Option<(Vec<u8>, usize)>)
    requires
        pos <= line@.len(),
    ensures
        match position_parse(line@, pos as int) {
            Some(p) => r matches Some(v) && v.0@ == p.0 && v.1 as int == p.1 && v.1
                <= line@.len(),
            None => r is None,
        },
{
    match next_token(line, pos) {
        None => None,
        Some((end, rest)) => match classify(line, pos, end) {
            Keyword::Startpos => Some((startpos_bytes(), rest)),
            Keyword::Fen => match fen_fields(line, rest) {
                Some(fend) => {
                    let desc = vstd::slice::slice_to_vec(
                        vstd::slice::slice_subrange(line, rest, fend),
                    );
                    let cont = skip_space(line, fend);
                    Some((desc, cont))
                },
                None => None,
            },
            _ => None,
        },
    }
}

/// Decodes the optional "moves" clause after a description.
fn parse_moves_clause(line: &[u8], pos: usize) -> (r: Vec<Move>)
    requires
        pos <= line@.len(),
    ensures
        r@ == moves_clause(line@, pos as int),
{
    match next_token(line, pos) {
        None => Vec::new(),
        Some((end, rest)) => match classify(line, pos, end) {
            Keyword::Moves => {
                let (ms, _fin) = parse_moves(line, rest);
                ms
            },
            _ => Vec::new(),
        },
    }
}

/// Decodes a whole "position" command body into the board it asks for.
fn parse_position_body(line: &[u8], pos: usize) -> (r: Option<Board>)
    requires
        pos <= line@.len(),
    ensures
        match position_board(line@, pos as int) {
            Some(b) => r matches Some(rb) && rb@ == b,
            None => r is None,
        },
{
    match accept_new_position(line, pos) {
        None => None,
        Some((desc, cont)) => {
            let moves = parse_moves_clause(line, cont);
            Some(Board { desc, moves })
        },
    }
}

/// The one diagnostic line for a position description that cannot be
/// decoded.
pub fn decode_error_bytes() -> (r: Vec<u8>)
    ensures
        r@ == decode_error_line(),
{
    vstd::slice::slice_to_vec("error: invalid position".as_bytes())
}

/// Whether the body at `pos` opens with the keyword "fen": its description
/// is then expected to decode, and a malformed one is diagnosed rather
/// than passed over.
pub open spec fn fen_keyword_at(s: Seq<u8>, pos: int) -> bool {
    0 <= pos < s.len() && is_alpha(s[pos]) && keyword_of(s.subrange(pos, scan_alpha(s, pos)))
        == Keyword::Fen
}

/// Applies the host's decode outcome for a parsed position command. On
/// success the board is replaced wholesale; on a decode failure the
/// existing board is left untouched and the one diagnostic line to emit is
/// handed back. Buffer and transposition table are never touched.
pub fn position_outcome(ws: &mut SearchState, board: Board, decode_ok: bool) -> (diag: Option<
    Vec<u8>,
>)
    ensures
        decode_ok ==> final(ws).board@ == board@ && diag is None,
        !decode_ok ==> final(ws).board@ == old(ws).board@ && (diag matches Some(d) && d@
            == decode_error_line()),
        final(ws).move_array@ == old(ws).move_array@,
        final(ws).transposition_table@ == old(ws).transposition_table@,
{
    if decode_ok {
        ws.board = board;
        None
    } else {
        Some(vstd::slice::slice_to_vec("error: invalid position".as_bytes()))
    }
}

// ---------------------------------------------------------------------------
// The step a whole line makes
// ---------------------------------------------------------------------------

/// Everything one dispatched line does: the session state after it, the
/// output lines it emits, and the action the host must perform.
pub ghost struct StepModel {
    pub state: EngineState,
    pub output: Seq<Seq<u8>>,
    pub action: ActionModel,
}

pub open spec fn silent_step(st: EngineState) -> StepModel {
    StepModel { state: st, output: Seq::<Seq<u8>>::empty(), action: ActionModel::Idle }
}

/// The meaning of one input line against a session state.
pub open spec fn step_model(s: Seq<u8>, st: EngineState) -> StepModel {
    match dispatch_at(s, 0) {
        None => silent_step(st),
        Some((kw, rest)) => match kw {
            Keyword::Uci => StepModel {
                state: st,
                output: seq![id_name_line(), id_author_line(), uciok_line()],
                action: ActionModel::Idle,
            },
            Keyword::Debug => StepModel {
                state: debug_step(s, rest, st),
                output: Seq::<Seq<u8>>::empty(),
                action: ActionModel::Idle,
            },
            Keyword::IsReady => StepModel {
                state: st,
                output: seq![readyok_line()],
                action: ActionModel::Idle,
            },
            // A new game leaves the session as it is; in particular the
            // transposition table deliberately persists across games.
            Keyword::UciNewGame => silent_step(st),
            // A malformed position description after "fen" aborts the
            // command with exactly one diagnostic line, the board left as
            // it was; a body that names no description at all is silent.
            Keyword::Position => match position_board(s, rest) {
                Some(b) => StepModel {
                    state: st,
                    output: Seq::<Seq<u8>>::empty(),
                    action: ActionModel::LoadPosition(b),
                },
                None => if fen_keyword_at(s, rest) {
                    StepModel {
                        state: st,
                        output: seq![decode_error_line()],
                        action: ActionModel::Idle,
                    }
                } else {
                    silent_step(st)
                },
            },
            Keyword::Go => {
                if st.search_active {
                    silent_step(st)
                } else {
                    StepModel {
                        state: EngineState { search_active: true, should_stop: false, ..st },
                        output: Seq::<Seq<u8>>::empty(),
                        action: ActionModel::StartSearch(go_args_from(s, rest, default_args())),
                    }
                }
            },
            Keyword::Stop => StepModel {
                state: EngineState { should_stop: true, ..st },
                output: Seq::<Seq<u8>>::empty(),
                action: ActionModel::RaiseStop,
            },
            Keyword::Quit => StepModel {
                state: EngineState { should_stop: true, should_quit: true, ..st },
                output: Seq::<Seq<u8>>::empty(),
                action: ActionModel::RaiseStop,
            },
            _ => silent_step(st),
        },
    }
}

/// Dispatches one input line: mutates the session state, returns the
/// output lines to emit and the action the host must perform.
pub fn process_uci_command(commands: &[u8], engine_state: &mut EngineState) -> (r: (
    Vec<Vec<u8>>,
    Action,
))
    ensures
        ({
            let m = step_model(commands@, *old(engine_state));
            &&& *final(engine_state) == m.state
            &&& r.0@.len() == m.output.len()
            &&& forall|i: int| 0 <= i < m.output.len() ==> r.0@[i]@ == m.output[i]
            &&& r.1@ == m.action
        }),
{
    let ghost s = commands@;
    let mut pos: usize = 0;
    loop
        invariant
            s == commands@,
            pos <= commands@.len(),
            dispatch_at(s, 0) == dispatch_at(s, pos as int),
            *engine_state == *old(engine_state),
        decreases commands@.len() - pos,
    {
        match next_token(commands, pos) {
            None => {
                return (Vec::new(), Action::Idle);
            },
            Some((end, rest)) => {
                let kw = classify(commands, pos, end);
                match kw {
                    Keyword::Uci => {
                        let mut out = introduction();
                        let mut opts = options();
                        out.append(&mut opts);
                        out.push(vstd::slice::slice_to_vec("uciok".as_bytes()));
                        return (out, Action::Idle);
                    },
                    Keyword::Debug => {
                        match next_token(commands, rest) {
                            None => {},
                            Some((dend, _drest)) => match classify(commands, rest, dend) {
                                Keyword::On => {
                                    engine_state.debug = true;
                                },
                                Keyword::Off => {
                                    engine_state.debug = false;
                                },
                                _ => {},
                            },
                        }
                        return (Vec::new(), Action::Idle);
                    },
                    Keyword::IsReady => {
                        let mut out: Vec<Vec<u8>> = Vec::new();
                        out.push(vstd::slice::slice_to_vec("readyok".as_bytes()));
                        return (out, Action::Idle);
                    },
                    Keyword::UciNewGame => {
                        return (Vec::new(), Action::Idle);
                    },
                    Keyword::Position => {
                        match parse_position_body(commands, rest) {
                            Some(b) => {
                                return (Vec::new(), Action::LoadPosition(b));
                            },
                            None => {
                                let mut diagnosed = false;
                                match next_token(commands, rest) {
                                    None => {},
                                    Some((bend, _brest)) => {
                                        if let Keyword::Fen = classify(commands, rest, bend) {
                                            diagnosed = true;
                                        }
                                    },
                                }
                                if diagnosed {
                                    let mut out: Vec<Vec<u8>> = Vec::new();
                                    out.push(decode_error_bytes());
                                    return (out, Action::Idle);
                                }
                                return (Vec::new(), Action::Idle);
                            },
                        }
                    },
                    Keyword::Go => {
                        let args = get_search_arguments(commands, rest);
                        match begin_search(engine_state, args) {
                            Some(a) => {
                                return (Vec::new(), Action::StartSearch(a));
                            },
                            None => {
                                return (Vec::new(), Action::Idle);
                            },
                        }
                    },
                    Keyword::Stop => {
                        engine_state.should_stop = true;
                        return (Vec::new(), Action::RaiseStop);
                    },
                    Keyword::Quit => {
                        engine_state.should_stop = true;
                        engine_state.should_quit = true;
                        return (Vec::new(), Action::RaiseStop);
                    },
                    _ => {
                        pos = rest;
                    },
                }
            },
        }
    }
}

// ---------------------------------------------------------------------------
// Session laws
// ---------------------------------------------------------------------------

/// While a search is running, a further "go" line neither changes the
/// session nor starts anything: no second task, no output.
pub proof fn lemma_go_while_running(s: Seq<u8>, st: EngineState)
    requires
        st.search_active,
        dispatch_at(s, 0) matches Some(p) && p.0 == Keyword::Go,
    ensures
        step_model(s, st) == silent_step(st),
{
}

/// "quit" marks the session for termination and raises the cancellation
/// token, whatever else is going on: the command loop can exit without
/// waiting for a search in flight.
pub proof fn lemma_quit_terminates(s: Seq<u8>, st: EngineState)
    requires
        dispatch_at(s, 0) matches Some(p) && p.0 == Keyword::Quit,
    ensures
        step_model(s, st).state.should_quit,
        step_model(s, st).state.should_stop,
        step_model(s, st).action == ActionModel::RaiseStop,
{
}

/// "isready" is answered at once with exactly one line, whether or not a
/// search is running, and the session is untouched.
pub proof fn lemma_isready_responsive(s: Seq<u8>, st: EngineState)
    requires
        dispatch_at(s, 0) matches Some(p) && p.0 == Keyword::IsReady,
    ensures
        step_model(s, st).output == seq![readyok_line()],
        step_model(s, st).state == st,
{
}

/// A position command whose "fen" description is malformed emits exactly
/// one diagnostic line and touches nothing: the previously loaded board
/// stays as it was, and no action is handed to the host.
pub proof fn lemma_malformed_fen_diagnosed(s: Seq<u8>, st: EngineState)
    requires
        dispatch_at(s, 0) matches Some(p) && p.0 == Keyword::Position,
        position_board(s, dispatch_at(s, 0)->Some_0.1) is None,
        fen_keyword_at(s, dispatch_at(s, 0)->Some_0.1),
    ensures
        step_model(s, st).output == seq![decode_error_line()],
        step_model(s, st).state == st,
        step_model(s, st).action == ActionModel::Idle,
{
}

/// "stop" only requests cancellation: it emits nothing, and it leaves the
/// running task marked live — reporting the result belongs to the task
/// itself on its own completion, so command intake never blocks on search
/// latency.
pub proof fn lemma_stop_is_nonblocking(s: Seq<u8>, st: EngineState)
    requires
        dispatch_at(s, 0) matches Some(p) && p.0 == Keyword::Stop,
    ensures
        step_model(s, st).output.len() == 0,
        step_model(s, st).state.search_active == st.search_active,
        step_model(s, st).state.should_stop,
{
}

/// The cancellation token is minted fresh on every search start: even
/// right after a "stop" or "quit" raised the previous token, a "go" that
/// starts a search starts it with the token unraised. A stale signal from
/// a retired search can never reach a new one.
pub proof fn lemma_fresh_token_per_search(stop_line: Seq<u8>, go_line: Seq<u8>, st: EngineState)
    requires
        dispatch_at(stop_line, 0) matches Some(p) && (p.0 == Keyword::Stop || p.0
            == Keyword::Quit),
        dispatch_at(go_line, 0) matches Some(p) && p.0 == Keyword::Go,
    ensures
        ({
            let stopped = step_model(stop_line, st).state;
            &&& stopped.should_stop
            &&& !stopped.search_active ==> !step_model(go_line, stopped).state.should_stop
                && step_model(go_line, stopped).state.search_active
        }),
{
}

} // verus!
