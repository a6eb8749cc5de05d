use avie::codec::parse_moves;
use avie::search::{auto_stop_millis, format_search_result, restrict_candidates};
use avie::state::{Board, EngineState, SearchState, MOVE_BUFFER_CAPACITY};
use avie::uci::{introduction, options, position_outcome, process_uci_command, Action};

const STARTPOS: &[u8] = b"rnbqkbnr/pppppppp/8/8/8/8/PPPPPPPP/RNBQKBNR w KQkq - 0 1";

#[test]
fn uci_handshake() {
    let mut st = EngineState::new();
    let (out, action) = process_uci_command(b"uci", &mut st);
    assert_eq!(out.len(), 3);
    assert_eq!(out[0], b"id name Avie 0.0.1".to_vec());
    assert_eq!(out[1], b"id author Ruby Rinken & Andrea O'Gara".to_vec());
    assert_eq!(out[2], b"uciok".to_vec());
    assert!(matches!(action, Action::Idle));
}

#[test]
fn introduction_and_options_lines() {
    assert_eq!(introduction().len(), 2);
    assert_eq!(options().len(), 0);
}

#[test]
fn isready_is_answered_at_once() {
    let mut st = EngineState::new();
    st.search_active = true;
    let before = st;
    let (out, _) = process_uci_command(b"isready", &mut st);
    assert_eq!(out, vec![b"readyok".to_vec()]);
    assert_eq!(st, before);
}

#[test]
fn debug_toggles() {
    let mut st = EngineState::new();
    process_uci_command(b"debug on", &mut st);
    assert!(st.debug);
    process_uci_command(b"debug off", &mut st);
    assert!(!st.debug);
    process_uci_command(b"debug sideways", &mut st);
    assert!(!st.debug);
}

#[test]
fn unknown_prefix_is_redispatched() {
    let mut st = EngineState::new();
    let (out, _) = process_uci_command(b"joho uci", &mut st);
    assert_eq!(out.last().unwrap(), &b"uciok".to_vec());
}

#[test]
fn empty_line_is_a_noop() {
    let mut st = EngineState::new();
    let before = st;
    let (out, action) = process_uci_command(b"", &mut st);
    assert!(out.is_empty());
    assert!(matches!(action, Action::Idle));
    assert_eq!(st, before);
}

#[test]
fn go_starts_one_search() {
    let mut st = EngineState::new();
    let (out, action) = process_uci_command(b"go movetime 50", &mut st);
    assert!(out.is_empty());
    assert!(st.search_active);
    assert!(!st.should_stop);
    match action {
        Action::StartSearch(args) => {
            assert_eq!(args.movetime, 50);
            assert_eq!(auto_stop_millis(&args), Some(50));
        }
        _ => panic!("expected a search to start"),
    }
}

#[test]
fn second_go_is_discarded() {
    let mut st = EngineState::new();
    process_uci_command(b"go infinite", &mut st);
    let before = st;
    let (out, action) = process_uci_command(b"go movetime 1", &mut st);
    assert!(out.is_empty());
    assert!(matches!(action, Action::Idle));
    assert_eq!(st, before);
}

#[test]
fn stop_raises_the_token() {
    let mut st = EngineState::new();
    process_uci_command(b"go infinite", &mut st);
    let (out, action) = process_uci_command(b"stop", &mut st);
    assert!(out.is_empty());
    assert!(matches!(action, Action::RaiseStop));
    assert!(st.should_stop);
}

#[test]
fn quit_terminates_even_mid_search() {
    let mut st = EngineState::new();
    process_uci_command(b"go infinite", &mut st);
    let (_, action) = process_uci_command(b"quit", &mut st);
    assert!(matches!(action, Action::RaiseStop));
    assert!(st.should_quit);
    assert!(st.should_stop);
    // The loop exits without waiting: the task is still marked live.
    assert!(st.search_active);
}

#[test]
fn each_search_gets_a_fresh_token() {
    let mut st = EngineState::new();
    process_uci_command(b"go infinite", &mut st);
    process_uci_command(b"stop", &mut st);
    assert!(st.should_stop);
    st.search_finished();
    assert!(!st.search_active);
    let (_, action) = process_uci_command(b"go movetime 5", &mut st);
    assert!(matches!(action, Action::StartSearch(_)));
    assert!(!st.should_stop);
}

#[test]
fn position_startpos_with_moves() {
    let mut st = EngineState::new();
    let (out, action) = process_uci_command(b"position startpos moves e2e4 e7e5", &mut st);
    assert!(out.is_empty());
    match action {
        Action::LoadPosition(board) => {
            assert_eq!(board.desc, STARTPOS.to_vec());
            assert_eq!(board.moves.len(), 2);
        }
        _ => panic!("expected a position load"),
    }
}

#[test]
fn position_fen_takes_six_fields() {
    let mut st = EngineState::new();
    let line = b"position fen 8/8/8/8/8/8/8/K6k w - - 0 1 moves h1h2";
    let (_, action) = process_uci_command(line, &mut st);
    match action {
        Action::LoadPosition(board) => {
            assert_eq!(board.desc, b"8/8/8/8/8/8/8/K6k w - - 0 1".to_vec());
            assert_eq!(board.moves.len(), 1);
        }
        _ => panic!("expected a position load"),
    }
}

#[test]
fn malformed_fen_body_emits_one_diagnostic() {
    let mut st = EngineState::new();
    let before = st;
    let (out, action) = process_uci_command(b"position fen 8/8 w", &mut st);
    assert_eq!(out, vec![b"error: invalid position".to_vec()]);
    assert!(matches!(action, Action::Idle));
    assert_eq!(st, before);
}

#[test]
fn position_body_without_description_is_silent() {
    let mut st = EngineState::new();
    let before = st;
    let (out, action) = process_uci_command(b"position banana", &mut st);
    assert!(out.is_empty());
    assert!(matches!(action, Action::Idle));
    assert_eq!(st, before);
}

#[test]
fn decode_failure_keeps_board_and_emits_one_diagnostic() {
    let mut ws = SearchState::new();
    let desc_before = ws.board.desc.clone();
    let bad = Board { desc: b"totally wrong".to_vec(), moves: Vec::new() };
    let diag = position_outcome(&mut ws, bad, false);
    assert_eq!(diag, Some(b"error: invalid position".to_vec()));
    assert_eq!(ws.board.desc, desc_before);
}

#[test]
fn decode_success_replaces_board_wholesale() {
    let mut ws = SearchState::new();
    let fresh = Board { desc: b"8/8/8/8/8/8/8/K6k w - - 0 1".to_vec(), moves: Vec::new() };
    let diag = position_outcome(&mut ws, fresh, true);
    assert!(diag.is_none());
    assert_eq!(ws.board.desc, b"8/8/8/8/8/8/8/K6k w - - 0 1".to_vec());
}

#[test]
fn workspace_starts_reset() {
    let ws = SearchState::new();
    assert_eq!(ws.move_array.len(), MOVE_BUFFER_CAPACITY);
    assert_eq!(ws.board.desc, STARTPOS.to_vec());
    assert!(ws.board.moves.is_empty());
    assert!(ws.transposition_table.is_empty());
}

#[test]
fn searchmoves_restricts_to_legal_intersection() {
    // The candidate narrowing of "position startpos" followed by
    // "go searchmoves e2e4 d2d4": every initial double pawn push and
    // knight move stands in for the generator's output.
    let (legal, _) = parse_moves(
        b"a2a3 a2a4 b2b3 b2b4 c2c3 c2c4 d2d3 d2d4 e2e3 e2e4 f2f3 f2f4 g2g3 g2g4 h2h3 h2h4 b1a3 b1c3 g1f3 g1h3",
        0,
    );
    assert_eq!(legal.len(), 20);
    let mut st = EngineState::new();
    let (_, action) = process_uci_command(b"go searchmoves e2e4 d2d4", &mut st);
    let restriction = match action {
        Action::StartSearch(args) => args.searchmoves,
        _ => panic!("expected a search to start"),
    };
    assert_eq!(restriction.len(), 2);
    let narrowed = restrict_candidates(&legal, &restriction);
    assert_eq!(narrowed.len(), 2);
    for m in &restriction {
        assert!(narrowed.contains(m));
    }
}

#[test]
fn empty_restriction_keeps_every_candidate() {
    let (legal, _) = parse_moves(b"e2e4 d2d4 g1f3", 0);
    let narrowed = restrict_candidates(&legal, &Vec::new());
    assert_eq!(narrowed, legal);
}

#[test]
fn go_arguments_all_fields() {
    let mut st = EngineState::new();
    let line = b"go wtime 1 btime 2 winc 3 binc 4 movestogo 5 depth 6 nodes 7 mate 8 movetime 9 ponder";
    let (_, action) = process_uci_command(line, &mut st);
    match action {
        Action::StartSearch(a) => {
            assert_eq!(
                (a.wtime, a.btime, a.winc, a.binc, a.movestogo),
                (1, 2, 3, 4, 5)
            );
            assert_eq!((a.depth, a.nodes, a.mate, a.movetime), (6, 7, 8, 9));
            assert!(a.ponder);
            assert!(!a.infinite);
            // Pondering suppresses the auto-stop clock.
            assert_eq!(auto_stop_millis(&a), None);
        }
        _ => panic!("expected a search to start"),
    }
}

#[test]
fn go_arguments_last_occurrence_wins() {
    let mut st = EngineState::new();
    let (_, action) = process_uci_command(b"go wtime 100 wtime 250", &mut st);
    match action {
        Action::StartSearch(a) => assert_eq!(a.wtime, 250),
        _ => panic!("expected a search to start"),
    }
}

#[test]
fn go_infinite_has_no_auto_stop() {
    let mut st = EngineState::new();
    let (_, action) = process_uci_command(b"go movetime 50 infinite", &mut st);
    match action {
        Action::StartSearch(a) => {
            assert!(a.infinite);
            assert_eq!(auto_stop_millis(&a), None);
        }
        _ => panic!("expected a search to start"),
    }
}

#[test]
fn overflowing_value_is_skipped() {
    let mut st = EngineState::new();
    let (_, action) = process_uci_command(b"go depth 99999999999999999999999 nodes 3", &mut st);
    match action {
        Action::StartSearch(a) => {
            assert_eq!(a.depth, 0);
            assert_eq!(a.nodes, 3);
        }
        _ => panic!("expected a search to start"),
    }
}

#[test]
fn unknown_go_tokens_do_not_abort() {
    let mut st = EngineState::new();
    let (_, action) = process_uci_command(b"go frobnicate wtime 7 ##! btime 8", &mut st);
    match action {
        Action::StartSearch(a) => {
            assert_eq!(a.wtime, 7);
            assert_eq!(a.btime, 8);
        }
        _ => panic!("expected a search to start"),
    }
}

#[test]
fn report_has_exactly_one_bestmove_line() {
    let (moves, _) = parse_moves(b"e2e4", 0);
    let lines = format_search_result(Some((moves[0], 250)), false);
    assert_eq!(lines, vec![b"bestmove e2e4".to_vec()]);
    let lines = format_search_result(None, true);
    assert_eq!(lines, vec![b"bestmove 0000".to_vec()]);
}

#[test]
fn debug_mode_adds_a_score_line() {
    let (moves, _) = parse_moves(b"e2e4", 0);
    let lines = format_search_result(Some((moves[0], 250)), true);
    assert_eq!(
        lines,
        vec![b"bestmove e2e4".to_vec(), b"score 2".to_vec()]
    );
    let lines = format_search_result(Some((moves[0], -250)), true);
    assert_eq!(lines[1], b"score -2".to_vec());
    let lines = format_search_result(Some((moves[0], -50)), true);
    assert_eq!(lines[1], b"score 0".to_vec());
}

#[test]
fn position_startpos_bare() {
    let mut st = EngineState::new();
    let (_, action) = process_uci_command(b"position startpos", &mut st);
    match action {
        Action::LoadPosition(board) => {
            assert_eq!(board.desc, STARTPOS.to_vec());
            assert!(board.moves.is_empty());
        }
        _ => panic!("expected a position load"),
    }
}

#[test]
fn ucinewgame_changes_nothing() {
    let mut st = EngineState::new();
    let before = st;
    let (out, action) = process_uci_command(b"ucinewgame", &mut st);
    assert!(out.is_empty());
    assert!(matches!(action, Action::Idle));
    assert_eq!(st, before);
}
