use avie::args::{duration_from_string, number_from_string};
use avie::codec::{
    move_to_long_algebraic, parse_long_algebraic, parse_moves, Move, Promotion,
};

fn parse_whole(token: &[u8]) -> Move {
    let (m, end) = parse_long_algebraic(token, 0).expect("token should decode");
    assert_eq!(end, token.len());
    m
}

#[test]
fn round_trip_plain_move() {
    let m = parse_whole(b"e2e4");
    assert_eq!(move_to_long_algebraic(&m), b"e2e4".to_vec());
}

#[test]
fn round_trip_promotion_is_case_normalized() {
    let m = parse_whole(b"E7E8Q");
    assert_eq!(m.promotion, Promotion::Queen);
    assert_eq!(move_to_long_algebraic(&m), b"e7e8q".to_vec());
}

#[test]
fn round_trip_all_promotion_letters() {
    for token in [&b"a7a8n"[..], b"b7b8b", b"c7c8r", b"h2h1q"] {
        let m = parse_whole(token);
        assert_eq!(move_to_long_algebraic(&m), token.to_vec());
    }
}

#[test]
fn square_indexing_follows_engine_order() {
    // Index 0 is h1, index 7 is a1, index 63 is a8.
    let m = parse_whole(b"h1a8");
    assert_eq!(m.from, 0);
    assert_eq!(m.to, 63);
    let m = parse_whole(b"a1h2");
    assert_eq!(m.from, 7);
    assert_eq!(m.to, 8);
}

#[test]
fn parse_rejects_bad_rank() {
    assert!(parse_long_algebraic(b"e9e4", 0).is_none());
    assert!(parse_long_algebraic(b"e2i4", 0).is_none());
    assert!(parse_long_algebraic(b"e2", 0).is_none());
}

#[test]
fn parse_leaves_trailing_junk() {
    let (m, end) = parse_long_algebraic(b"e2e4x", 0).expect("prefix decodes");
    assert_eq!(end, 4);
    assert_eq!(move_to_long_algebraic(&m), b"e2e4".to_vec());
}

#[test]
fn parse_move_list() {
    let (moves, end) = parse_moves(b"e2e4 e7e5 g1f3", 0);
    assert_eq!(moves.len(), 3);
    assert_eq!(end, 14);
    assert_eq!(move_to_long_algebraic(&moves[1]), b"e7e5".to_vec());
}

#[test]
fn malformed_token_stops_move_list() {
    let (moves, _end) = parse_moves(b"e2e4 xx d2d4", 0);
    assert_eq!(moves.len(), 1);
    assert_eq!(move_to_long_algebraic(&moves[0]), b"e2e4".to_vec());
}

#[test]
fn null_move_encodes_as_h1h1() {
    let m = Move { from: 0, to: 0, promotion: Promotion::NoPromotion };
    assert_eq!(move_to_long_algebraic(&m), b"h1h1".to_vec());
}

#[test]
fn decimal_number_parsing() {
    assert_eq!(number_from_string(b"123 x", 0), Some((123, 3)));
    assert_eq!(number_from_string(b"007", 0), Some((7, 3)));
    assert_eq!(duration_from_string(b"50", 0), Some((50, 2)));
    assert_eq!(number_from_string(b"x123", 0), None);
    assert_eq!(number_from_string(b"", 0), None);
    assert_eq!(number_from_string(b"18446744073709551615", 0), Some((u64::MAX, 20)));
    assert_eq!(number_from_string(b"18446744073709551616", 0), None);
}
