//! MoveCodec: the bidirectional mapping between an internal 0-63 square
//! index and two-character file/rank notation, plus an optional promotion
//! letter.
//!
//! The square ordering is the engine's own: index 0 is square h1, index 7 is
//! a1, index 8 is h2, and so on up to index 63 for a8. All index arithmetic
//! in this crate depends on that ordering.

use vstd::prelude::*;
use crate::scan::{scan_space, skip_space};

verus! {

broadcast use {crate::scan::lemma_scan_space_bounds};

#[derive(Clone, Copy, PartialEq, Eq, Structural, Debug)]
pub enum Promotion {
    NoPromotion,
    Knight,
    Bishop,
    Rook,
    Queen,
}

/// A move in long-algebraic form: source square, destination square and
/// promotion kind. Identity for set operations is the whole triple.
#[derive(Clone, Copy, PartialEq, Eq, Structural, Debug)]
pub struct Move {
    pub from: u8,
    pub to: u8,
    pub promotion: Promotion,
}

/// Both squares of a move lie on the board.
pub open spec fn valid_move(m: Move) -> bool {
    m.from < 64 && m.to < 64
}

/// The placeholder value the move buffer is reset to before generation.
pub open spec fn null_move() -> Move {
    Move { from: 0, to: 0, promotion: Promotion::NoPromotion }
}

// ---------------------------------------------------------------------------
// Encoding
// ---------------------------------------------------------------------------

/// File letter of a square index: h for index 0 down to a for index 7.
pub open spec fn file_byte(sq: u8) -> u8
    recommends
        sq < 64,
{
    ('h' as u8 - sq % 8) as u8
}

/// Rank digit of a square index: 1 for the first row up to 8 for the last.
pub open spec fn rank_byte(sq: u8) -> u8
    recommends
        sq < 64,
{
    ('1' as u8 + sq / 8) as u8
}

pub open spec fn promo_bytes(p: Promotion) -> Seq<u8> {
    match p {
        Promotion::NoPromotion => seq![],
        Promotion::Knight => seq!['n' as u8],
        Promotion::Bishop => seq!['b' as u8],
        Promotion::Rook => seq!['r' as u8],
        Promotion::Queen => seq!['q' as u8],
    }
}

/// The long-algebraic text of a move, as bytes, promotion letter always in
/// lower case.
pub open spec fn encode_move(m: Move) -> Seq<u8>
    recommends
        valid_move(m),
{
    seq![file_byte(m.from), rank_byte(m.from), file_byte(m.to), rank_byte(m.to)]
        + promo_bytes(m.promotion)
}

/// Encodes a move as long-algebraic text.
pub fn move_to_long_algebraic(mov: &Move) -> (r: Vec<u8>)
    requires
        valid_move(*mov),
    ensures
        r@ == encode_move(*mov),
{
    let mut r: Vec<u8> = Vec::new();
    r.push('h' as u8 - mov.from % 8);
    r.push('1' as u8 + mov.from / 8);
    r.push('h' as u8 - mov.to % 8);
    r.push('1' as u8 + mov.to / 8);
    match mov.promotion {
        Promotion::NoPromotion => {},
        Promotion::Knight => r.push('n' as u8),
        Promotion::Bishop => r.push('b' as u8),
        Promotion::Rook => r.push('r' as u8),
        Promotion::Queen => r.push('q' as u8),
    }
    proof {
        assert(r@ =~= encode_move(*mov));
    }
    r
}

// ---------------------------------------------------------------------------
// Decoding
// ---------------------------------------------------------------------------

/// ASCII lower-casing of a single byte.
pub open spec fn lower(c: u8) -> u8 {
    if 'A' as u8 <= c <= 'Z' as u8 {
        (c + 32) as u8
    } else {
        c
    }
}

pub open spec fn is_file_byte(c: u8) -> bool {
    'a' as u8 <= lower(c) <= 'h' as u8
}

pub open spec fn is_rank_byte(c: u8) -> bool {
    '1' as u8 <= c <= '8' as u8
}

pub open spec fn is_promo_byte(c: u8) -> bool {
    lower(c) == 'n' as u8 || lower(c) == 'b' as u8 || lower(c) == 'r' as u8 || lower(c)
        == 'q' as u8
}

/// Square index of a file letter and a rank digit, case-insensitive.
pub open spec fn square_of(f: u8, r: u8) -> u8
    recommends
        is_file_byte(f),
        is_rank_byte(r),
{
    (('h' as u8 - lower(f)) + (r - '1' as u8) * 8) as u8
}

pub open spec fn promo_of(c: u8) -> Promotion
    recommends
        is_promo_byte(c),
{
    if lower(c) == 'n' as u8 {
        Promotion::Knight
    } else if lower(c) == 'b' as u8 {
        Promotion::Bishop
    } else if lower(c) == 'r' as u8 {
        Promotion::Rook
    } else if lower(c) == 'q' as u8 {
        Promotion::Queen
    } else {
        Promotion::NoPromotion
    }
}

/// A whole byte sequence is one long-algebraic token: two squares and an
/// optional promotion letter, any letter case.
pub open spec fn is_long_algebraic(s: Seq<u8>) -> bool {
    &&& (s.len() == 4 || s.len() == 5)
    &&& is_file_byte(s[0])
    &&& is_rank_byte(s[1])
    &&& is_file_byte(s[2])
    &&& is_rank_byte(s[3])
    &&& (s.len() == 5 ==> is_promo_byte(s[4]))
}

/// The move a long-algebraic token denotes.
pub open spec fn decode_move(s: Seq<u8>) -> Move
    recommends
        is_long_algebraic(s),
{
    Move {
        from: square_of(s[0], s[1]),
        to: square_of(s[2], s[3]),
        promotion: if s.len() == 5 {
            promo_of(s[4])
        } else {
            Promotion::NoPromotion
        },
    }
}

/// Where a long-algebraic token starting at `pos` ends, if one starts there.
/// A promotion letter directly after the two squares is part of the token.
pub open spec fn la_token_end(s: Seq<u8>, pos: int) -> Option<int> {
    if 0 <= pos && pos + 4 <= s.len() && is_file_byte(s[pos]) && is_rank_byte(s[pos + 1])
        && is_file_byte(s[pos + 2]) && is_rank_byte(s[pos + 3]) {
        if pos + 5 <= s.len() && is_promo_byte(s[pos + 4]) {
            Some(pos + 5)
        } else {
            Some(pos + 4)
        }
    } else {
        None
    }
}

/// Case normalization of a byte sequence.
pub open spec fn lower_seq(s: Seq<u8>) -> Seq<u8> {
    Seq::new(s.len(), |i: int| lower(s[i]))
}

/// Decoding a valid long-algebraic token and encoding the result yields the
/// original token, case-normalized to lower case.
pub proof fn lemma_codec_round_trip(s: Seq<u8>)
    requires
        is_long_algebraic(s),
    ensures
        encode_move(decode_move(s)) == lower_seq(s),
{
    let m = decode_move(s);
    assert(m.from % 8 == 'h' as u8 - lower(s[0]) && m.from / 8 == s[1] - '1' as u8);
    assert(m.to % 8 == 'h' as u8 - lower(s[2]) && m.to / 8 == s[3] - '1' as u8);
    if s.len() == 5 {
        assert(promo_bytes(promo_of(s[4])) =~= seq![lower(s[4])]);
    }
    assert(encode_move(m) =~= lower_seq(s));
}

fn lower_byte(c: u8) -> (r: u8)
    ensures
        r == lower(c),
{
    if c >= 'A' as u8 && c <= 'Z' as u8 {
        c + 32
    } else {
        c
    }
}

fn is_file_b(c: u8) -> (r: bool)
    ensures
        r == is_file_byte(c),
{
    let l = lower_byte(c);
    l >= 'a' as u8 && l <= 'h' as u8
}

fn is_rank_b(c: u8) -> (r: bool)
    ensures
        r == is_rank_byte(c),
{
    c >= '1' as u8 && c <= '8' as u8
}

fn is_promo_b(c: u8) -> (r: bool)
    ensures
        r == is_promo_byte(c),
{
    let l = lower_byte(c);
    l == 'n' as u8 || l == 'b' as u8 || l == 'r' as u8 || l == 'q' as u8
}

/// Decodes one long-algebraic token at `pos`; returns the move and the
/// position just past the token.
pub fn parse_long_algebraic(line: &[u8], pos: usize) -> (r: Option<(Move, usize)>)
    requires
        pos <= line@.len(),
    ensures
        match la_token_end(line@, pos as int) {
            Some(end) => r matches Some(p) && p.0 == decode_move(
                line@.subrange(pos as int, end),
            ) && p.1 == end && valid_move(p.0),
            None => r is None,
        },
{
    if line.len() - pos < 4 {
        return None;
    }
    let c0 = line[pos];
    let c1 = line[pos + 1];
    let c2 = line[pos + 2];
    let c3 = line[pos + 3];
    if !(is_file_b(c0) && is_rank_b(c1) && is_file_b(c2) && is_rank_b(c3)) {
        return None;
    }
    let from = ('h' as u8 - lower_byte(c0)) + (c1 - '1' as u8) * 8;
    let to = ('h' as u8 - lower_byte(c2)) + (c3 - '1' as u8) * 8;
    let mut end = pos + 4;
    let mut promotion = Promotion::NoPromotion;
    if end < line.len() && is_promo_b(line[end]) {
        let l = lower_byte(line[end]);
        promotion = if l == 'n' as u8 {
            Promotion::Knight
        } else if l == 'b' as u8 {
            Promotion::Bishop
        } else if l == 'r' as u8 {
            Promotion::Rook
        } else {
            Promotion::Queen
        };
        end = end + 1;
    }
    let m = Move { from, to, promotion };
    proof {
        let s = line@;
        let e = la_token_end(s, pos as int)->Some_0;
        let t = s.subrange(pos as int, e);
        assert(t[0] == c0 && t[1] == c1 && t[2] == c2 && t[3] == c3);
        if e == pos + 5 {
            assert(t[4] == s[pos + 4]);
        }
        assert(m == decode_move(t));
    }
    Some((m, end))
}

/// Where a whitespace-separated list of long-algebraic tokens starting at
/// `pos` ends, and the moves it denotes. The list is the longest chain of
/// tokens separated by at least one whitespace byte; it ends just past its
/// last token, and a malformed token ends it.
pub open spec fn move_list_from(s: Seq<u8>, pos: int) -> (Seq<Move>, int)
    recommends
        0 <= pos <= s.len(),
    decreases s.len() - pos,
    when 0 <= pos <= s.len()
{
    match la_token_end(s, pos) {
        None => (Seq::<Move>::empty(), pos),
        Some(end) => {
            let m = decode_move(s.subrange(pos, end));
            let sp = scan_space(s, end);
            if sp > end && la_token_end(s, sp) is Some {
                let (rest, fin) = move_list_from(s, sp);
                (seq![m] + rest, fin)
            } else {
                (seq![m], end)
            }
        },
    }
}

/// The end of a move list never lies before its start nor past the line.
pub proof fn lemma_move_list_bounds(s: Seq<u8>, pos: int)
    requires
        0 <= pos <= s.len(),
    ensures
        pos <= move_list_from(s, pos).1 <= s.len(),
        move_list_from(s, pos).0.len() > 0 ==> forall|i: int|
            0 <= i < move_list_from(s, pos).0.len() ==> valid_move(
                #[trigger] move_list_from(s, pos).0[i],
            ),
    decreases s.len() - pos,
{
    match la_token_end(s, pos) {
        None => {},
        Some(end) => {
            let sp = scan_space(s, end);
            if sp > end && la_token_end(s, sp) is Some {
                lemma_move_list_bounds(s, sp);
            }
        },
    }
}

/// Decodes a whitespace-separated move list starting at `pos`; returns the
/// moves and the position just past the last token.
pub fn parse_moves(line: &[u8], pos: usize) -> (r: (Vec<Move>, usize))
    requires
        pos <= line@.len(),
    ensures
        (r.0@, r.1 as int) == move_list_from(line@, pos as int),
        pos <= r.1 <= line@.len(),
    decreases line@.len() - pos,
{
    proof {
        lemma_move_list_bounds(line@, pos as int);
    }
    match parse_long_algebraic(line, pos) {
        None => (Vec::new(), pos),
        Some((m, end)) => {
            let sp = skip_space(line, end);
            if sp > end {
                match parse_long_algebraic(line, sp) {
                    Some(_) => {
                        let (rest, fin) = parse_moves(line, sp);
                        let mut out: Vec<Move> = Vec::new();
                        out.push(m);
                        let mut i: usize = 0;
                        while i < rest.len()
                            invariant
                                0 <= i <= rest@.len(),
                                out@ == seq![m] + rest@.subrange(0, i as int),
                            decreases rest@.len() - i,
                        {
                            out.push(rest[i]);
                            i = i + 1;
                        }
                        proof {
                            assert(rest@.subrange(0, rest@.len() as int) =~= rest@);
                            assert(out@ == seq![m] + rest@);
                        }
                        (out, fin)
                    },
                    None => {
                        let mut out: Vec<Move> = Vec::new();
                        out.push(m);
                        proof {
                            assert(out@ =~= seq![m]);
                        }
                        (out, end)
                    },
                }
            } else {
                let mut out: Vec<Move> = Vec::new();
                out.push(m);
                proof {
                    assert(out@ =~= seq![m]);
                }
                (out, end)
            }
        },
    }
}

} // verus!
