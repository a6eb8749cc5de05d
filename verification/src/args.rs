//! SearchArgumentParser: decodes the body of a "go" command into a
//! structured option bundle.
//!
//! Keywords are order-independent, each consumes zero or one following
//! value, the last occurrence wins on repeats, and unrecognized tokens are
//! skipped without aborting the parse of the remainder. All unspecified
//! fields default to zero, false or empty.

use vstd::prelude::*;
use vstd::string::StringSliceAdditionalSpecFns;
use crate::codec::{Move, move_list_from, parse_moves};
use crate::scan::{
    is_alpha, is_digit, scan_alpha, scan_digits, scan_nonspace, scan_space,
    keyword_of, Keyword, classify, is_alpha_byte, is_digit_byte, skip_alpha, skip_nonspace,
    skip_space, lemma_scan_alpha_bounds, lemma_scan_space_bounds, lemma_scan_nonspace_bounds,
    lemma_scan_digits_bounds, lemma_scan_space_stops,
};

verus! {

/// The option bundle of one "go" command. Durations are in milliseconds.
pub struct SearchArguments {
    pub searchmoves: Vec<Move>,
    pub ponder: bool,
    pub wtime: u64,
    pub btime: u64,
    pub winc: u64,
    pub binc: u64,
    pub movestogo: u64,
    pub depth: u64,
    pub nodes: u64,
    pub mate: u64,
    pub movetime: u64,
    pub infinite: bool,
}

/// Mathematical model of a `SearchArguments` value.
pub ghost struct ArgsModel {
    pub searchmoves: Seq<Move>,
    pub ponder: bool,
    pub wtime: u64,
    pub btime: u64,
    pub winc: u64,
    pub binc: u64,
    pub movestogo: u64,
    pub depth: u64,
    pub nodes: u64,
    pub mate: u64,
    pub movetime: u64,
    pub infinite: bool,
}

impl View for SearchArguments {
    type V = ArgsModel;

    open spec fn view(&self) -> ArgsModel {
        ArgsModel {
            searchmoves: self.searchmoves@,
            ponder: self.ponder,
            wtime: self.wtime,
            btime: self.btime,
            winc: self.winc,
            binc: self.binc,
            movestogo: self.movestogo,
            depth: self.depth,
            nodes: self.nodes,
            mate: self.mate,
            movetime: self.movetime,
            infinite: self.infinite,
        }
    }
}

pub open spec fn default_args() -> ArgsModel {
    ArgsModel {
        searchmoves: Seq::<Move>::empty(),
        ponder: false,
        wtime: 0,
        btime: 0,
        winc: 0,
        binc: 0,
        movestogo: 0,
        depth: 0,
        nodes: 0,
        mate: 0,
        movetime: 0,
        infinite: false,
    }
}

// ---------------------------------------------------------------------------
// Decimal values
// ---------------------------------------------------------------------------

/// Value of the decimal digits `s[pos..end]`.
pub open spec fn digits_val(s: Seq<u8>, pos: int, end: int) -> int
    recommends
        0 <= pos <= end <= s.len(),
    decreases end - pos,
{
    if pos >= end {
        0
    } else {
        digits_val(s, pos, end - 1) * 10 + (s[end - 1] - '0' as u8)
    }
}

pub proof fn lemma_digits_val_nonneg(s: Seq<u8>, pos: int, end: int)
    requires
        0 <= pos,
        forall|j: int| pos <= j < end ==> is_digit(#[trigger] s[j]),
    ensures
        digits_val(s, pos, end) >= 0,
    decreases end - pos,
{
    if pos < end {
        lemma_digits_val_nonneg(s, pos, end - 1);
    }
}

/// Reading more digits never makes the value smaller.
pub proof fn lemma_digits_val_mono(s: Seq<u8>, pos: int, e1: int, e2: int)
    requires
        0 <= pos <= e1 <= e2,
        forall|j: int| pos <= j < e2 ==> is_digit(#[trigger] s[j]),
    ensures
        digits_val(s, pos, e1) <= digits_val(s, pos, e2),
    decreases e2 - e1,
{
    if e1 < e2 {
        lemma_digits_val_mono(s, pos, e1, e2 - 1);
        lemma_digits_val_nonneg(s, pos, e2 - 1);
    }
}

/// Decodes an unsigned decimal number at `pos`: the maximal digit run,
/// failing when there is no digit at `pos` or the run's value does not fit
/// in 64 bits. Returns the value and the position just past the digits.
pub fn number_from_string(line: &[u8], pos: usize) -> (r: Option<(u64, usize)>)
    requires
        pos <= line@.len(),
    ensures
        ({
            let s = line@;
            let end = scan_digits(s, pos as int);
            match r {
                Some(p) => pos < s.len() && is_digit(s[pos as int]) && digits_val(
                    s,
                    pos as int,
                    end,
                ) <= u64::MAX && p.0 == digits_val(s, pos as int, end) && p.1 == end,
                None => pos == s.len() || !is_digit(s[pos as int]) || digits_val(
                    s,
                    pos as int,
                    end,
                ) > u64::MAX,
            }
        }),
{
    if pos == line.len() || !is_digit_byte(line[pos]) {
        return None;
    }
    let ghost s = line@;
    let mut i: usize = pos;
    let mut val: u64 = 0;
    while i < line.len() && is_digit_byte(line[i])
        invariant
            s == line@,
            pos <= i <= line@.len(),
            scan_digits(line@, pos as int) == scan_digits(line@, i as int),
            forall|j: int| pos <= j < i ==> is_digit(#[trigger] line@[j]),
            val == digits_val(line@, pos as int, i as int),
        decreases line@.len() - i,
    {
        let d = (line[i] - '0' as u8) as u64;
        if val > (u64::MAX - d) / 10 {
            // The run's full value can only be larger still.
            proof {
                let end = scan_digits(s, pos as int);
                lemma_scan_digits_bounds(s, i + 1);
                lemma_scan_digits_run(s, i as int);
                assert(digits_val(s, pos as int, i + 1) == val * 10 + d);
                assert(val * 10 + d > u64::MAX) by {
                    let q = (u64::MAX - d as u64) / 10;
                    assert(q * 10 + (u64::MAX - d) % 10 == u64::MAX - d);
                    assert(val >= q + 1);
                    assert(val * 10 >= (q + 1) * 10) by (nonlinear_arith)
                        requires val >= q + 1;
                }
                assert(forall|j: int| pos <= j < end ==> is_digit(#[trigger] s[j]));
                lemma_digits_val_mono(s, pos as int, i + 1, end);
            }
            return None;
        }
        proof {
            assert(val * 10 + d <= u64::MAX) by {
                let q = (u64::MAX - d as u64) / 10;
                assert(q * 10 <= u64::MAX - d);
                assert(val * 10 <= q * 10) by (nonlinear_arith)
                    requires val <= q;
            }
            assert(digits_val(s, pos as int, i + 1) == val * 10 + d);
        }
        val = val * 10 + d;
        i = i + 1;
    }
    Some((val, i))
}

/// Every byte of the digit run starting at `pos` is a digit.
pub proof fn lemma_scan_digits_run(s: Seq<u8>, pos: int)
    requires
        0 <= pos <= s.len(),
    ensures
        forall|j: int| pos <= j < scan_digits(s, pos) ==> is_digit(#[trigger] s[j]),
    decreases s.len() - pos,
{
    if pos < s.len() && is_digit(s[pos]) {
        lemma_scan_digits_run(s, pos + 1);
        lemma_scan_digits_bounds(s, pos + 1);
    }
}

/// Decodes a duration given in milliseconds: the same decimal form, kept as
/// a millisecond count.
pub fn duration_from_string(line: &[u8], pos: usize) -> (r: Option<(u64, usize)>)
    requires
        pos <= line@.len(),
    ensures
        ({
            let s = line@;
            let end = scan_digits(s, pos as int);
            match r {
                Some(p) => pos < s.len() && is_digit(s[pos as int]) && digits_val(
                    s,
                    pos as int,
                    end,
                ) <= u64::MAX && p.0 == digits_val(s, pos as int, end) && p.1 == end,
                None => pos == s.len() || !is_digit(s[pos as int]) || digits_val(
                    s,
                    pos as int,
                    end,
                ) > u64::MAX,
            }
        }),
{
    number_from_string(line, pos)
}

// ---------------------------------------------------------------------------
// The argument grammar
// ---------------------------------------------------------------------------

/// A keyword's numeric value: optional whitespace, then a digit run whose
/// value fits in 64 bits. Yields the value and the position past the digits.
pub open spec fn num_value_at(s: Seq<u8>, pos: int) -> Option<(u64, int)>
    recommends
        0 <= pos <= s.len(),
{
    let q = scan_space(s, pos);
    let e = scan_digits(s, q);
    if q < s.len() && is_digit(s[q]) && digits_val(s, q, e) <= u64::MAX {
        Some((digits_val(s, q, e) as u64, e))
    } else {
        None
    }
}

/// The meaning of a "go" command body from `pos` on, folded over `acc`:
/// whitespace is skipped; an alphabetic token is matched against the
/// argument keywords, a recognized one updates its field (consuming a value
/// where one follows), an unrecognized one is skipped; a non-alphabetic
/// token is skipped whole.
pub open spec fn go_args_from(s: Seq<u8>, pos: int, acc: ArgsModel) -> ArgsModel
    recommends
        0 <= pos <= s.len(),
    decreases s.len() - pos,
    when 0 <= pos <= s.len()
    via go_args_from_dec
{
    let p = scan_space(s, pos);
    if p >= s.len() {
        acc
    } else if is_alpha(s[p]) {
        let end = scan_alpha(s, p);
        match keyword_of(s.subrange(p, end)) {
            Keyword::Searchmoves => {
                let q = scan_space(s, end);
                let (ms, fin) = move_list_from(s, q);
                go_args_from(s, fin, ArgsModel { searchmoves: ms, ..acc })
            },
            Keyword::Ponder => go_args_from(s, end, ArgsModel { ponder: true, ..acc }),
            Keyword::Infinite => go_args_from(s, end, ArgsModel { infinite: true, ..acc }),
            Keyword::Wtime => match num_value_at(s, end) {
                Some((v, e)) => go_args_from(s, e, ArgsModel { wtime: v, ..acc }),
                None => go_args_from(s, end, acc),
            },
            Keyword::Btime => match num_value_at(s, end) {
                Some((v, e)) => go_args_from(s, e, ArgsModel { btime: v, ..acc }),
                None => go_args_from(s, end, acc),
            },
            Keyword::Winc => match num_value_at(s, end) {
                Some((v, e)) => go_args_from(s, e, ArgsModel { winc: v, ..acc }),
                None => go_args_from(s, end, acc),
            },
            Keyword::Binc => match num_value_at(s, end) {
                Some((v, e)) => go_args_from(s, e, ArgsModel { binc: v, ..acc }),
                None => go_args_from(s, end, acc),
            },
            Keyword::Movestogo => match num_value_at(s, end) {
                Some((v, e)) => go_args_from(s, e, ArgsModel { movestogo: v, ..acc }),
                None => go_args_from(s, end, acc),
            },
            Keyword::Depth => match num_value_at(s, end) {
                Some((v, e)) => go_args_from(s, e, ArgsModel { depth: v, ..acc }),
                None => go_args_from(s, end, acc),
            },
            Keyword::Nodes => match num_value_at(s, end) {
                Some((v, e)) => go_args_from(s, e, ArgsModel { nodes: v, ..acc }),
                None => go_args_from(s, end, acc),
            },
            Keyword::Mate => match num_value_at(s, end) {
                Some((v, e)) => go_args_from(s, e, ArgsModel { mate: v, ..acc }),
                None => go_args_from(s, end, acc),
            },
            Keyword::Movetime => match num_value_at(s, end) {
                Some((v, e)) => go_args_from(s, e, ArgsModel { movetime: v, ..acc }),
                None => go_args_from(s, end, acc),
            },
            _ => go_args_from(s, end, acc),
        }
    } else {
        go_args_from(s, scan_nonspace(s, p), acc)
    }
}

#[via_fn]
proof fn go_args_from_dec(s: Seq<u8>, pos: int, acc: ArgsModel) {
    lemma_scan_space_bounds(s, pos);
    let p = scan_space(s, pos);
    if p < s.len() {
        lemma_scan_space_stops(s, pos);
        if is_alpha(s[p]) {
            lemma_scan_alpha_bounds(s, p + 1);
            let end = scan_alpha(s, p);
            assert(end >= p + 1);
            lemma_scan_space_bounds(s, end);
            let q = scan_space(s, end);
            crate::codec::lemma_move_list_bounds(s, q);
            lemma_scan_digits_bounds(s, q);
            if q < s.len() && is_digit(s[q]) {
                lemma_scan_digits_bounds(s, q + 1);
                assert(scan_digits(s, q) >= q + 1);
            }
        } else {
            lemma_scan_nonspace_bounds(s, p + 1);
            assert(scan_nonspace(s, p) == scan_nonspace(s, p + 1));
        }
    }
}

/// Decodes the value after a numeric keyword: optional whitespace then a
/// digit run.
fn num_arg(line: &[u8], pos: usize) -> (r: Option<(u64, usize)>)
    requires
        pos <= line@.len(),
    ensures
        match num_value_at(line@, pos as int) {
            Some((v, e)) => r matches Some(p) && p.0 == v && p.1 == e && pos < e <= line@.len(),
            None => r is None,
        },
{
    let q = skip_space(line, pos);
    let r = number_from_string(line, q);
    proof {
        if r is Some {
            lemma_scan_digits_bounds(line@, q + 1);
        }
    }
    r
}

/// Decodes the value after a duration keyword: optional whitespace then a
/// digit run, read as milliseconds.
fn duration_arg(line: &[u8], pos: usize) -> (r: Option<(u64, usize)>)
    requires
        pos <= line@.len(),
    ensures
        match num_value_at(line@, pos as int) {
            Some((v, e)) => r matches Some(p) && p.0 == v && p.1 == e && pos < e <= line@.len(),
            None => r is None,
        },
{
    let q = skip_space(line, pos);
    let r = duration_from_string(line, q);
    proof {
        if r is Some {
            lemma_scan_digits_bounds(line@, q + 1);
        }
    }
    r
}

/// Decodes a whole "go" command body into a `SearchArguments` bundle.
/// If the same keyword is sent more than once, the last one wins.
pub fn get_search_arguments(line: &[u8], pos: usize) -> (r: SearchArguments)
    requires
        pos <= line@.len(),
    ensures
        r@ == go_args_from(line@, pos as int, default_args()),
{
    let ghost s = line@;
    let mut args = SearchArguments {
        searchmoves: Vec::new(),
        ponder: false,
        wtime: 0,
        btime: 0,
        winc: 0,
        binc: 0,
        movestogo: 0,
        depth: 0,
        nodes: 0,
        mate: 0,
        movetime: 0,
        infinite: false,
    };
    proof {
        assert(args@ == default_args());
    }
    let mut cur: usize = pos;
    loop
        invariant
            s == line@,
            cur <= line@.len(),
            go_args_from(line@, pos as int, default_args()) == go_args_from(
                line@,
                cur as int,
                args@,
            ),
        decreases line@.len() - cur,
    {
        let ghost old_cur = cur as int;
        let ghost old_model = args@;
        let p = skip_space(line, cur);
        if p == line.len() {
            return args;
        }
        if is_alpha_byte(line[p]) {
            let end = skip_alpha(line, p);
            proof {
                lemma_scan_alpha_bounds(s, p + 1);
            }
            let kw = classify(line, p, end);
            match kw {
                Keyword::Searchmoves => {
                    let q = skip_space(line, end);
                    let (ms, fin) = parse_moves(line, q);
                    args.searchmoves = ms;
                    cur = fin;
                },
                Keyword::Ponder => {
                    args.ponder = true;
                    cur = end;
                },
                Keyword::Infinite => {
                    args.infinite = true;
                    cur = end;
                },
                Keyword::Wtime => {
                    if let Some((v, e)) = duration_arg(line, end) {
                        args.wtime = v;
                        cur = e;
                    } else {
                        cur = end;
                    }
                },
                Keyword::Btime => {
                    if let Some((v, e)) = duration_arg(line, end) {
                        args.btime = v;
                        cur = e;
                    } else {
                        cur = end;
                    }
                },
                Keyword::Winc => {
                    if let Some((v, e)) = duration_arg(line, end) {
                        args.winc = v;
                        cur = e;
                    } else {
                        cur = end;
                    }
                },
                Keyword::Binc => {
                    if let Some((v, e)) = duration_arg(line, end) {
                        args.binc = v;
                        cur = e;
                    } else {
                        cur = end;
                    }
                },
                Keyword::Movestogo => {
                    if let Some((v, e)) = num_arg(line, end) {
                        args.movestogo = v;
                        cur = e;
                    } else {
                        cur = end;
                    }
                },
                Keyword::Depth => {
                    if let Some((v, e)) = num_arg(line, end) {
                        args.depth = v;
                        cur = e;
                    } else {
                        cur = end;
                    }
                },
                Keyword::Nodes => {
                    if let Some((v, e)) = num_arg(line, end) {
                        args.nodes = v;
                        cur = e;
                    } else {
                        cur = end;
                    }
                },
                Keyword::Mate => {
                    if let Some((v, e)) = num_arg(line, end) {
                        args.mate = v;
                        cur = e;
                    } else {
                        cur = end;
                    }
                },
                Keyword::Movetime => {
                    if let Some((v, e)) = duration_arg(line, end) {
                        args.movetime = v;
                        cur = e;
                    } else {
                        cur = end;
                    }
                },
                _ => {
                    cur = end;
                },
            }
        } else {
            proof {
                lemma_scan_space_stops(s, old_cur);
                lemma_scan_nonspace_bounds(s, p + 1);
            }
            cur = skip_nonspace(line, p);
        }
        proof {
            assert(go_args_from(s, old_cur, old_model) == go_args_from(s, cur as int, args@));
        }
    }
}

} // verus!
