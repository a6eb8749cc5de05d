//! SearchOrchestrator: the lifecycle decisions for the single background
//! search task, the narrowing of root candidates, the auto-stop clock, and
//! the formatting of a finished search's report.
//!
//! The host owns the actual thread, lock and cancellation token; the
//! functions here decide, and the host performs.

use vstd::prelude::*;
use vstd::string::StringSliceAdditionalSpecFns;
use crate::args::SearchArguments;
use crate::codec::{encode_move, valid_move, Move};
use crate::state::EngineState;

verus! {

/// Narrowing a candidate list: with an empty restriction every legal move
/// stays; otherwise exactly those legal moves that the restriction also
/// names, in the order the legal list gave them.
pub open spec fn restricted(legal: Seq<Move>, restriction: Seq<Move>) -> Seq<Move>
    decreases legal.len(),
{
    if legal.len() == 0 {
        Seq::<Move>::empty()
    } else {
        let rest = restricted(legal.drop_last(), restriction);
        if restriction.len() == 0 || restriction.contains(legal.last()) {
            rest.push(legal.last())
        } else {
            rest
        }
    }
}

/// A move survives the narrowing exactly when it is legal and, with a
/// non-empty restriction, also named by it: the candidate set is the set
/// intersection of the two lists, by move identity.
pub proof fn lemma_restricted_membership(legal: Seq<Move>, restriction: Seq<Move>, m: Move)
    ensures
        restricted(legal, restriction).contains(m) <==> legal.contains(m) && (restriction.len()
            == 0 || restriction.contains(m)),
    decreases legal.len(),
{
    let r = restricted(legal, restriction);
    if legal.len() > 0 {
        let prefix = legal.drop_last();
        let x = legal.last();
        let rest = restricted(prefix, restriction);
        lemma_restricted_membership(prefix, restriction, m);
        let kept = restriction.len() == 0 || restriction.contains(x);
        if kept {
            assert(r == rest.push(x));
            if r.contains(m) {
                let i = choose|i: int| 0 <= i < r.len() && r[i] == m;
                if i < rest.len() {
                    assert(rest[i] == m);
                } else {
                    assert(m == x);
                }
            }
            if rest.contains(m) {
                let i = choose|i: int| 0 <= i < rest.len() && rest[i] == m;
                assert(r[i] == m);
            }
            if m == x {
                assert(r[r.len() - 1] == m);
            }
        } else {
            assert(r == rest);
        }
        if legal.contains(m) {
            let i = choose|i: int| 0 <= i < legal.len() && legal[i] == m;
            if i < legal.len() - 1 {
                assert(prefix[i] == m);
            } else {
                assert(m == x);
            }
        }
        if prefix.contains(m) {
            let i = choose|i: int| 0 <= i < prefix.len() && prefix[i] == m;
            assert(legal[i] == m);
        }
        assert(legal[legal.len() - 1] == x);
    }
}

/// Narrows the generated legal moves to a supplied restriction. An empty
/// restriction means no narrowing. The protocol promises only the set of
/// surviving candidates, never their relative order: callers must not rely
/// on the order this implementation happens to keep.
pub fn restrict_candidates(legal: &Vec<Move>, restriction: &Vec<Move>) -> (r: Vec<Move>)
    ensures
        r@ == restricted(legal@, restriction@),
{
    let mut out: Vec<Move> = Vec::new();
    let mut i: usize = 0;
    while i < legal.len()
        invariant
            i <= legal@.len(),
            out@ == restricted(legal@.take(i as int), restriction@),
        decreases legal@.len() - i,
    {
        let keep = if restriction.len() == 0 {
            true
        } else {
            contains_move(restriction, legal[i])
        };
        if keep {
            out.push(legal[i]);
        }
        proof {
            let t = legal@.take(i + 1);
            assert(t.drop_last() =~= legal@.take(i as int));
            assert(t.last() == legal@[i as int]);
        }
        i = i + 1;
    }
    proof {
        assert(legal@.take(legal@.len() as int) =~= legal@);
    }
    out
}

/// Whether a list names a move.
pub fn contains_move(list: &Vec<Move>, m: Move) -> (r: bool)
    ensures
        r == list@.contains(m),
{
    let mut i: usize = 0;
    while i < list.len()
        invariant
            i <= list@.len(),
            forall|j: int| 0 <= j < i ==> list@[j] != m,
        decreases list@.len() - i,
    {
        if list[i] == m {
            return true;
        }
        i = i + 1;
    }
    false
}

/// Starts a search if none is running: the orchestrator moves to running
/// with a freshly minted, unraised cancellation token, and the host is
/// handed the arguments to spawn the background task with. While a search
/// is already running this is a no-op: the command is discarded, never
/// queued.
pub fn begin_search(engine_state: &mut EngineState, args: SearchArguments) -> (r: Option<
    SearchArguments,
>)
    ensures
        old(engine_state).search_active ==> *final(engine_state) == *old(engine_state) && r
            is None,
        !old(engine_state).search_active ==> *final(engine_state) == (EngineState {
            search_active: true,
            should_stop: false,
            ..*old(engine_state)
        }) && (r matches Some(a) && a@ == args@),
{
    if engine_state.search_active {
        return None;
    }
    engine_state.should_stop = false;
    engine_state.search_active = true;
    Some(args)
}

/// The auto-stop clock: a search stops on its own after `movetime`
/// milliseconds exactly when a nonzero fixed move time was supplied and
/// neither ponder nor infinite is set.
pub fn auto_stop_millis(args: &SearchArguments) -> (r: Option<u64>)
    ensures
        r == (if args.movetime != 0 && !args.ponder && !args.infinite {
            Some(args.movetime)
        } else {
            None::<u64>
        }),
{
    if args.movetime != 0 && !args.ponder && !args.infinite {
        Some(args.movetime)
    } else {
        None
    }
}

// ---------------------------------------------------------------------------
// Reporting
// ---------------------------------------------------------------------------

/// Decimal digits of a non-negative number.
pub open spec fn dec_digits(n: int) -> Seq<u8>
    recommends
        n >= 0,
    decreases n,
    when n >= 0
{
    if n < 10 {
        seq![('0' as u8 + n) as u8]
    } else {
        dec_digits(n / 10) + seq![('0' as u8 + n % 10) as u8]
    }
}

/// Division by one hundred rounding towards zero.
pub open spec fn trunc_div_100(s: int) -> int {
    if s >= 0 {
        s / 100
    } else {
        -((-s) / 100)
    }
}

/// The optional score report: the score in centipawns divided by one
/// hundred, in decimal.
pub open spec fn score_line(score: int) -> Seq<u8> {
    let v = trunc_div_100(score);
    "score ".spec_bytes() + if v < 0 {
        seq!['-' as u8] + dec_digits(-v)
    } else {
        dec_digits(v)
    }
}

/// The best-move report: the move in long-algebraic form, or the null-move
/// sentinel when the search found none.
pub open spec fn bestmove_line(result: Option<(Move, i64)>) -> Seq<u8> {
    match result {
        Some(p) => "bestmove ".spec_bytes() + encode_move(p.0),
        None => "bestmove 0000".spec_bytes(),
    }
}

/// Appends decimal digits of `n`.
fn push_dec(v: &mut Vec<u8>, n: u64)
    ensures
        final(v)@ == old(v)@ + dec_digits(n as int),
    decreases n,
{
    if n < 10 {
        v.push('0' as u8 + n as u8);
        proof {
            assert(final(v)@ =~= old(v)@ + dec_digits(n as int));
        }
    } else {
        push_dec(v, n / 10);
        v.push('0' as u8 + (n % 10) as u8);
        proof {
            assert(final(v)@ =~= old(v)@ + dec_digits(n as int));
        }
    }
}

/// Appends the bytes of `src`.
fn append_bytes(dst: &mut Vec<u8>, src: &Vec<u8>)
    ensures
        final(dst)@ == old(dst)@ + src@,
{
    let mut i: usize = 0;
    while i < src.len()
        invariant
            i <= src@.len(),
            dst@ == old(dst)@ + src@.take(i as int),
        decreases src@.len() - i,
    {
        dst.push(src[i]);
        proof {
            assert(old(dst)@ + src@.take(i + 1) =~= (old(dst)@ + src@.take(i as int)).push(
                src@[i as int],
            ));
        }
        i = i + 1;
    }
    proof {
        assert(src@.take(src@.len() as int) =~= src@);
    }
}

/// Formats the score report of a finished search.
fn format_score(score: i64) -> (v: Vec<u8>)
    ensures
        v@ == score_line(score as int),
{
    let mut v: Vec<u8> = vstd::slice::slice_to_vec("score ".as_bytes());
    if score >= 0 {
        let mag: u64 = (score as u64) / 100;
        push_dec(&mut v, mag);
    } else {
        let mag: u64 = (((-(score + 1)) as u64) + 1) / 100;
        proof {
            assert(mag == (-(score as int)) / 100);
        }
        if mag > 0 {
            v.push('-' as u8);
        }
        push_dec(&mut v, mag);
        proof {
            if mag > 0 {
                assert(v@ =~= score_line(score as int));
            }
        }
    }
    v
}

/// Formats what a finished search reports: always exactly one best-move
/// line, followed by a score line when debug mode is active and a move was
/// found.
pub fn format_search_result(result: Option<(Move, i64)>, debug: bool) -> (lines: Vec<Vec<u8>>)
    requires
        result matches Some(p) ==> valid_move(p.0),
    ensures
        lines@.len() == (if debug && result is Some {
            2int
        } else {
            1int
        }),
        lines@[0]@ == bestmove_line(result),
        debug && result is Some ==> lines@[1]@ == score_line(result->Some_0.1 as int),
{
    let mut lines: Vec<Vec<u8>> = Vec::new();
    match result {
        Some((m, score)) => {
            let mut first: Vec<u8> = vstd::slice::slice_to_vec("bestmove ".as_bytes());
            let enc = crate::codec::move_to_long_algebraic(&m);
            append_bytes(&mut first, &enc);
            lines.push(first);
            if debug {
                lines.push(format_score(score));
            }
        },
        None => {
            lines.push(vstd::slice::slice_to_vec("bestmove 0000".as_bytes()));
        },
    }
    lines
}

/// Exactly one line of a search report announces a best move: the
/// best-move line starts with the report prefix and the score line never
/// does.
pub proof fn lemma_single_bestmove(result: Option<(Move, i64)>, score: int)
    requires
        result matches Some(p) ==> valid_move(p.0),
    ensures
        starts_with(bestmove_line(result), "bestmove ".spec_bytes()),
        !starts_with(score_line(score), "bestmove ".spec_bytes()),
{
    reveal_strlit("bestmove ");
    reveal_strlit("bestmove 0000");
    reveal_strlit("score ");
    assert(vstd::utf8::is_ascii_chars("bestmove "@));
    vstd::utf8::is_ascii_chars_encode_utf8("bestmove "@);
    assert(vstd::utf8::is_ascii_chars("bestmove 0000"@));
    vstd::utf8::is_ascii_chars_encode_utf8("bestmove 0000"@);
    assert(vstd::utf8::is_ascii_chars("score "@));
    vstd::utf8::is_ascii_chars_encode_utf8("score "@);
    assert("bestmove ".spec_bytes().len() == 9);
    assert("bestmove 0000".spec_bytes().len() == 13);
    assert("score ".spec_bytes().len() == 6);
    match result {
        Some(p) => {
            assert(bestmove_line(result).subrange(0, 9) =~= "bestmove ".spec_bytes());
        },
        None => {
            assert(bestmove_line(result).subrange(0, 9) =~= "bestmove ".spec_bytes());
        },
    }
    let sl = score_line(score);
    let v = trunc_div_100(score);
    if v >= 0 {
        lemma_dec_digits_shape(v);
    } else {
        lemma_dec_digits_shape(-v);
    }
    assert(sl[0] == "score ".spec_bytes()[0]);
    assert(sl[0] == 's' as u8);
    if starts_with(sl, "bestmove ".spec_bytes()) {
        assert(sl.subrange(0, 9)[0] == sl[0]);
        assert(sl[0] == 'b' as u8);
    }
}

/// A prefix relation on byte sequences.
pub open spec fn starts_with(l: Seq<u8>, p: Seq<u8>) -> bool {
    l.len() >= p.len() && l.subrange(0, p.len() as int) == p
}

/// Decimal digit sequences are never empty.
pub proof fn lemma_dec_digits_shape(n: int)
    requires
        n >= 0,
    ensures
        dec_digits(n).len() >= 1,
    decreases n,
{
    if n >= 10 {
        lemma_dec_digits_shape(n / 10);
    }
}

} // verus!
