//! Byte-level scanning over command lines: character classes, maximal runs,
//! and the tokenizer that splits a leading alphabetic token from a line.
//!
//! The protocol is line-oriented ASCII text; all scanning works directly on
//! the raw bytes of a line.

use vstd::prelude::*;
use vstd::string::StringSliceAdditionalSpecFns;

verus! {

/// ASCII alphabetic byte.
pub open spec fn is_alpha(c: u8) -> bool {
    ('a' as u8 <= c <= 'z' as u8) || ('A' as u8 <= c <= 'Z' as u8)
}

/// ASCII whitespace accepted between tokens: space, tab, carriage return, newline.
pub open spec fn is_space(c: u8) -> bool {
    c == ' ' as u8 || c == '\t' as u8 || c == '\r' as u8 || c == '\n' as u8
}

/// ASCII decimal digit.
pub open spec fn is_digit(c: u8) -> bool {
    '0' as u8 <= c <= '9' as u8
}

/// End of the maximal run of alphabetic bytes starting at `pos`.
pub open spec fn scan_alpha(s: Seq<u8>, pos: int) -> int
    decreases s.len() - pos,
{
    if pos < 0 || pos >= s.len() {
        pos
    } else if is_alpha(s[pos]) {
        scan_alpha(s, pos + 1)
    } else {
        pos
    }
}

/// End of the maximal run of whitespace bytes starting at `pos`.
pub open spec fn scan_space(s: Seq<u8>, pos: int) -> int
    decreases s.len() - pos,
{
    if pos < 0 || pos >= s.len() {
        pos
    } else if is_space(s[pos]) {
        scan_space(s, pos + 1)
    } else {
        pos
    }
}

/// End of the maximal run of decimal digits starting at `pos`.
pub open spec fn scan_digits(s: Seq<u8>, pos: int) -> int
    decreases s.len() - pos,
{
    if pos < 0 || pos >= s.len() {
        pos
    } else if is_digit(s[pos]) {
        scan_digits(s, pos + 1)
    } else {
        pos
    }
}

/// End of the maximal run of non-whitespace bytes starting at `pos`.
pub open spec fn scan_nonspace(s: Seq<u8>, pos: int) -> int
    decreases s.len() - pos,
{
    if pos < 0 || pos >= s.len() {
        pos
    } else if !is_space(s[pos]) {
        scan_nonspace(s, pos + 1)
    } else {
        pos
    }
}

pub broadcast proof fn lemma_scan_alpha_bounds(s: Seq<u8>, pos: int)
    requires
        0 <= pos <= s.len(),
    ensures
        pos <= #[trigger] scan_alpha(s, pos) <= s.len(),
    decreases s.len() - pos,
{
    if pos < s.len() && is_alpha(s[pos]) {
        lemma_scan_alpha_bounds(s, pos + 1);
    }
}

pub broadcast proof fn lemma_scan_space_bounds(s: Seq<u8>, pos: int)
    requires
        0 <= pos <= s.len(),
    ensures
        pos <= #[trigger] scan_space(s, pos) <= s.len(),
    decreases s.len() - pos,
{
    if pos < s.len() && is_space(s[pos]) {
        lemma_scan_space_bounds(s, pos + 1);
    }
}

pub broadcast proof fn lemma_scan_digits_bounds(s: Seq<u8>, pos: int)
    requires
        0 <= pos <= s.len(),
    ensures
        pos <= #[trigger] scan_digits(s, pos) <= s.len(),
    decreases s.len() - pos,
{
    if pos < s.len() && is_digit(s[pos]) {
        lemma_scan_digits_bounds(s, pos + 1);
    }
}

pub broadcast proof fn lemma_scan_nonspace_bounds(s: Seq<u8>, pos: int)
    requires
        0 <= pos <= s.len(),
    ensures
        pos <= #[trigger] scan_nonspace(s, pos) <= s.len(),
    decreases s.len() - pos,
{
    if pos < s.len() && !is_space(s[pos]) {
        lemma_scan_nonspace_bounds(s, pos + 1);
    }
}

/// After a whitespace scan the scanner stands at end of line or at a
/// non-whitespace byte.
pub proof fn lemma_scan_space_stops(s: Seq<u8>, pos: int)
    requires
        0 <= pos <= s.len(),
    ensures
        scan_space(s, pos) < s.len() ==> !is_space(s[scan_space(s, pos)]),
    decreases s.len() - pos,
{
    if pos < s.len() && is_space(s[pos]) {
        lemma_scan_space_stops(s, pos + 1);
    }
}

pub fn is_alpha_byte(c: u8) -> (r: bool)
    ensures
        r == is_alpha(c),
{
    (c >= 'a' as u8 && c <= 'z' as u8) || (c >= 'A' as u8 && c <= 'Z' as u8)
}

pub fn is_space_byte(c: u8) -> (r: bool)
    ensures
        r == is_space(c),
{
    c == ' ' as u8 || c == '\t' as u8 || c == '\r' as u8 || c == '\n' as u8
}

pub fn is_digit_byte(c: u8) -> (r: bool)
    ensures
        r == is_digit(c),
{
    c >= '0' as u8 && c <= '9' as u8
}

pub fn skip_alpha(line: &[u8], pos: usize) -> (r: usize)
    requires
        pos <= line@.len(),
    ensures
        r as int == scan_alpha(line@, pos as int),
        pos <= r <= line@.len(),
{
    let mut i = pos;
    while i < line.len() && is_alpha_byte(line[i])
        invariant
            pos <= i <= line@.len(),
            scan_alpha(line@, pos as int) == scan_alpha(line@, i as int),
        decreases line@.len() - i,
    {
        i = i + 1;
    }
    i
}

pub fn skip_space(line: &[u8], pos: usize) -> (r: usize)
    requires
        pos <= line@.len(),
    ensures
        r as int == scan_space(line@, pos as int),
        pos <= r <= line@.len(),
{
    let mut i = pos;
    while i < line.len() && is_space_byte(line[i])
        invariant
            pos <= i <= line@.len(),
            scan_space(line@, pos as int) == scan_space(line@, i as int),
        decreases line@.len() - i,
    {
        i = i + 1;
    }
    i
}

pub fn skip_nonspace(line: &[u8], pos: usize) -> (r: usize)
    requires
        pos <= line@.len(),
    ensures
        r as int == scan_nonspace(line@, pos as int),
        pos <= r <= line@.len(),
{
    let mut i = pos;
    while i < line.len() && !is_space_byte(line[i])
        invariant
            pos <= i <= line@.len(),
            scan_nonspace(line@, pos as int) == scan_nonspace(line@, i as int),
        decreases line@.len() - i,
    {
        i = i + 1;
    }
    i
}

/// Splits the leading alphabetic token from `line` at `pos` and skips the
/// whitespace that follows it. Returns the token's end and the position of
/// whatever follows the whitespace; fails when the line does not start with
/// an alphabetic byte.
pub fn next_token(line: &[u8], pos: usize) -> (r: Option<(usize, usize)>)
    requires
        pos <= line@.len(),
    ensures
        match r {
            Some((end, rest)) => {
                &&& pos < line@.len()
                &&& is_alpha(line@[pos as int])
                &&& end as int == scan_alpha(line@, pos as int)
                &&& rest as int == scan_space(line@, end as int)
                &&& pos < end <= rest <= line@.len()
            },
            None => pos == line@.len() || !is_alpha(line@[pos as int]),
        },
{
    if pos == line.len() {
        return None;
    }
    if !is_alpha_byte(line[pos]) {
        return None;
    }
    let end = skip_alpha(line, pos);
    let rest = skip_space(line, end);
    proof {
        lemma_scan_alpha_bounds(line@, pos + 1);
        assert(scan_alpha(line@, pos as int) == scan_alpha(line@, pos + 1));
    }
    Some((end, rest))
}

/// The tokens this protocol layer knows: top-level commands, their
/// sub-keywords, and the search-argument keywords.
#[derive(Clone, Copy, PartialEq, Eq, Structural, Debug)]
pub enum Keyword {
    Uci,
    Debug,
    IsReady,
    UciNewGame,
    Position,
    Go,
    Stop,
    Quit,
    On,
    Off,
    Startpos,
    Fen,
    Moves,
    Searchmoves,
    Ponder,
    Wtime,
    Btime,
    Winc,
    Binc,
    Movestogo,
    Depth,
    Nodes,
    Mate,
    Movetime,
    Infinite,
    Unknown,
}

pub open spec fn keyword_of(s: Seq<u8>) -> Keyword {
    if s == "uci".spec_bytes() {
        Keyword::Uci
    } else if s == "debug".spec_bytes() {
        Keyword::Debug
    } else if s == "isready".spec_bytes() {
        Keyword::IsReady
    } else if s == "ucinewgame".spec_bytes() {
        Keyword::UciNewGame
    } else if s == "position".spec_bytes() {
        Keyword::Position
    } else if s == "go".spec_bytes() {
        Keyword::Go
    } else if s == "stop".spec_bytes() {
        Keyword::Stop
    } else if s == "quit".spec_bytes() {
        Keyword::Quit
    } else if s == "on".spec_bytes() {
        Keyword::On
    } else if s == "off".spec_bytes() {
        Keyword::Off
    } else if s == "startpos".spec_bytes() {
        Keyword::Startpos
    } else if s == "fen".spec_bytes() {
        Keyword::Fen
    } else if s == "moves".spec_bytes() {
        Keyword::Moves
    } else if s == "searchmoves".spec_bytes() {
        Keyword::Searchmoves
    } else if s == "ponder".spec_bytes() {
        Keyword::Ponder
    } else if s == "wtime".spec_bytes() {
        Keyword::Wtime
    } else if s == "btime".spec_bytes() {
        Keyword::Btime
    } else if s == "winc".spec_bytes() {
        Keyword::Winc
    } else if s == "binc".spec_bytes() {
        Keyword::Binc
    } else if s == "movestogo".spec_bytes() {
        Keyword::Movestogo
    } else if s == "depth".spec_bytes() {
        Keyword::Depth
    } else if s == "nodes".spec_bytes() {
        Keyword::Nodes
    } else if s == "mate".spec_bytes() {
        Keyword::Mate
    } else if s == "movetime".spec_bytes() {
        Keyword::Movetime
    } else if s == "infinite".spec_bytes() {
        Keyword::Infinite
    } else {
        Keyword::Unknown
    }
}

/// Byte-for-byte equality of two slices.
pub fn bytes_eq(a: &[u8], b: &[u8]) -> (r: bool)
    ensures
        r == (a@ == b@),
{
    if a.len() != b.len() {
        return false;
    }
    let n = a.len();
    let mut i: usize = 0;
    while i < n
        invariant
            0 <= i <= n,
            n == a@.len() == b@.len(),
            forall|j: int| 0 <= j < i ==> a@[j] == b@[j],
        decreases n - i,
    {
        if a[i] != b[i] {
            return false;
        }
        i = i + 1;
    }
    proof {
        assert(a@ =~= b@);
    }
    true
}

/// Classifies the token `line[start..end]`.
pub fn classify(line: &[u8], start: usize, end: usize) -> (k: Keyword)
    requires
        start <= end <= line@.len(),
    ensures
        k == keyword_of(line@.subrange(start as int, end as int)),
{
    let tok = vstd::slice::slice_subrange(line, start, end);
    if bytes_eq(tok, "uci".as_bytes()) {
        Keyword::Uci
    } else if bytes_eq(tok, "debug".as_bytes()) {
        Keyword::Debug
    } else if bytes_eq(tok, "isready".as_bytes()) {
        Keyword::IsReady
    } else if bytes_eq(tok, "ucinewgame".as_bytes()) {
        Keyword::UciNewGame
    } else if bytes_eq(tok, "position".as_bytes()) {
        Keyword::Position
    } else if bytes_eq(tok, "go".as_bytes()) {
        Keyword::Go
    } else if bytes_eq(tok, "stop".as_bytes()) {
        Keyword::Stop
    } else if bytes_eq(tok, "quit".as_bytes()) {
        Keyword::Quit
    } else if bytes_eq(tok, "on".as_bytes()) {
        Keyword::On
    } else if bytes_eq(tok, "off".as_bytes()) {
        Keyword::Off
    } else if bytes_eq(tok, "startpos".as_bytes()) {
        Keyword::Startpos
    } else if bytes_eq(tok, "fen".as_bytes()) {
        Keyword::Fen
    } else if bytes_eq(tok, "moves".as_bytes()) {
        Keyword::Moves
    } else if bytes_eq(tok, "searchmoves".as_bytes()) {
        Keyword::Searchmoves
    } else if bytes_eq(tok, "ponder".as_bytes()) {
        Keyword::Ponder
    } else if bytes_eq(tok, "wtime".as_bytes()) {
        Keyword::Wtime
    } else if bytes_eq(tok, "btime".as_bytes()) {
        Keyword::Btime
    } else if bytes_eq(tok, "winc".as_bytes()) {
        Keyword::Winc
    } else if bytes_eq(tok, "binc".as_bytes()) {
        Keyword::Binc
    } else if bytes_eq(tok, "movestogo".as_bytes()) {
        Keyword::Movestogo
    } else if bytes_eq(tok, "depth".as_bytes()) {
        Keyword::Depth
    } else if bytes_eq(tok, "nodes".as_bytes()) {
        Keyword::Nodes
    } else if bytes_eq(tok, "mate".as_bytes()) {
        Keyword::Mate
    } else if bytes_eq(tok, "movetime".as_bytes()) {
        Keyword::Movetime
    } else if bytes_eq(tok, "infinite".as_bytes()) {
        Keyword::Infinite
    } else {
        Keyword::Unknown
    }
}

} // verus!
