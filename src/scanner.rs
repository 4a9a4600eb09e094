//! The scan driver: feeds characters into the transition function, counts the
//! bytes taken, and restarts on a shorter input when a transition backtracks.
use vstd::prelude::*;
use vstd::std_specs::iter::IteratorSpec;
use vstd::utf8::{char_is_scalar, encode_scalar, encode_utf8};
use crate::machine::{step, transition, State, Step};
use crate::token::Token;

verus! {

broadcast use vstd::string::group_string_axioms, vstd::slice::axiom_spec_len;

/// How one pass of the state machine over an input ends.
pub enum Outcome {
    /// A token made of the first `n` characters.
    Done(Token, nat),
    /// Give up: scan again the input cut to its first `n` characters.
    Backtrack(nat),
}

/// The number of reprocess steps a state can still take on one character.
pub open spec fn rank(st: State) -> nat {
    match st {
        State::Zero | State::StringEscape { .. } | State::StringEscapeHex1 { .. }
        | State::StringEscapeHex2 { .. } | State::StringEscapeUnicode1 { .. }
        | State::StringEscapeUnicode2 { .. } | State::StringEscapeUnicode3 { .. }
        | State::NumberExponent { .. } | State::NumberHexExponent { .. } => 1,
        _ => 0,
    }
}

/// The fewest characters that must have been consumed to be in a state.
pub open spec fn depth(st: State) -> nat {
    match st {
        State::Start => 0,
        State::NumberDotStart { .. } | State::NumberHexDotStart { .. } => 2,
        _ => 1,
    }
}

/// The character at `i`, or `None` past the end.
pub open spec fn char_at(cs: Seq<char>, i: nat) -> Option<char> {
    if i < cs.len() {
        Some(cs[i as int])
    } else {
        None
    }
}

/// Runs the machine from state `st` with the first `i` characters of `cs`
/// consumed. The two fallbacks to `Invalid` are never taken: no state consumes
/// at the end of the input (`lemma_end_of_input`) and every reprocess step
/// lowers the rank (`lemma_reprocess_rank`).
pub open spec fn run(st: State, cs: Seq<char>, i: nat) -> Outcome
    decreases cs.len() - i, rank(st),
{
    match transition(st, char_at(cs, i)) {
        Step::Continue(next) => if i < cs.len() {
            run(next, cs, i + 1)
        } else {
            Outcome::Done(Token::Invalid, i)
        },
        Step::Reprocess(next) => if rank(next) < rank(st) {
            run(next, cs, i)
        } else {
            Outcome::Done(Token::Invalid, i)
        },
        Step::Backtrack => Outcome::Backtrack((i - 1) as nat),
        Step::Abort(t) => Outcome::Done(t, i),
        Step::End(t) => Outcome::Done(t, if i < cs.len() { i + 1 } else { i }),
    }
}

/// The token at the front of `cs`, and how many characters it takes. A pass
/// that backtracks is followed by a scan of the input cut before its last
/// consumed character; that cut always shortens the input
/// (`lemma_run_bounds`), so the fallback is never taken.
pub open spec fn scan(cs: Seq<char>) -> (Token, nat)
    decreases cs.len(),
{
    match run(State::Start, cs, 0) {
        Outcome::Done(t, n) => (t, n),
        Outcome::Backtrack(k) => if k < cs.len() {
            scan(cs.take(k as int))
        } else {
            (Token::Invalid, 0)
        },
    }
}

/// The number of bytes of the UTF-8 encoding of `cs`.
pub open spec fn utf8_len(cs: Seq<char>) -> nat {
    encode_utf8(cs).len()
}

// ---------------------------------------------------------------------------
// Facts about the model
// ---------------------------------------------------------------------------

/// A reprocess step always lowers the rank, so the guard in `run` never fails.
pub proof fn lemma_reprocess_rank(st: State, c: Option<char>)
    ensures
        transition(st, c) matches Step::Reprocess(next) ==> rank(next) < rank(st),
{
    reveal(transition);
}

/// At the end of the input a transition never consumes.
pub proof fn lemma_end_of_input(st: State)
    ensures
        !(transition(st, None) matches Step::Continue(_)),
        !(transition(st, None) matches Step::End(_)),
        transition(st, None) != Step::Backtrack,
{
    reveal(transition);
}

/// Every signal keeps the count of consumed characters at or above the depth of the state.
pub proof fn lemma_depth(st: State, c: Option<char>, i: nat)
    requires
        i >= depth(st),
    ensures
        transition(st, c) matches Step::Continue(next) ==> i + 1 >= depth(next),
        transition(st, c) matches Step::Reprocess(next) ==> i >= depth(next),
        transition(st, c) == Step::Backtrack ==> i >= 2 && c == Some('.'),
{
    reveal(transition);
}

/// A pass ends within the input, and a backtrack keeps at least one character.
pub proof fn lemma_run_bounds(st: State, cs: Seq<char>, i: nat)
    requires
        i <= cs.len(),
        i >= depth(st),
    ensures
        match run(st, cs, i) {
            Outcome::Done(_, n) => i <= n <= cs.len(),
            Outcome::Backtrack(k) => 1 <= k < cs.len(),
        },
    decreases cs.len() - i, rank(st),
{
    lemma_depth(st, char_at(cs, i), i);
    lemma_reprocess_rank(st, char_at(cs, i));
    match transition(st, char_at(cs, i)) {
        Step::Continue(next) => if i < cs.len() {
            lemma_run_bounds(next, cs, i + 1);
        },
        Step::Reprocess(next) => {
            lemma_run_bounds(next, cs, i);
        },
        _ => {},
    }
}

/// The token of a scan lies within the input, and takes at least one character
/// of a non-empty input.
pub proof fn lemma_scan_bounds(cs: Seq<char>)
    ensures
        scan(cs).1 <= cs.len(),
        cs.len() > 0 ==> scan(cs).1 > 0,
        cs.len() == 0 ==> scan(cs) == (Token::Invalid, 0nat),
    decreases cs.len(),
{
    lemma_run_bounds(State::Start, cs, 0);
    if cs.len() == 0 {
        reveal(transition);
        assert(run(State::Start, cs, 0) == Outcome::Done(Token::Invalid, 0));
    }
    if cs.len() > 0 {
        let first = transition(State::Start, char_at(cs, 0));
        reveal(transition);
        assert(first matches Step::Continue(_) || first matches Step::End(_));
        if let Step::Continue(next) = first {
            lemma_run_bounds(next, cs, 1);
        }
    }
    if let Outcome::Backtrack(k) = run(State::Start, cs, 0) {
        lemma_scan_bounds(cs.take(k as int));
    }
}

/// Encoding distributes over concatenation.
pub proof fn lemma_encode_concat(a: Seq<char>, b: Seq<char>)
    ensures
        encode_utf8(a + b) == encode_utf8(a) + encode_utf8(b),
    decreases a.len(),
{
    if a.len() == 0 {
        assert(a + b =~= b);
        assert(encode_utf8(a) + encode_utf8(b) =~= encode_utf8(b));
    } else {
        lemma_encode_concat(a.drop_first(), b);
        assert((a + b).drop_first() =~= a.drop_first() + b);
        assert(encode_utf8(a + b) =~= encode_utf8(a) + encode_utf8(b));
    }
}

/// Every character takes at least one byte.
pub proof fn lemma_utf8_len_ge(cs: Seq<char>)
    ensures
        utf8_len(cs) >= cs.len(),
        cs.len() == 0 ==> utf8_len(cs) == 0,
    decreases cs.len(),
{
    if cs.len() > 0 {
        lemma_utf8_len_ge(cs.drop_first());
    }
}

/// Taking one more character adds its encoded width.
pub proof fn lemma_utf8_len_take(cs: Seq<char>, i: int)
    requires
        0 <= i < cs.len(),
    ensures
        utf8_len(cs.take(i + 1)) == utf8_len(cs.take(i)) + encode_scalar(cs[i] as u32).len(),
        utf8_len(cs.take(i + 1)) <= utf8_len(cs),
{
    let one = seq![cs[i]];
    assert(cs.take(i + 1) =~= cs.take(i) + one);
    lemma_encode_concat(cs.take(i), one);
    assert(one.drop_first() =~= Seq::<char>::empty());
    assert(encode_utf8(one.drop_first()) =~= Seq::<u8>::empty());
    assert(encode_utf8(one) =~= encode_scalar(cs[i] as u32));
    assert(cs =~= cs.take(i + 1) + cs.skip(i + 1));
    lemma_encode_concat(cs.take(i + 1), cs.skip(i + 1));
}

// ---------------------------------------------------------------------------
// The driver
// ---------------------------------------------------------------------------

/// The number of bytes that encode `c` in UTF-8.
fn char_width(c: char) -> (w: usize)
    ensures
        w == encode_scalar(c as u32).len(),
        1 <= w <= 4,
{
    proof {
        char_is_scalar(c);
    }
    let v = c as u32;
    if v < 0x80 {
        1
    } else if v < 0x800 {
        2
    } else if v < 0x10000 {
        3
    } else {
        4
    }
}

/// The input seen by one pass: all of `s`, or its first `k` characters.
pub open spec fn bounded(s: Seq<char>, limit: Option<usize>) -> Seq<char> {
    match limit {
        Some(k) => s.take(k as int),
        None => s,
    }
}

/// The executable end of one pass.
enum Attempt {
    Done(Token, usize),
    Backtrack(usize),
}

/// One pass of the state machine over `s`, or over its first `k` characters.
fn attempt(s: &str, limit: Option<usize>) -> (r: Attempt)
    requires
        limit matches Some(k) ==> k <= s@.len(),
    ensures
        match r {
            Attempt::Done(t, b) => run(State::Start, bounded(s@, limit), 0) == Outcome::Done(
                t,
                scan(bounded(s@, limit)).1,
            ) && b == utf8_len(s@.take(scan(bounded(s@, limit)).1 as int)) && scan(
                bounded(s@, limit),
            ).1 <= bounded(s@, limit).len(),
            Attempt::Backtrack(k) => run(State::Start, bounded(s@, limit), 0) == Outcome::Backtrack(
                k as nat,
            ) && k < bounded(s@, limit).len(),
        },
{
    let ghost cs = bounded(s@, limit);
    let ghost goal = run(State::Start, cs, 0);
    proof {
        lemma_run_bounds(State::Start, cs, 0);
    }
    let total = s.as_bytes().len();
    assert(total == utf8_len(s@));
    let mut it = s.chars();
    let mut state = State::Start;
    let mut i: usize = 0;
    let mut pos: usize = 0;
    let mut c: Option<char> = match limit {
        Some(0) => None,
        _ => it.next(),
    };
    loop
        invariant
            cs == bounded(s@, limit),
            cs.len() <= s@.len(),
            limit matches Some(k) ==> k <= s@.len(),
            total == utf8_len(s@),
            goal == run(State::Start, cs, 0),
            goal matches Outcome::Done(_, n) ==> n <= cs.len(),
            goal matches Outcome::Backtrack(k) ==> k < cs.len(),
            i <= cs.len(),
            i >= depth(state),
            run(state, cs, i as nat) == goal,
            c == char_at(cs, i as nat),
            i < cs.len() ==> it.remaining() == s@.skip(i + 1),
            pos == utf8_len(s@.take(i as int)),
            pos <= total,
            i <= pos,
        decreases cs.len() - i, rank(state),
    {
        proof {
            lemma_depth(state, c, i as nat);
            lemma_reprocess_rank(state, c);
            lemma_end_of_input(state);
            if i < cs.len() {
                assert(cs[i as int] == s@[i as int]);
                lemma_utf8_len_take(s@, i as int);
            }
        }
        match step(state, c) {
            Step::Continue(next) => {
                if let Some(ch) = c {
                    pos = pos + char_width(ch);
                    i = i + 1;
                    state = next;
                    let more = match limit {
                        Some(k) => i < k,
                        None => true,
                    };
                    c = if more {
                        it.next()
                    } else {
                        None
                    };
                } else {
                    return Attempt::Done(Token::Invalid, pos);
                }
            },
            Step::Reprocess(next) => {
                state = next;
            },
            Step::Backtrack => {
                return Attempt::Backtrack(i - 1);
            },
            Step::Abort(t) => {
                return Attempt::Done(t, pos);
            },
            Step::End(t) => {
                if let Some(ch) = c {
                    return Attempt::Done(t, pos + char_width(ch));
                } else {
                    return Attempt::Done(t, pos);
                }
            },
        }
    }
}

/// Scans the token at the front of `s`.
///
/// Returns the token and the number of bytes of `s` it takes: the UTF-8 length
/// of the characters counted by [`scan`], so always a character boundary within
/// `s`. An empty input gives `(Token::Invalid, 0)`; any other input gives a
/// token of at least one character.
pub fn lex(s: &str) -> (r: (Token, usize))
    ensures
        r.0 == scan(s@).0,
        r.1 == utf8_len(s@.take(scan(s@).1 as int)),
        scan(s@).1 <= s@.len(),
        s@.len() == 0 <==> r.1 == 0,
        s@.len() == 0 ==> r.0 == Token::Invalid,
{
    let mut limit: Option<usize> = None;
    loop
        invariant
            limit matches Some(k) ==> k <= s@.len(),
            scan(bounded(s@, limit)) == scan(s@),
        decreases bounded(s@, limit).len(),
    {
        let ghost cs = bounded(s@, limit);
        match attempt(s, limit) {
            Attempt::Done(t, bytes) => {
                proof {
                    lemma_scan_bounds(s@);
                    let n = scan(cs).1;
                    assert(scan(cs) == (t, n));
                    lemma_utf8_len_ge(s@.take(n as int));
                }
                return (t, bytes);
            },
            Attempt::Backtrack(k) => {
                assert(cs.take(k as int) =~= s@.take(k as int));
                limit = Some(k);
            },
        }
    }
}

} // verus!
