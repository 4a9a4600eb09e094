//! Properties of the scanner as a whole, proved over the model in `scanner`.
use vstd::prelude::*;
use crate::machine::{
    is_alnum, is_bin_digit, is_dec_digit, is_hex_digit, is_letter, is_oct_digit,
    is_operator_state, is_quoted_state, is_run_state, number_transition, operator_transition,
    quoted_transition, run_transition, start_transition, transition, State, Step,
};
use crate::scanner::{
    char_at, lemma_encode_concat, lemma_end_of_input, lemma_reprocess_rank, lemma_scan_bounds, rank, run, scan,
    utf8_len, Outcome,
};
use crate::token::{FloatBase, IntegerBase, Token};

verus! {

// ---------------------------------------------------------------------------
// Scanning a whole source
// ---------------------------------------------------------------------------

/// The pieces that repeated scans cut `cs` into, each scan starting where the
/// previous token ended, until the rest is empty. (A scan of a non-empty input
/// takes between one character and all of it, `lemma_scan_bounds`, so the
/// last branch is never taken.)
pub open spec fn pieces(cs: Seq<char>) -> Seq<Seq<char>>
    decreases cs.len(),
{
    if cs.len() == 0 {
        Seq::empty()
    } else {
        let n = scan(cs).1;
        if 0 < n <= cs.len() {
            seq![cs.take(n as int)] + pieces(cs.skip(n as int))
        } else {
            seq![cs]
        }
    }
}

/// Scanning from a running cursor, advancing by each returned length, covers
/// the whole input with no gap and no overlap: every piece is non-empty, the
/// pieces put together give back the input, and only the empty rest yields
/// `(Invalid, 0)`.
pub proof fn lemma_partition(cs: Seq<char>)
    ensures
        pieces(cs).flatten() == cs,
        forall|j: int| 0 <= j < pieces(cs).len() ==> #[trigger] pieces(cs)[j].len() > 0,
        forall|j: int|
            0 <= j < pieces(cs).len() ==> #[trigger] pieces(cs)[j] == cs.skip(
                pieces(cs).take(j).flatten().len() as int,
            ).take(scan(cs.skip(pieces(cs).take(j).flatten().len() as int)).1 as int),
        scan(Seq::<char>::empty()) == (Token::Invalid, 0nat),
    decreases cs.len(),
{
    lemma_scan_bounds(cs);
    lemma_scan_bounds(Seq::<char>::empty());
    if cs.len() > 0 {
        let n = scan(cs).1;
        let rest = cs.skip(n as int);
        lemma_partition(rest);
        let ps = pieces(cs);
        assert(ps == seq![cs.take(n as int)] + pieces(rest));
        vstd::seq_lib::lemma_flatten_concat(seq![cs.take(n as int)], pieces(rest));
        seq![cs.take(n as int)].lemma_flatten_one_element();
        assert(cs.take(n as int) + rest =~= cs);
        assert forall|j: int| 0 <= j < ps.len() implies #[trigger] ps[j] == cs.skip(
            ps.take(j).flatten().len() as int,
        ).take(scan(cs.skip(ps.take(j).flatten().len() as int)).1 as int) by {
            if j == 0 {
                assert(ps.take(0) =~= Seq::<Seq<char>>::empty());
                assert(cs.skip(0) =~= cs);
            } else {
                let pr = pieces(rest);
                assert(ps[j] == pr[j - 1]);
                assert(ps.take(j) =~= seq![cs.take(n as int)] + pr.take(j - 1));
                vstd::seq_lib::lemma_flatten_concat(seq![cs.take(n as int)], pr.take(j - 1));
                let m = pr.take(j - 1).flatten().len();
                vstd::seq_lib::lemma_flatten_concat(pr.take(j - 1), pr.skip(j - 1));
                assert(pr.take(j - 1) + pr.skip(j - 1) =~= pr);
                assert(cs.skip((n + m) as int) =~= rest.skip(m as int));
            }
        }
    } else {
        assert(pieces(cs).flatten() =~= cs);
    }
}

/// The number of bytes of all the pieces together.
pub open spec fn bytes_of_pieces(ps: Seq<Seq<char>>) -> nat
    decreases ps.len(),
{
    if ps.len() == 0 {
        0
    } else {
        utf8_len(ps[0]) + bytes_of_pieces(ps.drop_first())
    }
}

/// Measured in bytes, as the scanner reports lengths: the byte lengths of the
/// pieces add up to the byte length of the whole input.
pub proof fn lemma_partition_bytes(cs: Seq<char>)
    ensures
        bytes_of_pieces(pieces(cs)) == utf8_len(cs),
    decreases cs.len(),
{
    lemma_scan_bounds(cs);
    if cs.len() > 0 {
        let n = scan(cs).1;
        let rest = cs.skip(n as int);
        lemma_partition_bytes(rest);
        let ps = pieces(cs);
        assert(ps.drop_first() =~= pieces(rest));
        assert(cs =~= cs.take(n as int) + rest);
        lemma_encode_concat(cs.take(n as int), rest);
    }
}

// ---------------------------------------------------------------------------
// Determinism
// ---------------------------------------------------------------------------

/// Scanning depends on the characters of the input alone: the same input
/// gives the same token and the same length every time.
pub proof fn lemma_deterministic(a: Seq<char>, b: Seq<char>)
    requires
        a == b,
    ensures
        scan(a) == scan(b),
        utf8_len(a.take(scan(a).1 as int)) == utf8_len(b.take(scan(b).1 as int)),
{
}

// ---------------------------------------------------------------------------
// Sticky flags
// ---------------------------------------------------------------------------

/// The error flags of a state: invalid characters, duplicate underscore,
/// invalid escape.
pub open spec fn state_flags(st: State) -> (bool, bool, bool) {
    match st {
        State::StringLiteral { has_invalid_escape: e, .. }
        | State::StringEscape { has_invalid_escape: e, .. }
        | State::StringEscapeHex1 { has_invalid_escape: e, .. }
        | State::StringEscapeHex2 { has_invalid_escape: e, .. }
        | State::StringEscapeUnicode1 { has_invalid_escape: e, .. }
        | State::StringEscapeUnicode2 { has_invalid_escape: e, .. }
        | State::StringEscapeUnicode3 { has_invalid_escape: e, .. } => (false, false, e),
        State::Number { has_invalid_characters: i, has_duplicate_underscore: d, .. }
        | State::NumberUnderscore { has_invalid_characters: i, has_duplicate_underscore: d }
        | State::NumberExponent { has_invalid_characters: i, has_duplicate_underscore: d }
        | State::NumberExponentSign { has_invalid_characters: i, has_duplicate_underscore: d, .. }
        | State::NumberExponentSignUnderscore { has_invalid_characters: i, has_duplicate_underscore: d }
        | State::NumberBinary { has_invalid_characters: i, has_duplicate_underscore: d, .. }
        | State::NumberBinaryUnderscore { has_invalid_characters: i, has_duplicate_underscore: d }
        | State::NumberOctal { has_invalid_characters: i, has_duplicate_underscore: d, .. }
        | State::NumberOctalUnderscore { has_invalid_characters: i, has_duplicate_underscore: d }
        | State::NumberHex { has_invalid_characters: i, has_duplicate_underscore: d, .. }
        | State::NumberHexUnderscore { has_invalid_characters: i, has_duplicate_underscore: d }
        | State::NumberHexDotStart { has_invalid_characters: i, has_duplicate_underscore: d }
        | State::NumberHexDot { has_invalid_characters: i, has_duplicate_underscore: d, .. }
        | State::NumberHexDotUnderscore { has_invalid_characters: i, has_duplicate_underscore: d }
        | State::NumberHexExponent { has_invalid_characters: i, has_duplicate_underscore: d }
        | State::NumberHexExponentSign { has_invalid_characters: i, has_duplicate_underscore: d, .. }
        | State::NumberHexExponentSignUnderscore { has_invalid_characters: i, has_duplicate_underscore: d }
        | State::NumberDotStart { has_invalid_characters: i, has_duplicate_underscore: d }
        | State::NumberDot { has_invalid_characters: i, has_duplicate_underscore: d, .. }
        | State::NumberDotUnderscore { has_invalid_characters: i, has_duplicate_underscore: d } => (i, d, false),
        _ => (false, false, false),
    }
}

/// The error flags of a token, in the order of `state_flags`.
pub open spec fn token_flags(t: Token) -> (bool, bool, bool) {
    match t {
        Token::RawIdentifier { has_invalid_escape: e, .. }
        | Token::StringLiteral { has_invalid_escape: e, .. }
        | Token::CharacterLiteral { has_invalid_escape: e, .. } => (false, false, e),
        Token::IntegerLiteral { has_invalid_characters: i, has_duplicate_underscore: d, .. }
        | Token::FloatLiteral { has_invalid_characters: i, has_duplicate_underscore: d, .. } => (i, d, false),
        _ => (false, false, false),
    }
}

/// Every flag set in `a` is set in `b`.
pub open spec fn flags_kept(a: (bool, bool, bool), b: (bool, bool, bool)) -> bool {
    (a.0 ==> b.0) && (a.1 ==> b.1) && (a.2 ==> b.2)
}

/// The shape of every state a scan can reach: a hexadecimal integer's digit
/// run never carries the duplicate-underscore flag (its second underscore
/// clears that flag instead of setting it).
pub open spec fn reachable_shape(st: State) -> bool {
    match st {
        State::NumberHex { has_duplicate_underscore: d, .. } => !d,
        State::NumberHexUnderscore { has_duplicate_underscore: d, .. } => !d,
        _ => true,
    }
}

/// The signal `r` from state `st` keeps every error flag, into the next
/// state or into the finished token, and leads to a reachable state.
pub open spec fn keeps_flags(st: State, r: Step) -> bool {
    match r {
        Step::Continue(next) | Step::Reprocess(next) => reachable_shape(next) && flags_kept(
            state_flags(st),
            state_flags(next),
        ),
        Step::Abort(t) | Step::End(t) => flags_kept(state_flags(st), token_flags(t)),
        Step::Backtrack => true,
    }
}

proof fn lemma_number_keeps_flags(st: State, c: Option<char>)
    requires
        reachable_shape(st),
        !is_quoted_state(st),
    ensures
        keeps_flags(st, number_transition(st, c)),
{
    match st {
        State::Zero => {},
        State::Number { .. } => {},
        State::NumberUnderscore { .. } => {},
        State::NumberExponent { .. } => {},
        State::NumberExponentSign { .. } => {},
        State::NumberExponentSignUnderscore { .. } => {},
        State::NumberBinary { .. } => {},
        State::NumberBinaryUnderscore { .. } => {},
        State::NumberOctal { .. } => {},
        State::NumberOctalUnderscore { .. } => {},
        State::NumberHex { .. } => {},
        State::NumberHexUnderscore { .. } => {},
        State::NumberHexDotStart { .. } => {},
        State::NumberHexDot { .. } => {},
        State::NumberHexDotUnderscore { .. } => {},
        State::NumberHexExponent { .. } => {},
        State::NumberHexExponentSign { .. } => {},
        State::NumberHexExponentSignUnderscore { .. } => {},
        State::NumberDotStart { .. } => {},
        State::NumberDot { .. } => {},
        State::NumberDotUnderscore { .. } => {},
        _ => {},
    }
}

proof fn lemma_quoted_keeps_flags(st: State, c: Option<char>)
    requires
        is_quoted_state(st),
    ensures
        keeps_flags(st, quoted_transition(st, c)),
{
}

/// One transition from a reachable state keeps every error flag, into the next
/// state or into the finished token, and leads to a reachable state.
pub proof fn lemma_transition_keeps_flags(st: State, c: Option<char>)
    requires
        reachable_shape(st),
    ensures
        keeps_flags(st, transition(st, c)),
{
    reveal(transition);
    if st == State::Start {
        assert(keeps_flags(st, start_transition(c)));
    } else if is_operator_state(st) {
        assert(keeps_flags(st, operator_transition(st, c)));
    } else if is_run_state(st) {
        assert(keeps_flags(st, run_transition(st, c)));
    } else if is_quoted_state(st) {
        lemma_quoted_keeps_flags(st, c);
    } else {
        lemma_number_keeps_flags(st, c);
    }
}

/// Once a flag is set on a reachable state of a pass, the token that pass
/// ends with carries it too. (A pass that backtracks ends with no token: the
/// shorter scan that follows starts afresh.)
pub proof fn lemma_sticky_flags(st: State, cs: Seq<char>, i: nat)
    requires
        reachable_shape(st),
    ensures
        run(st, cs, i) matches Outcome::Done(t, _) ==> flags_kept(state_flags(st), token_flags(t)),
    decreases cs.len() - i, rank(st),
{
    lemma_transition_keeps_flags(st, char_at(cs, i));
    lemma_end_of_input(st);
    lemma_reprocess_rank(st, char_at(cs, i));
    match transition(st, char_at(cs, i)) {
        Step::Continue(next) => if i < cs.len() {
            lemma_sticky_flags(next, cs, i + 1);
        },
        Step::Reprocess(next) => {
            lemma_sticky_flags(next, cs, i);
        },
        _ => {},
    }
}

/// A scan starts in a reachable state.
pub proof fn lemma_start_reachable()
    ensures
        reachable_shape(State::Start),
        state_flags(State::Start) == (false, false, false),
{
}

// ---------------------------------------------------------------------------
// Invalid characters in numeric literals
// ---------------------------------------------------------------------------

/// The character at `j` is the letter of a base prefix `0<letter>`.
pub open spec fn is_prefix_letter(text: Seq<char>, j: int, letter: char) -> bool {
    j == 1 && text[0] == '0' && text[1] == letter
}

/// The character at `j` of a numeric literal's text is a letter or digit that
/// is no digit of the literal's base, nor its base prefix (`b`, `o`, `x` after
/// a leading `0`), nor its exponent marker (`e`/`E` in decimal, `p`/`P` in
/// hexadecimal floats).
pub open spec fn foreign_char(t: Token, text: Seq<char>, j: int) -> bool {
    let c = text[j];
    is_alnum(c) && match t {
        Token::IntegerLiteral { base, .. } => match base {
            IntegerBase::Binary => !is_bin_digit(c) && !is_prefix_letter(text, j, 'b'),
            IntegerBase::Octal => !is_oct_digit(c) && !is_prefix_letter(text, j, 'o'),
            IntegerBase::Decimal => !is_dec_digit(c),
            IntegerBase::Hexadecimal => !is_hex_digit(c) && !is_prefix_letter(text, j, 'x'),
        },
        Token::FloatLiteral { base, .. } => match base {
            FloatBase::Decimal => !is_dec_digit(c) && c != 'e' && c != 'E',
            FloatBase::Hexadecimal => !is_hex_digit(c) && c != 'p' && c != 'P'
                && !is_prefix_letter(text, j, 'x'),
        },
        _ => false,
    }
}

/// Every foreign character of `text`, read as a literal of the kind of `t`, is flagged by `flag`.
pub open spec fn foreign_flagged_by(t: Token, text: Seq<char>, flag: bool) -> bool {
    forall|j: int| 0 <= j < text.len() && #[trigger] foreign_char(t, text, j) ==> flag
}

/// Every foreign character of the token's text is flagged.
pub open spec fn foreign_flagged(t: Token, text: Seq<char>) -> bool {
    foreign_flagged_by(t, text, token_flags(t).0)
}

/// A token of the given kind, standing for its whole kind in `foreign_char`.
pub open spec fn int_kind(base: IntegerBase) -> Token {
    Token::IntegerLiteral {
        base,
        is_unterminated: false,
        has_invalid_characters: false,
        has_duplicate_underscore: false,
    }
}

/// A token of the given kind, standing for its whole kind in `foreign_char`.
pub open spec fn float_kind(base: FloatBase) -> Token {
    Token::FloatLiteral {
        base,
        is_unterminated: false,
        has_invalid_characters: false,
        has_duplicate_underscore: false,
    }
}

/// Every letter of `text` is flagged by `flag`.
pub open spec fn letters_flagged(text: Seq<char>, flag: bool) -> bool {
    forall|j: int| 0 <= j < text.len() && #[trigger] is_letter(text[j]) ==> flag
}

/// The kind of a numeric token with its flags cleared.
pub open spec fn kind_of(t: Token) -> Token {
    match t {
        Token::IntegerLiteral { base, .. } => int_kind(base),
        Token::FloatLiteral { base, .. } => float_kind(base),
        _ => t,
    }
}

/// What a state of a numeric literal knows of the text consumed so far.
pub open spec fn numeric_text(st: State, text: Seq<char>) -> bool {
    match st {
        State::Start => text.len() == 0,
        State::Zero => text == seq!['0'],
        State::Number { has_invalid_characters: i, .. }
        | State::NumberUnderscore { has_invalid_characters: i, .. }
        | State::NumberDotStart { has_invalid_characters: i, .. }
        | State::NumberDot { has_invalid_characters: i, .. }
        | State::NumberDotUnderscore { has_invalid_characters: i, .. } => text.len() >= 1
            && is_dec_digit(text[0]) && letters_flagged(text, i),
        State::NumberExponent { has_invalid_characters: i, .. }
        | State::NumberExponentSign { has_invalid_characters: i, .. }
        | State::NumberExponentSignUnderscore { has_invalid_characters: i, .. } => text.len() >= 1
            && is_dec_digit(text[0]) && foreign_flagged_by(float_kind(FloatBase::Decimal), text, i),
        State::NumberBinary { has_invalid_characters: i, .. }
        | State::NumberBinaryUnderscore { has_invalid_characters: i, .. } => text.len() >= 2
            && text[0] == '0' && text[1] == 'b' && foreign_flagged_by(
            int_kind(IntegerBase::Binary),
            text,
            i,
        ),
        State::NumberOctal { has_invalid_characters: i, .. }
        | State::NumberOctalUnderscore { has_invalid_characters: i, .. } => text.len() >= 2
            && text[0] == '0' && text[1] == 'o' && foreign_flagged_by(
            int_kind(IntegerBase::Octal),
            text,
            i,
        ),
        State::NumberHex { has_invalid_characters: i, .. }
        | State::NumberHexUnderscore { has_invalid_characters: i, .. }
        | State::NumberHexDotStart { has_invalid_characters: i, .. }
        | State::NumberHexDot { has_invalid_characters: i, .. }
        | State::NumberHexDotUnderscore { has_invalid_characters: i, .. } => text.len() >= 2
            && text[0] == '0' && text[1] == 'x' && foreign_flagged_by(
            int_kind(IntegerBase::Hexadecimal),
            text,
            i,
        ),
        State::NumberHexExponent { has_invalid_characters: i, .. }
        | State::NumberHexExponentSign { has_invalid_characters: i, .. }
        | State::NumberHexExponentSignUnderscore { has_invalid_characters: i, .. } => text.len()
            >= 1 && foreign_flagged_by(float_kind(FloatBase::Hexadecimal), text, i),
        _ => true,
    }
}

/// An integer or floating-point literal.
pub open spec fn is_numeric_token(t: Token) -> bool {
    t matches Token::IntegerLiteral { .. } || t matches Token::FloatLiteral { .. }
}

/// One transition keeps what a numeric state knows of its text; a numeric
/// token it finishes has every foreign character flagged.
pub open spec fn keeps_numeric_text(st: State, text: Seq<char>, c: Option<char>, r: Step) -> bool {
    match r {
        Step::Continue(next) => c matches Some(ch) && numeric_text(next, text.push(ch)),
        Step::Reprocess(next) => numeric_text(next, text),
        Step::Abort(t) => is_numeric_token(t) ==> foreign_flagged(t, text),
        Step::End(t) => !is_numeric_token(t),
        Step::Backtrack => true,
    }
}

proof fn lemma_letters_push(text: Seq<char>, ch: char, f: bool)
    ensures
        letters_flagged(text, f) && !is_letter(ch) ==> letters_flagged(text.push(ch), f),
{
    if letters_flagged(text, f) && !is_letter(ch) {
        let n = text.push(ch);
        assert forall|j: int| 0 <= j < n.len() && #[trigger] is_letter(n[j]) implies f by {
            if j < text.len() {
                assert(n[j] == text[j]);
            }
        }
    }
}

proof fn lemma_foreign_push(t: Token, text: Seq<char>, ch: char, f: bool)
    ensures
        text.len() >= 1 && foreign_flagged_by(t, text, f) && !foreign_char(
            t,
            text.push(ch),
            text.len() as int,
        ) ==> foreign_flagged_by(t, text.push(ch), f),
{
    let n = text.push(ch);
    if text.len() >= 1 && foreign_flagged_by(t, text, f) && !foreign_char(t, n, text.len() as int) {
        assert forall|j: int| 0 <= j < n.len() && #[trigger] foreign_char(t, n, j) implies f by {
            if j < text.len() {
                assert(n[j] == text[j]);
                assert(n[0] == text[0]);
                assert(foreign_char(t, text, j));
            }
        }
    }
}

proof fn lemma_letters_to_kinds(text: Seq<char>, f: bool)
    ensures
        letters_flagged(text, f) ==> foreign_flagged_by(int_kind(IntegerBase::Decimal), text, f)
            && foreign_flagged_by(float_kind(FloatBase::Decimal), text, f) && foreign_flagged_by(
            float_kind(FloatBase::Hexadecimal),
            text,
            f,
        ),
{
    if letters_flagged(text, f) {
        assert forall|j: int|
            0 <= j < text.len() && #[trigger] foreign_char(int_kind(IntegerBase::Decimal), text, j)
                implies f by {
            assert(is_letter(text[j]));
        }
        assert forall|j: int|
            0 <= j < text.len() && #[trigger] foreign_char(float_kind(FloatBase::Decimal), text, j)
                implies f by {
            assert(is_letter(text[j]));
        }
        assert forall|j: int|
            0 <= j < text.len() && #[trigger] foreign_char(float_kind(FloatBase::Hexadecimal), text, j)
                implies f by {
            assert(is_letter(text[j]));
        }
    }
}

proof fn lemma_hex_to_float(text: Seq<char>, f: bool)
    ensures
        text.len() >= 2 && text[0] == '0' && text[1] == 'x' && foreign_flagged_by(
            int_kind(IntegerBase::Hexadecimal),
            text,
            f,
        ) ==> foreign_flagged_by(float_kind(FloatBase::Hexadecimal), text, f),
{
    if text.len() >= 2 && text[0] == '0' && text[1] == 'x' && foreign_flagged_by(
        int_kind(IntegerBase::Hexadecimal),
        text,
        f,
    ) {
        assert forall|j: int|
            0 <= j < text.len() && #[trigger] foreign_char(float_kind(FloatBase::Hexadecimal), text, j)
                implies f by {
            assert(foreign_char(int_kind(IntegerBase::Hexadecimal), text, j));
        }
    }
}

proof fn lemma_kind_only(t: Token, text: Seq<char>, f: bool)
    ensures
        foreign_flagged_by(kind_of(t), text, f) ==> foreign_flagged_by(t, text, f),
{
    if foreign_flagged_by(kind_of(t), text, f) {
        assert forall|j: int| 0 <= j < text.len() && #[trigger] foreign_char(t, text, j) implies f by {
            assert(foreign_char(kind_of(t), text, j));
        }
    }
}

proof fn lemma_number_text(st: State, text: Seq<char>, c: Option<char>)
    requires
        numeric_text(st, text),
        st != State::Start,
        !is_operator_state(st),
        !is_run_state(st),
        !is_quoted_state(st),
    ensures
        keeps_numeric_text(st, text, c, number_transition(st, c)),
{
    let f = state_flags(st).0;
    lemma_letters_to_kinds(text, f);
    lemma_hex_to_float(text, f);
    if let Some(ch) = c {
        lemma_letters_push(text, ch, f);
        lemma_foreign_push(int_kind(IntegerBase::Binary), text, ch, f);
        lemma_foreign_push(int_kind(IntegerBase::Octal), text, ch, f);
        lemma_foreign_push(int_kind(IntegerBase::Hexadecimal), text, ch, f);
        lemma_foreign_push(float_kind(FloatBase::Decimal), text, ch, f);
        lemma_foreign_push(float_kind(FloatBase::Hexadecimal), text, ch, f);
        let n = text.push(ch);
        assert(n[text.len() as int] == ch);
        assert(text.len() >= 1 ==> n[0] == text[0]);
        assert(text.len() >= 2 ==> n[1] == text[1]);
    }
    if let Step::Abort(t) = number_transition(st, c) {
        lemma_kind_only(t, text, token_flags(t).0);
    }
    match st {
        State::Zero => {
            assert(text[0] == '0');
            if let Some(ch) = c {
                let next = text.push(ch);
                assert(next.len() == 2 && next[0] == '0' && next[1] == ch);
                if ch == 'b' || ch == 'o' || ch == 'x' {
                    let t = int_kind(
                        if ch == 'b' {
                            IntegerBase::Binary
                        } else if ch == 'o' {
                            IntegerBase::Octal
                        } else {
                            IntegerBase::Hexadecimal
                        },
                    );
                    assert forall|j: int| 0 <= j < next.len() implies !#[trigger] foreign_char(
                        t,
                        next,
                        j,
                    ) by {
                        if j == 0 {
                            assert(next[j] == '0');
                        }
                    }
                }
            }
        },
        State::Number { .. } => {},
        State::NumberUnderscore { .. } => {},
        State::NumberExponent { .. } => {},
        State::NumberExponentSign { .. } => {},
        State::NumberExponentSignUnderscore { .. } => {},
        State::NumberBinary { .. } => {},
        State::NumberBinaryUnderscore { .. } => {},
        State::NumberOctal { .. } => {},
        State::NumberOctalUnderscore { .. } => {},
        State::NumberHex { .. } => {},
        State::NumberHexUnderscore { .. } => {},
        State::NumberHexDotStart { .. } => {},
        State::NumberHexDot { .. } => {},
        State::NumberHexDotUnderscore { .. } => {},
        State::NumberHexExponent { .. } => {},
        State::NumberHexExponentSign { .. } => {},
        State::NumberHexExponentSignUnderscore { .. } => {},
        State::NumberDotStart { .. } => {},
        State::NumberDot { .. } => {},
        State::NumberDotUnderscore { .. } => {},
        _ => {},
    }
}

/// One transition keeps what a numeric state knows of its text.
pub proof fn lemma_transition_text(st: State, text: Seq<char>, c: Option<char>)
    requires
        numeric_text(st, text),
    ensures
        keeps_numeric_text(st, text, c, transition(st, c)),
{
    reveal(transition);
    if st == State::Start {
        if let Some(ch) = c {
            assert(text.push(ch) =~= seq![ch]);
        }
    } else if is_operator_state(st) {
    } else if is_run_state(st) {
    } else if is_quoted_state(st) {
    } else {
        lemma_number_text(st, text, c);
    }
}

/// A pass that finishes a numeric token from a state that knows its text has
/// every foreign character of the token's text flagged.
pub proof fn lemma_run_text(st: State, cs: Seq<char>, i: nat)
    requires
        i <= cs.len(),
        numeric_text(st, cs.take(i as int)),
    ensures
        run(st, cs, i) matches Outcome::Done(t, n) ==> (is_numeric_token(t) ==> foreign_flagged(
            t,
            cs.take(n as int),
        )),
    decreases cs.len() - i, rank(st),
{
    let c = char_at(cs, i);
    lemma_transition_text(st, cs.take(i as int), c);
    lemma_end_of_input(st);
    lemma_reprocess_rank(st, c);
    match transition(st, c) {
        Step::Continue(next) => if i < cs.len() {
            assert(cs.take(i as int).push(cs[i as int]) =~= cs.take((i + 1) as int));
            lemma_run_text(next, cs, i + 1);
        },
        Step::Reprocess(next) => {
            lemma_run_text(next, cs, i);
        },
        _ => {},
    }
}

/// In every numeric literal that a scan returns, a letter or digit of its text
/// that is no digit of its base (nor its base prefix, nor its exponent
/// marker) comes with `has_invalid_characters` set.
pub proof fn lemma_invalid_characters_flagged(cs: Seq<char>)
    ensures
        is_numeric_token(scan(cs).0) ==> foreign_flagged(scan(cs).0, cs.take(scan(cs).1 as int)),
    decreases cs.len(),
{
    assert(cs.take(0) =~= Seq::<char>::empty());
    lemma_run_text(State::Start, cs, 0);
    if let Outcome::Backtrack(k) = run(State::Start, cs, 0) {
        if k < cs.len() {
            lemma_invalid_characters_flagged(cs.take(k as int));
            lemma_scan_bounds(cs.take(k as int));
            assert(cs.take(k as int).take(scan(cs).1 as int) =~= cs.take(scan(cs).1 as int));
        }
    }
}

// ---------------------------------------------------------------------------
// Duplicate underscores in numeric literals
// ---------------------------------------------------------------------------

/// `text` holds two underscores in a row at `j` and `j + 1`.
pub open spec fn double_underscore(text: Seq<char>, j: int) -> bool {
    0 <= j && j + 1 < text.len() && text[j] == '_' && text[j + 1] == '_'
}

/// `text` begins with the hexadecimal prefix `0x`.
pub open spec fn hex_prefixed(text: Seq<char>) -> bool {
    text.len() >= 2 && text[0] == '0' && text[1] == 'x'
}

/// Reading the digit run of a hexadecimal integer from index 2 up to `n`: the
/// run ends in an odd number of underscores.
pub open spec fn hex_under(text: Seq<char>, n: int) -> bool
    decreases n,
{
    if 2 < n <= text.len() && text[n - 1] == '_' {
        !hex_under(text, n - 1)
    } else {
        false
    }
}

/// The character at `n` extends the digit run of a hexadecimal integer: an
/// underscore, or a letter or digit other than an exponent marker that
/// directly follows a digit.
pub open spec fn hex_continues(text: Seq<char>, n: int) -> bool {
    text[n] == '_' || is_alnum(text[n]) && (hex_under(text, n) || text[n] != 'p' && text[n] != 'P')
}

/// Where the digit run of a hexadecimal integer that has reached `n` ends.
pub open spec fn hex_run_end(text: Seq<char>, n: int) -> int
    decreases text.len() - n,
{
    if 0 <= n < text.len() && hex_continues(text, n) {
        hex_run_end(text, n + 1)
    } else {
        n
    }
}

/// The pair of underscores at `j` lies within the integer digits of a
/// hexadecimal literal, where a second underscore clears the
/// duplicate-underscore flag instead of setting it.
pub open spec fn in_hex_digit_run(text: Seq<char>, j: int) -> bool {
    hex_prefixed(text) && j + 1 < hex_run_end(text, 2)
}

/// Every pair of underscores of `text` outside a hexadecimal integer's digit
/// run is flagged by `flag`.
pub open spec fn pairs_flagged_by(text: Seq<char>, flag: bool) -> bool {
    forall|j: int| #[trigger] double_underscore(text, j) && !in_hex_digit_run(text, j) ==> flag
}

/// What a state of a numeric literal knows of the underscores consumed so far.
pub open spec fn numeric_pairs(st: State, text: Seq<char>) -> bool {
    match st {
        State::Start => text.len() == 0,
        State::Zero => text == seq!['0'],
        State::NumberHex { .. } => hex_prefixed(text) && hex_run_end(text, 2) == text.len()
            && !hex_under(text, text.len() as int),
        State::NumberHexUnderscore { .. } => hex_prefixed(text) && hex_run_end(text, 2)
            == text.len() && hex_under(text, text.len() as int),
        State::Number { has_duplicate_underscore: d, .. }
        | State::NumberExponent { has_duplicate_underscore: d, .. }
        | State::NumberExponentSign { has_duplicate_underscore: d, .. }
        | State::NumberBinary { has_duplicate_underscore: d, .. }
        | State::NumberOctal { has_duplicate_underscore: d, .. }
        | State::NumberHexDotStart { has_duplicate_underscore: d, .. }
        | State::NumberHexDot { has_duplicate_underscore: d, .. }
        | State::NumberHexExponent { has_duplicate_underscore: d, .. }
        | State::NumberHexExponentSign { has_duplicate_underscore: d, .. }
        | State::NumberDotStart { has_duplicate_underscore: d, .. }
        | State::NumberDot { has_duplicate_underscore: d, .. } => pairs_flagged_by(text, d) && (
        text.len() >= 1 && text.last() == '_' ==> d),
        State::NumberUnderscore { has_duplicate_underscore: d, .. }
        | State::NumberExponentSignUnderscore { has_duplicate_underscore: d, .. }
        | State::NumberBinaryUnderscore { has_duplicate_underscore: d, .. }
        | State::NumberOctalUnderscore { has_duplicate_underscore: d, .. }
        | State::NumberHexDotUnderscore { has_duplicate_underscore: d, .. }
        | State::NumberHexExponentSignUnderscore { has_duplicate_underscore: d, .. }
        | State::NumberDotUnderscore { has_duplicate_underscore: d, .. } => pairs_flagged_by(
            text,
            d,
        ),
        _ => true,
    }
}

/// One transition keeps what a numeric state knows of its underscores; a
/// numeric token it finishes has every pair outside a hexadecimal integer's
/// digit run flagged.
pub open spec fn keeps_numeric_pairs(st: State, text: Seq<char>, c: Option<char>, r: Step) -> bool {
    match r {
        Step::Continue(next) => c matches Some(ch) && numeric_pairs(next, text.push(ch)),
        Step::Reprocess(next) => numeric_pairs(next, text),
        Step::Abort(t) => is_numeric_token(t) ==> pairs_flagged_by(text, token_flags(t).1),
        Step::End(t) => !is_numeric_token(t),
        Step::Backtrack => true,
    }
}

proof fn lemma_hex_under_push(text: Seq<char>, c: char, n: int)
    requires
        n <= text.len(),
    ensures
        hex_under(text.push(c), n) == hex_under(text, n),
    decreases n,
{
    if 2 < n {
        assert(text.push(c)[n - 1] == text[n - 1]);
        lemma_hex_under_push(text, c, n - 1);
    }
}

proof fn lemma_hex_run_end_push(text: Seq<char>, c: char, m: int)
    requires
        2 <= m <= text.len(),
    ensures
        m <= hex_run_end(text, m) <= text.len(),
        hex_run_end(text, m) < text.len() ==> hex_run_end(text.push(c), m) == hex_run_end(text, m),
        hex_run_end(text, m) == text.len() ==> hex_run_end(text.push(c), m) == if hex_continues(
            text.push(c),
            text.len() as int,
        ) {
            text.len() + 1
        } else {
            text.len() + 0
        },
    decreases text.len() - m,
{
    let n = text.push(c);
    if m < text.len() {
        assert(n[m] == text[m]);
        lemma_hex_under_push(text, c, m);
        assert(hex_continues(n, m) == hex_continues(text, m));
        if hex_continues(text, m) {
            lemma_hex_run_end_push(text, c, m + 1);
        }
    } else {
        if hex_continues(n, m) {
            assert(hex_run_end(n, m + 1) == m + 1);
        }
    }
}

proof fn lemma_pairs_push(text: Seq<char>, c: char, f: bool)
    ensures
        ({
            let n = text.push(c);
            pairs_flagged_by(text, f) && (double_underscore(n, text.len() - 1) && !in_hex_digit_run(
                n,
                text.len() - 1,
            ) ==> f) ==> pairs_flagged_by(n, f)
        }),
{
    let n = text.push(c);
    if text.len() >= 2 {
        lemma_hex_run_end_push(text, c, 2);
        assert(n[0] == text[0] && n[1] == text[1]);
    }
    if pairs_flagged_by(text, f) && (double_underscore(n, text.len() - 1) && !in_hex_digit_run(
        n,
        text.len() - 1,
    ) ==> f) {
        assert forall|j: int| #[trigger]
            double_underscore(n, j) && !in_hex_digit_run(n, j) implies f by {
            if j + 1 < text.len() {
                assert(n[j] == text[j] && n[j + 1] == text[j + 1]);
                assert(double_underscore(text, j));
                if text.len() >= 2 && hex_prefixed(text) {
                    assert(!in_hex_digit_run(text, j));
                }
            }
        }
    }
}

proof fn lemma_number_pairs(st: State, text: Seq<char>, c: Option<char>)
    requires
        numeric_pairs(st, text),
        st != State::Start,
        !is_operator_state(st),
        !is_run_state(st),
        !is_quoted_state(st),
    ensures
        keeps_numeric_pairs(st, text, c, number_transition(st, c)),
{
    let f = state_flags(st).1;
    if let Some(ch) = c {
        let n = text.push(ch);
        lemma_pairs_push(text, ch, f);
        lemma_pairs_push(text, ch, true);
        assert(n.last() == ch);
        assert(text.len() >= 1 ==> n[text.len() - 1] == text.last());
        assert(text.len() >= 2 ==> n[0] == text[0] && n[1] == text[1]);
        if text.len() >= 2 {
            lemma_hex_run_end_push(text, ch, 2);
            lemma_hex_under_push(text, ch, text.len() as int);
        }
        if text.len() == 1 && ch == 'x' {
            assert(hex_run_end(n, 2) == 2);
            assert(!hex_under(n, 2));
        }
    }
    match st {
        State::Zero => {
            assert(text[0] == '0');
            if let Some(ch) = c {
                let n = text.push(ch);
                assert(n.len() == 2 && n[0] == '0' && n[1] == ch);
                assert(!double_underscore(n, 0));
                assert(!double_underscore(text, 0));
            }
        },
        State::Number { .. } => {},
        State::NumberUnderscore { .. } => {},
        State::NumberExponent { .. } => {},
        State::NumberExponentSign { .. } => {},
        State::NumberExponentSignUnderscore { .. } => {},
        State::NumberBinary { .. } => {},
        State::NumberBinaryUnderscore { .. } => {},
        State::NumberOctal { .. } => {},
        State::NumberOctalUnderscore { .. } => {},
        State::NumberHex { .. } => {},
        State::NumberHexUnderscore { .. } => {},
        State::NumberHexDotStart { .. } => {},
        State::NumberHexDot { .. } => {},
        State::NumberHexDotUnderscore { .. } => {},
        State::NumberHexExponent { .. } => {},
        State::NumberHexExponentSign { .. } => {},
        State::NumberHexExponentSignUnderscore { .. } => {},
        State::NumberDotStart { .. } => {},
        State::NumberDot { .. } => {},
        State::NumberDotUnderscore { .. } => {},
        _ => {},
    }
}

/// One transition keeps what a numeric state knows of its underscores.
pub proof fn lemma_transition_pairs(st: State, text: Seq<char>, c: Option<char>)
    requires
        numeric_pairs(st, text),
    ensures
        keeps_numeric_pairs(st, text, c, transition(st, c)),
{
    reveal(transition);
    if st == State::Start {
        if let Some(ch) = c {
            let n = text.push(ch);
            assert(n =~= seq![ch]);
            assert forall|j: int| #[trigger] double_underscore(n, j) implies false by {}
        }
    } else if is_operator_state(st) {
    } else if is_run_state(st) {
    } else if is_quoted_state(st) {
    } else {
        lemma_number_pairs(st, text, c);
    }
}

/// A pass that finishes a numeric token from a state that knows its
/// underscores has every pair outside a hexadecimal integer's digit run flagged.
pub proof fn lemma_run_pairs(st: State, cs: Seq<char>, i: nat)
    requires
        i <= cs.len(),
        numeric_pairs(st, cs.take(i as int)),
    ensures
        run(st, cs, i) matches Outcome::Done(t, n) ==> (is_numeric_token(t) ==> pairs_flagged_by(
            cs.take(n as int),
            token_flags(t).1,
        )),
    decreases cs.len() - i, rank(st),
{
    let c = char_at(cs, i);
    lemma_transition_pairs(st, cs.take(i as int), c);
    lemma_end_of_input(st);
    lemma_reprocess_rank(st, c);
    match transition(st, c) {
        Step::Continue(next) => if i < cs.len() {
            assert(cs.take(i as int).push(cs[i as int]) =~= cs.take((i + 1) as int));
            lemma_run_pairs(next, cs, i + 1);
        },
        Step::Reprocess(next) => {
            lemma_run_pairs(next, cs, i);
        },
        _ => {},
    }
}

/// In every numeric literal that a scan returns, two underscores in a row
/// come with `has_duplicate_underscore` set, unless they lie within the integer
/// digits of a hexadecimal literal (after `0x`, up to its `.` or exponent
/// marker), where a second underscore clears the flag instead.
pub proof fn lemma_duplicate_underscores_flagged(cs: Seq<char>)
    ensures
        is_numeric_token(scan(cs).0) ==> pairs_flagged_by(
            cs.take(scan(cs).1 as int),
            token_flags(scan(cs).0).1,
        ),
    decreases cs.len(),
{
    assert(cs.take(0) =~= Seq::<char>::empty());
    lemma_run_pairs(State::Start, cs, 0);
    if let Outcome::Backtrack(k) = run(State::Start, cs, 0) {
        if k < cs.len() {
            lemma_duplicate_underscores_flagged(cs.take(k as int));
            lemma_scan_bounds(cs.take(k as int));
            assert(cs.take(k as int).take(scan(cs).1 as int) =~= cs.take(scan(cs).1 as int));
        }
    }
}

} // verus!
