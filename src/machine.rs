//! The scanner's finite-state machine: its states, the signal a transition
//! returns, and the transition rules, first as a specification over character
//! classes and then as the executable table `step`.
use vstd::prelude::*;
use crate::token::{FloatBase, IntegerBase, Token};

verus! {

/// Which quoted literal a body or escape state belongs to.
#[derive(Debug, Clone, Copy, PartialEq, Eq, Structural)]
pub enum EscapeKind {
    RawIdentifier,
    StringLiteral,
    CharacterLiteral,
}

/// A scanner state: the lexical category in progress and the flags gathered so far.
#[derive(Debug, Clone, Copy, PartialEq, Eq, Structural)]
pub enum State {
    Start,
    Invalid,
    Whitespace,
    Bang,
    Percent,
    And,
    Star,
    StarPercent,
    Plus,
    PlusPercent,
    Minus,
    MinusPercent,
    Dot,
    Dot2,
    Slash,
    Slash2,
    LAngle,
    LAngle2,
    Equal,
    RAngle,
    RAngle2,
    At,
    Caret,
    Or,
    Comment,
    DocComment,
    MultilineStringLiteralLine,
    Identifier,
    Builtin,
    StringLiteral { is_empty: bool, escape_kind: EscapeKind, has_invalid_escape: bool },
    StringEscape { is_empty: bool, escape_kind: EscapeKind, has_invalid_escape: bool },
    StringEscapeHex1 { escape_kind: EscapeKind, has_invalid_escape: bool },
    StringEscapeHex2 { escape_kind: EscapeKind, has_invalid_escape: bool },
    StringEscapeUnicode1 { escape_kind: EscapeKind, has_invalid_escape: bool },
    StringEscapeUnicode2 { escape_kind: EscapeKind, has_invalid_escape: bool },
    StringEscapeUnicode3 { escape_kind: EscapeKind, has_invalid_escape: bool },
    Zero,
    Number { is_unterminated: bool, has_invalid_characters: bool, has_duplicate_underscore: bool },
    NumberUnderscore { has_invalid_characters: bool, has_duplicate_underscore: bool },
    NumberExponent { has_invalid_characters: bool, has_duplicate_underscore: bool },
    NumberExponentSign {
        is_unterminated: bool,
        has_invalid_characters: bool,
        has_duplicate_underscore: bool,
    },
    NumberExponentSignUnderscore { has_invalid_characters: bool, has_duplicate_underscore: bool },
    NumberBinary {
        is_unterminated: bool,
        has_invalid_characters: bool,
        has_duplicate_underscore: bool,
    },
    NumberBinaryUnderscore { has_invalid_characters: bool, has_duplicate_underscore: bool },
    NumberOctal {
        is_unterminated: bool,
        has_invalid_characters: bool,
        has_duplicate_underscore: bool,
    },
    NumberOctalUnderscore { has_invalid_characters: bool, has_duplicate_underscore: bool },
    NumberHex {
        is_unterminated: bool,
        has_invalid_characters: bool,
        has_duplicate_underscore: bool,
    },
    NumberHexUnderscore { has_invalid_characters: bool, has_duplicate_underscore: bool },
    /// Right after the `.` of a hexadecimal fraction, before anything else.
    NumberHexDotStart { has_invalid_characters: bool, has_duplicate_underscore: bool },
    NumberHexDot {
        is_unterminated: bool,
        has_invalid_characters: bool,
        has_duplicate_underscore: bool,
    },
    NumberHexDotUnderscore { has_invalid_characters: bool, has_duplicate_underscore: bool },
    NumberHexExponent { has_invalid_characters: bool, has_duplicate_underscore: bool },
    NumberHexExponentSign {
        is_unterminated: bool,
        has_invalid_characters: bool,
        has_duplicate_underscore: bool,
    },
    NumberHexExponentSignUnderscore { has_invalid_characters: bool, has_duplicate_underscore: bool },
    /// Right after the `.` of a decimal fraction, before anything else.
    NumberDotStart { has_invalid_characters: bool, has_duplicate_underscore: bool },
    NumberDot {
        is_unterminated: bool,
        has_invalid_characters: bool,
        has_duplicate_underscore: bool,
    },
    NumberDotUnderscore { has_invalid_characters: bool, has_duplicate_underscore: bool },
}

/// What one transition tells the driver to do.
#[derive(Debug, Clone, Copy, PartialEq, Eq, Structural)]
pub enum Step {
    /// Consume the character and go on in the given state.
    Continue(State),
    /// Go to the given state and look at the same character again.
    Reprocess(State),
    /// Give up the most recently consumed character and scan the shorter input anew.
    Backtrack,
    /// Finish with the token, without the current character.
    Abort(Token),
    /// Finish with the token, including the current character.
    End(Token),
}

// ---------------------------------------------------------------------------
// Character classes
// ---------------------------------------------------------------------------

pub open spec fn is_dec_digit(c: char) -> bool {
    '0' <= c && c <= '9'
}

pub open spec fn is_bin_digit(c: char) -> bool {
    c == '0' || c == '1'
}

pub open spec fn is_oct_digit(c: char) -> bool {
    '0' <= c && c <= '7'
}

pub open spec fn is_hex_digit(c: char) -> bool {
    is_dec_digit(c) || ('a' <= c && c <= 'f') || ('A' <= c && c <= 'F')
}

/// An ASCII letter.
pub open spec fn is_letter(c: char) -> bool {
    ('a' <= c && c <= 'z') || ('A' <= c && c <= 'Z')
}

pub open spec fn is_alnum(c: char) -> bool {
    is_letter(c) || is_dec_digit(c)
}

pub open spec fn is_ident_start(c: char) -> bool {
    is_letter(c) || c == '_'
}

pub open spec fn is_ident_char(c: char) -> bool {
    is_ident_start(c) || is_dec_digit(c)
}

pub open spec fn is_space(c: char) -> bool {
    c == ' ' || c == '\t' || c == '\r' || c == '\n'
}

/// The characters that may follow a backslash on their own.
pub open spec fn is_simple_escape(c: char) -> bool {
    c == 'n' || c == 'r' || c == '\\' || c == 't' || c == '\'' || c == '"'
}

/// The character `c` is present and satisfies `p`.
pub open spec fn is_some_and(c: Option<char>, p: spec_fn(char) -> bool) -> bool {
    c matches Some(ch) && p(ch)
}

/// The character `c` is present and is `x` or `y`.
pub open spec fn is_either(c: Option<char>, x: char, y: char) -> bool {
    c == Some(x) || c == Some(y)
}

// ---------------------------------------------------------------------------
// Transition rules
// ---------------------------------------------------------------------------

/// From the start state: the first character picks the token category.
pub open spec fn start_transition(c: Option<char>) -> Step {
    match c {
        None => Step::Abort(Token::Invalid),
        Some(ch) => {
            if is_space(ch) {
                Step::Continue(State::Whitespace)
            } else if ch == '"' {
                Step::Continue(body(EscapeKind::StringLiteral, true, false))
            } else if ch == '\'' {
                Step::Continue(body(EscapeKind::CharacterLiteral, true, false))
            } else if ch == '0' {
                Step::Continue(State::Zero)
            } else if is_dec_digit(ch) {
                Step::Continue(State::Number {
                    is_unterminated: false,
                    has_invalid_characters: false,
                    has_duplicate_underscore: false,
                })
            } else if is_ident_start(ch) {
                Step::Continue(State::Identifier)
            } else if ch == '\\' {
                Step::Continue(State::MultilineStringLiteralLine)
            } else if ch == '(' {
                Step::End(Token::LParen)
            } else if ch == ')' {
                Step::End(Token::RParen)
            } else if ch == ',' {
                Step::End(Token::Comma)
            } else if ch == ':' {
                Step::End(Token::Colon)
            } else if ch == ';' {
                Step::End(Token::Semicolon)
            } else if ch == '?' {
                Step::End(Token::Question)
            } else if ch == '[' {
                Step::End(Token::LBracket)
            } else if ch == ']' {
                Step::End(Token::RBracket)
            } else if ch == '{' {
                Step::End(Token::LBrace)
            } else if ch == '}' {
                Step::End(Token::RBrace)
            } else if ch == '!' {
                Step::Continue(State::Bang)
            } else if ch == '%' {
                Step::Continue(State::Percent)
            } else if ch == '&' {
                Step::Continue(State::And)
            } else if ch == '*' {
                Step::Continue(State::Star)
            } else if ch == '+' {
                Step::Continue(State::Plus)
            } else if ch == '-' {
                Step::Continue(State::Minus)
            } else if ch == '.' {
                Step::Continue(State::Dot)
            } else if ch == '/' {
                Step::Continue(State::Slash)
            } else if ch == '<' {
                Step::Continue(State::LAngle)
            } else if ch == '=' {
                Step::Continue(State::Equal)
            } else if ch == '>' {
                Step::Continue(State::RAngle)
            } else if ch == '@' {
                Step::Continue(State::At)
            } else if ch == '^' {
                Step::Continue(State::Caret)
            } else if ch == '|' {
                Step::Continue(State::Or)
            } else {
                Step::Continue(State::Invalid)
            }
        },
    }
}

/// The character begins some recognised token.
pub open spec fn begins_token(ch: char) -> bool {
    start_transition(Some(ch)) != Step::Continue(State::Invalid)
}

/// An operator state that ends on `=` (giving `with_eq`) and else stops before
/// the current character (giving `alone`).
pub open spec fn eq_or(c: Option<char>, with_eq: Token, alone: Token) -> Step {
    if c == Some('=') {
        Step::End(with_eq)
    } else {
        Step::Abort(alone)
    }
}

/// Transitions of the operator states.
pub open spec fn operator_transition(st: State, c: Option<char>) -> Step {
    match st {
        State::Bang => eq_or(c, Token::BangEqual, Token::Bang),
        State::Percent => eq_or(c, Token::PercentEqual, Token::Percent),
        State::And => if c == Some('&') {
            Step::End(Token::And2)
        } else {
            eq_or(c, Token::AndEqual, Token::And)
        },
        State::Star => if c == Some('*') {
            Step::End(Token::Star2)
        } else if c == Some('%') {
            Step::Continue(State::StarPercent)
        } else {
            eq_or(c, Token::StarEqual, Token::Star)
        },
        State::StarPercent => eq_or(c, Token::StarPercentEqual, Token::StarPercent),
        State::Plus => if c == Some('+') {
            Step::End(Token::Plus2)
        } else if c == Some('%') {
            Step::Continue(State::PlusPercent)
        } else {
            eq_or(c, Token::PlusEqual, Token::Plus)
        },
        State::PlusPercent => eq_or(c, Token::PlusPercentEqual, Token::PlusPercent),
        State::Minus => if c == Some('%') {
            Step::Continue(State::MinusPercent)
        } else {
            eq_or(c, Token::MinusEqual, Token::Minus)
        },
        State::MinusPercent => eq_or(c, Token::MinusPercentEqual, Token::MinusPercent),
        State::Dot => if c == Some('.') {
            Step::Continue(State::Dot2)
        } else if c == Some('*') {
            Step::End(Token::DotStar)
        } else {
            Step::Abort(Token::Dot)
        },
        State::Dot2 => if c == Some('.') {
            Step::End(Token::Dot3)
        } else {
            Step::Abort(Token::Dot2)
        },
        State::Slash => if c == Some('/') {
            Step::Continue(State::Slash2)
        } else {
            eq_or(c, Token::SlashEqual, Token::Slash)
        },
        State::LAngle => if c == Some('<') {
            Step::Continue(State::LAngle2)
        } else {
            eq_or(c, Token::LAngleEqual, Token::LAngle)
        },
        State::LAngle2 => eq_or(c, Token::LAngle2Equal, Token::LAngle2),
        State::Equal => if c == Some('>') {
            Step::End(Token::EqualRAngle)
        } else {
            eq_or(c, Token::Equal2, Token::Equal)
        },
        State::RAngle => if c == Some('>') {
            Step::Continue(State::RAngle2)
        } else {
            eq_or(c, Token::RAngleEqual, Token::RAngle)
        },
        State::RAngle2 => eq_or(c, Token::RAngle2Equal, Token::RAngle2),
        State::Caret => eq_or(c, Token::CaretEqual, Token::Caret),
        State::Or => if c == Some('|') {
            Step::End(Token::Or2)
        } else {
            eq_or(c, Token::OrEqual, Token::Or)
        },
        _ => Step::Abort(Token::Invalid),
    }
}

/// Transitions of the states that run over a class of characters: invalid
/// text, whitespace, comments, multiline string lines, identifiers, builtins.
pub open spec fn run_transition(st: State, c: Option<char>) -> Step {
    match st {
        State::Invalid => match c {
            Some(ch) => if begins_token(ch) {
                Step::Abort(Token::Invalid)
            } else {
                Step::Continue(State::Invalid)
            },
            None => Step::Abort(Token::Invalid),
        },
        State::Whitespace => if is_some_and(c, |ch: char| is_space(ch)) {
            Step::Continue(State::Whitespace)
        } else {
            Step::Abort(Token::Whitespace)
        },
        State::Slash2 => match c {
            None => Step::Abort(Token::Comment),
            Some(ch) => if ch == '\n' {
                Step::Abort(Token::Comment)
            } else if ch == '/' {
                Step::Continue(State::DocComment)
            } else {
                Step::Continue(State::Comment)
            },
        },
        State::Comment => to_line_end(c, st, Token::Comment),
        State::DocComment => to_line_end(c, st, Token::DocComment),
        State::MultilineStringLiteralLine => to_line_end(c, st, Token::MultilineStringLiteralLine),
        State::At => match c {
            None => Step::Abort(Token::At),
            Some(ch) => if ch == '"' {
                Step::Continue(body(EscapeKind::RawIdentifier, true, false))
            } else if is_ident_start(ch) {
                Step::Continue(State::Builtin)
            } else {
                Step::Abort(Token::At)
            },
        },
        State::Identifier => if is_some_and(c, |ch: char| is_ident_char(ch)) {
            Step::Continue(State::Identifier)
        } else {
            Step::Abort(Token::Identifier)
        },
        State::Builtin => if is_some_and(c, |ch: char| is_ident_char(ch)) {
            Step::Continue(State::Builtin)
        } else {
            Step::Abort(Token::Builtin)
        },
        _ => Step::Abort(Token::Invalid),
    }
}

/// Stay in `st` up to the end of the line or of the input, then finish with `t`.
pub open spec fn to_line_end(c: Option<char>, st: State, t: Token) -> Step {
    match c {
        Some(ch) => if ch == '\n' {
            Step::Abort(t)
        } else {
            Step::Continue(st)
        },
        None => Step::Abort(t),
    }
}

/// The body state of a quoted literal.
pub open spec fn body(kind: EscapeKind, is_empty: bool, has_invalid_escape: bool) -> State {
    State::StringLiteral { is_empty, escape_kind: kind, has_invalid_escape }
}

/// The body state after a malformed escape: the current character is looked at again.
pub open spec fn bad_escape(kind: EscapeKind) -> Step {
    Step::Reprocess(body(kind, false, true))
}

pub open spec fn closing_quote(kind: EscapeKind) -> char {
    if kind == EscapeKind::CharacterLiteral {
        '\''
    } else {
        '"'
    }
}

/// The token of a quoted literal of the given kind.
pub open spec fn quoted_token(
    kind: EscapeKind,
    is_empty: bool,
    is_unterminated: bool,
    has_invalid_escape: bool,
) -> Token {
    match kind {
        EscapeKind::RawIdentifier => Token::RawIdentifier { is_unterminated, has_invalid_escape },
        EscapeKind::StringLiteral => Token::StringLiteral { is_unterminated, has_invalid_escape },
        EscapeKind::CharacterLiteral => Token::CharacterLiteral {
            is_empty,
            is_unterminated,
            has_invalid_escape,
        },
    }
}

/// Transitions of quoted literals (strings, characters, raw identifiers) and their escapes.
pub open spec fn quoted_transition(st: State, c: Option<char>) -> Step {
    match st {
        State::StringLiteral { is_empty, escape_kind: k, has_invalid_escape: bad } => match c {
            None => Step::Abort(quoted_token(k, is_empty, true, bad)),
            Some(ch) => if ch == '\\' {
                Step::Continue(State::StringEscape { is_empty, escape_kind: k, has_invalid_escape: bad })
            } else if ch == closing_quote(k) {
                Step::End(quoted_token(k, is_empty, false, bad))
            } else if ch == '\n' {
                Step::Abort(quoted_token(k, is_empty, true, bad))
            } else {
                Step::Continue(body(k, false, bad))
            },
        },
        State::StringEscape { is_empty, escape_kind: k, has_invalid_escape: bad } => {
            if is_some_and(c, |ch: char| is_simple_escape(ch)) {
                Step::Continue(body(k, false, bad))
            } else if c == Some('x') {
                Step::Continue(State::StringEscapeHex1 { escape_kind: k, has_invalid_escape: bad })
            } else if c == Some('u') {
                Step::Continue(State::StringEscapeUnicode1 { escape_kind: k, has_invalid_escape: bad })
            } else {
                Step::Reprocess(body(k, is_empty, true))
            }
        },
        State::StringEscapeHex1 { escape_kind: k, has_invalid_escape: bad } => {
            if is_some_and(c, |ch: char| is_hex_digit(ch)) {
                Step::Continue(State::StringEscapeHex2 { escape_kind: k, has_invalid_escape: bad })
            } else if is_some_and(c, |ch: char| is_letter(ch)) {
                Step::Continue(State::StringEscapeHex2 { escape_kind: k, has_invalid_escape: true })
            } else {
                bad_escape(k)
            }
        },
        State::StringEscapeHex2 { escape_kind: k, has_invalid_escape: bad } => {
            if is_some_and(c, |ch: char| is_hex_digit(ch)) {
                Step::Continue(body(k, false, bad))
            } else if is_some_and(c, |ch: char| is_letter(ch)) {
                Step::Continue(body(k, false, true))
            } else {
                bad_escape(k)
            }
        },
        State::StringEscapeUnicode1 { escape_kind: k, has_invalid_escape: bad } => {
            if c == Some('{') {
                Step::Continue(State::StringEscapeUnicode2 { escape_kind: k, has_invalid_escape: bad })
            } else {
                bad_escape(k)
            }
        },
        State::StringEscapeUnicode2 { escape_kind: k, has_invalid_escape: bad } => {
            if is_some_and(c, |ch: char| is_hex_digit(ch)) {
                Step::Continue(State::StringEscapeUnicode3 { escape_kind: k, has_invalid_escape: bad })
            } else {
                bad_escape(k)
            }
        },
        State::StringEscapeUnicode3 { escape_kind: k, has_invalid_escape: bad } => {
            if is_some_and(c, |ch: char| is_hex_digit(ch)) {
                Step::Continue(State::StringEscapeUnicode3 { escape_kind: k, has_invalid_escape: bad })
            } else if c == Some('}') {
                Step::Continue(body(k, false, bad))
            } else {
                bad_escape(k)
            }
        },
        _ => Step::Abort(Token::Invalid),
    }
}

pub open spec fn int_token(base: IntegerBase, unterminated: bool, invalid: bool, dup: bool) -> Token {
    Token::IntegerLiteral {
        base,
        is_unterminated: unterminated,
        has_invalid_characters: invalid,
        has_duplicate_underscore: dup,
    }
}

pub open spec fn float_token(base: FloatBase, unterminated: bool, invalid: bool, dup: bool) -> Token {
    Token::FloatLiteral {
        base,
        is_unterminated: unterminated,
        has_invalid_characters: invalid,
        has_duplicate_underscore: dup,
    }
}

/// The digit run of a binary or octal integer, with `digit` the class of its
/// digits; `under` tells whether the previous character was an underscore.
/// Any other letter or decimal digit is taken and flagged.
pub open spec fn radix_transition(
    c: Option<char>,
    base: IntegerBase,
    digit: spec_fn(char) -> bool,
    under: bool,
    unterminated: bool,
    invalid: bool,
    dup: bool,
) -> Step {
    if is_some_and(c, digit) {
        Step::Continue(radix_state(base, false, false, invalid, dup))
    } else if is_some_and(c, |ch: char| is_alnum(ch)) {
        Step::Continue(radix_state(base, false, false, true, dup))
    } else if c == Some('_') {
        if under {
            Step::Continue(radix_state(base, false, true, invalid, true))
        } else {
            Step::Continue(radix_state(base, true, false, invalid, dup))
        }
    } else {
        Step::Abort(int_token(base, under || unterminated, invalid, dup))
    }
}

/// The binary or octal state for the given flags; `under` picks the state after an underscore.
pub open spec fn radix_state(
    base: IntegerBase,
    under: bool,
    unterminated: bool,
    invalid: bool,
    dup: bool,
) -> State {
    if base == IntegerBase::Binary {
        if under {
            State::NumberBinaryUnderscore { has_invalid_characters: invalid, has_duplicate_underscore: dup }
        } else {
            State::NumberBinary {
                is_unterminated: unterminated,
                has_invalid_characters: invalid,
                has_duplicate_underscore: dup,
            }
        }
    } else {
        if under {
            State::NumberOctalUnderscore { has_invalid_characters: invalid, has_duplicate_underscore: dup }
        } else {
            State::NumberOctal {
                is_unterminated: unterminated,
                has_invalid_characters: invalid,
                has_duplicate_underscore: dup,
            }
        }
    }
}

/// The state that reads an exponent's optional sign: a sign is taken, any
/// other character is looked at again in `next`.
pub open spec fn sign_transition(c: Option<char>, next: State) -> Step {
    if is_either(c, '+', '-') {
        Step::Continue(next)
    } else {
        Step::Reprocess(next)
    }
}

/// The digits of a hexadecimal fraction, unterminated so far when `u`.
pub open spec fn hex_dot_transition(c: Option<char>, u: bool, i: bool, d: bool) -> Step {
    if is_some_and(c, |ch: char| is_hex_digit(ch)) {
        Step::Continue(State::NumberHexDot { is_unterminated: false, has_invalid_characters: i, has_duplicate_underscore: d })
    } else if c == Some('_') {
        Step::Continue(State::NumberHexDotUnderscore { has_invalid_characters: i, has_duplicate_underscore: d })
    } else if is_either(c, 'p', 'P') {
        Step::Continue(State::NumberHexExponent { has_invalid_characters: i, has_duplicate_underscore: d })
    } else {
        Step::Abort(float_token(FloatBase::Hexadecimal, u, i, d))
    }
}

/// The digits of a decimal fraction, unterminated so far when `u`.
pub open spec fn dot_transition(c: Option<char>, u: bool, i: bool, d: bool) -> Step {
    if is_some_and(c, |ch: char| is_dec_digit(ch)) {
        Step::Continue(State::NumberDot { is_unterminated: false, has_invalid_characters: i, has_duplicate_underscore: d })
    } else if c == Some('_') {
        Step::Continue(State::NumberDotUnderscore { has_invalid_characters: i, has_duplicate_underscore: d })
    } else if is_either(c, 'e', 'E') {
        Step::Continue(State::NumberExponent { has_invalid_characters: i, has_duplicate_underscore: d })
    } else {
        Step::Abort(float_token(FloatBase::Decimal, u, i, d))
    }
}

/// Transitions of numeric literals.
pub open spec fn number_transition(st: State, c: Option<char>) -> Step {
    match st {
        State::Zero => if c == Some('b') {
            Step::Continue(radix_state(IntegerBase::Binary, false, true, false, false))
        } else if c == Some('o') {
            Step::Continue(radix_state(IntegerBase::Octal, false, true, false, false))
        } else if c == Some('x') {
            Step::Continue(State::NumberHex { is_unterminated: true, has_invalid_characters: false, has_duplicate_underscore: false })
        } else {
            Step::Reprocess(State::Number {
                is_unterminated: false,
                has_invalid_characters: false,
                has_duplicate_underscore: false,
            })
        },
        State::Number { is_unterminated: u, has_invalid_characters: i, has_duplicate_underscore: d } => {
            if is_some_and(c, |ch: char| is_dec_digit(ch)) {
                Step::Continue(State::Number { is_unterminated: false, has_invalid_characters: i, has_duplicate_underscore: d })
            } else if c == Some('_') {
                Step::Continue(State::NumberUnderscore { has_invalid_characters: i, has_duplicate_underscore: d })
            } else if c == Some('.') {
                Step::Continue(State::NumberDotStart { has_invalid_characters: i, has_duplicate_underscore: d })
            } else if is_either(c, 'e', 'E') {
                Step::Continue(State::NumberExponent { has_invalid_characters: i, has_duplicate_underscore: d })
            } else if is_either(c, 'p', 'P') {
                Step::Continue(State::NumberHexExponent { has_invalid_characters: i, has_duplicate_underscore: d })
            } else if is_some_and(c, |ch: char| is_letter(ch)) {
                Step::Continue(State::Number { is_unterminated: false, has_invalid_characters: true, has_duplicate_underscore: d })
            } else {
                Step::Abort(int_token(IntegerBase::Decimal, u, i, d))
            }
        },
        State::NumberUnderscore { has_invalid_characters: i, has_duplicate_underscore: d } => {
            if is_some_and(c, |ch: char| is_dec_digit(ch)) {
                Step::Continue(State::Number { is_unterminated: false, has_invalid_characters: i, has_duplicate_underscore: d })
            } else if is_some_and(c, |ch: char| is_letter(ch)) {
                Step::Continue(State::Number { is_unterminated: false, has_invalid_characters: true, has_duplicate_underscore: d })
            } else if c == Some('_') {
                Step::Continue(State::Number { is_unterminated: true, has_invalid_characters: i, has_duplicate_underscore: true })
            } else {
                Step::Abort(int_token(IntegerBase::Decimal, true, i, d))
            }
        },
        State::NumberExponent { has_invalid_characters: i, has_duplicate_underscore: d } => sign_transition(
            c,
            State::NumberExponentSign { is_unterminated: true, has_invalid_characters: i, has_duplicate_underscore: d },
        ),
        State::NumberExponentSign { is_unterminated: u, has_invalid_characters: i, has_duplicate_underscore: d } => {
            if is_some_and(c, |ch: char| is_dec_digit(ch)) {
                Step::Continue(State::NumberExponentSign { is_unterminated: false, has_invalid_characters: i, has_duplicate_underscore: d })
            } else if is_some_and(c, |ch: char| is_letter(ch)) {
                Step::Continue(State::NumberExponentSign { is_unterminated: false, has_invalid_characters: true, has_duplicate_underscore: d })
            } else if c == Some('_') {
                Step::Continue(State::NumberExponentSignUnderscore { has_invalid_characters: i, has_duplicate_underscore: d })
            } else {
                Step::Abort(float_token(FloatBase::Decimal, u, i, d))
            }
        },
        State::NumberExponentSignUnderscore { has_invalid_characters: i, has_duplicate_underscore: d } => {
            if is_some_and(c, |ch: char| is_dec_digit(ch)) {
                Step::Continue(State::NumberExponentSign { is_unterminated: false, has_invalid_characters: i, has_duplicate_underscore: d })
            } else if is_some_and(c, |ch: char| is_letter(ch)) {
                Step::Continue(State::NumberExponentSign { is_unterminated: false, has_invalid_characters: true, has_duplicate_underscore: d })
            } else if c == Some('_') {
                Step::Continue(State::NumberExponentSign { is_unterminated: true, has_invalid_characters: i, has_duplicate_underscore: true })
            } else {
                Step::Abort(float_token(FloatBase::Decimal, true, i, d))
            }
        },
        State::NumberBinary { is_unterminated: u, has_invalid_characters: i, has_duplicate_underscore: d } =>
            radix_transition(c, IntegerBase::Binary, |ch: char| is_bin_digit(ch), false, u, i, d),
        State::NumberBinaryUnderscore { has_invalid_characters: i, has_duplicate_underscore: d } =>
            radix_transition(c, IntegerBase::Binary, |ch: char| is_bin_digit(ch), true, true, i, d),
        State::NumberOctal { is_unterminated: u, has_invalid_characters: i, has_duplicate_underscore: d } =>
            radix_transition(c, IntegerBase::Octal, |ch: char| is_oct_digit(ch), false, u, i, d),
        State::NumberOctalUnderscore { has_invalid_characters: i, has_duplicate_underscore: d } =>
            radix_transition(c, IntegerBase::Octal, |ch: char| is_oct_digit(ch), true, true, i, d),
        State::NumberHex { is_unterminated: u, has_invalid_characters: i, has_duplicate_underscore: d } => {
            if is_some_and(c, |ch: char| is_hex_digit(ch)) {
                Step::Continue(State::NumberHex { is_unterminated: false, has_invalid_characters: i, has_duplicate_underscore: d })
            } else if c == Some('_') {
                Step::Continue(State::NumberHexUnderscore { has_invalid_characters: i, has_duplicate_underscore: d })
            } else if c == Some('.') {
                Step::Continue(State::NumberHexDotStart { has_invalid_characters: i, has_duplicate_underscore: d })
            } else if is_either(c, 'p', 'P') {
                Step::Continue(State::NumberHexExponent { has_invalid_characters: i, has_duplicate_underscore: d })
            } else if is_some_and(c, |ch: char| is_letter(ch)) {
                Step::Continue(State::NumberHex { is_unterminated: false, has_invalid_characters: true, has_duplicate_underscore: d })
            } else {
                Step::Abort(int_token(IntegerBase::Hexadecimal, u, i, d))
            }
        },
        // A second underscore here clears the duplicate flag, unlike every other digit run.
        State::NumberHexUnderscore { has_invalid_characters: i, has_duplicate_underscore: d } => {
            if is_some_and(c, |ch: char| is_hex_digit(ch)) {
                Step::Continue(State::NumberHex { is_unterminated: false, has_invalid_characters: i, has_duplicate_underscore: d })
            } else if is_some_and(c, |ch: char| is_letter(ch)) {
                Step::Continue(State::NumberHex { is_unterminated: false, has_invalid_characters: true, has_duplicate_underscore: d })
            } else if c == Some('_') {
                Step::Continue(State::NumberHex { is_unterminated: true, has_invalid_characters: i, has_duplicate_underscore: false })
            } else {
                Step::Abort(int_token(IntegerBase::Hexadecimal, true, i, d))
            }
        },
        // A second dot right after the first: the first one began `..`, not a fraction.
        State::NumberHexDotStart { has_invalid_characters: i, has_duplicate_underscore: d } => {
            if c == Some('.') {
                Step::Backtrack
            } else {
                hex_dot_transition(c, true, i, d)
            }
        },
        State::NumberHexDot { is_unterminated: u, has_invalid_characters: i, has_duplicate_underscore: d } =>
            hex_dot_transition(c, u, i, d),
        State::NumberHexDotUnderscore { has_invalid_characters: i, has_duplicate_underscore: d } => {
            if is_some_and(c, |ch: char| is_hex_digit(ch)) {
                Step::Continue(State::NumberHexDot { is_unterminated: false, has_invalid_characters: i, has_duplicate_underscore: d })
            } else if c == Some('_') {
                Step::Continue(State::NumberHexDot { is_unterminated: true, has_invalid_characters: i, has_duplicate_underscore: true })
            } else {
                Step::Abort(float_token(FloatBase::Hexadecimal, true, i, d))
            }
        },
        State::NumberHexExponent { has_invalid_characters: i, has_duplicate_underscore: d } => sign_transition(
            c,
            State::NumberHexExponentSign { is_unterminated: true, has_invalid_characters: i, has_duplicate_underscore: d },
        ),
        State::NumberHexExponentSign { is_unterminated: u, has_invalid_characters: i, has_duplicate_underscore: d } => {
            if is_some_and(c, |ch: char| is_hex_digit(ch)) {
                Step::Continue(State::NumberHexExponentSign { is_unterminated: false, has_invalid_characters: i, has_duplicate_underscore: d })
            } else if c == Some('_') {
                Step::Continue(State::NumberHexExponentSignUnderscore { has_invalid_characters: i, has_duplicate_underscore: d })
            } else {
                Step::Abort(float_token(FloatBase::Hexadecimal, u, i, d))
            }
        },
        State::NumberHexExponentSignUnderscore { has_invalid_characters: i, has_duplicate_underscore: d } => {
            if is_some_and(c, |ch: char| is_hex_digit(ch)) {
                Step::Continue(State::NumberHexExponentSign { is_unterminated: false, has_invalid_characters: i, has_duplicate_underscore: d })
            } else if c == Some('_') {
                Step::Continue(State::NumberHexExponentSign { is_unterminated: true, has_invalid_characters: i, has_duplicate_underscore: true })
            } else {
                Step::Abort(float_token(FloatBase::Hexadecimal, true, i, d))
            }
        },
        // A second dot right after the first: the first one began `..`, not a fraction.
        State::NumberDotStart { has_invalid_characters: i, has_duplicate_underscore: d } => {
            if c == Some('.') {
                Step::Backtrack
            } else {
                dot_transition(c, true, i, d)
            }
        },
        State::NumberDot { is_unterminated: u, has_invalid_characters: i, has_duplicate_underscore: d } =>
            dot_transition(c, u, i, d),
        State::NumberDotUnderscore { has_invalid_characters: i, has_duplicate_underscore: d } => {
            if is_some_and(c, |ch: char| is_dec_digit(ch)) {
                Step::Continue(State::NumberDot { is_unterminated: false, has_invalid_characters: i, has_duplicate_underscore: d })
            } else if is_some_and(c, |ch: char| is_letter(ch)) {
                Step::Continue(State::NumberDot { is_unterminated: false, has_invalid_characters: true, has_duplicate_underscore: d })
            } else if c == Some('_') {
                Step::Continue(State::NumberDot { is_unterminated: true, has_invalid_characters: i, has_duplicate_underscore: true })
            } else {
                Step::Abort(float_token(FloatBase::Decimal, true, i, d))
            }
        },
        _ => Step::Abort(Token::Invalid),
    }
}

pub open spec fn is_operator_state(st: State) -> bool {
    match st {
        State::Bang | State::Percent | State::And | State::Star | State::StarPercent
        | State::Plus | State::PlusPercent | State::Minus | State::MinusPercent | State::Dot
        | State::Dot2 | State::Slash | State::LAngle | State::LAngle2 | State::Equal
        | State::RAngle | State::RAngle2 | State::Caret | State::Or => true,
        _ => false,
    }
}

pub open spec fn is_run_state(st: State) -> bool {
    match st {
        State::Invalid | State::Whitespace | State::Slash2 | State::Comment
        | State::DocComment | State::MultilineStringLiteralLine | State::At | State::Identifier
        | State::Builtin => true,
        _ => false,
    }
}

pub open spec fn is_quoted_state(st: State) -> bool {
    match st {
        State::StringLiteral { .. } | State::StringEscape { .. }
        | State::StringEscapeHex1 { .. } | State::StringEscapeHex2 { .. }
        | State::StringEscapeUnicode1 { .. } | State::StringEscapeUnicode2 { .. }
        | State::StringEscapeUnicode3 { .. } => true,
        _ => false,
    }
}

/// The transition function: one state and the next character, or `None` at
/// the end of the input, give one signal.
#[verifier::opaque]
pub open spec fn transition(st: State, c: Option<char>) -> Step {
    if st == State::Start {
        start_transition(c)
    } else if is_operator_state(st) {
        operator_transition(st, c)
    } else if is_run_state(st) {
        run_transition(st, c)
    } else if is_quoted_state(st) {
        quoted_transition(st, c)
    } else {
        number_transition(st, c)
    }
}

// ---------------------------------------------------------------------------
// The executable table
// ---------------------------------------------------------------------------

fn step_start(c: Option<char>) -> (r: Step)
    ensures
        r == start_transition(c),
{
    match c {
        Some(' ') | Some('\t') | Some('\r') | Some('\n') => Step::Continue(State::Whitespace),
        Some('!') => Step::Continue(State::Bang),
        Some('"') => Step::Continue(State::StringLiteral {
            is_empty: true,
            escape_kind: EscapeKind::StringLiteral,
            has_invalid_escape: false,
        }),
        Some('%') => Step::Continue(State::Percent),
        Some('&') => Step::Continue(State::And),
        Some('\'') => Step::Continue(State::StringLiteral {
            is_empty: true,
            escape_kind: EscapeKind::CharacterLiteral,
            has_invalid_escape: false,
        }),
        Some('(') => Step::End(Token::LParen),
        Some(')') => Step::End(Token::RParen),
        Some('*') => Step::Continue(State::Star),
        Some('+') => Step::Continue(State::Plus),
        Some(',') => Step::End(Token::Comma),
        Some('-') => Step::Continue(State::Minus),
        Some('.') => Step::Continue(State::Dot),
        Some('/') => Step::Continue(State::Slash),
        Some('0') => Step::Continue(State::Zero),
        Some('1'..='9') => Step::Continue(State::Number {
            is_unterminated: false,
            has_invalid_characters: false,
            has_duplicate_underscore: false,
        }),
        Some(':') => Step::End(Token::Colon),
        Some(';') => Step::End(Token::Semicolon),
        Some('<') => Step::Continue(State::LAngle),
        Some('=') => Step::Continue(State::Equal),
        Some('>') => Step::Continue(State::RAngle),
        Some('?') => Step::End(Token::Question),
        Some('@') => Step::Continue(State::At),
        Some('A'..='Z') | Some('a'..='z') | Some('_') => Step::Continue(State::Identifier),
        Some('[') => Step::End(Token::LBracket),
        Some('\\') => Step::Continue(State::MultilineStringLiteralLine),
        Some(']') => Step::End(Token::RBracket),
        Some('^') => Step::Continue(State::Caret),
        Some('{') => Step::End(Token::LBrace),
        Some('|') => Step::Continue(State::Or),
        Some('}') => Step::End(Token::RBrace),
        Some(_) => Step::Continue(State::Invalid),
        None => Step::Abort(Token::Invalid),
    }
}

fn step_operator(state: State, c: Option<char>) -> (r: Step)
    requires
        is_operator_state(state),
    ensures
        r == operator_transition(state, c),
{
    match state {
        State::Bang => match c {
            Some('=') => Step::End(Token::BangEqual),
            Some(_) | None => Step::Abort(Token::Bang),
        },
        State::Percent => match c {
            Some('=') => Step::End(Token::PercentEqual),
            Some(_) | None => Step::Abort(Token::Percent),
        },
        State::And => match c {
            Some('&') => Step::End(Token::And2),
            Some('=') => Step::End(Token::AndEqual),
            Some(_) | None => Step::Abort(Token::And),
        },
        State::Star => match c {
            Some('*') => Step::End(Token::Star2),
            Some('=') => Step::End(Token::StarEqual),
            Some('%') => Step::Continue(State::StarPercent),
            Some(_) | None => Step::Abort(Token::Star),
        },
        State::StarPercent => match c {
            Some('=') => Step::End(Token::StarPercentEqual),
            Some(_) | None => Step::Abort(Token::StarPercent),
        },
        State::Plus => match c {
            Some('+') => Step::End(Token::Plus2),
            Some('=') => Step::End(Token::PlusEqual),
            Some('%') => Step::Continue(State::PlusPercent),
            Some(_) | None => Step::Abort(Token::Plus),
        },
        State::PlusPercent => match c {
            Some('=') => Step::End(Token::PlusPercentEqual),
            Some(_) | None => Step::Abort(Token::PlusPercent),
        },
        State::Minus => match c {
            Some('=') => Step::End(Token::MinusEqual),
            Some('%') => Step::Continue(State::MinusPercent),
            Some(_) | None => Step::Abort(Token::Minus),
        },
        State::MinusPercent => match c {
            Some('=') => Step::End(Token::MinusPercentEqual),
            Some(_) | None => Step::Abort(Token::MinusPercent),
        },
        State::Dot => match c {
            Some('.') => Step::Continue(State::Dot2),
            Some('*') => Step::End(Token::DotStar),
            Some(_) | None => Step::Abort(Token::Dot),
        },
        State::Dot2 => match c {
            Some('.') => Step::End(Token::Dot3),
            Some(_) | None => Step::Abort(Token::Dot2),
        },
        State::Slash => match c {
            Some('/') => Step::Continue(State::Slash2),
            Some('=') => Step::End(Token::SlashEqual),
            Some(_) | None => Step::Abort(Token::Slash),
        },
        State::LAngle => match c {
            Some('=') => Step::End(Token::LAngleEqual),
            Some('<') => Step::Continue(State::LAngle2),
            Some(_) | None => Step::Abort(Token::LAngle),
        },
        State::LAngle2 => match c {
            Some('=') => Step::End(Token::LAngle2Equal),
            Some(_) | None => Step::Abort(Token::LAngle2),
        },
        State::Equal => match c {
            Some('=') => Step::End(Token::Equal2),
            Some('>') => Step::End(Token::EqualRAngle),
            Some(_) | None => Step::Abort(Token::Equal),
        },
        State::RAngle => match c {
            Some('=') => Step::End(Token::RAngleEqual),
            Some('>') => Step::Continue(State::RAngle2),
            Some(_) | None => Step::Abort(Token::RAngle),
        },
        State::RAngle2 => match c {
            Some('=') => Step::End(Token::RAngle2Equal),
            Some(_) | None => Step::Abort(Token::RAngle2),
        },
        State::Caret => match c {
            Some('=') => Step::End(Token::CaretEqual),
            Some(_) | None => Step::Abort(Token::Caret),
        },
        _ => match c {
            Some('|') => Step::End(Token::Or2),
            Some('=') => Step::End(Token::OrEqual),
            Some(_) | None => Step::Abort(Token::Or),
        },
    }
}

fn step_run(state: State, c: Option<char>) -> (r: Step)
    requires
        is_run_state(state),
    ensures
        r == run_transition(state, c),
{
    match state {
        State::Invalid => match step_start(c) {
            Step::Continue(State::Invalid) | Step::Abort(Token::Invalid) => match c {
                Some(_) => Step::Continue(State::Invalid),
                None => Step::Abort(Token::Invalid),
            },
            _ => Step::Abort(Token::Invalid),
        },
        State::Whitespace => match c {
            Some(' ') | Some('\t') | Some('\r') | Some('\n') => Step::Continue(State::Whitespace),
            Some(_) | None => Step::Abort(Token::Whitespace),
        },
        State::Slash2 => match c {
            Some('\n') | None => Step::Abort(Token::Comment),
            Some('/') => Step::Continue(State::DocComment),
            Some(_) => Step::Continue(State::Comment),
        },
        State::At => match c {
            Some('"') => Step::Continue(State::StringLiteral {
                escape_kind: EscapeKind::RawIdentifier,
                has_invalid_escape: false,
                is_empty: true,
            }),
            Some('A'..='Z') | Some('a'..='z') | Some('_') => Step::Continue(State::Builtin),
            Some(_) | None => Step::Abort(Token::At),
        },
        State::Comment => match c {
            Some('\n') | None => Step::Abort(Token::Comment),
            Some(_) => Step::Continue(State::Comment),
        },
        State::DocComment => match c {
            Some('\n') | None => Step::Abort(Token::DocComment),
            Some(_) => Step::Continue(State::DocComment),
        },
        State::MultilineStringLiteralLine => match c {
            Some('\n') | None => Step::Abort(Token::MultilineStringLiteralLine),
            Some(_) => Step::Continue(State::MultilineStringLiteralLine),
        },
        State::Identifier => match c {
            Some('0'..='9') | Some('A'..='Z') | Some('a'..='z') | Some('_') => {
                Step::Continue(State::Identifier)
            },
            Some(_) | None => Step::Abort(Token::Identifier),
        },
        _ => match c {
            Some('0'..='9') | Some('A'..='Z') | Some('a'..='z') | Some('_') => {
                Step::Continue(State::Builtin)
            },
            Some(_) | None => Step::Abort(Token::Builtin),
        },
    }
}

/// The token that closes a quoted literal of the given kind.
fn quoted(kind: EscapeKind, is_empty: bool, is_unterminated: bool, has_invalid_escape: bool) -> (r:
    Token)
    ensures
        r == quoted_token(kind, is_empty, is_unterminated, has_invalid_escape),
{
    match kind {
        EscapeKind::RawIdentifier => Token::RawIdentifier { is_unterminated, has_invalid_escape },
        EscapeKind::StringLiteral => Token::StringLiteral { is_unterminated, has_invalid_escape },
        EscapeKind::CharacterLiteral => Token::CharacterLiteral {
            is_empty,
            is_unterminated,
            has_invalid_escape,
        },
    }
}

fn step_quoted(state: State, c: Option<char>) -> (r: Step)
    requires
        is_quoted_state(state),
    ensures
        r == quoted_transition(state, c),
{
    match state {
        State::StringLiteral { is_empty, escape_kind, has_invalid_escape } => match c {
            Some('\\') => Step::Continue(State::StringEscape {
                is_empty,
                escape_kind,
                has_invalid_escape,
            }),
            Some('"') if escape_kind != EscapeKind::CharacterLiteral => Step::End(
                quoted(escape_kind, is_empty, false, has_invalid_escape),
            ),
            Some('\'') if escape_kind == EscapeKind::CharacterLiteral => Step::End(
                quoted(escape_kind, is_empty, false, has_invalid_escape),
            ),
            Some('\n') | None => Step::Abort(quoted(escape_kind, is_empty, true, has_invalid_escape)),
            Some(_) => Step::Continue(State::StringLiteral {
                is_empty: false,
                escape_kind,
                has_invalid_escape,
            }),
        },
        State::StringEscape { is_empty, escape_kind, has_invalid_escape } => match c {
            Some('n') | Some('r') | Some('\\') | Some('t') | Some('\'') | Some('"') => {
                Step::Continue(State::StringLiteral { is_empty: false, escape_kind, has_invalid_escape })
            },
            Some('x') => Step::Continue(State::StringEscapeHex1 { escape_kind, has_invalid_escape }),
            Some('u') => Step::Continue(State::StringEscapeUnicode1 { escape_kind, has_invalid_escape }),
            Some(_) | None => Step::Reprocess(State::StringLiteral {
                is_empty,
                escape_kind,
                has_invalid_escape: true,
            }),
        },
        State::StringEscapeHex1 { escape_kind, has_invalid_escape } => match c {
            Some('0'..='9') | Some('A'..='F') | Some('a'..='f') => {
                Step::Continue(State::StringEscapeHex2 { escape_kind, has_invalid_escape })
            },
            Some('G'..='Z') | Some('g'..='z') => Step::Continue(State::StringEscapeHex2 {
                escape_kind,
                has_invalid_escape: true,
            }),
            Some(_) | None => Step::Reprocess(State::StringLiteral {
                is_empty: false,
                escape_kind,
                has_invalid_escape: true,
            }),
        },
        State::StringEscapeHex2 { escape_kind, has_invalid_escape } => match c {
            Some('0'..='9') | Some('A'..='F') | Some('a'..='f') => {
                Step::Continue(State::StringLiteral { is_empty: false, escape_kind, has_invalid_escape })
            },
            Some('G'..='Z') | Some('g'..='z') => Step::Continue(State::StringLiteral {
                is_empty: false,
                escape_kind,
                has_invalid_escape: true,
            }),
            Some(_) | None => Step::Reprocess(State::StringLiteral {
                is_empty: false,
                escape_kind,
                has_invalid_escape: true,
            }),
        },
        State::StringEscapeUnicode1 { escape_kind, has_invalid_escape } => match c {
            Some('{') => Step::Continue(State::StringEscapeUnicode2 { escape_kind, has_invalid_escape }),
            Some(_) | None => Step::Reprocess(State::StringLiteral {
                is_empty: false,
                escape_kind,
                has_invalid_escape: true,
            }),
        },
        State::StringEscapeUnicode2 { escape_kind, has_invalid_escape } => match c {
            Some('0'..='9') | Some('A'..='F') | Some('a'..='f') => {
                Step::Continue(State::StringEscapeUnicode3 { escape_kind, has_invalid_escape })
            },
            Some(_) | None => Step::Reprocess(State::StringLiteral {
                is_empty: false,
                escape_kind,
                has_invalid_escape: true,
            }),
        },
        State::StringEscapeUnicode3 { escape_kind, has_invalid_escape } => match c {
            Some('0'..='9') | Some('A'..='F') | Some('a'..='f') => {
                Step::Continue(State::StringEscapeUnicode3 { escape_kind, has_invalid_escape })
            },
            Some('}') => Step::Continue(State::StringLiteral {
                is_empty: false,
                escape_kind,
                has_invalid_escape,
            }),
            Some(_) | None => Step::Reprocess(State::StringLiteral {
                is_empty: false,
                escape_kind,
                has_invalid_escape: true,
            }),
        },
        _ => Step::Abort(Token::Invalid),
    }
}

fn step_hex_dot(
    c: Option<char>,
    is_unterminated: bool,
    has_invalid_characters: bool,
    has_duplicate_underscore: bool,
) -> (r: Step)
    ensures
        r == hex_dot_transition(c, is_unterminated, has_invalid_characters, has_duplicate_underscore),
{
    match c {
        Some('0'..='9') | Some('A'..='F') | Some('a'..='f') => {
            Step::Continue(State::NumberHexDot {
                is_unterminated: false,
                has_invalid_characters,
                has_duplicate_underscore,
            })
        },
        Some('_') => Step::Continue(State::NumberHexDotUnderscore {
            has_invalid_characters,
            has_duplicate_underscore,
        }),
        Some('p') | Some('P') => Step::Continue(State::NumberHexExponent {
            has_invalid_characters,
            has_duplicate_underscore,
        }),
        Some(_) | None => Step::Abort(Token::FloatLiteral {
            base: FloatBase::Hexadecimal,
            is_unterminated,
            has_invalid_characters,
            has_duplicate_underscore,
        }),
    }
}

fn step_dot(
    c: Option<char>,
    is_unterminated: bool,
    has_invalid_characters: bool,
    has_duplicate_underscore: bool,
) -> (r: Step)
    ensures
        r == dot_transition(c, is_unterminated, has_invalid_characters, has_duplicate_underscore),
{
    match c {
        Some('0'..='9') => Step::Continue(State::NumberDot {
            is_unterminated: false,
            has_invalid_characters,
            has_duplicate_underscore,
        }),
        Some('_') => Step::Continue(State::NumberDotUnderscore {
            has_invalid_characters,
            has_duplicate_underscore,
        }),
        Some('e') | Some('E') => Step::Continue(State::NumberExponent {
            has_invalid_characters,
            has_duplicate_underscore,
        }),
        Some(_) | None => Step::Abort(Token::FloatLiteral {
            base: FloatBase::Decimal,
            is_unterminated,
            has_invalid_characters,
            has_duplicate_underscore,
        }),
    }
}

fn step_number(state: State, c: Option<char>) -> (r: Step)
    requires
        state != State::Start,
        !is_operator_state(state),
        !is_run_state(state),
        !is_quoted_state(state),
    ensures
        r == number_transition(state, c),
{
    match state {
        State::Zero => match c {
            Some('b') => Step::Continue(State::NumberBinary {
                is_unterminated: true,
                has_invalid_characters: false,
                has_duplicate_underscore: false,
            }),
            Some('o') => Step::Continue(State::NumberOctal {
                is_unterminated: true,
                has_invalid_characters: false,
                has_duplicate_underscore: false,
            }),
            Some('x') => Step::Continue(State::NumberHex {
                is_unterminated: true,
                has_invalid_characters: false,
                has_duplicate_underscore: false,
            }),
            Some(_) | None => Step::Reprocess(State::Number {
                is_unterminated: false,
                has_invalid_characters: false,
                has_duplicate_underscore: false,
            }),
        },
        State::Number { is_unterminated, has_invalid_characters, has_duplicate_underscore } => {
            match c {
                Some('0'..='9') => Step::Continue(State::Number {
                    is_unterminated: false,
                    has_invalid_characters,
                    has_duplicate_underscore,
                }),
                Some('A'..='D') | Some('a'..='d') | Some('F'..='O') | Some('f'..='o')
                | Some('Q'..='Z') | Some('q'..='z') => Step::Continue(State::Number {
                    is_unterminated: false,
                    has_invalid_characters: true,
                    has_duplicate_underscore,
                }),
                Some('_') => Step::Continue(State::NumberUnderscore {
                    has_invalid_characters,
                    has_duplicate_underscore,
                }),
                Some('.') => Step::Continue(State::NumberDotStart {
                    has_invalid_characters,
                    has_duplicate_underscore,
                }),
                Some('e') | Some('E') => Step::Continue(State::NumberExponent {
                    has_invalid_characters,
                    has_duplicate_underscore,
                }),
                Some('p') | Some('P') => Step::Continue(State::NumberHexExponent {
                    has_invalid_characters,
                    has_duplicate_underscore,
                }),
                Some(_) | None => Step::Abort(Token::IntegerLiteral {
                    base: IntegerBase::Decimal,
                    is_unterminated,
                    has_invalid_characters,
                    has_duplicate_underscore,
                }),
            }
        },
        State::NumberUnderscore { has_invalid_characters, has_duplicate_underscore } => match c {
            Some('0'..='9') => Step::Continue(State::Number {
                is_unterminated: false,
                has_invalid_characters,
                has_duplicate_underscore,
            }),
            Some('A'..='Z') | Some('a'..='z') => Step::Continue(State::Number {
                is_unterminated: false,
                has_invalid_characters: true,
                has_duplicate_underscore,
            }),
            Some('_') => Step::Continue(State::Number {
                is_unterminated: true,
                has_invalid_characters,
                has_duplicate_underscore: true,
            }),
            Some(_) | None => Step::Abort(Token::IntegerLiteral {
                base: IntegerBase::Decimal,
                is_unterminated: true,
                has_invalid_characters,
                has_duplicate_underscore,
            }),
        },
        State::NumberExponent { has_invalid_characters, has_duplicate_underscore } => match c {
            Some('+') | Some('-') => Step::Continue(State::NumberExponentSign {
                is_unterminated: true,
                has_invalid_characters,
                has_duplicate_underscore,
            }),
            Some(_) | None => Step::Reprocess(State::NumberExponentSign {
                is_unterminated: true,
                has_invalid_characters,
                has_duplicate_underscore,
            }),
        },
        State::NumberExponentSign {
            is_unterminated,
            has_invalid_characters,
            has_duplicate_underscore,
        } => match c {
            Some('0'..='9') => Step::Continue(State::NumberExponentSign {
                is_unterminated: false,
                has_invalid_characters,
                has_duplicate_underscore,
            }),
            Some('A'..='Z') | Some('a'..='z') => Step::Continue(State::NumberExponentSign {
                is_unterminated: false,
                has_invalid_characters: true,
                has_duplicate_underscore,
            }),
            Some('_') => Step::Continue(State::NumberExponentSignUnderscore {
                has_invalid_characters,
                has_duplicate_underscore,
            }),
            Some(_) | None => Step::Abort(Token::FloatLiteral {
                base: FloatBase::Decimal,
                is_unterminated,
                has_invalid_characters,
                has_duplicate_underscore,
            }),
        },
        State::NumberExponentSignUnderscore { has_invalid_characters, has_duplicate_underscore } => {
            match c {
                Some('0'..='9') => Step::Continue(State::NumberExponentSign {
                    is_unterminated: false,
                    has_invalid_characters,
                    has_duplicate_underscore,
                }),
                Some('A'..='Z') | Some('a'..='z') => Step::Continue(State::NumberExponentSign {
                    is_unterminated: false,
                    has_invalid_characters: true,
                    has_duplicate_underscore,
                }),
                Some('_') => Step::Continue(State::NumberExponentSign {
                    is_unterminated: true,
                    has_invalid_characters,
                    has_duplicate_underscore: true,
                }),
                Some(_) | None => Step::Abort(Token::FloatLiteral {
                    base: FloatBase::Decimal,
                    is_unterminated: true,
                    has_invalid_characters,
                    has_duplicate_underscore,
                }),
            }
        },
        State::NumberBinary { is_unterminated, has_invalid_characters, has_duplicate_underscore } => {
            match c {
                Some('0'..='1') => Step::Continue(State::NumberBinary {
                    is_unterminated: false,
                    has_invalid_characters,
                    has_duplicate_underscore,
                }),
                Some('2'..='9') | Some('A'..='Z') | Some('a'..='z') => {
                    Step::Continue(State::NumberBinary {
                        is_unterminated: false,
                        has_invalid_characters: true,
                        has_duplicate_underscore,
                    })
                },
                Some('_') => Step::Continue(State::NumberBinaryUnderscore {
                    has_invalid_characters,
                    has_duplicate_underscore,
                }),
                Some(_) | None => Step::Abort(Token::IntegerLiteral {
                    base: IntegerBase::Binary,
                    is_unterminated,
                    has_invalid_characters,
                    has_duplicate_underscore,
                }),
            }
        },
        State::NumberBinaryUnderscore { has_invalid_characters, has_duplicate_underscore } => {
            match c {
                Some('0'..='1') => Step::Continue(State::NumberBinary {
                    is_unterminated: false,
                    has_invalid_characters,
                    has_duplicate_underscore,
                }),
                Some('2'..='9') | Some('A'..='Z') | Some('a'..='z') => {
                    Step::Continue(State::NumberBinary {
                        is_unterminated: false,
                        has_invalid_characters: true,
                        has_duplicate_underscore,
                    })
                },
                Some('_') => Step::Continue(State::NumberBinary {
                    is_unterminated: true,
                    has_invalid_characters,
                    has_duplicate_underscore: true,
                }),
                Some(_) | None => Step::Abort(Token::IntegerLiteral {
                    base: IntegerBase::Binary,
                    is_unterminated: true,
                    has_invalid_characters,
                    has_duplicate_underscore,
                }),
            }
        },
        State::NumberOctal { is_unterminated, has_invalid_characters, has_duplicate_underscore } => {
            match c {
                Some('0'..='7') => Step::Continue(State::NumberOctal {
                    is_unterminated: false,
                    has_invalid_characters,
                    has_duplicate_underscore,
                }),
                Some('2'..='9') | Some('A'..='Z') | Some('a'..='z') => {
                    Step::Continue(State::NumberOctal {
                        is_unterminated: false,
                        has_invalid_characters: true,
                        has_duplicate_underscore,
                    })
                },
                Some('_') => Step::Continue(State::NumberOctalUnderscore {
                    has_invalid_characters,
                    has_duplicate_underscore,
                }),
                Some(_) | None => Step::Abort(Token::IntegerLiteral {
                    base: IntegerBase::Octal,
                    is_unterminated,
                    has_invalid_characters,
                    has_duplicate_underscore,
                }),
            }
        },
        State::NumberOctalUnderscore { has_invalid_characters, has_duplicate_underscore } => {
            match c {
                Some('0'..='7') => Step::Continue(State::NumberOctal {
                    is_unterminated: false,
                    has_invalid_characters,
                    has_duplicate_underscore,
                }),
                Some('2'..='9') | Some('A'..='Z') | Some('a'..='z') => {
                    Step::Continue(State::NumberOctal {
                        is_unterminated: false,
                        has_invalid_characters: true,
                        has_duplicate_underscore,
                    })
                },
                Some('_') => Step::Continue(State::NumberOctal {
                    is_unterminated: true,
                    has_invalid_characters,
                    has_duplicate_underscore: true,
                }),
                Some(_) | None => Step::Abort(Token::IntegerLiteral {
                    base: IntegerBase::Octal,
                    is_unterminated: true,
                    has_invalid_characters,
                    has_duplicate_underscore,
                }),
            }
        },
        State::NumberHex { is_unterminated, has_invalid_characters, has_duplicate_underscore } => {
            match c {
                Some('0'..='9') | Some('A'..='F') | Some('a'..='f') => {
                    Step::Continue(State::NumberHex {
                        is_unterminated: false,
                        has_invalid_characters,
                        has_duplicate_underscore,
                    })
                },
                Some('G'..='O') | Some('g'..='o') | Some('Q'..='Z') | Some('q'..='z') => {
                    Step::Continue(State::NumberHex {
                        is_unterminated: false,
                        has_invalid_characters: true,
                        has_duplicate_underscore,
                    })
                },
                Some('_') => Step::Continue(State::NumberHexUnderscore {
                    has_invalid_characters,
                    has_duplicate_underscore,
                }),
                Some('.') => Step::Continue(State::NumberHexDotStart {
                    has_invalid_characters,
                    has_duplicate_underscore,
                }),
                Some('p') | Some('P') => Step::Continue(State::NumberHexExponent {
                    has_invalid_characters,
                    has_duplicate_underscore,
                }),
                Some(_) | None => Step::Abort(Token::IntegerLiteral {
                    base: IntegerBase::Hexadecimal,
                    is_unterminated,
                    has_invalid_characters,
                    has_duplicate_underscore,
                }),
            }
        },
        State::NumberHexUnderscore { has_invalid_characters, has_duplicate_underscore } => {
            match c {
                Some('0'..='9') | Some('A'..='F') | Some('a'..='f') => {
                    Step::Continue(State::NumberHex {
                        is_unterminated: false,
                        has_invalid_characters,
                        has_duplicate_underscore,
                    })
                },
                Some('G'..='Z') | Some('g'..='z') => Step::Continue(State::NumberHex {
                    is_unterminated: false,
                    has_invalid_characters: true,
                    has_duplicate_underscore,
                }),
                Some('_') => Step::Continue(State::NumberHex {
                    is_unterminated: true,
                    has_invalid_characters,
                    has_duplicate_underscore: false,
                }),
                Some(_) | None => Step::Abort(Token::IntegerLiteral {
                    base: IntegerBase::Hexadecimal,
                    is_unterminated: true,
                    has_invalid_characters,
                    has_duplicate_underscore,
                }),
            }
        },
        State::NumberHexDotStart { has_invalid_characters, has_duplicate_underscore } => match c {
            Some('.') => Step::Backtrack,
            _ => step_hex_dot(c, true, has_invalid_characters, has_duplicate_underscore),
        },
        State::NumberHexDot { is_unterminated, has_invalid_characters, has_duplicate_underscore } => {
            step_hex_dot(c, is_unterminated, has_invalid_characters, has_duplicate_underscore)
        },
        State::NumberHexDotUnderscore { has_invalid_characters, has_duplicate_underscore } => {
            match c {
                Some('0'..='9') | Some('A'..='F') | Some('a'..='f') => {
                    Step::Continue(State::NumberHexDot {
                        is_unterminated: false,
                        has_invalid_characters,
                        has_duplicate_underscore,
                    })
                },
                Some('_') => Step::Continue(State::NumberHexDot {
                    is_unterminated: true,
                    has_invalid_characters,
                    has_duplicate_underscore: true,
                }),
                Some(_) | None => Step::Abort(Token::FloatLiteral {
                    base: FloatBase::Hexadecimal,
                    is_unterminated: true,
                    has_invalid_characters,
                    has_duplicate_underscore,
                }),
            }
        },
        State::NumberHexExponent { has_invalid_characters, has_duplicate_underscore } => match c {
            Some('+') | Some('-') => Step::Continue(State::NumberHexExponentSign {
                is_unterminated: true,
                has_invalid_characters,
                has_duplicate_underscore,
            }),
            Some(_) | None => Step::Reprocess(State::NumberHexExponentSign {
                is_unterminated: true,
                has_invalid_characters,
                has_duplicate_underscore,
            }),
        },
        State::NumberHexExponentSign {
            is_unterminated,
            has_invalid_characters,
            has_duplicate_underscore,
        } => match c {
            Some('0'..='9') | Some('A'..='F') | Some('a'..='f') => {
                Step::Continue(State::NumberHexExponentSign {
                    is_unterminated: false,
                    has_invalid_characters,
                    has_duplicate_underscore,
                })
            },
            Some('_') => Step::Continue(State::NumberHexExponentSignUnderscore {
                has_invalid_characters,
                has_duplicate_underscore,
            }),
            Some(_) | None => Step::Abort(Token::FloatLiteral {
                base: FloatBase::Hexadecimal,
                is_unterminated,
                has_invalid_characters,
                has_duplicate_underscore,
            }),
        },
        State::NumberHexExponentSignUnderscore { has_invalid_characters, has_duplicate_underscore } => {
            match c {
                Some('0'..='9') | Some('A'..='F') | Some('a'..='f') => {
                    Step::Continue(State::NumberHexExponentSign {
                        is_unterminated: false,
                        has_invalid_characters,
                        has_duplicate_underscore,
                    })
                },
                Some('_') => Step::Continue(State::NumberHexExponentSign {
                    is_unterminated: true,
                    has_invalid_characters,
                    has_duplicate_underscore: true,
                }),
                Some(_) | None => Step::Abort(Token::FloatLiteral {
                    base: FloatBase::Hexadecimal,
                    is_unterminated: true,
                    has_invalid_characters,
                    has_duplicate_underscore,
                }),
            }
        },
        State::NumberDotStart { has_invalid_characters, has_duplicate_underscore } => match c {
            Some('.') => Step::Backtrack,
            _ => step_dot(c, true, has_invalid_characters, has_duplicate_underscore),
        },
        State::NumberDot { is_unterminated, has_invalid_characters, has_duplicate_underscore } => {
            step_dot(c, is_unterminated, has_invalid_characters, has_duplicate_underscore)
        },
        State::NumberDotUnderscore { has_invalid_characters, has_duplicate_underscore } => {
            match c {
                Some('0'..='9') => Step::Continue(State::NumberDot {
                    is_unterminated: false,
                    has_invalid_characters,
                    has_duplicate_underscore,
                }),
                Some('A'..='Z') | Some('a'..='z') => Step::Continue(State::NumberDot {
                    is_unterminated: false,
                    has_invalid_characters: true,
                    has_duplicate_underscore,
                }),
                Some('_') => Step::Continue(State::NumberDot {
                    is_unterminated: true,
                    has_invalid_characters,
                    has_duplicate_underscore: true,
                }),
                Some(_) | None => Step::Abort(Token::FloatLiteral {
                    base: FloatBase::Decimal,
                    is_unterminated: true,
                    has_invalid_characters,
                    has_duplicate_underscore,
                }),
            }
        },
        _ => Step::Abort(Token::Invalid),
    }
}

/// One transition of the scanner: the state and the next character (`None` at
/// the end of the input) give the signal for the driver.
pub fn step(state: State, c: Option<char>) -> (r: Step)
    ensures
        r == transition(state, c),
{
    reveal(transition);
    match state {
        State::Start => step_start(c),
        State::Bang | State::Percent | State::And | State::Star | State::StarPercent
        | State::Plus | State::PlusPercent | State::Minus | State::MinusPercent | State::Dot
        | State::Dot2 | State::Slash | State::LAngle | State::LAngle2 | State::Equal
        | State::RAngle | State::RAngle2 | State::Caret | State::Or => step_operator(state, c),
        State::Invalid | State::Whitespace | State::Slash2 | State::Comment
        | State::DocComment | State::MultilineStringLiteralLine | State::At | State::Identifier
        | State::Builtin => step_run(state, c),
        State::StringLiteral { .. } | State::StringEscape { .. }
        | State::StringEscapeHex1 { .. } | State::StringEscapeHex2 { .. }
        | State::StringEscapeUnicode1 { .. } | State::StringEscapeUnicode2 { .. }
        | State::StringEscapeUnicode3 { .. } => step_quoted(state, c),
        _ => step_number(state, c),
    }
}

} // verus!
