use vstd::prelude::*;

verus! {

/// The radix of an integer literal, chosen by its `0b` / `0o` / `0x` prefix.
#[derive(Debug, Clone, Copy, PartialEq, Eq, Structural)]
pub enum IntegerBase {
    Binary,
    Octal,
    Decimal,
    Hexadecimal,
}

/// The radix of a floating-point literal.
#[derive(Debug, Clone, Copy, PartialEq, Eq, Structural)]
pub enum FloatBase {
    Decimal,
    Hexadecimal,
}

/// One lexical token. Literal kinds carry diagnostic flags instead of failing.
#[derive(Debug, Clone, Copy, PartialEq, Eq, Structural)]
pub enum Token {
    Invalid,
    Whitespace,
    Comment,
    DocComment,
    Builtin,
    Identifier,
    RawIdentifier { is_unterminated: bool, has_invalid_escape: bool },
    IntegerLiteral {
        base: IntegerBase,
        is_unterminated: bool,
        has_invalid_characters: bool,
        has_duplicate_underscore: bool,
    },
    FloatLiteral {
        base: FloatBase,
        is_unterminated: bool,
        has_invalid_characters: bool,
        has_duplicate_underscore: bool,
    },
    StringLiteral { is_unterminated: bool, has_invalid_escape: bool },
    CharacterLiteral { is_empty: bool, is_unterminated: bool, has_invalid_escape: bool },
    MultilineStringLiteralLine,
    /// `!`
    Bang,
    /// `!=`
    BangEqual,
    /// `%`
    Percent,
    /// `%=`
    PercentEqual,
    /// `&`
    And,
    /// `&&`
    And2,
    /// `&=`
    AndEqual,
    /// `(`
    LParen,
    /// `)`
    RParen,
    /// `*`
    Star,
    /// `**`
    Star2,
    /// `*=`
    StarEqual,
    /// `*%`
    StarPercent,
    /// `*%=`
    StarPercentEqual,
    /// `+`
    Plus,
    /// `++`
    Plus2,
    /// `+=`
    PlusEqual,
    /// `+%`
    PlusPercent,
    /// `+%=`
    PlusPercentEqual,
    /// `,`
    Comma,
    /// `-`
    Minus,
    /// `-=`
    MinusEqual,
    /// `-%`
    MinusPercent,
    /// `-%=`
    MinusPercentEqual,
    /// `.`
    Dot,
    /// `..`
    Dot2,
    /// `...`
    Dot3,
    /// `.*`
    DotStar,
    /// `/`
    Slash,
    /// `/=`
    SlashEqual,
    /// `:`
    Colon,
    /// `;`
    Semicolon,
    /// `<`
    LAngle,
    /// `<=`
    LAngleEqual,
    /// `<<`
    LAngle2,
    /// `<<=`
    LAngle2Equal,
    /// `=`
    Equal,
    /// `==`
    Equal2,
    /// `=>`
    EqualRAngle,
    /// `>`
    RAngle,
    /// `>=`
    RAngleEqual,
    /// `>>`
    RAngle2,
    /// `>>=`
    RAngle2Equal,
    /// `?`
    Question,
    /// `@`
    At,
    /// `[`
    LBracket,
    /// `]`
    RBracket,
    /// `^`
    Caret,
    /// `^=`
    CaretEqual,
    /// `{`
    LBrace,
    /// `|`
    Or,
    /// `||`
    Or2,
    /// `|=`
    OrEqual,
    /// `}`
    RBrace,
}

} // verus!
