use lexer::{lex, FloatBase, IntegerBase, Token};

fn raw(is_unterminated: bool, has_invalid_escape: bool) -> Token {
    Token::RawIdentifier {
        is_unterminated,
        has_invalid_escape,
    }
}

fn int_lit(
    base: IntegerBase,
    is_unterminated: bool,
    has_invalid_characters: bool,
    has_duplicate_underscore: bool,
) -> Token {
    Token::IntegerLiteral {
        base,
        is_unterminated,
        has_invalid_characters,
        has_duplicate_underscore,
    }
}

fn float_lit(
    base: FloatBase,
    is_unterminated: bool,
    has_invalid_characters: bool,
    has_duplicate_underscore: bool,
) -> Token {
    Token::FloatLiteral {
        base,
        is_unterminated,
        has_invalid_characters,
        has_duplicate_underscore,
    }
}

fn str_lit(is_unterminated: bool, has_invalid_escape: bool) -> Token {
    Token::StringLiteral {
        is_unterminated,
        has_invalid_escape,
    }
}

fn char_lit(is_empty: bool, is_unterminated: bool, has_invalid_escape: bool) -> Token {
    Token::CharacterLiteral {
        is_empty,
        is_unterminated,
        has_invalid_escape,
    }
}

#[test]
fn test_invalid() {
    assert_eq!(lex(""), (Token::Invalid, 0));
    assert_eq!(lex("$"), (Token::Invalid, 1));
    assert_eq!(lex("$$"), (Token::Invalid, 2));
    assert_eq!(lex("$0"), (Token::Invalid, 1));
}

#[test]
fn test_whitespace() {
    assert_eq!(lex(" "), (Token::Whitespace, 1));
    assert_eq!(lex(" \t\r\n"), (Token::Whitespace, 4));
}

#[test]
fn test_comment() {
    assert_eq!(lex("// \n"), (Token::Comment, 3));
    assert_eq!(lex("//hello\n"), (Token::Comment, 7));
    assert_eq!(lex("// hello\n"), (Token::Comment, 8));
}

#[test]
fn test_doc_comment() {
    assert_eq!(lex("/// \n"), (Token::DocComment, 4));
    assert_eq!(lex("///hello\n"), (Token::DocComment, 8));
    assert_eq!(lex("/// hello\n"), (Token::DocComment, 9));
}

#[test]
fn test_builtin() {
    assert_eq!(lex("@hello"), (Token::Builtin, 6));
    assert_eq!(lex("@hello "), (Token::Builtin, 6));
}

#[test]
fn test_identifier() {
    assert_eq!(lex("foo"), (Token::Identifier, 3));
    assert_eq!(lex("foo1"), (Token::Identifier, 4));
    assert_eq!(lex("_foo1"), (Token::Identifier, 5));
    assert_eq!(lex(r#"@"foo bar""#), (raw(false, false), 10));
    assert_eq!(lex(r#"@"foo bar\x00""#), (raw(false, false), 14));
    assert_eq!(lex(r#"@"foo bar\x0""#), (raw(false, true), 13));
    assert_eq!(lex(r#"@"foo bar"#), (raw(true, false), 9));
}

#[test]
fn test_integer_literal() {
    let bin = IntegerBase::Binary;
    let oct = IntegerBase::Octal;
    let dec = IntegerBase::Decimal;
    let hex = IntegerBase::Hexadecimal;
    assert_eq!(lex("100"), (int_lit(dec, false, false, false), 3));
    assert_eq!(lex("001"), (int_lit(dec, false, false, false), 3));
    assert_eq!(lex("100_000"), (int_lit(dec, false, false, false), 7));
    assert_eq!(lex("0b"), (int_lit(bin, true, false, false), 2));
    assert_eq!(lex("0b1"), (int_lit(bin, false, false, false), 3));
    assert_eq!(lex("0b1_"), (int_lit(bin, true, false, false), 4));
    assert_eq!(lex("0b1_0"), (int_lit(bin, false, false, false), 5));
    assert_eq!(lex("0b12"), (int_lit(bin, false, true, false), 4));
    assert_eq!(lex("0o"), (int_lit(oct, true, false, false), 2));
    assert_eq!(lex("0x"), (int_lit(hex, true, false, false), 2));
    assert_eq!(lex("1_"), (int_lit(dec, true, false, false), 2));
}

#[test]
fn test_float_literal() {
    let dec = FloatBase::Decimal;
    let hex = FloatBase::Hexadecimal;
    assert_eq!(lex("1."), (float_lit(dec, true, false, false), 2));
    assert_eq!(lex("1._"), (float_lit(dec, true, false, false), 3));
    assert_eq!(lex("1.__"), (float_lit(dec, true, false, true), 4));
    assert_eq!(lex("1.5"), (float_lit(dec, false, false, false), 3));
    assert_eq!(lex("1.5f"), (float_lit(dec, false, false, false), 3));
    assert_eq!(lex("1.5_"), (float_lit(dec, true, false, false), 4));
    assert_eq!(lex("0x1.f"), (float_lit(hex, false, false, false), 5));
    assert_eq!(lex("0x1f.5f"), (float_lit(hex, false, false, false), 7));
    assert_eq!(lex("1p1"), (float_lit(hex, false, false, false), 3));
    assert_eq!(lex("1P1"), (float_lit(hex, false, false, false), 3));
    assert_eq!(lex("1p+1"), (float_lit(hex, false, false, false), 4));
    assert_eq!(lex("1p-1"), (float_lit(hex, false, false, false), 4));
    assert_eq!(lex("1p1_2"), (float_lit(hex, false, false, false), 5));
    assert_eq!(lex("1p+1_2"), (float_lit(hex, false, false, false), 6));
    assert_eq!(lex("1p-1_2"), (float_lit(hex, false, false, false), 6));
    assert_eq!(lex("1p1_2_"), (float_lit(hex, true, false, false), 6));
    assert_eq!(lex("1p+1_2_"), (float_lit(hex, true, false, false), 7));
    assert_eq!(lex("1p-1_2_"), (float_lit(hex, true, false, false), 7));
    assert_eq!(lex("1E1"), (float_lit(dec, false, false, false), 3));
    assert_eq!(lex("1e1"), (float_lit(dec, false, false, false), 3));
    assert_eq!(lex("1e+1"), (float_lit(dec, false, false, false), 4));
    assert_eq!(lex("1e-1"), (float_lit(dec, false, false, false), 4));
    assert_eq!(lex("0x1p27"), (float_lit(hex, false, false, false), 6));
    assert_eq!(lex("0x1.p+64"), (float_lit(hex, false, false, false), 8));
    assert_eq!(lex("1e-7"), (float_lit(dec, false, false, false), 4));
}

#[test]
fn test_string_literal() {
    assert_eq!(lex(r#""foo bar""#), (str_lit(false, false), 9));
    assert_eq!(lex(r#""foo bar\x00""#), (str_lit(false, false), 13));
    assert_eq!(lex(r#""foo bar\x0""#), (str_lit(false, true), 12));
    assert_eq!(lex(r#""foo bar"#), (str_lit(true, false), 8));
    assert_eq!(lex(r#""foo bar\\\"\'\r\n\t""#), (str_lit(false, false), 21));
    assert_eq!(lex(r#""foo bar\xFF""#), (str_lit(false, false), 13));
    assert_eq!(lex(r#""foo bar\xFG""#), (str_lit(false, true), 13));
    assert_eq!(lex(r#""foo bar\xGF""#), (str_lit(false, true), 13));
    assert_eq!(lex(r#""foo bar\xGG""#), (str_lit(false, true), 13));
    assert_eq!(lex(r#""foo bar\u{""#), (str_lit(false, true), 12));
    assert_eq!(lex(r#""foo bar\u{1""#), (str_lit(false, true), 13));
    assert_eq!(lex(r#""foo bar\u{1F""#), (str_lit(false, true), 14));
    assert_eq!(lex(r#""foo bar\u{1G""#), (str_lit(false, true), 14));
    assert_eq!(lex(r#""foo bar\u{1G}""#), (str_lit(false, true), 15));
    assert_eq!(lex(r#""foo bar\u{1F}""#), (str_lit(false, false), 15));
}

#[test]
fn test_character_literal() {
    assert_eq!(lex("''"), (char_lit(true, false, false), 2));
    assert_eq!(lex("'a"), (char_lit(false, true, false), 2));
    assert_eq!(lex("'\\x0'"), (char_lit(false, false, true), 5));
    assert_eq!(lex("'\\xzz'"), (char_lit(false, false, true), 6));
    assert_eq!(lex("'a'"), (char_lit(false, false, false), 3));
}

#[test]
fn test_multiline_string_literal() {
    assert_eq!(lex("\\\\"), (Token::MultilineStringLiteralLine, 2));
    assert_eq!(lex("\\\\hello"), (Token::MultilineStringLiteralLine, 7));
    assert_eq!(lex("\\\\ hello\n"), (Token::MultilineStringLiteralLine, 8));
}

#[test]
fn test_punctuation_1() {
    assert_eq!(lex("!"), (Token::Bang, 1));
    assert_eq!(lex("%"), (Token::Percent, 1));
    assert_eq!(lex("&"), (Token::And, 1));
    assert_eq!(lex("("), (Token::LParen, 1));
    assert_eq!(lex(")"), (Token::RParen, 1));
    assert_eq!(lex("*"), (Token::Star, 1));
    assert_eq!(lex("+"), (Token::Plus, 1));
    assert_eq!(lex(","), (Token::Comma, 1));
    assert_eq!(lex("-"), (Token::Minus, 1));
    assert_eq!(lex("."), (Token::Dot, 1));
    assert_eq!(lex("/"), (Token::Slash, 1));
    assert_eq!(lex(":"), (Token::Colon, 1));
    assert_eq!(lex(";"), (Token::Semicolon, 1));
    assert_eq!(lex("<"), (Token::LAngle, 1));
    assert_eq!(lex("="), (Token::Equal, 1));
    assert_eq!(lex(">"), (Token::RAngle, 1));
    assert_eq!(lex("?"), (Token::Question, 1));
    assert_eq!(lex("@"), (Token::At, 1));
    assert_eq!(lex("["), (Token::LBracket, 1));
    assert_eq!(lex("]"), (Token::RBracket, 1));
    assert_eq!(lex("^"), (Token::Caret, 1));
    assert_eq!(lex("{"), (Token::LBrace, 1));
    assert_eq!(lex("|"), (Token::Or, 1));
    assert_eq!(lex("}"), (Token::RBrace, 1));
}

#[test]
fn test_punctuation_2() {
    assert_eq!(lex("!="), (Token::BangEqual, 2));
    assert_eq!(lex("%="), (Token::PercentEqual, 2));
    assert_eq!(lex("&&"), (Token::And2, 2));
    assert_eq!(lex("&="), (Token::AndEqual, 2));
    assert_eq!(lex("**"), (Token::Star2, 2));
    assert_eq!(lex("*="), (Token::StarEqual, 2));
    assert_eq!(lex("*%"), (Token::StarPercent, 2));
    assert_eq!(lex("++"), (Token::Plus2, 2));
    assert_eq!(lex("+="), (Token::PlusEqual, 2));
    assert_eq!(lex("+%"), (Token::PlusPercent, 2));
    assert_eq!(lex("-="), (Token::MinusEqual, 2));
    assert_eq!(lex("-%"), (Token::MinusPercent, 2));
    assert_eq!(lex(".."), (Token::Dot2, 2));
    assert_eq!(lex(".*"), (Token::DotStar, 2));
    assert_eq!(lex("/="), (Token::SlashEqual, 2));
    assert_eq!(lex("<="), (Token::LAngleEqual, 2));
    assert_eq!(lex("<<"), (Token::LAngle2, 2));
    assert_eq!(lex("=="), (Token::Equal2, 2));
    assert_eq!(lex("=>"), (Token::EqualRAngle, 2));
    assert_eq!(lex(">="), (Token::RAngleEqual, 2));
    assert_eq!(lex(">>"), (Token::RAngle2, 2));
    assert_eq!(lex("^="), (Token::CaretEqual, 2));
    assert_eq!(lex("||"), (Token::Or2, 2));
    assert_eq!(lex("|="), (Token::OrEqual, 2));
}

#[test]
fn test_punctuation_3() {
    assert_eq!(lex("*%="), (Token::StarPercentEqual, 3));
    assert_eq!(lex("+%="), (Token::PlusPercentEqual, 3));
    assert_eq!(lex("-%="), (Token::MinusPercentEqual, 3));
    assert_eq!(lex("..."), (Token::Dot3, 3));
    assert_eq!(lex("<<="), (Token::LAngle2Equal, 3));
    assert_eq!(lex(">>="), (Token::RAngle2Equal, 3));
}
