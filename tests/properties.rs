use lexer::{lex, FloatBase, IntegerBase, Token};

fn tokens(source: &str) -> Vec<(Token, usize)> {
    let mut out = Vec::new();
    let mut cursor = 0;
    loop {
        let (token, len) = lex(&source[cursor..]);
        if len == 0 {
            assert_eq!(token, Token::Invalid);
            assert_eq!(cursor, source.len());
            return out;
        }
        assert!(source.is_char_boundary(cursor + len));
        out.push((token, len));
        cursor += len;
    }
}

fn dec_int(invalid: bool, dup: bool) -> Token {
    Token::IntegerLiteral {
        base: IntegerBase::Decimal,
        is_unterminated: false,
        has_invalid_characters: invalid,
        has_duplicate_underscore: dup,
    }
}

#[test]
fn scenario_table() {
    assert_eq!(lex(""), (Token::Invalid, 0));
    assert_eq!(lex("$"), (Token::Invalid, 1));
    assert_eq!(lex(" \t\r\n"), (Token::Whitespace, 4));
    assert_eq!(lex("// hello\n"), (Token::Comment, 8));
    assert_eq!(
        lex("0b12"),
        (
            Token::IntegerLiteral {
                base: IntegerBase::Binary,
                is_unterminated: false,
                has_invalid_characters: true,
                has_duplicate_underscore: false,
            },
            4
        )
    );
    assert_eq!(
        lex("1p+1_2_"),
        (
            Token::FloatLiteral {
                base: FloatBase::Hexadecimal,
                is_unterminated: true,
                has_invalid_characters: false,
                has_duplicate_underscore: false,
            },
            7
        )
    );
    assert_eq!(
        lex("\"foo bar\\xFG\""),
        (
            Token::StringLiteral {
                is_unterminated: false,
                has_invalid_escape: true,
            },
            13
        )
    );
    assert_eq!(
        lex("''"),
        (
            Token::CharacterLiteral {
                is_empty: true,
                is_unterminated: false,
                has_invalid_escape: false,
            },
            2
        )
    );
}

#[test]
fn range_after_integer_backtracks() {
    let source = "1..2";
    let (first, n) = lex(source);
    assert_eq!((first, n), (dec_int(false, false), 1));
    assert_eq!(lex(&source[n..]), (Token::Dot2, 2));
    assert_eq!(
        tokens(source),
        vec![
            (dec_int(false, false), 1),
            (Token::Dot2, 2),
            (dec_int(false, false), 1)
        ]
    );
}

#[test]
fn dot_after_fraction_digits_ends_the_literal() {
    assert_eq!(
        lex("1.5."),
        (
            Token::FloatLiteral {
                base: FloatBase::Decimal,
                is_unterminated: false,
                has_invalid_characters: false,
                has_duplicate_underscore: false,
            },
            3
        )
    );
    assert_eq!(
        lex("0x1.f."),
        (
            Token::FloatLiteral {
                base: FloatBase::Hexadecimal,
                is_unterminated: false,
                has_invalid_characters: false,
                has_duplicate_underscore: false,
            },
            5
        )
    );
    assert_eq!(
        lex("1._."),
        (
            Token::FloatLiteral {
                base: FloatBase::Decimal,
                is_unterminated: true,
                has_invalid_characters: false,
                has_duplicate_underscore: false,
            },
            3
        )
    );
    assert_eq!(
        lex("0x1..2"),
        (
            Token::IntegerLiteral {
                base: IntegerBase::Hexadecimal,
                is_unterminated: false,
                has_invalid_characters: false,
                has_duplicate_underscore: false,
            },
            3
        )
    );
}

#[test]
fn trailing_double_underscore_is_unterminated() {
    assert_eq!(
        lex("1__"),
        (
            Token::IntegerLiteral {
                base: IntegerBase::Decimal,
                is_unterminated: true,
                has_invalid_characters: false,
                has_duplicate_underscore: true,
            },
            3
        )
    );
    assert_eq!(
        lex("0x1__"),
        (
            Token::IntegerLiteral {
                base: IntegerBase::Hexadecimal,
                is_unterminated: true,
                has_invalid_characters: false,
                has_duplicate_underscore: false,
            },
            5
        )
    );
    assert_eq!(
        lex("1e__"),
        (
            Token::FloatLiteral {
                base: FloatBase::Decimal,
                is_unterminated: true,
                has_invalid_characters: false,
                has_duplicate_underscore: true,
            },
            4
        )
    );
    assert_eq!(
        lex("0x1.8__"),
        (
            Token::FloatLiteral {
                base: FloatBase::Hexadecimal,
                is_unterminated: true,
                has_invalid_characters: false,
                has_duplicate_underscore: true,
            },
            7
        )
    );
    assert_eq!(
        lex("0x1p1__"),
        (
            Token::FloatLiteral {
                base: FloatBase::Hexadecimal,
                is_unterminated: true,
                has_invalid_characters: false,
                has_duplicate_underscore: true,
            },
            7
        )
    );
    assert_eq!(
        lex("0b1__"),
        (
            Token::IntegerLiteral {
                base: IntegerBase::Binary,
                is_unterminated: true,
                has_invalid_characters: false,
                has_duplicate_underscore: true,
            },
            5
        )
    );
    assert_eq!(lex("1__2"), (dec_int(false, true), 4));
}

#[test]
fn whole_source_is_covered() {
    let source = "const x = 0x1F + 1.5e-3; // done\n@\"raw\" 'c' \"s\\n\" $$ a..b \\\\line";
    let parts = tokens(source);
    let total: usize = parts.iter().map(|p| p.1).sum();
    assert_eq!(total, source.len());
    assert!(parts.iter().all(|p| p.1 > 0));
    assert_eq!(parts[0], (Token::Identifier, 5));
    assert_eq!(parts[1], (Token::Whitespace, 1));
}

#[test]
fn multibyte_characters_are_counted_in_bytes() {
    assert_eq!(lex("é"), (Token::Invalid, 2));
    assert_eq!(lex("$é€x"), (Token::Invalid, 6));
    assert_eq!(lex("// é\n"), (Token::Comment, 5));
    assert_eq!(
        lex("\"日本\""),
        (
            Token::StringLiteral {
                is_unterminated: false,
                has_invalid_escape: false,
            },
            8
        )
    );
    let source = "a é 😀 \"ü\"";
    let parts = tokens(source);
    let total: usize = parts.iter().map(|p| p.1).sum();
    assert_eq!(total, source.len());
}

#[test]
fn same_input_same_result() {
    for source in ["1..2", "0x1p", "\"a\\u{1G}\"", "é$", "/// d", "1e+"] {
        assert_eq!(lex(source), lex(source));
    }
}

#[test]
fn flags_stay_set() {
    assert_eq!(lex("1__0"), (dec_int(false, true), 4));
    assert_eq!(lex("1a__0"), (dec_int(true, true), 5));
    assert_eq!(
        lex("\"\\q ok\""),
        (
            Token::StringLiteral {
                is_unterminated: false,
                has_invalid_escape: true,
            },
            7
        )
    );
    assert_eq!(
        lex("1e__5z"),
        (
            Token::FloatLiteral {
                base: FloatBase::Decimal,
                is_unterminated: false,
                has_invalid_characters: true,
                has_duplicate_underscore: true,
            },
            6
        )
    );
}

#[test]
fn foreign_digits_are_flagged() {
    assert_eq!(
        lex("0o78"),
        (
            Token::IntegerLiteral {
                base: IntegerBase::Octal,
                is_unterminated: false,
                has_invalid_characters: true,
                has_duplicate_underscore: false,
            },
            4
        )
    );
    assert_eq!(
        lex("0xfg"),
        (
            Token::IntegerLiteral {
                base: IntegerBase::Hexadecimal,
                is_unterminated: false,
                has_invalid_characters: true,
                has_duplicate_underscore: false,
            },
            4
        )
    );
    assert_eq!(lex("12ab"), (dec_int(true, false), 4));
    assert_eq!(
        lex("0b1_0__1"),
        (
            Token::IntegerLiteral {
                base: IntegerBase::Binary,
                is_unterminated: false,
                has_invalid_characters: false,
                has_duplicate_underscore: true,
            },
            8
        )
    );
}

// A second underscore in a hexadecimal integer clears the duplicate flag
// instead of setting it; this pins that behaviour down.
#[test]
fn hex_integer_double_underscore_is_not_flagged() {
    assert_eq!(
        lex("0x1__2"),
        (
            Token::IntegerLiteral {
                base: IntegerBase::Hexadecimal,
                is_unterminated: false,
                has_invalid_characters: false,
                has_duplicate_underscore: false,
            },
            6
        )
    );
    assert_eq!(
        lex("0x1.__2"),
        (
            Token::FloatLiteral {
                base: FloatBase::Hexadecimal,
                is_unterminated: false,
                has_invalid_characters: false,
                has_duplicate_underscore: true,
            },
            7
        )
    );
}

#[test]
fn operators_take_the_longest_match() {
    assert_eq!(lex("*%=x"), (Token::StarPercentEqual, 3));
    assert_eq!(lex("*%x"), (Token::StarPercent, 2));
    assert_eq!(lex("...."), (Token::Dot3, 3));
    assert_eq!(lex("=>="), (Token::EqualRAngle, 2));
    assert_eq!(lex("@1"), (Token::At, 1));
}

#[test]
fn unterminated_literals_stop_before_newline() {
    assert_eq!(
        lex("\"abc\ndef\""),
        (
            Token::StringLiteral {
                is_unterminated: true,
                has_invalid_escape: false,
            },
            4
        )
    );
    assert_eq!(
        lex("'ab"),
        (
            Token::CharacterLiteral {
                is_empty: false,
                is_unterminated: true,
                has_invalid_escape: false,
            },
            3
        )
    );
    assert_eq!(
        lex("'abc'"),
        (
            Token::CharacterLiteral {
                is_empty: false,
                is_unterminated: false,
                has_invalid_escape: false,
            },
            5
        )
    );
}
