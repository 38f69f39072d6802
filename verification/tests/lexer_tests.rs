use toy_lang::decimal::usize_to_string;
use toy_lang::error::LexerError;
use toy_lang::lexeme::{ContextedToken, Lexeme, Range};
use toy_lang::lexer::{find_first_not_of, find_token, is_identifier_continuation,
    is_identifier_init, is_number_init, new_token_to_unary, read_tokens_in_line};
use toy_lang::tokens::{Delimiter, Keyword, Operator, Token};

fn lex_line(line: &str) -> (Lexeme, Vec<LexerError>) {
    let mut lexeme = Lexeme::new();
    let mut errors: Vec<LexerError> = Vec::new();
    read_tokens_in_line(&mut lexeme, line, 0, &mut errors);
    (lexeme, errors)
}

fn all_operators() -> Vec<Operator> {
    vec![
        Operator::Assign,
        Operator::Plus,
        Operator::Minus,
        Operator::Times,
        Operator::Div,
        Operator::Mod,
        Operator::PlusEq,
        Operator::MinusEq,
        Operator::TimesEq,
        Operator::DivEq,
        Operator::ModEq,
        Operator::Equals,
        Operator::NotEquals,
        Operator::LessThan,
        Operator::LessEqThan,
        Operator::GreaterThan,
        Operator::GreaterEqThan,
        Operator::ShiftLeft,
        Operator::ShiftRight,
        Operator::ShiftLeftEq,
        Operator::ShiftRightEq,
        Operator::Not,
        Operator::And,
        Operator::Or,
        Operator::Xor,
        Operator::BitwiseAnd,
        Operator::BitwiseOr,
        Operator::BitwiseXor,
        Operator::AndEq,
        Operator::OrEq,
        Operator::XorEq,
        Operator::BitwiseAndEq,
        Operator::BitwiseOrEq,
        Operator::BitwiseXorEq,
        Operator::Comma,
        Operator::Point,
        Operator::UnaryPlus,
        Operator::UnaryMinus,
    ]
}

#[test]
fn fixed_spellings_lex_to_one_token_of_spelling_length() {
    // Keywords, delimiters, the statement terminator, and all operators but
    // the two compound spellings whose characters lex as two tokens.
    let keywords = vec![
        Keyword::Def,
        Keyword::If,
        Keyword::Else,
        Keyword::For,
        Keyword::While,
        Keyword::Return,
        Keyword::Class,
        Keyword::Void,
    ];
    for kw in keywords {
        let sp = kw.to_string();
        let (lexeme, errors) = lex_line(sp);
        assert_eq!(lexeme.len(), 1, "keyword {}", sp);
        assert!(errors.is_empty());
        let t = lexeme.token_at(0);
        assert_eq!(t.token, Token::Keyword(kw));
        assert_eq!(t.range, Range { line: 0, char_begin: 0, char_end: sp.len() });
    }
    for op in all_operators() {
        if op == Operator::OrEq || op == Operator::XorEq {
            continue;
        }
        let sp = op.to_string();
        let (lexeme, errors) = lex_line(sp);
        assert_eq!(lexeme.len(), 1, "operator {}", sp);
        assert!(errors.is_empty(), "operator {}", sp);
        let t = lexeme.token_at(0);
        assert_eq!(
            t.range,
            Range { line: 0, char_begin: 0, char_end: sp.len() },
            "operator {}",
            sp
        );
        assert_eq!(t.token.len(), sp.len(), "operator {}", sp);
    }
    for (d, sp) in vec![
        (Delimiter::ParenthesisOpen, "("),
        (Delimiter::ParenthesisClose, ")"),
        (Delimiter::BracketsOpen, "{"),
        (Delimiter::BracketsClose, "}"),
        (Delimiter::SquareBracketsOpen, "["),
        (Delimiter::SquareBracketsClose, "]"),
    ] {
        let (lexeme, errors) = lex_line(sp);
        assert_eq!(lexeme.len(), 1);
        assert!(errors.is_empty());
        assert_eq!(lexeme.token_at(0).token, Token::Delimiter(d));
        assert_eq!(lexeme.token_at(0).range, Range { line: 0, char_begin: 0, char_end: 1 });
    }
    let (lexeme, errors) = lex_line(";");
    assert_eq!(lexeme.len(), 1);
    assert!(errors.is_empty());
    assert_eq!(lexeme.token_at(0).token, Token::EndOfStatement);
}

#[test]
fn or_assign_and_xor_assign_spellings_lex_as_two_tokens() {
    // The spelling tables give `||&` and `^^&`, which scan as two tokens.
    let (lexeme, _) = lex_line("||&");
    assert_eq!(lexeme.len(), 2);
    assert_eq!(lexeme.token_at(0).token, Token::Operator(Operator::Or));
    assert_eq!(lexeme.token_at(1).token, Token::Operator(Operator::BitwiseAnd));
    let (lexeme, _) = lex_line("^^&");
    assert_eq!(lexeme.len(), 2);
    assert_eq!(lexeme.token_at(0).token, Token::Operator(Operator::Xor));
    assert_eq!(lexeme.token_at(1).token, Token::Operator(Operator::BitwiseAnd));
}

#[test]
fn minus_five_lexes_as_unary_minus_then_integer() {
    let (lexeme, errors) = lex_line("-5");
    assert!(errors.is_empty());
    assert_eq!(lexeme.len(), 2);
    assert_eq!(lexeme.token_at(0).token, Token::Operator(Operator::UnaryMinus));
    assert_eq!(lexeme.token_at(1).token, Token::Integer(String::from("5")));
}

#[test]
fn three_minus_five_lexes_with_binary_minus() {
    let (lexeme, errors) = lex_line("3 - 5");
    assert!(errors.is_empty());
    assert_eq!(lexeme.len(), 3);
    assert_eq!(lexeme.token_at(0).token, Token::Integer(String::from("3")));
    assert_eq!(lexeme.token_at(1).token, Token::Operator(Operator::Minus));
    assert_eq!(lexeme.token_at(2).token, Token::Integer(String::from("5")));
}

#[test]
fn unary_rewrite_after_delimiter_and_operator() {
    // After a delimiter the rewrite fires, even after a closing one.
    let (lexeme, _) = lex_line("(-5) + -x");
    assert_eq!(lexeme.token_at(1).token, Token::Operator(Operator::UnaryMinus));
    assert_eq!(lexeme.token_at(4).token, Token::Operator(Operator::UnaryPlus));
    assert_eq!(lexeme.token_at(5).token, Token::Operator(Operator::UnaryMinus));
    // After an identifier it does not.
    let (lexeme, _) = lex_line("y + -x");
    assert_eq!(lexeme.token_at(1).token, Token::Operator(Operator::Plus));
    assert_eq!(lexeme.token_at(2).token, Token::Operator(Operator::UnaryMinus));
}

#[test]
fn malformed_number_is_one_token_error_spanning_the_run() {
    let (lexeme, errors) = lex_line("1.2.3");
    assert_eq!(lexeme.len(), 1);
    assert_eq!(lexeme.token_at(0).token, Token::TokenError(String::from("1.2.3")));
    assert_eq!(lexeme.token_at(0).range, Range { line: 0, char_begin: 0, char_end: 5 });
    assert_eq!(errors.len(), 1);
    assert_eq!(errors[0], LexerError::TokenError(Range { line: 0, char_begin: 0, char_end: 5 }));
}

#[test]
fn lexing_resumes_after_a_token_error() {
    let (lexeme, errors) = lex_line("1.2.3 x = 2");
    assert_eq!(errors.len(), 1);
    assert_eq!(lexeme.len(), 4);
    assert_eq!(lexeme.token_at(1).token, Token::Identifier(String::from("x")));
    assert_eq!(lexeme.token_at(2).token, Token::Operator(Operator::Assign));
    assert_eq!(lexeme.token_at(3).token, Token::Integer(String::from("2")));
    assert_eq!(lexeme.token_at(1).range, Range { line: 0, char_begin: 6, char_end: 7 });
}

#[test]
fn numeric_forms() {
    let (lexeme, errors) = lex_line("1.5 2e10 1e+5 .5 7");
    assert!(errors.is_empty());
    assert_eq!(lexeme.token_at(0).token, Token::Float(String::from("1.5")));
    assert_eq!(lexeme.token_at(1).token, Token::Float(String::from("2e10")));
    assert_eq!(lexeme.token_at(2).token, Token::Float(String::from("1e+5")));
    assert_eq!(lexeme.token_at(3).token, Token::Float(String::from(".5")));
    assert_eq!(lexeme.token_at(4).token, Token::Integer(String::from("7")));
}

#[test]
fn malformed_exponent_and_identifier_tail_are_errors() {
    // A bare trailing exponent marker ends the scan without a following
    // character, so the run still counts as a float.
    let (lexeme, errors) = lex_line("1e");
    assert!(errors.is_empty());
    assert_eq!(lexeme.token_at(0).token, Token::Float(String::from("1e")));
    // A non-digit right after the marker is a malformed token.
    let (lexeme, errors) = lex_line("1e;");
    assert_eq!(errors.len(), 1);
    assert_eq!(lexeme.token_at(0).token, Token::TokenError(String::from("1e")));
    assert_eq!(lexeme.token_at(1).token, Token::EndOfStatement);
    let (lexeme, errors) = lex_line("12ab");
    assert_eq!(errors.len(), 1);
    assert_eq!(lexeme.token_at(0).token, Token::TokenError(String::from("12ab")));
}

#[test]
fn point_alone_is_an_operator_but_point_digit_starts_a_number() {
    let (lexeme, _) = lex_line(". .5");
    assert_eq!(lexeme.token_at(0).token, Token::Operator(Operator::Point));
    assert_eq!(lexeme.token_at(1).token, Token::Float(String::from(".5")));
}

#[test]
fn comment_consumes_rest_of_line_and_is_dropped() {
    let (lexeme, errors) = lex_line("x = 1 // trailing words ; }");
    assert!(errors.is_empty());
    assert_eq!(lexeme.len(), 3);
    assert_eq!(lexeme.token_at(2).token, Token::Integer(String::from("1")));
}

#[test]
fn string_literal_token_and_length() {
    let (lexeme, errors) = lex_line("\"abc\"");
    assert!(errors.is_empty());
    assert_eq!(lexeme.len(), 1);
    assert_eq!(lexeme.token_at(0).token, Token::String(String::from("abc")));
    // Two enclosing quotes count toward the token's length.
    assert_eq!(lexeme.token_at(0).token.len(), 5);
    assert_eq!(lexeme.token_at(0).range, Range { line: 0, char_begin: 0, char_end: 5 });
}

#[test]
fn keyword_prefix_of_identifier_stays_identifier() {
    let (lexeme, _) = lex_line("define forx _x $y");
    assert_eq!(lexeme.token_at(0).token, Token::Identifier(String::from("define")));
    assert_eq!(lexeme.token_at(1).token, Token::Identifier(String::from("forx")));
    assert_eq!(lexeme.token_at(2).token, Token::Identifier(String::from("_x")));
    assert_eq!(lexeme.token_at(3).token, Token::Identifier(String::from("$y")));
}

#[test]
fn stray_character_is_a_single_character_error() {
    let (lexeme, errors) = lex_line("#");
    assert_eq!(lexeme.len(), 1);
    assert_eq!(lexeme.token_at(0).token, Token::TokenError(String::from("#")));
    assert_eq!(errors.len(), 1);
}

#[test]
fn keyword_and_operator_string_round_trips() {
    let keywords = vec![
        Keyword::Def,
        Keyword::If,
        Keyword::Else,
        Keyword::For,
        Keyword::While,
        Keyword::Return,
        Keyword::Class,
        Keyword::Void,
    ];
    for kw in keywords {
        assert_eq!(Keyword::from_string(kw.to_string()), Some(kw));
        assert_eq!(kw.len(), kw.to_string().len());
    }
    for op in all_operators() {
        if op == Operator::UnaryPlus || op == Operator::UnaryMinus {
            // The unary spellings map back to their binary forms.
            continue;
        }
        assert_eq!(Operator::from_string(op.to_string()), Some(op));
        assert_eq!(op.len(), op.to_string().len());
    }
    assert_eq!(Keyword::from_string("nope"), None);
    assert_eq!(Operator::from_string("~"), None);
    assert_eq!(Operator::from_string("+"), Some(Operator::Plus));
}

#[test]
fn character_classes() {
    assert!(is_identifier_init('a'));
    assert!(is_identifier_init('_'));
    assert!(is_identifier_init('$'));
    assert!(!is_identifier_init('1'));
    assert!(is_identifier_continuation('1'));
    assert!(is_number_init('.'));
    assert!(is_number_init('0'));
    assert!(!is_number_init('x'));
}

#[test]
fn find_token_multi_character_lookahead() {
    assert_eq!(find_token("<<= 1"), Token::Operator(Operator::ShiftLeftEq));
    assert_eq!(find_token("<< 1"), Token::Operator(Operator::ShiftLeft));
    assert_eq!(find_token("<= 1"), Token::Operator(Operator::LessEqThan));
    assert_eq!(find_token("< 1"), Token::Operator(Operator::LessThan));
    assert_eq!(find_token("&&= x"), Token::Operator(Operator::AndEq));
    assert_eq!(find_token("//abc"), Token::Comment(String::from("abc")));
}

#[test]
fn find_first_not_of_skips_given_characters() {
    assert_eq!(find_first_not_of("   a", vec![' ', '\t']), Some(3));
    assert_eq!(find_first_not_of("  ", vec![' ']), None);
    assert_eq!(find_first_not_of("b", vec![' ']), Some(0));
}

#[test]
fn unary_rewrite_is_local_to_plus_and_minus() {
    let lexeme = Lexeme::new();
    let mut token = Token::Operator(Operator::Plus);
    new_token_to_unary(&lexeme, &mut token);
    assert_eq!(token, Token::Operator(Operator::UnaryPlus));
    let mut token = Token::Operator(Operator::Times);
    new_token_to_unary(&lexeme, &mut token);
    assert_eq!(token, Token::Operator(Operator::Times));
}

#[test]
fn lexeme_accessors() {
    let mut lexeme = Lexeme::with_capacity(4);
    assert_eq!(lexeme.len(), 0);
    assert!(lexeme.last().is_none());
    assert!(lexeme.last_non_comment().is_none());
    lexeme.push(ContextedToken {
        token: Token::Identifier(String::from("a")),
        range: Range { line: 0, char_begin: 0, char_end: 1 },
    });
    lexeme.push(ContextedToken {
        token: Token::Comment(String::from(" c")),
        range: Range { line: 0, char_begin: 2, char_end: 6 },
    });
    assert_eq!(lexeme.len(), 2);
    assert_eq!(lexeme.last().unwrap().token, Token::Comment(String::from(" c")));
    assert_eq!(
        lexeme.last_non_comment().unwrap().token,
        Token::Identifier(String::from("a"))
    );
    let slot = lexeme.mut_token_at(0);
    slot.token = Token::Boolean(true);
    assert_eq!(lexeme.token_at(0).token, Token::Boolean(true));
    let m = lexeme.mut_last_non_comment().unwrap();
    assert_eq!(m.token, Token::Boolean(true));
    m.token = Token::Boolean(false);
    assert_eq!(lexeme.token_at(0).token, Token::Boolean(false));
    let last = lexeme.last_mut().unwrap();
    last.token = Token::EndOfFile;
    assert_eq!(lexeme.token_at(1).token, Token::EndOfFile);
}

#[test]
fn from_file_lexes_lines_in_order() {
    let lines = vec![String::from("int32 x;"), String::from("x = 1;")];
    let (lexeme, errors) = Lexeme::from_file(&lines);
    assert!(errors.is_empty());
    assert_eq!(lexeme.len(), 7);
    assert_eq!(lexeme.token_at(0).range.line, 0);
    assert_eq!(lexeme.token_at(3).range.line, 1);
    assert_eq!(lexeme.token_at(3).token, Token::Identifier(String::from("x")));
}

#[test]
fn error_messages() {
    let e = LexerError::TokenError(Range { line: 0, char_begin: 0, char_end: 5 });
    assert_eq!(e.get_msg(), String::from("Error reading token at 1:1-5"));
    let e = LexerError::CouldNotReadLine(7);
    assert_eq!(e.get_msg(), String::from("Could not read line 7"));
    let e = LexerError::CouldNotOpenFile(String::from("a.toy"));
    assert_eq!(e.get_msg(), String::from("Could not open file a.toy"));
}

#[test]
fn decimal_rendering() {
    assert_eq!(usize_to_string(0), String::from("0"));
    assert_eq!(usize_to_string(9), String::from("9"));
    assert_eq!(usize_to_string(10), String::from("10"));
    assert_eq!(usize_to_string(1234567890), String::from("1234567890"));
}

#[test]
fn token_lengths_by_variant() {
    assert_eq!(Token::EndOfFile.len(), 0);
    assert_eq!(Token::EndOfStatement.len(), 1);
    // A boolean literal's length derives from its spelling.
    assert_eq!(Token::Boolean(true).len(), 4);
    assert_eq!(Token::Boolean(false).len(), 5);
    assert_eq!(Token::Identifier(String::from("abc")).len(), 3);
    assert_eq!(Token::Comment(String::from("abc")).len(), 5);
    assert_eq!(Token::TokenError(String::from("1.2.3")).len(), 5);
    assert_eq!(Delimiter::ParenthesisOpen.len(), 1);
}

#[test]
fn unterminated_string_consumes_rest_of_line() {
    let (lexeme, errors) = lex_line("x = \"abc");
    assert!(errors.is_empty());
    assert_eq!(lexeme.len(), 3);
    assert_eq!(lexeme.token_at(2).token, Token::String(String::from("abc")));
}
