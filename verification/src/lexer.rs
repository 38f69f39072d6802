//! The lexer: consumes source text one line at a time and appends positioned
//! tokens to a `Lexeme`, recording malformed tokens as recoverable errors.
//!
//! Every scanning function is specified exactly: `spec_find_token` gives the
//! token found at the head of a character sequence, and `spec_lex_line` gives
//! the tokens and errors appended for one whole line.

use vstd::prelude::*;
use vstd::string::*;
use crate::error::LexerError;
use crate::lexeme::{ContextedToken, Lexeme, Range, SpecContextedToken, spec_last_non_comment};
use crate::tokens::{Delimiter, Keyword, Operator, SpecToken, Token};

verus! {

/// Whether a character beyond ASCII has the Unicode `Alphabetic` property.
/// Never applied to ASCII characters, whose classification is spelled out in
/// `spec_char_alphabetic`.
pub uninterp spec fn unicode_alphabetic(c: char) -> bool;

/// Whether a character beyond ASCII has the Unicode `Numeric` property.
pub uninterp spec fn unicode_numeric(c: char) -> bool;

/// Whether a character counts as a letter: among ASCII characters exactly
/// the letters, beyond ASCII the Unicode `Alphabetic` property.
pub open spec fn spec_char_alphabetic(c: char) -> bool {
    if (c as u32) < 128 {
        ('a' as u32 <= c as u32 && c as u32 <= 'z' as u32) || ('A' as u32 <= c as u32 && c as u32
            <= 'Z' as u32)
    } else {
        unicode_alphabetic(c)
    }
}

/// Whether a character counts as numeric: among ASCII characters exactly the
/// decimal digits, beyond ASCII the Unicode `Numeric` property.
pub open spec fn spec_char_numeric(c: char) -> bool {
    if (c as u32) < 128 {
        '0' as u32 <= c as u32 && c as u32 <= '9' as u32
    } else {
        unicode_numeric(c)
    }
}

/// Relies on char::is_alphabetic: true exactly for characters with the
/// Unicode `Alphabetic` property; among ASCII characters those are exactly
/// the letters.
#[verifier::external_body]
fn char_is_alphabetic(c: char) -> (r: bool)
    ensures
        r == spec_char_alphabetic(c),
        (c as u32) >= 128 ==> r == unicode_alphabetic(c),
{
    c.is_alphabetic()
}

/// Relies on char::is_numeric: true exactly for characters with the Unicode
/// `Numeric` property; among ASCII characters those are exactly the decimal
/// digits.
#[verifier::external_body]
fn char_is_numeric(c: char) -> (r: bool)
    ensures
        r == spec_char_numeric(c),
        (c as u32) >= 128 ==> r == unicode_numeric(c),
{
    c.is_numeric()
}

/// Whether a character may start an identifier.
pub open spec fn spec_is_identifier_init(c: char) -> bool {
    spec_char_alphabetic(c) || c == '_' || c == '$'
}

/// Whether a character may continue an identifier.
pub open spec fn spec_is_identifier_continuation(c: char) -> bool {
    spec_is_identifier_init(c) || spec_char_numeric(c)
}

/// Whether a character may start a numeric literal.
pub open spec fn spec_is_number_init(c: char) -> bool {
    spec_char_numeric(c) || c == '.'
}

pub fn is_identifier_init(ch: char) -> (r: bool)
    ensures
        r == spec_is_identifier_init(ch),
{
    char_is_alphabetic(ch) || ch == '_' || ch == '$'
}

pub fn is_identifier_continuation(ch: char) -> (r: bool)
    ensures
        r == spec_is_identifier_continuation(ch),
{
    is_identifier_init(ch) || char_is_numeric(ch)
}

pub fn is_number_init(ch: char) -> (r: bool)
    ensures
        r == spec_is_number_init(ch),
{
    char_is_numeric(ch) || ch == '.'
}

/// The end of the maximal run of identifier-continuation characters starting
/// at `i`.
pub open spec fn ident_run_len(s: Seq<char>, i: int) -> int
    recommends
        0 <= i <= s.len(),
    decreases s.len() - i,
{
    if 0 <= i < s.len() && spec_is_identifier_continuation(s[i]) {
        ident_run_len(s, i + 1)
    } else {
        i
    }
}

proof fn lemma_ident_run_len_bounds(s: Seq<char>, i: int)
    requires
        0 <= i <= s.len(),
    ensures
        i <= ident_run_len(s, i) <= s.len(),
    decreases s.len() - i,
{
    if i < s.len() && spec_is_identifier_continuation(s[i]) {
        lemma_ident_run_len_bounds(s, i + 1);
    }
}

fn ident_run_end(line: &str, i: usize) -> (r: usize)
    requires
        i <= line@.len(),
    ensures
        r == ident_run_len(line@, i as int),
        i <= r <= line@.len(),
    decreases line@.len() - i,
{
    let len = line.unicode_len();
    if i < len && is_identifier_continuation(line.get_char(i)) {
        ident_run_end(line, i + 1)
    } else {
        i
    }
}

/// The index of the first `"` at or after `i`, or the length of `s` if
/// there is none.
pub open spec fn non_quote_run(s: Seq<char>, i: int) -> int
    recommends
        0 <= i <= s.len(),
    decreases s.len() - i,
{
    if 0 <= i < s.len() && s[i] != '"' {
        non_quote_run(s, i + 1)
    } else {
        i
    }
}

proof fn lemma_non_quote_run_bounds(s: Seq<char>, i: int)
    requires
        0 <= i <= s.len(),
    ensures
        i <= non_quote_run(s, i) <= s.len(),
    decreases s.len() - i,
{
    if i < s.len() && s[i] != '"' {
        lemma_non_quote_run_bounds(s, i + 1);
    }
}

fn non_quote_run_end(line: &str, i: usize) -> (r: usize)
    requires
        i <= line@.len(),
    ensures
        r == non_quote_run(line@, i as int),
        i <= r <= line@.len(),
    decreases line@.len() - i,
{
    let len = line.unicode_len();
    if i < len && line.get_char(i) != '"' {
        non_quote_run_end(line, i + 1)
    } else {
        i
    }
}

/// The state of the numeric scanner: the index of the next character, the
/// "decimal point seen", "exponent marker seen", "exponent marker just
/// seen" and "exponent sign just seen" flags, and whether the run is
/// already known to be malformed.
pub ghost struct NumScan {
    pub n: int,
    pub point_found: bool,
    pub e_found: bool,
    pub e_just_found: bool,
    pub e_pm_just_found: bool,
    pub is_error: bool,
}

/// Runs the numeric scanner to completion from state `st`: consume `.`,
/// exponent markers, an optional sign right after a marker, and identifier
/// continuation characters; a second point, a repeated or malformed
/// exponent, or a letter in the run marks the whole run as an error.
pub open spec fn num_scan(s: Seq<char>, st: NumScan) -> NumScan
    recommends
        0 <= st.n <= s.len(),
    decreases s.len() - st.n,
{
    if st.n < 0 || st.n >= s.len() {
        st
    } else {
        let ch = s[st.n];
        if ch == '.' {
            num_scan(
                s,
                NumScan {
                    n: st.n + 1,
                    point_found: true,
                    is_error: st.is_error || st.point_found,
                    ..st
                },
            )
        } else if ch == 'e' || ch == 'E' {
            num_scan(
                s,
                NumScan {
                    n: st.n + 1,
                    e_found: true,
                    e_just_found: true,
                    is_error: st.is_error || st.e_found,
                    ..st
                },
            )
        } else if st.e_just_found && (ch == '+' || ch == '-') {
            num_scan(
                s,
                NumScan { n: st.n + 1, e_just_found: false, e_pm_just_found: true, ..st },
            )
        } else {
            let err = st.is_error || (st.e_just_found && !spec_char_numeric(ch)) || (
            st.e_pm_just_found && !spec_char_numeric(ch));
            if spec_is_identifier_continuation(ch) {
                num_scan(
                    s,
                    NumScan {
                        n: st.n + 1,
                        e_just_found: false,
                        e_pm_just_found: false,
                        is_error: err || spec_is_identifier_init(ch),
                        ..st
                    },
                )
            } else {
                NumScan { e_just_found: false, e_pm_just_found: false, is_error: err, ..st }
            }
        }
    }
}

proof fn lemma_num_scan_bounds(s: Seq<char>, st: NumScan)
    requires
        0 <= st.n <= s.len(),
    ensures
        st.n <= num_scan(s, st).n <= s.len(),
    decreases s.len() - st.n,
{
    if st.n < s.len() {
        let ch = s[st.n];
        if ch == '.' {
            lemma_num_scan_bounds(
                s,
                NumScan {
                    n: st.n + 1,
                    point_found: true,
                    is_error: st.is_error || st.point_found,
                    ..st
                },
            );
        } else if ch == 'e' || ch == 'E' {
            lemma_num_scan_bounds(
                s,
                NumScan {
                    n: st.n + 1,
                    e_found: true,
                    e_just_found: true,
                    is_error: st.is_error || st.e_found,
                    ..st
                },
            );
        } else if st.e_just_found && (ch == '+' || ch == '-') {
            lemma_num_scan_bounds(
                s,
                NumScan { n: st.n + 1, e_just_found: false, e_pm_just_found: true, ..st },
            );
        } else {
            let err = st.is_error || (st.e_just_found && !spec_char_numeric(ch)) || (
            st.e_pm_just_found && !spec_char_numeric(ch));
            if spec_is_identifier_continuation(ch) {
                lemma_num_scan_bounds(
                    s,
                    NumScan {
                        n: st.n + 1,
                        e_just_found: false,
                        e_pm_just_found: false,
                        is_error: err || spec_is_identifier_init(ch),
                        ..st
                    },
                );
            }
        }
    }
}

fn num_scan_run(
    line: &str,
    n: usize,
    point_found: bool,
    e_found: bool,
    e_just_found: bool,
    e_pm_just_found: bool,
    is_error: bool,
) -> (r: (usize, bool, bool, bool))
    requires
        n <= line@.len(),
    ensures
        ({
            let full = num_scan(
                line@,
                NumScan {
                    n: n as int,
                    point_found,
                    e_found,
                    e_just_found,
                    e_pm_just_found,
                    is_error,
                },
            );
            r.0 == full.n && r.1 == full.is_error && r.2 == full.point_found && r.3
                == full.e_found
        }),
        n <= r.0 <= line@.len(),
    decreases line@.len() - n,
{
    let len = line.unicode_len();
    if n >= len {
        (n, is_error, point_found, e_found)
    } else {
        let ch = line.get_char(n);
        if ch == '.' {
            num_scan_run(
                line,
                n + 1,
                true,
                e_found,
                e_just_found,
                e_pm_just_found,
                is_error || point_found,
            )
        } else if ch == 'e' || ch == 'E' {
            num_scan_run(
                line,
                n + 1,
                point_found,
                true,
                true,
                e_pm_just_found,
                is_error || e_found,
            )
        } else if e_just_found && (ch == '+' || ch == '-') {
            num_scan_run(line, n + 1, point_found, e_found, false, true, is_error)
        } else {
            let err = is_error || (e_just_found && !char_is_numeric(ch)) || (e_pm_just_found
                && !char_is_numeric(ch));
            if is_identifier_continuation(ch) {
                num_scan_run(
                    line,
                    n + 1,
                    point_found,
                    e_found,
                    false,
                    false,
                    err || is_identifier_init(ch),
                )
            } else {
                (n, err, point_found, e_found)
            }
        }
    }
}

/// The token found at the head of a non-empty character sequence: fixed
/// symbols by direct lookahead, then identifiers and keywords, then numeric
/// literals through the scanner state machine, then string literals, and
/// a single-character token error for anything else.
pub open spec fn spec_find_token(s: Seq<char>) -> SpecToken
    recommends
        s.len() >= 1,
{
    let c0 = s[0];
    if c0 == ';' {
        SpecToken::EndOfStatement
    } else if c0 == '(' {
        SpecToken::Delimiter(Delimiter::ParenthesisOpen)
    } else if c0 == ')' {
        SpecToken::Delimiter(Delimiter::ParenthesisClose)
    } else if c0 == '{' {
        SpecToken::Delimiter(Delimiter::BracketsOpen)
    } else if c0 == '}' {
        SpecToken::Delimiter(Delimiter::BracketsClose)
    } else if c0 == '[' {
        SpecToken::Delimiter(Delimiter::SquareBracketsOpen)
    } else if c0 == ']' {
        SpecToken::Delimiter(Delimiter::SquareBracketsClose)
    } else if c0 == ',' {
        SpecToken::Operator(Operator::Comma)
    } else if c0 == '+' {
        if s.len() >= 2 && s[1] == '=' {
            SpecToken::Operator(Operator::PlusEq)
        } else {
            SpecToken::Operator(Operator::Plus)
        }
    } else if c0 == '-' {
        if s.len() >= 2 && s[1] == '=' {
            SpecToken::Operator(Operator::MinusEq)
        } else {
            SpecToken::Operator(Operator::Minus)
        }
    } else if c0 == '*' {
        if s.len() >= 2 && s[1] == '=' {
            SpecToken::Operator(Operator::TimesEq)
        } else {
            SpecToken::Operator(Operator::Times)
        }
    } else if c0 == '/' {
        if s.len() >= 2 && s[1] == '/' {
            SpecToken::Comment(s.skip(2))
        } else if s.len() >= 2 && s[1] == '=' {
            SpecToken::Operator(Operator::DivEq)
        } else {
            SpecToken::Operator(Operator::Div)
        }
    } else if c0 == '%' {
        if s.len() >= 2 && s[1] == '=' {
            SpecToken::Operator(Operator::ModEq)
        } else {
            SpecToken::Operator(Operator::Mod)
        }
    } else if c0 == '=' {
        if s.len() >= 2 && s[1] == '=' {
            SpecToken::Operator(Operator::Equals)
        } else {
            SpecToken::Operator(Operator::Assign)
        }
    } else if c0 == '!' {
        if s.len() >= 2 && s[1] == '=' {
            SpecToken::Operator(Operator::NotEquals)
        } else {
            SpecToken::Operator(Operator::Not)
        }
    } else if c0 == '<' {
        if s.len() >= 2 && s[1] == '=' {
            SpecToken::Operator(Operator::LessEqThan)
        } else if s.len() >= 2 && s[1] == '<' {
            if s.len() >= 3 && s[2] == '=' {
                SpecToken::Operator(Operator::ShiftLeftEq)
            } else {
                SpecToken::Operator(Operator::ShiftLeft)
            }
        } else {
            SpecToken::Operator(Operator::LessThan)
        }
    } else if c0 == '>' {
        if s.len() >= 2 && s[1] == '=' {
            SpecToken::Operator(Operator::GreaterEqThan)
        } else if s.len() >= 2 && s[1] == '>' {
            if s.len() >= 3 && s[2] == '=' {
                SpecToken::Operator(Operator::ShiftRightEq)
            } else {
                SpecToken::Operator(Operator::ShiftRight)
            }
        } else {
            SpecToken::Operator(Operator::GreaterThan)
        }
    } else if c0 == '&' {
        if s.len() >= 2 && s[1] == '=' {
            SpecToken::Operator(Operator::BitwiseAndEq)
        } else if s.len() >= 2 && s[1] == '&' {
            if s.len() >= 3 && s[2] == '=' {
                SpecToken::Operator(Operator::AndEq)
            } else {
                SpecToken::Operator(Operator::And)
            }
        } else {
            SpecToken::Operator(Operator::BitwiseAnd)
        }
    } else if c0 == '|' {
        if s.len() >= 2 && s[1] == '=' {
            SpecToken::Operator(Operator::BitwiseOrEq)
        } else if s.len() >= 2 && s[1] == '|' {
            if s.len() >= 3 && s[2] == '=' {
                SpecToken::Operator(Operator::OrEq)
            } else {
                SpecToken::Operator(Operator::Or)
            }
        } else {
            SpecToken::Operator(Operator::BitwiseOr)
        }
    } else if c0 == '^' {
        if s.len() >= 2 && s[1] == '=' {
            SpecToken::Operator(Operator::BitwiseXorEq)
        } else if s.len() >= 2 && s[1] == '^' {
            if s.len() >= 3 && s[2] == '=' {
                SpecToken::Operator(Operator::XorEq)
            } else {
                SpecToken::Operator(Operator::Xor)
            }
        } else {
            SpecToken::Operator(Operator::BitwiseXor)
        }
    } else if c0 == '.' && !(s.len() >= 2 && spec_char_numeric(s[1])) {
        SpecToken::Operator(Operator::Point)
    } else if spec_is_identifier_init(c0) {
        let n = ident_run_len(s, 0);
        let sp = s.take(n);
        match Keyword::spec_from(sp) {
            Some(kw) => SpecToken::Keyword(kw),
            None => SpecToken::Identifier(sp),
        }
    } else if spec_is_number_init(c0) {
        let end = num_scan(
            s,
            NumScan {
                n: 0,
                point_found: false,
                e_found: false,
                e_just_found: false,
                e_pm_just_found: false,
                is_error: false,
            },
        );
        let sp = s.take(end.n);
        if end.is_error {
            SpecToken::TokenError(sp)
        } else if end.point_found || end.e_found {
            SpecToken::Float(sp)
        } else {
            SpecToken::Integer(sp)
        }
    } else if c0 == '"' {
        SpecToken::StrLit(s.subrange(1, non_quote_run(s, 1)))
    } else {
        SpecToken::TokenError(seq![c0])
    }
}

/// Finds one token at the head of a non-empty line fragment.
pub fn find_token(line: &str) -> (r: Token)
    requires
        line@.len() >= 1,
    ensures
        r@ == spec_find_token(line@),
{
    let len = line.unicode_len();
    let char_0 = line.get_char(0);
    let char_1: Option<char> = if len >= 2 {
        Some(line.get_char(1))
    } else {
        None
    };
    let char_2: Option<char> = if len >= 3 {
        Some(line.get_char(2))
    } else {
        None
    };

    if char_0 == ';' {
        return Token::EndOfStatement;
    }
    if char_0 == '(' {
        return Token::Delimiter(Delimiter::ParenthesisOpen);
    }
    if char_0 == ')' {
        return Token::Delimiter(Delimiter::ParenthesisClose);
    }
    if char_0 == '{' {
        return Token::Delimiter(Delimiter::BracketsOpen);
    }
    if char_0 == '}' {
        return Token::Delimiter(Delimiter::BracketsClose);
    }
    if char_0 == '[' {
        return Token::Delimiter(Delimiter::SquareBracketsOpen);
    }
    if char_0 == ']' {
        return Token::Delimiter(Delimiter::SquareBracketsClose);
    }
    if char_0 == ',' {
        return Token::Operator(Operator::Comma);
    }
    if char_0 == '+' {
        return match char_1 {
            Some('=') => Token::Operator(Operator::PlusEq),
            _ => Token::Operator(Operator::Plus),
        };
    }
    if char_0 == '-' {
        return match char_1 {
            Some('=') => Token::Operator(Operator::MinusEq),
            _ => Token::Operator(Operator::Minus),
        };
    }
    if char_0 == '*' {
        return match char_1 {
            Some('=') => Token::Operator(Operator::TimesEq),
            _ => Token::Operator(Operator::Times),
        };
    }
    if char_0 == '/' {
        return match char_1 {
            Some('/') => Token::Comment(line.substring_char(2, len).to_owned()),
            Some('=') => Token::Operator(Operator::DivEq),
            _ => Token::Operator(Operator::Div),
        };
    }
    if char_0 == '%' {
        return match char_1 {
            Some('=') => Token::Operator(Operator::ModEq),
            _ => Token::Operator(Operator::Mod),
        };
    }
    if char_0 == '=' {
        return match char_1 {
            Some('=') => Token::Operator(Operator::Equals),
            _ => Token::Operator(Operator::Assign),
        };
    }
    if char_0 == '!' {
        return match char_1 {
            Some('=') => Token::Operator(Operator::NotEquals),
            _ => Token::Operator(Operator::Not),
        };
    }
    if char_0 == '<' {
        return match char_1 {
            Some('=') => Token::Operator(Operator::LessEqThan),
            Some('<') => match char_2 {
                Some('=') => Token::Operator(Operator::ShiftLeftEq),
                _ => Token::Operator(Operator::ShiftLeft),
            },
            _ => Token::Operator(Operator::LessThan),
        };
    }
    if char_0 == '>' {
        return match char_1 {
            Some('=') => Token::Operator(Operator::GreaterEqThan),
            Some('>') => match char_2 {
                Some('=') => Token::Operator(Operator::ShiftRightEq),
                _ => Token::Operator(Operator::ShiftRight),
            },
            _ => Token::Operator(Operator::GreaterThan),
        };
    }
    if char_0 == '&' {
        return match char_1 {
            Some('=') => Token::Operator(Operator::BitwiseAndEq),
            Some('&') => match char_2 {
                Some('=') => Token::Operator(Operator::AndEq),
                _ => Token::Operator(Operator::And),
            },
            _ => Token::Operator(Operator::BitwiseAnd),
        };
    }
    if char_0 == '|' {
        return match char_1 {
            Some('=') => Token::Operator(Operator::BitwiseOrEq),
            Some('|') => match char_2 {
                Some('=') => Token::Operator(Operator::OrEq),
                _ => Token::Operator(Operator::Or),
            },
            _ => Token::Operator(Operator::BitwiseOr),
        };
    }
    if char_0 == '^' {
        return match char_1 {
            Some('=') => Token::Operator(Operator::BitwiseXorEq),
            Some('^') => match char_2 {
                Some('=') => Token::Operator(Operator::XorEq),
                _ => Token::Operator(Operator::Xor),
            },
            _ => Token::Operator(Operator::BitwiseXor),
        };
    }
    if char_0 == '.' {
        let followed_by_digit = match char_1 {
            Some(c) => char_is_numeric(c),
            None => false,
        };
        if !followed_by_digit {
            return Token::Operator(Operator::Point);
        }
    }

    if is_identifier_init(char_0) {
        let n = ident_run_end(line, 0);
        let sp = line.substring_char(0, n);
        match Keyword::from_string(sp) {
            Some(kw) => {
                return Token::Keyword(kw);
            },
            None => {},
        }
        return Token::Identifier(sp.to_owned());
    }

    if is_number_init(char_0) {
        let (n, is_error, point_found, e_found) = num_scan_run(
            line,
            0,
            false,
            false,
            false,
            false,
            false,
        );
        let sp = line.substring_char(0, n);
        if is_error {
            return Token::TokenError(sp.to_owned());
        } else if point_found || e_found {
            return Token::Float(sp.to_owned());
        } else {
            return Token::Integer(sp.to_owned());
        }
    }

    if char_0 == '"' {
        let n = non_quote_run_end(line, 1);
        let sp = line.substring_char(1, n);
        return Token::String(sp.to_owned());
    }

    let sp = line.substring_char(0, 1);
    proof {
        assert(line@.subrange(0, 1) =~= seq![line@[0]]);
    }
    Token::TokenError(sp.to_owned())
}

/// The whitespace characters skipped between tokens.
pub open spec fn ws_chars() -> Seq<char> {
    seq![' ', '\n', '\r', '\t']
}

/// The first index at or after `i` whose character is not in `cs`, or `None`
/// if only characters of `cs` remain.
pub open spec fn spec_find_first_not_of(s: Seq<char>, cs: Seq<char>, i: int) -> Option<int>
    recommends
        0 <= i <= s.len(),
    decreases s.len() - i,
{
    if i < 0 || i >= s.len() {
        None
    } else if cs.contains(s[i]) {
        spec_find_first_not_of(s, cs, i + 1)
    } else {
        Some(i)
    }
}

fn char_in(chars: &Vec<char>, c: char) -> (r: bool)
    ensures
        r == chars@.contains(c),
{
    let mut k: usize = 0;
    while k < chars.len()
        invariant
            k <= chars@.len(),
            forall|j: int| 0 <= j < k ==> chars@[j] != c,
        decreases chars@.len() - k,
    {
        if chars[k] == c {
            return true;
        }
        k += 1;
    }
    false
}

fn find_first_not_of_from(s: &str, chars: &Vec<char>, i: usize) -> (r: Option<usize>)
    requires
        i <= s@.len(),
    ensures
        match r {
            Some(n) => Some(n as int) == spec_find_first_not_of(s@, chars@, i as int) && i <= n
                < s@.len(),
            None => spec_find_first_not_of(s@, chars@, i as int) is None,
        },
    decreases s@.len() - i,
{
    let len = s.unicode_len();
    if i >= len {
        return None;
    }
    if char_in(chars, s.get_char(i)) {
        find_first_not_of_from(s, chars, i + 1)
    } else {
        Some(i)
    }
}

/// Finds the first character of `s` that is not one of `chars`.
pub fn find_first_not_of(s: &str, chars: Vec<char>) -> (r: Option<usize>)
    ensures
        match r {
            Some(n) => Some(n as int) == spec_find_first_not_of(s@, chars@, 0) && n < s@.len(),
            None => spec_find_first_not_of(s@, chars@, 0) is None,
        },
{
    find_first_not_of_from(s, &chars, 0)
}

/// The lexer's one-token-lookback rewrite: a plus or minus becomes its unary
/// form when the last non-comment token so far is absent, a delimiter, a
/// statement terminator, or another operator.
pub open spec fn spec_to_unary(prev: Option<SpecContextedToken>, t: SpecToken) -> SpecToken {
    if t == SpecToken::Operator(Operator::Plus) || t == SpecToken::Operator(Operator::Minus) {
        let rewrite = match prev {
            None => true,
            Some(p) => p.token is Delimiter || p.token is EndOfStatement || p.token is Operator,
        };
        if rewrite {
            if t == SpecToken::Operator(Operator::Plus) {
                SpecToken::Operator(Operator::UnaryPlus)
            } else {
                SpecToken::Operator(Operator::UnaryMinus)
            }
        } else {
            t
        }
    } else {
        t
    }
}

/// Rewrites a just-produced token to its unary form where the lookback rule
/// calls for it.
pub fn new_token_to_unary(lexeme: &Lexeme, token: &mut Token)
    ensures
        final(token)@ == spec_to_unary(spec_last_non_comment(lexeme@), old(token)@),
{
    let is_plus = match token {
        Token::Operator(Operator::Plus) => true,
        _ => false,
    };
    let is_minus = match token {
        Token::Operator(Operator::Minus) => true,
        _ => false,
    };
    if !(is_plus || is_minus) {
        return ;
    }
    match lexeme.last_non_comment() {
        None => {},
        Some(t) => match &t.token {
            Token::Delimiter(_) => {},
            Token::EndOfStatement => {},
            Token::Operator(_) => {},
            _ => {
                return ;
            },
        },
    }
    if is_plus {
        *token = Token::Operator(Operator::UnaryPlus);
    }
    if is_minus {
        *token = Token::Operator(Operator::UnaryMinus);
    }
}

proof fn lemma_find_token_len(s: Seq<char>)
    requires
        s.len() >= 1,
    ensures
        1 <= spec_find_token(s).spec_len() <= s.len() + 1,
{
    reveal_strlit("def");
    reveal_strlit("if");
    reveal_strlit("else");
    reveal_strlit("for");
    reveal_strlit("while");
    reveal_strlit("return");
    reveal_strlit("class");
    reveal_strlit("void");
    reveal_strlit("=");
    reveal_strlit("+");
    reveal_strlit("-");
    reveal_strlit("*");
    reveal_strlit("/");
    reveal_strlit("%");
    reveal_strlit("+=");
    reveal_strlit("-=");
    reveal_strlit("*=");
    reveal_strlit("/=");
    reveal_strlit("%=");
    reveal_strlit("==");
    reveal_strlit("!=");
    reveal_strlit("<");
    reveal_strlit("<=");
    reveal_strlit(">");
    reveal_strlit(">=");
    reveal_strlit("<<");
    reveal_strlit(">>");
    reveal_strlit("<<=");
    reveal_strlit(">>=");
    reveal_strlit("!");
    reveal_strlit("&&");
    reveal_strlit("||");
    reveal_strlit("^^");
    reveal_strlit("&");
    reveal_strlit("|");
    reveal_strlit("^");
    reveal_strlit("&&=");
    reveal_strlit("||&");
    reveal_strlit("^^&");
    reveal_strlit("&=");
    reveal_strlit("|=");
    reveal_strlit("^=");
    reveal_strlit(",");
    reveal_strlit(".");
    let c0 = s[0];
    lemma_ident_run_len_bounds(s, 0);
    lemma_non_quote_run_bounds(s, 1);
    if spec_is_identifier_continuation(c0) {
        lemma_ident_run_len_bounds(s, 1);
    }
    if spec_is_number_init(c0) {
        if c0 == '.' {
            lemma_num_scan_bounds(
                s,
                NumScan {
                    n: 1,
                    point_found: true,
                    e_found: false,
                    e_just_found: false,
                    e_pm_just_found: false,
                    is_error: false,
                },
            );
        } else {
            lemma_num_scan_bounds(
                s,
                NumScan {
                    n: 1,
                    point_found: false,
                    e_found: false,
                    e_just_found: false,
                    e_pm_just_found: false,
                    is_error: spec_is_identifier_init(c0),
                },
            );
        }
    }
}

/// The unary rewrite keeps a token's length: the unary forms spell the same
/// as their binary counterparts.
proof fn lemma_to_unary_len(prev: Option<SpecContextedToken>, t: SpecToken)
    ensures
        spec_to_unary(prev, t).spec_len() == t.spec_len(),
        spec_to_unary(prev, t) is TokenError <==> t is TokenError,
        spec_to_unary(prev, t) is Comment <==> t is Comment,
        spec_to_unary(prev, t) is StrLit <==> t is StrLit,
{
}

/// Lexes the rest of one line from character position `pos`: skip
/// whitespace, find a token, apply the unary rewrite, record a token error
/// where the token is malformed, append anything but a comment, and
/// continue past the token. An unterminated string literal consumes the
/// rest of the line.
pub open spec fn spec_lex_line(
    s: Seq<char>,
    pos: int,
    n_line: usize,
    acc: Seq<SpecContextedToken>,
    errs: Seq<LexerError>,
) -> (Seq<SpecContextedToken>, Seq<LexerError>)
    recommends
        0 <= pos <= s.len(),
    decreases s.len() - pos,
{
    match spec_find_first_not_of(s, ws_chars(), pos) {
        None => (acc, errs),
        Some(p) => {
            if p < pos || p >= s.len() {
                (acc, errs)
            } else {
                let t = spec_to_unary(
                    spec_last_non_comment(acc),
                    spec_find_token(s.subrange(p, s.len() as int)),
                );
                let tlen = t.spec_len();
                let range = Range {
                    line: n_line,
                    char_begin: p as usize,
                    char_end: (p + tlen) as usize,
                };
                let errs2 = if t is TokenError {
                    errs.push(LexerError::TokenError(range))
                } else {
                    errs
                };
                let acc2 = if t is Comment {
                    acc
                } else {
                    acc.push(SpecContextedToken { token: t, range })
                };
                let adv: int = if tlen <= s.len() - p {
                    tlen as int
                } else {
                    s.len() - p
                };
                if adv < 1 {
                    (acc2, errs2)
                } else {
                    spec_lex_line(s, p + adv, n_line, acc2, errs2)
                }
            }
        },
    }
}

fn lex_line_from(
    lexeme: &mut Lexeme,
    line: &str,
    pos: usize,
    n_line: usize,
    errors: &mut Vec<LexerError>,
)
    requires
        pos <= line@.len(),
        line@.len() < usize::MAX,
    ensures
        final(lexeme)@ == spec_lex_line(
            line@,
            pos as int,
            n_line,
            old(lexeme)@,
            old(errors)@,
        ).0,
        final(errors)@ == spec_lex_line(
            line@,
            pos as int,
            n_line,
            old(lexeme)@,
            old(errors)@,
        ).1,
    decreases line@.len() - pos,
{
    let ws: Vec<char> = vec![' ', '\n', '\r', '\t'];
    proof {
        assert(ws@ =~= ws_chars());
    }
    let p = match find_first_not_of_from(line, &ws, pos) {
        None => {
            return ;
        },
        Some(p) => p,
    };
    let len = line.unicode_len();
    let rest = line.substring_char(p, len);
    let mut token = find_token(rest);
    new_token_to_unary(lexeme, &mut token);
    proof {
        lemma_find_token_len(rest@);
        lemma_to_unary_len(spec_last_non_comment(lexeme@), spec_find_token(rest@));
        assert(token.len_fits());
    }
    let token_len = token.len();
    let range = Range { line: n_line, char_begin: p, char_end: p + token_len };
    let is_error = match &token {
        Token::TokenError(_) => true,
        _ => false,
    };
    if is_error {
        errors.push(LexerError::TokenError(range));
    }
    let is_comment = match &token {
        Token::Comment(_) => true,
        _ => false,
    };
    if !is_comment {
        lexeme.push(ContextedToken { token, range });
    }
    let adv = if token_len <= len - p {
        token_len
    } else {
        len - p
    };
    lex_line_from(lexeme, line, p + adv, n_line, errors);
}

/// Lexes one source line, appending its tokens and its lexical errors.
pub fn read_tokens_in_line(
    lexeme: &mut Lexeme,
    line: &str,
    n_line: usize,
    errors: &mut Vec<LexerError>,
)
    requires
        line@.len() < usize::MAX,
    ensures
        final(lexeme)@ == spec_lex_line(line@, 0, n_line, old(lexeme)@, old(errors)@).0,
        final(errors)@ == spec_lex_line(line@, 0, n_line, old(lexeme)@, old(errors)@).1,
{
    lex_line_from(lexeme, line, 0, n_line, errors);
}

/// Lexes the lines of a source file, line `i` onward, onto `acc` and `errs`.
pub open spec fn spec_lex_lines(
    ls: Seq<Seq<char>>,
    i: int,
    acc: Seq<SpecContextedToken>,
    errs: Seq<LexerError>,
) -> (Seq<SpecContextedToken>, Seq<LexerError>)
    recommends
        0 <= i <= ls.len(),
    decreases ls.len() - i,
{
    if i < 0 || i >= ls.len() {
        (acc, errs)
    } else {
        let r = spec_lex_line(ls[i], 0, i as usize, acc, errs);
        spec_lex_lines(ls, i + 1, r.0, r.1)
    }
}

impl Lexeme {
    /// Builds the token sequence and the list of lexical errors from the
    /// lines of a source file. Opening and reading the file belong to the
    /// caller; a read failure ends the run, and the caller appends the
    /// fatal error record to the returned list.
    pub fn from_file(lines: &Vec<String>) -> (r: (Lexeme, Vec<LexerError>))
        requires
            forall|i: int| 0 <= i < lines@.len() ==> #[trigger] lines@[i]@.len() < usize::MAX,
        ensures
            r.0@ == spec_lex_lines(
                lines.deep_view(),
                0,
                Seq::<SpecContextedToken>::empty(),
                Seq::<LexerError>::empty(),
            ).0,
            r.1@ == spec_lex_lines(
                lines.deep_view(),
                0,
                Seq::<SpecContextedToken>::empty(),
                Seq::<LexerError>::empty(),
            ).1,
    {
        let mut lexeme = Lexeme::new();
        let mut errors: Vec<LexerError> = Vec::new();
        let mut n_line: usize = 0;
        while n_line < lines.len()
            invariant
                n_line <= lines@.len(),
                forall|i: int| 0 <= i < lines@.len() ==> #[trigger] lines@[i]@.len()
                    < usize::MAX,
                spec_lex_lines(
                    lines.deep_view(),
                    0,
                    Seq::<SpecContextedToken>::empty(),
                    Seq::<LexerError>::empty(),
                ) == spec_lex_lines(lines.deep_view(), n_line as int, lexeme@, errors@),
            decreases lines@.len() - n_line,
        {
            proof {
                assert(lines.deep_view()[n_line as int] == lines@[n_line as int]@);
            }
            read_tokens_in_line(&mut lexeme, lines[n_line].as_str(), n_line, &mut errors);
            n_line += 1;
        }
        (lexeme, errors)
    }
}

/// The spelling of a fixed-spelling token kind: the statement terminator,
/// keywords, operators, and delimiters.
pub open spec fn spec_token_spelling(t: SpecToken) -> Seq<char> {
    match t {
        SpecToken::EndOfStatement => ";"@,
        SpecToken::Keyword(kw) => kw.spelling(),
        SpecToken::Operator(op) => op.spelling(),
        SpecToken::Delimiter(d) => d.spelling(),
        _ => Seq::empty(),
    }
}

proof fn lemma_fixed_token_scan(t: SpecToken)
    requires
        t is EndOfStatement || t is Keyword || t is Operator || t is Delimiter,
        t != SpecToken::Operator(Operator::OrEq),
        t != SpecToken::Operator(Operator::XorEq),
    ensures
        ({
            let sp = spec_token_spelling(t);
            let f = spec_find_token(sp);
            1 <= sp.len() <= 6 && f.spec_len() == sp.len() && !(f is Comment) && !(f
                is TokenError) && !(f is StrLit) && spec_find_first_not_of(sp, ws_chars(), 0)
                == Some(0int)
        }),
{
    reveal_strlit(";");
    reveal_strlit("def");
    reveal_strlit("if");
    reveal_strlit("else");
    reveal_strlit("for");
    reveal_strlit("while");
    reveal_strlit("return");
    reveal_strlit("class");
    reveal_strlit("void");
    reveal_strlit("=");
    reveal_strlit("+");
    reveal_strlit("-");
    reveal_strlit("*");
    reveal_strlit("/");
    reveal_strlit("%");
    reveal_strlit("+=");
    reveal_strlit("-=");
    reveal_strlit("*=");
    reveal_strlit("/=");
    reveal_strlit("%=");
    reveal_strlit("==");
    reveal_strlit("!=");
    reveal_strlit("<");
    reveal_strlit("<=");
    reveal_strlit(">");
    reveal_strlit(">=");
    reveal_strlit("<<");
    reveal_strlit(">>");
    reveal_strlit("<<=");
    reveal_strlit(">>=");
    reveal_strlit("!");
    reveal_strlit("&&");
    reveal_strlit("||");
    reveal_strlit("^^");
    reveal_strlit("&");
    reveal_strlit("|");
    reveal_strlit("^");
    reveal_strlit("&&=");
    reveal_strlit("&=");
    reveal_strlit("|=");
    reveal_strlit("^=");
    reveal_strlit(",");
    reveal_strlit(".");
    reveal_strlit("(");
    reveal_strlit(")");
    reveal_strlit("{");
    reveal_strlit("}");
    reveal_strlit("[");
    reveal_strlit("]");
    reveal_with_fuel(ident_run_len, 8);
    reveal_with_fuel(spec_find_first_not_of, 2);
    let sp = spec_token_spelling(t);
    match t {
        SpecToken::Keyword(kw) => {
            assert(spec_is_identifier_init(sp[0]));
            assert(ident_run_len(sp, 0) == sp.len() as int);
            assert(sp.take(sp.len() as int) =~= sp);
            assert(Keyword::spec_from(sp) == Some(kw));
            assert(spec_find_token(sp) == SpecToken::Keyword(kw));
        },
        _ => {},
    }
}

/// A line whose single token covers it entirely: lexing appends exactly
/// that token, at the line's full range, and no error.
proof fn lemma_lex_single(s: Seq<char>, n_line: usize)
    requires
        1 <= s.len() < usize::MAX,
        spec_find_first_not_of(s, ws_chars(), 0) == Some(0int),
        spec_to_unary(None, spec_find_token(s)).spec_len() == s.len(),
        !(spec_to_unary(None, spec_find_token(s)) is Comment),
        !(spec_to_unary(None, spec_find_token(s)) is TokenError),
    ensures
        ({
            let t = spec_to_unary(None, spec_find_token(s));
            let r = spec_lex_line(s, 0, n_line, Seq::empty(), Seq::empty());
            r.1 == Seq::<crate::error::LexerError>::empty() && r.0 =~= seq![
                SpecContextedToken {
                    token: t,
                    range: Range { line: n_line, char_begin: 0, char_end: s.len() as usize },
                },
            ]
        }),
{
    let acc0 = Seq::<SpecContextedToken>::empty();
    let errs0 = Seq::<crate::error::LexerError>::empty();
    assert(spec_last_non_comment(acc0) is None);
    let t = spec_to_unary(spec_last_non_comment(acc0), spec_find_token(s.subrange(0, s.len() as int)));
    assert(s.subrange(0, s.len() as int) =~= s);
    let range = Range { line: n_line, char_begin: 0, char_end: s.len() as usize };
    let acc1 = acc0.push(SpecContextedToken { token: t, range });
    assert(spec_find_first_not_of(s, ws_chars(), s.len() as int) is None);
    assert(spec_lex_line(s, s.len() as int, n_line, acc1, errs0) == (acc1, errs0));
    assert(spec_lex_line(s, 0, n_line, acc0, errs0) == (acc1, errs0));
}

/// Each fixed-spelling token kind, lexed alone on a line, yields exactly
/// one token, at a range whose length is the spelling's character length,
/// and no lexical error. A plus or minus yields its unary form, of the
/// same length. The two compound spellings whose own characters lex as two
/// tokens (the or-assign and xor-assign forms) are excluded.
pub proof fn lemma_fixed_spelling_single_token(t: SpecToken, n_line: usize)
    requires
        t is EndOfStatement || t is Keyword || t is Operator || t is Delimiter,
        t != SpecToken::Operator(Operator::OrEq),
        t != SpecToken::Operator(Operator::XorEq),
    ensures
        ({
            let sp = spec_token_spelling(t);
            let r = spec_lex_line(sp, 0, n_line, Seq::empty(), Seq::empty());
            r.1 == Seq::<crate::error::LexerError>::empty() && r.0.len() == 1 && r.0[0].range
                == (Range { line: n_line, char_begin: 0, char_end: sp.len() as usize })
                && r.0[0].token.spec_len() == sp.len()
        }),
{
    let sp = spec_token_spelling(t);
    lemma_fixed_token_scan(t);
    lemma_to_unary_len(None, spec_find_token(sp));
    assert(sp.len() < usize::MAX);
    lemma_lex_single(sp, n_line);
}

proof fn lemma_find_first_not_of_bounds(s: Seq<char>, cs: Seq<char>, i: int)
    requires
        0 <= i,
    ensures
        spec_find_first_not_of(s, cs, i) matches Some(p) ==> i <= p < s.len(),
    decreases s.len() - i,
{
    if i < s.len() && cs.contains(s[i]) {
        lemma_find_first_not_of_bounds(s, cs, i + 1);
    }
}

/// Ranges are half-open, non-empty, non-overlapping within a line, and
/// strictly increasing in scan order: every token a line contributes lies
/// at or after the scan position, and each one ends no later than the next
/// begins.
pub proof fn lemma_lex_line_ranges(
    s: Seq<char>,
    pos: int,
    n_line: usize,
    acc: Seq<SpecContextedToken>,
    errs: Seq<crate::error::LexerError>,
)
    requires
        0 <= pos <= s.len(),
        s.len() < usize::MAX,
    ensures
        spec_lex_line(s, pos, n_line, acc, errs).0.len() >= acc.len(),
        spec_lex_line(s, pos, n_line, acc, errs).0.subrange(0, acc.len() as int) == acc,
        forall|i: int|
            acc.len() <= i < spec_lex_line(s, pos, n_line, acc, errs).0.len() ==> {
                let tok = #[trigger] spec_lex_line(s, pos, n_line, acc, errs).0[i];
                tok.range.line == n_line && pos <= tok.range.char_begin
                    && tok.range.char_begin < tok.range.char_end
            },
        forall|i: int|
            acc.len() <= i < spec_lex_line(s, pos, n_line, acc, errs).0.len() - 1
                ==> #[trigger] spec_lex_line(s, pos, n_line, acc, errs).0[i].range.char_end
                <= spec_lex_line(s, pos, n_line, acc, errs).0[i + 1].range.char_begin,
    decreases s.len() - pos,
{
    let r = spec_lex_line(s, pos, n_line, acc, errs);
    lemma_find_first_not_of_bounds(s, ws_chars(), pos);
    match spec_find_first_not_of(s, ws_chars(), pos) {
        None => {
            assert(r.0.subrange(0, acc.len() as int) =~= acc);
        },
        Some(p) => {
            if p < pos || p >= s.len() {
                assert(r.0.subrange(0, acc.len() as int) =~= acc);
            } else {
                let t = spec_to_unary(
                    spec_last_non_comment(acc),
                    spec_find_token(s.subrange(p, s.len() as int)),
                );
                lemma_find_token_len(s.subrange(p, s.len() as int));
                lemma_to_unary_len(
                    spec_last_non_comment(acc),
                    spec_find_token(s.subrange(p, s.len() as int)),
                );
                let tlen = t.spec_len();
                let range = Range {
                    line: n_line,
                    char_begin: p as usize,
                    char_end: (p + tlen) as usize,
                };
                let errs2 = if t is TokenError {
                    errs.push(crate::error::LexerError::TokenError(range))
                } else {
                    errs
                };
                let acc2 = if t is Comment {
                    acc
                } else {
                    acc.push(SpecContextedToken { token: t, range })
                };
                let adv: int = if tlen <= s.len() - p {
                    tlen as int
                } else {
                    s.len() - p
                };
                lemma_lex_line_ranges(s, p + adv, n_line, acc2, errs2);
                let rr = spec_lex_line(s, p + adv, n_line, acc2, errs2);
                assert(r == rr);
                assert(rr.0.subrange(0, acc2.len() as int) == acc2);
                if t is Comment {
                    assert(r.0.subrange(0, acc.len() as int) =~= acc);
                } else {
                    assert(acc2.subrange(0, acc.len() as int) =~= acc);
                    assert(r.0.subrange(0, acc.len() as int) =~= acc) by {
                        assert forall|i: int| 0 <= i < acc.len() implies r.0[i] == acc[i] by {
                            assert(rr.0.subrange(0, acc2.len() as int)[i] == acc2[i]);
                        }
                    }
                    assert(r.0[acc.len() as int] == acc2[acc.len() as int]) by {
                        assert(rr.0.subrange(0, acc2.len() as int)[acc.len() as int]
                            == acc2[acc.len() as int]);
                    }
                    if adv < tlen {
                        // The token ran past the end of the line: nothing
                        // follows it.
                        assert(p + adv == s.len());
                        assert(spec_find_first_not_of(s, ws_chars(), p + adv) is None);
                        assert(rr.0.len() == acc2.len());
                    }
                    assert forall|i: int|
                        acc.len() <= i < r.0.len() - 1 implies #[trigger] r.0[i].range.char_end
                        <= r.0[i + 1].range.char_begin by {
                        if i == acc.len() {
                            assert(r.0[i + 1].range.line == n_line);
                            assert(p + adv <= r.0[i + 1].range.char_begin);
                        }
                    }
                }
            }
        },
    }
}

/// Over a whole lexing run, tokens carry their source line and appear in
/// scan order: line indexes never decrease, and two tokens of one line do
/// not overlap, the earlier ending no later than the later begins.
proof fn lemma_lex_lines_prefix(
    ls: Seq<Seq<char>>,
    i: int,
    acc: Seq<SpecContextedToken>,
    errs: Seq<crate::error::LexerError>,
)
    requires
        0 <= i <= ls.len(),
        ls.len() <= usize::MAX,
        forall|j: int| 0 <= j < ls.len() ==> #[trigger] ls[j].len() < usize::MAX,
    ensures
        spec_lex_lines(ls, i, acc, errs).0.len() >= acc.len(),
        spec_lex_lines(ls, i, acc, errs).0.subrange(0, acc.len() as int) == acc,
    decreases ls.len() - i,
{
    let r = spec_lex_lines(ls, i, acc, errs);
    if 0 <= i < ls.len() {
        let mid = spec_lex_line(ls[i], 0, i as usize, acc, errs);
        lemma_lex_line_ranges(ls[i], 0, i as usize, acc, errs);
        lemma_lex_lines_prefix(ls, i + 1, mid.0, mid.1);
        let rr = spec_lex_lines(ls, i + 1, mid.0, mid.1);
        assert(rr.0.subrange(0, mid.0.len() as int) == mid.0);
        assert(r.0.subrange(0, acc.len() as int) =~= acc) by {
            assert forall|k: int| 0 <= k < acc.len() implies r.0[k] == acc[k] by {
                assert(rr.0.subrange(0, mid.0.len() as int)[k] == mid.0[k]);
                assert(mid.0.subrange(0, acc.len() as int)[k] == acc[k]);
            }
        }
    } else {
        assert(r.0.subrange(0, acc.len() as int) =~= acc);
    }
}

/// Over a whole lexing run, tokens carry their source line and appear in
/// scan order: line indexes never decrease, and two tokens of one line do
/// not overlap, the earlier ending no later than the later begins.
#[verifier::rlimit(100)]
#[verifier::spinoff_prover]
pub proof fn lemma_lex_lines_ranges(
    ls: Seq<Seq<char>>,
    i: int,
    acc: Seq<SpecContextedToken>,
    errs: Seq<crate::error::LexerError>,
)
    requires
        0 <= i <= ls.len(),
        ls.len() <= usize::MAX,
        forall|j: int| 0 <= j < ls.len() ==> #[trigger] ls[j].len() < usize::MAX,
    ensures
        spec_lex_lines(ls, i, acc, errs).0.len() >= acc.len(),
        spec_lex_lines(ls, i, acc, errs).0.subrange(0, acc.len() as int) == acc,
        forall|k: int|
            acc.len() <= k < spec_lex_lines(ls, i, acc, errs).0.len() ==> i
                <= #[trigger] spec_lex_lines(ls, i, acc, errs).0[k].range.line < ls.len(),
        forall|k: int|
            acc.len() <= k < spec_lex_lines(ls, i, acc, errs).0.len() - 1 ==> {
                let a = #[trigger] spec_lex_lines(ls, i, acc, errs).0[k];
                let b = spec_lex_lines(ls, i, acc, errs).0[k + 1];
                a.range.line < b.range.line || (a.range.line == b.range.line
                    && a.range.char_end <= b.range.char_begin)
            },
    decreases ls.len() - i,
{
    let r = spec_lex_lines(ls, i, acc, errs);
    lemma_lex_lines_prefix(ls, i, acc, errs);
    if 0 <= i < ls.len() {
        let mid = spec_lex_line(ls[i], 0, i as usize, acc, errs);
        lemma_lex_line_ranges(ls[i], 0, i as usize, acc, errs);
        lemma_lex_lines_ranges(ls, i + 1, mid.0, mid.1);
        let rr = spec_lex_lines(ls, i + 1, mid.0, mid.1);
        assert(r == rr);
        assert(rr.0.subrange(0, mid.0.len() as int) == mid.0);
        assert forall|k: int|
            acc.len() <= k < mid.0.len() implies r.0[k] == mid.0[k] by {
            assert(rr.0.subrange(0, mid.0.len() as int)[k] == mid.0[k]);
        }
        assert forall|k: int|
            acc.len() <= k < r.0.len() implies i <= #[trigger] r.0[k].range.line
                < ls.len() by {
            if k < mid.0.len() {
                assert(r.0[k] == mid.0[k]);
                assert(mid.0[k].range.line == i as usize);
            } else {
                assert(i + 1 <= r.0[k].range.line < ls.len());
            }
        }
        assert forall|k: int|
            acc.len() <= k < r.0.len() - 1 implies {
            let a = #[trigger] r.0[k];
            let b = r.0[k + 1];
            a.range.line < b.range.line || (a.range.line == b.range.line && a.range.char_end
                <= b.range.char_begin)
        } by {
            if k + 1 < mid.0.len() {
                assert(r.0[k] == mid.0[k]);
                assert(r.0[k + 1] == mid.0[k + 1]);
                assert(mid.0[k].range.line == i as usize);
                assert(mid.0[k + 1].range.line == i as usize);
                assert(mid.0[k].range.char_end <= mid.0[k + 1].range.char_begin);
            } else if k < mid.0.len() {
                // The boundary pair: the last token of this line against the
                // first token of a later line.
                assert(r.0[k] == mid.0[k]);
                assert(mid.0[k].range.line == i as usize);
                assert(i + 1 <= r.0[k + 1].range.line);
            } else {
                assert(i + 1 <= r.0[k].range.line);
            }
        }
    }
}

} // verus!
