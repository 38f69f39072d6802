//! The token model: keywords, operators, delimiters, and the token variants
//! produced by the lexer. Every fixed-spelling kind carries its spelling as
//! a specification-level sequence of characters, so that contracts can speak
//! of exact source text.

use vstd::prelude::*;
use vstd::string::*;
use crate::text::str_equal;

verus! {

#[derive(Debug, PartialEq, Eq, Structural, Clone, Copy)]
pub enum Keyword {
    Def,
    If,
    Else,
    For,
    While,
    Return,
    Class,
    Void,
}

impl Keyword {
    /// The source spelling of this keyword.
    pub open spec fn spelling(self) -> Seq<char> {
        match self {
            Keyword::Def => "def"@,
            Keyword::If => "if"@,
            Keyword::Else => "else"@,
            Keyword::For => "for"@,
            Keyword::While => "while"@,
            Keyword::Return => "return"@,
            Keyword::Class => "class"@,
            Keyword::Void => "void"@,
        }
    }

    pub fn to_string(&self) -> (r: &'static str)
        ensures
            r@ == self.spelling(),
    {
        match self {
            Keyword::Def => "def",
            Keyword::If => "if",
            Keyword::Else => "else",
            Keyword::For => "for",
            Keyword::While => "while",
            Keyword::Return => "return",
            Keyword::Class => "class",
            Keyword::Void => "void",
        }
    }

    /// The keyword with the given spelling, if any.
    pub open spec fn spec_from(s: Seq<char>) -> Option<Keyword> {
        if s == "def"@ {
            Some(Keyword::Def)
        } else if s == "if"@ {
            Some(Keyword::If)
        } else if s == "else"@ {
            Some(Keyword::Else)
        } else if s == "for"@ {
            Some(Keyword::For)
        } else if s == "while"@ {
            Some(Keyword::While)
        } else if s == "return"@ {
            Some(Keyword::Return)
        } else if s == "class"@ {
            Some(Keyword::Class)
        } else if s == "void"@ {
            Some(Keyword::Void)
        } else {
            None
        }
    }

    pub fn from_string(s: &str) -> (r: Option<Keyword>)
        ensures
            r == Keyword::spec_from(s@),
    {
        if str_equal(s, "def") {
            Some(Keyword::Def)
        } else if str_equal(s, "if") {
            Some(Keyword::If)
        } else if str_equal(s, "else") {
            Some(Keyword::Else)
        } else if str_equal(s, "for") {
            Some(Keyword::For)
        } else if str_equal(s, "while") {
            Some(Keyword::While)
        } else if str_equal(s, "return") {
            Some(Keyword::Return)
        } else if str_equal(s, "class") {
            Some(Keyword::Class)
        } else if str_equal(s, "void") {
            Some(Keyword::Void)
        } else {
            None
        }
    }

    pub fn len(&self) -> (r: usize)
        ensures
            r == self.spelling().len(),
    {
        self.to_string().unicode_len()
    }
}

#[derive(Debug, PartialEq, Eq, Structural, Clone, Copy)]
pub enum Operator {
    Assign,
    Plus,
    Minus,
    Times,
    Div,
    Mod,
    PlusEq,
    MinusEq,
    TimesEq,
    DivEq,
    ModEq,
    Equals,
    NotEquals,
    LessThan,
    LessEqThan,
    GreaterThan,
    GreaterEqThan,
    ShiftLeft,
    ShiftRight,
    ShiftLeftEq,
    ShiftRightEq,
    Not,
    And,
    Or,
    Xor,
    BitwiseAnd,
    BitwiseOr,
    BitwiseXor,
    AndEq,
    OrEq,
    XorEq,
    BitwiseAndEq,
    BitwiseOrEq,
    BitwiseXorEq,
    Comma,
    Point,
    UnaryPlus,
    UnaryMinus,
}

impl Operator {
    /// The source spelling of this operator. The unary forms share the
    /// spelling of their binary counterparts.
    pub open spec fn spelling(self) -> Seq<char> {
        match self {
            Operator::Assign => "="@,
            Operator::Plus => "+"@,
            Operator::Minus => "-"@,
            Operator::Times => "*"@,
            Operator::Div => "/"@,
            Operator::Mod => "%"@,
            Operator::PlusEq => "+="@,
            Operator::MinusEq => "-="@,
            Operator::TimesEq => "*="@,
            Operator::DivEq => "/="@,
            Operator::ModEq => "%="@,
            Operator::Equals => "=="@,
            Operator::NotEquals => "!="@,
            Operator::LessThan => "<"@,
            Operator::LessEqThan => "<="@,
            Operator::GreaterThan => ">"@,
            Operator::GreaterEqThan => ">="@,
            Operator::ShiftLeft => "<<"@,
            Operator::ShiftRight => ">>"@,
            Operator::ShiftLeftEq => "<<="@,
            Operator::ShiftRightEq => ">>="@,
            Operator::Not => "!"@,
            Operator::And => "&&"@,
            Operator::Or => "||"@,
            Operator::Xor => "^^"@,
            Operator::BitwiseAnd => "&"@,
            Operator::BitwiseOr => "|"@,
            Operator::BitwiseXor => "^"@,
            Operator::AndEq => "&&="@,
            Operator::OrEq => "||&"@,
            Operator::XorEq => "^^&"@,
            Operator::BitwiseAndEq => "&="@,
            Operator::BitwiseOrEq => "|="@,
            Operator::BitwiseXorEq => "^="@,
            Operator::Comma => ","@,
            Operator::Point => "."@,
            Operator::UnaryPlus => "+"@,
            Operator::UnaryMinus => "-"@,
        }
    }

    pub fn to_string(&self) -> (r: &'static str)
        ensures
            r@ == self.spelling(),
    {
        match self {
            Operator::Assign => "=",
            Operator::Plus => "+",
            Operator::Minus => "-",
            Operator::Times => "*",
            Operator::Div => "/",
            Operator::Mod => "%",
            Operator::PlusEq => "+=",
            Operator::MinusEq => "-=",
            Operator::TimesEq => "*=",
            Operator::DivEq => "/=",
            Operator::ModEq => "%=",
            Operator::Equals => "==",
            Operator::NotEquals => "!=",
            Operator::LessThan => "<",
            Operator::LessEqThan => "<=",
            Operator::GreaterThan => ">",
            Operator::GreaterEqThan => ">=",
            Operator::ShiftLeft => "<<",
            Operator::ShiftRight => ">>",
            Operator::ShiftLeftEq => "<<=",
            Operator::ShiftRightEq => ">>=",
            Operator::Not => "!",
            Operator::And => "&&",
            Operator::Or => "||",
            Operator::Xor => "^^",
            Operator::BitwiseAnd => "&",
            Operator::BitwiseOr => "|",
            Operator::BitwiseXor => "^",
            Operator::AndEq => "&&=",
            Operator::OrEq => "||&",
            Operator::XorEq => "^^&",
            Operator::BitwiseAndEq => "&=",
            Operator::BitwiseOrEq => "|=",
            Operator::BitwiseXorEq => "^=",
            Operator::Comma => ",",
            Operator::Point => ".",
            Operator::UnaryPlus => "+",
            Operator::UnaryMinus => "-",
        }
    }

    /// The operator with the given spelling, if any. The unary forms are
    /// never produced here; they arise only from the lexer's rewrite of a
    /// plus or minus in prefix position.
    pub open spec fn spec_from(s: Seq<char>) -> Option<Operator> {
        if s == "="@ {
            Some(Operator::Assign)
        } else if s == "+"@ {
            Some(Operator::Plus)
        } else if s == "-"@ {
            Some(Operator::Minus)
        } else if s == "*"@ {
            Some(Operator::Times)
        } else if s == "/"@ {
            Some(Operator::Div)
        } else if s == "%"@ {
            Some(Operator::Mod)
        } else if s == "+="@ {
            Some(Operator::PlusEq)
        } else if s == "-="@ {
            Some(Operator::MinusEq)
        } else if s == "*="@ {
            Some(Operator::TimesEq)
        } else if s == "/="@ {
            Some(Operator::DivEq)
        } else if s == "%="@ {
            Some(Operator::ModEq)
        } else if s == "=="@ {
            Some(Operator::Equals)
        } else if s == "!="@ {
            Some(Operator::NotEquals)
        } else if s == "<"@ {
            Some(Operator::LessThan)
        } else if s == "<="@ {
            Some(Operator::LessEqThan)
        } else if s == ">"@ {
            Some(Operator::GreaterThan)
        } else if s == ">="@ {
            Some(Operator::GreaterEqThan)
        } else if s == "<<"@ {
            Some(Operator::ShiftLeft)
        } else if s == ">>"@ {
            Some(Operator::ShiftRight)
        } else if s == "<<="@ {
            Some(Operator::ShiftLeftEq)
        } else if s == ">>="@ {
            Some(Operator::ShiftRightEq)
        } else if s == "!"@ {
            Some(Operator::Not)
        } else if s == "&&"@ {
            Some(Operator::And)
        } else if s == "||"@ {
            Some(Operator::Or)
        } else if s == "^^"@ {
            Some(Operator::Xor)
        } else if s == "&"@ {
            Some(Operator::BitwiseAnd)
        } else if s == "|"@ {
            Some(Operator::BitwiseOr)
        } else if s == "^"@ {
            Some(Operator::BitwiseXor)
        } else if s == "&&="@ {
            Some(Operator::AndEq)
        } else if s == "||&"@ {
            Some(Operator::OrEq)
        } else if s == "^^&"@ {
            Some(Operator::XorEq)
        } else if s == "&="@ {
            Some(Operator::BitwiseAndEq)
        } else if s == "|="@ {
            Some(Operator::BitwiseOrEq)
        } else if s == "^="@ {
            Some(Operator::BitwiseXorEq)
        } else if s == ","@ {
            Some(Operator::Comma)
        } else if s == "."@ {
            Some(Operator::Point)
        } else {
            None
        }
    }

    pub fn from_string(s: &str) -> (r: Option<Operator>)
        ensures
            r == Operator::spec_from(s@),
    {
        if str_equal(s, "=") {
            Some(Operator::Assign)
        } else if str_equal(s, "+") {
            Some(Operator::Plus)
        } else if str_equal(s, "-") {
            Some(Operator::Minus)
        } else if str_equal(s, "*") {
            Some(Operator::Times)
        } else if str_equal(s, "/") {
            Some(Operator::Div)
        } else if str_equal(s, "%") {
            Some(Operator::Mod)
        } else if str_equal(s, "+=") {
            Some(Operator::PlusEq)
        } else if str_equal(s, "-=") {
            Some(Operator::MinusEq)
        } else if str_equal(s, "*=") {
            Some(Operator::TimesEq)
        } else if str_equal(s, "/=") {
            Some(Operator::DivEq)
        } else if str_equal(s, "%=") {
            Some(Operator::ModEq)
        } else if str_equal(s, "==") {
            Some(Operator::Equals)
        } else if str_equal(s, "!=") {
            Some(Operator::NotEquals)
        } else if str_equal(s, "<") {
            Some(Operator::LessThan)
        } else if str_equal(s, "<=") {
            Some(Operator::LessEqThan)
        } else if str_equal(s, ">") {
            Some(Operator::GreaterThan)
        } else if str_equal(s, ">=") {
            Some(Operator::GreaterEqThan)
        } else if str_equal(s, "<<") {
            Some(Operator::ShiftLeft)
        } else if str_equal(s, ">>") {
            Some(Operator::ShiftRight)
        } else if str_equal(s, "<<=") {
            Some(Operator::ShiftLeftEq)
        } else if str_equal(s, ">>=") {
            Some(Operator::ShiftRightEq)
        } else if str_equal(s, "!") {
            Some(Operator::Not)
        } else if str_equal(s, "&&") {
            Some(Operator::And)
        } else if str_equal(s, "||") {
            Some(Operator::Or)
        } else if str_equal(s, "^^") {
            Some(Operator::Xor)
        } else if str_equal(s, "&") {
            Some(Operator::BitwiseAnd)
        } else if str_equal(s, "|") {
            Some(Operator::BitwiseOr)
        } else if str_equal(s, "^") {
            Some(Operator::BitwiseXor)
        } else if str_equal(s, "&&=") {
            Some(Operator::AndEq)
        } else if str_equal(s, "||&") {
            Some(Operator::OrEq)
        } else if str_equal(s, "^^&") {
            Some(Operator::XorEq)
        } else if str_equal(s, "&=") {
            Some(Operator::BitwiseAndEq)
        } else if str_equal(s, "|=") {
            Some(Operator::BitwiseOrEq)
        } else if str_equal(s, "^=") {
            Some(Operator::BitwiseXorEq)
        } else if str_equal(s, ",") {
            Some(Operator::Comma)
        } else if str_equal(s, ".") {
            Some(Operator::Point)
        } else {
            None
        }
    }

    pub fn len(&self) -> (r: usize)
        ensures
            r == self.spelling().len(),
    {
        self.to_string().unicode_len()
    }
}

#[derive(Debug, PartialEq, Eq, Structural, Clone, Copy)]
pub enum Delimiter {
    ParenthesisOpen,
    ParenthesisClose,
    BracketsOpen,
    BracketsClose,
    SquareBracketsOpen,
    SquareBracketsClose,
}

impl Delimiter {
    /// The source spelling of this delimiter.
    pub open spec fn spelling(self) -> Seq<char> {
        match self {
            Delimiter::ParenthesisOpen => "("@,
            Delimiter::ParenthesisClose => ")"@,
            Delimiter::BracketsOpen => "{"@,
            Delimiter::BracketsClose => "}"@,
            Delimiter::SquareBracketsOpen => "["@,
            Delimiter::SquareBracketsClose => "]"@,
        }
    }

    pub fn len(&self) -> (r: usize)
        ensures
            r == 1,
    {
        1
    }
}

/// The specification-level value of a token: the same variants as `Token`,
/// with every spelling as a sequence of characters.
pub ghost enum SpecToken {
    EndOfFile,
    EndOfStatement,
    Keyword(Keyword),
    Operator(Operator),
    Integer(Seq<char>),
    Float(Seq<char>),
    StrLit(Seq<char>),
    Boolean(bool),
    Identifier(Seq<char>),
    Delimiter(Delimiter),
    Comment(Seq<char>),
    TokenError(Seq<char>),
}

impl SpecToken {
    /// The number of source characters the token stands for. String
    /// literals and comments count their two enclosing characters; a
    /// boolean literal counts its spelling, `true` or `false`.
    pub open spec fn spec_len(self) -> nat {
        match self {
            SpecToken::EndOfFile => 0,
            SpecToken::EndOfStatement => 1,
            SpecToken::Keyword(kw) => kw.spelling().len(),
            SpecToken::Operator(op) => op.spelling().len(),
            SpecToken::Integer(s) => s.len(),
            SpecToken::Float(s) => s.len(),
            SpecToken::StrLit(s) => s.len() + 2,
            SpecToken::Boolean(b) => if b {
                4
            } else {
                5
            },
            SpecToken::Identifier(s) => s.len(),
            SpecToken::Delimiter(_) => 1,
            SpecToken::Comment(s) => s.len() + 2,
            SpecToken::TokenError(s) => s.len(),
        }
    }
}

#[derive(Debug, PartialEq, Clone)]
pub enum Token {
    EndOfFile,
    EndOfStatement,
    Keyword(Keyword),
    Operator(Operator),
    Integer(String),
    Float(String),
    String(String),
    Boolean(bool),
    Identifier(String),
    Delimiter(Delimiter),
    Comment(String),
    TokenError(String),
}

impl View for Token {
    type V = SpecToken;

    open spec fn view(&self) -> SpecToken {
        match self {
            Token::EndOfFile => SpecToken::EndOfFile,
            Token::EndOfStatement => SpecToken::EndOfStatement,
            Token::Keyword(kw) => SpecToken::Keyword(*kw),
            Token::Operator(op) => SpecToken::Operator(*op),
            Token::Integer(s) => SpecToken::Integer(s@),
            Token::Float(s) => SpecToken::Float(s@),
            Token::String(s) => SpecToken::StrLit(s@),
            Token::Boolean(b) => SpecToken::Boolean(*b),
            Token::Identifier(s) => SpecToken::Identifier(s@),
            Token::Delimiter(d) => SpecToken::Delimiter(*d),
            Token::Comment(s) => SpecToken::Comment(s@),
            Token::TokenError(s) => SpecToken::TokenError(s@),
        }
    }
}

impl DeepView for Token {
    type V = SpecToken;

    open spec fn deep_view(&self) -> SpecToken {
        self.view()
    }
}

impl Token {
    /// True unless taking the token's length would overflow a machine
    /// integer; only a string literal or comment spelling close to the
    /// address-space limit can violate it.
    pub open spec fn len_fits(self) -> bool {
        match self@ {
            SpecToken::StrLit(s) => s.len() + 2 <= usize::MAX,
            SpecToken::Comment(s) => s.len() + 2 <= usize::MAX,
            _ => true,
        }
    }

    pub fn len(&self) -> (r: usize)
        requires
            self.len_fits(),
        ensures
            r == self@.spec_len(),
    {
        match self {
            Token::EndOfFile => 0,
            Token::EndOfStatement => 1,
            Token::Keyword(kw) => kw.len(),
            Token::Operator(op) => op.len(),
            Token::Integer(s) => s.as_str().unicode_len(),
            Token::Float(s) => s.as_str().unicode_len(),
            Token::String(s) => s.as_str().unicode_len() + 2,
            Token::Boolean(b) => if *b {
                4
            } else {
                5
            },
            Token::Identifier(s) => s.as_str().unicode_len(),
            Token::Delimiter(d) => d.len(),
            Token::Comment(s) => s.as_str().unicode_len() + 2,
            Token::TokenError(s) => s.as_str().unicode_len(),
        }
    }

    /// Compares two tokens for equality of variant and payload.
    pub fn token_eq(&self, other: &Token) -> (r: bool)
        ensures
            r == (self@ == other@),
    {
        match (self, other) {
            (Token::EndOfFile, Token::EndOfFile) => true,
            (Token::EndOfStatement, Token::EndOfStatement) => true,
            (Token::Keyword(a), Token::Keyword(b)) => a == b,
            (Token::Operator(a), Token::Operator(b)) => a == b,
            (Token::Integer(a), Token::Integer(b)) => str_equal(a.as_str(), b.as_str()),
            (Token::Float(a), Token::Float(b)) => str_equal(a.as_str(), b.as_str()),
            (Token::String(a), Token::String(b)) => str_equal(a.as_str(), b.as_str()),
            (Token::Boolean(a), Token::Boolean(b)) => a == b,
            (Token::Identifier(a), Token::Identifier(b)) => str_equal(a.as_str(), b.as_str()),
            (Token::Delimiter(a), Token::Delimiter(b)) => a == b,
            (Token::Comment(a), Token::Comment(b)) => str_equal(a.as_str(), b.as_str()),
            (Token::TokenError(a), Token::TokenError(b)) => str_equal(a.as_str(), b.as_str()),
            _ => false,
        }
    }
}

} // verus!
