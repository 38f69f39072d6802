//! The expression parser: precedence climbing over a bounded range of the
//! token sequence. For each precedence level, loosest-binding first, the
//! range is scanned right to left for an operator at that level outside any
//! parentheses; the first level that matches splits the range. With no
//! operator the parser tries a function-call shape, then a fully
//! parenthesized range, then a single identifier or literal leaf.
//!
//! `spec_read_operation` is the exact specification: `parse` returns
//! precisely the tree (or the error) that it describes.

use vstd::prelude::*;
use vstd::string::*;
use crate::ast::{ApplyFunction, BinaryOperation, BinaryOperator, Literal, OperationResult, SpecOp,
    SpecLiteral};
use crate::lexeme::{Lexeme, SpecContextedToken};
use crate::tokens::{Delimiter, Operator, SpecToken, Token};

verus! {

/// An unrecoverable parse failure: a descriptive message and the token
/// index it arose at.
#[derive(Debug, PartialEq, Clone)]
pub struct ParseError {
    pub msg: String,
    pub at: usize,
}

/// The specification-level value of a parse failure.
pub ghost struct SpecParseError {
    pub msg: Seq<char>,
    pub at: int,
}

impl DeepView for ParseError {
    type V = SpecParseError;

    open spec fn deep_view(&self) -> SpecParseError {
        SpecParseError { msg: self.msg@, at: self.at as int }
    }
}

/// The operator tokens for a sequence of operators.
pub open spec fn spec_ops_to_tokens(ops: Seq<Operator>) -> Seq<SpecToken> {
    ops.map_values(|op: Operator| SpecToken::Operator(op))
}

/// Scans `[begin, i]` from `i` leftwards for a token of `wanted` that is
/// not nested in parentheses; `opens` and `closes` count the parentheses
/// passed so far, close parentheses opening nesting in a leftward scan.
pub open spec fn spec_find_rev(
    lex: Seq<SpecContextedToken>,
    wanted: Seq<SpecToken>,
    begin: int,
    i: int,
    opens: int,
    closes: int,
) -> Option<int>
    decreases i - begin + 1,
{
    if i < begin || i >= lex.len() || begin < 0 {
        None
    } else {
        let t = lex[i].token;
        let opens2 = if t == SpecToken::Delimiter(Delimiter::ParenthesisClose) {
            opens + 1
        } else {
            opens
        };
        let closes2 = if t == SpecToken::Delimiter(Delimiter::ParenthesisOpen) {
            closes + 1
        } else {
            closes
        };
        if opens2 - closes2 > 0 {
            spec_find_rev(lex, wanted, begin, i - 1, opens2, closes2)
        } else if wanted.contains(t) {
            Some(i)
        } else {
            spec_find_rev(lex, wanted, begin, i - 1, opens2, closes2)
        }
    }
}

/// Scans `[i, end)` rightwards for a token of `wanted` that is not nested
/// in parentheses.
pub open spec fn spec_find_fwd(
    lex: Seq<SpecContextedToken>,
    wanted: Seq<SpecToken>,
    i: int,
    end: int,
    opens: int,
    closes: int,
) -> Option<int>
    decreases end - i,
{
    if i < 0 || i >= end || end > lex.len() {
        None
    } else {
        let t = lex[i].token;
        let opens2 = if t == SpecToken::Delimiter(Delimiter::ParenthesisOpen) {
            opens + 1
        } else {
            opens
        };
        let closes2 = if t == SpecToken::Delimiter(Delimiter::ParenthesisClose) {
            closes + 1
        } else {
            closes
        };
        if opens2 - closes2 > 0 {
            spec_find_fwd(lex, wanted, i + 1, end, opens2, closes2)
        } else if wanted.contains(t) {
            Some(i)
        } else {
            spec_find_fwd(lex, wanted, i + 1, end, opens2, closes2)
        }
    }
}

proof fn lemma_find_rev_bounds(
    lex: Seq<SpecContextedToken>,
    wanted: Seq<SpecToken>,
    begin: int,
    i: int,
    opens: int,
    closes: int,
)
    ensures
        spec_find_rev(lex, wanted, begin, i, opens, closes) matches Some(j) ==> begin <= j <= i
            && j < lex.len(),
    decreases i - begin + 1,
{
    if !(i < begin || i >= lex.len() || begin < 0) {
        let t = lex[i].token;
        let opens2 = if t == SpecToken::Delimiter(Delimiter::ParenthesisClose) {
            opens + 1
        } else {
            opens
        };
        let closes2 = if t == SpecToken::Delimiter(Delimiter::ParenthesisOpen) {
            closes + 1
        } else {
            closes
        };
        lemma_find_rev_bounds(lex, wanted, begin, i - 1, opens2, closes2);
    }
}

/// The precedence table, loosest-binding level first.
pub open spec fn priority_groups() -> Seq<Seq<Operator>> {
    seq![
        seq![Operator::Comma],
        seq![
            Operator::Assign,
            Operator::PlusEq,
            Operator::MinusEq,
            Operator::TimesEq,
            Operator::DivEq,
            Operator::ModEq,
            Operator::AndEq,
            Operator::OrEq,
            Operator::XorEq,
            Operator::ShiftLeftEq,
            Operator::ShiftRightEq,
            Operator::BitwiseAndEq,
            Operator::BitwiseOrEq,
            Operator::BitwiseXorEq,
        ],
        seq![Operator::Plus, Operator::Minus],
        seq![Operator::Times, Operator::Div, Operator::Mod],
        seq![Operator::Equals, Operator::NotEquals],
        seq![Operator::Or],
        seq![Operator::And],
        seq![Operator::Xor],
        seq![
            Operator::LessThan,
            Operator::LessEqThan,
            Operator::GreaterThan,
            Operator::GreaterEqThan,
        ],
        seq![Operator::BitwiseOr],
        seq![Operator::BitwiseAnd],
        seq![Operator::BitwiseXor],
        seq![Operator::ShiftLeft, Operator::ShiftRight],
        seq![Operator::Point],
    ]
}

/// The rightmost occurrence, outside parentheses, of an operator of the
/// loosest-binding level that has one in `[begin, end)`, trying the levels
/// from `g` on.
pub open spec fn spec_find_priority(
    lex: Seq<SpecContextedToken>,
    begin: int,
    end: int,
    g: int,
) -> Option<int>
    decreases priority_groups().len() - g,
{
    if g < 0 || g >= priority_groups().len() {
        None
    } else {
        match spec_find_rev(lex, spec_ops_to_tokens(priority_groups()[g]), begin, end - 1, 0, 0) {
            Some(i) => Some(i),
            None => spec_find_priority(lex, begin, end, g + 1),
        }
    }
}

proof fn lemma_find_priority_bounds(lex: Seq<SpecContextedToken>, begin: int, end: int, g: int)
    ensures
        spec_find_priority(lex, begin, end, g) matches Some(i) ==> begin <= i < end && i
            < lex.len(),
    decreases priority_groups().len() - g,
{
    if 0 <= g < priority_groups().len() {
        lemma_find_rev_bounds(
            lex,
            spec_ops_to_tokens(priority_groups()[g]),
            begin,
            end - 1,
            0,
            0,
        );
        lemma_find_priority_bounds(lex, begin, end, g + 1);
    }
}

/// One expression read from the token range `[begin, end)`. An empty or
/// otherwise unreadable range is a parse error at `begin`; an operator that
/// has no binary form is a parse error at its position.
pub open spec fn spec_read_operation(
    lex: Seq<SpecContextedToken>,
    begin: int,
    end: int,
) -> Result<SpecOp, SpecParseError>
    decreases end - begin, 0int, 0int,
{
    if begin < 0 || end > lex.len() || begin >= end {
        Err(SpecParseError { msg: "Could not read operation"@, at: begin })
    } else {
        match spec_find_priority(lex, begin, end, 0) {
            Some(i) => {
                if i < begin || i >= end {
                    Err(SpecParseError { msg: "Could not read operation"@, at: begin })
                } else {
                    match lex[i].token {
                        SpecToken::Operator(op) => match BinaryOperator::spec_from(op) {
                            Some(bop) => match spec_read_operation(lex, begin, i) {
                                Ok(left) => match spec_read_operation(lex, i + 1, end) {
                                    Ok(right) => Ok(
                                        SpecOp::BinOp(bop, Box::new(left), Box::new(right)),
                                    ),
                                    Err(e) => Err(e),
                                },
                                Err(e) => Err(e),
                            },
                            None => Err(
                                SpecParseError {
                                    msg: "Invalid operator for BinaryOperator"@,
                                    at: i,
                                },
                            ),
                        },
                        _ => Err(
                            SpecParseError { msg: "This should never happen"@, at: i },
                        ),
                    }
                }
            },
            None => {
                if end - begin >= 3 && lex[begin].token is Identifier && lex[begin + 1].token
                    == SpecToken::Delimiter(Delimiter::ParenthesisOpen) && lex[end - 1].token
                    == SpecToken::Delimiter(Delimiter::ParenthesisClose) {
                    match spec_read_args(lex, begin + 2, begin + 2, end - 1, 0, 0, Seq::empty()) {
                        Ok(args) => Ok(SpecOp::Call(lex[begin].token->Identifier_0, args)),
                        Err(e) => Err(e),
                    }
                } else if lex[begin].token == SpecToken::Delimiter(Delimiter::ParenthesisOpen)
                    && lex[end - 1].token == SpecToken::Delimiter(
                    Delimiter::ParenthesisClose,
                ) {
                    spec_read_operation(lex, begin + 1, end - 1)
                } else if end == begin + 1 {
                    match lex[begin].token {
                        SpecToken::Identifier(id) => Ok(SpecOp::Identifier(id)),
                        SpecToken::Integer(s) => Ok(SpecOp::Literal(SpecLiteral::Integer(s))),
                        SpecToken::Float(s) => Ok(SpecOp::Literal(SpecLiteral::Float(s))),
                        SpecToken::StrLit(s) => Ok(SpecOp::Literal(SpecLiteral::Str(s))),
                        SpecToken::Boolean(b) => Ok(SpecOp::Literal(SpecLiteral::Boolean(b))),
                        _ => Err(
                            SpecParseError { msg: "Could not read operation"@, at: begin },
                        ),
                    }
                } else {
                    Err(SpecParseError { msg: "Could not read operation"@, at: begin })
                }
            },
        }
    }
}

/// The argument expressions read from `[last, end)`, split on top-level
/// commas; `i` is the scan position and `acc` the arguments read so far.
pub open spec fn spec_read_args(
    lex: Seq<SpecContextedToken>,
    last: int,
    i: int,
    end: int,
    opens: int,
    closes: int,
    acc: Seq<SpecOp>,
) -> Result<Seq<SpecOp>, SpecParseError>
    decreases end - last, 1int, end - i,
{
    if last < 0 || i < last || i > end || end > lex.len() {
        Err(SpecParseError { msg: "Could not read operation"@, at: last })
    } else if i >= end {
        match spec_read_operation(lex, last, end) {
            Ok(op) => Ok(acc.push(op)),
            Err(e) => Err(e),
        }
    } else {
        let t = lex[i].token;
        let opens2 = if t == SpecToken::Delimiter(Delimiter::ParenthesisOpen) {
            opens + 1
        } else {
            opens
        };
        let closes2 = if t == SpecToken::Delimiter(Delimiter::ParenthesisClose) {
            closes + 1
        } else {
            closes
        };
        if opens2 - closes2 > 0 {
            spec_read_args(lex, last, i + 1, end, opens2, closes2, acc)
        } else if t == SpecToken::Operator(Operator::Comma) {
            match spec_read_operation(lex, last, i) {
                Ok(op) => spec_read_args(lex, i + 1, i + 1, end, opens2, closes2, acc.push(op)),
                Err(e) => Err(e),
            }
        } else {
            spec_read_args(lex, last, i + 1, end, opens2, closes2, acc)
        }
    }
}

/// Parses one expression from the token range `[token_begin, token_end)`
/// of a shared token sequence.
pub struct OperationParser<'a> {
    lexeme: &'a Lexeme,
    token_begin: usize,
    token_end: usize,
}

impl<'a> OperationParser<'a> {
    /// The token sequence the parser reads.
    pub closed spec fn spec_lexeme(self) -> Seq<SpecContextedToken> {
        self.lexeme@
    }

    /// The start of the parsed range.
    pub closed spec fn spec_begin(self) -> int {
        self.token_begin as int
    }

    /// The end of the parsed range.
    pub closed spec fn spec_end(self) -> int {
        self.token_end as int
    }

    pub fn new(lexeme: &'a Lexeme, token_begin: usize, token_end: usize) -> (r: OperationParser<
        'a,
    >)
        ensures
            r.spec_lexeme() == lexeme@,
            r.spec_begin() == token_begin as int,
            r.spec_end() == token_end as int,
    {
        OperationParser { lexeme, token_begin, token_end }
    }

    pub fn parse(&mut self) -> (r: Result<OperationResult, ParseError>)
        ensures
            *final(self) == *old(self),
            match r {
                Ok(op) => spec_read_operation(
                    old(self).spec_lexeme(),
                    old(self).spec_begin(),
                    old(self).spec_end(),
                ) == Ok::<SpecOp, SpecParseError>(op.deep_view()),
                Err(e) => spec_read_operation(
                    old(self).spec_lexeme(),
                    old(self).spec_begin(),
                    old(self).spec_end(),
                ) == Err::<SpecOp, SpecParseError>(e.deep_view()),
            },
    {
        let begin = self.token_begin;
        let end = self.token_end;
        self.read_operation_in(begin, end)
    }

    fn find_any_token_rev(
        &self,
        begin: usize,
        i: usize,
        tokens: &Vec<Token>,
        opens: usize,
        closes: usize,
    ) -> (r: Option<usize>)
        requires
            begin <= i,
            i < self.spec_lexeme().len(),
            self.spec_lexeme().len() <= usize::MAX,
            opens + i < self.spec_lexeme().len(),
            closes + i < self.spec_lexeme().len(),
        ensures
            match r {
                Some(j) => Some(j as int) == spec_find_rev(
                    self.spec_lexeme(),
                    tokens.deep_view(),
                    begin as int,
                    i as int,
                    opens as int,
                    closes as int,
                ),
                None => spec_find_rev(
                    self.spec_lexeme(),
                    tokens.deep_view(),
                    begin as int,
                    i as int,
                    opens as int,
                    closes as int,
                ) is None,
            },
        decreases i - begin + 1,
    {
        let token_at_i = &self.lexeme.token_at(i).token;
        let is_open = match token_at_i {
            Token::Delimiter(Delimiter::ParenthesisClose) => true,
            _ => false,
        };
        let is_close = match token_at_i {
            Token::Delimiter(Delimiter::ParenthesisOpen) => true,
            _ => false,
        };
        let opens2 = if is_open {
            opens + 1
        } else {
            opens
        };
        let closes2 = if is_close {
            closes + 1
        } else {
            closes
        };
        let skip = opens2 > closes2;
        if !skip && token_in(tokens, token_at_i) {
            return Some(i);
        }
        if i == begin {
            return None;
        }
        self.find_any_token_rev(begin, i - 1, tokens, opens2, closes2)
    }

    fn find_any_token_fwd(
        &self,
        i: usize,
        end: usize,
        tokens: &Vec<Token>,
        opens: usize,
        closes: usize,
    ) -> (r: Option<usize>)
        requires
            i <= end,
            end <= self.spec_lexeme().len(),
            opens <= i,
            closes <= i,
        ensures
            match r {
                Some(j) => Some(j as int) == spec_find_fwd(
                    self.spec_lexeme(),
                    tokens.deep_view(),
                    i as int,
                    end as int,
                    opens as int,
                    closes as int,
                ),
                None => spec_find_fwd(
                    self.spec_lexeme(),
                    tokens.deep_view(),
                    i as int,
                    end as int,
                    opens as int,
                    closes as int,
                ) is None,
            },
        decreases end - i,
    {
        if i >= end {
            return None;
        }
        let token_at_i = &self.lexeme.token_at(i).token;
        let is_open = match token_at_i {
            Token::Delimiter(Delimiter::ParenthesisOpen) => true,
            _ => false,
        };
        let is_close = match token_at_i {
            Token::Delimiter(Delimiter::ParenthesisClose) => true,
            _ => false,
        };
        let opens2 = if is_open {
            opens + 1
        } else {
            opens
        };
        let closes2 = if is_close {
            closes + 1
        } else {
            closes
        };
        let skip = opens2 > closes2;
        if !skip && token_in(tokens, token_at_i) {
            return Some(i);
        }
        self.find_any_token_fwd(i + 1, end, tokens, opens2, closes2)
    }

    /// Finds an occurrence of any of `tokens` in `[tok_begin, tok_end)`
    /// outside parentheses, scanning right to left when `reverse` is set.
    fn find_any_token_in(
        &self,
        tok_begin: usize,
        tok_end: usize,
        tokens: &Vec<Token>,
        reverse: bool,
    ) -> (r: Option<usize>)
        requires
            tok_end <= self.spec_lexeme().len(),
        ensures
            ({
                let s = if reverse {
                    spec_find_rev(
                        self.spec_lexeme(),
                        tokens.deep_view(),
                        tok_begin as int,
                        tok_end - 1,
                        0,
                        0,
                    )
                } else {
                    spec_find_fwd(
                        self.spec_lexeme(),
                        tokens.deep_view(),
                        tok_begin as int,
                        tok_end as int,
                        0,
                        0,
                    )
                };
                match r {
                    Some(j) => Some(j as int) == s,
                    None => s is None,
                }
            }),
    {
        let n = self.lexeme.len();
        if reverse {
            if tok_end == 0 || tok_begin > tok_end - 1 {
                return None;
            }
            self.find_any_token_rev(tok_begin, tok_end - 1, tokens, 0, 0)
        } else {
            if tok_begin > tok_end {
                return None;
            }
            self.find_any_token_fwd(tok_begin, tok_end, tokens, 0, 0)
        }
    }

    /// Finds an occurrence of any of `operators` in `[tok_begin, tok_end)`
    /// outside parentheses.
    fn find_any_operator_in(
        &self,
        tok_begin: usize,
        tok_end: usize,
        operators: &Vec<Operator>,
        reverse: bool,
    ) -> (r: Option<usize>)
        requires
            tok_end <= self.spec_lexeme().len(),
        ensures
            ({
                let s = if reverse {
                    spec_find_rev(
                        self.spec_lexeme(),
                        spec_ops_to_tokens(operators@),
                        tok_begin as int,
                        tok_end - 1,
                        0,
                        0,
                    )
                } else {
                    spec_find_fwd(
                        self.spec_lexeme(),
                        spec_ops_to_tokens(operators@),
                        tok_begin as int,
                        tok_end as int,
                        0,
                        0,
                    )
                };
                match r {
                    Some(j) => Some(j as int) == s,
                    None => s is None,
                }
            }),
    {
        let mut tokens: Vec<Token> = Vec::new();
        let mut k: usize = 0;
        while k < operators.len()
            invariant
                k <= operators@.len(),
                tokens@.len() == k,
                forall|j: int| 0 <= j < k ==> tokens@[j] == Token::Operator(operators@[j]),
            decreases operators@.len() - k,
        {
            tokens.push(Token::Operator(operators[k]));
            k += 1;
        }
        proof {
            assert(tokens.deep_view() =~= spec_ops_to_tokens(operators@));
        }
        self.find_any_token_in(tok_begin, tok_end, &tokens, reverse)
    }

    /// The operators of one precedence level, loosest-binding level first.
    fn priority_group(g: usize) -> (v: Vec<Operator>)
        requires
            g < 14,
        ensures
            v@ == priority_groups()[g as int],
    {
        let v: Vec<Operator> = if g == 0 {
            vec![Operator::Comma]
        } else if g == 1 {
            vec![
                Operator::Assign,
                Operator::PlusEq,
                Operator::MinusEq,
                Operator::TimesEq,
                Operator::DivEq,
                Operator::ModEq,
                Operator::AndEq,
                Operator::OrEq,
                Operator::XorEq,
                Operator::ShiftLeftEq,
                Operator::ShiftRightEq,
                Operator::BitwiseAndEq,
                Operator::BitwiseOrEq,
                Operator::BitwiseXorEq,
            ]
        } else if g == 2 {
            vec![Operator::Plus, Operator::Minus]
        } else if g == 3 {
            vec![Operator::Times, Operator::Div, Operator::Mod]
        } else if g == 4 {
            vec![Operator::Equals, Operator::NotEquals]
        } else if g == 5 {
            vec![Operator::Or]
        } else if g == 6 {
            vec![Operator::And]
        } else if g == 7 {
            vec![Operator::Xor]
        } else if g == 8 {
            vec![
                Operator::LessThan,
                Operator::LessEqThan,
                Operator::GreaterThan,
                Operator::GreaterEqThan,
            ]
        } else if g == 9 {
            vec![Operator::BitwiseOr]
        } else if g == 10 {
            vec![Operator::BitwiseAnd]
        } else if g == 11 {
            vec![Operator::BitwiseXor]
        } else if g == 12 {
            vec![Operator::ShiftLeft, Operator::ShiftRight]
        } else {
            vec![Operator::Point]
        };
        proof {
            assert(v@ =~= priority_groups()[g as int]);
        }
        v
    }

    fn find_priority_from(&self, tok_begin: usize, tok_end: usize, g: usize) -> (r: Option<
        usize,
    >)
        requires
            tok_end <= self.spec_lexeme().len(),
            g <= 14,
        ensures
            match r {
                Some(j) => Some(j as int) == spec_find_priority(
                    self.spec_lexeme(),
                    tok_begin as int,
                    tok_end as int,
                    g as int,
                ),
                None => spec_find_priority(
                    self.spec_lexeme(),
                    tok_begin as int,
                    tok_end as int,
                    g as int,
                ) is None,
            },
        decreases 14 - g,
    {
        if g >= 14 {
            return None;
        }
        let group = Self::priority_group(g);
        match self.find_any_operator_in(tok_begin, tok_end, &group, true) {
            Some(i) => Some(i),
            None => self.find_priority_from(tok_begin, tok_end, g + 1),
        }
    }

    /// The rightmost occurrence, outside parentheses, of an operator of the
    /// loosest-binding level represented in `[tok_begin, tok_end)`.
    fn find_highest_priority_op_in(&mut self, tok_begin: usize, tok_end: usize) -> (r: Option<
        usize,
    >)
        requires
            tok_end <= old(self).spec_lexeme().len(),
        ensures
            *final(self) == *old(self),
            match r {
                Some(j) => Some(j as int) == spec_find_priority(
                    old(self).spec_lexeme(),
                    tok_begin as int,
                    tok_end as int,
                    0,
                ),
                None => spec_find_priority(
                    old(self).spec_lexeme(),
                    tok_begin as int,
                    tok_end as int,
                    0,
                ) is None,
            },
    {
        self.find_priority_from(tok_begin, tok_end, 0)
    }

    /// Reads the comma-separated argument expressions in
    /// `[tok_begin, tok_end)`.
    fn read_operations_sep_by_commas_in(&mut self, tok_begin: usize, tok_end: usize) -> (r:
        Result<Vec<Box<OperationResult>>, ParseError>)
        requires
            tok_begin <= tok_end,
            tok_end <= old(self).spec_lexeme().len(),
        ensures
            *final(self) == *old(self),
            ({
                let s = spec_read_args(
                    old(self).spec_lexeme(),
                    tok_begin as int,
                    tok_begin as int,
                    tok_end as int,
                    0,
                    0,
                    Seq::empty(),
                );
                match r {
                    Ok(ops) => s == Ok::<Seq<SpecOp>, SpecParseError>(
                        crate::ast::spec_ops_deep(ops@),
                    ),
                    Err(e) => s == Err::<Seq<SpecOp>, SpecParseError>(e.deep_view()),
                }
            }),
        decreases tok_end - tok_begin, 2int, 0int,
    {
        let mut operations: Vec<Box<OperationResult>> = Vec::new();
        proof {
            assert(crate::ast::spec_ops_deep(operations@) =~= Seq::<SpecOp>::empty());
        }
        self.read_args_loop(tok_begin, tok_begin, tok_end, 0, 0, operations)
    }

    fn read_args_loop(
        &mut self,
        last: usize,
        i: usize,
        tok_end: usize,
        opens: usize,
        closes: usize,
        acc: Vec<Box<OperationResult>>,
    ) -> (r: Result<Vec<Box<OperationResult>>, ParseError>)
        requires
            last <= i <= tok_end,
            tok_end <= old(self).spec_lexeme().len(),
            opens <= i,
            closes <= i,
        ensures
            *final(self) == *old(self),
            ({
                let s = spec_read_args(
                    old(self).spec_lexeme(),
                    last as int,
                    i as int,
                    tok_end as int,
                    opens as int,
                    closes as int,
                    crate::ast::spec_ops_deep(acc@),
                );
                match r {
                    Ok(ops) => s == Ok::<Seq<SpecOp>, SpecParseError>(
                        crate::ast::spec_ops_deep(ops@),
                    ),
                    Err(e) => s == Err::<Seq<SpecOp>, SpecParseError>(e.deep_view()),
                }
            }),
        decreases tok_end - last, 1int, tok_end - i,
    {
        if i >= tok_end {
            match self.read_operation_in(last, tok_end) {
                Ok(op) => {
                    let mut acc2 = acc;
                    let ghost old_acc = acc2@;
                    acc2.push(Box::new(op));
                    proof {
                        assert(acc2@.drop_last() =~= old_acc);
                        assert(crate::ast::spec_ops_deep(acc2@) =~= crate::ast::spec_ops_deep(
                            old_acc,
                        ).push(op.deep_view()));
                    }
                    Ok(acc2)
                },
                Err(e) => Err(e),
            }
        } else {
            let token_at_i = &self.lexeme.token_at(i).token;
            let is_open = match token_at_i {
                Token::Delimiter(Delimiter::ParenthesisOpen) => true,
                _ => false,
            };
            let is_close = match token_at_i {
                Token::Delimiter(Delimiter::ParenthesisClose) => true,
                _ => false,
            };
            let opens2 = if is_open {
                opens + 1
            } else {
                opens
            };
            let closes2 = if is_close {
                closes + 1
            } else {
                closes
            };
            if opens2 > closes2 {
                self.read_args_loop(last, i + 1, tok_end, opens2, closes2, acc)
            } else {
                let is_comma = match token_at_i {
                    Token::Operator(Operator::Comma) => true,
                    _ => false,
                };
                if is_comma {
                    match self.read_operation_in(last, i) {
                        Ok(op) => {
                            let mut acc2 = acc;
                            let ghost old_acc = acc2@;
                            acc2.push(Box::new(op));
                            proof {
                                assert(acc2@.drop_last() =~= old_acc);
                                assert(crate::ast::spec_ops_deep(acc2@)
                                    =~= crate::ast::spec_ops_deep(old_acc).push(
                                    op.deep_view(),
                                ));
                            }
                            self.read_args_loop(i + 1, i + 1, tok_end, opens2, closes2, acc2)
                        },
                        Err(e) => Err(e),
                    }
                } else {
                    self.read_args_loop(last, i + 1, tok_end, opens2, closes2, acc)
                }
            }
        }
    }

    fn read_operation_in(&mut self, tok_begin: usize, tok_end: usize) -> (r: Result<
        OperationResult,
        ParseError,
    >)
        ensures
            *final(self) == *old(self),
            ({
                let s = spec_read_operation(
                    old(self).spec_lexeme(),
                    tok_begin as int,
                    tok_end as int,
                );
                match r {
                    Ok(op) => s == Ok::<SpecOp, SpecParseError>(op.deep_view()),
                    Err(e) => s == Err::<SpecOp, SpecParseError>(e.deep_view()),
                }
            }),
        decreases tok_end - tok_begin, 0int, 0int,
    {
        if tok_end > self.lexeme.len() || tok_begin >= tok_end {
            return Err(
                ParseError { msg: String::from_str("Could not read operation"), at: tok_begin },
            );
        }

        // Read the loosest-binding operator.
        proof {
            lemma_find_priority_bounds(
                self.spec_lexeme(),
                tok_begin as int,
                tok_end as int,
                0,
            );
        }
        match self.find_highest_priority_op_in(tok_begin, tok_end) {
            Some(i) => {
                let op = match &self.lexeme.token_at(i).token {
                    Token::Operator(op) => *op,
                    _ => {
                        return Err(
                            ParseError {
                                msg: String::from_str("This should never happen"),
                                at: i,
                            },
                        );
                    },
                };
                let bop = match BinaryOperator::from(&op) {
                    Some(bop) => bop,
                    None => {
                        return Err(
                            ParseError {
                                msg: String::from_str("Invalid operator for BinaryOperator"),
                                at: i,
                            },
                        );
                    },
                };
                let left = match self.read_operation_in(tok_begin, i) {
                    Ok(l) => l,
                    Err(e) => {
                        return Err(e);
                    },
                };
                let right = match self.read_operation_in(i + 1, tok_end) {
                    Ok(rr) => rr,
                    Err(e) => {
                        return Err(e);
                    },
                };
                Ok(
                    OperationResult::BinOpResult(
                        BinaryOperation {
                            left: Box::new(left),
                            right: Box::new(right),
                            operator: bop,
                        },
                    ),
                )
            },
            None => {
                // Read a function call.
                if tok_end - tok_begin >= 3 {
                    let id: Option<String> = match &self.lexeme.token_at(tok_begin).token {
                        Token::Identifier(id) => Some(id.clone()),
                        _ => None,
                    };
                    let par_open = match &self.lexeme.token_at(tok_begin + 1).token {
                        Token::Delimiter(Delimiter::ParenthesisOpen) => true,
                        _ => false,
                    };
                    let par_close = match &self.lexeme.token_at(tok_end - 1).token {
                        Token::Delimiter(Delimiter::ParenthesisClose) => true,
                        _ => false,
                    };
                    match id {
                        Some(id) => {
                            if par_open && par_close {
                                let args = match self.read_operations_sep_by_commas_in(
                                    tok_begin + 2,
                                    tok_end - 1,
                                ) {
                                    Ok(a) => a,
                                    Err(e) => {
                                        return Err(e);
                                    },
                                };
                                return Ok(
                                    OperationResult::FuncResult(
                                        ApplyFunction { function_id: id, arguments: args },
                                    ),
                                );
                            }
                        },
                        None => {},
                    }
                }

                // Read a parenthesized range.
                let open_at_begin = match &self.lexeme.token_at(tok_begin).token {
                    Token::Delimiter(Delimiter::ParenthesisOpen) => true,
                    _ => false,
                };
                let close_at_end = match &self.lexeme.token_at(tok_end - 1).token {
                    Token::Delimiter(Delimiter::ParenthesisClose) => true,
                    _ => false,
                };
                if open_at_begin && close_at_end {
                    return self.read_operation_in(tok_begin + 1, tok_end - 1);
                }

                // Read an identifier or literal leaf.
                if tok_end == tok_begin + 1 {
                    match &self.lexeme.token_at(tok_begin).token {
                        Token::Identifier(id) => {
                            return Ok(OperationResult::Identifier(id.clone()));
                        },
                        Token::Integer(s) => {
                            return Ok(
                                OperationResult::Literal(Literal::Integer(s.clone())),
                            );
                        },
                        Token::Float(s) => {
                            return Ok(OperationResult::Literal(Literal::Float(s.clone())));
                        },
                        Token::String(s) => {
                            return Ok(
                                OperationResult::Literal(Literal::String(s.clone())),
                            );
                        },
                        Token::Boolean(b) => {
                            return Ok(OperationResult::Literal(Literal::Boolean(*b)));
                        },
                        _ => {},
                    }
                }

                Err(
                    ParseError {
                        msg: String::from_str("Could not read operation"),
                        at: tok_begin,
                    },
                )
            },
        }
    }
}

/// Whether `t` equals one of `tokens`.
fn token_in(tokens: &Vec<Token>, t: &Token) -> (r: bool)
    ensures
        r == tokens.deep_view().contains(t@),
{
    let mut k: usize = 0;
    while k < tokens.len()
        invariant
            k <= tokens@.len(),
            forall|j: int| 0 <= j < k ==> tokens.deep_view()[j] != t@,
        decreases tokens@.len() - k,
    {
        if tokens[k].token_eq(t) {
            proof {
                assert(tokens.deep_view()[k as int] == t@);
            }
            return true;
        }
        k += 1;
    }
    false
}

} // verus!
