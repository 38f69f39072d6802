//! The statement and translation-unit parser: a single cursor moves over
//! the token sequence; statement terminators are skipped, then one statement
//! is classified and read. Only declarations, function definitions and
//! struct definitions are accepted at top level. Every structural mismatch,
//! including one the original data would have read out of range, is a
//! `ParseError` carrying the cursor position.
//!
//! `spec_build` is the exact specification: `parser` returns precisely the
//! translation unit (or the error) that it describes.

use vstd::prelude::*;
use vstd::string::*;
use crate::ast::{BuiltInType, CustomType, FunctionBlock, SpecCustomType, SpecFunctionBlock,
    SpecStatement, SpecTranslationUnit, SpecVariable, SpecVariableDeclaration, Statement,
    TranslationUnit, Type, Variable, VariableDeclaration, Body, SpecBody};
use crate::lexeme::{Lexeme, SpecContextedToken};
use crate::operation_parser::{OperationParser, ParseError, SpecParseError, spec_read_operation};
use crate::text::str_equal;
use crate::tokens::{Delimiter, Keyword, SpecToken, Token};

verus! {

/// The index of the first custom type named `id`, searching from `i`.
pub open spec fn spec_find_custom(cts: Seq<SpecCustomType>, id: Seq<char>, i: int) -> Option<int>
    decreases cts.len() - i,
{
    if i < 0 || i >= cts.len() {
        None
    } else if cts[i].identifier == id {
        Some(i)
    } else {
        spec_find_custom(cts, id, i + 1)
    }
}

/// The type a source identifier resolves to: a built-in type by its fixed
/// spelling, else a reference to the custom type of that name, if any.
pub open spec fn spec_get_type(cts: Seq<SpecCustomType>, id: Seq<char>) -> Option<Type> {
    match BuiltInType::spec_from(id) {
        Some(t) => Some(Type::BuiltIn(t)),
        None => match spec_find_custom(cts, id, 0) {
            Some(k) => Some(Type::Custom(k as usize)),
            None => None,
        },
    }
}

/// The cursor after skipping statement terminators from `pos`.
pub open spec fn spec_skip_eos(lex: Seq<SpecContextedToken>, pos: int) -> int
    decreases lex.len() - pos,
{
    if pos < 0 || pos >= lex.len() {
        pos
    } else if lex[pos].token is EndOfStatement {
        spec_skip_eos(lex, pos + 1)
    } else {
        pos
    }
}

/// The index of the first statement terminator at or after `pos`.
pub open spec fn spec_find_eos(lex: Seq<SpecContextedToken>, pos: int) -> Option<int>
    decreases lex.len() - pos,
{
    if pos < 0 || pos >= lex.len() {
        None
    } else if lex[pos].token is EndOfStatement {
        Some(pos)
    } else {
        spec_find_eos(lex, pos + 1)
    }
}

/// A bare operation read from the cursor up to the next statement
/// terminator, which becomes the new cursor.
pub open spec fn spec_read_operation_statement(lex: Seq<SpecContextedToken>, pos: int) -> Result<
    (SpecStatement, int),
    SpecParseError,
> {
    match spec_find_eos(lex, pos) {
        Some(e) => match spec_read_operation(lex, pos, e) {
            Ok(op) => Ok((SpecStatement::Operation(op), e)),
            Err(e2) => Err(e2),
        },
        None => Err(SpecParseError { msg: "Did not find end of statement"@, at: pos }),
    }
}

/// A declaration read at the cursor: type identifier, name identifier, then
/// either a statement terminator or `=` and an initializer expression.
pub open spec fn spec_read_declaration(
    lex: Seq<SpecContextedToken>,
    pos: int,
    cts: Seq<SpecCustomType>,
) -> Result<(SpecVariableDeclaration, int), SpecParseError> {
    if pos < 0 || pos >= lex.len() {
        Err(SpecParseError { msg: "Expected identifier"@, at: pos })
    } else {
        match lex[pos].token {
            SpecToken::Identifier(tid) => match spec_get_type(cts, tid) {
                Some(type_) => {
                    if pos + 1 >= lex.len() {
                        Err(SpecParseError { msg: "Expected identifier"@, at: pos + 1 })
                    } else {
                        match lex[pos + 1].token {
                            SpecToken::Identifier(var_id) => {
                                if pos + 2 >= lex.len() {
                                    Err(
                                        SpecParseError {
                                            msg: "Expected semicolon or assignment"@,
                                            at: pos + 2,
                                        },
                                    )
                                } else if lex[pos + 2].token is EndOfStatement {
                                    Ok(
                                        (
                                            SpecVariableDeclaration {
                                                identifier: var_id,
                                                type_,
                                                init_value: None,
                                            },
                                            pos + 2,
                                        ),
                                    )
                                } else if lex[pos + 2].token == SpecToken::Operator(
                                    crate::tokens::Operator::Assign,
                                ) {
                                    match spec_read_operation_statement(lex, pos + 3) {
                                        Ok((SpecStatement::Operation(op), e)) => Ok(
                                            (
                                                SpecVariableDeclaration {
                                                    identifier: var_id,
                                                    type_,
                                                    init_value: Some(op),
                                                },
                                                e,
                                            ),
                                        ),
                                        Ok(_) => Err(
                                            SpecParseError {
                                                msg: "Did not find end of statement"@,
                                                at: pos + 3,
                                            },
                                        ),
                                        Err(e2) => Err(e2),
                                    }
                                } else {
                                    Err(
                                        SpecParseError {
                                            msg: "Expected semicolon or assignment"@,
                                            at: pos + 2,
                                        },
                                    )
                                }
                            },
                            _ => Err(
                                SpecParseError { msg: "Expected identifier"@, at: pos + 1 },
                            ),
                        }
                    }
                },
                None => Err(SpecParseError { msg: "Unknown type"@, at: pos }),
            },
            _ => Err(SpecParseError { msg: "Expected identifier"@, at: pos }),
        }
    }
}

/// The function parameters read from the cursor: pairs of a type identifier
/// and a name identifier, in immediate succession, until a close
/// parenthesis, which becomes the new cursor.
pub open spec fn spec_read_fun_args(
    lex: Seq<SpecContextedToken>,
    pos: int,
    cts: Seq<SpecCustomType>,
    acc: Seq<SpecVariable>,
) -> Result<(Seq<SpecVariable>, int), SpecParseError>
    decreases lex.len() - pos,
{
    let p = pos + 1;
    if pos < 0 || p >= lex.len() {
        Err(SpecParseError { msg: "Expected identifier or end of argument list"@, at: pos })
    } else {
        match lex[p].token {
            SpecToken::Delimiter(Delimiter::ParenthesisClose) => Ok((acc, p)),
            SpecToken::Identifier(tid) => {
                let q = p + 1;
                if q >= lex.len() {
                    Err(SpecParseError { msg: "Expected identifier"@, at: q })
                } else {
                    match lex[q].token {
                        SpecToken::Identifier(arg_id) => match spec_get_type(cts, tid) {
                            Some(type_) => spec_read_fun_args(
                                lex,
                                q,
                                cts,
                                acc.push(SpecVariable { identifier: arg_id, type_ }),
                            ),
                            None => Err(SpecParseError { msg: "Unknown type"@, at: p }),
                        },
                        _ => Err(SpecParseError { msg: "Expected identifier"@, at: q }),
                    }
                }
            },
            _ => Err(
                SpecParseError { msg: "Expected identifier or end of argument list"@, at: p },
            ),
        }
    }
}

/// The statements of a brace-delimited body, read by advancing the cursor
/// and reading statements until the matching close brace; the new cursor is
/// just past the close brace.
pub open spec fn spec_read_body_loop(
    lex: Seq<SpecContextedToken>,
    pos: int,
    cts: Seq<SpecCustomType>,
    acc: Seq<SpecStatement>,
) -> Result<(SpecBody, int), SpecParseError>
    decreases lex.len() - pos, 2int,
{
    let p = pos + 1;
    if pos < 0 || p >= lex.len() {
        Err(SpecParseError { msg: "Unexpected end of body"@, at: pos })
    } else if lex[p].token == SpecToken::Delimiter(Delimiter::BracketsClose) {
        Ok((SpecBody { statements: acc }, p + 1))
    } else {
        match spec_read_statement(lex, p, cts) {
            Ok((ost, p2)) => {
                if p2 < p || p2 > lex.len() {
                    Err(SpecParseError { msg: "Unexpected end of body"@, at: p })
                } else {
                    match ost {
                        Some(st) => spec_read_body_loop(lex, p2, cts, acc.push(st)),
                        None => spec_read_body_loop(lex, p2, cts, acc),
                    }
                }
            },
            Err(e) => Err(e),
        }
    }
}

/// A function definition read at the cursor: `def`, a return type (`void`
/// or a known type name), the function name, a parenthesized parameter
/// list, and a body.
pub open spec fn spec_read_function(
    lex: Seq<SpecContextedToken>,
    pos: int,
    cts: Seq<SpecCustomType>,
) -> Result<(SpecFunctionBlock, int), SpecParseError>
    decreases lex.len() - pos, 2int,
{
    if pos < 0 || pos + 3 >= lex.len() {
        Err(SpecParseError { msg: "Expected function identifier"@, at: pos + 1 })
    } else {
        let ret: Result<Option<Type>, SpecParseError> = match lex[pos + 1].token {
            SpecToken::Keyword(Keyword::Void) => Ok(None),
            SpecToken::Identifier(id) => match spec_get_type(cts, id) {
                Some(t) => Ok(Some(t)),
                None => Err(SpecParseError { msg: "Unknown return type"@, at: pos + 1 }),
            },
            _ => Err(SpecParseError { msg: "Expected function identifier"@, at: pos + 1 }),
        };
        match ret {
            Err(e) => Err(e),
            Ok(return_type) => match lex[pos + 2].token {
                SpecToken::Identifier(fun_id) => {
                    if lex[pos + 3].token == SpecToken::Delimiter(
                        Delimiter::ParenthesisOpen,
                    ) {
                        match spec_read_fun_args(lex, pos + 3, cts, Seq::empty()) {
                            Ok((args, args_end)) => {
                                let c = args_end + 1;
                                if c <= pos || c > lex.len() {
                                    Err(
                                        SpecParseError {
                                            msg: "Unexpected end of body"@,
                                            at: c,
                                        },
                                    )
                                } else {
                                    match spec_read_body_loop(lex, c, cts, Seq::empty()) {
                                        Ok((body, p2)) => Ok(
                                            (
                                                SpecFunctionBlock {
                                                    identifier: fun_id,
                                                    arguments: args,
                                                    return_type,
                                                    body,
                                                },
                                                p2,
                                            ),
                                        ),
                                        Err(e) => Err(e),
                                    }
                                }
                            },
                            Err(e) => Err(e),
                        }
                    } else {
                        Err(SpecParseError { msg: "Expected argument list"@, at: pos + 3 })
                    }
                },
                _ => Err(
                    SpecParseError { msg: "Expected function identifier"@, at: pos + 2 },
                ),
            },
        }
    }
}

/// One statement read at the cursor, after skipping statement terminators:
/// none at the end of the sequence or at an end-of-file token, a nested
/// body at an open brace, a function definition at `def`, a declaration at
/// an identifier naming a known type, and otherwise a bare operation.
pub open spec fn spec_read_statement(
    lex: Seq<SpecContextedToken>,
    pos: int,
    cts: Seq<SpecCustomType>,
) -> Result<(Option<SpecStatement>, int), SpecParseError>
    decreases lex.len() - pos, 3int,
{
    let q = spec_skip_eos(lex, pos);
    if q < pos {
        Err(SpecParseError { msg: "Unexpected statement"@, at: pos })
    } else if q >= lex.len() {
        Ok((None, q))
    } else {
        match lex[q].token {
            SpecToken::EndOfStatement => Ok((None, q)),
            SpecToken::EndOfFile => Ok((None, q)),
            SpecToken::Delimiter(Delimiter::BracketsOpen) => match spec_read_body_loop(
                lex,
                q,
                cts,
                Seq::empty(),
            ) {
                Ok((body, p2)) => Ok((Some(SpecStatement::Body(body)), p2)),
                Err(e) => Err(e),
            },
            SpecToken::Keyword(Keyword::Def) => match spec_read_function(lex, q, cts) {
                Ok((f, p2)) => Ok((Some(SpecStatement::Function(f)), p2)),
                Err(e) => Err(e),
            },
            SpecToken::Identifier(id) => {
                if spec_get_type(cts, id) is Some {
                    match spec_read_declaration(lex, q, cts) {
                        Ok((d, p2)) => Ok((Some(SpecStatement::Declaration(d)), p2)),
                        Err(e) => Err(e),
                    }
                } else {
                    match spec_read_operation_statement(lex, q) {
                        Ok((st, p2)) => Ok((Some(st), p2)),
                        Err(e) => Err(e),
                    }
                }
            },
            _ => match spec_read_operation_statement(lex, q) {
                Ok((st, p2)) => Ok((Some(st), p2)),
                Err(e) => Err(e),
            },
        }
    }
}

/// The translation unit accumulated from `pos` on: declarations, function
/// definitions and struct definitions are collected; any other statement at
/// top level is an error.
pub open spec fn spec_build(
    lex: Seq<SpecContextedToken>,
    pos: int,
    unit: SpecTranslationUnit,
) -> Result<SpecTranslationUnit, SpecParseError>
    decreases lex.len() - pos, 4int,
{
    if pos < 0 || pos >= lex.len() {
        Ok(unit)
    } else {
        match spec_read_statement(lex, pos, unit.custom_types) {
            Ok((ost, p2)) => {
                if p2 <= pos || p2 > lex.len() {
                    Err(SpecParseError { msg: "Unexpected statement"@, at: pos })
                } else {
                    match ost {
                        Some(SpecStatement::Declaration(d)) => spec_build(
                            lex,
                            p2,
                            SpecTranslationUnit {
                                global_variables: unit.global_variables.push(d),
                                ..unit
                            },
                        ),
                        Some(SpecStatement::Function(f)) => spec_build(
                            lex,
                            p2,
                            SpecTranslationUnit { functions: unit.functions.push(f), ..unit },
                        ),
                        Some(_) => Err(
                            SpecParseError { msg: "Unexpected statement"@, at: pos },
                        ),
                        None => {
                            if p2 >= lex.len() {
                                Ok(unit)
                            } else {
                                Err(SpecParseError { msg: "Unexpected statement"@, at: pos })
                            }
                        },
                    }
                }
            },
            Err(e) => Err(e),
        }
    }
}

/// Progress of the statement reader: the cursor never moves backwards, and
/// a statement that was read moved it strictly forward.
proof fn lemma_skip_eos_bounds(lex: Seq<SpecContextedToken>, pos: int)
    requires
        0 <= pos <= lex.len(),
    ensures
        pos <= spec_skip_eos(lex, pos) <= lex.len(),
    decreases lex.len() - pos,
{
    if pos < lex.len() && lex[pos].token is EndOfStatement {
        lemma_skip_eos_bounds(lex, pos + 1);
    }
}

proof fn lemma_find_eos_bounds(lex: Seq<SpecContextedToken>, pos: int)
    requires
        0 <= pos <= lex.len(),
    ensures
        spec_find_eos(lex, pos) matches Some(e) ==> pos <= e < lex.len(),
    decreases lex.len() - pos,
{
    if pos < lex.len() && !(lex[pos].token is EndOfStatement) {
        lemma_find_eos_bounds(lex, pos + 1);
    }
}

proof fn lemma_read_fun_args_bounds(
    lex: Seq<SpecContextedToken>,
    pos: int,
    cts: Seq<SpecCustomType>,
    acc: Seq<SpecVariable>,
)
    requires
        0 <= pos,
    ensures
        spec_read_fun_args(lex, pos, cts, acc) matches Ok((_, p2)) ==> pos + 1 <= p2
            < lex.len(),
    decreases lex.len() - pos,
{
    let p = pos + 1;
    if p < lex.len() {
        match lex[p].token {
            SpecToken::Identifier(tid) => {
                let q = p + 1;
                if q < lex.len() {
                    match lex[q].token {
                        SpecToken::Identifier(arg_id) => {
                            match spec_get_type(cts, tid) {
                                Some(type_) => {
                                    lemma_read_fun_args_bounds(
                                        lex,
                                        q,
                                        cts,
                                        acc.push(
                                            SpecVariable { identifier: arg_id, type_ },
                                        ),
                                    );
                                },
                                None => {},
                            }
                        },
                        _ => {},
                    }
                }
            },
            _ => {},
        }
    }
}

proof fn lemma_read_statement_bounds(
    lex: Seq<SpecContextedToken>,
    pos: int,
    cts: Seq<SpecCustomType>,
)
    requires
        0 <= pos <= lex.len(),
    ensures
        spec_read_statement(lex, pos, cts) matches Ok((ost, p2)) ==> pos <= p2 <= lex.len()
            && (ost is Some ==> pos < p2),
    decreases lex.len() - pos, 3int,
{
    if pos <= lex.len() {
        lemma_skip_eos_bounds(lex, pos);
    }
    let q = spec_skip_eos(lex, pos);
    if pos <= lex.len() && q < lex.len() {
        match lex[q].token {
            SpecToken::Delimiter(Delimiter::BracketsOpen) => {
                lemma_read_body_loop_bounds(lex, q, cts, Seq::empty());
            },
            SpecToken::Keyword(Keyword::Def) => {
                lemma_read_function_bounds(lex, q, cts);
            },
            SpecToken::Identifier(id) => {
                if spec_get_type(cts, id) is Some {
                } else {
                    lemma_find_eos_bounds(lex, q);
                }
            },
            _ => {
                lemma_find_eos_bounds(lex, q);
            },
        }
        match lex[q].token {
            SpecToken::Identifier(id) => {
                if spec_get_type(cts, id) is Some {
                    if q + 2 < lex.len() && lex[q + 2].token == SpecToken::Operator(
                        crate::tokens::Operator::Assign,
                    ) {
                        lemma_find_eos_bounds(lex, q + 3);
                    }
                }
            },
            _ => {},
        }
    }
}

proof fn lemma_read_body_loop_bounds(
    lex: Seq<SpecContextedToken>,
    pos: int,
    cts: Seq<SpecCustomType>,
    acc: Seq<SpecStatement>,
)
    requires
        0 <= pos,
    ensures
        spec_read_body_loop(lex, pos, cts, acc) matches Ok((_, p2)) ==> pos + 2 <= p2
            <= lex.len(),
    decreases lex.len() - pos, 2int,
{
    let p = pos + 1;
    if p < lex.len() && !(lex[p].token == SpecToken::Delimiter(Delimiter::BracketsClose)) {
        lemma_read_statement_bounds(lex, p, cts);
        match spec_read_statement(lex, p, cts) {
            Ok((ost, p2)) => {
                if p2 >= p && p2 <= lex.len() {
                    match ost {
                        Some(st) => {
                            lemma_read_body_loop_bounds(lex, p2, cts, acc.push(st));
                        },
                        None => {
                            lemma_read_body_loop_bounds(lex, p2, cts, acc);
                        },
                    }
                }
            },
            Err(_) => {},
        }
    }
}

proof fn lemma_read_function_bounds(
    lex: Seq<SpecContextedToken>,
    pos: int,
    cts: Seq<SpecCustomType>,
)
    requires
        0 <= pos,
    ensures
        spec_read_function(lex, pos, cts) matches Ok((_, p2)) ==> pos < p2 <= lex.len(),
    decreases lex.len() - pos, 2int,
{
    if !(pos + 3 >= lex.len()) {
        lemma_read_fun_args_bounds(lex, pos + 3, cts, Seq::empty());
        match spec_read_fun_args(lex, pos + 3, cts, Seq::empty()) {
            Ok((args, args_end)) => {
                let c = args_end + 1;
                if c > pos {
                    lemma_read_body_loop_bounds(lex, c, cts, Seq::empty());
                }
            },
            Err(_) => {},
        }
    }
}

/// Parses a token sequence into a translation unit.
pub fn parser(lexeme: &Lexeme) -> (r: Result<TranslationUnit, ParseError>)
    ensures
        ({
            let s = spec_build(
                lexeme@,
                0,
                SpecTranslationUnit {
                    custom_types: Seq::empty(),
                    global_variables: Seq::empty(),
                    functions: Seq::empty(),
                },
            );
            match r {
                Ok(tu) => s == Ok::<SpecTranslationUnit, SpecParseError>(tu.deep_view()),
                Err(e) => s == Err::<SpecTranslationUnit, SpecParseError>(e.deep_view()),
            }
        }),
{
    let mut ast_builder = TUBuilder::new(lexeme);
    match ast_builder.build() {
        Ok(()) => Ok(ast_builder.tu),
        Err(e) => Err(e),
    }
}

impl TranslationUnit {
    /// Parses the translation unit a token sequence describes.
    pub fn from_lexeme(lexeme: &Lexeme) -> (r: Result<TranslationUnit, ParseError>)
        ensures
            ({
                let s = spec_build(
                    lexeme@,
                    0,
                    SpecTranslationUnit {
                        custom_types: Seq::empty(),
                        global_variables: Seq::empty(),
                        functions: Seq::empty(),
                    },
                );
                match r {
                    Ok(tu) => s == Ok::<SpecTranslationUnit, SpecParseError>(tu.deep_view()),
                    Err(e) => s == Err::<SpecTranslationUnit, SpecParseError>(e.deep_view()),
                }
            }),
    {
        parser(lexeme)
    }
}

struct TUBuilder<'a> {
    lexeme: &'a Lexeme,
    current_token: usize,
    tu: TranslationUnit,
}

impl<'a> TUBuilder<'a> {
    fn new(lexeme: &'a Lexeme) -> (r: TUBuilder<'a>)
        ensures
            r.lexeme@ == lexeme@,
            r.current_token == 0,
            r.tu.deep_view().custom_types == Seq::<SpecCustomType>::empty(),
            r.tu.deep_view().global_variables == Seq::<SpecVariableDeclaration>::empty(),
            r.tu.deep_view().functions == Seq::<SpecFunctionBlock>::empty(),
    {
        TUBuilder { lexeme, current_token: 0, tu: TranslationUnit::new() }
    }

    /// The index of the first custom type of the unit named `id`, if any.
    fn get_custom_type_from_id(&self, id: &str) -> (r: Option<usize>)
        ensures
            match r {
                Some(k) => Some(k as int) == spec_find_custom(
                    self.tu.deep_view().custom_types,
                    id@,
                    0,
                ) && k < self.tu.deep_view().custom_types.len(),
                None => spec_find_custom(self.tu.deep_view().custom_types, id@, 0) is None,
            },
    {
        let mut k: usize = 0;
        while k < self.tu.custom_types.len()
            invariant
                k <= self.tu.custom_types@.len(),
                spec_find_custom(self.tu.deep_view().custom_types, id@, 0) == spec_find_custom(
                    self.tu.deep_view().custom_types,
                    id@,
                    k as int,
                ),
            decreases self.tu.custom_types@.len() - k,
        {
            proof {
                assert(self.tu.deep_view().custom_types[k as int] == self.tu.custom_types@[
                    k as int].deep_view());
            }
            if str_equal(self.tu.custom_types[k].identifier.as_str(), id) {
                return Some(k);
            }
            k += 1;
        }
        None
    }

    /// The type `id` resolves to against the unit's custom types.
    fn get_type_from_id(&self, id: &str) -> (r: Option<Type>)
        ensures
            r == spec_get_type(self.tu.deep_view().custom_types, id@),
    {
        if let Some(type_) = BuiltInType::from(id) {
            return Some(Type::BuiltIn(type_));
        }
        if let Some(k) = self.get_custom_type_from_id(id) {
            return Some(Type::Custom(k));
        }
        None
    }

    /// The token at the cursor.
    fn last_token(&self) -> (r: &crate::lexeme::ContextedToken)
        requires
            self.current_token < self.lexeme@.len(),
        ensures
            r@ == self.lexeme@[self.current_token as int],
    {
        self.lexeme.token_at(self.current_token)
    }

    /// Advances the cursor and reads the token there.
    fn next_token(&mut self) -> (r: &crate::lexeme::ContextedToken)
        requires
            old(self).current_token < usize::MAX,
            old(self).current_token + 1 < old(self).lexeme@.len(),
        ensures
            *final(self) == (TUBuilder {
                current_token: (old(self).current_token + 1) as usize,
                ..*old(self)
            }),
            r@ == old(self).lexeme@[old(self).current_token + 1],
    {
        self.current_token += 1;
        self.lexeme.token_at(self.current_token)
    }

    /// Advances the cursor by one token.
    fn incr_token(&mut self)
        requires
            old(self).current_token < usize::MAX,
        ensures
            *final(self) == (TUBuilder {
                current_token: (old(self).current_token + 1) as usize,
                ..*old(self)
            }),
    {
        self.current_token += 1;
    }

    /// Reads the whole token sequence into the unit.
    fn build(&mut self) -> (r: Result<(), ParseError>)
        requires
            old(self).current_token == 0,
        ensures
            final(self).lexeme@ == old(self).lexeme@,
            ({
                let s = spec_build(old(self).lexeme@, 0, old(self).tu.deep_view());
                match r {
                    Ok(()) => s == Ok::<SpecTranslationUnit, SpecParseError>(
                        final(self).tu.deep_view(),
                    ),
                    Err(e) => s == Err::<SpecTranslationUnit, SpecParseError>(e.deep_view()),
                }
            }),
    {
        loop
            invariant
                self.lexeme@ == old(self).lexeme@,
                self.current_token <= self.lexeme@.len(),
                spec_build(old(self).lexeme@, 0, old(self).tu.deep_view()) == spec_build(
                    self.lexeme@,
                    self.current_token as int,
                    self.tu.deep_view(),
                ),
            decreases self.lexeme@.len() - self.current_token,
        {
            if self.current_token >= self.lexeme.len() {
                return Ok(());
            }
            let at_pos = self.current_token;
            let ghost pos = self.current_token as int;
            let ghost cts = self.tu.deep_view().custom_types;
            proof {
                lemma_read_statement_bounds(self.lexeme@, pos, cts);
            }
            match self.read_statement() {
                Ok(Some(Statement::Declaration(dec))) => {
                    let ghost old_unit = self.tu.deep_view();
                    let ghost d_deep = dec.deep_view();
                    self.tu.global_variables.push(dec);
                    proof {
                        assert(self.tu.deep_view().global_variables
                            =~= old_unit.global_variables.push(d_deep));
                        assert(self.tu.deep_view().custom_types =~= old_unit.custom_types);
                        assert(self.tu.deep_view().functions =~= old_unit.functions);
                    }
                },
                Ok(Some(Statement::Function(fun))) => {
                    let ghost old_unit = self.tu.deep_view();
                    let ghost f_deep = fun.deep_view();
                    self.tu.functions.push(fun);
                    proof {
                        assert(self.tu.deep_view().functions =~= old_unit.functions.push(
                            f_deep,
                        ));
                        assert(self.tu.deep_view().custom_types =~= old_unit.custom_types);
                        assert(self.tu.deep_view().global_variables
                            =~= old_unit.global_variables);
                    }
                },
                Ok(Some(_)) => {
                    return Err(
                        ParseError {
                            msg: String::from_str("Unexpected statement"),
                            at: at_pos,
                        },
                    );
                },
                Ok(None) => {
                    if self.current_token >= self.lexeme.len() {
                        return Ok(());
                    } else {
                        return Err(
                            ParseError {
                                msg: String::from_str("Unexpected statement"),
                                at: at_pos,
                            },
                        );
                    }
                },
                Err(e) => {
                    return Err(e);
                },
            }
        }
    }

    /// Reads one statement at the cursor, after skipping statement
    /// terminators; `None` means the sequence (or an end-of-file token) was
    /// reached.
    fn read_statement(&mut self) -> (r: Result<Option<Statement>, ParseError>)
        ensures
            final(self).lexeme@ == old(self).lexeme@,
            final(self).tu.deep_view() == old(self).tu.deep_view(),
            ({
                let s = spec_read_statement(
                    old(self).lexeme@,
                    old(self).current_token as int,
                    old(self).tu.deep_view().custom_types,
                );
                match r {
                    Ok(ost) => s == Ok::<(Option<SpecStatement>, int), SpecParseError>(
                        (ost.deep_view(), final(self).current_token as int),
                    ),
                    Err(e) => s == Err::<(Option<SpecStatement>, int), SpecParseError>(
                        e.deep_view(),
                    ),
                }
            }),
        decreases old(self).lexeme@.len() - old(self).current_token, 6int,
    {
        loop
            invariant
                self.lexeme@ == old(self).lexeme@,
                self.tu.deep_view() == old(self).tu.deep_view(),
                self.current_token <= self.lexeme@.len() || self.current_token == old(
                    self,
                ).current_token,
                self.current_token >= old(self).current_token,
                spec_skip_eos(self.lexeme@, old(self).current_token as int) == spec_skip_eos(
                    self.lexeme@,
                    self.current_token as int,
                ),
            ensures
                self.lexeme@ == old(self).lexeme@,
                self.tu.deep_view() == old(self).tu.deep_view(),
                self.current_token <= self.lexeme@.len() || self.current_token == old(
                    self,
                ).current_token,
                self.current_token >= old(self).current_token,
                spec_skip_eos(self.lexeme@, old(self).current_token as int) == spec_skip_eos(
                    self.lexeme@,
                    self.current_token as int,
                ),
                self.current_token >= self.lexeme@.len() || !(self.lexeme@[self.current_token
                    as int].token is EndOfStatement),
            decreases self.lexeme@.len() - self.current_token,
        {
            if self.current_token >= self.lexeme.len() {
                break ;
            }
            let is_eos = match &self.last_token().token {
                Token::EndOfStatement => true,
                _ => false,
            };
            if !is_eos {
                break ;
            }
            self.incr_token();
        }
        if self.current_token >= self.lexeme.len() {
            return Ok(None);
        }

        let ghost q = self.current_token as int;
        let ghost cts = self.tu.deep_view().custom_types;

        let kind: u8 = match &self.last_token().token {
            Token::EndOfStatement => 0,
            Token::EndOfFile => 1,
            Token::Delimiter(Delimiter::BracketsOpen) => 2,
            Token::Keyword(Keyword::Def) => 3,
            _ => 4,
        };
        if kind == 0 || kind == 1 {
            return Ok(None);
        }
        if kind == 2 {
            return match self.read_body() {
                Ok(body) => Ok(Some(Statement::Body(body))),
                Err(e) => Err(e),
            };
        }
        if kind == 3 {
            return match self.read_function() {
                Ok(fun) => Ok(Some(Statement::Function(fun))),
                Err(e) => Err(e),
            };
        }
        let type_id: Option<String> = match &self.last_token().token {
            Token::Identifier(id) => Some(id.clone()),
            _ => None,
        };
        match type_id {
            Some(id) => {
                if self.get_type_from_id(id.as_str()).is_some() {
                    return match self.read_declaration() {
                        Ok(dec) => Ok(Some(Statement::Declaration(dec))),
                        Err(e) => Err(e),
                    };
                }
                match self.read_operation() {
                    Ok(op) => Ok(Some(Statement::Operation(op))),
                    Err(e) => Err(e),
                }
            },
            None => match self.read_operation() {
                Ok(op) => Ok(Some(Statement::Operation(op))),
                Err(e) => Err(e),
            },
        }
    }

    /// Reads a brace-delimited list of statements at the cursor.
    fn read_body(&mut self) -> (r: Result<Body, ParseError>)
        ensures
            final(self).lexeme@ == old(self).lexeme@,
            final(self).tu.deep_view() == old(self).tu.deep_view(),
            ({
                let s = spec_read_body_loop(
                    old(self).lexeme@,
                    old(self).current_token as int,
                    old(self).tu.deep_view().custom_types,
                    Seq::empty(),
                );
                match r {
                    Ok(body) => s == Ok::<(SpecBody, int), SpecParseError>(
                        (body.deep_view(), final(self).current_token as int),
                    ),
                    Err(e) => s == Err::<(SpecBody, int), SpecParseError>(e.deep_view()),
                }
            }),
        decreases old(self).lexeme@.len() - old(self).current_token, 3int,
    {
        let mut statements: Vec<Statement> = Vec::new();
        proof {
            assert(crate::ast::spec_stmts_deep(statements@) =~= Seq::<SpecStatement>::empty());
        }
        self.read_body_statements(statements)
    }

    fn read_body_statements(&mut self, acc: Vec<Statement>) -> (r: Result<Body, ParseError>)
        ensures
            final(self).lexeme@ == old(self).lexeme@,
            final(self).tu.deep_view() == old(self).tu.deep_view(),
            ({
                let s = spec_read_body_loop(
                    old(self).lexeme@,
                    old(self).current_token as int,
                    old(self).tu.deep_view().custom_types,
                    crate::ast::spec_stmts_deep(acc@),
                );
                match r {
                    Ok(body) => s == Ok::<(SpecBody, int), SpecParseError>(
                        (body.deep_view(), final(self).current_token as int),
                    ),
                    Err(e) => s == Err::<(SpecBody, int), SpecParseError>(e.deep_view()),
                }
            }),
        decreases old(self).lexeme@.len() - old(self).current_token, 2int,
    {
        if self.current_token >= self.lexeme.len() || self.current_token + 1
            >= self.lexeme.len() {
            return Err(
                ParseError {
                    msg: String::from_str("Unexpected end of body"),
                    at: self.current_token,
                },
            );
        }
        self.incr_token();
        let is_close = match &self.last_token().token {
            Token::Delimiter(Delimiter::BracketsClose) => true,
            _ => false,
        };
        if is_close {
            self.incr_token();
            return Ok(Body { statements: acc });
        }
        let ghost pos_before = self.current_token as int;
        proof {
            lemma_read_statement_bounds(
                self.lexeme@,
                pos_before,
                self.tu.deep_view().custom_types,
            );
        }
        match self.read_statement() {
            Ok(Some(st)) => {
                let mut acc2 = acc;
                let ghost old_acc = acc2@;
                acc2.push(st);
                proof {
                    assert(acc2@.drop_last() =~= old_acc);
                    assert(crate::ast::spec_stmts_deep(acc2@) =~= crate::ast::spec_stmts_deep(
                        old_acc,
                    ).push(crate::ast::spec_stmt_deep(acc2@.last())));
                }
                self.read_body_statements(acc2)
            },
            Ok(None) => self.read_body_statements(acc),
            Err(e) => Err(e),
        }
    }

    /// Reads a function definition at the cursor (on the `def` keyword).
    fn read_function(&mut self) -> (r: Result<FunctionBlock, ParseError>)
        requires
            old(self).current_token < old(self).lexeme@.len(),
        ensures
            final(self).lexeme@ == old(self).lexeme@,
            final(self).tu.deep_view() == old(self).tu.deep_view(),
            ({
                let s = spec_read_function(
                    old(self).lexeme@,
                    old(self).current_token as int,
                    old(self).tu.deep_view().custom_types,
                );
                match r {
                    Ok(fun) => s == Ok::<(SpecFunctionBlock, int), SpecParseError>(
                        (fun.deep_view(), final(self).current_token as int),
                    ),
                    Err(e) => s == Err::<(SpecFunctionBlock, int), SpecParseError>(
                        e.deep_view(),
                    ),
                }
            }),
        decreases old(self).lexeme@.len() - old(self).current_token, 4int,
    {
        let pos = self.current_token;
        if self.lexeme.len() - pos <= 3 {
            return Err(
                ParseError { msg: String::from_str("Expected function identifier"), at: pos + 1 },
            );
        }

        // Read the return type.
        self.incr_token();
        let return_type: Option<Type> = {
            let id: Option<String> = match &self.last_token().token {
                Token::Keyword(Keyword::Void) => None,
                Token::Identifier(id) => Some(id.clone()),
                _ => {
                    return Err(
                        ParseError {
                            msg: String::from_str("Expected function identifier"),
                            at: pos + 1,
                        },
                    );
                },
            };
            match id {
                None => None,
                Some(id) => match self.get_type_from_id(id.as_str()) {
                    Some(t) => Some(t),
                    None => {
                        return Err(
                            ParseError {
                                msg: String::from_str("Unknown return type"),
                                at: pos + 1,
                            },
                        );
                    },
                },
            }
        };

        // Read the function name.
        let fun_id: String = match &self.next_token().token {
            Token::Identifier(id) => id.clone(),
            _ => {
                return Err(
                    ParseError {
                        msg: String::from_str("Expected function identifier"),
                        at: pos + 2,
                    },
                );
            },
        };

        let par_open = match &self.next_token().token {
            Token::Delimiter(Delimiter::ParenthesisOpen) => true,
            _ => false,
        };
        if !par_open {
            return Err(
                ParseError { msg: String::from_str("Expected argument list"), at: pos + 3 },
            );
        }

        // Read the argument list.
        let args_acc: Vec<Variable> = Vec::new();
        proof {
            assert(args_acc.deep_view() =~= Seq::<SpecVariable>::empty());
        }
        let arguments_r = self.read_fun_args(args_acc);
        let arguments = match arguments_r {
            Ok(args) => args,
            Err(e) => {
                return Err(e);
            },
        };

        let total = self.lexeme.len();
        proof {
            lemma_read_fun_args_bounds(
                self.lexeme@,
                pos + 3,
                self.tu.deep_view().custom_types,
                Seq::empty(),
            );
            assert(self.current_token < total);
        }
        self.incr_token();

        let body = match self.read_body() {
            Ok(b) => b,
            Err(e) => {
                return Err(e);
            },
        };

        Ok(FunctionBlock { identifier: fun_id, arguments, return_type, body })
    }

    fn read_fun_args(&mut self, acc: Vec<Variable>) -> (r: Result<Vec<Variable>, ParseError>)
        ensures
            final(self).lexeme@ == old(self).lexeme@,
            final(self).tu.deep_view() == old(self).tu.deep_view(),
            ({
                let s = spec_read_fun_args(
                    old(self).lexeme@,
                    old(self).current_token as int,
                    old(self).tu.deep_view().custom_types,
                    acc.deep_view(),
                );
                match r {
                    Ok(args) => s == Ok::<(Seq<SpecVariable>, int), SpecParseError>(
                        (args.deep_view(), final(self).current_token as int),
                    ),
                    Err(e) => s == Err::<(Seq<SpecVariable>, int), SpecParseError>(
                        e.deep_view(),
                    ),
                }
            }),
        decreases old(self).lexeme@.len() - old(self).current_token,
    {
        if self.current_token >= self.lexeme.len() || self.current_token + 1
            >= self.lexeme.len() {
            return Err(
                ParseError {
                    msg: String::from_str("Expected identifier or end of argument list"),
                    at: self.current_token,
                },
            );
        }
        let ghost p = self.current_token + 1;
        self.incr_token();
        let type_id: Option<String> = match &self.last_token().token {
            Token::Identifier(id) => Some(id.clone()),
            Token::Delimiter(Delimiter::ParenthesisClose) => {
                return Ok(acc);
            },
            _ => {
                return Err(
                    ParseError {
                        msg: String::from_str("Expected identifier or end of argument list"),
                        at: self.current_token,
                    },
                );
            },
        };
        let type_id = match type_id {
            Some(t) => t,
            None => {
                return Err(
                    ParseError {
                        msg: String::from_str("Expected identifier or end of argument list"),
                        at: self.current_token,
                    },
                );
            },
        };
        if self.current_token + 1 >= self.lexeme.len() {
            return Err(
                ParseError {
                    msg: String::from_str("Expected identifier"),
                    at: self.current_token + 1,
                },
            );
        }
        let at_type = self.current_token;
        self.incr_token();
        let arg_id: String = match &self.last_token().token {
            Token::Identifier(id) => id.clone(),
            _ => {
                return Err(
                    ParseError {
                        msg: String::from_str("Expected identifier"),
                        at: self.current_token,
                    },
                );
            },
        };
        let type_ = match self.get_type_from_id(type_id.as_str()) {
            Some(t) => t,
            None => {
                return Err(ParseError { msg: String::from_str("Unknown type"), at: at_type });
            },
        };
        let mut acc2 = acc;
        let ghost old_acc = acc2.deep_view();
        acc2.push(Variable { identifier: arg_id, type_ });
        proof {
            assert(acc2.deep_view() =~= old_acc.push(acc2@.last().deep_view()));
        }
        self.read_fun_args(acc2)
    }

    /// The index of the next statement terminator at or after the cursor.
    fn find_end_of_statement(&mut self) -> (r: Option<usize>)
        ensures
            *final(self) == *old(self),
            match r {
                Some(e) => Some(e as int) == spec_find_eos(
                    old(self).lexeme@,
                    old(self).current_token as int,
                ) && old(self).current_token <= e < old(self).lexeme@.len(),
                None => spec_find_eos(old(self).lexeme@, old(self).current_token as int)
                    is None,
            },
    {
        let mut n_tok = self.current_token;
        while n_tok < self.lexeme.len()
            invariant
                self.current_token <= n_tok,
                n_tok <= self.lexeme@.len() || self.lexeme@.len() < self.current_token,
                spec_find_eos(self.lexeme@, self.current_token as int) == spec_find_eos(
                    self.lexeme@,
                    n_tok as int,
                ),
            decreases self.lexeme@.len() - n_tok,
        {
            let is_eos = match &self.lexeme.token_at(n_tok).token {
                Token::EndOfStatement => true,
                _ => false,
            };
            if is_eos {
                return Some(n_tok);
            }
            n_tok += 1;
        }
        None
    }

    /// Reads a bare operation bounded by the next statement terminator,
    /// which becomes the cursor.
    fn read_operation(&mut self) -> (r: Result<crate::ast::OperationResult, ParseError>)
        ensures
            final(self).lexeme@ == old(self).lexeme@,
            final(self).tu.deep_view() == old(self).tu.deep_view(),
            ({
                let s = spec_read_operation_statement(
                    old(self).lexeme@,
                    old(self).current_token as int,
                );
                match r {
                    Ok(op) => s == Ok::<(SpecStatement, int), SpecParseError>(
                        (
                            SpecStatement::Operation(op.deep_view()),
                            final(self).current_token as int,
                        ),
                    ),
                    Err(e) => s == Err::<(SpecStatement, int), SpecParseError>(e.deep_view()),
                }
            }),
    {
        let tok_begin = self.current_token;
        let tok_end = match self.find_end_of_statement() {
            Some(e) => e,
            None => {
                return Err(
                    ParseError {
                        msg: String::from_str("Did not find end of statement"),
                        at: tok_begin,
                    },
                );
            },
        };

        self.current_token = tok_end;

        let mut op_parser = OperationParser::new(self.lexeme, tok_begin, tok_end);
        op_parser.parse()
    }

    /// Reads a declaration at the cursor (on a known type's identifier).
    fn read_declaration(&mut self) -> (r: Result<VariableDeclaration, ParseError>)
        ensures
            final(self).lexeme@ == old(self).lexeme@,
            final(self).tu.deep_view() == old(self).tu.deep_view(),
            ({
                let s = spec_read_declaration(
                    old(self).lexeme@,
                    old(self).current_token as int,
                    old(self).tu.deep_view().custom_types,
                );
                match r {
                    Ok(dec) => s == Ok::<(SpecVariableDeclaration, int), SpecParseError>(
                        (dec.deep_view(), final(self).current_token as int),
                    ),
                    Err(e) => s == Err::<(SpecVariableDeclaration, int), SpecParseError>(
                        e.deep_view(),
                    ),
                }
            }),
    {
        let pos = self.current_token;
        if pos >= self.lexeme.len() {
            return Err(ParseError { msg: String::from_str("Expected identifier"), at: pos });
        }
        let type_id: String = match &self.last_token().token {
            Token::Identifier(id) => id.clone(),
            _ => {
                return Err(
                    ParseError { msg: String::from_str("Expected identifier"), at: pos },
                );
            },
        };
        let type_ = match self.get_type_from_id(type_id.as_str()) {
            Some(t) => t,
            None => {
                return Err(ParseError { msg: String::from_str("Unknown type"), at: pos });
            },
        };

        if pos + 1 >= self.lexeme.len() {
            return Err(
                ParseError { msg: String::from_str("Expected identifier"), at: pos + 1 },
            );
        }
        let var_id: String = match &self.next_token().token {
            Token::Identifier(id) => id.clone(),
            _ => {
                return Err(
                    ParseError { msg: String::from_str("Expected identifier"), at: pos + 1 },
                );
            },
        };

        if pos + 2 >= self.lexeme.len() {
            return Err(
                ParseError {
                    msg: String::from_str("Expected semicolon or assignment"),
                    at: pos + 2,
                },
            );
        }
        let init_kind: u8 = match &self.next_token().token {
            Token::EndOfStatement => 0,
            Token::Operator(crate::tokens::Operator::Assign) => 1,
            _ => 2,
        };
        if init_kind == 0 {
            return Ok(VariableDeclaration { identifier: var_id, type_, init_value: None });
        }
        if init_kind == 1 {
            self.incr_token();
            let op = match self.read_operation() {
                Ok(op) => op,
                Err(e) => {
                    return Err(e);
                },
            };
            return Ok(
                VariableDeclaration { identifier: var_id, type_, init_value: Some(op) },
            );
        }
        Err(
            ParseError {
                msg: String::from_str("Expected semicolon or assignment"),
                at: pos + 2,
            },
        )
    }
}

} // verus!
