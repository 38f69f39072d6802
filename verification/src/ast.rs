//! The abstract syntax tree: expressions, statements, types, and the
//! translation unit. Custom type definitions are shared by arena index: a
//! `Type::Custom(k)` refers to entry `k` of the owning unit's custom-type
//! list, so a definition is never copied into the declarations that use it.

use vstd::prelude::*;
use crate::text::str_equal;
use crate::tokens::Operator;

verus! {

#[derive(Debug, PartialEq, Eq, Structural, Clone, Copy)]
pub enum BinaryOperator {
    Assign,
    Plus,
    Minus,
    Times,
    Div,
    Mod,
    And,
    Or,
    Xor,
    BitAnd,
    BitOr,
    BitXor,
    LShift,
    RShift,
}

impl BinaryOperator {
    /// The binary operator an operator token stands for; compound
    /// assignments, comparisons, the comma, the member point and the unary
    /// forms have none.
    pub open spec fn spec_from(op: Operator) -> Option<BinaryOperator> {
        match op {
            Operator::Assign => Some(BinaryOperator::Assign),
            Operator::Plus => Some(BinaryOperator::Plus),
            Operator::Minus => Some(BinaryOperator::Minus),
            Operator::Times => Some(BinaryOperator::Times),
            Operator::Div => Some(BinaryOperator::Div),
            Operator::Mod => Some(BinaryOperator::Mod),
            Operator::And => Some(BinaryOperator::And),
            Operator::Or => Some(BinaryOperator::Or),
            Operator::Xor => Some(BinaryOperator::Xor),
            Operator::BitwiseAnd => Some(BinaryOperator::BitAnd),
            Operator::BitwiseOr => Some(BinaryOperator::BitOr),
            Operator::BitwiseXor => Some(BinaryOperator::BitXor),
            Operator::ShiftLeft => Some(BinaryOperator::LShift),
            Operator::ShiftRight => Some(BinaryOperator::RShift),
            _ => None,
        }
    }

    pub fn from(op: &Operator) -> (r: Option<BinaryOperator>)
        ensures
            r == BinaryOperator::spec_from(*op),
    {
        match op {
            Operator::Assign => Some(BinaryOperator::Assign),
            Operator::Plus => Some(BinaryOperator::Plus),
            Operator::Minus => Some(BinaryOperator::Minus),
            Operator::Times => Some(BinaryOperator::Times),
            Operator::Div => Some(BinaryOperator::Div),
            Operator::Mod => Some(BinaryOperator::Mod),
            Operator::And => Some(BinaryOperator::And),
            Operator::Or => Some(BinaryOperator::Or),
            Operator::Xor => Some(BinaryOperator::Xor),
            Operator::BitwiseAnd => Some(BinaryOperator::BitAnd),
            Operator::BitwiseOr => Some(BinaryOperator::BitOr),
            Operator::BitwiseXor => Some(BinaryOperator::BitXor),
            Operator::ShiftLeft => Some(BinaryOperator::LShift),
            Operator::ShiftRight => Some(BinaryOperator::RShift),
            _ => None,
        }
    }
}

#[derive(Debug, PartialEq, Clone)]
pub enum Literal {
    Integer(String),
    Float(String),
    String(String),
    Boolean(bool),
}

/// The specification-level value of a literal.
pub ghost enum SpecLiteral {
    Integer(Seq<char>),
    Float(Seq<char>),
    Str(Seq<char>),
    Boolean(bool),
}

impl DeepView for Literal {
    type V = SpecLiteral;

    open spec fn deep_view(&self) -> SpecLiteral {
        match self {
            Literal::Integer(s) => SpecLiteral::Integer(s@),
            Literal::Float(s) => SpecLiteral::Float(s@),
            Literal::String(s) => SpecLiteral::Str(s@),
            Literal::Boolean(b) => SpecLiteral::Boolean(*b),
        }
    }
}

/// The result of parsing one expression: a literal, an identifier
/// reference, a binary operation, or a function application.
#[derive(Debug)]
pub enum OperationResult {
    Literal(Literal),
    Identifier(String),
    BinOpResult(BinaryOperation),
    FuncResult(ApplyFunction),
}

#[derive(Debug)]
pub struct BinaryOperation {
    pub operator: BinaryOperator,
    pub left: Box<OperationResult>,
    pub right: Box<OperationResult>,
}

#[derive(Debug)]
pub struct ApplyFunction {
    pub function_id: String,
    pub arguments: Vec<Box<OperationResult>>,
}

/// The specification-level value of an expression tree.
pub ghost enum SpecOp {
    Literal(SpecLiteral),
    Identifier(Seq<char>),
    BinOp(BinaryOperator, Box<SpecOp>, Box<SpecOp>),
    Call(Seq<char>, Seq<SpecOp>),
}

/// The specification-level value of an expression tree.
pub open spec fn spec_op_deep(op: OperationResult) -> SpecOp
    decreases op,
{
    match op {
        OperationResult::Literal(l) => SpecOp::Literal(l.deep_view()),
        OperationResult::Identifier(s) => SpecOp::Identifier(s@),
        OperationResult::BinOpResult(b) => SpecOp::BinOp(
            b.operator,
            Box::new(spec_op_deep(*b.left)),
            Box::new(spec_op_deep(*b.right)),
        ),
        OperationResult::FuncResult(f) => {
            proof {
                assert(decreases_to!(op => f.arguments));
                assert(decreases_to!(f.arguments => f.arguments@));
            }
            SpecOp::Call(f.function_id@, spec_ops_deep(f.arguments@))
        },
    }
}

/// The specification-level values of a list of subexpressions.
pub open spec fn spec_ops_deep(args: Seq<Box<OperationResult>>) -> Seq<SpecOp>
    decreases args,
{
    if args.len() == 0 {
        Seq::empty()
    } else {
        proof {
            assert(decreases_to!(args => args.subrange(0, args.len() - 1)));
            assert(decreases_to!(args => args[args.len() - 1]));
        }
        spec_ops_deep(args.drop_last()).push(spec_op_deep(*args.last()))
    }
}

impl DeepView for OperationResult {
    type V = SpecOp;

    open spec fn deep_view(&self) -> SpecOp {
        spec_op_deep(*self)
    }
}

/// A built-in primitive type, named in source by the spelling that
/// `BuiltInType::spec_from` lists.
#[derive(Debug, Hash, PartialEq, Eq, Structural, Clone, Copy)]
pub enum BuiltInType {
    I8,
    I16,
    I32,
    I64,
    ISize,
    U8,
    U16,
    U32,
    U64,
    USize,
    F32,
    F64,
    Bool,
    String,
}

impl BuiltInType {
    /// The built-in type a source identifier names, if any.
    pub open spec fn spec_from(id: Seq<char>) -> Option<BuiltInType> {
        if id == "int8"@ {
            Some(BuiltInType::I8)
        } else if id == "int16"@ {
            Some(BuiltInType::I16)
        } else if id == "int32"@ {
            Some(BuiltInType::I32)
        } else if id == "int64"@ {
            Some(BuiltInType::I64)
        } else if id == "uint8"@ {
            Some(BuiltInType::U8)
        } else if id == "uint16"@ {
            Some(BuiltInType::U16)
        } else if id == "uint32"@ {
            Some(BuiltInType::U32)
        } else if id == "uint64"@ {
            Some(BuiltInType::U64)
        } else if id == "fint32"@ {
            Some(BuiltInType::F32)
        } else if id == "fint64"@ {
            Some(BuiltInType::F64)
        } else if id == "isize"@ {
            Some(BuiltInType::ISize)
        } else if id == "usize"@ {
            Some(BuiltInType::USize)
        } else if id == "bool"@ {
            Some(BuiltInType::Bool)
        } else if id == "string"@ {
            Some(BuiltInType::String)
        } else {
            None
        }
    }

    pub fn from(id: &str) -> (r: Option<BuiltInType>)
        ensures
            r == BuiltInType::spec_from(id@),
    {
        if str_equal(id, "int8") {
            Some(BuiltInType::I8)
        } else if str_equal(id, "int16") {
            Some(BuiltInType::I16)
        } else if str_equal(id, "int32") {
            Some(BuiltInType::I32)
        } else if str_equal(id, "int64") {
            Some(BuiltInType::I64)
        } else if str_equal(id, "uint8") {
            Some(BuiltInType::U8)
        } else if str_equal(id, "uint16") {
            Some(BuiltInType::U16)
        } else if str_equal(id, "uint32") {
            Some(BuiltInType::U32)
        } else if str_equal(id, "uint64") {
            Some(BuiltInType::U64)
        } else if str_equal(id, "fint32") {
            Some(BuiltInType::F32)
        } else if str_equal(id, "fint64") {
            Some(BuiltInType::F64)
        } else if str_equal(id, "isize") {
            Some(BuiltInType::ISize)
        } else if str_equal(id, "usize") {
            Some(BuiltInType::USize)
        } else if str_equal(id, "bool") {
            Some(BuiltInType::Bool)
        } else if str_equal(id, "string") {
            Some(BuiltInType::String)
        } else {
            None
        }
    }
}

/// A type: either a built-in primitive or a shared reference to a custom
/// type, given as the index of its definition in the owning translation
/// unit's custom-type list.
#[derive(Debug, Hash, PartialEq, Eq, Structural, Clone, Copy)]
pub enum Type {
    Custom(usize),
    BuiltIn(BuiltInType),
}

/// A named, typed variable: a function parameter or a custom type's
/// attribute.
#[derive(Debug, PartialEq, Clone)]
pub struct Variable {
    pub identifier: String,
    pub type_: Type,
}

/// The specification-level value of a variable.
pub ghost struct SpecVariable {
    pub identifier: Seq<char>,
    pub type_: Type,
}

impl DeepView for Variable {
    type V = SpecVariable;

    open spec fn deep_view(&self) -> SpecVariable {
        SpecVariable { identifier: self.identifier@, type_: self.type_ }
    }
}

/// A custom type definition: a name plus ordered named attributes. A single
/// definition is shared, by index, among every declaration that uses it.
#[derive(Debug, PartialEq, Clone)]
pub struct CustomType {
    pub identifier: String,
    pub attributes: Vec<Variable>,
}

/// The specification-level value of a custom type definition.
pub ghost struct SpecCustomType {
    pub identifier: Seq<char>,
    pub attributes: Seq<SpecVariable>,
}

impl DeepView for CustomType {
    type V = SpecCustomType;

    open spec fn deep_view(&self) -> SpecCustomType {
        SpecCustomType { identifier: self.identifier@, attributes: self.attributes.deep_view() }
    }
}

/// A variable declaration, with an optional initializer expression.
#[derive(Debug)]
pub struct VariableDeclaration {
    pub identifier: String,
    pub type_: Type,
    pub init_value: Option<OperationResult>,
}

/// The specification-level value of a variable declaration.
pub ghost struct SpecVariableDeclaration {
    pub identifier: Seq<char>,
    pub type_: Type,
    pub init_value: Option<SpecOp>,
}

impl DeepView for VariableDeclaration {
    type V = SpecVariableDeclaration;

    open spec fn deep_view(&self) -> SpecVariableDeclaration {
        SpecVariableDeclaration {
            identifier: self.identifier@,
            type_: self.type_,
            init_value: self.init_value.deep_view(),
        }
    }
}

#[derive(Debug)]
pub struct IfBlock {
    pub condition: OperationResult,
    pub body: Body,
}

#[derive(Debug)]
pub struct ForBlock {
    pub init_statement: OperationResult,
    pub condition: OperationResult,
    pub end_statement: OperationResult,
    pub body: Body,
}

#[derive(Debug)]
pub struct WhileBlock {
    pub condition: OperationResult,
    pub body: Body,
}

/// A function definition: name, ordered typed parameters, optional return
/// type (absent means void), and a body.
#[derive(Debug)]
pub struct FunctionBlock {
    pub identifier: String,
    pub arguments: Vec<Variable>,
    pub return_type: Option<Type>,
    pub body: Body,
}

/// A statement. If, for, while and return are part of the data model but
/// have no parser path and no generator path.
#[derive(Debug)]
pub enum Statement {
    Declaration(VariableDeclaration),
    Operation(OperationResult),
    Return(OperationResult),
    If(IfBlock),
    For(ForBlock),
    While(WhileBlock),
    Function(FunctionBlock),
    Struct(usize),
    Body(Body),
}

/// An ordered list of statements between braces.
#[derive(Debug)]
pub struct Body {
    pub statements: Vec<Statement>,
}

/// The specification-level value of an if block.
pub ghost struct SpecIfBlock {
    pub condition: SpecOp,
    pub body: SpecBody,
}

/// The specification-level value of a for block.
pub ghost struct SpecForBlock {
    pub init_statement: SpecOp,
    pub condition: SpecOp,
    pub end_statement: SpecOp,
    pub body: SpecBody,
}

/// The specification-level value of a while block.
pub ghost struct SpecWhileBlock {
    pub condition: SpecOp,
    pub body: SpecBody,
}

/// The specification-level value of a function definition.
pub ghost struct SpecFunctionBlock {
    pub identifier: Seq<char>,
    pub arguments: Seq<SpecVariable>,
    pub return_type: Option<Type>,
    pub body: SpecBody,
}

/// The specification-level value of a statement.
pub ghost enum SpecStatement {
    Declaration(SpecVariableDeclaration),
    Operation(SpecOp),
    Return(SpecOp),
    If(SpecIfBlock),
    For(SpecForBlock),
    While(SpecWhileBlock),
    Function(SpecFunctionBlock),
    Struct(usize),
    Body(SpecBody),
}

/// The specification-level value of a statement list.
pub ghost struct SpecBody {
    pub statements: Seq<SpecStatement>,
}

/// The specification-level value of a statement.
pub open spec fn spec_stmt_deep(s: Statement) -> SpecStatement
    decreases s,
{
    match s {
        Statement::Declaration(d) => SpecStatement::Declaration(d.deep_view()),
        Statement::Operation(op) => SpecStatement::Operation(spec_op_deep(op)),
        Statement::Return(op) => SpecStatement::Return(spec_op_deep(op)),
        Statement::If(b) => SpecStatement::If(
            SpecIfBlock { condition: spec_op_deep(b.condition), body: spec_body_deep(b.body) },
        ),
        Statement::For(b) => SpecStatement::For(
            SpecForBlock {
                init_statement: spec_op_deep(b.init_statement),
                condition: spec_op_deep(b.condition),
                end_statement: spec_op_deep(b.end_statement),
                body: spec_body_deep(b.body),
            },
        ),
        Statement::While(b) => SpecStatement::While(
            SpecWhileBlock { condition: spec_op_deep(b.condition), body: spec_body_deep(b.body) },
        ),
        Statement::Function(f) => SpecStatement::Function(spec_function_deep(f)),
        Statement::Struct(k) => SpecStatement::Struct(k),
        Statement::Body(b) => SpecStatement::Body(spec_body_deep(b)),
    }
}

/// The specification-level value of a statement list.
pub open spec fn spec_body_deep(b: Body) -> SpecBody
    decreases b,
{
    proof {
        assert(decreases_to!(b => b.statements));
        assert(decreases_to!(b.statements => b.statements@));
    }
    SpecBody { statements: spec_stmts_deep(b.statements@) }
}

/// The specification-level values of a list of statements.
pub open spec fn spec_stmts_deep(stmts: Seq<Statement>) -> Seq<SpecStatement>
    decreases stmts,
{
    if stmts.len() == 0 {
        Seq::empty()
    } else {
        proof {
            assert(decreases_to!(stmts => stmts.subrange(0, stmts.len() - 1)));
            assert(decreases_to!(stmts => stmts[stmts.len() - 1]));
        }
        spec_stmts_deep(stmts.drop_last()).push(spec_stmt_deep(stmts.last()))
    }
}

/// The statement list's specification-level value, element by element.
pub proof fn lemma_spec_stmts_deep_index(s: Seq<Statement>)
    ensures
        spec_stmts_deep(s).len() == s.len(),
        forall|i: int| 0 <= i < s.len() ==> spec_stmts_deep(s)[i] == spec_stmt_deep(s[i]),
    decreases s.len(),
{
    if s.len() > 0 {
        lemma_spec_stmts_deep_index(s.drop_last());
    }
}

/// The specification-level value of a function definition.
pub open spec fn spec_function_deep(f: FunctionBlock) -> SpecFunctionBlock
    decreases f,
{
    SpecFunctionBlock {
        identifier: f.identifier@,
        arguments: f.arguments.deep_view(),
        return_type: f.return_type,
        body: spec_body_deep(f.body),
    }
}

impl DeepView for IfBlock {
    type V = SpecIfBlock;

    open spec fn deep_view(&self) -> SpecIfBlock {
        SpecIfBlock {
            condition: spec_op_deep(self.condition),
            body: spec_body_deep(self.body),
        }
    }
}

impl DeepView for ForBlock {
    type V = SpecForBlock;

    open spec fn deep_view(&self) -> SpecForBlock {
        SpecForBlock {
            init_statement: spec_op_deep(self.init_statement),
            condition: spec_op_deep(self.condition),
            end_statement: spec_op_deep(self.end_statement),
            body: spec_body_deep(self.body),
        }
    }
}

impl DeepView for WhileBlock {
    type V = SpecWhileBlock;

    open spec fn deep_view(&self) -> SpecWhileBlock {
        SpecWhileBlock {
            condition: spec_op_deep(self.condition),
            body: spec_body_deep(self.body),
        }
    }
}

impl DeepView for FunctionBlock {
    type V = SpecFunctionBlock;

    open spec fn deep_view(&self) -> SpecFunctionBlock {
        spec_function_deep(*self)
    }
}

impl DeepView for Statement {
    type V = SpecStatement;

    open spec fn deep_view(&self) -> SpecStatement {
        spec_stmt_deep(*self)
    }
}

impl DeepView for Body {
    type V = SpecBody;

    open spec fn deep_view(&self) -> SpecBody {
        spec_body_deep(*self)
    }
}

/// The parse result: custom type definitions, global variable
/// declarations, and function definitions, in source order.
#[derive(Debug)]
pub struct TranslationUnit {
    pub custom_types: Vec<CustomType>,
    pub global_variables: Vec<VariableDeclaration>,
    pub functions: Vec<FunctionBlock>,
}

/// The specification-level value of a translation unit.
pub ghost struct SpecTranslationUnit {
    pub custom_types: Seq<SpecCustomType>,
    pub global_variables: Seq<SpecVariableDeclaration>,
    pub functions: Seq<SpecFunctionBlock>,
}

impl DeepView for TranslationUnit {
    type V = SpecTranslationUnit;

    open spec fn deep_view(&self) -> SpecTranslationUnit {
        SpecTranslationUnit {
            custom_types: self.custom_types.deep_view(),
            global_variables: self.global_variables.deep_view(),
            functions: self.functions.deep_view(),
        }
    }
}

impl TranslationUnit {
    pub fn new() -> (r: TranslationUnit)
        ensures
            r.deep_view().custom_types == Seq::<SpecCustomType>::empty(),
            r.deep_view().global_variables == Seq::<SpecVariableDeclaration>::empty(),
            r.deep_view().functions == Seq::<SpecFunctionBlock>::empty(),
    {
        let r = TranslationUnit {
            global_variables: Vec::new(),
            custom_types: Vec::new(),
            functions: Vec::new(),
        };
        proof {
            assert(r.deep_view().custom_types =~= Seq::<SpecCustomType>::empty());
            assert(r.deep_view().global_variables =~= Seq::<
                SpecVariableDeclaration,
            >::empty());
            assert(r.deep_view().functions =~= Seq::<SpecFunctionBlock>::empty());
        }
        r
    }
}

} // verus!
