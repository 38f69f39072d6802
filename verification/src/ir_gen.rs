//! The IR generator: lowers a translation unit to the text of a low-level
//! IR module. A globals pass emits one line per global declaration, then a
//! functions pass emits a signature line and lowers each body statement,
//! allocating a fresh numbered temporary per subexpression. Any unsupported
//! construct, duplicate name, or unresolved identifier aborts the whole run
//! with a descriptive error and yields no text at all, so a caller that
//! writes the result to disk on success alone can never leave a partial
//! file behind.
//!
//! `spec_create_llvm_ir` is the exact specification: the generated text is
//! a function of the translation unit alone.

use vstd::prelude::*;
use vstd::string::*;
use crate::ast::{BinaryOperator, Literal, OperationResult, SpecFunctionBlock, SpecLiteral, SpecOp,
    SpecStatement, SpecTranslationUnit, SpecVariable, SpecVariableDeclaration, Statement,
    TranslationUnit, Type, Variable};
use crate::decimal::{dec_rep, usize_to_string};
use crate::text::str_equal;

verus! {

/// The IR spelling of a type: the integer classes by width, the two float
/// widths, booleans as an eight-bit integer; pointer-sized integers,
/// strings and custom types are unsupported.
pub open spec fn spec_type_ir(t: Type) -> Result<Seq<char>, Seq<char>> {
    match t {
        Type::BuiltIn(b) => match b {
            crate::ast::BuiltInType::I8 => Ok("i8"@),
            crate::ast::BuiltInType::I16 => Ok("i16"@),
            crate::ast::BuiltInType::I32 => Ok("i32"@),
            crate::ast::BuiltInType::I64 => Ok("i64"@),
            crate::ast::BuiltInType::U8 => Ok("i8"@),
            crate::ast::BuiltInType::U16 => Ok("i16"@),
            crate::ast::BuiltInType::U32 => Ok("i32"@),
            crate::ast::BuiltInType::U64 => Ok("i64"@),
            crate::ast::BuiltInType::F32 => Ok("float"@),
            crate::ast::BuiltInType::F64 => Ok("double"@),
            crate::ast::BuiltInType::Bool => Ok("i8"@),
            _ => Err("Unsupported built-in type!"@),
        },
        Type::Custom(_) => Err("Custom types not supported yet"@),
    }
}

/// The IR mnemonic of a binary operator; assignment, comparisons, shifts
/// and compound forms have none at this stage.
pub open spec fn spec_operator_ir(op: BinaryOperator) -> Result<Seq<char>, Seq<char>> {
    match op {
        BinaryOperator::Plus => Ok("add"@),
        BinaryOperator::Minus => Ok("sub"@),
        BinaryOperator::Times => Ok("mul"@),
        BinaryOperator::Div => Ok("div"@),
        BinaryOperator::Mod => Ok("rem"@),
        BinaryOperator::And => Ok("and"@),
        BinaryOperator::Or => Ok("or"@),
        BinaryOperator::Xor => Ok("xor"@),
        _ => Err("Unsupported binary operator"@),
    }
}

/// The initial value spelled in a global's line: a literal's text, `1` or
/// `0` for a boolean, `0` when there is no initializer; anything else is
/// unsupported.
pub open spec fn spec_global_init(init: Option<SpecOp>) -> Result<Seq<char>, Seq<char>> {
    match init {
        None => Ok("0"@),
        Some(SpecOp::Literal(SpecLiteral::Integer(i))) => Ok(i),
        Some(SpecOp::Literal(SpecLiteral::Float(f))) => Ok(f),
        Some(SpecOp::Literal(SpecLiteral::Boolean(b))) => Ok(
            if b {
                "1"@
            } else {
                "0"@
            },
        ),
        Some(SpecOp::Literal(SpecLiteral::Str(_))) => Err("Unsupported literal type: String"@),
        Some(_) => Err("Unsupported operation result type"@),
    }
}

/// The globals pass from index `i` on: one line per declaration, rejecting
/// a name already emitted; returns the text and the emitted names.
pub open spec fn spec_gen_globals(
    gvs: Seq<SpecVariableDeclaration>,
    i: int,
    defined: Seq<Seq<char>>,
    out: Seq<char>,
) -> Result<(Seq<char>, Seq<Seq<char>>), Seq<char>>
    decreases gvs.len() - i,
{
    if i < 0 || i >= gvs.len() {
        Ok((out, defined))
    } else {
        let v = gvs[i];
        if defined.contains(v.identifier) {
            Err("Global variable "@ + v.identifier + " already defined"@)
        } else {
            match spec_type_ir(v.type_) {
                Err(e) => Err(e),
                Ok(ty) => match spec_global_init(v.init_value) {
                    Err(e) => Err(e),
                    Ok(init) => spec_gen_globals(
                        gvs,
                        i + 1,
                        defined.push(v.identifier),
                        out + "@"@ + v.identifier + " = global "@ + ty + " "@ + init + "\n"@,
                    ),
                },
            }
        }
    }
}

/// The number of nodes of an expression tree, which bounds how many
/// temporaries lowering it can consume.
pub open spec fn spec_op_size(op: SpecOp) -> nat
    decreases op,
{
    match op {
        SpecOp::BinOp(_, l, r) => 1 + spec_op_size(*l) + spec_op_size(*r),
        _ => 1,
    }
}

/// The lowering of one expression: `var` is the value slot to emit into,
/// or none for a fresh numbered temporary; returns the emitted text, the
/// next temporary number, and the temporary the value landed in, if fresh.
/// Every arithmetic result is typed as a fixed 32-bit integer regardless of
/// the operand types, a known, intentional simplification.
pub open spec fn spec_write_op(
    var: Option<Seq<char>>,
    op: SpecOp,
    globals: Seq<Seq<char>>,
    locals: Seq<Seq<char>>,
    tmp: int,
) -> Result<(Seq<char>, int, Option<int>), Seq<char>>
    decreases op,
{
    let variable = match var {
        Some(v) => v,
        None => "%"@ + dec_rep(tmp as nat),
    };
    let tmp1: int = match var {
        Some(_) => tmp,
        None => tmp + 1,
    };
    let ret: Option<int> = match var {
        Some(_) => None,
        None => Some(tmp),
    };
    match op {
        SpecOp::BinOp(bop, l, r) => match spec_write_op(None, *l, globals, locals, tmp1) {
            Err(e) => Err(e),
            Ok((ltext, tmp2, lret)) => match spec_write_op(None, *r, globals, locals, tmp2) {
                Err(e) => Err(e),
                Ok((rtext, tmp3, rret)) => match spec_operator_ir(bop) {
                    Err(e) => Err(e),
                    Ok(mnemonic) => match (lret, rret) {
                        (Some(ln), Some(rn)) => Ok(
                            (
                                ltext + rtext + "    "@ + variable + " = "@ + mnemonic
                                    + " i32 %"@ + dec_rep(ln as nat) + ", %"@ + dec_rep(
                                    rn as nat,
                                ) + "\n"@,
                                tmp3 + 1,
                                ret,
                            ),
                        ),
                        _ => Err("This should never happen"@),
                    },
                },
            },
        },
        SpecOp::Literal(lit) => match lit {
            SpecLiteral::Integer(v) => Ok(
                ("    "@ + variable + " = i32 "@ + v + "\n"@, tmp1, ret),
            ),
            SpecLiteral::Float(v) => Ok(
                ("    "@ + variable + " = double "@ + v + "\n"@, tmp1, ret),
            ),
            SpecLiteral::Boolean(v) => Ok(
                (
                    "    "@ + variable + " = i8 "@ + (if v {
                        "1"@
                    } else {
                        "0"@
                    }) + "\n"@,
                    tmp1,
                    ret,
                ),
            ),
            SpecLiteral::Str(_) => Err("Unsupported literal type: String"@),
        },
        SpecOp::Identifier(id) => {
            if locals.contains(id) {
                Ok(("    "@ + variable + " = load %"@ + id + "\n"@, tmp1, ret))
            } else if globals.contains(id) {
                Ok(("    "@ + variable + " = load @"@ + id + "\n"@, tmp1, ret))
            } else {
                Err("Variable "@ + id + " not defined"@)
            }
        },
        SpecOp::Call(_, _) => Err("Unsupported operation result type"@),
    }
}

/// How many temporaries the statements from `i` on may consume.
pub open spec fn spec_stmt_weight(s: SpecStatement) -> nat {
    match s {
        SpecStatement::Declaration(d) => match d.init_value {
            Some(op) => spec_op_size(op),
            None => 0,
        },
        SpecStatement::Operation(op) => match op {
            SpecOp::BinOp(_, _, r) => 1 + spec_op_size(*r),
            _ => 0,
        },
        _ => 0,
    }
}

/// The combined temporary budget of the statements from `i` on.
pub open spec fn spec_stmts_weight(stmts: Seq<SpecStatement>, i: int) -> nat
    decreases stmts.len() - i,
{
    if i < 0 || i >= stmts.len() {
        0
    } else {
        2 * spec_stmt_weight(stmts[i]) + spec_stmts_weight(stmts, i + 1)
    }
}

/// The lowering of a function body from statement `i` on: a declaration
/// becomes a stack allocation, followed by its initializer emitted into the
/// declared slot; a bare top-level assignment to a known local or global
/// emits its right-hand side into that slot; everything else is
/// unsupported. Returns the text, the known locals, and the next temporary.
pub open spec fn spec_gen_stmts(
    stmts: Seq<SpecStatement>,
    i: int,
    globals: Seq<Seq<char>>,
    locals: Seq<Seq<char>>,
    tmp: int,
    out: Seq<char>,
) -> Result<(Seq<char>, Seq<Seq<char>>, int), Seq<char>>
    decreases stmts.len() - i,
{
    if i < 0 || i >= stmts.len() {
        Ok((out, locals, tmp))
    } else {
        match stmts[i] {
            SpecStatement::Declaration(decl) => match spec_type_ir(decl.type_) {
                Err(e) => Err(e),
                Ok(ty) => {
                    let out2 = out + "    %"@ + decl.identifier + " = alloca "@ + ty + "\n"@;
                    let locals2 = locals.push(decl.identifier);
                    match decl.init_value {
                        None => spec_gen_stmts(stmts, i + 1, globals, locals2, tmp, out2),
                        Some(op) => match spec_write_op(
                            Some("%"@ + decl.identifier),
                            op,
                            globals,
                            locals2,
                            tmp,
                        ) {
                            Err(e) => Err(e),
                            Ok((text, tmp2, _)) => spec_gen_stmts(
                                stmts,
                                i + 1,
                                globals,
                                locals2,
                                tmp2,
                                out2 + text,
                            ),
                        },
                    }
                },
            },
            SpecStatement::Operation(op) => match op {
                SpecOp::BinOp(bop, left, right) => {
                    if bop == BinaryOperator::Assign {
                        match *left {
                            SpecOp::Identifier(id) => {
                                if locals.contains(id) || globals.contains(id) {
                                    let target = if locals.contains(id) {
                                        "%"@ + id
                                    } else {
                                        "@"@ + id
                                    };
                                    match spec_write_op(
                                        Some(target),
                                        *right,
                                        globals,
                                        locals,
                                        tmp,
                                    ) {
                                        Err(e) => Err(e),
                                        Ok((text, tmp2, _)) => spec_gen_stmts(
                                            stmts,
                                            i + 1,
                                            globals,
                                            locals,
                                            tmp2,
                                            out + text,
                                        ),
                                    }
                                } else {
                                    Err("Variable "@ + id + " not defined"@)
                                }
                            },
                            _ => Err("Left hand in assignment must be an identifier"@),
                        }
                    } else {
                        Err("Unsupported binary operator"@)
                    }
                },
                _ => Err("Unsupported operation result type"@),
            },
            SpecStatement::Return(_) => Err("Return not supported yet"@),
            _ => Err("Unsupported statement type"@),
        }
    }
}

/// The parameter list text of a function signature, from parameter `i` on.
pub open spec fn spec_gen_params(args: Seq<SpecVariable>, i: int, out: Seq<char>) -> Result<
    Seq<char>,
    Seq<char>,
>
    decreases args.len() - i,
{
    if i < 0 || i >= args.len() {
        Ok(out)
    } else {
        let sep: Seq<char> = if i > 0 {
            ", "@
        } else {
            Seq::empty()
        };
        match spec_type_ir(args[i].type_) {
            Err(e) => Err(e),
            Ok(ty) => spec_gen_params(
                args,
                i + 1,
                out + sep + ty + " %"@ + args[i].identifier,
            ),
        }
    }
}

/// The functions pass from index `i` on: rejects a function name already
/// emitted, emits the signature line, lowers the body with a fresh local
/// scope and the temporary counter reset, and closes the body.
pub open spec fn spec_gen_functions(
    funs: Seq<SpecFunctionBlock>,
    i: int,
    globals: Seq<Seq<char>>,
    emitted: Seq<Seq<char>>,
    out: Seq<char>,
) -> Result<(Seq<char>, Seq<Seq<char>>), Seq<char>>
    decreases funs.len() - i,
{
    if i < 0 || i >= funs.len() {
        Ok((out, emitted))
    } else {
        let f = funs[i];
        if emitted.contains(f.identifier) {
            Err("Function "@ + f.identifier + " already defined"@)
        } else {
            let ret_ty: Result<Seq<char>, Seq<char>> = match f.return_type {
                None => Ok("void"@),
                Some(t) => spec_type_ir(t),
            };
            match ret_ty {
                Err(e) => Err(e),
                Ok(rt) => match spec_gen_params(f.arguments, 0, Seq::empty()) {
                    Err(e) => Err(e),
                    Ok(params) => match spec_gen_stmts(
                        f.body.statements,
                        0,
                        globals,
                        Seq::empty(),
                        0,
                        out + "define "@ + rt + " @"@ + f.identifier + "("@ + params
                            + ") {\n"@,
                    ) {
                        Err(e) => Err(e),
                        Ok((with_body, _, _)) => spec_gen_functions(
                            funs,
                            i + 1,
                            globals,
                            emitted.push(f.identifier),
                            with_body + "}\n\n"@,
                        ),
                    },
                },
            }
        }
    }
}

/// The whole generated module: the globals pass, then the functions pass
/// against the global names it emitted.
pub open spec fn spec_create_llvm_ir(tu: SpecTranslationUnit) -> Result<Seq<char>, Seq<char>> {
    match spec_gen_globals(tu.global_variables, 0, Seq::empty(), Seq::empty()) {
        Err(e) => Err(e),
        Ok((gtext, gnames)) => match spec_gen_functions(
            tu.functions,
            0,
            gnames,
            Seq::empty(),
            gtext,
        ) {
            Err(e) => Err(e),
            Ok((full, _)) => Ok(full),
        },
    }
}

/// True unless some function body could consume more temporaries than a
/// machine integer can count; only an expression tree with close to the
/// address-space limit's worth of nodes can violate it.
pub open spec fn spec_unit_fits(tu: SpecTranslationUnit) -> bool {
    forall|j: int|
        0 <= j < tu.functions.len() ==> #[trigger] spec_stmts_weight(
            tu.functions[j].body.statements,
            0,
        ) <= usize::MAX
}

proof fn lemma_write_op_growth(
    var: Option<Seq<char>>,
    op: SpecOp,
    globals: Seq<Seq<char>>,
    locals: Seq<Seq<char>>,
    tmp: int,
)
    ensures
        spec_write_op(var, op, globals, locals, tmp) matches Ok((_, tmp2, _)) ==> tmp <= tmp2
            <= tmp + 2 * spec_op_size(op),
    decreases op,
{
    let tmp1: int = match var {
        Some(_) => tmp,
        None => tmp + 1,
    };
    match op {
        SpecOp::BinOp(bop, l, r) => {
            lemma_write_op_growth(None, *l, globals, locals, tmp1);
            match spec_write_op(None, *l, globals, locals, tmp1) {
                Ok((ltext, tmp2, lret)) => {
                    lemma_write_op_growth(None, *r, globals, locals, tmp2);
                },
                Err(_) => {},
            }
        },
        _ => {},
    }
}

/// Whether `id` is one of `names`.
fn names_contains(names: &Vec<String>, id: &str) -> (r: bool)
    ensures
        r == names.deep_view().contains(id@),
{
    let mut k: usize = 0;
    while k < names.len()
        invariant
            k <= names@.len(),
            forall|j: int| 0 <= j < k ==> names.deep_view()[j] != id@,
        decreases names@.len() - k,
    {
        if str_equal(names[k].as_str(), id) {
            proof {
                assert(names.deep_view()[k as int] == id@);
            }
            return true;
        }
        k += 1;
    }
    false
}

struct LLVMIRGenerator<'a> {
    tu: &'a TranslationUnit,
    global_variables: Vec<String>,
    functions: Vec<String>,
    output: String,
    tmp_variable_count: usize,
}

impl<'a> LLVMIRGenerator<'a> {
    fn new(tu: &'a TranslationUnit) -> (r: LLVMIRGenerator<'a>)
        ensures
            r.tu == tu,
            r.global_variables.deep_view() == Seq::<Seq<char>>::empty(),
            r.functions.deep_view() == Seq::<Seq<char>>::empty(),
            r.output@ == Seq::<char>::empty(),
            r.tmp_variable_count == 0,
    {
        let r = LLVMIRGenerator {
            tu,
            global_variables: Vec::new(),
            functions: Vec::new(),
            output: String::new(),
            tmp_variable_count: 0,
        };
        proof {
            assert(r.global_variables.deep_view() =~= Seq::<Seq<char>>::empty());
            assert(r.functions.deep_view() =~= Seq::<Seq<char>>::empty());
        }
        r
    }

    /// The IR spelling of a type.
    fn type_to_llvm_ir(type_: &Type) -> (r: Result<String, String>)
        ensures
            match r {
                Ok(s) => spec_type_ir(*type_) == Ok::<Seq<char>, Seq<char>>(s@),
                Err(e) => spec_type_ir(*type_) == Err::<Seq<char>, Seq<char>>(e@),
            },
    {
        match type_ {
            Type::BuiltIn(built_in_type) => match built_in_type {
                crate::ast::BuiltInType::I8 => Ok(String::from_str("i8")),
                crate::ast::BuiltInType::I16 => Ok(String::from_str("i16")),
                crate::ast::BuiltInType::I32 => Ok(String::from_str("i32")),
                crate::ast::BuiltInType::I64 => Ok(String::from_str("i64")),
                crate::ast::BuiltInType::U8 => Ok(String::from_str("i8")),
                crate::ast::BuiltInType::U16 => Ok(String::from_str("i16")),
                crate::ast::BuiltInType::U32 => Ok(String::from_str("i32")),
                crate::ast::BuiltInType::U64 => Ok(String::from_str("i64")),
                crate::ast::BuiltInType::F32 => Ok(String::from_str("float")),
                crate::ast::BuiltInType::F64 => Ok(String::from_str("double")),
                crate::ast::BuiltInType::Bool => Ok(String::from_str("i8")),
                _ => Err(String::from_str("Unsupported built-in type!")),
            },
            Type::Custom(_) => Err(String::from_str("Custom types not supported yet")),
        }
    }

    /// The IR mnemonic of a binary operator.
    fn operator_to_llvm_ir(op: &BinaryOperator) -> (r: Result<&'static str, String>)
        ensures
            match r {
                Ok(s) => spec_operator_ir(*op) == Ok::<Seq<char>, Seq<char>>(s@),
                Err(e) => spec_operator_ir(*op) == Err::<Seq<char>, Seq<char>>(e@),
            },
    {
        match op {
            BinaryOperator::Plus => Ok("add"),
            BinaryOperator::Minus => Ok("sub"),
            BinaryOperator::Times => Ok("mul"),
            BinaryOperator::Div => Ok("div"),
            BinaryOperator::Mod => Ok("rem"),
            BinaryOperator::And => Ok("and"),
            BinaryOperator::Or => Ok("or"),
            BinaryOperator::Xor => Ok("xor"),
            _ => Err(String::from_str("Unsupported binary operator")),
        }
    }

    #[verifier::rlimit(60)]
    fn write_operation(
        &mut self,
        var: Option<&String>,
        op: &OperationResult,
        local_variables: &Vec<String>,
    ) -> (r: Result<Option<usize>, String>)
        requires
            old(self).tmp_variable_count + 2 * spec_op_size(op.deep_view()) <= usize::MAX,
        ensures
            final(self).tu == old(self).tu,
            final(self).global_variables == old(self).global_variables,
            final(self).functions == old(self).functions,
            ({
                let gv = match var {
                    Some(v) => Some(v@),
                    None => None::<Seq<char>>,
                };
                let s = spec_write_op(
                    gv,
                    op.deep_view(),
                    old(self).global_variables.deep_view(),
                    local_variables.deep_view(),
                    old(self).tmp_variable_count as int,
                );
                match r {
                    Ok(rr) => s matches Ok((text, tmp2, ret)) && final(self).output@ == old(
                        self,
                    ).output@ + text && final(self).tmp_variable_count == tmp2 && ret == (
                    match rr {
                        Some(u) => Some(u as int),
                        None => None::<int>,
                    }),
                    Err(e) => s matches Err(m) && e@ == m,
                }
            }),
        decreases *op, 2int,
    {
        let ghost gv: Option<Seq<char>> = match var {
            Some(v) => Some(v@),
            None => None::<Seq<char>>,
        };
        let ghost tmp0 = old(self).tmp_variable_count as int;

        proof {
            assert(spec_op_size(op.deep_view()) >= 1);
        }
        let (variable, ret): (String, Option<usize>) = match var {
            Some(v) => ((*v).clone(), None),
            None => {
                let t = self.tmp_variable_count;
                self.tmp_variable_count = t + 1;
                let mut name = String::from_str("%");
                let ts = usize_to_string(t);
                name.append(ts.as_str());
                (name, Some(t))
            },
        };

        match op {
            OperationResult::BinOpResult(bin_op) => self.write_binop(
                variable,
                ret,
                bin_op,
                local_variables,
                Ghost(gv),
                Ghost(tmp0),
            ),
            OperationResult::Literal(lit) => {
                let (lit_val, infix): (String, &'static str) = match lit {
                    Literal::Integer(v) => (v.clone(), " = i32 "),
                    Literal::Float(v) => (v.clone(), " = double "),
                    Literal::Boolean(v) => (
                        if *v {
                            String::from_str("1")
                        } else {
                            String::from_str("0")
                        },
                        " = i8 ",
                    ),
                    Literal::String(_) => {
                        return Err(String::from_str("Unsupported literal type: String"));
                    },
                };
                let mut line = String::from_str("    ");
                line.append(variable.as_str());
                line.append(infix);
                line.append(lit_val.as_str());
                line.append("\n");
                self.output.append(line.as_str());
                proof {
                    let s = spec_write_op(
                        gv,
                        op.deep_view(),
                        self.global_variables.deep_view(),
                        local_variables.deep_view(),
                        tmp0,
                    );
                    assert(s matches Ok((text, _, _)) && self.output@ =~= old(self).output@
                        + text);
                }
                Ok(ret)
            },
            OperationResult::Identifier(id) => {
                let is_local = names_contains(local_variables, id.as_str());
                let is_global = names_contains(&self.global_variables, id.as_str());
                if !is_local && !is_global {
                    let mut e = String::from_str("Variable ");
                    e.append(id.as_str());
                    e.append(" not defined");
                    return Err(e);
                }
                let mut line = String::from_str("    ");
                line.append(variable.as_str());
                if is_local {
                    line.append(" = load %");
                } else {
                    line.append(" = load @");
                }
                line.append(id.as_str());
                line.append("\n");
                self.output.append(line.as_str());
                proof {
                    let s = spec_write_op(
                        gv,
                        op.deep_view(),
                        self.global_variables.deep_view(),
                        local_variables.deep_view(),
                        tmp0,
                    );
                    assert(s matches Ok((text, _, _)) && self.output@ =~= old(self).output@
                        + text);
                }
                Ok(ret)
            },
            OperationResult::FuncResult(_) => Err(
                String::from_str("Unsupported operation result type"),
            ),
        }
    }

    #[verifier::rlimit(100)]
    #[verifier::spinoff_prover]
    fn write_binop(
        &mut self,
        variable: String,
        ret: Option<usize>,
        bin_op: &crate::ast::BinaryOperation,
        local_variables: &Vec<String>,
        Ghost(gv): Ghost<Option<Seq<char>>>,
        Ghost(tmp0): Ghost<int>,
    ) -> (r: Result<Option<usize>, String>)
        requires
            0 <= tmp0,
            tmp0 + 2 * (1 + spec_op_size(bin_op.left.deep_view()) + spec_op_size(
                bin_op.right.deep_view(),
            )) <= usize::MAX,
            variable@ == (match gv {
                Some(v) => v,
                None => "%"@ + dec_rep(tmp0 as nat),
            }),
            gv is Some ==> ret is None,
            gv is None ==> (ret matches Some(u) && u as int == tmp0),
            old(self).tmp_variable_count as int == (match gv {
                Some(_) => tmp0,
                None => tmp0 + 1,
            }),
        ensures
            final(self).tu == old(self).tu,
            final(self).global_variables == old(self).global_variables,
            final(self).functions == old(self).functions,
            ({
                let s = spec_write_op(
                    gv,
                    SpecOp::BinOp(
                        bin_op.operator,
                        Box::new(bin_op.left.deep_view()),
                        Box::new(bin_op.right.deep_view()),
                    ),
                    old(self).global_variables.deep_view(),
                    local_variables.deep_view(),
                    tmp0,
                );
                match r {
                    Ok(rr) => s matches Ok((text, tmp2, ret2)) && final(self).output@ == old(
                        self,
                    ).output@ + text && final(self).tmp_variable_count == tmp2 && ret2 == (
                    match rr {
                        Some(u) => Some(u as int),
                        None => None::<int>,
                    }),
                    Err(e) => s matches Err(m) && e@ == m,
                }
            }),
        decreases *bin_op, 1int,
    {
        let ghost op_deep = SpecOp::BinOp(
            bin_op.operator,
            Box::new(bin_op.left.deep_view()),
            Box::new(bin_op.right.deep_view()),
        );

                let ghost tmp1g = self.tmp_variable_count as int;
                let left = match self.write_operation(None, &bin_op.left, local_variables) {
                    Ok(l) => l,
                    Err(e) => {
                        return Err(e);
                    },
                };
                proof {
                    lemma_write_op_growth(
                        None,
                        bin_op.left.deep_view(),
                        self.global_variables.deep_view(),
                        local_variables.deep_view(),
                        tmp1g,
                    );
                }
                let ghost tmp2g = self.tmp_variable_count as int;
                let right = match self.write_operation(None, &bin_op.right, local_variables) {
                    Ok(rr) => rr,
                    Err(e) => {
                        return Err(e);
                    },
                };
                let mnemonic = match Self::operator_to_llvm_ir(&bin_op.operator) {
                    Ok(m) => m,
                    Err(e) => {
                        return Err(e);
                    },
                };
                let left_n = match left {
                    Some(n) => n,
                    None => {
                        return Err(String::from_str("This should never happen"));
                    },
                };
                let right_n = match right {
                    Some(n) => n,
                    None => {
                        return Err(String::from_str("This should never happen"));
                    },
                };
                let mut line = String::from_str("    ");
                line.append(variable.as_str());
                line.append(" = ");
                line.append(mnemonic);
                line.append(" i32 %");
                let ln = usize_to_string(left_n);
                line.append(ln.as_str());
                line.append(", %");
                let rn = usize_to_string(right_n);
                line.append(rn.as_str());
                line.append("\n");
                self.output.append(line.as_str());
                proof {
                    lemma_write_op_growth(
                        None,
                        bin_op.right.deep_view(),
                        self.global_variables.deep_view(),
                        local_variables.deep_view(),
                        tmp2g,
                    );
                    let s = spec_write_op(
                        gv,
                        op_deep,
                        self.global_variables.deep_view(),
                        local_variables.deep_view(),
                        tmp0,
                    );
                    assert(s matches Ok((text, _, _)) && self.output@ =~= old(self).output@
                        + text);
                }
                self.tmp_variable_count = self.tmp_variable_count + 1;
        Ok(ret)
    }

}

impl<'a> LLVMIRGenerator<'a> {
    /// The globals pass from declaration `i` on.
    fn gen_globals_from(&mut self, i: usize) -> (r: Result<(), String>)
        requires
            i <= old(self).tu.global_variables@.len(),
        ensures
            final(self).tu == old(self).tu,
            final(self).functions == old(self).functions,
            final(self).tmp_variable_count == old(self).tmp_variable_count,
            ({
                let s = spec_gen_globals(
                    old(self).tu.global_variables.deep_view(),
                    i as int,
                    old(self).global_variables.deep_view(),
                    old(self).output@,
                );
                match r {
                    Ok(()) => s matches Ok((text, defined)) && final(self).output@ == text
                        && final(self).global_variables.deep_view() == defined,
                    Err(e) => s matches Err(m) && e@ == m,
                }
            }),
        decreases old(self).tu.global_variables@.len() - i,
    {
        let tu = self.tu;
        if i >= tu.global_variables.len() {
            return Ok(());
        }
        let var = &tu.global_variables[i];
        if names_contains(&self.global_variables, var.identifier.as_str()) {
            let mut e = String::from_str("Global variable ");
            e.append(var.identifier.as_str());
            e.append(" already defined");
            return Err(e);
        }
        let ty = match Self::type_to_llvm_ir(&var.type_) {
            Ok(t) => t,
            Err(e) => {
                return Err(e);
            },
        };
        let init: String = match &var.init_value {
            None => String::from_str("0"),
            Some(OperationResult::Literal(lit)) => match lit {
                Literal::Integer(iv) => iv.clone(),
                Literal::Float(fv) => fv.clone(),
                Literal::Boolean(b) => if *b {
                    String::from_str("1")
                } else {
                    String::from_str("0")
                },
                Literal::String(_) => {
                    return Err(String::from_str("Unsupported literal type: String"));
                },
            },
            Some(_) => {
                return Err(String::from_str("Unsupported operation result type"));
            },
        };
        let mut line = String::from_str("@");
        line.append(var.identifier.as_str());
        line.append(" = global ");
        line.append(ty.as_str());
        line.append(" ");
        line.append(init.as_str());
        line.append("\n");
        self.output.append(line.as_str());
        self.global_variables.push(var.identifier.clone());
        proof {
            let gvs = self.tu.global_variables.deep_view();
            let v = gvs[i as int];
            assert(self.output@ =~= old(self).output@ + "@"@ + v.identifier + " = global "@
                + ty@ + " "@ + init@ + "\n"@);
            assert(self.global_variables.deep_view() =~= old(
                self,
            ).global_variables.deep_view().push(v.identifier));
        }
        self.gen_globals_from(i + 1)
    }

    /// The lowering of a function body from statement `i` on, with the
    /// known locals so far; returns the locals known afterwards.
    #[verifier::rlimit(100)]
    #[verifier::spinoff_prover]
    fn gen_stmts_from(&mut self, stmts: &Vec<Statement>, i: usize, locals: Vec<String>) -> (r:
        Result<Vec<String>, String>)
        requires
            i <= stmts@.len(),
            old(self).tmp_variable_count + spec_stmts_weight(stmts.deep_view(), i as int)
                <= usize::MAX,
        ensures
            final(self).tu == old(self).tu,
            final(self).global_variables == old(self).global_variables,
            final(self).functions == old(self).functions,
            ({
                let s = spec_gen_stmts(
                    stmts.deep_view(),
                    i as int,
                    old(self).global_variables.deep_view(),
                    locals.deep_view(),
                    old(self).tmp_variable_count as int,
                    old(self).output@,
                );
                match r {
                    Ok(locs2) => s matches Ok((text, l2, t2)) && final(self).output@ == text
                        && locs2.deep_view() == l2 && final(self).tmp_variable_count == t2,
                    Err(e) => s matches Err(m) && e@ == m,
                }
            }),
        decreases stmts@.len() - i,
    {
        if i >= stmts.len() {
            return Ok(locals);
        }
        let ghost stmt_deep = stmts.deep_view()[i as int];
        match &stmts[i] {
            Statement::Declaration(decl) => {
                let ty = match Self::type_to_llvm_ir(&decl.type_) {
                    Ok(t) => t,
                    Err(e) => {
                        return Err(e);
                    },
                };
                let mut line = String::from_str("    %");
                line.append(decl.identifier.as_str());
                line.append(" = alloca ");
                line.append(ty.as_str());
                line.append("\n");
                self.output.append(line.as_str());
                let mut locals2 = locals;
                let ghost old_locals = locals2.deep_view();
                locals2.push(decl.identifier.clone());
                proof {
                    assert(locals2.deep_view() =~= old_locals.push(decl.identifier@));
                    assert(self.output@ =~= old(self).output@ + "    %"@ + decl.identifier@
                        + " = alloca "@ + ty@ + "\n"@);
                }
                match &decl.init_value {
                    None => self.gen_stmts_from(stmts, i + 1, locals2),
                    Some(op) => {
                        let mut slot = String::from_str("%");
                        slot.append(decl.identifier.as_str());
                        let ghost tmp_before = self.tmp_variable_count as int;
                        match self.write_operation(Some(&slot), op, &locals2) {
                            Ok(_) => {},
                            Err(e) => {
                                return Err(e);
                            },
                        }
                        proof {
                            lemma_write_op_growth(
                                Some(slot@),
                                op.deep_view(),
                                self.global_variables.deep_view(),
                                locals2.deep_view(),
                                tmp_before,
                            );
                        }
                        self.gen_stmts_from(stmts, i + 1, locals2)
                    },
                }
            },
            Statement::Operation(op_res) => match op_res {
                OperationResult::BinOpResult(bin_op) => {
                    if bin_op.operator == BinaryOperator::Assign {
                        match &*bin_op.left {
                            OperationResult::Identifier(id) => {
                                proof {
                                    reveal_with_fuel(crate::ast::spec_op_deep, 3);
                                }
                                let is_local = names_contains(&locals, id.as_str());
                                let is_global = names_contains(
                                    &self.global_variables,
                                    id.as_str(),
                                );
                                if !(is_local || is_global) {
                                    let mut e = String::from_str("Variable ");
                                    e.append(id.as_str());
                                    e.append(" not defined");
                                    return Err(e);
                                }
                                let mut target = if is_local {
                                    String::from_str("%")
                                } else {
                                    String::from_str("@")
                                };
                                target.append(id.as_str());
                                let ghost tmp_before = self.tmp_variable_count as int;
                                match self.write_operation(
                                    Some(&target),
                                    &bin_op.right,
                                    &locals,
                                ) {
                                    Ok(_) => {},
                                    Err(e) => {
                                        return Err(e);
                                    },
                                }
                                proof {
                                    lemma_write_op_growth(
                                        Some(target@),
                                        bin_op.right.deep_view(),
                                        self.global_variables.deep_view(),
                                        locals.deep_view(),
                                        tmp_before,
                                    );
                                }
                                self.gen_stmts_from(stmts, i + 1, locals)
                            },
                            _ => Err(
                                String::from_str(
                                    "Left hand in assignment must be an identifier",
                                ),
                            ),
                        }
                    } else {
                        Err(String::from_str("Unsupported binary operator"))
                    }
                },
                _ => Err(String::from_str("Unsupported operation result type")),
            },
            Statement::Return(_) => Err(String::from_str("Return not supported yet")),
            _ => Err(String::from_str("Unsupported statement type")),
        }
    }

    /// The parameter list of a signature, from parameter `i` on.
    fn gen_params_str(args: &Vec<Variable>, i: usize, out: String) -> (r: Result<
        String,
        String,
    >)
        requires
            i <= args@.len(),
        ensures
            ({
                let s = spec_gen_params(args.deep_view(), i as int, out@);
                match r {
                    Ok(text) => s == Ok::<Seq<char>, Seq<char>>(text@),
                    Err(e) => s == Err::<Seq<char>, Seq<char>>(e@),
                }
            }),
        decreases args@.len() - i,
    {
        if i >= args.len() {
            return Ok(out);
        }
        let arg = &args[i];
        let ty = match Self::type_to_llvm_ir(&arg.type_) {
            Ok(t) => t,
            Err(e) => {
                return Err(e);
            },
        };
        let mut out2 = out;
        if i > 0 {
            out2.append(", ");
        }
        out2.append(ty.as_str());
        out2.append(" %");
        out2.append(arg.identifier.as_str());
        proof {
            let sep: Seq<char> = if i > 0 {
                ", "@
            } else {
                Seq::empty()
            };
            assert(out2@ =~= out@ + sep + ty@ + " %"@ + arg.identifier@);
        }
        Self::gen_params_str(args, i + 1, out2)
    }

    /// The functions pass from function `i` on.
    #[verifier::rlimit(100)]
    #[verifier::spinoff_prover]
    fn gen_functions_from(&mut self, i: usize) -> (r: Result<(), String>)
        requires
            i <= old(self).tu.functions@.len(),
            forall|j: int|
                0 <= j < old(self).tu.functions.deep_view().len()
                    ==> #[trigger] spec_stmts_weight(
                    old(self).tu.functions.deep_view()[j].body.statements,
                    0,
                ) <= usize::MAX,
        ensures
            final(self).tu == old(self).tu,
            final(self).global_variables == old(self).global_variables,
            ({
                let s = spec_gen_functions(
                    old(self).tu.functions.deep_view(),
                    i as int,
                    old(self).global_variables.deep_view(),
                    old(self).functions.deep_view(),
                    old(self).output@,
                );
                match r {
                    Ok(()) => s matches Ok((text, emitted)) && final(self).output@ == text
                        && final(self).functions.deep_view() == emitted,
                    Err(e) => s matches Err(m) && e@ == m,
                }
            }),
        decreases old(self).tu.functions@.len() - i,
    {
        let tu = self.tu;
        if i >= tu.functions.len() {
            return Ok(());
        }
        let fun = &tu.functions[i];
        let ghost f = tu.functions.deep_view()[i as int];
        if names_contains(&self.functions, fun.identifier.as_str()) {
            let mut e = String::from_str("Function ");
            e.append(fun.identifier.as_str());
            e.append(" already defined");
            return Err(e);
        }
        let rt: String = match &fun.return_type {
            None => String::from_str("void"),
            Some(t) => match Self::type_to_llvm_ir(t) {
                Ok(ty) => ty,
                Err(e) => {
                    return Err(e);
                },
            },
        };
        let params = match Self::gen_params_str(&fun.arguments, 0, String::new()) {
            Ok(p) => p,
            Err(e) => {
                return Err(e);
            },
        };
        let mut header = String::from_str("define ");
        header.append(rt.as_str());
        header.append(" @");
        header.append(fun.identifier.as_str());
        header.append("(");
        header.append(params.as_str());
        header.append(") {\n");
        self.output.append(header.as_str());
        self.tmp_variable_count = 0;
        proof {
            crate::ast::lemma_spec_stmts_deep_index(fun.body.statements@);
            assert(fun.body.statements.deep_view() =~= f.body.statements);
            assert(self.output@ =~= old(self).output@ + "define "@ + rt@ + " @"@
                + f.identifier + "("@ + params@ + ") {\n"@);
        }
        let locals: Vec<String> = Vec::new();
        proof {
            assert(locals.deep_view() =~= Seq::<Seq<char>>::empty());
        }
        match self.gen_stmts_from(&fun.body.statements, 0, locals) {
            Ok(_) => {},
            Err(e) => {
                return Err(e);
            },
        }
        self.output.append("}\n\n");
        let ghost old_funs = self.functions.deep_view();
        self.functions.push(fun.identifier.clone());
        proof {
            assert(self.functions.deep_view() =~= old_funs.push(f.identifier));
        }
        self.gen_functions_from(i + 1)
    }

    /// Generates the whole module's text into the generator's output.
    fn generate_ir(&mut self) -> (r: Result<(), String>)
        requires
            old(self).global_variables.deep_view() == Seq::<Seq<char>>::empty(),
            old(self).functions.deep_view() == Seq::<Seq<char>>::empty(),
            old(self).output@ == Seq::<char>::empty(),
            spec_unit_fits(old(self).tu.deep_view()),
        ensures
            final(self).tu == old(self).tu,
            ({
                let s = spec_create_llvm_ir(old(self).tu.deep_view());
                match r {
                    Ok(()) => s == Ok::<Seq<char>, Seq<char>>(final(self).output@),
                    Err(e) => s == Err::<Seq<char>, Seq<char>>(e@),
                }
            }),
    {
        match self.gen_globals_from(0) {
            Ok(()) => {},
            Err(e) => {
                return Err(e);
            },
        }
        match self.gen_functions_from(0) {
            Ok(()) => {},
            Err(e) => {
                return Err(e);
            },
        }
        Ok(())
    }
}

/// Lowers a translation unit to the text of an IR module. On any
/// unsupported construct, duplicate global or function name, or unresolved
/// identifier, the result is the descriptive error alone: no text is
/// produced, so a caller that writes the result to a file on success alone
/// leaves nothing behind on failure.
pub fn create_llvm_ir(tu: &TranslationUnit) -> (r: Result<String, String>)
    requires
        spec_unit_fits(tu.deep_view()),
    ensures
        match r {
            Ok(text) => spec_create_llvm_ir(tu.deep_view()) == Ok::<Seq<char>, Seq<char>>(
                text@,
            ),
            Err(e) => spec_create_llvm_ir(tu.deep_view()) == Err::<Seq<char>, Seq<char>>(e@),
        },
{
    let mut generator = LLVMIRGenerator::new(tu);
    match generator.generate_ir() {
        Ok(()) => Ok(generator.output),
        Err(e) => Err(e),
    }
}

/// Generating IR twice from the same well-formed unit matches byte for
/// byte: the module text is a function of the translation unit alone, and
/// `create_llvm_ir` returns exactly that function's value, so two
/// successful runs on one unit return identical text.
pub proof fn lemma_generation_deterministic(
    tu1: SpecTranslationUnit,
    tu2: SpecTranslationUnit,
    out1: Seq<char>,
    out2: Seq<char>,
)
    requires
        tu1 == tu2,
        spec_create_llvm_ir(tu1) == Ok::<Seq<char>, Seq<char>>(out1),
        spec_create_llvm_ir(tu2) == Ok::<Seq<char>, Seq<char>>(out2),
    ensures
        out1 == out2,
{
}

proof fn lemma_functions_pass_rejects_known(
    funs: Seq<SpecFunctionBlock>,
    i: int,
    globals: Seq<Seq<char>>,
    emitted: Seq<Seq<char>>,
    out: Seq<char>,
    k: int,
)
    requires
        0 <= i <= k < funs.len(),
        emitted.contains(funs[k].identifier),
    ensures
        spec_gen_functions(funs, i, globals, emitted, out) is Err,
    decreases funs.len() - i,
{
    let f = funs[i];
    if !emitted.contains(f.identifier) {
        assert(i != k);
        let ret_ty: Result<Seq<char>, Seq<char>> = match f.return_type {
            None => Ok("void"@),
            Some(t) => spec_type_ir(t),
        };
        match ret_ty {
            Err(_) => {},
            Ok(rt) => match spec_gen_params(f.arguments, 0, Seq::empty()) {
                Err(_) => {},
                Ok(params) => match spec_gen_stmts(
                    f.body.statements,
                    0,
                    globals,
                    Seq::empty(),
                    0,
                    out + "define "@ + rt + " @"@ + f.identifier + "("@ + params + ") {\n"@,
                ) {
                    Err(_) => {},
                    Ok((with_body, _, _)) => {
                        let emitted2 = emitted.push(f.identifier);
                        let idx = choose|idx: int|
                            0 <= idx < emitted.len() && emitted[idx] == funs[k].identifier;
                        assert(emitted2[idx] == funs[k].identifier);
                        assert(emitted2.contains(funs[k].identifier));
                        lemma_functions_pass_rejects_known(
                            funs,
                            i + 1,
                            globals,
                            emitted2,
                            with_body + "}\n\n"@,
                            k,
                        );
                    },
                },
            },
        }
    }
}

proof fn lemma_functions_pass_rejects_dup(
    funs: Seq<SpecFunctionBlock>,
    i: int,
    globals: Seq<Seq<char>>,
    emitted: Seq<Seq<char>>,
    out: Seq<char>,
    j: int,
    k: int,
)
    requires
        0 <= i <= j < k < funs.len(),
        funs[j].identifier == funs[k].identifier,
    ensures
        spec_gen_functions(funs, i, globals, emitted, out) is Err,
    decreases funs.len() - i,
{
    let f = funs[i];
    if !emitted.contains(f.identifier) {
        let ret_ty: Result<Seq<char>, Seq<char>> = match f.return_type {
            None => Ok("void"@),
            Some(t) => spec_type_ir(t),
        };
        match ret_ty {
            Err(_) => {},
            Ok(rt) => match spec_gen_params(f.arguments, 0, Seq::empty()) {
                Err(_) => {},
                Ok(params) => match spec_gen_stmts(
                    f.body.statements,
                    0,
                    globals,
                    Seq::empty(),
                    0,
                    out + "define "@ + rt + " @"@ + f.identifier + "("@ + params + ") {\n"@,
                ) {
                    Err(_) => {},
                    Ok((with_body, _, _)) => {
                        let emitted2 = emitted.push(f.identifier);
                        let out2 = with_body + "}\n\n"@;
                        if i == j {
                            assert(emitted2.last() == funs[k].identifier);
                            assert(emitted2.contains(funs[k].identifier));
                            lemma_functions_pass_rejects_known(
                                funs,
                                i + 1,
                                globals,
                                emitted2,
                                out2,
                                k,
                            );
                        } else {
                            lemma_functions_pass_rejects_dup(
                                funs,
                                i + 1,
                                globals,
                                emitted2,
                                out2,
                                j,
                                k,
                            );
                        }
                    },
                },
            },
        }
    }
}

/// A unit in which two functions share a name never yields module text:
/// generation aborts with an error, so nothing is written to disk.
pub proof fn lemma_duplicate_function_rejected(tu: SpecTranslationUnit, j: int, k: int)
    requires
        0 <= j < k < tu.functions.len(),
        tu.functions[j].identifier == tu.functions[k].identifier,
    ensures
        spec_create_llvm_ir(tu) is Err,
{
    match spec_gen_globals(tu.global_variables, 0, Seq::empty(), Seq::empty()) {
        Err(_) => {},
        Ok((gtext, gnames)) => {
            lemma_functions_pass_rejects_dup(tu.functions, 0, gnames, Seq::empty(), gtext, j, k);
        },
    }
}

proof fn lemma_stmts_reject_return(
    stmts: Seq<SpecStatement>,
    i: int,
    globals: Seq<Seq<char>>,
    locals: Seq<Seq<char>>,
    tmp: int,
    out: Seq<char>,
    m: int,
)
    requires
        0 <= i <= m < stmts.len(),
        stmts[m] is Return,
    ensures
        spec_gen_stmts(stmts, i, globals, locals, tmp, out) is Err,
    decreases stmts.len() - i,
{
    match stmts[i] {
        SpecStatement::Declaration(decl) => {
            assert(i != m);
            match spec_type_ir(decl.type_) {
                Err(_) => {},
                Ok(ty) => {
                    let out2 = out + "    %"@ + decl.identifier + " = alloca "@ + ty + "\n"@;
                    let locals2 = locals.push(decl.identifier);
                    match decl.init_value {
                        None => {
                            lemma_stmts_reject_return(stmts, i + 1, globals, locals2, tmp, out2, m);
                        },
                        Some(op) => {
                            match spec_write_op(
                                Some("%"@ + decl.identifier),
                                op,
                                globals,
                                locals2,
                                tmp,
                            ) {
                                Err(_) => {},
                                Ok((text, tmp2, _)) => {
                                    lemma_stmts_reject_return(
                                        stmts,
                                        i + 1,
                                        globals,
                                        locals2,
                                        tmp2,
                                        out2 + text,
                                        m,
                                    );
                                },
                            }
                        },
                    }
                },
            }
        },
        SpecStatement::Operation(op) => {
            assert(i != m);
            match op {
                SpecOp::BinOp(bop, left, right) => {
                    if bop == BinaryOperator::Assign {
                        match *left {
                            SpecOp::Identifier(id) => {
                                if locals.contains(id) || globals.contains(id) {
                                    let target = if locals.contains(id) {
                                        "%"@ + id
                                    } else {
                                        "@"@ + id
                                    };
                                    match spec_write_op(Some(target), *right, globals, locals, tmp) {
                                        Err(_) => {},
                                        Ok((text, tmp2, _)) => {
                                            lemma_stmts_reject_return(
                                                stmts,
                                                i + 1,
                                                globals,
                                                locals,
                                                tmp2,
                                                out + text,
                                                m,
                                            );
                                        },
                                    }
                                }
                            },
                            _ => {},
                        }
                    }
                },
                _ => {},
            }
        },
        _ => {},
    }
}

proof fn lemma_functions_pass_hits_return(
    funs: Seq<SpecFunctionBlock>,
    i: int,
    globals: Seq<Seq<char>>,
    emitted: Seq<Seq<char>>,
    out: Seq<char>,
    j: int,
    m: int,
)
    requires
        0 <= i <= j < funs.len(),
        0 <= m < funs[j].body.statements.len(),
        funs[j].body.statements[m] is Return,
    ensures
        spec_gen_functions(funs, i, globals, emitted, out) is Err,
    decreases funs.len() - i,
{
    let f = funs[i];
    if !emitted.contains(f.identifier) {
        let ret_ty: Result<Seq<char>, Seq<char>> = match f.return_type {
            None => Ok("void"@),
            Some(t) => spec_type_ir(t),
        };
        match ret_ty {
            Err(_) => {},
            Ok(rt) => match spec_gen_params(f.arguments, 0, Seq::empty()) {
                Err(_) => {},
                Ok(params) => {
                    let header_out = out + "define "@ + rt + " @"@ + f.identifier + "("@
                        + params + ") {\n"@;
                    if i == j {
                        lemma_stmts_reject_return(
                            f.body.statements,
                            0,
                            globals,
                            Seq::empty(),
                            0,
                            header_out,
                            m,
                        );
                    } else {
                        match spec_gen_stmts(
                            f.body.statements,
                            0,
                            globals,
                            Seq::empty(),
                            0,
                            header_out,
                        ) {
                            Err(_) => {},
                            Ok((with_body, _, _)) => {
                                lemma_functions_pass_hits_return(
                                    funs,
                                    i + 1,
                                    globals,
                                    emitted.push(f.identifier),
                                    with_body + "}\n\n"@,
                                    j,
                                    m,
                                );
                            },
                        }
                    }
                },
            },
        }
    }
}

/// A unit in which some function body holds a return statement never
/// yields module text: return is unsupported, generation aborts with an
/// error, and nothing is written to disk.
pub proof fn lemma_return_statement_rejected(tu: SpecTranslationUnit, j: int, m: int)
    requires
        0 <= j < tu.functions.len(),
        0 <= m < tu.functions[j].body.statements.len(),
        tu.functions[j].body.statements[m] is Return,
    ensures
        spec_create_llvm_ir(tu) is Err,
{
    match spec_gen_globals(tu.global_variables, 0, Seq::empty(), Seq::empty()) {
        Err(_) => {},
        Ok((gtext, gnames)) => {
            lemma_functions_pass_hits_return(tu.functions, 0, gnames, Seq::empty(), gtext, j, m);
        },
    }
}

} // verus!
