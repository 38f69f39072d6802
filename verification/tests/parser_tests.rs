use toy_lang::ast::{BinaryOperator, BuiltInType, Literal, OperationResult, Statement,
    TranslationUnit, Type};
use toy_lang::tokens::Operator;
use toy_lang::error::LexerError;
use toy_lang::lexeme::Lexeme;
use toy_lang::operation_parser::OperationParser;
use toy_lang::parser::parser;

fn lex(lines: &[&str]) -> Lexeme {
    let owned: Vec<String> = lines.iter().map(|s| String::from(*s)).collect();
    let (lexeme, errors): (Lexeme, Vec<LexerError>) = Lexeme::from_file(&owned);
    assert!(errors.is_empty());
    lexeme
}

fn parse_expression(src: &str) -> OperationResult {
    let lexeme = lex(&[src]);
    let end = lexeme.len();
    let mut p = OperationParser::new(&lexeme, 0, end);
    p.parse().expect("expression should parse")
}

fn ident_name(op: &OperationResult) -> &str {
    match op {
        OperationResult::Identifier(id) => id.as_str(),
        _ => panic!("expected an identifier"),
    }
}

#[test]
fn multiplicative_binds_tighter_than_additive() {
    // a = b + c * d parses as assign(a, plus(b, times(c, d))).
    let op = parse_expression("a = b + c * d");
    match op {
        OperationResult::BinOpResult(assign) => {
            assert_eq!(assign.operator, BinaryOperator::Assign);
            assert_eq!(ident_name(&assign.left), "a");
            match *assign.right {
                OperationResult::BinOpResult(plus) => {
                    assert_eq!(plus.operator, BinaryOperator::Plus);
                    assert_eq!(ident_name(&plus.left), "b");
                    match *plus.right {
                        OperationResult::BinOpResult(times) => {
                            assert_eq!(times.operator, BinaryOperator::Times);
                            assert_eq!(ident_name(&times.left), "c");
                            assert_eq!(ident_name(&times.right), "d");
                        },
                        _ => panic!("expected c * d"),
                    }
                },
                _ => panic!("expected b + c * d"),
            }
        },
        _ => panic!("expected an assignment"),
    }
}

#[test]
fn parentheses_override_precedence() {
    // a = (b + c) * d parses as assign(a, times(plus(b, c), d)).
    let op = parse_expression("a = (b + c) * d");
    match op {
        OperationResult::BinOpResult(assign) => {
            assert_eq!(assign.operator, BinaryOperator::Assign);
            assert_eq!(ident_name(&assign.left), "a");
            match *assign.right {
                OperationResult::BinOpResult(times) => {
                    assert_eq!(times.operator, BinaryOperator::Times);
                    assert_eq!(ident_name(&times.right), "d");
                    match *times.left {
                        OperationResult::BinOpResult(plus) => {
                            assert_eq!(plus.operator, BinaryOperator::Plus);
                            assert_eq!(ident_name(&plus.left), "b");
                            assert_eq!(ident_name(&plus.right), "c");
                        },
                        _ => panic!("expected (b + c)"),
                    }
                },
                _ => panic!("expected (b + c) * d"),
            }
        },
        _ => panic!("expected an assignment"),
    }
}

#[test]
fn call_with_two_arguments() {
    // f(a, b+1) parses as a call to f whose second argument is a plus.
    let op = parse_expression("f(a, b+1)");
    match op {
        OperationResult::FuncResult(call) => {
            assert_eq!(call.function_id, String::from("f"));
            assert_eq!(call.arguments.len(), 2);
            assert_eq!(ident_name(&call.arguments[0]), "a");
            match &*call.arguments[1] {
                OperationResult::BinOpResult(plus) => {
                    assert_eq!(plus.operator, BinaryOperator::Plus);
                    assert_eq!(ident_name(&plus.left), "b");
                    match &*plus.right {
                        OperationResult::Literal(Literal::Integer(v)) => {
                            assert_eq!(v, &String::from("1"));
                        },
                        _ => panic!("expected the literal 1"),
                    }
                },
                _ => panic!("expected b + 1"),
            }
        },
        _ => panic!("expected a call"),
    }
}

#[test]
fn same_precedence_chain_splits_at_the_rightmost_operator() {
    // The rightmost match wins, so a - b - c groups as (a - b) - c.
    let op = parse_expression("a - b - c");
    match op {
        OperationResult::BinOpResult(outer) => {
            assert_eq!(outer.operator, BinaryOperator::Minus);
            assert_eq!(ident_name(&outer.right), "c");
            match *outer.left {
                OperationResult::BinOpResult(inner) => {
                    assert_eq!(inner.operator, BinaryOperator::Minus);
                    assert_eq!(ident_name(&inner.left), "a");
                    assert_eq!(ident_name(&inner.right), "b");
                },
                _ => panic!("expected (a - b)"),
            }
        },
        _ => panic!("expected a subtraction"),
    }
}

#[test]
fn literal_leaves() {
    match parse_expression("5") {
        OperationResult::Literal(Literal::Integer(v)) => assert_eq!(v, String::from("5")),
        _ => panic!("expected an integer literal"),
    }
    match parse_expression("1.5") {
        OperationResult::Literal(Literal::Float(v)) => assert_eq!(v, String::from("1.5")),
        _ => panic!("expected a float literal"),
    }
    match parse_expression("\"hi\"") {
        OperationResult::Literal(Literal::String(v)) => assert_eq!(v, String::from("hi")),
        _ => panic!("expected a string literal"),
    }
}

#[test]
fn empty_range_is_a_parse_error() {
    let lexeme = lex(&["a"]);
    let mut p = OperationParser::new(&lexeme, 0, 0);
    let e = p.parse().unwrap_err();
    assert_eq!(e.msg, String::from("Could not read operation"));
    assert_eq!(e.at, 0);
}

#[test]
fn compound_assignment_has_no_binary_form() {
    let lexeme = lex(&["a += b"]);
    let end = lexeme.len();
    let mut p = OperationParser::new(&lexeme, 0, end);
    let e = p.parse().unwrap_err();
    assert_eq!(e.msg, String::from("Invalid operator for BinaryOperator"));
    assert_eq!(e.at, 1);
}

#[test]
fn unit_with_global_and_function() {
    let lexeme = lex(&[
        "int32 x = 5;",
        "def void f ( int32 a uint8 b ) {",
        "    x = x + 1;",
        "}",
    ]);
    let tu = parser(&lexeme).expect("unit should parse");
    assert_eq!(tu.custom_types.len(), 0);
    assert_eq!(tu.global_variables.len(), 1);
    assert_eq!(tu.functions.len(), 1);

    let g = &tu.global_variables[0];
    assert_eq!(g.identifier, String::from("x"));
    assert_eq!(g.type_, Type::BuiltIn(BuiltInType::I32));
    match g.init_value.as_ref().unwrap() {
        OperationResult::Literal(Literal::Integer(v)) => assert_eq!(v, &String::from("5")),
        _ => panic!("expected the literal 5"),
    }

    let f = &tu.functions[0];
    assert_eq!(f.identifier, String::from("f"));
    assert!(f.return_type.is_none());
    assert_eq!(f.arguments.len(), 2);
    assert_eq!(f.arguments[0].identifier, String::from("a"));
    assert_eq!(f.arguments[0].type_, Type::BuiltIn(BuiltInType::I32));
    assert_eq!(f.arguments[1].identifier, String::from("b"));
    assert_eq!(f.arguments[1].type_, Type::BuiltIn(BuiltInType::U8));
    assert_eq!(f.body.statements.len(), 1);
    match &f.body.statements[0] {
        Statement::Operation(OperationResult::BinOpResult(assign)) => {
            assert_eq!(assign.operator, BinaryOperator::Assign);
        },
        _ => panic!("expected an assignment statement"),
    }
}

#[test]
fn declaration_without_initializer() {
    let lexeme = lex(&["uint64 big;"]);
    let tu = parser(&lexeme).expect("unit should parse");
    assert_eq!(tu.global_variables.len(), 1);
    assert_eq!(tu.global_variables[0].identifier, String::from("big"));
    assert!(tu.global_variables[0].init_value.is_none());
}

#[test]
fn function_with_typed_return_and_local_declaration() {
    let lexeme = lex(&["def int64 g ( ) {", "    int64 y = 2;", "}"]);
    let tu = parser(&lexeme).expect("unit should parse");
    let f = &tu.functions[0];
    assert_eq!(f.return_type, Some(Type::BuiltIn(BuiltInType::I64)));
    assert_eq!(f.arguments.len(), 0);
    match &f.body.statements[0] {
        Statement::Declaration(d) => {
            assert_eq!(d.identifier, String::from("y"));
            assert_eq!(d.type_, Type::BuiltIn(BuiltInType::I64));
        },
        _ => panic!("expected a declaration"),
    }
}

#[test]
fn bare_operation_at_top_level_is_rejected() {
    let lexeme = lex(&["x = 1;"]);
    let e = parser(&lexeme).unwrap_err();
    assert_eq!(e.msg, String::from("Unexpected statement"));
}

#[test]
fn unknown_return_type_is_rejected() {
    let lexeme = lex(&["def widget f ( ) { }"]);
    let e = parser(&lexeme).unwrap_err();
    assert_eq!(e.msg, String::from("Unknown return type"));
    assert_eq!(e.at, 1);
}

#[test]
fn missing_argument_list_is_rejected() {
    let lexeme = lex(&["def void f { }"]);
    let e = parser(&lexeme).unwrap_err();
    assert_eq!(e.msg, String::from("Expected argument list"));
}

#[test]
fn unclosed_body_is_a_parse_error_not_a_crash() {
    let lexeme = lex(&["def void f ( ) {"]);
    let e = parser(&lexeme).unwrap_err();
    assert_eq!(e.msg, String::from("Unexpected end of body"));
}

#[test]
fn trailing_terminators_end_the_unit() {
    let lexeme = lex(&["int32 x;;;"]);
    let tu = parser(&lexeme).expect("unit should parse");
    assert_eq!(tu.global_variables.len(), 1);
}

#[test]
fn empty_input_gives_an_empty_unit() {
    let lexeme = lex(&[""]);
    let tu = parser(&lexeme).expect("unit should parse");
    assert_eq!(tu.global_variables.len(), 0);
    assert_eq!(tu.functions.len(), 0);
    let tu2 = TranslationUnit::new();
    assert_eq!(tu2.custom_types.len(), 0);
}

#[test]
fn from_lexeme_matches_parser() {
    let lexeme = lex(&["int16 n = 3;"]);
    let tu = TranslationUnit::from_lexeme(&lexeme).expect("unit should parse");
    assert_eq!(tu.global_variables[0].type_, Type::BuiltIn(BuiltInType::I16));
}

#[test]
fn built_in_type_names() {
    assert_eq!(BuiltInType::from("int8"), Some(BuiltInType::I8));
    assert_eq!(BuiltInType::from("uint32"), Some(BuiltInType::U32));
    assert_eq!(BuiltInType::from("fint32"), Some(BuiltInType::F32));
    assert_eq!(BuiltInType::from("fint64"), Some(BuiltInType::F64));
    assert_eq!(BuiltInType::from("isize"), Some(BuiltInType::ISize));
    assert_eq!(BuiltInType::from("usize"), Some(BuiltInType::USize));
    assert_eq!(BuiltInType::from("bool"), Some(BuiltInType::Bool));
    assert_eq!(BuiltInType::from("string"), Some(BuiltInType::String));
    assert_eq!(BuiltInType::from("int"), None);
}

#[test]
fn binary_operator_from_operator_token() {
    assert_eq!(BinaryOperator::from(&Operator::Plus), Some(BinaryOperator::Plus));
    assert_eq!(BinaryOperator::from(&Operator::ShiftLeft), Some(BinaryOperator::LShift));
    assert_eq!(BinaryOperator::from(&Operator::BitwiseXor), Some(BinaryOperator::BitXor));
    assert_eq!(BinaryOperator::from(&Operator::Comma), None);
    assert_eq!(BinaryOperator::from(&Operator::PlusEq), None);
}

#[test]
fn declaration_without_a_name_is_rejected() {
    let lexeme = lex(&["int32 5;"]);
    let e = parser(&lexeme).unwrap_err();
    assert_eq!(e.msg, String::from("Expected identifier"));
    assert_eq!(e.at, 1);
}

#[test]
fn declaration_without_terminator_or_assignment_is_rejected() {
    let lexeme = lex(&["int32 x 5;"]);
    let e = parser(&lexeme).unwrap_err();
    assert_eq!(e.msg, String::from("Expected semicolon or assignment"));
    assert_eq!(e.at, 2);
}

#[test]
fn parameter_without_a_name_is_rejected() {
    let lexeme = lex(&["def void f ( int32 ) { }"]);
    let e = parser(&lexeme).unwrap_err();
    assert_eq!(e.msg, String::from("Expected identifier"));
}

#[test]
fn parameter_of_unknown_type_is_rejected() {
    let lexeme = lex(&["def void f ( widget a ) { }"]);
    let e = parser(&lexeme).unwrap_err();
    assert_eq!(e.msg, String::from("Unknown type"));
}

#[test]
fn stray_token_in_parameter_list_is_rejected() {
    let lexeme = lex(&["def void f ( ; a ) { }"]);
    let e = parser(&lexeme).unwrap_err();
    assert_eq!(e.msg, String::from("Expected identifier or end of argument list"));
}

#[test]
fn operation_without_terminator_is_rejected() {
    let lexeme = lex(&["def void f ( ) {", "    x = 1", "}"]);
    let e = parser(&lexeme).unwrap_err();
    assert_eq!(e.msg, String::from("Did not find end of statement"));
}

#[test]
fn malformed_function_header_is_rejected() {
    let lexeme = lex(&["def 5 f ( ) { }"]);
    let e = parser(&lexeme).unwrap_err();
    assert_eq!(e.msg, String::from("Expected function identifier"));
    assert_eq!(e.at, 1);
    let lexeme = lex(&["def void 5 ( ) { }"]);
    let e = parser(&lexeme).unwrap_err();
    assert_eq!(e.msg, String::from("Expected function identifier"));
    assert_eq!(e.at, 2);
}
