use toy_lang::ast::{Body, BuiltInType, FunctionBlock, Literal, OperationResult, Statement,
    TranslationUnit, Type, VariableDeclaration};
use toy_lang::error::LexerError;
use toy_lang::ir_gen::create_llvm_ir;
use toy_lang::lexeme::Lexeme;
use toy_lang::parser::parser;

fn parse(lines: &[&str]) -> TranslationUnit {
    let owned: Vec<String> = lines.iter().map(|s| String::from(*s)).collect();
    let (lexeme, errors): (Lexeme, Vec<LexerError>) = Lexeme::from_file(&owned);
    assert!(errors.is_empty());
    parser(&lexeme).expect("unit should parse")
}

#[test]
fn generated_module_text_is_exact() {
    let tu = parse(&["int32 x = 5;", "def void f ( ) {", "    x = x + 1;", "}"]);
    let text = create_llvm_ir(&tu).expect("generation should succeed");
    let expected = "@x = global i32 5\ndefine void @f() {\n    %0 = load @x\n    %1 = i32 1\n    @x = add i32 %0, %1\n}\n\n";
    assert_eq!(text, String::from(expected));
}

#[test]
fn generating_twice_matches_byte_for_byte() {
    let tu = parse(&[
        "int32 x;",
        "uint16 y = 7;",
        "def int64 g ( int64 p ) {",
        "    int64 z = 2;",
        "    z = z * z;",
        "}",
        "def void h ( ) {",
        "    x = y;",
        "}",
    ]);
    let first = create_llvm_ir(&tu).expect("generation should succeed");
    let second = create_llvm_ir(&tu).expect("generation should succeed");
    assert_eq!(first, second);
}

#[test]
fn declarations_lower_to_alloca_and_slot_initialization() {
    let tu = parse(&[
        "int32 x;",
        "def int64 g ( int64 p ) {",
        "    int64 y = 2;",
        "    y = y;",
        "}",
    ]);
    let text = create_llvm_ir(&tu).expect("generation should succeed");
    let expected = "@x = global i32 0\ndefine i64 @g(i64 %p) {\n    %y = alloca i64\n    %y = i32 2\n    %y = load %y\n}\n\n";
    assert_eq!(text, String::from(expected));
}

#[test]
fn type_lowering_table() {
    let tu = parse(&[
        "int8 a;",
        "int16 b;",
        "int32 c;",
        "int64 d;",
        "uint8 e;",
        "uint16 f;",
        "uint32 g;",
        "uint64 h;",
        "fint32 i;",
        "fint64 j;",
        "bool k;",
    ]);
    let text = create_llvm_ir(&tu).expect("generation should succeed");
    let expected = "@a = global i8 0\n@b = global i16 0\n@c = global i32 0\n@d = global i64 0\n@e = global i8 0\n@f = global i16 0\n@g = global i32 0\n@h = global i64 0\n@i = global float 0\n@j = global double 0\n@k = global i8 0\n";
    assert_eq!(text, String::from(expected));
}

#[test]
fn pointer_sized_and_string_types_are_rejected() {
    let tu = parse(&["usize c;"]);
    let e = create_llvm_ir(&tu).unwrap_err();
    assert_eq!(e, String::from("Unsupported built-in type!"));
    let tu = parse(&["string s;"]);
    let e = create_llvm_ir(&tu).unwrap_err();
    assert_eq!(e, String::from("Unsupported built-in type!"));
}

#[test]
fn duplicate_function_name_yields_an_error_and_no_text() {
    let tu = parse(&["def void f ( ) { }", "def void f ( ) { }"]);
    let r = create_llvm_ir(&tu);
    match r {
        Err(e) => assert_eq!(e, String::from("Function f already defined")),
        Ok(_) => panic!("a duplicate function name must be rejected"),
    }
}

#[test]
fn duplicate_global_name_yields_an_error() {
    let tu = parse(&["int32 x;", "int32 x;"]);
    let e = create_llvm_ir(&tu).unwrap_err();
    assert_eq!(e, String::from("Global variable x already defined"));
}

#[test]
fn return_statement_yields_an_error_and_no_text() {
    // The parser has no return path, so build the unit directly.
    let tu = TranslationUnit {
        custom_types: Vec::new(),
        global_variables: Vec::new(),
        functions: vec![FunctionBlock {
            identifier: String::from("f"),
            arguments: Vec::new(),
            return_type: None,
            body: Body {
                statements: vec![Statement::Return(OperationResult::Literal(
                    Literal::Integer(String::from("1")),
                ))],
            },
        }],
    };
    let r = create_llvm_ir(&tu);
    match r {
        Err(e) => assert_eq!(e, String::from("Return not supported yet")),
        Ok(_) => panic!("a return statement must be rejected"),
    }
}

#[test]
fn boolean_global_initializers_lower_to_one_and_zero() {
    let tu = TranslationUnit {
        custom_types: Vec::new(),
        global_variables: vec![
            VariableDeclaration {
                identifier: String::from("t"),
                type_: Type::BuiltIn(BuiltInType::Bool),
                init_value: Some(OperationResult::Literal(Literal::Boolean(true))),
            },
            VariableDeclaration {
                identifier: String::from("n"),
                type_: Type::BuiltIn(BuiltInType::Bool),
                init_value: Some(OperationResult::Literal(Literal::Boolean(false))),
            },
        ],
        functions: Vec::new(),
    };
    let text = create_llvm_ir(&tu).expect("generation should succeed");
    assert_eq!(text, String::from("@t = global i8 1\n@n = global i8 0\n"));
}

#[test]
fn string_literal_initializer_is_rejected() {
    let tu = parse(&["int32 s = \"hi\";"]);
    let e = create_llvm_ir(&tu).unwrap_err();
    assert_eq!(e, String::from("Unsupported literal type: String"));
}

#[test]
fn expression_initializer_for_a_global_is_rejected() {
    let tu = parse(&["int32 x = 1 + 2;"]);
    let e = create_llvm_ir(&tu).unwrap_err();
    assert_eq!(e, String::from("Unsupported operation result type"));
}

#[test]
fn undefined_variable_in_a_body_is_rejected() {
    let tu = parse(&["def void f ( ) {", "    x = 1;", "}"]);
    let e = create_llvm_ir(&tu).unwrap_err();
    assert_eq!(e, String::from("Variable x not defined"));
}

#[test]
fn assignment_to_a_literal_is_rejected() {
    let tu = parse(&["def void f ( ) {", "    1 = 2;", "}"]);
    let e = create_llvm_ir(&tu).unwrap_err();
    assert_eq!(e, String::from("Left hand in assignment must be an identifier"));
}

#[test]
fn shift_operator_is_rejected_by_the_generator() {
    let tu = parse(&["int32 x;", "def void f ( ) {", "    x = x << x;", "}"]);
    let e = create_llvm_ir(&tu).unwrap_err();
    assert_eq!(e, String::from("Unsupported binary operator"));
}

#[test]
fn nested_body_statement_is_rejected_by_the_generator() {
    // The statement parser's cursor handling cannot carry a nested body to
    // the generator, so build the unit directly.
    let tu = TranslationUnit {
        custom_types: Vec::new(),
        global_variables: Vec::new(),
        functions: vec![FunctionBlock {
            identifier: String::from("f"),
            arguments: Vec::new(),
            return_type: None,
            body: Body {
                statements: vec![Statement::Body(Body { statements: Vec::new() })],
            },
        }],
    };
    let e = create_llvm_ir(&tu).unwrap_err();
    assert_eq!(e, String::from("Unsupported statement type"));
}

#[test]
fn arithmetic_mnemonics() {
    let tu = parse(&[
        "int32 x;",
        "def void f ( ) {",
        "    x = x - x;",
        "    x = x / x;",
        "    x = x % x;",
        "}",
    ]);
    let text = create_llvm_ir(&tu).expect("generation should succeed");
    assert!(text.contains(" = sub i32 "));
    assert!(text.contains(" = div i32 "));
    assert!(text.contains(" = rem i32 "));
}

#[test]
fn temporaries_are_numbered_per_function() {
    let tu = parse(&[
        "int32 x;",
        "def void f ( ) {",
        "    x = x + x;",
        "}",
        "def void g ( ) {",
        "    x = x + x;",
        "}",
    ]);
    let text = create_llvm_ir(&tu).expect("generation should succeed");
    let expected = "@x = global i32 0\ndefine void @f() {\n    %0 = load @x\n    %1 = load @x\n    @x = add i32 %0, %1\n}\n\ndefine void @g() {\n    %0 = load @x\n    %1 = load @x\n    @x = add i32 %0, %1\n}\n\n";
    assert_eq!(text, String::from(expected));
}

#[test]
fn custom_type_in_a_declaration_is_rejected() {
    let tu = TranslationUnit {
        custom_types: Vec::new(),
        global_variables: vec![VariableDeclaration {
            identifier: String::from("p"),
            type_: Type::Custom(0),
            init_value: None,
        }],
        functions: Vec::new(),
    };
    let e = create_llvm_ir(&tu).unwrap_err();
    assert_eq!(e, String::from("Custom types not supported yet"));
}
