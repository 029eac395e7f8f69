use amvm::aml3::command::Aml3Command;
use amvm::aml3::error::Aml3Error;
use amvm::aml3::expr::Aml3Expr;
use amvm::aml3::from_str;
use amvm::aml3::parse;
use amvm::aml3::types::Aml3Type;
use amvm::aml3::value::Aml3Value;
use amvm::aml3::variable::Aml3Variable;
use amvm::error::DecodeFault;
use amvm::parser::Parser;
use amvm::runtime::result::AmvmPropagate;
use amvm::tokens::command::Command;
use amvm::tokens::expr::BinaryKind;
use amvm::tokens::expr::CommandExpression;
use amvm::tokens::header::AmvmHeader;
use amvm::tokens::header::AmvmTypeCasting;
use amvm::tokens::kind::VariableKind;
use amvm::tokens::program::Program;
use amvm::tokens::types::AmvmPrimitiveType;
use amvm::tokens::types::AmvmType;
use amvm::tokens::value::Value;

fn text(source: &str) -> Parser<'_> {
    Parser::new(source.as_bytes(), false)
}

fn run_source(source: &str) -> (String, Result<Value, AmvmPropagate>) {
    let body = from_str(source).expect("source parses");
    let header = AmvmHeader { sum_kind: AmvmTypeCasting::TypeCastingStrictlessString };
    let mut runtime = Program::new(header, body).runtime("test.aml3".to_string());
    let result = runtime.run();
    (runtime.machine.output, result)
}

#[test]
fn variable_is_a_dollar_and_a_word() {
    let (rest, name) = Aml3Variable::visit(text("$count 1u8")).expect("variable");
    assert_eq!(name, "count");
    assert_eq!(rest.pointer, 6);
    let err = Aml3Variable::visit(text("count")).unwrap_err();
    assert_eq!(err.fault, DecodeFault::ExpectedVariable);
    assert_eq!(err.at, 0);
}

#[test]
fn types_read_words_unions_and_tuples() {
    let (_, t) = Aml3Type::visit(text("u8 ")).expect("type");
    assert_eq!(t, AmvmType::Primitive(AmvmPrimitiveType::U8));
    let (_, t) = Aml3Type::visit(text("#Point ")).expect("type");
    assert_eq!(t, AmvmType::Named("Point".to_string()));
    let (_, t) = Aml3Type::visit(text("# ")).expect("type");
    assert_eq!(t, AmvmType::Anonymous);
    let (rest, t) = Aml3Type::visit(text("+ string #A rest")).expect("type");
    assert_eq!(
        t,
        AmvmType::Union(
            Box::new(AmvmType::Primitive(AmvmPrimitiveType::String)),
            Box::new(AmvmType::Named("A".to_string()))
        )
    );
    assert_eq!(rest.pointer, 11);
    let (rest, t) = Aml3Type::visit(text("(u8, bool,#T)")).expect("type");
    assert_eq!(
        t,
        AmvmType::Tuple(vec![
            AmvmType::Primitive(AmvmPrimitiveType::U8),
            AmvmType::Primitive(AmvmPrimitiveType::Bool),
            AmvmType::Named("T".to_string()),
        ])
    );
    assert_eq!(rest.pointer, 13);
    let err = Aml3Type::visit(text("(u8")).unwrap_err();
    assert_eq!(err.fault, DecodeFault::UnclosedTuple);
}

#[test]
fn values_read_numbers_strings_chars_and_booleans() {
    assert_eq!(Aml3Value::visit(text("255u8")).expect("value").1, Value::U8(255));
    assert_eq!(Aml3Value::visit(text("300i16")).expect("value").1, Value::I16(300));
    assert_eq!(Aml3Value::visit(text("256u8")).unwrap_err().fault, DecodeFault::NumberOutOfRange);
    assert_eq!(Aml3Value::visit(text("12x")).unwrap_err().fault, DecodeFault::UnknownNumberSize);
    assert_eq!(
        Aml3Value::visit(text("\"a\\\"b\\n\\\\\" tail")).expect("value").1,
        Value::String("a\"b\n\\".to_string())
    );
    assert_eq!(
        Aml3Value::visit(text("\"open")).unwrap_err().fault,
        DecodeFault::UnterminatedString
    );
    assert_eq!(
        Aml3Value::visit(text("\"a\\q\"")).unwrap_err().fault,
        DecodeFault::InvalidEscapedChar
    );
    assert_eq!(Aml3Value::visit(text("'x'")).expect("value").1, Value::Char('x'));
    assert_eq!(Aml3Value::visit(text("'\\n'")).expect("value").1, Value::Char('\n'));
    assert_eq!(Aml3Value::visit(text("'\u{e9}'")).expect("value").1, Value::Char('\u{e9}'));
    assert_eq!(Aml3Value::visit(text("'x")).unwrap_err().fault, DecodeFault::UnterminatedChar);
    assert_eq!(Aml3Value::visit(text("true")).expect("value").1, Value::Bool(true));
    assert_eq!(Aml3Value::visit(text("false ")).expect("value").1, Value::Bool(false));
    assert_eq!(Aml3Value::visit(text("truth")).unwrap_err().fault, DecodeFault::ExpectedBool);
    assert_eq!(Aml3Value::visit(text("?")).unwrap_err().fault, DecodeFault::UnknownValue);
}

#[test]
fn expressions_put_the_operator_first() {
    let (rest, e) = Aml3Expr::visit(text("+ $i 1u8")).expect("expression");
    assert_eq!(
        e,
        CommandExpression::Binary(
            BinaryKind::Add,
            Box::new(CommandExpression::Var("i".to_string())),
            Box::new(CommandExpression::Value(Value::U8(1))),
        )
    );
    assert_eq!(rest.pointer, 8);
    let (_, e) = Aml3Expr::visit(text(">= $i 3u8")).expect("expression");
    assert!(matches!(e, CommandExpression::Binary(BinaryKind::GreaterThanEqual, _, _)));
    let (_, e) = Aml3Expr::visit(text("> $i 3u8")).expect("expression");
    assert!(matches!(e, CommandExpression::Binary(BinaryKind::GreaterThan, _, _)));
    let (_, e) = Aml3Expr::visit(text(".. 0u8 3u8")).expect("expression");
    assert!(matches!(e, CommandExpression::Range(_, _)));
    let (_, e) = Aml3Expr::visit(text(". $p \"x\"")).expect("expression");
    assert!(matches!(e, CommandExpression::Property(_, _)));
    let (_, e) = Aml3Expr::visit(text("_")).expect("expression");
    assert_eq!(e, CommandExpression::Prev);
    let (_, e) = Aml3Expr::visit(text("#Point { x 1u8 y 2u8 }")).expect("expression");
    assert_eq!(
        e,
        CommandExpression::Struct(
            AmvmType::Named("Point".to_string()),
            vec![
                ("x".to_string(), CommandExpression::Value(Value::U8(1))),
                ("y".to_string(), CommandExpression::Value(Value::U8(2))),
            ]
        )
    );
    assert_eq!(Aml3Expr::visit(text("=")).unwrap_err().fault, DecodeFault::ExpectedOperator);
    assert_eq!(Aml3Expr::visit(text("+ 1u8")).unwrap_err().fault, DecodeFault::ExpectedSpace);
}

#[test]
fn statements_read_keywords() {
    let (_, c) = Aml3Command::visit(text("@declare var $i 0u8"), false).expect("statement");
    assert_eq!(
        c,
        Command::DeclareVariable {
            name: "i".to_string(),
            kind: VariableKind::Var,
            value: CommandExpression::Value(Value::U8(0)),
        }
    );
    let (_, c) = Aml3Command::visit(text("@declare $x 5u8"), false).expect("statement");
    assert!(matches!(c, Command::DeclareVariable { kind: VariableKind::Const, .. }));
    let (_, c) = Aml3Command::visit(text("@break"), false).expect("statement");
    assert_eq!(c, Command::Break);
    let (_, c) = Aml3Command::visit(text("=$i + $i 1u8"), false).expect("statement");
    assert!(matches!(c, Command::AssignVariable { .. }));
    let (_, c) = Aml3Command::visit(text("@struct #Point { x u8 y u8 }"), false).expect("statement");
    assert_eq!(
        c,
        Command::Struct {
            name: "Point".to_string(),
            body: vec![
                ("x".to_string(), AmvmType::Primitive(AmvmPrimitiveType::U8)),
                ("y".to_string(), AmvmType::Primitive(AmvmPrimitiveType::U8)),
            ],
        }
    );
    let (_, c) =
        Aml3Command::visit(text("@fn u8 $add $a u8 mut $b u8 {\n@ret + $a $b\n}"), false).expect("fn");
    match c {
        Command::Function { name, args, ret, body } => {
            assert_eq!(name, "add");
            assert_eq!(ret, AmvmType::Primitive(AmvmPrimitiveType::U8));
            assert_eq!(args.len(), 2);
            assert_eq!(args[0].1, VariableKind::Const);
            assert_eq!(args[1].1, VariableKind::Mut);
            assert_eq!(body.len(), 1);
        },
        other => panic!("expected a function, got {:?}", other),
    }
    assert_eq!(
        Aml3Command::visit(text("@walk 1u8"), false).unwrap_err().fault,
        DecodeFault::UnknownCommand
    );
    assert_eq!(
        Aml3Command::visit(text("puts 1u8"), false).unwrap_err().fault,
        DecodeFault::ExpectedCommand
    );
    assert_eq!(
        Aml3Command::visit(text("@declare big $x 1u8"), false).unwrap_err().fault,
        DecodeFault::UnknownVariableKind
    );
    assert_eq!(
        Aml3Command::visit(text("@if true {\n} @other {\n}"), false).unwrap_err().fault,
        DecodeFault::ExpectedElse
    );
    assert_eq!(
        Aml3Command::visit(text("@loop {\n@break"), false).unwrap_err().fault,
        DecodeFault::UnclosedBlock
    );
}

#[test]
fn source_positions_and_comments() {
    let body = from_str("; a comment\n!! main.aml3\n! 3:4 @puts 1u8\n@puts 1u8\n").expect("parses");
    assert_eq!(
        body,
        vec![
            Command::MetaFile("main.aml3".to_string()),
            Command::Meta { pos: (3, 4), code: "@puts 1u8".to_string() },
            Command::Puts { value: CommandExpression::Value(Value::U8(1)) },
        ]
    );
    let marked = parse(b"@puts 1u8\n@puts 2u8", true).expect("parses");
    assert_eq!(marked.len(), 4);
    assert_eq!(marked[0], Command::Meta { pos: (0, 0), code: "@puts 1u8".to_string() });
    assert_eq!(marked[2], Command::Meta { pos: (1, 0), code: "@puts 2u8".to_string() });
}

#[test]
fn errors_name_line_and_column() {
    let err: Aml3Error = from_str("@puts 1u8\n@puts ?\n").unwrap_err();
    assert_eq!(err.description, "Unknown value");
    assert_eq!(err.at, 16);
    assert_eq!(err.line, 1);
    assert_eq!(err.column, 6);
    assert_eq!(err.context, "@puts ?");
    assert_eq!(err.text(), "Unknown value\n 2 | @puts ?\n . | ------^\n     at 2:7");
}

#[test]
fn source_loop_with_break_prints_012() {
    let source = "@declare var $i 0u8\n@loop {\n  @if >= $i 3u8 {\n    @break\n  }\n  @puts $i\n  =$i + $i 1u8\n}\n";
    let (output, result) = run_source(source);
    assert_eq!(result, Ok(Value::Null));
    assert_eq!(output, "012");
}

#[test]
fn source_for_over_range_prints_012() {
    let (output, result) = run_source("@for $v .. 0u8 3u8 {\n@puts $v\n}\n");
    assert_eq!(result, Ok(Value::Null));
    assert_eq!(output, "012");
}

#[test]
fn source_function_call_and_previous_result() {
    let source = "@fn u8 $twice $n u8 {\n@ret + $n $n\n}\n@call $twice 4u8\n@puts _\n";
    let (output, result) = run_source(source);
    assert_eq!(result, Ok(Value::Null));
    assert_eq!(output, "8");
}

#[test]
fn source_else_branch_runs() {
    let source = "@if == \"a\" \"b\" {\n@puts \"then\"\n} @else {\n@puts \"else\"\n}\n";
    let (output, result) = run_source(source);
    assert_eq!(result, Ok(Value::Null));
    assert_eq!(output, "else");
}

#[test]
fn evaluated_code_keeps_its_declarations_in_the_handle() {
    let source = "@builtin .vm.create\n@declare $vm _\n@builtin .vm.eval $vm \"@declare var $n 1u8\"\n@builtin .vm.eval $vm \"@puts + $n 1u8\"\n";
    let (output, result) = run_source(source);
    assert_eq!(result, Ok(Value::Null));
    assert_eq!(output, "2");
}

#[test]
fn source_positions_need_line_and_column() {
    assert_eq!(from_str("! x:1 code\n").unwrap_err().description, "Expected a number");
    assert_eq!(from_str("! 1 code\n").unwrap_err().description, "Expected ':'");
    assert_eq!(from_str("! 70000:1 code\n").unwrap_err().description, "Number out of range");
    assert_eq!(from_str("!!name\n").unwrap_err().description, "Expected a space");
    assert_eq!(parse(b"@puts ", false).unwrap_err().fault, DecodeFault::ExpectedOperator);
    assert_eq!(parse(b"@call $f\n", false).expect("parses").len(), 1);
    assert_eq!(parse(b"@fn u8 $f{\n}", false).unwrap_err().fault, DecodeFault::ExpectedSpace);
    assert_eq!(parse(b"@for $v .. 0u8 1u8 x", false).unwrap_err().fault, DecodeFault::ExpectedBlock);
}
