use amvm::parser::Parser;
use amvm::runtime::Runtime;
use amvm::runtime::error::AmvmFault;
use amvm::runtime::result::AmvmPropagate;
use amvm::tokens::command::Command;
use amvm::tokens::expr::BinaryKind;
use amvm::tokens::expr::CommandExpression;
use amvm::tokens::header::AmvmHeader;
use amvm::tokens::header::AmvmTypeCasting;
use amvm::tokens::kind::VariableKind;
use amvm::tokens::program::Program;
use amvm::tokens::types::AmvmPrimitiveType;
use amvm::tokens::types::AmvmType;
use amvm::tokens::value::Value;
use amvm::utils::Compilable;

fn var(name: &str) -> CommandExpression {
    CommandExpression::Var(name.to_string())
}

fn u8_lit(n: u8) -> CommandExpression {
    CommandExpression::Value(Value::U8(n))
}

fn header() -> AmvmHeader {
    AmvmHeader { sum_kind: AmvmTypeCasting::Strict }
}

fn run(body: Vec<Command>) -> (Runtime, Result<Value, AmvmPropagate>) {
    let mut runtime = Program::new(header(), body).runtime("test".to_string());
    let result = runtime.run();
    (runtime, result)
}

fn fault_of(result: Result<Value, AmvmPropagate>) -> AmvmFault {
    match result {
        Err(AmvmPropagate::Error(e)) => e.fault(),
        other => panic!("expected an error, got {:?}", other),
    }
}

#[test]
fn declare_and_puts_through_bytecode() {
    let program = Program::new(
        header(),
        vec![
            Command::DeclareVariable {
                name: "x".to_string(),
                kind: VariableKind::Const,
                value: u8_lit(5),
            },
            Command::Puts { value: var("x") },
        ],
    );
    let bytes = program.compile_bytecode(Vec::new()).expect("program can be written");
    let (rest, decoded) = Program::visit(Parser::new(&bytes, true)).expect("program decodes");
    assert_eq!(rest.pointer, bytes.len());
    assert_eq!(decoded, program);
    let mut runtime = decoded.runtime("x.amvm".to_string());
    assert_eq!(runtime.run(), Ok(Value::Null));
    assert_eq!(runtime.machine.output, "5");
}

#[test]
fn loop_with_break_prints_012() {
    let body = vec![
        Command::DeclareVariable { name: "i".to_string(), kind: VariableKind::Var, value: u8_lit(0) },
        Command::Loop {
            body: vec![
                Command::Conditional {
                    condition: CommandExpression::Binary(
                        BinaryKind::GreaterThanEqual,
                        Box::new(var("i")),
                        Box::new(u8_lit(3)),
                    ),
                    body: vec![Command::Break],
                    otherwise: None,
                },
                Command::Puts { value: var("i") },
                Command::AssignVariable {
                    name: "i".to_string(),
                    value: CommandExpression::Binary(
                        BinaryKind::Add,
                        Box::new(var("i")),
                        Box::new(u8_lit(1)),
                    ),
                },
            ],
        },
    ];
    let (runtime, result) = run(body);
    assert_eq!(result, Ok(Value::Null));
    assert_eq!(runtime.machine.output, "012");
}

#[test]
fn for_over_range_prints_012() {
    let body = vec![Command::For {
        var: "v".to_string(),
        iterator: CommandExpression::Range(Box::new(u8_lit(0)), Box::new(u8_lit(3))),
        body: vec![Command::Puts { value: var("v") }],
    }];
    let (runtime, result) = run(body);
    assert_eq!(result, Ok(Value::Null));
    assert_eq!(runtime.machine.output, "012");
}

#[test]
fn descending_range_counts_down() {
    let body = vec![Command::For {
        var: "v".to_string(),
        iterator: CommandExpression::Range(
            Box::new(CommandExpression::Value(Value::I16(1))),
            Box::new(CommandExpression::Value(Value::I16(-2))),
        ),
        body: vec![Command::Puts { value: var("v") }],
    }];
    let (runtime, result) = run(body);
    assert_eq!(result, Ok(Value::Null));
    assert_eq!(runtime.machine.output, "10-1");
}

#[test]
fn call_of_undeclared_function_is_an_error() {
    let body = vec![Command::Call { name: var("missing"), args: vec![] }];
    let (_, result) = run(body);
    assert_eq!(fault_of(result), AmvmFault::UndefinedVariable);
}

#[test]
fn call_of_a_non_function_is_an_error() {
    let body = vec![
        Command::DeclareVariable { name: "f".to_string(), kind: VariableKind::Const, value: u8_lit(1) },
        Command::Call { name: var("f"), args: vec![] },
    ];
    let (_, result) = run(body);
    assert_eq!(fault_of(result), AmvmFault::NotCallable);
}

#[test]
fn struct_field_reads_back() {
    let point = AmvmType::Named("Point".to_string());
    let body = vec![
        Command::Struct {
            name: "Point".to_string(),
            body: vec![
                ("x".to_string(), AmvmType::Primitive(AmvmPrimitiveType::U8)),
                ("y".to_string(), AmvmType::Primitive(AmvmPrimitiveType::U8)),
            ],
        },
        Command::DeclareVariable {
            name: "p".to_string(),
            kind: VariableKind::Const,
            value: CommandExpression::Struct(
                point,
                vec![("x".to_string(), u8_lit(1)), ("y".to_string(), u8_lit(2))],
            ),
        },
        Command::Return {
            value: CommandExpression::Property(
                Box::new(var("p")),
                Box::new(CommandExpression::Value(Value::String("x".to_string()))),
            ),
        },
    ];
    let (_, result) = run(body);
    assert_eq!(result, Err(AmvmPropagate::Return(Value::U8(1))));
}

#[test]
fn u8_addition_overflow_is_an_error() {
    let body = vec![Command::Puts {
        value: CommandExpression::Binary(BinaryKind::Add, Box::new(u8_lit(250)), Box::new(u8_lit(10))),
    }];
    let (runtime, result) = run(body);
    assert_eq!(fault_of(result), AmvmFault::ArithmeticOverflow);
    assert_eq!(runtime.machine.output, "");
}

#[test]
fn string_addition_joins() {
    let body = vec![Command::Return {
        value: CommandExpression::Binary(
            BinaryKind::Add,
            Box::new(CommandExpression::Value(Value::String("a".to_string()))),
            Box::new(CommandExpression::Value(Value::String("b".to_string()))),
        ),
    }];
    let (_, result) = run(body);
    assert_eq!(result, Err(AmvmPropagate::Return(Value::String("ab".to_string()))));
}
