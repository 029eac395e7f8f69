use amvm::runtime::Runtime;
use amvm::runtime::commands::call;
use amvm::runtime::error::AmvmError;
use amvm::runtime::error::AmvmFault;
use amvm::runtime::expr::addition::eval_strict;
use amvm::runtime::expr::binary_op::BinaryOpKind;
use amvm::runtime::expr::binary_op::eval_post;
use amvm::runtime::expr::cond::eval_compare;
use amvm::runtime::expr::property::get;
use amvm::runtime::machine::Machine;
use amvm::runtime::result::AmvmPropagate;
use amvm::tokens::command::Command;
use amvm::tokens::expr::BinaryKind;
use amvm::tokens::expr::CommandExpression;
use amvm::tokens::header::AmvmHeader;
use amvm::tokens::header::AmvmTypeCasting;
use amvm::tokens::kind::VariableKind;
use amvm::tokens::program::Program;
use amvm::tokens::scope::AmvmMeta;
use amvm::tokens::scope::AmvmScope;
use amvm::tokens::types::AmvmPrimitiveType;
use amvm::tokens::types::AmvmType;
use amvm::tokens::value::AmvmVariable;
use amvm::tokens::value::Value;
use amvm::tokens::value::ValueFun;
use amvm::tokens::value::ValueObject;

fn var(name: &str) -> CommandExpression {
    CommandExpression::Var(name.to_string())
}

fn lit(v: Value) -> CommandExpression {
    CommandExpression::Value(v)
}

fn text(s: &str) -> CommandExpression {
    lit(Value::String(s.to_string()))
}

fn declare(name: &str, kind: VariableKind, value: CommandExpression) -> Command {
    Command::DeclareVariable { name: name.to_string(), kind, value }
}

fn assign(name: &str, value: CommandExpression) -> Command {
    Command::AssignVariable { name: name.to_string(), value }
}

fn puts(value: CommandExpression) -> Command {
    Command::Puts { value }
}

fn binary(kind: BinaryKind, a: CommandExpression, b: CommandExpression) -> CommandExpression {
    CommandExpression::Binary(kind, Box::new(a), Box::new(b))
}

fn machine_with(casting: AmvmTypeCasting, body: Vec<Command>) -> Runtime {
    Program::new(AmvmHeader { sum_kind: casting }, body).runtime("test".to_string())
}

fn run(body: Vec<Command>) -> (Runtime, Result<Value, AmvmPropagate>) {
    let mut runtime = machine_with(AmvmTypeCasting::Strict, body);
    let result = runtime.run();
    (runtime, result)
}

fn fault_of(result: Result<Value, AmvmPropagate>) -> AmvmFault {
    match result {
        Err(AmvmPropagate::Error(e)) => e.fault(),
        other => panic!("expected an error, got {:?}", other),
    }
}

fn scope() -> AmvmScope {
    AmvmScope::new("test".to_string(), 0)
}

#[test]
fn declaration_in_a_block_is_gone_behind_it() {
    let body = vec![
        Command::Scope { body: vec![declare("x", VariableKind::Const, lit(Value::U8(1)))] },
        puts(var("x")),
    ];
    let (runtime, result) = run(body);
    assert_eq!(fault_of(result), AmvmFault::UndefinedVariable);
    assert_eq!(runtime.machine.output, "");
}

#[test]
fn shadowing_in_a_block_leaves_the_outer_binding() {
    let body = vec![
        declare("x", VariableKind::Const, lit(Value::U8(1))),
        Command::Scope {
            body: vec![declare("x", VariableKind::Const, lit(Value::U8(2))), puts(var("x"))],
        },
        puts(var("x")),
    ];
    let (runtime, result) = run(body);
    assert_eq!(result, Ok(Value::Null));
    assert_eq!(runtime.machine.output, "21");
}

#[test]
fn a_block_sees_and_assigns_outer_variables() {
    let body = vec![
        declare("x", VariableKind::Mut, lit(Value::U8(1))),
        Command::Scope { body: vec![assign("x", lit(Value::U8(7)))] },
        puts(var("x")),
    ];
    let (runtime, result) = run(body);
    assert_eq!(result, Ok(Value::Null));
    assert_eq!(runtime.machine.output, "7");
}

#[test]
fn assignment_to_const_and_let_fails() {
    for kind in [VariableKind::Const, VariableKind::Let] {
        let body = vec![declare("x", kind, lit(Value::U8(1))), assign("x", lit(Value::U8(2)))];
        let (_, result) = run(body);
        assert_eq!(fault_of(result), AmvmFault::ImmutableAssignment);
    }
}

#[test]
fn assignment_to_mut_and_var_is_seen_through_a_reference() {
    for kind in [VariableKind::Mut, VariableKind::Var] {
        let body = vec![
            declare("x", kind, lit(Value::U8(1))),
            declare("alias", VariableKind::Const, CommandExpression::Ref(kind, Box::new(var("x")))),
            assign("x", lit(Value::U8(9))),
            puts(var("alias")),
            puts(var("x")),
        ];
        let (runtime, result) = run(body);
        assert_eq!(result, Ok(Value::Null));
        assert_eq!(runtime.machine.output, "99");
    }
}

#[test]
fn assignment_to_an_unknown_name_is_an_error() {
    let (_, result) = run(vec![assign("nowhere", lit(Value::U8(1)))]);
    assert_eq!(fault_of(result), AmvmFault::UndefinedVariable);
}

#[test]
fn break_in_nested_conditionals_ends_one_loop() {
    let inner = Command::Loop {
        body: vec![
            puts(text("i")),
            Command::Conditional {
                condition: lit(Value::Bool(true)),
                body: vec![Command::Conditional {
                    condition: lit(Value::Bool(false)),
                    body: vec![],
                    otherwise: Some(vec![Command::Break]),
                }],
                otherwise: None,
            },
            puts(text("never")),
        ],
    };
    let body = vec![
        declare("n", VariableKind::Var, lit(Value::U8(0))),
        Command::Loop {
            body: vec![
                Command::Conditional {
                    condition: binary(BinaryKind::GreaterThanEqual, var("n"), lit(Value::U8(2))),
                    body: vec![Command::Break],
                    otherwise: None,
                },
                inner,
                puts(text("o")),
                assign("n", binary(BinaryKind::Add, var("n"), lit(Value::U8(1)))),
            ],
        },
        puts(text("end")),
    ];
    let (runtime, result) = run(body);
    assert_eq!(result, Ok(Value::Null));
    assert_eq!(runtime.machine.output, "ioioend");
}

#[test]
fn return_in_nested_blocks_ends_the_call() {
    let body = vec![
        Command::Function {
            name: "f".to_string(),
            args: vec![],
            ret: AmvmType::Primitive(AmvmPrimitiveType::U8),
            body: vec![
                Command::Loop {
                    body: vec![Command::Scope {
                        body: vec![Command::Return { value: lit(Value::U8(4)) }],
                    }],
                },
                puts(text("never")),
            ],
        },
        Command::Call { name: var("f"), args: vec![] },
        puts(CommandExpression::Prev),
        puts(text("after")),
    ];
    let (runtime, result) = run(body);
    assert_eq!(result, Ok(Value::Null));
    assert_eq!(runtime.machine.output, "4after");
}

#[test]
fn break_and_return_at_the_top_come_out() {
    let (_, result) = run(vec![Command::Break]);
    assert_eq!(result, Err(AmvmPropagate::Break));
    let (_, result) = run(vec![Command::Return { value: lit(Value::Null) }]);
    assert_eq!(result, Err(AmvmPropagate::Return(Value::Null)));
}

#[test]
fn strict_addition_by_type() {
    let sc = scope();
    assert_eq!(eval_strict(&sc, &Value::U8(250), &Value::U8(5)), Ok(Value::U8(255)));
    assert_eq!(
        fault_of(eval_strict(&sc, &Value::U8(250), &Value::U8(10))),
        AmvmFault::ArithmeticOverflow
    );
    assert_eq!(eval_strict(&sc, &Value::I16(-32768), &Value::I16(1)), Ok(Value::I16(-32767)));
    assert_eq!(
        fault_of(eval_strict(&sc, &Value::I16(32767), &Value::I16(1))),
        AmvmFault::ArithmeticOverflow
    );
    assert_eq!(eval_strict(&sc, &Value::Null, &Value::Null), Ok(Value::Null));
    assert_eq!(
        eval_strict(&sc, &Value::String("a".into()), &Value::String("b".into())),
        Ok(Value::String("ab".into()))
    );
    assert_eq!(fault_of(eval_strict(&sc, &Value::U8(1), &Value::I16(1))), AmvmFault::TypeMismatch);
    assert_eq!(
        fault_of(eval_strict(&sc, &Value::F32("1.5".into()), &Value::F32("2".into()))),
        AmvmFault::FloatUnsupported
    );
}

#[test]
fn subtraction_multiplication_and_division_are_checked() {
    let sc = scope();
    assert_eq!(eval_post(&sc, BinaryOpKind::Sub, &Value::U8(5), &Value::U8(3)), Ok(Value::U8(2)));
    assert_eq!(
        fault_of(eval_post(&sc, BinaryOpKind::Sub, &Value::U8(3), &Value::U8(5))),
        AmvmFault::ArithmeticOverflow
    );
    assert_eq!(eval_post(&sc, BinaryOpKind::Mult, &Value::U8(15), &Value::U8(17)), Ok(Value::U8(255)));
    assert_eq!(
        fault_of(eval_post(&sc, BinaryOpKind::Mult, &Value::U8(16), &Value::U8(16))),
        AmvmFault::ArithmeticOverflow
    );
    assert_eq!(
        eval_post(&sc, BinaryOpKind::Mult, &Value::I16(-4), &Value::I16(5)),
        Ok(Value::I16(-20))
    );
    assert_eq!(eval_post(&sc, BinaryOpKind::Div, &Value::I16(-7), &Value::I16(2)), Ok(Value::I16(-3)));
    assert_eq!(
        fault_of(eval_post(&sc, BinaryOpKind::Div, &Value::U8(7), &Value::U8(0))),
        AmvmFault::DivisionByZero
    );
    assert_eq!(
        fault_of(eval_post(&sc, BinaryOpKind::Div, &Value::I16(-32768), &Value::I16(-1))),
        AmvmFault::ArithmeticOverflow
    );
    assert_eq!(
        fault_of(eval_post(&sc, BinaryOpKind::Sub, &Value::Bool(true), &Value::U8(1))),
        AmvmFault::TypeMismatch
    );
}

#[test]
fn comparisons_by_kind_and_type() {
    let sc = scope();
    let t = Ok(Value::Bool(true));
    let f = Ok(Value::Bool(false));
    assert_eq!(eval_compare(&sc, BinaryKind::GreaterThan, &Value::U8(3), &Value::U8(2)), t);
    assert_eq!(eval_compare(&sc, BinaryKind::GreaterThan, &Value::U8(2), &Value::U8(2)), f);
    assert_eq!(eval_compare(&sc, BinaryKind::GreaterThanEqual, &Value::U8(2), &Value::U8(2)), t);
    assert_eq!(eval_compare(&sc, BinaryKind::LessThan, &Value::I16(-1), &Value::I16(0)), t);
    assert_eq!(eval_compare(&sc, BinaryKind::LessThanEqual, &Value::I16(1), &Value::I16(0)), f);
    assert_eq!(
        eval_compare(&sc, BinaryKind::Equal, &Value::String("a".into()), &Value::String("a".into())),
        t
    );
    assert_eq!(eval_compare(&sc, BinaryKind::Equal, &Value::Bool(true), &Value::Bool(false)), f);
    assert_eq!(
        eval_compare(&sc, BinaryKind::NotEqual, &Value::String("a".into()), &Value::String("b".into())),
        t
    );
    assert_eq!(
        eval_compare(&sc, BinaryKind::NotEqual, &Value::String("a".into()), &Value::U8(1)),
        f
    );
    assert_eq!(
        fault_of(eval_compare(&sc, BinaryKind::Equal, &Value::U8(1), &Value::U8(1))),
        AmvmFault::TypeMismatch
    );
    assert_eq!(
        fault_of(eval_compare(&sc, BinaryKind::LessThan, &Value::U8(1), &Value::I16(1))),
        AmvmFault::TypeMismatch
    );
}

#[test]
fn properties_of_strings_and_objects() {
    let mut vm = Machine::new(AmvmTypeCasting::Strict, vec![]);
    let sc = scope();
    let s = Value::String("h\u{e9}llo".to_string());
    assert_eq!(get(&vm, &sc, &s, &Value::String("length".into())), Ok(Value::U8(6)));
    assert_eq!(get(&vm, &sc, &s, &Value::String("size".into())), Ok(Value::Null));
    assert_eq!(get(&vm, &sc, &s, &Value::U8(1)), Ok(Value::String("\u{e9}".into())));
    assert_eq!(get(&vm, &sc, &s, &Value::U8(5)), Ok(Value::Null));
    assert_eq!(fault_of(get(&vm, &sc, &s, &Value::Bool(true))), AmvmFault::TypeMismatch);
    let cell = vm.allocate(Value::U8(7));
    let object = Value::Object(ValueObject::PropertyMap(vec![("a".to_string(), cell)]));
    assert_eq!(get(&vm, &sc, &object, &Value::String("a".into())), Ok(Value::U8(7)));
    assert_eq!(get(&vm, &sc, &object, &Value::String("b".into())), Ok(Value::Null));
    assert_eq!(fault_of(get(&vm, &sc, &object, &Value::U8(0))), AmvmFault::ObjectKeyNotString);
    let native = Value::Object(ValueObject::Native(0));
    assert_eq!(fault_of(get(&vm, &sc, &native, &Value::String("a".into()))), AmvmFault::NativeObject);
    assert_eq!(fault_of(get(&vm, &sc, &Value::U8(1), &Value::U8(0))), AmvmFault::TypeMismatch);
}

#[test]
fn mixed_addition_joins_text_under_the_lenient_policy() {
    let body = vec![puts(binary(BinaryKind::Add, text("n="), lit(Value::I16(-12))))];
    let mut runtime = machine_with(AmvmTypeCasting::TypeCastingStrictlessString, body);
    assert_eq!(runtime.run(), Ok(Value::Null));
    assert_eq!(runtime.machine.output, "n=-12");
    let body = vec![puts(binary(BinaryKind::Add, text("n="), lit(Value::I16(-12))))];
    let (_, result) = run(body);
    assert_eq!(fault_of(result), AmvmFault::TypeMismatch);
    let body = vec![puts(binary(BinaryKind::Add, lit(Value::U8(1)), lit(Value::U8(1))))];
    let mut runtime = machine_with(AmvmTypeCasting::TypeCastingString, body);
    assert_eq!(fault_of(runtime.run()), AmvmFault::CastingUnsupported);
}

#[test]
fn condition_must_be_boolean() {
    let body = vec![Command::Conditional {
        condition: lit(Value::U8(1)),
        body: vec![],
        otherwise: None,
    }];
    let (_, result) = run(body);
    assert_eq!(fault_of(result), AmvmFault::ConditionNotBool);
}

#[test]
fn parameters_alias_or_copy_by_kind() {
    let set = |kind: VariableKind| {
        vec![
            Command::Function {
                name: "set".to_string(),
                args: vec![("p".to_string(), kind, AmvmType::Primitive(AmvmPrimitiveType::U8))],
                ret: AmvmType::Anonymous,
                body: vec![
                    Command::Conditional {
                        condition: lit(Value::Bool(kind != VariableKind::Const)),
                        body: vec![assign("p", lit(Value::U8(9)))],
                        otherwise: None,
                    },
                    puts(var("p")),
                ],
            },
            declare("x", VariableKind::Var, lit(Value::U8(1))),
            Command::Call { name: var("set"), args: vec![var("x")] },
            puts(var("x")),
        ]
    };
    let (runtime, result) = run(set(VariableKind::Mut));
    assert_eq!(result, Ok(Value::Null));
    assert_eq!(runtime.machine.output, "99");
    let (runtime, result) = run(set(VariableKind::Const));
    assert_eq!(result, Ok(Value::Null));
    assert_eq!(runtime.machine.output, "11");
}

#[test]
fn argument_stricter_than_its_parameter_is_refused() {
    let body = vec![
        Command::Function {
            name: "f".to_string(),
            args: vec![("p".to_string(), VariableKind::Mut, AmvmType::Anonymous)],
            ret: AmvmType::Anonymous,
            body: vec![],
        },
        declare("x", VariableKind::Let, lit(Value::U8(1))),
        Command::Call { name: var("f"), args: vec![var("x")] },
    ];
    let (_, result) = run(body);
    assert_eq!(fault_of(result), AmvmFault::KindMismatch);
}

#[test]
fn call_without_fuel_fails() {
    let mut vm = Machine::new(AmvmTypeCasting::Strict, vec![]);
    let root = vm.open_context(None);
    let sc = AmvmScope::new("test".to_string(), root);
    let fun = ValueFun::Const(vec![], AmvmType::Anonymous, vec![]);
    assert_eq!(fault_of(call(&mut vm, &sc, &fun, &vec![], 0)), AmvmFault::OutOfFuel);
    assert_eq!(call(&mut vm, &sc, &fun, &vec![], 1), Ok(Value::Null));
}

#[test]
fn endless_loop_runs_out_of_fuel() {
    let mut runtime = machine_with(AmvmTypeCasting::Strict, vec![Command::Loop { body: vec![] }]);
    runtime.fuel = 50;
    assert_eq!(fault_of(runtime.run()), AmvmFault::OutOfFuel);
    assert_eq!(runtime.machine.contexts.len(), 51);
}

#[test]
fn push_and_previous_result() {
    let body = vec![
        Command::Push { value: lit(Value::U8(1)) },
        Command::Push { value: lit(Value::U8(2)) },
        puts(CommandExpression::Prev),
        puts(CommandExpression::Prev),
        puts(CommandExpression::Prev),
    ];
    let (runtime, result) = run(body);
    assert_eq!(fault_of(result), AmvmFault::NoPreviousValue);
    assert_eq!(runtime.machine.output, "21");
}

#[test]
fn previous_results_are_bounded() {
    let mut body = Vec::new();
    for _ in 0..256 {
        body.push(Command::Push { value: lit(Value::Null) });
    }
    let (runtime, result) = run(body);
    assert_eq!(fault_of(result), AmvmFault::PreviousOverflow);
    assert_eq!(runtime.machine.contexts[0].prev.len(), 255);
}

#[test]
fn builtins_read_lines_and_replace_memory() {
    let body = vec![
        declare("line", VariableKind::Var, text("")),
        Command::Builtin { name: ".io.stdin.read_line".to_string(), args: vec![var("line")] },
        puts(var("line")),
        Command::Builtin { name: ".io.stdin.read_line".to_string(), args: vec![var("line")] },
        puts(var("line")),
        Command::Builtin {
            name: ".mem.replace".to_string(),
            args: vec![var("line"), text("!")],
        },
        puts(var("line")),
        Command::Builtin { name: ".io.stdout.flush".to_string(), args: vec![] },
    ];
    let mut runtime = machine_with(AmvmTypeCasting::Strict, body);
    runtime.machine.input = vec!["first".to_string()];
    assert_eq!(runtime.run(), Ok(Value::Null));
    assert_eq!(runtime.machine.output, "first!");
}

#[test]
fn builtins_check_their_arguments() {
    let cases = vec![
        (".io.stdin.read_line", vec![], AmvmFault::MissingArgument),
        (".io.stdin.read_line", vec![text("x")], AmvmFault::NotAVariable),
        (".mem.replace", vec![text("x")], AmvmFault::MissingArgument),
        (".mem.replace", vec![text("x"), text("y")], AmvmFault::NotMutable),
        (".obj.mut_access", vec![text("x"), text("y")], AmvmFault::NotMutable),
        (".vm.eval", vec![text("x"), text("y")], AmvmFault::NotAVariable),
        (".no.such", vec![], AmvmFault::UnknownBuiltin),
    ];
    for (name, args, fault) in cases {
        let (_, result) = run(vec![Command::Builtin { name: name.to_string(), args }]);
        assert_eq!(fault_of(result), fault, "{}", name);
    }
}

#[test]
fn evaluation_of_source_checks_handle_and_code() {
    let create = Command::Builtin { name: ".vm.create".to_string(), args: vec![] };
    let eval = |args| Command::Builtin { name: ".vm.eval".to_string(), args };
    let body = vec![
        declare("n", VariableKind::Const, lit(Value::U8(1))),
        eval(vec![var("n"), text("@puts 1u8")]),
    ];
    assert_eq!(fault_of(run(body).1), AmvmFault::BadHandle);
    let body = vec![
        create,
        declare("vm", VariableKind::Const, CommandExpression::Prev),
        eval(vec![var("vm"), lit(Value::U8(1))]),
    ];
    assert_eq!(fault_of(run(body).1), AmvmFault::CodeNotString);
    let body = vec![
        Command::Builtin { name: ".vm.create".to_string(), args: vec![] },
        declare("vm", VariableKind::Const, CommandExpression::Prev),
        eval(vec![var("vm"), text("@nonsense")]),
    ];
    assert_eq!(fault_of(run(body).1), AmvmFault::FrontEnd);
}

#[test]
fn mutable_access_to_a_field_aliases_it() {
    let point = AmvmType::Named("Point".to_string());
    let body = vec![
        declare(
            "p",
            VariableKind::Mut,
            CommandExpression::Struct(point, vec![("x".to_string(), lit(Value::U8(1)))]),
        ),
        Command::Builtin { name: ".obj.mut_access".to_string(), args: vec![var("p"), text("x")] },
        Command::Builtin {
            name: ".mem.replace".to_string(),
            args: vec![CommandExpression::Prev, lit(Value::U8(5))],
        },
        puts(CommandExpression::Property(Box::new(var("p")), Box::new(text("x")))),
        Command::Builtin { name: ".obj.mut_access".to_string(), args: vec![var("p"), text("y")] },
    ];
    let (runtime, result) = run(body);
    assert_eq!(fault_of(result), AmvmFault::PropertyNotFound);
    assert_eq!(runtime.machine.output, "5");
}

#[test]
fn range_sides_must_be_numbers_of_one_type() {
    let range = |a, b| {
        vec![Command::For {
            var: "v".to_string(),
            iterator: CommandExpression::Range(Box::new(lit(a)), Box::new(lit(b))),
            body: vec![],
        }]
    };
    assert_eq!(fault_of(run(range(Value::Null, Value::U8(1))).1), AmvmFault::NullNotIterable);
    assert_eq!(fault_of(run(range(Value::U8(1), Value::I16(1))).1), AmvmFault::RangeSidesDiffer);
    assert_eq!(fault_of(run(range(Value::Bool(true), Value::U8(1))).1), AmvmFault::RangeNotNumber);
    assert_eq!(
        fault_of(run(range(Value::F32("0".into()), Value::F32("1".into()))).1),
        AmvmFault::FloatUnsupported
    );
}

#[test]
fn for_needs_an_iterator() {
    let body = vec![Command::For { var: "v".to_string(), iterator: text("abc"), body: vec![] }];
    assert_eq!(fault_of(run(body).1), AmvmFault::IteratorNextNotFunction);
}

#[test]
fn outputs_show_values_as_text() {
    let body = vec![
        puts(lit(Value::Null)),
        puts(lit(Value::Bool(true))),
        puts(lit(Value::Char('c'))),
        puts(lit(Value::I16(-7))),
        puts(lit(Value::F32("1.5".to_string()))),
        puts(lit(Value::U8(200))),
    ];
    let (runtime, result) = run(body);
    assert_eq!(result, Ok(Value::Null));
    assert_eq!(runtime.machine.output, "undefinedtruec-71.5200");
}

#[test]
fn values_as_default_text() {
    assert_eq!(Value::Null.to_string_or_default(), "null");
    assert_eq!(Value::U8(0).to_string_or_default(), "0");
    assert_eq!(Value::I16(-32768).to_string_or_default(), "-32768");
    assert_eq!(Value::I16(1205).to_string_or_default(), "1205");
    assert_eq!(Value::Char('\u{e9}').to_string_or_default(), "\u{e9}");
    assert_eq!(Value::Ref(AmvmVariable::Mut(0)).to_string_or_default(), "[Reference]");
    assert_eq!(
        Value::Object(ValueObject::Native(0x2a)).to_string_or_default(),
        "[Object 0x0000002a]"
    );
    let fun = ValueFun::Const(
        vec![
            ("a".to_string(), VariableKind::Const, AmvmType::Primitive(AmvmPrimitiveType::U8)),
            ("b".to_string(), VariableKind::Mut, AmvmType::Named("T".to_string())),
        ],
        AmvmType::Anonymous,
        vec![],
    );
    assert_eq!(Value::Fun(fun).to_string_or_default(), "[Function (Const a: #u8, Mut b: #T) #]");
    let object = ValueObject::Instance(
        AmvmType::Named("P".to_string()),
        vec![("x".to_string(), 0), ("y".to_string(), 1)],
    );
    assert_eq!(Value::Object(object).to_string_or_default(), "#P {x, y}");
}

#[test]
fn flat_names_of_types() {
    let t = AmvmType::Fun(
        vec![AmvmType::Named("Iterator".to_string()), AmvmType::Anonymous],
        Box::new(AmvmType::Tuple(vec![
            AmvmType::Primitive(AmvmPrimitiveType::Bool),
            AmvmType::Primitive(AmvmPrimitiveType::String),
        ])),
    );
    assert_eq!(t.flat_name(), "#Fun(#Iterator, #) -> #(#bool,#string)");
    let union = AmvmType::Union(
        Box::new(AmvmType::Primitive(AmvmPrimitiveType::U8)),
        Box::new(AmvmType::Named("A".to_string())),
    );
    assert_eq!(union.flat_name(), "#u8#A");
    assert_eq!(AmvmType::flat_name_args(&vec![]), "");
    assert_eq!(AmvmType::flat_name_args(&vec![AmvmType::Anonymous, union]), "#, #u8#A");
    let mut out = "x:".to_string();
    AmvmType::fmt_args(&vec![AmvmType::Anonymous], &mut out);
    assert_eq!(out, "x:#");
}

#[test]
fn errors_carry_the_positions_that_led_to_them() {
    let body = vec![
        Command::MetaFile("main.aml3".to_string()),
        Command::Function {
            name: "f".to_string(),
            args: vec![],
            ret: AmvmType::Anonymous,
            body: vec![
                Command::Meta { pos: (7, 2), code: "@puts $nope".to_string() },
                puts(var("nope")),
            ],
        },
        Command::Meta { pos: (9, 0), code: "@call $f".to_string() },
        Command::Call { name: var("f"), args: vec![] },
    ];
    let (runtime, result) = run(body);
    let error = match result {
        Err(AmvmPropagate::Error(e)) => e,
        other => panic!("expected an error, got {:?}", other),
    };
    let AmvmError::Other(trace, fault) = &error;
    assert_eq!(*fault, AmvmFault::UndefinedVariable);
    let positions: Vec<(u16, u16)> = trace.iter().map(|m: &AmvmMeta| m.pos).collect();
    assert_eq!(positions, vec![(7, 2), (9, 0)]);
    assert_eq!(runtime.scope.meta, None);
    let shown = error.render(false);
    assert!(shown.starts_with("\x1b[1;31merror:\x1b[0;1m Variable is not defined\x1b[0m\n"));
    assert!(shown.contains("--> test:7:2"));
    assert!(shown.contains("  7 | \x1b[0m@puts $nope\n"));
    assert!(shown.contains("    |   ^\n"));
    assert!(shown.contains("--> test:9:0"));
}

#[test]
fn position_of_a_long_line_shows_a_window() {
    let code: String = ('a'..='z').chain('A'..='Z').collect();
    let meta = AmvmMeta {
        file_name: (Some("prog".to_string()), Some("src.aml3".to_string())),
        pos: (12, 30),
        code,
        alternative: None,
    };
    let shown = meta.display(false, true);
    let expected = "\x1b[1;34m> --> src.aml3:12:30\x1b[0m\n\
        \x1b[1;34m>   12 | \x1b[0m\x1b[1;34m...\x1b[0mklmnopqrstuvwxyzABCDEFGHIJKLMNOPQRSTUVWX\x1b[1;34m...\x1b[0m\n\
        \x1b[1;34m>      |                        ^\n";
    assert_eq!(shown, expected);
    let short = AmvmMeta { file_name: (None, None), pos: (1, 3), code: "abcdef".into(), alternative: None };
    assert_eq!(
        short.display(true, false),
        "\x1b[1;34m--> <anonymous>:1:3\x1b[0m\n\x1b[1;34m  1 | \x1b[0mabcdef\n\x1b[1;34m    |    ^\n"
    );
}

fn counter(next_body: Vec<Command>) -> Vec<Command> {
    vec![
        Command::Function {
            name: "step".to_string(),
            args: vec![("self".to_string(), VariableKind::Mut, AmvmType::Anonymous)],
            ret: AmvmType::Anonymous,
            body: next_body,
        },
        declare(
            "it",
            VariableKind::Mut,
            CommandExpression::Struct(
                AmvmType::Named("Iterator".to_string()),
                vec![("value".to_string(), text("a")), ("next".to_string(), var("step"))],
            ),
        ),
        Command::For { var: "v".to_string(), iterator: var("it"), body: vec![puts(var("v"))] },
    ]
}

#[test]
fn for_runs_a_declared_iterator() {
    let done = |flag: bool| {
        Command::Return {
            value: CommandExpression::Struct(
                AmvmType::Named("IteratorResult".to_string()),
                vec![("done".to_string(), lit(Value::Bool(flag)))],
            ),
        }
    };
    let next = vec![
        Command::Conditional {
            condition: binary(
                BinaryKind::Equal,
                CommandExpression::Property(Box::new(var("self")), Box::new(text("value"))),
                text("aaa"),
            ),
            body: vec![done(true)],
            otherwise: None,
        },
        Command::Builtin {
            name: ".obj.mut_access".to_string(),
            args: vec![var("self"), text("value")],
        },
        Command::Builtin {
            name: ".mem.replace".to_string(),
            args: vec![
                CommandExpression::Prev,
                binary(
                    BinaryKind::Add,
                    CommandExpression::Property(Box::new(var("self")), Box::new(text("value"))),
                    text("a"),
                ),
            ],
        },
        done(false),
    ];
    let (runtime, result) = run(counter(next));
    assert_eq!(result, Ok(Value::Null));
    assert_eq!(runtime.machine.output, "aaaaaa");
}

#[test]
fn iterator_step_must_say_whether_it_is_done() {
    let (runtime, result) = run(counter(vec![Command::Return { value: text("no object") }]));
    assert_eq!(fault_of(result), AmvmFault::IteratorResultMalformed);
    assert_eq!(runtime.machine.output, "a");
    let (_, result) = run(counter(vec![Command::Return {
        value: CommandExpression::Struct(
            AmvmType::Anonymous,
            vec![("done".to_string(), lit(Value::U8(1)))],
        ),
    }]));
    assert_eq!(fault_of(result), AmvmFault::IteratorResultMalformed);
}

#[test]
fn range_step_needs_its_iterator() {
    let range = CommandExpression::Range(Box::new(lit(Value::U8(0))), Box::new(lit(Value::U8(2))));
    let next = CommandExpression::Property(Box::new(var("r")), Box::new(text("next")));
    let body = vec![
        declare("r", VariableKind::Const, range),
        Command::Call { name: next, args: vec![] },
    ];
    let (_, result) = run(body);
    assert_eq!(fault_of(result), AmvmFault::SelfNotDefined);
}

#[test]
fn range_steps_by_hand() {
    let range = CommandExpression::Range(Box::new(lit(Value::U8(5))), Box::new(lit(Value::U8(6))));
    let next = || CommandExpression::Property(Box::new(var("r")), Box::new(text("next")));
    let field = |name: &str| {
        puts(CommandExpression::Property(Box::new(CommandExpression::Prev), Box::new(text(name))))
    };
    let body = vec![
        declare("r", VariableKind::Const, range),
        Command::Call { name: next(), args: vec![var("r")] },
        field("done"),
        Command::Call { name: next(), args: vec![var("r")] },
        field("value"),
        puts(CommandExpression::Property(Box::new(var("r")), Box::new(text("value")))),
    ];
    let (runtime, result) = run(body);
    assert_eq!(result, Ok(Value::Null));
    assert_eq!(runtime.machine.output, "true66");
}

#[test]
fn mutable_access_needs_an_object() {
    let body = vec![
        declare("n", VariableKind::Mut, lit(Value::U8(1))),
        Command::Builtin { name: ".obj.mut_access".to_string(), args: vec![var("n"), text("x")] },
    ];
    assert_eq!(fault_of(run(body).1), AmvmFault::NotAnObject);
    let object = CommandExpression::Struct(AmvmType::Anonymous, vec![]);
    let body = vec![
        declare("o", VariableKind::Var, object),
        Command::Builtin { name: ".obj.mut_access".to_string(), args: vec![var("o"), lit(Value::U8(0))] },
    ];
    assert_eq!(fault_of(run(body).1), AmvmFault::ObjectKeyNotString);
}

#[test]
fn statements_run_in_the_scope_itself_or_in_a_new_one() {
    let mut vm = Machine::new(AmvmTypeCasting::Strict, vec![]);
    let root = vm.open_context(None);
    let mut sc = AmvmScope::new("t".to_string(), root);
    let body = vec![declare("x", VariableKind::Const, lit(Value::U8(1)))];
    assert_eq!(amvm::runtime::commands::eval_scope(&mut vm, &mut sc, &body, false, 10), Ok(Value::Null));
    assert_eq!(vm.resolve(root, "x"), None);
    assert_eq!(vm.contexts.len(), 2);
    assert_eq!(amvm::runtime::commands::eval_scope(&mut vm, &mut sc, &body, true, 10), Ok(Value::Null));
    assert_eq!(vm.resolve(root, "x"), Some(AmvmVariable::Const(Box::new(Value::U8(1)))));
    assert_eq!(vm.contexts.len(), 2);
}

fn names_are_distinct<V>(table: &[(String, V)]) -> bool {
    (0..table.len()).all(|i| (i + 1..table.len()).all(|j| table[i].0 != table[j].0))
}

#[test]
fn statements_one_by_one_do_what_a_run_does() {
    let body = || {
        vec![
            declare("x", VariableKind::Var, lit(Value::U8(1))),
            puts(var("x")),
            assign("x", binary(BinaryKind::Add, var("x"), lit(Value::U8(2)))),
            puts(var("x")),
            assign("y", lit(Value::U8(0))),
            puts(text("never")),
        ]
    };
    let (whole, result) = run(body());
    let mut stepped = machine_with(AmvmTypeCasting::Strict, body());
    stepped.registry_base_types();
    let mut outputs = Vec::new();
    let mut last = Ok(Value::Null);
    for index in 0..stepped.body.len() {
        last = stepped.run_statement(index);
        outputs.push(stepped.machine.output.clone());
        if last.is_err() {
            break;
        }
    }
    assert_eq!(outputs, vec!["", "1", "1", "13", "13"]);
    assert_eq!(fault_of(last), AmvmFault::UndefinedVariable);
    assert_eq!(fault_of(result), AmvmFault::UndefinedVariable);
    assert_eq!(stepped.machine, whole.machine);
    assert_eq!(stepped.scope, whole.scope);
}

#[test]
fn a_statement_that_is_not_there_does_nothing() {
    let mut runtime = machine_with(AmvmTypeCasting::Strict, vec![puts(text("a"))]);
    runtime.registry_base_types();
    let before = runtime.machine.output.clone();
    assert_eq!(runtime.run_statement(1), Ok(Value::Null));
    assert_eq!(runtime.machine.output, before);
    assert_eq!(runtime.run_statement(0), Ok(Value::Null));
    assert_eq!(runtime.machine.output, "a");
}

#[test]
fn lines_handed_over_between_statements_are_read() {
    let read = || Command::Builtin { name: ".io.stdin.read_line".to_string(), args: vec![var("line")] };
    let mut runtime = machine_with(
        AmvmTypeCasting::Strict,
        vec![
            declare("line", VariableKind::Var, text("")),
            puts(text("first?")),
            read(),
            puts(var("line")),
            read(),
            puts(var("line")),
        ],
    );
    runtime.registry_base_types();
    for index in 0..runtime.body.len() {
        if index == 2 {
            assert_eq!(runtime.machine.output, "first?");
            runtime.machine.input.push("one".to_string());
        }
        if index == 4 {
            assert_eq!(runtime.machine.output, "first?one");
            runtime.machine.input.push("two".to_string());
        }
        assert_eq!(runtime.run_statement(index), Ok(Value::Null));
    }
    assert_eq!(runtime.machine.output, "first?onetwo");
}

#[test]
fn no_table_holds_a_name_twice() {
    let point = |x: u8| {
        CommandExpression::Struct(
            AmvmType::Named("P".to_string()),
            vec![
                ("x".to_string(), lit(Value::U8(x))),
                ("y".to_string(), lit(Value::U8(0))),
                ("x".to_string(), lit(Value::U8(9))),
            ],
        )
    };
    let member = |n: &str| (n.to_string(), AmvmType::Primitive(AmvmPrimitiveType::U8));
    let (runtime, result) = run(vec![
        Command::Struct { name: "P".to_string(), body: vec![member("x"), member("y")] },
        Command::Struct { name: "P".to_string(), body: vec![member("x")] },
        declare("a", VariableKind::Var, lit(Value::U8(1))),
        declare("b", VariableKind::Let, lit(Value::U8(2))),
        declare("a", VariableKind::Const, point(3)),
        puts(CommandExpression::Property(Box::new(var("a")), Box::new(text("x")))),
        Command::Scope { body: vec![declare("a", VariableKind::Var, lit(Value::U8(7))), puts(var("a"))] },
    ]);
    assert_eq!(result, Ok(Value::Null));
    assert_eq!(runtime.machine.output, "97");
    for context in &runtime.machine.contexts {
        assert!(names_are_distinct(&context.variables));
        assert!(names_are_distinct(&context.structs));
    }
    let top = &runtime.machine.contexts[0];
    let names: Vec<&str> = top.variables.iter().map(|entry| entry.0.as_str()).collect();
    assert_eq!(names, vec!["a", "b"]);
    let types: Vec<&str> = top.structs.iter().map(|entry| entry.0.as_str()).collect();
    assert_eq!(types, vec!["Iterator", "P"]);
    match runtime.machine.get_variable(0, &"a".to_string()) {
        Some(AmvmVariable::Const(value)) => match *value {
            Value::Object(ValueObject::Instance(_, fields)) => {
                assert!(names_are_distinct(&fields));
                assert_eq!(fields.len(), 2);
            },
            other => panic!("not an object: {:?}", other),
        },
        other => panic!("not a constant: {:?}", other),
    }
}
