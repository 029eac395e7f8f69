use amvm::Compilable;
use amvm::ParserError;
use amvm::aml3::lexer::needs_space;
use amvm::aml3::lexer::take_space;
use amvm::aml3::lexer::take_until_space;
use amvm::aml3::structs::Aml3Struct;
use amvm::aml3::types::Aml3Type;
use amvm::error::DecodeFault;
use amvm::parser::Parser;
use amvm::runtime::base::iterator::amvm_iterator_type;
use amvm::runtime::error::AmvmError;
use amvm::runtime::error::AmvmFault;
use amvm::runtime::machine::Context;
use amvm::runtime::machine::Machine;
use amvm::runtime::result::AmvmExprResult;
use amvm::runtime::result::AmvmPropagate;
use amvm::tokens::command::Command;
use amvm::tokens::expr::CommandExpression;
use amvm::tokens::header::AmvmHeader;
use amvm::tokens::header::AmvmTypeCasting;
use amvm::tokens::kind::VariableKind;
use amvm::tokens::program::Program;
use amvm::tokens::scope::AmvmScope;
use amvm::tokens::types::AmvmPrimitiveType;
use amvm::tokens::types::AmvmType;
use amvm::tokens::types::AmvmTypeDefinition;
use amvm::tokens::value::AmvmVariable;
use amvm::tokens::value::Value;
use amvm::tokens::value::ValueFun;
use amvm::tokens::value::ValueObject;
use amvm::utils::text_eq;

fn machine() -> Machine {
    Machine::new(AmvmTypeCasting::Strict, vec![])
}

#[test]
fn propagation_tells_its_kind() {
    let error = AmvmError::Other(vec![], AmvmFault::TypeMismatch);
    let failed = AmvmPropagate::Error(AmvmError::Other(vec![], AmvmFault::TypeMismatch));
    assert!(failed.is_err() && !failed.is_break() && !failed.is_return());
    assert_eq!(failed.as_err(), Some(&error));
    assert!(AmvmPropagate::Break.is_break());
    assert!(AmvmPropagate::Return(Value::Null).is_return());
    assert_eq!(AmvmPropagate::Break.as_err(), None);
    assert_eq!(error.fault(), AmvmFault::TypeMismatch);
    assert_eq!(AmvmFault::NotCallable.message(), "Calling to a non-function");
    assert_eq!(DecodeFault::InvalidHeader.message(), "Invalid bytecode header");
}

#[test]
fn values_hand_out_what_they_hold() {
    let s = Value::String("a".to_string());
    assert!(s.is_string());
    assert_eq!(s.as_string(), Some(&"a".to_string()));
    assert_eq!(s.as_function(), None);
    assert_eq!(s.as_object(), None);
    let fun = ValueFun::Mutable(vec![], AmvmType::Anonymous, vec![]);
    assert_eq!(Value::Fun(fun.clone()).as_function(), Some(&fun));
    assert_eq!(Value::Object(ValueObject::Native(3)).as_object(), Some(&ValueObject::Native(3)));
    assert!(!Value::U8(1).is_string());
    assert_eq!(Value::U8(1).as_string(), None);
}

#[test]
fn results_stand_for_values_and_bindings() {
    let mut vm = machine();
    let cell = vm.allocate(Value::U8(4));
    let shared = AmvmVariable::Var(cell);
    let holds_ref = vm.allocate(Value::Ref(AmvmVariable::Var(cell)));
    let plain = AmvmExprResult::Value(Value::U8(1));
    assert_eq!(plain.as_var(), None);
    assert_eq!(plain.as_value(&vm), Value::U8(1));
    assert_eq!(plain.as_value_ref(&vm), Value::U8(1));
    assert_eq!(plain.as_ref(&vm), AmvmVariable::Const(Box::new(Value::U8(1))));
    let by_ref = AmvmExprResult::Value(Value::Ref(AmvmVariable::Var(cell)));
    assert_eq!(by_ref.as_ref(&vm), shared);
    assert_eq!(by_ref.as_value(&vm), Value::U8(4));
    assert_eq!(by_ref.as_value_ref(&vm), Value::Ref(AmvmVariable::Var(cell)));
    let variable = AmvmExprResult::Variable(AmvmVariable::Let(holds_ref));
    assert_eq!(variable.as_var(), Some(AmvmVariable::Let(holds_ref)));
    assert_eq!(variable.as_ref(&vm), shared);
    assert_eq!(variable.as_value(&vm), Value::U8(4));
    assert_eq!(variable.as_value_ref(&vm), Value::Ref(AmvmVariable::Var(cell)));
}

#[test]
fn bindings_by_kind() {
    let mut vm = machine();
    let scope = AmvmScope::new("t".to_string(), 0);
    let constant = vm.new_variable(VariableKind::Const, Value::U8(1));
    assert_eq!(constant, AmvmVariable::Const(Box::new(Value::U8(1))));
    assert_eq!(vm.cells.len(), 0);
    assert_eq!(constant.get_kind(), VariableKind::Const);
    assert!(!constant.is_mutable());
    assert_eq!(constant.get_rw(), None);
    assert!(!vm.write(&constant, Value::U8(2)));
    let single = vm.new_variable(VariableKind::Let, Value::U8(1));
    assert_eq!(single, AmvmVariable::Let(0));
    assert_eq!(single.get_rw(), Some((VariableKind::Let, 0)));
    assert!(!single.is_mutable());
    assert!(vm.assign(&scope, &single, Value::U8(2)).is_err());
    assert_eq!(vm.read(&single), Value::U8(1));
    assert!(vm.write(&single, Value::U8(3)));
    assert_eq!(vm.read(&single), Value::U8(3));
    let mutable = vm.new_variable(VariableKind::Mut, Value::Null);
    assert_eq!(mutable, AmvmVariable::Mut(1));
    assert!(mutable.is_mutable());
    assert_eq!(vm.assign(&scope, &mutable, Value::U8(9)), Ok(Value::Null));
    assert_eq!(vm.read(&AmvmVariable::Var(1)), Value::U8(9));
    assert_eq!(vm.read_cell(7), Value::Null);
    assert_eq!(AmvmVariable::from_rw(VariableKind::Var, 5), Some(AmvmVariable::Var(5)));
    assert_eq!(AmvmVariable::from_rw(VariableKind::Const, 5), None);
}

#[test]
fn names_resolve_through_the_contexts_around() {
    let mut vm = machine();
    let root = vm.open_context(None);
    let child = vm.open_context(Some(root));
    let other = vm.open_context(Some(root));
    assert_eq!((root, child, other), (0, 1, 2));
    vm.declare(root, "x".to_string(), AmvmVariable::Mut(10));
    vm.declare(root, "y".to_string(), AmvmVariable::Mut(11));
    vm.declare(child, "x".to_string(), AmvmVariable::Let(20));
    assert_eq!(vm.resolve(child, "x"), Some(AmvmVariable::Let(20)));
    assert_eq!(vm.resolve(child, "y"), Some(AmvmVariable::Mut(11)));
    assert_eq!(vm.resolve(other, "x"), Some(AmvmVariable::Mut(10)));
    assert_eq!(vm.resolve(root, "x"), Some(AmvmVariable::Mut(10)));
    assert_eq!(vm.resolve(child, "z"), None);
    assert_eq!(vm.resolve(9, "x"), None);
    assert_eq!(vm.local(child, "y"), None);
    assert_eq!(vm.get_variable(child, &"y".to_string()), Some(AmvmVariable::Mut(11)));
    vm.declare(root, "x".to_string(), AmvmVariable::Var(12));
    assert_eq!(vm.contexts[root].variables.len(), 2);
    assert_eq!(vm.resolve(root, "x"), Some(AmvmVariable::Var(12)));
    vm.declare(9, "x".to_string(), AmvmVariable::Var(12));
    assert_eq!(vm.contexts.len(), 3);
    vm.declare_type(root, "Iterator".to_string(), amvm_iterator_type());
    assert_eq!(vm.contexts[root].structs.len(), 1);
    assert_eq!(vm.contexts[root].structs[0].0, "Iterator");
    let point = AmvmTypeDefinition::Struct { generics: vec![], fields: vec![] };
    vm.declare_type(child, "Point".to_string(), point.clone());
    assert_eq!(vm.resolve_type(child, "Point"), Some(point));
    assert_eq!(vm.resolve_type(child, "Iterator"), Some(amvm_iterator_type()));
    assert_eq!(vm.resolve_type(other, "Point"), None);
    assert_eq!(vm.resolve_type(root, "Nothing"), None);
}

#[test]
fn the_iterator_type_has_a_next() {
    match amvm_iterator_type() {
        AmvmTypeDefinition::Struct { generics, fields } => {
            assert_eq!(generics, vec![("T".to_string(), None)]);
            assert_eq!(
                fields,
                vec![(
                    "next".to_string(),
                    AmvmType::Fun(
                        vec![AmvmType::Named("Iterator".to_string())],
                        Box::new(AmvmType::Named("T".to_string()))
                    )
                )]
            );
        },
        other => panic!("expected a struct, got {:?}", other),
    }
}

#[test]
fn contexts_keep_previous_results() {
    let mut context = Context::new();
    assert_eq!(context.parent, None);
    assert_eq!(Context::create_sub(4).parent, Some(4));
    assert_eq!(context.pop_prev(), None);
    assert!(context.push_prev(AmvmExprResult::Variable(AmvmVariable::Mut(1))));
    assert!(context.push_prev_value(Value::U8(2)));
    assert_eq!(context.pop_prev(), Some(AmvmExprResult::Value(Value::U8(2))));
    assert_eq!(context.pop_prev(), Some(AmvmExprResult::Variable(AmvmVariable::Mut(1))));
    let mut vm = machine();
    assert!(!vm.push_prev(0, AmvmExprResult::Value(Value::Null)));
    assert_eq!(vm.pop_prev(0), None);
}

#[test]
fn handles_name_scopes() {
    let mut vm = machine();
    let scope = AmvmScope::new("t".to_string(), 3);
    assert_eq!(vm.borrow_scope(0), None);
    let handle = vm.hand_out(scope.clone());
    assert_eq!(handle, 0);
    assert_eq!(vm.borrow_scope(0), Some(scope.clone()));
    let mut moved = scope.create_sub(5);
    moved.name_file(&"src.aml3".to_string());
    vm.put_back(0, moved.clone());
    vm.put_back(1, scope);
    assert_eq!(vm.handles, vec![moved]);
}

#[test]
fn machine_reads_lines_and_writes_text() {
    let mut vm = Machine::new(AmvmTypeCasting::Strict, vec!["a".to_string(), "b".to_string()]);
    vm.emit("x");
    vm.emit("yz");
    assert_eq!(vm.output, "xyz");
    assert_eq!(vm.read_line(), "a");
    assert_eq!(vm.read_line(), "b");
    assert_eq!(vm.read_line(), "");
    assert_eq!(vm.text_of(&Value::Null), "null");
    assert_eq!(vm.printed(&Value::Null), "undefined");
    let cell = vm.allocate(Value::I16(-3));
    assert_eq!(vm.text_of(&Value::Ref(AmvmVariable::Let(cell))), "-3");
    assert_eq!(vm.printed(&Value::Ref(AmvmVariable::Let(7))), "undefined");
}

#[test]
fn scopes_track_positions() {
    let mut scope = AmvmScope::new("prog".to_string(), 0);
    assert_eq!(scope.full_backtrace(), vec![]);
    scope.locate((1, 2), &"first".to_string());
    scope.locate((3, 4), &"second".to_string());
    let meta = scope.meta.clone().expect("position");
    assert_eq!(meta.pos, (3, 4));
    assert_eq!(meta.alternative.as_ref().map(|a| a.pos), Some((1, 2)));
    assert_eq!(meta.spot().code, "second");
    let inner = scope.create_sub(7);
    assert_eq!(inner.context, 7);
    assert_eq!(inner.meta, None);
    assert_eq!(inner.backtrace, vec![meta.clone()]);
    let mut deeper = inner.clone();
    deeper.locate((5, 6), &"third".to_string());
    let positions: Vec<(u16, u16)> = deeper.full_backtrace().iter().map(|m| m.pos).collect();
    assert_eq!(positions, vec![(5, 6), (3, 4)]);
    scope.settle();
    assert_eq!(scope.meta, None);
    let AmvmError::Other(trace, fault) = deeper.error(AmvmFault::BadHandle);
    assert_eq!(trace.len(), 2);
    assert_eq!(fault, AmvmFault::BadHandle);
    let shown = AmvmError::Other(vec![meta], AmvmFault::BadHandle).render(false);
    assert!(shown.contains("--> <anonymous>:1:2"));
    assert!(shown.contains("Alternative code detected"));
    let debug = deeper.error(AmvmFault::BadHandle).render(true);
    assert!(debug.contains("> --> prog:3:4"));
    let bare = AmvmError::Other(vec![], AmvmFault::BadHandle).render(false);
    assert!(bare.ends_with("No backtrace. Available through AML3_DEBUG=1 when compiling from aml3\x1b[0m\n"));
}

#[test]
fn words_and_spaces_of_source_text() {
    let p = Parser::new(b"ab \tc", false);
    let (rest, word) = take_until_space(p).expect("word");
    assert_eq!((word.as_str(), rest.pointer), ("ab", 2));
    let (rest, b) = take_space(rest).expect("space");
    assert_eq!((b, rest.pointer), (b' ', 3));
    assert_eq!(take_until_space(rest).unwrap_err().fault, DecodeFault::ExpectedWord);
    assert_eq!(needs_space(rest).unwrap_err().fault, DecodeFault::ExpectedSpace);
    assert_eq!(needs_space(p.at(2)).expect("space").pointer, 3);
    assert_eq!(take_space(p).unwrap_err().at, 0);
    assert_eq!(take_until_space(Parser::new(&[0xC3, 0x28], false)).unwrap_err().fault, DecodeFault::InvalidUtf8);
    assert!(text_eq("abc", "abc"));
    assert!(!text_eq("abc", "abd"));
    assert!(!text_eq("abc", "ab"));
}

#[test]
fn tuples_names_and_braces() {
    let (rest, t) = Aml3Type::visit_tuple(Parser::new(b"(#A)x", false)).expect("tuple");
    assert_eq!(t, AmvmType::Tuple(vec![AmvmType::Named("A".to_string())]));
    assert_eq!(rest.pointer, 4);
    assert_eq!(
        Aml3Type::visit_tuple(Parser::new(b"#A", false)).unwrap_err().fault,
        DecodeFault::UnclosedTuple
    );
    let (rest, name) = Aml3Type::visit_name(Parser::new(b"#Point {", false)).expect("name");
    assert_eq!((name.as_deref(), rest.pointer), (Some("Point"), 6));
    let (rest, name) = Aml3Type::visit_name(Parser::new(b"# {", false)).expect("name");
    assert_eq!((name, rest.pointer), (None, 1));
    assert_eq!(
        Aml3Type::visit_name(Parser::new(b"Point", false)).unwrap_err().fault,
        DecodeFault::ExpectedType
    );
    let (_, fields) = Aml3Struct::visit_decl_block(Parser::new(b"{\n  x u8\n  y #T\n}", false)).expect("fields");
    assert_eq!(
        fields,
        vec![
            ("x".to_string(), AmvmType::Primitive(AmvmPrimitiveType::U8)),
            ("y".to_string(), AmvmType::Named("T".to_string())),
        ]
    );
    let (_, inits) = Aml3Struct::visit_def_block(Parser::new(b"{ x _ }", false)).expect("inits");
    assert_eq!(inits, vec![("x".to_string(), CommandExpression::Prev)]);
    assert_eq!(
        Aml3Struct::visit_def_block(Parser::new(b"x", false)).unwrap_err().fault,
        DecodeFault::ExpectedBlock
    );
    assert_eq!(
        Aml3Struct::visit_decl_block(Parser::new(b"{ x u8", false)).unwrap_err().fault,
        DecodeFault::UnclosedBlock
    );
}

#[test]
fn lists_of_nodes_are_counted() {
    let numbers: Vec<u16> = vec![1, 258];
    assert_eq!(numbers.compile_bytecode(vec![7]), Ok(vec![7, 2, 0, 1, 1, 2]));
    assert_eq!(Value::compile_slice(Vec::new(), &[AmvmType::Anonymous]), Ok(vec![1, 1]));
    assert_eq!(Value::compile_slice::<AmvmType>(Vec::new(), &[]), Ok(vec![0]));
    let long = vec!["x".repeat(256)];
    assert_eq!(long.compile_bytecode(Vec::new()), Err(()));
    assert_eq!("ab".to_string().compile_bytecode(Vec::new()), Ok(vec![2, b'a', b'b']));
    assert_eq!(Value::compile_string(vec![1], "\u{ff}"), Ok(vec![1, 2, 0xC3, 0xBF]));
    let (rest, text) = Value::visit_string(Parser::new(&[2, 0xFF, 0x00, b'z', 9], true)).expect("text");
    assert_eq!((text.as_str(), rest.pointer), ("\0z", 4));
    assert_eq!(Value::visit_u8(Parser::new(&[5], true)).expect("byte").1, 5);
    assert_eq!(Value::visit_u16(Parser::new(&[1, 2], true)).expect("number").1, 258);
    assert_eq!(Value::visit_i16(Parser::new(&[1, 0, 2], true)).expect("number").1, 2);
    assert_eq!(Value::visit_char(Parser::new(&[0xE2, 0x82, 0xAC], true)).expect("char").1, '\u{20ac}');
}

#[test]
fn parser_reads_a_program() {
    let program = Program::new(
        AmvmHeader { sum_kind: AmvmTypeCasting::TypeCastingStrict },
        vec![Command::Break, Command::Scope { body: vec![] }],
    );
    let bytes = program.compile_bytecode(Vec::new()).expect("writes");
    assert_eq!(Parser::new(&bytes, true).program(), Ok(program));
    let error: ParserError = ParserError::from_msg("m", "c".to_string(), 3);
    assert_eq!(error.at, 3);
    assert_eq!(Command::visit_kind(Parser::new(&[3], true)).expect("kind").1, VariableKind::Let);
    let (rest, c) = Command::visit_asgn(Parser::new(&[1, b'x', 0x12], true)).expect("assignment");
    assert_eq!(c, Command::AssignVariable { name: "x".to_string(), value: CommandExpression::Prev });
    assert_eq!(rest.pointer, 3);
    let (_, c) = Command::visit_var(Parser::new(&[4, 1, b'x', 0x12], true)).expect("declaration");
    assert!(matches!(c, Command::DeclareVariable { kind: VariableKind::Var, .. }));
    let (_, body) = Command::visit_scope(Parser::new(&[1, 0x52], true)).expect("block");
    assert_eq!(body, vec![Command::Break]);
    let (_, e) = CommandExpression::visit_binary(Parser::new(&[1, 0x12, 0x12], true)).expect("binary");
    assert!(matches!(e, CommandExpression::Binary(_, _, _)));
}
