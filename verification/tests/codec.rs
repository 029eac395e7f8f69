use std::cmp::Ordering;
use amvm::error::DecodeFault;
use amvm::parser::Parser;
use amvm::tokens::command::Command;
use amvm::tokens::expr::BinaryKind;
use amvm::tokens::expr::CommandExpression;
use amvm::tokens::header::AmvmHeader;
use amvm::tokens::header::AmvmTypeCasting;
use amvm::tokens::kind::VariableKind;
use amvm::tokens::program::Program;
use amvm::tokens::types::AmvmPrimitiveType;
use amvm::tokens::types::AmvmType;
use amvm::tokens::value::Value;
use amvm::utils::Compilable;

fn encode<T: Compilable>(node: &T) -> Vec<u8> {
    node.compile_bytecode(Vec::new()).expect("node can be written")
}

#[test]
fn type_bytes_are_exact() {
    let t = AmvmType::Fun(
        vec![AmvmType::Named("Iterator".to_string())],
        Box::new(AmvmType::Primitive(AmvmPrimitiveType::U8)),
    );
    let bytes = encode(&t);
    let mut expected = vec![0x06, 0x01, 0x02, 0x08];
    expected.extend_from_slice(b"Iterator");
    expected.push(0x08);
    assert_eq!(bytes, expected);
}

#[test]
fn type_round_trip() {
    let t = AmvmType::Union(
        Box::new(AmvmType::Tuple(vec![AmvmType::Anonymous, AmvmType::Primitive(AmvmPrimitiveType::Bool)])),
        Box::new(AmvmType::Named("Point".to_string())),
    );
    let bytes = encode(&t);
    let (rest, back) = AmvmType::visit(Parser::new(&bytes, true)).expect("decodes");
    assert_eq!(back, t);
    assert_eq!(rest.pointer, bytes.len());
}

#[test]
fn string_escapes_reserved_bytes() {
    let v = Value::String("a\0b".to_string());
    let bytes = encode(&v);
    assert_eq!(bytes, vec![0x33, 3, b'a', 0xFF, 0x00, b'b']);
    let (_, back) = Value::visit(Parser::new(&bytes, true)).expect("decodes");
    assert_eq!(back, v);
}

#[test]
fn command_round_trip() {
    let c = Command::Conditional {
        condition: CommandExpression::Binary(
            BinaryKind::GreaterThanEqual,
            Box::new(CommandExpression::Var("i".to_string())),
            Box::new(CommandExpression::Value(Value::U8(3))),
        ),
        body: vec![Command::Break],
        otherwise: Some(vec![Command::DeclareVariable {
            name: "x".to_string(),
            kind: VariableKind::Mut,
            value: CommandExpression::Value(Value::I16(-300)),
        }]),
    };
    let bytes = encode(&c);
    let (rest, back) = Command::visit(Parser::new(&bytes, true)).expect("decodes");
    assert_eq!(back, c);
    assert_eq!(rest.pointer, bytes.len());
}

fn decode_value(bytes: &[u8]) -> Result<Value, amvm::error::DecodeError> {
    Value::visit(Parser::new(bytes, true)).map(|(_, v)| v)
}

#[test]
fn value_bytes_are_exact() {
    assert_eq!(encode(&Value::Null), vec![0x31]);
    assert_eq!(encode(&Value::Bool(true)), vec![0x32, 1]);
    assert_eq!(encode(&Value::Bool(false)), vec![0x32, 0]);
    assert_eq!(encode(&Value::U8(200)), vec![0x34, 200]);
    assert_eq!(encode(&Value::I16(300)), vec![0x35, 1, 1, 44]);
    assert_eq!(encode(&Value::I16(-300)), vec![0x35, 0, 1, 44]);
    assert_eq!(encode(&Value::I16(0)), vec![0x35, 0, 0, 0]);
    assert_eq!(encode(&Value::I16(-32768)), vec![0x35, 0, 0x80, 0]);
    assert_eq!(encode(&Value::Char('a')), vec![0x38, b'a']);
    assert_eq!(encode(&Value::Char('\u{e9}')), vec![0x38, 0xC3, 0xA9]);
    assert_eq!(encode(&Value::Char('\u{20ac}')), vec![0x38, 0xE2, 0x82, 0xAC]);
    assert_eq!(encode(&Value::F32("1.5".into())), vec![0x36, b'1', b'.', b'5', 0]);
    assert_eq!(encode(&Value::String("hi".into())), vec![0x33, 2, b'h', b'i']);
}

#[test]
fn values_round_trip() {
    let values = vec![
        Value::Null,
        Value::Bool(true),
        Value::U8(0),
        Value::U8(255),
        Value::I16(32767),
        Value::I16(-32768),
        Value::I16(-1),
        Value::Char('\u{1F600}'),
        Value::Char('\0'),
        Value::F32("-0.25".to_string()),
        Value::F32("a\0b".to_string()),
        Value::String(String::new()),
        Value::String("x".repeat(255)),
        Value::String("\u{e9}\0\u{20ac}".to_string()),
    ];
    for v in values {
        let bytes = encode(&v);
        let (rest, back) = Value::visit(Parser::new(&bytes, true)).expect("decodes");
        assert_eq!(back, v);
        assert_eq!(rest.pointer, bytes.len());
    }
}

#[test]
fn values_that_cannot_be_written() {
    assert_eq!(Value::String("x".repeat(256)).compile_bytecode(Vec::new()), Err(()));
    assert_eq!(
        Value::Ref(amvm::tokens::value::AmvmVariable::Mut(0)).compile_bytecode(Vec::new()),
        Err(())
    );
    assert_eq!(
        Value::Object(amvm::tokens::value::ValueObject::Native(1)).compile_bytecode(Vec::new()),
        Err(())
    );
    let many = vec![AmvmType::Anonymous; 256];
    assert_eq!(AmvmType::Tuple(many).compile_bytecode(Vec::new()), Err(()));
    let most = vec![AmvmType::Anonymous; 255];
    assert_eq!(AmvmType::Tuple(most).compile_bytecode(vec![9]).map(|b| b.len()), Ok(258));
}

#[test]
fn value_decoding_faults() {
    let fault = |bytes: &[u8]| {
        let e = decode_value(bytes).unwrap_err();
        (e.fault, e.at)
    };
    assert_eq!(fault(&[]), (DecodeFault::UnexpectedEnd, 0));
    assert_eq!(fault(&[0x30]), (DecodeFault::UnknownValueKind, 0));
    assert_eq!(fault(&[0x37]), (DecodeFault::UnknownValueKind, 0));
    assert_eq!(fault(&[0x32]), (DecodeFault::UnexpectedEnd, 1));
    assert_eq!(fault(&[0x35, 1, 0x80, 0]), (DecodeFault::NumberOutOfRange, 2));
    assert_eq!(fault(&[0x35, 0, 0x80, 1]), (DecodeFault::NumberOutOfRange, 2));
    assert_eq!(fault(&[0x35, 0, 0x80]), (DecodeFault::UnexpectedEnd, 3));
    assert_eq!(fault(&[0x33, 2, b'a']), (DecodeFault::UnexpectedEnd, 3));
    assert_eq!(fault(&[0x33, 1, 0]), (DecodeFault::InvalidEscape, 2));
    assert_eq!(fault(&[0x33, 1, 0xFF, 7]), (DecodeFault::InvalidEscape, 3));
    assert_eq!(fault(&[0x33, 1, 0xFF]), (DecodeFault::UnexpectedEnd, 3));
    assert_eq!(fault(&[0x33, 1, 0xC3]), (DecodeFault::InvalidUtf8, 2));
    assert_eq!(fault(&[0x33, 1, 0xFF, 0xFF]), (DecodeFault::InvalidUtf8, 2));
    assert_eq!(fault(&[0x36, b'1']), (DecodeFault::UnexpectedEnd, 2));
    assert_eq!(fault(&[0x38, 0x80]), (DecodeFault::InvalidUtf8, 1));
    assert_eq!(fault(&[0x38, 0xC3]), (DecodeFault::UnexpectedEnd, 2));
    assert_eq!(fault(&[0x38, 0xC3, 0x28]), (DecodeFault::InvalidUtf8, 1));
    assert_eq!(decode_value(&[0x32, 7]), Ok(Value::Bool(false)));
    assert_eq!(decode_value(&[0x35, 9, 0, 5]), Ok(Value::I16(-5)));
}

#[test]
fn node_decoding_faults() {
    let e = AmvmType::visit(Parser::new(&[0x09], true)).unwrap_err();
    assert_eq!((e.fault, e.at), (DecodeFault::UnknownTypeKind, 0));
    let e = CommandExpression::visit(Parser::new(&[0x19], true)).unwrap_err();
    assert_eq!((e.fault, e.at), (DecodeFault::UnknownExpressionKind, 0));
    let e = CommandExpression::visit(Parser::new(&[0x11, 0x0A], true)).unwrap_err();
    assert_eq!((e.fault, e.at), (DecodeFault::UnknownBinaryKind, 1));
    let e = CommandExpression::visit(Parser::new(&[0x15, 0x05], true)).unwrap_err();
    assert_eq!((e.fault, e.at), (DecodeFault::UnknownVariableKind, 1));
    let e = Command::visit(Parser::new(&[0x61], true)).unwrap_err();
    assert_eq!((e.fault, e.at), (DecodeFault::UnknownCommandKind, 0));
    let e = Command::visit(Parser::new(&[0x5B, 2, 0x52], true)).unwrap_err();
    assert_eq!((e.fault, e.at), (DecodeFault::UnexpectedEnd, 3));
}

#[test]
fn every_statement_round_trips() {
    let named = |n: &str| n.to_string();
    let one = || CommandExpression::Value(Value::U8(1));
    let commands = vec![
        Command::AssignVariable { name: named("x"), value: one() },
        Command::Break,
        Command::Builtin { name: named(".io.stdout.flush"), args: vec![one(), CommandExpression::Prev] },
        Command::Call { name: CommandExpression::Var(named("f")), args: vec![] },
        Command::Conditional { condition: one(), body: vec![], otherwise: None },
        Command::Conditional { condition: one(), body: vec![Command::Break], otherwise: Some(vec![Command::Break]) },
        Command::Conditional { condition: one(), body: vec![Command::Break], otherwise: Some(vec![]) },
        Command::DeclareVariable { name: named("y"), kind: VariableKind::Let, value: one() },
        Command::For { var: named("v"), iterator: CommandExpression::Range(Box::new(one()), Box::new(one())), body: vec![Command::Break] },
        Command::Function {
            name: named("f"),
            args: vec![(named("a"), VariableKind::Var, AmvmType::Anonymous)],
            ret: AmvmType::Primitive(AmvmPrimitiveType::String),
            body: vec![Command::Return { value: one() }],
        },
        Command::Meta { pos: (513, 65535), code: named("@puts 1") },
        Command::MetaFile(named("main.aml3")),
        Command::Loop { body: vec![Command::Scope { body: vec![] }] },
        Command::Push { value: CommandExpression::Property(Box::new(one()), Box::new(one())) },
        Command::Puts { value: CommandExpression::Ref(VariableKind::Mut, Box::new(CommandExpression::Var(named("x")))) },
        Command::Return { value: CommandExpression::Struct(AmvmType::Named(named("P")), vec![(named("x"), one())]) },
        Command::Scope { body: vec![Command::Break, Command::Break] },
        Command::Struct { name: named("P"), body: vec![(named("x"), AmvmType::Primitive(AmvmPrimitiveType::U8))] },
    ];
    for c in commands {
        let bytes = encode(&c);
        let (rest, back) = Command::visit(Parser::new(&bytes, true)).expect("decodes");
        assert_eq!(back, c);
        assert_eq!(rest.pointer, bytes.len());
    }
}

#[test]
fn empty_second_branch_reads_back() {
    let c = Command::Conditional {
        condition: CommandExpression::Value(Value::Bool(true)),
        body: vec![Command::Break],
        otherwise: Some(vec![]),
    };
    let bytes = encode(&c);
    assert_eq!(bytes, vec![0x55, 0x17, 0x32, 1, 1, 0x52, 1, 0]);
    let (rest, back) = Command::visit(Parser::new(&bytes, true)).expect("decodes");
    assert_eq!(rest.pointer, bytes.len());
    assert_eq!(back, c);
    match back {
        Command::Conditional { otherwise, .. } => assert_eq!(otherwise, Some(vec![])),
        other => panic!("not a conditional: {:?}", other),
    }
}

#[test]
fn second_branch_bytes_are_exact() {
    let without = Command::Conditional {
        condition: CommandExpression::Prev,
        body: vec![],
        otherwise: None,
    };
    assert_eq!(encode(&without), vec![0x55, 0x12, 0, 0]);
    let empty = Command::Conditional {
        condition: CommandExpression::Prev,
        body: vec![],
        otherwise: Some(vec![]),
    };
    assert_eq!(encode(&empty), vec![0x55, 0x12, 0, 1, 0]);
    let filled = Command::Conditional {
        condition: CommandExpression::Prev,
        body: vec![],
        otherwise: Some(vec![Command::Break]),
    };
    assert_eq!(encode(&filled), vec![0x55, 0x12, 0, 1, 1, 0x52]);
    for c in [without, empty, filled] {
        let bytes = encode(&c);
        let (rest, back) = Command::visit(Parser::new(&bytes, true)).expect("decodes");
        assert_eq!(rest.pointer, bytes.len());
        assert_eq!(back, c);
    }
}

#[test]
fn unknown_branch_mark_is_a_fault() {
    let e = Command::visit(Parser::new(&[0x55, 0x12, 0, 2, 0], true)).unwrap_err();
    assert_eq!((e.fault, e.at), (DecodeFault::UnknownBranchMark, 3));
    let e = Command::visit(Parser::new(&[0x55, 0x12, 0], true)).unwrap_err();
    assert_eq!((e.fault, e.at), (DecodeFault::UnexpectedEnd, 3));
    let e = Command::visit(Parser::new(&[0x55, 0x12, 0, 1], true)).unwrap_err();
    assert_eq!((e.fault, e.at), (DecodeFault::UnexpectedEnd, 4));
}

#[test]
fn program_with_empty_second_branch_round_trips() {
    let program = Program::new(
        AmvmHeader { sum_kind: AmvmTypeCasting::Strict },
        vec![
            Command::Conditional {
                condition: CommandExpression::Value(Value::Bool(false)),
                body: vec![],
                otherwise: Some(vec![]),
            },
            Command::Break,
        ],
    );
    let bytes = encode(&program);
    let (rest, back) = Program::visit(Parser::new(&bytes, true)).expect("decodes");
    assert_eq!(rest.pointer, bytes.len());
    assert_eq!(back, program);
}

#[test]
fn statement_bytes_are_exact() {
    let c = Command::DeclareVariable {
        name: "x".to_string(),
        kind: VariableKind::Const,
        value: CommandExpression::Value(Value::U8(5)),
    };
    assert_eq!(encode(&c), vec![0x56, 0x01, 1, b'x', 0x17, 0x34, 5]);
    let m = Command::Meta { pos: (258, 3), code: "a".to_string() };
    assert_eq!(encode(&m), vec![0x59, 1, 2, 0, 3, 1, b'a']);
    let e = CommandExpression::Binary(
        BinaryKind::LessThanEqual,
        Box::new(CommandExpression::Prev),
        Box::new(CommandExpression::Var("v".to_string())),
    );
    assert_eq!(encode(&e), vec![0x11, 0x09, 0x12, 0x18, 1, b'v']);
}

#[test]
fn program_header_is_checked() {
    let program = Program::new(AmvmHeader { sum_kind: AmvmTypeCasting::Strict }, vec![Command::Break]);
    let bytes = encode(&program);
    assert_eq!(bytes, vec![0x08, 0x48, 0x30, 0x04, 0x52]);
    let (_, back) = Program::visit(Parser::new(&bytes, true)).expect("decodes");
    assert_eq!(back, program);
    let e = Program::visit(Parser::new(&[0x08, 0x48], true)).unwrap_err();
    assert_eq!((e.fault, e.at), (DecodeFault::UnexpectedEnd, 0));
    let e = Program::visit(Parser::new(&[0x08, 0x48, 0x31, 0x04], true)).unwrap_err();
    assert_eq!((e.fault, e.at), (DecodeFault::InvalidHeader, 0));
    let e = Program::visit(Parser::new(&[0x08, 0x48, 0x30, 0x05], true)).unwrap_err();
    assert_eq!((e.fault, e.at), (DecodeFault::UnknownCasting, 3));
    let e = Program::visit(Parser::new(&[0x08, 0x48, 0x30, 0x01, 0x00], true)).unwrap_err();
    assert_eq!((e.fault, e.at), (DecodeFault::UnknownCommandKind, 4));
    assert_eq!(AmvmTypeCasting::from_char(3), Some(AmvmTypeCasting::TypeCastingStrictlessString));
    assert_eq!(AmvmTypeCasting::from_char(0), None);
    assert_eq!(AmvmTypeCasting::TypeCastingString.to_char(), 2);
}

#[test]
fn cursor_reads_and_counts() {
    let mut p = Parser::from_string("ab\nc");
    assert!(p.is_bytecode);
    assert_eq!(p.peek(0), Some(b'a'));
    assert_eq!(p.peek(3), Some(b'c'));
    assert_eq!(p.peek(4), None);
    assert_eq!(p.consume(), Some(b'a'));
    assert_eq!(p.next(), Some(b'\n'));
    assert!(p.is_eol());
    assert_eq!(p.pointer_position(), 2);
    let q = p.at(3).new_line();
    assert_eq!(q.cursor_position(), (3, 0));
    assert_eq!(q.at(4).column(), 1);
    assert!(q.at(4).is_eol());
    let t = Parser::new(b"x\ny", false).at(2).new_line();
    assert_eq!(t.cursor_position(), (1, 0));
    let e = p.error("bad", "ctx".to_string(), 1);
    assert_eq!((e.description.as_str(), e.context.as_str(), e.at), ("bad", "ctx", 1));
    let e = p.error_corrupt("bad", "ctx", 5);
    assert_eq!(e.context, "ctx. Possible corrupt file or bad serialize");
    assert_eq!(e.at, 0);
    assert_eq!(e.text(), "error parser(0) bad.\nContext: ctx. Possible corrupt file or bad serialize");
}

#[test]
fn decoding_failure_shows_its_bytes() {
    let bytes = [0x08, 0x48, 0x30, 0x04, 0x5D, 0x17, 0x99];
    let parser = Parser::new(&bytes, true);
    let e = amvm::tokens::program::Program::visit(parser).unwrap_err();
    assert_eq!(e.at, 6);
    let shown = parser.at(4).new_line().explain(&e);
    assert_eq!(shown, "Unknown value kind at byte 0x06\n04 | 5d 17 99 \n   |       ^");
    let text = Parser::new(b"one\ntwo words", false);
    let at = Parser { line: 1, line_byte_start: 4, pointer: 8, ..text };
    assert_eq!(at.describe("Expected a word"), "Expected a word at (1, 4)\n1 | two words\n  |     ^");
}

#[test]
fn variable_kinds_are_ordered_by_strictness() {
    let order = [VariableKind::Const, VariableKind::Let, VariableKind::Mut, VariableKind::Var];
    for (i, a) in order.iter().enumerate() {
        for (j, b) in order.iter().enumerate() {
            assert_eq!(a.partial_cmp(b), Some(i.cmp(&j)));
        }
    }
    assert_eq!(VariableKind::Const.partial_cmp(&VariableKind::Var), Some(Ordering::Less));
    assert_eq!(VariableKind::from_str("let"), Some(VariableKind::Let));
    assert_eq!(VariableKind::from_str("Let"), None);
    assert_eq!(VariableKind::Mut.name(), "Mut");
}
