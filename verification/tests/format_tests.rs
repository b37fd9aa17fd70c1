use fmpl_core::bytecode::format::{decode_bytecode, encode_bytecode, CompiledCode, BYTECODE_VERSION};
use fmpl_core::compiler::{InstrRef, Instruction};
use fmpl_core::cross_compile::{infer_types, operand_type, TapeType};
use fmpl_core::error::Error;
use fmpl_core::pattern::{
    CharPattern, GuardPredicate, ListPattern, LiteralValue, Pattern, PatternMode, RepeatKind,
};
use fmpl_core::stream::{SinkSource, StreamBuffer, StreamEvent, StreamSource};
use fmpl_core::value::Value;

#[test]
fn test_encode_decode_roundtrip() {
    let code = CompiledCode::new();
    let bytes = encode_bytecode(&code).unwrap();
    let decoded = decode_bytecode(&bytes).unwrap();
    assert_eq!(decoded.instructions.len(), 0);
}

#[test]
fn bytecode_header_and_errors() {
    let bytes = encode_bytecode(&CompiledCode { instructions: vec![Instruction::LoadNull, Instruction::PushScope] }).unwrap();
    assert_eq!(bytes, BYTECODE_VERSION.to_le_bytes().to_vec());
    assert_eq!(bytes, vec![1, 0]);
    match decode_bytecode(&[1]) {
        Err(Error::Runtime(m)) => assert_eq!(m, "bytecode too short"),
        Ok(_) => panic!("expected error"),
    }
    match decode_bytecode(&[2, 0]) {
        Err(Error::Runtime(m)) => assert_eq!(m, "bytecode version mismatch"),
        Ok(_) => panic!("expected error"),
    }
    match decode_bytecode(&[0, 1]) {
        Err(Error::Runtime(m)) => assert_eq!(m, "bytecode version mismatch"),
        Ok(_) => panic!("expected error"),
    }
    assert!(decode_bytecode(&[1, 0, 7, 7]).is_ok());
}

#[test]
fn pattern_modes() {
    let full = vec![
        Pattern::Sequence(vec![]),
        Pattern::Choice(vec![Pattern::Any]),
        Pattern::Repeat { pattern: Box::new(Pattern::Any), kind: RepeatKind::OneOrMore },
        Pattern::Lookahead { pattern: Box::new(Pattern::Any), positive: false },
        Pattern::Guard {
            pattern: Box::new(Pattern::Any),
            predicate: GuardPredicate::TypeCheck("is_int".to_string()),
        },
        Pattern::Action { pattern: Box::new(Pattern::Any), action: "x".to_string() },
        Pattern::Char(CharPattern::Exact('a')),
        Pattern::List(ListPattern::Repeat { element: Box::new(Pattern::Any) }),
    ];
    for p in &full {
        assert!(p.requires_full_mode());
        assert_eq!(p.recommended_mode(), PatternMode::Full);
    }
    let fast = vec![
        Pattern::Any,
        Pattern::Var("x".to_string()),
        Pattern::Literal(LiteralValue::Float(1.5f64.to_bits())),
        Pattern::Dict(vec![("k".to_string(), Pattern::Any)]),
        Pattern::List(ListPattern::Exact(vec![])),
        Pattern::List(ListPattern::HeadTail { head: Box::new(Pattern::Any), tail: None }),
        Pattern::Tagged { tag: "T".to_string(), patterns: vec![] },
        Pattern::Optional(Box::new(Pattern::Any)),
        Pattern::Bind { name: "n".to_string(), pattern: Box::new(Pattern::Any) },
        Pattern::ApplyRule("digit".to_string()),
    ];
    for p in &fast {
        assert!(!p.requires_full_mode());
        assert_eq!(p.recommended_mode(), PatternMode::Fast);
    }
}

fn buf(n: usize) -> StreamBuffer {
    StreamBuffer {
        partition: "p".to_string(),
        key_prefix: "k".to_string(),
        position: n,
        bytes_received: n * 2,
    }
}

#[test]
fn stream_sources() {
    let get = StreamSource::HttpGet { url: "u".to_string(), headers: vec![], buffer: None };
    assert!(get.is_resumable());
    assert!(get.buffer().is_none());
    let get = get.with_buffer(buf(3));
    assert_eq!(get.buffer(), Some(&buf(3)));
    assert!(get.is_resumable());
    let post = StreamSource::HttpPost {
        url: "u".to_string(),
        body: "b".to_string(),
        headers: vec![("A".to_string(), "1".to_string())],
        buffer: Some(buf(1)),
    };
    assert!(!post.is_resumable());
    let post = post.with_buffer(buf(2));
    assert_eq!(
        post,
        StreamSource::HttpPost {
            url: "u".to_string(),
            body: "b".to_string(),
            headers: vec![("A".to_string(), "1".to_string())],
            buffer: Some(buf(2)),
        }
    );
    assert!(StreamSource::WebSocket { url: "w".to_string(), buffer: None }.is_resumable());
    assert!(StreamSource::File { path: "f".to_string(), position: 4, buffer: None }.is_resumable());
    assert!(StreamSource::LlmCompletion {
        model: "m".to_string(),
        context: "c".to_string(),
        buffer: None
    }
    .is_resumable());
    assert!(!StreamSource::Mock.is_resumable());
    assert_eq!(StreamSource::Mock.with_buffer(buf(1)), StreamSource::Mock);
    assert!(StreamSource::Ephemeral.buffer().is_none());
    let dis = StreamSource::Disconnected { original: Box::new(StreamSource::Mock), reason: "r".to_string() };
    assert!(!dis.is_resumable());

    assert!(SinkSource::WebSocket { url: "w".to_string() }.is_resumable());
    assert!(SinkSource::File { path: "f".to_string() }.is_resumable());
    assert!(!SinkSource::HttpResponse { request_id: "1".to_string() }.is_resumable());
    assert!(!SinkSource::Mock.is_resumable());
    assert!(!SinkSource::Ephemeral.is_resumable());

    let ev = StreamEvent::Success(Value::Int(1));
    assert!(matches!(ev, StreamEvent::Success(Value::Int(1))));
}

#[test]
fn sink_source_duplicate_is_equal() {
    let s = SinkSource::Disconnected {
        original: Box::new(SinkSource::File { path: "f".to_string() }),
        reason: "gone".to_string(),
    };
    assert_eq!(s.duplicate(), s);
    assert_eq!(SinkSource::Mock.duplicate(), SinkSource::Mock);
}

#[test]
fn type_inference_over_instructions() {
    let s = |x: &str| x.to_string();
    let code = vec![
        Instruction::LoadInt(1),
        Instruction::LoadFloat(2.5f64.to_bits()),
        Instruction::Add { lhs: InstrRef(0), rhs: InstrRef(1) },
        Instruction::Sub { lhs: InstrRef(0), rhs: InstrRef(0) },
        Instruction::Neg { operand: InstrRef(1) },
        Instruction::Lt { lhs: InstrRef(0), rhs: InstrRef(1) },
        Instruction::Bind { name: s("x"), value: InstrRef(1) },
        Instruction::LoadVar(s("x")),
        Instruction::LoadVar(s("y")),
        Instruction::Bind { name: s("x"), value: InstrRef(5) },
        Instruction::LoadVar(s("x")),
        Instruction::Copy { source: InstrRef(10) },
        Instruction::NameRef { bind: InstrRef(6) },
        Instruction::Add { lhs: InstrRef(13), rhs: InstrRef(0) },
        Instruction::LoadString(s("a")),
        Instruction::LoadNull,
        Instruction::PushScope,
        Instruction::MakeList { elements: vec![InstrRef(0)] },
        Instruction::Neg { operand: InstrRef(18) },
    ];
    let t = infer_types(&code);
    assert_eq!(
        t,
        vec![
            TapeType::I64,
            TapeType::F64,
            TapeType::F64,
            TapeType::I64,
            TapeType::F64,
            TapeType::Bool,
            TapeType::F64,
            TapeType::F64,
            TapeType::Unknown,
            TapeType::Bool,
            TapeType::Bool,
            TapeType::Bool,
            TapeType::F64,
            TapeType::I64,
            TapeType::Str,
            TapeType::Unit,
            TapeType::Unknown,
            TapeType::Unknown,
            TapeType::I64,
        ]
    );
    assert_eq!(operand_type(&t, 0, 1), TapeType::F64);
    assert_eq!(operand_type(&t, 0, 14), TapeType::Str);
    assert_eq!(operand_type(&t, 0, 5), TapeType::I64);
    assert_eq!(operand_type(&t, 99, 0), TapeType::I64);
    assert!(infer_types(&[]).is_empty());
}
