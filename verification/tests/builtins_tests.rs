use fmpl_core::builtins::bridge::NameTable;
use fmpl_core::builtins::curl::CurlBuiltin;
use fmpl_core::builtins::human::{ApprovalTerms, HumanBuiltin, DEFAULT_APPROVAL_TIMEOUT_MS};
use fmpl_core::builtins::io::{EnvBuiltin, EnvLookup, IoBuiltin};
use fmpl_core::builtins::rand::RandBuiltin;
use fmpl_core::debug_text::debug_text;
use fmpl_core::error::Error;
use fmpl_core::value::Value;

fn s(x: &str) -> String {
    x.to_string()
}

fn dict(pairs: Vec<(&str, Value)>) -> Value {
    Value::Dict(pairs.into_iter().map(|(k, v)| (s(k), v)).collect())
}

fn runtime_message<T>(r: Result<T, Error>) -> String {
    match r {
        Err(Error::Runtime(m)) => m,
        Ok(_) => panic!("expected an error"),
    }
}

#[test]
fn rand_int_stays_in_half_open_range() {
    for _ in 0..200 {
        match RandBuiltin::int_range(3, 7).unwrap() {
            Value::Int(n) => assert!((3..7).contains(&n)),
            other => panic!("unexpected {:?}", other),
        }
    }
    for _ in 0..200 {
        match RandBuiltin::int_range(10, -2).unwrap() {
            Value::Int(n) => assert!((-2..10).contains(&n)),
            other => panic!("unexpected {:?}", other),
        }
    }
    assert_eq!(RandBuiltin::int_range(5, 6).unwrap(), Value::Int(5));
    assert_eq!(RandBuiltin::int_range(6, 5).unwrap(), Value::Int(5));
}

#[test]
fn env_lookup_outcomes() {
    assert_eq!(
        IoBuiltin::get_env("HOME", EnvLookup::Present(s("/root"))).unwrap(),
        Value::String(s("/root"))
    );
    assert_eq!(IoBuiltin::get_env("NOPE", EnvLookup::NotPresent).unwrap(), Value::Null);
    let m = runtime_message(EnvBuiltin::get("BAD", EnvLookup::NotUnicode(s("not unicode"))));
    assert_eq!(m, "Failed to read env var 'BAD': not unicode");
    assert_eq!(EnvBuiltin::get("X", EnvLookup::Present(s(""))).unwrap(), Value::String(s("")));
}

#[test]
fn approval_request_from_map() {
    let req = dict(vec![
        ("action", Value::String(s("deploy"))),
        ("details", Value::String(s("to prod"))),
        ("timeout_ms", Value::Int(500)),
    ]);
    let t = HumanBuiltin::parse_request(&req).unwrap();
    assert_eq!(t.action, "deploy");
    assert_eq!(t.details, Some(s("to prod")));
    assert_eq!(t.timeout_ms, 500);
    let v = HumanBuiltin::request_value(&t);
    assert!(v.equals(&dict(vec![
        ("details", Value::String(s("to prod"))),
        ("action", Value::String(s("deploy"))),
    ])));
}

#[test]
fn approval_request_defaults_and_errors() {
    let t = HumanBuiltin::parse_request(&Value::String(s("push"))).unwrap();
    assert_eq!(t.action, "push");
    assert_eq!(t.details, None);
    assert_eq!(t.timeout_ms, DEFAULT_APPROVAL_TIMEOUT_MS);
    assert_eq!(
        HumanBuiltin::request_value(&t),
        dict(vec![("action", Value::String(s("push")))])
    );

    let t = HumanBuiltin::parse_request(&dict(vec![
        ("action", Value::String(s("a"))),
        ("details", Value::Int(3)),
        ("timeout_ms", Value::String(s("soon"))),
    ]))
    .unwrap();
    assert_eq!(t.details, None);
    assert_eq!(t.timeout_ms, 30000);

    let t = HumanBuiltin::parse_request(&dict(vec![
        ("action", Value::String(s("a"))),
        ("timeout_ms", Value::Int(-1)),
    ]))
    .unwrap();
    assert_eq!(t.timeout_ms, u64::MAX);

    let m = runtime_message(HumanBuiltin::parse_request(&dict(vec![("action", Value::Int(1))])));
    assert_eq!(m, "human.approve requires 'action' string in request");
    let m = runtime_message(HumanBuiltin::parse_request(&dict(vec![])));
    assert_eq!(m, "human.approve requires 'action' string in request");
    let m = runtime_message(HumanBuiltin::parse_request(&Value::Int(4)));
    assert_eq!(m, "human.approve requires string or map request");

    let later_wins = dict(vec![
        ("action", Value::Int(1)),
        ("action", Value::String(s("second"))),
    ]);
    assert_eq!(HumanBuiltin::parse_request(&later_wins).unwrap().action, "second");
    let _unused = ApprovalTerms { action: s("x"), details: None, timeout_ms: 1 };
}

#[test]
fn curl_headers_from_options() {
    assert!(CurlBuiltin::extract_headers(None).unwrap().is_empty());
    assert!(CurlBuiltin::extract_headers(Some(&Value::Int(1))).unwrap().is_empty());
    assert!(CurlBuiltin::extract_headers(Some(&dict(vec![]))).unwrap().is_empty());
    assert!(CurlBuiltin::extract_headers(Some(&dict(vec![("headers", Value::Null)])))
        .unwrap()
        .is_empty());

    let opts = dict(vec![(
        "headers",
        dict(vec![
            ("Accept", Value::String(s("text/plain"))),
            ("X-Id", Value::String(s("7"))),
        ]),
    )]);
    let mut h = CurlBuiltin::extract_headers(Some(&opts)).unwrap();
    h.sort();
    assert_eq!(h, vec![(s("Accept"), s("text/plain")), (s("X-Id"), s("7"))]);

    let shadowed = dict(vec![(
        "headers",
        dict(vec![("A", Value::Int(1)), ("A", Value::String(s("ok")))]),
    )]);
    assert_eq!(CurlBuiltin::extract_headers(Some(&shadowed)).unwrap(), vec![(s("A"), s("ok"))]);

    let bad = dict(vec![("headers", dict(vec![("Bad", Value::Int(5))]))]);
    let m = runtime_message(CurlBuiltin::extract_headers(Some(&bad)));
    assert_eq!(m, "Header value for 'Bad' must be string, got Int(5)");
}

#[test]
fn name_table_later_entries_replace_earlier() {
    let mut t: NameTable<i32> = NameTable::new();
    assert!(t.get("a").is_none());
    t.insert(s("a"), 1);
    t.insert(s("b"), 2);
    t.insert(s("a"), 3);
    assert_eq!(t.get("a"), Some(&3));
    assert_eq!(t.get("b"), Some(&2));
    assert!(t.get("c").is_none());
}

#[test]
fn debug_text_of_values() {
    assert_eq!(debug_text(&Value::Null), "Null");
    assert_eq!(debug_text(&Value::Bool(false)), "Bool(false)");
    assert_eq!(debug_text(&Value::Int(-1203)), "Int(-1203)");
    assert_eq!(debug_text(&Value::Int(i64::MIN)), "Int(-9223372036854775808)");
    assert_eq!(debug_text(&Value::Int(0)), "Int(0)");
    assert_eq!(debug_text(&Value::String(s("a\"b\\c\n\u{1}\u{1b}é"))), "String(\"a\\\"b\\\\c\\n\\u{1}\\u{1b}é\")");
    assert_eq!(debug_text(&Value::Symbol(s("x"))), "Symbol(\"x\")");
    assert_eq!(debug_text(&Value::List(vec![])), "List([])");
    assert_eq!(
        debug_text(&Value::List(vec![Value::Int(1), Value::Null, Value::List(vec![Value::Bool(true)])])),
        "List([Int(1), Null, List([Bool(true)])])"
    );
    assert_eq!(debug_text(&dict(vec![])), "Map({})");
    assert_eq!(
        debug_text(&dict(vec![("k", Value::Int(1)), ("q\"", Value::String(s("v")))])),
        "Map({\"k\": Int(1), \"q\\\"\": String(\"v\")})"
    );
    // std's own escaping agrees on the characters these values use
    assert_eq!(format!("{:?}", "a\"b\\c\n\u{1}\u{1b}é"), "\"a\\\"b\\\\c\\n\\u{1}\\u{1b}é\"");
}
