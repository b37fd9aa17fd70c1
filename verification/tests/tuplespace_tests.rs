use fmpl_core::tuplespace::facet::{TuplePermissions, TupleSpaceFacet};
use fmpl_core::error::Error;
use fmpl_core::tuplespace::store::{plan_notifications, tuple_event_value, Blocking, Delivery, TupleSpace};
use fmpl_core::tuplespace::{Pattern, Tuple, TuplePattern};
use fmpl_core::value::Value;

fn s(x: &str) -> String {
    x.to_string()
}

fn ready(r: Result<Blocking, Error>) -> Tuple {
    match r.unwrap() {
        Blocking::Ready(t) => t,
        Blocking::Wait => panic!("expected a tuple, not a wait"),
    }
}

fn waits(r: Result<Blocking, Error>) -> bool {
    matches!(r, Ok(Blocking::Wait))
}

fn denied<T>(r: Result<T, Error>) -> String {
    match r {
        Err(Error::Runtime(m)) => m,
        Ok(_) => panic!("expected a denial"),
    }
}

fn make_map(pairs: Vec<(&str, Value)>) -> Value {
    Value::Dict(pairs.into_iter().map(|(k, v)| (s(k), v)).collect())
}

#[test]
fn test_permissions_all() {
    let perms = TuplePermissions::all();
    assert!(perms.can_out);
    assert!(perms.can_in);
    assert!(perms.can_rd);
}

#[test]
fn test_permissions_readonly() {
    let perms = TuplePermissions::readonly();
    assert!(!perms.can_out);
    assert!(!perms.can_in);
    assert!(perms.can_rd);
}

#[test]
fn test_permissions_writeonly() {
    let perms = TuplePermissions::writeonly();
    assert!(perms.can_out);
    assert!(!perms.can_in);
    assert!(!perms.can_rd);
}

#[test]
fn test_pattern_wildcard_matches_anything() {
    let pattern = Pattern::Wildcard;
    assert!(pattern.matches(&Value::Int(42)));
    assert!(pattern.matches(&Value::String(s("hello"))));
    assert!(pattern.matches(&Value::Null));
}

#[test]
fn test_pattern_exact_matches_equal_values() {
    let pattern = Pattern::Exact(Value::Int(42));
    assert!(pattern.matches(&Value::Int(42)));
    assert!(!pattern.matches(&Value::Int(43)));
    assert!(!pattern.matches(&Value::String(s("42"))));
}

#[test]
fn test_pattern_map_matches_subset() {
    let pattern = Pattern::Dict { required: vec![(s("x"), Value::Int(1)), (s("y"), Value::Int(2))] };
    let value = make_map(vec![("x", Value::Int(1)), ("y", Value::Int(2)), ("z", Value::Int(3))]);
    assert!(pattern.matches(&value));
    let value = make_map(vec![("x", Value::Int(1)), ("y", Value::Int(2))]);
    assert!(pattern.matches(&value));
    let value = make_map(vec![("x", Value::Int(1))]);
    assert!(!pattern.matches(&value));
    let value = make_map(vec![("x", Value::Int(1)), ("y", Value::Int(99))]);
    assert!(!pattern.matches(&value));
}

#[test]
fn test_pattern_map_requires_map_value() {
    let pattern = Pattern::Dict { required: vec![(s("x"), Value::Int(1))] };
    assert!(!pattern.matches(&Value::Int(42)));
    assert!(!pattern.matches(&Value::String(s("hello"))));
}

#[test]
fn value_equality_treats_maps_as_maps() {
    let a = make_map(vec![("x", Value::Int(1)), ("y", Value::List(vec![Value::Int(2)]))]);
    let b = make_map(vec![("y", Value::List(vec![Value::Int(2)])), ("x", Value::Int(1))]);
    let c = make_map(vec![("x", Value::Int(0)), ("y", Value::List(vec![Value::Int(2)])), ("x", Value::Int(1))]);
    let d = make_map(vec![("x", Value::Int(1))]);
    assert!(a.equals(&b));
    assert!(a.equals(&c));
    assert!(!a.equals(&d));
    assert!(!d.equals(&a));
    assert!(Pattern::Exact(a).matches(&c));
    assert!(!Value::List(vec![Value::Int(1)]).equals(&Value::List(vec![Value::Int(1), Value::Int(2)])));
    assert!(!Value::String(s("a")).equals(&Value::Symbol(s("a"))));
}

#[test]
fn test_tuple_pattern_any_matches_all() {
    let pattern = TuplePattern::Any;
    let tuple = Tuple::new(s("event"), Value::Int(42));
    assert!(pattern.matches(&tuple));
}

#[test]
fn test_tuple_pattern_type_and_data() {
    let pattern = TuplePattern::TypeAndData { tuple_type: s("event"), data: Pattern::Exact(Value::Int(42)) };
    assert!(pattern.matches(&Tuple::new(s("event"), Value::Int(42))));
    assert!(!pattern.matches(&Tuple::new(s("other"), Value::Int(42))));
    assert!(!pattern.matches(&Tuple::new(s("event"), Value::Int(99))));
}

#[test]
fn test_tuple_pattern_full() {
    let pattern = TuplePattern::Full {
        namespace: s("user123"),
        tuple_type: s("click"),
        data: Pattern::Dict { required: vec![(s("x"), Value::Int(100))] },
    };
    let tuple = Tuple::new(s("click"), make_map(vec![("x", Value::Int(100)), ("y", Value::Int(200))]))
        .with_namespace(s("user123"));
    assert!(pattern.matches(&tuple));
    let wrong_namespace = Tuple::new(s("click"), make_map(vec![("x", Value::Int(100))])).with_namespace(s("user456"));
    assert!(!pattern.matches(&wrong_namespace));
    assert!(!pattern.matches(&Tuple::new(s("click"), make_map(vec![("x", Value::Int(100))]))));
}

#[test]
fn test_tuple_builder_methods() {
    let tuple = Tuple::new(s("test"), Value::Int(42)).with_namespace(s("ns")).with_timestamp(123).with_seq(456);
    assert_eq!(tuple.tuple_type, s("test"));
    assert_eq!(tuple.namespace, Some(s("ns")));
    assert_eq!(tuple.timestamp, 123);
    assert_eq!(tuple.seq, 456);
    assert_eq!(tuple.data, Value::Int(42));
}

#[test]
fn test_out_and_in() {
    let mut space = TupleSpace::new();
    space.out(Tuple::new(s("test"), Value::Int(42))).unwrap();
    let pattern = TuplePattern::TypeAndData { tuple_type: s("test"), data: Pattern::Wildcard };
    let result = ready(space.in_(&pattern));
    assert_eq!(result.data, Value::Int(42));
}

#[test]
fn test_in_returns_fifo() {
    let mut space = TupleSpace::new();
    space.out(Tuple::new(s("test"), Value::Int(1))).unwrap();
    space.out(Tuple::new(s("test"), Value::Int(2))).unwrap();
    let pattern = TuplePattern::TypeAndData { tuple_type: s("test"), data: Pattern::Wildcard };
    assert_eq!(ready(space.in_(&pattern)).data, Value::Int(1));
    assert_eq!(ready(space.in_(&pattern)).data, Value::Int(2));
    assert!(waits(space.in_(&pattern)));
}

#[test]
fn test_rdp_non_blocking() {
    let mut space = TupleSpace::new();
    let pattern = TuplePattern::Any;
    assert!(space.rdp(&pattern).unwrap().is_none());
    space.out(Tuple::new(s("test"), Value::Int(42))).unwrap();
    assert!(space.rdp(&pattern).unwrap().is_some());
}

#[test]
fn test_rd_is_non_destructive() {
    let mut space = TupleSpace::new();
    space.out(Tuple::new(s("test"), Value::Int(42))).unwrap();
    let pattern = TuplePattern::Any;
    assert_eq!(ready(space.rd(&pattern)).data, Value::Int(42));
    assert_eq!(ready(space.rd(&pattern)).data, Value::Int(42));
}

#[test]
fn test_in_is_destructive() {
    let mut space = TupleSpace::new();
    space.out(Tuple::new(s("test"), Value::Int(42))).unwrap();
    let pattern = TuplePattern::Any;
    assert_eq!(ready(space.in_(&pattern)).data, Value::Int(42));
    assert!(space.inp(&pattern).unwrap().is_none());
    assert!(waits(space.in_(&pattern)));
    assert!(waits(space.rd(&pattern)));
}

#[test]
fn matching_follows_key_order() {
    let mut space = TupleSpace::new();
    space.out(Tuple::new(s("b"), Value::Int(1))).unwrap();
    space.out(Tuple::new(s("a"), Value::Int(2))).unwrap();
    space.out(Tuple::new(s("a"), Value::Int(3)).with_namespace(s("ns"))).unwrap();
    let any = TuplePattern::Any;
    assert_eq!(ready(space.in_(&any)).data, Value::Int(2));
    assert_eq!(ready(space.in_(&any)).data, Value::Int(1));
    assert_eq!(ready(space.in_(&any)).data, Value::Int(3));
    assert!(space.inp(&any).unwrap().is_none());
}

#[test]
fn subscriber_event_carries_type_namespace_and_data() {
    let t = Tuple::new(s("log"), Value::String(s("error"))).with_namespace(s("ns"));
    let v = tuple_event_value(&t);
    let expected = make_map(vec![
        ("type", Value::String(s("log"))),
        ("namespace", Value::String(s("ns"))),
        ("data", Value::String(s("error"))),
    ]);
    assert!(v.equals(&expected));
    let v2 = tuple_event_value(&Tuple::new(s("log"), Value::Int(1)));
    assert!(v2.equals(&make_map(vec![("type", Value::String(s("log"))), ("data", Value::Int(1))])));
}

#[test]
fn test_facet_namespace_restriction() {
    let mut space = TupleSpace::new();
    let facet = TupleSpaceFacet::new().with_namespace(s("user_1"));
    facet.out(&mut space, s("event"), Value::String(s("data"))).unwrap();
    let pattern = TuplePattern::Full { namespace: s("user_1"), tuple_type: s("event"), data: Pattern::Wildcard };
    assert!(space.rdp(&pattern).unwrap().is_some());
    let pattern2 = TuplePattern::Full { namespace: s("user_2"), tuple_type: s("event"), data: Pattern::Wildcard };
    assert!(space.rdp(&pattern2).unwrap().is_none());
    let other = TupleSpaceFacet::new().with_namespace(s("user_2"));
    let by_type = TuplePattern::TypeAndData { tuple_type: s("event"), data: Pattern::Wildcard };
    assert!(other.rdp(&mut space, &by_type).unwrap().is_none());
    assert!(facet.rdp(&mut space, &by_type).unwrap().is_some());
}

#[test]
fn test_facet_readonly_permission() {
    let mut space = TupleSpace::new();
    let facet = TupleSpaceFacet::new().readonly();
    space.out(Tuple::new(s("event"), Value::Int(42))).unwrap();
    let pattern = TuplePattern::Any;
    assert_eq!(ready(facet.rd(&mut space, &pattern)).data, Value::Int(42));
    assert_eq!(
        denied(facet.out(&mut space, s("event"), Value::Int(99))),
        "permission denied: out operation not allowed"
    );
    assert_eq!(denied(facet.in_(&mut space, &pattern)), "permission denied: in operation not allowed");
    assert_eq!(denied(facet.inp(&mut space, &pattern)), "permission denied: inp operation not allowed");
}

#[test]
fn test_facet_writeonly_permission() {
    let mut space = TupleSpace::new();
    let facet = TupleSpaceFacet::new().writeonly();
    assert!(facet.out(&mut space, s("event"), Value::Int(42)).is_ok());
    let pattern = TuplePattern::Any;
    assert_eq!(denied(facet.rd(&mut space, &pattern)), "permission denied: rd operation not allowed");
    assert_eq!(denied(facet.rdp(&mut space, &pattern)), "permission denied: rdp operation not allowed");
    assert!(facet.inp(&mut space, &pattern).is_err());
}

#[test]
fn facet_any_pattern_matches_every_tuple_of_its_namespace() {
    let mut space = TupleSpace::new();
    space.out(Tuple::new(s("event"), Value::Int(7)).with_namespace(s("user_2"))).unwrap();
    space.out(Tuple::new(s("event"), Value::Int(8))).unwrap();
    let facet = TupleSpaceFacet::new().with_namespace(s("user_1"));
    assert!(facet.rdp(&mut space, &TuplePattern::Any).unwrap().is_none());
    assert!(waits(facet.rd(&mut space, &TuplePattern::Any)));
    facet.out(&mut space, s("event"), Value::Int(42)).unwrap();
    let t = facet.rdp(&mut space, &TuplePattern::Any).unwrap().unwrap();
    assert_eq!(t.tuple_type, "event");
    assert_eq!(t.namespace, Some(s("user_1")));
    let other_ns = TuplePattern::Full { namespace: s("user_2"), tuple_type: s("event"), data: Pattern::Wildcard };
    assert_eq!(ready(facet.in_(&mut space, &other_ns)).data, Value::Int(42));
    assert!(waits(facet.in_(&mut space, &TuplePattern::Any)));
    assert_eq!(space.inp(&TuplePattern::Any).unwrap().unwrap().data, Value::Int(8));
}

#[test]
fn notification_plan_drops_closed_and_sends_to_matching() {
    let t = Tuple::new(s("job"), Value::Int(1));
    let subs = vec![
        (TuplePattern::Any, true),
        (TuplePattern::TypeAndData { tuple_type: s("job"), data: Pattern::Wildcard }, false),
        (TuplePattern::TypeAndData { tuple_type: s("other"), data: Pattern::Wildcard }, false),
        (TuplePattern::Any, false),
    ];
    assert_eq!(
        plan_notifications(&subs, &t),
        vec![Delivery::Drop, Delivery::Send, Delivery::Skip, Delivery::Send]
    );
    assert!(plan_notifications(&vec![], &t).is_empty());
}
