use fmpl_core::compute::{drain, force, Computation, Range, Ready, Step, StepCtx};
use fmpl_core::value::Value;

#[test]
fn force_ready_returns_its_value() {
    let mut ctx = StepCtx::new();
    let mut c = Ready(Some(Value::Int(42)));
    assert_eq!(force(&mut c, &mut ctx).unwrap(), Value::Int(42));
}

#[test]
fn drain_range_collects_yielded_elements_then_done() {
    let mut ctx = StepCtx::new();
    let mut c = Range { next: 0, end: 3 };
    let out = drain(&mut c, &mut ctx).unwrap();
    assert_eq!(out, vec![Value::Int(0), Value::Int(1), Value::Int(2)]);
    assert_eq!(c.next, 3);
}

#[test]
fn each_step_advances_exactly_one_element_in_order() {
    let mut ctx = StepCtx::new();
    let mut c = Range { next: 10, end: 13 };
    assert!(matches!(c.step(&mut ctx).unwrap(), Step::Yield(Value::Int(10))));
    assert!(matches!(c.step(&mut ctx).unwrap(), Step::Yield(Value::Int(11))));
    assert!(matches!(c.step(&mut ctx).unwrap(), Step::Yield(Value::Int(12))));
    assert!(matches!(c.step(&mut ctx).unwrap(), Step::Done(Value::Null)));
    assert!(matches!(c.step(&mut ctx).unwrap(), Step::Done(Value::Null)));
}

#[test]
fn large_range_drains_without_unbounded_recursion() {
    let mut ctx = StepCtx::new();
    let mut c = Range { next: 0, end: 1_000_000 };
    let out = drain(&mut c, &mut ctx).unwrap();
    assert_eq!(out.len(), 1_000_000);
    assert_eq!(out.first(), Some(&Value::Int(0)));
    assert_eq!(out.last(), Some(&Value::Int(999_999)));
}

#[test]
fn ready_finishes_with_null_after_its_value() {
    let mut ctx = StepCtx::new();
    let mut c = Ready(Some(Value::Int(7)));
    assert!(matches!(c.step(&mut ctx).unwrap(), Step::Done(Value::Int(7))));
    assert!(matches!(c.step(&mut ctx).unwrap(), Step::Done(Value::Null)));
    assert_eq!(force(&mut Ready(None), &mut ctx).unwrap(), Value::Null);
}

#[test]
fn empty_and_forced_ranges() {
    let mut ctx = StepCtx::new();
    assert!(drain(&mut Range { next: 5, end: 2 }, &mut ctx).unwrap().is_empty());
    assert_eq!(force(&mut Range { next: 0, end: 10 }, &mut ctx).unwrap(), Value::Null);
}
