//! Trampolined computation substrate: a value that is a not-yet-forced
//! computation, advanced one bounded step at a time.

use crate::error::Result;
use crate::value::{Datum, Value};
use vstd::prelude::*;

verus! {

/// The outcome of advancing a computation by one bounded step.
pub enum Step {
    /// Finished with a final value.
    Done(Value),
    /// Emitted one sequence element; call `step` again for more.
    Yield(Value),
    /// Suspended; call `step` again when ready.
    Pending,
}

/// Context threaded through `step`.
pub struct StepCtx {}

impl StepCtx {
    pub fn new() -> (r: Self) {
        StepCtx {  }
    }
}

/// A value that is a computation, advanced cooperatively one bounded step
/// per `step` call; `&mut self` is the continuation.
///
/// Its model is the sequence of elements it will still yield, the value it
/// will finish with, and a bound on the steps it may take before finishing.
pub trait Computation: Sized {
    /// Elements still to be yielded, in order.
    spec fn remaining(&self) -> Seq<Datum>;

    /// The value the computation finishes with.
    spec fn outcome(&self) -> Datum;

    /// A bound on the `Yield` and `Pending` steps still to come.
    spec fn fuel(&self) -> nat;

    /// Whether a step of this computation may report an error; one that
    /// cannot does not become able to later.
    spec fn may_fail(&self) -> bool;

    /// The state this computation is left in once it has finished.
    spec fn exhausted(&self) -> Self;

    /// Advance by one step: yield the next element, report that it is
    /// pending, or finish once nothing is left to yield.
    fn step(&mut self, ctx: &mut StepCtx) -> (r: Result<Step>)
        ensures
            match r {
                Ok(Step::Done(v)) => {
                    &&& old(self).remaining().len() == 0
                    &&& v.datum() == old(self).outcome()
                    &&& final(self).remaining().len() == 0
                    &&& *final(self) == old(self).exhausted()
                },
                Ok(Step::Yield(v)) => {
                    &&& old(self).remaining().len() > 0
                    &&& v.datum() == old(self).remaining()[0]
                    &&& final(self).remaining() == old(self).remaining().drop_first()
                    &&& final(self).outcome() == old(self).outcome()
                    &&& final(self).fuel() < old(self).fuel()
                    &&& (final(self).may_fail() ==> old(self).may_fail())
                    &&& final(self).exhausted() == old(self).exhausted()
                },
                Ok(Step::Pending) => {
                    &&& final(self).remaining() == old(self).remaining()
                    &&& final(self).outcome() == old(self).outcome()
                    &&& final(self).fuel() < old(self).fuel()
                    &&& (final(self).may_fail() ==> old(self).may_fail())
                    &&& final(self).exhausted() == old(self).exhausted()
                },
                Err(_) => old(self).may_fail(),
            },
    ;
}

/// A computation that is already a value: finishes with it at once (and
/// with `Null` on any later step).
pub struct Ready(pub Option<Value>);

impl Computation for Ready {
    open spec fn remaining(&self) -> Seq<Datum> {
        seq![]
    }

    open spec fn outcome(&self) -> Datum {
        match self.0 {
            Some(v) => v.datum(),
            None => Datum::Null,
        }
    }

    open spec fn fuel(&self) -> nat {
        0
    }

    open spec fn may_fail(&self) -> bool {
        false
    }

    open spec fn exhausted(&self) -> Self {
        Ready(None)
    }

    fn step(&mut self, ctx: &mut StepCtx) -> (r: Result<Step>)
        ensures
            r matches Ok(Step::Done(_)),
            final(self).0 is None,
    {
        match self.0.take() {
            Some(v) => Ok(Step::Done(v)),
            None => Ok(Step::Done(Value::Null)),
        }
    }
}

/// The integers `next..end` as values.
pub open spec fn int_range(next: int, end: int) -> Seq<Datum> {
    Seq::new(if next < end { (end - next) as nat } else { 0 }, |i: int| Datum::Int(next + i))
}

/// A computation that yields `next..end` as integers, then finishes with
/// `Null` (and keeps finishing with `Null`).
pub struct Range {
    pub next: i64,
    pub end: i64,
}

impl Computation for Range {
    open spec fn remaining(&self) -> Seq<Datum> {
        int_range(self.next as int, self.end as int)
    }

    open spec fn outcome(&self) -> Datum {
        Datum::Null
    }

    open spec fn fuel(&self) -> nat {
        if self.next < self.end {
            (self.end - self.next) as nat
        } else {
            0
        }
    }

    open spec fn may_fail(&self) -> bool {
        false
    }

    open spec fn exhausted(&self) -> Self {
        Range { next: if self.next < self.end { self.end } else { self.next }, end: self.end }
    }

    fn step(&mut self, ctx: &mut StepCtx) -> (r: Result<Step>)
        ensures
            old(self).next < old(self).end ==> (r matches Ok(Step::Yield(v)) && v == Value::Int(
                old(self).next,
            ) && *final(self) == (Range { next: (old(self).next + 1) as i64, end: old(self).end })),
            old(self).next >= old(self).end ==> (r matches Ok(Step::Done(v)) && v == Value::Null
                && *final(self) == *old(self)),
    {
        if self.next < self.end {
            let v = Value::Int(self.next);
            self.next += 1;
            assert(self.remaining() =~= old(self).remaining().drop_first());
            Ok(Step::Yield(v))
        } else {
            Ok(Step::Done(Value::Null))
        }
    }
}

/// Drive a computation to completion, returning its final value. Yielded
/// elements are discarded; pending steps are re-stepped; stepping stops at
/// the first `Done` (or error). It fails only where a step fails, so never
/// for a computation that cannot fail.
pub fn force<C: Computation>(c: &mut C, ctx: &mut StepCtx) -> (r: Result<Value>)
    ensures
        r matches Ok(v) ==> v.datum() == old(c).outcome() && final(c).remaining().len() == 0 && *final(c)
            == old(c).exhausted(),
        r is Err ==> old(c).may_fail(),
{
    loop
        invariant
            c.outcome() == old(c).outcome(),
            c.exhausted() == old(c).exhausted(),
            c.may_fail() ==> old(c).may_fail(),
        decreases c.fuel(),
    {
        match c.step(ctx) {
            Ok(Step::Done(v)) => return Ok(v),
            Ok(Step::Yield(_)) => {},
            Ok(Step::Pending) => {},
            Err(e) => return Err(e),
        }
    }
}

/// Drive a computation to completion, collecting every yielded element;
/// it is left with nothing more to yield. It fails only where a step fails, so never for a computation that
/// cannot fail.
pub fn drain<C: Computation>(c: &mut C, ctx: &mut StepCtx) -> (r: Result<Vec<Value>>)
    ensures
        r matches Ok(out) ==> out@.len() == old(c).remaining().len() && forall|i: int|
            0 <= i < out@.len() ==> (#[trigger] out@[i]).datum() == old(c).remaining()[i],
        r is Ok ==> final(c).remaining().len() == 0 && *final(c) == old(c).exhausted(),
        r is Err ==> old(c).may_fail(),
{
    let mut out: Vec<Value> = Vec::new();
    loop
        invariant
            c.exhausted() == old(c).exhausted(),
            c.may_fail() ==> old(c).may_fail(),
            out@.len() + c.remaining().len() == old(c).remaining().len(),
            forall|i: int| 0 <= i < out@.len() ==> (#[trigger] out@[i]).datum() == old(c).remaining()[i],
            forall|i: int|
                0 <= i < c.remaining().len() ==> #[trigger] c.remaining()[i] == old(c).remaining()[out@.len() + i],
        decreases c.fuel(),
    {
        let ghost before = c.remaining();
        match c.step(ctx) {
            Ok(Step::Yield(v)) => {
                out.push(v);
                assert forall|i: int| 0 <= i < c.remaining().len() implies #[trigger] c.remaining()[i]
                    == old(c).remaining()[out@.len() + i] by {
                    assert(c.remaining()[i] == before[i + 1]);
                }
            },
            Ok(Step::Pending) => {},
            Ok(Step::Done(_)) => return Ok(out),
            Err(e) => return Err(e),
        }
    }
}

} // verus!
