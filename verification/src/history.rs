//! The record of what a driver did with its bus and its delay source, and
//! the vocabulary in which operations are specified: a plan is the sequence
//! of steps of a run in which no write fails.

use vstd::prelude::*;

verus! {

/// One thing a driver did. `E` is the error type of its bus.
pub enum Step<E> {
    /// It wrote `bytes` to the device at `address`. The transport either
    /// accepted them (no `failure`) or refused them with an error.
    Write { address: u8, bytes: Seq<u8>, failure: Option<E> },
    /// It waited for `ms` milliseconds.
    DelayMs { ms: u32 },
    /// It waited for `us` microseconds.
    DelayUs { us: u32 },
}

impl<E> Step<E> {
    /// A write and what the transport made of it.
    pub open spec fn write(address: u8, bytes: Seq<u8>, failure: Option<E>) -> Step<E> {
        Step::Write { address, bytes, failure }
    }

    /// A write that the transport accepted.
    pub open spec fn sent(address: u8, bytes: Seq<u8>) -> Step<E> {
        Step::Write { address, bytes, failure: None }
    }

    /// A wait of `ms` milliseconds.
    pub open spec fn wait_ms(ms: u32) -> Step<E> {
        Step::DelayMs { ms }
    }

    /// A wait of `us` microseconds.
    pub open spec fn wait_us(us: u32) -> Step<E> {
        Step::DelayUs { us }
    }

    /// The error with which the transport refused this write; none if it
    /// accepted it, and none for a wait.
    pub open spec fn failure(self) -> Option<E> {
        match self {
            Step::Write { failure, .. } => failure,
            _ => None,
        }
    }

    /// Whether this is a write that the transport accepted.
    pub open spec fn is_sent(self) -> bool {
        self matches Step::Write { failure, .. } && failure is None
    }

    /// The same write, failed with `error`.
    pub open spec fn refused(self, error: E) -> Step<E> {
        match self {
            Step::Write { address, bytes, .. } => Step::Write {
                address,
                bytes,
                failure: Some(error),
            },
            other => other,
        }
    }
}

/// The error with which a transport refused a write, if it did.
pub open spec fn refusal<E>(answer: Result<(), E>) -> Option<E> {
    match answer {
        Ok(_) => None,
        Err(error) => Some(error),
    }
}

/// `after` is `before` followed by one run of `plan`. With no `failure`
/// the run is the whole plan. With one, the run stopped at a write of the
/// plan that the transport refused with that error: the steps before it went
/// through, and the refused write is the last step of `after`.
pub open spec fn ran<E>(
    before: Seq<Step<E>>,
    after: Seq<Step<E>>,
    plan: Seq<Step<E>>,
    failure: Option<E>,
) -> bool {
    match failure {
        None => after == before + plan,
        Some(error) => {
            let completed = after.len() - before.len() - 1;
            &&& 0 <= completed < plan.len()
            &&& plan[completed].is_sent()
            &&& after == before + plan.take(completed).push(plan[completed].refused(error))
        },
    }
}

/// A run of one plan followed by a run of another is a run of the two plans
/// joined, provided the first went through.
pub proof fn lemma_ran_then<E>(
    before: Seq<Step<E>>,
    between: Seq<Step<E>>,
    after: Seq<Step<E>>,
    first: Seq<Step<E>>,
    second: Seq<Step<E>>,
    failure: Option<E>,
)
    requires
        ran(before, between, first, None),
        ran(between, after, second, failure),
    ensures
        ran(before, after, first + second, failure),
{
    let plan = first + second;
    match failure {
        None => {
            assert(after =~= before + plan);
        },
        Some(error) => {
            let k = after.len() - between.len() - 1;
            let completed = after.len() - before.len() - 1;
            assert(completed == first.len() + k);
            assert(plan[completed] == second[k]);
            assert(plan.take(completed) =~= first + second.take(k));
            assert(after =~= before + plan.take(completed).push(plan[completed].refused(error)));
        },
    }
}

/// One more step of a plan: when the first `index` steps are behind and the
/// next one is tried alone, then either it went through and `index + 1` steps
/// are behind, or the run of the whole plan has failed at it.
pub proof fn lemma_ran_step<E>(
    before: Seq<Step<E>>,
    so_far: Seq<Step<E>>,
    after: Seq<Step<E>>,
    plan: Seq<Step<E>>,
    index: int,
    failure: Option<E>,
)
    requires
        0 <= index < plan.len(),
        so_far == before + plan.take(index),
        ran(so_far, after, seq![plan[index]], failure),
    ensures
        failure is None ==> after == before + plan.take(index + 1),
        failure is Some ==> ran(before, after, plan, failure),
{
    assert(ran(before, so_far, plan.take(index), None));
    lemma_ran_then(before, so_far, after, plan.take(index), seq![plan[index]], failure);
    assert(plan.take(index) + seq![plan[index]] =~= plan.take(index + 1));
    if let Some(error) = failure {
        lemma_ran_short(before, after, plan.take(index + 1), plan.skip(index + 1), error);
        assert(plan.take(index + 1) + plan.skip(index + 1) =~= plan);
    }
}

/// A run that failed within a plan is also a failed run of any plan that
/// begins with it.
pub proof fn lemma_ran_short<E>(
    before: Seq<Step<E>>,
    after: Seq<Step<E>>,
    first: Seq<Step<E>>,
    rest: Seq<Step<E>>,
    error: E,
)
    requires
        ran(before, after, first, Some(error)),
    ensures
        ran(before, after, first + rest, Some(error)),
{
    let plan = first + rest;
    let completed = after.len() - before.len() - 1;
    assert(plan[completed] == first[completed]);
    assert(plan.take(completed) =~= first.take(completed));
}

} // verus!
