//! Control of the fixed-point iteration that computes a weighted geodesic
//! (Fréchet) mean in the Poincaré disk. Each step of the iteration moves the
//! current estimate along the weighted sum of the logarithms of the vertices
//! seen from it; the step is small enough when the move has settled. What is
//! decided here is when to stop: on a settled step, or with an error once
//! the step budget is spent, so that an unsettled estimate is never handed
//! back as a mean.
use vstd::prelude::*;

verus! {

/// The largest number of steps the iteration may take.
pub const MAX_ITERATIONS: u32 = 256;

/// Why a weighted geodesic mean could not be computed.
#[derive(Clone, Copy, Debug, PartialEq, Eq, Structural)]
pub enum MeanError {
    /// A weight is not a number.
    NanWeight,
    /// A point that must lie inside the unit disk does not: a logarithm was
    /// asked of a point on or outside the unit circle, or the starting
    /// estimate of the mean could not be placed inside the disk.
    OutsideDisk,
    /// The parameter of a two-point blend lies outside `[0, 1]`.
    WeightOutOfRange,
    /// The iteration had not settled after `MAX_ITERATIONS` steps.
    NoConvergence,
}

/// Rejects a weighted vertex set in which some weight is not a number;
/// `nan[i]` tells whether the weight of vertex `i` is NaN.
pub fn check_weights(nan: &[bool]) -> (r: Result<(), MeanError>)
    ensures
        r == (if exists|i: int| 0 <= i < nan@.len() && #[trigger] nan@[i] {
            Err::<(), MeanError>(MeanError::NanWeight)
        } else {
            Ok::<(), MeanError>(())
        }),
{
    let mut k: usize = 0;
    while k < nan.len()
        invariant
            k <= nan@.len(),
            forall|i: int| 0 <= i < k ==> !#[trigger] nan@[i],
        decreases nan@.len() - k,
    {
        if nan[k] {
            return Err(MeanError::NanWeight);
        }
        k += 1;
    }
    Ok(())
}

/// Rejects the parameter `t` of a two-point blend, given whether it is NaN
/// and whether it lies in `[0, 1]`: a NaN is a bad weight, a number outside
/// the unit interval is out of range.
pub fn check_blend_parameter(is_nan: bool, in_unit_interval: bool) -> (r: Result<(), MeanError>)
    ensures
        is_nan ==> r == Err::<(), MeanError>(MeanError::NanWeight),
        !is_nan && !in_unit_interval ==> r == Err::<(), MeanError>(MeanError::WeightOutOfRange),
        !is_nan && in_unit_interval ==> r == Ok::<(), MeanError>(()),
{
    if is_nan {
        Err(MeanError::NanWeight)
    } else if !in_unit_interval {
        Err(MeanError::WeightOutOfRange)
    } else {
        Ok(())
    }
}

/// Rejects a point that must lie strictly inside the unit disk but, as
/// `on_or_outside` says, does not: the argument of a logarithm, or the
/// starting estimate of the mean.
pub fn check_inside_disk(on_or_outside: bool) -> (r: Result<(), MeanError>)
    ensures
        r == (if on_or_outside {
            Err::<(), MeanError>(MeanError::OutsideDisk)
        } else {
            Ok::<(), MeanError>(())
        }),
{
    if on_or_outside {
        Err(MeanError::OutsideDisk)
    } else {
        Ok(())
    }
}

/// How far the iteration has come: the number of steps taken so far.
#[derive(Clone, Copy, Debug, PartialEq, Eq, Structural)]
pub struct Iteration {
    pub steps: u32,
}

/// What to do after a step.
#[derive(Clone, Copy, Debug, PartialEq, Eq, Structural)]
pub enum Next {
    /// The step settled: the estimate it reached is the mean, found after
    /// the given number of steps.
    Settled(u32),
    /// Take another step from the given state.
    Step(Iteration),
}

/// The decision that follows a step from `it` whose move was `settled` or
/// not.
pub open spec fn next_of(it: Iteration, settled: bool) -> Result<Next, MeanError> {
    if settled {
        Ok(Next::Settled((it.steps + 1) as u32))
    } else if it.steps + 1 < MAX_ITERATIONS {
        Ok(Next::Step(Iteration { steps: (it.steps + 1) as u32 }))
    } else {
        Err(MeanError::NoConvergence)
    }
}

/// Where the iteration ends when, from `it`, its steps settle or not as
/// `outcomes` says, one entry per step: `None` while the outcomes run out
/// before it ends; else the number of steps to a settled one, or the error.
pub open spec fn run_from(it: Iteration, outcomes: Seq<bool>) -> Option<Result<u32, MeanError>>
    decreases outcomes.len(),
{
    if outcomes.len() == 0 {
        None
    } else {
        match next_of(it, outcomes[0]) {
            Ok(Next::Settled(k)) => Some(Ok(k)),
            Ok(Next::Step(s)) => run_from(s, outcomes.drop_first()),
            Err(e) => Some(Err(e)),
        }
    }
}

#[verifier::rlimit(40)]
proof fn lemma_run_from(s: nat, outcomes: Seq<bool>)
    requires
        s < MAX_ITERATIONS,
        outcomes.len() + s >= MAX_ITERATIONS,
    ensures
        (forall|i: int| 0 <= i < MAX_ITERATIONS - s ==> !#[trigger] outcomes[i]) ==> run_from(
            Iteration { steps: s as u32 },
            outcomes,
        ) == Some(Err::<u32, MeanError>(MeanError::NoConvergence)),
        forall|k: int|
            #![trigger outcomes[k]]
            0 <= k < MAX_ITERATIONS - s && outcomes[k] && (forall|i: int|
                0 <= i < k ==> !#[trigger] outcomes[i]) ==> run_from(
                Iteration { steps: s as u32 },
                outcomes,
            ) == Some(Ok::<u32, MeanError>((s + k + 1) as u32)),
    decreases MAX_ITERATIONS - s,
{
    let it = Iteration { steps: s as u32 };
    if !outcomes[0] && s + 1 < MAX_ITERATIONS {
        let rest = outcomes.drop_first();
        lemma_run_from(s + 1, rest);
        assert forall|k: int|
            #![trigger outcomes[k]]
            0 <= k < MAX_ITERATIONS - s && outcomes[k] && (forall|i: int|
                0 <= i < k ==> !#[trigger] outcomes[i]) implies run_from(it, outcomes) == Some(
            Ok::<u32, MeanError>((s + k + 1) as u32),
        ) by {
            assert(k >= 1);
            assert(rest[k - 1] == outcomes[k]);
            assert forall|i: int| 0 <= i < k - 1 implies !#[trigger] rest[i] by {
                assert(rest[i] == outcomes[i + 1]);
            }
        }
        if forall|i: int| 0 <= i < MAX_ITERATIONS - s ==> !#[trigger] outcomes[i] {
            assert forall|i: int| 0 <= i < MAX_ITERATIONS - (s + 1) implies !#[trigger] rest[i] by {
                assert(rest[i] == outcomes[i + 1]);
            }
        }
    } else if !outcomes[0] {
        assert forall|k: int|
            #![trigger outcomes[k]]
            0 <= k < MAX_ITERATIONS - s && outcomes[k] && (forall|i: int|
                0 <= i < k ==> !#[trigger] outcomes[i]) implies run_from(it, outcomes) == Some(
            Ok::<u32, MeanError>((s + k + 1) as u32),
        ) by {
            assert(k == 0);
        }
    }
}

/// Whatever each step's outcome, the iteration started afresh never hands
/// back an unsettled estimate: it ends at the first settled step, when that
/// comes among the first `MAX_ITERATIONS` steps, with the number of steps
/// taken; and it ends with `NoConvergence` when none of those steps settled.
pub proof fn lemma_iteration_ends(outcomes: Seq<bool>)
    requires
        outcomes.len() >= MAX_ITERATIONS,
    ensures
        (forall|i: int| 0 <= i < MAX_ITERATIONS ==> !#[trigger] outcomes[i]) ==> run_from(
            Iteration { steps: 0 },
            outcomes,
        ) == Some(Err::<u32, MeanError>(MeanError::NoConvergence)),
        forall|k: int|
            #![trigger outcomes[k]]
            0 <= k < MAX_ITERATIONS && outcomes[k] && (forall|i: int|
                0 <= i < k ==> !#[trigger] outcomes[i]) ==> run_from(
                Iteration { steps: 0 },
                outcomes,
            ) == Some(Ok::<u32, MeanError>((k + 1) as u32)),
{
    lemma_run_from(0, outcomes);
}

impl Iteration {
    /// A state from which another step may still be taken.
    pub open spec fn wf(self) -> bool {
        self.steps < MAX_ITERATIONS
    }

    /// The state before the first step.
    pub fn start() -> (r: Iteration)
        ensures
            r.steps == 0,
            r.wf(),
    {
        Iteration { steps: 0 }
    }

    /// Decides what follows a step whose move was `settled` or not. A
    /// settled step ends the iteration with success; an unsettled one leads
    /// to another step while fewer than `MAX_ITERATIONS` steps were taken,
    /// and to `NoConvergence` once that many were.
    pub fn after_step(self, settled: bool) -> (r: Result<Next, MeanError>)
        requires
            self.wf(),
        ensures
            settled ==> r == Ok::<Next, MeanError>(Next::Settled((self.steps + 1) as u32)),
            !settled && self.steps + 1 < MAX_ITERATIONS ==> r == Ok::<Next, MeanError>(
                Next::Step(Iteration { steps: (self.steps + 1) as u32 }),
            ),
            !settled && self.steps + 1 >= MAX_ITERATIONS ==> r == Err::<Next, MeanError>(
                MeanError::NoConvergence,
            ),
            r matches Ok(Next::Step(s)) ==> s.wf(),
            r == next_of(self, settled),
    {
        let steps = self.steps + 1;
        if settled {
            Ok(Next::Settled(steps))
        } else if steps < MAX_ITERATIONS {
            Ok(Next::Step(Iteration { steps }))
        } else {
            Err(MeanError::NoConvergence)
        }
    }
}

} // verus!
