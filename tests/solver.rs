use hycol::solver::{
    check_blend_parameter, check_inside_disk, check_weights, Iteration, MeanError, Next,
    MAX_ITERATIONS,
};

#[test]
fn iteration_starts_with_no_steps() {
    assert_eq!(Iteration::start().steps, 0);
}

#[test]
fn settled_first_step_ends_iteration() {
    assert_eq!(Iteration::start().after_step(true), Ok(Next::Settled(1)));
}

#[test]
fn unsettled_step_continues() {
    assert_eq!(
        Iteration::start().after_step(false),
        Ok(Next::Step(Iteration { steps: 1 }))
    );
}

#[test]
fn last_unsettled_step_fails() {
    let it = Iteration { steps: MAX_ITERATIONS - 1 };
    assert_eq!(it.after_step(false), Err(MeanError::NoConvergence));
    assert_eq!(it.after_step(true), Ok(Next::Settled(MAX_ITERATIONS)));
}

fn drive(settles_at: Option<u32>) -> Result<u32, MeanError> {
    let mut it = Iteration::start();
    let mut calls = 0u32;
    loop {
        calls += 1;
        match it.after_step(Some(calls) == settles_at)? {
            Next::Settled(k) => return Ok(k),
            Next::Step(next) => it = next,
        }
    }
}

#[test]
fn iteration_ends_at_first_settled_step() {
    assert_eq!(drive(Some(10)), Ok(10));
    assert_eq!(drive(Some(MAX_ITERATIONS)), Ok(256));
}

#[test]
fn iteration_never_returns_unsettled() {
    assert_eq!(drive(None), Err(MeanError::NoConvergence));
    assert_eq!(drive(Some(MAX_ITERATIONS + 1)), Err(MeanError::NoConvergence));
}

#[test]
fn nan_weight_is_rejected() {
    assert_eq!(check_weights(&[false, false, false]), Ok(()));
    assert_eq!(check_weights(&[]), Ok(()));
    assert_eq!(check_weights(&[false, true, false]), Err(MeanError::NanWeight));
    assert_eq!(check_weights(&[false, false, true]), Err(MeanError::NanWeight));
    let l = 0.0f64 / 0.0;
    let weights = [0.5f64, l, 0.5];
    let nan: Vec<bool> = weights.iter().map(|w| w.is_nan()).collect();
    assert_eq!(check_weights(&nan), Err(MeanError::NanWeight));
}

#[test]
fn blend_parameter_is_checked() {
    assert_eq!(check_blend_parameter(false, true), Ok(()));
    assert_eq!(check_blend_parameter(false, false), Err(MeanError::WeightOutOfRange));
    assert_eq!(check_blend_parameter(true, false), Err(MeanError::NanWeight));
    let t = 1.5f64;
    assert_eq!(
        check_blend_parameter(t.is_nan(), (0.0..=1.0).contains(&t)),
        Err(MeanError::WeightOutOfRange)
    );
}

#[test]
fn point_on_the_boundary_is_rejected() {
    assert_eq!(check_inside_disk(false), Ok(()));
    assert_eq!(check_inside_disk(true), Err(MeanError::OutsideDisk));
    let norm = 1.0f64;
    assert_eq!(check_inside_disk(norm >= 1.0), Err(MeanError::OutsideDisk));
}
