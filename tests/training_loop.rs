use ad_bench::train::{Orchestrator, Stage};

fn drive(differentiate: bool, iterations: u64) -> (Vec<Stage>, Orchestrator) {
    let mut o = Orchestrator::start(differentiate, iterations);
    let mut stages = Vec::new();
    while !o.is_done() {
        stages.push(o.stage());
        o.on_event(true);
    }
    (stages, o)
}

fn count(stages: &[Stage], s: Stage) -> usize {
    stages.iter().filter(|x| **x == s).count()
}

#[test]
fn zero_iterations_differentiable_only_evaluates() {
    let (stages, end) = drive(true, 0);
    assert_eq!(stages, vec![Stage::EvalForward, Stage::EvalLoss, Stage::Report]);
    assert_eq!(end.stage(), Stage::Finished);
    assert_eq!(end.completed, 0);
    assert_eq!(count(&stages, Stage::OptimizerStep), 0);
}

#[test]
fn zero_iterations_inference_does_nothing() {
    let o = Orchestrator::start(false, 0);
    assert!(o.is_done());
    assert_eq!(o.stage(), Stage::Finished);
}

#[test]
fn one_differentiable_iteration_in_order() {
    let (stages, end) = drive(true, 1);
    assert_eq!(
        stages,
        vec![
            Stage::Forward,
            Stage::Loss,
            Stage::Backward,
            Stage::OptimizerStep,
            Stage::EvalForward,
            Stage::EvalLoss,
            Stage::Report,
        ]
    );
    assert_eq!(end.completed, 1);
}

#[test]
fn two_inference_iterations_in_order() {
    let (stages, end) = drive(false, 2);
    assert_eq!(
        stages,
        vec![Stage::Forward, Stage::Loss, Stage::Forward, Stage::Loss]
    );
    assert_eq!(end.completed, 2);
    assert_eq!(end.stage(), Stage::Finished);
}

#[test]
fn full_differentiable_run_steps_once_per_iteration() {
    let (stages, end) = drive(true, 100000);
    assert_eq!(stages.len(), 4 * 100000 + 3);
    assert_eq!(count(&stages, Stage::OptimizerStep), 100000);
    assert_eq!(count(&stages, Stage::Backward), 100000);
    assert_eq!(count(&stages, Stage::Report), 1);
    assert_eq!(end.completed, 100000);
    assert_eq!(end.stage(), Stage::Finished);
}

#[test]
fn full_inference_run_never_steps() {
    let (stages, end) = drive(false, 100000);
    assert_eq!(stages.len(), 2 * 100000);
    assert_eq!(count(&stages, Stage::OptimizerStep), 0);
    assert_eq!(count(&stages, Stage::Report), 0);
    assert_eq!(end.completed, 100000);
}

#[test]
fn failure_aborts_the_run() {
    let mut o = Orchestrator::start(true, 3);
    o.on_event(true);
    o.on_event(false);
    assert_eq!(o.stage(), Stage::Aborted);
    assert!(o.is_done());
    o.on_event(true);
    assert_eq!(o.stage(), Stage::Aborted);
    assert_eq!(o.completed, 0);
}

#[test]
fn failure_in_evaluation_aborts() {
    let mut o = Orchestrator::start(true, 0);
    o.on_event(false);
    assert_eq!(o.stage(), Stage::Aborted);
}
