use vstd::prelude::*;

verus! {

/// What the training loop asks its driver to do next.
#[derive(Clone, Copy, Debug, PartialEq, Eq, Structural)]
pub enum Stage {
    /// Evaluate the model on the fixed input.
    Forward,
    /// Take the mean squared error of that output against the fixed target.
    Loss,
    /// Propagate back from this iteration's loss and collect the gradients.
    Backward,
    /// Hand the gradients to the optimizer, which replaces the model.
    OptimizerStep,
    /// Evaluate the frozen model once more after the last iteration.
    EvalForward,
    /// Take the loss of that final output.
    EvalLoss,
    /// Report the final loss.
    Report,
    /// The run is over.
    Finished,
    /// A step failed: the run is over.
    Aborted,
}

/// The loop's state: the variant, the iteration count asked for, the
/// iterations finished, and the step to perform next.
#[derive(Clone, Copy, Debug, PartialEq, Eq, Structural)]
pub struct Orchestrator {
    pub differentiate: bool,
    pub iterations: u64,
    pub completed: u64,
    pub stage: Stage,
}

/// The steps of one iteration: forward and loss, then backward and the
/// optimizer step where the loop differentiates.
pub open spec fn steps_per_iteration(differentiate: bool) -> nat {
    if differentiate { 4 } else { 2 }
}

/// The steps after the last iteration: the final forward pass, its loss and the
/// report, where the loop differentiates.
pub open spec fn closing_steps(differentiate: bool) -> nat {
    if differentiate { 3 } else { 0 }
}

/// Whether `s` ends a run.
pub open spec fn is_terminal(s: Stage) -> bool {
    s == Stage::Finished || s == Stage::Aborted
}

/// The stage that follows an iteration that leaves `completed` iterations done.
pub open spec fn after_iteration(differentiate: bool, iterations: u64, completed: u64) -> Stage {
    if completed < iterations {
        Stage::Forward
    } else if differentiate {
        Stage::EvalForward
    } else {
        Stage::Finished
    }
}

/// The state of a fresh run.
pub open spec fn initial(differentiate: bool, iterations: u64) -> Orchestrator {
    Orchestrator {
        differentiate,
        iterations,
        completed: 0,
        stage: after_iteration(differentiate, iterations, 0),
    }
}

/// The state after the step of `s` was performed; `ok` tells whether it
/// succeeded. A failure ends the run; a terminal state stays as it is.
pub open spec fn next(s: Orchestrator, ok: bool) -> Orchestrator {
    if is_terminal(s.stage) {
        s
    } else if !ok {
        Orchestrator { stage: Stage::Aborted, ..s }
    } else {
        match s.stage {
            Stage::Forward => Orchestrator { stage: Stage::Loss, ..s },
            Stage::Loss => if s.differentiate {
                Orchestrator { stage: Stage::Backward, ..s }
            } else {
                Orchestrator {
                    completed: (s.completed + 1) as u64,
                    stage: after_iteration(s.differentiate, s.iterations, (s.completed + 1) as u64),
                    ..s
                }
            },
            Stage::Backward => Orchestrator { stage: Stage::OptimizerStep, ..s },
            Stage::OptimizerStep => Orchestrator {
                completed: (s.completed + 1) as u64,
                stage: after_iteration(s.differentiate, s.iterations, (s.completed + 1) as u64),
                ..s
            },
            Stage::EvalForward => Orchestrator { stage: Stage::EvalLoss, ..s },
            Stage::EvalLoss => Orchestrator { stage: Stage::Report, ..s },
            _ => Orchestrator { stage: Stage::Finished, ..s },
        }
    }
}

impl Orchestrator {
    /// The states that a run can reach.
    pub open spec fn wf(self) -> bool {
        &&& self.completed <= self.iterations
        &&& match self.stage {
            Stage::Forward | Stage::Loss => self.completed < self.iterations,
            Stage::Backward | Stage::OptimizerStep => self.differentiate && self.completed
                < self.iterations,
            Stage::EvalForward | Stage::EvalLoss | Stage::Report => self.differentiate
                && self.completed == self.iterations,
            Stage::Finished => self.completed == self.iterations,
            Stage::Aborted => true,
        }
    }

    /// Steps left before the run ends, if every one of them succeeds.
    pub open spec fn remaining(self) -> nat {
        let per_iteration = steps_per_iteration(self.differentiate);
        let tail = closing_steps(self.differentiate);
        let left: nat = (self.iterations - self.completed) as nat;
        match self.stage {
            Stage::Forward => per_iteration * left + tail,
            Stage::Loss => (per_iteration * left + tail - 1) as nat,
            Stage::Backward => (per_iteration * left + tail - 2) as nat,
            Stage::OptimizerStep => (per_iteration * left + tail - 3) as nat,
            Stage::EvalForward => 3,
            Stage::EvalLoss => 2,
            Stage::Report => 1,
            _ => 0,
        }
    }

    /// A fresh run of `iterations` iterations; `differentiate` selects the
    /// variant that takes gradients, steps the optimizer and reports a final
    /// loss, over the one that only evaluates.
    pub fn start(differentiate: bool, iterations: u64) -> (r: Orchestrator)
        ensures
            r == initial(differentiate, iterations),
            r.wf(),
    {
        let stage = if 0 < iterations {
            Stage::Forward
        } else if differentiate {
            Stage::EvalForward
        } else {
            Stage::Finished
        };
        Orchestrator { differentiate, iterations, completed: 0, stage }
    }

    /// The step that the driver performs next.
    pub fn stage(&self) -> (r: Stage)
        ensures
            r == self.stage,
    {
        self.stage
    }

    /// Whether the run is over.
    pub fn is_done(&self) -> (r: bool)
        ensures
            r == is_terminal(self.stage),
    {
        match self.stage {
            Stage::Finished | Stage::Aborted => true,
            _ => false,
        }
    }

    /// Records the outcome of the current step and moves to the next one.
    pub fn on_event(&mut self, ok: bool)
        requires
            old(self).wf(),
        ensures
            *final(self) == next(*old(self), ok),
            final(self).wf(),
            !is_terminal(old(self).stage) && ok ==> final(self).remaining() < old(self).remaining(),
    {
        proof {
            lemma_next_wf(*self, ok);
            if !is_terminal(self.stage) {
                lemma_progress(*self);
            }
        }
        match self.stage {
            Stage::Finished | Stage::Aborted => {},
            _ => {
                if !ok {
                    self.stage = Stage::Aborted;
                } else {
                    match self.stage {
                        Stage::Forward => {
                            self.stage = Stage::Loss;
                        },
                        Stage::Loss => {
                            if self.differentiate {
                                self.stage = Stage::Backward;
                            } else {
                                self.finish_iteration();
                            }
                        },
                        Stage::Backward => {
                            self.stage = Stage::OptimizerStep;
                        },
                        Stage::OptimizerStep => {
                            self.finish_iteration();
                        },
                        Stage::EvalForward => {
                            self.stage = Stage::EvalLoss;
                        },
                        Stage::EvalLoss => {
                            self.stage = Stage::Report;
                        },
                        _ => {
                            self.stage = Stage::Finished;
                        },
                    }
                }
            },
        }
    }

    /// Counts one more finished iteration and picks the stage after it.
    fn finish_iteration(&mut self)
        requires
            old(self).completed < old(self).iterations,
        ensures
            *final(self) == (Orchestrator {
                completed: (old(self).completed + 1) as u64,
                stage: after_iteration(
                    old(self).differentiate,
                    old(self).iterations,
                    (old(self).completed + 1) as u64,
                ),
                ..*old(self)
            }),
    {
        self.completed = self.completed + 1;
        self.stage = if self.completed < self.iterations {
            Stage::Forward
        } else if self.differentiate {
            Stage::EvalForward
        } else {
            Stage::Finished
        };
    }
}

/// Every step from a reachable state leads to a reachable state.
pub proof fn lemma_next_wf(s: Orchestrator, ok: bool)
    requires
        s.wf(),
    ensures
        next(s, ok).wf(),
{
}

/// Each successful step brings a running loop closer to its end.
pub proof fn lemma_progress(s: Orchestrator)
    requires
        s.wf(),
        !is_terminal(s.stage),
    ensures
        next(s, true).remaining() < s.remaining(),
{
    let per_iteration = steps_per_iteration(s.differentiate);
    let left: nat = (s.iterations - s.completed) as nat;
    if s.completed < s.iterations {
        assert(per_iteration * left == per_iteration * ((left - 1) as nat) + per_iteration)
            by (nonlinear_arith)
            requires
                left >= 1,
        ;
    }
}

/// The state after `k` steps that all succeed.
pub open spec fn run(s: Orchestrator, k: nat) -> Orchestrator
    decreases k,
{
    if k == 0 {
        s
    } else {
        run(next(s, true), (k - 1) as nat)
    }
}

/// How many of the first `k` steps from `s` are optimizer steps, the only
/// steps that change the model's parameters.
pub open spec fn updates(s: Orchestrator, k: nat) -> nat
    decreases k,
{
    if k == 0 {
        0
    } else {
        (if s.stage == Stage::OptimizerStep { 1nat } else { 0nat }) + updates(
            next(s, true),
            (k - 1) as nat,
        )
    }
}

/// Running `a` steps and then `b` steps is running `a + b` steps.
pub proof fn lemma_run_split(s: Orchestrator, a: nat, b: nat)
    ensures
        run(s, a + b) == run(run(s, a), b),
        updates(s, a + b) == updates(s, a) + updates(run(s, a), b),
    decreases a,
{
    if a > 0 {
        lemma_run_split(next(s, true), (a - 1) as nat, b);
        assert((a + b - 1) as nat == ((a - 1) as nat) + b);
    }
}

/// One iteration, from its forward pass to the stage after it, takes
/// `steps_per_iteration` steps and holds one optimizer step where the loop
/// differentiates and none where it does not.
pub proof fn lemma_one_iteration(s: Orchestrator)
    requires
        s.wf(),
        s.stage == Stage::Forward,
    ensures
        run(s, steps_per_iteration(s.differentiate)) == (Orchestrator {
            completed: (s.completed + 1) as u64,
            stage: after_iteration(s.differentiate, s.iterations, (s.completed + 1) as u64),
            ..s
        }),
        updates(s, steps_per_iteration(s.differentiate)) == (if s.differentiate { 1nat } else { 0nat }),
{
    reveal_with_fuel(run, 5);
    reveal_with_fuel(updates, 5);
}

/// From the forward pass of any iteration, the remaining steps all succeeding
/// end the run with every iteration done and one optimizer step per iteration
/// left, where the loop differentiates.
pub proof fn lemma_run_from_forward(s: Orchestrator)
    requires
        s.wf(),
        s.stage == Stage::Forward,
    ensures
        run(s, s.remaining()).stage == Stage::Finished,
        run(s, s.remaining()).completed == s.iterations,
        updates(s, s.remaining()) == (if s.differentiate {
            (s.iterations - s.completed) as nat
        } else {
            0nat
        }),
    decreases s.iterations - s.completed,
{
    let b = steps_per_iteration(s.differentiate);
    let t = run(s, b);
    lemma_one_iteration(s);
    let left: nat = (s.iterations - s.completed) as nat;
    assert(b * left == b + b * ((left - 1) as nat)) by (nonlinear_arith)
        requires
            left >= 1,
    ;
    if t.stage == Stage::Forward {
        lemma_run_from_forward(t);
        assert(s.remaining() == b + t.remaining());
        lemma_run_split(s, b, t.remaining());
    } else if s.differentiate {
        assert(t.stage == Stage::EvalForward);
        assert(s.remaining() == b + 3);
        lemma_run_split(s, b, 3);
        reveal_with_fuel(run, 4);
        reveal_with_fuel(updates, 4);
    } else {
        assert(s.remaining() == b);
        lemma_run_split(s, b, 0);
    }
}

/// A fresh run whose steps all succeed ends after exactly
/// `steps_per_iteration * iterations + closing_steps` steps, in `Finished`,
/// with every iteration done; it steps the optimizer once per iteration where it
/// differentiates, and never where it does not.
pub proof fn lemma_full_run(differentiate: bool, iterations: u64)
    ensures
        initial(differentiate, iterations).remaining() == steps_per_iteration(differentiate)
            * iterations + closing_steps(differentiate),
        run(initial(differentiate, iterations), initial(differentiate, iterations).remaining()).stage
            == Stage::Finished,
        run(initial(differentiate, iterations), initial(differentiate, iterations).remaining()).completed
            == iterations,
        updates(initial(differentiate, iterations), initial(differentiate, iterations).remaining())
            == (if differentiate { iterations as nat } else { 0nat }),
{
    let s = initial(differentiate, iterations);
    if iterations > 0 {
        lemma_run_from_forward(s);
    } else {
        assert(steps_per_iteration(differentiate) * iterations == 0);
        reveal_with_fuel(run, 4);
        reveal_with_fuel(updates, 4);
    }
}

/// A reachable state of a loop asked for no iteration never steps the optimizer.
pub proof fn lemma_no_iterations_no_updates(s: Orchestrator, k: nat)
    requires
        s.wf(),
        s.iterations == 0,
    ensures
        updates(s, k) == 0,
        run(s, k).wf(),
        run(s, k).completed == 0,
    decreases k,
{
    if k > 0 {
        lemma_next_wf(s, true);
        lemma_no_iterations_no_updates(next(s, true), (k - 1) as nat);
    }
}

/// A run of zero iterations leaves the model's parameters as they were made:
/// however many of its steps are taken, none of them is an optimizer step.
pub proof fn lemma_zero_iterations_keep_parameters(differentiate: bool, k: nat)
    ensures
        updates(initial(differentiate, 0), k) == 0,
{
    lemma_no_iterations_no_updates(initial(differentiate, 0), k);
}

/// Gradients are only taken of the loss just computed in the same iteration,
/// and the optimizer only consumes the gradients just taken.
pub proof fn lemma_step_order(s: Orchestrator, ok: bool)
    requires
        s.wf(),
    ensures
        next(s, ok).stage == Stage::Backward && s.stage != Stage::Backward ==> s.stage == Stage::Loss
            && next(s, ok).completed == s.completed,
        next(s, ok).stage == Stage::OptimizerStep && s.stage != Stage::OptimizerStep ==> s.stage
            == Stage::Backward && next(s, ok).completed == s.completed,
        next(s, ok).completed != s.completed ==> next(s, ok).completed == s.completed + 1 && ok && (
        s.stage == Stage::OptimizerStep || (s.stage == Stage::Loss && !s.differentiate)),
{
}

} // verus!
