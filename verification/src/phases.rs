//! Pipeline phases: their results, the decision taken after validation, and
//! the executor that runs a pipeline through its phases.
use vstd::prelude::*;

use crate::cleanup::PhaseType;
use crate::metrics::{PhaseMetrics, ScenarioResult};
use crate::parallel::{phase_name, phase_name_str};
use crate::state::Pipeline;
use crate::text::{decimal, push_decimal};

pub mod executor;
pub mod framework;

verus! {

/// Errors that can occur while running phases.
#[derive(Debug, Clone)]
pub enum PhaseError {
    SpecReviewFailed(String),
    SetupFailed(String),
    DevelopmentFailed(String),
    ValidationFailed(String),
    CleanupFailed(String),
    PersistenceFailed(String),
    InvalidStateTransition(String),
    ParallelExecutionFailed(String),
    DependencyNotMet(PhaseType),
}

/// The message of a phase error.
pub open spec fn phase_error_message(e: PhaseError) -> Seq<char> {
    match e {
        PhaseError::SpecReviewFailed(m) => "Spec review failed: "@ + m@,
        PhaseError::SetupFailed(m) => "Universe setup failed: "@ + m@,
        PhaseError::DevelopmentFailed(m) => "Agent development failed: "@ + m@,
        PhaseError::ValidationFailed(m) => "Scenario validation failed: "@ + m@,
        PhaseError::CleanupFailed(m) => "Cleanup/rollback failed: "@ + m@,
        PhaseError::PersistenceFailed(m) => "State persistence failed: "@ + m@,
        PhaseError::InvalidStateTransition(m) => "Invalid state transition: "@ + m@,
        PhaseError::ParallelExecutionFailed(m) => "Parallel execution failed: "@ + m@,
        PhaseError::DependencyNotMet(p) => "Dependency not met for phase: "@ + phase_name(p),
    }
}

impl PhaseError {
    /// The message a user sees for this error.
    pub fn to_string(&self) -> (s: String)
        ensures
            s@ == phase_error_message(*self),
    {
        let (mut s, m) = match self {
            PhaseError::DependencyNotMet(p) => {
                let mut s = String::from_str("Dependency not met for phase: ");
                s.append(phase_name_str(*p));
                return s;
            },
            PhaseError::SpecReviewFailed(m) => (String::from_str("Spec review failed: "), m),
            PhaseError::SetupFailed(m) => (String::from_str("Universe setup failed: "), m),
            PhaseError::DevelopmentFailed(m) => (String::from_str("Agent development failed: "), m),
            PhaseError::ValidationFailed(m) => (String::from_str("Scenario validation failed: "), m),
            PhaseError::CleanupFailed(m) => (String::from_str("Cleanup/rollback failed: "), m),
            PhaseError::PersistenceFailed(m) => (String::from_str("State persistence failed: "), m),
            PhaseError::InvalidStateTransition(m) => (String::from_str("Invalid state transition: "), m),
            PhaseError::ParallelExecutionFailed(m) => (String::from_str("Parallel execution failed: "), m),
        };
        s.append(m.as_str());
        s
    }
}

/// The result of running a phase.
#[derive(Debug)]
pub struct PhaseResult {
    pub success: bool,
    pub message: String,
    pub quality_score: Option<u32>,
    pub scenario_results: Vec<ScenarioResult>,
}

/// The decision taken after validation.
#[derive(Debug, Clone, Copy, PartialEq, Eq, Structural)]
pub enum Decision {
    Accept,
    Retry,
    Escalate,
    Fail,
}

/// The name of a decision, as `Debug` prints it.
pub open spec fn decision_name(d: Decision) -> Seq<char> {
    match d {
        Decision::Accept => "Accept"@,
        Decision::Retry => "Retry"@,
        Decision::Escalate => "Escalate"@,
        Decision::Fail => "Fail"@,
    }
}

pub fn decision_name_str(d: Decision) -> (s: &'static str)
    ensures
        s@ == decision_name(d),
{
    match d {
        Decision::Accept => "Accept",
        Decision::Retry => "Retry",
        Decision::Escalate => "Escalate",
        Decision::Fail => "Fail",
    }
}

/// The number of passed scenarios.
pub open spec fn passed_count(s: Seq<ScenarioResult>) -> nat
    decreases s.len(),
{
    if s.len() == 0 {
        0
    } else {
        passed_count(s.drop_last()) + if s.last().passed {
            1nat
        } else {
            0nat
        }
    }
}

/// The decision for `passed` passes out of `total` scenarios: no scenario
/// means retry; a pass rate (in whole percent, rounded down) of 100 accepts;
/// at least 50 retries while another iteration is allowed and escalates
/// otherwise; anything less fails.
pub open spec fn decision_for(passed: nat, total: nat, can_iterate: bool) -> Decision {
    if total == 0 {
        Decision::Retry
    } else if passed * 100 / total >= 100 {
        Decision::Accept
    } else if passed * 100 / total >= 50 {
        if can_iterate {
            Decision::Retry
        } else {
            Decision::Escalate
        }
    } else {
        Decision::Fail
    }
}

/// Whether another agent iteration may run for a pipeline.
pub open spec fn may_iterate(p: Pipeline) -> bool {
    p.iteration < p.max_iterations && p.state == crate::state::PipelineState::AgentDevelopment
}

proof fn lemma_passed_count_bound(s: Seq<ScenarioResult>)
    ensures
        passed_count(s) <= s.len(),
    decreases s.len(),
{
    if s.len() > 0 {
        lemma_passed_count_bound(s.drop_last());
    }
}

/// The number of passed scenarios among `results`.
pub(crate) fn count_passed(results: &[ScenarioResult]) -> (r: usize)
    ensures
        r == passed_count(results@),
{
    let total = results.len();
    let mut passed: usize = 0;
    let mut i: usize = 0;
    while i < total
        invariant
            total == results@.len(),
            i <= total,
            passed == passed_count(results@.subrange(0, i as int)),
            passed <= i,
        decreases total - i,
    {
        assert(results@.subrange(0, i as int + 1).drop_last() =~= results@.subrange(0, i as int));
        if results[i].passed {
            passed = passed + 1;
        }
        i = i + 1;
    }
    assert(results@.subrange(0, total as int) =~= results@);
    passed
}

/// Derive the decision from scenario results and the pipeline.
pub fn make_decision(results: &[ScenarioResult], pipeline: &Pipeline) -> (d: Decision)
    requires
        results@.len() * 100 <= usize::MAX,
    ensures
        d == decision_for(passed_count(results@), results@.len(), may_iterate(*pipeline)),
{
    let total = results.len();
    let passed = count_passed(results);
    proof {
        lemma_passed_count_bound(results@);
    }
    if total == 0 {
        return Decision::Retry;
    }
    assert(passed * 100 <= total * 100);
    let pass_rate = (passed * 100) / total;
    if pass_rate >= 100 {
        Decision::Accept
    } else if pass_rate >= 50 {
        if pipeline.can_iterate() {
            Decision::Retry
        } else {
            Decision::Escalate
        }
    } else {
        Decision::Fail
    }
}

/// How good a decision is for the pipeline: accepting is best, failing worst.
pub open spec fn decision_rank(d: Decision) -> int {
    match d {
        Decision::Fail => 0,
        Decision::Escalate => 1,
        Decision::Retry => 1,
        Decision::Accept => 2,
    }
}

/// More passing scenarios never make the decision worse, and all of them
/// passing accepts.
pub proof fn lemma_decision_monotone(p1: nat, p2: nat, total: nat, can_iterate: bool)
    requires
        p1 <= p2 <= total,
        total > 0,
    ensures
        decision_rank(decision_for(p1, total, can_iterate)) <= decision_rank(decision_for(p2, total, can_iterate)),
        decision_for(total, total, can_iterate) == Decision::Accept,
{
    assert(p1 * 100 <= p2 * 100);
    vstd::arithmetic::div_mod::lemma_div_is_ordered((p1 * 100) as int, (p2 * 100) as int, total as int);
    vstd::arithmetic::div_mod::lemma_div_by_self(total as int);
    assert(total * 100 / total == 100) by {
        vstd::arithmetic::div_mod::lemma_div_multiples_vanish(100, total as int);
        vstd::arithmetic::mul::lemma_mul_is_commutative(100, total as int);
    }
}

/// The message of a successful spec review.
pub open spec fn spec_passed_message(score: u32) -> Seq<char> {
    "Spec passed with score "@ + decimal(score as nat)
}

/// The message of a failed spec review.
pub open spec fn spec_below_message(score: u32, threshold: u32) -> Seq<char> {
    "Spec quality "@ + decimal(score as nat) + " below threshold "@ + decimal(threshold as nat)
}

pub fn spec_passed_text(score: u32) -> (s: String)
    ensures
        s@ == spec_passed_message(score),
{
    let mut s = String::from_str("Spec passed with score ");
    push_decimal(&mut s, score as u64);
    s
}

pub fn spec_below_text(score: u32, threshold: u32) -> (s: String)
    ensures
        s@ == spec_below_message(score, threshold),
{
    let mut s = String::from_str("Spec quality ");
    push_decimal(&mut s, score as u64);
    s.append(" below threshold ");
    push_decimal(&mut s, threshold as u64);
    s
}

} // verus!
