//! The pipeline executor: runs a stored pipeline through its phases,
//! records what each phase did, and handles failures by cleaning up,
//! rolling back and recording the failure on the stored pipeline.
//!
//! Writing the store to disk is the caller's part (see `persistence`).
use vstd::prelude::*;

use super::framework::{linter_score, run_linter, run_scenarios, standard_scenarios};
use super::{
    decision_for, decision_name, decision_name_str, make_decision, may_iterate, passed_count,
    spec_below_message, spec_below_text, spec_passed_message, spec_passed_text, Decision, PhaseError,
    PhaseResult,
};
use crate::metrics::{phase_duration, whole_seconds_duration, Metrics, PhaseMetrics, ScenarioResult};
use crate::cleanup::{phase_of_state, CleanupContext, CleanupManager, PhaseType};
use crate::parallel::{
    next_phase, ready_phases, set_status, DependencyGraph, ParallelExecutor, PhaseGroup, PhaseNode, PhaseSet,
    PhaseStatus,
};
use crate::clock::now_millis;
use crate::persistence::{key_index, store_message, unfinished_pipelines, StateStore, StoreError};
use crate::state::{
    iteration_error_message, state_is_terminal, transition_error_message, transition_outcome,
    IterationError, Pipeline, PipelineId, PipelineState, TransitionError,
};
use crate::text::{decimal, join_strings, push_decimal};

verus! {

/// `b` is `a` with its state and last error replaced and a new time stamp.
pub open spec fn restamped(a: Pipeline, b: Pipeline) -> bool {
    b == Pipeline { state: b.state, last_error: b.last_error, updated_at: b.updated_at, ..a }
}

/// `b` is `a` after a failure was recorded on it: it moved to `target`
/// unless it had already finished, and `message` is its last error.
pub open spec fn failure_recorded(a: Pipeline, b: Pipeline, target: PipelineState, message: Seq<char>) -> bool {
    &&& restamped(a, b)
    &&& b.state == if state_is_terminal(a.state) {
        a.state
    } else {
        target
    }
    &&& b.last_error matches Some(e) && e@ == message
}

/// The store `s2` is `s1` with a failure recorded on the pipeline stored
/// under `k`; nothing changes when no pipeline is stored there.
pub open spec fn store_failure_recorded(
    s1: StateStore,
    s2: StateStore,
    k: Seq<char>,
    target: PipelineState,
    message: Seq<char>,
) -> bool {
    &&& s2.keys() == s1.keys()
    &&& match key_index(s1.keys(), k) {
        Some(i) => {
            &&& s2.pipelines() == s1.pipelines().update(i, s2.pipelines()[i])
            &&& failure_recorded(s1.pipelines()[i], s2.pipelines()[i], target, message)
        },
        None => s2.pipelines() == s1.pipelines(),
    }
}

/// The store `s2` is `s1` with the pipeline stored under `k` moved to
/// `target` when the state machine allows it.
pub open spec fn store_moved(s1: StateStore, s2: StateStore, k: Seq<char>, target: PipelineState) -> bool {
    &&& s2.keys() == s1.keys()
    &&& match key_index(s1.keys(), k) {
        Some(i) => {
            let a = s1.pipelines()[i];
            let b = s2.pipelines()[i];
            &&& s2.pipelines() == s1.pipelines().update(i, b)
            &&& transition_outcome(a.state, target) is Ok ==> b == a.with_state(target, b.updated_at)
            &&& transition_outcome(a.state, target) is Err ==> b == a
        },
        None => s2.pipelines() == s1.pipelines(),
    }
}

/// `m` records a run of phase `name` of pipeline `p` with outcome `success`.
pub open spec fn records_phase(m: PhaseMetrics, p: Pipeline, name: Seq<char>, success: bool) -> bool {
    &&& m.pipeline_id@ == p.id.0@
    &&& m.phase@ == name
    &&& m.success == success
}

/// A phase result that only reports its message.
pub open spec fn plain_result(r: PhaseResult, success: bool, message: Seq<char>) -> bool {
    &&& r.success == success
    &&& r.message@ == message
    &&& r.quality_score is None
    &&& r.scenario_results@.len() == 0
}

/// The message of a completed agent iteration.
pub open spec fn iteration_message(n: u32) -> Seq<char> {
    "Agent development iteration "@ + decimal(n as nat) + " complete"@
}

/// The message of a completed validation.
pub open spec fn validation_message(d: Decision) -> Seq<char> {
    "Validation complete, decision: "@ + decision_name(d)
}

/// The message of a transition from `s` to itself, which the state machine
/// refuses for every state but agent development.
pub open spec fn self_transition_message(s: PipelineState) -> Seq<char> {
    transition_error_message(TransitionError::InvalidTransition { from: s, to: s })
}

/// The decision a finished pipeline stands for.
pub open spec fn decision_of_state(s: PipelineState) -> Decision {
    match s {
        PipelineState::Accepted => Decision::Accept,
        PipelineState::Escalated => Decision::Escalate,
        _ => Decision::Fail,
    }
}

/// What `run_pipeline` returns for a pipeline stored as `p`.
///
/// A pending pipeline is reviewed; when its spec falls short of the quality
/// threshold the failure is recorded and the run reports `Fail`, and
/// otherwise the universe setup that follows refuses to re-enter its own
/// state. A pipeline stored in review, setup or validation is refused the
/// same way; one in agent development runs one iteration (or reports that
/// the limit is reached) and then validation is refused. A finished
/// pipeline reports its outcome.
pub open spec fn run_outcome(p: Pipeline, r: Result<Decision, PhaseError>) -> bool {
    match p.state {
        PipelineState::Pending => if linter_score() >= p.quality_threshold {
            r matches Err(PhaseError::SetupFailed(m)) && m@ == self_transition_message(
                PipelineState::UniverseSetup,
            )
        } else {
            r == Ok::<Decision, PhaseError>(Decision::Fail)
        },
        PipelineState::SpecReview => r matches Err(PhaseError::SpecReviewFailed(m)) && m@
            == self_transition_message(PipelineState::SpecReview),
        PipelineState::UniverseSetup => r matches Err(PhaseError::SetupFailed(m)) && m@
            == self_transition_message(PipelineState::UniverseSetup),
        PipelineState::AgentDevelopment => if p.iteration >= p.max_iterations {
            r matches Err(PhaseError::DevelopmentFailed(m)) && m@ == iteration_error_message(
                IterationError::MaxIterationsReached { current: p.iteration, max: p.max_iterations },
            )
        } else {
            r matches Err(PhaseError::ValidationFailed(m)) && m@ == self_transition_message(
                PipelineState::Validation,
            )
        },
        PipelineState::Validation => r matches Err(PhaseError::ValidationFailed(m)) && m@
            == self_transition_message(PipelineState::Validation),
        _ => r == Ok::<Decision, PhaseError>(decision_of_state(p.state)),
    }
}

/// Whether running the pipeline stored as `p` records its spec failure.
pub open spec fn run_fails_spec(p: Pipeline) -> bool {
    p.state == PipelineState::Pending && linter_score() < p.quality_threshold
}

/// The phases whose runs `run_pipeline` records for a pipeline stored as `p`.
pub open spec fn run_recorded_phases(p: Pipeline) -> Seq<Seq<char>> {
    if p.state == PipelineState::Pending {
        seq!["spec_review"@]
    } else if p.state == PipelineState::AgentDevelopment {
        seq!["agent_development"@]
    } else {
        Seq::empty()
    }
}

/// Runs pipelines through their phases.
pub struct PipelineExecutor {
    store: StateStore,
    metrics: Metrics,
    scenarios_path: String,
    linter_path: Option<String>,
    cleanup_manager: CleanupManager,
}

impl PipelineExecutor {
    /// The store is well formed, keeps every pipeline under its own id, and
    /// the cleanup handlers are the built-in ones.
    pub closed spec fn wf(&self) -> bool {
        &&& self.store.wf()
        &&& self.store.ids_match()
        &&& self.cleanup_manager.has_default_handlers()
        &&& self.metrics.wf()
    }

    /// The pipeline store.
    pub closed spec fn stored(&self) -> StateStore {
        self.store
    }

    /// The phase runs recorded so far, oldest first.
    pub closed spec fn recorded(&self) -> Seq<PhaseMetrics> {
        self.metrics.phases()
    }

    /// An executor over a loaded store, with the built-in cleanup handlers.
    pub fn new(store: StateStore, scenarios_path: String, linter_path: Option<String>) -> (r: Self)
        requires
            store.wf(),
            store.ids_match(),
        ensures
            r.wf(),
            r.stored() == store,
            r.recorded().len() == 0,
    {
        PipelineExecutor {
            store,
            metrics: Metrics::new(),
            scenarios_path,
            linter_path,
            cleanup_manager: CleanupManager::new(),
        }
    }

    pub fn store(&self) -> (r: &StateStore)
        ensures
            *r == self.stored(),
    {
        &self.store
    }

    /// The recorded phase runs.
    pub fn metrics(&self) -> (r: &Metrics)
        ensures
            r.phases() == self.recorded(),
            self.wf() ==> r.wf(),
    {
        &self.metrics
    }

    pub fn cleanup_manager(&self) -> (r: &CleanupManager)
        requires
            self.wf(),
        ensures
            r.has_default_handlers(),
    {
        &self.cleanup_manager
    }

    /// A pipeline can run while it has not finished.
    pub fn can_run_pipeline(&self, pipeline: &Pipeline) -> (r: bool)
        ensures
            r == !state_is_terminal(pipeline.state),
    {
        !pipeline.state.is_terminal()
    }

    /// Clean up after a failure in the phase of the pipeline's state; with
    /// the built-in handlers this always succeeds.
    pub fn cleanup_after_failure(&self, pipeline: &Pipeline) -> (r: Result<(), PhaseError>)
        requires
            self.wf(),
        ensures
            r is Ok,
    {
        let phase_type = PhaseType::from_state(pipeline.state);
        if let Some(phase) = phase_type {
            let context = CleanupContext::new(pipeline.id.clone(), phase);
            let result = self.cleanup_manager.cleanup(&context);
            if !result.success_flag() {
                let errors = result.errors();
                let error_msg = join_strings(&errors, "; ");
                return Err(PhaseError::CleanupFailed(error_msg));
            }
        }
        Ok(())
    }

    /// Roll back a phase of the pipeline; with the built-in handlers and no
    /// saved rollback data this always succeeds.
    pub fn rollback_phase(&self, pipeline: &Pipeline, phase: PhaseType) -> (r: Result<(), PhaseError>)
        requires
            self.wf(),
        ensures
            r is Ok,
    {
        let context = CleanupContext::new(pipeline.id.clone(), phase);
        let result = self.cleanup_manager.rollback(&context);
        if !result.success_flag() {
            let errors = result.errors();
            let error_msg = join_strings(&errors, "; ");
            return Err(PhaseError::CleanupFailed(error_msg));
        }
        Ok(())
    }

    /// Create and store a new pending pipeline for a spec.
    pub fn create_pipeline(&mut self, spec_path: String) -> (r: Result<Pipeline, PhaseError>)
        requires
            old(self).wf(),
        ensures
            final(self).wf(),
            r matches Ok(p) && p.spec_path == spec_path && p.state == PipelineState::Pending && p.iteration
                == 0 && p.last_error is None && (final(self).stored().keys(), final(self).stored().pipelines())
                == crate::persistence::upserted(old(self).stored().keys(), old(self).stored().pipelines(), p),
            final(self).recorded() == old(self).recorded(),
    {
        let pipeline = Pipeline::new(spec_path);
        proof {
            crate::persistence::lemma_store_keeps_ids(self.store, pipeline);
        }
        match self.store.create(pipeline) {
            Ok(p) => Ok(p),
            Err(e) => Err(PhaseError::PersistenceFailed(e.to_string())),
        }
    }

    /// Copies of the stored pipelines that have not finished.
    pub fn get_pending_pipelines(&self) -> (r: Vec<Pipeline>)
        ensures
            r@ == unfinished_pipelines(self.stored().pipelines()),
    {
        let pending = self.store.get_pending_recovery();
        let mut out: Vec<Pipeline> = Vec::new();
        let mut i: usize = 0;
        while i < pending.len()
            invariant
                i <= pending@.len(),
                out@.len() == i,
                forall|j: int| 0 <= j < i ==> out@[j] == *pending@[j],
            decreases pending@.len() - i,
        {
            out.push(pending[i].clone());
            i = i + 1;
        }
        assert(out@ =~= unfinished_pipelines(self.store.pipelines()));
        out
    }

    /// Record a spec review of `pipeline` that started at `start` and scored
    /// `quality_score`: it succeeded when the score reaches the threshold.
    fn record_spec_review_metrics(&mut self, pipeline: &Pipeline, start: i64, quality_score: u32)
        requires
            old(self).wf(),
        ensures
            final(self).wf(),
            final(self).recorded().len() == old(self).recorded().len() + 1,
            final(self).recorded().drop_last() == old(self).recorded(),
            records_phase(
                final(self).recorded().last(),
                *pipeline,
                "spec_review"@,
                quality_score >= pipeline.quality_threshold,
            ),
            final(self).stored() == old(self).stored(),
            final(self).cleanup_manager == old(self).cleanup_manager,
    {
        let success = quality_score >= pipeline.quality_threshold;
        self.record_phase(pipeline, "spec_review", start, success);
        proof {
            reveal_strlit("spec_review");
        }
    }

    /// Record a run of phase `name` of `pipeline` that started at `start`.
    fn record_phase(&mut self, pipeline: &Pipeline, name: &str, start: i64, success: bool)
        requires
            old(self).wf(),
        ensures
            final(self).wf(),
            final(self).recorded().len() == old(self).recorded().len() + 1,
            final(self).recorded().drop_last() == old(self).recorded(),
            records_phase(final(self).recorded().last(), *pipeline, name@, success),
            final(self).recorded().last().started_at == start,
            exists|end: i64| final(self).recorded().last().duration_ms == whole_seconds_duration(start, end),
            final(self).stored() == old(self).stored(),
            final(self).cleanup_manager == old(self).cleanup_manager,
    {
        let end = now_millis();
        let duration_ms = phase_duration(start, end);
        self.metrics.record_phase(
            PhaseMetrics {
                pipeline_id: pipeline.id.0.clone(),
                phase: String::from_str(name),
                started_at: start,
                duration_ms,
                success,
            },
        );
        assert(self.metrics.phases().drop_last() =~= old(self).metrics.phases());
    }
}


/// `after` is `before` followed by one recorded run for each of `names`, in order.
pub open spec fn appended_phases(before: Seq<PhaseMetrics>, after: Seq<PhaseMetrics>, names: Seq<Seq<char>>) -> bool {
    &&& after.len() == before.len() + names.len()
    &&& after.subrange(0, before.len() as int) == before
    &&& forall|i: int| 0 <= i < names.len() ==> (#[trigger] after[before.len() + i]).phase@ == names[i]
}

/// Two stores hold the same pipelines under the same keys.
pub open spec fn same_pipelines(s1: StateStore, s2: StateStore) -> bool {
    s1.keys() == s2.keys() && s1.pipelines() == s2.pipelines()
}

impl PipelineExecutor {
    /// Review the spec: move to spec review, lint, record the run, then move
    /// to universe setup when the score reaches the quality threshold and to
    /// failed otherwise. An error is the message of a refused transition.
    fn spec_review(&mut self, pipeline: &mut Pipeline) -> (r: Result<PhaseResult, String>)
        requires
            old(self).wf(),
        ensures
            final(self).wf(),
            final(self).store == old(self).store,
            final(self).cleanup_manager == old(self).cleanup_manager,
            transition_outcome(old(pipeline).state, PipelineState::SpecReview) matches Err(e) ==> (r matches Err(
                m,
            ) && m@ == transition_error_message(e)) && *final(pipeline) == *old(pipeline) && final(self).recorded()
                == old(self).recorded(),
            transition_outcome(old(pipeline).state, PipelineState::SpecReview) is Ok ==> {
                let passed = linter_score() >= old(pipeline).quality_threshold;
                &&& r matches Ok(res) && res.success == passed && res.quality_score == Some(linter_score())
                    && res.scenario_results@.len() == 0 && res.message@ == (if passed {
                    spec_passed_message(linter_score())
                } else {
                    spec_below_message(linter_score(), old(pipeline).quality_threshold)
                })
                &&& final(pipeline).state == (if passed {
                    PipelineState::UniverseSetup
                } else {
                    PipelineState::Failed
                })
                &&& *final(pipeline) == old(pipeline).with_state(final(pipeline).state, final(pipeline).updated_at)
                &&& appended_phases(old(self).recorded(), final(self).recorded(), seq!["spec_review"@])
                &&& records_phase(final(self).recorded().last(), *old(pipeline), "spec_review"@, passed)
            },
    {
        let start = now_millis();
        match pipeline.transition_to(PipelineState::SpecReview) {
            Ok(()) => {},
            Err(e) => return Err(e.to_string()),
        }
        let quality_score = run_linter(&self.linter_path, pipeline.spec_path.as_str());
        let passed = quality_score >= pipeline.quality_threshold;
        let ghost rec0 = self.metrics.phases();
        self.record_spec_review_metrics(pipeline, start, quality_score);
        proof {
            assert(self.metrics.phases().subrange(0, rec0.len() as int) =~= rec0);
            assert(self.metrics.phases()[rec0.len() + 0int] == self.metrics.phases().last());
        }
        if passed {
            let _ = pipeline.transition_to(PipelineState::UniverseSetup);
            Ok(
                PhaseResult {
                    success: true,
                    message: spec_passed_text(quality_score),
                    quality_score: Some(quality_score),
                    scenario_results: Vec::new(),
                },
            )
        } else {
            let threshold = pipeline.quality_threshold;
            let _ = pipeline.transition_to(PipelineState::Failed);
            Ok(
                PhaseResult {
                    success: false,
                    message: spec_below_text(quality_score, threshold),
                    quality_score: Some(quality_score),
                    scenario_results: Vec::new(),
                },
            )
        }
    }
}

impl PipelineExecutor {
    /// Set up the universe: move to universe setup, record the run, and move
    /// on to agent development. An error is the message of a refused
    /// transition.
    fn universe_setup(&mut self, pipeline: &mut Pipeline) -> (r: Result<PhaseResult, String>)
        requires
            old(self).wf(),
        ensures
            final(self).wf(),
            final(self).store == old(self).store,
            final(self).cleanup_manager == old(self).cleanup_manager,
            transition_outcome(old(pipeline).state, PipelineState::UniverseSetup) matches Err(e) ==> (r matches Err(
                m,
            ) && m@ == transition_error_message(e)) && *final(pipeline) == *old(pipeline) && final(self).recorded()
                == old(self).recorded(),
            transition_outcome(old(pipeline).state, PipelineState::UniverseSetup) is Ok ==> {
                &&& r matches Ok(res) && plain_result(res, true, "Universe setup complete"@)
                &&& *final(pipeline) == old(pipeline).with_state(PipelineState::AgentDevelopment, final(pipeline).updated_at)
                &&& appended_phases(old(self).recorded(), final(self).recorded(), seq!["universe_setup"@])
                &&& records_phase(final(self).recorded().last(), *old(pipeline), "universe_setup"@, true)
            },
    {
        let start = now_millis();
        match pipeline.transition_to(PipelineState::UniverseSetup) {
            Ok(()) => {},
            Err(e) => return Err(e.to_string()),
        }
        let ghost rec0 = self.metrics.phases();
        self.record_phase(pipeline, "universe_setup", start, true);
        proof {
            reveal_strlit("universe_setup");
            reveal_strlit("Universe setup complete");
            assert(self.metrics.phases().subrange(0, rec0.len() as int) =~= rec0);
            assert(self.metrics.phases()[rec0.len() + 0int] == self.metrics.phases().last());
        }
        let _ = pipeline.transition_to(PipelineState::AgentDevelopment);
        Ok(
            PhaseResult {
                success: true,
                message: String::from_str("Universe setup complete"),
                quality_score: None,
                scenario_results: Vec::new(),
            },
        )
    }

    /// One agent iteration: move to agent development, record the run,
    /// count the iteration and move to validation. An error is the message
    /// of a refused transition, or of the iteration limit (the pipeline is
    /// then left in agent development).
    fn agent_development(&mut self, pipeline: &mut Pipeline) -> (r: Result<PhaseResult, String>)
        requires
            old(self).wf(),
        ensures
            final(self).wf(),
            final(self).store == old(self).store,
            final(self).cleanup_manager == old(self).cleanup_manager,
            transition_outcome(old(pipeline).state, PipelineState::AgentDevelopment) matches Err(e) ==> (r matches Err(
                m,
            ) && m@ == transition_error_message(e)) && *final(pipeline) == *old(pipeline) && final(self).recorded()
                == old(self).recorded(),
            transition_outcome(old(pipeline).state, PipelineState::AgentDevelopment) is Ok ==> {
                &&& appended_phases(old(self).recorded(), final(self).recorded(), seq!["agent_development"@])
                &&& records_phase(final(self).recorded().last(), *old(pipeline), "agent_development"@, true)
                &&& old(pipeline).iteration >= old(pipeline).max_iterations ==> (r matches Err(m) && m@
                    == iteration_error_message(
                    IterationError::MaxIterationsReached {
                        current: old(pipeline).iteration,
                        max: old(pipeline).max_iterations,
                    },
                )) && *final(pipeline) == old(pipeline).with_state(
                    PipelineState::AgentDevelopment,
                    final(pipeline).updated_at,
                )
                &&& old(pipeline).iteration < old(pipeline).max_iterations ==> (r matches Ok(res) && plain_result(
                    res,
                    true,
                    iteration_message((old(pipeline).iteration + 1) as u32),
                )) && *final(pipeline) == (Pipeline {
                    state: PipelineState::Validation,
                    iteration: (old(pipeline).iteration + 1) as u32,
                    updated_at: final(pipeline).updated_at,
                    ..*old(pipeline)
                })
            },
    {
        let start = now_millis();
        match pipeline.transition_to(PipelineState::AgentDevelopment) {
            Ok(()) => {},
            Err(e) => return Err(e.to_string()),
        }
        let ghost rec0 = self.metrics.phases();
        self.record_phase(pipeline, "agent_development", start, true);
        proof {
            reveal_strlit("agent_development");
            assert(self.metrics.phases().subrange(0, rec0.len() as int) =~= rec0);
            assert(self.metrics.phases()[rec0.len() + 0int] == self.metrics.phases().last());
        }
        match pipeline.increment_iteration() {
            Ok(_) => {},
            Err(e) => return Err(e.to_string()),
        }
        let _ = pipeline.transition_to(PipelineState::Validation);
        let mut message = String::from_str("Agent development iteration ");
        push_decimal(&mut message, pipeline.iteration as u64);
        message.append(" complete");
        Ok(PhaseResult { success: true, message, quality_score: None, scenario_results: Vec::new() })
    }

    /// Validate: move to validation, run the scenarios, record the run, and
    /// decide from the scenario results. An error is the message of a
    /// refused transition.
    fn validation(&mut self, pipeline: &mut Pipeline) -> (r: Result<(Decision, PhaseResult), String>)
        requires
            old(self).wf(),
        ensures
            final(self).wf(),
            final(self).store == old(self).store,
            final(self).cleanup_manager == old(self).cleanup_manager,
            transition_outcome(old(pipeline).state, PipelineState::Validation) matches Err(e) ==> (r matches Err(
                m,
            ) && m@ == transition_error_message(e)) && *final(pipeline) == *old(pipeline) && final(self).recorded()
                == old(self).recorded(),
            transition_outcome(old(pipeline).state, PipelineState::Validation) is Ok ==> {
                &&& r matches Ok((d, res)) && d == Decision::Accept && res.success && res.message@
                    == validation_message(Decision::Accept) && res.quality_score is None && standard_scenarios(
                    res.scenario_results@,
                )
                &&& *final(pipeline) == old(pipeline).with_state(PipelineState::Validation, final(pipeline).updated_at)
                &&& appended_phases(old(self).recorded(), final(self).recorded(), seq!["validation"@])
                &&& records_phase(final(self).recorded().last(), *old(pipeline), "validation"@, true)
            },
    {
        let start = now_millis();
        match pipeline.transition_to(PipelineState::Validation) {
            Ok(()) => {},
            Err(e) => return Err(e.to_string()),
        }
        let scenario_results = run_scenarios(self.scenarios_path.as_str());
        let ghost rec0 = self.metrics.phases();
        self.record_phase(pipeline, "validation", start, scenario_results.len() != 0);
        proof {
            reveal_strlit("validation");
            assert(self.metrics.phases().subrange(0, rec0.len() as int) =~= rec0);
            assert(self.metrics.phases()[rec0.len() + 0int] == self.metrics.phases().last());
            let sr = scenario_results@;
            assert(sr.drop_last().drop_last() =~= Seq::<ScenarioResult>::empty());
            assert(passed_count(sr.drop_last().drop_last()) == 0);
            assert(sr.drop_last().last() == sr[0]);
            assert(passed_count(sr.drop_last()) == 1);
            assert(passed_count(sr) == 2);
            assert(2nat * 100 / 2nat == 100);
        }
        let decision = make_decision(scenario_results.as_slice(), pipeline);
        let mut message = String::from_str("Validation complete, decision: ");
        message.append(decision_name_str(decision));
        let result = PhaseResult {
            success: decision != Decision::Fail,
            message,
            quality_score: None,
            scenario_results,
        };
        Ok((decision, result))
    }
}

impl PipelineExecutor {
    /// Move the pipeline stored under `id` to `target` (when the state
    /// machine allows it), record `error` on it, and store it again. Nothing
    /// happens when no pipeline is stored under `id`.
    fn record_on_stored(&mut self, id: &PipelineId, target: PipelineState, error: Option<String>) -> (r: Result<(), StoreError>)
        requires
            old(self).wf(),
            error is Some ==> target == PipelineState::Failed || target == PipelineState::Escalated,
        ensures
            final(self).wf(),
            r is Ok,
            final(self).recorded() == old(self).recorded(),
            error matches Some(m) ==> store_failure_recorded(old(self).stored(), final(self).stored(), id.0@, target, m@),
            error is None ==> store_moved(old(self).stored(), final(self).stored(), id.0@, target),
    {
        let ghost s0 = self.store;
        let updated = match self.store.get_mut(id) {
            Ok(p) => {
                let _ = p.transition_to(target);
                match error {
                    Some(m) => p.set_error(m),
                    None => {},
                }
                Some(p.clone())
            },
            Err(_) => None,
        };
        let ghost s1 = self.store;
        proof {
            if let Some(i) = key_index(s0.keys(), id.0@) {
                assert(s1.pipelines()[i].id == s0.pipelines()[i].id);
                assert(forall|j: int| 0 <= j < s1.pipelines().len() && j != i ==> s1.pipelines()[j] == s0.pipelines()[j]);
                assert(s1.ids_match());
            } else {
                assert(s1.pipelines() == s0.pipelines());
            }
        }
        match updated {
            Some(p) => {
                proof {
                    let i = key_index(s0.keys(), id.0@)->0;
                    assert(p == s1.pipelines()[i]);
                    assert(s1.keys()[i] == p.id.0@);
                    assert(key_index(s1.keys(), p.id.0@) == Some(i));
                }
                match self.store.update(p) {
                    Ok(()) => {},
                    Err(e) => return Err(e),
                }
                proof {
                    let i = key_index(s0.keys(), id.0@)->0;
                    assert(self.store.pipelines() =~= s1.pipelines());
                }
            },
            None => {},
        }
        Ok(())
    }

    /// After a failed spec review: clean up, then mark the stored pipeline
    /// failed with `message`.
    pub fn handle_spec_failure(&mut self, id: &PipelineId, message: String) -> (r: Result<PhaseResult, PhaseError>)
        requires
            old(self).wf(),
        ensures
            final(self).wf(),
            final(self).recorded() == old(self).recorded(),
            key_index(old(self).stored().keys(), id.0@) is None ==> (r matches Err(PhaseError::PersistenceFailed(m))
                && m@ == store_message(StoreError::NotFound(id.0))) && same_pipelines(old(self).stored(), final(self).stored()),
            key_index(old(self).stored().keys(), id.0@) is Some ==> (r matches Ok(res) && plain_result(res, false, message@))
                && store_failure_recorded(old(self).stored(), final(self).stored(), id.0@, PipelineState::Failed, message@),
    {
        let pipeline = match self.store.get(id) {
            Ok(p) => p.clone(),
            Err(e) => return Err(PhaseError::PersistenceFailed(e.to_string())),
        };
        match self.cleanup_after_failure(&pipeline) {
            Ok(()) => {},
            Err(e) => return Err(PhaseError::CleanupFailed(e.to_string())),
        }
        match self.record_on_stored(id, PipelineState::Failed, Some(message.clone())) {
            Ok(()) => {},
            Err(e) => return Err(PhaseError::PersistenceFailed(e.to_string())),
        }
        Ok(PhaseResult { success: false, message, quality_score: None, scenario_results: Vec::new() })
    }

    /// Mark the stored pipeline escalated with `message`.
    fn persist_failure_state(&mut self, id: &PipelineId, message: String) -> (r: Result<(), PhaseError>)
        requires
            old(self).wf(),
        ensures
            final(self).wf(),
            r is Ok,
            final(self).recorded() == old(self).recorded(),
            store_failure_recorded(old(self).stored(), final(self).stored(), id.0@, PipelineState::Escalated, message@),
    {
        match self.record_on_stored(id, PipelineState::Escalated, Some(message)) {
            Ok(()) => Ok(()),
            Err(e) => Err(PhaseError::PersistenceFailed(e.to_string())),
        }
    }

    /// After a failed phase: clean up, roll the phase back, then mark the
    /// stored pipeline escalated with `message`.
    fn perform_failure_handling(&mut self, id: &PipelineId, message: String, phase: PhaseType) -> (r: Result<PhaseResult, PhaseError>)
        requires
            old(self).wf(),
        ensures
            final(self).wf(),
            final(self).recorded() == old(self).recorded(),
            key_index(old(self).stored().keys(), id.0@) is None ==> (r matches Err(PhaseError::PersistenceFailed(m))
                && m@ == store_message(StoreError::NotFound(id.0))) && same_pipelines(old(self).stored(), final(self).stored()),
            key_index(old(self).stored().keys(), id.0@) is Some ==> (r matches Ok(res) && plain_result(res, false, message@))
                && store_failure_recorded(old(self).stored(), final(self).stored(), id.0@, PipelineState::Escalated, message@),
    {
        let pipeline = match self.store.get(id) {
            Ok(p) => p.clone(),
            Err(e) => return Err(PhaseError::PersistenceFailed(e.to_string())),
        };
        match self.cleanup_after_failure(&pipeline) {
            Ok(()) => {},
            Err(e) => return Err(PhaseError::CleanupFailed(e.to_string())),
        }
        match self.rollback_phase(&pipeline, phase) {
            Ok(()) => {},
            Err(e) => return Err(PhaseError::CleanupFailed(e.to_string())),
        }
        match self.persist_failure_state(id, message.clone()) {
            Ok(()) => {},
            Err(e) => return Err(e),
        }
        Ok(PhaseResult { success: false, message, quality_score: None, scenario_results: Vec::new() })
    }

    /// After a failed universe setup: clean up, roll back, and escalate the
    /// stored pipeline with `message`.
    pub fn handle_setup_failure(&mut self, id: &PipelineId, message: String) -> (r: Result<PhaseResult, PhaseError>)
        requires
            old(self).wf(),
        ensures
            final(self).wf(),
            final(self).recorded() == old(self).recorded(),
            key_index(old(self).stored().keys(), id.0@) is None ==> (r matches Err(PhaseError::PersistenceFailed(m))
                && m@ == store_message(StoreError::NotFound(id.0))) && same_pipelines(old(self).stored(), final(self).stored()),
            key_index(old(self).stored().keys(), id.0@) is Some ==> (r matches Ok(res) && plain_result(res, false, message@))
                && store_failure_recorded(old(self).stored(), final(self).stored(), id.0@, PipelineState::Escalated, message@),
    {
        self.perform_failure_handling(id, message, PhaseType::UniverseSetup)
    }

    /// After a failed agent iteration: clean up, roll back, and escalate the
    /// stored pipeline with `message`; the decision is to escalate.
    pub fn handle_dev_failure(&mut self, id: &PipelineId, message: String) -> (r: Result<Decision, PhaseError>)
        requires
            old(self).wf(),
        ensures
            final(self).wf(),
            final(self).recorded() == old(self).recorded(),
            key_index(old(self).stored().keys(), id.0@) is None ==> (r matches Err(PhaseError::PersistenceFailed(m))
                && m@ == store_message(StoreError::NotFound(id.0))) && same_pipelines(old(self).stored(), final(self).stored()),
            key_index(old(self).stored().keys(), id.0@) is Some ==> r == Ok::<Decision, PhaseError>(Decision::Escalate)
                && store_failure_recorded(old(self).stored(), final(self).stored(), id.0@, PipelineState::Escalated, message@),
    {
        match self.perform_failure_handling(id, message, PhaseType::AgentDevelopment) {
            Ok(_) => Ok(Decision::Escalate),
            Err(e) => Err(e),
        }
    }

    /// Accept the stored pipeline.
    fn finalize_acceptance(&mut self, id: &PipelineId) -> (r: Result<(), StoreError>)
        requires
            old(self).wf(),
        ensures
            final(self).wf(),
            r is Ok,
            final(self).recorded() == old(self).recorded(),
            store_moved(old(self).stored(), final(self).stored(), id.0@, PipelineState::Accepted),
    {
        self.record_on_stored(id, PipelineState::Accepted, None)
    }

    /// Escalate the stored pipeline, recording `reason`.
    fn escalate(&mut self, id: &PipelineId, reason: &str) -> (r: Result<(), StoreError>)
        requires
            old(self).wf(),
        ensures
            final(self).wf(),
            r is Ok,
            final(self).recorded() == old(self).recorded(),
            store_failure_recorded(old(self).stored(), final(self).stored(), id.0@, PipelineState::Escalated, reason@),
    {
        self.record_on_stored(id, PipelineState::Escalated, Some(String::from_str(reason)))
    }

    /// Fail the stored pipeline, recording `reason`.
    fn fail(&mut self, id: &PipelineId, reason: &str) -> (r: Result<(), StoreError>)
        requires
            old(self).wf(),
        ensures
            final(self).wf(),
            r is Ok,
            final(self).recorded() == old(self).recorded(),
            store_failure_recorded(old(self).stored(), final(self).stored(), id.0@, PipelineState::Failed, reason@),
    {
        self.record_on_stored(id, PipelineState::Failed, Some(String::from_str(reason)))
    }

    /// The decision the stored pipeline's state stands for.
    fn get_final_decision(&self, id: &PipelineId) -> (r: Result<Decision, PhaseError>)
        requires
            self.wf(),
        ensures
            self.stored().lookup(id.0@) is None ==> (r matches Err(PhaseError::PersistenceFailed(m)) && m@
                == store_message(StoreError::NotFound(id.0))),
            self.stored().lookup(id.0@) matches Some(p) ==> r == Ok::<Decision, PhaseError>(decision_of_state(p.state)),
    {
        let final_pipeline = match self.store.get(id) {
            Ok(p) => p,
            Err(e) => return Err(PhaseError::PersistenceFailed(e.to_string())),
        };
        match final_pipeline.state {
            PipelineState::Accepted => Ok(Decision::Accept),
            PipelineState::Escalated => Ok(Decision::Escalate),
            PipelineState::Failed => Ok(Decision::Fail),
            _ => Ok(Decision::Fail),
        }
    }
}

impl PipelineExecutor {
    fn skipped() -> (r: PhaseResult)
        ensures
            plain_result(r, true, "Skipped"@),
    {
        proof {
            reveal_strlit("Skipped");
        }
        PhaseResult {
            success: true,
            message: String::from_str("Skipped"),
            quality_score: None,
            scenario_results: Vec::new(),
        }
    }

    /// The spec review step of a run: skipped unless the pipeline is pending
    /// or in review; a failed review is handled (clean up, mark the stored
    /// pipeline failed).
    fn run_spec_review_phase(&mut self, pipeline: &mut Pipeline) -> (r: Result<PhaseResult, PhaseError>)
        requires
            old(self).wf(),
        ensures
            final(self).wf(),
            old(pipeline).state != PipelineState::Pending && old(pipeline).state != PipelineState::SpecReview ==> (r matches Ok(
                res,
            ) && plain_result(res, true, "Skipped"@)) && *final(pipeline) == *old(pipeline) && final(self).recorded()
                == old(self).recorded() && final(self).stored() == old(self).stored(),
            old(pipeline).state == PipelineState::SpecReview ==> (r matches Err(PhaseError::SpecReviewFailed(m)) && m@
                == self_transition_message(PipelineState::SpecReview)) && *final(pipeline) == *old(pipeline)
                && final(self).recorded() == old(self).recorded() && final(self).stored() == old(self).stored(),
            old(pipeline).state == PipelineState::Pending ==> {
                let passed = linter_score() >= old(pipeline).quality_threshold;
                &&& appended_phases(old(self).recorded(), final(self).recorded(), seq!["spec_review"@])
                &&& *final(pipeline) == old(pipeline).with_state(
                    if passed {
                        PipelineState::UniverseSetup
                    } else {
                        PipelineState::Failed
                    },
                    final(pipeline).updated_at,
                )
                &&& passed ==> (r matches Ok(res) && res.success && res.message@ == spec_passed_message(linter_score()))
                    && final(self).stored() == old(self).stored()
                &&& !passed && key_index(old(self).stored().keys(), old(pipeline).id.0@) is None ==> (r matches Err(
                    PhaseError::PersistenceFailed(m),
                ) && m@ == store_message(StoreError::NotFound(old(pipeline).id.0))) && same_pipelines(
                    old(self).stored(),
                    final(self).stored(),
                )
                &&& !passed && key_index(old(self).stored().keys(), old(pipeline).id.0@) is Some ==> (r matches Ok(res)
                    && plain_result(res, false, spec_below_message(linter_score(), old(pipeline).quality_threshold)))
                    && store_failure_recorded(
                    old(self).stored(),
                    final(self).stored(),
                    old(pipeline).id.0@,
                    PipelineState::Failed,
                    spec_below_message(linter_score(), old(pipeline).quality_threshold),
                )
            },
    {
        if pipeline.state != PipelineState::Pending && pipeline.state != PipelineState::SpecReview {
            return Ok(Self::skipped());
        }
        let result = match self.spec_review(pipeline) {
            Ok(res) => res,
            Err(m) => return Err(PhaseError::SpecReviewFailed(m)),
        };
        if result.success {
            Ok(result)
        } else {
            let id = pipeline.id.clone();
            self.handle_spec_failure(&id, result.message)
        }
    }

    /// The universe setup step of a run: skipped unless the pipeline is in
    /// universe setup, where re-entering that state is refused.
    fn run_universe_setup_phase(&mut self, pipeline: &mut Pipeline) -> (r: Result<PhaseResult, PhaseError>)
        requires
            old(self).wf(),
        ensures
            final(self).wf(),
            *final(pipeline) == *old(pipeline),
            final(self).recorded() == old(self).recorded(),
            final(self).stored() == old(self).stored(),
            old(pipeline).state != PipelineState::UniverseSetup ==> (r matches Ok(res) && plain_result(res, true, "Skipped"@)),
            old(pipeline).state == PipelineState::UniverseSetup ==> (r matches Err(PhaseError::SetupFailed(m)) && m@
                == self_transition_message(PipelineState::UniverseSetup)),
    {
        if pipeline.state != PipelineState::UniverseSetup {
            return Ok(Self::skipped());
        }
        let result = match self.universe_setup(pipeline) {
            Ok(res) => res,
            Err(m) => return Err(PhaseError::SetupFailed(m)),
        };
        if result.success {
            Ok(result)
        } else {
            let id = pipeline.id.clone();
            self.handle_setup_failure(&id, result.message)
        }
    }

    /// The agent development step of a run: iterate while the pipeline is in
    /// agent development; one iteration moves it to validation.
    fn run_agent_development_phase(&mut self, pipeline: &mut Pipeline) -> (r: Result<Decision, PhaseError>)
        requires
            old(self).wf(),
        ensures
            final(self).wf(),
            final(self).stored() == old(self).stored(),
            old(pipeline).state != PipelineState::AgentDevelopment ==> r == Ok::<Decision, PhaseError>(Decision::Accept)
                && *final(pipeline) == *old(pipeline) && final(self).recorded() == old(self).recorded(),
            old(pipeline).state == PipelineState::AgentDevelopment ==> {
                &&& appended_phases(old(self).recorded(), final(self).recorded(), seq!["agent_development"@])
                &&& old(pipeline).iteration >= old(pipeline).max_iterations ==> (r matches Err(PhaseError::DevelopmentFailed(m))
                    && m@ == iteration_error_message(
                    IterationError::MaxIterationsReached {
                        current: old(pipeline).iteration,
                        max: old(pipeline).max_iterations,
                    },
                )) && *final(pipeline) == old(pipeline).with_state(
                    PipelineState::AgentDevelopment,
                    final(pipeline).updated_at,
                )
                &&& old(pipeline).iteration < old(pipeline).max_iterations ==> r == Ok::<Decision, PhaseError>(
                    Decision::Accept,
                ) && *final(pipeline) == (Pipeline {
                    state: PipelineState::Validation,
                    iteration: (old(pipeline).iteration + 1) as u32,
                    updated_at: final(pipeline).updated_at,
                    ..*old(pipeline)
                })
            },
    {
        let ghost start = *pipeline;
        let ghost rec0 = self.metrics.phases();
        while pipeline.state == PipelineState::AgentDevelopment
            invariant
                self.wf(),
                self.store == old(self).store,
                start == *old(pipeline),
                rec0 == old(self).recorded(),
                (*pipeline == start && self.metrics.phases() == rec0) || (start.state == PipelineState::AgentDevelopment
                    && start.iteration < start.max_iterations && appended_phases(rec0, self.metrics.phases(), seq!["agent_development"@])
                    && *pipeline == (Pipeline {
                    state: PipelineState::Validation,
                    iteration: (start.iteration + 1) as u32,
                    updated_at: pipeline.updated_at,
                    ..start
                })),
            decreases (if pipeline.state == PipelineState::AgentDevelopment {
                1int
            } else {
                0int
            }),
        {
            let result = match self.agent_development(pipeline) {
                Ok(res) => res,
                Err(m) => return Err(PhaseError::DevelopmentFailed(m)),
            };
            if !result.success {
                let id = pipeline.id.clone();
                return self.handle_dev_failure(&id, result.message);
            }
        }
        Ok(Decision::Accept)
    }

    /// What to do after a validation decision; `Ok(true)` means validate again.
    fn handle_validation_decision(&mut self, pipeline_id: &PipelineId, pipeline: &mut Pipeline, decision: Decision) -> (r: Result<bool, PhaseError>)
        requires
            old(self).wf(),
        ensures
            final(self).wf(),
            final(self).recorded() == old(self).recorded(),
            decision == Decision::Accept ==> r == Ok::<bool, PhaseError>(false) && *final(pipeline) == *old(pipeline)
                && store_moved(old(self).stored(), final(self).stored(), pipeline_id.0@, PipelineState::Accepted),
            decision == Decision::Retry && may_iterate(*old(pipeline)) ==> r == Ok::<bool, PhaseError>(true)
                && *final(pipeline) == (Pipeline { iteration: (old(pipeline).iteration + 1) as u32, ..*old(pipeline) })
                && (final(self).stored().keys(), final(self).stored().pipelines()) == crate::persistence::upserted(
                old(self).stored().keys(),
                old(self).stored().pipelines(),
                *final(pipeline),
            ),
            decision == Decision::Retry && !may_iterate(*old(pipeline)) ==> r == Ok::<bool, PhaseError>(false)
                && *final(pipeline) == *old(pipeline) && store_failure_recorded(
                old(self).stored(),
                final(self).stored(),
                pipeline_id.0@,
                PipelineState::Escalated,
                "Max iterations reached"@,
            ),
            decision == Decision::Escalate ==> r == Ok::<bool, PhaseError>(false) && *final(pipeline) == *old(pipeline)
                && store_failure_recorded(
                old(self).stored(),
                final(self).stored(),
                pipeline_id.0@,
                PipelineState::Escalated,
                "Validation escalated"@,
            ),
            decision == Decision::Fail ==> r == Ok::<bool, PhaseError>(false) && *final(pipeline) == *old(pipeline)
                && store_failure_recorded(
                old(self).stored(),
                final(self).stored(),
                pipeline_id.0@,
                PipelineState::Failed,
                "Validation failed"@,
            ),
    {
        match decision {
            Decision::Accept => {
                match self.finalize_acceptance(pipeline_id) {
                    Ok(()) => {},
                    Err(e) => return Err(PhaseError::PersistenceFailed(e.to_string())),
                }
                Ok(false)
            },
            Decision::Retry => {
                if pipeline.can_iterate() {
                    pipeline.iteration = pipeline.iteration + 1;
                    proof {
                        crate::persistence::lemma_store_keeps_ids(self.store, *pipeline);
                    }
                    match self.store.update(pipeline.clone()) {
                        Ok(()) => {},
                        Err(e) => return Err(PhaseError::PersistenceFailed(e.to_string())),
                    }
                    Ok(true)
                } else {
                    match self.escalate(pipeline_id, "Max iterations reached") {
                        Ok(()) => {},
                        Err(e) => return Err(PhaseError::PersistenceFailed(e.to_string())),
                    }
                    Ok(false)
                }
            },
            Decision::Escalate => {
                match self.escalate(pipeline_id, "Validation escalated") {
                    Ok(()) => {},
                    Err(e) => return Err(PhaseError::PersistenceFailed(e.to_string())),
                }
                Ok(false)
            },
            Decision::Fail => {
                match self.fail(pipeline_id, "Validation failed") {
                    Ok(()) => {},
                    Err(e) => return Err(PhaseError::PersistenceFailed(e.to_string())),
                }
                Ok(false)
            },
        }
    }

    /// The validation step of a run: validate while the pipeline is in
    /// validation (re-entering that state is refused), then report the
    /// stored pipeline's outcome.
    fn run_validation_phase(&mut self, pipeline_id: &PipelineId, pipeline: &mut Pipeline) -> (r: Result<Decision, PhaseError>)
        requires
            old(self).wf(),
        ensures
            final(self).wf(),
            *final(pipeline) == *old(pipeline),
            final(self).recorded() == old(self).recorded(),
            final(self).stored() == old(self).stored(),
            old(pipeline).state == PipelineState::Validation ==> (r matches Err(PhaseError::ValidationFailed(m)) && m@
                == self_transition_message(PipelineState::Validation)),
            old(pipeline).state != PipelineState::Validation && old(self).stored().lookup(pipeline_id.0@) is None ==> (r matches Err(
                PhaseError::PersistenceFailed(m),
            ) && m@ == store_message(StoreError::NotFound(pipeline_id.0))),
            old(pipeline).state != PipelineState::Validation ==> (old(self).stored().lookup(pipeline_id.0@) matches Some(p)
                ==> r == Ok::<Decision, PhaseError>(decision_of_state(p.state))),
    {
        while pipeline.state == PipelineState::Validation
            invariant
                self.wf(),
                *pipeline == *old(pipeline),
                *self == *old(self),
            decreases pipeline.max_iterations - pipeline.iteration,
        {
            let (decision, _result) = match self.validation(pipeline) {
                Ok(v) => v,
                Err(m) => return Err(PhaseError::ValidationFailed(m)),
            };
            let continue_loop = match self.handle_validation_decision(pipeline_id, pipeline, decision) {
                Ok(c) => c,
                Err(e) => return Err(e),
            };
            if continue_loop {
                continue;
            }
            return Ok(decision);
        }
        self.get_final_decision(pipeline_id)
    }
}

impl PipelineExecutor {
    /// Run the pipeline stored under `pipeline_id` through its phases; see
    /// `run_outcome` for what each stored state leads to.
    pub fn run_pipeline(&mut self, pipeline_id: &PipelineId) -> (r: Result<Decision, PhaseError>)
        requires
            old(self).wf(),
        ensures
            final(self).wf(),
            old(self).stored().lookup(pipeline_id.0@) is None ==> (r matches Err(PhaseError::PersistenceFailed(m))
                && m@ == store_message(StoreError::NotFound(pipeline_id.0))) && same_pipelines(
                old(self).stored(),
                final(self).stored(),
            ) && final(self).recorded() == old(self).recorded(),
            old(self).stored().lookup(pipeline_id.0@) matches Some(p) ==> {
                &&& run_outcome(p, r)
                &&& run_fails_spec(p) ==> store_failure_recorded(
                    old(self).stored(),
                    final(self).stored(),
                    pipeline_id.0@,
                    PipelineState::Failed,
                    spec_below_message(linter_score(), p.quality_threshold),
                )
                &&& !run_fails_spec(p) ==> same_pipelines(old(self).stored(), final(self).stored())
                &&& appended_phases(old(self).recorded(), final(self).recorded(), run_recorded_phases(p))
            },
    {
        let mut pipeline = match self.store.get(pipeline_id) {
            Ok(p) => p.clone(),
            Err(e) => return Err(PhaseError::PersistenceFailed(e.to_string())),
        };
        let ghost p0 = pipeline;
        let ghost s0 = self.store;
        let ghost rec0 = self.metrics.phases();
        proof {
            let i = key_index(s0.keys(), pipeline_id.0@)->0;
            assert(s0.keys()[i] == pipeline_id.0@);
            assert(p0.id.0@ == pipeline_id.0@);
            assert(rec0.subrange(0, rec0.len() as int) =~= rec0);
        }
        match self.run_spec_review_phase(&mut pipeline) {
            Ok(_) => {},
            Err(e) => return Err(e),
        }
        let ghost s1 = self.store;
        let ghost rec1 = self.metrics.phases();
        match self.run_universe_setup_phase(&mut pipeline) {
            Ok(_) => {},
            Err(e) => return Err(e),
        }
        match self.run_agent_development_phase(&mut pipeline) {
            Ok(_) => {},
            Err(e) => return Err(e),
        }
        let ghost rec2 = self.metrics.phases();
        proof {
            if p0.state == PipelineState::Pending {
                assert(rec2 == rec1);
            }
            if p0.state == PipelineState::AgentDevelopment {
                assert(rec1 == rec0);
            }
            if p0.state != PipelineState::Pending && p0.state != PipelineState::AgentDevelopment {
                assert(rec2 == rec0);
                assert(rec2.subrange(0, rec0.len() as int) =~= rec0);
            }
            if run_fails_spec(p0) {
                let i = key_index(s0.keys(), pipeline_id.0@)->0;
                assert(s1.keys() == s0.keys());
                assert(key_index(self.store.keys(), pipeline_id.0@) == Some(i));
            }
        }
        self.run_validation_phase(pipeline_id, &mut pipeline)
    }

    /// Resume a stored pipeline: a finished one reports its outcome and is
    /// left as it is; any other is run.
    pub fn recover_pipeline(&mut self, pipeline_id: &PipelineId) -> (r: Result<Decision, PhaseError>)
        requires
            old(self).wf(),
        ensures
            final(self).wf(),
            old(self).stored().lookup(pipeline_id.0@) is None ==> (r matches Err(PhaseError::PersistenceFailed(m))
                && m@ == store_message(StoreError::NotFound(pipeline_id.0))) && same_pipelines(
                old(self).stored(),
                final(self).stored(),
            ) && final(self).recorded() == old(self).recorded(),
            old(self).stored().lookup(pipeline_id.0@) matches Some(p) ==> {
                &&& state_is_terminal(p.state) ==> r == Ok::<Decision, PhaseError>(decision_of_state(p.state))
                    && final(self).stored() == old(self).stored() && final(self).recorded() == old(self).recorded()
                &&& run_outcome(p, r)
                &&& run_fails_spec(p) ==> store_failure_recorded(
                    old(self).stored(),
                    final(self).stored(),
                    pipeline_id.0@,
                    PipelineState::Failed,
                    spec_below_message(linter_score(), p.quality_threshold),
                )
                &&& !run_fails_spec(p) ==> same_pipelines(old(self).stored(), final(self).stored())
                &&& appended_phases(old(self).recorded(), final(self).recorded(), run_recorded_phases(p))
            },
    {
        let pipeline = match self.store.get(pipeline_id) {
            Ok(p) => p,
            Err(e) => return Err(PhaseError::PersistenceFailed(e.to_string())),
        };
        if pipeline.state.is_terminal() {
            let d = match pipeline.state {
                PipelineState::Accepted => Decision::Accept,
                PipelineState::Escalated => Decision::Escalate,
                PipelineState::Failed => Decision::Fail,
                _ => Decision::Fail,
            };
            proof {
                assert(self.metrics.phases().subrange(0, self.metrics.phases().len() as int) =~= self.metrics.phases());
            }
            return Ok(d);
        }
        self.run_pipeline(pipeline_id)
    }
}

/// The state a phase moves the pipeline into first.
pub open spec fn entry_state(phase: PhaseType) -> PipelineState {
    match phase {
        PhaseType::SpecReview => PipelineState::SpecReview,
        PhaseType::UniverseSetup => PipelineState::UniverseSetup,
        PhaseType::AgentDevelopment => PipelineState::AgentDevelopment,
        PhaseType::Validation => PipelineState::Validation,
    }
}

/// The name under which a phase's runs are recorded.
pub open spec fn metric_name(phase: PhaseType) -> Seq<char> {
    match phase {
        PhaseType::SpecReview => "spec_review"@,
        PhaseType::UniverseSetup => "universe_setup"@,
        PhaseType::AgentDevelopment => "agent_development"@,
        PhaseType::Validation => "validation"@,
    }
}

/// `e` is the error a phase reports with message `m`.
pub open spec fn phase_failure(phase: PhaseType, e: PhaseError, m: Seq<char>) -> bool {
    match phase {
        PhaseType::SpecReview => e matches PhaseError::SpecReviewFailed(x) && x@ == m,
        PhaseType::UniverseSetup => e matches PhaseError::SetupFailed(x) && x@ == m,
        PhaseType::AgentDevelopment => e matches PhaseError::DevelopmentFailed(x) && x@ == m,
        PhaseType::Validation => e matches PhaseError::ValidationFailed(x) && x@ == m,
    }
}

/// What running one phase on its own does: the pipeline `a` becomes `b`,
/// the recorded runs go from `ra` to `rb`, and `r` is returned.
pub open spec fn single_phase_post(
    phase: PhaseType,
    a: Pipeline,
    b: Pipeline,
    ra: Seq<PhaseMetrics>,
    rb: Seq<PhaseMetrics>,
    r: Result<Vec<PhaseResult>, PhaseError>,
) -> bool {
    match transition_outcome(a.state, entry_state(phase)) {
        Err(e) => (r matches Err(err) && phase_failure(phase, err, transition_error_message(e))) && b == a && rb == ra,
        Ok(_) => {
            &&& appended_phases(ra, rb, seq![metric_name(phase)])
            &&& match phase {
                PhaseType::SpecReview => {
                    let passed = linter_score() >= a.quality_threshold;
                    &&& r matches Ok(v) && v@.len() == 1 && v@[0].success == passed && v@[0].quality_score == Some(
                        linter_score(),
                    ) && v@[0].message@ == (if passed {
                        spec_passed_message(linter_score())
                    } else {
                        spec_below_message(linter_score(), a.quality_threshold)
                    })
                    &&& b == a.with_state(
                        if passed {
                            PipelineState::UniverseSetup
                        } else {
                            PipelineState::Failed
                        },
                        b.updated_at,
                    )
                },
                PhaseType::UniverseSetup => {
                    &&& r matches Ok(v) && v@.len() == 1 && plain_result(v@[0], true, "Universe setup complete"@)
                    &&& b == a.with_state(PipelineState::AgentDevelopment, b.updated_at)
                },
                PhaseType::AgentDevelopment => if a.iteration >= a.max_iterations {
                    &&& r matches Err(err) && phase_failure(
                        phase,
                        err,
                        iteration_error_message(
                            IterationError::MaxIterationsReached { current: a.iteration, max: a.max_iterations },
                        ),
                    )
                    &&& b == a.with_state(PipelineState::AgentDevelopment, b.updated_at)
                } else {
                    &&& r matches Ok(v) && v@.len() == 0
                    &&& b == (Pipeline {
                        state: PipelineState::Validation,
                        iteration: (a.iteration + 1) as u32,
                        updated_at: b.updated_at,
                        ..a
                    })
                },
                PhaseType::Validation => {
                    &&& r matches Ok(v) && v@.len() == 1 && v@[0].success && v@[0].message@ == validation_message(
                        Decision::Accept,
                    ) && standard_scenarios(v@[0].scenario_results@)
                    &&& b == a.with_state(PipelineState::Validation, b.updated_at)
                },
            }
        },
    }
}

/// Where a run through a dependency graph stands: its nodes, the phases
/// completed so far, the phases of the current round still to run, and the
/// results gathered so far.
pub struct GraphRun {
    pub nodes: Seq<PhaseNode>,
    pub completed: Set<PhaseType>,
    pub queue: Seq<PhaseType>,
    pub results: Seq<PhaseResult>,
}

/// How a run through a dependency graph ended.
pub enum GraphRunEnd {
    /// Nothing more could start, and no phase had failed, or every phase
    /// finished: these are the results gathered.
    Done(Seq<PhaseResult>),
    /// Nothing could start while some phase had failed and others had not
    /// finished.
    Stuck,
    /// A phase returned this error.
    Failed(PhaseError),
}

/// A run through a dependency graph: under way, ended, or driven by calls
/// that do not follow it.
pub enum GraphRunState {
    Running(GraphRun),
    Ended(GraphRunEnd),
    Invalid,
}

/// One call of a phase during a graph run, and what it returned.
pub struct GraphCall {
    pub phase: PhaseType,
    pub outcome: Result<Vec<PhaseResult>, PhaseError>,
}

/// Every node has completed or failed.
pub open spec fn all_finished(nodes: Seq<PhaseNode>) -> bool {
    forall|i: int|
        0 <= i < nodes.len() ==> (#[trigger] nodes[i]).status == PhaseStatus::Completed || nodes[i].status
            == PhaseStatus::Failed
}

/// Some node has failed.
pub open spec fn any_failed(nodes: Seq<PhaseNode>) -> bool {
    exists|i: int| 0 <= i < nodes.len() && (#[trigger] nodes[i]).status == PhaseStatus::Failed
}

/// The start of each round: with no phase of the round left, the run ends
/// once every node has finished; otherwise the ready phases, in node order,
/// make the next round, and when none is ready the run ends, stuck if some
/// node failed.
pub open spec fn settle(g: GraphRun) -> GraphRunState {
    if g.queue.len() > 0 {
        GraphRunState::Running(g)
    } else if all_finished(g.nodes) {
        GraphRunState::Ended(GraphRunEnd::Done(g.results))
    } else if ready_phases(g.nodes, g.completed).len() == 0 {
        if any_failed(g.nodes) {
            GraphRunState::Ended(GraphRunEnd::Stuck)
        } else {
            GraphRunState::Ended(GraphRunEnd::Done(g.results))
        }
    } else {
        GraphRunState::Running(GraphRun { queue: ready_phases(g.nodes, g.completed), ..g })
    }
}

/// The nodes and completed phases once phase `p` returned the results `v`:
/// each result in turn marks the phase completed (and adds it to the
/// completed phases) when it succeeded, and failed otherwise.
pub open spec fn after_results(
    nodes: Seq<PhaseNode>,
    completed: Set<PhaseType>,
    p: PhaseType,
    v: Seq<PhaseResult>,
) -> (Seq<PhaseNode>, Set<PhaseType>)
    decreases v.len(),
{
    if v.len() == 0 {
        (nodes, completed)
    } else {
        let before = after_results(nodes, completed, p, v.drop_last());
        if v.last().success {
            (set_status(before.0, p, PhaseStatus::Completed), before.1.insert(p))
        } else {
            (set_status(before.0, p, PhaseStatus::Failed), before.1)
        }
    }
}

/// The run after the next phase of the round was marked running and called:
/// an error ends the run; results update the nodes and are gathered.
pub open spec fn after_call(g: GraphRun, c: GraphCall) -> GraphRunState {
    let running = set_status(g.nodes, c.phase, PhaseStatus::Running);
    match c.outcome {
        Err(e) => GraphRunState::Ended(GraphRunEnd::Failed(e)),
        Ok(v) => {
            let after = after_results(running, g.completed, c.phase, v@);
            settle(GraphRun { nodes: after.0, completed: after.1, queue: g.queue.drop_first(), results: g.results + v@ })
        },
    }
}

/// The run after `calls`, each of which must call the next phase of its round.
pub open spec fn replay(s: GraphRunState, calls: Seq<GraphCall>) -> GraphRunState
    decreases calls.len(),
{
    if calls.len() == 0 {
        s
    } else {
        match s {
            GraphRunState::Running(g) => if g.queue.len() > 0 && calls[0].phase == g.queue[0] {
                replay(after_call(g, calls[0]), calls.drop_first())
            } else {
                GraphRunState::Invalid
            },
            _ => GraphRunState::Invalid,
        }
    }
}

/// A run through a graph with these nodes, before any call.
pub open spec fn graph_start(nodes: Seq<PhaseNode>) -> GraphRunState {
    settle(GraphRun { nodes, completed: Set::empty(), queue: Seq::empty(), results: Seq::empty() })
}

/// `calls` are the phase calls of a run through a graph with nodes `nodes`
/// that took the pipeline from `p0` to `p1` and the recorded runs from `r0`
/// to `r1` (through `ps` and `recs`, one step per call, each call doing what
/// running a single phase does), and the run ended with result `r`.
pub open spec fn graph_trace(
    nodes: Seq<PhaseNode>,
    calls: Seq<GraphCall>,
    ps: Seq<Pipeline>,
    recs: Seq<Seq<PhaseMetrics>>,
    p0: Pipeline,
    p1: Pipeline,
    r0: Seq<PhaseMetrics>,
    r1: Seq<PhaseMetrics>,
    r: Result<Vec<PhaseResult>, PhaseError>,
) -> bool {
    &&& ps.len() == calls.len() + 1
    &&& recs.len() == calls.len() + 1
    &&& ps[0] == p0
    &&& ps.last() == p1
    &&& recs[0] == r0
    &&& recs.last() == r1
    &&& forall|i: int|
        0 <= i < calls.len() ==> single_phase_post(
            (#[trigger] calls[i]).phase,
            ps[i],
            ps[i + 1],
            recs[i],
            recs[i + 1],
            calls[i].outcome,
        )
    &&& match replay(graph_start(nodes), calls) {
        GraphRunState::Ended(GraphRunEnd::Done(v)) => r matches Ok(w) && w@ == v,
        GraphRunState::Ended(GraphRunEnd::Stuck) => r matches Err(PhaseError::ParallelExecutionFailed(m)) && m@
            == "No phases ready but graph incomplete with failures"@,
        GraphRunState::Ended(GraphRunEnd::Failed(e)) => r == Err::<Vec<PhaseResult>, PhaseError>(e),
        _ => false,
    }
}

/// What running the phases of a graph does: some sequence of phase calls,
/// chosen round by round as the graph dictates, took the pipeline from `p0`
/// to `p1` and the recorded runs from `r0` to `r1`, and ended with `r`.
pub open spec fn graph_run_post(
    nodes: Seq<PhaseNode>,
    p0: Pipeline,
    p1: Pipeline,
    r0: Seq<PhaseMetrics>,
    r1: Seq<PhaseMetrics>,
    r: Result<Vec<PhaseResult>, PhaseError>,
) -> bool {
    exists|calls: Seq<GraphCall>, ps: Seq<Pipeline>, recs: Seq<Seq<PhaseMetrics>>|
        #[trigger] graph_trace(nodes, calls, ps, recs, p0, p1, r0, r1, r)
}

/// Replaying one more call continues from where the earlier calls left the run.
proof fn lemma_replay_push(s: GraphRunState, calls: Seq<GraphCall>, c: GraphCall)
    ensures
        replay(s, calls.push(c)) == (match replay(s, calls) {
            GraphRunState::Running(g) => if g.queue.len() > 0 && c.phase == g.queue[0] {
                after_call(g, c)
            } else {
                GraphRunState::Invalid
            },
            _ => GraphRunState::Invalid,
        }),
    decreases calls.len(),
{
    if calls.len() == 0 {
        assert(calls.push(c).drop_first() =~= Seq::<GraphCall>::empty());
        assert(calls.push(c)[0] == c);
        match s {
            GraphRunState::Running(g) => {
                if g.queue.len() > 0 && c.phase == g.queue[0] {
                    assert(replay(after_call(g, c), Seq::<GraphCall>::empty()) == after_call(g, c));
                }
            },
            _ => {},
        }
    } else {
        assert(calls.push(c)[0] == calls[0]);
        match s {
            GraphRunState::Running(g) => {
                if g.queue.len() > 0 && calls[0].phase == g.queue[0] {
                    assert(calls.push(c).drop_first() =~= calls.drop_first().push(c));
                    lemma_replay_push(after_call(g, calls[0]), calls.drop_first(), c);
                }
            },
            _ => {},
        }
    }
}

/// The number of pending nodes.
pub open spec fn pending_count(nodes: Seq<PhaseNode>) -> nat
    decreases nodes.len(),
{
    if nodes.len() == 0 {
        0
    } else {
        pending_count(nodes.drop_last()) + if nodes.last().status == PhaseStatus::Pending {
            1nat
        } else {
            0nat
        }
    }
}

proof fn lemma_set_status_pending(nodes: Seq<PhaseNode>, p: PhaseType, s: PhaseStatus)
    requires
        s != PhaseStatus::Pending,
    ensures
        pending_count(set_status(nodes, p, s)) <= pending_count(nodes),
        (exists|i: int| 0 <= i < nodes.len() && nodes[i].phase_type == p && nodes[i].status == PhaseStatus::Pending)
            ==> pending_count(set_status(nodes, p, s)) < pending_count(nodes),
    decreases nodes.len(),
{
    if nodes.len() > 0 {
        let rest = nodes.drop_last();
        assert(set_status(nodes, p, s).drop_last() =~= set_status(rest, p, s));
        lemma_set_status_pending(rest, p, s);
        if exists|i: int| 0 <= i < nodes.len() && nodes[i].phase_type == p && nodes[i].status == PhaseStatus::Pending {
            let i = choose|i: int| 0 <= i < nodes.len() && nodes[i].phase_type == p && nodes[i].status == PhaseStatus::Pending;
            if i < nodes.len() - 1 {
                assert(rest[i] == nodes[i]);
            }
        }
    }
}

proof fn lemma_ready_is_pending(nodes: Seq<PhaseNode>, completed: Set<PhaseType>, k: int)
    requires
        0 <= k < ready_phases(nodes, completed).len(),
    ensures
        exists|i: int|
            0 <= i < nodes.len() && nodes[i].phase_type == ready_phases(nodes, completed)[k] && nodes[i].status
                == PhaseStatus::Pending,
    decreases nodes.len(),
{
    let rest = nodes.drop_last();
    let rr = ready_phases(rest, completed);
    if k < rr.len() {
        lemma_ready_is_pending(rest, completed, k);
        let i = choose|i: int| 0 <= i < rest.len() && rest[i].phase_type == rr[k] && rest[i].status == PhaseStatus::Pending;
        assert(nodes[i] == rest[i]);
    } else {
        assert(nodes[nodes.len() - 1] == nodes.last());
    }
}

impl PipelineExecutor {
    /// Run one phase on its own.
    fn execute_single_phase(&mut self, pipeline: &mut Pipeline, phase_type: PhaseType) -> (r: Result<Vec<PhaseResult>, PhaseError>)
        requires
            old(self).wf(),
        ensures
            final(self).wf(),
            final(self).store == old(self).store,
            final(self).cleanup_manager == old(self).cleanup_manager,
            single_phase_post(phase_type, *old(pipeline), *final(pipeline), old(self).recorded(), final(self).recorded(), r),
    {
        match phase_type {
            PhaseType::SpecReview => {
                let result = match self.spec_review(pipeline) {
                    Ok(res) => res,
                    Err(m) => return Err(PhaseError::SpecReviewFailed(m)),
                };
                let mut v: Vec<PhaseResult> = Vec::new();
                v.push(result);
                Ok(v)
            },
            PhaseType::UniverseSetup => {
                let result = match self.universe_setup(pipeline) {
                    Ok(res) => res,
                    Err(m) => return Err(PhaseError::SetupFailed(m)),
                };
                let mut v: Vec<PhaseResult> = Vec::new();
                v.push(result);
                Ok(v)
            },
            PhaseType::AgentDevelopment => {
                let _result = match self.agent_development(pipeline) {
                    Ok(res) => res,
                    Err(m) => return Err(PhaseError::DevelopmentFailed(m)),
                };
                Ok(Vec::new())
            },
            PhaseType::Validation => {
                let (_decision, result) = match self.validation(pipeline) {
                    Ok(v) => v,
                    Err(m) => return Err(PhaseError::ValidationFailed(m)),
                };
                let mut v: Vec<PhaseResult> = Vec::new();
                v.push(result);
                Ok(v)
            },
        }
    }

    /// Run the phases of a graph as their dependencies complete, one at a
    /// time; stops when nothing more can start.
    #[verifier::loop_isolation(false)]
    fn execute_with_dependency_graph(&mut self, pipeline: &mut Pipeline, graph: DependencyGraph) -> (r: Result<Vec<PhaseResult>, PhaseError>)
        requires
            old(self).wf(),
        ensures
            final(self).wf(),
            final(self).store == old(self).store,
            final(self).cleanup_manager == old(self).cleanup_manager,
            graph_run_post(
                graph.nodes(),
                *old(pipeline),
                *final(pipeline),
                old(self).recorded(),
                final(self).recorded(),
                r,
            ),
    {
        let ghost nodes0 = graph.nodes();
        let ghost p0 = *pipeline;
        let ghost r0 = self.recorded();
        let ghost mut calls: Seq<GraphCall> = Seq::empty();
        let ghost mut ps: Seq<Pipeline> = seq![p0];
        let ghost mut recs: Seq<Seq<PhaseMetrics>> = seq![r0];
        let mut graph = graph;
        let mut results: Vec<PhaseResult> = Vec::new();
        let mut completed = PhaseSet::new();
        proof {
            assert(results@ =~= Seq::<PhaseResult>::empty());
        }
        while !graph.is_complete()
            invariant
                self.wf(),
                self.store == old(self).store,
                self.cleanup_manager == old(self).cleanup_manager,
                r0 == old(self).recorded(),
                p0 == *old(pipeline),
                ps.len() == calls.len() + 1,
                recs.len() == calls.len() + 1,
                ps[0] == p0,
                ps.last() == *pipeline,
                recs[0] == r0,
                recs.last() == self.recorded(),
                forall|i: int|
                    0 <= i < calls.len() ==> single_phase_post(
                        (#[trigger] calls[i]).phase,
                        ps[i],
                        ps[i + 1],
                        recs[i],
                        recs[i + 1],
                        calls[i].outcome,
                    ),
                replay(graph_start(nodes0), calls) == settle(
                    GraphRun { nodes: graph.nodes(), completed: completed@, queue: Seq::empty(), results: results@ },
                ),
            decreases pending_count(graph.nodes()),
        {
            let ready = graph.get_ready_phases(&completed);
            if ready.len() == 0 {
                if graph.has_failures() {
                    let r = Err(
                        PhaseError::ParallelExecutionFailed(
                            String::from_str("No phases ready but graph incomplete with failures"),
                        ),
                    );
                    proof {
                        assert(graph_trace(nodes0, calls, ps, recs, p0, *pipeline, r0, self.recorded(), r));
                    }
                    return r;
                }
                let r = Ok(results);
                proof {
                    assert(graph_trace(nodes0, calls, ps, recs, p0, *pipeline, r0, self.recorded(), r));
                }
                return r;
            }
            let ghost before = pending_count(graph.nodes());
            proof {
                lemma_ready_is_pending(graph.nodes(), completed@, 0);
                assert(ready@.subrange(0, ready@.len() as int) =~= ready@);
            }
            let mut k: usize = 0;
            while k < ready.len()
                invariant
                    self.wf(),
                    self.store == old(self).store,
                    self.cleanup_manager == old(self).cleanup_manager,
                    r0 == old(self).recorded(),
                    p0 == *old(pipeline),
                    ready@.len() > 0,
                    k <= ready@.len(),
                    k == 0 ==> (exists|i: int|
                        0 <= i < graph.nodes().len() && graph.nodes()[i].phase_type == ready@[0]
                            && graph.nodes()[i].status == PhaseStatus::Pending) && pending_count(graph.nodes()) == before,
                    k > 0 ==> pending_count(graph.nodes()) < before,
                    ps.len() == calls.len() + 1,
                    recs.len() == calls.len() + 1,
                    ps[0] == p0,
                    ps.last() == *pipeline,
                    recs[0] == r0,
                    recs.last() == self.recorded(),
                    forall|i: int|
                        0 <= i < calls.len() ==> single_phase_post(
                            (#[trigger] calls[i]).phase,
                            ps[i],
                            ps[i + 1],
                            recs[i],
                            recs[i + 1],
                            calls[i].outcome,
                        ),
                    replay(graph_start(nodes0), calls) == settle(
                        GraphRun {
                            nodes: graph.nodes(),
                            completed: completed@,
                            queue: ready@.subrange(k as int, ready@.len() as int),
                            results: results@,
                        },
                    ),
                decreases ready@.len() - k,
            {
                let phase_type = ready[k];
                let ghost g = GraphRun {
                    nodes: graph.nodes(),
                    completed: completed@,
                    queue: ready@.subrange(k as int, ready@.len() as int),
                    results: results@,
                };
                let ghost g0 = graph.nodes();
                let ghost p_before = *pipeline;
                let ghost rec_before = self.recorded();
                graph.mark_running(phase_type);
                proof {
                    lemma_set_status_pending(g0, phase_type, PhaseStatus::Running);
                }
                let outcome = self.execute_single_phase(pipeline, phase_type);
                let ghost call = GraphCall { phase: phase_type, outcome: outcome };
                proof {
                    lemma_replay_push(graph_start(nodes0), calls, call);
                    assert(g.queue[0] == phase_type);
                    let old_calls = calls;
                    let old_ps = ps;
                    let old_recs = recs;
                    calls = calls.push(call);
                    ps = ps.push(*pipeline);
                    recs = recs.push(self.recorded());
                    assert forall|i: int| 0 <= i < calls.len() implies single_phase_post(
                        (#[trigger] calls[i]).phase,
                        ps[i],
                        ps[i + 1],
                        recs[i],
                        recs[i + 1],
                        calls[i].outcome,
                    ) by {
                        if i < old_calls.len() {
                            assert(calls[i] == old_calls[i]);
                            assert(ps[i] == old_ps[i] && ps[i + 1] == old_ps[i + 1]);
                            assert(recs[i] == old_recs[i] && recs[i + 1] == old_recs[i + 1]);
                        } else {
                            assert(ps[i] == p_before && recs[i] == rec_before);
                        }
                    }
                }
                let mut result = match outcome {
                    Ok(v) => v,
                    Err(e) => {
                        let r = Err(e);
                        proof {
                            assert(graph_trace(nodes0, calls, ps, recs, p0, *pipeline, r0, self.recorded(), r));
                        }
                        return r;
                    },
                };
                let ghost v = result@;
                let ghost running = graph.nodes();
                let ghost done0 = completed@;
                let ghost results0 = results@;
                let ghost after_run = pending_count(graph.nodes());
                let ghost mut j: int = 0;
                proof {
                    assert(v.subrange(0, 0) =~= Seq::<PhaseResult>::empty());
                    assert(results0 + v.subrange(0, 0) =~= results0);
                    assert(v.subrange(0, v.len() as int) =~= v);
                }
                while result.len() > 0
                    invariant
                        pending_count(graph.nodes()) <= after_run,
                        0 <= j <= v.len(),
                        result@ == v.subrange(j, v.len() as int),
                        (graph.nodes(), completed@) == after_results(running, done0, phase_type, v.subrange(0, j)),
                        results@ == results0 + v.subrange(0, j),
                    decreases result@.len(),
                {
                    let res = result.remove(0);
                    let ghost g1 = graph.nodes();
                    proof {
                        assert(res == v[j]);
                        assert(v.subrange(0, j + 1).drop_last() =~= v.subrange(0, j));
                        assert(v.subrange(0, j + 1).last() == v[j]);
                        assert(result@ =~= v.subrange(j + 1, v.len() as int));
                    }
                    if res.success {
                        graph.mark_completed(phase_type);
                        completed.insert(phase_type);
                        proof {
                            lemma_set_status_pending(g1, phase_type, PhaseStatus::Completed);
                        }
                    } else {
                        graph.mark_failed(phase_type);
                        proof {
                            lemma_set_status_pending(g1, phase_type, PhaseStatus::Failed);
                        }
                    }
                    results.push(res);
                    proof {
                        assert(results@ =~= results0 + v.subrange(0, j + 1));
                        j = j + 1;
                    }
                }
                proof {
                    assert(v.subrange(0, j) =~= v);
                    assert(g.queue.drop_first() =~= ready@.subrange(k as int + 1, ready@.len() as int));
                }
                k = k + 1;
            }
            proof {
                assert(ready@.subrange(k as int, ready@.len() as int) =~= Seq::<PhaseType>::empty());
            }
        }
        let r = Ok(results);
        proof {
            assert(graph_trace(nodes0, calls, ps, recs, p0, *pipeline, r0, self.recorded(), r));
        }
        r
    }

    /// Run a group of phases: a single phase directly, several through
    /// their dependency graph.
    fn execute_phase_group(&mut self, pipeline: &mut Pipeline, group: &PhaseGroup) -> (r: Result<Vec<PhaseResult>, PhaseError>)
        requires
            old(self).wf(),
        ensures
            final(self).wf(),
            final(self).store == old(self).store,
            final(self).cleanup_manager == old(self).cleanup_manager,
            group.phases@.len() == 0 ==> (r matches Ok(v) && v@.len() == 0) && *final(pipeline) == *old(pipeline)
                && final(self).recorded() == old(self).recorded(),
            group.phases@.len() == 1 ==> single_phase_post(
                group.phases@[0],
                *old(pipeline),
                *final(pipeline),
                old(self).recorded(),
                final(self).recorded(),
                r,
            ),
    {
        if group.phases.len() == 0 {
            return Ok(Vec::new());
        }
        if group.phases.len() == 1 {
            let phase_type = group.phases[0];
            return self.execute_single_phase(pipeline, phase_type);
        }
        let graph = match ParallelExecutor::build_dependency_graph(group.phases.as_slice()) {
            Ok(g) => g,
            Err(e) => return Err(PhaseError::ParallelExecutionFailed(e.to_string())),
        };
        self.execute_with_dependency_graph(pipeline, graph)
    }

    /// Run the phase that comes next from the pipeline's state; refused in
    /// a terminal state.
    pub fn execute_parallel_phases(&mut self, pipeline: &mut Pipeline) -> (r: Result<Vec<PhaseResult>, PhaseError>)
        requires
            old(self).wf(),
        ensures
            final(self).wf(),
            final(self).stored() == old(self).stored(),
            state_is_terminal(old(pipeline).state) ==> (r matches Err(PhaseError::InvalidStateTransition(m)) && m@
                == "Cannot execute parallel phases in terminal state"@) && *final(pipeline) == *old(pipeline)
                && final(self).recorded() == old(self).recorded(),
            !state_is_terminal(old(pipeline).state) ==> single_phase_post(
                next_phase(old(pipeline).state)->0,
                *old(pipeline),
                *final(pipeline),
                old(self).recorded(),
                final(self).recorded(),
                r,
            ),
    {
        if pipeline.state.is_terminal() {
            proof {
                reveal_strlit("Cannot execute parallel phases in terminal state");
            }
            return Err(
                PhaseError::InvalidStateTransition(
                    String::from_str("Cannot execute parallel phases in terminal state"),
                ),
            );
        }
        let phase_groups = ParallelExecutor::resolve_parallel_phases(&pipeline.state);
        if phase_groups.len() == 0 {
            return Ok(Vec::new());
        }
        let mut results: Vec<PhaseResult> = Vec::new();
        let ghost p0 = *pipeline;
        let ghost rec0 = self.metrics.phases();
        let mut g: usize = 0;
        while g < phase_groups.len()
            invariant
                self.wf(),
                self.store == old(self).store,
                self.cleanup_manager == old(self).cleanup_manager,
                phase_groups@.len() == 1,
                phase_groups@[0].phases@ == seq![next_phase(p0.state)->0],
                g <= 1,
                p0 == *old(pipeline),
                !state_is_terminal(p0.state),
                rec0 == old(self).recorded(),
                g == 0 ==> *pipeline == p0 && self.metrics.phases() == rec0 && results@.len() == 0,
                g == 1 ==> single_phase_post(next_phase(p0.state)->0, p0, *pipeline, rec0, self.metrics.phases(), Ok(results)),
            decreases phase_groups@.len() - g,
        {
            let group_results = match self.execute_phase_group(pipeline, &phase_groups[g]) {
                Ok(v) => v,
                Err(e) => return Err(e),
            };
            let mut group_results = group_results;
            results.append(&mut group_results);
            g = g + 1;
        }
        Ok(results)
    }

    /// Check that the phases to run from the pipeline's state can be
    /// scheduled; refused in a terminal state.
    pub fn validate_pipeline_parallel(&self, pipeline: &Pipeline) -> (r: Result<(), PhaseError>)
        ensures
            state_is_terminal(pipeline.state) ==> (r matches Err(PhaseError::InvalidStateTransition(m)) && m@
                == "Pipeline is in terminal state"@),
            !state_is_terminal(pipeline.state) ==> r is Ok,
    {
        if pipeline.state.is_terminal() {
            proof {
                reveal_strlit("Pipeline is in terminal state");
            }
            return Err(PhaseError::InvalidStateTransition(String::from_str("Pipeline is in terminal state")));
        }
        let phase_groups = ParallelExecutor::resolve_parallel_phases(&pipeline.state);
        let mut g: usize = 0;
        while g < phase_groups.len()
            invariant
                g <= phase_groups@.len(),
            decreases phase_groups@.len() - g,
        {
            if phase_groups[g].phases.len() > 1 {
                match ParallelExecutor::build_dependency_graph(phase_groups[g].phases.as_slice()) {
                    Ok(_) => {},
                    Err(e) => return Err(PhaseError::ParallelExecutionFailed(e.to_string())),
                }
            }
            g = g + 1;
        }
        Ok(())
    }

    /// The phases that may run from a state, across all of its groups.
    pub fn get_parallelizable_phases(pipeline_state: &PipelineState) -> (r: Vec<PhaseType>)
        ensures
            next_phase(*pipeline_state) is None ==> r@.len() == 0,
            next_phase(*pipeline_state) matches Some(p) ==> r@ == seq![p],
    {
        let groups = ParallelExecutor::resolve_parallel_phases(pipeline_state);
        let mut out: Vec<PhaseType> = Vec::new();
        let mut g: usize = 0;
        while g < groups.len()
            invariant
                g <= groups@.len(),
                next_phase(*pipeline_state) is None ==> groups@.len() == 0,
                next_phase(*pipeline_state) matches Some(p) ==> groups@.len() == 1 && groups@[0].phases@ == seq![p],
                g == 0 ==> out@.len() == 0,
                g == 1 ==> out@ == groups@[0].phases@,
            decreases groups@.len() - g,
        {
            let mut k: usize = 0;
            let ghost out0 = out@;
            while k < groups[g].phases.len()
                invariant
                    g < groups@.len(),
                    k <= groups@[g as int].phases@.len(),
                    out@ == out0 + groups@[g as int].phases@.subrange(0, k as int),
                decreases groups@[g as int].phases@.len() - k,
            {
                out.push(groups[g].phases[k]);
                k = k + 1;
                assert(out@ =~= out0 + groups@[g as int].phases@.subrange(0, k as int));
            }
            assert(groups@[g as int].phases@.subrange(0, k as int) =~= groups@[g as int].phases@);
            g = g + 1;
        }
        out
    }
}

} // verus!
