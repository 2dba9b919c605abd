//! The phase framework: phases as values that run against a context, a
//! registry of phases by type, the default phases, and the linter and
//! scenario runners they share with the executor.
use vstd::prelude::*;

use crate::metrics::{phase_duration, whole_seconds_duration, Metrics, PhaseMetrics, ScenarioResult};
use crate::cleanup::PhaseType;
use crate::clock::now_millis;
use crate::state::{iteration_error_message, transition_error_message, transition_outcome, IterationError, Pipeline, PipelineState};
use crate::text::{decimal, push_decimal};

use super::{
    decision_name, decision_name_str, make_decision, passed_count, spec_below_message, spec_below_text,
    spec_passed_message, spec_passed_text, Decision, PhaseError, PhaseResult,
};

verus! {

/// The quality score the spec linter reports.
pub open spec fn linter_score() -> u32 {
    85
}

/// Run the spec linter on a spec; returns a quality score from 0 to 100.
/// The linter is not wired in yet: every spec scores 85.
pub fn run_linter(linter_path: &Option<String>, spec_path: &str) -> (r: u32)
    ensures
        r == linter_score(),
{
    85
}

/// What the scenario runner reports: two passing scenarios, `happy_path`
/// (1.5 s) and `edge_case` (0.8 s).
pub open spec fn standard_scenarios(r: Seq<ScenarioResult>) -> bool {
    &&& r.len() == 2
    &&& r[0].name@ == "happy_path"@ && r[0].passed && r[0].duration_ms == 1500 && r[0].error is None
    &&& r[1].name@ == "edge_case"@ && r[1].passed && r[1].duration_ms == 800 && r[1].error is None
}

/// Run the scenarios of a scenarios directory. The runner is not wired in
/// yet: it reports the two standard passing scenarios.
pub fn run_scenarios(scenarios_path: &str) -> (r: Vec<ScenarioResult>)
    ensures
        standard_scenarios(r@),
{
    let mut v: Vec<ScenarioResult> = Vec::new();
    v.push(
        ScenarioResult {
            name: String::from_str("happy_path"),
            passed: true,
            duration_ms: 1500,
            error: None,
        },
    );
    v.push(
        ScenarioResult { name: String::from_str("edge_case"), passed: true, duration_ms: 800, error: None },
    );
    proof {
        reveal_strlit("happy_path");
        reveal_strlit("edge_case");
    }
    v
}

/// A pipeline phase that can be run against a context. Implementors decide
/// what running does; nothing is assumed of them.
pub trait Phase {
    /// The phase type this phase implements.
    fn phase_type(&self) -> PhaseType;

    /// Run the phase: move the pipeline through its states, do the work,
    /// record metrics, and report the outcome.
    fn execute(&self, ctx: &mut PhaseContext<'_>) -> (r: Result<PhaseResult, PhaseError>)
        requires
            old(ctx).metrics.wf(),
        ensures
            final(ctx).metrics.wf(),
    ;
}

/// What a phase runs against: the pipeline, the recorded phase runs, and
/// where the scenarios and the linter are.
pub struct PhaseContext<'a> {
    pub pipeline: &'a mut Pipeline,
    pub metrics: &'a mut Metrics,
    pub scenarios_path: &'a str,
    pub linter_path: &'a Option<String>,
}

impl<'a> PhaseContext<'a> {
    /// Record a run of phase `phase_name` of the context's pipeline that
    /// started at `start` (milliseconds since the epoch).
    pub fn record_phase_metrics(&mut self, phase_name: &str, start: i64, success: bool)
        requires
            old(self).metrics.wf(),
        ensures
            final(self).metrics.wf(),
            *final(self).pipeline == *old(self).pipeline,
            final(self).metrics.phases().len() == old(self).metrics.phases().len() + 1,
            final(self).metrics.phases().drop_last() == old(self).metrics.phases(),
            final(self).metrics.phases().last().pipeline_id@ == old(self).pipeline.id.0@,
            final(self).metrics.phases().last().phase@ == phase_name@,
            final(self).metrics.phases().last().started_at == start,
            exists|end: i64| final(self).metrics.phases().last().duration_ms == whole_seconds_duration(
                start,
                end,
            ),
            final(self).metrics.phases().last().success == success,
    {
        let end = now_millis();
        let duration_ms = phase_duration(start, end);
        let m = PhaseMetrics {
            pipeline_id: self.pipeline.id.0.clone(),
            phase: String::from_str(phase_name),
            started_at: start,
            duration_ms,
            success,
        };
        self.metrics.record_phase(m);
        assert(self.metrics.phases().drop_last() =~= old(self).metrics.phases());
    }

    /// Move the context's pipeline to `state`; a refused transition is
    /// reported with its message.
    pub fn transition_to(&mut self, state: PipelineState) -> (r: Result<(), PhaseError>)
        ensures
            *final(self).metrics == *old(self).metrics,
            transition_outcome(old(self).pipeline.state, state) matches Err(e) ==> (r matches Err(
                PhaseError::InvalidStateTransition(m),
            ) && m@ == transition_error_message(e)) && *final(self).pipeline == *old(self).pipeline,
            transition_outcome(old(self).pipeline.state, state) is Ok ==> r is Ok && *final(self).pipeline
                == old(self).pipeline.with_state(state, final(self).pipeline.updated_at),
    {
        match self.pipeline.transition_to(state) {
            Ok(()) => Ok(()),
            Err(e) => Err(PhaseError::InvalidStateTransition(e.to_string())),
        }
    }
}

/// The default spec review: lint the spec and check its score against the
/// pipeline's quality threshold.
pub struct DefaultSpecReviewPhase;

/// The default universe setup: records its run and moves on to agent
/// development.
pub struct DefaultUniverseSetupPhase;

/// The default agent development: one iteration, then on to validation.
pub struct DefaultAgentDevelopmentPhase;

/// The default validation: run the scenarios and decide from their results.
pub struct DefaultValidationPhase;

/// `m` records a run of `name` for pipeline `p` with outcome `success`.
pub open spec fn recorded_run(before: Seq<PhaseMetrics>, after: Seq<PhaseMetrics>, p: Pipeline, name: Seq<char>, success: bool) -> bool {
    &&& after.len() == before.len() + 1
    &&& after.drop_last() == before
    &&& after.last().pipeline_id@ == p.id.0@
    &&& after.last().phase@ == name
    &&& after.last().success == success
}

impl Phase for DefaultSpecReviewPhase {
    fn phase_type(&self) -> (r: PhaseType)
        ensures
            r == PhaseType::SpecReview,
    {
        PhaseType::SpecReview
    }

    fn execute(&self, ctx: &mut PhaseContext<'_>) -> (r: Result<PhaseResult, PhaseError>)
        ensures
            transition_outcome(old(ctx).pipeline.state, PipelineState::SpecReview) matches Err(e) ==> (r matches Err(
                PhaseError::InvalidStateTransition(m),
            ) && m@ == transition_error_message(e)) && *final(ctx).pipeline == *old(ctx).pipeline
                && *final(ctx).metrics == *old(ctx).metrics,
            transition_outcome(old(ctx).pipeline.state, PipelineState::SpecReview) is Ok ==> {
                let p = *old(ctx).pipeline;
                let passed = linter_score() >= p.quality_threshold;
                &&& r matches Ok(res) && res.success == passed && res.quality_score == Some(linter_score())
                    && res.scenario_results@.len() == 0 && res.message@ == (if passed {
                    spec_passed_message(linter_score())
                } else {
                    spec_below_message(linter_score(), p.quality_threshold)
                })
                &&& *final(ctx).pipeline == p.with_state(
                    if passed {
                        PipelineState::UniverseSetup
                    } else {
                        PipelineState::Failed
                    },
                    final(ctx).pipeline.updated_at,
                )
                &&& recorded_run(old(ctx).metrics.phases(), final(ctx).metrics.phases(), p, "spec_review"@, passed)
            },
    {
        let start = now_millis();
        match ctx.transition_to(PipelineState::SpecReview) {
            Ok(()) => {},
            Err(e) => return Err(e),
        }
        let quality_score = run_linter(ctx.linter_path, ctx.pipeline.spec_path.as_str());
        let threshold = ctx.pipeline.quality_threshold;
        let success = quality_score >= threshold;
        ctx.record_phase_metrics("spec_review", start, success);
        proof {
            reveal_strlit("spec_review");
        }
        if success {
            match ctx.transition_to(PipelineState::UniverseSetup) {
                Ok(()) => {},
                Err(e) => return Err(e),
            }
            Ok(
                PhaseResult {
                    success: true,
                    message: spec_passed_text(quality_score),
                    quality_score: Some(quality_score),
                    scenario_results: Vec::new(),
                },
            )
        } else {
            match ctx.transition_to(PipelineState::Failed) {
                Ok(()) => {},
                Err(e) => return Err(e),
            }
            Ok(
                PhaseResult {
                    success: false,
                    message: spec_below_text(quality_score, threshold),
                    quality_score: Some(quality_score),
                    scenario_results: Vec::new(),
                },
            )
        }
    }
}

impl Phase for DefaultUniverseSetupPhase {
    fn phase_type(&self) -> (r: PhaseType)
        ensures
            r == PhaseType::UniverseSetup,
    {
        PhaseType::UniverseSetup
    }

    fn execute(&self, ctx: &mut PhaseContext<'_>) -> (r: Result<PhaseResult, PhaseError>)
        ensures
            recorded_run(old(ctx).metrics.phases(), final(ctx).metrics.phases(), *old(ctx).pipeline, "universe_setup"@, true),
            transition_outcome(old(ctx).pipeline.state, PipelineState::AgentDevelopment) matches Err(e) ==> (r matches Err(
                PhaseError::InvalidStateTransition(m),
            ) && m@ == transition_error_message(e)) && *final(ctx).pipeline == *old(ctx).pipeline,
            transition_outcome(old(ctx).pipeline.state, PipelineState::AgentDevelopment) is Ok ==> (r matches Ok(res)
                && res.success && res.message@ == "Universe setup complete"@ && res.quality_score is None
                && res.scenario_results@.len() == 0) && *final(ctx).pipeline == old(ctx).pipeline.with_state(
                PipelineState::AgentDevelopment,
                final(ctx).pipeline.updated_at,
            ),
    {
        let start = now_millis();
        ctx.record_phase_metrics("universe_setup", start, true);
        proof {
            reveal_strlit("universe_setup");
            reveal_strlit("Universe setup complete");
        }
        match ctx.transition_to(PipelineState::AgentDevelopment) {
            Ok(()) => {},
            Err(e) => return Err(e),
        }
        Ok(
            PhaseResult {
                success: true,
                message: String::from_str("Universe setup complete"),
                quality_score: None,
                scenario_results: Vec::new(),
            },
        )
    }
}

impl Phase for DefaultAgentDevelopmentPhase {
    fn phase_type(&self) -> (r: PhaseType)
        ensures
            r == PhaseType::AgentDevelopment,
    {
        PhaseType::AgentDevelopment
    }

    fn execute(&self, ctx: &mut PhaseContext<'_>) -> (r: Result<PhaseResult, PhaseError>)
        ensures
            transition_outcome(old(ctx).pipeline.state, PipelineState::AgentDevelopment) matches Err(e) ==> (r matches Err(
                PhaseError::InvalidStateTransition(m),
            ) && m@ == transition_error_message(e)) && *final(ctx).pipeline == *old(ctx).pipeline
                && *final(ctx).metrics == *old(ctx).metrics,
            transition_outcome(old(ctx).pipeline.state, PipelineState::AgentDevelopment) is Ok ==> {
                let p = *old(ctx).pipeline;
                &&& recorded_run(old(ctx).metrics.phases(), final(ctx).metrics.phases(), p, "agent_development"@, true)
                &&& p.iteration >= p.max_iterations ==> (r matches Err(PhaseError::InvalidStateTransition(m)) && m@
                    == iteration_error_message(
                    IterationError::MaxIterationsReached { current: p.iteration, max: p.max_iterations },
                )) && *final(ctx).pipeline == p.with_state(
                    PipelineState::AgentDevelopment,
                    final(ctx).pipeline.updated_at,
                )
                &&& p.iteration < p.max_iterations ==> (r matches Ok(res) && res.success && res.message@
                    == "Agent development iteration "@ + decimal((p.iteration + 1) as nat) + " complete"@
                    && res.quality_score is None && res.scenario_results@.len() == 0) && *final(ctx).pipeline
                    == (Pipeline {
                    state: PipelineState::Validation,
                    iteration: (p.iteration + 1) as u32,
                    updated_at: final(ctx).pipeline.updated_at,
                    ..p
                })
            },
    {
        let start = now_millis();
        match ctx.transition_to(PipelineState::AgentDevelopment) {
            Ok(()) => {},
            Err(e) => return Err(e),
        }
        ctx.record_phase_metrics("agent_development", start, true);
        proof {
            reveal_strlit("agent_development");
        }
        match ctx.pipeline.increment_iteration() {
            Ok(_) => {},
            Err(e) => return Err(PhaseError::InvalidStateTransition(e.to_string())),
        }
        match ctx.transition_to(PipelineState::Validation) {
            Ok(()) => {},
            Err(e) => return Err(e),
        }
        let mut message = String::from_str("Agent development iteration ");
        push_decimal(&mut message, ctx.pipeline.iteration as u64);
        message.append(" complete");
        Ok(PhaseResult { success: true, message, quality_score: None, scenario_results: Vec::new() })
    }
}

impl Phase for DefaultValidationPhase {
    fn phase_type(&self) -> (r: PhaseType)
        ensures
            r == PhaseType::Validation,
    {
        PhaseType::Validation
    }

    fn execute(&self, ctx: &mut PhaseContext<'_>) -> (r: Result<PhaseResult, PhaseError>)
        ensures
            *final(ctx).pipeline == *old(ctx).pipeline,
            recorded_run(old(ctx).metrics.phases(), final(ctx).metrics.phases(), *old(ctx).pipeline, "validation"@, true),
            r matches Ok(res) && res.success && res.message@ == "Validation complete, decision: "@ + decision_name(
                Decision::Accept,
            ) && res.quality_score is None && standard_scenarios(res.scenario_results@),
    {
        let start = now_millis();
        let scenario_results = run_scenarios(ctx.scenarios_path);
        ctx.record_phase_metrics("validation", start, scenario_results.len() != 0);
        proof {
            reveal_strlit("validation");
            let sr = scenario_results@;
            assert(sr.drop_last().drop_last() =~= Seq::<ScenarioResult>::empty());
            assert(passed_count(sr.drop_last().drop_last()) == 0);
            assert(sr.drop_last().last() == sr[0]);
            assert(passed_count(sr.drop_last()) == 1);
            assert(passed_count(sr) == 2);
            assert(2nat * 100 / 2nat == 100);
        }
        let decision = make_decision(scenario_results.as_slice(), ctx.pipeline);
        let mut message = String::from_str("Validation complete, decision: ");
        message.append(decision_name_str(decision));
        Ok(
            PhaseResult {
                success: decision != Decision::Fail,
                message,
                quality_score: None,
                scenario_results,
            },
        )
    }
}

/// A registered phase, with what is known of it.
struct PhaseSlot {
    kind: PhaseKind,
    phase: Box<dyn Phase>,
}

/// Which implementation a registry slot holds.
#[derive(Debug, Clone, Copy, PartialEq, Eq, Structural)]
pub enum PhaseKind {
    DefaultSpecReview,
    DefaultUniverseSetup,
    DefaultAgentDevelopment,
    DefaultValidation,
    Custom,
}

spec fn phase_slot_kind(slot: Option<PhaseSlot>) -> Option<PhaseKind> {
    match slot {
        Some(s) => Some(s.kind),
        None => None,
    }
}

/// Phase implementations by phase type, at most one per type.
pub struct PhaseRegistry {
    spec_review: Option<PhaseSlot>,
    universe_setup: Option<PhaseSlot>,
    agent_development: Option<PhaseSlot>,
    validation: Option<PhaseSlot>,
}

/// `p` alone when `held`, nothing otherwise.
pub open spec fn if_held(held: bool, p: PhaseType) -> Seq<PhaseType> {
    if held {
        seq![p]
    } else {
        Seq::empty()
    }
}

impl PhaseRegistry {
    /// The implementation registered for a phase type, if any.
    pub closed spec fn kind(&self, p: PhaseType) -> Option<PhaseKind> {
        match p {
            PhaseType::SpecReview => phase_slot_kind(self.spec_review),
            PhaseType::UniverseSetup => phase_slot_kind(self.universe_setup),
            PhaseType::AgentDevelopment => phase_slot_kind(self.agent_development),
            PhaseType::Validation => phase_slot_kind(self.validation),
        }
    }

    /// The registered phase types, in pipeline order.
    pub open spec fn registered(&self) -> Seq<PhaseType> {
        if_held(self.kind(PhaseType::SpecReview) is Some, PhaseType::SpecReview) + if_held(
            self.kind(PhaseType::UniverseSetup) is Some,
            PhaseType::UniverseSetup,
        ) + if_held(self.kind(PhaseType::AgentDevelopment) is Some, PhaseType::AgentDevelopment) + if_held(
            self.kind(PhaseType::Validation) is Some,
            PhaseType::Validation,
        )
    }

    /// An empty registry.
    pub fn new() -> (r: Self)
        ensures
            forall|p: PhaseType| r.kind(p) is None,
    {
        PhaseRegistry { spec_review: None, universe_setup: None, agent_development: None, validation: None }
    }

    /// A registry holding the four default phases.
    pub fn with_defaults() -> (r: Self)
        ensures
            r.kind(PhaseType::SpecReview) == Some(PhaseKind::DefaultSpecReview),
            r.kind(PhaseType::UniverseSetup) == Some(PhaseKind::DefaultUniverseSetup),
            r.kind(PhaseType::AgentDevelopment) == Some(PhaseKind::DefaultAgentDevelopment),
            r.kind(PhaseType::Validation) == Some(PhaseKind::DefaultValidation),
    {
        PhaseRegistry {
            spec_review: Some(PhaseSlot { kind: PhaseKind::DefaultSpecReview, phase: Box::new(DefaultSpecReviewPhase) }),
            universe_setup: Some(
                PhaseSlot { kind: PhaseKind::DefaultUniverseSetup, phase: Box::new(DefaultUniverseSetupPhase) },
            ),
            agent_development: Some(
                PhaseSlot { kind: PhaseKind::DefaultAgentDevelopment, phase: Box::new(DefaultAgentDevelopmentPhase) },
            ),
            validation: Some(PhaseSlot { kind: PhaseKind::DefaultValidation, phase: Box::new(DefaultValidationPhase) }),
        }
    }

    /// Register a phase under the type it reports, replacing what was
    /// registered for that type. Which type that is, is up to the phase.
    pub fn register(&mut self, phase: Box<dyn Phase>)
        ensures
            exists|p: PhaseType|
                final(self).kind(p) == Some(PhaseKind::Custom) && forall|q: PhaseType|
                    q != p ==> #[trigger] final(self).kind(q) == old(self).kind(q),
    {
        let t = phase.phase_type();
        let slot = Some(PhaseSlot { kind: PhaseKind::Custom, phase });
        match t {
            PhaseType::SpecReview => self.spec_review = slot,
            PhaseType::UniverseSetup => self.universe_setup = slot,
            PhaseType::AgentDevelopment => self.agent_development = slot,
            PhaseType::Validation => self.validation = slot,
        }
        assert(self.kind(t) == Some(PhaseKind::Custom));
    }

    fn slot(&self, p: PhaseType) -> (r: &Option<PhaseSlot>)
        ensures
            phase_slot_kind(*r) == self.kind(p),
    {
        match p {
            PhaseType::SpecReview => &self.spec_review,
            PhaseType::UniverseSetup => &self.universe_setup,
            PhaseType::AgentDevelopment => &self.agent_development,
            PhaseType::Validation => &self.validation,
        }
    }

    /// The phase registered for a type.
    pub fn get(&self, phase_type: &PhaseType) -> (r: Option<&dyn Phase>)
        ensures
            r is Some <==> self.kind(*phase_type) is Some,
    {
        match self.slot(*phase_type) {
            Some(s) => Some(&*s.phase),
            None => None,
        }
    }

    /// Whether a phase is registered for a type.
    pub fn contains(&self, phase_type: &PhaseType) -> (r: bool)
        ensures
            r == self.kind(*phase_type) is Some,
    {
        self.slot(*phase_type).is_some()
    }

    /// The registered phase types, in pipeline order.
    pub fn registered_phases(&self) -> (r: Vec<PhaseType>)
        ensures
            r@ == self.registered(),
    {
        let mut out: Vec<PhaseType> = Vec::new();
        if self.spec_review.is_some() {
            out.push(PhaseType::SpecReview);
        }
        if self.universe_setup.is_some() {
            out.push(PhaseType::UniverseSetup);
        }
        if self.agent_development.is_some() {
            out.push(PhaseType::AgentDevelopment);
        }
        if self.validation.is_some() {
            out.push(PhaseType::Validation);
        }
        assert(out@ =~= self.registered());
        out
    }
}

impl Default for PhaseRegistry {
    fn default() -> (r: Self)
        ensures
            r.kind(PhaseType::SpecReview) == Some(PhaseKind::DefaultSpecReview),
            r.kind(PhaseType::UniverseSetup) == Some(PhaseKind::DefaultUniverseSetup),
            r.kind(PhaseType::AgentDevelopment) == Some(PhaseKind::DefaultAgentDevelopment),
            r.kind(PhaseType::Validation) == Some(PhaseKind::DefaultValidation),
    {
        Self::with_defaults()
    }
}

} // verus!
