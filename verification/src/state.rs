//! Pipeline state machine types.
use vstd::prelude::*;

use crate::clock::{fresh_uuid, now_millis};
use crate::text::{decimal, push_decimal};

verus! {

/// Unique identifier of a pipeline.
#[derive(Debug, Hash)]
pub struct PipelineId(pub String);

impl Clone for PipelineId {
    fn clone(&self) -> (r: Self)
        ensures
            r == *self,
    {
        PipelineId(self.0.clone())
    }
}

impl PartialEq for PipelineId {
    fn eq(&self, other: &Self) -> (r: bool) {
        self.0 == other.0
    }
}

impl Eq for PipelineId {}

impl vstd::std_specs::cmp::PartialEqSpecImpl for PipelineId {
    open spec fn obeys_eq_spec() -> bool {
        true
    }

    open spec fn eq_spec(&self, other: &PipelineId) -> bool {
        self.0@ == other.0@
    }
}

impl PipelineId {
    /// A fresh random identifier.
    pub fn new() -> (id: Self)
        ensures
            id.0@.len() == 36,
    {
        PipelineId(fresh_uuid())
    }

    /// The identifier rendered as `PipelineId(<id>)`.
    pub fn to_string(&self) -> (s: String)
        ensures
            s@ == "PipelineId("@ + self.0@ + ")"@,
    {
        let mut s = String::from_str("PipelineId(");
        s.append(self.0.as_str());
        s.append(")");
        s
    }
}

impl Default for PipelineId {
    fn default() -> (id: Self)
        ensures
            id.0@.len() == 36,
    {
        Self::new()
    }
}

/// States of the pipeline state machine.
#[derive(Debug, Clone, Copy, PartialEq, Eq, Structural, Hash)]
pub enum PipelineState {
    /// Created but not started.
    Pending,
    /// Running the linter on the spec.
    SpecReview,
    /// Deploying the twin universe.
    UniverseSetup,
    /// The agent is working (iterations are counted).
    AgentDevelopment,
    /// Running scenarios.
    Validation,
    /// All scenarios passed; the artifact is ready.
    Accepted,
    /// Human intervention is needed.
    Escalated,
    /// Validation failed for good.
    Failed,
}

/// Whether a state is terminal: no transition leaves it.
pub open spec fn state_is_terminal(s: PipelineState) -> bool {
    s == PipelineState::Accepted || s == PipelineState::Escalated || s == PipelineState::Failed
}

/// The explicitly listed edges of the pipeline state machine.
pub open spec fn is_listed_transition(from: PipelineState, to: PipelineState) -> bool {
    match (from, to) {
        (PipelineState::Pending, PipelineState::SpecReview) => true,
        (PipelineState::SpecReview, PipelineState::UniverseSetup) => true,
        (PipelineState::SpecReview, PipelineState::Failed) => true,
        (PipelineState::SpecReview, PipelineState::Escalated) => true,
        (PipelineState::UniverseSetup, PipelineState::AgentDevelopment) => true,
        (PipelineState::UniverseSetup, PipelineState::Failed) => true,
        (PipelineState::UniverseSetup, PipelineState::Escalated) => true,
        (PipelineState::AgentDevelopment, PipelineState::Validation) => true,
        (PipelineState::AgentDevelopment, PipelineState::AgentDevelopment) => true,
        (PipelineState::AgentDevelopment, PipelineState::Escalated) => true,
        (PipelineState::Validation, PipelineState::Accepted) => true,
        (PipelineState::Validation, PipelineState::AgentDevelopment) => true,
        (PipelineState::Validation, PipelineState::Failed) => true,
        (PipelineState::Validation, PipelineState::Escalated) => true,
        _ => false,
    }
}

/// The outcome of asking the state machine to move from `from` to `to`:
/// listed edges are taken; a terminal state refuses everything else; any other
/// state may always fail or escalate; the rest is an invalid transition.
pub open spec fn transition_outcome(from: PipelineState, to: PipelineState) -> Result<(), TransitionError> {
    if is_listed_transition(from, to) {
        Ok(())
    } else if state_is_terminal(from) {
        Err(TransitionError::AlreadyTerminal { current: from })
    } else if to == PipelineState::Failed || to == PipelineState::Escalated {
        Ok(())
    } else {
        Err(TransitionError::InvalidTransition { from, to })
    }
}

impl PipelineState {
    pub fn is_terminal(&self) -> (r: bool)
        ensures
            r == state_is_terminal(*self),
    {
        match self {
            PipelineState::Accepted | PipelineState::Escalated | PipelineState::Failed => true,
            _ => false,
        }
    }

    pub fn allows_iteration(&self) -> (r: bool)
        ensures
            r == (*self == PipelineState::AgentDevelopment),
    {
        match self {
            PipelineState::AgentDevelopment => true,
            _ => false,
        }
    }

    /// A human-readable description of the state.
    pub fn description(&self) -> (s: &'static str)
        ensures
            s@ == state_description(*self),
    {
        match self {
            PipelineState::Pending => "Pending - awaiting start",
            PipelineState::SpecReview => "Spec Review - running linter",
            PipelineState::UniverseSetup => "Universe Setup - deploying twin",
            PipelineState::AgentDevelopment => "Agent Development - working on task",
            PipelineState::Validation => "Validation - running scenarios",
            PipelineState::Accepted => "Accepted - all scenarios passed",
            PipelineState::Escalated => "Escalated - human intervention needed",
            PipelineState::Failed => "Failed - validation failed",
        }
    }

    /// The description as an owned string (what `Display` would print).
    pub fn to_string(&self) -> (s: String)
        ensures
            s@ == state_description(*self),
    {
        String::from_str(self.description())
    }
}

/// The name of each state, as `Debug` prints it.
pub open spec fn state_name(s: PipelineState) -> Seq<char> {
    match s {
        PipelineState::Pending => "Pending"@,
        PipelineState::SpecReview => "SpecReview"@,
        PipelineState::UniverseSetup => "UniverseSetup"@,
        PipelineState::AgentDevelopment => "AgentDevelopment"@,
        PipelineState::Validation => "Validation"@,
        PipelineState::Accepted => "Accepted"@,
        PipelineState::Escalated => "Escalated"@,
        PipelineState::Failed => "Failed"@,
    }
}

/// The name of a state, as `Debug` prints it.
pub fn state_name_str(s: PipelineState) -> (r: &'static str)
    ensures
        r@ == state_name(s),
{
    match s {
        PipelineState::Pending => "Pending",
        PipelineState::SpecReview => "SpecReview",
        PipelineState::UniverseSetup => "UniverseSetup",
        PipelineState::AgentDevelopment => "AgentDevelopment",
        PipelineState::Validation => "Validation",
        PipelineState::Accepted => "Accepted",
        PipelineState::Escalated => "Escalated",
        PipelineState::Failed => "Failed",
    }
}

/// The description of each state.
pub open spec fn state_description(s: PipelineState) -> Seq<char> {
    match s {
        PipelineState::Pending => "Pending - awaiting start"@,
        PipelineState::SpecReview => "Spec Review - running linter"@,
        PipelineState::UniverseSetup => "Universe Setup - deploying twin"@,
        PipelineState::AgentDevelopment => "Agent Development - working on task"@,
        PipelineState::Validation => "Validation - running scenarios"@,
        PipelineState::Accepted => "Accepted - all scenarios passed"@,
        PipelineState::Escalated => "Escalated - human intervention needed"@,
        PipelineState::Failed => "Failed - validation failed"@,
    }
}

/// Pipeline configuration.
#[derive(Debug, Clone)]
pub struct PipelineConfig {
    /// Maximum number of agent iterations.
    pub max_iterations: u32,
    /// Minimum quality threshold for the spec (0-100).
    pub quality_threshold: u32,
    /// Path to the scenarios directory.
    pub scenarios_path: String,
    /// Path to the linter binary.
    pub linter_path: Option<String>,
}

impl Default for PipelineConfig {
    fn default() -> (c: Self)
        ensures
            c.max_iterations == 10,
            c.quality_threshold == 80,
            c.scenarios_path@ == "scenarios"@,
            c.linter_path is None,
    {
        PipelineConfig {
            max_iterations: 10,
            quality_threshold: 80,
            scenarios_path: String::from_str("scenarios"),
            linter_path: None,
        }
    }
}

/// A pipeline instance. Timestamps are milliseconds since the Unix epoch.
#[derive(Debug)]
pub struct Pipeline {
    pub id: PipelineId,
    pub spec_path: String,
    pub state: PipelineState,
    pub iteration: u32,
    pub max_iterations: u32,
    pub quality_threshold: u32,
    pub created_at: i64,
    pub updated_at: i64,
    pub last_error: Option<String>,
}

impl Clone for Pipeline {
    fn clone(&self) -> (r: Self)
        ensures
            r == *self,
    {
        let last_error = match &self.last_error {
            Some(e) => Some(e.clone()),
            None => None,
        };
        Pipeline {
            id: self.id.clone(),
            spec_path: self.spec_path.clone(),
            state: self.state,
            iteration: self.iteration,
            max_iterations: self.max_iterations,
            quality_threshold: self.quality_threshold,
            created_at: self.created_at,
            updated_at: self.updated_at,
            last_error,
        }
    }
}

impl Pipeline {
    /// The pipeline that `transition_to_at(to, now)` leaves behind when it succeeds.
    pub open spec fn with_state(self, to: PipelineState, now: i64) -> Pipeline {
        Pipeline { state: to, updated_at: now, ..self }
    }

    /// A new pending pipeline with the default limits (10 iterations, quality 80).
    pub fn new(spec_path: String) -> (p: Self)
        ensures
            p.id.0@.len() == 36,
            p.spec_path == spec_path,
            p.state == PipelineState::Pending,
            p.iteration == 0,
            p.max_iterations == 10,
            p.quality_threshold == 80,
            p.created_at == p.updated_at,
            p.last_error is None,
    {
        let now = now_millis();
        Pipeline {
            id: PipelineId::new(),
            spec_path,
            state: PipelineState::Pending,
            iteration: 0,
            max_iterations: 10,
            quality_threshold: 80,
            created_at: now,
            updated_at: now,
            last_error: None,
        }
    }

    /// A new pending pipeline with the limits of `config`.
    pub fn with_config(spec_path: String, config: &PipelineConfig) -> (p: Self)
        ensures
            p.id.0@.len() == 36,
            p.spec_path == spec_path,
            p.state == PipelineState::Pending,
            p.iteration == 0,
            p.max_iterations == config.max_iterations,
            p.quality_threshold == config.quality_threshold,
            p.created_at == p.updated_at,
            p.last_error is None,
    {
        let now = now_millis();
        Pipeline {
            id: PipelineId::new(),
            spec_path,
            state: PipelineState::Pending,
            iteration: 0,
            max_iterations: config.max_iterations,
            quality_threshold: config.quality_threshold,
            created_at: now,
            updated_at: now,
            last_error: None,
        }
    }

    /// Move to `new_state` at time `now`, if the state machine allows it.
    pub fn transition_to_at(&mut self, new_state: PipelineState, now: i64) -> (r: Result<(), TransitionError>)
        ensures
            r == transition_outcome(old(self).state, new_state),
            r is Ok ==> *final(self) == old(self).with_state(new_state, now),
            r is Err ==> *final(self) == *old(self),
    {
        let allowed = match (self.state, new_state) {
            (PipelineState::Pending, PipelineState::SpecReview) => true,
            (PipelineState::SpecReview, PipelineState::UniverseSetup) => true,
            (PipelineState::SpecReview, PipelineState::Failed) => true,
            (PipelineState::SpecReview, PipelineState::Escalated) => true,
            (PipelineState::UniverseSetup, PipelineState::AgentDevelopment) => true,
            (PipelineState::UniverseSetup, PipelineState::Failed) => true,
            (PipelineState::UniverseSetup, PipelineState::Escalated) => true,
            (PipelineState::AgentDevelopment, PipelineState::Validation) => true,
            (PipelineState::AgentDevelopment, PipelineState::AgentDevelopment) => true,
            (PipelineState::AgentDevelopment, PipelineState::Escalated) => true,
            (PipelineState::Validation, PipelineState::Accepted) => true,
            (PipelineState::Validation, PipelineState::AgentDevelopment) => true,
            (PipelineState::Validation, PipelineState::Failed) => true,
            (PipelineState::Validation, PipelineState::Escalated) => true,
            (state, _) => {
                if state.is_terminal() {
                    return Err(TransitionError::AlreadyTerminal { current: state });
                }
                match new_state {
                    PipelineState::Failed | PipelineState::Escalated => true,
                    _ => false,
                }
            },
        };
        if !allowed {
            return Err(TransitionError::InvalidTransition { from: self.state, to: new_state });
        }
        self.state = new_state;
        self.updated_at = now;
        Ok(())
    }

    /// Move to `new_state`, stamping the current time, if the state machine
    /// allows it.
    pub fn transition_to(&mut self, new_state: PipelineState) -> (r: Result<(), TransitionError>)
        ensures
            r == transition_outcome(old(self).state, new_state),
            r is Ok ==> final(self).state == new_state && *final(self) == old(self).with_state(
                new_state,
                final(self).updated_at,
            ),
            r is Err ==> *final(self) == *old(self),
    {
        let now = now_millis();
        self.transition_to_at(new_state, now)
    }

    /// Count one more agent iteration at time `now`, unless the limit is reached.
    pub fn increment_iteration_at(&mut self, now: i64) -> (r: Result<u32, IterationError>)
        ensures
            old(self).iteration >= old(self).max_iterations ==> r == Err::<u32, IterationError>(
                IterationError::MaxIterationsReached {
                    current: old(self).iteration,
                    max: old(self).max_iterations,
                },
            ) && *final(self) == *old(self),
            old(self).iteration < old(self).max_iterations ==> r == Ok::<u32, IterationError>(
                (old(self).iteration + 1) as u32,
            ) && *final(self) == (Pipeline {
                iteration: (old(self).iteration + 1) as u32,
                updated_at: now,
                ..*old(self)
            }),
    {
        if self.iteration >= self.max_iterations {
            return Err(
                IterationError::MaxIterationsReached {
                    current: self.iteration,
                    max: self.max_iterations,
                },
            );
        }
        self.iteration = self.iteration + 1;
        self.updated_at = now;
        Ok(self.iteration)
    }

    /// Count one more agent iteration, stamping the current time, unless the
    /// limit is reached.
    pub fn increment_iteration(&mut self) -> (r: Result<u32, IterationError>)
        ensures
            old(self).iteration >= old(self).max_iterations ==> r == Err::<u32, IterationError>(
                IterationError::MaxIterationsReached {
                    current: old(self).iteration,
                    max: old(self).max_iterations,
                },
            ) && *final(self) == *old(self),
            old(self).iteration < old(self).max_iterations ==> r == Ok::<u32, IterationError>(
                (old(self).iteration + 1) as u32,
            ) && *final(self) == (Pipeline {
                iteration: (old(self).iteration + 1) as u32,
                updated_at: final(self).updated_at,
                ..*old(self)
            }),
    {
        let now = now_millis();
        self.increment_iteration_at(now)
    }

    /// Whether another agent iteration may run.
    pub fn can_iterate(&self) -> (r: bool)
        ensures
            r == (self.iteration < self.max_iterations && self.state
                == PipelineState::AgentDevelopment),
    {
        self.iteration < self.max_iterations && self.state.allows_iteration()
    }

    /// Record an error message at time `now`.
    pub fn set_error_at(&mut self, error: String, now: i64)
        ensures
            *final(self) == (Pipeline { last_error: Some(error), updated_at: now, ..*old(self) }),
    {
        self.last_error = Some(error);
        self.updated_at = now;
    }

    /// Record an error message, stamping the current time.
    pub fn set_error(&mut self, error: String)
        ensures
            *final(self) == (Pipeline {
                last_error: Some(error),
                updated_at: final(self).updated_at,
                ..*old(self)
            }),
    {
        let now = now_millis();
        self.set_error_at(error, now);
    }

    /// Clear the error message, stamping the current time.
    pub fn clear_error(&mut self)
        ensures
            *final(self) == (Pipeline {
                last_error: None,
                updated_at: final(self).updated_at,
                ..*old(self)
            }),
    {
        self.last_error = None;
        self.updated_at = now_millis();
    }
}

/// Terminal states are final: every transition out of one is refused with
/// `AlreadyTerminal`, and the pipeline is left as it was.
pub proof fn lemma_terminal_states_are_final(from: PipelineState, to: PipelineState)
    requires
        state_is_terminal(from),
    ensures
        transition_outcome(from, to) == Err::<(), TransitionError>(
            TransitionError::AlreadyTerminal { current: from },
        ),
{
}

/// From every state that is not terminal, a pipeline can always fail and
/// can always be escalated.
pub proof fn lemma_can_always_fail_or_escalate(from: PipelineState)
    requires
        !state_is_terminal(from),
    ensures
        transition_outcome(from, PipelineState::Failed) is Ok,
        transition_outcome(from, PipelineState::Escalated) is Ok,
{
}

/// The only state that may be re-entered is agent development (another
/// iteration).
pub proof fn lemma_only_agent_development_loops(s: PipelineState)
    ensures
        transition_outcome(s, s) is Ok <==> s == PipelineState::AgentDevelopment,
{
}

/// A pipeline is accepted only out of validation.
pub proof fn lemma_accepted_only_after_validation(from: PipelineState)
    ensures
        transition_outcome(from, PipelineState::Accepted) is Ok <==> from == PipelineState::Validation,
{
}

/// The happy path: pending, spec review, universe setup, agent development,
/// validation, accepted; each step is allowed.
pub proof fn lemma_happy_path()
    ensures
        transition_outcome(PipelineState::Pending, PipelineState::SpecReview) is Ok,
        transition_outcome(PipelineState::SpecReview, PipelineState::UniverseSetup) is Ok,
        transition_outcome(PipelineState::UniverseSetup, PipelineState::AgentDevelopment) is Ok,
        transition_outcome(PipelineState::AgentDevelopment, PipelineState::Validation) is Ok,
        transition_outcome(PipelineState::Validation, PipelineState::Accepted) is Ok,
{
}

/// How far along the working path a state is: pending, spec review,
/// universe setup, agent development, validation, accepted. Failed and
/// escalated are off the path.
pub open spec fn stage(s: PipelineState) -> int {
    match s {
        PipelineState::Pending => 0,
        PipelineState::SpecReview => 1,
        PipelineState::UniverseSetup => 2,
        PipelineState::AgentDevelopment => 3,
        PipelineState::Validation => 4,
        PipelineState::Accepted => 5,
        PipelineState::Failed => -1,
        PipelineState::Escalated => -1,
    }
}

/// Every allowed move that neither fails nor escalates the pipeline goes
/// exactly one stage forward, or back to agent development for another
/// iteration (from agent development itself or from validation): no stage
/// is ever skipped.
pub proof fn lemma_moves_never_skip_a_stage(from: PipelineState, to: PipelineState)
    requires
        transition_outcome(from, to) is Ok,
        to != PipelineState::Failed,
        to != PipelineState::Escalated,
    ensures
        stage(to) == stage(from) + 1 || (to == PipelineState::AgentDevelopment && (from
            == PipelineState::AgentDevelopment || from == PipelineState::Validation)),
{
}

/// Each stage forward is allowed from every working state that is not yet
/// accepted.
pub proof fn lemma_next_stage_is_allowed(from: PipelineState, to: PipelineState)
    requires
        0 <= stage(from) < 5,
        stage(to) == stage(from) + 1,
    ensures
        transition_outcome(from, to) is Ok,
{
}

/// Validation is entered only out of agent development.
pub proof fn lemma_validation_only_after_agent_development(from: PipelineState)
    ensures
        transition_outcome(from, PipelineState::Validation) is Ok <==> from == PipelineState::AgentDevelopment,
{
}

/// Out of universe setup a pipeline may only go on to agent development,
/// fail or be escalated.
pub proof fn lemma_universe_setup_successors(to: PipelineState)
    ensures
        transition_outcome(PipelineState::UniverseSetup, to) is Ok <==> (to == PipelineState::AgentDevelopment
            || to == PipelineState::Failed || to == PipelineState::Escalated),
{
}

/// A refused transition from a state that is not terminal is an invalid
/// transition naming both states.
pub proof fn lemma_refusal_names_both_states(from: PipelineState, to: PipelineState)
    requires
        !state_is_terminal(from),
        transition_outcome(from, to) is Err,
    ensures
        transition_outcome(from, to) == Err::<(), TransitionError>(
            TransitionError::InvalidTransition { from, to },
        ),
{
}

/// A pipeline may iterate exactly when counting an iteration succeeds in
/// agent development, and counting never passes the limit.
pub proof fn lemma_iteration_bounded(p: Pipeline, q: Pipeline, now: i64)
    requires
        p.iteration <= p.max_iterations,
        p.iteration < p.max_iterations ==> q == (Pipeline {
            iteration: (p.iteration + 1) as u32,
            updated_at: now,
            ..p
        }),
        p.iteration >= p.max_iterations ==> q == p,
    ensures
        q.iteration <= q.max_iterations,
        q.max_iterations == p.max_iterations,
{
}

/// Error when moving between states.
#[derive(Debug, Clone, Copy, PartialEq, Eq, Structural)]
pub enum TransitionError {
    InvalidTransition { from: PipelineState, to: PipelineState },
    AlreadyTerminal { current: PipelineState },
}

/// The message of a refused transition.
pub open spec fn transition_error_message(e: TransitionError) -> Seq<char> {
    match e {
        TransitionError::InvalidTransition { from, to } => "Invalid transition from "@ + state_name(from)
            + " to "@ + state_name(to),
        TransitionError::AlreadyTerminal { current } => "Pipeline already in terminal state: "@
            + state_name(current),
    }
}

impl TransitionError {
    /// The message a user sees for this error.
    pub fn to_string(&self) -> (s: String)
        ensures
            s@ == transition_error_message(*self),
    {
        match self {
            TransitionError::InvalidTransition { from, to } => {
                let mut s = String::from_str("Invalid transition from ");
                s.append(state_name_str(*from));
                s.append(" to ");
                s.append(state_name_str(*to));
                s
            },
            TransitionError::AlreadyTerminal { current } => {
                let mut s = String::from_str("Pipeline already in terminal state: ");
                s.append(state_name_str(*current));
                s
            },
        }
    }
}

/// Error when counting iterations.
#[derive(Debug, Clone, Copy, PartialEq, Eq, Structural)]
pub enum IterationError {
    MaxIterationsReached { current: u32, max: u32 },
}

/// The message of an iteration error.
pub open spec fn iteration_error_message(e: IterationError) -> Seq<char> {
    match e {
        IterationError::MaxIterationsReached { current, max } => "Max iterations reached: "@ + decimal(
            current as nat,
        ) + " of "@ + decimal(max as nat),
    }
}

impl IterationError {
    /// The message a user sees for this error.
    pub fn to_string(&self) -> (s: String)
        ensures
            s@ == iteration_error_message(*self),
    {
        match self {
            IterationError::MaxIterationsReached { current, max } => {
                let mut s = String::from_str("Max iterations reached: ");
                push_decimal(&mut s, *current as u64);
                s.append(" of ");
                push_decimal(&mut s, *max as u64);
                s
            },
        }
    }
}

} // verus!
