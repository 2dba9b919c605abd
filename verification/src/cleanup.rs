//! Cleanup and rollback handling for pipeline phases.
use vstd::prelude::*;

use crate::state::{PipelineId, PipelineState};

verus! {

/// The phases that can be cleaned up.
#[derive(Debug, Clone, Copy, PartialEq, Eq, Structural, Hash)]
pub enum PhaseType {
    SpecReview,
    UniverseSetup,
    AgentDevelopment,
    Validation,
}

/// The phase that runs in a pipeline state, if any.
pub open spec fn phase_of_state(state: PipelineState) -> Option<PhaseType> {
    match state {
        PipelineState::SpecReview => Some(PhaseType::SpecReview),
        PipelineState::UniverseSetup => Some(PhaseType::UniverseSetup),
        PipelineState::AgentDevelopment => Some(PhaseType::AgentDevelopment),
        PipelineState::Validation => Some(PhaseType::Validation),
        _ => None,
    }
}

impl PhaseType {
    /// The phase that runs in `state`; `None` for pending and terminal states.
    pub fn from_state(state: PipelineState) -> (r: Option<Self>)
        ensures
            r == phase_of_state(state),
    {
        match state {
            PipelineState::SpecReview => Some(PhaseType::SpecReview),
            PipelineState::UniverseSetup => Some(PhaseType::UniverseSetup),
            PipelineState::AgentDevelopment => Some(PhaseType::AgentDevelopment),
            PipelineState::Validation => Some(PhaseType::Validation),
            _ => None,
        }
    }
}

/// Identifier of a resource created by a phase.
#[derive(Debug, Hash)]
pub struct ResourceId(pub String);

impl Clone for ResourceId {
    fn clone(&self) -> (r: Self)
        ensures
            r == *self,
    {
        ResourceId(self.0.clone())
    }
}

impl PartialEq for ResourceId {
    fn eq(&self, other: &Self) -> (r: bool) {
        self.0 == other.0
    }
}

impl Eq for ResourceId {}

impl vstd::std_specs::cmp::PartialEqSpecImpl for ResourceId {
    open spec fn obeys_eq_spec() -> bool {
        true
    }

    open spec fn eq_spec(&self, other: &ResourceId) -> bool {
        self.0@ == other.0@
    }
}

impl ResourceId {
    pub fn new(id: &str) -> (r: Self)
        ensures
            r.0@ == id@,
    {
        ResourceId(String::from_str(id))
    }
}

/// What a cleanup or rollback needs to know about the failed phase.
#[derive(Debug)]
pub struct CleanupContext {
    pub pipeline_id: PipelineId,
    pub failed_phase: PhaseType,
    pub created_resources: Vec<ResourceId>,
    pub rollback_data: Vec<u8>,
}

impl Clone for CleanupContext {
    fn clone(&self) -> (r: Self)
        ensures
            r.pipeline_id == self.pipeline_id,
            r.failed_phase == self.failed_phase,
            r.created_resources@ == self.created_resources@,
            r.rollback_data@ == self.rollback_data@,
    {
        CleanupContext {
            pipeline_id: self.pipeline_id.clone(),
            failed_phase: self.failed_phase,
            created_resources: clone_resources(&self.created_resources),
            rollback_data: self.rollback_data.clone(),
        }
    }
}

/// A copy of a list of resource identifiers, in the same order.
pub fn clone_resources(v: &Vec<ResourceId>) -> (r: Vec<ResourceId>)
    ensures
        r@ == v@,
{
    let mut r: Vec<ResourceId> = Vec::new();
    let mut i: usize = 0;
    while i < v.len()
        invariant
            i <= v.len(),
            r@ == v@.subrange(0, i as int),
        decreases v.len() - i,
    {
        r.push(v[i].clone());
        i = i + 1;
    }
    assert(v@.subrange(0, v@.len() as int) =~= v@);
    r
}

impl CleanupContext {
    pub fn new(pipeline_id: PipelineId, failed_phase: PhaseType) -> (c: Self)
        ensures
            c.pipeline_id == pipeline_id,
            c.failed_phase == failed_phase,
            c.created_resources@.len() == 0,
            c.rollback_data@.len() == 0,
    {
        CleanupContext {
            pipeline_id,
            failed_phase,
            created_resources: Vec::new(),
            rollback_data: Vec::new(),
        }
    }

    pub fn add_resource(&mut self, resource: ResourceId)
        ensures
            final(self).created_resources@ == old(self).created_resources@.push(resource),
            final(self).pipeline_id == old(self).pipeline_id,
            final(self).failed_phase == old(self).failed_phase,
            final(self).rollback_data == old(self).rollback_data,
    {
        self.created_resources.push(resource);
    }

    pub fn set_rollback_data(&mut self, data: Vec<u8>)
        ensures
            final(self).rollback_data == data,
            final(self).pipeline_id == old(self).pipeline_id,
            final(self).failed_phase == old(self).failed_phase,
            final(self).created_resources == old(self).created_resources,
    {
        self.rollback_data = data;
    }
}

/// Errors that a cleanup can report.
#[derive(Debug, Clone)]
pub enum CleanupError {
    NotImplemented(String),
    ResourceNotFound(String),
    CleanupFailed(String),
    RollbackFailed(String),
}

impl CleanupError {
    /// The message a user sees for this error.
    pub fn to_string(&self) -> (s: String)
        ensures
            s@ == match self {
                CleanupError::NotImplemented(m) => "Cleanup not implemented for phase: "@ + m@,
                CleanupError::ResourceNotFound(m) => "Resource not found: "@ + m@,
                CleanupError::CleanupFailed(m) => "Cleanup failed: "@ + m@,
                CleanupError::RollbackFailed(m) => "Rollback failed: "@ + m@,
            },
    {
        let (mut s, m) = match self {
            CleanupError::NotImplemented(m) => (
                String::from_str("Cleanup not implemented for phase: "),
                m,
            ),
            CleanupError::ResourceNotFound(m) => (String::from_str("Resource not found: "), m),
            CleanupError::CleanupFailed(m) => (String::from_str("Cleanup failed: "), m),
            CleanupError::RollbackFailed(m) => (String::from_str("Rollback failed: "), m),
        };
        s.append(m.as_str());
        s
    }
}

/// Outcome status of a cleanup.
#[derive(Debug)]
pub enum CleanupStatus {
    Success,
    Failed(Vec<String>),
}

/// Two statuses agree: both success, or both failed with the same errors.
pub open spec fn same_status(a: CleanupStatus, b: CleanupStatus) -> bool {
    match (a, b) {
        (CleanupStatus::Success, CleanupStatus::Success) => true,
        (CleanupStatus::Failed(x), CleanupStatus::Failed(y)) => x@ == y@,
        _ => false,
    }
}

impl Clone for CleanupStatus {
    fn clone(&self) -> (r: Self)
        ensures
            same_status(r, *self),
    {
        match self {
            CleanupStatus::Success => CleanupStatus::Success,
            CleanupStatus::Failed(errs) => {
                let c = errs.clone();
                assert(c@ =~= errs@);
                CleanupStatus::Failed(c)
            },
        }
    }
}

/// Result of a cleanup or rollback.
#[derive(Debug)]
pub struct CleanupResult {
    pub status: CleanupStatus,
    pub cleaned_resources: Vec<ResourceId>,
}

impl Clone for CleanupResult {
    fn clone(&self) -> (r: Self)
        ensures
            same_status(r.status, self.status),
            r.cleaned_resources@ == self.cleaned_resources@,
    {
        CleanupResult {
            status: self.status.clone(),
            cleaned_resources: clone_resources(&self.cleaned_resources),
        }
    }
}

impl CleanupResult {
    /// The errors recorded in a result, oldest first.
    pub open spec fn error_list(&self) -> Seq<String> {
        match self.status {
            CleanupStatus::Success => Seq::empty(),
            CleanupStatus::Failed(errs) => errs@,
        }
    }

    /// Whether a result reports success.
    pub open spec fn is_success(&self) -> bool {
        self.status is Success
    }

    pub fn success() -> (r: Self)
        ensures
            r.is_success(),
            r.cleaned_resources@.len() == 0,
    {
        CleanupResult { status: CleanupStatus::Success, cleaned_resources: Vec::new() }
    }

    /// The same result with one more cleaned resource.
    pub fn with_resource(self, resource: ResourceId) -> (r: Self)
        ensures
            r.status == self.status,
            r.cleaned_resources@ == self.cleaned_resources@.push(resource),
    {
        let mut s = self;
        s.cleaned_resources.push(resource);
        s
    }

    /// The same result with one more error; any result with an error is a failure.
    pub fn with_error(self, error: String) -> (r: Self)
        ensures
            !r.is_success(),
            r.error_list() == self.error_list().push(error),
            r.cleaned_resources == self.cleaned_resources,
    {
        let CleanupResult { status, cleaned_resources } = self;
        let errors = match status {
            CleanupStatus::Success => {
                let mut v: Vec<String> = Vec::new();
                v.push(error);
                v
            },
            CleanupStatus::Failed(errs) => {
                let mut errs = errs;
                errs.push(error);
                errs
            },
        };
        CleanupResult { status: CleanupStatus::Failed(errors), cleaned_resources }
    }

    pub fn success_flag(&self) -> (r: bool)
        ensures
            r == self.is_success(),
    {
        match self.status {
            CleanupStatus::Success => true,
            CleanupStatus::Failed(_) => false,
        }
    }

    pub fn errors(&self) -> (r: Vec<String>)
        ensures
            r@ == self.error_list(),
    {
        match &self.status {
            CleanupStatus::Success => Vec::new(),
            CleanupStatus::Failed(errs) => {
                let c = errs.clone();
                assert(c@ =~= errs@);
                c
            },
        }
    }
}

/// One step of building a cleanup result: a cleaned resource or an error.
pub enum CleanupStep {
    Resource(ResourceId),
    Error(String),
}

/// `b` is what `with_resource` or `with_error` makes of `a` for `step`, as
/// their contracts state it.
pub open spec fn step_result(a: CleanupResult, step: CleanupStep, b: CleanupResult) -> bool {
    match step {
        CleanupStep::Resource(res) => b.status == a.status && b.cleaned_resources@
            == a.cleaned_resources@.push(res),
        CleanupStep::Error(e) => !b.is_success() && b.error_list() == a.error_list().push(e)
            && b.cleaned_resources == a.cleaned_resources,
    }
}

/// A result built from `success()` by any chain of `with_resource` and
/// `with_error` calls succeeds exactly when no error was added, which is
/// exactly when it lists no error; once an error is added, every later
/// result of the chain is a failure.
pub proof fn lemma_cleanup_chain(rs: Seq<CleanupResult>, steps: Seq<CleanupStep>, k: int)
    requires
        rs.len() == steps.len() + 1,
        rs[0].is_success(),
        forall|i: int| 0 <= i < steps.len() ==> step_result(#[trigger] rs[i], steps[i], rs[i + 1]),
        0 <= k < rs.len(),
    ensures
        rs[k].is_success() <==> forall|i: int| 0 <= i < k ==> #[trigger] steps[i] is Resource,
        rs[k].is_success() <==> rs[k].error_list().len() == 0,
        forall|j: int| k <= j < rs.len() && !rs[k].is_success() ==> !(#[trigger] rs[j]).is_success(),
    decreases k,
{
    if k > 0 {
        lemma_cleanup_chain(rs, steps, k - 1);
        assert(step_result(rs[k - 1], steps[k - 1], rs[k]));
        if !rs[k].is_success() {
            assert(steps[k - 1] is Error || !rs[k - 1].is_success());
        }
        if rs[k].is_success() {
            assert forall|i: int| 0 <= i < k implies #[trigger] steps[i] is Resource by {
                if i < k - 1 {
                    assert(rs[k - 1].is_success());
                }
            }
        }
    }
    if k + 1 < rs.len() {
        assert(step_result(rs[k], steps[k], rs[k + 1]));
        lemma_cleanup_chain_after(rs, steps, k);
    }
}

/// Once a result of the chain is a failure, so is every later one.
proof fn lemma_cleanup_chain_after(rs: Seq<CleanupResult>, steps: Seq<CleanupStep>, k: int)
    requires
        rs.len() == steps.len() + 1,
        forall|i: int| 0 <= i < steps.len() ==> step_result(#[trigger] rs[i], steps[i], rs[i + 1]),
        0 <= k < rs.len(),
    ensures
        forall|j: int| k <= j < rs.len() && !rs[k].is_success() ==> !(#[trigger] rs[j]).is_success(),
    decreases rs.len() - k,
{
    if k + 1 < rs.len() {
        lemma_cleanup_chain_after(rs, steps, k + 1);
        assert(step_result(rs[k], steps[k], rs[k + 1]));
    }
}

/// A cleanup handler for one phase. Implementors decide which phase they
/// manage and what cleanup and rollback do; of them it is assumed only that
/// `phase_type` returns the phase that `reported` names.
pub trait CleanupHandler {
    /// The phase this handler manages.
    spec fn reported(&self) -> PhaseType;

    /// The phase this handler manages.
    fn phase_type(&self) -> (p: PhaseType)
        ensures
            p == self.reported(),
    ;

    /// Clean up after a failure of the phase.
    fn cleanup(&self, context: &CleanupContext) -> CleanupResult;

    /// Undo the phase using the saved rollback data.
    fn rollback(&self, context: &CleanupContext) -> CleanupResult;
}

/// What the built-in cleanup of a resource-creating phase returns: success,
/// listing every created resource in order.
pub open spec fn cleans_all_resources(context: &CleanupContext, r: &CleanupResult) -> bool {
    &&& r.is_success()
    &&& r.cleaned_resources@ == context.created_resources@
}

/// What the built-in rollback of a resource-creating phase returns: success
/// with no resources when there is no rollback data, otherwise a failure
/// with exactly one error.
pub open spec fn rollback_outcome(context: &CleanupContext, r: &CleanupResult) -> bool {
    &&& r.cleaned_resources@.len() == 0
    &&& if context.rollback_data@.len() == 0 {
        r.is_success()
    } else {
        &&& !r.is_success()
        &&& r.error_list().len() == 1
        &&& r.error_list()[0]@ == "Rollback data present but not implemented"@
    }
}

/// Rollback shared by the universe-setup and agent-development handlers:
/// rollback itself is not implemented, so saved rollback data is reported as
/// an error.
fn builtin_rollback(context: &CleanupContext) -> (r: CleanupResult)
    ensures
        rollback_outcome(context, &r),
{
    let mut result = CleanupResult::success();
    if context.rollback_data.len() != 0 {
        result = result.with_error(String::from_str("Rollback data present but not implemented"));
    }
    result
}

/// Cleanup and rollback shared by the universe-setup and agent-development handlers.
fn clean_created_resources(context: &CleanupContext) -> (r: CleanupResult)
    ensures
        cleans_all_resources(context, &r),
{
    let mut result = CleanupResult::success();
    let mut i: usize = 0;
    while i < context.created_resources.len()
        invariant
            i <= context.created_resources@.len(),
            result.is_success(),
            result.cleaned_resources@ == context.created_resources@.subrange(0, i as int),
        decreases context.created_resources@.len() - i,
    {
        result = result.with_resource(context.created_resources[i].clone());
        i = i + 1;
    }
    assert(context.created_resources@.subrange(0, i as int) =~= context.created_resources@);
    result
}

/// Handler for phases that need no cleanup.
pub struct NoopCleanupHandler;

impl CleanupHandler for NoopCleanupHandler {
    open spec fn reported(&self) -> PhaseType {
        PhaseType::SpecReview
    }

    fn phase_type(&self) -> (p: PhaseType)
        ensures
            p == PhaseType::SpecReview,
    {
        PhaseType::SpecReview
    }

    fn cleanup(&self, _context: &CleanupContext) -> (r: CleanupResult)
        ensures
            r.is_success(),
            r.cleaned_resources@.len() == 0,
    {
        CleanupResult::success()
    }

    fn rollback(&self, _context: &CleanupContext) -> (r: CleanupResult)
        ensures
            r.is_success(),
            r.cleaned_resources@.len() == 0,
    {
        CleanupResult::success()
    }
}

/// Handler for the universe-setup phase.
pub struct UniverseSetupCleanupHandler;

impl CleanupHandler for UniverseSetupCleanupHandler {
    open spec fn reported(&self) -> PhaseType {
        PhaseType::UniverseSetup
    }

    fn phase_type(&self) -> (p: PhaseType)
        ensures
            p == PhaseType::UniverseSetup,
    {
        PhaseType::UniverseSetup
    }

    fn cleanup(&self, context: &CleanupContext) -> (r: CleanupResult)
        ensures
            cleans_all_resources(context, &r),
    {
        clean_created_resources(context)
    }

    fn rollback(&self, context: &CleanupContext) -> (r: CleanupResult)
        ensures
            rollback_outcome(context, &r),
    {
        builtin_rollback(context)
    }
}

/// Handler for the agent-development phase.
pub struct AgentDevelopmentCleanupHandler;

impl CleanupHandler for AgentDevelopmentCleanupHandler {
    open spec fn reported(&self) -> PhaseType {
        PhaseType::AgentDevelopment
    }

    fn phase_type(&self) -> (p: PhaseType)
        ensures
            p == PhaseType::AgentDevelopment,
    {
        PhaseType::AgentDevelopment
    }

    fn cleanup(&self, context: &CleanupContext) -> (r: CleanupResult)
        ensures
            cleans_all_resources(context, &r),
    {
        clean_created_resources(context)
    }

    fn rollback(&self, context: &CleanupContext) -> (r: CleanupResult)
        ensures
            rollback_outcome(context, &r),
    {
        builtin_rollback(context)
    }
}

/// Which handler a cleanup manager holds for a phase: one of the built-in
/// handlers, or one that was registered by a caller.
#[derive(Debug, Clone, Copy, PartialEq, Eq, Structural)]
pub enum HandlerKind {
    Noop,
    UniverseSetup,
    AgentDevelopment,
    Custom,
}

/// A registered handler together with what it is known to be and the
/// phase it reports.
type HandlerSlot = (HandlerKind, PhaseType, Box<dyn CleanupHandler>);

/// What a built-in handler of the given kind returns for a cleanup.
pub open spec fn builtin_cleanup(kind: HandlerKind, context: &CleanupContext, r: &CleanupResult) -> bool {
    match kind {
        HandlerKind::Noop => r.is_success() && r.cleaned_resources@.len() == 0,
        HandlerKind::UniverseSetup | HandlerKind::AgentDevelopment => cleans_all_resources(context, r),
        HandlerKind::Custom => true,
    }
}

/// What a built-in handler of the given kind returns for a rollback.
pub open spec fn builtin_rollback_result(kind: HandlerKind, context: &CleanupContext, r: &CleanupResult) -> bool {
    match kind {
        HandlerKind::Noop => r.is_success() && r.cleaned_resources@.len() == 0,
        HandlerKind::UniverseSetup | HandlerKind::AgentDevelopment => rollback_outcome(context, r),
        HandlerKind::Custom => true,
    }
}

/// Holds one cleanup handler per phase type.
pub struct CleanupManager {
    spec_review: Option<HandlerSlot>,
    universe_setup: Option<HandlerSlot>,
    agent_development: Option<HandlerSlot>,
    validation: Option<HandlerSlot>,
}

spec fn slot_kind(slot: Option<HandlerSlot>) -> Option<HandlerKind> {
    match slot {
        Some(s) => Some(s.0),
        None => None,
    }
}

spec fn slot_phase(slot: Option<HandlerSlot>) -> Option<PhaseType> {
    match slot {
        Some(s) => Some(s.1),
        None => None,
    }
}

/// `after` is `before` with a caller's handler registered for `phase`, one
/// that reports `phase`: the other phases keep their handlers.
pub open spec fn registered_for(before: CleanupManager, after: CleanupManager, phase: PhaseType) -> bool {
    &&& after.handler_kind(phase) == Some(HandlerKind::Custom)
    &&& after.reported_phase(phase) == Some(phase)
    &&& forall|q: PhaseType|
        q != phase ==> #[trigger] after.handler_kind(q) == before.handler_kind(q) && after.reported_phase(q)
            == before.reported_phase(q)
}

impl CleanupManager {
    /// The kind of handler registered for a phase, if any.
    pub closed spec fn handler_kind(&self, phase: PhaseType) -> Option<HandlerKind> {
        match phase {
            PhaseType::SpecReview => slot_kind(self.spec_review),
            PhaseType::UniverseSetup => slot_kind(self.universe_setup),
            PhaseType::AgentDevelopment => slot_kind(self.agent_development),
            PhaseType::Validation => slot_kind(self.validation),
        }
    }

    /// The handler held for `phase`, if any.
    pub closed spec fn stored_handler(&self, phase: PhaseType) -> Option<&Box<dyn CleanupHandler>> {
        match phase {
            PhaseType::SpecReview => match &self.spec_review {
                Some(t) => Some(&t.2),
                None => None,
            },
            PhaseType::UniverseSetup => match &self.universe_setup {
                Some(t) => Some(&t.2),
                None => None,
            },
            PhaseType::AgentDevelopment => match &self.agent_development {
                Some(t) => Some(&t.2),
                None => None,
            },
            PhaseType::Validation => match &self.validation {
                Some(t) => Some(&t.2),
                None => None,
            },
        }
    }

    /// The phase that the handler registered for `phase` reported when it
    /// was registered, if one is.
    pub closed spec fn reported_phase(&self, phase: PhaseType) -> Option<PhaseType> {
        match phase {
            PhaseType::SpecReview => slot_phase(self.spec_review),
            PhaseType::UniverseSetup => slot_phase(self.universe_setup),
            PhaseType::AgentDevelopment => slot_phase(self.agent_development),
            PhaseType::Validation => slot_phase(self.validation),
        }
    }

    /// The handlers a new manager starts with: the no-op handler (which
    /// reports spec review) for spec review and validation, and each
    /// resource handler for its own phase.
    pub open spec fn has_default_handlers(&self) -> bool {
        &&& self.handler_kind(PhaseType::SpecReview) == Some(HandlerKind::Noop)
        &&& self.handler_kind(PhaseType::UniverseSetup) == Some(HandlerKind::UniverseSetup)
        &&& self.handler_kind(PhaseType::AgentDevelopment) == Some(HandlerKind::AgentDevelopment)
        &&& self.handler_kind(PhaseType::Validation) == Some(HandlerKind::Noop)
        &&& self.reported_phase(PhaseType::SpecReview) == Some(PhaseType::SpecReview)
        &&& self.reported_phase(PhaseType::UniverseSetup) == Some(PhaseType::UniverseSetup)
        &&& self.reported_phase(PhaseType::AgentDevelopment) == Some(PhaseType::AgentDevelopment)
        &&& self.reported_phase(PhaseType::Validation) == Some(PhaseType::SpecReview)
        &&& self.stored_handler(PhaseType::SpecReview) matches Some(b) && b.reported() == PhaseType::SpecReview
        &&& self.stored_handler(PhaseType::UniverseSetup) matches Some(b) && b.reported()
            == PhaseType::UniverseSetup
        &&& self.stored_handler(PhaseType::AgentDevelopment) matches Some(b) && b.reported()
            == PhaseType::AgentDevelopment
        &&& self.stored_handler(PhaseType::Validation) matches Some(b) && b.reported() == PhaseType::SpecReview
    }

    /// A manager with the built-in handlers: no-op for spec review and
    /// validation, resource cleanup for universe setup and agent development.
    pub fn new() -> (m: Self)
        ensures
            m.has_default_handlers(),
    {
        let mut m = CleanupManager { spec_review: None, universe_setup: None, agent_development: None, validation: None };
        m.install(HandlerKind::Noop, PhaseType::SpecReview, PhaseType::SpecReview, Box::new(NoopCleanupHandler));
        m.install(
            HandlerKind::UniverseSetup,
            PhaseType::UniverseSetup,
            PhaseType::UniverseSetup,
            Box::new(UniverseSetupCleanupHandler),
        );
        m.install(
            HandlerKind::AgentDevelopment,
            PhaseType::AgentDevelopment,
            PhaseType::AgentDevelopment,
            Box::new(AgentDevelopmentCleanupHandler),
        );
        m.install(HandlerKind::Noop, PhaseType::Validation, PhaseType::SpecReview, Box::new(NoopCleanupHandler));
        m
    }

    /// Hold `handler`, of the given kind and reporting `reported`, for
    /// `phase`; the other phases keep their handlers.
    fn install(&mut self, kind: HandlerKind, phase: PhaseType, reported: PhaseType, handler: Box<dyn CleanupHandler>)
        ensures
            final(self).handler_kind(phase) == Some(kind),
            final(self).reported_phase(phase) == Some(reported),
            final(self).stored_handler(phase) == Some(&handler),
            forall|q: PhaseType|
                q != phase ==> final(self).handler_kind(q) == old(self).handler_kind(q) && final(self).reported_phase(q)
                    == old(self).reported_phase(q) && #[trigger] final(self).stored_handler(q) == old(
                    self,
                ).stored_handler(q),
            forall|q: PhaseType|
                q != phase ==> #[trigger] final(self).handler_kind(q) == old(self).handler_kind(q)
                    && final(self).reported_phase(q) == old(self).reported_phase(q),
    {
        let slot = Some((kind, reported, handler));
        match phase {
            PhaseType::SpecReview => self.spec_review = slot,
            PhaseType::UniverseSetup => self.universe_setup = slot,
            PhaseType::AgentDevelopment => self.agent_development = slot,
            PhaseType::Validation => self.validation = slot,
        }
    }

    /// Register a handler for the phase it reports, replacing any handler
    /// registered for that phase; the handlers of the other phases stay.
    pub fn register_handler(&mut self, handler: Box<dyn CleanupHandler>)
        ensures
            registered_for(*old(self), *final(self), handler.reported()),
            final(self).stored_handler(handler.reported()) == Some(&handler),
            forall|q: PhaseType|
                q != handler.reported() ==> #[trigger] final(self).stored_handler(q) == old(self).stored_handler(q),
    {
        let phase = handler.phase_type();
        let slot = Some((HandlerKind::Custom, phase, handler));
        match phase {
            PhaseType::SpecReview => self.spec_review = slot,
            PhaseType::UniverseSetup => self.universe_setup = slot,
            PhaseType::AgentDevelopment => self.agent_development = slot,
            PhaseType::Validation => self.validation = slot,
        }
    }

    fn slot(&self, phase: PhaseType) -> (r: &Option<HandlerSlot>)
        ensures
            slot_kind(*r) == self.handler_kind(phase),
            slot_phase(*r) == self.reported_phase(phase),
            (match r {
                Some(t) => Some(&t.2),
                None => None,
            }) == self.stored_handler(phase),
    {
        match phase {
            PhaseType::SpecReview => &self.spec_review,
            PhaseType::UniverseSetup => &self.universe_setup,
            PhaseType::AgentDevelopment => &self.agent_development,
            PhaseType::Validation => &self.validation,
        }
    }

    /// The handler the manager holds for a phase (`stored_handler`), when
    /// one is; `handler_kind` and `reported_phase` say which kind it is and
    /// the phase it reported when it was registered. It is handed back in
    /// its box, the form in which it was registered.
    pub fn get_handler(&self, phase: PhaseType) -> (r: Option<&Box<dyn CleanupHandler>>)
        ensures
            r == self.stored_handler(phase),
            r is Some <==> self.handler_kind(phase) is Some,
            r is Some <==> self.reported_phase(phase) is Some,
    {
        match self.slot(phase) {
            Some(s) => Some(&s.2),
            None => None,
        }
    }

    /// Run the cleanup of the handler for the failed phase; success when no
    /// handler is registered.
    pub fn cleanup(&self, context: &CleanupContext) -> (r: CleanupResult)
        ensures
            self.handler_kind(context.failed_phase) is None ==> r.is_success()
                && r.cleaned_resources@.len() == 0,
            self.handler_kind(context.failed_phase) matches Some(k) ==> builtin_cleanup(k, context, &r),
    {
        match self.slot(context.failed_phase) {
            None => CleanupResult::success(),
            Some(s) => match s.0 {
                HandlerKind::Noop => NoopCleanupHandler.cleanup(context),
                HandlerKind::UniverseSetup => UniverseSetupCleanupHandler.cleanup(context),
                HandlerKind::AgentDevelopment => AgentDevelopmentCleanupHandler.cleanup(context),
                HandlerKind::Custom => s.2.cleanup(context),
            },
        }
    }

    /// Run the rollback of the handler for the failed phase; success when no
    /// handler is registered.
    pub fn rollback(&self, context: &CleanupContext) -> (r: CleanupResult)
        ensures
            self.handler_kind(context.failed_phase) is None ==> r.is_success()
                && r.cleaned_resources@.len() == 0,
            self.handler_kind(context.failed_phase) matches Some(k) ==> builtin_rollback_result(
                k,
                context,
                &r,
            ),
    {
        match self.slot(context.failed_phase) {
            None => CleanupResult::success(),
            Some(s) => match s.0 {
                HandlerKind::Noop => NoopCleanupHandler.rollback(context),
                HandlerKind::UniverseSetup => UniverseSetupCleanupHandler.rollback(context),
                HandlerKind::AgentDevelopment => AgentDevelopmentCleanupHandler.rollback(context),
                HandlerKind::Custom => s.2.rollback(context),
            },
        }
    }
}

impl Default for CleanupManager {
    fn default() -> (m: Self)
        ensures
            m.has_default_handlers(),
    {
        Self::new()
    }
}

} // verus!
