//! Dependency-ordered phase scheduling.

use orchestrator::cleanup::PhaseType;
use orchestrator::parallel::{
    DependencyGraph, ParallelError, ParallelExecutor, PhaseGroup, PhaseNode, PhaseSet, PhaseStatus,
};
use orchestrator::state::PipelineState;

#[test]
fn test_dependency_graph_empty() {
    let graph = DependencyGraph::new();
    assert!(graph.is_complete());
}

#[test]
fn test_dependency_graph_single_phase() {
    let graph = DependencyGraph::new().add_phase(PhaseType::SpecReview, vec![]);
    let completed = PhaseSet::new();
    let ready = graph.get_ready_phases(&completed);
    assert_eq!(ready, vec![PhaseType::SpecReview]);
}

#[test]
fn test_dependency_graph_sequential() {
    let graph = DependencyGraph::new()
        .add_phase(PhaseType::SpecReview, vec![])
        .add_phase(PhaseType::UniverseSetup, vec![PhaseType::SpecReview])
        .add_phase(PhaseType::AgentDevelopment, vec![PhaseType::UniverseSetup])
        .add_phase(PhaseType::Validation, vec![PhaseType::AgentDevelopment]);

    let mut completed = PhaseSet::new();

    let ready = graph.get_ready_phases(&completed);
    assert_eq!(ready, vec![PhaseType::SpecReview]);

    let mut graph = graph;
    graph.mark_completed(PhaseType::SpecReview);
    completed.insert(PhaseType::SpecReview);

    let ready = graph.get_ready_phases(&completed);
    assert_eq!(ready, vec![PhaseType::UniverseSetup]);
}

#[test]
fn test_parallel_phases_resolve() {
    let groups = ParallelExecutor::resolve_parallel_phases(&PipelineState::Pending);
    assert_eq!(groups.len(), 1);
    assert_eq!(groups[0].phases, vec![PhaseType::SpecReview]);
}

#[test]
fn test_dependency_validation_sequential() {
    let phases = vec![PhaseType::SpecReview, PhaseType::UniverseSetup];
    assert!(ParallelExecutor::validate_dependency_order(&phases).is_ok());
}

#[test]
fn test_dependency_validation_invalid_order() {
    let phases = vec![PhaseType::UniverseSetup, PhaseType::SpecReview];
    assert!(ParallelExecutor::validate_dependency_order(&phases).is_err());
}

#[test]
fn test_resolve_parallel_phases_all_states() {
    assert_eq!(
        ParallelExecutor::resolve_parallel_phases(&PipelineState::Pending)[0].phases,
        vec![PhaseType::SpecReview]
    );
    assert_eq!(
        ParallelExecutor::resolve_parallel_phases(&PipelineState::SpecReview)[0].phases,
        vec![PhaseType::UniverseSetup]
    );
    assert_eq!(
        ParallelExecutor::resolve_parallel_phases(&PipelineState::UniverseSetup)[0].phases,
        vec![PhaseType::AgentDevelopment]
    );
    assert_eq!(
        ParallelExecutor::resolve_parallel_phases(&PipelineState::AgentDevelopment)[0].phases,
        vec![PhaseType::AgentDevelopment]
    );
    assert_eq!(
        ParallelExecutor::resolve_parallel_phases(&PipelineState::Validation)[0].phases,
        vec![PhaseType::Validation]
    );
    assert!(ParallelExecutor::resolve_parallel_phases(&PipelineState::Accepted).is_empty());
    assert!(ParallelExecutor::resolve_parallel_phases(&PipelineState::Escalated).is_empty());
    assert!(ParallelExecutor::resolve_parallel_phases(&PipelineState::Failed).is_empty());
}

#[test]
fn test_dependency_graph_is_complete() {
    let graph = DependencyGraph::new().add_phase(PhaseType::SpecReview, vec![]);
    assert!(!graph.is_complete());
    let mut graph = graph;
    graph.mark_completed(PhaseType::SpecReview);
    assert!(graph.is_complete());
}

#[test]
fn test_dependency_graph_has_failures() {
    let mut graph = DependencyGraph::new().add_phase(PhaseType::SpecReview, vec![]);
    assert!(!graph.has_failures());
    graph.mark_failed(PhaseType::SpecReview);
    assert!(graph.has_failures());
}

#[test]
fn test_phase_group_new() {
    let group = PhaseGroup::new(vec![PhaseType::SpecReview, PhaseType::UniverseSetup]);
    assert_eq!(group.phases.len(), 2);
    assert_eq!(group.max_parallelism, 2);
}

#[test]
fn test_phase_group_with_max_parallelism() {
    let group = PhaseGroup::new(vec![PhaseType::SpecReview, PhaseType::UniverseSetup])
        .with_max_parallelism(1);
    assert_eq!(group.max_parallelism, 1);
}

#[test]
fn test_build_dependency_graph_valid() {
    let phases = vec![PhaseType::SpecReview, PhaseType::UniverseSetup];
    let graph = ParallelExecutor::build_dependency_graph(&phases);
    assert!(graph.is_ok());
}

#[test]
fn test_build_dependency_graph_single() {
    let phases = vec![PhaseType::SpecReview];
    let graph = ParallelExecutor::build_dependency_graph(&phases).unwrap();
    let completed = PhaseSet::new();
    let ready = graph.get_ready_phases(&completed);
    assert_eq!(ready, vec![PhaseType::SpecReview]);
}

#[test]
fn test_build_dependency_graph_reversed_order_still_builds() {
    let phases = vec![PhaseType::UniverseSetup, PhaseType::SpecReview];
    let graph = ParallelExecutor::build_dependency_graph(&phases).unwrap();
    let completed = PhaseSet::new();
    assert_eq!(graph.get_ready_phases(&completed), vec![PhaseType::SpecReview]);
}

#[test]
fn test_circular_dependency_detected() {
    let graph = DependencyGraph::new()
        .add_phase(PhaseType::SpecReview, vec![PhaseType::UniverseSetup])
        .add_phase(PhaseType::UniverseSetup, vec![PhaseType::SpecReview]);
    let result = graph.validate();
    match result {
        Err(ParallelError::InvalidPhaseConfiguration(m)) => {
            assert_eq!(m, "Circular dependency detected")
        }
        _ => panic!("expected a cycle error"),
    }
}

#[test]
fn test_phase_node_new() {
    let node = PhaseNode::new(PhaseType::SpecReview);
    assert_eq!(node.phase_type, PhaseType::SpecReview);
    assert!(node.dependencies.is_empty());
    assert_eq!(node.status, PhaseStatus::Pending);
}

#[test]
fn test_phase_node_with_dependency() {
    let node = PhaseNode::new(PhaseType::UniverseSetup).with_dependency(PhaseType::SpecReview);
    assert_eq!(node.dependencies.len(), 1);
    assert_eq!(node.dependencies[0], PhaseType::SpecReview);
}

#[test]
fn test_phase_node_can_execute() {
    let mut completed = PhaseSet::new();

    let node = PhaseNode::new(PhaseType::SpecReview);
    assert!(node.can_execute(&completed));

    let node = PhaseNode::new(PhaseType::UniverseSetup).with_dependency(PhaseType::SpecReview);
    assert!(!node.can_execute(&completed));

    completed.insert(PhaseType::SpecReview);
    assert!(node.can_execute(&completed));
}

#[test]
fn test_dependency_graph_mark_running() {
    let mut graph = DependencyGraph::new().add_phase(PhaseType::SpecReview, vec![]);
    graph.mark_running(PhaseType::SpecReview);
    let completed = PhaseSet::new();
    let ready = graph.get_ready_phases(&completed);
    assert!(ready.is_empty());
}

#[test]
fn test_dependency_graph_multiple_phases_ready() {
    let graph = DependencyGraph::new()
        .add_phase(PhaseType::SpecReview, vec![])
        .add_phase(PhaseType::Validation, vec![]);
    let completed = PhaseSet::new();
    let ready = graph.get_ready_phases(&completed);
    assert_eq!(ready.len(), 2);
}

#[test]
fn test_dependency_graph_validate_nonexistent_dependency() {
    let graph =
        DependencyGraph::new().add_phase(PhaseType::UniverseSetup, vec![PhaseType::SpecReview]);
    let result = graph.validate();
    assert!(result.is_err());
}

#[test]
fn test_dependency_graph_validate_valid() {
    let graph = DependencyGraph::new()
        .add_phase(PhaseType::SpecReview, vec![])
        .add_phase(PhaseType::UniverseSetup, vec![PhaseType::SpecReview]);
    assert!(graph.validate().is_ok());
}

#[test]
fn test_dependency_graph_default() {
    let graph = DependencyGraph::default();
    assert!(graph.is_complete());
    assert!(!graph.has_failures());
}

#[test]
fn test_phase_status_variants() {
    let statuses = [
        PhaseStatus::Pending,
        PhaseStatus::Running,
        PhaseStatus::Completed,
        PhaseStatus::Failed,
    ];
    for status in &statuses {
        let _ = format!("{status:?}");
    }
}

#[test]
fn test_parallel_error_display() {
    let err = ParallelError::DependencyNotMet(PhaseType::UniverseSetup);
    assert!(err.to_string().contains("UniverseSetup"));
    assert_eq!(err.to_string(), "Dependency not met for phase: UniverseSetup");

    let err = ParallelError::InvalidPhaseConfiguration("bad config".to_string());
    assert!(err.to_string().contains("bad config"));

    let err = ParallelError::ExecutionFailed("oom".to_string());
    assert!(err.to_string().contains("oom"));
}

#[test]
fn test_dependency_graph_with_all_phases() {
    let graph = DependencyGraph::new()
        .add_phase(PhaseType::SpecReview, vec![])
        .add_phase(PhaseType::UniverseSetup, vec![PhaseType::SpecReview])
        .add_phase(PhaseType::AgentDevelopment, vec![PhaseType::UniverseSetup])
        .add_phase(PhaseType::Validation, vec![PhaseType::AgentDevelopment]);
    assert!(graph.validate().is_ok());
    let mut completed = PhaseSet::new();
    let mut graph = graph;
    for phase in [
        PhaseType::SpecReview,
        PhaseType::UniverseSetup,
        PhaseType::AgentDevelopment,
        PhaseType::Validation,
    ] {
        let ready = graph.get_ready_phases(&completed);
        assert!(ready.contains(&phase), "Expected {:?} to be ready", phase);
        graph.mark_completed(phase);
        completed.insert(phase);
    }
    assert!(graph.is_complete());
}

#[test]
fn test_dependency_graph_mark_running_then_completed() {
    let mut graph = DependencyGraph::new().add_phase(PhaseType::SpecReview, vec![]);
    let completed = PhaseSet::new();
    assert_eq!(graph.get_ready_phases(&completed).len(), 1);
    graph.mark_running(PhaseType::SpecReview);
    assert!(graph.get_ready_phases(&completed).is_empty());
    assert!(!graph.is_complete());
    graph.mark_completed(PhaseType::SpecReview);
    assert!(graph.is_complete());
}

#[test]
fn test_dependency_graph_self_cycle_detected() {
    let graph =
        DependencyGraph::new().add_phase(PhaseType::SpecReview, vec![PhaseType::SpecReview]);
    assert!(graph.validate().is_err());
}

#[test]
fn test_dependency_graph_three_node_cycle() {
    let graph = DependencyGraph::new()
        .add_phase(PhaseType::SpecReview, vec![PhaseType::Validation])
        .add_phase(PhaseType::UniverseSetup, vec![PhaseType::SpecReview])
        .add_phase(PhaseType::Validation, vec![PhaseType::UniverseSetup]);
    assert!(graph.validate().is_err());
}

#[test]
fn test_dependency_graph_partial_completion() {
    let graph = DependencyGraph::new()
        .add_phase(PhaseType::SpecReview, vec![])
        .add_phase(PhaseType::UniverseSetup, vec![PhaseType::SpecReview]);
    let mut completed = PhaseSet::new();
    let mut graph = graph;
    graph.mark_completed(PhaseType::SpecReview);
    completed.insert(PhaseType::SpecReview);
    assert!(!graph.is_complete());
    assert_eq!(graph.get_ready_phases(&completed), vec![PhaseType::UniverseSetup]);
}

#[test]
fn test_dependency_graph_mark_for_nonexistent_phase() {
    let mut graph = DependencyGraph::new();
    graph.mark_completed(PhaseType::SpecReview);
    graph.mark_failed(PhaseType::SpecReview);
    assert!(!graph.has_failures());
}

#[test]
fn test_validate_dependency_order_reports_first_offender() {
    let phases = vec![
        PhaseType::Validation,
        PhaseType::UniverseSetup,
        PhaseType::SpecReview,
        PhaseType::AgentDevelopment,
    ];
    match ParallelExecutor::validate_dependency_order(&phases) {
        Err(ParallelError::DependencyNotMet(p)) => assert_eq!(p, PhaseType::Validation),
        _ => panic!("expected DependencyNotMet"),
    }
    assert!(ParallelExecutor::validate_dependency_order(&[]).is_ok());
}

#[test]
fn dependency_graph_missing_dependency() {
    let graph =
        DependencyGraph::new().add_phase(PhaseType::UniverseSetup, vec![PhaseType::SpecReview]);
    let result = graph.validate();
    assert!(result.is_err());
}

#[test]
fn dependency_graph_respects_execution_order() {
    let phases = vec![PhaseType::SpecReview, PhaseType::UniverseSetup];
    assert!(ParallelExecutor::validate_dependency_order(&phases).is_ok());

    let phases_reversed = vec![PhaseType::UniverseSetup, PhaseType::SpecReview];
    assert!(ParallelExecutor::validate_dependency_order(&phases_reversed).is_err());
}

#[test]
fn test_phase_set_insert_and_contains() {
    let mut set = PhaseSet::new();
    assert!(!set.contains(PhaseType::Validation));
    assert!(set.insert(PhaseType::Validation));
    assert!(!set.insert(PhaseType::Validation));
    assert!(set.contains(PhaseType::Validation));
    assert!(!set.contains(PhaseType::SpecReview));
}

#[test]
fn test_dependency_graph_mark_completed_for_nonexistent_phase() {
    let mut graph = DependencyGraph::new();
    graph.mark_completed(PhaseType::SpecReview);
    assert!(!graph.has_failures());
}

#[test]
fn test_dependency_graph_mark_failed_for_nonexistent_phase() {
    let mut graph = DependencyGraph::new();
    graph.mark_failed(PhaseType::SpecReview);
    assert!(!graph.has_failures());
}

#[test]
fn test_phase_group_empty() {
    let group = PhaseGroup::new(vec![]);
    assert!(group.phases.is_empty());
    assert_eq!(group.max_parallelism, 0);
}

#[test]
fn test_phase_group_single_phase() {
    let group = PhaseGroup::new(vec![PhaseType::SpecReview]);
    assert_eq!(group.phases.len(), 1);
    assert_eq!(group.max_parallelism, 1);
}

#[test]
fn test_phase_group_with_max_parallelism_zero() {
    let group = PhaseGroup::new(vec![PhaseType::SpecReview, PhaseType::UniverseSetup]).with_max_parallelism(0);
    assert_eq!(group.max_parallelism, 0);
}

#[test]
fn test_phase_group_with_max_parallelism_greater_than_phases() {
    let group = PhaseGroup::new(vec![PhaseType::SpecReview]).with_max_parallelism(10);
    assert_eq!(group.max_parallelism, 10);
}

#[test]
fn test_build_dependency_graph_empty_phases() {
    let graph = ParallelExecutor::build_dependency_graph(&[]);
    assert!(graph.is_ok());
    let graph = graph.unwrap();
    assert!(graph.is_complete());
}

#[test]
fn test_build_dependency_graph_all_phases() {
    let phases = vec![
        PhaseType::SpecReview,
        PhaseType::UniverseSetup,
        PhaseType::AgentDevelopment,
        PhaseType::Validation,
    ];
    let graph = ParallelExecutor::build_dependency_graph(&phases);
    assert!(graph.is_ok());
}

#[test]
fn test_build_dependency_graph_reversed_order_fails_validation() {
    let phases = vec![
        PhaseType::Validation,
        PhaseType::AgentDevelopment,
        PhaseType::UniverseSetup,
        PhaseType::SpecReview,
    ];
    let result = ParallelExecutor::validate_dependency_order(&phases);
    assert!(result.is_err());
}

#[test]
fn test_validate_dependency_order_empty() {
    let result = ParallelExecutor::validate_dependency_order(&[]);
    assert!(result.is_ok());
}

#[test]
fn test_validate_dependency_order_single_phase() {
    let result = ParallelExecutor::validate_dependency_order(&[PhaseType::SpecReview]);
    assert!(result.is_ok());
}

#[test]
fn test_phase_node_can_execute_with_multiple_dependencies() {
    let mut completed = PhaseSet::new();
    let node = PhaseNode::new(PhaseType::Validation)
        .with_dependency(PhaseType::SpecReview)
        .with_dependency(PhaseType::AgentDevelopment);
    assert!(!node.can_execute(&completed));
    completed.insert(PhaseType::SpecReview);
    assert!(!node.can_execute(&completed));
    completed.insert(PhaseType::AgentDevelopment);
    assert!(node.can_execute(&completed));
}

#[test]
fn test_phase_node_can_execute_non_pending_always_false() {
    let mut node = PhaseNode::new(PhaseType::SpecReview);
    let completed = PhaseSet::new();
    assert!(node.can_execute(&completed));
    node.status = PhaseStatus::Running;
    assert!(!node.can_execute(&completed));
    node.status = PhaseStatus::Completed;
    assert!(!node.can_execute(&completed));
    node.status = PhaseStatus::Failed;
    assert!(!node.can_execute(&completed));
}

#[test]
fn test_get_ready_phases_excludes_completed_phases() {
    let graph = DependencyGraph::new()
        .add_phase(PhaseType::SpecReview, vec![])
        .add_phase(PhaseType::UniverseSetup, vec![]);
    let completed = PhaseSet::new();
    let ready = graph.get_ready_phases(&completed);
    assert_eq!(ready.len(), 2);
    let mut graph = graph;
    graph.mark_completed(PhaseType::SpecReview);
    let ready = graph.get_ready_phases(&completed);
    assert_eq!(ready.len(), 1);
    assert_eq!(ready[0], PhaseType::UniverseSetup);
}

#[test]
fn test_is_complete_with_all_completed() {
    let mut graph = DependencyGraph::new()
        .add_phase(PhaseType::SpecReview, vec![])
        .add_phase(PhaseType::UniverseSetup, vec![]);
    graph.mark_completed(PhaseType::SpecReview);
    graph.mark_completed(PhaseType::UniverseSetup);
    assert!(graph.is_complete());
    assert!(!graph.has_failures());
}

#[test]
fn test_is_complete_with_all_failed() {
    let mut graph = DependencyGraph::new()
        .add_phase(PhaseType::SpecReview, vec![])
        .add_phase(PhaseType::UniverseSetup, vec![]);
    graph.mark_failed(PhaseType::SpecReview);
    graph.mark_failed(PhaseType::UniverseSetup);
    assert!(graph.is_complete());
    assert!(graph.has_failures());
}

#[test]
fn test_is_complete_with_mixed_completed_and_failed() {
    let mut graph = DependencyGraph::new()
        .add_phase(PhaseType::SpecReview, vec![])
        .add_phase(PhaseType::UniverseSetup, vec![]);
    graph.mark_completed(PhaseType::SpecReview);
    graph.mark_failed(PhaseType::UniverseSetup);
    assert!(graph.is_complete());
    assert!(graph.has_failures());
}
