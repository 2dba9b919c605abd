//! The record of phase runs: per-pipeline entries, the run log and the counts.

use orchestrator::metrics::{phase_duration, Metrics, PhaseMetrics, ScenarioResult};

fn run(pipeline_id: &str, phase: &str, started_at: i64, duration_ms: i64, success: bool) -> PhaseMetrics {
    PhaseMetrics {
        pipeline_id: pipeline_id.to_string(),
        phase: phase.to_string(),
        started_at,
        duration_ms,
        success,
    }
}

fn scenario(name: &str, passed: bool) -> ScenarioResult {
    ScenarioResult {
        name: name.to_string(),
        passed,
        duration_ms: 500,
        error: if passed { None } else { Some("assertion failed".to_string()) },
    }
}

#[test]
fn test_record_phase() {
    let mut metrics = Metrics::new();
    metrics.record_phase(run("test-1", "spec_review", 0, 1500, true));
    assert_eq!(metrics.pipeline_metrics().len(), 1);
}

#[test]
fn test_aggregated_metrics() {
    let mut metrics = Metrics::new();
    metrics.record_phase(run("test-1", "spec_review", 0, 1500, true));
    metrics.mark_complete("test-1", "accepted");
    let agg = metrics.aggregated_counts();
    assert_eq!(agg.total_pipelines, 1);
    assert_eq!(agg.successful_pipelines, 1);
}

#[test]
fn test_get_for_pipeline_filters_correctly() {
    let mut metrics = Metrics::new();
    metrics.record_phase(run("alpha", "spec_review", 0, 1000, true));
    metrics.record_phase(run("beta", "validation", 0, 2000, false));
    metrics.record_phase(run("alpha", "validation", 0, 3000, true));

    let alpha_phases = metrics.get_for_pipeline("alpha");
    assert_eq!(alpha_phases.len(), 2);

    let beta_phases = metrics.get_for_pipeline("beta");
    assert_eq!(beta_phases.len(), 1);

    let unknown = metrics.get_for_pipeline("unknown");
    assert!(unknown.is_empty());
}

#[test]
fn test_record_iteration() {
    let mut metrics = Metrics::new();
    metrics.record_phase(run("test-1", "agent_dev", 0, 1000, true));
    metrics.record_iteration("test-1", 5);
    let pipeline = metrics.get_pipeline_metrics("test-1");
    assert!(pipeline.is_some());
    assert_eq!(pipeline.map(|p| p.iteration_count), Some(5));
}

#[test]
fn test_record_iteration_nonexistent_pipeline_is_noop() {
    let mut metrics = Metrics::new();
    metrics.record_iteration("nonexistent", 3);
    assert!(metrics.get_pipeline_metrics("nonexistent").is_none());
}

#[test]
fn test_mark_complete() {
    let mut metrics = Metrics::new();
    metrics.record_phase(run("test-1", "validation", 0, 1000, true));
    metrics.mark_complete("test-1", "accepted");
    assert_eq!(
        metrics.get_pipeline_metrics("test-1").map(|p| p.final_state.as_str()),
        Some("accepted")
    );
}

#[test]
fn test_aggregated_metrics_counts_failed_and_escalated() {
    let mut metrics = Metrics::new();
    for (id, final_state) in [("p1", "accepted"), ("p2", "failed"), ("p3", "escalated")] {
        metrics.record_phase(run(id, "test", 0, 1000, true));
        metrics.mark_complete(id, final_state);
    }
    let agg = metrics.aggregated_counts();
    assert_eq!(agg.total_pipelines, 3);
    assert_eq!(agg.successful_pipelines, 1);
    assert_eq!(agg.failed_pipelines, 1);
    assert_eq!(agg.escalated_pipelines, 1);
}

#[test]
fn test_get_phase_metrics_iterator() {
    let mut metrics = Metrics::new();
    assert_eq!(metrics.get_phase_metrics().len(), 0);
    metrics.record_phase(run("test-1", "review", 0, 1000, true));
    assert_eq!(metrics.get_phase_metrics().len(), 1);
}

#[test]
fn test_get_pipeline_metrics_nonexistent() {
    let metrics = Metrics::new();
    assert!(metrics.get_pipeline_metrics("nonexistent").is_none());
}

#[test]
fn test_multiple_pipelines_metrics_accumulate() {
    let mut metrics = Metrics::new();
    for i in 0..5 {
        metrics.record_phase(run(&format!("pipe-{i}"), "test_phase", 0, (i + 1) * 1000, true));
        metrics.mark_complete(&format!("pipe-{i}"), "accepted");
    }
    let agg = metrics.aggregated_counts();
    assert_eq!(agg.total_pipelines, 5);
    assert_eq!(agg.successful_pipelines, 5);
    assert_eq!(agg.failed_pipelines, 0);
}

#[test]
fn test_mark_complete_for_nonexistent_pipeline_is_noop() {
    let mut metrics = Metrics::new();
    metrics.mark_complete("nonexistent", "accepted");
    assert!(metrics.get_pipeline_metrics("nonexistent").is_none());
}

#[test]
fn test_get_phase_metrics_returns_all_recorded() {
    let mut metrics = Metrics::new();
    for i in 0..10 {
        metrics.record_phase(run("pipe-1", &format!("phase_{i}"), 0, 1000, true));
    }
    assert_eq!(metrics.get_phase_metrics().len(), 10);
}

#[test]
fn test_record_iteration_updates_count() {
    let mut metrics = Metrics::new();
    metrics.record_phase(run("p1", "dev", 0, 1000, true));
    metrics.record_iteration("p1", 3);
    metrics.record_iteration("p1", 7);
    assert_eq!(metrics.get_pipeline_metrics("p1").map(|p| p.iteration_count), Some(7));
}

#[test]
fn test_clear_resets_all_metrics() {
    let mut metrics = Metrics::new();
    metrics.record_phase(run("p1", "test", 0, 1000, true));
    metrics.mark_complete("p1", "accepted");
    assert!(metrics.get_pipeline_metrics("p1").is_some());
    assert_eq!(metrics.get_phase_metrics().len(), 1);

    metrics.clear();
    assert!(metrics.get_pipeline_metrics("p1").is_none());
    assert_eq!(metrics.get_phase_metrics().len(), 0);
}

#[test]
fn test_phase_metrics_started_at_ordering_preserved() {
    let t1: i64 = 1_700_000_000_000;
    let t2 = t1 + 5_000;
    let t3 = t1 + 10_000;
    let mut metrics = Metrics::new();
    metrics.record_phase(run("pipe-1", "first", t1, 5000, true));
    metrics.record_phase(run("pipe-1", "second", t2, 5000, true));
    metrics.record_phase(run("pipe-1", "third", t3, 5000, true));

    let phases = metrics.get_for_pipeline("pipe-1");
    assert_eq!(phases.len(), 3);
    assert!(phases[0].started_at < phases[1].started_at);
    assert!(phases[1].started_at < phases[2].started_at);
}

#[test]
fn test_phase_metrics_counts_successes_and_failures() {
    let mut metrics = Metrics::new();
    for i in 0..3u32 {
        metrics.record_phase(run(&format!("pipe-{i}"), "test", 0, 1000, true));
    }
    for i in 3..5u32 {
        metrics.record_phase(run(&format!("pipe-{i}"), "test", 0, 1000, false));
    }
    let all_phases = metrics.get_phase_metrics();
    let successes = all_phases.iter().filter(|m| m.success).count();
    let failures = all_phases.iter().filter(|m| !m.success).count();
    assert_eq!(successes, 3);
    assert_eq!(failures, 2);
}

#[test]
fn test_phase_metrics_success_field_in_individual_records() {
    let success_pm = run("pipe-1", "review", 0, 1000, true);
    let failure_pm = run("pipe-2", "review", 0, 1000, false);
    assert!(success_pm.success);
    assert!(!failure_pm.success);
}

#[test]
fn test_phase_metrics_mixed_success_within_single_pipeline() {
    let mut metrics = Metrics::new();
    metrics.record_phase(run("pipe-1", "setup", 0, 1000, true));
    metrics.record_phase(run("pipe-1", "review", 0, 2000, true));
    metrics.record_phase(run("pipe-1", "validation", 0, 3000, false));

    let phases = metrics.get_for_pipeline("pipe-1");
    let successes = phases.iter().filter(|m| m.success).count();
    let failures = phases.iter().filter(|m| !m.success).count();
    assert_eq!(successes, 2);
    assert_eq!(failures, 1);
}

#[test]
fn test_concurrent_recording_aggregation_correctness() {
    let mut metrics = Metrics::new();
    for i in 0..5i64 {
        metrics.record_phase(run(&format!("pipe-{i}"), "setup", 0, (i + 1) * 1000, true));
        metrics.record_phase(run(&format!("pipe-{i}"), "validation", 0, (i + 1) * 2000, i % 2 == 0));
        metrics.mark_complete(&format!("pipe-{i}"), if i % 2 == 0 { "accepted" } else { "failed" });
    }
    let agg = metrics.aggregated_counts();
    assert_eq!(agg.total_pipelines, 5);
    assert_eq!(agg.successful_pipelines, 3);
    assert_eq!(agg.failed_pipelines, 2);
}

#[test]
fn new_entry_starts_unknown_with_no_iterations() {
    let mut metrics = Metrics::new();
    metrics.record_phase(run("p1", "spec_review", 10, 250, true));
    let entry = metrics.get_pipeline_metrics("p1").expect("entry");
    assert_eq!(entry.pipeline_id, "p1");
    assert_eq!(entry.final_state, "unknown");
    assert_eq!(entry.iteration_count, 0);
    assert!(entry.scenario_results.is_empty());
    assert_eq!(entry.phase_metrics.len(), 1);
    assert_eq!(entry.phase_metrics[0].duration_ms, 250);
}

#[test]
fn entry_runs_agree_with_the_log() {
    let mut metrics = Metrics::new();
    for i in 0..4i64 {
        for pipe in ["alpha", "beta"] {
            metrics.record_phase(run(pipe, &format!("step_{i}"), i, i * 10, true));
        }
    }
    for pipe in ["alpha", "beta"] {
        let entry = metrics.get_pipeline_metrics(pipe).expect("entry");
        let from_log = metrics.get_for_pipeline(pipe);
        assert_eq!(entry.phase_metrics.len(), from_log.len());
        for (a, b) in entry.phase_metrics.iter().zip(from_log.iter()) {
            assert_eq!(a.phase, b.phase);
            assert_eq!(a.started_at, b.started_at);
            assert_eq!(a.pipeline_id, pipe);
        }
    }
    assert_eq!(metrics.pipeline_metrics()[0].pipeline_id, "alpha");
    assert_eq!(metrics.pipeline_metrics()[1].pipeline_id, "beta");
    assert_eq!(metrics.get_phase_metrics().len(), 8);
}

#[test]
fn record_scenarios_replaces_previous_results() {
    let mut metrics = Metrics::new();
    metrics.record_phase(run("p1", "validation", 0, 1000, true));
    metrics.record_scenarios("p1", vec![scenario("s1", true)]);
    let counts = metrics.scenario_counts();
    assert_eq!((counts.passed, counts.total), (1, 1));
    metrics.record_scenarios("p1", vec![scenario("s1", false), scenario("s2", false)]);
    let counts = metrics.scenario_counts();
    assert_eq!((counts.passed, counts.total), (0, 2));
}

#[test]
fn record_scenarios_for_unknown_pipeline_changes_nothing() {
    let mut metrics = Metrics::new();
    metrics.record_scenarios("nonexistent", vec![scenario("test", true)]);
    let counts = metrics.scenario_counts();
    assert_eq!((counts.passed, counts.total), (0, 0));
    assert!(metrics.get_pipeline_metrics("nonexistent").is_none());
}

#[test]
fn scenario_counts_across_pipelines() {
    let mut metrics = Metrics::new();
    metrics.record_phase(run("p1", "validation", 0, 1000, true));
    metrics.record_scenarios("p1", vec![scenario("a", true), scenario("b", true), scenario("c", false)]);
    metrics.record_phase(run("p2", "validation", 0, 1000, true));
    metrics.record_scenarios("p2", vec![scenario("d", true)]);
    let counts = metrics.scenario_counts();
    assert_eq!(counts.passed, 3);
    assert_eq!(counts.total, 4);
}

#[test]
fn aggregated_counts_add_iterations() {
    let mut metrics = Metrics::new();
    metrics.record_phase(run("p1", "dev", 0, 1000, true));
    metrics.record_phase(run("p2", "dev", 0, 1000, true));
    metrics.record_iteration("p1", 2);
    metrics.record_iteration("p2", 3);
    metrics.mark_complete("p2", "running");
    let agg = metrics.aggregated_counts();
    assert_eq!(agg.total_iterations, 5);
    assert_eq!(agg.total_pipelines, 2);
    assert_eq!(agg.successful_pipelines + agg.failed_pipelines + agg.escalated_pipelines, 0);
}

#[test]
fn default_metrics_are_empty() {
    let metrics = Metrics::default();
    assert!(metrics.get_phase_metrics().is_empty());
    assert!(metrics.pipeline_metrics().is_empty());
    assert_eq!(metrics.aggregated_counts().total_pipelines, 0);
}

#[test]
fn test_phase_duration_counts_whole_seconds() {
    assert_eq!(phase_duration(0, 1500), 1000);
    assert_eq!(phase_duration(1_000, 1_999), 0);
    assert_eq!(phase_duration(10_000, 13_000), 3000);
    assert_eq!(phase_duration(2000, 500), -1000);
    assert_eq!(phase_duration(i64::MIN, i64::MAX), 0);
}

#[test]
fn test_phase_totals_group_by_phase_in_first_seen_order() {
    let mut metrics = Metrics::new();
    metrics.record_phase(run("a", "spec_review", 0, 1000, true));
    metrics.record_phase(run("a", "validation", 10, 500, false));
    metrics.record_phase(run("b", "spec_review", 20, 3000, true));
    let totals = metrics.phase_totals();
    assert_eq!(totals.len(), 2);
    assert_eq!(totals[0].phase, "spec_review");
    assert_eq!(totals[0].total_ms, 4000);
    assert_eq!(totals[0].runs, 2);
    assert_eq!(totals[1].phase, "validation");
    assert_eq!(totals[1].total_ms, 500);
    assert_eq!(totals[1].runs, 1);
}

#[test]
fn test_phase_totals_empty() {
    assert!(Metrics::new().phase_totals().is_empty());
}

#[test]
fn test_metrics_default_is_empty() {
    let metrics = Metrics::default();
    assert_eq!(metrics.get_phase_metrics().len(), 0);
    assert!(metrics.phase_totals().is_empty());
    assert_eq!(metrics.aggregated_counts().total_pipelines, 0);
    assert_eq!(metrics.aggregated_counts().successful_pipelines, 0);
    assert_eq!(metrics.scenario_counts().total, 0);
}

#[test]
fn test_aggregated_average_iterations_with_zero_iterations() {
    let mut metrics = Metrics::new();
    metrics.record_phase(run("pipe-1", "test", 0, 1000, true));
    metrics.mark_complete("pipe-1", "accepted");
    let counts = metrics.aggregated_counts();
    assert_eq!(counts.total_pipelines, 1);
    assert_eq!(counts.total_iterations, 0);
}

#[test]
fn test_record_scenarios_for_nonexistent_pipeline_is_noop() {
    let mut metrics = Metrics::new();
    metrics.record_scenarios("nonexistent", vec![scenario("test", true)]);
    let counts = metrics.scenario_counts();
    assert_eq!(counts.total, 0);
    assert_eq!(counts.passed, 0);
    assert!(metrics.get_pipeline_metrics("nonexistent").is_none());
}

#[test]
fn test_phase_metrics_started_at_preserved() {
    let before: i64 = 1_700_000_000_000;
    let pm = run("pipe-1", "spec_review", before, 2500, true);
    let after: i64 = 1_700_000_000_001;
    assert!(pm.started_at >= before);
    assert!(pm.started_at <= after);
    let mut metrics = Metrics::new();
    metrics.record_phase(pm);
    assert_eq!(metrics.get_phase_metrics()[0].started_at, before);
}
