//! The record of phase runs: every run in the order it was recorded, and for
//! each pipeline its own runs, the scenario results of its last validation,
//! its iteration count and the state it finished in.
//!
//! Durations are whole milliseconds. Averages and rates are fractions; they
//! are computed by the caller from the counts given here.
use vstd::prelude::*;

use crate::persistence::{key_index, keys_unique};
use crate::phases::{count_passed, passed_count};
use crate::phase_log::{clear_runs, empty_log, log_runs, push_run, run_at, run_count};

verus! {

/// The outcome of one scenario run. Durations are in milliseconds.
#[derive(Debug)]
pub struct ScenarioResult {
    pub name: String,
    pub passed: bool,
    pub duration_ms: u64,
    pub error: Option<String>,
}

impl Clone for ScenarioResult {
    fn clone(&self) -> (r: Self)
        ensures
            r == *self,
    {
        let error = match &self.error {
            Some(e) => Some(e.clone()),
            None => None,
        };
        ScenarioResult { name: self.name.clone(), passed: self.passed, duration_ms: self.duration_ms, error }
    }
}

/// The time from `start` to `end` (milliseconds since the epoch) in whole
/// seconds, cut toward zero, and given in milliseconds; 0 where that does
/// not fit an `i64`.
pub open spec fn whole_seconds_duration(start: i64, end: i64) -> i64 {
    let d = end - start;
    let w = if d >= 0 {
        d / 1000 * 1000
    } else {
        -((-d) / 1000 * 1000)
    };
    if i64::MIN <= w <= i64::MAX {
        w as i64
    } else {
        0
    }
}

/// How long a phase that started at `start` and ended at `end` took, as its
/// record keeps it: whole seconds, in milliseconds.
pub fn phase_duration(start: i64, end: i64) -> (r: i64)
    ensures
        r == whole_seconds_duration(start, end),
{
    let diff: i128 = (end as i128) - (start as i128);
    let w: i128 = if diff >= 0 {
        let a: u128 = diff as u128;
        ((a / 1000) * 1000) as i128
    } else {
        let a: u128 = (-diff) as u128;
        -(((a / 1000) * 1000) as i128)
    };
    if -9_223_372_036_854_775_808i128 <= w && w <= 9_223_372_036_854_775_807i128 {
        w as i64
    } else {
        0
    }
}

/// One recorded phase run. `started_at` is in milliseconds since the epoch;
/// the duration is counted in whole seconds and given in milliseconds.
#[derive(Debug)]
pub struct PhaseMetrics {
    pub pipeline_id: String,
    pub phase: String,
    pub started_at: i64,
    pub duration_ms: i64,
    pub success: bool,
}

impl Clone for PhaseMetrics {
    fn clone(&self) -> (r: Self)
        ensures
            r == *self,
    {
        PhaseMetrics {
            pipeline_id: self.pipeline_id.clone(),
            phase: self.phase.clone(),
            started_at: self.started_at,
            duration_ms: self.duration_ms,
            success: self.success,
        }
    }
}

/// What is kept for one pipeline.
#[derive(Debug)]
pub struct PipelineMetrics {
    pub pipeline_id: String,
    pub phase_metrics: Vec<PhaseMetrics>,
    pub iteration_count: u32,
    pub scenario_results: Vec<ScenarioResult>,
    pub final_state: String,
}

/// The contents of a `PipelineMetrics`.
pub struct PipelineMetricsView {
    pub pipeline_id: Seq<char>,
    pub phase_metrics: Seq<PhaseMetrics>,
    pub iteration_count: u32,
    pub scenario_results: Seq<ScenarioResult>,
    pub final_state: Seq<char>,
}

impl View for PipelineMetrics {
    type V = PipelineMetricsView;

    open spec fn view(&self) -> PipelineMetricsView {
        PipelineMetricsView {
            pipeline_id: self.pipeline_id@,
            phase_metrics: self.phase_metrics@,
            iteration_count: self.iteration_count,
            scenario_results: self.scenario_results@,
            final_state: self.final_state@,
        }
    }
}

/// The runs of `s` of the phase named `name`, in order.
pub open spec fn runs_named(s: Seq<PhaseMetrics>, name: Seq<char>) -> Seq<PhaseMetrics>
    decreases s.len(),
{
    if s.len() == 0 {
        Seq::empty()
    } else {
        let rest = runs_named(s.drop_last(), name);
        if s.last().phase@ == name {
            rest.push(s.last())
        } else {
            rest
        }
    }
}

/// The durations of `runs` added up.
pub open spec fn total_duration(runs: Seq<PhaseMetrics>) -> int
    decreases runs.len(),
{
    if runs.len() == 0 {
        0
    } else {
        total_duration(runs.drop_last()) + runs.last().duration_ms
    }
}

/// The phase names of `s`, each once, in the order first seen.
pub open spec fn phase_names(s: Seq<PhaseMetrics>) -> Seq<Seq<char>>
    decreases s.len(),
{
    if s.len() == 0 {
        Seq::empty()
    } else {
        let rest = phase_names(s.drop_last());
        if rest.contains(s.last().phase@) {
            rest
        } else {
            rest.push(s.last().phase@)
        }
    }
}

/// The runs of one phase taken together: how many there were and their
/// durations added up, in milliseconds.
#[derive(Debug)]
pub struct PhaseTotal {
    pub phase: String,
    pub total_ms: i128,
    pub runs: usize,
}

/// The pipeline ids of `es`, in order.
pub open spec fn entry_ids(es: Seq<PipelineMetricsView>) -> Seq<Seq<char>> {
    Seq::new(es.len(), |i: int| es[i].pipeline_id)
}

/// The runs of pipeline `id` among `s`, in order.
pub open spec fn phases_of(s: Seq<PhaseMetrics>, id: Seq<char>) -> Seq<PhaseMetrics>
    decreases s.len(),
{
    if s.len() == 0 {
        Seq::empty()
    } else {
        let rest = phases_of(s.drop_last(), id);
        if s.last().pipeline_id@ == id {
            rest.push(s.last())
        } else {
            rest
        }
    }
}

/// The entries once run `m` is recorded: it is added to its pipeline's
/// runs, and a pipeline seen for the first time gets an entry of its own,
/// after the others, with no iterations, no scenario results and the final
/// state "unknown".
pub open spec fn entries_after_run(es: Seq<PipelineMetricsView>, m: PhaseMetrics) -> Seq<PipelineMetricsView> {
    match key_index(entry_ids(es), m.pipeline_id@) {
        Some(i) => es.update(i, PipelineMetricsView { phase_metrics: es[i].phase_metrics.push(m), ..es[i] }),
        None => es.push(
            PipelineMetricsView {
                pipeline_id: m.pipeline_id@,
                phase_metrics: seq![m],
                iteration_count: 0,
                scenario_results: Seq::empty(),
                final_state: "unknown"@,
            },
        ),
    }
}

/// The entries once the entry of pipeline `id`, if there is one, is changed by `f`.
pub open spec fn entries_with(
    es: Seq<PipelineMetricsView>,
    id: Seq<char>,
    f: spec_fn(PipelineMetricsView) -> PipelineMetricsView,
) -> Seq<PipelineMetricsView> {
    match key_index(entry_ids(es), id) {
        Some(i) => es.update(i, f(es[i])),
        None => es,
    }
}

/// The number of entries whose final state is `state`.
pub open spec fn count_finished(es: Seq<PipelineMetricsView>, state: Seq<char>) -> nat
    decreases es.len(),
{
    if es.len() == 0 {
        0
    } else {
        count_finished(es.drop_last(), state) + if es.last().final_state == state {
            1nat
        } else {
            0nat
        }
    }
}

/// The iteration counts of all entries, added up.
pub open spec fn iterations_total(es: Seq<PipelineMetricsView>) -> nat
    decreases es.len(),
{
    if es.len() == 0 {
        0
    } else {
        iterations_total(es.drop_last()) + (es.last().iteration_count as nat)
    }
}

/// The number of scenario results of all entries.
pub open spec fn scenarios_total(es: Seq<PipelineMetricsView>) -> nat
    decreases es.len(),
{
    if es.len() == 0 {
        0
    } else {
        scenarios_total(es.drop_last()) + es.last().scenario_results.len()
    }
}

/// The number of passed scenarios of all entries.
pub open spec fn scenarios_passed(es: Seq<PipelineMetricsView>) -> nat
    decreases es.len(),
{
    if es.len() == 0 {
        0
    } else {
        scenarios_passed(es.drop_last()) + passed_count(es.last().scenario_results)
    }
}

/// `n`, or `u32::MAX` when `n` is larger.
pub open spec fn capped_u32(n: nat) -> u32 {
    if n > u32::MAX {
        u32::MAX
    } else {
        n as u32
    }
}

/// `n`, or `u64::MAX` when `n` is larger.
pub open spec fn capped_u64(n: nat) -> u64 {
    if n > u64::MAX {
        u64::MAX
    } else {
        n as u64
    }
}

/// The pipeline counts over all entries.
#[derive(Debug, Clone, Copy, PartialEq, Eq, Structural)]
pub struct PipelineCounts {
    pub total_pipelines: u32,
    pub successful_pipelines: u32,
    pub failed_pipelines: u32,
    pub escalated_pipelines: u32,
    pub total_iterations: u64,
}

/// Scenario counts over all entries.
#[derive(Debug, Clone, Copy, PartialEq, Eq, Structural)]
pub struct ScenarioCounts {
    pub passed: u64,
    pub total: u64,
}

/// The record of phase runs.
#[derive(Debug)]
pub struct Metrics {
    phase_metrics: im::Vector<PhaseMetrics>,
    pipeline_metrics: Vec<PipelineMetrics>,
}

impl Metrics {
    /// Every recorded run, in the order recorded.
    pub closed spec fn phases(&self) -> Seq<PhaseMetrics> {
        log_runs(self.phase_metrics)
    }

    /// The pipeline entries, in the order their pipelines were first seen.
    pub closed spec fn entries(&self) -> Seq<PipelineMetricsView> {
        Seq::new(self.pipeline_metrics@.len(), |i: int| self.pipeline_metrics@[i]@)
    }

    /// The position of the entry of pipeline `id`, if it has one.
    pub open spec fn entry_index(&self, id: Seq<char>) -> Option<int> {
        key_index(entry_ids(self.entries()), id)
    }

    /// No pipeline has two entries; each entry holds exactly its pipeline's
    /// runs from the log; each run in the log belongs to a pipeline with an entry.
    pub closed spec fn wf(&self) -> bool {
        let es = self.entries();
        &&& keys_unique(entry_ids(es))
        &&& forall|i: int|
            0 <= i < es.len() ==> (#[trigger] es[i]).phase_metrics == phases_of(self.phases(), es[i].pipeline_id)
        &&& forall|j: int|
            0 <= j < self.phases().len() ==> key_index(entry_ids(es), (#[trigger] self.phases()[j]).pipeline_id@) is Some
    }

    /// An empty record.
    pub fn new() -> (r: Self)
        ensures
            r.wf(),
            r.phases().len() == 0,
            r.entries().len() == 0,
    {
        let r = Metrics { phase_metrics: empty_log(), pipeline_metrics: Vec::new() };
        assert(entry_ids(r.entries()) =~= Seq::<Seq<char>>::empty());
        r
    }

    fn find(&self, id: &str) -> (r: Option<usize>)
        requires
            self.wf(),
        ensures
            r matches Some(i) ==> self.entry_index(id@) == Some(i as int),
            r is None ==> self.entry_index(id@) is None,
            r matches Some(i) ==> i < self.entries().len() && self.entries()[i as int].pipeline_id == id@,
    {
        let target = String::from_str(id);
        let ghost ids = entry_ids(self.entries());
        let mut i: usize = 0;
        while i < self.pipeline_metrics.len()
            invariant
                self.wf(),
                ids == entry_ids(self.entries()),
                i <= self.pipeline_metrics@.len(),
                target@ == id@,
                forall|j: int| 0 <= j < i ==> ids[j] != id@,
            decreases self.pipeline_metrics@.len() - i,
        {
            assert(ids[i as int] == self.pipeline_metrics@[i as int].pipeline_id@);
            if self.pipeline_metrics[i].pipeline_id == target {
                assert(key_index(ids, id@) == Some(i as int));
                return Some(i);
            }
            i = i + 1;
        }
        assert(key_index(ids, id@) is None);
        None
    }

    /// Record run `metrics`: in the log, and among its pipeline's runs.
    pub fn record_phase(&mut self, metrics: PhaseMetrics)
        requires
            old(self).wf(),
        ensures
            final(self).wf(),
            final(self).phases() == old(self).phases().push(metrics),
            final(self).entries() == entries_after_run(old(self).entries(), metrics),
    {
        let ghost old_phases = self.phases();
        let ghost old_entries = self.entries();
        let ghost ids = entry_ids(old_entries);
        let ghost id = metrics.pipeline_id@;
        match self.find(metrics.pipeline_id.as_str()) {
            Some(i) => {
                let run = metrics.clone();
                self.pipeline_metrics[i].phase_metrics.push(run);
                push_run(&mut self.phase_metrics, metrics);
                proof {
                    let es = self.entries();
                    let target = entries_after_run(old_entries, metrics);
                    assert(es[i as int].phase_metrics =~= target[i as int].phase_metrics);
                    assert(es =~= target);
                    assert(entry_ids(es) =~= ids);
                    assert forall|k: int| 0 <= k < es.len() implies (#[trigger] es[k]).phase_metrics == phases_of(
                        self.phases(),
                        es[k].pipeline_id,
                    ) by {
                        lemma_phases_of_push(old_phases, metrics, es[k].pipeline_id);
                        if k != i {
                            assert(ids[k] != ids[i as int]);
                        }
                    }
                    assert forall|j: int| 0 <= j < self.phases().len() implies key_index(
                        entry_ids(es),
                        (#[trigger] self.phases()[j]).pipeline_id@,
                    ) is Some by {
                        if j < old_phases.len() {
                            assert(self.phases()[j] == old_phases[j]);
                        } else {
                            assert(ids[i as int] == id);
                        }
                    }
                }
            },
            None => {
                let mut runs: Vec<PhaseMetrics> = Vec::new();
                runs.push(metrics.clone());
                let entry = PipelineMetrics {
                    pipeline_id: metrics.pipeline_id.clone(),
                    phase_metrics: runs,
                    iteration_count: 0,
                    scenario_results: Vec::new(),
                    final_state: String::from_str("unknown"),
                };
                self.pipeline_metrics.push(entry);
                push_run(&mut self.phase_metrics, metrics);
                proof {
                    let es = self.entries();
                    let target = entries_after_run(old_entries, metrics);
                    assert(es =~= target);
                    assert(entry_ids(es) =~= ids.push(id));
                    assert forall|j: int| 0 <= j < old_phases.len() implies (#[trigger] old_phases[j]).pipeline_id@ != id by {
                        assert(key_index(ids, old_phases[j].pipeline_id@) is Some);
                    }
                    lemma_phases_of_absent(old_phases, id);
                    assert forall|k: int| 0 <= k < es.len() implies (#[trigger] es[k]).phase_metrics == phases_of(
                        self.phases(),
                        es[k].pipeline_id,
                    ) by {
                        lemma_phases_of_push(old_phases, metrics, es[k].pipeline_id);
                        if k < old_entries.len() {
                            assert(ids[k] == es[k].pipeline_id);
                        } else {
                            assert(es[k].phase_metrics =~= Seq::<PhaseMetrics>::empty().push(metrics));
                        }
                    }
                    assert forall|j: int| 0 <= j < self.phases().len() implies key_index(
                        entry_ids(es),
                        (#[trigger] self.phases()[j]).pipeline_id@,
                    ) is Some by {
                        let x = self.phases()[j].pipeline_id@;
                        if j < old_phases.len() {
                            assert(self.phases()[j] == old_phases[j]);
                            let w = choose|w: int| 0 <= w < ids.len() && ids[w] == x;
                            assert(entry_ids(es)[w] == x);
                        } else {
                            assert(entry_ids(es)[ids.len() as int] == x);
                        }
                    }
                }
            },
        }
    }

    /// A record with the same log and the same runs and ids in each entry as
    /// a well-formed one is well-formed.
    proof fn lemma_same_runs(a: Metrics, b: Metrics)
        requires
            a.wf(),
            b.phases() == a.phases(),
            b.entries().len() == a.entries().len(),
            forall|k: int|
                0 <= k < a.entries().len() ==> (#[trigger] b.entries()[k]).pipeline_id == a.entries()[k].pipeline_id
                    && b.entries()[k].phase_metrics == a.entries()[k].phase_metrics,
        ensures
            b.wf(),
            entry_ids(b.entries()) == entry_ids(a.entries()),
    {
        assert(entry_ids(b.entries()) =~= entry_ids(a.entries()));
        assert forall|k: int| 0 <= k < b.entries().len() implies (#[trigger] b.entries()[k]).phase_metrics == phases_of(
            b.phases(),
            b.entries()[k].pipeline_id,
        ) by {
            assert(a.entries()[k].phase_metrics == phases_of(a.phases(), a.entries()[k].pipeline_id));
        }
        assert forall|j: int| 0 <= j < b.phases().len() implies key_index(
            entry_ids(b.entries()),
            (#[trigger] b.phases()[j]).pipeline_id@,
        ) is Some by {
            assert(key_index(entry_ids(a.entries()), a.phases()[j].pipeline_id@) is Some);
        }
    }

    /// Keep `results` as the scenario results of pipeline `pipeline_id`,
    /// replacing those kept before. Nothing changes for a pipeline that has
    /// no entry.
    pub fn record_scenarios(&mut self, pipeline_id: &str, results: Vec<ScenarioResult>)
        requires
            old(self).wf(),
        ensures
            final(self).wf(),
            final(self).phases() == old(self).phases(),
            final(self).entries() == entries_with(
                old(self).entries(),
                pipeline_id@,
                (|e: PipelineMetricsView| PipelineMetricsView { scenario_results: results@, ..e }),
            ),
    {
        match self.find(pipeline_id) {
            Some(i) => {
                self.pipeline_metrics[i].scenario_results = results;
                proof {
                    Self::lemma_same_runs(*old(self), *self);
                    assert(self.entries() =~= entries_with(
                        old(self).entries(),
                        pipeline_id@,
                        (|e: PipelineMetricsView| PipelineMetricsView { scenario_results: results@, ..e }),
                    ));
                }
            },
            None => {},
        }
    }

    /// Set the iteration count of pipeline `pipeline_id`. Nothing changes for
    /// a pipeline that has no entry.
    pub fn record_iteration(&mut self, pipeline_id: &str, count: u32)
        requires
            old(self).wf(),
        ensures
            final(self).wf(),
            final(self).phases() == old(self).phases(),
            final(self).entries() == entries_with(
                old(self).entries(),
                pipeline_id@,
                (|e: PipelineMetricsView| PipelineMetricsView { iteration_count: count, ..e }),
            ),
    {
        match self.find(pipeline_id) {
            Some(i) => {
                self.pipeline_metrics[i].iteration_count = count;
                proof {
                    Self::lemma_same_runs(*old(self), *self);
                    assert(self.entries() =~= entries_with(
                        old(self).entries(),
                        pipeline_id@,
                        (|e: PipelineMetricsView| PipelineMetricsView { iteration_count: count, ..e }),
                    ));
                }
            },
            None => {},
        }
    }

    /// Set the state pipeline `pipeline_id` finished in. Nothing changes for
    /// a pipeline that has no entry.
    pub fn mark_complete(&mut self, pipeline_id: &str, final_state: &str)
        requires
            old(self).wf(),
        ensures
            final(self).wf(),
            final(self).phases() == old(self).phases(),
            final(self).entries() == entries_with(
                old(self).entries(),
                pipeline_id@,
                (|e: PipelineMetricsView| PipelineMetricsView { final_state: final_state@, ..e }),
            ),
    {
        match self.find(pipeline_id) {
            Some(i) => {
                self.pipeline_metrics[i].final_state = String::from_str(final_state);
                proof {
                    Self::lemma_same_runs(*old(self), *self);
                    assert(self.entries() =~= entries_with(
                        old(self).entries(),
                        pipeline_id@,
                        (|e: PipelineMetricsView| PipelineMetricsView { final_state: final_state@, ..e }),
                    ));
                }
            },
            None => {},
        }
    }

    /// The entry of pipeline `pipeline_id`, if it has one.
    pub fn get_pipeline_metrics(&self, pipeline_id: &str) -> (r: Option<&PipelineMetrics>)
        requires
            self.wf(),
        ensures
            self.entry_index(pipeline_id@) matches Some(i) ==> r matches Some(p) && p@ == self.entries()[i],
            self.entry_index(pipeline_id@) is None ==> r is None,
    {
        match self.find(pipeline_id) {
            Some(i) => Some(&self.pipeline_metrics[i]),
            None => None,
        }
    }

    /// Every recorded run, in the order recorded.
    pub fn get_phase_metrics(&self) -> (r: &im::Vector<PhaseMetrics>)
        ensures
            log_runs(*r) == self.phases(),
    {
        &self.phase_metrics
    }

    /// The entries, in the order their pipelines were first seen.
    pub fn pipeline_metrics(&self) -> (r: &Vec<PipelineMetrics>)
        ensures
            r@.len() == self.entries().len(),
            forall|i: int| 0 <= i < r@.len() ==> (#[trigger] r@[i])@ == self.entries()[i],
    {
        &self.pipeline_metrics
    }

    /// The runs of pipeline `pipeline_id`, in the order recorded.
    pub fn get_for_pipeline(&self, pipeline_id: &str) -> (r: Vec<&PhaseMetrics>)
        ensures
            r@.len() == phases_of(self.phases(), pipeline_id@).len(),
            forall|i: int| 0 <= i < r@.len() ==> *r@[i] == phases_of(self.phases(), pipeline_id@)[i],
    {
        let target = String::from_str(pipeline_id);
        let ghost runs = self.phases();
        let n = run_count(&self.phase_metrics);
        let mut out: Vec<&PhaseMetrics> = Vec::new();
        let mut i: usize = 0;
        while i < n
            invariant
                n == runs.len(),
                runs == self.phases(),
                i <= n,
                target@ == pipeline_id@,
                out@.len() == phases_of(runs.subrange(0, i as int), pipeline_id@).len(),
                forall|j: int|
                    0 <= j < out@.len() ==> *out@[j] == phases_of(runs.subrange(0, i as int), pipeline_id@)[j],
            decreases n - i,
        {
            assert(runs.subrange(0, i as int + 1).drop_last() =~= runs.subrange(0, i as int));
            match run_at(&self.phase_metrics, i) {
                Some(m) => {
                    if m.pipeline_id == target {
                        out.push(m);
                    }
                },
                None => {},
            }
            i = i + 1;
        }
        assert(runs.subrange(0, i as int) =~= runs);
        out
    }

    /// The counts behind the aggregated metrics: the number of pipelines,
    /// of those that finished "accepted", "failed" and "escalated" (each
    /// capped at `u32::MAX`), and their iterations added up (capped at
    /// `u64::MAX`).
    pub fn aggregated_counts(&self) -> (r: PipelineCounts)
        ensures
            r.total_pipelines == capped_u32(self.entries().len()),
            r.successful_pipelines == capped_u32(count_finished(self.entries(), "accepted"@)),
            r.failed_pipelines == capped_u32(count_finished(self.entries(), "failed"@)),
            r.escalated_pipelines == capped_u32(count_finished(self.entries(), "escalated"@)),
            r.total_iterations == capped_u64(iterations_total(self.entries())),
    {
        let accepted = String::from_str("accepted");
        let failed = String::from_str("failed");
        let escalated = String::from_str("escalated");
        let ghost es = self.entries();
        let len = self.pipeline_metrics.len();
        let mut n_accepted: usize = 0;
        let mut n_failed: usize = 0;
        let mut n_escalated: usize = 0;
        let mut iterations: u64 = 0;
        let mut i: usize = 0;
        while i < len
            invariant
                es == self.entries(),
                len == es.len(),
                i <= len,
                accepted@ == "accepted"@,
                failed@ == "failed"@,
                escalated@ == "escalated"@,
                n_accepted == count_finished(es.subrange(0, i as int), "accepted"@),
                n_failed == count_finished(es.subrange(0, i as int), "failed"@),
                n_escalated == count_finished(es.subrange(0, i as int), "escalated"@),
                n_accepted <= i,
                n_failed <= i,
                n_escalated <= i,
                iterations == capped_u64(iterations_total(es.subrange(0, i as int))),
            decreases len - i,
        {
            assert(es.subrange(0, i as int + 1).drop_last() =~= es.subrange(0, i as int));
            assert(es.subrange(0, i as int + 1).last() == self.pipeline_metrics@[i as int]@);
            let p = &self.pipeline_metrics[i];
            if p.final_state == accepted {
                n_accepted = n_accepted + 1;
            }
            if p.final_state == failed {
                n_failed = n_failed + 1;
            }
            if p.final_state == escalated {
                n_escalated = n_escalated + 1;
            }
            let n = p.iteration_count as u64;
            if iterations > u64::MAX - n {
                iterations = u64::MAX;
            } else {
                iterations = iterations + n;
            }
            i = i + 1;
        }
        assert(es.subrange(0, len as int) =~= es);
        PipelineCounts {
            total_pipelines: cap_u32(len),
            successful_pipelines: cap_u32(n_accepted),
            failed_pipelines: cap_u32(n_failed),
            escalated_pipelines: cap_u32(n_escalated),
            total_iterations: iterations,
        }
    }

    /// The number of passed scenarios and of all scenarios over every
    /// entry, each capped at `u64::MAX`.
    pub fn scenario_counts(&self) -> (r: ScenarioCounts)
        ensures
            r.passed == capped_u64(scenarios_passed(self.entries())),
            r.total == capped_u64(scenarios_total(self.entries())),
    {
        let ghost es = self.entries();
        let len = self.pipeline_metrics.len();
        let mut passed: u64 = 0;
        let mut total: u64 = 0;
        let mut i: usize = 0;
        while i < len
            invariant
                es == self.entries(),
                len == es.len(),
                i <= len,
                passed == capped_u64(scenarios_passed(es.subrange(0, i as int))),
                total == capped_u64(scenarios_total(es.subrange(0, i as int))),
            decreases len - i,
        {
            assert(es.subrange(0, i as int + 1).drop_last() =~= es.subrange(0, i as int));
            assert(es.subrange(0, i as int + 1).last() == self.pipeline_metrics@[i as int]@);
            let results = &self.pipeline_metrics[i].scenario_results;
            let p = count_passed(results.as_slice()) as u64;
            let n = results.len() as u64;
            if passed > u64::MAX - p {
                passed = u64::MAX;
            } else {
                passed = passed + p;
            }
            if total > u64::MAX - n {
                total = u64::MAX;
            } else {
                total = total + n;
            }
            i = i + 1;
        }
        assert(es.subrange(0, len as int) =~= es);
        ScenarioCounts { passed, total }
    }

    /// For each phase that has runs, in the order its first run was
    /// recorded: its name, how many runs it had and their durations added up.
    pub fn phase_totals(&self) -> (r: Vec<PhaseTotal>)
        ensures
            r@.len() == phase_names(self.phases()).len(),
            forall|k: int|
                0 <= k < r@.len() ==> (#[trigger] r@[k]).phase@ == phase_names(self.phases())[k]
                    && r@[k].runs == runs_named(self.phases(), r@[k].phase@).len()
                    && r@[k].total_ms == total_duration(runs_named(self.phases(), r@[k].phase@)),
    {
        let ghost runs = self.phases();
        let n = run_count(&self.phase_metrics);
        let mut out: Vec<PhaseTotal> = Vec::new();
        let mut i: usize = 0;
        while i < n
            invariant
                n == runs.len(),
                runs == self.phases(),
                i <= n,
                totals_match(out@, runs.subrange(0, i as int)),
                forall|k: int|
                    0 <= k < out@.len() ==> (#[trigger] out@[k]).runs <= i && -(out@[k].runs as int)
                        * 0x8000_0000_0000_0000 <= out@[k].total_ms <= (out@[k].runs as int)
                        * 0x7fff_ffff_ffff_ffff,
            decreases n - i,
        {
            let ghost p = runs.subrange(0, i as int);
            let ghost p2 = runs.subrange(0, i as int + 1);
            let m = match run_at(&self.phase_metrics, i) {
                Some(m) => m,
                None => {
                    assert(false);
                    return out;
                },
            };
            assert(p2 =~= p.push(*m));
            proof {
                lemma_phase_names_push(p, *m);
                lemma_phase_names_distinct(p);
            }
            let mut k: usize = 0;
            let mut found = false;
            while !found && k < out.len()
                invariant
                    k <= out@.len(),
                    totals_match(out@, p),
                    !found ==> forall|j: int| 0 <= j < k ==> out@[j].phase@ != m.phase@,
                    found ==> k < out@.len() && out@[k as int].phase@ == m.phase@,
                decreases out@.len() - k + (if found { 0int } else { 1int }),
            {
                if out[k].phase == m.phase {
                    found = true;
                } else {
                    k = k + 1;
                }
            }
            proof {
                lemma_totals_push(out@, p, *m, found, k as int);
            }
            if found {
                let old_runs = out[k].runs;
                let old_total = out[k].total_ms;
                assert(-(old_runs as int) * 0x8000_0000_0000_0000 - 0x8000_0000_0000_0000 == -((old_runs
                    + 1) as int) * 0x8000_0000_0000_0000) by (nonlinear_arith);
                assert((old_runs as int) * 0x7fff_ffff_ffff_ffff + 0x7fff_ffff_ffff_ffff == ((old_runs
                    + 1) as int) * 0x7fff_ffff_ffff_ffff) by (nonlinear_arith);
                assert(((old_runs + 1) as int) * 0x7fff_ffff_ffff_ffff <= 0x1_0000_0000_0000_0000
                    * 0x7fff_ffff_ffff_ffff) by (nonlinear_arith)
                    requires
                        old_runs + 1 <= 0x1_0000_0000_0000_0000,
                ;
                assert(((old_runs + 1) as int) * 0x8000_0000_0000_0000 <= 0x1_0000_0000_0000_0000
                    * 0x8000_0000_0000_0000) by (nonlinear_arith)
                    requires
                        old_runs + 1 <= 0x1_0000_0000_0000_0000,
                ;
                let entry = PhaseTotal {
                    phase: m.phase.clone(),
                    total_ms: old_total + m.duration_ms as i128,
                    runs: old_runs + 1,
                };
                out.set(k, entry);
            } else {
                out.push(PhaseTotal { phase: m.phase.clone(), total_ms: m.duration_ms as i128, runs: 1 });
            }
            i = i + 1;
        }
        assert(runs.subrange(0, i as int) =~= runs);
        out
    }

    /// Forget every run and every entry.
    pub fn clear(&mut self)
        ensures
            final(self).wf(),
            final(self).phases().len() == 0,
            final(self).entries().len() == 0,
    {
        clear_runs(&mut self.phase_metrics);
        self.pipeline_metrics.clear();
        assert(entry_ids(self.entries()) =~= Seq::<Seq<char>>::empty());
    }
}

impl Default for Metrics {
    fn default() -> (r: Self)
        ensures
            r.wf(),
            r.phases().len() == 0,
            r.entries().len() == 0,
    {
        Metrics::new()
    }
}

/// `n` as a `u32`, or `u32::MAX` when it is larger.
fn cap_u32(n: usize) -> (r: u32)
    ensures
        r == capped_u32(n as nat),
{
    if n > 4_294_967_295usize {
        u32::MAX
    } else {
        n as u32
    }
}

/// A pipeline's own runs are exactly its runs in the log, in the order they
/// were recorded; a pipeline without an entry has no runs in the log.
pub proof fn lemma_runs_agree(m: Metrics, id: Seq<char>)
    requires
        m.wf(),
    ensures
        m.entry_index(id) matches Some(i) ==> m.entries()[i].phase_metrics == phases_of(m.phases(), id),
        m.entry_index(id) is None ==> phases_of(m.phases(), id) == Seq::<PhaseMetrics>::empty(),
{
    let ids = entry_ids(m.entries());
    match m.entry_index(id) {
        Some(i) => {
            assert(ids[i] == id);
            assert(m.entries()[i].phase_metrics == phases_of(m.phases(), m.entries()[i].pipeline_id));
        },
        None => {
            assert forall|j: int| 0 <= j < m.phases().len() implies (#[trigger] m.phases()[j]).pipeline_id@ != id by {
                assert(key_index(ids, m.phases()[j].pipeline_id@) is Some);
            }
            lemma_phases_of_absent(m.phases(), id);
        },
    }
}

/// No pipeline is counted under two final states: those that finished
/// "accepted", "failed" and "escalated" together are at most all pipelines.
pub proof fn lemma_outcomes_disjoint(es: Seq<PipelineMetricsView>)
    ensures
        count_finished(es, "accepted"@) + count_finished(es, "failed"@) + count_finished(es, "escalated"@) <= es.len(),
    decreases es.len(),
{
    reveal_strlit("accepted");
    reveal_strlit("failed");
    reveal_strlit("escalated");
    assert("accepted"@ != "failed"@ && "accepted"@ != "escalated"@ && "failed"@ != "escalated"@) by {
        assert("accepted"@[0] != "failed"@[0]);
        assert("accepted"@[0] != "escalated"@[0]);
        assert("failed"@[0] != "escalated"@[0]);
    }
    if es.len() > 0 {
        lemma_outcomes_disjoint(es.drop_last());
    }
}

/// Recording a run of pipeline `id` adds it to the runs of `id` and leaves
/// those of every other pipeline as they were.
proof fn lemma_phases_of_push(s: Seq<PhaseMetrics>, m: PhaseMetrics, id: Seq<char>)
    ensures
        phases_of(s.push(m), id) == (if m.pipeline_id@ == id {
            phases_of(s, id).push(m)
        } else {
            phases_of(s, id)
        }),
{
    assert(s.push(m).drop_last() =~= s);
}

/// `totals` holds, for each phase name of `s` in order, that name, the
/// number of its runs and their durations added up.
pub open spec fn totals_match(totals: Seq<PhaseTotal>, s: Seq<PhaseMetrics>) -> bool {
    &&& totals.len() == phase_names(s).len()
    &&& forall|k: int|
        0 <= k < totals.len() ==> (#[trigger] totals[k]).phase@ == phase_names(s)[k] && totals[k].runs
            == runs_named(s, totals[k].phase@).len() && totals[k].total_ms == total_duration(
            runs_named(s, totals[k].phase@),
        )
}

/// Adding a run adds its name unless the name was seen already.
proof fn lemma_phase_names_push(s: Seq<PhaseMetrics>, m: PhaseMetrics)
    ensures
        phase_names(s.push(m)) == (if phase_names(s).contains(m.phase@) {
            phase_names(s)
        } else {
            phase_names(s).push(m.phase@)
        }),
        forall|name: Seq<char>|
            #[trigger] runs_named(s.push(m), name) == (if m.phase@ == name {
                runs_named(s, name).push(m)
            } else {
                runs_named(s, name)
            }),
{
    assert(s.push(m).drop_last() =~= s);
}

/// No phase name is listed twice, and a name that is not listed has no runs.
proof fn lemma_phase_names_distinct(s: Seq<PhaseMetrics>)
    ensures
        forall|a: int, b: int|
            0 <= a < b < phase_names(s).len() ==> phase_names(s)[a] != phase_names(s)[b],
        forall|name: Seq<char>|
            !phase_names(s).contains(name) ==> #[trigger] runs_named(s, name) == Seq::<PhaseMetrics>::empty(),
    decreases s.len(),
{
    if s.len() > 0 {
        let d = s.drop_last();
        let x = s.last().phase@;
        let rest = phase_names(d);
        lemma_phase_names_distinct(d);
        if rest.contains(x) {
            assert forall|name: Seq<char>| !phase_names(s).contains(name) implies #[trigger] runs_named(s, name)
                == Seq::<PhaseMetrics>::empty() by {
                assert(runs_named(d, name) == Seq::<PhaseMetrics>::empty());
                if name == x {
                    assert(phase_names(s).contains(name));
                }
            }
        } else {
            let names = rest.push(x);
            assert(phase_names(s) == names);
            assert forall|a: int, b: int| 0 <= a < b < names.len() implies names[a] != names[b] by {
                if b == rest.len() {
                    assert(names[a] == rest[a]);
                    if names[a] == x {
                        assert(rest.contains(x));
                    }
                } else {
                    assert(names[a] == rest[a] && names[b] == rest[b]);
                }
            }
            assert forall|name: Seq<char>| !names.contains(name) implies #[trigger] runs_named(s, name)
                == Seq::<PhaseMetrics>::empty() by {
                assert(names[rest.len() as int] == x);
                if rest.contains(name) {
                    let w = choose|w: int| 0 <= w < rest.len() && rest[w] == name;
                    assert(names[w] == name);
                }
                assert(runs_named(d, name) == Seq::<PhaseMetrics>::empty());
            }
        }
    }
}

/// One more run, added to the totals as the loop of `phase_totals` does.
proof fn lemma_totals_push(totals: Seq<PhaseTotal>, s: Seq<PhaseMetrics>, m: PhaseMetrics, found: bool, k: int)
    requires
        totals_match(totals, s),
        forall|a: int, b: int|
            0 <= a < b < phase_names(s).len() ==> phase_names(s)[a] != phase_names(s)[b],
        forall|name: Seq<char>|
            !phase_names(s).contains(name) ==> #[trigger] runs_named(s, name) == Seq::<PhaseMetrics>::empty(),
        found ==> 0 <= k < totals.len() && totals[k].phase@ == m.phase@,
        !found ==> forall|j: int| 0 <= j < totals.len() ==> totals[j].phase@ != m.phase@,
    ensures
        found ==> phase_names(s).contains(m.phase@) && forall|t: PhaseTotal|
            t.phase@ == m.phase@ && t.runs == totals[k].runs + 1 && t.total_ms == totals[k].total_ms
                + m.duration_ms ==> totals_match(totals.update(k, t), s.push(m)),
        !found ==> !phase_names(s).contains(m.phase@) && forall|t: PhaseTotal|
            t.phase@ == m.phase@ && t.runs == 1 && t.total_ms == m.duration_ms ==> totals_match(
                totals.push(t),
                s.push(m),
            ),
{
    lemma_phase_names_push(s, m);
    let names = phase_names(s);
    let s2 = s.push(m);
    if found {
        assert(names[k] == m.phase@);
        assert forall|t: PhaseTotal|
            t.phase@ == m.phase@ && t.runs == totals[k].runs + 1 && t.total_ms == totals[k].total_ms
                + m.duration_ms implies totals_match(totals.update(k, t), s2) by {
            let u = totals.update(k, t);
            assert forall|j: int| 0 <= j < u.len() implies (#[trigger] u[j]).phase@ == phase_names(s2)[j]
                && u[j].runs == runs_named(s2, u[j].phase@).len() && u[j].total_ms == total_duration(
                runs_named(s2, u[j].phase@),
            ) by {
                if j == k {
                    assert(runs_named(s2, m.phase@) == runs_named(s, m.phase@).push(m));
                    assert(runs_named(s, m.phase@).push(m).drop_last() =~= runs_named(s, m.phase@));
                } else {
                    assert(names[j] != names[k]);
                    assert(runs_named(s2, u[j].phase@) == runs_named(s, u[j].phase@));
                }
            }
        }
    } else {
        assert forall|j: int| 0 <= j < names.len() implies names[j] != m.phase@ by {
            assert(totals[j].phase@ == names[j]);
        }
        assert(!names.contains(m.phase@));
        assert forall|t: PhaseTotal|
            t.phase@ == m.phase@ && t.runs == 1 && t.total_ms == m.duration_ms implies totals_match(
            totals.push(t),
            s2,
        ) by {
            let u = totals.push(t);
            assert forall|j: int| 0 <= j < u.len() implies (#[trigger] u[j]).phase@ == phase_names(s2)[j]
                && u[j].runs == runs_named(s2, u[j].phase@).len() && u[j].total_ms == total_duration(
                runs_named(s2, u[j].phase@),
            ) by {
                assert(phase_names(s2) == names.push(m.phase@));
                if j == totals.len() {
                    assert(u[j] == t);
                    assert(runs_named(s, m.phase@) == Seq::<PhaseMetrics>::empty());
                    assert(runs_named(s2, m.phase@) == Seq::<PhaseMetrics>::empty().push(m));
                    assert(Seq::<PhaseMetrics>::empty().push(m).drop_last() =~= Seq::<PhaseMetrics>::empty());
                    assert(total_duration(Seq::<PhaseMetrics>::empty().push(m)) == m.duration_ms) by {
                        reveal_with_fuel(total_duration, 2);
                    }
                } else {
                    assert(u[j] == totals[j]);
                    assert(totals[j].phase@ == names[j]);
                    assert(names[j] != m.phase@);
                    assert(runs_named(s2, u[j].phase@) == runs_named(s, u[j].phase@));
                }
            }
        }
    }
}

/// A pipeline none of whose runs is among `s` has no runs there.
proof fn lemma_phases_of_absent(s: Seq<PhaseMetrics>, id: Seq<char>)
    requires
        forall|j: int| 0 <= j < s.len() ==> (#[trigger] s[j]).pipeline_id@ != id,
    ensures
        phases_of(s, id) == Seq::<PhaseMetrics>::empty(),
    decreases s.len(),
{
    if s.len() > 0 {
        lemma_phases_of_absent(s.drop_last(), id);
    }
}

} // verus!
