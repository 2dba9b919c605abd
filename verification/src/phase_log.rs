//! The log of phase runs, kept in an `im::Vector`.
//!
//! Verus does not see inside the vector; `log_runs` names the runs it holds,
//! front to back, and each function here states what one `im::Vector`
//! method does to them.
use vstd::prelude::*;

use crate::metrics::PhaseMetrics;

verus! {

/// `im::Vector`, carried as an opaque value.
#[verifier::external_type_specification]
#[verifier::external_body]
#[verifier::reject_recursive_types(A)]
pub struct ExVector<A>(im::Vector<A>);

/// The runs a log holds, front to back.
pub uninterp spec fn log_runs(v: im::Vector<PhaseMetrics>) -> Seq<PhaseMetrics>;

/// `im::Vector::new()`: a vector that holds nothing.
#[verifier::external_body]
pub(crate) fn empty_log() -> (v: im::Vector<PhaseMetrics>)
    ensures
        log_runs(v) == Seq::<PhaseMetrics>::empty(),
{
    im::Vector::new()
}

/// `im::Vector::push_back`: the run is added at the back and the runs
/// before it stay as they were.
#[verifier::external_body]
pub(crate) fn push_run(v: &mut im::Vector<PhaseMetrics>, m: PhaseMetrics)
    ensures
        log_runs(*final(v)) == log_runs(*old(v)).push(m),
{
    v.push_back(m)
}

/// `im::Vector::len`: how many runs the vector holds.
#[verifier::external_body]
pub(crate) fn run_count(v: &im::Vector<PhaseMetrics>) -> (n: usize)
    ensures
        n == log_runs(*v).len(),
{
    v.len()
}

/// `im::Vector::get`: the run at position `i`, or `None` past the end.
#[verifier::external_body]
pub(crate) fn run_at(v: &im::Vector<PhaseMetrics>, i: usize) -> (r: Option<&PhaseMetrics>)
    ensures
        i < log_runs(*v).len() ==> r == Some(&log_runs(*v)[i as int]),
        i >= log_runs(*v).len() ==> r is None,
{
    v.get(i)
}

/// `im::Vector::clear`: the vector holds nothing afterwards.
#[verifier::external_body]
pub(crate) fn clear_runs(v: &mut im::Vector<PhaseMetrics>)
    ensures
        log_runs(*final(v)) == Seq::<PhaseMetrics>::empty(),
{
    v.clear()
}

} // verus!
