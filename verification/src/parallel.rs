//! Dependency-ordered scheduling of pipeline phases.
use vstd::prelude::*;

use crate::cleanup::PhaseType;
use crate::state::PipelineState;

verus! {

/// The position of a phase in the pipeline's natural order.
pub open spec fn phase_rank(p: PhaseType) -> int {
    match p {
        PhaseType::SpecReview => 0,
        PhaseType::UniverseSetup => 1,
        PhaseType::AgentDevelopment => 2,
        PhaseType::Validation => 3,
    }
}

/// The phase that must finish before `p` can start, if any.
pub open spec fn predecessor(p: PhaseType) -> Option<PhaseType> {
    match p {
        PhaseType::SpecReview => None,
        PhaseType::UniverseSetup => Some(PhaseType::SpecReview),
        PhaseType::AgentDevelopment => Some(PhaseType::UniverseSetup),
        PhaseType::Validation => Some(PhaseType::AgentDevelopment),
    }
}

fn predecessor_of(p: PhaseType) -> (r: Option<PhaseType>)
    ensures
        r == predecessor(p),
{
    match p {
        PhaseType::SpecReview => None,
        PhaseType::UniverseSetup => Some(PhaseType::SpecReview),
        PhaseType::AgentDevelopment => Some(PhaseType::UniverseSetup),
        PhaseType::Validation => Some(PhaseType::AgentDevelopment),
    }
}

/// The name of a phase, as `Debug` prints it.
pub open spec fn phase_name(p: PhaseType) -> Seq<char> {
    match p {
        PhaseType::SpecReview => "SpecReview"@,
        PhaseType::UniverseSetup => "UniverseSetup"@,
        PhaseType::AgentDevelopment => "AgentDevelopment"@,
        PhaseType::Validation => "Validation"@,
    }
}

/// The name of a phase, as `Debug` prints it.
pub fn phase_name_str(p: PhaseType) -> (s: &'static str)
    ensures
        s@ == phase_name(p),
{
    match p {
        PhaseType::SpecReview => "SpecReview",
        PhaseType::UniverseSetup => "UniverseSetup",
        PhaseType::AgentDevelopment => "AgentDevelopment",
        PhaseType::Validation => "Validation",
    }
}

/// A set of phase types.
#[derive(Debug, Clone, Copy, PartialEq, Eq, Structural)]
pub struct PhaseSet {
    spec_review: bool,
    universe_setup: bool,
    agent_development: bool,
    validation: bool,
}

impl View for PhaseSet {
    type V = Set<PhaseType>;

    closed spec fn view(&self) -> Set<PhaseType> {
        Set::new(
            |p: PhaseType|
                match p {
                    PhaseType::SpecReview => self.spec_review,
                    PhaseType::UniverseSetup => self.universe_setup,
                    PhaseType::AgentDevelopment => self.agent_development,
                    PhaseType::Validation => self.validation,
                },
        )
    }
}

impl PhaseSet {
    pub fn new() -> (s: Self)
        ensures
            s@ == Set::<PhaseType>::empty(),
    {
        let s = PhaseSet {
            spec_review: false,
            universe_setup: false,
            agent_development: false,
            validation: false,
        };
        assert(s@ =~= Set::<PhaseType>::empty());
        s
    }

    /// Add a phase; returns whether it was absent before.
    pub fn insert(&mut self, p: PhaseType) -> (fresh: bool)
        ensures
            final(self)@ == old(self)@.insert(p),
            fresh == !old(self)@.contains(p),
    {
        let fresh = !self.contains(p);
        match p {
            PhaseType::SpecReview => self.spec_review = true,
            PhaseType::UniverseSetup => self.universe_setup = true,
            PhaseType::AgentDevelopment => self.agent_development = true,
            PhaseType::Validation => self.validation = true,
        }
        assert(self@ =~= old(self)@.insert(p));
        fresh
    }

    pub fn contains(&self, p: PhaseType) -> (r: bool)
        ensures
            r == self@.contains(p),
    {
        match p {
            PhaseType::SpecReview => self.spec_review,
            PhaseType::UniverseSetup => self.universe_setup,
            PhaseType::AgentDevelopment => self.agent_development,
            PhaseType::Validation => self.validation,
        }
    }
}

/// Scheduling status of a phase.
#[derive(Debug, Clone, Copy, PartialEq, Eq, Structural, Hash)]
pub enum PhaseStatus {
    Pending,
    Running,
    Completed,
    Failed,
}

/// Errors of dependency-ordered execution.
#[derive(Debug, Clone)]
pub enum ParallelError {
    DependencyNotMet(PhaseType),
    InvalidPhaseConfiguration(String),
    ExecutionFailed(String),
}

impl ParallelError {
    /// The message a user sees for this error.
    pub fn to_string(&self) -> (s: String)
        ensures
            s@ == match self {
                ParallelError::DependencyNotMet(p) => "Dependency not met for phase: "@ + phase_name(*p),
                ParallelError::InvalidPhaseConfiguration(m) => "Invalid phase configuration: "@ + m@,
                ParallelError::ExecutionFailed(m) => "Parallel execution failed: "@ + m@,
            },
    {
        match self {
            ParallelError::DependencyNotMet(p) => {
                let mut s = String::from_str("Dependency not met for phase: ");
                s.append(phase_name_str(*p));
                s
            },
            ParallelError::InvalidPhaseConfiguration(m) => {
                let mut s = String::from_str("Invalid phase configuration: ");
                s.append(m.as_str());
                s
            },
            ParallelError::ExecutionFailed(m) => {
                let mut s = String::from_str("Parallel execution failed: ");
                s.append(m.as_str());
                s
            },
        }
    }
}

/// A phase with the phases it depends on.
#[derive(Debug)]
pub struct PhaseNode {
    pub phase_type: PhaseType,
    pub dependencies: Vec<PhaseType>,
    pub status: PhaseStatus,
}

/// Whether a node may start: it is pending and all of its dependencies
/// have completed.
pub open spec fn node_ready(n: PhaseNode, completed: Set<PhaseType>) -> bool {
    &&& n.status == PhaseStatus::Pending
    &&& forall|k: int| 0 <= k < n.dependencies@.len() ==> completed.contains(#[trigger] n.dependencies@[k])
}

fn all_in_set(deps: &Vec<PhaseType>, completed: &PhaseSet) -> (r: bool)
    ensures
        r == forall|k: int| 0 <= k < deps@.len() ==> completed@.contains(#[trigger] deps@[k]),
{
    let mut i: usize = 0;
    while i < deps.len()
        invariant
            i <= deps@.len(),
            forall|k: int| 0 <= k < i ==> completed@.contains(#[trigger] deps@[k]),
        decreases deps@.len() - i,
    {
        if !completed.contains(deps[i]) {
            return false;
        }
        i = i + 1;
    }
    true
}

impl PhaseNode {
    pub fn new(phase_type: PhaseType) -> (n: Self)
        ensures
            n.phase_type == phase_type,
            n.dependencies@.len() == 0,
            n.status == PhaseStatus::Pending,
    {
        PhaseNode { phase_type, dependencies: Vec::new(), status: PhaseStatus::Pending }
    }

    pub fn with_dependency(self, dependency: PhaseType) -> (n: Self)
        ensures
            n.phase_type == self.phase_type,
            n.dependencies@ == self.dependencies@.push(dependency),
            n.status == self.status,
    {
        let mut n = self;
        n.dependencies.push(dependency);
        n
    }

    pub fn can_execute(&self, completed: &PhaseSet) -> (r: bool)
        ensures
            r == node_ready(*self, completed@),
    {
        match self.status {
            PhaseStatus::Pending => all_in_set(&self.dependencies, completed),
            _ => false,
        }
    }
}

/// Whether some node of the list is for phase `p`.
pub open spec fn has_node(nodes: Seq<PhaseNode>, p: PhaseType) -> bool {
    exists|i: int| 0 <= i < nodes.len() && #[trigger] nodes[i].phase_type == p
}

/// No two nodes are for the same phase.
pub open spec fn unique_phases(nodes: Seq<PhaseNode>) -> bool {
    forall|i: int, j: int|
        0 <= i < nodes.len() && 0 <= j < nodes.len() && i != j ==> #[trigger] nodes[i].phase_type
            != #[trigger] nodes[j].phase_type
}

/// The node list after adding `node`: it replaces the node for the same
/// phase, or is appended when there is none.
pub open spec fn add_node(nodes: Seq<PhaseNode>, node: PhaseNode) -> Seq<PhaseNode> {
    if has_node(nodes, node.phase_type) {
        Seq::new(
            nodes.len(),
            |i: int|
                if nodes[i].phase_type == node.phase_type {
                    node
                } else {
                    nodes[i]
                },
        )
    } else {
        nodes.push(node)
    }
}

/// The node list after setting the status of the node for `p`, if there is one.
pub open spec fn set_status(nodes: Seq<PhaseNode>, p: PhaseType, s: PhaseStatus) -> Seq<PhaseNode> {
    Seq::new(
        nodes.len(),
        |i: int|
            if nodes[i].phase_type == p {
                PhaseNode { status: s, ..nodes[i] }
            } else {
                nodes[i]
            },
    )
}

/// The phases of the ready nodes, in node order.
pub open spec fn ready_phases(nodes: Seq<PhaseNode>, completed: Set<PhaseType>) -> Seq<PhaseType>
    decreases nodes.len(),
{
    if nodes.len() == 0 {
        Seq::empty()
    } else {
        let rest = ready_phases(nodes.drop_last(), completed);
        if node_ready(nodes.last(), completed) {
            rest.push(nodes.last().phase_type)
        } else {
            rest
        }
    }
}

/// Every dependency of node `i` has a node of its own.
pub open spec fn deps_present(nodes: Seq<PhaseNode>, i: int) -> bool {
    forall|k: int|
        0 <= k < nodes[i].dependencies@.len() ==> has_node(nodes, #[trigger] nodes[i].dependencies@[k])
}

/// Each phase of `order` that has a node comes after all of that node's
/// dependencies.
pub open spec fn deps_before(nodes: Seq<PhaseNode>, order: Seq<PhaseType>) -> bool {
    forall|i: int, b: int, k: int|
        #![trigger nodes[i].dependencies@[k], order[b]]
        0 <= i < nodes.len() && 0 <= b < order.len() && order[b] == nodes[i].phase_type && 0 <= k
            < nodes[i].dependencies@.len() ==> listed_before(order, nodes[i].dependencies@[k], b)
}

/// `d` occurs in `order` before position `b`.
pub open spec fn listed_before(order: Seq<PhaseType>, d: PhaseType, b: int) -> bool {
    exists|a: int| 0 <= a < b && order[a] == d
}

/// `order` lists every phase of the graph once, each after all of its
/// dependencies.
pub open spec fn is_topological_order(nodes: Seq<PhaseNode>, order: Seq<PhaseType>) -> bool {
    &&& order.no_duplicates()
    &&& forall|p: PhaseType| order.contains(p) <==> has_node(nodes, p)
    &&& deps_before(nodes, order)
}

/// The dependencies contain no cycle: the phases can be ordered so that each
/// comes after its dependencies.
pub open spec fn acyclic(nodes: Seq<PhaseNode>) -> bool {
    exists|order: Seq<PhaseType>| is_topological_order(nodes, order)
}

/// Index of the first node with a dependency that has no node, if any.
pub open spec fn first_missing_dependency(nodes: Seq<PhaseNode>, i: int) -> bool {
    &&& 0 <= i < nodes.len()
    &&& !deps_present(nodes, i)
    &&& forall|j: int| 0 <= j < i ==> deps_present(nodes, j)
}

/// The outcome of validating a graph: the first node whose dependency is
/// missing is reported; otherwise a cycle is reported; otherwise it is valid.
pub open spec fn validation_outcome(nodes: Seq<PhaseNode>, r: Result<(), ParallelError>) -> bool {
    match r {
        Ok(()) => (forall|i: int| 0 <= i < nodes.len() ==> deps_present(nodes, i)) && acyclic(nodes),
        Err(ParallelError::DependencyNotMet(p)) => exists|i: int|
            first_missing_dependency(nodes, i) && #[trigger] nodes[i].phase_type == p,
        Err(ParallelError::InvalidPhaseConfiguration(m)) => (forall|i: int|
            0 <= i < nodes.len() ==> deps_present(nodes, i)) && !acyclic(nodes) && m@
            == "Circular dependency detected"@,
        Err(ParallelError::ExecutionFailed(_)) => false,
    }
}

/// The number of `true` entries.
pub open spec fn count_true(s: Seq<bool>) -> nat
    decreases s.len(),
{
    if s.len() == 0 {
        0
    } else {
        count_true(s.drop_last()) + if s.last() {
            1nat
        } else {
            0nat
        }
    }
}

proof fn lemma_count_true_bound(s: Seq<bool>)
    ensures
        count_true(s) <= s.len(),
        count_true(s) == s.len() <==> forall|j: int| 0 <= j < s.len() ==> #[trigger] s[j],
    decreases s.len(),
{
    if s.len() > 0 {
        lemma_count_true_bound(s.drop_last());
        if forall|j: int| 0 <= j < s.len() ==> #[trigger] s[j] {
            assert forall|j: int| 0 <= j < s.drop_last().len() implies #[trigger] s.drop_last()[j] by {
                assert(s[j]);
            }
        }
        assert forall|j: int| 0 <= j < s.len() && count_true(s) == s.len() implies #[trigger] s[j] by {
            if j < s.len() - 1 {
                assert(s.drop_last()[j] == s[j]);
            }
        }
    }
}

proof fn lemma_count_true_set(s: Seq<bool>, j: int)
    requires
        0 <= j < s.len(),
        !s[j],
    ensures
        count_true(s.update(j, true)) == count_true(s) + 1,
    decreases s.len(),
{
    if j == s.len() - 1 {
        assert(s.update(j, true).drop_last() =~= s.drop_last());
    } else {
        lemma_count_true_set(s.drop_last(), j);
        assert(s.update(j, true).drop_last() =~= s.drop_last().update(j, true));
    }
}

/// The first position of `order` holding a member of `set`, given one at `k`.
proof fn lemma_first_member(order: Seq<PhaseType>, set: Set<PhaseType>, k: int) -> (m: int)
    requires
        0 <= k < order.len(),
        set.contains(order[k]),
    ensures
        0 <= m <= k,
        set.contains(order[m]),
        forall|a: int| 0 <= a < m ==> !set.contains(#[trigger] order[a]),
    decreases k,
{
    if exists|a: int| 0 <= a < k && set.contains(#[trigger] order[a]) {
        let a = choose|a: int| 0 <= a < k && set.contains(#[trigger] order[a]);
        lemma_first_member(order, set, a)
    } else {
        k
    }
}

/// A dependency graph over pipeline phases, one node per phase.
pub struct DependencyGraph {
    nodes: Vec<PhaseNode>,
}

impl DependencyGraph {
    #[verifier::type_invariant]
    spec fn wf(self) -> bool {
        unique_phases(self.nodes@)
    }

    /// The nodes, in the order they were added.
    pub closed spec fn nodes(self) -> Seq<PhaseNode> {
        self.nodes@
    }

    pub fn new() -> (g: Self)
        ensures
            g.nodes().len() == 0,
    {
        DependencyGraph { nodes: Vec::new() }
    }

    fn position(&self, p: PhaseType) -> (r: Option<usize>)
        ensures
            r matches Some(i) ==> i < self.nodes().len() && self.nodes()[i as int].phase_type == p,
            r is None ==> !has_node(self.nodes(), p),
    {
        let mut i: usize = 0;
        while i < self.nodes.len()
            invariant
                i <= self.nodes@.len(),
                forall|j: int| 0 <= j < i ==> self.nodes@[j].phase_type != p,
            decreases self.nodes@.len() - i,
        {
            if self.nodes[i].phase_type == p {
                return Some(i);
            }
            i = i + 1;
        }
        None
    }

    /// Add a phase with its dependencies, pending; a node already present
    /// for the phase is replaced.
    pub fn add_phase(self, phase: PhaseType, dependencies: Vec<PhaseType>) -> (g: Self)
        ensures
            g.nodes() == add_node(
                self.nodes(),
                PhaseNode { phase_type: phase, dependencies, status: PhaseStatus::Pending },
            ),
    {
        proof {
            use_type_invariant(&self);
        }
        let node = PhaseNode { phase_type: phase, dependencies, status: PhaseStatus::Pending };
        let ghost new_node = node;
        let pos = self.position(phase);
        let DependencyGraph { nodes } = self;
        let mut nodes = nodes;
        let ghost old_nodes = nodes@;
        match pos {
            Some(i) => {
                nodes.remove(i);
                nodes.insert(i, node);
                proof {
                    assert forall|j: int| 0 <= j < old_nodes.len() implies (#[trigger] nodes@[j]
                        == if old_nodes[j].phase_type == phase {
                        new_node
                    } else {
                        old_nodes[j]
                    }) by {
                        if j != i {
                            assert(old_nodes[j].phase_type != old_nodes[i as int].phase_type);
                        }
                    }
                    assert(nodes@ =~= add_node(old_nodes, new_node));
                }
            },
            None => {
                nodes.push(node);
            },
        }
        DependencyGraph { nodes }
    }

    /// The phases that may start now, in the order they were added.
    pub fn get_ready_phases(&self, completed: &PhaseSet) -> (r: Vec<PhaseType>)
        ensures
            r@ == ready_phases(self.nodes(), completed@),
    {
        let mut r: Vec<PhaseType> = Vec::new();
        let mut i: usize = 0;
        while i < self.nodes.len()
            invariant
                i <= self.nodes@.len(),
                r@ == ready_phases(self.nodes@.subrange(0, i as int), completed@),
            decreases self.nodes@.len() - i,
        {
            assert(self.nodes@.subrange(0, i as int + 1).drop_last() =~= self.nodes@.subrange(
                0,
                i as int,
            ));
            if self.nodes[i].can_execute(completed) {
                r.push(self.nodes[i].phase_type);
            }
            i = i + 1;
        }
        assert(self.nodes@.subrange(0, i as int) =~= self.nodes@);
        r
    }

    fn mark(&mut self, p: PhaseType, s: PhaseStatus)
        ensures
            final(self).nodes() == set_status(old(self).nodes(), p, s),
    {
        proof {
            use_type_invariant(&*self);
        }
        let pos = self.position(p);
        match pos {
            Some(i) => {
                let ghost old_nodes = self.nodes@;
                let mut nodes: Vec<PhaseNode> = Vec::new();
                std::mem::swap(&mut nodes, &mut self.nodes);
                let mut node = nodes.remove(i);
                node.status = s;
                nodes.insert(i, node);
                proof {
                    assert forall|j: int| 0 <= j < old_nodes.len() implies #[trigger] nodes@[j]
                        == set_status(old_nodes, p, s)[j] by {
                        if j != i {
                            assert(old_nodes[j].phase_type != old_nodes[i as int].phase_type);
                        }
                    }
                    assert(nodes@ =~= set_status(old_nodes, p, s));
                }
                self.nodes = nodes;
            },
            None => {
                assert(self.nodes@ =~= set_status(self.nodes@, p, s));
            },
        }
    }

    pub fn mark_running(&mut self, p: PhaseType)
        ensures
            final(self).nodes() == set_status(old(self).nodes(), p, PhaseStatus::Running),
    {
        self.mark(p, PhaseStatus::Running)
    }

    pub fn mark_completed(&mut self, p: PhaseType)
        ensures
            final(self).nodes() == set_status(old(self).nodes(), p, PhaseStatus::Completed),
    {
        self.mark(p, PhaseStatus::Completed)
    }

    pub fn mark_failed(&mut self, p: PhaseType)
        ensures
            final(self).nodes() == set_status(old(self).nodes(), p, PhaseStatus::Failed),
    {
        self.mark(p, PhaseStatus::Failed)
    }

    /// Whether every phase has completed or failed.
    pub fn is_complete(&self) -> (r: bool)
        ensures
            r == forall|i: int|
                0 <= i < self.nodes().len() ==> (#[trigger] self.nodes()[i]).status
                    == PhaseStatus::Completed || self.nodes()[i].status == PhaseStatus::Failed,
    {
        let mut i: usize = 0;
        while i < self.nodes.len()
            invariant
                i <= self.nodes@.len(),
                forall|j: int|
                    0 <= j < i ==> (#[trigger] self.nodes@[j]).status == PhaseStatus::Completed
                        || self.nodes@[j].status == PhaseStatus::Failed,
            decreases self.nodes@.len() - i,
        {
            match self.nodes[i].status {
                PhaseStatus::Completed | PhaseStatus::Failed => {},
                _ => return false,
            }
            i = i + 1;
        }
        true
    }

    /// Whether some phase has failed.
    pub fn has_failures(&self) -> (r: bool)
        ensures
            r == exists|i: int|
                0 <= i < self.nodes().len() && (#[trigger] self.nodes()[i]).status
                    == PhaseStatus::Failed,
    {
        let mut i: usize = 0;
        while i < self.nodes.len()
            invariant
                i <= self.nodes@.len(),
                forall|j: int| 0 <= j < i ==> (#[trigger] self.nodes@[j]).status != PhaseStatus::Failed,
            decreases self.nodes@.len() - i,
        {
            if self.nodes[i].status == PhaseStatus::Failed {
                return true;
            }
            i = i + 1;
        }
        false
    }

    /// Check that every dependency is a phase of the graph and that the
    /// dependencies contain no cycle.
    pub fn validate(&self) -> (r: Result<(), ParallelError>)
        ensures
            validation_outcome(self.nodes(), r),
    {
        proof {
            use_type_invariant(self);
        }
        let n = self.nodes.len();
        // Every dependency must have a node.
        let mut i: usize = 0;
        while i < n
            invariant
                n == self.nodes@.len(),
                i <= n,
                forall|j: int| 0 <= j < i ==> deps_present(self.nodes@, j),
            decreases n - i,
        {
            let deps = &self.nodes[i].dependencies;
            let mut k: usize = 0;
            while k < deps.len()
                invariant
                    n == self.nodes@.len(),
                    i < n,
                    *deps == self.nodes@[i as int].dependencies,
                    k <= deps@.len(),
                    forall|m: int| 0 <= m < k ==> has_node(self.nodes@, #[trigger] deps@[m]),
                    forall|j: int| 0 <= j < i ==> deps_present(self.nodes@, j),
                decreases deps@.len() - k,
            {
                if self.position(deps[k]).is_none() {
                    let r = Err(ParallelError::DependencyNotMet(self.nodes[i].phase_type));
                    assert(!has_node(self.nodes@, self.nodes@[i as int].dependencies@[k as int]));
                    assert(first_missing_dependency(self.nodes@, i as int));
                    return r;
                }
                k = k + 1;
            }
            i = i + 1;
        }
        // Place phases one at a time, each after its dependencies.
        let mut done: Vec<PhaseType> = Vec::new();
        let mut placed: Vec<bool> = Vec::new();
        let mut j: usize = 0;
        while j < n
            invariant
                n == self.nodes@.len(),
                j <= n,
                placed@.len() == j,
                forall|m: int| 0 <= m < j ==> !placed@[m],
            decreases n - j,
        {
            placed.push(false);
            j = j + 1;
        }
        proof {
            assert(count_true(placed@) == 0) by {
                lemma_count_zero(placed@);
            }
            assert(done@ =~= Seq::<PhaseType>::empty());
        }
        while done.len() < n
            invariant
                n == self.nodes@.len(),
                unique_phases(self.nodes@),
                forall|j: int| 0 <= j < n ==> deps_present(self.nodes@, j),
                placed@.len() == n,
                done@.len() == count_true(placed@),
                done@.no_duplicates(),
                forall|m: int| 0 <= m < n ==> (#[trigger] placed@[m] <==> done@.contains(self.nodes@[m].phase_type)),
                forall|p: PhaseType| done@.contains(p) ==> has_node(self.nodes@, p),
                deps_before(self.nodes@, done@),
            decreases n - done@.len(),
        {
            proof {
                lemma_count_true_bound(placed@);
            }
            // Find an unplaced node whose dependencies are all placed.
            let mut found: Option<usize> = None;
            let mut m: usize = 0;
            while m < n
                invariant
                    n == self.nodes@.len(),
                    placed@.len() == n,
                    m <= n,
                    unique_phases(self.nodes@),
                    found matches Some(f) ==> f < n && !placed@[f as int] && forall|k: int|
                        0 <= k < self.nodes@[f as int].dependencies@.len() ==> done@.contains(
                            #[trigger] self.nodes@[f as int].dependencies@[k],
                        ),
                    found is None ==> forall|q: int|
                        0 <= q < m && !placed@[q] ==> exists|k: int|
                            0 <= k < self.nodes@[q].dependencies@.len() && !done@.contains(
                                #[trigger] self.nodes@[q].dependencies@[k],
                            ),
                decreases n - m,
            {
                if found.is_none() && !placed[m] {
                    let deps = &self.nodes[m].dependencies;
                    let mut all = true;
                    let mut k: usize = 0;
                    while k < deps.len()
                        invariant
                            m < n,
                            n == self.nodes@.len(),
                            *deps == self.nodes@[m as int].dependencies,
                            k <= deps@.len(),
                            all == forall|t: int| 0 <= t < k ==> done@.contains(#[trigger] deps@[t]),
                        decreases deps@.len() - k,
                    {
                        if !vec_contains(&done, deps[k]) {
                            all = false;
                        }
                        k = k + 1;
                    }
                    if all {
                        found = Some(m);
                    }
                }
                m = m + 1;
            }
            match found {
                Some(f) => {
                    let p = self.nodes[f].phase_type;
                    let ghost old_done = done@;
                    let ghost old_placed = placed@;
                    proof {
                        lemma_count_true_set(placed@, f as int);
                        assert(!old_done.contains(p));
                    }
                    done.push(p);
                    placed.set(f, true);
                    proof {
                        assert forall|q: int| 0 <= q < n implies (#[trigger] placed@[q] <==> done@.contains(
                            self.nodes@[q].phase_type,
                        )) by {
                            if q != f {
                                assert(self.nodes@[q].phase_type != p);
                                assert(done@.contains(self.nodes@[q].phase_type) ==> old_done.contains(
                                    self.nodes@[q].phase_type,
                                )) by {
                                    if done@.contains(self.nodes@[q].phase_type) {
                                        let w = done@.index_of(self.nodes@[q].phase_type);
                                        assert(w < old_done.len());
                                        assert(old_done[w] == self.nodes@[q].phase_type);
                                    }
                                }
                                assert(old_done.contains(self.nodes@[q].phase_type) ==> done@.contains(
                                    self.nodes@[q].phase_type,
                                )) by {
                                    if old_done.contains(self.nodes@[q].phase_type) {
                                        let w = old_done.index_of(self.nodes@[q].phase_type);
                                        assert(done@[w] == self.nodes@[q].phase_type);
                                    }
                                }
                            } else {
                                assert(done@[done@.len() - 1] == p);
                            }
                        }
                        assert forall|x: PhaseType| done@.contains(x) implies has_node(self.nodes@, x) by {
                            let w = choose|w: int| 0 <= w < done@.len() && done@[w] == x;
                            if w < old_done.len() {
                                assert(old_done[w] == x);
                                assert(old_done.contains(x));
                            } else {
                                assert(self.nodes@[f as int].phase_type == x);
                            }
                        }
                        lemma_push_keeps_deps_before(self.nodes@, old_done, f as int);
                        assert(deps_before(self.nodes@, done@));
                    }
                },
                None => {
                    proof {
                        lemma_stuck_means_cycle(self.nodes@, placed@, done@);
                    }
                    return Err(ParallelError::InvalidPhaseConfiguration(
                        String::from_str("Circular dependency detected"),
                    ));
                },
            }
        }
        proof {
            assert forall|p: PhaseType| has_node(self.nodes@, p) implies done@.contains(p) by {
                {
                    let m = choose|m: int| 0 <= m < n && #[trigger] self.nodes@[m].phase_type == p;
                    lemma_count_true_bound(placed@);
                    assert(placed@[m]);
                }
            }
            assert(is_topological_order(self.nodes@, done@));
        }
        Ok(())
    }
}

/// Appending a node whose dependencies are all listed keeps every listed
/// phase after its dependencies.
proof fn lemma_push_keeps_deps_before(nodes: Seq<PhaseNode>, order: Seq<PhaseType>, f: int)
    requires
        unique_phases(nodes),
        0 <= f < nodes.len(),
        deps_before(nodes, order),
        !order.contains(nodes[f].phase_type),
        forall|k: int|
            0 <= k < nodes[f].dependencies@.len() ==> order.contains(#[trigger] nodes[f].dependencies@[k]),
    ensures
        deps_before(nodes, order.push(nodes[f].phase_type)),
{
    let p = nodes[f].phase_type;
    let o2 = order.push(p);
    assert forall|i: int, b: int, k: int|
        #![trigger nodes[i].dependencies@[k], o2[b]]
        0 <= i < nodes.len() && 0 <= b < o2.len() && o2[b] == nodes[i].phase_type && 0 <= k
            < nodes[i].dependencies@.len() implies listed_before(o2, nodes[i].dependencies@[k], b) by {
        if b < order.len() {
            assert(order[b] == nodes[i].phase_type);
            assert(listed_before(order, nodes[i].dependencies@[k], b));
            let a = choose|a: int| 0 <= a < b && order[a] == nodes[i].dependencies@[k];
            assert(o2[a] == order[a]);
        } else {
            if i != f {
                assert(nodes[i].phase_type != nodes[f].phase_type);
            }
            let d = nodes[i].dependencies@[k];
            assert(order.contains(d));
            let a = choose|a: int| 0 <= a < order.len() && order[a] == d;
            assert(o2[a] == d);
        }
    }
}

proof fn lemma_count_zero(s: Seq<bool>)
    requires
        forall|m: int| 0 <= m < s.len() ==> !s[m],
    ensures
        count_true(s) == 0,
    decreases s.len(),
{
    if s.len() > 0 {
        lemma_count_zero(s.drop_last());
    }
}

/// When no unplaced node has all its dependencies placed, yet some node is
/// unplaced, the dependencies contain a cycle.
proof fn lemma_stuck_means_cycle(nodes: Seq<PhaseNode>, placed: Seq<bool>, done: Seq<PhaseType>)
    requires
        unique_phases(nodes),
        forall|j: int| 0 <= j < nodes.len() ==> deps_present(nodes, j),
        placed.len() == nodes.len(),
        done.len() == count_true(placed),
        done.len() < nodes.len(),
        forall|m: int| 0 <= m < nodes.len() ==> (#[trigger] placed[m] <==> done.contains(nodes[m].phase_type)),
        forall|q: int|
            0 <= q < nodes.len() && !placed[q] ==> exists|k: int|
                0 <= k < nodes[q].dependencies@.len() && !done.contains(
                    #[trigger] nodes[q].dependencies@[k],
                ),
    ensures
        !acyclic(nodes),
{
    lemma_count_true_bound(placed);
    let q0 = choose|q: int| 0 <= q < placed.len() && !placed[q];
    let unplaced = Set::new(|p: PhaseType| has_node(nodes, p) && !done.contains(p));
    if acyclic(nodes) {
        let order = choose|order: Seq<PhaseType>| is_topological_order(nodes, order);
        assert(has_node(nodes, nodes[q0].phase_type));
        assert(order.contains(nodes[q0].phase_type));
        let k0 = order.index_of(nodes[q0].phase_type);
        assert(unplaced.contains(order[k0]));
        let b = lemma_first_member(order, unplaced, k0);
        // The node at position b is unplaced, so one of its dependencies is unplaced too.
        let i = choose|i: int| 0 <= i < nodes.len() && #[trigger] nodes[i].phase_type == order[b];
        assert(!placed[i]);
        let k = choose|k: int|
            0 <= k < nodes[i].dependencies@.len() && !done.contains(#[trigger] nodes[i].dependencies@[k]);
        let d = nodes[i].dependencies@[k];
        assert(has_node(nodes, d));
        assert(listed_before(order, d, b));
        let a = choose|a: int| 0 <= a < b && order[a] == d;
        assert(unplaced.contains(order[a]));
    }
}

fn vec_contains(v: &Vec<PhaseType>, p: PhaseType) -> (r: bool)
    ensures
        r == v@.contains(p),
{
    let mut i: usize = 0;
    while i < v.len()
        invariant
            i <= v@.len(),
            forall|j: int| 0 <= j < i ==> v@[j] != p,
        decreases v@.len() - i,
    {
        if v[i] == p {
            return true;
        }
        i = i + 1;
    }
    false
}

impl Default for DependencyGraph {
    fn default() -> (g: Self)
        ensures
            g.nodes().len() == 0,
    {
        Self::new()
    }
}

/// A group of phases that may run side by side.
#[derive(Debug)]
pub struct PhaseGroup {
    pub phases: Vec<PhaseType>,
    pub max_parallelism: usize,
}

impl PhaseGroup {
    /// A group whose parallelism is the number of its phases.
    pub fn new(phases: Vec<PhaseType>) -> (g: Self)
        ensures
            g.phases == phases,
            g.max_parallelism == phases@.len(),
    {
        let n = phases.len();
        PhaseGroup { phases, max_parallelism: n }
    }

    pub fn with_max_parallelism(self, max: usize) -> (g: Self)
        ensures
            g.phases == self.phases,
            g.max_parallelism == max,
    {
        PhaseGroup { phases: self.phases, max_parallelism: max }
    }
}

/// The phase that runs next from a pipeline state, if any.
pub open spec fn next_phase(state: PipelineState) -> Option<PhaseType> {
    match state {
        PipelineState::Pending => Some(PhaseType::SpecReview),
        PipelineState::SpecReview => Some(PhaseType::UniverseSetup),
        PipelineState::UniverseSetup => Some(PhaseType::AgentDevelopment),
        PipelineState::AgentDevelopment => Some(PhaseType::AgentDevelopment),
        PipelineState::Validation => Some(PhaseType::Validation),
        _ => None,
    }
}

/// The dependencies that `build_dependency_graph` gives phase `p` among
/// `phases`: its predecessor, when that is one of the phases.
pub open spec fn built_deps(p: PhaseType, phases: Seq<PhaseType>) -> Seq<PhaseType> {
    match predecessor(p) {
        Some(q) => if phases.contains(q) {
            seq![q]
        } else {
            Seq::empty()
        },
        None => Seq::empty(),
    }
}

/// The phases of `s` in order of their first occurrence.
pub open spec fn first_occurrences(s: Seq<PhaseType>) -> Seq<PhaseType>
    decreases s.len(),
{
    if s.len() == 0 {
        Seq::empty()
    } else {
        let rest = first_occurrences(s.drop_last());
        if s.drop_last().contains(s.last()) {
            rest
        } else {
            rest.push(s.last())
        }
    }
}

/// Phase `phases[i]` must run after a phase that comes later in the list.
pub open spec fn order_violation(phases: Seq<PhaseType>, i: int) -> bool {
    &&& 0 <= i < phases.len()
    &&& predecessor(phases[i]) is Some
    &&& exists|j: int| i < j < phases.len() && Some(#[trigger] phases[j]) == predecessor(phases[i])
}

/// Plans and checks dependency-ordered execution of phases.
pub struct ParallelExecutor;

impl ParallelExecutor {
    /// The groups of phases to run from a pipeline state: the single next
    /// phase, or nothing in a terminal state.
    pub fn resolve_parallel_phases(state: &PipelineState) -> (r: Vec<PhaseGroup>)
        ensures
            next_phase(*state) is None ==> r@.len() == 0,
            next_phase(*state) matches Some(p) ==> r@.len() == 1 && r@[0].phases@ == seq![p]
                && r@[0].max_parallelism == 1,
    {
        let next = match state {
            PipelineState::Pending => Some(PhaseType::SpecReview),
            PipelineState::SpecReview => Some(PhaseType::UniverseSetup),
            PipelineState::UniverseSetup => Some(PhaseType::AgentDevelopment),
            PipelineState::AgentDevelopment => Some(PhaseType::AgentDevelopment),
            PipelineState::Validation => Some(PhaseType::Validation),
            _ => None,
        };
        let mut groups: Vec<PhaseGroup> = Vec::new();
        if let Some(p) = next {
            let mut phases: Vec<PhaseType> = Vec::new();
            phases.push(p);
            groups.push(PhaseGroup::new(phases));
        }
        groups
    }

    /// A graph with one pending node per listed phase, each depending on its
    /// predecessor when that is listed too. Such a graph always validates.
    pub fn build_dependency_graph(phases: &[PhaseType]) -> (r: Result<DependencyGraph, ParallelError>)
        ensures
            r is Ok,
            r matches Ok(g) ==> {
                &&& g.nodes().map_values(|n: PhaseNode| n.phase_type) == first_occurrences(phases@)
                &&& forall|i: int|
                    0 <= i < g.nodes().len() ==> (#[trigger] g.nodes()[i]).status
                        == PhaseStatus::Pending && g.nodes()[i].dependencies@ == built_deps(
                        g.nodes()[i].phase_type,
                        phases@,
                    )
            },
    {
        let mut graph = DependencyGraph::new();
        let mut i: usize = 0;
        while i < phases.len()
            invariant
                i <= phases@.len(),
                graph.nodes().map_values(|n: PhaseNode| n.phase_type) == first_occurrences(
                    phases@.subrange(0, i as int),
                ),
                forall|j: int|
                    0 <= j < graph.nodes().len() ==> (#[trigger] graph.nodes()[j]).status
                        == PhaseStatus::Pending && graph.nodes()[j].dependencies@ == built_deps(
                        graph.nodes()[j].phase_type,
                        phases@,
                    ),
            decreases phases@.len() - i,
        {
            let p = phases[i];
            let mut deps: Vec<PhaseType> = Vec::new();
            match predecessor_of(p) {
                Some(q) => {
                    if slice_contains(phases, q) {
                        deps.push(q);
                    }
                },
                None => {},
            }
            assert(deps@ =~= built_deps(p, phases@));
            let ghost before = graph.nodes();
            graph = graph.add_phase(p, deps);
            proof {
                let pre = phases@.subrange(0, i as int);
                let post = phases@.subrange(0, i as int + 1);
                assert(post.drop_last() =~= pre);
                assert(post.last() == p);
                lemma_has_node_iff_mapped(before, p);
                lemma_first_occurrences_contains(pre, p);
                if has_node(before, p) {
                    assert(graph.nodes().map_values(|n: PhaseNode| n.phase_type) =~= before.map_values(
                        |n: PhaseNode| n.phase_type,
                    ));
                } else {
                    assert(graph.nodes().map_values(|n: PhaseNode| n.phase_type) =~= before.map_values(
                        |n: PhaseNode| n.phase_type,
                    ).push(p));
                }
            }
            i = i + 1;
        }
        proof {
            assert(phases@.subrange(0, i as int) =~= phases@);
            lemma_built_graph_valid(graph.nodes(), phases@);
        }
        let checked = graph.validate();
        match checked {
            Ok(()) => Ok(graph),
            Err(e) => Err(e),
        }
    }

    /// Check that no phase is listed before the phase it depends on; the
    /// first offending phase is reported.
    pub fn validate_dependency_order(phases: &[PhaseType]) -> (r: Result<(), ParallelError>)
        ensures
            match r {
                Ok(()) => forall|i: int| 0 <= i < phases@.len() ==> !order_violation(phases@, i),
                Err(ParallelError::DependencyNotMet(p)) => exists|i: int|
                    order_violation(phases@, i) && (forall|j: int| 0 <= j < i ==> !order_violation(phases@, j))
                        && #[trigger] phases@[i] == p,
                Err(_) => false,
            },
    {
        let mut i: usize = 0;
        while i < phases.len()
            invariant
                i <= phases@.len(),
                forall|j: int| 0 <= j < i ==> !order_violation(phases@, j),
            decreases phases@.len() - i,
        {
            match predecessor_of(phases[i]) {
                Some(q) => {
                    let mut j: usize = i + 1;
                    while j < phases.len()
                        invariant
                            i < j <= phases@.len(),
                            predecessor(phases@[i as int]) == Some(q),
                            forall|t: int| 0 <= t < i ==> !order_violation(phases@, t),
                            forall|t: int| i < t < j ==> phases@[t] != q,
                        decreases phases@.len() - j,
                    {
                        if phases[j] == q {
                            let p = phases[i];
                            assert(order_violation(phases@, i as int));
                            assert(phases@[i as int] == p);
                            return Err(ParallelError::DependencyNotMet(p));
                        }
                        j = j + 1;
                    }
                },
                None => {},
            }
            i = i + 1;
        }
        Ok(())
    }
}

fn slice_contains(s: &[PhaseType], p: PhaseType) -> (r: bool)
    ensures
        r == s@.contains(p),
{
    let mut i: usize = 0;
    while i < s.len()
        invariant
            i <= s@.len(),
            forall|j: int| 0 <= j < i ==> s@[j] != p,
        decreases s@.len() - i,
    {
        if s[i] == p {
            return true;
        }
        i = i + 1;
    }
    false
}

proof fn lemma_has_node_iff_mapped(nodes: Seq<PhaseNode>, p: PhaseType)
    ensures
        has_node(nodes, p) <==> nodes.map_values(|n: PhaseNode| n.phase_type).contains(p),
{
    let m = nodes.map_values(|n: PhaseNode| n.phase_type);
    if has_node(nodes, p) {
        let i = choose|i: int| 0 <= i < nodes.len() && #[trigger] nodes[i].phase_type == p;
        assert(m[i] == p);
    }
    if m.contains(p) {
        let i = choose|i: int| 0 <= i < m.len() && m[i] == p;
        assert(nodes[i].phase_type == p);
    }
}

proof fn lemma_first_occurrences_contains(s: Seq<PhaseType>, p: PhaseType)
    ensures
        first_occurrences(s).contains(p) <==> s.contains(p),
    decreases s.len(),
{
    if s.len() > 0 {
        lemma_first_occurrences_contains(s.drop_last(), p);
        let rest = first_occurrences(s.drop_last());
        if s.contains(p) {
            let k = choose|k: int| 0 <= k < s.len() && s[k] == p;
            if k < s.len() - 1 {
                assert(s.drop_last()[k] == p);
            }
        }
        if s.drop_last().contains(p) {
            let k = choose|k: int| 0 <= k < s.drop_last().len() && s.drop_last()[k] == p;
            assert(s[k] == p);
        }
        if !s.drop_last().contains(s.last()) {
            if rest.push(s.last()).contains(p) && !rest.contains(p) {
                assert(p == s.last());
            }
            if rest.contains(p) {
                let k = choose|k: int| 0 <= k < rest.len() && rest[k] == p;
                assert(rest.push(s.last())[k] == p);
            }
            assert(rest.push(s.last())[rest.len() as int] == s.last());
        }
    }
}

/// A graph whose nodes depend only on their listed predecessors validates.
proof fn lemma_built_graph_valid(nodes: Seq<PhaseNode>, phases: Seq<PhaseType>)
    requires
        nodes.map_values(|n: PhaseNode| n.phase_type) == first_occurrences(phases),
        forall|i: int|
            0 <= i < nodes.len() ==> (#[trigger] nodes[i]).dependencies@ == built_deps(
                nodes[i].phase_type,
                phases,
            ),
    ensures
        forall|i: int| 0 <= i < nodes.len() ==> deps_present(nodes, i),
        acyclic(nodes),
{
    let present = |p: PhaseType| has_node(nodes, p);
    assert forall|p: PhaseType| has_node(nodes, p) <==> phases.contains(p) by {
        lemma_has_node_iff_mapped(nodes, p);
        lemma_first_occurrences_contains(phases, p);
    }
    assert forall|i: int| 0 <= i < nodes.len() implies deps_present(nodes, i) by {
        assert forall|k: int| 0 <= k < nodes[i].dependencies@.len() implies has_node(
            nodes,
            #[trigger] nodes[i].dependencies@[k],
        ) by {
            assert(phases.contains(nodes[i].dependencies@[k]));
        }
    }
    let o0 = Seq::<PhaseType>::empty();
    let o1 = if present(PhaseType::SpecReview) { o0.push(PhaseType::SpecReview) } else { o0 };
    let o2 = if present(PhaseType::UniverseSetup) { o1.push(PhaseType::UniverseSetup) } else { o1 };
    let o3 = if present(PhaseType::AgentDevelopment) { o2.push(PhaseType::AgentDevelopment) } else { o2 };
    let o4 = if present(PhaseType::Validation) { o3.push(PhaseType::Validation) } else { o3 };
    // Positions follow the natural order of the phases.
    assert forall|a: int, b: int| 0 <= a < o4.len() && 0 <= b < o4.len() && a != b implies phase_rank(
        #[trigger] o4[a],
    ) != phase_rank(#[trigger] o4[b]) && (a < b <==> phase_rank(o4[a]) < phase_rank(o4[b])) by {}
    assert forall|p: PhaseType| o4.contains(p) <==> has_node(nodes, p) by {
        if present(p) {
            match p {
                PhaseType::SpecReview => assert(o4[0] == p),
                PhaseType::UniverseSetup => assert(o4[o1.len() as int] == p),
                PhaseType::AgentDevelopment => assert(o4[o2.len() as int] == p),
                PhaseType::Validation => assert(o4[o3.len() as int] == p),
            }
        }
    }
    assert(deps_before(nodes, o4)) by {
        assert forall|i: int, b: int, k: int|
            #![trigger nodes[i].dependencies@[k], o4[b]]
            0 <= i < nodes.len() && 0 <= b < o4.len() && o4[b] == nodes[i].phase_type && 0 <= k
                < nodes[i].dependencies@.len() implies listed_before(o4, nodes[i].dependencies@[k], b) by {
            let d = nodes[i].dependencies@[k];
            assert(has_node(nodes, d));
            assert(o4.contains(d));
            let a = choose|a: int| 0 <= a < o4.len() && o4[a] == d;
            assert(phase_rank(d) < phase_rank(nodes[i].phase_type));
        }
    }
    assert(is_topological_order(nodes, o4));
}

/// Every phase but spec review waits for the phase ranked just before it,
/// and spec review waits for none.
pub proof fn lemma_predecessor_is_previous_phase(p: PhaseType)
    ensures
        predecessor(p) is None <==> phase_rank(p) == 0,
        predecessor(p) matches Some(q) ==> phase_rank(q) == phase_rank(p) - 1,
{
}

/// A phase that `ready_phases` lists belongs to a ready node.
proof fn lemma_ready_phase_has_ready_node(nodes: Seq<PhaseNode>, completed: Set<PhaseType>, p: PhaseType)
    requires
        ready_phases(nodes, completed).contains(p),
    ensures
        exists|i: int| 0 <= i < nodes.len() && (#[trigger] nodes[i]).phase_type == p && node_ready(nodes[i], completed),
    decreases nodes.len(),
{
    let d = nodes.drop_last();
    let rest = ready_phases(d, completed);
    if rest.contains(p) {
        lemma_ready_phase_has_ready_node(d, completed, p);
        let i = choose|i: int| 0 <= i < d.len() && (#[trigger] d[i]).phase_type == p && node_ready(d[i], completed);
        assert(nodes[i] == d[i]);
    } else {
        let k = choose|k: int| 0 <= k < ready_phases(nodes, completed).len() && ready_phases(nodes, completed)[k] == p;
        if node_ready(nodes.last(), completed) {
            if k < rest.len() {
                assert(rest[k] == p);
            }
        }
        assert(nodes[nodes.len() - 1] == nodes.last());
    }
}

/// In a graph built from `phases`, a phase is ready only once the phase
/// ranked just before it has completed, when that phase is among `phases`:
/// phases become ready in the pipeline's natural order.
pub proof fn lemma_built_graph_waits_for_previous_phase(
    nodes: Seq<PhaseNode>,
    phases: Seq<PhaseType>,
    completed: Set<PhaseType>,
    p: PhaseType,
    q: PhaseType,
)
    requires
        forall|i: int|
            0 <= i < nodes.len() ==> (#[trigger] nodes[i]).dependencies@ == built_deps(nodes[i].phase_type, phases),
        ready_phases(nodes, completed).contains(p),
        phases.contains(q),
        phase_rank(q) == phase_rank(p) - 1,
    ensures
        completed.contains(q),
{
    lemma_ready_phase_has_ready_node(nodes, completed, p);
    let i = choose|i: int| 0 <= i < nodes.len() && (#[trigger] nodes[i]).phase_type == p && node_ready(nodes[i], completed);
    lemma_predecessor_is_previous_phase(p);
    assert(predecessor(p) == Some(q));
    assert(nodes[i].dependencies@ == seq![q]);
    assert(nodes[i].dependencies@[0] == q);
}

/// A phase is listed out of order exactly when the phase ranked just
/// before it is listed after it.
pub proof fn lemma_order_violation_is_previous_phase_later(phases: Seq<PhaseType>, i: int)
    requires
        0 <= i < phases.len(),
    ensures
        order_violation(phases, i) <==> exists|j: int|
            i < j < phases.len() && phase_rank(#[trigger] phases[j]) == phase_rank(phases[i]) - 1,
{
    lemma_predecessor_is_previous_phase(phases[i]);
    if exists|j: int| i < j < phases.len() && phase_rank(#[trigger] phases[j]) == phase_rank(phases[i]) - 1 {
        let j = choose|j: int| i < j < phases.len() && phase_rank(#[trigger] phases[j]) == phase_rank(phases[i]) - 1;
        assert(Some(phases[j]) == predecessor(phases[i]));
    }
    if order_violation(phases, i) {
        let j = choose|j: int| i < j < phases.len() && Some(#[trigger] phases[j]) == predecessor(phases[i]);
        assert(phase_rank(phases[j]) == phase_rank(phases[i]) - 1);
    }
}

} // verus!
