//! The pipeline engine: turns a list of steps with `needs` edges into a
//! validated, deterministically ordered plan, and drives execution with
//! failure containment.
//!
//! Graph construction is one shared path for planning and running, so a
//! previewed plan is structurally identical to what executes.

use vstd::prelude::*;

use crate::config::{ConfigValue, StepConfig};
use crate::error::{Error, ErrorCode};
use vstd::seq_lib::*;
use vstd::set_lib::*;

verus! {

/// One unit of pipeline work.
#[derive(Debug, Clone)]
pub struct PipelineStep {
    pub id: String,
    pub step_type: String,
    pub label: Option<String>,
    pub needs: Vec<String>,
    pub config: StepConfig,
}

/// Feasibility of a step before execution.
#[derive(Debug, Clone, Copy, PartialEq, Eq, Structural)]
pub enum PipelineStepStatus {
    Ready,
    Missing,
    Disabled,
}

/// Outcome of a step after a run.
#[derive(Debug, Clone, Copy, PartialEq, Eq, Structural)]
pub enum PipelineRunStatus {
    Success,
    Failed,
    Blocked,
    Skipped,
}

/// A step annotated with its feasibility.
#[derive(Debug, Clone)]
pub struct PipelinePlanStep {
    pub id: String,
    pub step_type: String,
    pub label: Option<String>,
    pub needs: Vec<String>,
    pub config: StepConfig,
    pub status: PipelineStepStatus,
    pub missing: Vec<String>,
}

/// The recorded outcome of one step.
#[derive(Debug, Clone)]
pub struct PipelineStepResult {
    pub id: String,
    pub step_type: String,
    pub status: PipelineRunStatus,
    pub data: Option<String>,
    pub error: Option<String>,
    pub hints: Vec<String>,
    pub missing: Vec<String>,
    pub warnings: Vec<String>,
}

/// What one run produced: per-step results in execution order, with counts.
#[derive(Debug, Clone)]
pub struct PipelineRunResult {
    pub steps: Vec<PipelineStepResult>,
    pub succeeded: usize,
    pub failed: usize,
    pub blocked: usize,
    pub skipped: usize,
}

/// What a step executor reports: success or failure, with attached output.
#[derive(Debug, Clone)]
pub struct PipelineStepOutcome {
    pub success: bool,
    pub data: Option<String>,
    pub error: Option<String>,
    pub hints: Vec<String>,
}

/// Decides whether the environment can satisfy a step type.
pub trait PipelineCapabilityResolver {
    fn is_supported(&self, step_type: &str) -> bool;

    fn missing(&self, step_type: &str) -> Vec<String>;
}

/// Performs one step's effect.
pub trait PipelineStepExecutor {
    fn execute_step(&self, step: &PipelineStep) -> Result<PipelineStepOutcome, Error>;
}

// ---------------------------------------------------------------------------
// Graph structure
// ---------------------------------------------------------------------------

/// No two steps share an id.
pub open spec fn step_ids_unique(steps: Seq<PipelineStep>) -> bool {
    forall|i: int, j: int|
        0 <= i < j < steps.len() ==> steps[i].id@ != steps[j].id@
}

/// Every `needs` entry names a step of the list.
pub open spec fn needs_resolvable(steps: Seq<PipelineStep>) -> bool {
    forall|i: int, k: int|
        0 <= i < steps.len() && 0 <= k < steps[i].needs@.len() ==> exists|j: int|
            0 <= j < steps.len() && steps[j].id@ == #[trigger] steps[i].needs@[k]@
}

/// Step `i` depends on step `j`.
pub open spec fn dep_edge(steps: Seq<PipelineStep>, j: int, i: int) -> bool {
    &&& 0 <= i < steps.len()
    &&& 0 <= j < steps.len()
    &&& exists|k: int|
        0 <= k < steps[i].needs@.len() && #[trigger] steps[i].needs@[k]@ == steps[j].id@
}

/// A complete order that schedules every dependency before its dependent.
pub open spec fn is_valid_order(steps: Seq<PipelineStep>, order: Seq<int>) -> bool {
    &&& order.len() == steps.len()
    &&& forall|q: int| 0 <= q < order.len() ==> 0 <= #[trigger] order[q] < steps.len()
    &&& forall|p: int, q: int| 0 <= p < q < order.len() ==> order[p] != order[q]
    &&& forall|q: int, j: int|
        0 <= q < order.len() && #[trigger] dep_edge(steps, j, order[q]) ==> exists|p: int|
            0 <= p < q && order[p] == j
}

/// Whether step `i` can be scheduled next, given what is already scheduled.
pub open spec fn ready_at(steps: Seq<PipelineStep>, done: Seq<int>, i: int) -> bool {
    &&& 0 <= i < steps.len()
    &&& !done.contains(i)
    &&& forall|j: int| #[trigger] dep_edge(steps, j, i) ==> done.contains(j)
}

/// The least schedulable index at or after `i`, if any.
pub open spec fn first_ready_from(steps: Seq<PipelineStep>, done: Seq<int>, i: int) -> Option<
    int,
>
    decreases steps.len() - i,
{
    if i < 0 || i >= steps.len() {
        None
    } else if ready_at(steps, done, i) {
        Some(i)
    } else {
        first_ready_from(steps, done, i + 1)
    }
}

/// Repeatedly schedules the least ready index; stops early when stuck.
pub open spec fn spec_kahn(steps: Seq<PipelineStep>, done: Seq<int>, fuel: nat) -> Seq<int>
    decreases fuel,
{
    if fuel == 0 {
        done
    } else {
        match first_ready_from(steps, done, 0) {
            None => done,
            Some(i) => spec_kahn(steps, done.push(i), (fuel - 1) as nat),
        }
    }
}

/// The execution order of a step list: source order, constrained by `needs`.
/// Shorter than the list exactly when the graph is stuck on a cycle.
#[verifier::opaque]
pub open spec fn spec_execution_order(steps: Seq<PipelineStep>) -> Seq<int> {
    spec_kahn(steps, Seq::empty(), steps.len())
}

// ---------------------------------------------------------------------------
// Id resolution
// ---------------------------------------------------------------------------

/// Finds the step with the given id.
fn find_step_index(steps: &Vec<PipelineStep>, id: &String) -> (r: Option<usize>)
    ensures
        match r {
            Some(i) => i < steps@.len() && steps@[i as int].id@ == id@,
            None => forall|j: int| 0 <= j < steps@.len() ==> steps@[j].id@ != id@,
        },
{
    let mut i: usize = 0;
    while i < steps.len()
        invariant
            0 <= i <= steps@.len(),
            forall|j: int| 0 <= j < i ==> steps@[j].id@ != id@,
        decreases steps@.len() - i,
    {
        if steps[i].id.eq(id) {
            return Some(i);
        }
        i = i + 1;
    }
    None
}

/// Checks id uniqueness and resolves every `needs` reference to a step index.
/// Rejects duplicate ids and dangling references.
fn resolve_needs(steps: &Vec<PipelineStep>) -> (r: Result<Vec<Vec<usize>>, Error>)
    ensures
        match r {
            Ok(adj) => {
                &&& step_ids_unique(steps@)
                &&& needs_resolvable(steps@)
                &&& adj@.len() == steps@.len()
                &&& forall|i: int|
                    0 <= i < steps@.len() ==> #[trigger] adj@[i]@.len()
                        == steps@[i].needs@.len()
                &&& forall|i: int, k: int|
                    0 <= i < steps@.len() && 0 <= k < adj@[i]@.len() ==> (#[trigger] adj@[i]@[k]
                        < steps@.len() && steps@[adj@[i]@[k] as int].id@
                        == steps@[i].needs@[k]@)
            },
            Err(e) => (!step_ids_unique(steps@) || !needs_resolvable(steps@)) && (e.code
                == ErrorCode::ValidationInvalidArgument),
        },
{
    // Uniqueness of ids.
    let mut i: usize = 0;
    while i < steps.len()
        invariant
            0 <= i <= steps@.len(),
            forall|a: int, b: int| 0 <= a < b < i ==> steps@[a].id@ != steps@[b].id@,
        decreases steps@.len() - i,
    {
        let mut j: usize = 0;
        while j < i
            invariant
                0 <= j <= i < steps@.len(),
                forall|b: int| 0 <= b < j ==> steps@[b].id@ != steps@[i as int].id@,
            decreases i - j,
        {
            if steps[j].id.eq(&steps[i].id) {
                return Err(
                    Error::validation_invalid_argument(
                        "steps",
                        String::from_str("Duplicate step id"),
                        None,
                        None,
                    ),
                );
            }
            j = j + 1;
        }
        i = i + 1;
    }
    // Resolution of needs.
    let mut adj: Vec<Vec<usize>> = Vec::new();
    let mut i: usize = 0;
    while i < steps.len()
        invariant
            0 <= i <= steps@.len(),
            step_ids_unique(steps@),
            adj@.len() == i,
            forall|a: int|
                0 <= a < i ==> #[trigger] adj@[a]@.len() == steps@[a].needs@.len(),
            forall|a: int, k: int|
                0 <= a < i && 0 <= k < adj@[a]@.len() ==> (#[trigger] adj@[a]@[k] < steps@.len()
                    && steps@[adj@[a]@[k] as int].id@ == steps@[a].needs@[k]@),
        decreases steps@.len() - i,
    {
        let mut row: Vec<usize> = Vec::new();
        let mut k: usize = 0;
        while k < steps[i].needs.len()
            invariant
                0 <= i < steps@.len(),
                0 <= k <= steps@[i as int].needs@.len(),
                row@.len() == k,
                forall|t: int|
                    0 <= t < k ==> (#[trigger] row@[t] < steps@.len()
                        && steps@[row@[t] as int].id@ == steps@[i as int].needs@[t]@),
            decreases steps@[i as int].needs@.len() - k,
        {
            match find_step_index(steps, &steps[i].needs[k]) {
                Some(j) => {
                    row.push(j);
                }
                None => {
                    return Err(
                        Error::validation_invalid_argument(
                            "steps",
                            String::from_str("Unknown step referenced in needs"),
                            None,
                            None,
                        ),
                    );
                }
            }
            k = k + 1;
        }
        adj.push(row);
        i = i + 1;
    }
    proof {
        assert forall|a: int, k: int|
            0 <= a < steps@.len() && 0 <= k < steps@[a].needs@.len() implies exists|j: int|
            0 <= j < steps@.len() && steps@[j].id@ == #[trigger] steps@[a].needs@[k]@ by {
            assert(steps@[adj@[a]@[k] as int].id@ == steps@[a].needs@[k]@);
        }
    }
    Ok(adj)
}

/// The adjacency rows list exactly the dependency edges.
proof fn lemma_adj_edges(
    steps: Seq<PipelineStep>,
    adj: Seq<Vec<usize>>,
    j: int,
    i: int,
)
    requires
        step_ids_unique(steps),
        adj.len() == steps.len(),
        forall|a: int| 0 <= a < steps.len() ==> #[trigger] adj[a]@.len() == steps[a].needs@.len(),
        forall|a: int, k: int|
            0 <= a < steps.len() && 0 <= k < adj[a]@.len() ==> (#[trigger] adj[a]@[k]
                < steps.len() && steps[adj[a]@[k] as int].id@ == steps[a].needs@[k]@),
        0 <= i < steps.len(),
    ensures
        dep_edge(steps, j, i) <==> exists|k: int| 0 <= k < adj[i]@.len() && adj[i]@[k] == j,
{
    if dep_edge(steps, j, i) {
        let k = choose|k: int|
            0 <= k < steps[i].needs@.len() && #[trigger] steps[i].needs@[k]@ == steps[j].id@;
        assert(steps[adj[i]@[k] as int].id@ == steps[i].needs@[k]@);
        assert(steps[adj[i]@[k] as int].id@ == steps[j].id@);
        if adj[i]@[k] != j {
            let a = adj[i]@[k] as int;
            if a < j {
                assert(steps[a].id@ != steps[j].id@);
            } else {
                assert(steps[j].id@ != steps[a].id@);
            }
            assert(false);
        }
        assert(adj[i]@[k] == j);
    }
    if exists|k: int| 0 <= k < adj[i]@.len() && adj[i]@[k] == j {
        let k = choose|k: int| 0 <= k < adj[i]@.len() && adj[i]@[k] == j;
        assert(steps[adj[i]@[k] as int].id@ == steps[i].needs@[k]@);
        assert(steps[i].needs@[k]@ == steps[j].id@);
    }
}

proof fn lemma_first_ready_some(steps: Seq<PipelineStep>, done: Seq<int>, lo: int, i: int)
    requires
        0 <= lo <= i < steps.len(),
        ready_at(steps, done, i),
        forall|m: int| lo <= m < i ==> !ready_at(steps, done, m),
    ensures
        first_ready_from(steps, done, lo) == Some(i),
    decreases i - lo,
{
    if lo == i {
    } else {
        lemma_first_ready_some(steps, done, lo + 1, i);
    }
}

proof fn lemma_first_ready_none(steps: Seq<PipelineStep>, done: Seq<int>, lo: int)
    requires
        0 <= lo,
        forall|m: int| lo <= m < steps.len() ==> !ready_at(steps, done, m),
    ensures
        first_ready_from(steps, done, lo) is None,
    decreases steps.len() - lo,
{
    if lo >= steps.len() {
    } else {
        lemma_first_ready_none(steps, done, lo + 1);
    }
}

/// Unfolding of the scheduler by one committed prefix.
proof fn lemma_kahn_shift(steps: Seq<PipelineStep>, done: Seq<int>, fuel: nat, i: int)
    requires
        fuel > 0,
        first_ready_from(steps, done, 0) == Some(i),
    ensures
        spec_kahn(steps, done, fuel) == spec_kahn(steps, done.push(i), (fuel - 1) as nat),
{
}

/// The adjacency facts bundled, so loops can carry them in one place.
pub open spec fn adj_wf(steps: Seq<PipelineStep>, adj: Seq<Vec<usize>>) -> bool {
    &&& adj.len() == steps.len()
    &&& forall|a: int| 0 <= a < steps.len() ==> #[trigger] adj[a]@.len() == steps[a].needs@.len()
    &&& forall|a: int, k: int|
        0 <= a < steps.len() && 0 <= k < adj[a]@.len() ==> (#[trigger] adj[a]@[k] < steps.len()
            && steps[adj[a]@[k] as int].id@ == steps[a].needs@[k]@)
}

/// Whether `i` may be scheduled now: not yet scheduled, every dependency scheduled.
fn is_ready(
    steps: &Vec<PipelineStep>,
    adj: &Vec<Vec<usize>>,
    scheduled: &Vec<bool>,
    i: usize,
    Ghost(done): Ghost<Seq<int>>,
) -> (r: bool)
    requires
        step_ids_unique(steps@),
        adj_wf(steps@, adj@),
        scheduled@.len() == steps@.len(),
        i < steps@.len(),
        forall|m: int| 0 <= m < steps@.len() ==> (scheduled@[m] <==> done.contains(m)),
    ensures
        r == ready_at(steps@, done, i as int),
{
    if scheduled[i] {
        assert(!ready_at(steps@, done, i as int));
        return false;
    }
    let row = &adj[i];
    let mut t: usize = 0;
    while t < row.len()
        invariant
            0 <= t <= row@.len(),
            row@ == adj@[i as int]@,
            i < steps@.len(),
            step_ids_unique(steps@),
            adj_wf(steps@, adj@),
            scheduled@.len() == steps@.len(),
            forall|m: int| 0 <= m < steps@.len() ==> (scheduled@[m] <==> done.contains(m)),
            forall|u: int| 0 <= u < t ==> done.contains(#[trigger] row@[u] as int),
        decreases row@.len() - t,
    {
        let j = row[t];
        assert(j < steps@.len());
        if !scheduled[j] {
            proof {
                lemma_adj_edges(steps@, adj@, j as int, i as int);
                assert(dep_edge(steps@, j as int, i as int));
                assert(!done.contains(j as int));
            }
            return false;
        }
        t = t + 1;
    }
    proof {
        assert forall|j: int| #[trigger] dep_edge(steps@, j, i as int) implies done.contains(
            j,
        ) by {
            lemma_adj_edges(steps@, adj@, j, i as int);
            let k = choose|k: int| 0 <= k < adj@[i as int]@.len() && adj@[i as int]@[k] == j;
            assert(done.contains(row@[k] as int));
        }
    }
    true
}

/// The shared graph-construction phase: validates ids and `needs`, then
/// computes the deterministic execution order (source order, constrained by
/// dependencies). Fails on duplicate ids, dangling references, or a cycle.
pub fn execution_order(steps: &Vec<PipelineStep>) -> (r: Result<Vec<usize>, Error>)
    ensures
        match r {
            Ok(order) => {
                &&& step_ids_unique(steps@)
                &&& needs_resolvable(steps@)
                &&& order@.map_values(|u: usize| u as int) == spec_execution_order(steps@)
                &&& is_valid_order(steps@, order@.map_values(|u: usize| u as int))
            },
            Err(e) => {
                &&& (!step_ids_unique(steps@) || !needs_resolvable(steps@)
                    || spec_execution_order(steps@).len() < steps@.len())
                &&& e.code == ErrorCode::ValidationInvalidArgument
            },
        },
{
    let adj = match resolve_needs(steps) {
        Ok(adj) => adj,
        Err(e) => {
            return Err(e);
        },
    };
    let n = steps.len();
    let mut scheduled: Vec<bool> = Vec::new();
    let mut z: usize = 0;
    while z < n
        invariant
            scheduled@.len() == z,
            z <= n,
            forall|m: int| 0 <= m < z ==> !scheduled@[m],
        decreases n - z,
    {
        scheduled.push(false);
        z = z + 1;
    }
    let mut order: Vec<usize> = Vec::new();
    proof {
        reveal(spec_execution_order);
        assert(order@.map_values(|u: usize| u as int) =~= Seq::<int>::empty());
    }
    while order.len() < n
        invariant
            n == steps@.len(),
            step_ids_unique(steps@),
            needs_resolvable(steps@),
            adj_wf(steps@, adj@),
            scheduled@.len() == n,
            order@.len() <= n,
            forall|m: int|
                0 <= m < n ==> (scheduled@[m] <==> order@.map_values(
                    |u: usize| u as int,
                ).contains(m)),
            spec_execution_order(steps@) == spec_kahn(
                steps@,
                order@.map_values(|u: usize| u as int),
                (n - order@.len()) as nat,
            ),
            forall|q: int| 0 <= q < order@.len() ==> #[trigger] order@[q] < n,
            forall|p: int, q: int| 0 <= p < q < order@.len() ==> order@[p] != order@[q],
            forall|q: int, j: int|
                0 <= q < order@.len() && #[trigger] dep_edge(steps@, j, order@[q] as int)
                    ==> exists|p: int| 0 <= p < q && order@[p] == j,
        decreases n - order.len(),
    {
        let ghost done = order@.map_values(|u: usize| u as int);
        let mut pick: Option<usize> = None;
        let mut i: usize = 0;
        while i < n
            invariant_except_break
                0 <= i <= n,
                n == steps@.len(),
                step_ids_unique(steps@),
                adj_wf(steps@, adj@),
                scheduled@.len() == n,
                forall|m: int| 0 <= m < n ==> (scheduled@[m] <==> done.contains(m)),
                pick is None,
                forall|m: int| 0 <= m < i ==> !ready_at(steps@, done, m),
            ensures
                match pick {
                    Some(x) => x < n && ready_at(steps@, done, x as int) && (forall|m: int|
                        0 <= m < x ==> !ready_at(steps@, done, m)),
                    None => forall|m: int| 0 <= m < n ==> !ready_at(steps@, done, m),
                },
            decreases n - i,
        {
            if is_ready(steps, &adj, &scheduled, i, Ghost(done)) {
                pick = Some(i);
                break;
            }
            i = i + 1;
        }
        match pick {
            None => {
                proof {
                    lemma_first_ready_none(steps@, done, 0);
                    assert(spec_kahn(steps@, done, (n - order@.len()) as nat) == done);
                    assert(spec_execution_order(steps@).len() < steps@.len());
                }
                return Err(
                    Error::validation_invalid_argument(
                        "steps",
                        String::from_str("Dependency cycle in steps"),
                        None,
                        None,
                    ),
                );
            },
            Some(i) => {
                proof {
                    lemma_first_ready_some(steps@, done, 0, i as int);
                    lemma_kahn_shift(
                        steps@,
                        done,
                        (n - order@.len()) as nat,
                        i as int,
                    );
                }
                let ghost old_order = order@;
                order.push(i);
                scheduled.set(i, true);
                proof {
                    let done2 = order@.map_values(|u: usize| u as int);
                    assert(done2 =~= done.push(i as int));
                    assert forall|m: int| 0 <= m < n implies (scheduled@[m] <==> done2.contains(
                        m,
                    )) by {
                        if m == i as int {
                            assert(done2[done2.len() - 1] == m);
                            assert(done2.contains(m));
                        } else {
                            if done2.contains(m) {
                                let p = choose|p: int| 0 <= p < done2.len() && done2[p] == m;
                                assert(p < done.len());
                                assert(done.contains(m));
                            }
                            if done.contains(m) {
                                let p = choose|p: int| 0 <= p < done.len() && done[p] == m;
                                assert(done2[p] == m);
                            }
                        }
                    }
                    assert forall|q: int, j: int|
                        0 <= q < order@.len() && #[trigger] dep_edge(
                            steps@,
                            j,
                            order@[q] as int,
                        ) implies exists|p: int| 0 <= p < q && order@[p] == j by {
                        if q < old_order.len() {
                            assert(order@[q] == old_order[q]);
                            let p = choose|p: int| 0 <= p < q && old_order[p] == j;
                            assert(order@[p] == j);
                        } else {
                            assert(order@[q] == i);
                            assert(ready_at(steps@, done, i as int));
                            assert(done.contains(j));
                            let p = choose|p: int| 0 <= p < done.len() && done[p] == j;
                            assert(order@[p] == j);
                        }
                    }
                    assert forall|p: int, q: int|
                        0 <= p < q < order@.len() implies order@[p] != order@[q] by {
                        if q == order@.len() - 1 {
                            assert(!done.contains(i as int));
                            if order@[p] == i {
                                assert(done[p] == i as int);
                            }
                        }
                    }
                }
            },
        }
    }
    proof {
        let done = order@.map_values(|u: usize| u as int);
        assert(spec_kahn(steps@, done, 0) == done);
        assert(done.len() == steps@.len());
        assert forall|q: int| 0 <= q < done.len() implies 0 <= #[trigger] done[q]
            < steps@.len() by {
            assert(done[q] == order@[q] as int);
        }
        assert forall|p: int, q: int| 0 <= p < q < done.len() implies done[p] != done[q] by {
            assert(done[p] == order@[p] as int);
            assert(done[q] == order@[q] as int);
        }
        assert forall|q: int, j: int|
            0 <= q < done.len() && #[trigger] dep_edge(steps@, j, done[q]) implies exists|
            p: int,
        | 0 <= p < q && done[p] == j by {
            assert(done[q] == order@[q] as int);
            assert(dep_edge(steps@, j, order@[q] as int));
            let p = choose|p: int| 0 <= p < q && order@[p] == j;
            assert(done[p] == j);
        }
        assert(is_valid_order(steps@, done));
    }
    Ok(order)
}

// ---------------------------------------------------------------------------
// Feasibility
// ---------------------------------------------------------------------------

/// A dependency chain that starts at an unsupported step.
pub open spec fn bad_path(steps: Seq<PipelineStep>, sup: Seq<bool>, p: Seq<int>) -> bool {
    &&& p.len() >= 1
    &&& forall|t: int| 0 <= t < p.len() ==> 0 <= #[trigger] p[t] < steps.len()
    &&& !sup[p[0]]
    &&& forall|t: int| 0 <= t < p.len() - 1 ==> #[trigger] dep_edge(steps, p[t], p[t + 1])
}

/// Step `i` is reachable through `needs` from some unsupported step
/// (possibly itself).
#[verifier::opaque]
pub open spec fn tainted(steps: Seq<PipelineStep>, sup: Seq<bool>, i: int) -> bool {
    exists|p: Seq<int>| bad_path(steps, sup, p) && p.last() == i
}

/// The feasibility of step `i`: everything is disabled when the pipeline is
/// disabled; an unsupported step is missing; a step downstream of an
/// unsupported one is disabled; the rest are ready.
pub open spec fn spec_plan_status(
    steps: Seq<PipelineStep>,
    sup: Seq<bool>,
    enabled: bool,
    i: int,
) -> PipelineStepStatus {
    if !enabled {
        PipelineStepStatus::Disabled
    } else if !sup[i] {
        PipelineStepStatus::Missing
    } else if tainted(steps, sup, i) {
        PipelineStepStatus::Disabled
    } else {
        PipelineStepStatus::Ready
    }
}

proof fn lemma_tainted_self(steps: Seq<PipelineStep>, sup: Seq<bool>, i: int)
    requires
        0 <= i < steps.len(),
        !sup[i],
    ensures
        tainted(steps, sup, i),
{
    reveal(tainted);
    let p = seq![i];
    assert(bad_path(steps, sup, p));
    assert(p.last() == i);
}

proof fn lemma_tainted_extend(steps: Seq<PipelineStep>, sup: Seq<bool>, j: int, i: int)
    requires
        tainted(steps, sup, j),
        dep_edge(steps, j, i),
    ensures
        tainted(steps, sup, i),
{
    reveal(tainted);
    let p = choose|p: Seq<int>| bad_path(steps, sup, p) && p.last() == j;
    let p2 = p.push(i);
    assert(p2[p2.len() - 2] == j);
    assert forall|t: int| 0 <= t < p2.len() - 1 implies #[trigger] dep_edge(
        steps,
        p2[t],
        p2[t + 1],
    ) by {
        if t < p.len() - 1 {
            assert(p2[t] == p[t]);
            assert(p2[t + 1] == p[t + 1]);
        } else {
            assert(p2[t] == p.last());
            assert(p2[t + 1] == i);
        }
    }
    assert(bad_path(steps, sup, p2));
    assert(p2.last() == i);
}

proof fn lemma_tainted_unfold(steps: Seq<PipelineStep>, sup: Seq<bool>, i: int)
    requires
        tainted(steps, sup, i),
    ensures
        (0 <= i < steps.len() && !sup[i]) || exists|j: int|
            #[trigger] dep_edge(steps, j, i) && tainted(steps, sup, j),
{
    reveal(tainted);
    let p = choose|p: Seq<int>| bad_path(steps, sup, p) && p.last() == i;
    if p.len() == 1 {
        assert(p[0] == i);
    } else {
        let j = p[p.len() - 2];
        let t = p.len() - 2;
        assert(dep_edge(steps, p[t], p[t + 1]));
        assert(p.last() == i);
        let q = p.drop_last();
        assert(q.len() >= 1);
        assert(q[0] == p[0]);
        assert forall|t: int| 0 <= t < q.len() - 1 implies #[trigger] dep_edge(
            steps,
            q[t],
            q[t + 1],
        ) by {
            assert(q[t] == p[t]);
            assert(q[t + 1] == p[t + 1]);
        }
        assert(bad_path(steps, sup, q));
        assert(q.last() == j);
        assert(tainted(steps, sup, j));
    }
}

// ---------------------------------------------------------------------------
// Cloning with known views
// ---------------------------------------------------------------------------

/// Copies a string vector, preserving its contents.
pub fn clone_string_vec(v: &Vec<String>) -> (r: Vec<String>)
    ensures
        r.deep_view() == v.deep_view(),
{
    let mut out: Vec<String> = Vec::new();
    let mut i: usize = 0;
    while i < v.len()
        invariant
            0 <= i <= v@.len(),
            out@.len() == i,
            forall|k: int| 0 <= k < i ==> #[trigger] out@[k]@ == v@[k]@,
        decreases v@.len() - i,
    {
        out.push(v[i].clone());
        i = i + 1;
    }
    proof {
        assert forall|k: int| 0 <= k < v@.len() implies out.deep_view()[k]
            == v.deep_view()[k] by {
            assert(out@[k]@ == v@[k]@);
        }
        assert(out.deep_view() =~= v.deep_view());
    }
    out
}

fn clone_string_pairs(v: &Vec<(String, String)>) -> (r: Vec<(String, String)>)
    ensures
        r.deep_view() == v.deep_view(),
{
    let mut out: Vec<(String, String)> = Vec::new();
    let mut i: usize = 0;
    while i < v.len()
        invariant
            0 <= i <= v@.len(),
            out@.len() == i,
            forall|k: int|
                0 <= k < i ==> (#[trigger] out@[k]).0@ == v@[k].0@ && out@[k].1@ == v@[k].1@,
        decreases v@.len() - i,
    {
        let pair = (v[i].0.clone(), v[i].1.clone());
        out.push(pair);
        i = i + 1;
    }
    proof {
        assert forall|k: int| 0 <= k < v@.len() implies out.deep_view()[k]
            == v.deep_view()[k] by {
            assert(out@[k].0@ == v@[k].0@ && out@[k].1@ == v@[k].1@);
        }
        assert(out.deep_view() =~= v.deep_view());
    }
    out
}

/// Copies a configuration value, preserving its ghost shape.
pub fn clone_config_value(v: &ConfigValue) -> (r: ConfigValue)
    ensures
        r@ == v@,
{
    match v {
        ConfigValue::Bool(b) => ConfigValue::Bool(*b),
        ConfigValue::Str(s) => ConfigValue::Str(s.clone()),
        ConfigValue::StrList(l) => ConfigValue::StrList(clone_string_vec(l)),
        ConfigValue::IdValuePairs(l) => ConfigValue::IdValuePairs(clone_string_pairs(l)),
        ConfigValue::Text(t) => ConfigValue::Text(t.clone()),
    }
}

/// Copies a step configuration, preserving its ghost shape.
pub fn clone_step_config(c: &StepConfig) -> (r: StepConfig)
    ensures
        r.deep_view() == c.deep_view(),
{
    let mut out: StepConfig = Vec::new();
    let mut i: usize = 0;
    while i < c.len()
        invariant
            0 <= i <= c@.len(),
            out@.len() == i,
            forall|k: int|
                0 <= k < i ==> (#[trigger] out@[k]).0@ == c@[k].0@ && out@[k].1@ == c@[k].1@,
        decreases c@.len() - i,
    {
        let key = c[i].0.clone();
        let val = clone_config_value(&c[i].1);
        out.push((key, val));
        i = i + 1;
    }
    proof {
        assert forall|k: int| 0 <= k < c@.len() implies out.deep_view()[k]
            == c.deep_view()[k] by {
            assert(out@[k].0@ == c@[k].0@ && out@[k].1@ == c@[k].1@);
        }
        assert(out.deep_view() =~= c.deep_view());
    }
    out
}

/// The label's character content, if one is set.
pub open spec fn opt_str_view(o: Option<String>) -> Option<Seq<char>> {
    match o {
        Some(s) => Some(s@),
        None => None,
    }
}

fn clone_opt_string(o: &Option<String>) -> (r: Option<String>)
    ensures
        opt_str_view(r) == opt_str_view(*o),
{
    match o {
        Some(s) => Some(s.clone()),
        None => None,
    }
}

/// A plan entry carries the step's own fields unchanged.
pub open spec fn plan_step_mirrors(ps: PipelinePlanStep, step: PipelineStep) -> bool {
    &&& ps.id@ == step.id@
    &&& ps.step_type@ == step.step_type@
    &&& opt_str_view(ps.label) == opt_str_view(step.label)
    &&& ps.needs.deep_view() == step.needs.deep_view()
    &&& ps.config.deep_view() == step.config.deep_view()
}

/// The missing-reasons field a plan entry must carry.
pub open spec fn plan_step_reasons(
    ps: PipelinePlanStep,
    reasons: Seq<Seq<char>>,
    enabled: bool,
) -> bool {
    if !enabled {
        ps.missing.deep_view() =~= seq!["pipeline disabled"@]
    } else if ps.status == PipelineStepStatus::Missing {
        ps.missing.deep_view() == reasons
    } else {
        ps.missing.deep_view() =~= Seq::<Seq<char>>::empty()
    }
}

/// Marks each step Ready, Missing, or Disabled, walking the execution order so
/// that every dependency is classified before its dependents.
#[verifier::spinoff_prover]
fn mark_feasibility(
    steps: &Vec<PipelineStep>,
    adj: &Vec<Vec<usize>>,
    order: &Vec<usize>,
    supported: &Vec<bool>,
    reasons: &Vec<Vec<String>>,
    enabled: bool,
) -> (r: Vec<PipelinePlanStep>)
    requires
        step_ids_unique(steps@),
        adj_wf(steps@, adj@),
        is_valid_order(steps@, order@.map_values(|u: usize| u as int)),
        supported@.len() == steps@.len(),
        reasons@.len() == steps@.len(),
    ensures
        r@.len() == steps@.len(),
        forall|q: int|
            0 <= q < r@.len() ==> plan_step_mirrors(
                #[trigger] r@[q],
                steps@[order@[q] as int],
            ),
        forall|q: int|
            0 <= q < r@.len() ==> #[trigger] r@[q].status == spec_plan_status(
                steps@,
                supported@,
                enabled,
                order@[q] as int,
            ),
        forall|q: int|
            0 <= q < r@.len() ==> plan_step_reasons(
                #[trigger] r@[q],
                reasons@[order@[q] as int].deep_view(),
                enabled,
            ),
{
    let n = steps.len();
    let mut spoiled: Vec<bool> = Vec::new();
    let mut z: usize = 0;
    while z < n
        invariant
            spoiled@.len() == z,
            z <= n,
        decreases n - z,
    {
        spoiled.push(false);
        z = z + 1;
    }
    let mut out: Vec<PipelinePlanStep> = Vec::new();
    let mut q: usize = 0;
    while q < order.len()
        invariant
            n == steps@.len(),
            step_ids_unique(steps@),
            adj_wf(steps@, adj@),
            is_valid_order(steps@, order@.map_values(|u: usize| u as int)),
            supported@.len() == n,
            reasons@.len() == n,
            order@.len() == n,
            spoiled@.len() == n,
            0 <= q <= n,
            out@.len() == q,
            forall|p: int|
                0 <= p < q ==> (spoiled@[order@[p] as int] <==> (!supported@[order@[p] as int]
                    || tainted(steps@, supported@, order@[p] as int))),
            forall|p: int|
                0 <= p < q ==> plan_step_mirrors(#[trigger] out@[p], steps@[order@[p] as int]),
            forall|p: int|
                0 <= p < q ==> #[trigger] out@[p].status == spec_plan_status(
                    steps@,
                    supported@,
                    enabled,
                    order@[p] as int,
                ),
            forall|p: int|
                0 <= p < q ==> plan_step_reasons(
                    #[trigger] out@[p],
                    reasons@[order@[p] as int].deep_view(),
                    enabled,
                ),
        decreases order@.len() - q,
    {
        let ghost ord = order@.map_values(|u: usize| u as int);
        let i = order[q];
        assert(ord[q as int] == i as int);
        assert(i < n);
        let row = &adj[i];
        let mut dep_spoiled = false;
        let mut t: usize = 0;
        while t < row.len()
            invariant
                0 <= t <= row@.len(),
                row@ == adj@[i as int]@,
                i < n,
                n == steps@.len(),
                q <= order@.len(),
                ord == order@.map_values(|u: usize| u as int),
                step_ids_unique(steps@),
                adj_wf(steps@, adj@),
                is_valid_order(steps@, ord),
                supported@.len() == n,
                spoiled@.len() == n,
                ord[q as int] == i as int,
                forall|p: int|
                    0 <= p < q ==> (spoiled@[order@[p] as int] <==> (!supported@[order@[p] as int]
                        || tainted(steps@, supported@, order@[p] as int))),
                dep_spoiled <==> exists|u: int|
                    0 <= u < t && spoiled@[#[trigger] row@[u] as int],
            decreases row@.len() - t,
        {
            let j = row[t];
            assert(j < n);
            if spoiled[j] {
                dep_spoiled = true;
                assert(spoiled@[row@[t as int] as int]);
            }
            t = t + 1;
        }
        // Relate the scanned flag to the taint predicate.
        let ghost sup = supported@;
        proof {
            if dep_spoiled {
                let u = choose|u: int| 0 <= u < row@.len() && spoiled@[row@[u] as int];
                let j = row@[u] as int;
                lemma_adj_edges(steps@, adj@, j, i as int);
                assert(dep_edge(steps@, j, i as int));
                // j is a dependency of an ordered step, so it was classified earlier.
                assert(ord[q as int] == i as int);
                assert(exists|p: int| 0 <= p < q && ord[p] == j);
                let p = choose|p: int| 0 <= p < q && ord[p] == j;
                assert(order@[p] as int == j);
                assert(spoiled@[j] <==> (!sup[j] || tainted(steps@, sup, j)));
                if !sup[j] {
                    lemma_tainted_self(steps@, sup, j);
                }
                lemma_tainted_extend(steps@, sup, j, i as int);
                assert(tainted(steps@, sup, i as int));
            }
        }
        let flag = if supported[i] {
            dep_spoiled
        } else {
            true
        };
        proof {
            if !sup[i as int] {
                lemma_tainted_self(steps@, sup, i as int);
            }
            if !flag {
                // Nothing the scan saw was spoiled, so i is not tainted.
                assert(sup[i as int]);
                if tainted(steps@, sup, i as int) {
                    lemma_tainted_unfold(steps@, sup, i as int);
                    let j = choose|j: int|
                        #[trigger] dep_edge(steps@, j, i as int) && tainted(steps@, sup, j);
                    lemma_adj_edges(steps@, adj@, j, i as int);
                    let k = choose|k: int|
                        0 <= k < adj@[i as int]@.len() && adj@[i as int]@[k] == j;
                    assert(exists|p: int| 0 <= p < q && ord[p] == j);
                    let p = choose|p: int| 0 <= p < q && ord[p] == j;
                    assert(spoiled@[j]);
                    assert(dep_spoiled);
                    assert(false);
                }
            }
            assert(flag <==> (!sup[i as int] || tainted(steps@, sup, i as int)));
        }
        let status = if !enabled {
            PipelineStepStatus::Disabled
        } else if !supported[i] {
            PipelineStepStatus::Missing
        } else if flag {
            PipelineStepStatus::Disabled
        } else {
            PipelineStepStatus::Ready
        };
        let missing: Vec<String> = if !enabled {
            let mut m: Vec<String> = Vec::new();
            m.push(String::from_str("pipeline disabled"));
            proof {
                assert(m.deep_view() =~= seq!["pipeline disabled"@]);
            }
            m
        } else if !supported[i] {
            clone_string_vec(&reasons[i])
        } else {
            Vec::new()
        };
        let entry = PipelinePlanStep {
            id: steps[i].id.clone(),
            step_type: steps[i].step_type.clone(),
            label: clone_opt_string(&steps[i].label),
            needs: clone_string_vec(&steps[i].needs),
            config: clone_step_config(&steps[i].config),
            status,
            missing,
        };
        proof {
            assert(entry.status == spec_plan_status(steps@, sup, enabled, i as int));
            if enabled && entry.status != PipelineStepStatus::Missing {
                assert(entry.missing.deep_view() =~= Seq::<Seq<char>>::empty());
            }
        }
        out.push(entry);
        let ghost old_spoiled = spoiled@;
        spoiled.set(i, flag);
        proof {
            assert forall|p: int|
                0 <= p < q + 1 implies (spoiled@[order@[p] as int] <==> (!sup[order@[p] as int]
                    || tainted(steps@, sup, order@[p] as int))) by {
                if order@[p] as int == i as int {
                } else {
                    assert(ord[p] == order@[p] as int);
                    assert(0 <= ord[p] < n);
                    assert(spoiled@[order@[p] as int] == old_spoiled[order@[p] as int]);
                }
            }
        }
        q = q + 1;
    }
    out
}

// ---------------------------------------------------------------------------
// Planning
// ---------------------------------------------------------------------------

/// The statuses of a plan agree with some support vector: each entry is the
/// feasibility of the step it mirrors.
pub open spec fn plan_statuses_match(
    steps: Seq<PipelineStep>,
    enabled: bool,
    ps: Seq<PipelinePlanStep>,
    sup: Seq<bool>,
    reasons: Seq<Seq<Seq<char>>>,
) -> bool {
    &&& sup.len() == steps.len()
    &&& reasons.len() == steps.len()
    &&& forall|q: int|
        0 <= q < ps.len() ==> (#[trigger] ps[q]).status == spec_plan_status(
            steps,
            sup,
            enabled,
            spec_execution_order(steps)[q],
        )
    &&& forall|q: int|
        0 <= q < ps.len() ==> plan_step_reasons(
            #[trigger] ps[q],
            reasons[spec_execution_order(steps)[q]],
            enabled,
        )
}

/// Everything a successful plan promises: the graph is valid, the entries
/// mirror the steps in execution order, and the statuses and missing reasons
/// agree with some support vector and reason table.
pub open spec fn plan_ok(steps: Seq<PipelineStep>, enabled: bool, ps: Seq<PipelinePlanStep>) -> bool {
    &&& step_ids_unique(steps)
    &&& needs_resolvable(steps)
    &&& spec_execution_order(steps).len() == steps.len()
    &&& ps.len() == steps.len()
    &&& forall|q: int|
        0 <= q < ps.len() ==> plan_step_mirrors(
            #[trigger] ps[q],
            steps[spec_execution_order(steps)[q]],
        )
    &&& exists|sup: Seq<bool>, reasons: Seq<Seq<Seq<char>>>|
        plan_statuses_match(steps, enabled, ps, sup, reasons)
}

/// The graph was refused: duplicate ids, a dangling reference, or a cycle.
pub open spec fn graph_refused(steps: Seq<PipelineStep>, e: Error) -> bool {
    &&& (!step_ids_unique(steps) || !needs_resolvable(steps) || spec_execution_order(
        steps,
    ).len() < steps.len())
    &&& e.code == ErrorCode::ValidationInvalidArgument
}

/// Everything a plan over known support answers promises: as `plan_ok`, with
/// the statuses and missing reasons bound to the given vectors rather than
/// existentially quantified.
pub open spec fn plan_with_support_ok(
    steps: Seq<PipelineStep>,
    sup: Seq<bool>,
    reasons: Seq<Seq<Seq<char>>>,
    enabled: bool,
    ps: Seq<PipelinePlanStep>,
) -> bool {
    &&& step_ids_unique(steps)
    &&& needs_resolvable(steps)
    &&& spec_execution_order(steps).len() == steps.len()
    &&& ps.len() == steps.len()
    &&& forall|q: int|
        0 <= q < ps.len() ==> plan_step_mirrors(
            #[trigger] ps[q],
            steps[spec_execution_order(steps)[q]],
        )
    &&& plan_statuses_match(steps, enabled, ps, sup, reasons)
}

/// Builds the feasibility-annotated plan from the support answers and
/// missing reasons already gathered, one per step: every status is exactly
/// the feasibility the given answers dictate.
#[verifier::spinoff_prover]
pub fn plan_with_support(
    steps: &Vec<PipelineStep>,
    supported: &Vec<bool>,
    reasons: &Vec<Vec<String>>,
    enabled: bool,
) -> (r: Result<Vec<PipelinePlanStep>, Error>)
    requires
        supported@.len() == steps@.len(),
        reasons@.len() == steps@.len(),
    ensures
        match r {
            Ok(ps) => plan_with_support_ok(
                steps@,
                supported@,
                reasons@.map_values(|v: Vec<String>| v.deep_view()),
                enabled,
                ps@,
            ),
            Err(e) => graph_refused(steps@, e),
        },
{
    let order = match execution_order(steps) {
        Ok(o) => o,
        Err(e) => {
            return Err(e);
        },
    };
    let adj = match resolve_needs(steps) {
        Ok(a) => a,
        Err(e) => {
            return Err(e);
        },
    };
    let ps = mark_feasibility(steps, &adj, &order, supported, reasons, enabled);
    proof {
        let ord = spec_execution_order(steps@);
        let rmodel = reasons@.map_values(|v: Vec<String>| v.deep_view());
        assert forall|q: int| 0 <= q < ps@.len() implies plan_step_mirrors(
            #[trigger] ps@[q],
            steps@[ord[q]],
        ) by {
            assert(ord[q] == order@[q] as int);
        }
        assert forall|q: int|
            0 <= q < ps@.len() implies (#[trigger] ps@[q]).status == spec_plan_status(
            steps@,
            supported@,
            enabled,
            ord[q],
        ) by {
            assert(ord[q] == order@[q] as int);
        }
        assert forall|q: int|
            0 <= q < ps@.len() implies plan_step_reasons(
            #[trigger] ps@[q],
            rmodel[ord[q]],
            enabled,
        ) by {
            assert(ord[q] == order@[q] as int);
            assert(rmodel[ord[q]] == reasons@[order@[q] as int].deep_view());
        }
        assert(plan_statuses_match(steps@, enabled, ps@, supported@, rmodel));
        assert(plan_with_support_ok(steps@, supported@, rmodel, enabled, ps@));
    }
    Ok(ps)
}

/// Asks the resolver about every step type, one answer per step.
fn query_resolver<R: PipelineCapabilityResolver>(
    steps: &Vec<PipelineStep>,
    resolver: &R,
) -> (r: (Vec<bool>, Vec<Vec<String>>))
    ensures
        r.0@.len() == steps@.len(),
        r.1@.len() == steps@.len(),
{
    let n = steps.len();
    let mut supported: Vec<bool> = Vec::new();
    let mut reasons: Vec<Vec<String>> = Vec::new();
    let mut i: usize = 0;
    while i < n
        invariant
            0 <= i <= n,
            n == steps@.len(),
            supported@.len() == i,
            reasons@.len() == i,
        decreases n - i,
    {
        let sup_i = resolver.is_supported(steps[i].step_type.as_str());
        supported.push(sup_i);
        if sup_i {
            reasons.push(Vec::new());
        } else {
            reasons.push(resolver.missing(steps[i].step_type.as_str()));
        }
        i = i + 1;
    }
    (supported, reasons)
}

/// Builds the feasibility-annotated plan: validates the graph, orders the
/// steps, asks the resolver about each step type, and propagates Missing
/// through `needs` as Disabled. No step executes.
#[verifier::spinoff_prover]
pub fn plan<R: PipelineCapabilityResolver>(
    steps: &Vec<PipelineStep>,
    resolver: &R,
    enabled: bool,
) -> (r: Result<Vec<PipelinePlanStep>, Error>)
    ensures
        match r {
            Ok(ps) => plan_ok(steps@, enabled, ps@),
            Err(e) => graph_refused(steps@, e),
        },
{
    let (supported, reasons) = query_resolver(steps, resolver);
    let r = plan_with_support(steps, &supported, &reasons, enabled);
    proof {
        match &r {
            Ok(ps) => {
                let rmodel = reasons@.map_values(|v: Vec<String>| v.deep_view());
                assert(plan_statuses_match(steps@, enabled, ps@, supported@, rmodel));
                assert(plan_ok(steps@, enabled, ps@));
            },
            Err(_) => {},
        }
    }
    r
}

// ---------------------------------------------------------------------------
// Running
// ---------------------------------------------------------------------------

/// How many results carry the given status.
pub open spec fn count_status(results: Seq<PipelineStepResult>, st: PipelineRunStatus) -> nat
    decreases results.len(),
{
    if results.len() == 0 {
        0
    } else {
        count_status(results.drop_last(), st) + (if results.last().status == st {
            1nat
        } else {
            0nat
        })
    }
}

proof fn lemma_count_snoc(results: Seq<PipelineStepResult>, x: PipelineStepResult, st: PipelineRunStatus)
    ensures
        count_status(results.push(x), st) == count_status(results, st) + (if x.status == st {
            1nat
        } else {
            0nat
        }),
{
    let p = results.push(x);
    assert(p.drop_last() =~= results);
    assert(p.last() == x);
}

/// Ready steps are Blocked exactly when an earlier dependency did not succeed.
#[verifier::opaque]
pub open spec fn blocked_exactly_on_deps(
    steps: Seq<PipelineStep>,
    ord: Seq<int>,
    sup: Seq<bool>,
    enabled: bool,
    results: Seq<PipelineStepResult>,
) -> bool {
    forall|p: int|
        0 <= p < results.len() && spec_plan_status(steps, sup, enabled, ord[p])
            == PipelineStepStatus::Ready ==> (((#[trigger] results[p]).status
            == PipelineRunStatus::Blocked) <==> exists|w: int|
            0 <= w < p && #[trigger] dep_edge(steps, ord[w], ord[p]) && results[w].status
                != PipelineRunStatus::Success)
}

/// The dependency scan over recorded statuses agrees with the blocked
/// condition over earlier results.
proof fn lemma_scan_blocked(
    steps: Seq<PipelineStep>,
    adj: Seq<Vec<usize>>,
    ord: Seq<int>,
    recorded: Seq<PipelineRunStatus>,
    results: Seq<PipelineStepResult>,
    q: int,
    i: int,
)
    requires
        step_ids_unique(steps),
        adj_wf(steps, adj),
        is_valid_order(steps, ord),
        0 <= q < ord.len(),
        ord[q] == i,
        results.len() == q,
        recorded.len() == steps.len(),
        forall|p: int| 0 <= p < q ==> #[trigger] recorded[ord[p]] == results[p].status,
    ensures
        (exists|u: int|
            0 <= u < adj[i]@.len() && #[trigger] recorded[adj[i]@[u] as int]
                != PipelineRunStatus::Success) <==> (exists|w: int|
            0 <= w < q && #[trigger] dep_edge(steps, ord[w], i) && results[w].status
                != PipelineRunStatus::Success),
{
    assert(0 <= i < steps.len());
    if exists|u: int|
        0 <= u < adj[i]@.len() && #[trigger] recorded[adj[i]@[u] as int]
            != PipelineRunStatus::Success {
        let u = choose|u: int|
            0 <= u < adj[i]@.len() && #[trigger] recorded[adj[i]@[u] as int]
                != PipelineRunStatus::Success;
        let j = adj[i]@[u] as int;
        lemma_adj_edges(steps, adj, j, i);
        assert(dep_edge(steps, j, i));
        assert(exists|p: int| 0 <= p < q && ord[p] == j);
        let p = choose|p: int| 0 <= p < q && ord[p] == j;
        assert(recorded[ord[p]] == results[p].status);
        assert(results[p].status != PipelineRunStatus::Success);
        assert(dep_edge(steps, ord[p], i));
    }
    if exists|w: int|
        0 <= w < q && #[trigger] dep_edge(steps, ord[w], i) && results[w].status
            != PipelineRunStatus::Success {
        let w = choose|w: int|
            0 <= w < q && #[trigger] dep_edge(steps, ord[w], i) && results[w].status
                != PipelineRunStatus::Success;
        let j = ord[w];
        lemma_adj_edges(steps, adj, j, i);
        let k = choose|k: int| 0 <= k < adj[i]@.len() && adj[i]@[k] == j;
        assert(recorded[ord[w]] == results[w].status);
        assert(recorded[adj[i]@[k] as int] != PipelineRunStatus::Success);
    }
}

/// Appending one classified result preserves the blocked-exactly-when
/// invariant for the whole prefix.
proof fn lemma_blocked_iff_extends(
    steps: Seq<PipelineStep>,
    ord: Seq<int>,
    sup: Seq<bool>,
    enabled: bool,
    old_results: Seq<PipelineStepResult>,
    results: Seq<PipelineStepResult>,
)
    requires
        results.len() == old_results.len() + 1,
        forall|w: int| 0 <= w < old_results.len() ==> #[trigger] results[w] == old_results[w],
        blocked_exactly_on_deps(steps, ord, sup, enabled, old_results),
        spec_plan_status(steps, sup, enabled, ord[old_results.len() as int])
            == PipelineStepStatus::Ready ==> ((results[old_results.len() as int].status
            == PipelineRunStatus::Blocked) <==> exists|w: int|
            0 <= w < old_results.len() && #[trigger] dep_edge(
                steps,
                ord[w],
                ord[old_results.len() as int],
            ) && results[w].status != PipelineRunStatus::Success),
    ensures
        blocked_exactly_on_deps(steps, ord, sup, enabled, results),
{
    reveal(blocked_exactly_on_deps);
    let n0 = old_results.len() as int;
    assert forall|p: int|
        0 <= p < results.len() && spec_plan_status(steps, sup, enabled, ord[p])
            == PipelineStepStatus::Ready implies (((#[trigger] results[p]).status
        == PipelineRunStatus::Blocked) <==> exists|w: int|
        0 <= w < p && #[trigger] dep_edge(steps, ord[w], ord[p]) && results[w].status
            != PipelineRunStatus::Success) by {
        if p < n0 {
            assert(results[p] == old_results[p]);
            if old_results[p].status == PipelineRunStatus::Blocked {
                let w = choose|w: int|
                    0 <= w < p && #[trigger] dep_edge(steps, ord[w], ord[p])
                        && old_results[w].status != PipelineRunStatus::Success;
                assert(results[w].status != PipelineRunStatus::Success);
            } else {
                if exists|w: int|
                    0 <= w < p && #[trigger] dep_edge(steps, ord[w], ord[p])
                        && results[w].status != PipelineRunStatus::Success {
                    let w = choose|w: int|
                        0 <= w < p && #[trigger] dep_edge(steps, ord[w], ord[p])
                            && results[w].status != PipelineRunStatus::Success;
                    assert(old_results[w].status != PipelineRunStatus::Success);
                }
            }
        }
    }
}

/// The statuses of a run's results agree with some support vector: steps that
/// were not Ready are Skipped; Ready steps are Blocked exactly when an earlier
/// dependency did not succeed, and otherwise carry the executor's verdict.
pub open spec fn run_statuses_match(
    steps: Seq<PipelineStep>,
    enabled: bool,
    results: Seq<PipelineStepResult>,
    sup: Seq<bool>,
) -> bool {
    let ord = spec_execution_order(steps);
    &&& sup.len() == steps.len()
    &&& forall|q: int|
        0 <= q < results.len() ==> (((#[trigger] results[q]).status
            == PipelineRunStatus::Skipped) <==> spec_plan_status(steps, sup, enabled, ord[q])
            != PipelineStepStatus::Ready)
    &&& blocked_exactly_on_deps(steps, ord, sup, enabled, results)
}

/// Whether any dependency of step `i` has a recorded status other than Success.
fn deps_not_success(
    adj: &Vec<Vec<usize>>,
    recorded: &Vec<PipelineRunStatus>,
    i: usize,
) -> (r: bool)
    requires
        i < adj@.len(),
        forall|k: int|
            0 <= k < adj@[i as int]@.len() ==> #[trigger] adj@[i as int]@[k] < recorded@.len(),
    ensures
        r == exists|u: int|
            0 <= u < adj@[i as int]@.len() && #[trigger] recorded@[adj@[i as int]@[u] as int]
                != PipelineRunStatus::Success,
{
    let row = &adj[i];
    let mut found = false;
    let mut t: usize = 0;
    while t < row.len()
        invariant
            0 <= t <= row@.len(),
            row@ == adj@[i as int]@,
            forall|k: int|
                0 <= k < adj@[i as int]@.len() ==> #[trigger] adj@[i as int]@[k]
                    < recorded@.len(),
            found <==> exists|u: int|
                0 <= u < t && #[trigger] recorded@[row@[u] as int]
                    != PipelineRunStatus::Success,
        decreases row@.len() - t,
    {
        let j = row[t];
        let rj = recorded[j];
        let is_succ = match rj {
            PipelineRunStatus::Success => true,
            _ => false,
        };
        if !is_succ {
            found = true;
            assert(recorded@[row@[t as int] as int] != PipelineRunStatus::Success);
        }
        t = t + 1;
    }
    found
}

/// Builds the result record for one visited step: skipped when not feasible,
/// blocked when a dependency did not succeed, else the executor's verdict
/// with its output attached; an executor error becomes a failed result.
fn build_step_result<E: PipelineStepExecutor>(
    executor: &E,
    step: &PipelineStep,
    ready: bool,
    missing: &Vec<String>,
    dep_not_success: bool,
) -> (r: PipelineStepResult)
    ensures
        r.id@ == step.id@,
        r.step_type@ == step.step_type@,
        !ready ==> r.status == PipelineRunStatus::Skipped,
        ready && dep_not_success ==> r.status == PipelineRunStatus::Blocked,
        ready && !dep_not_success ==> (r.status == PipelineRunStatus::Success || r.status
            == PipelineRunStatus::Failed),
{
    if !ready {
        PipelineStepResult {
            id: step.id.clone(),
            step_type: step.step_type.clone(),
            status: PipelineRunStatus::Skipped,
            data: None,
            error: None,
            hints: Vec::new(),
            missing: clone_string_vec(missing),
            warnings: Vec::new(),
        }
    } else if dep_not_success {
        PipelineStepResult {
            id: step.id.clone(),
            step_type: step.step_type.clone(),
            status: PipelineRunStatus::Blocked,
            data: None,
            error: None,
            hints: Vec::new(),
            missing: Vec::new(),
            warnings: Vec::new(),
        }
    } else {
        match executor.execute_step(step) {
            Ok(outcome) => {
                let st = if outcome.success {
                    PipelineRunStatus::Success
                } else {
                    PipelineRunStatus::Failed
                };
                PipelineStepResult {
                    id: step.id.clone(),
                    step_type: step.step_type.clone(),
                    status: st,
                    data: outcome.data,
                    error: outcome.error,
                    hints: outcome.hints,
                    missing: Vec::new(),
                    warnings: Vec::new(),
                }
            },
            Err(e) => PipelineStepResult {
                id: step.id.clone(),
                step_type: step.step_type.clone(),
                status: PipelineRunStatus::Failed,
                data: None,
                error: Some(e.message),
                hints: Vec::new(),
                missing: Vec::new(),
                warnings: Vec::new(),
            },
        }
    }
}

/// What a completed run promises for the given support answers: every step
/// appears once in execution order; infeasible steps are Skipped, Ready steps
/// are Blocked exactly when an earlier dependency did not succeed and
/// otherwise carry the executor's verdict; the counts tally the statuses.
pub open spec fn run_with_support_ok(
    steps: Seq<PipelineStep>,
    sup: Seq<bool>,
    enabled: bool,
    rr: PipelineRunResult,
) -> bool {
    &&& step_ids_unique(steps)
    &&& needs_resolvable(steps)
    &&& spec_execution_order(steps).len() == steps.len()
    &&& rr.steps.len() == steps.len()
    &&& forall|q: int|
        0 <= q < rr.steps.len() ==> (#[trigger] rr.steps[q]).id@
            == steps[spec_execution_order(steps)[q]].id@
    &&& forall|q: int|
        0 <= q < rr.steps.len() ==> (#[trigger] rr.steps[q]).step_type@
            == steps[spec_execution_order(steps)[q]].step_type@
    &&& run_statuses_match(steps, enabled, rr.steps@, sup)
    &&& rr.succeeded == count_status(rr.steps@, PipelineRunStatus::Success)
    &&& rr.failed == count_status(rr.steps@, PipelineRunStatus::Failed)
    &&& rr.blocked == count_status(rr.steps@, PipelineRunStatus::Blocked)
    &&& rr.skipped == count_status(rr.steps@, PipelineRunStatus::Skipped)
}

/// Runs the pipeline over support answers already gathered, one per step:
/// graph construction, feasibility, then execution in order. A step whose
/// dependency did not succeed is Blocked without being executed; other
/// branches still run. The run never aborts early: every step is visited and
/// appears in the results.
#[verifier::rlimit(100)]
#[verifier::spinoff_prover]
pub fn run_with_support<E: PipelineStepExecutor>(
    steps: &Vec<PipelineStep>,
    executor: &E,
    supported: &Vec<bool>,
    reasons: &Vec<Vec<String>>,
    enabled: bool,
) -> (r: Result<PipelineRunResult, Error>)
    requires
        supported@.len() == steps@.len(),
        reasons@.len() == steps@.len(),
    ensures
        match r {
            Ok(rr) => run_with_support_ok(steps@, supported@, enabled, rr),
            Err(e) => graph_refused(steps@, e),
        },
{
    let order = match execution_order(steps) {
        Ok(o) => o,
        Err(e) => {
            return Err(e);
        },
    };
    let adj = match resolve_needs(steps) {
        Ok(a) => a,
        Err(e) => {
            return Err(e);
        },
    };
    let n = steps.len();
    let ps = mark_feasibility(steps, &adj, &order, supported, reasons, enabled);
    let ghost ord = spec_execution_order(steps@);
    proof {
        assert(ord =~= order@.map_values(|u: usize| u as int));
    }

    let mut recorded: Vec<PipelineRunStatus> = Vec::new();
    let mut z: usize = 0;
    while z < n
        invariant
            recorded@.len() == z,
            z <= n,
        decreases n - z,
    {
        recorded.push(PipelineRunStatus::Skipped);
        z = z + 1;
    }

    let mut results: Vec<PipelineStepResult> = Vec::new();
    proof {
        assert(blocked_exactly_on_deps(steps@, ord, supported@, enabled, results@)) by {
            reveal(blocked_exactly_on_deps);
        }
    }
    let mut succeeded: usize = 0;
    let mut failed: usize = 0;
    let mut blocked: usize = 0;
    let mut skipped: usize = 0;
    let mut q: usize = 0;
    while q < n
        invariant
            n == steps@.len(),
            step_ids_unique(steps@),
            needs_resolvable(steps@),
            adj_wf(steps@, adj@),
            order@.len() == n,
            ord == spec_execution_order(steps@),
            ord == order@.map_values(|u: usize| u as int),
            is_valid_order(steps@, ord),
            supported@.len() == n,
            ps@.len() == n,
            forall|p: int|
                0 <= p < n ==> #[trigger] ps@[p].status == spec_plan_status(
                    steps@,
                    supported@,
                    enabled,
                    ord[p],
                ),
            recorded@.len() == n,
            0 <= q <= n,
            results@.len() == q,
            succeeded <= q && failed <= q && blocked <= q && skipped <= q,
            succeeded == count_status(results@, PipelineRunStatus::Success),
            failed == count_status(results@, PipelineRunStatus::Failed),
            blocked == count_status(results@, PipelineRunStatus::Blocked),
            skipped == count_status(results@, PipelineRunStatus::Skipped),
            forall|p: int|
                0 <= p < q ==> (#[trigger] results@[p]).id@ == steps@[ord[p]].id@,
            forall|p: int|
                0 <= p < q ==> (#[trigger] results@[p]).step_type@
                    == steps@[ord[p]].step_type@,
            forall|p: int|
                0 <= p < q ==> #[trigger] recorded@[ord[p]] == results@[p].status,
            forall|p: int|
                0 <= p < q ==> (((#[trigger] results@[p]).status
                    == PipelineRunStatus::Skipped) <==> spec_plan_status(
                    steps@,
                    supported@,
                    enabled,
                    ord[p],
                ) != PipelineStepStatus::Ready),
            blocked_exactly_on_deps(steps@, ord, supported@, enabled, results@),
        decreases n - q,
    {
        let i = order[q];
        assert(ord[q as int] == i as int);
        assert(i < n);
        let ready = match ps[q].status {
            PipelineStepStatus::Ready => true,
            _ => false,
        };
        proof {
            assert forall|k: int|
                0 <= k < adj@[i as int]@.len() implies #[trigger] adj@[i as int]@[k]
                < recorded@.len() by {}
        }
        let dep_not_success = deps_not_success(&adj, &recorded, i);
        let ghost blocked_here = exists|w: int|
            0 <= w < q && #[trigger] dep_edge(steps@, ord[w], ord[q as int])
                && results@[w].status != PipelineRunStatus::Success;
        proof {
            lemma_scan_blocked(steps@, adj@, ord, recorded@, results@, q as int, i as int);
            assert(dep_not_success == blocked_here);
        }
        let result = build_step_result(executor, &steps[i], ready, &ps[q].missing, dep_not_success);
        let st = result.status;
        match st {
            PipelineRunStatus::Success => {
                succeeded = succeeded + 1;
            },
            PipelineRunStatus::Failed => {
                failed = failed + 1;
            },
            PipelineRunStatus::Blocked => {
                blocked = blocked + 1;
            },
            PipelineRunStatus::Skipped => {
                skipped = skipped + 1;
            },
        }
        let ghost old_results = results@;
        let ghost old_recorded = recorded@;
        recorded.set(i, st);
        results.push(result);
        proof {
            lemma_count_snoc(old_results, results@[q as int], PipelineRunStatus::Success);
            lemma_count_snoc(old_results, results@[q as int], PipelineRunStatus::Failed);
            lemma_count_snoc(old_results, results@[q as int], PipelineRunStatus::Blocked);
            lemma_count_snoc(old_results, results@[q as int], PipelineRunStatus::Skipped);
            assert forall|p: int|
                0 <= p < q + 1 implies #[trigger] recorded@[ord[p]] == results@[p].status by {
                if p < q {
                    if ord[p] == i as int {
                        assert(false);
                    }
                    assert(recorded@[ord[p]] == old_recorded[ord[p]]);
                } else {
                    assert(recorded@[ord[q as int]] == st);
                }
            }
            assert(forall|w: int|
                0 <= w < old_results.len() ==> #[trigger] results@[w] == old_results[w]);
            if spec_plan_status(steps@, supported@, enabled, ord[q as int])
                == PipelineStepStatus::Ready {
                assert(ps@[q as int].status == PipelineStepStatus::Ready);
                assert(ready);
                assert((results@[q as int].status == PipelineRunStatus::Blocked)
                    <==> blocked_here);
            } else {
                assert(!ready);
                assert(results@[q as int].status == PipelineRunStatus::Skipped);
            }
            lemma_blocked_iff_extends(
                steps@,
                ord,
                supported@,
                enabled,
                old_results,
                results@,
            );
        }
        q = q + 1;
    }
    proof {
        assert(run_statuses_match(steps@, enabled, results@, supported@));
    }
    let rr = PipelineRunResult { steps: results, succeeded, failed, blocked, skipped };
    proof {
        assert(run_with_support_ok(steps@, supported@, enabled, rr));
    }
    Ok(rr)
}

/// Runs the pipeline: the same graph construction and feasibility pass as
/// `plan`, with the resolver consulted once per step, then execution.
pub fn run<R: PipelineCapabilityResolver, E: PipelineStepExecutor>(
    steps: &Vec<PipelineStep>,
    executor: &E,
    resolver: &R,
    enabled: bool,
) -> (r: Result<PipelineRunResult, Error>)
    ensures
        match r {
            Ok(rr) => {
                &&& exists|sup: Seq<bool>| run_with_support_ok(steps@, sup, enabled, rr)
                &&& step_ids_unique(steps@)
                &&& needs_resolvable(steps@)
                &&& spec_execution_order(steps@).len() == steps@.len()
            },
            Err(e) => graph_refused(steps@, e),
        },
{
    let (supported, reasons) = query_resolver(steps, resolver);
    let r = run_with_support(steps, executor, &supported, &reasons, enabled);
    proof {
        match &r {
            Ok(rr) => {
                assert(run_with_support_ok(steps@, supported@, enabled, *rr));
            },
            Err(_) => {},
        }
    }
    r
}

// ---------------------------------------------------------------------------
// Properties of the engine
// ---------------------------------------------------------------------------

/// Plan/run symmetry: over one step list, the plan's entries and a run's
/// results name the same step ids in the same order, because both come from
/// the one shared graph construction.
pub proof fn lemma_plan_run_symmetry(
    steps: Seq<PipelineStep>,
    enabled: bool,
    ps: Seq<PipelinePlanStep>,
    results: Seq<PipelineStepResult>,
)
    requires
        plan_ok(steps, enabled, ps),
        results.len() == steps.len(),
        forall|q: int|
            0 <= q < results.len() ==> (#[trigger] results[q]).id@
                == steps[spec_execution_order(steps)[q]].id@,
    ensures
        ps.len() == results.len(),
        forall|q: int| 0 <= q < ps.len() ==> (#[trigger] ps[q]).id@ == results[q].id@,
{
    assert forall|q: int| 0 <= q < ps.len() implies (#[trigger] ps[q]).id@
        == results[q].id@ by {
        assert(plan_step_mirrors(ps[q], steps[spec_execution_order(steps)[q]]));
    }
}

/// A closed chain of `needs` edges.
pub open spec fn is_cycle(steps: Seq<PipelineStep>, c: Seq<int>) -> bool {
    &&& c.len() >= 1
    &&& forall|t: int| 0 <= t < c.len() ==> 0 <= #[trigger] c[t] < steps.len()
    &&& forall|t: int| 0 <= t < c.len() - 1 ==> #[trigger] dep_edge(steps, c[t], c[t + 1])
    &&& dep_edge(steps, c.last(), c[0])
}

/// The position of `x` in `order`.
spec fn pos_of(order: Seq<int>, x: int) -> int {
    choose|p: int| 0 <= p < order.len() && order[p] == x
}

/// In a complete valid order every index of the step list occurs: there are
/// as many distinct in-range entries as slots.
proof fn lemma_order_covers(steps: Seq<PipelineStep>, order: Seq<int>, x: int)
    requires
        is_valid_order(steps, order),
        0 <= x < steps.len(),
    ensures
        0 <= pos_of(order, x) < order.len() && order[pos_of(order, x)] == x,
{
    assert(order.no_duplicates());
    order.unique_seq_to_set();
    lemma_int_range(0, steps.len() as int);
    assert(order.to_set().subset_of(set_int_range(0, steps.len() as int))) by {
        assert forall|y: int| order.to_set().contains(y) implies set_int_range(
            0,
            steps.len() as int,
        ).contains(y) by {
            assert(order.contains(y));
            let p = choose|p: int| 0 <= p < order.len() && order[p] == y;
            assert(0 <= order[p] < steps.len());
        }
    }
    lemma_subset_equality(
        order.to_set(),
        set_int_range(0, steps.len() as int),
    );
    assert(set_int_range(0, steps.len() as int).contains(x));
    assert(order.to_set().contains(x));
    assert(order.contains(x));
    let p = choose|p: int| 0 <= p < order.len() && order[p] == x;
    assert(order[pos_of(order, x)] == x);
    if !(0 <= pos_of(order, x) < order.len()) {
        assert(false);
    }
}

/// Positions in a duplicate-free order are unique.
proof fn lemma_pos_unique(steps: Seq<PipelineStep>, order: Seq<int>, p: int, x: int)
    requires
        is_valid_order(steps, order),
        0 <= p < order.len(),
        order[p] == x,
    ensures
        pos_of(order, x) == p,
{
    let p2 = pos_of(order, x);
    assert(0 <= p2 < order.len() && order[p2] == x);
    if p2 != p {
        if p2 < p {
            assert(order[p2] != order[p]);
        } else {
            assert(order[p] != order[p2]);
        }
        assert(false);
    }
}

/// Along the cycle, positions in a valid order rise strictly.
proof fn lemma_cycle_positions_rise(
    steps: Seq<PipelineStep>,
    c: Seq<int>,
    order: Seq<int>,
    t: int,
)
    requires
        is_cycle(steps, c),
        is_valid_order(steps, order),
        0 <= t < c.len(),
    ensures
        pos_of(order, c[0]) + t <= pos_of(order, c[t]),
    decreases t,
{
    lemma_order_covers(steps, order, c[t]);
    if t == 0 {
    } else {
        lemma_cycle_positions_rise(steps, c, order, t - 1);
        lemma_order_covers(steps, order, c[t - 1]);
        let qt = pos_of(order, c[t]);
        let u = t - 1;
        assert(0 <= u < c.len() - 1);
        assert(dep_edge(steps, c[u], c[u + 1]));
        assert(dep_edge(steps, c[t - 1], c[t]));
        assert(order[qt] == c[t]);
        let w = choose|w: int| 0 <= w < qt && order[w] == c[t - 1];
        lemma_pos_unique(steps, order, w, c[t - 1]);
        assert(pos_of(order, c[t - 1]) < qt);
    }
}

/// A step list with a `needs` cycle admits no complete valid order, so graph
/// construction always fails on it: an Ok result of the engine carries such
/// an order, and nothing partially executes.
pub proof fn lemma_cycle_defeats_order(
    steps: Seq<PipelineStep>,
    c: Seq<int>,
    order: Seq<int>,
)
    requires
        is_cycle(steps, c),
    ensures
        !is_valid_order(steps, order),
{
    if is_valid_order(steps, order) {
        lemma_cycle_positions_rise(steps, c, order, c.len() - 1);
        lemma_order_covers(steps, order, c[0]);
        lemma_order_covers(steps, order, c.last());
        let q0 = pos_of(order, c[0]);
        let ql = pos_of(order, c.last());
        assert(q0 <= ql);
        assert(dep_edge(steps, c.last(), c[0]));
        assert(order[q0] == c[0]);
        let w = choose|w: int| 0 <= w < q0 && order[w] == c.last();
        lemma_pos_unique(steps, order, w, c.last());
        assert(ql < q0);
    }
}

/// A `needs` chain from one step to another.
pub open spec fn reaches(steps: Seq<PipelineStep>, x: int, y: int) -> bool {
    exists|p: Seq<int>|
        {
            &&& p.len() >= 1
            &&& (forall|t: int| 0 <= t < p.len() ==> 0 <= #[trigger] p[t] < steps.len())
            &&& (forall|t: int|
                0 <= t < p.len() - 1 ==> #[trigger] dep_edge(steps, p[t], p[t + 1]))
            &&& p[0] == x
            &&& p.last() == y
        }
}

/// A Missing step disables its whole downstream: every step that reaches back
/// to it through `needs` is not Ready (it is Disabled, or itself Missing).
pub proof fn lemma_missing_disables_reachable(
    steps: Seq<PipelineStep>,
    sup: Seq<bool>,
    x: int,
    y: int,
)
    requires
        0 <= x < steps.len(),
        spec_plan_status(steps, sup, true, x) == PipelineStepStatus::Missing,
        reaches(steps, x, y),
    ensures
        spec_plan_status(steps, sup, true, y) != PipelineStepStatus::Ready,
{
    reveal(tainted);
    let p = choose|p: Seq<int>|
        {
            &&& p.len() >= 1
            &&& (forall|t: int| 0 <= t < p.len() ==> 0 <= #[trigger] p[t] < steps.len())
            &&& (forall|t: int|
                0 <= t < p.len() - 1 ==> #[trigger] dep_edge(steps, p[t], p[t + 1]))
            &&& p[0] == x
            &&& p.last() == y
        };
    assert(!sup[x]);
    assert(bad_path(steps, sup, p));
    assert(tainted(steps, sup, y));
}

/// A supported step that no unsupported step reaches stays Ready: siblings
/// outside a Missing step's downstream are unaffected.
pub proof fn lemma_unreachable_stays_ready(steps: Seq<PipelineStep>, sup: Seq<bool>, y: int)
    requires
        0 <= y < steps.len(),
        sup.len() == steps.len(),
        sup[y],
        forall|x: int| 0 <= x < steps.len() && !sup[x] ==> !reaches(steps, x, y),
    ensures
        spec_plan_status(steps, sup, true, y) == PipelineStepStatus::Ready,
{
    reveal(tainted);
    if tainted(steps, sup, y) {
        let p = choose|p: Seq<int>| bad_path(steps, sup, p) && p.last() == y;
        let x = p[0];
        assert(0 <= x < steps.len());
        assert(!sup[x]);
        assert(reaches(steps, x, y));
        assert(false);
    }
}

/// A failed step blocks each of its dependents, and only dependents of
/// non-successful steps are blocked: independent branches keep their own
/// verdicts.
pub proof fn lemma_failure_blocks_dependents(
    steps: Seq<PipelineStep>,
    enabled: bool,
    results: Seq<PipelineStepResult>,
    sup: Seq<bool>,
    p: int,
    q: int,
)
    requires
        run_statuses_match(steps, enabled, results, sup),
        results.len() == steps.len(),
        spec_execution_order(steps).len() == steps.len(),
        0 <= p < q < results.len(),
        dep_edge(steps, spec_execution_order(steps)[p], spec_execution_order(steps)[q]),
        results[p].status == PipelineRunStatus::Failed,
        spec_plan_status(steps, sup, enabled, spec_execution_order(steps)[q])
            == PipelineStepStatus::Ready,
    ensures
        results[q].status == PipelineRunStatus::Blocked,
{
    reveal(blocked_exactly_on_deps);
    let ord = spec_execution_order(steps);
    assert(results[p].status != PipelineRunStatus::Success);
    assert(exists|w: int|
        0 <= w < q && #[trigger] dep_edge(steps, ord[w], ord[q]) && results[w].status
            != PipelineRunStatus::Success);
}

/// Blocking travels down whole dependency chains: when the head of a chain
/// of `needs` edges through Ready steps did not succeed, every later member
/// of the chain is Blocked — in particular the last.
pub proof fn lemma_failure_blocks_downstream(
    steps: Seq<PipelineStep>,
    enabled: bool,
    results: Seq<PipelineStepResult>,
    sup: Seq<bool>,
    chain: Seq<int>,
)
    requires
        run_statuses_match(steps, enabled, results, sup),
        results.len() == steps.len(),
        spec_execution_order(steps).len() == steps.len(),
        chain.len() >= 2,
        forall|t: int| 0 <= t < chain.len() ==> 0 <= #[trigger] chain[t] < results.len(),
        forall|t: int| 0 <= t < chain.len() - 1 ==> #[trigger] chain[t] < chain[t + 1],
        forall|t: int|
            0 <= t < chain.len() - 1 ==> #[trigger] dep_edge(
                steps,
                spec_execution_order(steps)[chain[t]],
                spec_execution_order(steps)[chain[t + 1]],
            ),
        forall|t: int|
            1 <= t < chain.len() ==> spec_plan_status(
                steps,
                sup,
                enabled,
                spec_execution_order(steps)[#[trigger] chain[t]],
            ) == PipelineStepStatus::Ready,
        results[chain[0]].status != PipelineRunStatus::Success,
    ensures
        results[chain.last()].status == PipelineRunStatus::Blocked,
    decreases chain.len(),
{
    reveal(blocked_exactly_on_deps);
    let ord = spec_execution_order(steps);
    // The second member is blocked directly by the head.
    assert(dep_edge(steps, ord[chain[0]], ord[chain[1]]));
    assert(spec_plan_status(steps, sup, enabled, ord[chain[1]]) == PipelineStepStatus::Ready);
    assert(exists|w: int|
        0 <= w < chain[1] && #[trigger] dep_edge(steps, ord[w], ord[chain[1]])
            && results[w].status != PipelineRunStatus::Success) by {
        assert(0 <= chain[0] < chain[1]);
        assert(dep_edge(steps, ord[chain[0]], ord[chain[1]]));
        assert(results[chain[0]].status != PipelineRunStatus::Success);
    }
    assert(results[chain[1]].status == PipelineRunStatus::Blocked);
    if chain.len() == 2 {
        assert(chain.last() == chain[1]);
    } else {
        let sub = chain.drop_first();
        assert(sub.len() == chain.len() - 1);
        assert forall|t: int| 0 <= t < sub.len() implies 0 <= #[trigger] sub[t]
            < results.len() by {
            assert(sub[t] == chain[t + 1]);
        }
        assert forall|t: int| 0 <= t < sub.len() - 1 implies #[trigger] sub[t] < sub[t
            + 1] by {
            assert(sub[t] == chain[t + 1] && sub[t + 1] == chain[t + 2]);
        }
        assert forall|t: int|
            0 <= t < sub.len() - 1 implies #[trigger] dep_edge(
            steps,
            ord[sub[t]],
            ord[sub[t + 1]],
        ) by {
            assert(sub[t] == chain[t + 1] && sub[t + 1] == chain[t + 2]);
            assert(dep_edge(steps, ord[chain[t + 1]], ord[chain[t + 2]]));
        }
        assert forall|t: int|
            1 <= t < sub.len() implies spec_plan_status(
            steps,
            sup,
            enabled,
            ord[#[trigger] sub[t]],
        ) == PipelineStepStatus::Ready by {
            assert(sub[t] == chain[t + 1]);
        }
        assert(results[sub[0]].status != PipelineRunStatus::Success);
        lemma_failure_blocks_downstream(steps, enabled, results, sup, sub);
        assert(sub.last() == chain.last());
    }
}

/// A Ready step whose dependencies all succeeded is executed rather than
/// blocked or skipped: its result is the executor's own verdict.
pub proof fn lemma_independent_step_runs(
    steps: Seq<PipelineStep>,
    enabled: bool,
    results: Seq<PipelineStepResult>,
    sup: Seq<bool>,
    q: int,
)
    requires
        run_statuses_match(steps, enabled, results, sup),
        results.len() == steps.len(),
        spec_execution_order(steps).len() == steps.len(),
        0 <= q < results.len(),
        spec_plan_status(steps, sup, enabled, spec_execution_order(steps)[q])
            == PipelineStepStatus::Ready,
        forall|w: int|
            0 <= w < q && #[trigger] dep_edge(
                steps,
                spec_execution_order(steps)[w],
                spec_execution_order(steps)[q],
            ) ==> results[w].status == PipelineRunStatus::Success,
    ensures
        results[q].status == PipelineRunStatus::Success || results[q].status
            == PipelineRunStatus::Failed,
{
    reveal(blocked_exactly_on_deps);
    let ord = spec_execution_order(steps);
    assert(results[q].status != PipelineRunStatus::Skipped);
    if results[q].status == PipelineRunStatus::Blocked {
        let w = choose|w: int|
            0 <= w < q && #[trigger] dep_edge(steps, ord[w], ord[q]) && results[w].status
                != PipelineRunStatus::Success;
        assert(false);
    }
}

} // verus!
