//! The execution engine: plans a workflow run as a sequence of steps and
//! replays them one tick at a time; and the validation of a workflow graph.

use vstd::prelude::*;
use crate::multi_agent_orchestrator::types::{string_views, LogLevel, OrchestratorEdge, OrchestratorNode, OrchestratorNodeType, ValidationError};
use crate::text::{decimal, four_digits, join3, seq_lt, str_eq, str_lt, u64_to_decimal, four_digit_decimal, utf8_byte_len, utf8_len};
use crate::text::{lemma_seq_lt_asymmetric, lemma_seq_lt_total, lemma_seq_lt_transitive};

verus! {

/// A step in the execution simulation.
#[derive(Debug)]
pub enum ExecutionStep {
    /// Start executing a node.
    StartNode(String),
    /// Complete a node with output.
    CompleteNode(String, String),
    /// Fail a node with an error.
    FailNode(String, String),
    /// Retry a node.
    RetryNode(String, u32),
    /// Skip a node.
    SkipNode(String),
    /// Log a message from a node.
    Log(String, LogLevel, String),
    /// Mark an edge as active (data flowing).
    ActivateEdge(String),
    /// Mark an edge as inactive.
    DeactivateEdge(String),
    /// Wait for the given number of milliseconds (simulation timing).
    Wait(u64),
}

/// What a step says, with its texts as character sequences.
pub enum StepSpec {
    StartNode(Seq<char>),
    CompleteNode(Seq<char>, Seq<char>),
    FailNode(Seq<char>, Seq<char>),
    RetryNode(Seq<char>, u32),
    SkipNode(Seq<char>),
    Log(Seq<char>, LogLevel, Seq<char>),
    ActivateEdge(Seq<char>),
    DeactivateEdge(Seq<char>),
    Wait(u64),
}

impl View for ExecutionStep {
    type V = StepSpec;

    open spec fn view(&self) -> StepSpec {
        match self {
            ExecutionStep::StartNode(a) => StepSpec::StartNode(a@),
            ExecutionStep::CompleteNode(a, b) => StepSpec::CompleteNode(a@, b@),
            ExecutionStep::FailNode(a, b) => StepSpec::FailNode(a@, b@),
            ExecutionStep::RetryNode(a, n) => StepSpec::RetryNode(a@, *n),
            ExecutionStep::SkipNode(a) => StepSpec::SkipNode(a@),
            ExecutionStep::Log(a, l, b) => StepSpec::Log(a@, *l, b@),
            ExecutionStep::ActivateEdge(a) => StepSpec::ActivateEdge(a@),
            ExecutionStep::DeactivateEdge(a) => StepSpec::DeactivateEdge(a@),
            ExecutionStep::Wait(ms) => StepSpec::Wait(*ms),
        }
    }
}

impl Clone for ExecutionStep {
    fn clone(&self) -> (r: Self)
        ensures
            r@ == self@,
    {
        match self {
            ExecutionStep::StartNode(a) => ExecutionStep::StartNode(a.clone()),
            ExecutionStep::CompleteNode(a, b) => ExecutionStep::CompleteNode(a.clone(), b.clone()),
            ExecutionStep::FailNode(a, b) => ExecutionStep::FailNode(a.clone(), b.clone()),
            ExecutionStep::RetryNode(a, n) => ExecutionStep::RetryNode(a.clone(), *n),
            ExecutionStep::SkipNode(a) => ExecutionStep::SkipNode(a.clone()),
            ExecutionStep::Log(a, l, b) => ExecutionStep::Log(a.clone(), *l, b.clone()),
            ExecutionStep::ActivateEdge(a) => ExecutionStep::ActivateEdge(a.clone()),
            ExecutionStep::DeactivateEdge(a) => ExecutionStep::DeactivateEdge(a.clone()),
            ExecutionStep::Wait(ms) => ExecutionStep::Wait(*ms),
        }
    }
}

/// The views of a list of steps.
pub open spec fn step_views(s: Seq<ExecutionStep>) -> Seq<StepSpec> {
    s.map_values(|x: ExecutionStep| x@)
}

/// The execution engine drives workflow execution as a state machine: it holds
/// the planned steps and the index of the next one to hand out.
#[derive(Debug)]
pub struct ExecutionEngine {
    /// The pending steps in the simulation.
    steps: Vec<ExecutionStep>,
    /// Current step index.
    current_step: usize,
    /// Whether the engine has been initialized.
    initialized: bool,
}

impl ExecutionEngine {
    /// The engine never stands past the end of its plan.
    #[verifier::type_invariant]
    spec fn position_within_plan(self) -> bool {
        self.current_step <= self.steps@.len()
    }

    /// The planned steps.
    pub closed spec fn planned(&self) -> Seq<StepSpec> {
        step_views(self.steps@)
    }

    /// The index of the next step to hand out.
    pub closed spec fn position(&self) -> nat {
        self.current_step as nat
    }

    /// Whether a plan has been made since the last reset.
    pub closed spec fn is_initialized(&self) -> bool {
        self.initialized
    }

    /// An engine with no plan.
    pub fn new() -> (r: Self)
        ensures
            r.planned().len() == 0,
            r.position() == 0,
            !r.is_initialized(),
    {
        ExecutionEngine { steps: Vec::new(), current_step: 0, initialized: false }
    }

    /// Advance the execution by one step. Returns the step if there is one.
    pub fn tick(&mut self) -> (r: Option<ExecutionStep>)
        ensures
            final(self).planned() == old(self).planned(),
            final(self).is_initialized() == old(self).is_initialized(),
            old(self).position() >= old(self).planned().len() ==> r is None && final(self).position()
                == old(self).position(),
            old(self).position() < old(self).planned().len() ==> r is Some && r->0@ == old(
                self,
            ).planned()[old(self).position() as int] && final(self).position() == old(self).position()
                + 1,
            final(self).position() <= final(self).planned().len(),
    {
        proof {
            use_type_invariant(&*self);
        }
        if self.current_step >= self.steps.len() {
            return None;
        }
        let step = self.steps[self.current_step].clone();
        self.current_step = self.current_step + 1;
        Some(step)
    }

    /// Whether the execution is complete.
    pub fn is_complete(&self) -> (r: bool)
        ensures
            r == (self.position() >= self.planned().len()),
            r == (self.position() == self.planned().len()),
    {
        proof {
            use_type_invariant(self);
        }
        self.current_step >= self.steps.len()
    }

    /// Total number of steps.
    pub fn total_steps(&self) -> (r: usize)
        ensures
            r == self.planned().len(),
    {
        self.steps.len()
    }

    /// Current step index.
    pub fn current_step_index(&self) -> (r: usize)
        ensures
            r == self.position(),
            r <= self.planned().len(),
    {
        proof {
            use_type_invariant(self);
        }
        self.current_step
    }

    /// Reset the engine.
    pub fn reset(&mut self)
        ensures
            final(self).planned().len() == 0,
            final(self).position() == 0,
            !final(self).is_initialized(),
    {
        self.current_step = 0;
        self.steps = Vec::new();
        self.initialized = false;
        assert(step_views(self.steps@) =~= Seq::<StepSpec>::empty());
    }
}

impl Default for ExecutionEngine {
    fn default() -> (r: Self)
        ensures
            r.planned().len() == 0,
            r.position() == 0,
            !r.is_initialized(),
    {
        ExecutionEngine::new()
    }
}

/// Ticking a fresh plan hands out its steps in order: after `k` ticks the
/// engine stands at step `k`, and it is complete exactly when every step was
/// handed out.
pub proof fn law_tick_hands_out_in_order(before: ExecutionEngine, after: ExecutionEngine, out: Option<ExecutionStep>)
    requires
        before.position() < before.planned().len(),
        after.planned() == before.planned(),
        out is Some && out->0@ == before.planned()[before.position() as int],
        after.position() == before.position() + 1,
    ensures
        out->0@ == after.planned()[after.position() - 1],
        (after.position() >= after.planned().len()) <==> (before.position() + 1 == before.planned().len()),
{
}


// ─── Topological order ──────────────────────────────────────────────────────

/// The ids of a list of nodes.
pub open spec fn node_ids(nodes: Seq<OrchestratorNode>) -> Seq<Seq<char>> {
    nodes.map_values(|n: OrchestratorNode| n.id@)
}

/// The target ids of a list of edges.
pub open spec fn edge_targets(edges: Seq<OrchestratorEdge>) -> Seq<Seq<char>> {
    edges.map_values(|e: OrchestratorEdge| e.target_node@)
}

/// The ids the ordering ranges over: every node id and every edge target.
pub open spec fn in_graph(nodes: Seq<OrchestratorNode>, edges: Seq<OrchestratorEdge>, v: Seq<char>) -> bool {
    node_ids(nodes).contains(v) || edge_targets(edges).contains(v)
}

/// Every edge into `v` comes from an id in `done`.
pub open spec fn preds_done(edges: Seq<OrchestratorEdge>, done: Seq<Seq<char>>, v: Seq<char>) -> bool {
    forall|i: int| 0 <= i < edges.len() && edges[i].target_node@ == v ==> done.contains(#[trigger] edges[i].source_node@)
}

/// `v` is not yet ordered and all its predecessors are.
pub open spec fn is_ready(edges: Seq<OrchestratorEdge>, done: Seq<Seq<char>>, v: Seq<char>) -> bool {
    !done.contains(v) && preds_done(edges, done, v)
}

/// `v` is the greatest id (in code-point order) that is ready after `done`.
pub open spec fn is_max_ready(
    nodes: Seq<OrchestratorNode>,
    edges: Seq<OrchestratorEdge>,
    done: Seq<Seq<char>>,
    v: Seq<char>,
) -> bool {
    &&& in_graph(nodes, edges, v)
    &&& is_ready(edges, done, v)
    &&& forall|w: Seq<char>|
        in_graph(nodes, edges, w) && #[trigger] is_ready(edges, done, w) ==> w == v || seq_lt(w, v)
}

/// `order` is the order in which Kahn's algorithm, always taking the greatest
/// ready id next, lists the graph: each id is the greatest one ready after
/// those before it, and at the end no id is ready.
pub open spec fn is_kahn_order(nodes: Seq<OrchestratorNode>, edges: Seq<OrchestratorEdge>, order: Seq<Seq<char>>) -> bool {
    &&& forall|p: int| 0 <= p < order.len() ==> #[trigger] is_max_ready(nodes, edges, order.take(p), order[p])
    &&& forall|w: Seq<char>| in_graph(nodes, edges, w) ==> !#[trigger] is_ready(edges, order, w)
}

/// Whether `s` is one of the strings in `v`.
fn contains_string(v: &Vec<String>, s: &str) -> (r: bool)
    ensures
        r == string_views(v@).contains(s@),
{
    let n = v.len();
    let mut i: usize = 0;
    while i < n
        invariant
            n == v@.len(),
            i <= n,
            forall|k: int| 0 <= k < i ==> v@[k]@ != s@,
        decreases n - i,
    {
        if str_eq(v[i].as_str(), s) {
            assert(string_views(v@)[i as int] == s@);
            return true;
        }
        i = i + 1;
    }
    assert(!string_views(v@).contains(s@)) by {
        if string_views(v@).contains(s@) {
            let k = choose|k: int| 0 <= k < string_views(v@).len() && string_views(v@)[k] == s@;
            assert(v@[k]@ == s@);
        }
    }
    false
}

/// Whether every edge into `v` comes from an id in `done`.
fn preds_all_done(edges: &[OrchestratorEdge], done: &Vec<String>, v: &str) -> (r: bool)
    ensures
        r == preds_done(edges@, string_views(done@), v@),
{
    let n = edges.len();
    let mut i: usize = 0;
    while i < n
        invariant
            n == edges@.len(),
            i <= n,
            forall|k: int| 0 <= k < i && edges@[k].target_node@ == v@ ==> string_views(done@).contains(#[trigger] edges@[k].source_node@),
        decreases n - i,
    {
        if str_eq(edges[i].target_node.as_str(), v) && !contains_string(done, edges[i].source_node.as_str()) {
            return false;
        }
        i = i + 1;
    }
    true
}

/// The ids the ordering ranges over, each once: node ids, then edge targets.
fn graph_ids(nodes: &[OrchestratorNode], edges: &[OrchestratorEdge]) -> (u: Vec<String>)
    ensures
        string_views(u@).no_duplicates(),
        forall|w: Seq<char>| string_views(u@).contains(w) <==> in_graph(nodes@, edges@, w),
{
    let mut u: Vec<String> = Vec::new();
    let n = nodes.len();
    let mut i: usize = 0;
    while i < n
        invariant
            n == nodes@.len(),
            i <= n,
            string_views(u@).no_duplicates(),
            forall|w: Seq<char>| string_views(u@).contains(w) <==> exists|k: int| 0 <= k < i && nodes@[k].id@ == w,
        decreases n - i,
    {
        let ghost before = string_views(u@);
        if !contains_string(&u, nodes[i].id.as_str()) {
            u.push(nodes[i].id.clone());
            assert(string_views(u@) =~= before.push(nodes@[i as int].id@));
        } else {
            assert(string_views(u@) == before);
        }
        assert forall|w: Seq<char>| string_views(u@).contains(w) <==> exists|k: int| 0 <= k < i + 1 && nodes@[k].id@ == w by {
            lemma_push_contains(before, nodes@[i as int].id@, w);
            if before.contains(w) {
                let k = choose|k: int| 0 <= k < i && nodes@[k].id@ == w;
                assert(0 <= k < i + 1 && nodes@[k].id@ == w);
            }
            if exists|k: int| 0 <= k < i + 1 && nodes@[k].id@ == w {
                let k = choose|k: int| 0 <= k < i + 1 && nodes@[k].id@ == w;
                if k < i {
                    assert(exists|k: int| 0 <= k < i && nodes@[k].id@ == w);
                }
            }
        }
        i = i + 1;
    }
    let m = edges.len();
    let mut j: usize = 0;
    while j < m
        invariant
            n == nodes@.len(),
            m == edges@.len(),
            j <= m,
            string_views(u@).no_duplicates(),
            forall|w: Seq<char>| string_views(u@).contains(w) <==>
                (exists|k: int| 0 <= k < n && nodes@[k].id@ == w) || (exists|k: int| 0 <= k < j && edges@[k].target_node@ == w),
        decreases m - j,
    {
        let ghost before = string_views(u@);
        if !contains_string(&u, edges[j].target_node.as_str()) {
            u.push(edges[j].target_node.clone());
            assert(string_views(u@) =~= before.push(edges@[j as int].target_node@));
        } else {
            assert(string_views(u@) == before);
        }
        assert forall|w: Seq<char>| string_views(u@).contains(w) <==>
            (exists|k: int| 0 <= k < n && nodes@[k].id@ == w) || (exists|k: int| 0 <= k < j + 1 && edges@[k].target_node@ == w) by {
            lemma_push_contains(before, edges@[j as int].target_node@, w);
            if before.contains(w) {
                if !(exists|k: int| 0 <= k < n && nodes@[k].id@ == w) {
                    let k = choose|k: int| 0 <= k < j && edges@[k].target_node@ == w;
                    assert(0 <= k < j + 1 && edges@[k].target_node@ == w);
                }
            }
            if exists|k: int| 0 <= k < j + 1 && edges@[k].target_node@ == w {
                let k = choose|k: int| 0 <= k < j + 1 && edges@[k].target_node@ == w;
                if k < j {
                    assert(exists|k: int| 0 <= k < j && edges@[k].target_node@ == w);
                }
            }
        }
        j = j + 1;
    }
    assert forall|w: Seq<char>| string_views(u@).contains(w) <==> in_graph(nodes@, edges@, w) by {
        if exists|k: int| 0 <= k < n && nodes@[k].id@ == w {
            let k = choose|k: int| 0 <= k < n && nodes@[k].id@ == w;
            assert(node_ids(nodes@)[k] == w);
        }
        if exists|k: int| 0 <= k < m && edges@[k].target_node@ == w {
            let k = choose|k: int| 0 <= k < m && edges@[k].target_node@ == w;
            assert(edge_targets(edges@)[k] == w);
        }
        if node_ids(nodes@).contains(w) {
            let k = choose|k: int| 0 <= k < node_ids(nodes@).len() && node_ids(nodes@)[k] == w;
            assert(nodes@[k].id@ == w);
        }
        if edge_targets(edges@).contains(w) {
            let k = choose|k: int| 0 <= k < edge_targets(edges@).len() && edge_targets(edges@)[k] == w;
            assert(edges@[k].target_node@ == w);
        }
    }
    u
}

/// Membership in a sequence with one more element at the end.
proof fn lemma_push_contains<A>(s: Seq<A>, x: A, w: A)
    ensures
        s.push(x).contains(w) <==> s.contains(w) || w == x,
{
    if s.contains(w) {
        let k = choose|k: int| 0 <= k < s.len() && s[k] == w;
        assert(s.push(x)[k] == w);
    }
    if w == x {
        assert(s.push(x)[s.len() as int] == w);
    }
    if s.push(x).contains(w) {
        let k = choose|k: int| 0 <= k < s.push(x).len() && s.push(x)[k] == w;
        if k < s.len() {
            assert(s[k] == w);
        }
    }
}

/// A duplicate-free sequence contained in another duplicate-free sequence that
/// holds one more element is shorter than it.
proof fn lemma_strict_sub_len<A>(a: Seq<A>, b: Seq<A>, x: A)
    requires
        a.no_duplicates(),
        b.no_duplicates(),
        forall|y: A| a.contains(y) ==> b.contains(y),
        b.contains(x),
        !a.contains(x),
    ensures
        a.len() < b.len(),
{
    a.unique_seq_to_set();
    b.unique_seq_to_set();
    assert(a.to_set().subset_of(b.to_set().remove(x)));
    vstd::seq_lib::seq_to_set_is_finite(b);
    vstd::set_lib::lemma_len_subset(a.to_set(), b.to_set().remove(x));
}

/// Orders the workflow's ids topologically, as Kahn's algorithm does when it
/// always takes the greatest ready id: each id comes after every source of an
/// edge into it, and ids on a cycle, or downstream of one or of an edge from an
/// unknown id, are left out.
pub fn topological_sort(nodes: &[OrchestratorNode], edges: &[OrchestratorEdge]) -> (r: Vec<String>)
    ensures
        is_kahn_order(nodes@, edges@, string_views(r@)),
        string_views(r@) == kahn_order(nodes@, edges@),
{
    let u = graph_ids(nodes, edges);
    let mut order: Vec<String> = Vec::new();
    let ulen = u.len();
    loop
        invariant
            ulen == u@.len(),
            string_views(u@).no_duplicates(),
            forall|w: Seq<char>| string_views(u@).contains(w) <==> in_graph(nodes@, edges@, w),
            string_views(order@).no_duplicates(),
            forall|w: Seq<char>| string_views(order@).contains(w) ==> string_views(u@).contains(w),
            order@.len() <= ulen,
            forall|p: int| 0 <= p < order@.len() ==> #[trigger] is_max_ready(
                nodes@,
                edges@,
                string_views(order@).take(p),
                string_views(order@)[p],
            ),
        ensures
            forall|p: int| 0 <= p < order@.len() ==> #[trigger] is_max_ready(
                nodes@,
                edges@,
                string_views(order@).take(p),
                string_views(order@)[p],
            ),
            forall|w: Seq<char>| in_graph(nodes@, edges@, w) ==> !#[trigger] is_ready(edges@, string_views(order@), w),
        decreases ulen - order@.len(),
    {
        let ghost done = string_views(order@);
        let ghost us = string_views(u@);
        let mut best: Option<usize> = None;
        let mut j: usize = 0;
        while j < ulen
            invariant
                ulen == u@.len(),
                us == string_views(u@),
                done == string_views(order@),
                j <= ulen,
                best matches Some(b) ==> b < j && is_ready(edges@, done, us[b as int]),
                best matches Some(b) ==> forall|k: int|
                    0 <= k < j && #[trigger] is_ready(edges@, done, us[k]) ==> us[k] == us[b as int] || seq_lt(us[k], us[b as int]),
                best is None ==> forall|k: int| 0 <= k < j ==> !#[trigger] is_ready(edges@, done, us[k]),
            decreases ulen - j,
        {
            let ready = !contains_string(&order, u[j].as_str()) && preds_all_done(edges, &order, u[j].as_str());
            assert(ready == is_ready(edges@, done, us[j as int]));
            if ready {
                match best {
                    None => {
                        best = Some(j);
                    },
                    Some(b) => {
                        if str_lt(u[b].as_str(), u[j].as_str()) {
                            assert forall|k: int|
                                0 <= k < j + 1 && #[trigger] is_ready(edges@, done, us[k]) implies us[k] == us[j as int] || seq_lt(us[k], us[j as int]) by {
                                if k < j && seq_lt(us[k], us[b as int]) {
                                    lemma_seq_lt_transitive(us[k], us[b as int], us[j as int]);
                                }
                            }
                            best = Some(j);
                        } else {
                            proof { lemma_seq_lt_total(us[b as int], us[j as int]); }
                        }
                    },
                }
            }
            j = j + 1;
        }
        match best {
            None => {
                assert forall|w: Seq<char>| in_graph(nodes@, edges@, w) implies !#[trigger] is_ready(edges@, done, w) by {
                    assert(us.contains(w));
                    let k = choose|k: int| 0 <= k < us.len() && us[k] == w;
                    assert(!is_ready(edges@, done, us[k]));
                }
                break;
            },
            Some(b) => {
                let ghost x = us[b as int];
                assert(us.contains(x));
                assert(is_max_ready(nodes@, edges@, done, x)) by {
                    assert(in_graph(nodes@, edges@, x));
                    assert forall|w: Seq<char>| in_graph(nodes@, edges@, w) && #[trigger] is_ready(edges@, done, w) implies w == x || seq_lt(w, x) by {
                        assert(us.contains(w));
                        let k = choose|k: int| 0 <= k < us.len() && us[k] == w;
                        assert(is_ready(edges@, done, us[k]));
                    }
                }
                proof { lemma_strict_sub_len(done, us, x); }
                order.push(u[b].clone());
                let ghost now = string_views(order@);
                assert(now =~= done.push(x));
                assert(now.take(done.len() as int) =~= done);
                assert forall|p: int| 0 <= p < now.len() implies #[trigger] is_max_ready(nodes@, edges@, now.take(p), now[p]) by {
                    if p < done.len() {
                        assert(now.take(p) =~= done.take(p));
                        assert(now[p] == done[p]);
                    }
                }
            },
        }
    }
    proof { lemma_is_the_kahn_order(nodes@, edges@, string_views(order@)); }
    order
}


/// In a Kahn order every edge into a listed id comes from an id listed earlier.
pub proof fn law_kahn_order_respects_edges(
    nodes: Seq<OrchestratorNode>,
    edges: Seq<OrchestratorEdge>,
    order: Seq<Seq<char>>,
    p: int,
    i: int,
)
    requires
        is_kahn_order(nodes, edges, order),
        0 <= p < order.len(),
        0 <= i < edges.len(),
        edges[i].target_node@ == order[p],
    ensures
        exists|q: int| 0 <= q < p && order[q] == edges[i].source_node@,
{
    assert(is_max_ready(nodes, edges, order.take(p), order[p]));
    assert(order.take(p).contains(edges[i].source_node@));
    let q = choose|q: int| 0 <= q < order.take(p).len() && order.take(p)[q] == edges[i].source_node@;
    assert(order[q] == edges[i].source_node@);
}

/// A Kahn order lists only ids of the graph, each at most once.
pub proof fn law_kahn_order_lists_graph_ids_once(
    nodes: Seq<OrchestratorNode>,
    edges: Seq<OrchestratorEdge>,
    order: Seq<Seq<char>>,
)
    requires
        is_kahn_order(nodes, edges, order),
    ensures
        order.no_duplicates(),
        forall|p: int| 0 <= p < order.len() ==> in_graph(nodes, edges, #[trigger] order[p]),
{
    assert forall|p: int, q: int| 0 <= p < q < order.len() implies order[p] != order[q] by {
        assert(is_max_ready(nodes, edges, order.take(q), order[q]));
        assert(order.take(q)[p] == order[p]);
    }
    assert forall|p: int| 0 <= p < order.len() implies in_graph(nodes, edges, #[trigger] order[p]) by {
        assert(is_max_ready(nodes, edges, order.take(p), order[p]));
    }
}

/// A graph has exactly one Kahn order: the ordering is deterministic.
pub proof fn law_kahn_order_unique(
    nodes: Seq<OrchestratorNode>,
    edges: Seq<OrchestratorEdge>,
    a: Seq<Seq<char>>,
    b: Seq<Seq<char>>,
)
    requires
        is_kahn_order(nodes, edges, a),
        is_kahn_order(nodes, edges, b),
    ensures
        a == b,
{
    let n = if a.len() < b.len() { a.len() } else { b.len() };
    lemma_kahn_common_prefix(nodes, edges, a, b, n as int);
    if a.len() < b.len() {
        assert(a.take(n as int) =~= a);
        assert(is_max_ready(nodes, edges, b.take(n as int), b[n as int]));
        assert(!is_ready(edges, a, b[n as int]));
    } else if b.len() < a.len() {
        assert(b.take(n as int) =~= b);
        assert(is_max_ready(nodes, edges, a.take(n as int), a[n as int]));
        assert(!is_ready(edges, b, a[n as int]));
    } else {
        assert(a =~= a.take(n as int));
        assert(b =~= b.take(n as int));
    }
}

/// Two Kahn orders agree on their first `k` ids.
proof fn lemma_kahn_common_prefix(
    nodes: Seq<OrchestratorNode>,
    edges: Seq<OrchestratorEdge>,
    a: Seq<Seq<char>>,
    b: Seq<Seq<char>>,
    k: int,
)
    requires
        is_kahn_order(nodes, edges, a),
        is_kahn_order(nodes, edges, b),
        0 <= k <= a.len(),
        k <= b.len(),
    ensures
        a.take(k) == b.take(k),
    decreases k,
{
    if k == 0 {
        assert(a.take(0) =~= b.take(0));
    } else {
        lemma_kahn_common_prefix(nodes, edges, a, b, k - 1);
        let done = a.take(k - 1);
        assert(is_max_ready(nodes, edges, a.take(k - 1), a[k - 1]));
        assert(is_max_ready(nodes, edges, b.take(k - 1), b[k - 1]));
        assert(is_ready(edges, done, b[k - 1]));
        assert(is_ready(edges, done, a[k - 1]));
        if a[k - 1] != b[k - 1] {
            assert(seq_lt(b[k - 1], a[k - 1]));
            assert(seq_lt(a[k - 1], b[k - 1]));
            lemma_seq_lt_asymmetric(a[k - 1], b[k - 1]);
        }
        assert(a.take(k) =~= a.take(k - 1).push(a[k - 1]));
        assert(b.take(k) =~= b.take(k - 1).push(b[k - 1]));
    }
}


/// The one Kahn order of a graph.
pub open spec fn kahn_order(nodes: Seq<OrchestratorNode>, edges: Seq<OrchestratorEdge>) -> Seq<Seq<char>> {
    choose|o: Seq<Seq<char>>| is_kahn_order(nodes, edges, o)
}

/// An order that is a Kahn order is the Kahn order.
proof fn lemma_is_the_kahn_order(nodes: Seq<OrchestratorNode>, edges: Seq<OrchestratorEdge>, o: Seq<Seq<char>>)
    requires
        is_kahn_order(nodes, edges, o),
    ensures
        kahn_order(nodes, edges) == o,
{
    let c = kahn_order(nodes, edges);
    assert(is_kahn_order(nodes, edges, c));
    law_kahn_order_unique(nodes, edges, c, o);
}

/// Every edge starts at a node of the workflow.
pub open spec fn sources_are_nodes(nodes: Seq<OrchestratorNode>, edges: Seq<OrchestratorEdge>) -> bool {
    forall|i: int| 0 <= i < edges.len() ==> node_ids(nodes).contains(#[trigger] edges[i].source_node@)
}

/// The ids of the graph, node ids first, as one sequence.
proof fn lemma_graph_seq(nodes: Seq<OrchestratorNode>, edges: Seq<OrchestratorEdge>)
    ensures
        forall|u: Seq<char>| (node_ids(nodes) + edge_targets(edges)).contains(u) <==> in_graph(nodes, edges, u),
{
    let reach = node_ids(nodes) + edge_targets(edges);
    assert forall|u: Seq<char>| reach.contains(u) <==> in_graph(nodes, edges, u) by {
        if reach.contains(u) {
            let k = choose|k: int| 0 <= k < reach.len() && reach[k] == u;
            if k < node_ids(nodes).len() {
                assert(node_ids(nodes)[k] == u);
            } else {
                assert(edge_targets(edges)[k - node_ids(nodes).len()] == u);
            }
        }
        if node_ids(nodes).contains(u) {
            let k = choose|k: int| 0 <= k < node_ids(nodes).len() && node_ids(nodes)[k] == u;
            assert(reach[k] == u);
        } else if edge_targets(edges).contains(u) {
            let k = choose|k: int| 0 <= k < edge_targets(edges).len() && edge_targets(edges)[k] == u;
            assert(reach[k + node_ids(nodes).len()] == u);
        }
    }
}

/// After a Kahn order, with every edge starting at a node, each id of the
/// graph left out has an edge into it from a node left out.
proof fn lemma_left_out_ids_are_stuck(
    nodes: Seq<OrchestratorNode>,
    edges: Seq<OrchestratorEdge>,
    reach: Seq<Seq<char>>,
    order: Seq<Seq<char>>,
)
    requires
        is_kahn_order(nodes, edges, order),
        sources_are_nodes(nodes, edges),
        forall|u: Seq<char>| reach.contains(u) <==> in_graph(nodes, edges, u),
    ensures
        forall|u: Seq<char>| reach.contains(u) ==> order.contains(u) || !elim_ready(edges, reach, order, u),
{
    assert forall|u: Seq<char>| reach.contains(u) implies order.contains(u) || !elim_ready(edges, reach, order, u) by {
        if !order.contains(u) {
            assert(in_graph(nodes, edges, u));
            assert(!is_ready(edges, order, u));
            let i = choose|i: int| 0 <= i < edges.len() && edges[i].target_node@ == u && !order.contains(#[trigger] edges[i].source_node@);
            assert(node_ids(nodes).contains(edges[i].source_node@));
            assert(in_graph(nodes, edges, edges[i].source_node@));
        }
    }
}

/// When no cycle is reachable and every edge starts at a node, the Kahn order
/// lists every id of the graph: nothing is left out.
pub proof fn law_kahn_order_complete(
    nodes: Seq<OrchestratorNode>,
    edges: Seq<OrchestratorEdge>,
    order: Seq<Seq<char>>,
    v: Seq<char>,
)
    requires
        is_kahn_order(nodes, edges, order),
        !reaches_cycle(nodes, edges),
        sources_are_nodes(nodes, edges),
        in_graph(nodes, edges, v),
    ensures
        order.contains(v),
{
    let reach = node_ids(nodes) + edge_targets(edges);
    lemma_graph_seq(nodes, edges);
    if !order.contains(v) {
        lemma_left_out_ids_are_stuck(nodes, edges, reach, order);
        let n = reach.len();
        let c = stuck_chain(edges, reach, order, v, n);
        lemma_stuck_chain(edges, reach, order, v, n);
        lemma_long_chain_repeats(c, reach);
        let (a, b) = choose|a: int, b: int| 0 <= a < b < c.len() && c[a] == c[b];
        assert(is_edge(edges, c[(b - 1) + 1], c[b - 1]));
        let e = choose|e: int| 0 <= e < edges.len() && edges[e].source_node@ == c[b] && #[trigger] edges[e].target_node@ == c[b - 1];
        assert(node_ids(nodes).contains(edges[e].source_node@));
        let p = seq![c[b]];
        assert(is_walk(edges, p));
        lemma_walk_back_along_chain(nodes, edges, p, c, a, b);
    }
}

/// When every edge starts at a node, a cycle is reachable exactly when the
/// Kahn order leaves some id of the graph out: the plan skips work just when
/// validation reports a cycle.
pub proof fn law_cycle_iff_left_out(nodes: Seq<OrchestratorNode>, edges: Seq<OrchestratorEdge>, order: Seq<Seq<char>>)
    requires
        is_kahn_order(nodes, edges, order),
        sources_are_nodes(nodes, edges),
    ensures
        reaches_cycle(nodes, edges) <==> exists|v: Seq<char>| in_graph(nodes, edges, v) && !order.contains(v),
{
    let reach = node_ids(nodes) + edge_targets(edges);
    lemma_graph_seq(nodes, edges);
    if reaches_cycle(nodes, edges) {
        if forall|v: Seq<char>| in_graph(nodes, edges, v) ==> order.contains(v) {
            assert forall|p: int| 0 <= p < order.len() implies #[trigger] elim_ready(edges, reach, order.take(p), order[p]) by {
                assert(is_max_ready(nodes, edges, order.take(p), order[p]));
            }
            law_kahn_order_lists_graph_ids_once(nodes, edges, order);
            assert forall|k: int| 0 <= k < nodes.len() implies reach.contains(#[trigger] nodes[k].id@) by {
                assert(node_ids(nodes)[k] == nodes[k].id@);
                assert(in_graph(nodes, edges, nodes[k].id@));
            }
            assert forall|k: int| 0 <= k < edges.len() && reach.contains(#[trigger] edges[k].source_node@) implies reach.contains(edges[k].target_node@) by {
                assert(edge_targets(edges)[k] == edges[k].target_node@);
                assert(in_graph(nodes, edges, edges[k].target_node@));
            }
            lemma_full_elimination_no_cycle(nodes, edges, reach, order);
        }
    } else {
        if exists|v: Seq<char>| in_graph(nodes, edges, v) && !order.contains(v) {
            let v = choose|v: Seq<char>| in_graph(nodes, edges, v) && !order.contains(v);
            law_kahn_order_complete(nodes, edges, order, v);
        }
    }
}

// ─── Execution plan ─────────────────────────────────────────────────────────

/// The first node with the given id.
pub open spec fn find_node(nodes: Seq<OrchestratorNode>, id: Seq<char>) -> Option<OrchestratorNode>
    decreases nodes.len(),
{
    if nodes.len() == 0 {
        None
    } else if nodes[0].id@ == id {
        Some(nodes[0])
    } else {
        find_node(nodes.drop_first(), id)
    }
}

/// One edge step for each edge into `id`, in edge order: activations when
/// `activate`, deactivations otherwise.
pub open spec fn edge_steps(edges: Seq<OrchestratorEdge>, id: Seq<char>, activate: bool) -> Seq<StepSpec>
    decreases edges.len(),
{
    if edges.len() == 0 {
        seq![]
    } else {
        edge_steps(edges.drop_last(), id, activate) + if edges.last().target_node@ == id {
            if activate {
                seq![StepSpec::ActivateEdge(edges.last().id@)]
            } else {
                seq![StepSpec::DeactivateEdge(edges.last().id@)]
            }
        } else {
            seq![]
        }
    }
}

/// The simulated cost of an agent call, in ten-thousandths of a dollar, for a
/// name of `len` bytes: (150 + 10 len) input tokens at $0.00003 plus
/// (300 + 20 len) output tokens at $0.00006.
pub open spec fn agent_cost_units(len: nat) -> nat {
    225 + 15 * len
}

/// The token report an agent node logs, for a name of `len` bytes.
pub open spec fn tokens_text(len: nat) -> Seq<char> {
    "Tokens: "@ + decimal(150 + 10 * len) + " in, "@ + decimal(300 + 20 * len) + " out, $"@
        + decimal(agent_cost_units(len) / 10000) + "."@ + four_digits(agent_cost_units(len) % 10000) + " est."@
}

/// The steps that run one node, by node kind.
pub open spec fn kind_steps(n: OrchestratorNode) -> Seq<StepSpec> {
    let id = n.id@;
    let name = n.name@;
    match n.node_type {
        OrchestratorNodeType::Agent => seq![
            StepSpec::Log(id, LogLevel::Info, "Agent '"@ + name + "' starting execution..."@),
            StepSpec::StartNode(id),
            StepSpec::Log(id, LogLevel::Debug, tokens_text(utf8_len(name))),
            StepSpec::Wait(800),
        ] + (if n.retry_config.max_retries > 1 {
            seq![
                StepSpec::Log(id, LogLevel::Warn, "Simulating retry scenario..."@),
                StepSpec::RetryNode(id, 1),
                StepSpec::Wait(400),
            ]
        } else {
            seq![]
        }) + seq![StepSpec::CompleteNode(id, "Output from "@ + name + ": processed successfully."@)],
        OrchestratorNodeType::Conditional => seq![
            StepSpec::Log(id, LogLevel::Info, "Evaluating condition at '"@ + name + "'..."@),
            StepSpec::StartNode(id),
            StepSpec::Wait(300),
            StepSpec::CompleteNode(id, "Condition evaluated: true branch taken."@),
        ],
        OrchestratorNodeType::Loop => seq![
            StepSpec::Log(id, LogLevel::Info, "Starting loop '"@ + name + "' (3 iterations)..."@),
            StepSpec::StartNode(id),
            StepSpec::Log(id, LogLevel::Debug, "Loop iteration 1/3"@),
            StepSpec::Wait(300),
            StepSpec::Log(id, LogLevel::Debug, "Loop iteration 2/3"@),
            StepSpec::Wait(300),
            StepSpec::Log(id, LogLevel::Debug, "Loop iteration 3/3"@),
            StepSpec::Wait(300),
            StepSpec::CompleteNode(id, "Loop completed after 3 iterations."@),
        ],
        OrchestratorNodeType::Parallel => seq![
            StepSpec::Log(id, LogLevel::Info, "Parallel execution '"@ + name + "' — fanning out..."@),
            StepSpec::StartNode(id),
            StepSpec::Wait(500),
            StepSpec::Log(id, LogLevel::Info, "All parallel branches completed."@),
            StepSpec::CompleteNode(id, "Parallel execution completed."@),
        ],
        OrchestratorNodeType::Webhook => seq![
            StepSpec::Log(id, LogLevel::Info, "Webhook '"@ + name + "' triggered."@),
            StepSpec::StartNode(id),
            StepSpec::Wait(100),
            StepSpec::CompleteNode(id, "Webhook received and acknowledged."@),
        ],
        OrchestratorNodeType::Schedule => seq![
            StepSpec::Log(id, LogLevel::Info, "Schedule '"@ + name + "' triggered."@),
            StepSpec::StartNode(id),
            StepSpec::Wait(100),
            StepSpec::CompleteNode(id, "Scheduled trigger fired."@),
        ],
        OrchestratorNodeType::DataSource => seq![
            StepSpec::Log(id, LogLevel::Info, "Loading data from '"@ + name + "'..."@),
            StepSpec::StartNode(id),
            StepSpec::Wait(200),
            StepSpec::CompleteNode(id, "Data loaded successfully."@),
        ],
        OrchestratorNodeType::Sink => seq![
            StepSpec::Log(id, LogLevel::Info, "Writing output to '"@ + name + "'..."@),
            StepSpec::StartNode(id),
            StepSpec::Wait(200),
            StepSpec::CompleteNode(id, "Output saved successfully."@),
        ],
    }
}

/// The steps for one id of the order: nothing when no node has that id, else
/// the activation of its incoming edges, the node's own steps, and the
/// deactivation of its incoming edges.
pub open spec fn node_plan(nodes: Seq<OrchestratorNode>, edges: Seq<OrchestratorEdge>, id: Seq<char>) -> Seq<StepSpec> {
    match find_node(nodes, id) {
        None => seq![],
        Some(n) => edge_steps(edges, id, true) + kind_steps(n) + edge_steps(edges, id, false),
    }
}

/// The plan for a list of ids, id by id.
pub open spec fn plan_for(nodes: Seq<OrchestratorNode>, edges: Seq<OrchestratorEdge>, order: Seq<Seq<char>>) -> Seq<StepSpec>
    decreases order.len(),
{
    if order.len() == 0 {
        seq![]
    } else {
        plan_for(nodes, edges, order.drop_last()) + node_plan(nodes, edges, order.last())
    }
}

/// The names of agent nodes are short enough for their token counts to be
/// computed exactly (under a terabyte).
pub open spec fn agent_names_bounded(nodes: Seq<OrchestratorNode>) -> bool {
    forall|i: int| 0 <= i < nodes.len() && nodes[i].node_type == OrchestratorNodeType::Agent
        ==> #[trigger] utf8_len(nodes[i].name@) < 1_000_000_000_000
}

fn push_step(steps: &mut Vec<ExecutionStep>, s: ExecutionStep)
    ensures
        step_views(final(steps)@) == step_views(old(steps)@).push(s@),
{
    let ghost before = steps@;
    steps.push(s);
    assert(step_views(steps@) =~= step_views(before).push(s@));
}

fn log_step(id: &String, level: LogLevel, message: String) -> (r: ExecutionStep)
    ensures
        r@ == StepSpec::Log(id@, level, message@),
{
    ExecutionStep::Log(id.clone(), level, message)
}

/// The first node with the given id.
fn find_node_exec<'a>(nodes: &'a [OrchestratorNode], id: &str) -> (r: Option<&'a OrchestratorNode>)
    ensures
        r is None ==> find_node(nodes@, id@) is None,
        r is Some ==> find_node(nodes@, id@) == Some(*r->0),
        r is Some ==> exists|i: int| 0 <= i < nodes@.len() && nodes@[i] == *r->0,
{
    let n = nodes.len();
    let mut i: usize = 0;
    assert(nodes@.skip(0) =~= nodes@);
    while i < n
        invariant
            n == nodes@.len(),
            i <= n,
            find_node(nodes@, id@) == find_node(nodes@.skip(i as int), id@),
        decreases n - i,
    {
        assert(nodes@.skip(i as int).drop_first() =~= nodes@.skip(i + 1));
        if str_eq(nodes[i].id.as_str(), id) {
            assert(nodes@[i as int] == nodes@.skip(i as int)[0]);
            return Some(&nodes[i]);
        }
        i = i + 1;
    }
    None
}

/// Appends one edge step for each edge into `id`.
fn push_edge_steps(steps: &mut Vec<ExecutionStep>, edges: &[OrchestratorEdge], id: &str, activate: bool)
    ensures
        step_views(final(steps)@) == step_views(old(steps)@) + edge_steps(edges@, id@, activate),
{
    let ghost start = step_views(steps@);
    let n = edges.len();
    let mut i: usize = 0;
    assert(edges@.take(0) =~= Seq::<OrchestratorEdge>::empty());
    assert(start + Seq::<StepSpec>::empty() =~= start);
    while i < n
        invariant
            n == edges@.len(),
            i <= n,
            step_views(steps@) == start + edge_steps(edges@.take(i as int), id@, activate),
        decreases n - i,
    {
        assert(edges@.take(i + 1).drop_last() =~= edges@.take(i as int));
        if str_eq(edges[i].target_node.as_str(), id) {
            let s = if activate {
                ExecutionStep::ActivateEdge(edges[i].id.clone())
            } else {
                ExecutionStep::DeactivateEdge(edges[i].id.clone())
            };
            push_step(steps, s);
        }
        i = i + 1;
    }
    assert(edges@.take(n as int) =~= edges@);
}

/// The token report of an agent node whose name has `len` bytes.
fn tokens_message(len: u64) -> (r: String)
    requires
        len < 1_000_000_000_000,
    ensures
        r@ == tokens_text(len as nat),
{
    let l = len;
    let input_tokens: u64 = 150 + l * 10;
    let output_tokens: u64 = 300 + l * 20;
    let cost_units: u64 = 225 + l * 15;
    let mut r = "Tokens: ".to_string();
    r.append(u64_to_decimal(input_tokens).as_str());
    r.append(" in, ");
    r.append(u64_to_decimal(output_tokens).as_str());
    r.append(" out, $");
    r.append(u64_to_decimal(cost_units / 10000).as_str());
    r.append(".");
    r.append(four_digit_decimal(cost_units % 10000).as_str());
    r.append(" est.");
    assert(r@ =~= tokens_text(len as nat));
    r
}

/// Appends the steps that run `node`.
fn push_kind_steps(steps: &mut Vec<ExecutionStep>, node: &OrchestratorNode)
    requires
        node.node_type == OrchestratorNodeType::Agent ==> utf8_len(node.name@) < 1_000_000_000_000,
    ensures
        step_views(final(steps)@) == step_views(old(steps)@) + kind_steps(*node),
{
    let ghost start = step_views(steps@);
    let id = &node.id;
    let name = node.name.as_str();
    match node.node_type {
        OrchestratorNodeType::Agent => {
            push_step(steps, log_step(id, LogLevel::Info, join3("Agent '", name, "' starting execution...")));
            push_step(steps, ExecutionStep::StartNode(id.clone()));
            let nlen = utf8_byte_len(name);
            push_step(steps, log_step(id, LogLevel::Debug, tokens_message(nlen)));
            push_step(steps, ExecutionStep::Wait(800));
            if node.retry_config.max_retries > 1 {
                push_step(steps, log_step(id, LogLevel::Warn, "Simulating retry scenario...".to_string()));
                push_step(steps, ExecutionStep::RetryNode(id.clone(), 1));
                push_step(steps, ExecutionStep::Wait(400));
            }
            push_step(steps, ExecutionStep::CompleteNode(id.clone(), join3("Output from ", name, ": processed successfully.")));
            assert(step_views(steps@) =~= start + kind_steps(*node));
        },
        OrchestratorNodeType::Conditional => {
            push_step(steps, log_step(id, LogLevel::Info, join3("Evaluating condition at '", name, "'...")));
            push_step(steps, ExecutionStep::StartNode(id.clone()));
            push_step(steps, ExecutionStep::Wait(300));
            push_step(steps, ExecutionStep::CompleteNode(id.clone(), "Condition evaluated: true branch taken.".to_string()));
            assert(step_views(steps@) =~= start + kind_steps(*node));
        },
        OrchestratorNodeType::Loop => {
            push_step(steps, log_step(id, LogLevel::Info, join3("Starting loop '", name, "' (3 iterations)...")));
            push_step(steps, ExecutionStep::StartNode(id.clone()));
            push_step(steps, log_step(id, LogLevel::Debug, "Loop iteration 1/3".to_string()));
            push_step(steps, ExecutionStep::Wait(300));
            push_step(steps, log_step(id, LogLevel::Debug, "Loop iteration 2/3".to_string()));
            push_step(steps, ExecutionStep::Wait(300));
            push_step(steps, log_step(id, LogLevel::Debug, "Loop iteration 3/3".to_string()));
            push_step(steps, ExecutionStep::Wait(300));
            push_step(steps, ExecutionStep::CompleteNode(id.clone(), "Loop completed after 3 iterations.".to_string()));
            assert(step_views(steps@) =~= start + kind_steps(*node));
        },
        OrchestratorNodeType::Parallel => {
            push_step(steps, log_step(id, LogLevel::Info, join3("Parallel execution '", name, "' — fanning out...")));
            push_step(steps, ExecutionStep::StartNode(id.clone()));
            push_step(steps, ExecutionStep::Wait(500));
            push_step(steps, log_step(id, LogLevel::Info, "All parallel branches completed.".to_string()));
            push_step(steps, ExecutionStep::CompleteNode(id.clone(), "Parallel execution completed.".to_string()));
            assert(step_views(steps@) =~= start + kind_steps(*node));
        },
        OrchestratorNodeType::Webhook => {
            push_step(steps, log_step(id, LogLevel::Info, join3("Webhook '", name, "' triggered.")));
            push_step(steps, ExecutionStep::StartNode(id.clone()));
            push_step(steps, ExecutionStep::Wait(100));
            push_step(steps, ExecutionStep::CompleteNode(id.clone(), "Webhook received and acknowledged.".to_string()));
            assert(step_views(steps@) =~= start + kind_steps(*node));
        },
        OrchestratorNodeType::Schedule => {
            push_step(steps, log_step(id, LogLevel::Info, join3("Schedule '", name, "' triggered.")));
            push_step(steps, ExecutionStep::StartNode(id.clone()));
            push_step(steps, ExecutionStep::Wait(100));
            push_step(steps, ExecutionStep::CompleteNode(id.clone(), "Scheduled trigger fired.".to_string()));
            assert(step_views(steps@) =~= start + kind_steps(*node));
        },
        OrchestratorNodeType::DataSource => {
            push_step(steps, log_step(id, LogLevel::Info, join3("Loading data from '", name, "'...")));
            push_step(steps, ExecutionStep::StartNode(id.clone()));
            push_step(steps, ExecutionStep::Wait(200));
            push_step(steps, ExecutionStep::CompleteNode(id.clone(), "Data loaded successfully.".to_string()));
            assert(step_views(steps@) =~= start + kind_steps(*node));
        },
        OrchestratorNodeType::Sink => {
            push_step(steps, log_step(id, LogLevel::Info, join3("Writing output to '", name, "'...")));
            push_step(steps, ExecutionStep::StartNode(id.clone()));
            push_step(steps, ExecutionStep::Wait(200));
            push_step(steps, ExecutionStep::CompleteNode(id.clone(), "Output saved successfully.".to_string()));
            assert(step_views(steps@) =~= start + kind_steps(*node));
        },
    }
    assert(step_views(steps@) =~= start + kind_steps(*node));
}

/// With no nodes, every id plans to nothing.
proof fn lemma_plan_without_nodes(edges: Seq<OrchestratorEdge>, order: Seq<Seq<char>>)
    ensures
        plan_for(Seq::empty(), edges, order) == Seq::<StepSpec>::empty(),
    decreases order.len(),
{
    if order.len() > 0 {
        lemma_plan_without_nodes(edges, order.drop_last());
        assert(plan_for(Seq::empty(), edges, order) =~= Seq::<StepSpec>::empty());
    }
}

impl ExecutionEngine {
    /// Builds the execution plan for a workflow: for each id in the Kahn order,
    /// the steps of the first node with that id, framed by the activation and
    /// deactivation of its incoming edges. The engine restarts at step 0.
    pub fn plan_execution(&mut self, nodes: &[OrchestratorNode], edges: &[OrchestratorEdge])
        requires
            agent_names_bounded(nodes@),
        ensures
            final(self).planned() == plan_for(nodes@, edges@, kahn_order(nodes@, edges@)),
            final(self).position() == 0,
            final(self).is_initialized(),
    {
        self.current_step = 0;
        self.steps = Vec::new();
        self.initialized = true;

        if nodes.len() == 0 {
            proof {
                assert(nodes@ =~= Seq::<OrchestratorNode>::empty());
                lemma_plan_without_nodes(edges@, kahn_order(nodes@, edges@));
            }
            assert(step_views(self.steps@) =~= Seq::<StepSpec>::empty());
            return;
        }
        let mut steps: Vec<ExecutionStep> = Vec::new();

        let order = topological_sort(nodes, edges);
        proof { lemma_is_the_kahn_order(nodes@, edges@, string_views(order@)); }
        let n = order.len();
        let mut k: usize = 0;
        assert(step_views(steps@) =~= Seq::<StepSpec>::empty());
        assert(string_views(order@).take(0) =~= Seq::<Seq<char>>::empty());
        while k < n
            invariant
                n == order@.len(),
                k <= n,
                agent_names_bounded(nodes@),
                step_views(steps@) == plan_for(nodes@, edges@, string_views(order@).take(k as int)),
            decreases n - k,
        {
            let ghost ord = string_views(order@);
            assert(ord.take(k + 1).drop_last() =~= ord.take(k as int));
            assert(ord.take(k + 1).last() == order@[k as int]@);
            let id = order[k].as_str();
            match find_node_exec(nodes, id) {
                None => {
                    assert(node_plan(nodes@, edges@, id@) =~= Seq::<StepSpec>::empty());
                    assert(step_views(steps@) =~= plan_for(nodes@, edges@, ord.take(k + 1)));
                },
                Some(node) => {
                    let ghost before = step_views(steps@);
                    proof {
                        let idx = choose|i: int| 0 <= i < nodes@.len() && nodes@[i] == *node;
                        assert(nodes@[idx].node_type == OrchestratorNodeType::Agent ==> utf8_len(nodes@[idx].name@) < 1_000_000_000_000);
                    }
                    push_edge_steps(&mut steps, edges, id, true);
                    push_kind_steps(&mut steps, node);
                    push_edge_steps(&mut steps, edges, id, false);
                    assert(step_views(steps@) =~= plan_for(nodes@, edges@, ord.take(k + 1)));
                },
            }
            k = k + 1;
        }
        assert(string_views(order@).take(n as int) =~= string_views(order@));
        self.steps = steps;
    }
}


/// `x` is a step that starts node `id`.
pub open spec fn starts_node(x: StepSpec, id: Seq<char>) -> bool {
    x == StepSpec::StartNode(id)
}

/// `x` is a step that ends node `id`: it completes or fails it.
pub open spec fn ends_node(x: StepSpec, id: Seq<char>) -> bool {
    match x {
        StepSpec::CompleteNode(a, _) => a == id,
        StepSpec::FailNode(a, _) => a == id,
        _ => false,
    }
}

/// In `s`, position `i` is the only step that starts `id`, position `j` the
/// only step that ends it, and the start comes first.
pub open spec fn starts_once_then_ends_once(s: Seq<StepSpec>, id: Seq<char>, i: int, j: int) -> bool {
    &&& 0 <= i < j < s.len()
    &&& starts_node(s[i], id)
    &&& ends_node(s[j], id)
    &&& forall|k: int| 0 <= k < s.len() && #[trigger] starts_node(s[k], id) ==> k == i
    &&& forall|k: int| 0 <= k < s.len() && #[trigger] ends_node(s[k], id) ==> k == j
}

/// No step of `s` starts or ends `id`.
pub open spec fn never_starts_or_ends(s: Seq<StepSpec>, id: Seq<char>) -> bool {
    forall|k: int| 0 <= k < s.len() ==> !starts_node(#[trigger] s[k], id) && !ends_node(s[k], id)
}

/// Edge steps only switch edges on or off.
proof fn lemma_edge_steps_touch_no_node(edges: Seq<OrchestratorEdge>, id: Seq<char>, activate: bool, v: Seq<char>)
    ensures
        never_starts_or_ends(edge_steps(edges, id, activate), v),
    decreases edges.len(),
{
    if edges.len() > 0 {
        lemma_edge_steps_touch_no_node(edges.drop_last(), id, activate, v);
        let prev = edge_steps(edges.drop_last(), id, activate);
        let s = edge_steps(edges, id, activate);
        assert forall|k: int| 0 <= k < s.len() implies !starts_node(#[trigger] s[k], v) && !ends_node(s[k], v) by {
            if k < prev.len() {
                assert(s[k] == prev[k]);
            }
        }
    }
}

/// A node's own steps start it at the second step and end it at the last,
/// and no other step starts or ends any node.
proof fn lemma_kind_steps_shape(n: OrchestratorNode)
    ensures
        kind_steps(n).len() >= 2,
        kind_steps(n)[1] == StepSpec::StartNode(n.id@),
        ends_node(kind_steps(n).last(), n.id@),
        forall|k: int| 0 <= k < kind_steps(n).len() && k != 1 ==> !(#[trigger] kind_steps(n)[k] is StartNode),
        forall|k: int| 0 <= k < kind_steps(n).len() - 1 ==> !(#[trigger] kind_steps(n)[k] is CompleteNode)
            && !(kind_steps(n)[k] is FailNode),
{
    let s = kind_steps(n);
    if n.node_type == OrchestratorNodeType::Agent {
        let id = n.id@;
        let name = n.name@;
        let a = seq![
            StepSpec::Log(id, LogLevel::Info, "Agent '"@ + name + "' starting execution..."@),
            StepSpec::StartNode(id),
            StepSpec::Log(id, LogLevel::Debug, tokens_text(utf8_len(name))),
            StepSpec::Wait(800),
        ];
        let r: Seq<StepSpec> = if n.retry_config.max_retries > 1 {
            seq![
                StepSpec::Log(id, LogLevel::Warn, "Simulating retry scenario..."@),
                StepSpec::RetryNode(id, 1),
                StepSpec::Wait(400),
            ]
        } else {
            seq![]
        };
        let c = seq![StepSpec::CompleteNode(id, "Output from "@ + name + ": processed successfully."@)];
        assert(s == a + r + c);
        assert forall|k: int| 0 <= k < s.len() && k != 1 implies !(#[trigger] s[k] is StartNode) by {
            if k < a.len() {
                assert(s[k] == a[k]);
            } else if k < a.len() + r.len() {
                assert(s[k] == r[k - a.len()]);
            } else {
                assert(s[k] == c[k - a.len() - r.len()]);
            }
        }
        assert forall|k: int| 0 <= k < s.len() - 1 implies !(#[trigger] s[k] is CompleteNode) && !(s[k] is FailNode) by {
            if k < a.len() {
                assert(s[k] == a[k]);
            } else {
                assert(s[k] == r[k - a.len()]);
            }
        }
    }
}

/// The first node with an id has that id.
proof fn lemma_find_node_has_id(nodes: Seq<OrchestratorNode>, id: Seq<char>)
    ensures
        find_node(nodes, id) matches Some(n) ==> n.id@ == id,
        node_ids(nodes).contains(id) ==> find_node(nodes, id) is Some,
    decreases nodes.len(),
{
    if nodes.len() > 0 {
        lemma_find_node_has_id(nodes.drop_first(), id);
        if node_ids(nodes).contains(id) && nodes[0].id@ != id {
            let k = choose|k: int| 0 <= k < node_ids(nodes).len() && node_ids(nodes)[k] == id;
            assert(k != 0);
            assert(node_ids(nodes.drop_first())[k - 1] == id);
        }
    }
}

/// Joining step lists: a list that never starts or ends `id` shifts the
/// positions of one that does by its length, and two that never do give one
/// that never does.
proof fn lemma_join_steps(a: Seq<StepSpec>, b: Seq<StepSpec>, id: Seq<char>)
    ensures
        never_starts_or_ends(a, id) && never_starts_or_ends(b, id) ==> never_starts_or_ends(a + b, id),
        forall|i: int, j: int| never_starts_or_ends(a, id) && #[trigger] starts_once_then_ends_once(b, id, i, j)
            ==> starts_once_then_ends_once(a + b, id, a.len() as int + i, a.len() as int + j),
        forall|i: int, j: int| #[trigger] starts_once_then_ends_once(a, id, i, j) && never_starts_or_ends(b, id)
            ==> starts_once_then_ends_once(a + b, id, i, j),
{
    let s = a + b;
    assert forall|k: int| 0 <= k < s.len() implies #[trigger] s[k] == (if k < a.len() { a[k] } else { b[k - a.len()] }) by {}
    if never_starts_or_ends(a, id) && never_starts_or_ends(b, id) {
        assert forall|k: int| 0 <= k < s.len() implies !starts_node(#[trigger] s[k], id) && !ends_node(s[k], id) by {
            if k < a.len() { assert(!starts_node(a[k], id)); } else { assert(!starts_node(b[k - a.len()], id)); }
        }
    }
    assert forall|i: int, j: int| never_starts_or_ends(a, id) && #[trigger] starts_once_then_ends_once(b, id, i, j)
        implies starts_once_then_ends_once(a + b, id, a.len() as int + i, a.len() as int + j) by {
        assert(s[a.len() + i] == b[i]);
        assert(s[a.len() + j] == b[j]);
        assert forall|k: int| 0 <= k < s.len() && #[trigger] starts_node(s[k], id) implies k == a.len() as int + i by {
            if k < a.len() { assert(!starts_node(a[k], id)); } else { assert(starts_node(b[k - a.len()], id)); }
        }
        assert forall|k: int| 0 <= k < s.len() && #[trigger] ends_node(s[k], id) implies k == a.len() as int + j by {
            if k < a.len() { assert(!ends_node(a[k], id)); } else { assert(ends_node(b[k - a.len()], id)); }
        }
    }
    assert forall|i: int, j: int| #[trigger] starts_once_then_ends_once(a, id, i, j) && never_starts_or_ends(b, id)
        implies starts_once_then_ends_once(a + b, id, i, j) by {
        assert(s[i] == a[i]);
        assert(s[j] == a[j]);
        assert forall|k: int| 0 <= k < s.len() && #[trigger] starts_node(s[k], id) implies k == i by {
            if k < a.len() { assert(starts_node(a[k], id)); } else { assert(!starts_node(b[k - a.len()], id)); }
        }
        assert forall|k: int| 0 <= k < s.len() && #[trigger] ends_node(s[k], id) implies k == j by {
            if k < a.len() { assert(ends_node(a[k], id)); } else { assert(!ends_node(b[k - a.len()], id)); }
        }
    }
}

/// The steps planned for one id start and end the node of that id once each,
/// start first, and start or end no other node.
proof fn lemma_node_plan_shape(nodes: Seq<OrchestratorNode>, edges: Seq<OrchestratorEdge>, o: Seq<char>, v: Seq<char>)
    ensures
        find_node(nodes, o) is Some && o == v ==> exists|i: int, j: int|
            starts_once_then_ends_once(node_plan(nodes, edges, o), v, i, j),
        !(find_node(nodes, o) is Some && o == v) ==> never_starts_or_ends(node_plan(nodes, edges, o), v),
{
    lemma_find_node_has_id(nodes, o);
    match find_node(nodes, o) {
        None => {},
        Some(n) => {
            let e1 = edge_steps(edges, o, true);
            let k = kind_steps(n);
            let e2 = edge_steps(edges, o, false);
            lemma_edge_steps_touch_no_node(edges, o, true, v);
            lemma_edge_steps_touch_no_node(edges, o, false, v);
            lemma_kind_steps_shape(n);
            if o == v {
                let last = k.len() - 1;
                assert forall|t: int| 0 <= t < k.len() && #[trigger] starts_node(k[t], v) implies t == 1 by {
                    if t != 1 { assert(!(k[t] is StartNode)); }
                }
                assert forall|t: int| 0 <= t < k.len() && #[trigger] ends_node(k[t], v) implies t == last by {
                    if t != last { assert(!(k[t] is CompleteNode) && !(k[t] is FailNode)); }
                }
                assert(starts_once_then_ends_once(k, v, 1, last));
                lemma_join_steps(e1, k, v);
                lemma_join_steps(e1 + k, e2, v);
                assert(starts_once_then_ends_once(e1 + k + e2, v, e1.len() + 1int, e1.len() + last));
                assert(node_plan(nodes, edges, o) == e1 + k + e2);
                assert(starts_once_then_ends_once(node_plan(nodes, edges, o), v, e1.len() + 1int, e1.len() + last));
            } else {
                assert forall|t: int| 0 <= t < k.len() implies !starts_node(#[trigger] k[t], v) && !ends_node(k[t], v) by {
                    if t == 1 {
                    } else if t == k.len() - 1 {
                    } else {
                        assert(!(k[t] is StartNode));
                        assert(!(k[t] is CompleteNode) && !(k[t] is FailNode));
                    }
                }
                lemma_join_steps(e1, k, v);
                lemma_join_steps(e1 + k, e2, v);
            }
        },
    }
}

/// The plan for an order that lists no id twice starts and ends each listed
/// id that has a node exactly once, start first, and never starts or ends any
/// other id.
proof fn lemma_plan_for_shape(nodes: Seq<OrchestratorNode>, edges: Seq<OrchestratorEdge>, order: Seq<Seq<char>>, v: Seq<char>)
    requires
        order.no_duplicates(),
    ensures
        order.contains(v) && find_node(nodes, v) is Some ==> exists|i: int, j: int|
            starts_once_then_ends_once(plan_for(nodes, edges, order), v, i, j),
        !(order.contains(v) && find_node(nodes, v) is Some) ==> never_starts_or_ends(plan_for(nodes, edges, order), v),
    decreases order.len(),
{
    if order.len() > 0 {
        let front = order.drop_last();
        let o = order.last();
        assert(front.no_duplicates());
        lemma_plan_for_shape(nodes, edges, front, v);
        lemma_node_plan_shape(nodes, edges, o, v);
        let p = plan_for(nodes, edges, front);
        let q = node_plan(nodes, edges, o);
        assert(plan_for(nodes, edges, order) == p + q);
        lemma_join_steps(p, q, v);
        assert(order.contains(v) <==> front.contains(v) || o == v) by {
            if order.contains(v) {
                let k = choose|k: int| 0 <= k < order.len() && order[k] == v;
                if k < front.len() { assert(front[k] == v); }
            }
            if front.contains(v) {
                let k = choose|k: int| 0 <= k < front.len() && front[k] == v;
                assert(order[k] == v);
            }
        }
        if o == v {
            assert(!front.contains(v)) by {
                if front.contains(v) {
                    let k = choose|k: int| 0 <= k < front.len() && front[k] == v;
                    assert(order[k] == order[order.len() - 1]);
                }
            }
            if find_node(nodes, v) is Some {
                let (i, j) = choose|i: int, j: int| starts_once_then_ends_once(q, v, i, j);
                assert(starts_once_then_ends_once(p + q, v, p.len() as int + i, p.len() as int + j));
            }
        } else if order.contains(v) && find_node(nodes, v) is Some {
            let (i, j) = choose|i: int, j: int| starts_once_then_ends_once(p, v, i, j);
            assert(starts_once_then_ends_once(p + q, v, i, j));
        }
    }
}

/// The plan runs every node it reaches exactly once: each node of the workflow
/// that the Kahn order lists is started by exactly one step and ended
/// (completed or failed) by exactly one later step, whatever its kind, and an
/// id that is no node of the workflow is never started or ended.
pub proof fn law_planned_nodes_start_once_then_end_once(
    nodes: Seq<OrchestratorNode>,
    edges: Seq<OrchestratorEdge>,
    order: Seq<Seq<char>>,
    v: Seq<char>,
)
    requires
        is_kahn_order(nodes, edges, order),
    ensures
        node_ids(nodes).contains(v) && order.contains(v) ==> exists|i: int, j: int|
            starts_once_then_ends_once(plan_for(nodes, edges, kahn_order(nodes, edges)), v, i, j),
        !node_ids(nodes).contains(v) ==> never_starts_or_ends(plan_for(nodes, edges, kahn_order(nodes, edges)), v),
{
    lemma_is_the_kahn_order(nodes, edges, order);
    law_kahn_order_lists_graph_ids_once(nodes, edges, order);
    lemma_find_node_has_id(nodes, v);
    lemma_find_node_in_nodes(nodes, v);
    lemma_plan_for_shape(nodes, edges, order, v);
}

/// The node `find_node` gives is one of the nodes.
proof fn lemma_find_node_in_nodes(nodes: Seq<OrchestratorNode>, id: Seq<char>)
    ensures
        find_node(nodes, id) is Some ==> node_ids(nodes).contains(id),
    decreases nodes.len(),
{
    if nodes.len() > 0 {
        lemma_find_node_in_nodes(nodes.drop_first(), id);
        if nodes[0].id@ == id {
            assert(node_ids(nodes)[0] == id);
        } else if find_node(nodes, id) is Some {
            let k = choose|k: int| 0 <= k < node_ids(nodes.drop_first()).len() && node_ids(nodes.drop_first())[k] == id;
            assert(node_ids(nodes)[k + 1] == id);
        }
    }
}

/// When no cycle is reachable and every edge starts at a node, every node of
/// the workflow is started exactly once and then ended exactly once.
pub proof fn law_acyclic_plan_runs_every_node_once(
    nodes: Seq<OrchestratorNode>,
    edges: Seq<OrchestratorEdge>,
    order: Seq<Seq<char>>,
    v: Seq<char>,
)
    requires
        is_kahn_order(nodes, edges, order),
        !reaches_cycle(nodes, edges),
        sources_are_nodes(nodes, edges),
        node_ids(nodes).contains(v),
    ensures
        exists|i: int, j: int| starts_once_then_ends_once(plan_for(nodes, edges, kahn_order(nodes, edges)), v, i, j),
{
    law_kahn_order_complete(nodes, edges, order, v);
    law_planned_nodes_start_once_then_end_once(nodes, edges, order, v);
}

/// The plan for two orders one after the other is the plan for the first
/// followed by the plan for the second.
proof fn lemma_plan_for_add(nodes: Seq<OrchestratorNode>, edges: Seq<OrchestratorEdge>, a: Seq<Seq<char>>, b: Seq<Seq<char>>)
    ensures
        plan_for(nodes, edges, a + b) == plan_for(nodes, edges, a) + plan_for(nodes, edges, b),
    decreases b.len(),
{
    if b.len() == 0 {
        assert(a + b =~= a);
        assert(plan_for(nodes, edges, a) + plan_for(nodes, edges, b) =~= plan_for(nodes, edges, a));
    } else {
        lemma_plan_for_add(nodes, edges, a, b.drop_last());
        assert((a + b).drop_last() =~= a + b.drop_last());
        assert((a + b).last() == b.last());
        assert(plan_for(nodes, edges, a + b) =~= plan_for(nodes, edges, a) + plan_for(nodes, edges, b));
    }
}

/// The steps of the node at position `p` of an order lie between the plan for
/// the ids before it and the plan for the ids up to it.
proof fn lemma_plan_position(nodes: Seq<OrchestratorNode>, edges: Seq<OrchestratorEdge>, order: Seq<Seq<char>>, p: int)
    requires
        order.no_duplicates(),
        0 <= p < order.len(),
        find_node(nodes, order[p]) is Some,
    ensures
        exists|i: int, j: int| {
            &&& #[trigger] starts_once_then_ends_once(plan_for(nodes, edges, order), order[p], i, j)
            &&& plan_for(nodes, edges, order.take(p)).len() <= i
            &&& j < plan_for(nodes, edges, order.take(p + 1)).len()
        },
{
    let v = order[p];
    let a = order.take(p);
    let one = seq![v];
    let b = order.skip(p + 1);
    assert(order =~= a + one + b);
    assert(order.take(p + 1) =~= a + one);
    assert(one.drop_last() =~= Seq::<Seq<char>>::empty());
    assert(one.last() == v);
    assert(plan_for(nodes, edges, one.drop_last()) =~= Seq::<StepSpec>::empty());
    assert(plan_for(nodes, edges, one) =~= node_plan(nodes, edges, v));
    lemma_plan_for_add(nodes, edges, a, one);
    lemma_plan_for_add(nodes, edges, a + one, b);
    assert(a.no_duplicates());
    assert(b.no_duplicates());
    assert(!a.contains(v)) by {
        if a.contains(v) {
            let k = choose|k: int| 0 <= k < a.len() && a[k] == v;
            assert(order[k] == order[p]);
        }
    }
    assert(!b.contains(v)) by {
        if b.contains(v) {
            let k = choose|k: int| 0 <= k < b.len() && b[k] == v;
            assert(order[p + 1 + k] == order[p]);
        }
    }
    lemma_plan_for_shape(nodes, edges, a, v);
    lemma_plan_for_shape(nodes, edges, b, v);
    lemma_node_plan_shape(nodes, edges, v, v);
    let pa = plan_for(nodes, edges, a);
    let q = node_plan(nodes, edges, v);
    let pb = plan_for(nodes, edges, b);
    let (i, j) = choose|i: int, j: int| starts_once_then_ends_once(q, v, i, j);
    lemma_join_steps(pa, q, v);
    lemma_join_steps(pa + q, pb, v);
    assert(starts_once_then_ends_once(pa + q + pb, v, pa.len() + i, pa.len() + j));
    assert(plan_for(nodes, edges, order) == pa + q + pb);
}

/// The plan for a prefix of an order is no longer than the plan for a longer
/// prefix.
proof fn lemma_plan_prefix_len(nodes: Seq<OrchestratorNode>, edges: Seq<OrchestratorEdge>, order: Seq<Seq<char>>, k: int, m: int)
    requires
        0 <= k <= m <= order.len(),
    ensures
        plan_for(nodes, edges, order.take(k)).len() <= plan_for(nodes, edges, order.take(m)).len(),
{
    assert(order.take(m) =~= order.take(k) + order.take(m).skip(k));
    lemma_plan_for_add(nodes, edges, order.take(k), order.take(m).skip(k));
}

/// The plan runs dependencies first: for an edge between two nodes of the
/// workflow, where the Kahn order lists the target, the source node is
/// started and ended once, the target node is started and ended once, and
/// the source has ended before the target starts.
pub proof fn law_plan_ends_source_before_target_starts(
    nodes: Seq<OrchestratorNode>,
    edges: Seq<OrchestratorEdge>,
    order: Seq<Seq<char>>,
    e: int,
)
    requires
        is_kahn_order(nodes, edges, order),
        0 <= e < edges.len(),
        node_ids(nodes).contains(edges[e].source_node@),
        node_ids(nodes).contains(edges[e].target_node@),
        order.contains(edges[e].target_node@),
    ensures
        exists|iu: int, ju: int, iv: int, jv: int| {
            &&& starts_once_then_ends_once(plan_for(nodes, edges, kahn_order(nodes, edges)), edges[e].source_node@, iu, ju)
            &&& starts_once_then_ends_once(plan_for(nodes, edges, kahn_order(nodes, edges)), edges[e].target_node@, iv, jv)
            &&& ju < iv
        },
{
    let u = edges[e].source_node@;
    let v = edges[e].target_node@;
    lemma_is_the_kahn_order(nodes, edges, order);
    law_kahn_order_lists_graph_ids_once(nodes, edges, order);
    let p = choose|p: int| 0 <= p < order.len() && order[p] == v;
    law_kahn_order_respects_edges(nodes, edges, order, p, e);
    let q = choose|q: int| 0 <= q < p && order[q] == u;
    lemma_find_node_has_id(nodes, u);
    lemma_find_node_has_id(nodes, v);
    lemma_plan_position(nodes, edges, order, q);
    lemma_plan_position(nodes, edges, order, p);
    lemma_plan_prefix_len(nodes, edges, order, q + 1, p);
    let plan = plan_for(nodes, edges, order);
    let (iu, ju) = choose|i: int, j: int| {
        &&& #[trigger] starts_once_then_ends_once(plan, order[q], i, j)
        &&& plan_for(nodes, edges, order.take(q)).len() <= i
        &&& j < plan_for(nodes, edges, order.take(q + 1)).len()
    };
    let (iv, jv) = choose|i: int, j: int| {
        &&& #[trigger] starts_once_then_ends_once(plan, order[p], i, j)
        &&& plan_for(nodes, edges, order.take(p)).len() <= i
        &&& j < plan_for(nodes, edges, order.take(p + 1)).len()
    };
    assert(starts_once_then_ends_once(plan, u, iu, ju) && starts_once_then_ends_once(plan, v, iv, jv) && ju < iv);
}

// ─── Workflow validation ────────────────────────────────────────────────────

/// There is an edge from `a` to `b`.
pub open spec fn is_edge(edges: Seq<OrchestratorEdge>, a: Seq<char>, b: Seq<char>) -> bool {
    exists|i: int| 0 <= i < edges.len() && edges[i].source_node@ == a && #[trigger] edges[i].target_node@ == b
}

/// `w` is a non-empty walk along the edges.
pub open spec fn is_walk(edges: Seq<OrchestratorEdge>, w: Seq<Seq<char>>) -> bool {
    &&& w.len() > 0
    &&& forall|k: int| 0 <= k < w.len() - 1 ==> is_edge(edges, #[trigger] w[k], w[k + 1])
}

/// Some walk from a node reaches `v`.
pub open spec fn reachable(nodes: Seq<OrchestratorNode>, edges: Seq<OrchestratorEdge>, v: Seq<char>) -> bool {
    exists|w: Seq<Seq<char>>| is_walk(edges, w) && node_ids(nodes).contains(w[0]) && #[trigger] w.last() == v
}

/// Some walk from a node comes back to an id it has visited: a cycle is
/// reachable from the workflow's nodes.
pub open spec fn reaches_cycle(nodes: Seq<OrchestratorNode>, edges: Seq<OrchestratorEdge>) -> bool {
    exists|w: Seq<Seq<char>>| #[trigger] is_walk(edges, w) && node_ids(nodes).contains(w[0])
        && exists|i: int, j: int| 0 <= i < j < w.len() && w[i] == w[j]
}

/// Some edge starts or ends at `v`.
pub open spec fn touches(edges: Seq<OrchestratorEdge>, v: Seq<char>) -> bool {
    exists|i: int| #![trigger edges[i]] 0 <= i < edges.len() && (edges[i].source_node@ == v || edges[i].target_node@ == v)
}

/// Some edge ends at `v`.
pub open spec fn has_input(edges: Seq<OrchestratorEdge>, v: Seq<char>) -> bool {
    exists|i: int| 0 <= i < edges.len() && #[trigger] edges[i].target_node@ == v
}

/// A finding as its message and whether it is an error (else a warning).
pub open spec fn issue_views(v: Seq<ValidationError>) -> Seq<(Seq<char>, bool)> {
    v.map_values(|e: ValidationError| (e.message@, e.is_error))
}

/// One warning per node that no edge touches, in node order.
pub open spec fn disconnected_issues(nodes: Seq<OrchestratorNode>, edges: Seq<OrchestratorEdge>) -> Seq<(Seq<char>, bool)>
    decreases nodes.len(),
{
    if nodes.len() == 0 {
        seq![]
    } else {
        disconnected_issues(nodes.drop_last(), edges) + if touches(edges, nodes.last().id@) {
            seq![]
        } else {
            seq![("Node '"@ + nodes.last().name@ + "' is disconnected"@, false)]
        }
    }
}

/// Every node has an incoming edge.
pub open spec fn all_have_input(nodes: Seq<OrchestratorNode>, edges: Seq<OrchestratorEdge>) -> bool {
    forall|i: int| 0 <= i < nodes.len() ==> has_input(edges, #[trigger] nodes[i].id@)
}

/// The findings of workflow validation: an error for an empty workflow;
/// otherwise a warning per disconnected node, an error when a cycle is
/// reachable, and a warning when no node is free of inputs.
pub open spec fn workflow_issues(nodes: Seq<OrchestratorNode>, edges: Seq<OrchestratorEdge>) -> Seq<(Seq<char>, bool)> {
    if nodes.len() == 0 {
        seq![("Workflow has no nodes"@, true)]
    } else {
        disconnected_issues(nodes, edges) + (if reaches_cycle(nodes, edges) {
            seq![("Workflow contains a cycle"@, true)]
        } else {
            seq![]
        }) + (if all_have_input(nodes, edges) {
            seq![("No start node found (all nodes have inputs)"@, false)]
        } else {
            seq![]
        })
    }
}

/// Every disconnected-node warning reads "Node '…": its third character is 'd'.
proof fn lemma_disconnected_messages(nodes: Seq<OrchestratorNode>, edges: Seq<OrchestratorEdge>)
    ensures
        forall|k: int| 0 <= k < disconnected_issues(nodes, edges).len() ==> {
            &&& #[trigger] disconnected_issues(nodes, edges)[k].0.len() > 2
            &&& disconnected_issues(nodes, edges)[k].0[2] == 'd'
        },
    decreases nodes.len(),
{
    reveal_strlit("Node '");
    if nodes.len() > 0 {
        let prev = disconnected_issues(nodes.drop_last(), edges);
        let d = disconnected_issues(nodes, edges);
        lemma_disconnected_messages(nodes.drop_last(), edges);
        let m = "Node '"@ + nodes.last().name@ + "' is disconnected"@;
        assert(m[2] == 'd');
        assert forall|k: int| 0 <= k < d.len() implies #[trigger] d[k].0.len() > 2 && d[k].0[2] == 'd' by {
            if k < prev.len() {
                assert(d[k] == prev[k]);
                assert(prev[k].0.len() > 2);
            } else {
                assert(d[k] == (m, false));
            }
        }
    }
}

/// Validation warns that no start node was found exactly when the workflow
/// has nodes and every one of them is the target of some edge: one node free
/// of inputs is enough to silence the warning.
pub proof fn law_start_warning_iff_every_node_has_an_input(nodes: Seq<OrchestratorNode>, edges: Seq<OrchestratorEdge>)
    ensures
        workflow_issues(nodes, edges).contains(("No start node found (all nodes have inputs)"@, false)) <==> {
            &&& nodes.len() > 0
            &&& forall|i: int| #![trigger nodes[i]] 0 <= i < nodes.len()
                ==> exists|j: int| #![trigger edges[j]] 0 <= j < edges.len() && edges[j].target_node@ == nodes[i].id@
        },
{
    let msg = "No start node found (all nodes have inputs)"@;
    let w = workflow_issues(nodes, edges);
    reveal_strlit("No start node found (all nodes have inputs)");
    reveal_strlit("Workflow contains a cycle");
    reveal_strlit("Workflow has no nodes");
    assert(msg[2] == ' ');
    if nodes.len() == 0 {
        if w.contains((msg, false)) {
            assert(w[0].0[2] == 'r');
        }
    } else {
        let d = disconnected_issues(nodes, edges);
        let c: Seq<(Seq<char>, bool)> = if reaches_cycle(nodes, edges) { seq![("Workflow contains a cycle"@, true)] } else { seq![] };
        let st: Seq<(Seq<char>, bool)> = if all_have_input(nodes, edges) { seq![(msg, false)] } else { seq![] };
        assert(w == d + c + st);
        lemma_disconnected_messages(nodes, edges);
        if w.contains((msg, false)) {
            let k = choose|k: int| 0 <= k < w.len() && w[k] == (msg, false);
            if k < d.len() {
                assert(w[k] == d[k]);
                assert(d[k].0.len() > 2);
                assert(d[k].0[2] == 'd');
            } else if k < d.len() + c.len() {
                assert(w[k] == c[k - d.len()]);
                assert(c[k - d.len()].0[2] == 'r');
            } else {
                assert(st.len() > 0);
            }
            assert(all_have_input(nodes, edges));
            assert forall|i: int| #![trigger nodes[i]] 0 <= i < nodes.len()
                implies exists|j: int| #![trigger edges[j]] 0 <= j < edges.len() && edges[j].target_node@ == nodes[i].id@ by {
                assert(has_input(edges, nodes[i].id@));
            }
        }
        if forall|i: int| #![trigger nodes[i]] 0 <= i < nodes.len()
            ==> exists|j: int| #![trigger edges[j]] 0 <= j < edges.len() && edges[j].target_node@ == nodes[i].id@ {
            assert forall|i: int| 0 <= i < nodes.len() implies has_input(edges, #[trigger] nodes[i].id@) by {
                let j = choose|j: int| #![trigger edges[j]] 0 <= j < edges.len() && edges[j].target_node@ == nodes[i].id@;
                assert(edges[j].target_node@ == nodes[i].id@);
            }
            assert(w[w.len() - 1] == (msg, false));
        }
    }
}

/// A duplicate-free sequence whose items all occur in another is no longer
/// than it.
proof fn lemma_sub_len<A>(a: Seq<A>, b: Seq<A>)
    requires
        a.no_duplicates(),
        forall|y: A| a.contains(y) ==> b.contains(y),
    ensures
        a.len() <= b.len(),
{
    a.unique_seq_to_set();
    b.lemma_cardinality_of_set();
    vstd::seq_lib::seq_to_set_is_finite(b);
    assert(a.to_set().subset_of(b.to_set()));
    vstd::set_lib::lemma_len_subset(a.to_set(), b.to_set());
}

/// The ids reachable from the nodes, each once: closed under edges.
fn reachable_ids(nodes: &[OrchestratorNode], edges: &[OrchestratorEdge]) -> (r: Vec<String>)
    ensures
        string_views(r@).no_duplicates(),
        forall|w: Seq<char>| #[trigger] string_views(r@).contains(w) ==> reachable(nodes@, edges@, w),
        forall|i: int| 0 <= i < nodes@.len() ==> string_views(r@).contains(#[trigger] nodes@[i].id@),
        forall|i: int| 0 <= i < edges@.len() && string_views(r@).contains(#[trigger] edges@[i].source_node@)
            ==> string_views(r@).contains(edges@[i].target_node@),
{
    let u = graph_ids(nodes, edges);
    let mut r: Vec<String> = Vec::new();
    let n = nodes.len();
    let mut i: usize = 0;
    while i < n
        invariant
            n == nodes@.len(),
            i <= n,
            string_views(r@).no_duplicates(),
            forall|w: Seq<char>| #[trigger] string_views(r@).contains(w) ==> node_ids(nodes@).contains(w),
            forall|k: int| 0 <= k < i ==> string_views(r@).contains(#[trigger] nodes@[k].id@),
        decreases n - i,
    {
        let ghost before = string_views(r@);
        if !contains_string(&r, nodes[i].id.as_str()) {
            r.push(nodes[i].id.clone());
            assert(string_views(r@) =~= before.push(nodes@[i as int].id@));
        }
        assert forall|w: Seq<char>| #[trigger] string_views(r@).contains(w) implies node_ids(nodes@).contains(w) by {
            lemma_push_contains(before, nodes@[i as int].id@, w);
            if w == nodes@[i as int].id@ {
                assert(node_ids(nodes@)[i as int] == w);
            }
        }
        assert forall|k: int| 0 <= k < i + 1 implies string_views(r@).contains(#[trigger] nodes@[k].id@) by {
            lemma_push_contains(before, nodes@[i as int].id@, nodes@[k].id@);
        }
        i = i + 1;
    }
    assert forall|w: Seq<char>| #[trigger] string_views(r@).contains(w) implies reachable(nodes@, edges@, w) by {
        let walk = seq![w];
        assert(walk.last() == w);
        assert(is_walk(edges@, walk));
    }
    let m = edges.len();
    loop
        invariant
            n == nodes@.len(),
            m == edges@.len(),
            string_views(r@).no_duplicates(),
            forall|w: Seq<char>| #[trigger] string_views(r@).contains(w) ==> reachable(nodes@, edges@, w),
            forall|w: Seq<char>| #[trigger] string_views(r@).contains(w) ==> string_views(u@).contains(w),
            forall|k: int| 0 <= k < n ==> string_views(r@).contains(#[trigger] nodes@[k].id@),
            forall|w: Seq<char>| string_views(u@).contains(w) <==> in_graph(nodes@, edges@, w),
        ensures
            string_views(r@).no_duplicates(),
            forall|w: Seq<char>| #[trigger] string_views(r@).contains(w) ==> reachable(nodes@, edges@, w),
            forall|k: int| 0 <= k < n ==> string_views(r@).contains(#[trigger] nodes@[k].id@),
            forall|k: int| 0 <= k < m && string_views(r@).contains(#[trigger] edges@[k].source_node@)
                ==> string_views(r@).contains(edges@[k].target_node@),
        decreases u@.len() - r@.len(),
    {
        proof { lemma_sub_len(string_views(r@), string_views(u@)); }
        let ghost start_len = r@.len();
        let mut changed = false;
        let mut j: usize = 0;
        while j < m
            invariant
                n == nodes@.len(),
                m == edges@.len(),
                j <= m,
                string_views(r@).no_duplicates(),
                forall|w: Seq<char>| #[trigger] string_views(r@).contains(w) ==> reachable(nodes@, edges@, w),
                forall|w: Seq<char>| #[trigger] string_views(r@).contains(w) ==> string_views(u@).contains(w),
                forall|k: int| 0 <= k < n ==> string_views(r@).contains(#[trigger] nodes@[k].id@),
                forall|w: Seq<char>| string_views(u@).contains(w) <==> in_graph(nodes@, edges@, w),
                changed ==> r@.len() > start_len,
                !changed ==> r@.len() == start_len,
                !changed ==> forall|k: int| 0 <= k < j && string_views(r@).contains(#[trigger] edges@[k].source_node@)
                    ==> string_views(r@).contains(edges@[k].target_node@),
            decreases m - j,
        {
            let ghost before = string_views(r@);
            if contains_string(&r, edges[j].source_node.as_str()) && !contains_string(&r, edges[j].target_node.as_str()) {
                let ghost src = edges@[j as int].source_node@;
                let ghost tgt = edges@[j as int].target_node@;
                r.push(edges[j].target_node.clone());
                assert(string_views(r@) =~= before.push(tgt));
                changed = true;
                assert forall|w: Seq<char>| #[trigger] string_views(r@).contains(w) implies reachable(nodes@, edges@, w)
                    && string_views(u@).contains(w) by {
                    lemma_push_contains(before, tgt, w);
                    if w == tgt {
                        assert(before.contains(src));
                        assert(reachable(nodes@, edges@, src));
                        let walk = choose|walk: Seq<Seq<char>>| is_walk(edges@, walk) && node_ids(nodes@).contains(walk[0]) && #[trigger] walk.last() == src;
                        let longer = walk.push(tgt);
                        assert(is_edge(edges@, src, tgt));
                        assert forall|k: int| 0 <= k < longer.len() - 1 implies is_edge(edges@, #[trigger] longer[k], longer[k + 1]) by {
                            if k < walk.len() - 1 {
                                assert(longer[k] == walk[k] && longer[k + 1] == walk[k + 1]);
                            }
                        }
                        assert(longer[0] == walk[0]);
                        assert(longer.last() == tgt);
                        assert(edge_targets(edges@)[j as int] == tgt);
                        assert(in_graph(nodes@, edges@, tgt));
                    }
                }
                assert forall|k: int| 0 <= k < n implies string_views(r@).contains(#[trigger] nodes@[k].id@) by {
                    lemma_push_contains(before, tgt, nodes@[k].id@);
                }
            }
            j = j + 1;
        }
        proof { lemma_sub_len(string_views(r@), string_views(u@)); }
        if !changed {
            break;
        }
    }
    r
}

/// `v` can be eliminated after `done`: it is not eliminated yet and every
/// edge into it from a reachable id comes from an eliminated one.
pub open spec fn elim_ready(edges: Seq<OrchestratorEdge>, reach: Seq<Seq<char>>, done: Seq<Seq<char>>, v: Seq<char>) -> bool {
    &&& !done.contains(v)
    &&& forall|i: int| 0 <= i < edges.len() && edges[i].target_node@ == v && reach.contains(edges[i].source_node@)
        ==> done.contains(#[trigger] edges[i].source_node@)
}

/// Every id of `elim` was eliminated after the ones before it.
pub open spec fn is_elimination(edges: Seq<OrchestratorEdge>, reach: Seq<Seq<char>>, elim: Seq<Seq<char>>) -> bool {
    forall|p: int| 0 <= p < elim.len() ==> #[trigger] elim_ready(edges, reach, elim.take(p), elim[p])
}

/// The position of `x` in a duplicate-free sequence that holds it.
spec fn pos_of(s: Seq<Seq<char>>, x: Seq<char>) -> int {
    choose|p: int| 0 <= p < s.len() && s[p] == x
}

/// Along a walk inside the reachable ids, elimination positions increase.
proof fn lemma_elim_positions_increase(
    edges: Seq<OrchestratorEdge>,
    reach: Seq<Seq<char>>,
    elim: Seq<Seq<char>>,
    w: Seq<Seq<char>>,
    i: int,
    k: int,
)
    requires
        is_elimination(edges, reach, elim),
        elim.no_duplicates(),
        is_walk(edges, w),
        forall|t: int| 0 <= t < w.len() ==> reach.contains(#[trigger] w[t]),
        forall|y: Seq<char>| reach.contains(y) ==> elim.contains(y),
        0 <= i < k < w.len(),
    ensures
        pos_of(elim, w[i]) < pos_of(elim, w[k]),
    decreases k - i,
{
    let a = w[k - 1];
    let b = w[k];
    assert(is_edge(edges, w[k - 1], w[k]));
    let e = choose|e: int| 0 <= e < edges.len() && edges[e].source_node@ == a && #[trigger] edges[e].target_node@ == b;
    assert(elim.contains(b));
    assert(elim.contains(a));
    let pb = pos_of(elim, b);
    let pa = pos_of(elim, a);
    assert(elim_ready(edges, reach, elim.take(pb), elim[pb]));
    assert(reach.contains(edges[e].source_node@));
    assert(elim.take(pb).contains(a));
    let q = choose|q: int| 0 <= q < elim.take(pb).len() && elim.take(pb)[q] == a;
    assert(elim[q] == a);
    assert(pa == q);
    if i < k - 1 {
        lemma_elim_positions_increase(edges, reach, elim, w, i, k - 1);
    }
}

/// When elimination removes every reachable id, no cycle is reachable.
proof fn lemma_full_elimination_no_cycle(
    nodes: Seq<OrchestratorNode>,
    edges: Seq<OrchestratorEdge>,
    reach: Seq<Seq<char>>,
    elim: Seq<Seq<char>>,
)
    requires
        is_elimination(edges, reach, elim),
        elim.no_duplicates(),
        forall|y: Seq<char>| reach.contains(y) ==> elim.contains(y),
        forall|k: int| 0 <= k < nodes.len() ==> reach.contains(#[trigger] nodes[k].id@),
        forall|k: int| 0 <= k < edges.len() && reach.contains(#[trigger] edges[k].source_node@) ==> reach.contains(edges[k].target_node@),
    ensures
        !reaches_cycle(nodes, edges),
{
    if reaches_cycle(nodes, edges) {
        let w = choose|w: Seq<Seq<char>>| #[trigger] is_walk(edges, w) && node_ids(nodes).contains(w[0])
            && exists|i: int, j: int| 0 <= i < j < w.len() && w[i] == w[j];
        let (i, j) = choose|i: int, j: int| 0 <= i < j < w.len() && w[i] == w[j];
        assert forall|t: int| 0 <= t < w.len() implies reach.contains(#[trigger] w[t]) by {
            lemma_walk_stays_reachable(nodes, edges, reach, w, t);
        }
        lemma_elim_positions_increase(edges, reach, elim, w, i, j);
    }
}

/// A walk from a node stays inside an edge-closed set that holds the nodes.
proof fn lemma_walk_stays_reachable(
    nodes: Seq<OrchestratorNode>,
    edges: Seq<OrchestratorEdge>,
    reach: Seq<Seq<char>>,
    w: Seq<Seq<char>>,
    t: int,
)
    requires
        is_walk(edges, w),
        node_ids(nodes).contains(w[0]),
        forall|k: int| 0 <= k < nodes.len() ==> reach.contains(#[trigger] nodes[k].id@),
        forall|k: int| 0 <= k < edges.len() && reach.contains(#[trigger] edges[k].source_node@) ==> reach.contains(edges[k].target_node@),
        0 <= t < w.len(),
    ensures
        reach.contains(w[t]),
    decreases t,
{
    if t == 0 {
        let k = choose|k: int| 0 <= k < node_ids(nodes).len() && node_ids(nodes)[k] == w[0];
        assert(nodes[k].id@ == w[0]);
    } else {
        lemma_walk_stays_reachable(nodes, edges, reach, w, t - 1);
        assert(is_edge(edges, w[t - 1], w[t]));
        let e = choose|e: int| 0 <= e < edges.len() && edges[e].source_node@ == w[t - 1] && #[trigger] edges[e].target_node@ == w[t];
        assert(reach.contains(edges[e].source_node@));
    }
}

/// An edge into `v` from a reachable id that is not eliminated.
spec fn stuck_edge(edges: Seq<OrchestratorEdge>, reach: Seq<Seq<char>>, elim: Seq<Seq<char>>, v: Seq<char>) -> int {
    choose|i: int| 0 <= i < edges.len() && edges[i].target_node@ == v && reach.contains(edges[i].source_node@)
        && !elim.contains(#[trigger] edges[i].source_node@)
}

/// The source of [`stuck_edge`].
spec fn stuck_pred(edges: Seq<OrchestratorEdge>, reach: Seq<Seq<char>>, elim: Seq<Seq<char>>, v: Seq<char>) -> Seq<char> {
    edges[stuck_edge(edges, reach, elim, v)].source_node@
}

/// Starting from a stuck id, the chain of stuck predecessors.
spec fn stuck_chain(edges: Seq<OrchestratorEdge>, reach: Seq<Seq<char>>, elim: Seq<Seq<char>>, v: Seq<char>, k: nat) -> Seq<Seq<char>>
    decreases k,
{
    if k == 0 {
        seq![v]
    } else {
        let c = stuck_chain(edges, reach, elim, v, (k - 1) as nat);
        c.push(stuck_pred(edges, reach, elim, c.last()))
    }
}

/// The chain stays among the stuck ids, each link an edge backwards.
proof fn lemma_stuck_chain(edges: Seq<OrchestratorEdge>, reach: Seq<Seq<char>>, elim: Seq<Seq<char>>, v: Seq<char>, k: nat)
    requires
        reach.contains(v),
        !elim.contains(v),
        forall|u: Seq<char>| reach.contains(u) ==> elim.contains(u) || !elim_ready(edges, reach, elim, u),
    ensures
        stuck_chain(edges, reach, elim, v, k).len() == k + 1,
        stuck_chain(edges, reach, elim, v, k)[0] == v,
        forall|t: int| 0 <= t <= k ==> reach.contains(#[trigger] stuck_chain(edges, reach, elim, v, k)[t])
            && !elim.contains(stuck_chain(edges, reach, elim, v, k)[t]),
        forall|t: int| 0 <= t < k ==> is_edge(edges, stuck_chain(edges, reach, elim, v, k)[t + 1], #[trigger] stuck_chain(edges, reach, elim, v, k)[t]),
    decreases k,
{
    if k > 0 {
        lemma_stuck_chain(edges, reach, elim, v, (k - 1) as nat);
        let c = stuck_chain(edges, reach, elim, v, (k - 1) as nat);
        let last = c.last();
        assert(reach.contains(c[k - 1]));
        assert(!elim_ready(edges, reach, elim, last));
        let j = stuck_edge(edges, reach, elim, last);
        assert(0 <= j < edges.len() && edges[j].target_node@ == last && reach.contains(edges[j].source_node@)
            && !elim.contains(edges[j].source_node@));
        let c2 = stuck_chain(edges, reach, elim, v, k);
        assert(c2 == c.push(stuck_pred(edges, reach, elim, last)));
        assert forall|t: int| 0 <= t < k implies is_edge(edges, c2[t + 1], #[trigger] c2[t]) by {
            if t < k - 1 {
                assert(c2[t] == c[t] && c2[t + 1] == c[t + 1]);
                assert(is_edge(edges, c[t + 1], c[t]));
            } else {
                assert(stuck_pred(edges, reach, elim, last) == edges[j].source_node@);
                assert(c2[k as int] == stuck_pred(edges, reach, elim, last));
                assert(c2[t] == last);
                assert(edges[j].source_node@ == c2[t + 1] && edges[j].target_node@ == c2[t]);
            }
        }
        assert forall|t: int| 0 <= t <= k implies reach.contains(#[trigger] c2[t]) && !elim.contains(c2[t]) by {
            if t < k {
                assert(c2[t] == c[t]);
            }
        }
    }
}

/// When elimination gets stuck with a reachable id left, a cycle is reachable.
proof fn lemma_stuck_means_cycle(
    nodes: Seq<OrchestratorNode>,
    edges: Seq<OrchestratorEdge>,
    reach: Seq<Seq<char>>,
    elim: Seq<Seq<char>>,
    v: Seq<char>,
)
    requires
        reach.contains(v),
        !elim.contains(v),
        forall|u: Seq<char>| reach.contains(u) ==> elim.contains(u) || !elim_ready(edges, reach, elim, u),
        forall|w: Seq<char>| #[trigger] reach.contains(w) ==> reachable(nodes, edges, w),
    ensures
        reaches_cycle(nodes, edges),
{
    let n = reach.len();
    let c = stuck_chain(edges, reach, elim, v, n);
    lemma_stuck_chain(edges, reach, elim, v, n);
    // The chain is longer than the list of reachable ids, so it repeats.
    lemma_long_chain_repeats(c, reach);
    let (a, b) = choose|a: int, b: int| 0 <= a < b < c.len() && c[a] == c[b];
    // A walk from a node to c[b], then back along the chain to c[a] == c[b].
    assert(reach.contains(c[b]));
    assert(reachable(nodes, edges, c[b]));
    let p = choose|p: Seq<Seq<char>>| is_walk(edges, p) && node_ids(nodes).contains(p[0]) && #[trigger] p.last() == c[b];
    lemma_walk_back_along_chain(nodes, edges, p, c, a, b);
}

/// A walk to `c[b]` followed by the chain walked backwards down to `c[a]`
/// revisits `c[b] == c[a]`.
proof fn lemma_walk_back_along_chain(
    nodes: Seq<OrchestratorNode>,
    edges: Seq<OrchestratorEdge>,
    p: Seq<Seq<char>>,
    c: Seq<Seq<char>>,
    a: int,
    b: int,
)
    requires
        is_walk(edges, p),
        node_ids(nodes).contains(p[0]),
        0 <= a < b < c.len(),
        p.last() == c[b],
        c[a] == c[b],
        forall|t: int| 0 <= t < c.len() - 1 ==> is_edge(edges, c[t + 1], #[trigger] c[t]),
    ensures
        reaches_cycle(nodes, edges),
{
    let back = Seq::new((b - a) as nat, |t: int| c[b - 1 - t]);
    let w = p + back;
    assert forall|k: int| 0 <= k < w.len() - 1 implies is_edge(edges, #[trigger] w[k], w[k + 1]) by {
        if k < p.len() - 1 {
            assert(w[k] == p[k] && w[k + 1] == p[k + 1]);
        } else if k == p.len() - 1 {
            assert(w[k] == c[b]);
            assert(w[k + 1] == c[b - 1]);
            assert(is_edge(edges, c[(b - 1) + 1], c[b - 1]));
        } else {
            let t = k - p.len();
            assert(w[k] == c[b - 1 - t]);
            assert(w[k + 1] == c[b - 1 - (t + 1)]);
            assert(is_edge(edges, c[(b - 2 - t) + 1], c[b - 2 - t]));
        }
    }
    assert(w[0] == p[0]);
    assert(is_walk(edges, w));
    assert(w[p.len() - 1] == c[b]);
    assert(w[w.len() - 1] == c[a]);
    assert(0 <= p.len() - 1 < w.len() - 1);
}

/// A sequence longer than `reach` whose items all lie in `reach` repeats an
/// item.
proof fn lemma_long_chain_repeats(c: Seq<Seq<char>>, reach: Seq<Seq<char>>)
    requires
        c.len() > reach.len(),
        forall|t: int| 0 <= t < c.len() ==> reach.contains(#[trigger] c[t]),
    ensures
        exists|a: int, b: int| 0 <= a < b < c.len() && c[a] == c[b],
{
    if c.no_duplicates() {
        assert forall|y: Seq<char>| c.contains(y) implies reach.contains(y) by {
            let t = choose|t: int| 0 <= t < c.len() && c[t] == y;
            assert(reach.contains(c[t]));
        }
        lemma_sub_len_set(c, reach);
    } else {
        let (a, b) = choose|a: int, b: int| 0 <= a < c.len() && 0 <= b < c.len() && a != b && c[a] == c[b];
        if a < b {
            assert(0 <= a < b < c.len() && c[a] == c[b]);
        } else {
            assert(0 <= b < a < c.len() && c[b] == c[a]);
        }
    }
}

/// A duplicate-free sequence whose items lie in `b` is no longer than `b`.
proof fn lemma_sub_len_set<A>(a: Seq<A>, b: Seq<A>)
    requires
        a.no_duplicates(),
        forall|y: A| a.contains(y) ==> b.contains(y),
    ensures
        a.len() <= b.len(),
{
    lemma_sub_len(a, b);
}


/// Whether `v` can be eliminated after `done`.
fn elim_ready_exec(edges: &[OrchestratorEdge], reach: &Vec<String>, done: &Vec<String>, v: &str) -> (r: bool)
    ensures
        r == elim_ready(edges@, string_views(reach@), string_views(done@), v@),
{
    if contains_string(done, v) {
        return false;
    }
    let n = edges.len();
    let mut i: usize = 0;
    while i < n
        invariant
            n == edges@.len(),
            i <= n,
            forall|k: int| 0 <= k < i && edges@[k].target_node@ == v@ && string_views(reach@).contains(edges@[k].source_node@)
                ==> string_views(done@).contains(#[trigger] edges@[k].source_node@),
        decreases n - i,
    {
        if str_eq(edges[i].target_node.as_str(), v) && contains_string(reach, edges[i].source_node.as_str())
            && !contains_string(done, edges[i].source_node.as_str()) {
            return false;
        }
        i = i + 1;
    }
    true
}

/// Whether a cycle is reachable from the workflow's nodes.
#[verifier::spinoff_prover]
pub fn has_reachable_cycle(nodes: &[OrchestratorNode], edges: &[OrchestratorEdge]) -> (r: bool)
    ensures
        r == reaches_cycle(nodes@, edges@),
{
    let reach = reachable_ids(nodes, edges);
    let ghost rs = string_views(reach@);
    let rlen = reach.len();
    let mut elim: Vec<String> = Vec::new();
    loop
        invariant
            rlen == reach@.len(),
            rs == string_views(reach@),
            rs.no_duplicates(),
            string_views(elim@).no_duplicates(),
            forall|y: Seq<char>| string_views(elim@).contains(y) ==> rs.contains(y),
            is_elimination(edges@, rs, string_views(elim@)),
            elim@.len() <= rlen,
        ensures
            string_views(elim@).no_duplicates(),
            is_elimination(edges@, rs, string_views(elim@)),
            forall|u: Seq<char>| rs.contains(u) ==> string_views(elim@).contains(u)
                || !elim_ready(edges@, rs, string_views(elim@), u),
        decreases rlen - elim@.len(),
    {
        let ghost done = string_views(elim@);
        let mut found: Option<usize> = None;
        let mut j: usize = 0;
        while j < rlen
            invariant
                rlen == reach@.len(),
                rs == string_views(reach@),
                done == string_views(elim@),
                j <= rlen,
                found is None ==> forall|k: int| 0 <= k < j ==> !#[trigger] elim_ready(edges@, rs, done, rs[k]),
                found matches Some(b) ==> b < rlen && elim_ready(edges@, rs, done, rs[b as int]),
            decreases rlen - j,
        {
            if found.is_none() && elim_ready_exec(edges, &reach, &elim, reach[j].as_str()) {
                found = Some(j);
            }
            j = j + 1;
        }
        match found {
            None => {
                assert forall|u: Seq<char>| rs.contains(u) implies done.contains(u) || !elim_ready(edges@, rs, done, u) by {
                    let k = choose|k: int| 0 <= k < rs.len() && rs[k] == u;
                    assert(!elim_ready(edges@, rs, done, rs[k]));
                }
                break;
            },
            Some(b) => {
                let ghost x = rs[b as int];
                assert(rs.contains(x));
                proof { lemma_strict_sub_len(done, rs, x); }
                elim.push(reach[b].clone());
                let ghost now = string_views(elim@);
                assert(now =~= done.push(x));
                assert(now.take(done.len() as int) =~= done);
                assert forall|p: int| 0 <= p < now.len() implies #[trigger] elim_ready(edges@, rs, now.take(p), now[p]) by {
                    if p < done.len() {
                        assert(now.take(p) =~= done.take(p));
                        assert(now[p] == done[p]);
                    }
                }
                assert forall|y: Seq<char>| now.contains(y) implies rs.contains(y) by {
                    lemma_push_contains(done, x, y);
                }
            },
        }
    }
    let ghost es = string_views(elim@);
    let mut i: usize = 0;
    while i < rlen
        invariant
            rlen == reach@.len(),
            rs == string_views(reach@),
            es == string_views(elim@),
            i <= rlen,
            forall|u: Seq<char>| rs.contains(u) ==> es.contains(u) || !elim_ready(edges@, rs, es, u),
            forall|w: Seq<char>| #[trigger] rs.contains(w) ==> reachable(nodes@, edges@, w),
            forall|k: int| 0 <= k < i ==> es.contains(#[trigger] rs[k]),
        decreases rlen - i,
    {
        if !contains_string(&elim, reach[i].as_str()) {
            proof { lemma_stuck_means_cycle(nodes@, edges@, rs, es, rs[i as int]); }
            return true;
        }
        i = i + 1;
    }
    proof {
        assert forall|y: Seq<char>| rs.contains(y) implies es.contains(y) by {
            let k = choose|k: int| 0 <= k < rs.len() && rs[k] == y;
            assert(es.contains(rs[k]));
        }
        lemma_full_elimination_no_cycle(nodes@, edges@, rs, es);
    }
    false
}

/// Whether some edge starts or ends at `v`.
fn touches_exec(edges: &[OrchestratorEdge], v: &str) -> (r: bool)
    ensures
        r == touches(edges@, v@),
{
    let n = edges.len();
    let mut i: usize = 0;
    while i < n
        invariant
            n == edges@.len(),
            i <= n,
            forall|k: int| #![trigger edges@[k]] 0 <= k < i ==> edges@[k].source_node@ != v@ && edges@[k].target_node@ != v@,
        decreases n - i,
    {
        if str_eq(edges[i].source_node.as_str(), v) || str_eq(edges[i].target_node.as_str(), v) {
            assert(edges@[i as int].source_node@ == v@ || edges@[i as int].target_node@ == v@);
            return true;
        }
        i = i + 1;
    }
    assert(!touches(edges@, v@)) by {
        if touches(edges@, v@) {
            let k = choose|k: int| #![trigger edges@[k]] 0 <= k < edges@.len() && (edges@[k].source_node@ == v@ || edges@[k].target_node@ == v@);
            assert(edges@[k].source_node@ != v@ && edges@[k].target_node@ != v@);
        }
    }
    false
}

/// Whether some edge ends at `v`.
fn has_input_exec(edges: &[OrchestratorEdge], v: &str) -> (r: bool)
    ensures
        r == has_input(edges@, v@),
{
    let n = edges.len();
    let mut i: usize = 0;
    while i < n
        invariant
            n == edges@.len(),
            i <= n,
            forall|k: int| 0 <= k < i ==> #[trigger] edges@[k].target_node@ != v@,
        decreases n - i,
    {
        if str_eq(edges[i].target_node.as_str(), v) {
            return true;
        }
        i = i + 1;
    }
    false
}

fn push_issue(issues: &mut Vec<ValidationError>, message: String, is_error: bool)
    ensures
        issue_views(final(issues)@) == issue_views(old(issues)@).push((message@, is_error)),
{
    let ghost before = issues@;
    issues.push(ValidationError { message, is_error });
    assert(issue_views(issues@) =~= issue_views(before).push((message@, is_error)));
}

/// Validates a workflow: an empty workflow is an error; otherwise each node no
/// edge touches gets a warning, a cycle reachable from the nodes is an error,
/// and a workflow where every node has an input gets a warning.
pub fn validate_workflow(nodes: &[OrchestratorNode], edges: &[OrchestratorEdge]) -> (r: Vec<ValidationError>)
    ensures
        issue_views(r@) == workflow_issues(nodes@, edges@),
{
    let mut issues: Vec<ValidationError> = Vec::new();
    if nodes.len() == 0 {
        push_issue(&mut issues, "Workflow has no nodes".to_string(), true);
        assert(issue_views(issues@) =~= workflow_issues(nodes@, edges@));
        return issues;
    }
    let n = nodes.len();
    let mut i: usize = 0;
    assert(issue_views(issues@) =~= Seq::<(Seq<char>, bool)>::empty());
    assert(nodes@.take(0) =~= Seq::<OrchestratorNode>::empty());
    while i < n
        invariant
            n == nodes@.len(),
            i <= n,
            issue_views(issues@) == disconnected_issues(nodes@.take(i as int), edges@),
        decreases n - i,
    {
        assert(nodes@.take(i + 1).drop_last() =~= nodes@.take(i as int));
        assert(nodes@.take(i + 1).last() == nodes@[i as int]);
        if !touches_exec(edges, nodes[i].id.as_str()) {
            push_issue(&mut issues, join3("Node '", nodes[i].name.as_str(), "' is disconnected"), false);
        }
        i = i + 1;
    }
    assert(nodes@.take(n as int) =~= nodes@);
    let ghost after_disconnected = issue_views(issues@);
    if has_reachable_cycle(nodes, edges) {
        push_issue(&mut issues, "Workflow contains a cycle".to_string(), true);
    }
    let ghost after_cycle = issue_views(issues@);
    let mut all_inputs = true;
    let mut k: usize = 0;
    while k < n
        invariant
            n == nodes@.len(),
            k <= n,
            all_inputs == forall|t: int| 0 <= t < k ==> has_input(edges@, #[trigger] nodes@[t].id@),
        decreases n - k,
    {
        if !has_input_exec(edges, nodes[k].id.as_str()) {
            all_inputs = false;
        }
        k = k + 1;
    }
    if all_inputs {
        push_issue(&mut issues, "No start node found (all nodes have inputs)".to_string(), false);
    }
    assert(issue_views(issues@) =~= workflow_issues(nodes@, edges@));
    issues
}

} // verus!
