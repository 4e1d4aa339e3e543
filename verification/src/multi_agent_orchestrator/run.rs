//! A workflow run as it is replayed: the log lines, the execution state of
//! each node, and the run that collects them. Times are milliseconds on a
//! clock that the caller reads and hands in.

use vstd::prelude::*;
use crate::lingua_tong::pair_views;
use crate::multi_agent_orchestrator::engine::{ExecutionStep, StepSpec};
use crate::multi_agent_orchestrator::types::{string_views, LogLevel, NodeExecutionStatus, OrchestratorEdge, RunStatus, TokenUsage};

verus! {

/// A log line as plain values.
pub struct LogView {
    pub timestamp_ms: u64,
    pub node_id: Seq<char>,
    pub level: LogLevel,
    pub message: Seq<char>,
    pub data: Option<Seq<char>>,
}

/// A log line written during a run.
#[derive(Debug)]
pub struct OrchestratorLog {
    /// When the line was written, in milliseconds.
    pub timestamp_ms: u64,
    pub node_id: String,
    pub level: LogLevel,
    pub message: String,
    pub data: Option<String>,
}

/// An optional string as an optional character sequence.
pub open spec fn opt_string_view(o: Option<String>) -> Option<Seq<char>> {
    match o {
        Some(s) => Some(s@),
        None => None,
    }
}

fn clone_opt_string(o: &Option<String>) -> (r: Option<String>)
    ensures
        opt_string_view(r) == opt_string_view(*o),
{
    match o {
        Some(s) => Some(s.clone()),
        None => None,
    }
}

impl View for OrchestratorLog {
    type V = LogView;

    open spec fn view(&self) -> LogView {
        LogView {
            timestamp_ms: self.timestamp_ms,
            node_id: self.node_id@,
            level: self.level,
            message: self.message@,
            data: opt_string_view(self.data),
        }
    }
}

impl Clone for OrchestratorLog {
    fn clone(&self) -> (r: Self)
        ensures
            r@ == self@,
    {
        OrchestratorLog {
            timestamp_ms: self.timestamp_ms,
            node_id: self.node_id.clone(),
            level: self.level,
            message: self.message.clone(),
            data: clone_opt_string(&self.data),
        }
    }
}

/// The views of a list of log lines.
pub open spec fn log_views(v: Seq<OrchestratorLog>) -> Seq<LogView> {
    v.map_values(|l: OrchestratorLog| l@)
}

fn clone_logs(v: &Vec<OrchestratorLog>) -> (r: Vec<OrchestratorLog>)
    ensures
        log_views(r@) == log_views(v@),
{
    let mut r: Vec<OrchestratorLog> = Vec::new();
    let mut i: usize = 0;
    while i < v.len()
        invariant
            i <= v.len(),
            r@.len() == i,
            log_views(r@) == log_views(v@.take(i as int)),
        decreases v.len() - i,
    {
        let c = v[i].clone();
        let ghost before = r@;
        r.push(c);
        assert forall|j: int| 0 <= j < i + 1 implies #[trigger] log_views(r@)[j] == log_views(v@.take(i + 1))[j] by {
            if j < i {
                assert(log_views(before)[j] == log_views(v@.take(i as int))[j]);
            }
        }
        assert(log_views(r@) =~= log_views(v@.take(i + 1)));
        i = i + 1;
    }
    assert(v@.take(v.len() as int) =~= v@);
    r
}

fn clone_strings(v: &Vec<String>) -> (r: Vec<String>)
    ensures
        string_views(r@) == string_views(v@),
{
    let mut r: Vec<String> = Vec::new();
    let mut i: usize = 0;
    while i < v.len()
        invariant
            i <= v.len(),
            r@.len() == i,
            string_views(r@) == string_views(v@.take(i as int)),
        decreases v.len() - i,
    {
        let c = v[i].clone();
        let ghost before = r@;
        r.push(c);
        assert forall|j: int| 0 <= j < i + 1 implies #[trigger] string_views(r@)[j] == string_views(v@.take(i + 1))[j] by {
            if j < i {
                assert(string_views(before)[j] == string_views(v@.take(i as int))[j]);
            }
        }
        assert(string_views(r@) =~= string_views(v@.take(i + 1)));
        i = i + 1;
    }
    assert(v@.take(v.len() as int) =~= v@);
    r
}

/// The execution state of one node, as plain values.
pub struct NodeStateView {
    pub status: NodeExecutionStatus,
    pub output: Option<Seq<char>>,
    pub error: Option<Seq<char>>,
    pub started_at_ms: Option<u64>,
    pub ended_at_ms: Option<u64>,
    pub retry_count: u32,
    pub token_usage: TokenUsage,
    pub logs: Seq<LogView>,
    pub children: Seq<Seq<char>>,
}

/// The execution state of one node during a run.
#[derive(Debug)]
pub struct NodeExecutionState {
    pub status: NodeExecutionStatus,
    pub output: Option<String>,
    pub error: Option<String>,
    /// When the node started, in milliseconds.
    pub started_at_ms: Option<u64>,
    /// When the node ended, in milliseconds.
    pub ended_at_ms: Option<u64>,
    pub retry_count: u32,
    pub token_usage: TokenUsage,
    pub logs: Vec<OrchestratorLog>,
    pub children: Vec<String>,
}

impl View for NodeExecutionState {
    type V = NodeStateView;

    open spec fn view(&self) -> NodeStateView {
        NodeStateView {
            status: self.status,
            output: opt_string_view(self.output),
            error: opt_string_view(self.error),
            started_at_ms: self.started_at_ms,
            ended_at_ms: self.ended_at_ms,
            retry_count: self.retry_count,
            token_usage: self.token_usage,
            logs: log_views(self.logs@),
            children: string_views(self.children@),
        }
    }
}

/// The state of a node that nothing has happened to yet.
pub open spec fn fresh_node_state() -> NodeStateView {
    NodeStateView {
        status: NodeExecutionStatus::Pending,
        output: None,
        error: None,
        started_at_ms: None,
        ended_at_ms: None,
        retry_count: 0,
        token_usage: TokenUsage { input_tokens: 0, output_tokens: 0, total_tokens: 0 },
        logs: Seq::empty(),
        children: Seq::empty(),
    }
}

impl Default for NodeExecutionState {
    fn default() -> (r: Self)
        ensures
            r@ == fresh_node_state(),
    {
        let r = NodeExecutionState {
            status: NodeExecutionStatus::Pending,
            output: None,
            error: None,
            started_at_ms: None,
            ended_at_ms: None,
            retry_count: 0,
            token_usage: TokenUsage { input_tokens: 0, output_tokens: 0, total_tokens: 0 },
            logs: Vec::new(),
            children: Vec::new(),
        };
        assert(log_views(r.logs@) =~= Seq::<LogView>::empty());
        assert(string_views(r.children@) =~= Seq::<Seq<char>>::empty());
        r
    }
}

impl Clone for NodeExecutionState {
    fn clone(&self) -> (r: Self)
        ensures
            r@ == self@,
    {
        NodeExecutionState {
            status: self.status,
            output: clone_opt_string(&self.output),
            error: clone_opt_string(&self.error),
            started_at_ms: self.started_at_ms,
            ended_at_ms: self.ended_at_ms,
            retry_count: self.retry_count,
            token_usage: self.token_usage,
            logs: clone_logs(&self.logs),
            children: clone_strings(&self.children),
        }
    }
}

impl NodeExecutionState {
    /// How long the node ran, in milliseconds, once it has both started and
    /// ended (an end read before the start counts as no time).
    pub fn duration(&self) -> (r: Option<u64>)
        ensures
            r == (match (self.started_at_ms, self.ended_at_ms) {
                (Some(s), Some(e)) => Some(if e >= s { (e - s) as u64 } else { 0u64 }),
                _ => None,
            }),
    {
        match (self.started_at_ms, self.ended_at_ms) {
            (Some(s), Some(e)) => Some(e.saturating_sub(s)),
            _ => None,
        }
    }
}

/// `i` is the first position in `s` whose key is `k`.
pub open spec fn is_first_key<V>(s: Seq<(String, V)>, k: Seq<char>, i: int) -> bool {
    &&& 0 <= i < s.len()
    &&& s[i].0@ == k
    &&& forall|j: int| 0 <= j < i ==> #[trigger] s[j].0@ != k
}

/// The node states of a run as a map from node id to state; where an id
/// occurs more than once, its first entry counts.
#[verifier::opaque]
pub open spec fn state_map(s: Seq<(String, NodeExecutionState)>) -> Map<Seq<char>, NodeStateView> {
    Map::new(
        |k: Seq<char>| exists|i: int| is_first_key(s, k, i),
        |k: Seq<char>| s[choose|i: int| is_first_key(s, k, i)].1@,
    )
}

/// An id has at most one first position.
pub(crate) proof fn lemma_first_key_unique<V>(s: Seq<(String, V)>, k: Seq<char>, i: int, j: int)
    requires
        is_first_key(s, k, i),
        is_first_key(s, k, j),
    ensures
        i == j,
{
    if i < j {
        assert(s[i].0@ != k);
    } else if j < i {
        assert(s[j].0@ != k);
    }
}

/// Two lists whose keys agree up to the end of the shorter, and whose longer
/// tail does not hold `k`, have the same first position of `k`.
pub(crate) proof fn lemma_first_key_same_keys<V>(a: Seq<(String, V)>, b: Seq<(String, V)>, k: Seq<char>)
    requires
        a.len() <= b.len(),
        forall|t: int| 0 <= t < a.len() ==> #[trigger] a[t].0@ == b[t].0@,
        forall|t: int| a.len() <= t < b.len() ==> #[trigger] b[t].0@ != k,
    ensures
        forall|j: int| #[trigger] is_first_key(a, k, j) == is_first_key(b, k, j),
{
    assert forall|j: int| #[trigger] is_first_key(a, k, j) == is_first_key(b, k, j) by {
        if is_first_key(a, k, j) {
            assert forall|t: int| 0 <= t < j implies #[trigger] b[t].0@ != k by {
                assert(a[t].0@ != k);
            }
        }
        if is_first_key(b, k, j) {
            if j >= a.len() {
                assert(b[j].0@ != k);
            }
            assert forall|t: int| 0 <= t < j implies #[trigger] a[t].0@ != k by {
                assert(b[t].0@ != k);
            }
        }
    }
}

/// The state of node `id` in a run: its entry, or a fresh state.
pub open spec fn state_or_fresh(m: Map<Seq<char>, NodeStateView>, id: Seq<char>) -> NodeStateView {
    if m.contains_key(id) {
        m[id]
    } else {
        fresh_node_state()
    }
}

/// The first position of `id` in the node states, if it has one.
pub(crate) fn find_state(states: &Vec<(String, NodeExecutionState)>, id: &str) -> (r: Option<usize>)
    ensures
        match r {
            Some(i) => is_first_key(states@, id@, i as int),
            None => forall|i: int| 0 <= i < states@.len() ==> #[trigger] states@[i].0@ != id@,
        },
{
    let mut i: usize = 0;
    while i < states.len()
        invariant
            i <= states@.len(),
            forall|j: int| 0 <= j < i ==> #[trigger] states@[j].0@ != id@,
        decreases states.len() - i,
    {
        if crate::text::str_eq(states[i].0.as_str(), id) {
            return Some(i);
        }
        i = i + 1;
    }
    None
}

/// A copy of the state of node `id`: its entry, or a fresh state.
fn node_state_copy(states: &Vec<(String, NodeExecutionState)>, id: &str) -> (r: NodeExecutionState)
    ensures
        r@ == state_or_fresh(state_map(states@), id@),
{
    reveal(state_map);
    match find_state(states, id) {
        Some(i) => {
            proof {
                assert forall|j: int| is_first_key(states@, id@, j) implies j == i by {
                    lemma_first_key_unique(states@, id@, i as int, j);
                }
                assert(state_map(states@).contains_key(id@));
            }
            states[i].1.clone()
        },
        None => {
            assert(!state_map(states@).contains_key(id@));
            NodeExecutionState::default()
        },
    }
}

/// Stores `st` as the state of node `id`, in place of its entry if it has one
/// and else as a new entry at the end.
fn store_node_state(states: &mut Vec<(String, NodeExecutionState)>, id: &str, st: NodeExecutionState)
    ensures
        state_map(final(states)@) == state_map(old(states)@).insert(id@, st@),
{
    reveal(state_map);
    let ghost old_s = states@;
    let ghost v = st@;
    match find_state(states, id) {
        Some(i) => {
            let (k, _) = states.remove(i);
            states.insert(i, (k, st));
            proof {
                let new_s = states@;
                assert(new_s =~= old_s.update(i as int, (old_s[i as int].0, st)));
                assert forall|t: int| 0 <= t < old_s.len() implies #[trigger] old_s[t].0@ == new_s[t].0@ by {}
                assert forall|k2: Seq<char>, j: int| #![trigger is_first_key(new_s, k2, j)] is_first_key(new_s, k2, j) <==> is_first_key(old_s, k2, j) by {
                    lemma_first_key_same_keys(old_s, new_s, k2);
                }
                assert forall|k2: Seq<char>| k2 != id@ && #[trigger] state_map(new_s).contains_key(k2) implies state_map(new_s)[k2] == state_map(old_s)[k2] by {
                    let a = choose|j: int| is_first_key(new_s, k2, j);
                    let b = choose|j: int| is_first_key(old_s, k2, j);
                    assert(is_first_key(old_s, k2, a));
                    lemma_first_key_unique(old_s, k2, a, b);
                    assert(a != i);
                }
                assert(is_first_key(new_s, id@, i as int));
                assert forall|j: int| is_first_key(new_s, id@, j) implies j == i by {
                    lemma_first_key_unique(new_s, id@, i as int, j);
                }
                assert forall|k2: Seq<char>| k2 != id@ implies state_map(new_s).contains_key(k2) == state_map(old_s).contains_key(k2) by {
                    if state_map(old_s).contains_key(k2) {
                        let b = choose|j: int| is_first_key(old_s, k2, j);
                        assert(is_first_key(new_s, k2, b));
                    }
                    if state_map(new_s).contains_key(k2) {
                        let a = choose|j: int| is_first_key(new_s, k2, j);
                        assert(is_first_key(old_s, k2, a));
                    }
                }
                assert(state_map(new_s) =~= state_map(old_s).insert(id@, v));
            }
        },
        None => {
            states.push((id.to_string(), st));
            proof {
                let new_s = states@;
                let n = old_s.len() as int;
                assert(new_s =~= old_s.push(new_s[n]));
                assert forall|t: int| 0 <= t < old_s.len() implies #[trigger] old_s[t].0@ == new_s[t].0@ by {}
                assert forall|k2: Seq<char>, j: int| k2 != id@ implies #[trigger] is_first_key(new_s, k2, j) == is_first_key(old_s, k2, j) by {
                    lemma_first_key_same_keys(old_s, new_s, k2);
                }
                assert forall|k2: Seq<char>| k2 != id@ && #[trigger] state_map(new_s).contains_key(k2) implies state_map(new_s)[k2] == state_map(old_s)[k2] by {
                    let a = choose|j: int| is_first_key(new_s, k2, j);
                    let b = choose|j: int| is_first_key(old_s, k2, j);
                    assert(is_first_key(old_s, k2, a));
                    lemma_first_key_unique(old_s, k2, a, b);
                }
                assert(is_first_key(new_s, id@, n));
                assert forall|j: int| is_first_key(new_s, id@, j) implies j == n by {
                    lemma_first_key_unique(new_s, id@, n, j);
                }
                assert forall|k2: Seq<char>| k2 != id@ implies state_map(new_s).contains_key(k2) == state_map(old_s).contains_key(k2) by {
                    if state_map(old_s).contains_key(k2) {
                        let b = choose|j: int| is_first_key(old_s, k2, j);
                        assert(is_first_key(new_s, k2, b));
                    }
                    if state_map(new_s).contains_key(k2) {
                        let a = choose|j: int| is_first_key(new_s, k2, j);
                        assert(is_first_key(old_s, k2, a));
                    }
                }
                assert(state_map(new_s) =~= state_map(old_s).insert(id@, v));
            }
        },
    }
}

/// Lists with the same keys and states of the same views give the same map.
proof fn lemma_state_map_same(a: Seq<(String, NodeExecutionState)>, b: Seq<(String, NodeExecutionState)>)
    requires
        a.len() == b.len(),
        forall|t: int| 0 <= t < a.len() ==> #[trigger] a[t].0@ == b[t].0@ && a[t].1@ == b[t].1@,
    ensures
        state_map(a) == state_map(b),
{
    reveal(state_map);
    assert forall|k: Seq<char>| state_map(a).contains_key(k) == state_map(b).contains_key(k) by {
        lemma_first_key_same_keys(a, b, k);
        if state_map(a).contains_key(k) {
            let i = choose|j: int| is_first_key(a, k, j);
            assert(is_first_key(b, k, i));
        }
        if state_map(b).contains_key(k) {
            let i = choose|j: int| is_first_key(b, k, j);
            assert(is_first_key(a, k, i));
        }
    }
    assert forall|k: Seq<char>| #[trigger] state_map(a).contains_key(k) implies state_map(a)[k] == state_map(b)[k] by {
        lemma_first_key_same_keys(a, b, k);
        let i = choose|j: int| is_first_key(a, k, j);
        let i2 = choose|j: int| is_first_key(b, k, j);
        assert(is_first_key(b, k, i));
        lemma_first_key_unique(b, k, i, i2);
    }
    assert(state_map(a) =~= state_map(b));
}

fn clone_states(v: &Vec<(String, NodeExecutionState)>) -> (r: Vec<(String, NodeExecutionState)>)
    ensures
        state_map(r@) == state_map(v@),
{
    let mut r: Vec<(String, NodeExecutionState)> = Vec::new();
    let mut i: usize = 0;
    while i < v.len()
        invariant
            i <= v.len(),
            r@.len() == i,
            forall|t: int| 0 <= t < i ==> #[trigger] r@[t].0@ == v@[t].0@ && r@[t].1@ == v@[t].1@,
        decreases v.len() - i,
    {
        let k = v[i].0.clone();
        let st = v[i].1.clone();
        r.push((k, st));
        i = i + 1;
    }
    proof { lemma_state_map_same(r@, v@); }
    r
}

fn clone_pairs(v: &Vec<(String, String)>) -> (r: Vec<(String, String)>)
    ensures
        pair_views(r@) == pair_views(v@),
{
    let mut r: Vec<(String, String)> = Vec::new();
    let mut i: usize = 0;
    while i < v.len()
        invariant
            i <= v.len(),
            r@.len() == i,
            forall|t: int| 0 <= t < i ==> #[trigger] r@[t].0@ == v@[t].0@ && r@[t].1@ == v@[t].1@,
        decreases v.len() - i,
    {
        let a = v[i].0.clone();
        let b = v[i].1.clone();
        r.push((a, b));
        i = i + 1;
    }
    assert(pair_views(r@) =~= pair_views(v@));
    r
}

/// A workflow run as plain values.
pub struct RunView {
    pub id: Seq<char>,
    pub started_at_ms: u64,
    pub ended_at_ms: Option<u64>,
    pub status: RunStatus,
    pub node_states: Map<Seq<char>, NodeStateView>,
    pub total_usage: TokenUsage,
    pub duration_ms: Option<u64>,
    pub logs: Seq<LogView>,
    pub metadata: Seq<(Seq<char>, Seq<char>)>,
}

/// One run of a workflow: its status, the state of each node that the run has
/// reached, and its log.
#[derive(Debug)]
pub struct OrchestratorRun {
    pub id: String,
    /// When the run started, in milliseconds.
    pub started_at_ms: u64,
    /// When the run ended, in milliseconds.
    pub ended_at_ms: Option<u64>,
    pub status: RunStatus,
    /// The state of each node by node id (the first entry of an id counts).
    pub node_states: Vec<(String, NodeExecutionState)>,
    pub total_usage: TokenUsage,
    /// How long the run took, in milliseconds.
    pub duration_ms: Option<u64>,
    pub logs: Vec<OrchestratorLog>,
    pub metadata: Vec<(String, String)>,
}

impl View for OrchestratorRun {
    type V = RunView;

    open spec fn view(&self) -> RunView {
        RunView {
            id: self.id@,
            started_at_ms: self.started_at_ms,
            ended_at_ms: self.ended_at_ms,
            status: self.status,
            node_states: state_map(self.node_states@),
            total_usage: self.total_usage,
            duration_ms: self.duration_ms,
            logs: log_views(self.logs@),
            metadata: pair_views(self.metadata@),
        }
    }
}

impl Clone for OrchestratorRun {
    fn clone(&self) -> (r: Self)
        ensures
            r@ == self@,
    {
        OrchestratorRun {
            id: self.id.clone(),
            started_at_ms: self.started_at_ms,
            ended_at_ms: self.ended_at_ms,
            status: self.status,
            node_states: clone_states(&self.node_states),
            total_usage: self.total_usage,
            duration_ms: self.duration_ms,
            logs: clone_logs(&self.logs),
            metadata: clone_pairs(&self.metadata),
        }
    }
}

/// The log line that a `Log` step writes.
pub open spec fn log_line(now_ms: u64, id: Seq<char>, level: LogLevel, message: Seq<char>) -> LogView {
    LogView { timestamp_ms: now_ms, node_id: id, level: level, message: message, data: None }
}

/// The run after one step at time `now_ms`: node steps set the node's status
/// (and its start or end time, output, error or attempt); a log step appends
/// the line to the run's log and to the node's; edge and wait steps leave the
/// run as it is. A node the run has not reached starts from a fresh state.
#[verifier::opaque]
pub open spec fn run_after_step(r: RunView, step: StepSpec, now_ms: u64) -> RunView {
    match step {
        StepSpec::StartNode(id) => {
            let s = state_or_fresh(r.node_states, id);
            RunView {
                node_states: r.node_states.insert(
                    id,
                    NodeStateView { status: NodeExecutionStatus::Running, started_at_ms: Some(now_ms), ..s },
                ),
                ..r
            }
        },
        StepSpec::CompleteNode(id, out) => {
            let s = state_or_fresh(r.node_states, id);
            RunView {
                node_states: r.node_states.insert(
                    id,
                    NodeStateView {
                        status: NodeExecutionStatus::Completed,
                        output: Some(out),
                        ended_at_ms: Some(now_ms),
                        ..s
                    },
                ),
                ..r
            }
        },
        StepSpec::FailNode(id, err) => {
            let s = state_or_fresh(r.node_states, id);
            RunView {
                node_states: r.node_states.insert(
                    id,
                    NodeStateView {
                        status: NodeExecutionStatus::Failed,
                        error: Some(err),
                        ended_at_ms: Some(now_ms),
                        ..s
                    },
                ),
                ..r
            }
        },
        StepSpec::RetryNode(id, attempt) => {
            let s = state_or_fresh(r.node_states, id);
            RunView {
                node_states: r.node_states.insert(
                    id,
                    NodeStateView { status: NodeExecutionStatus::Retrying(attempt), retry_count: attempt, ..s },
                ),
                ..r
            }
        },
        StepSpec::SkipNode(id) => {
            let s = state_or_fresh(r.node_states, id);
            RunView {
                node_states: r.node_states.insert(id, NodeStateView { status: NodeExecutionStatus::Skipped, ..s }),
                ..r
            }
        },
        StepSpec::Log(id, level, message) => {
            let s = state_or_fresh(r.node_states, id);
            let e = log_line(now_ms, id, level, message);
            RunView {
                logs: r.logs.push(e),
                node_states: r.node_states.insert(id, NodeStateView { logs: s.logs.push(e), ..s }),
                ..r
            }
        },
        _ => r,
    }
}

/// Applies one step at time `now_ms` to the run.
pub fn apply_step_to_run(run: &mut OrchestratorRun, step: &ExecutionStep, now_ms: u64)
    ensures
        final(run)@ == run_after_step(old(run)@, step@, now_ms),
{
    reveal(run_after_step);
    match step {
        ExecutionStep::StartNode(id) => {
            let mut st = node_state_copy(&run.node_states, id.as_str());
            st.status = NodeExecutionStatus::Running;
            st.started_at_ms = Some(now_ms);
            store_node_state(&mut run.node_states, id.as_str(), st);
        },
        ExecutionStep::CompleteNode(id, output) => {
            let mut st = node_state_copy(&run.node_states, id.as_str());
            st.status = NodeExecutionStatus::Completed;
            st.output = Some(output.clone());
            st.ended_at_ms = Some(now_ms);
            store_node_state(&mut run.node_states, id.as_str(), st);
        },
        ExecutionStep::FailNode(id, error) => {
            let mut st = node_state_copy(&run.node_states, id.as_str());
            st.status = NodeExecutionStatus::Failed;
            st.error = Some(error.clone());
            st.ended_at_ms = Some(now_ms);
            store_node_state(&mut run.node_states, id.as_str(), st);
        },
        ExecutionStep::RetryNode(id, attempt) => {
            let mut st = node_state_copy(&run.node_states, id.as_str());
            st.status = NodeExecutionStatus::Retrying(*attempt);
            st.retry_count = *attempt;
            store_node_state(&mut run.node_states, id.as_str(), st);
        },
        ExecutionStep::SkipNode(id) => {
            let mut st = node_state_copy(&run.node_states, id.as_str());
            st.status = NodeExecutionStatus::Skipped;
            store_node_state(&mut run.node_states, id.as_str(), st);
        },
        ExecutionStep::Log(id, level, message) => {
            let entry = OrchestratorLog {
                timestamp_ms: now_ms,
                node_id: id.clone(),
                level: *level,
                message: message.clone(),
                data: None,
            };
            let ghost e = entry@;
            let ghost run_logs = run.logs@;
            run.logs.push(entry.clone());
            assert(log_views(run.logs@) =~= log_views(run_logs).push(e));
            let mut st = node_state_copy(&run.node_states, id.as_str());
            let ghost st_logs = st.logs@;
            st.logs.push(entry);
            assert(log_views(st.logs@) =~= log_views(st_logs).push(e));
            store_node_state(&mut run.node_states, id.as_str(), st);
        },
        _ => {},
    }
}

/// `j` is the first position of an edge with id `id`.
pub open spec fn is_first_edge(edges: Seq<OrchestratorEdge>, id: Seq<char>, j: int) -> bool {
    &&& 0 <= j < edges.len()
    &&& edges[j].id@ == id
    &&& forall|k: int| 0 <= k < j ==> #[trigger] edges[k].id@ != id
}

/// The edges with the first edge of id `id`, if there is one, marked active or
/// inactive.
#[verifier::opaque]
pub open spec fn edges_with_flag(edges: Seq<OrchestratorEdge>, id: Seq<char>, flag: bool) -> Seq<OrchestratorEdge> {
    if exists|j: int| is_first_edge(edges, id, j) {
        let j = choose|j: int| is_first_edge(edges, id, j);
        edges.update(j, OrchestratorEdge { is_active: flag, ..edges[j] })
    } else {
        edges
    }
}

/// The edges after one step: edge steps mark an edge active or inactive, the
/// other steps leave the edges as they are.
pub open spec fn edges_after_step(edges: Seq<OrchestratorEdge>, step: StepSpec) -> Seq<OrchestratorEdge> {
    match step {
        StepSpec::ActivateEdge(id) => edges_with_flag(edges, id, true),
        StepSpec::DeactivateEdge(id) => edges_with_flag(edges, id, false),
        _ => edges,
    }
}

/// Marks the first edge of id `id` active or inactive.
pub fn set_edge_active(edges: &mut Vec<OrchestratorEdge>, id: &str, flag: bool)
    ensures
        final(edges)@ == edges_with_flag(old(edges)@, id@, flag),
{
    reveal(edges_with_flag);
    let mut i: usize = 0;
    while i < edges.len()
        invariant
            i <= edges@.len(),
            edges@ == old(edges)@,
            forall|k: int| 0 <= k < i ==> #[trigger] edges@[k].id@ != id@,
        decreases edges.len() - i,
    {
        if crate::text::str_eq(edges[i].id.as_str(), id) {
            proof {
                reveal(edges_with_flag);
                assert(is_first_edge(old(edges)@, id@, i as int));
                assert forall|j: int| is_first_edge(old(edges)@, id@, j) implies j == i by {
                    if j < i {
                        assert(edges@[j].id@ != id@);
                    } else if j > i {
                        assert(old(edges)@[i as int].id@ != id@);
                    }
                }
            }
            edges[i].is_active = flag;
            return;
        }
        i = i + 1;
    }
}

/// The node a step is about, if it is a node step.
pub open spec fn step_node(step: StepSpec) -> Option<Seq<char>> {
    match step {
        StepSpec::StartNode(id) => Some(id),
        StepSpec::CompleteNode(id, _) => Some(id),
        StepSpec::FailNode(id, _) => Some(id),
        StepSpec::RetryNode(id, _) => Some(id),
        StepSpec::SkipNode(id) => Some(id),
        StepSpec::Log(id, _, _) => Some(id),
        _ => None,
    }
}

/// A step changes at most the state of the node it is about: every other
/// node's state, the run's id, times and status stay as they were.
pub proof fn law_step_touches_only_its_node(r: RunView, step: StepSpec, now_ms: u64, other: Seq<char>)
    requires
        step_node(step) != Some(other),
    ensures
        run_after_step(r, step, now_ms).node_states.contains_key(other) == r.node_states.contains_key(other),
        run_after_step(r, step, now_ms).node_states.contains_key(other) ==> run_after_step(r, step, now_ms).node_states[other]
            == r.node_states[other],
        run_after_step(r, step, now_ms).id == r.id,
        run_after_step(r, step, now_ms).status == r.status,
        run_after_step(r, step, now_ms).started_at_ms == r.started_at_ms,
        run_after_step(r, step, now_ms).ended_at_ms == r.ended_at_ms,
{
    reveal(run_after_step);
}

/// The run's log grows by exactly the line of a log step, and by nothing for
/// any other step.
pub proof fn law_log_grows_only_by_log_steps(r: RunView, step: StepSpec, now_ms: u64)
    ensures
        run_after_step(r, step, now_ms).logs == (match step {
            StepSpec::Log(id, level, message) => r.logs.push(log_line(now_ms, id, level, message)),
            _ => r.logs,
        }),
{
    reveal(run_after_step);
}

/// Starting a node and then completing it leaves it completed with its
/// output, started and ended at the two times.
pub proof fn law_start_then_complete(r: RunView, id: Seq<char>, output: Seq<char>, t1: u64, t2: u64)
    ensures
        ({
            let s = run_after_step(run_after_step(r, StepSpec::StartNode(id), t1), StepSpec::CompleteNode(id, output), t2).node_states[id];
            &&& s.status == NodeExecutionStatus::Completed
            &&& s.output == Some(output)
            &&& s.started_at_ms == Some(t1)
            &&& s.ended_at_ms == Some(t2)
        }),
        run_after_step(run_after_step(r, StepSpec::StartNode(id), t1), StepSpec::CompleteNode(id, output), t2).node_states.contains_key(id),
{
    reveal(run_after_step);
}

/// A step that ends a node, completing or failing it, records the time it
/// ended at and keeps the time it started: afterwards the node is completed
/// with the output, or failed with the error, and ended at the step's time.
pub proof fn law_ending_step_records_end_time(r: RunView, step: StepSpec, now_ms: u64)
    requires
        step is CompleteNode || step is FailNode,
    ensures
        ({
            let id = step_node(step)->0;
            let after = run_after_step(r, step, now_ms);
            let before = if r.node_states.contains_key(id) { r.node_states[id].started_at_ms } else { None };
            &&& after.node_states.contains_key(id)
            &&& after.node_states[id].ended_at_ms == Some(now_ms)
            &&& after.node_states[id].started_at_ms == before
            &&& (step matches StepSpec::CompleteNode(_, out) ==> after.node_states[id].status
                == NodeExecutionStatus::Completed && after.node_states[id].output == Some(out))
            &&& (step matches StepSpec::FailNode(_, err) ==> after.node_states[id].status
                == NodeExecutionStatus::Failed && after.node_states[id].error == Some(err))
        }),
{
    reveal(run_after_step);
}

/// Starting a node and then failing it leaves it failed with its error,
/// started and ended at the two times.
pub proof fn law_start_then_fail(r: RunView, id: Seq<char>, error: Seq<char>, t1: u64, t2: u64)
    ensures
        ({
            let after = run_after_step(run_after_step(r, StepSpec::StartNode(id), t1), StepSpec::FailNode(id, error), t2);
            &&& after.node_states.contains_key(id)
            &&& after.node_states[id].status == NodeExecutionStatus::Failed
            &&& after.node_states[id].error == Some(error)
            &&& after.node_states[id].started_at_ms == Some(t1)
            &&& after.node_states[id].ended_at_ms == Some(t2)
        }),
{
    reveal(run_after_step);
}

/// Marking an edge inactive after marking it active leaves the edges as
/// marking it inactive alone does: the second call undoes the first.
pub proof fn law_deactivate_undoes_activate(edges: Seq<OrchestratorEdge>, id: Seq<char>)
    ensures
        edges_with_flag(edges_with_flag(edges, id, true), id, false) == edges_with_flag(edges, id, false),
{
    reveal(edges_with_flag);
    let e1 = edges_with_flag(edges, id, true);
    if exists|j: int| is_first_edge(edges, id, j) {
        let j = choose|j: int| is_first_edge(edges, id, j);
        assert(is_first_edge(e1, id, j));
        assert forall|j2: int| is_first_edge(e1, id, j2) implies j2 == j by {
            if j2 < j {
                assert(e1[j2].id@ == edges[j2].id@);
            } else if j2 > j {
                assert(e1[j].id@ != id);
            }
        }
        assert(edges_with_flag(e1, id, false) =~= edges_with_flag(edges, id, false));
    } else {
        assert forall|j2: int| !is_first_edge(e1, id, j2) by {
            if is_first_edge(e1, id, j2) {
                assert(is_first_edge(edges, id, j2));
            }
        }
    }
}

} // verus!
