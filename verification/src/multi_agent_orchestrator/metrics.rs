//! The numbers behind the metrics panel and the run comparison: how many
//! nodes of a run are done, running or failed, the token totals, one line per
//! node, and the per-node token change between the last two runs.

use vstd::prelude::*;
use crate::multi_agent_orchestrator::run::{
    find_state, is_first_key, lemma_first_key_same_keys, lemma_first_key_unique, state_map, NodeExecutionState,
    NodeStateView, OrchestratorRun,
};
use crate::multi_agent_orchestrator::types::{status_is_active, status_label, NodeExecutionStatus, OrchestratorNode};
use crate::text::{decimal, u64_to_decimal};

verus! {

/// Which node states a count takes: 0 every state, 1 the completed ones,
/// 2 the running or retrying ones, 3 the failed ones.
pub open spec fn state_matches(which: nat, v: NodeStateView) -> bool {
    if which == 0 {
        true
    } else if which == 1 {
        v.status is Completed
    } else if which == 2 {
        status_is_active(v.status)
    } else {
        v.status is Failed
    }
}

/// How many node ids of `m` have a state of the kind `which`.
pub open spec fn count_states(m: Map<Seq<char>, NodeStateView>, which: nat) -> nat {
    m.dom().filter(|id: Seq<char>| state_matches(which, m[id])).len()
}

/// Appending an entry adds its id to the node-state map, unless an earlier
/// entry has that id already.
#[verifier::rlimit(30)]
proof fn lemma_state_map_push(s: Seq<(String, NodeExecutionState)>, x: (String, NodeExecutionState))
    ensures
        (exists|j: int| 0 <= j < s.len() && #[trigger] s[j].0@ == x.0@) ==> state_map(s.push(x)) == state_map(s),
        !(exists|j: int| 0 <= j < s.len() && #[trigger] s[j].0@ == x.0@) ==> state_map(s.push(x)) == state_map(
            s,
        ).insert(x.0@, x.1@),
{
    reveal(state_map);
    let t = s.push(x);
    let n = s.len() as int;
    assert forall|u: int| 0 <= u < s.len() implies #[trigger] s[u].0@ == t[u].0@ by {}
    assert forall|k: Seq<char>, j: int| k != x.0@ implies #[trigger] is_first_key(t, k, j) == is_first_key(s, k, j) by {
        lemma_first_key_same_keys(s, t, k);
    }
    if exists|j: int| 0 <= j < s.len() && #[trigger] s[j].0@ == x.0@ {
        let j0 = choose|j: int| 0 <= j < s.len() && #[trigger] s[j].0@ == x.0@;
        // the first position of x's id in s
        let f = first_pos(s, x.0@, j0);
        assert(t[n].0@ == x.0@);
        assert(t[f] == s[f]);
        assert forall|j: int| #[trigger] is_first_key(t, x.0@, j) == is_first_key(s, x.0@, j) by {
            if 0 <= j < n {
                assert(t[j] == s[j]);
                assert forall|u: int| 0 <= u < j implies #[trigger] t[u].0@ == s[u].0@ by {
                    assert(t[u] == s[u]);
                }
            }
            if j == n {
                assert(!is_first_key(t, x.0@, j)) by {
                    if f < n {
                        assert(t[f].0@ == x.0@);
                    }
                }
            }
        }
        assert forall|k: Seq<char>| #[trigger] state_map(t).contains_key(k) == state_map(s).contains_key(k) by {
            if state_map(s).contains_key(k) {
                let b = choose|j: int| is_first_key(s, k, j);
                assert(is_first_key(t, k, b));
            }
            if state_map(t).contains_key(k) {
                let a = choose|j: int| is_first_key(t, k, j);
                assert(is_first_key(s, k, a));
            }
        }
        assert forall|k: Seq<char>| #[trigger] state_map(t).contains_key(k) implies state_map(t)[k] == state_map(s)[k] by {
            let a = choose|j: int| is_first_key(t, k, j);
            let b = choose|j: int| is_first_key(s, k, j);
            assert(is_first_key(s, k, a));
            lemma_first_key_unique(s, k, a, b);
        }
        assert(state_map(t) =~= state_map(s));
    } else {
        assert(t[n].0@ == x.0@);
        assert forall|u: int| 0 <= u < n implies #[trigger] t[u].0@ != x.0@ by {
            assert(t[u] == s[u]);
        }
        assert(is_first_key(t, x.0@, n));
        assert forall|j: int| is_first_key(t, x.0@, j) implies j == n by {
            lemma_first_key_unique(t, x.0@, n, j);
        }
        assert forall|k: Seq<char>| k != x.0@ implies state_map(t).contains_key(k) == state_map(s).contains_key(k) by {
            if state_map(s).contains_key(k) {
                let b = choose|j: int| is_first_key(s, k, j);
                assert(is_first_key(t, k, b));
            }
            if state_map(t).contains_key(k) {
                let a = choose|j: int| is_first_key(t, k, j);
                assert(is_first_key(s, k, a));
            }
        }
        assert forall|k: Seq<char>| k != x.0@ && #[trigger] state_map(t).contains_key(k) implies state_map(t)[k]
            == state_map(s)[k] by {
            let a = choose|j: int| is_first_key(t, k, j);
            let b = choose|j: int| is_first_key(s, k, j);
            assert(is_first_key(s, k, a));
            lemma_first_key_unique(s, k, a, b);
        }
        assert(state_map(t) =~= state_map(s).insert(x.0@, x.1@));
    }
}

/// A position of `k` at or before `j0` that is its first one.
proof fn first_pos(s: Seq<(String, NodeExecutionState)>, k: Seq<char>, j0: int) -> (f: int)
    requires
        0 <= j0 < s.len(),
        s[j0].0@ == k,
    ensures
        is_first_key(s, k, f),
    decreases j0,
{
    if exists|j: int| 0 <= j < j0 && #[trigger] s[j].0@ == k {
        let j1 = choose|j: int| 0 <= j < j0 && #[trigger] s[j].0@ == k;
        first_pos(s, k, j1)
    } else {
        j0
    }
}

/// The node-state map of the empty list is empty.
proof fn lemma_state_map_empty(s: Seq<(String, NodeExecutionState)>)
    requires
        s.len() == 0,
    ensures
        state_map(s) == Map::<Seq<char>, NodeStateView>::empty(),
{
    reveal(state_map);
    assert(state_map(s) =~= Map::<Seq<char>, NodeStateView>::empty());
}

/// Adding a new id to a map with finitely many ids counts it once, for each
/// kind it is of.
proof fn lemma_count_insert(m: Map<Seq<char>, NodeStateView>, k: Seq<char>, v: NodeStateView, which: nat)
    requires
        m.dom().finite(),
        !m.dom().contains(k),
    ensures
        m.insert(k, v).dom().finite(),
        count_states(m.insert(k, v), which) == count_states(m, which) + (if state_matches(which, v) { 1nat } else { 0nat }),
{
    let m2 = m.insert(k, v);
    let f = |id: Seq<char>| state_matches(which, m[id]);
    let f2 = |id: Seq<char>| state_matches(which, m2[id]);
    m.dom().lemma_len_filter(f);
    if state_matches(which, v) {
        assert(m2.dom().filter(f2) =~= m.dom().filter(f).insert(k));
    } else {
        assert(m2.dom().filter(f2) =~= m.dom().filter(f));
    }
}

/// Whether an entry before position `i` has the id of the entry at `i`.
fn seen_before(states: &Vec<(String, NodeExecutionState)>, i: usize) -> (r: bool)
    requires
        i < states@.len(),
    ensures
        r == exists|j: int| 0 <= j < i && #[trigger] states@[j].0@ == states@[i as int].0@,
{
    let mut j: usize = 0;
    while j < i
        invariant
            i < states@.len(),
            j <= i,
            forall|t: int| 0 <= t < j ==> #[trigger] states@[t].0@ != states@[i as int].0@,
        decreases i - j,
    {
        if crate::text::str_eq(states[j].0.as_str(), states[i].0.as_str()) {
            return true;
        }
        j = j + 1;
    }
    false
}

/// The metrics panel's counts for a run: its nodes in all, and those done,
/// running (or retrying) and failed.
pub fn run_node_counts(run: &OrchestratorRun) -> (r: (usize, usize, usize, usize))
    ensures
        r.0 == run@.node_states.dom().len(),
        r.1 == run@.node_states.dom().filter(|id: Seq<char>| run@.node_states[id].status is Completed).len(),
        r.2 == run@.node_states.dom().filter(|id: Seq<char>| status_is_active(run@.node_states[id].status)).len(),
        r.3 == run@.node_states.dom().filter(|id: Seq<char>| run@.node_states[id].status is Failed).len(),
{
    let s = &run.node_states;
    let n = s.len();
    let mut total: usize = 0;
    let mut done: usize = 0;
    let mut running: usize = 0;
    let mut failed: usize = 0;
    let mut i: usize = 0;
    proof {
        lemma_state_map_empty(s@.take(0));
        assert(Map::<Seq<char>, NodeStateView>::empty().dom() =~= Set::<Seq<char>>::empty());
        let e = Map::<Seq<char>, NodeStateView>::empty();
        assert forall|w: nat| #[trigger] count_states(e, w) == 0 by {
            assert(e.dom().filter(|id: Seq<char>| state_matches(w, e[id])) =~= Set::<Seq<char>>::empty());
        }
    }
    while i < n
        invariant
            n == s@.len(),
            i <= n,
            state_map(s@.take(i as int)).dom().finite(),
            total as nat == count_states(state_map(s@.take(i as int)), 0),
            done as nat == count_states(state_map(s@.take(i as int)), 1),
            running as nat == count_states(state_map(s@.take(i as int)), 2),
            failed as nat == count_states(state_map(s@.take(i as int)), 3),
            total <= i && done <= i && running <= i && failed <= i,
        decreases n - i,
    {
        let seen = seen_before(s, i);
        let ghost pre = s@.take(i as int);
        proof {
            assert(s@.take(i + 1) =~= pre.push(s@[i as int]));
            assert forall|j: int| 0 <= j < pre.len() implies #[trigger] pre[j] == s@[j] by {}
            lemma_state_map_push(pre, s@[i as int]);
        }
        if !seen {
            let ghost m = state_map(pre);
            proof {
                assert(!(exists|j: int| 0 <= j < pre.len() && #[trigger] pre[j].0@ == s@[i as int].0@)) by {
                    if exists|j: int| 0 <= j < pre.len() && #[trigger] pre[j].0@ == s@[i as int].0@ {
                        let j = choose|j: int| 0 <= j < pre.len() && #[trigger] pre[j].0@ == s@[i as int].0@;
                        assert(s@[j].0@ == s@[i as int].0@);
                    }
                }
                reveal(state_map);
                assert(!m.dom().contains(s@[i as int].0@)) by {
                    if m.dom().contains(s@[i as int].0@) {
                        let a = choose|j: int| is_first_key(pre, s@[i as int].0@, j);
                        assert(pre[a].0@ == s@[a].0@);
                    }
                }
                lemma_count_insert(m, s@[i as int].0@, s@[i as int].1@, 0);
                lemma_count_insert(m, s@[i as int].0@, s@[i as int].1@, 1);
                lemma_count_insert(m, s@[i as int].0@, s@[i as int].1@, 2);
                lemma_count_insert(m, s@[i as int].0@, s@[i as int].1@, 3);
                assert(state_map(s@.take(i + 1)) == m.insert(s@[i as int].0@, s@[i as int].1@));
                assert(state_matches(0, s@[i as int].1@));
            }
            total = total + 1;
            match s[i].1.status {
                NodeExecutionStatus::Completed => {
                    done = done + 1;
                },
                NodeExecutionStatus::Failed => {
                    failed = failed + 1;
                },
                NodeExecutionStatus::Running | NodeExecutionStatus::Retrying(_) => {
                    running = running + 1;
                },
                _ => {},
            }
        } else {
            proof {
                let j = choose|j: int| 0 <= j < i && #[trigger] s@[j].0@ == s@[i as int].0@;
                assert(pre[j].0@ == s@[i as int].0@);
                assert(state_map(s@.take(i + 1)) == state_map(pre));
            }
        }
        i = i + 1;
    }
    proof {
        assert(s@.take(n as int) =~= s@);
        let m = state_map(s@);
        assert(m.dom().filter(|id: Seq<char>| state_matches(0, m[id])) =~= m.dom());
        assert(m.dom().filter(|id: Seq<char>| state_matches(1, m[id])) =~= m.dom().filter(|id: Seq<char>| m[id].status is Completed));
        assert(m.dom().filter(|id: Seq<char>| state_matches(2, m[id])) =~= m.dom().filter(|id: Seq<char>| status_is_active(m[id].status)));
        assert(m.dom().filter(|id: Seq<char>| state_matches(3, m[id])) =~= m.dom().filter(|id: Seq<char>| m[id].status is Failed));
    }
    (total, done, running, failed)
}

/// The entry at the first position of an id is that id's state in the map;
/// an id with no entry is not in the map.
proof fn lemma_state_at(s: Seq<(String, NodeExecutionState)>, k: Seq<char>)
    ensures
        forall|i: int| #[trigger] is_first_key(s, k, i) ==> state_map(s).contains_key(k) && state_map(s)[k] == s[i].1@,
        (forall|i: int| 0 <= i < s.len() ==> #[trigger] s[i].0@ != k) ==> !state_map(s).contains_key(k),
{
    reveal(state_map);
    assert forall|i: int| #[trigger] is_first_key(s, k, i) implies state_map(s).contains_key(k) && state_map(s)[k] == s[i].1@ by {
        let c = choose|j: int| is_first_key(s, k, j);
        lemma_first_key_unique(s, k, i, c);
    }
}

/// An id's state in the map of a prefix is its state in the whole map.
proof fn lemma_state_map_prefix(s: Seq<(String, NodeExecutionState)>, i: int, k: Seq<char>)
    requires
        0 <= i <= s.len(),
        state_map(s.take(i)).contains_key(k),
    ensures
        state_map(s).contains_key(k),
        state_map(s)[k] == state_map(s.take(i))[k],
{
    reveal(state_map);
    let p = s.take(i);
    let a = choose|j: int| is_first_key(p, k, j);
    assert forall|t: int| 0 <= t < a implies #[trigger] s[t].0@ != k by {
        assert(p[t] == s[t]);
    }
    assert(p[a] == s[a]);
    assert(is_first_key(s, k, a));
    lemma_state_at(s, k);
    lemma_state_at(p, k);
}

/// A count as decimal text.
fn count_text(n: usize) -> (r: String)
    ensures
        r@ == decimal(n as nat),
{
    u64_to_decimal(n as u64)
}

/// The summary line of the metrics panel for counts of nodes in all, done,
/// running and failed.
pub open spec fn summary_text(total: nat, done: nat, running: nat, failed: nat) -> Seq<char> {
    decimal(total) + " total, "@ + decimal(done) + " done, "@ + decimal(running) + " running, "@ + decimal(failed)
        + " failed"@
}

/// The metrics panel's summary line for a run: "N total, N done, N running,
/// N failed".
pub fn node_summary_line(run: &OrchestratorRun) -> (r: String)
    ensures
        r@ == summary_text(
            count_states(run@.node_states, 0),
            count_states(run@.node_states, 1),
            count_states(run@.node_states, 2),
            count_states(run@.node_states, 3),
        ),
{
    let (total, done, running, failed) = run_node_counts(run);
    proof {
        let m = run@.node_states;
        assert(m.dom().filter(|id: Seq<char>| state_matches(0, m[id])) =~= m.dom());
        assert(m.dom().filter(|id: Seq<char>| state_matches(1, m[id])) =~= m.dom().filter(|id: Seq<char>| m[id].status is Completed));
        assert(m.dom().filter(|id: Seq<char>| state_matches(2, m[id])) =~= m.dom().filter(|id: Seq<char>| status_is_active(m[id].status)));
        assert(m.dom().filter(|id: Seq<char>| state_matches(3, m[id])) =~= m.dom().filter(|id: Seq<char>| m[id].status is Failed));
    }
    let mut r = count_text(total);
    r.append(" total, ");
    r.append(count_text(done).as_str());
    r.append(" done, ");
    r.append(count_text(running).as_str());
    r.append(" running, ");
    r.append(count_text(failed).as_str());
    r.append(" failed");
    r
}

/// The token line of the metrics panel.
pub open spec fn token_text(input: u64, output: u64, total: u64) -> Seq<char> {
    "In: "@ + decimal(input as nat) + "  Out: "@ + decimal(output as nat) + "  Total: "@ + decimal(total as nat)
}

/// The metrics panel's token line for a run: "In: N  Out: N  Total: N".
pub fn token_line(run: &OrchestratorRun) -> (r: String)
    ensures
        r@ == token_text(run@.total_usage.input_tokens, run@.total_usage.output_tokens, run@.total_usage.total_tokens),
{
    let mut r = "In: ".to_string();
    r.append(u64_to_decimal(run.total_usage.input_tokens).as_str());
    r.append("  Out: ");
    r.append(u64_to_decimal(run.total_usage.output_tokens).as_str());
    r.append("  Total: ");
    r.append(u64_to_decimal(run.total_usage.total_tokens).as_str());
    r
}

/// The line of the metrics panel for one node: its name, status and tokens.
pub open spec fn node_metric_line(name: Seq<char>, status: NodeExecutionStatus, tokens: u64) -> Seq<char> {
    name + ": "@ + status_label(status) + " ("@ + decimal(tokens as nat) + "toks)"@
}

/// The per-node lines of the metrics panel: one for each workflow node, in
/// workflow order, that has a state in the run.
pub open spec fn node_metric_lines(nodes: Seq<OrchestratorNode>, m: Map<Seq<char>, NodeStateView>) -> Seq<Seq<char>>
    decreases nodes.len(),
{
    if nodes.len() == 0 {
        seq![]
    } else {
        let rest = node_metric_lines(nodes.drop_last(), m);
        let n = nodes.last();
        if m.contains_key(n.id@) {
            rest.push(node_metric_line(n.name@, m[n.id@].status, m[n.id@].token_usage.total_tokens))
        } else {
            rest
        }
    }
}

/// The metrics panel's per-node lines for a run.
pub fn node_metric_text(nodes: &[OrchestratorNode], run: &OrchestratorRun) -> (r: Vec<String>)
    ensures
        r@.map_values(|l: String| l@) == node_metric_lines(nodes@, run@.node_states),
{
    let mut r: Vec<String> = Vec::new();
    let mut i: usize = 0;
    assert(nodes@.take(0) =~= Seq::<OrchestratorNode>::empty());
    assert(r@.map_values(|l: String| l@) =~= Seq::<Seq<char>>::empty());
    while i < nodes.len()
        invariant
            i <= nodes@.len(),
            r@.map_values(|l: String| l@) == node_metric_lines(nodes@.take(i as int), run@.node_states),
        decreases nodes@.len() - i,
    {
        let node = &nodes[i];
        assert(nodes@.take(i + 1).drop_last() =~= nodes@.take(i as int));
        assert(nodes@.take(i + 1).last() == nodes@[i as int]);
        let ghost before = r@;
        proof { lemma_state_at(run.node_states@, node.id@); }
        match find_state(&run.node_states, node.id.as_str()) {
            Some(j) => {
                let st = &run.node_states[j].1;
                let mut line = node.name.clone();
                line.append(": ");
                line.append(st.status.label());
                line.append(" (");
                line.append(u64_to_decimal(st.token_usage.total_tokens).as_str());
                line.append("toks)");
                r.push(line);
                assert(r@.map_values(|l: String| l@) =~= before.map_values(|l: String| l@).push(line@));
            },
            None => {},
        }
        i = i + 1;
    }
    assert(nodes@.take(nodes@.len() as int) =~= nodes@);
    r
}

/// The token change between two runs as text: "+N" for more, "0" for the
/// same, "-N" for fewer.
pub open spec fn token_diff_text(a: u64, b: u64) -> Seq<char> {
    if b > a {
        "+"@ + decimal((b - a) as nat)
    } else if b == a {
        "0"@
    } else {
        "-"@ + decimal((a - b) as nat)
    }
}

/// The token change from `a` to `b` as text.
pub fn token_diff(a: u64, b: u64) -> (r: String)
    ensures
        r@ == token_diff_text(a, b),
{
    if b > a {
        let mut r = "+".to_string();
        r.append(u64_to_decimal(b - a).as_str());
        r
    } else if b == a {
        "0".to_string()
    } else {
        let mut r = "-".to_string();
        r.append(u64_to_decimal(a - b).as_str());
        r
    }
}

/// The run comparison's line for one node: "  id: A → B (diff)".
pub open spec fn comparison_text(id: Seq<char>, a: u64, b: u64) -> Seq<char> {
    "  "@ + id + ": "@ + decimal(a as nat) + " → "@ + decimal(b as nat) + " ("@ + token_diff_text(a, b) + ")"@
}

/// The run comparison's line for one node.
pub fn comparison_line(id: &str, a: u64, b: u64) -> (r: String)
    ensures
        r@ == comparison_text(id@, a, b),
{
    let mut r = "  ".to_string();
    r.append(id);
    r.append(": ");
    r.append(u64_to_decimal(a).as_str());
    r.append(" → ");
    r.append(u64_to_decimal(b).as_str());
    r.append(" (");
    r.append(token_diff(a, b).as_str());
    r.append(")");
    r
}

/// The per-node token use of the last two runs of the history: for each node
/// id that has a state in both, once, its tokens in the earlier and in the
/// later run. None when there are fewer than two runs.
pub fn compare_last_two_runs(history: &[OrchestratorRun]) -> (r: Option<Vec<(String, u64, u64)>>)
    ensures
        (history@.len() < 2) <==> r is None,
        r matches Some(v) ==> {
            let ma = history@[history@.len() - 2]@.node_states;
            let mb = history@[history@.len() - 1]@.node_states;
            &&& forall|j: int| 0 <= j < v@.len() ==> ma.contains_key(#[trigger] v@[j].0@) && mb.contains_key(v@[j].0@)
                && v@[j].1 == ma[v@[j].0@].token_usage.total_tokens && v@[j].2 == mb[v@[j].0@].token_usage.total_tokens
            &&& forall|j: int, k: int| 0 <= j < k < v@.len() ==> #[trigger] v@[j].0@ != #[trigger] v@[k].0@
            &&& forall|id: Seq<char>| ma.contains_key(id) && mb.contains_key(id) ==> exists|j: int|
                0 <= j < v@.len() && #[trigger] v@[j].0@ == id
        },
{
    let len = history.len();
    if len < 2 {
        return None;
    }
    let run_a = &history[len - 2];
    let run_b = &history[len - 1];
    let sa = &run_a.node_states;
    let ghost ma = run_a@.node_states;
    let ghost mb = run_b@.node_states;
    let mut v: Vec<(String, u64, u64)> = Vec::new();
    let n = sa.len();
    let mut i: usize = 0;
    proof { lemma_state_map_empty(sa@.take(0)); }
    while i < n
        invariant
            n == sa@.len(),
            i <= n,
            ma == state_map(sa@),
            mb == run_b@.node_states,
            forall|j: int| 0 <= j < v@.len() ==> state_map(sa@.take(i as int)).contains_key(#[trigger] v@[j].0@)
                && mb.contains_key(v@[j].0@) && v@[j].1 == ma[v@[j].0@].token_usage.total_tokens
                && v@[j].2 == mb[v@[j].0@].token_usage.total_tokens,
            forall|j: int, k: int| 0 <= j < k < v@.len() ==> #[trigger] v@[j].0@ != #[trigger] v@[k].0@,
            forall|id: Seq<char>| state_map(sa@.take(i as int)).contains_key(id) && mb.contains_key(id) ==> exists|j: int|
                0 <= j < v@.len() && #[trigger] v@[j].0@ == id,
        decreases n - i,
    {
        let ghost pre = sa@.take(i as int);
        let ghost k = sa@[i as int].0@;
        proof {
            assert(sa@.take(i + 1) =~= pre.push(sa@[i as int]));
            lemma_state_map_push(pre, sa@[i as int]);
        }
        let seen = seen_before(sa, i);
        if seen {
            proof {
                let j = choose|j: int| 0 <= j < i && #[trigger] sa@[j].0@ == k;
                assert(pre[j].0@ == k);
            }
        } else {
            proof {
                lemma_state_at(pre, k);
                assert forall|t: int| 0 <= t < pre.len() implies #[trigger] pre[t].0@ != k by {
                    assert(pre[t] == sa@[t]);
                }
                assert(is_first_key(sa@, k, i as int)) by {
                    assert forall|t: int| 0 <= t < i implies #[trigger] sa@[t].0@ != k by {
                        assert(pre[t] == sa@[t]);
                    }
                }
                lemma_state_at(sa@, k);
                lemma_state_at(run_b.node_states@, k);
            }
            match find_state(&run_b.node_states, sa[i].0.as_str()) {
                Some(jb) => {
                    let ghost before = v@;
                    let a_tok = sa[i].1.token_usage.total_tokens;
                    let b_tok = run_b.node_states[jb].1.token_usage.total_tokens;
                    v.push((sa[i].0.clone(), a_tok, b_tok));
                    proof {
                        assert forall|j: int| 0 <= j < v@.len() implies state_map(sa@.take(i + 1)).contains_key(#[trigger] v@[j].0@)
                            && mb.contains_key(v@[j].0@) && v@[j].1 == ma[v@[j].0@].token_usage.total_tokens
                            && v@[j].2 == mb[v@[j].0@].token_usage.total_tokens by {
                            if j < before.len() {
                                assert(v@[j] == before[j]);
                            }
                        }
                        assert forall|j: int, k2: int| 0 <= j < k2 < v@.len() implies #[trigger] v@[j].0@ != #[trigger] v@[k2].0@ by {
                            if k2 == before.len() {
                                assert(v@[j] == before[j]);
                                assert(state_map(pre).contains_key(before[j].0@));
                            } else {
                                assert(v@[j] == before[j] && v@[k2] == before[k2]);
                            }
                        }
                        assert forall|id: Seq<char>| state_map(sa@.take(i + 1)).contains_key(id) && mb.contains_key(id) implies exists|j: int|
                            0 <= j < v@.len() && #[trigger] v@[j].0@ == id by {
                            if id == k {
                                assert(v@[before.len() as int].0@ == id);
                            } else {
                                assert(state_map(pre).contains_key(id));
                                let j = choose|j: int| 0 <= j < before.len() && #[trigger] before[j].0@ == id;
                                assert(v@[j] == before[j]);
                            }
                        }
                    }
                },
                None => {
                    proof {
                        assert forall|id: Seq<char>| state_map(sa@.take(i + 1)).contains_key(id) && mb.contains_key(id) implies exists|j: int|
                            0 <= j < v@.len() && #[trigger] v@[j].0@ == id by {
                            assert(id != k);
                            assert(state_map(pre).contains_key(id));
                        }
                    }
                },
            }
        }
        i = i + 1;
    }
    proof {
        assert(sa@.take(n as int) =~= sa@);
    }
    Some(v)
}

/// The node ids of a run are finitely many: each is the id of an entry.
proof fn lemma_state_ids_finite(s: Seq<(String, NodeExecutionState)>)
    ensures
        state_map(s).dom().finite(),
{
    let ids = s.map_values(|x: (String, NodeExecutionState)| x.0@);
    reveal(state_map);
    assert(state_map(s).dom().subset_of(ids.to_set())) by {
        assert forall|k: Seq<char>| state_map(s).dom().contains(k) implies ids.to_set().contains(k) by {
            let i = choose|i: int| is_first_key(s, k, i);
            assert(ids[i] == k);
        }
    }
    vstd::seq_lib::seq_to_set_is_finite(ids);
    vstd::set_lib::lemma_len_subset(state_map(s).dom(), ids.to_set());
}

/// No node of a run is counted as more than one of done, running and failed,
/// so together these counts never exceed the run's number of nodes.
pub proof fn law_state_counts_within_total(run: OrchestratorRun)
    ensures
        count_states(run@.node_states, 1) + count_states(run@.node_states, 2) + count_states(run@.node_states, 3)
            <= count_states(run@.node_states, 0),
{
    let m = run@.node_states;
    let d = m.dom();
    lemma_state_ids_finite(run.node_states@);
    let a = d.filter(|id: Seq<char>| state_matches(1, m[id]));
    let b = d.filter(|id: Seq<char>| state_matches(2, m[id]));
    let c = d.filter(|id: Seq<char>| state_matches(3, m[id]));
    assert(d.filter(|id: Seq<char>| state_matches(0, m[id])) =~= d);
    vstd::set_lib::lemma_len_subset(a, d);
    vstd::set_lib::lemma_len_subset(b, d);
    vstd::set_lib::lemma_len_subset(c, d);
    assert(a.disjoint(b));
    vstd::set_lib::lemma_set_disjoint_lens(a, b);
    vstd::set_lib::lemma_len_subset(a + b, d);
    assert((a + b).disjoint(c));
    vstd::set_lib::lemma_set_disjoint_lens(a + b, c);
    vstd::set_lib::lemma_len_subset(a + b + c, d);
}

} // verus!
