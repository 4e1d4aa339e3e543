use std::sync::{Arc, Mutex};

use cvkg_components::interactive::button::Toggle;
use cvkg_components::interactive::select::Select;
use cvkg_components::keyboard_nav::{ArrowDirection, ArrowNav, FocusTrap, Focusable};
use cvkg_components::layer_system::LayerSystem;
use cvkg_components::layout_components::FloatingNavbar;
use cvkg_components::multi_agent_orchestrator::metrics::{
    compare_last_two_runs, comparison_line, node_metric_text, node_summary_line, run_node_counts,
    token_diff, token_line,
};
use cvkg_components::multi_agent_orchestrator::run::{NodeExecutionState, OrchestratorRun};
use cvkg_components::multi_agent_orchestrator::types::{
    NodeExecutionStatus, OrchestratorNode, RunStatus, TokenUsage,
};

fn usage(input: u64, output: u64, total: u64) -> TokenUsage {
    TokenUsage { input_tokens: input, output_tokens: output, total_tokens: total }
}

fn state(status: NodeExecutionStatus, tokens: u64) -> NodeExecutionState {
    let mut s = NodeExecutionState::default();
    s.status = status;
    s.token_usage = usage(0, 0, tokens);
    s
}

fn run(states: Vec<(&str, NodeExecutionState)>) -> OrchestratorRun {
    OrchestratorRun {
        id: "r".to_string(),
        started_at_ms: 0,
        ended_at_ms: None,
        status: RunStatus::Completed,
        node_states: states.into_iter().map(|(k, v)| (k.to_string(), v)).collect(),
        total_usage: usage(120, 80, 200),
        duration_ms: None,
        logs: Vec::new(),
        metadata: Vec::new(),
    }
}

#[test]
fn metrics_counts_and_lines() {
    let r = run(vec![
        ("a", state(NodeExecutionStatus::Completed, 10)),
        ("b", state(NodeExecutionStatus::Running, 5)),
        ("c", state(NodeExecutionStatus::Retrying(2), 0)),
        ("d", state(NodeExecutionStatus::Failed, 7)),
        ("a", state(NodeExecutionStatus::Failed, 99)),
        ("e", state(NodeExecutionStatus::Pending, 0)),
    ]);
    // The second entry for "a" does not count: the first one does.
    assert_eq!(run_node_counts(&r), (5, 1, 2, 1));
    assert_eq!(node_summary_line(&r), "5 total, 1 done, 2 running, 1 failed");
    assert_eq!(token_line(&r), "In: 120  Out: 80  Total: 200");
    let nodes = vec![
        OrchestratorNode::agent("d", "Dee"),
        OrchestratorNode::agent("zz", "Missing"),
        OrchestratorNode::agent("a", "Ay"),
    ];
    assert_eq!(node_metric_text(&nodes, &r), vec!["Dee: Failed (7toks)".to_string(), "Ay: Done (10toks)".to_string()]);
    assert_eq!(run_node_counts(&run(vec![])), (0, 0, 0, 0));
    assert_eq!(node_summary_line(&run(vec![])), "0 total, 0 done, 0 running, 0 failed");
}

#[test]
fn comparison_of_the_last_two_runs() {
    assert!(compare_last_two_runs(&[]).is_none());
    let a = run(vec![("x", state(NodeExecutionStatus::Completed, 10)), ("y", state(NodeExecutionStatus::Completed, 30)), ("only_a", state(NodeExecutionStatus::Completed, 1))]);
    let b = run(vec![("y", state(NodeExecutionStatus::Completed, 20)), ("x", state(NodeExecutionStatus::Completed, 15)), ("only_b", state(NodeExecutionStatus::Completed, 2))]);
    assert!(compare_last_two_runs(std::slice::from_ref(&a)).is_none());
    let old = run(vec![("x", state(NodeExecutionStatus::Completed, 999))]);
    let v = compare_last_two_runs(&[old, a, b]).unwrap();
    assert_eq!(v, vec![("x".to_string(), 10, 15), ("y".to_string(), 30, 20)]);
    assert_eq!(token_diff(10, 15), "+5");
    assert_eq!(token_diff(30, 20), "-10");
    assert_eq!(token_diff(7, 7), "0");
    assert_eq!(comparison_line("x", 10, 15), "  x: 10 → 15 (+5)");
    assert_eq!(comparison_line("y", 30, 20), "  y: 30 → 20 (-10)");
}

#[test]
fn toggle_click_and_select_option_click() {
    let log = Arc::new(Mutex::new(Vec::new()));
    let l = log.clone();
    let t = Toggle::new("Wifi", false, move |b| l.lock().unwrap().push(b));
    t.click();
    assert_eq!(*log.lock().unwrap(), vec![true]);

    let picked = Arc::new(Mutex::new(Vec::new()));
    let p = picked.clone();
    let mut s = Select::new("Pick").option("a", 1u32).option("b", 2u32).on_change(move |v| p.lock().unwrap().push(v));
    assert!(!s.click_option(1));
    s.toggle_open();
    assert!(s.is_open);
    assert!(!s.click_option(5));
    assert!(s.click_option(1));
    assert!(!s.is_open);
    assert_eq!(s.selected_index, Some(1));
    assert_eq!(*picked.lock().unwrap(), vec![2]);
    s.toggle_open();
    s.toggle_open();
    assert!(!s.is_open);
}

#[test]
fn layers_show_and_hide_the_first_match() {
    let l = LayerSystem::new().layer("bg", "Background").layer("fg", "Foreground").layer("fg", "Second");
    assert!(l.layers.iter().all(|x| x.visible && !x.locked));
    let l = l.visible("fg", false);
    assert!(l.layers[0].visible);
    assert!(!l.layers[1].visible);
    assert!(l.layers[2].visible);
    let l = l.visible("none", false);
    assert_eq!(l.layers.len(), 3);
    assert!(l.active_layer.is_none());
}

#[test]
fn floating_navbar_builders() {
    let n = FloatingNavbar::new();
    assert_eq!(n.items, vec!["Home".to_string(), "Explore".to_string(), "Settings".to_string()]);
    assert_eq!(n.selected, 0);
    assert!(n.glass);
    let n = n.items(vec!["A".to_string()]).selected(3).glass(false);
    assert_eq!(n.items, vec!["A".to_string()]);
    assert_eq!(n.selected, 3);
    assert!(!n.glass);
}

#[test]
fn focus_wrappers_handle_their_keys() {
    let hits = Arc::new(Mutex::new(0u32));
    let h = hits.clone();
    let f = Focusable::new("name", ()).tab_index(2).on_enter(move || *h.lock().unwrap() += 1);
    assert_eq!(f.tab_index, 2);
    assert!(!f.handle_key("Enter", false));
    assert!(f.handle_key("Enter", true));
    assert!(f.handle_key("Return", true));
    assert!(f.handle_key("a", true));
    assert_eq!(*hits.lock().unwrap(), 2);
    assert!(!Focusable::new("x", ()).handle_key("Enter", true));

    let esc = Arc::new(Mutex::new(0u32));
    let e = esc.clone();
    let trap = FocusTrap::new(()).on_escape(move || *e.lock().unwrap() += 1);
    assert_eq!(trap.tab_direction("Tab", false), Some(true));
    assert_eq!(trap.tab_direction("Tab", true), Some(false));
    assert_eq!(trap.tab_direction("a", false), None);
    assert!(trap.handle_escape("Escape"));
    let trap = trap.active(false);
    assert_eq!(trap.tab_direction("Tab", false), None);
    assert!(!trap.handle_escape("Escape"));
    assert_eq!(*esc.lock().unwrap(), 1);

    let dirs = Arc::new(Mutex::new(Vec::new()));
    let d = dirs.clone();
    let nav = ArrowNav::new((), move |x| d.lock().unwrap().push(x));
    assert!(!nav.handle_key("ArrowUp", false));
    assert!(nav.handle_key("ArrowLeft", true));
    assert!(!nav.handle_key("Tab", true));
    let nav = nav.require_focus(false);
    assert!(nav.handle_key("ArrowDown", false));
    assert_eq!(*dirs.lock().unwrap(), vec![ArrowDirection::Left, ArrowDirection::Down]);
}

#[test]
fn done_running_and_failed_never_exceed_the_nodes() {
    let r = run(vec![
        ("a", state(NodeExecutionStatus::Completed, 1)),
        ("b", state(NodeExecutionStatus::Running, 1)),
        ("c", state(NodeExecutionStatus::Failed, 1)),
        ("d", state(NodeExecutionStatus::Pending, 1)),
        ("a", state(NodeExecutionStatus::Failed, 1)),
    ]);
    let (total, done, running, failed) = run_node_counts(&r);
    assert_eq!((total, done, running, failed), (4, 1, 1, 1));
    assert!(done + running + failed <= total);
}
