use cvkg_components::multi_agent_orchestrator::engine::ExecutionStep;
use cvkg_components::multi_agent_orchestrator::orchestrator::{MultiAgentOrchestrator, OrchestratorState};
use cvkg_components::multi_agent_orchestrator::run::{
    apply_step_to_run, set_edge_active, NodeExecutionState, OrchestratorRun,
};
use cvkg_components::multi_agent_orchestrator::types::{
    LogLevel, NodeExecutionStatus, OrchestratorEdge, RunStatus, TokenUsage,
};

const DEMO_IDS: [&str; 8] = [
    "trigger", "agent_1", "agent_2", "branch_1", "agent_3", "loop_1", "parallel_1", "output_1",
];

fn state_of<'a>(run: &'a OrchestratorRun, id: &str) -> &'a NodeExecutionState {
    &run.node_states.iter().find(|(k, _)| k == id).expect("node state").1
}

fn empty_run() -> OrchestratorRun {
    OrchestratorRun {
        id: "r".to_string(),
        started_at_ms: 0,
        ended_at_ms: None,
        status: RunStatus::Running,
        node_states: Vec::new(),
        total_usage: TokenUsage { input_tokens: 0, output_tokens: 0, total_tokens: 0 },
        duration_ms: None,
        logs: Vec::new(),
        metadata: Vec::new(),
    }
}

#[test]
fn demo_state_holds_the_demo_workflow() {
    let s = OrchestratorState::demo();
    let ids: Vec<&str> = s.nodes.iter().map(|n| n.id.as_str()).collect();
    assert_eq!(ids, DEMO_IDS.to_vec());
    assert_eq!(s.edges.len(), 9);
    assert_eq!(s.edges[4].condition.as_deref(), Some("quality >= 0.8"));
    assert_eq!(s.edges[5].condition.as_deref(), Some("quality < 0.8"));
    assert_eq!(s.nodes[2].agent_config.as_ref().unwrap().model, "analysis-model-3");
    assert!(s.show_log_panel);
    assert!(!s.is_executing);
    assert!(s.current_run.is_none());
}

#[test]
fn demo_run_completes_every_node() {
    let mut o = MultiAgentOrchestrator::new();
    assert_eq!(o.instance_id, 0xDEAD_BEEF);
    o.start_execution(1000);
    assert!(o.state.is_executing);
    assert_eq!(o.last_tick_ms, Some(1000));
    assert_eq!(o.state.current_run.as_ref().unwrap().id, "run-0");
    let total = o.engine.total_steps();
    assert!(total > 0);
    let mut now = 1000;
    let mut ticks = 0;
    while o.state.is_executing {
        now += 10;
        o.simulation_tick(now);
        ticks += 1;
    }
    assert_eq!(ticks, total);
    assert_eq!(o.state.run_history.len(), 1);
    let run = o.state.current_run.as_ref().unwrap();
    assert_eq!(run.status, RunStatus::Completed);
    assert_eq!(run.ended_at_ms, Some(now));
    assert_eq!(o.state.run_history[0].status, RunStatus::Completed);
    assert_eq!(o.state.run_history[0].logs.len(), run.logs.len());
    for id in DEMO_IDS {
        assert_eq!(state_of(run, id).status, NodeExecutionStatus::Completed, "{}", id);
    }
    for id in ["agent_1", "agent_2", "agent_3"] {
        assert_eq!(state_of(run, id).retry_count, 1);
    }
    assert_eq!(state_of(run, "trigger").output.as_deref(), Some("Webhook received and acknowledged."));
    assert_eq!(state_of(run, "loop_1").output.as_deref(), Some("Loop completed after 3 iterations."));
    assert_eq!(state_of(run, "loop_1").logs.len(), 4);
    assert!(o.state.edges.iter().all(|e| !e.is_active));
    // A tick after the end changes nothing.
    o.simulation_tick(now + 10);
    assert_eq!(o.state.run_history.len(), 1);
}

#[test]
fn a_second_run_is_named_after_the_previous_plan() {
    let mut o = MultiAgentOrchestrator::new();
    o.start_execution(0);
    let total = o.engine.total_steps();
    let mut now = 0;
    while o.state.is_executing {
        now += 1;
        o.simulation_tick(now);
    }
    o.start_execution(now);
    assert_eq!(o.state.current_run.as_ref().unwrap().id, format!("run-{}", total));
}

#[test]
fn starting_while_running_changes_nothing() {
    let mut o = MultiAgentOrchestrator::new();
    o.start_execution(5);
    o.simulation_tick(6);
    let position = o.engine.current_step_index();
    o.start_execution(99);
    assert_eq!(o.engine.current_step_index(), position);
    assert_eq!(o.last_tick_ms, Some(5));
    assert_eq!(o.state.current_run.as_ref().unwrap().started_at_ms, 5);
}

#[test]
fn stopping_cancels_the_run() {
    let mut o = MultiAgentOrchestrator::new();
    o.start_execution(100);
    o.simulation_tick(110);
    o.simulation_tick(120);
    o.stop_execution(130);
    assert!(!o.state.is_executing);
    assert_eq!(o.engine.total_steps(), 0);
    let run = o.state.current_run.as_ref().unwrap();
    assert_eq!(run.status, RunStatus::Cancelled);
    assert_eq!(run.ended_at_ms, Some(130));
    assert!(o.state.run_history.is_empty());
    // Not executing: ticks are ignored.
    o.simulation_tick(140);
    assert_eq!(o.state.current_run.as_ref().unwrap().status, RunStatus::Cancelled);
}

#[test]
fn steps_update_the_node_states_and_log() {
    let mut run = empty_run();
    apply_step_to_run(&mut run, &ExecutionStep::StartNode("a".to_string()), 10);
    assert_eq!(state_of(&run, "a").status, NodeExecutionStatus::Running);
    assert_eq!(state_of(&run, "a").started_at_ms, Some(10));
    apply_step_to_run(&mut run, &ExecutionStep::Log("a".to_string(), LogLevel::Warn, "careful".to_string()), 12);
    assert_eq!(run.logs.len(), 1);
    assert_eq!(run.logs[0].timestamp_ms, 12);
    assert_eq!(run.logs[0].message, "careful");
    assert_eq!(state_of(&run, "a").logs.len(), 1);
    apply_step_to_run(&mut run, &ExecutionStep::RetryNode("a".to_string(), 2), 14);
    assert_eq!(state_of(&run, "a").status, NodeExecutionStatus::Retrying(2));
    assert_eq!(state_of(&run, "a").retry_count, 2);
    apply_step_to_run(&mut run, &ExecutionStep::CompleteNode("a".to_string(), "done".to_string()), 20);
    let a = state_of(&run, "a");
    assert_eq!(a.status, NodeExecutionStatus::Completed);
    assert_eq!(a.output.as_deref(), Some("done"));
    assert_eq!(a.duration(), Some(10));
    apply_step_to_run(&mut run, &ExecutionStep::FailNode("b".to_string(), "boom".to_string()), 30);
    assert_eq!(state_of(&run, "b").status, NodeExecutionStatus::Failed);
    assert_eq!(state_of(&run, "b").error.as_deref(), Some("boom"));
    assert_eq!(state_of(&run, "b").started_at_ms, None);
    apply_step_to_run(&mut run, &ExecutionStep::SkipNode("c".to_string()), 40);
    assert_eq!(state_of(&run, "c").status, NodeExecutionStatus::Skipped);
    apply_step_to_run(&mut run, &ExecutionStep::Wait(5), 50);
    assert_eq!(run.node_states.len(), 3);
    assert_eq!(state_of(&run, "a").status, NodeExecutionStatus::Completed);
}

#[test]
fn duration_needs_both_times_and_never_goes_negative() {
    let mut s = NodeExecutionState::default();
    assert_eq!(s.status, NodeExecutionStatus::Pending);
    assert_eq!(s.duration(), None);
    s.started_at_ms = Some(50);
    assert_eq!(s.duration(), None);
    s.ended_at_ms = Some(40);
    assert_eq!(s.duration(), Some(0));
    s.ended_at_ms = Some(75);
    assert_eq!(s.duration(), Some(25));
}

#[test]
fn edge_flags_touch_the_first_edge_with_the_id() {
    let mut edges = vec![
        OrchestratorEdge::new("x", "a", "out", "b", "in"),
        OrchestratorEdge::new("y", "b", "out", "c", "in"),
        OrchestratorEdge::new("y", "c", "out", "d", "in"),
    ];
    set_edge_active(&mut edges, "y", true);
    assert!(!edges[0].is_active);
    assert!(edges[1].is_active);
    assert!(!edges[2].is_active);
    set_edge_active(&mut edges, "y", false);
    assert!(edges.iter().all(|e| !e.is_active));
    set_edge_active(&mut edges, "missing", true);
    assert!(edges.iter().all(|e| !e.is_active));
}

#[test]
fn edge_steps_need_a_current_run() {
    let mut o = MultiAgentOrchestrator::new();
    o.apply_step(&ExecutionStep::ActivateEdge("e1".to_string()), 0);
    assert!(!o.state.edges[0].is_active);
    o.start_execution(0);
    o.apply_step(&ExecutionStep::ActivateEdge("e1".to_string()), 1);
    assert!(o.state.edges[0].is_active);
}
