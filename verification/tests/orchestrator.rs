use cvkg_components::multi_agent_orchestrator::engine::{
    has_reachable_cycle, topological_sort, validate_workflow, ExecutionEngine, ExecutionStep,
};
use cvkg_components::multi_agent_orchestrator::types::{
    LogLevel, MessageType, NodeExecutionStatus, OrchestratorEdge, OrchestratorNode,
    OrchestratorNodeType, RetryConfig, RunStatus, SkillRegistry, TokenUsage, UndoRedo,
};

fn demo_nodes() -> Vec<OrchestratorNode> {
    vec![
        OrchestratorNode::webhook("trigger", "Webhook Trigger"),
        OrchestratorNode::agent("agent_1", "Research Agent"),
        OrchestratorNode::agent("agent_2", "Analysis Agent"),
        OrchestratorNode::conditional("branch_1", "Quality Check"),
        OrchestratorNode::agent("agent_3", "Writer Agent"),
        OrchestratorNode::loop_node("loop_1", "Refine Loop"),
        OrchestratorNode::parallel("parallel_1", "Fan Out"),
        OrchestratorNode::output_sink("output_1", "Save Output"),
    ]
}

fn demo_edges() -> Vec<OrchestratorEdge> {
    vec![
        OrchestratorEdge::new("e1", "trigger", "out", "agent_1", "in"),
        OrchestratorEdge::new("e2", "trigger", "out", "agent_2", "in"),
        OrchestratorEdge::new("e3", "agent_1", "out", "branch_1", "in"),
        OrchestratorEdge::new("e4", "agent_2", "out", "branch_1", "in"),
        OrchestratorEdge::new("e5", "branch_1", "true", "agent_3", "in").with_condition("quality >= 0.8"),
        OrchestratorEdge::new("e6", "branch_1", "false", "loop_1", "in").with_condition("quality < 0.8"),
        OrchestratorEdge::new("e7", "loop_1", "done", "agent_3", "in"),
        OrchestratorEdge::new("e8", "agent_3", "out", "parallel_1", "in"),
        OrchestratorEdge::new("e9", "parallel_1", "branch_1", "output_1", "in"),
    ]
}

#[test]
fn node_type_labels_and_icons() {
    assert_eq!(OrchestratorNodeType::Agent.label(), "Agent");
    assert_eq!(OrchestratorNodeType::DataSource.label(), "Data Source");
    assert_eq!(OrchestratorNodeType::Sink.icon(), "O");
    assert_eq!(OrchestratorNodeType::Conditional.icon(), "?");
}

#[test]
fn status_labels_terminal_and_active() {
    assert_eq!(NodeExecutionStatus::Completed.label(), "Done");
    assert_eq!(NodeExecutionStatus::Retrying(2).label(), "Retrying");
    assert_eq!(NodeExecutionStatus::TimedOut.label(), "Timeout");
    assert!(NodeExecutionStatus::Failed.is_terminal());
    assert!(!NodeExecutionStatus::Running.is_terminal());
    assert!(NodeExecutionStatus::Retrying(1).is_active());
    assert!(!NodeExecutionStatus::Pending.is_active());
    assert!(!NodeExecutionStatus::Pending.is_terminal());
}

#[test]
fn log_run_and_message_labels() {
    assert_eq!(LogLevel::Warn.label(), "WRN");
    assert_eq!(RunStatus::Completed.label(), "Completed");
    assert_eq!(MessageType::Response.to_display_string(), "RSP");
}

#[test]
fn edge_builder_keeps_endpoints() {
    let e = OrchestratorEdge::new("e1", "a", "out", "b", "in").with_condition("x > 1");
    assert_eq!(e.source_node, "a");
    assert_eq!(e.target_node, "b");
    assert_eq!(e.condition.as_deref(), Some("x > 1"));
    assert!(!e.is_active);
}

#[test]
fn node_constructors_set_ports() {
    let c = OrchestratorNode::conditional("c", "Check");
    assert_eq!(c.outputs, vec!["true".to_string(), "false".to_string()]);
    let w = OrchestratorNode::webhook("w", "Hook");
    assert!(w.inputs.is_empty());
    let s = OrchestratorNode::output_sink("s", "Out");
    assert!(s.outputs.is_empty());
    assert_eq!(s.timeout_ms, Some(300000));
    let a = OrchestratorNode::agent("a", "A").with_timeout(10).with_retry(RetryConfig { max_retries: 0, ..RetryConfig::default() });
    assert_eq!(a.timeout_ms, Some(10));
    assert_eq!(a.retry_config.max_retries, 0);
}

#[test]
fn skill_registry_lookup_and_sums() {
    let reg = SkillRegistry::new();
    assert_eq!(reg.get("code_analysis").map(|s| s.base_token_cost), Some(3000));
    assert!(reg.get("unknown").is_none());
    let names = vec!["text_generation".to_string(), "summarization".to_string(), "nope".to_string()];
    assert_eq!(reg.token_cost_for(&names), 2300);
    assert_eq!(reg.duration_for(&names), 3500);
    assert_eq!(reg.duration_for(&[]), 500);
    assert_eq!(reg.list_skills().len(), 3);
}

#[test]
fn token_usage_adds_fieldwise() {
    let mut a = TokenUsage { input_tokens: 1, output_tokens: 2, total_tokens: 3 };
    a.add(&TokenUsage { input_tokens: 10, output_tokens: 20, total_tokens: 30 });
    assert_eq!((a.input_tokens, a.output_tokens, a.total_tokens), (11, 22, 33));
}

#[test]
fn undo_returns_last_push_and_redo_stays_empty() {
    let mut h: UndoRedo<u32> = UndoRedo::new();
    assert!(!h.can_undo());
    h.push(1);
    h.push(2);
    assert!(h.can_undo());
    assert_eq!(h.undo(), Some(2));
    assert_eq!(h.redo(), None);
    assert!(!h.can_redo());
    assert_eq!(h.undo(), Some(1));
    assert_eq!(h.undo(), None);
}

#[test]
fn topological_sort_of_demo_workflow() {
    let order = topological_sort(&demo_nodes(), &demo_edges());
    assert_eq!(
        order,
        vec!["trigger", "agent_2", "agent_1", "branch_1", "loop_1", "agent_3", "parallel_1", "output_1"]
    );
}

#[test]
fn topological_sort_takes_greatest_ready_first_and_skips_cycles() {
    let nodes = vec![
        OrchestratorNode::agent("b", "B"),
        OrchestratorNode::agent("a", "A"),
        OrchestratorNode::agent("c", "C"),
        OrchestratorNode::agent("d", "D"),
    ];
    let edges = vec![
        OrchestratorEdge::new("e1", "c", "out", "d", "in"),
        OrchestratorEdge::new("e2", "d", "out", "c", "in"),
    ];
    assert_eq!(topological_sort(&nodes, &edges), vec!["b", "a"]);
}

#[test]
fn topological_sort_lists_unknown_targets_and_blocks_unknown_sources() {
    let nodes = vec![OrchestratorNode::agent("a", "A")];
    let edges = vec![
        OrchestratorEdge::new("e1", "a", "out", "ghost", "in"),
        OrchestratorEdge::new("e2", "nobody", "out", "blocked", "in"),
    ];
    assert_eq!(topological_sort(&nodes, &edges), vec!["a", "ghost"]);
}

#[test]
fn plan_for_webhook_then_agent() {
    let nodes = vec![OrchestratorNode::webhook("w", "Hook"), OrchestratorNode::agent("a", "Bot")];
    let edges = vec![OrchestratorEdge::new("e1", "w", "out", "a", "in")];
    let mut engine = ExecutionEngine::new();
    engine.plan_execution(&nodes, &edges);
    assert_eq!(engine.total_steps(), 14);
    assert_eq!(engine.current_step_index(), 0);
    let mut steps = Vec::new();
    while let Some(s) = engine.tick() {
        steps.push(s);
    }
    assert!(engine.is_complete());
    assert!(matches!(&steps[0], ExecutionStep::Log(id, LogLevel::Info, m) if id == "w" && m == "Webhook 'Hook' triggered."));
    assert!(matches!(&steps[1], ExecutionStep::StartNode(id) if id == "w"));
    assert!(matches!(&steps[2], ExecutionStep::Wait(100)));
    assert!(matches!(&steps[3], ExecutionStep::CompleteNode(id, m) if id == "w" && m == "Webhook received and acknowledged."));
    assert!(matches!(&steps[4], ExecutionStep::ActivateEdge(id) if id == "e1"));
    assert!(matches!(&steps[5], ExecutionStep::Log(id, LogLevel::Info, m) if id == "a" && m == "Agent 'Bot' starting execution..."));
    assert!(matches!(&steps[6], ExecutionStep::StartNode(id) if id == "a"));
    assert!(matches!(&steps[7], ExecutionStep::Log(_, LogLevel::Debug, m) if m == "Tokens: 180 in, 360 out, $0.0270 est."));
    assert!(matches!(&steps[8], ExecutionStep::Wait(800)));
    assert!(matches!(&steps[9], ExecutionStep::Log(_, LogLevel::Warn, m) if m == "Simulating retry scenario..."));
    assert!(matches!(&steps[10], ExecutionStep::RetryNode(id, 1) if id == "a"));
    assert!(matches!(&steps[11], ExecutionStep::Wait(400)));
    assert!(matches!(&steps[12], ExecutionStep::CompleteNode(_, m) if m == "Output from Bot: processed successfully."));
    assert!(matches!(&steps[13], ExecutionStep::DeactivateEdge(id) if id == "e1"));
    assert!(engine.tick().is_none());
}

#[test]
fn agent_cost_is_formatted_with_four_decimals() {
    // "Research Agent" has 14 bytes: 290 in, 580 out, 0.0435 dollars.
    let nodes = vec![OrchestratorNode::agent("a", "Research Agent").with_retry(RetryConfig { max_retries: 1, ..RetryConfig::default() })];
    let mut engine = ExecutionEngine::default();
    engine.plan_execution(&nodes, &[]);
    assert_eq!(engine.total_steps(), 5);
    let steps: Vec<_> = std::iter::from_fn(|| engine.tick()).collect();
    assert!(matches!(&steps[2], ExecutionStep::Log(_, _, m) if m == "Tokens: 290 in, 580 out, $0.0435 est."));
    assert!(matches!(&steps[4], ExecutionStep::CompleteNode(..)));
}

#[test]
fn loop_node_logs_three_iterations() {
    let nodes = vec![OrchestratorNode::loop_node("l", "Refine")];
    let mut engine = ExecutionEngine::new();
    engine.plan_execution(&nodes, &[]);
    let steps: Vec<_> = std::iter::from_fn(|| engine.tick()).collect();
    assert_eq!(steps.len(), 9);
    assert!(matches!(&steps[0], ExecutionStep::Log(_, _, m) if m == "Starting loop 'Refine' (3 iterations)..."));
    assert!(matches!(&steps[6], ExecutionStep::Log(_, LogLevel::Debug, m) if m == "Loop iteration 3/3"));
    assert!(matches!(&steps[8], ExecutionStep::CompleteNode(_, m) if m == "Loop completed after 3 iterations."));
}

#[test]
fn demo_plan_has_expected_length_and_reset_empties_it() {
    let mut engine = ExecutionEngine::new();
    engine.plan_execution(&demo_nodes(), &demo_edges());
    // webhook 4, agents 8 each (retries on), conditional 4, loop 9,
    // parallel 5, sink 4, and two steps per edge.
    assert_eq!(engine.total_steps(), 4 + 8 * 3 + 4 + 9 + 5 + 4 + 2 * 9);
    engine.tick();
    assert_eq!(engine.current_step_index(), 1);
    engine.reset();
    assert_eq!(engine.total_steps(), 0);
    assert_eq!(engine.current_step_index(), 0);
    assert!(engine.is_complete());
}

#[test]
fn empty_workflow_plans_nothing_and_is_invalid() {
    let mut engine = ExecutionEngine::new();
    engine.plan_execution(&[], &[]);
    assert_eq!(engine.total_steps(), 0);
    let issues = validate_workflow(&[], &[]);
    assert_eq!(issues.len(), 1);
    assert_eq!(issues[0].message, "Workflow has no nodes");
    assert!(issues[0].is_error);
}

#[test]
fn demo_workflow_is_valid() {
    assert!(validate_workflow(&demo_nodes(), &demo_edges()).is_empty());
    assert!(!has_reachable_cycle(&demo_nodes(), &demo_edges()));
}

#[test]
fn validation_reports_disconnected_cycle_and_missing_start() {
    let nodes = vec![
        OrchestratorNode::agent("a", "Alpha"),
        OrchestratorNode::agent("b", "Beta"),
        OrchestratorNode::agent("lonely", "Lonely"),
    ];
    let edges = vec![
        OrchestratorEdge::new("e1", "a", "out", "b", "in"),
        OrchestratorEdge::new("e2", "b", "out", "a", "in"),
        OrchestratorEdge::new("e3", "x", "out", "lonely", "in"),
    ];
    let issues = validate_workflow(&nodes, &edges);
    let found: Vec<(String, bool)> = issues.into_iter().map(|i| (i.message, i.is_error)).collect();
    assert_eq!(
        found,
        vec![
            ("Workflow contains a cycle".to_string(), true),
            ("No start node found (all nodes have inputs)".to_string(), false),
        ]
    );
    let nodes2 = vec![OrchestratorNode::agent("a", "Alpha"), OrchestratorNode::agent("z", "Zed")];
    let issues2 = validate_workflow(&nodes2, &[]);
    assert_eq!(issues2.len(), 2);
    assert_eq!(issues2[0].message, "Node 'Alpha' is disconnected");
    assert_eq!(issues2[1].message, "Node 'Zed' is disconnected");
    assert!(!issues2[0].is_error);
}

#[test]
fn cycle_among_unreachable_ids_is_not_reported() {
    let nodes = vec![OrchestratorNode::agent("a", "A")];
    let edges = vec![
        OrchestratorEdge::new("e1", "p", "out", "q", "in"),
        OrchestratorEdge::new("e2", "q", "out", "p", "in"),
    ];
    assert!(!has_reachable_cycle(&nodes, &edges));
    let edges2 = vec![
        OrchestratorEdge::new("e0", "a", "out", "p", "in"),
        OrchestratorEdge::new("e1", "p", "out", "q", "in"),
        OrchestratorEdge::new("e2", "q", "out", "p", "in"),
    ];
    assert!(has_reachable_cycle(&nodes, &edges2));
    let self_loop = vec![OrchestratorEdge::new("s", "a", "out", "a", "in")];
    assert!(has_reachable_cycle(&nodes, &self_loop));
}

#[test]
fn cycle_error_exactly_when_the_order_leaves_ids_out() {
    let nodes = vec![
        OrchestratorNode::agent("a", "A"),
        OrchestratorNode::agent("b", "B"),
        OrchestratorNode::agent("c", "C"),
    ];
    let cyclic = vec![
        OrchestratorEdge::new("e1", "a", "out", "b", "in"),
        OrchestratorEdge::new("e2", "b", "out", "c", "in"),
        OrchestratorEdge::new("e3", "c", "out", "b", "in"),
    ];
    assert!(has_reachable_cycle(&nodes, &cyclic));
    assert!(validate_workflow(&nodes, &cyclic).iter().any(|i| i.message == "Workflow contains a cycle"));
    assert_eq!(topological_sort(&nodes, &cyclic), vec!["a"]);
    let acyclic = vec![
        OrchestratorEdge::new("e1", "a", "out", "b", "in"),
        OrchestratorEdge::new("e2", "b", "out", "c", "in"),
    ];
    assert!(!has_reachable_cycle(&nodes, &acyclic));
    assert!(!validate_workflow(&nodes, &acyclic).iter().any(|i| i.message == "Workflow contains a cycle"));
    assert_eq!(topological_sort(&nodes, &acyclic), vec!["a", "b", "c"]);
}
