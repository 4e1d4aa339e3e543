//! The orchestrator: the workflow being edited and run, and the component that
//! starts a run, replays its plan one tick at a time and stops it. The caller
//! reads the clock and hands each call the time in milliseconds.

use vstd::prelude::*;
use crate::multi_agent_orchestrator::engine::{agent_names_bounded, kahn_order, plan_for, ExecutionEngine, ExecutionStep, StepSpec};
use crate::multi_agent_orchestrator::run::{
    apply_step_to_run, edges_after_step, run_after_step, set_edge_active, state_map, LogView, NodeStateView, OrchestratorRun, RunView,
};
use crate::multi_agent_orchestrator::types::{
    builtin_skill_names, AgentConfig, LogLevel, OrchestratorEdge, OrchestratorNode, OrchestratorNodeType, RunStatus, SearchState, SkillDef, SkillRegistry,
    TokenUsage, ValidationError, ValidationResult, WorkflowTemplate,
};
use crate::text::{decimal, u64_to_decimal};

verus! {

/// Everything the orchestrator shows and edits: the workflow graph, the
/// current run and the past ones, and the panels that are open.
#[derive(Debug)]
pub struct OrchestratorState {
    pub nodes: Vec<OrchestratorNode>,
    pub edges: Vec<OrchestratorEdge>,
    pub current_run: Option<OrchestratorRun>,
    pub run_history: Vec<OrchestratorRun>,
    pub selected_node: Option<String>,
    pub inspected_node: Option<String>,
    pub show_log_panel: bool,
    pub show_metrics_panel: bool,
    pub show_template_library: bool,
    pub show_run_comparison: bool,
    pub templates: Vec<WorkflowTemplate>,
    pub is_executing: bool,
    pub log_level_filter: Option<LogLevel>,
    pub log_search: String,
    pub run_counter: u64,
    pub active_run_id: Option<String>,
    pub skill_registry: SkillRegistry,
    pub validation_result: ValidationResult,
    pub search: SearchState,
    pub is_paused: bool,
    pub step_mode: bool,
    pub validation_errors: Vec<ValidationError>,
    pub show_output_panel: bool,
    pub show_message_panel: bool,
    pub show_validation_panel: bool,
    pub show_skills_panel: bool,
    pub show_webhook_panel: bool,
    pub show_schedule_panel: bool,
    pub show_recurring_panel: bool,
    pub show_minimap: bool,
}

/// The demo workflow's nodes: id, name and kind, in order.
pub open spec fn demo_nodes() -> Seq<(Seq<char>, Seq<char>, OrchestratorNodeType)> {
    seq![
        ("trigger"@, "Webhook Trigger"@, OrchestratorNodeType::Webhook),
        ("agent_1"@, "Research Agent"@, OrchestratorNodeType::Agent),
        ("agent_2"@, "Analysis Agent"@, OrchestratorNodeType::Agent),
        ("branch_1"@, "Quality Check"@, OrchestratorNodeType::Conditional),
        ("agent_3"@, "Writer Agent"@, OrchestratorNodeType::Agent),
        ("loop_1"@, "Refine Loop"@, OrchestratorNodeType::Loop),
        ("parallel_1"@, "Fan Out"@, OrchestratorNodeType::Parallel),
        ("output_1"@, "Save Output"@, OrchestratorNodeType::Sink),
    ]
}

/// The demo workflow's edges: id, source node and port, target node and port,
/// in order.
pub open spec fn demo_edges() -> Seq<(Seq<char>, Seq<char>, Seq<char>, Seq<char>, Seq<char>)> {
    seq![
        ("e1"@, "trigger"@, "out"@, "agent_1"@, "in"@),
        ("e2"@, "trigger"@, "out"@, "agent_2"@, "in"@),
        ("e3"@, "agent_1"@, "out"@, "branch_1"@, "in"@),
        ("e4"@, "agent_2"@, "out"@, "branch_1"@, "in"@),
        ("e5"@, "branch_1"@, "true"@, "agent_3"@, "in"@),
        ("e6"@, "branch_1"@, "false"@, "loop_1"@, "in"@),
        ("e7"@, "loop_1"@, "done"@, "agent_3"@, "in"@),
        ("e8"@, "agent_3"@, "out"@, "parallel_1"@, "in"@),
        ("e9"@, "parallel_1"@, "branch_1"@, "output_1"@, "in"@),
    ]
}

/// A node as its id, name and kind.
pub open spec fn node_summary(n: OrchestratorNode) -> (Seq<char>, Seq<char>, OrchestratorNodeType) {
    (n.id@, n.name@, n.node_type)
}

/// An edge as its id and its two ends.
pub open spec fn edge_summary(e: OrchestratorEdge) -> (Seq<char>, Seq<char>, Seq<char>, Seq<char>, Seq<char>) {
    (e.id@, e.source_node@, e.source_port@, e.target_node@, e.target_port@)
}

/// An agent node's configured model, system prompt and prompt template.
pub open spec fn agent_prompt(n: OrchestratorNode) -> Option<(Seq<char>, Seq<char>, Seq<char>)> {
    match n.agent_config {
        Some(c) => Some((c.model@, c.system_prompt@, c.prompt_template@)),
        None => None,
    }
}

/// `nodes` and `edges` are the demo workflow: a webhook feeding two agents,
/// a quality check that either goes on to the writer or loops back through a
/// refine loop, then a fan-out into the output sink.
pub open spec fn is_demo_workflow(nodes: Seq<OrchestratorNode>, edges: Seq<OrchestratorEdge>) -> bool {
    &&& nodes.map_values(|n: OrchestratorNode| node_summary(n)) == demo_nodes()
    &&& edges.map_values(|e: OrchestratorEdge| edge_summary(e)) == demo_edges()
    &&& agent_prompt(nodes[1]) == Some(("gpt-4"@, "You are a research assistant."@, "Research: {{input}}"@))
    &&& agent_prompt(nodes[2]) == Some(("analysis-model-3"@, "You are an analyst."@, "Analyze: {{input}}"@))
    &&& agent_prompt(nodes[4]) == Some(("gpt-4"@, "You are a writer."@, "Write: {{input}}"@))
    &&& forall|i: int| 0 <= i < 9 && i != 4 && i != 5 ==> (#[trigger] edges[i]).condition is None
    &&& edges[4].condition is Some && edges[4].condition->0@ == "quality >= 0.8"@
    &&& edges[5].condition is Some && edges[5].condition->0@ == "quality < 0.8"@
    &&& forall|i: int| 0 <= i < 9 ==> !(#[trigger] edges[i]).is_active
}

/// `s` is the demo state: the demo workflow, no run, the log panel open and
/// every other panel closed, nothing selected or searched, and the built-in
/// skills registered.
pub open spec fn is_demo_state(s: OrchestratorState) -> bool {
    &&& is_demo_workflow(s.nodes@, s.edges@)
    &&& s.current_run is None
    &&& s.run_history@.len() == 0
    &&& !s.is_executing
    &&& s.show_log_panel
    &&& !s.show_metrics_panel
    &&& s.run_counter == 0
    &&& s.active_run_id is None
    &&& s.selected_node is None
    &&& s.inspected_node is None
    &&& !s.show_template_library && !s.show_run_comparison
    &&& s.templates@.len() == 0
    &&& s.log_level_filter is None
    &&& s.log_search@.len() == 0
    &&& s.skill_registry@.map_values(|d: SkillDef| d.name@) == builtin_skill_names()
    &&& s.validation_result.issues@.len() == 0 && !s.validation_result.is_valid
    &&& s.search.query@.len() == 0 && !s.search.is_active && s.search.matched_node_ids@.len() == 0
    &&& !s.is_paused && !s.step_mode
    &&& s.validation_errors@.len() == 0
    &&& !s.show_output_panel && !s.show_message_panel && !s.show_validation_panel
    &&& !s.show_skills_panel && !s.show_webhook_panel && !s.show_schedule_panel
    &&& !s.show_recurring_panel && !s.show_minimap
}

fn agent_config(model: &str, system_prompt: &str, prompt_template: &str) -> (r: AgentConfig)
    ensures
        r.model@ == model@,
        r.system_prompt@ == system_prompt@,
        r.prompt_template@ == prompt_template@,
{
    AgentConfig {
        model: model.to_string(),
        system_prompt: system_prompt.to_string(),
        prompt_template: prompt_template.to_string(),
        ..AgentConfig::default()
    }
}

impl OrchestratorState {
    /// The demo workflow, with no run yet and the log panel open.
    pub fn demo() -> (r: Self)
        ensures
            is_demo_state(r),
    {
        let mut nodes: Vec<OrchestratorNode> = Vec::new();
        nodes.push(OrchestratorNode::webhook("trigger", "Webhook Trigger"));
        nodes.push(OrchestratorNode::agent("agent_1", "Research Agent").with_agent_config(
            agent_config("gpt-4", "You are a research assistant.", "Research: {{input}}"),
        ));
        nodes.push(OrchestratorNode::agent("agent_2", "Analysis Agent").with_agent_config(
            agent_config("analysis-model-3", "You are an analyst.", "Analyze: {{input}}"),
        ));
        nodes.push(OrchestratorNode::conditional("branch_1", "Quality Check"));
        nodes.push(OrchestratorNode::agent("agent_3", "Writer Agent").with_agent_config(
            agent_config("gpt-4", "You are a writer.", "Write: {{input}}"),
        ));
        nodes.push(OrchestratorNode::loop_node("loop_1", "Refine Loop"));
        nodes.push(OrchestratorNode::parallel("parallel_1", "Fan Out"));
        nodes.push(OrchestratorNode::output_sink("output_1", "Save Output"));

        let mut edges: Vec<OrchestratorEdge> = Vec::new();
        edges.push(OrchestratorEdge::new("e1", "trigger", "out", "agent_1", "in"));
        edges.push(OrchestratorEdge::new("e2", "trigger", "out", "agent_2", "in"));
        edges.push(OrchestratorEdge::new("e3", "agent_1", "out", "branch_1", "in"));
        edges.push(OrchestratorEdge::new("e4", "agent_2", "out", "branch_1", "in"));
        edges.push(OrchestratorEdge::new("e5", "branch_1", "true", "agent_3", "in").with_condition("quality >= 0.8"));
        edges.push(OrchestratorEdge::new("e6", "branch_1", "false", "loop_1", "in").with_condition("quality < 0.8"));
        edges.push(OrchestratorEdge::new("e7", "loop_1", "done", "agent_3", "in"));
        edges.push(OrchestratorEdge::new("e8", "agent_3", "out", "parallel_1", "in"));
        edges.push(OrchestratorEdge::new("e9", "parallel_1", "branch_1", "output_1", "in"));

        assert(nodes@.map_values(|n: OrchestratorNode| node_summary(n)) =~= demo_nodes());
        assert(edges@.map_values(|e: OrchestratorEdge| edge_summary(e)) =~= demo_edges());
        OrchestratorState {
            nodes,
            edges,
            current_run: None,
            run_history: Vec::new(),
            selected_node: None,
            inspected_node: None,
            show_log_panel: true,
            show_metrics_panel: false,
            show_template_library: false,
            show_run_comparison: false,
            templates: Vec::new(),
            is_executing: false,
            log_level_filter: None,
            log_search: String::new(),
            run_counter: 0,
            active_run_id: None,
            skill_registry: SkillRegistry::new(),
            validation_result: ValidationResult { issues: Vec::new(), is_valid: false },
            search: SearchState { query: String::new(), is_active: false, matched_node_ids: Vec::new() },
            is_paused: false,
            step_mode: false,
            validation_errors: Vec::new(),
            show_output_panel: false,
            show_message_panel: false,
            show_validation_panel: false,
            show_skills_panel: false,
            show_webhook_panel: false,
            show_schedule_panel: false,
            show_recurring_panel: false,
            show_minimap: false,
        }
    }
}

impl OrchestratorState {
    /// The run/stop button: stops execution when it is under way; otherwise
    /// starts it under the next run number and names the active run after
    /// that number.
    pub fn toggle_run(&mut self)
        requires
            !old(self).is_executing ==> old(self).run_counter < u64::MAX,
        ensures
            final(self).is_executing == !old(self).is_executing,
            old(self).is_executing ==> final(self).run_counter == old(self).run_counter
                && final(self).active_run_id == old(self).active_run_id,
            !old(self).is_executing ==> final(self).run_counter == old(self).run_counter + 1
                && final(self).active_run_id is Some
                && final(self).active_run_id->0@ == "run-"@ + decimal(final(self).run_counter as nat),
            *final(self) == (OrchestratorState {
                is_executing: final(self).is_executing,
                run_counter: final(self).run_counter,
                active_run_id: final(self).active_run_id,
                ..*old(self)
            }),
    {
        if self.is_executing {
            self.is_executing = false;
        } else {
            self.is_executing = true;
            self.run_counter = self.run_counter + 1;
            let mut id = "run-".to_string();
            let digits = u64_to_decimal(self.run_counter);
            id.append(digits.as_str());
            proof { reveal_strlit("run-"); }
            self.active_run_id = Some(id);
        }
    }

    /// The log panel button: shows the log panel when hidden, hides it when
    /// shown.
    pub fn toggle_log_panel(&mut self)
        ensures
            *final(self) == (OrchestratorState { show_log_panel: !old(self).show_log_panel, ..*old(self) }),
    {
        self.show_log_panel = !self.show_log_panel;
    }

    /// The metrics panel button: shows the metrics panel when hidden, hides
    /// it when shown.
    pub fn toggle_metrics_panel(&mut self)
        ensures
            *final(self) == (OrchestratorState { show_metrics_panel: !old(self).show_metrics_panel, ..*old(self) }),
    {
        self.show_metrics_panel = !self.show_metrics_panel;
    }
}

/// Pressing a panel button twice leaves the state as it was.
pub proof fn law_panel_toggle_twice_is_identity(s: OrchestratorState)
    ensures
        (OrchestratorState {
            show_log_panel: !(OrchestratorState { show_log_panel: !s.show_log_panel, ..s }).show_log_panel,
            ..(OrchestratorState { show_log_panel: !s.show_log_panel, ..s })
        }) == s,
        (OrchestratorState {
            show_metrics_panel: !(OrchestratorState { show_metrics_panel: !s.show_metrics_panel, ..s }).show_metrics_panel,
            ..(OrchestratorState { show_metrics_panel: !s.show_metrics_panel, ..s })
        }) == s,
{
}

/// Applies one step at `now_ms` to the current run and, for edge steps, to
/// the edges; without a current run nothing changes.
fn apply_step_to_state(state: &mut OrchestratorState, step: &ExecutionStep, now_ms: u64)
    ensures
        opt_run_view(final(state).current_run) == (match opt_run_view(old(state).current_run) {
            Some(r) => Some(run_after_step(r, step@, now_ms)),
            None => None,
        }),
        final(state).edges@ == (if old(state).current_run is Some {
            edges_after_step(old(state).edges@, step@)
        } else {
            old(state).edges@
        }),
        *final(state) == (OrchestratorState { current_run: final(state).current_run, edges: final(state).edges, ..*old(state) }),
{
    apply_step_to_run_and_edges(&mut state.current_run, &mut state.edges, step, now_ms);
}

/// Applies one step to the run, if there is one, and then to the edges.
fn apply_step_to_run_and_edges(
    cur: &mut Option<OrchestratorRun>,
    edges: &mut Vec<OrchestratorEdge>,
    step: &ExecutionStep,
    now_ms: u64,
)
    ensures
        opt_run_view(*final(cur)) == (match opt_run_view(*old(cur)) {
            Some(r) => Some(run_after_step(r, step@, now_ms)),
            None => None,
        }),
        final(edges)@ == (if *old(cur) is Some {
            edges_after_step(old(edges)@, step@)
        } else {
            old(edges)@
        }),
{
    let present = apply_step_to_current_run(cur, step, now_ms);
    if present {
        apply_step_to_edges(edges, step);
    }
}

/// Applies one step to the run, if there is one; returns whether there was.
fn apply_step_to_current_run(cur: &mut Option<OrchestratorRun>, step: &ExecutionStep, now_ms: u64) -> (r: bool)
    ensures
        r == (*old(cur) is Some),
        opt_run_view(*final(cur)) == (match opt_run_view(*old(cur)) {
            Some(r) => Some(run_after_step(r, step@, now_ms)),
            None => None,
        }),
{
    match cur {
        Some(run) => {
            apply_step_to_run(run, step, now_ms);
            true
        },
        None => false,
    }
}

/// Applies an edge step to the edges; other steps leave them as they are.
fn apply_step_to_edges(edges: &mut Vec<OrchestratorEdge>, step: &ExecutionStep)
    ensures
        final(edges)@ == edges_after_step(old(edges)@, step@),
{
    match step {
        ExecutionStep::ActivateEdge(edge_id) => {
            set_edge_active(edges, edge_id.as_str(), true);
        },
        ExecutionStep::DeactivateEdge(edge_id) => {
            set_edge_active(edges, edge_id.as_str(), false);
        },
        _ => {},
    }
}

/// Completes the current run, if any, at `now_ms` and appends it to the
/// history.
fn complete_current_run(cur: &mut Option<OrchestratorRun>, history: &mut Vec<OrchestratorRun>, now_ms: u64)
    ensures
        opt_run_view(*final(cur)) == (match opt_run_view(*old(cur)) {
            Some(r) => Some(RunView { status: RunStatus::Completed, ended_at_ms: Some(now_ms), ..r }),
            None => None,
        }),
        run_views(final(history)@) == (match opt_run_view(*old(cur)) {
            Some(r) => run_views(old(history)@).push(RunView { status: RunStatus::Completed, ended_at_ms: Some(now_ms), ..r }),
            None => run_views(old(history)@),
        }),
{
    let ghost hist = history@;
    match cur {
        Some(run) => {
            run.status = RunStatus::Completed;
            run.ended_at_ms = Some(now_ms);
            let done = run.clone();
            history.push(done);
            assert(run_views(history@) =~= run_views(hist).push(done@));
        },
        None => {},
    }
}

/// The view of an optional step.
pub open spec fn opt_step_view(step: Option<ExecutionStep>) -> Option<StepSpec> {
    match step {
        Some(s) => Some(s@),
        None => None,
    }
}

/// The state after a tick that handed out `step`: the step applied, and when
/// the plan is used up (`done`), execution stopped and the current run
/// completed at `now_ms` and added to the history.
fn advance_state(state: &mut OrchestratorState, step: &Option<ExecutionStep>, done: bool, now_ms: u64)
    ensures
        final(state).is_executing == (if done { false } else { old(state).is_executing }),
        opt_run_view(final(state).current_run) == (match opt_run_view(old(state).current_run) {
            Some(r) => Some(run_after_tick(r, opt_step_view(*step), done, now_ms)),
            None => None,
        }),
        final(state).edges@ == (match opt_step_view(*step) {
            Some(s) => if old(state).current_run is Some {
                edges_after_step(old(state).edges@, s)
            } else {
                old(state).edges@
            },
            None => old(state).edges@,
        }),
        run_views(final(state).run_history@) == (if done && old(state).current_run is Some {
            run_views(old(state).run_history@).push(
                run_after_tick(old(state).current_run->0@, opt_step_view(*step), true, now_ms),
            )
        } else {
            run_views(old(state).run_history@)
        }),
        *final(state) == (OrchestratorState {
            is_executing: final(state).is_executing,
            current_run: final(state).current_run,
            edges: final(state).edges,
            run_history: final(state).run_history,
            ..*old(state)
        }),
{
    match step {
        Some(s) => {
            apply_step_to_state(state, s, now_ms);
        },
        None => {},
    }
    if done {
        finish_run(state, now_ms);
    }
}

/// Ends execution with the plan used up: the current run, if any, is
/// completed at `now_ms` and joins the history.
fn finish_run(state: &mut OrchestratorState, now_ms: u64)
    ensures
        !final(state).is_executing,
        opt_run_view(final(state).current_run) == (match opt_run_view(old(state).current_run) {
            Some(r) => Some(RunView { status: RunStatus::Completed, ended_at_ms: Some(now_ms), ..r }),
            None => None,
        }),
        run_views(final(state).run_history@) == (match opt_run_view(old(state).current_run) {
            Some(r) => run_views(old(state).run_history@).push(
                RunView { status: RunStatus::Completed, ended_at_ms: Some(now_ms), ..r },
            ),
            None => run_views(old(state).run_history@),
        }),
        *final(state) == (OrchestratorState {
            is_executing: false,
            current_run: final(state).current_run,
            run_history: final(state).run_history,
            ..*old(state)
        }),
{
    state.is_executing = false;
    complete_current_run(&mut state.current_run, &mut state.run_history, now_ms);
}

/// The orchestrator component: the state, the engine that replays the plan,
/// and what the pointer is doing on the canvas.
#[derive(Debug)]
pub struct MultiAgentOrchestrator {
    /// The orchestrator state.
    pub state: OrchestratorState,
    /// The execution engine.
    pub engine: ExecutionEngine,
    /// Unique id of this instance (used for state hashing).
    pub instance_id: u64,
    /// When the simulation last ticked, in milliseconds.
    pub last_tick_ms: Option<u64>,
    /// The node being dragged, if any.
    pub dragging: Option<String>,
    /// An edge being drawn: its source node and port.
    pub pending_edge: Option<(String, String)>,
}

/// An optional run as an optional view.
pub open spec fn opt_run_view(o: Option<OrchestratorRun>) -> Option<RunView> {
    match o {
        Some(r) => Some(r@),
        None => None,
    }
}

/// The views of a list of runs.
pub open spec fn run_views(v: Seq<OrchestratorRun>) -> Seq<RunView> {
    v.map_values(|r: OrchestratorRun| r@)
}

/// A run just started at `now_ms`: running, with no node states and an empty
/// log.
pub open spec fn started_run(id: Seq<char>, now_ms: u64) -> RunView {
    RunView {
        id: id,
        started_at_ms: now_ms,
        ended_at_ms: None,
        status: RunStatus::Running,
        node_states: Map::empty(),
        total_usage: TokenUsage { input_tokens: 0, output_tokens: 0, total_tokens: 0 },
        duration_ms: None,
        logs: Seq::empty(),
        metadata: Seq::empty(),
    }
}

/// The step that the next tick of `e` hands out, if any.
pub open spec fn next_step(e: ExecutionEngine) -> Option<StepSpec> {
    if e.position() < e.planned().len() {
        Some(e.planned()[e.position() as int])
    } else {
        None
    }
}

/// Whether the plan is used up after the next tick of `e`.
pub open spec fn done_after_tick(e: ExecutionEngine) -> bool {
    e.position() + 1 >= e.planned().len()
}

/// The current run after a tick at `now_ms` that handed out `step`: the step
/// applied, and when the plan is used up, the run completed at `now_ms`.
pub open spec fn run_after_tick(run: RunView, step: Option<StepSpec>, done: bool, now_ms: u64) -> RunView {
    let r1 = match step {
        Some(s) => run_after_step(run, s, now_ms),
        None => run,
    };
    if done {
        RunView { status: RunStatus::Completed, ended_at_ms: Some(now_ms), ..r1 }
    } else {
        r1
    }
}

impl Default for MultiAgentOrchestrator {
    fn default() -> (r: Self)
        ensures
            is_demo_state(r.state),
            r.engine.planned().len() == 0,
            r.engine.position() == 0,
            r.instance_id == 0xDEAD_BEEF,
            r.last_tick_ms is None,
            r.dragging is None,
            r.pending_edge is None,
    {
        MultiAgentOrchestrator {
            state: OrchestratorState::demo(),
            engine: ExecutionEngine::default(),
            instance_id: 0xDEAD_BEEF,
            last_tick_ms: None,
            dragging: None,
            pending_edge: None,
        }
    }
}

impl MultiAgentOrchestrator {
    /// A new orchestrator holding the demo workflow.
    pub fn new() -> (r: Self)
        ensures
            is_demo_state(r.state),
            r.engine.planned().len() == 0,
            r.engine.position() == 0,
            r.instance_id == 0xDEAD_BEEF,
            r.last_tick_ms is None,
            r.dragging is None,
            r.pending_edge is None,
    {
        Self::default()
    }

    /// Starts a run of the workflow at `now_ms`, unless one is under way: the
    /// run is named after the length of the engine's previous plan, and the
    /// engine plans the workflow afresh.
    pub fn start_execution(&mut self, now_ms: u64)
        requires
            agent_names_bounded(old(self).state.nodes@),
        ensures
            old(self).state.is_executing ==> *final(self) == *old(self),
            !old(self).state.is_executing ==> {
                &&& final(self).state.is_executing
                &&& opt_run_view(final(self).state.current_run) == Some(
                    started_run("run-"@ + decimal(old(self).engine.planned().len()), now_ms),
                )
                &&& final(self).engine.planned() == plan_for(
                    old(self).state.nodes@,
                    old(self).state.edges@,
                    kahn_order(old(self).state.nodes@, old(self).state.edges@),
                )
                &&& final(self).engine.position() == 0
                &&& final(self).last_tick_ms == Some(now_ms)
                &&& *final(self) == (MultiAgentOrchestrator {
                    state: OrchestratorState {
                        is_executing: true,
                        current_run: final(self).state.current_run,
                        ..old(self).state
                    },
                    engine: final(self).engine,
                    last_tick_ms: Some(now_ms),
                    ..*old(self)
                })
            },
    {
        if self.state.is_executing {
            return;
        }
        self.state.is_executing = true;
        let n = self.engine.total_steps();
        let mut id = "run-".to_string();
        let digits = u64_to_decimal(n as u64);
        id.append(digits.as_str());
        proof { reveal_strlit("run-"); }
        let run = OrchestratorRun {
            id,
            started_at_ms: now_ms,
            ended_at_ms: None,
            status: RunStatus::Running,
            node_states: Vec::new(),
            total_usage: TokenUsage { input_tokens: 0, output_tokens: 0, total_tokens: 0 },
            duration_ms: None,
            logs: Vec::new(),
            metadata: Vec::new(),
        };
        proof {
            reveal(state_map);
            assert(run@.node_states =~= Map::<Seq<char>, NodeStateView>::empty());
            assert(run@.logs =~= Seq::<LogView>::empty());
            assert(run@.metadata =~= Seq::<(Seq<char>, Seq<char>)>::empty());
        }
        self.state.current_run = Some(run);
        self.engine.plan_execution(self.state.nodes.as_slice(), self.state.edges.as_slice());
        self.last_tick_ms = Some(now_ms);
    }

    /// Stops the run at `now_ms`: the engine drops its plan and the current
    /// run, if any, is cancelled.
    pub fn stop_execution(&mut self, now_ms: u64)
        ensures
            !final(self).state.is_executing,
            final(self).engine.planned().len() == 0,
            final(self).engine.position() == 0,
            opt_run_view(final(self).state.current_run) == (match opt_run_view(old(self).state.current_run) {
                Some(r) => Some(RunView { status: RunStatus::Cancelled, ended_at_ms: Some(now_ms), ..r }),
                None => None,
            }),
            *final(self) == (MultiAgentOrchestrator {
                state: OrchestratorState { is_executing: false, current_run: final(self).state.current_run, ..old(self).state },
                engine: final(self).engine,
                ..*old(self)
            }),
    {
        self.state.is_executing = false;
        self.engine.reset();
        match &mut self.state.current_run {
            Some(run) => {
                run.status = RunStatus::Cancelled;
                run.ended_at_ms = Some(now_ms);
            },
            None => {},
        }
    }

    /// Applies one step at `now_ms`: to the current run, and for edge steps to
    /// the edges. Without a current run nothing changes.
    pub fn apply_step(&mut self, step: &ExecutionStep, now_ms: u64)
        ensures
            opt_run_view(final(self).state.current_run) == (match opt_run_view(old(self).state.current_run) {
                Some(r) => Some(run_after_step(r, step@, now_ms)),
                None => None,
            }),
            final(self).state.edges@ == (if old(self).state.current_run is Some {
                edges_after_step(old(self).state.edges@, step@)
            } else {
                old(self).state.edges@
            }),
            *final(self) == (MultiAgentOrchestrator {
                state: OrchestratorState {
                    current_run: final(self).state.current_run,
                    edges: final(self).state.edges,
                    ..old(self).state
                },
                ..*old(self)
            }),
    {
        apply_step_to_state(&mut self.state, step, now_ms);
    }

    /// Advances the simulation by one tick at `now_ms`: the engine hands out
    /// its next step, which is applied; once the plan is used up the run is
    /// completed, execution stops and the run joins the history.
    pub fn simulation_tick(&mut self, now_ms: u64)
        ensures
            !old(self).state.is_executing ==> *final(self) == *old(self),
            old(self).state.is_executing ==> {
                &&& final(self).engine.planned() == old(self).engine.planned()
                &&& final(self).engine.position() == (if next_step(old(self).engine) is Some {
                    old(self).engine.position() + 1
                } else {
                    old(self).engine.position()
                })
                &&& final(self).state.is_executing == !done_after_tick(old(self).engine)
                &&& opt_run_view(final(self).state.current_run) == (match opt_run_view(old(self).state.current_run) {
                    Some(r) => Some(run_after_tick(r, next_step(old(self).engine), done_after_tick(old(self).engine), now_ms)),
                    None => None,
                })
                &&& final(self).state.edges@ == (match next_step(old(self).engine) {
                    Some(s) => if old(self).state.current_run is Some {
                        edges_after_step(old(self).state.edges@, s)
                    } else {
                        old(self).state.edges@
                    },
                    None => old(self).state.edges@,
                })
                &&& run_views(final(self).state.run_history@) == (if done_after_tick(old(self).engine)
                    && old(self).state.current_run is Some {
                    run_views(old(self).state.run_history@).push(
                        run_after_tick(
                            old(self).state.current_run->0@,
                            next_step(old(self).engine),
                            true,
                            now_ms,
                        ),
                    )
                } else {
                    run_views(old(self).state.run_history@)
                })
                &&& *final(self) == (MultiAgentOrchestrator {
                    state: OrchestratorState {
                        is_executing: final(self).state.is_executing,
                        current_run: final(self).state.current_run,
                        edges: final(self).state.edges,
                        run_history: final(self).state.run_history,
                        ..old(self).state
                    },
                    engine: final(self).engine,
                    ..*old(self)
                })
            },
    {
        if !self.state.is_executing {
            return;
        }
        let step = self.engine.tick();
        let done = self.engine.is_complete();
        advance_state(&mut self.state, &step, done, now_ms);
    }
}

} // verus!
