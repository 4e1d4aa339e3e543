//! Workflow graph data: node kinds, statuses, edges, log levels, skills.

use vstd::prelude::*;

verus! {

/// The kind of node in the workflow graph.
#[derive(Debug, Clone, Copy, PartialEq, Eq, Hash, Structural)]
pub enum OrchestratorNodeType {
    Agent,
    Conditional,
    Loop,
    Parallel,
    Webhook,
    Schedule,
    DataSource,
    Sink,
}

/// The user-facing label of a node kind.
pub open spec fn node_type_label(t: OrchestratorNodeType) -> Seq<char> {
    match t {
        OrchestratorNodeType::Agent => "Agent"@,
        OrchestratorNodeType::Conditional => "Conditional"@,
        OrchestratorNodeType::Loop => "Loop"@,
        OrchestratorNodeType::Parallel => "Parallel"@,
        OrchestratorNodeType::Webhook => "Webhook"@,
        OrchestratorNodeType::Schedule => "Schedule"@,
        OrchestratorNodeType::DataSource => "Data Source"@,
        OrchestratorNodeType::Sink => "Sink"@,
    }
}

/// The one-letter symbol of a node kind.
pub open spec fn node_type_icon(t: OrchestratorNodeType) -> Seq<char> {
    match t {
        OrchestratorNodeType::Agent => "A"@,
        OrchestratorNodeType::Conditional => "?"@,
        OrchestratorNodeType::Loop => "L"@,
        OrchestratorNodeType::Parallel => "P"@,
        OrchestratorNodeType::Webhook => "W"@,
        OrchestratorNodeType::Schedule => "S"@,
        OrchestratorNodeType::DataSource => "D"@,
        OrchestratorNodeType::Sink => "O"@,
    }
}

impl OrchestratorNodeType {
    /// Returns the user-facing label for the node type.
    pub fn label(&self) -> (r: &'static str)
        ensures
            r@ == node_type_label(*self),
    {
        match self {
            Self::Agent => "Agent",
            Self::Conditional => "Conditional",
            Self::Loop => "Loop",
            Self::Parallel => "Parallel",
            Self::Webhook => "Webhook",
            Self::Schedule => "Schedule",
            Self::DataSource => "Data Source",
            Self::Sink => "Sink",
        }
    }

    /// Returns the symbol or abbreviation representing the node type.
    pub fn icon(&self) -> (r: &'static str)
        ensures
            r@ == node_type_icon(*self),
    {
        match self {
            Self::Agent => "A",
            Self::Conditional => "?",
            Self::Loop => "L",
            Self::Parallel => "P",
            Self::Webhook => "W",
            Self::Schedule => "S",
            Self::DataSource => "D",
            Self::Sink => "O",
        }
    }
}

/// The current execution status of a node.
#[derive(Debug, Clone, Copy, PartialEq, Eq, Hash, Structural)]
pub enum NodeExecutionStatus {
    Pending,
    Running,
    Completed,
    Failed,
    Skipped,
    Retrying(u32),
    TimedOut,
    Cancelled,
}

/// The user-facing label of a status.
pub open spec fn status_label(s: NodeExecutionStatus) -> Seq<char> {
    match s {
        NodeExecutionStatus::Pending => "Pending"@,
        NodeExecutionStatus::Running => "Running"@,
        NodeExecutionStatus::Completed => "Done"@,
        NodeExecutionStatus::Failed => "Failed"@,
        NodeExecutionStatus::Skipped => "Skipped"@,
        NodeExecutionStatus::Retrying(_) => "Retrying"@,
        NodeExecutionStatus::TimedOut => "Timeout"@,
        NodeExecutionStatus::Cancelled => "Cancelled"@,
    }
}

/// A status from which a node's execution does not move on.
pub open spec fn status_is_terminal(s: NodeExecutionStatus) -> bool {
    s is Completed || s is Failed || s is Skipped || s is TimedOut || s is Cancelled
}

/// A status in which a node's execution is under way.
pub open spec fn status_is_active(s: NodeExecutionStatus) -> bool {
    s is Running || s is Retrying
}

impl NodeExecutionStatus {
    /// Returns the user-facing status label.
    pub fn label(&self) -> (r: &'static str)
        ensures
            r@ == status_label(*self),
    {
        match self {
            Self::Pending => "Pending",
            Self::Running => "Running",
            Self::Completed => "Done",
            Self::Failed => "Failed",
            Self::Skipped => "Skipped",
            Self::Retrying(_) => "Retrying",
            Self::TimedOut => "Timeout",
            Self::Cancelled => "Cancelled",
        }
    }

    /// Returns whether the status represents a final execution state.
    pub fn is_terminal(&self) -> (r: bool)
        ensures
            r == status_is_terminal(*self),
    {
        match self {
            Self::Completed | Self::Failed | Self::Skipped | Self::TimedOut | Self::Cancelled => true,
            _ => false,
        }
    }

    /// Returns whether the status represents an active execution state.
    pub fn is_active(&self) -> (r: bool)
        ensures
            r == status_is_active(*self),
    {
        match self {
            Self::Running | Self::Retrying(_) => true,
            _ => false,
        }
    }
}

/// No status is both terminal and active.
pub proof fn lemma_terminal_excludes_active(s: NodeExecutionStatus)
    ensures
        !(status_is_terminal(s) && status_is_active(s)),
{
}


/// Configuration for an AI agent node (its sampling parameters, which are
/// floating point, are left to the rendering side).
#[derive(Debug, Clone)]
pub struct AgentConfig {
    pub model: String,
    pub system_prompt: String,
    pub prompt_template: String,
    pub max_tokens: u32,
    pub stop_sequences: Vec<String>,
    pub skills: Vec<String>,
}

impl Default for AgentConfig {
    fn default() -> (r: Self)
        ensures
            r.model@ == "gpt-4"@,
            r.system_prompt@.len() == 0,
            r.prompt_template@.len() == 0,
            r.max_tokens == 4096,
            r.stop_sequences@.len() == 0,
            r.skills@.len() == 0,
    {
        AgentConfig {
            model: "gpt-4".to_string(),
            system_prompt: String::new(),
            prompt_template: String::new(),
            max_tokens: 4096,
            stop_sequences: Vec::new(),
            skills: Vec::new(),
        }
    }
}

/// Retry policy of a node: how many attempts, and the delays between them in
/// milliseconds.
#[derive(Debug, Clone, Copy)]
pub struct RetryConfig {
    pub max_retries: u32,
    pub initial_delay_ms: u64,
    pub max_delay_ms: u64,
    pub exponential_backoff: bool,
}

impl Default for RetryConfig {
    fn default() -> (r: Self)
        ensures
            r.max_retries == 3,
            r.initial_delay_ms == 1000,
            r.max_delay_ms == 60000,
            r.exponential_backoff,
    {
        RetryConfig { max_retries: 3, initial_delay_ms: 1000, max_delay_ms: 60000, exponential_backoff: true }
    }
}

/// Webhook settings of a node.
#[derive(Debug, Clone)]
pub struct WebhookConfig {
    pub url: String,
    pub method: String,
    pub headers: Vec<(String, String)>,
    pub body_template: String,
}

impl Default for WebhookConfig {
    fn default() -> (r: Self)
        ensures
            r.url@.len() == 0,
            r.method@ == "POST"@,
            r.headers@.len() == 1,
            r.headers@[0].0@ == "Content-Type"@,
            r.headers@[0].1@ == "application/json"@,
            r.body_template@ == "{}"@,
    {
        let mut headers: Vec<(String, String)> = Vec::new();
        headers.push(("Content-Type".to_string(), "application/json".to_string()));
        WebhookConfig {
            url: String::new(),
            method: "POST".to_string(),
            headers,
            body_template: "{}".to_string(),
        }
    }
}

/// A node in the workflow graph: what the execution plan and the validation
/// read of it (its canvas position and size are the renderer's).
#[derive(Debug, Clone)]
pub struct OrchestratorNode {
    pub id: String,
    pub name: String,
    pub node_type: OrchestratorNodeType,
    pub inputs: Vec<String>,
    pub outputs: Vec<String>,
    pub agent_config: Option<AgentConfig>,
    pub retry_config: RetryConfig,
    /// Timeout in milliseconds.
    pub timeout_ms: Option<u64>,
    pub webhook_config: WebhookConfig,
}

/// The port names of a node as plain character sequences.
pub open spec fn port_names(v: Seq<String>) -> Seq<Seq<char>> {
    v.map_values(|s: String| s@)
}

fn one_port(a: &str) -> (r: Vec<String>)
    ensures
        port_names(r@) == seq![a@],
{
    let mut v: Vec<String> = Vec::new();
    v.push(a.to_string());
    assert(port_names(v@) =~= seq![a@]);
    v
}

fn two_ports(a: &str, b: &str) -> (r: Vec<String>)
    ensures
        port_names(r@) == seq![a@, b@],
{
    let mut v: Vec<String> = Vec::new();
    v.push(a.to_string());
    v.push(b.to_string());
    assert(port_names(v@) =~= seq![a@, b@]);
    v
}

fn three_ports(a: &str, b: &str, c: &str) -> (r: Vec<String>)
    ensures
        port_names(r@) == seq![a@, b@, c@],
{
    let mut v: Vec<String> = Vec::new();
    v.push(a.to_string());
    v.push(b.to_string());
    v.push(c.to_string());
    assert(port_names(v@) =~= seq![a@, b@, c@]);
    v
}

impl Default for OrchestratorNode {
    fn default() -> (r: Self)
        ensures
            r.id@.len() == 0,
            r.name@.len() == 0,
            r.node_type == OrchestratorNodeType::Agent,
            port_names(r.inputs@) == seq!["in"@],
            port_names(r.outputs@) == seq!["out"@],
            r.agent_config.is_none(),
            r.retry_config.max_retries == 3,
            r.timeout_ms == Some(300000u64),
    {
        OrchestratorNode {
            id: String::new(),
            name: String::new(),
            node_type: OrchestratorNodeType::Agent,
            inputs: one_port("in"),
            outputs: one_port("out"),
            agent_config: None,
            retry_config: RetryConfig::default(),
            timeout_ms: Some(300000),
            webhook_config: WebhookConfig::default(),
        }
    }
}

impl OrchestratorNode {
    /// A node of the given kind with the default ports and settings.
    fn with_kind(id: &str, name: &str, node_type: OrchestratorNodeType) -> (r: Self)
        ensures
            r.id@ == id@,
            r.name@ == name@,
            r.node_type == node_type,
            port_names(r.inputs@) == seq!["in"@],
            port_names(r.outputs@) == seq!["out"@],
            r.agent_config.is_none(),
            r.retry_config.max_retries == 3,
            r.timeout_ms == Some(300000u64),
    {
        let d = OrchestratorNode::default();
        OrchestratorNode { id: id.to_string(), name: name.to_string(), node_type, ..d }
    }

    pub fn agent(id: &str, name: &str) -> (r: Self)
        ensures
            r.id@ == id@,
            r.name@ == name@,
            r.node_type == OrchestratorNodeType::Agent,
            port_names(r.inputs@) == seq!["in"@],
            port_names(r.outputs@) == seq!["out"@],
            r.agent_config.is_none(),
            r.retry_config.max_retries == 3,
            r.timeout_ms == Some(300000u64),
    {
        Self::with_kind(id, name, OrchestratorNodeType::Agent)
    }

    pub fn conditional(id: &str, name: &str) -> (r: Self)
        ensures
            r.id@ == id@,
            r.name@ == name@,
            r.node_type == OrchestratorNodeType::Conditional,
            port_names(r.inputs@) == seq!["in"@],
            port_names(r.outputs@) == seq!["true"@, "false"@],
            r.agent_config.is_none(),
            r.retry_config.max_retries == 3,
    {
        let n = Self::with_kind(id, name, OrchestratorNodeType::Conditional);
        OrchestratorNode { outputs: two_ports("true", "false"), ..n }
    }

    pub fn loop_node(id: &str, name: &str) -> (r: Self)
        ensures
            r.id@ == id@,
            r.name@ == name@,
            r.node_type == OrchestratorNodeType::Loop,
            port_names(r.inputs@) == seq!["in"@],
            port_names(r.outputs@) == seq!["body"@, "done"@],
            r.agent_config.is_none(),
            r.retry_config.max_retries == 3,
    {
        let n = Self::with_kind(id, name, OrchestratorNodeType::Loop);
        OrchestratorNode { outputs: two_ports("body", "done"), ..n }
    }

    pub fn parallel(id: &str, name: &str) -> (r: Self)
        ensures
            r.id@ == id@,
            r.name@ == name@,
            r.node_type == OrchestratorNodeType::Parallel,
            port_names(r.inputs@) == seq!["in"@],
            port_names(r.outputs@) == seq!["branch_1"@, "branch_2"@, "branch_3"@],
            r.agent_config.is_none(),
            r.retry_config.max_retries == 3,
    {
        let n = Self::with_kind(id, name, OrchestratorNodeType::Parallel);
        OrchestratorNode { outputs: three_ports("branch_1", "branch_2", "branch_3"), ..n }
    }

    pub fn webhook(id: &str, name: &str) -> (r: Self)
        ensures
            r.id@ == id@,
            r.name@ == name@,
            r.node_type == OrchestratorNodeType::Webhook,
            r.inputs@.len() == 0,
            port_names(r.outputs@) == seq!["out"@],
            r.agent_config.is_none(),
            r.retry_config.max_retries == 3,
    {
        let n = Self::with_kind(id, name, OrchestratorNodeType::Webhook);
        OrchestratorNode { inputs: Vec::new(), ..n }
    }

    pub fn schedule(id: &str, name: &str) -> (r: Self)
        ensures
            r.id@ == id@,
            r.name@ == name@,
            r.node_type == OrchestratorNodeType::Schedule,
            r.inputs@.len() == 0,
            port_names(r.outputs@) == seq!["out"@],
            r.agent_config.is_none(),
            r.retry_config.max_retries == 3,
    {
        let n = Self::with_kind(id, name, OrchestratorNodeType::Schedule);
        OrchestratorNode { inputs: Vec::new(), ..n }
    }

    pub fn data_source(id: &str, name: &str) -> (r: Self)
        ensures
            r.id@ == id@,
            r.name@ == name@,
            r.node_type == OrchestratorNodeType::DataSource,
            r.inputs@.len() == 0,
            port_names(r.outputs@) == seq!["out"@],
            r.agent_config.is_none(),
            r.retry_config.max_retries == 3,
    {
        let n = Self::with_kind(id, name, OrchestratorNodeType::DataSource);
        OrchestratorNode { inputs: Vec::new(), ..n }
    }

    pub fn output_sink(id: &str, name: &str) -> (r: Self)
        ensures
            r.id@ == id@,
            r.name@ == name@,
            r.node_type == OrchestratorNodeType::Sink,
            port_names(r.inputs@) == seq!["in"@],
            r.outputs@.len() == 0,
            r.agent_config.is_none(),
            r.retry_config.max_retries == 3,
    {
        let n = Self::with_kind(id, name, OrchestratorNodeType::Sink);
        OrchestratorNode { outputs: Vec::new(), ..n }
    }

    pub fn with_agent_config(self, config: AgentConfig) -> (r: Self)
        ensures
            r == (OrchestratorNode { agent_config: Some(config), ..self }),
    {
        OrchestratorNode { agent_config: Some(config), ..self }
    }

    /// Sets the timeout, in milliseconds.
    pub fn with_timeout(self, timeout_ms: u64) -> (r: Self)
        ensures
            r == (OrchestratorNode { timeout_ms: Some(timeout_ms), ..self }),
    {
        OrchestratorNode { timeout_ms: Some(timeout_ms), ..self }
    }

    pub fn with_retry(self, retry: RetryConfig) -> (r: Self)
        ensures
            r == (OrchestratorNode { retry_config: retry, ..self }),
    {
        OrchestratorNode { retry_config: retry, ..self }
    }
}

/// A directed connection from an output port of one node to an input port of
/// another.
#[derive(Debug, Clone)]
pub struct OrchestratorEdge {
    pub id: String,
    pub source_node: String,
    pub source_port: String,
    pub target_node: String,
    pub target_port: String,
    pub condition: Option<String>,
    pub is_active: bool,
}

impl OrchestratorEdge {
    pub fn new(id: &str, source_node: &str, source_port: &str, target_node: &str, target_port: &str) -> (r: Self)
        ensures
            r.id@ == id@,
            r.source_node@ == source_node@,
            r.source_port@ == source_port@,
            r.target_node@ == target_node@,
            r.target_port@ == target_port@,
            r.condition.is_none(),
            !r.is_active,
    {
        OrchestratorEdge {
            id: id.to_string(),
            source_node: source_node.to_string(),
            source_port: source_port.to_string(),
            target_node: target_node.to_string(),
            target_port: target_port.to_string(),
            condition: None,
            is_active: false,
        }
    }

    pub fn with_condition(self, condition: &str) -> (r: Self)
        ensures
            r.id == self.id,
            r.source_node == self.source_node,
            r.source_port == self.source_port,
            r.target_node == self.target_node,
            r.target_port == self.target_port,
            r.is_active == self.is_active,
            r.condition is Some,
            r.condition->0@ == condition@,
            r == (OrchestratorEdge { condition: r.condition, ..self }),
    {
        OrchestratorEdge { condition: Some(condition.to_string()), ..self }
    }
}

/// Severity of a log line.
#[derive(Debug, Clone, Copy, PartialEq, Eq, Hash, Structural)]
pub enum LogLevel {
    Debug,
    Info,
    Warn,
    Error,
}

/// The three-letter tag of a log level.
pub open spec fn log_level_label(l: LogLevel) -> Seq<char> {
    match l {
        LogLevel::Debug => "DBG"@,
        LogLevel::Info => "INF"@,
        LogLevel::Warn => "WRN"@,
        LogLevel::Error => "ERR"@,
    }
}

impl LogLevel {
    pub fn label(&self) -> (r: &'static str)
        ensures
            r@ == log_level_label(*self),
    {
        match self {
            Self::Debug => "DBG",
            Self::Info => "INF",
            Self::Warn => "WRN",
            Self::Error => "ERR",
        }
    }
}

/// Status of a whole workflow run.
#[derive(Debug, Clone, Copy, PartialEq, Eq, Hash, Structural)]
pub enum RunStatus {
    Pending,
    Running,
    Completed,
    Failed,
    Cancelled,
}

/// The user-facing label of a run status.
pub open spec fn run_status_label(s: RunStatus) -> Seq<char> {
    match s {
        RunStatus::Pending => "Pending"@,
        RunStatus::Running => "Running"@,
        RunStatus::Completed => "Completed"@,
        RunStatus::Failed => "Failed"@,
        RunStatus::Cancelled => "Cancelled"@,
    }
}

impl RunStatus {
    pub fn label(&self) -> (r: &'static str)
        ensures
            r@ == run_status_label(*self),
    {
        match self {
            Self::Pending => "Pending",
            Self::Running => "Running",
            Self::Completed => "Completed",
            Self::Failed => "Failed",
            Self::Cancelled => "Cancelled",
        }
    }
}

/// Kind of an inter-agent message.
#[derive(Debug, Clone, Copy, PartialEq, Eq, Structural)]
pub enum MessageType {
    Request,
    Response,
    Error,
    Info,
}

/// The tag a message kind is displayed with.
pub open spec fn message_type_tag(m: MessageType) -> Seq<char> {
    match m {
        MessageType::Request => "REQ"@,
        MessageType::Response => "RSP"@,
        MessageType::Error => "ERR"@,
        MessageType::Info => "INF"@,
    }
}

impl MessageType {
    /// The tag this message kind is displayed with.
    pub fn to_display_string(&self) -> (r: String)
        ensures
            r@ == message_type_tag(*self),
    {
        match self {
            MessageType::Request => "REQ".to_string(),
            MessageType::Response => "RSP".to_string(),
            MessageType::Error => "ERR".to_string(),
            MessageType::Info => "INF".to_string(),
        }
    }
}

/// A saved workflow that can be loaded onto the canvas.
#[derive(Debug, Clone)]
pub struct WorkflowTemplate {
    pub id: String,
    pub name: String,
    pub description: String,
    pub nodes: Vec<OrchestratorNode>,
    pub edges: Vec<OrchestratorEdge>,
    pub version: String,
    pub tags: Vec<String>,
}

/// One finding of workflow validation.
#[derive(Debug, Clone)]
pub struct ValidationError {
    pub message: String,
    pub is_error: bool,
}

/// The findings of a validation pass.
#[derive(Debug, Clone)]
pub struct ValidationResult {
    pub issues: Vec<ValidationError>,
    pub is_valid: bool,
}

/// Node search state of the canvas.
#[derive(Debug, Clone)]
pub struct SearchState {
    pub query: String,
    pub is_active: bool,
    pub matched_node_ids: Vec<u64>,
}


/// Per-node token accounting (the estimated cost in dollars, a float, is kept
/// by the rendering side).
#[derive(Debug, Clone, Copy)]
pub struct TokenUsage {
    pub input_tokens: u64,
    pub output_tokens: u64,
    pub total_tokens: u64,
}

impl TokenUsage {
    /// Adds another usage into this one, field by field.
    pub fn add(&mut self, other: &TokenUsage)
        requires
            old(self).input_tokens + other.input_tokens <= u64::MAX,
            old(self).output_tokens + other.output_tokens <= u64::MAX,
            old(self).total_tokens + other.total_tokens <= u64::MAX,
        ensures
            final(self).input_tokens == old(self).input_tokens + other.input_tokens,
            final(self).output_tokens == old(self).output_tokens + other.output_tokens,
            final(self).total_tokens == old(self).total_tokens + other.total_tokens,
    {
        self.input_tokens = self.input_tokens + other.input_tokens;
        self.output_tokens = self.output_tokens + other.output_tokens;
        self.total_tokens = self.total_tokens + other.total_tokens;
    }
}

/// A skill an agent can use, with its base token cost and duration.
#[derive(Debug)]
pub struct SkillDef {
    pub name: String,
    pub base_token_cost: u32,
    pub base_duration_ms: u32,
    pub description: String,
}

impl Clone for SkillDef {
    fn clone(&self) -> (r: Self)
        ensures
            r == *self,
    {
        SkillDef {
            name: self.name.clone(),
            base_token_cost: self.base_token_cost,
            base_duration_ms: self.base_duration_ms,
            description: self.description.clone(),
        }
    }
}

/// Whether some skill in `skills` is called `name`.
pub open spec fn has_skill(skills: Seq<SkillDef>, name: Seq<char>) -> bool {
    exists|i: int| 0 <= i < skills.len() && skills[i].name@ == name
}

/// The position of the skill called `name` (meaningful when [`has_skill`]).
pub open spec fn skill_index(skills: Seq<SkillDef>, name: Seq<char>) -> int {
    choose|i: int| 0 <= i < skills.len() && skills[i].name@ == name
}

/// No two skills share a name.
pub open spec fn skill_names_unique(skills: Seq<SkillDef>) -> bool {
    forall|i: int, j: int|
        0 <= i < skills.len() && 0 <= j < skills.len() && i != j ==> skills[i].name@ != skills[j].name@
}

/// The token cost of one named skill; an unknown name costs nothing.
pub open spec fn skill_token_cost(skills: Seq<SkillDef>, name: Seq<char>) -> nat {
    if has_skill(skills, name) {
        skills[skill_index(skills, name)].base_token_cost as nat
    } else {
        0
    }
}

/// The duration of one named skill; an unknown name takes no time.
pub open spec fn skill_duration(skills: Seq<SkillDef>, name: Seq<char>) -> nat {
    if has_skill(skills, name) {
        skills[skill_index(skills, name)].base_duration_ms as nat
    } else {
        0
    }
}

/// The summed token cost of a list of skill names.
pub open spec fn total_token_cost(skills: Seq<SkillDef>, names: Seq<Seq<char>>) -> nat
    decreases names.len(),
{
    if names.len() == 0 {
        0
    } else {
        total_token_cost(skills, names.drop_last()) + skill_token_cost(skills, names.last())
    }
}

/// The summed duration of a list of skill names.
pub open spec fn total_duration(skills: Seq<SkillDef>, names: Seq<Seq<char>>) -> nat
    decreases names.len(),
{
    if names.len() == 0 {
        0
    } else {
        total_duration(skills, names.drop_last()) + skill_duration(skills, names.last())
    }
}

/// The names of a list of strings, as character sequences.
pub open spec fn string_views(v: Seq<String>) -> Seq<Seq<char>> {
    v.map_values(|s: String| s@)
}

/// The three built-in skills, in registration order.
pub open spec fn builtin_skill_names() -> Seq<Seq<char>> {
    seq!["text_generation"@, "code_analysis"@, "summarization"@]
}

/// Registry of the skills agents can draw on, keyed by skill name.
#[derive(Debug)]
pub struct SkillRegistry {
    skills: Vec<SkillDef>,
}

impl View for SkillRegistry {
    type V = Seq<SkillDef>;

    closed spec fn view(&self) -> Seq<SkillDef> {
        self.skills@
    }
}

impl SkillRegistry {
    #[verifier::type_invariant]
    closed spec fn names_unique(self) -> bool {
        skill_names_unique(self.skills@)
    }

    /// The registry with the three built-in skills.
    pub fn new() -> (r: Self)
        ensures
            r@.len() == 3,
            r@.map_values(|d: SkillDef| d.name@) == builtin_skill_names(),
            r@[0].base_token_cost == 1500 && r@[0].base_duration_ms == 2000,
            r@[0].description@ == "General text generation"@,
            r@[1].base_token_cost == 3000 && r@[1].base_duration_ms == 4000,
            r@[1].description@ == "Analyze and review code"@,
            r@[2].base_token_cost == 800 && r@[2].base_duration_ms == 1500,
            r@[2].description@ == "Summarize long text"@,
    {
        let mut skills: Vec<SkillDef> = Vec::new();
        skills.push(SkillDef {
            name: "text_generation".to_string(),
            base_token_cost: 1500,
            base_duration_ms: 2000,
            description: "General text generation".to_string(),
        });
        skills.push(SkillDef {
            name: "code_analysis".to_string(),
            base_token_cost: 3000,
            base_duration_ms: 4000,
            description: "Analyze and review code".to_string(),
        });
        skills.push(SkillDef {
            name: "summarization".to_string(),
            base_token_cost: 800,
            base_duration_ms: 1500,
            description: "Summarize long text".to_string(),
        });
        proof {
            reveal_strlit("text_generation");
            reveal_strlit("code_analysis");
            reveal_strlit("summarization");
        }
        assert(skills@.map_values(|d: SkillDef| d.name@) =~= builtin_skill_names());
        assert(skills@[0].name@.len() != skills@[1].name@.len());
        assert(skills@[0].name@.len() != skills@[2].name@.len());
        assert(skills@[1].name@[0] != skills@[2].name@[0]);
        assert(skill_names_unique(skills@));
        SkillRegistry { skills }
    }

    /// Looks up a skill by name.
    pub fn get(&self, name: &str) -> (r: Option<&SkillDef>)
        ensures
            r is Some <==> has_skill(self@, name@),
            r is Some ==> *r->0 == self@[skill_index(self@, name@)],
    {
        proof { use_type_invariant(self); }
        let n = self.skills.len();
        let mut i: usize = 0;
        while i < n
            invariant
                n == self.skills@.len(),
                i <= n,
                skill_names_unique(self.skills@),
                forall|k: int| 0 <= k < i ==> self.skills@[k].name@ != name@,
            decreases n - i,
        {
            if crate::text::str_eq(self.skills[i].name.as_str(), name) {
                assert(self@[i as int].name@ == name@);
                assert(has_skill(self@, name@));
                let ghost k = skill_index(self@, name@);
                assert(self@[k].name@ == name@);
                assert(skill_names_unique(self.skills@));
                assert(k == i as int);
                return Some(&self.skills[i]);
            }
            i = i + 1;
        }
        None
    }

    /// Sum of the token costs of the named skills; unknown names are skipped.
    pub fn token_cost_for(&self, skill_names: &[String]) -> (r: u32)
        requires
            total_token_cost(self@, string_views(skill_names@)) <= u32::MAX,
        ensures
            r == total_token_cost(self@, string_views(skill_names@)),
    {
        let n = skill_names.len();
        let mut sum: u32 = 0;
        let mut i: usize = 0;
        while i < n
            invariant
                n == skill_names@.len(),
                i <= n,
                total_token_cost(self@, string_views(skill_names@)) <= u32::MAX,
                sum == total_token_cost(self@, string_views(skill_names@).take(i as int)),
            decreases n - i,
        {
            let ghost names = string_views(skill_names@);
            assert(names.take(i + 1).drop_last() =~= names.take(i as int));
            proof { lemma_total_cost_prefix_le(self@, names, i + 1); }
            match self.get(skill_names[i].as_str()) {
                Some(d) => {
                    sum = sum + d.base_token_cost;
                },
                None => {},
            }
            i = i + 1;
        }
        assert(string_views(skill_names@).take(n as int) =~= string_views(skill_names@));
        sum
    }

    /// Sum of the durations of the named skills, but never less than 500 ms.
    pub fn duration_for(&self, skill_names: &[String]) -> (r: u32)
        requires
            total_duration(self@, string_views(skill_names@)) <= u32::MAX,
        ensures
            r == if total_duration(self@, string_views(skill_names@)) < 500 { 500 } else {
                total_duration(self@, string_views(skill_names@))
            },
    {
        let n = skill_names.len();
        let mut sum: u32 = 0;
        let mut i: usize = 0;
        while i < n
            invariant
                n == skill_names@.len(),
                i <= n,
                total_duration(self@, string_views(skill_names@)) <= u32::MAX,
                sum == total_duration(self@, string_views(skill_names@).take(i as int)),
            decreases n - i,
        {
            let ghost names = string_views(skill_names@);
            assert(names.take(i + 1).drop_last() =~= names.take(i as int));
            proof { lemma_total_duration_prefix_le(self@, names, i + 1); }
            match self.get(skill_names[i].as_str()) {
                Some(d) => {
                    sum = sum + d.base_duration_ms;
                },
                None => {},
            }
            i = i + 1;
        }
        assert(string_views(skill_names@).take(n as int) =~= string_views(skill_names@));
        if sum < 500 { 500 } else { sum }
    }

    /// All registered skills.
    pub fn list_skills(&self) -> (r: Vec<&SkillDef>)
        ensures
            r@.len() == self@.len(),
            forall|i: int| 0 <= i < r@.len() ==> *r@[i] == self@[i],
            skill_names_unique(self@),
            forall|i: int| 0 <= i < r@.len() ==> has_skill(self@, (#[trigger] r@[i]).name@)
                && skill_index(self@, r@[i].name@) == i,
    {
        proof {
            use_type_invariant(self);
            assert forall|i: int| 0 <= i < self@.len() implies has_skill(self@, (#[trigger] self@[i]).name@)
                && skill_index(self@, self@[i].name@) == i by {
                assert(has_skill(self@, self@[i].name@));
                let k = skill_index(self@, self@[i].name@);
                assert(self@[k].name@ == self@[i].name@);
            }
        }
        let n = self.skills.len();
        let mut out: Vec<&SkillDef> = Vec::new();
        let mut i: usize = 0;
        while i < n
            invariant
                n == self.skills@.len(),
                i <= n,
                out@.len() == i,
                forall|k: int| 0 <= k < i ==> *out@[k] == self.skills@[k],
            decreases n - i,
        {
            out.push(&self.skills[i]);
            i = i + 1;
        }
        out
    }
}

impl Clone for SkillRegistry {
    fn clone(&self) -> (r: Self)
        ensures
            r@ == self@,
    {
        proof { use_type_invariant(self); }
        let n = self.skills.len();
        let mut skills: Vec<SkillDef> = Vec::new();
        let mut i: usize = 0;
        while i < n
            invariant
                n == self.skills@.len(),
                i <= n,
                skills@ == self.skills@.take(i as int),
            decreases n - i,
        {
            skills.push(self.skills[i].clone());
            assert(self.skills@.take(i + 1) =~= self.skills@.take(i as int).push(self.skills@[i as int]));
            i = i + 1;
        }
        assert(self.skills@.take(n as int) =~= self.skills@);
        SkillRegistry { skills }
    }
}

impl Default for SkillRegistry {
    fn default() -> (r: Self)
        ensures
            r@.len() == 0,
    {
        SkillRegistry { skills: Vec::new() }
    }
}

/// A prefix of a name list costs no more than the whole list.
proof fn lemma_total_cost_prefix_le(skills: Seq<SkillDef>, names: Seq<Seq<char>>, k: int)
    requires
        0 <= k <= names.len(),
    ensures
        total_token_cost(skills, names.take(k)) <= total_token_cost(skills, names),
    decreases names.len() - k,
{
    if k < names.len() {
        lemma_total_cost_prefix_le(skills, names, k + 1);
        assert(names.take(k + 1).drop_last() =~= names.take(k));
    } else {
        assert(names.take(k) =~= names);
    }
}

/// A prefix of a name list takes no longer than the whole list.
proof fn lemma_total_duration_prefix_le(skills: Seq<SkillDef>, names: Seq<Seq<char>>, k: int)
    requires
        0 <= k <= names.len(),
    ensures
        total_duration(skills, names.take(k)) <= total_duration(skills, names),
    decreases names.len() - k,
{
    if k < names.len() {
        lemma_total_duration_prefix_le(skills, names, k + 1);
        assert(names.take(k + 1).drop_last() =~= names.take(k));
    } else {
        assert(names.take(k) =~= names);
    }
}

/// Undo/redo history of graph edits.
///
/// The graph edits themselves hold canvas coordinates, so the history is
/// generic over the kind of edit it records.
#[derive(Debug, Clone)]
pub struct UndoRedo<A> {
    undo_stack: Vec<A>,
    redo_stack: Vec<A>,
}

impl<A> UndoRedo<A> {
    /// The undo stack, oldest edit first.
    pub closed spec fn undo_items(&self) -> Seq<A> {
        self.undo_stack@
    }

    /// The redo stack, oldest edit first.
    pub closed spec fn redo_items(&self) -> Seq<A> {
        self.redo_stack@
    }

    /// An empty history.
    pub fn new() -> (r: Self)
        ensures
            r.undo_items().len() == 0,
            r.redo_items().len() == 0,
    {
        UndoRedo { undo_stack: Vec::new(), redo_stack: Vec::new() }
    }

    /// Records an edit: it goes on the undo stack and the redo stack is cleared.
    pub fn push(&mut self, action: A)
        ensures
            final(self).undo_items() == old(self).undo_items().push(action),
            final(self).redo_items().len() == 0,
    {
        self.undo_stack.push(action);
        self.redo_stack.clear();
    }

    /// Takes the most recent edit off the undo stack.
    pub fn undo(&mut self) -> (r: Option<A>)
        ensures
            old(self).undo_items().len() == 0 ==> r is None && final(self).undo_items() == old(self).undo_items(),
            old(self).undo_items().len() > 0 ==> r == Some(old(self).undo_items().last())
                && final(self).undo_items() == old(self).undo_items().drop_last(),
            final(self).redo_items() == old(self).redo_items(),
    {
        self.undo_stack.pop()
    }

    /// Takes the most recent edit off the redo stack.
    pub fn redo(&mut self) -> (r: Option<A>)
        ensures
            old(self).redo_items().len() == 0 ==> r is None && final(self).redo_items() == old(self).redo_items(),
            old(self).redo_items().len() > 0 ==> r == Some(old(self).redo_items().last())
                && final(self).redo_items() == old(self).redo_items().drop_last(),
            final(self).undo_items() == old(self).undo_items(),
    {
        self.redo_stack.pop()
    }

    pub fn can_undo(&self) -> (r: bool)
        ensures
            r == (self.undo_items().len() > 0),
    {
        !self.undo_stack.is_empty()
    }

    pub fn can_redo(&self) -> (r: bool)
        ensures
            r == (self.redo_items().len() > 0),
    {
        !self.redo_stack.is_empty()
    }
}

/// Undoing right after recording an edit gives that edit back and restores the
/// undo stack.
pub proof fn law_undo_after_push<A>(before: UndoRedo<A>, after_push: UndoRedo<A>, after_undo: UndoRedo<A>, action: A, undone: Option<A>)
    requires
        after_push.undo_items() == before.undo_items().push(action),
        after_undo.undo_items() == after_push.undo_items().drop_last(),
        undone == Some(after_push.undo_items().last()),
    ensures
        undone == Some(action),
        after_undo.undo_items() == before.undo_items(),
{
    assert(before.undo_items().push(action).drop_last() =~= before.undo_items());
}

} // verus!
