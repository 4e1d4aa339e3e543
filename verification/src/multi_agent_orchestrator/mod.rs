//! Multi-agent workflow orchestration: the workflow graph, the execution plan
//! and its step-by-step replay, and workflow validation.


pub mod engine;
pub mod metrics;
pub mod orchestrator;
pub mod replay;
pub mod run;
pub mod types;
