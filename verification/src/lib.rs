//! Verified core of the SAYA agent tool layer.

pub mod text;
pub mod sql_format;
pub mod collapse_laws;
pub mod json;
pub mod tool_error;
pub mod anchor;
pub mod redaction_guard;
pub mod workspace_edit;
pub mod tool_args;
pub mod definitions;
pub mod contract_args;
pub mod logs;
pub mod propose;
pub mod result_stats;
pub mod tool_calls;
pub mod system_prompt;
pub mod session_facts;
pub mod schema;
pub mod contract_tools;
pub mod run_tools;
pub mod dispatch;
pub mod workspace_tools;
pub mod chart;
