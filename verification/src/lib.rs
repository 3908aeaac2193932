//! Tool-call logic of the Atlas MCP server.

pub mod adapter;
pub mod digest;
pub mod errors;
pub mod explore_candidates;
pub mod forms;
pub mod json;
pub mod json_text;
pub mod overlay;
pub mod project_path;
pub mod protocol;
pub mod protocol_version;
pub mod query_task;
pub mod responses;
pub mod task_manager;
pub mod text;
pub mod text_map;
pub mod tools;
