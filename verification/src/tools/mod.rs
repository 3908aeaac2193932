//! The tools and what they answer.

pub mod analysis_envelope;
pub mod analysis_response;
pub mod annotations;
pub mod args;
pub mod async_state;
pub mod atlas_jobs;
pub mod branch_diff;
pub mod call_graph;
pub mod calls;
pub mod capability;
pub mod context;
pub mod domain_rules;
pub mod edges;
pub mod explore;
pub mod file_deps;
pub mod impact;
pub mod index;
pub mod lazy_refresh;
pub mod path;
pub mod symbols;
pub mod unresolved;
