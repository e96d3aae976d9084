use vstd::prelude::*;

pub mod text;
pub mod agent_llm;
pub mod startup;
pub mod project;
pub mod plugin_lifecycle;
pub mod plugin_journal;
pub mod lifecycle_details;
pub mod extension_lifecycle;
pub mod package_trash;
pub mod run_store;
pub mod wasm_identity;
pub mod kernel;
pub mod agent_turns;
pub mod project_scan;
pub mod plugin_permissions;
pub mod transport;
pub mod wasm_host;
