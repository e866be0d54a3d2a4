//! Orchestration core for agent workspaces: multiplexer backend logic,
//! sandbox command rendering, agent state reconciliation and host RPC.

pub mod agents;
pub mod commands;
pub mod container;
pub mod context;
pub mod done_stack;
pub mod lima;
pub mod pane_setup;
pub mod rpc;
pub mod shell;
pub mod shims;
pub mod text;
pub mod vm_admin;
pub mod zellij;

pub use shell::shell_escape;
pub use zellij::{extract_base_command, parse_pane_id, parse_tab_name_from_output, ZellijBackend};
