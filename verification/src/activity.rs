//! Session and agent activity, driven by Codex hook events.
pub mod calls;
pub mod consistency;
pub mod event;
pub mod registry;
pub mod session;
pub mod state;
pub mod step;

pub use event::{copy_opt, HookEvent, HookEventKind};
pub use registry::{
    copy_session, read_activity_snapshot, ActivitySnapshot, SessionEntry, SessionRegistry,
    ACTIVE_AFTER_MS, COMPLETED_AFTER_MS, MAX_HOOK_BYTES, STALE_AFTER_MS,
};
pub use session::{recompute_session_state, update_agent, ActiveTool, Agent, Session};
pub use state::{tool_state, ActivityState};
