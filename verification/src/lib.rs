//! The logic of Codex Limit Island: session activity from Codex hooks, the hook request
//! format, the hook's delivery procedure, and rate-limit windows.
pub mod activity;
pub mod activity_laws;
pub mod app_paths;
pub mod hook;
pub mod http;
pub mod json;
pub mod limits;
pub mod path_facts;
pub mod sender;
pub mod server;
pub mod text;
pub mod unique;
pub mod usage;
