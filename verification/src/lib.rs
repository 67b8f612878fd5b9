//! Decision logic of a Debug Adapter Protocol server for 1C:Enterprise.

pub mod adapter;
pub mod adapter_breakpoints;
pub mod adapter_connect;
pub mod adapter_evaluation;
pub mod adapter_events;
pub mod adapter_frames;
pub mod adapter_invariant;
pub mod adapter_laws;
pub mod adapter_polls;
pub mod adapter_requests;
pub mod adapter_session;
pub mod adapter_targets;
pub mod answer_laws;
pub mod breakpoint_laws;
pub mod connection_laws;
pub mod dap;
pub mod debug_replies;
pub mod debug_requests;
pub mod debug_server;
pub mod debug_types;
pub mod event_laws;
pub mod info_base;
pub mod json;
pub mod list;
pub mod metadata;
pub mod metadata_xml;
pub mod number;
pub mod ordered;
pub mod platform;
pub mod reading;
pub mod reply_laws;
pub mod request_laws;
pub mod source_laws;
pub mod source_tree;
pub mod state_laws;
pub mod target_laws;
pub mod text;
pub mod text_laws;
pub mod xml;
