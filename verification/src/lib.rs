//! Verified cores of small agent-runtime demos: reducers, gates, state machines.
pub mod text;
pub mod textmap;
pub mod pager_reducer;
pub mod subagent_scope;
pub mod auth_boundary;
pub mod permission_layers;
pub mod extension_lifecycle;
pub mod host_routing;
pub mod config_resolution;
pub mod context_compaction;
pub mod prompt_assembly;
pub mod turn_pipeline;
pub mod replay_order;
pub mod katas;
pub mod dispatch_window;
pub mod capability_injection;
pub mod sampler_retry;
pub mod workspace_rewind;
pub mod trace_timeline;
pub mod tool_pipeline;
pub mod session_actor;
pub mod cancel_shutdown;
pub mod singleflight;
pub mod workflow_replay;
pub mod storage_recovery;
pub mod request_reply_actor;
