//! Core state engine of the DirectScreen daemon: the module registry, the
//! binary control protocol, touch sessions, keyboard events, frame storage
//! and the text codecs that the control plane speaks.

pub mod api;
pub mod text;
pub mod keyed;
pub mod module_registry;
pub mod module_runtime;
pub mod module_rpc;
pub mod module_files;
pub mod module_session;
pub mod state_files;
pub mod cli_args;
pub mod wire;
pub mod protocol;
pub mod ctl_wire;
pub mod keyboard;
pub mod frames;
pub mod engine;
pub mod util;
pub mod client;
pub mod pixels;
pub mod daemon;
pub mod daemon_config;
pub mod frame_requests;
pub mod framepull;
pub mod touch_router;
pub mod touch_tracker;
pub mod input_args;
pub mod ffi_types;
