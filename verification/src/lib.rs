//! The verified decision logic of a local server that runs Cursor on the user's own model
//! providers: model configuration and selection, conversation state and checkpoints, tool
//! calls, and the local integration with Cursor.
use vstd::prelude::*;

pub mod error;
pub mod text;
pub mod tokens;
pub mod configuration;
pub mod request_url;
pub mod json;
pub mod digest;
pub mod blob;
pub mod model_config;
pub mod plugin;
pub mod catalog;
pub mod messages;
pub mod protocol;
pub mod completions;
pub mod directory;
pub mod run;
pub mod runtime;
pub mod pending;
pub mod checkpoint;
pub mod local_app;
pub mod skills;
pub mod proxy;
pub mod knowledge;
pub mod cursor_settings;
pub mod remote_ssh;
pub mod access;
pub mod subagent_runs;
pub mod checkpoint_builder;
pub mod control;
pub mod bidi;
pub mod output;
pub mod orchestration;
pub mod registry;
pub mod context_sync;
pub mod tool_runtime;
pub mod exec_result;

verus! {
} // verus!
