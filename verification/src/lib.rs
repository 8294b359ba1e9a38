//! Core logic of a chat-driven orchestrator that bridges a messaging
//! front-end to a long-running assistant subprocess: safety kernel,
//! formatting, cron scheduling, streaming UI state, event pipeline and
//! session bookkeeping, with the surrounding I/O kept out of the library.

use vstd::prelude::*;

pub mod archive;
pub mod audit;
pub mod commands;
pub mod config;
pub mod cron;
pub mod cron_yaml;
pub mod domain;
pub mod errors;
pub mod extraction;
pub mod formatting;
pub mod html_split;
pub mod jsonio;
pub mod mcp;
pub mod media_group;
pub mod messaging;
pub mod model_types;
pub mod numbers;
pub mod paths;
pub mod pipeline;
pub mod sched;
pub mod security;
pub mod session;
pub mod shell;
pub mod streamui;
pub mod supervisor;
pub mod text;
pub mod throttle;
pub mod usage;
pub mod utils;

verus! {

} // verus!
