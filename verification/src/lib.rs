//! Orchestration core for long-running agent workers: task state, reconciliation,
//! supervision rules, JSON-RPC framing and rollout reconstruction.

pub mod activity;
pub mod codec;
pub mod controller;
pub mod environment;
pub mod error;
pub mod ids;
pub mod join;
pub mod join_laws;
pub mod json;
pub mod layout;
pub mod merge;
pub mod notification;
pub mod number;
pub mod operations;
pub mod orchestrator;
pub mod patch;
pub mod paths;
pub mod pool;
pub mod prompts;
pub mod reconcile;
pub mod reconcile_laws;
pub mod report;
pub mod rollout;
pub mod rpc;
pub mod segments;
pub mod segments_laws;
pub mod session;
pub mod settled;
pub mod split;
pub mod stateboard;
pub mod store;
pub mod supervisor;
pub mod task;
pub mod text;
pub mod threads;
pub mod time;
pub mod title;
pub mod turn;
pub mod watch;
