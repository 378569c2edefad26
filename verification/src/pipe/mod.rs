//! Typed pipeline runtime: state machine, registry, composition and execution helpers.

pub mod approval_gate;
pub mod dry_run;
pub mod ast;
pub mod checkpoint;
pub mod compensate;
pub mod dag;
pub mod event;
pub mod executor;
pub mod frame;
pub mod registry;
pub mod run;
pub mod state_machine;
