//! A policy decision and workflow engine.
//!
//! Given a set of declarative rules and an evaluation context, the library
//! determines compliance, detects and resolves conflicts between competing
//! policies, reconstructs policy and exemption state from an ordered event
//! history, and drives approval, enforcement, exemption and audit workflows
//! through guarded state machines.

pub mod aggregate;
pub mod approval_saga;
pub mod audit_saga;
pub mod auth_values;
pub mod commands;
pub mod composite_saga;
pub mod conflicts;
pub mod contains;
pub mod enforcement_saga;
pub mod entities;
pub mod evaluator;
pub mod events;
pub mod exemption_saga;
pub mod laws;
pub mod ports;
pub mod queries;
pub mod replay;
pub mod runtime;
pub mod sagas;
pub mod text;
pub mod value_objects;
