//! Durable agent orchestration contracts: bounded values, stable identities,
//! integrity-bound journals, fenced leases and canonical execution graphs.
//!
//! Every item states its behaviour in a contract that Verus proves.

pub mod barrier;
pub mod barrier_laws;
pub mod calendar_laws;
pub mod call_laws;
pub mod canonical;
pub mod checkpoint;
pub mod child_run_error;
pub mod child_run_laws;
pub mod child_run_policy;
pub mod composition;
pub mod composition_laws;
pub mod composition_model;
pub mod content;
pub mod debug;
pub mod debug_laws;
pub mod decimal;
pub mod delegation_laws;
pub mod digest;
pub mod edge_laws;
pub mod expansion;
pub mod extension;
pub mod extension_key;
pub mod extension_laws;
pub mod failure;
pub mod grammar_laws;
pub mod graph;
pub mod graph_composition;
pub mod graph_laws;
pub mod graph_node;
pub mod graph_shape;
pub mod identity;
pub mod ids;
pub mod instance_laws;
pub mod journal;
pub mod journal_laws;
pub mod json;
pub mod json_laws;
pub mod json_value;
pub mod language;
pub mod lease;
pub mod lease_laws;
pub mod message;
pub mod names;
pub mod options;
pub mod ordered;
pub mod pins;
pub mod plan_laws;
pub mod ready;
pub mod scalars;
pub mod shape_laws;
pub mod template;
pub mod text;
pub mod time;
pub mod uri;
pub mod value_laws;
pub mod version;
pub mod walks;
