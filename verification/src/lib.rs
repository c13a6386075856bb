//! Decisions behind tearing an operator down from a Kubernetes cluster.
//!
//! The library talks to no cluster. A run of anything that does is a value with a
//! stage: the caller does what the stage asks for, and tells the run what came of it.
//! The contracts say for each answer what the run does next.

pub mod app;
pub mod audit;
pub mod cluster;
pub mod collections;
pub mod drift;
pub mod executor;
pub mod explain;
pub mod finalizers;
pub mod graph;
pub mod harness;
pub mod inspect;
pub mod journal;
pub mod json;
pub mod lists;
pub mod olm;
pub mod permit;
pub mod plan;
pub mod planner;
pub mod resource;
pub mod text;
pub mod watch;
