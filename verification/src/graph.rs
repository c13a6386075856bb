//! The evidence graph: how resources depend on one another, and why that is believed.

use vstd::prelude::*;

use crate::resource::ResourceId;

verus! {

/// How one resource relates to another.
#[derive(Debug, Clone, Copy, PartialEq, Eq, Structural)]
pub enum Relation {
    Owns,
    References,
    UsesStorage,
    UsesServiceAccount,
    /// Any other relation.
    Other,
}

/// How firmly an edge is believed.
#[derive(Debug, Clone, Copy, PartialEq, Eq, Structural)]
pub enum Confidence {
    Hard,
    Inferred,
    Heuristic,
}

/// What an edge was read from.
#[derive(Debug, Clone)]
pub enum Evidence {
    OwnerReference,
    CsvOwnedCrd { crd_name: String },
    CsvRequiredCrd { crd_name: String },
    CsvInstallStrategy,
    SpecField { path: String },
    LabelSelector { selector: String },
    ManagedFields { manager: String },
    Finalizer { name: String },
    StorageBinding,
    WebhookService,
    ApiServiceBackend,
}

/// An edge of the evidence graph.
#[derive(Debug, Clone)]
pub struct Edge {
    pub from: ResourceId,
    pub to: ResourceId,
    pub relation: Relation,
    pub evidence: Vec<Evidence>,
    pub confidence: Confidence,
}

/// All edges that discovery found.
#[derive(Debug, Clone)]
pub struct EvidenceGraph {
    pub edges: Vec<Edge>,
}

} // verus!
