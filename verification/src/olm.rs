//! Operators as the lifecycle manager installs them.

use vstd::prelude::*;

use crate::resource::ResourceId;

verus! {

/// The name and namespace of a ClusterServiceVersion.
#[derive(Debug, Clone, PartialEq, Eq, Hash)]
pub struct OperatorId {
    pub csv_name: String,
    pub namespace: String,
}

/// An installed operator.
#[derive(Debug, Clone)]
pub struct OperatorInstance {
    pub subscription: Option<ResourceId>,
    pub package_name: Option<String>,
    pub csv: ResourceId,
    pub csv_phase: String,
    pub owned_crds: Vec<String>,
    pub required_crds: Vec<String>,
    pub owned_api_service_defs: Vec<String>,
    pub required_api_service_defs: Vec<String>,
    pub deployments: Vec<String>,
    pub service_accounts: Vec<String>,
    pub install_namespace: String,
    pub has_unlinked_subscriptions: bool,
}

} // verus!
