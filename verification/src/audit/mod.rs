//! What is left of an operator after its teardown.

use vstd::prelude::*;

use crate::resource::{ResourceId, ResourceIdView};
use crate::text::opt_text;

pub mod attribution;
pub mod course;
pub mod findings;
pub mod generation;
pub mod looks;
pub mod packages;
pub mod presence;
pub mod report;
pub mod scan;
pub mod sweep;

verus! {

/// What an audit found.
#[derive(Debug, Clone)]
pub struct ResidualAudit {
    pub planned_delete_still_present: Vec<ResidualItem>,
    pub planned_expect_still_present: Vec<ResidualItem>,
    pub expected_preserved: Vec<PreservedItem>,
    pub likely_operator_residual: Vec<AttributedResidual>,
    pub unattributed: Vec<AttributedResidual>,
    pub coverage: AuditCoverage,
    pub scan_errors: Vec<AuditScanError>,
}

/// An object that the plan was to remove, and that is still there.
#[derive(Debug, Clone)]
pub struct ResidualItem {
    pub resource: ResourceId,
    pub planned_action: String,
    pub live_uid: Option<String>,
    pub recreation: RecreationState,
}

/// Whether an object is the one that was planned. Nothing is taken to be the
/// same object without proof.
#[derive(Debug, Clone, Copy, PartialEq, Eq, Structural)]
pub enum RecreationState {
    SameResource,
    Recreated,
    Unknown,
}

impl RecreationState {
    /// The state where nothing is known.
    pub fn default_unknown() -> (r: Self)
        ensures
            r == RecreationState::Unknown,
    {
        RecreationState::Unknown
    }
}

#[derive(Debug, Clone)]
pub struct PreservedItem {
    pub resource: ResourceId,
    pub reason: String,
    pub confirmed_descendants: usize,
    pub associated_active_workloads: usize,
}

/// An object outside the plan, and what ties it to the operator.
#[derive(Debug, Clone)]
pub struct AttributedResidual {
    pub resource: ResourceId,
    pub evidence: ResidualEvidence,
    pub confidence: ResidualConfidence,
}

#[derive(Debug, Clone)]
pub struct ResidualEvidence {
    pub owner_ref_match: bool,
    pub matching_labels: Vec<(String, String)>,
    pub matching_managers: Vec<String>,
    pub namespace_affinity: bool,
    pub service_account_match: bool,
}

/// How firmly an object is tied to the operator. This is no leave to delete it.
#[derive(Debug, Clone, Copy, PartialEq, Eq, Structural)]
pub enum ResidualConfidence {
    High,
    Medium,
    Low,
    /// Nothing ties the object to the operator.
    NoEvidence,
}

#[derive(Debug, Clone, Copy, PartialEq, Eq, Structural)]
pub struct AuditCoverage {
    pub requested_probes: usize,
    pub succeeded_probes: usize,
}

#[derive(Debug, Clone)]
pub struct AuditScanError {
    pub resource_type: String,
    pub namespace: String,
    pub error: String,
}

/// The contents of a [`ResidualItem`].
#[verifier::ext_equal]
pub struct ResidualItemView {
    pub resource: ResourceIdView,
    pub planned_action: Seq<char>,
    pub live_uid: Option<Seq<char>>,
    pub recreation: RecreationState,
}

impl View for ResidualItem {
    type V = ResidualItemView;

    open spec fn view(&self) -> ResidualItemView {
        ResidualItemView {
            resource: self.resource@,
            planned_action: self.planned_action@,
            live_uid: opt_text(self.live_uid),
            recreation: self.recreation,
        }
    }
}

/// The contents of a [`PreservedItem`].
#[verifier::ext_equal]
pub struct PreservedItemView {
    pub resource: ResourceIdView,
    pub reason: Seq<char>,
    pub confirmed_descendants: usize,
    pub associated_active_workloads: usize,
}

impl View for PreservedItem {
    type V = PreservedItemView;

    open spec fn view(&self) -> PreservedItemView {
        PreservedItemView {
            resource: self.resource@,
            reason: self.reason@,
            confirmed_descendants: self.confirmed_descendants,
            associated_active_workloads: self.associated_active_workloads,
        }
    }
}

/// The texts of a list of pairs.
pub open spec fn pair_texts(v: Seq<(String, String)>) -> Seq<(Seq<char>, Seq<char>)> {
    v.map_values(|p: (String, String)| (p.0@, p.1@))
}

/// The contents of a [`ResidualEvidence`].
#[verifier::ext_equal]
pub struct EvidenceView {
    pub owner_ref_match: bool,
    pub matching_labels: Seq<(Seq<char>, Seq<char>)>,
    pub matching_managers: Seq<Seq<char>>,
    pub namespace_affinity: bool,
    pub service_account_match: bool,
}

impl View for ResidualEvidence {
    type V = EvidenceView;

    open spec fn view(&self) -> EvidenceView {
        EvidenceView {
            owner_ref_match: self.owner_ref_match,
            matching_labels: pair_texts(self.matching_labels@),
            matching_managers: crate::text::texts(self.matching_managers@),
            namespace_affinity: self.namespace_affinity,
            service_account_match: self.service_account_match,
        }
    }
}

/// The contents of an [`AttributedResidual`].
#[verifier::ext_equal]
pub struct AttributedView {
    pub resource: ResourceIdView,
    pub evidence: EvidenceView,
    pub confidence: ResidualConfidence,
}

impl View for AttributedResidual {
    type V = AttributedView;

    open spec fn view(&self) -> AttributedView {
        AttributedView {
            resource: self.resource@,
            evidence: self.evidence@,
            confidence: self.confidence,
        }
    }
}

/// The contents of an [`AuditScanError`].
#[verifier::ext_equal]
pub struct ScanErrorView {
    pub resource_type: Seq<char>,
    pub namespace: Seq<char>,
    pub error: Seq<char>,
}

impl View for AuditScanError {
    type V = ScanErrorView;

    open spec fn view(&self) -> ScanErrorView {
        ScanErrorView {
            resource_type: self.resource_type@,
            namespace: self.namespace@,
            error: self.error@,
        }
    }
}

/// The contents of a [`ResidualAudit`].
#[verifier::ext_equal]
pub struct AuditView {
    pub deletes: Seq<ResidualItemView>,
    pub expects: Seq<ResidualItemView>,
    pub preserved: Seq<PreservedItemView>,
    pub likely: Seq<AttributedView>,
    pub unattributed: Seq<AttributedView>,
    pub coverage: AuditCoverage,
    pub errors: Seq<ScanErrorView>,
}

impl View for ResidualAudit {
    type V = AuditView;

    open spec fn view(&self) -> AuditView {
        AuditView {
            deletes: self.planned_delete_still_present@.map_values(|x: ResidualItem| x@),
            expects: self.planned_expect_still_present@.map_values(|x: ResidualItem| x@),
            preserved: self.expected_preserved@.map_values(|x: PreservedItem| x@),
            likely: self.likely_operator_residual@.map_values(|x: AttributedResidual| x@),
            unattributed: self.unattributed@.map_values(|x: AttributedResidual| x@),
            coverage: self.coverage,
            errors: self.scan_errors@.map_values(|x: AuditScanError| x@),
        }
    }
}

/// Notes what could not be looked at.
pub fn push_error(
    audit: &mut ResidualAudit,
    resource_type: String,
    namespace: String,
    error: String,
)
    ensures
        final(audit)@ == (AuditView {
            errors: old(audit)@.errors.push(
                ScanErrorView {
                    resource_type: resource_type@,
                    namespace: namespace@,
                    error: error@,
                },
            ),
            ..old(audit)@
        }),
{
    let e = AuditScanError { resource_type, namespace, error };
    let ghost view = e@;
    audit.scan_errors.push(e);
    assert(audit@.errors =~= old(audit)@.errors.push(view));
}

/// Adds an object that something ties to the operator.
pub fn push_likely(audit: &mut ResidualAudit, found: AttributedResidual)
    ensures
        final(audit)@ == (AuditView { likely: old(audit)@.likely.push(found@), ..old(audit)@ }),
{
    let ghost view = found@;
    audit.likely_operator_residual.push(found);
    assert(audit@.likely =~= old(audit)@.likely.push(view));
}

/// Adds an object that nothing ties to the operator.
pub fn push_unattributed(audit: &mut ResidualAudit, found: AttributedResidual)
    ensures
        final(audit)@ == (AuditView {
            unattributed: old(audit)@.unattributed.push(found@),
            ..old(audit)@
        }),
{
    let ghost view = found@;
    audit.unattributed.push(found);
    assert(audit@.unattributed =~= old(audit)@.unattributed.push(view));
}

} // verus!
