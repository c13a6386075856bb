//! Saved plans: what may be replayed, on which cluster, and on what grounds.

use vstd::prelude::*;
use vstd::string::*;

use crate::olm::OperatorId;
use crate::resource::{ResourceId, ResourceIdView};
use crate::text::{
    blank, copy_opt, decimal, is_blank, opt_text, quoted, quoted_text, same, same_opt,
    u32_to_decimal,
};

verus! {

/// A resource whose UID has been observed.
#[derive(Debug, Clone, PartialEq, Eq, Hash)]
pub struct ObservedResourceIdentity {
    pub resource: ResourceId,
    pub uid: String,
}

impl ObservedResourceIdentity {
    /// The observed identity of `rid`, where it carries a UID.
    pub fn from_resource_id(rid: &ResourceId) -> (r: Option<Self>)
        ensures
            match r {
                Some(o) => o.resource == *rid && rid.uid == Some(o.uid),
                None => rid.uid is None,
            },
    {
        match &rid.uid {
            Some(uid) => Some(
                ObservedResourceIdentity { resource: rid.clone(), uid: uid.clone() },
            ),
            None => None,
        }
    }
}

/// What tells one installation of an operator from the next.
#[derive(Debug, Clone)]
pub enum OperatorGenerationIdentity {
    OlmPackage { package_name: String, install_namespace: String },
    Unverifiable { reason: String },
}

/// An operator as it was when the plan was made.
#[derive(Debug, Clone)]
pub struct OperatorIdentitySnapshot {
    pub generation_identity: OperatorGenerationIdentity,
    pub operator_id: OperatorId,
    pub csv_name: String,
    pub csv: ObservedResourceIdentity,
    pub subscriptions: Vec<ObservedResourceIdentity>,
    pub controller_deployments: Vec<ObservedResourceIdentity>,
    pub service_accounts: Vec<ObservedResourceIdentity>,
    pub owned_crds: Vec<String>,
    pub required_crds: Vec<String>,
}

/// A cluster: the UID of its `kube-system` namespace, and where its API server is.
#[derive(Debug, Clone, PartialEq, Eq)]
pub struct ClusterIdentity {
    /// For diagnosis only.
    pub api_server: String,
    /// What identity rests on.
    pub kube_system_uid: String,
}

impl ClusterIdentity {
    /// Whether both are the same cluster.
    pub fn matches(&self, other: &ClusterIdentity) -> (r: bool)
        ensures
            r == (self.kube_system_uid@ == other.kube_system_uid@),
    {
        self.kube_system_uid == other.kube_system_uid
    }
}

pub const SAVED_PLAN_SCHEMA_VERSION: u32 = 1;

/// A plan that may be replayed on another cluster; it holds no UIDs.
#[derive(Debug, Clone)]
pub struct SavedTeardownPlan {
    pub schema_version: u32,
    pub target: SavedOperatorTarget,
    pub teardown_decisions: Vec<SavedDecision>,
    pub residual_decisions: Vec<SavedDecision>,
}

#[derive(Debug, Clone)]
pub struct SavedOperatorTarget {
    pub package_name: String,
    pub install_namespace: String,
    pub csv_name_pattern: String,
}

/// A decision on one resource, and its grounds.
#[derive(Debug, Clone)]
pub struct SavedDecision {
    pub match_spec: ResourceMatch,
    pub action: SavedAction,
    pub approval: ApprovalKind,
    pub basis: DecisionBasis,
}

/// Which resource a saved decision is about. No group means the core group.
#[derive(Debug, Clone)]
pub struct ResourceMatch {
    pub group: Option<String>,
    pub kind: String,
    pub namespace: Option<String>,
    pub name: String,
}

/// The resource `rid` is the one that `m` speaks of.
pub open spec fn is_match(m: ResourceMatch, rid: ResourceIdView) -> bool {
    &&& match m.group {
        Some(g) => rid.group == g@,
        None => rid.group.len() == 0,
    }
    &&& m.kind@ == rid.kind
    &&& opt_text(m.namespace) == rid.namespace
    &&& m.name@ == rid.name
}

/// A text that is empty or the wildcard.
pub open spec fn unspecific(s: Seq<char>) -> bool {
    s.len() == 0 || s == "*"@
}

/// Why a match is not specific enough, or `None`.
pub open spec fn match_fault(m: ResourceMatch) -> Option<Seq<char>> {
    if unspecific(m.kind@) {
        Some("invalid kind: "@ + quoted_text(m.kind@))
    } else if unspecific(m.name@) {
        Some("invalid name: "@ + quoted_text(m.name@))
    } else if opt_text(m.group) == Some("*"@) {
        Some("wildcard group not allowed"@)
    } else {
        None
    }
}

/// Whether a text is empty or the wildcard.
fn is_unspecific(s: &str) -> (r: bool)
    ensures
        r == unspecific(s@),
{
    s.is_empty() || same(s, "*")
}

impl ResourceMatch {
    /// The match that speaks of `rid`.
    pub fn from_resource_id(rid: &ResourceId) -> (r: Self)
        ensures
            is_match(r, rid@),
            r.group == if rid.group@.len() == 0 {
                None
            } else {
                Some(rid.group)
            },
            r.kind == rid.kind,
            r.namespace == rid.namespace,
            r.name == rid.name,
    {
        ResourceMatch {
            group: if rid.group.as_str().is_empty() {
                None
            } else {
                Some(rid.group.clone())
            },
            kind: rid.kind.clone(),
            namespace: copy_opt(&rid.namespace),
            name: rid.name.clone(),
        }
    }

    /// Whether `rid` is the resource that the match speaks of.
    pub fn matches(&self, rid: &ResourceId) -> (r: bool)
        ensures
            r == is_match(*self, rid@),
    {
        let group_ok = match &self.group {
            Some(g) => rid.group == *g,
            None => rid.group.as_str().is_empty(),
        };
        group_ok && self.kind == rid.kind && same_opt(&self.namespace, &rid.namespace)
            && self.name == rid.name
    }

    /// Refuses empty and wildcard matches.
    pub fn validate(&self) -> (r: Result<(), String>)
        ensures
            match r {
                Ok(_) => match_fault(*self) is None,
                Err(e) => match_fault(*self) == Some(e@),
            },
    {
        if is_unspecific(self.kind.as_str()) {
            return Err("invalid kind: ".to_owned().concat(quoted(self.kind.as_str()).as_str()));
        }
        if is_unspecific(self.name.as_str()) {
            return Err("invalid name: ".to_owned().concat(quoted(self.name.as_str()).as_str()));
        }
        match &self.group {
            Some(g) => {
                if same(g.as_str(), "*") {
                    return Err("wildcard group not allowed".to_owned());
                }
            },
            None => {},
        }
        Ok(())
    }
}

/// The match made from a resource speaks of exactly the resources that agree
/// with it in group, kind, namespace and name.
pub proof fn law_match_of_resource(m: ResourceMatch, rid: ResourceId, other: ResourceId)
    requires
        m.group == if rid.group@.len() == 0 {
            None
        } else {
            Some(rid.group)
        },
        m.kind == rid.kind,
        m.namespace == rid.namespace,
        m.name == rid.name,
    ensures
        is_match(m, rid@),
        is_match(m, other@) == crate::resource::same_slot(rid@, other@),
{
    if rid.group@.len() == 0 && other.group@.len() == 0 {
        assert(rid.group@ =~= other.group@);
    }
}

#[derive(Debug, Clone, Copy, PartialEq, Eq, Structural)]
pub enum SavedAction {
    Delete,
    Keep,
}

#[derive(Debug, Clone, Copy, PartialEq, Eq, Structural)]
pub enum ApprovalKind {
    Explicit,
    ExplicitUnattributed,
}

/// The grounds of a saved decision.
#[derive(Debug, Clone)]
pub struct DecisionBasis {
    pub provenance: Option<String>,
    pub review_category: Option<String>,
    pub discovery_source: Option<String>,
    pub decisive_evidence: Vec<SavedEvidenceSignature>,
}

#[derive(Debug, Clone)]
pub enum SavedEvidenceSignature {
    OwnerReference { group: String, kind: String, namespace: Option<String>, name: String },
    Label { key: String, value: String },
    ManagedFieldManager { manager: String },
    ApiOwner { api_owner_key: String },
    ServiceAccount { namespace: String, name: String },
}

/// What is known of a resource that is up for review.
#[derive(Debug)]
pub struct ReviewMetadata {
    pub category: Option<ReviewCategorySer>,
    pub approval_class: Option<DeleteApprovalClassSer>,
    pub provenance: Option<ProvenanceSer>,
    pub discovery_source: Option<DiscoverySourceSer>,
    pub decisive_label_pairs: Vec<(String, String)>,
}

/// The contents of a [`ReviewMetadata`].
#[verifier::ext_equal]
pub struct ReviewMetadataView {
    pub category: Option<ReviewCategorySer>,
    pub approval_class: Option<DeleteApprovalClassSer>,
    pub provenance: Option<ProvenanceSer>,
    pub discovery_source: Option<DiscoverySourceSer>,
    pub decisive_label_pairs: Seq<(String, String)>,
}

impl View for ReviewMetadata {
    type V = ReviewMetadataView;

    open spec fn view(&self) -> ReviewMetadataView {
        ReviewMetadataView {
            category: self.category,
            approval_class: self.approval_class,
            provenance: self.provenance,
            discovery_source: self.discovery_source,
            decisive_label_pairs: self.decisive_label_pairs@,
        }
    }
}

/// A copy of a list of pairs of strings.
pub fn copy_pairs(pairs: &Vec<(String, String)>) -> (r: Vec<(String, String)>)
    ensures
        r@ == pairs@,
{
    let mut out: Vec<(String, String)> = Vec::new();
    for i in 0..pairs.len()
        invariant
            out@ == pairs@.take(i as int),
    {
        out.push((pairs[i].0.clone(), pairs[i].1.clone()));
        assert(pairs@.take(i + 1) =~= pairs@.take(i as int).push(pairs@[i as int]));
    }
    assert(pairs@.take(pairs.len() as int) =~= pairs@);
    out
}

impl Clone for ReviewMetadata {
    fn clone(&self) -> (r: Self)
        ensures
            r@ == self@,
    {
        ReviewMetadata {
            category: self.category,
            approval_class: self.approval_class,
            provenance: self.provenance,
            discovery_source: self.discovery_source,
            decisive_label_pairs: copy_pairs(&self.decisive_label_pairs),
        }
    }
}

/// The contents of an optional [`ReviewMetadata`].
pub open spec fn metadata_view(m: Option<ReviewMetadata>) -> Option<ReviewMetadataView> {
    match m {
        Some(m) => Some(m@),
        None => None,
    }
}

/// A copy of an optional [`ReviewMetadata`].
pub fn copy_metadata(m: &Option<ReviewMetadata>) -> (r: Option<ReviewMetadata>)
    ensures
        metadata_view(r) == metadata_view(*m),
{
    match m {
        Some(m) => Some(m.clone()),
        None => None,
    }
}

#[derive(Debug, Clone, Copy, PartialEq, Eq, Structural)]
pub enum ReviewCategorySer {
    OperandRoot,
    OperandDescendant,
    OperandIndependent,
    Ancillary,
}

#[derive(Debug, Clone, Copy, PartialEq, Eq, Structural)]
pub enum DeleteApprovalClassSer {
    Standard,
    ExplicitOnly,
}

#[derive(Debug, Clone, Copy, PartialEq, Eq, Structural)]
pub enum ProvenanceSer {
    Managed,
    LikelyManaged,
    Unknown,
}

#[derive(Debug, Clone, Copy, PartialEq, Eq, Structural)]
pub enum DiscoverySourceSer {
    Direct,
    RelatedLinked,
    RelatedLabelOnly,
}

pub const EXECUTION_PLAN_SCHEMA_VERSION: u32 = 1;

/// A plan bound to one cluster and to the UIDs seen there.
#[derive(Debug, Clone)]
pub struct ExecutionPlan {
    pub schema_version: u32,
    pub cluster_identity: ClusterIdentity,
    pub created_at: String,
    pub targets: Vec<SavedOperatorTarget>,
    pub prune_crds: bool,
    pub approve_scopes: Vec<ApprovalScopeValue>,
    pub approve_resources: Vec<String>,
    pub keep_resources: Vec<String>,
    pub phases: Vec<ExecutionPhase>,
}

#[derive(Debug, Clone, Copy, PartialEq, Eq, Structural)]
pub enum ApprovalScopeValue {
    Root,
    Independent,
    LabelOnly,
    OperatorGroup,
}

/// The command-line word of an approval scope.
pub open spec fn scope_word(s: ApprovalScopeValue) -> Seq<char> {
    match s {
        ApprovalScopeValue::Root => "root"@,
        ApprovalScopeValue::Independent => "independent"@,
        ApprovalScopeValue::LabelOnly => "label-only"@,
        ApprovalScopeValue::OperatorGroup => "operator-group"@,
    }
}

impl ApprovalScopeValue {
    /// The command-line word of the scope.
    pub fn cli_arg(&self) -> (r: &'static str)
        ensures
            r@ == scope_word(*self),
    {
        match self {
            ApprovalScopeValue::Root => "root",
            ApprovalScopeValue::Independent => "independent",
            ApprovalScopeValue::LabelOnly => "label-only",
            ApprovalScopeValue::OperatorGroup => "operator-group",
        }
    }
}

#[derive(Debug, Clone, Copy, PartialEq, Eq, Structural)]
pub enum ExecutionAction {
    Delete,
    Keep,
    Expect,
    Review,
    Wait,
}

/// The word of an action in plans and messages.
pub open spec fn action_word(a: ExecutionAction) -> Seq<char> {
    match a {
        ExecutionAction::Delete => "DELETE"@,
        ExecutionAction::Keep => "KEEP"@,
        ExecutionAction::Expect => "EXPECT"@,
        ExecutionAction::Review => "REVIEW"@,
        ExecutionAction::Wait => "WAIT"@,
    }
}

impl ExecutionAction {
    /// The word of the action in plans and messages.
    pub fn word(&self) -> (r: &'static str)
        ensures
            r@ == action_word(*self),
    {
        match self {
            ExecutionAction::Delete => "DELETE",
            ExecutionAction::Keep => "KEEP",
            ExecutionAction::Expect => "EXPECT",
            ExecutionAction::Review => "REVIEW",
            ExecutionAction::Wait => "WAIT",
        }
    }
}

#[derive(Debug, Clone)]
pub struct ExecutionPhase {
    pub phase: u32,
    pub name: String,
    pub resources: Vec<ExecutionResource>,
}

#[derive(Debug, Clone)]
pub struct ExecutionResource {
    pub group: String,
    pub kind: String,
    pub namespace: Option<String>,
    pub name: String,
    pub uid: Option<String>,
    pub action: ExecutionAction,
}

/// Whether a live ClusterServiceVersion is the one that a plan was saved for.
pub fn csv_name_matches(saved_pattern: &str, live_csv_name: &str) -> (r: bool)
    ensures
        r == (saved_pattern@ == live_csv_name@),
{
    same(saved_pattern, live_csv_name)
}

/// Why a loaded execution plan cannot be used.
#[derive(Debug, PartialEq, Eq)]
pub enum PlanFault {
    /// The plan has a schema version that is not supported.
    SchemaVersion { found: u32 },
    /// A target has an empty package name.
    EmptyPackageName { csv_name_pattern: String },
    /// A scope word stands among the approved resources.
    ScopeAmongApproved { word: String },
    /// A scope word stands among the kept resources.
    ScopeAmongKept { word: String },
    /// A resource that is to go has no UID.
    UnboundResource { kind: String, name: String, phase: u32, action: ExecutionAction },
}

/// A word that approves or keeps a whole scope.
pub open spec fn is_scope_token(s: Seq<char>) -> bool {
    s == "root"@ || s == "independent"@ || s == "label-only"@ || s == "operator-group"@ || s
        == "all"@
}

/// A resource that is to go, but carries no UID that it could be told by.
pub open spec fn is_unbound(r: ExecutionResource) -> bool {
    &&& r.action is Delete || r.action is Expect || r.action is Wait
    &&& r.uid is None || r.uid->0@.len() == 0
}

/// The first unbound resource of a phase, from position `i` on.
pub open spec fn unbound_in_phase(resources: Seq<ExecutionResource>, i: nat) -> Option<
    ExecutionResource,
>
    decreases resources.len() - i,
{
    if i >= resources.len() {
        None
    } else if is_unbound(resources[i as int]) {
        Some(resources[i as int])
    } else {
        unbound_in_phase(resources, i + 1)
    }
}

/// The fault that `e` reports is the one that stops the use of `plan`.
pub open spec fn is_first_fault(plan: ExecutionPlan, e: PlanFault) -> bool {
    let schema_ok = plan.schema_version == EXECUTION_PLAN_SCHEMA_VERSION;
    let targets_ok = forall|i: int|
        0 <= i < plan.targets@.len() ==> !blank(#[trigger] plan.targets@[i].package_name@);
    let approved_ok = forall|i: int|
        0 <= i < plan.approve_resources@.len() ==> !is_scope_token(
            #[trigger] plan.approve_resources@[i]@,
        );
    let kept_ok = forall|i: int|
        0 <= i < plan.keep_resources@.len() ==> !is_scope_token(
            #[trigger] plan.keep_resources@[i]@,
        );
    match e {
        PlanFault::SchemaVersion { found } => !schema_ok && found == plan.schema_version,
        PlanFault::EmptyPackageName { csv_name_pattern } => {
            &&& schema_ok
            &&& exists|i: int|
                {
                    &&& 0 <= i < plan.targets@.len()
                    &&& blank((#[trigger] plan.targets@[i]).package_name@)
                    &&& forall|j: int|
                        0 <= j < i ==> !blank(#[trigger] plan.targets@[j].package_name@)
                    &&& csv_name_pattern@ == plan.targets@[i].csv_name_pattern@
                }
        },
        PlanFault::ScopeAmongApproved { word } => {
            &&& schema_ok && targets_ok
            &&& first_scope_token(plan.approve_resources@, word@)
        },
        PlanFault::ScopeAmongKept { word } => {
            &&& schema_ok && targets_ok && approved_ok
            &&& first_scope_token(plan.keep_resources@, word@)
        },
        PlanFault::UnboundResource { kind, name, phase, action } => {
            &&& schema_ok && targets_ok && approved_ok && kept_ok
            &&& exists|i: int|
                {
                    &&& 0 <= i < plan.phases@.len()
                    &&& forall|j: int|
                        0 <= j < i ==> unbound_in_phase(
                            (#[trigger] plan.phases@[j]).resources@,
                            0,
                        ) is None
                    &&& (#[trigger] plan.phases@[i]).phase == phase
                    &&& unbound_in_phase(plan.phases@[i].resources@, 0) matches Some(r)
                    &&& r.kind@ == kind@
                    &&& r.name@ == name@
                    &&& r.action == action
                }
        },
    }
}

/// `word` is the first scope word in `specs`.
pub open spec fn first_scope_token(specs: Seq<String>, word: Seq<char>) -> bool {
    exists|i: int|
        {
            &&& 0 <= i < specs.len()
            &&& is_scope_token((#[trigger] specs[i])@)
            &&& forall|j: int| 0 <= j < i ==> !is_scope_token(#[trigger] specs[j]@)
            &&& word == specs[i]@
        }
}

/// A plan that may be used: the schema is supported, every target names its
/// package, no scope word stands among the resources, and whatever is to go
/// carries a UID.
pub open spec fn is_usable(plan: ExecutionPlan) -> bool {
    &&& plan.schema_version == EXECUTION_PLAN_SCHEMA_VERSION
    &&& forall|i: int|
        0 <= i < plan.targets@.len() ==> !blank(#[trigger] plan.targets@[i].package_name@)
    &&& forall|i: int|
        0 <= i < plan.approve_resources@.len() ==> !is_scope_token(
            #[trigger] plan.approve_resources@[i]@,
        )
    &&& forall|i: int|
        0 <= i < plan.keep_resources@.len() ==> !is_scope_token(
            #[trigger] plan.keep_resources@[i]@,
        )
    &&& forall|i: int, j: int|
        0 <= i < plan.phases@.len() && 0 <= j < plan.phases@[i].resources@.len() ==> !is_unbound(
            #[trigger] plan.phases@[i].resources@[j],
        )
}

/// Whether a text is a scope word.
fn scope_token(s: &str) -> (r: bool)
    ensures
        r == is_scope_token(s@),
{
    same(s, "root") || same(s, "independent") || same(s, "label-only") || same(s, "operator-group")
        || same(s, "all")
}

/// The first scope word in `specs`.
fn find_scope_token(specs: &Vec<String>) -> (r: Option<String>)
    ensures
        match r {
            Some(w) => first_scope_token(specs@, w@),
            None => forall|i: int| 0 <= i < specs@.len() ==> !is_scope_token(#[trigger] specs@[i]@),
        },
{
    for i in 0..specs.len()
        invariant
            forall|j: int| 0 <= j < i ==> !is_scope_token(#[trigger] specs@[j]@),
    {
        if scope_token(specs[i].as_str()) {
            assert(is_scope_token(specs@[i as int]@));
            return Some(specs[i].clone());
        }
    }
    None
}

/// The first unbound resource of a phase.
fn find_unbound(resources: &Vec<ExecutionResource>) -> (r: Option<&ExecutionResource>)
    ensures
        match r {
            Some(x) => unbound_in_phase(resources@, 0) == Some(*x) && is_unbound(*x),
            None => unbound_in_phase(resources@, 0) is None && forall|i: int|
                0 <= i < resources@.len() ==> !is_unbound(#[trigger] resources@[i]),
        },
{
    for i in 0..resources.len()
        invariant
            unbound_in_phase(resources@, 0) == unbound_in_phase(resources@, i as nat),
            forall|j: int| 0 <= j < i ==> !is_unbound(#[trigger] resources@[j]),
    {
        let res = &resources[i];
        let going = match res.action {
            ExecutionAction::Delete | ExecutionAction::Expect | ExecutionAction::Wait => true,
            _ => false,
        };
        let bound = match &res.uid {
            Some(uid) => !uid.as_str().is_empty(),
            None => false,
        };
        if going && !bound {
            return Some(res);
        }
    }
    None
}

/// Checks a plan that was read back: the first fault found, if any.
pub fn check_loaded_plan(plan: &ExecutionPlan) -> (r: Result<(), PlanFault>)
    ensures
        r is Ok <==> is_usable(*plan),
        r matches Err(e) ==> is_first_fault(*plan, e),
{
    if plan.schema_version != EXECUTION_PLAN_SCHEMA_VERSION {
        return Err(PlanFault::SchemaVersion { found: plan.schema_version });
    }
    for i in 0..plan.targets.len()
        invariant
            plan.schema_version == EXECUTION_PLAN_SCHEMA_VERSION,
            forall|j: int| 0 <= j < i ==> !blank(#[trigger] plan.targets@[j].package_name@),
    {
        if is_blank(plan.targets[i].package_name.as_str()) {
            assert(blank(plan.targets@[i as int].package_name@));
            return Err(
                PlanFault::EmptyPackageName {
                    csv_name_pattern: plan.targets[i].csv_name_pattern.clone(),
                },
            );
        }
    }
    match find_scope_token(&plan.approve_resources) {
        Some(word) => {
            return Err(PlanFault::ScopeAmongApproved { word });
        },
        None => {},
    }
    match find_scope_token(&plan.keep_resources) {
        Some(word) => {
            return Err(PlanFault::ScopeAmongKept { word });
        },
        None => {},
    }
    for i in 0..plan.phases.len()
        invariant
            plan.schema_version == EXECUTION_PLAN_SCHEMA_VERSION,
            forall|j: int|
                0 <= j < plan.targets@.len() ==> !blank(#[trigger] plan.targets@[j].package_name@),
            forall|j: int|
                0 <= j < plan.approve_resources@.len() ==> !is_scope_token(
                    #[trigger] plan.approve_resources@[j]@,
                ),
            forall|j: int|
                0 <= j < plan.keep_resources@.len() ==> !is_scope_token(
                    #[trigger] plan.keep_resources@[j]@,
                ),
            forall|j: int|
                0 <= j < i ==> unbound_in_phase((#[trigger] plan.phases@[j]).resources@, 0) is None,
            forall|j: int, k: int|
                0 <= j < i && 0 <= k < plan.phases@[j].resources@.len() ==> !is_unbound(
                    #[trigger] plan.phases@[j].resources@[k],
                ),
    {
        match find_unbound(&plan.phases[i].resources) {
            Some(res) => {
                proof {
                    lemma_unbound_index(plan.phases@[i as int].resources@, 0);
                }
                return Err(
                    PlanFault::UnboundResource {
                        kind: res.kind.clone(),
                        name: res.name.clone(),
                        phase: plan.phases[i].phase,
                        action: res.action,
                    },
                );
            },
            None => {},
        }
    }
    Ok(())
}

/// What [`unbound_in_phase`] finds stands in the phase.
proof fn lemma_unbound_index(resources: Seq<ExecutionResource>, i: nat)
    ensures
        unbound_in_phase(resources, i) is Some ==> exists|k: int|
            i <= k < resources.len() && is_unbound(#[trigger] resources[k]),
    decreases resources.len() - i,
{
    if i < resources.len() && !is_unbound(resources[i as int]) {
        lemma_unbound_index(resources, i + 1);
    }
}

/// The message for a fault.
pub open spec fn fault_text(e: PlanFault) -> Seq<char> {
    match e {
        PlanFault::SchemaVersion { found } => "Execution plan schema version "@ + decimal(
            found as nat,
        ) + " is not supported (expected "@ + decimal(EXECUTION_PLAN_SCHEMA_VERSION as nat) + ")"@,
        PlanFault::EmptyPackageName { csv_name_pattern } => {
            "Execution plan target has empty package_name (csv: "@ + csv_name_pattern@
                + "). Plan is invalid."@
        },
        PlanFault::ScopeAmongApproved { word } => "approve_resources contains scope token '"@
            + word@ + "' — use approve_scopes instead"@,
        PlanFault::ScopeAmongKept { word } => "keep_resources contains scope token '"@ + word@
            + "' — this is not valid"@,
        PlanFault::UnboundResource { kind, name, phase, action } => "Resource "@ + kind@ + "/"@
            + name@ + " in phase "@ + decimal(phase as nat) + " has action "@ + action_word(action)
            + " but no UID — plan may be tampered"@,
    }
}

impl PlanFault {
    /// The message for the fault.
    pub fn message(&self) -> (r: String)
        ensures
            r@ == fault_text(*self),
    {
        match self {
            PlanFault::SchemaVersion {
                found,
            } => "Execution plan schema version ".to_owned().concat(
                u32_to_decimal(*found).as_str(),
            ).concat(" is not supported (expected ").concat(
                u32_to_decimal(EXECUTION_PLAN_SCHEMA_VERSION).as_str(),
            ).concat(")"),
            PlanFault::EmptyPackageName {
                csv_name_pattern,
            } => "Execution plan target has empty package_name (csv: ".to_owned().concat(
                csv_name_pattern.as_str(),
            ).concat("). Plan is invalid."),
            PlanFault::ScopeAmongApproved {
                word,
            } => "approve_resources contains scope token '".to_owned().concat(
                word.as_str(),
            ).concat("' — use approve_scopes instead"),
            PlanFault::ScopeAmongKept {
                word,
            } => "keep_resources contains scope token '".to_owned().concat(word.as_str()).concat(
                "' — this is not valid",
            ),
            PlanFault::UnboundResource { kind, name, phase, action } => "Resource ".to_owned().concat(
                kind.as_str(),
            ).concat("/").concat(name.as_str()).concat(" in phase ").concat(
                u32_to_decimal(*phase).as_str(),
            ).concat(" has action ").concat(action.word()).concat(
                " but no UID — plan may be tampered",
            ),
        }
    }
}

/// A resource that a plan leaves in place, and why.
#[derive(Debug, Clone)]
pub struct PlannedPreserved {
    pub resource: ResourceId,
    pub reason: String,
    pub metadata: Option<ReviewMetadata>,
}

/// The five words that approve or keep a whole scope, and no others.
pub proof fn law_scope_words(s: Seq<char>)
    ensures
        is_scope_token("root"@),
        is_scope_token("independent"@),
        is_scope_token("label-only"@),
        is_scope_token("operator-group"@),
        is_scope_token("all"@),
        is_scope_token(s) ==> s == "root"@ || s == "independent"@ || s == "label-only"@ || s
            == "operator-group"@ || s == "all"@,
        forall|v: ApprovalScopeValue| is_scope_token(#[trigger] scope_word(v)),
{
}

/// A loaded plan may be used exactly where its schema version is the supported one, no
/// target has a blank package name, neither the approved nor the kept
/// resources hold one of the words root, independent, label-only, operator-group and
/// all, and everything that is to be deleted, expected to go or waited for carries a
/// UID that is not empty.
pub proof fn law_usable_plan(plan: ExecutionPlan)
    ensures
        is_usable(plan) <==> {
            &&& plan.schema_version == 1
            &&& forall|i: int|
                0 <= i < plan.targets@.len() ==> !blank(#[trigger] plan.targets@[i].package_name@)
            &&& forall|i: int|
                0 <= i < plan.approve_resources@.len() ==> {
                    let w = #[trigger] plan.approve_resources@[i]@;
                    w != "root"@ && w != "independent"@ && w != "label-only"@ && w
                        != "operator-group"@ && w != "all"@
                }
            &&& forall|i: int|
                0 <= i < plan.keep_resources@.len() ==> {
                    let w = #[trigger] plan.keep_resources@[i]@;
                    w != "root"@ && w != "independent"@ && w != "label-only"@ && w
                        != "operator-group"@ && w != "all"@
                }
            &&& forall|i: int, j: int|
                0 <= i < plan.phases@.len() && 0 <= j < plan.phases@[i].resources@.len() ==> {
                    let r = #[trigger] plan.phases@[i].resources@[j];
                    r.action is Keep || r.action is Review || (r.uid is Some && r.uid->0@.len() > 0)
                }
        },
{
    if is_usable(plan) {
        assert forall|i: int, j: int|
            0 <= i < plan.phases@.len() && 0 <= j < plan.phases@[i].resources@.len() implies {
            let r = #[trigger] plan.phases@[i].resources@[j];
            r.action is Keep || r.action is Review || (r.uid is Some && r.uid->0@.len() > 0)
        } by {
            assert(!is_unbound(plan.phases@[i].resources@[j]));
        }
    }
}

/// A match speaks of a resource exactly where group, kind, namespace and name agree;
/// a match without a group speaks of the core group, whose name is empty. One that
/// speaks of any kind, any name or any group is refused.
pub proof fn law_what_a_match_speaks_of(m: ResourceMatch, id: ResourceIdView)
    ensures
        is_match(m, id) <==> {
            &&& (m.group is Some ==> m.group->0@ == id.group)
            &&& (m.group is None ==> id.group.len() == 0)
            &&& m.kind@ == id.kind
            &&& opt_text(m.namespace) == id.namespace
            &&& m.name@ == id.name
        },
        match_fault(m) is None <==> {
            &&& m.kind@.len() > 0 && m.kind@ != "*"@
            &&& m.name@.len() > 0 && m.name@ != "*"@
            &&& !(m.group is Some && m.group->0@ == "*"@)
        },
{
}

/// Where several faults stand against a plan, the one that is reported is the first of
/// these: the schema version, a target without a package, a scope word among the
/// approved resources, one among the kept ones, a resource without a UID.
pub proof fn law_first_fault(plan: ExecutionPlan, e: PlanFault)
    requires
        is_first_fault(plan, e),
    ensures
        !is_usable(plan),
        plan.schema_version != 1 <==> e is SchemaVersion,
        plan.schema_version == 1 && (exists|i: int|
            0 <= i < plan.targets@.len() && blank((#[trigger] plan.targets@[i]).package_name@))
            ==> e is EmptyPackageName,
        e is ScopeAmongApproved || e is ScopeAmongKept || e is UnboundResource ==> forall|i: int|
            0 <= i < plan.targets@.len() ==> !blank((#[trigger] plan.targets@[i]).package_name@),
        e is ScopeAmongKept || e is UnboundResource ==> forall|i: int|
            0 <= i < plan.approve_resources@.len() ==> !is_scope_token(
                (#[trigger] plan.approve_resources@[i])@,
            ),
        e is UnboundResource ==> forall|i: int|
            0 <= i < plan.keep_resources@.len() ==> !is_scope_token(
                (#[trigger] plan.keep_resources@[i])@,
            ),
{
    if plan.schema_version == 1 && (exists|i: int|
        0 <= i < plan.targets@.len() && blank((#[trigger] plan.targets@[i]).package_name@)) {
        let i = choose|i: int|
            0 <= i < plan.targets@.len() && blank((#[trigger] plan.targets@[i]).package_name@);
        assert(blank(plan.targets@[i].package_name@));
    }
    if e is ScopeAmongApproved || e is ScopeAmongKept || e is UnboundResource {
        assert forall|i: int| 0 <= i < plan.targets@.len() implies !blank(
            (#[trigger] plan.targets@[i]).package_name@,
        ) by {
            assert(!blank(plan.targets@[i].package_name@));
        }
    }
    match e {
        PlanFault::UnboundResource { .. } => {
            let i = choose|i: int|
                0 <= i < plan.phases@.len() && unbound_in_phase(
                    (#[trigger] plan.phases@[i]).resources@,
                    0,
                ) is Some;
            lemma_unbound_is_there(plan.phases@[i].resources@, 0);
            let j = choose|j: int|
                0 <= j < plan.phases@[i].resources@.len() && is_unbound(
                    #[trigger] plan.phases@[i].resources@[j],
                );
            assert(is_unbound(plan.phases@[i].resources@[j]));
        },
        _ => {},
    }
}

proof fn lemma_unbound_is_there(resources: Seq<ExecutionResource>, i: nat)
    requires
        unbound_in_phase(resources, i) is Some,
    ensures
        exists|j: int| i <= j < resources.len() && is_unbound(#[trigger] resources[j]),
    decreases resources.len() - i,
{
    if i < resources.len() {
        if is_unbound(resources[i as int]) {
            assert(is_unbound(resources[i as int]));
        } else {
            lemma_unbound_is_there(resources, i + 1);
        }
    }
}

/// What is said of a plan that cannot be used: each fault names what is at fault.
pub proof fn law_faults_in_words(
    found: u32,
    phase: u32,
    s: String,
    t: String,
    action: ExecutionAction,
)
    ensures
        fault_text(PlanFault::SchemaVersion { found }) == "Execution plan schema version "@
            + decimal(found as nat) + " is not supported (expected "@ + decimal(1) + ")"@,
        fault_text(PlanFault::EmptyPackageName { csv_name_pattern: s })
            == "Execution plan target has empty package_name (csv: "@ + s@
            + "). Plan is invalid."@,
        fault_text(PlanFault::ScopeAmongApproved { word: s })
            == "approve_resources contains scope token '"@ + s@
            + "' — use approve_scopes instead"@,
        fault_text(PlanFault::ScopeAmongKept { word: s })
            == "keep_resources contains scope token '"@ + s@ + "' — this is not valid"@,
        fault_text(PlanFault::UnboundResource { kind: s, name: t, phase, action })
            == "Resource "@ + s@ + "/"@ + t@ + " in phase "@ + decimal(phase as nat)
            + " has action "@ + action_word(action) + " but no UID — plan may be tampered"@,
        action_word(ExecutionAction::Delete) == "DELETE"@,
        action_word(ExecutionAction::Keep) == "KEEP"@,
        action_word(ExecutionAction::Expect) == "EXPECT"@,
        action_word(ExecutionAction::Review) == "REVIEW"@,
        action_word(ExecutionAction::Wait) == "WAIT"@,
{
}

} // verus!
