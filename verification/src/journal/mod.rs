//! The run journal: what a teardown has done, written down before and after
//! every change to the cluster.

use vstd::prelude::*;
use vstd::string::*;

use crate::audit::ResidualAudit;
use crate::collections::KeySet;
use crate::json::{
    field, field_of, has_many_members, is_parted, json_shape, read_json, shape_view, JsonShape,
    JsonShapeView,
};
use crate::plan::{
    copy_metadata, metadata_view, ClusterIdentity, OperatorIdentitySnapshot, PlannedPreserved,
    ReviewMetadata, ReviewMetadataView,
};
use crate::planner::TeardownPlan;
use crate::resource::{ResourceId, ResourceIdView};
use crate::text::{
    begins_with, compare_text, compare_texts, decimal, hexadecimal, same, starts_with, strip_all,
    to_hexadecimal, trim, trim_prefixes, trimmed, u32_to_decimal,
};

pub mod context;
pub mod entries;
pub mod records;

verus! {

pub const RUN_JOURNAL_SCHEMA_VERSION: u32 = 9;

/// The record of one run against one cluster.
#[derive(Debug)]
pub struct RunJournal {
    pub run_id: String,
    pub schema_version: u32,
    pub oc_deps_version: String,
    pub journal_revision: u64,
    pub cluster_identity: ClusterIdentity,
    pub operator: OperatorIdentitySnapshot,
    pub created_at: String,
    pub updated_at: String,
    pub state: RunState,
    pub residual_status: ResidualStatus,
    pub audit_revision: u64,
    pub audit_context: AuditContext,
    /// The plan as it was before the first change to the cluster.
    pub plan_snapshot: TeardownPlan,
    pub execution: ExecutionRecord,
    pub last_residual_audit: Option<ResidualAudit>,
    pub cleanup_decisions: Vec<CleanupDecision>,
    /// Whether finalizers may be stripped from objects that do not go.
    pub finalizer_recovery_approved: bool,
    pub finalizer_recoveries: Vec<FinalizerRecoveryRecord>,
}

/// A finalizer recovery, with what the object looked like when it was approved.
#[derive(Debug)]
pub struct FinalizerRecoveryRecord {
    pub resource: ResourceId,
    pub live_uid: String,
    pub finalizer_values: Vec<String>,
    pub owner_references_snapshot: Vec<OwnerRefSnapshot>,
    pub root_uid: String,
    pub root_kind: String,
    pub result: FinalizerRecoveryResult,
}

#[derive(Debug, PartialEq)]
pub struct OwnerRefSnapshot {
    pub api_version: String,
    pub kind: String,
    pub name: String,
    pub uid: String,
    pub controller: Option<bool>,
}

#[derive(Debug, Clone)]
pub enum FinalizerRecoveryResult {
    /// The patch was about to be sent. What came of it is not known.
    PatchRequested,
    Stripped,
    Gone,
    Failed(String),
}

/// What came of a residual cleanup decision.
#[derive(Debug, Clone, PartialEq, Eq)]
pub enum CleanupResult {
    DeleteRequested,
    Gone,
    AlreadyGone,
    Failed(String),
    /// Nobody knows yet; the next run looks again.
    UnknownOutcome(String),
}

/// The contents of a [`CleanupResult`].
#[verifier::ext_equal]
pub enum CleanupResultView {
    DeleteRequested,
    Gone,
    AlreadyGone,
    Failed(Seq<char>),
    UnknownOutcome(Seq<char>),
}

impl View for CleanupResult {
    type V = CleanupResultView;

    open spec fn view(&self) -> CleanupResultView {
        match self {
            CleanupResult::DeleteRequested => CleanupResultView::DeleteRequested,
            CleanupResult::Gone => CleanupResultView::Gone,
            CleanupResult::AlreadyGone => CleanupResultView::AlreadyGone,
            CleanupResult::Failed(s) => CleanupResultView::Failed(s@),
            CleanupResult::UnknownOutcome(s) => CleanupResultView::UnknownOutcome(s@),
        }
    }
}

/// Why a cleanup result cannot be read.
#[derive(Debug, PartialEq, Eq)]
pub enum CleanupResultFault {
    /// The text is not JSON.
    NotJson,
    /// The value is neither a string nor an object with exactly one key.
    WrongShape,
    /// The word or key is not known.
    UnknownVariant(String),
    /// The value under a known key is not the one that the key asks for.
    WrongValue,
}

/// The contents of a [`CleanupResultFault`].
pub enum CleanupResultFaultView {
    NotJson,
    WrongShape,
    UnknownVariant(Seq<char>),
    WrongValue,
}

impl View for CleanupResultFault {
    type V = CleanupResultFaultView;

    open spec fn view(&self) -> CleanupResultFaultView {
        match self {
            CleanupResultFault::NotJson => CleanupResultFaultView::NotJson,
            CleanupResultFault::WrongShape => CleanupResultFaultView::WrongShape,
            CleanupResultFault::UnknownVariant(s) => CleanupResultFaultView::UnknownVariant(s@),
            CleanupResultFault::WrongValue => CleanupResultFaultView::WrongValue,
        }
    }
}

/// A cleanup result that was read, or why it was not.
pub open spec fn reading(r: Result<CleanupResult, CleanupResultFault>) -> Result<
    CleanupResultView,
    CleanupResultFaultView,
> {
    match r {
        Ok(c) => Ok(c@),
        Err(e) => Err(e@),
    }
}

/// The cleanup result that a plain word stands for. Words of early journals are
/// read too.
pub open spec fn word_meaning(w: Seq<char>) -> Result<CleanupResultView, CleanupResultFaultView> {
    if w == "DeleteRequested"@ || w == "deleted"@ {
        Ok(CleanupResultView::DeleteRequested)
    } else if w == "Gone"@ || w == "gone"@ {
        Ok(CleanupResultView::Gone)
    } else if w == "AlreadyGone"@ || w == "already_gone"@ || w == "already gone"@ {
        Ok(CleanupResultView::AlreadyGone)
    } else if begins_with(w, "failed:"@) {
        Ok(CleanupResultView::Failed(trimmed(strip_all(w, "failed:"@))))
    } else {
        Err(CleanupResultFaultView::UnknownVariant(w))
    }
}

/// The cleanup result that a key and the JSON value under it stand for.
pub open spec fn entry_meaning(key: Seq<char>, value: Option<JsonShapeView>) -> Result<
    CleanupResultView,
    CleanupResultFaultView,
> {
    let unit = value == Some(JsonShapeView::Null);
    if key == "DeleteRequested"@ || key == "Gone"@ || key == "AlreadyGone"@ {
        if !unit {
            Err(CleanupResultFaultView::WrongValue)
        } else if key == "DeleteRequested"@ {
            Ok(CleanupResultView::DeleteRequested)
        } else if key == "Gone"@ {
            Ok(CleanupResultView::Gone)
        } else {
            Ok(CleanupResultView::AlreadyGone)
        }
    } else if key == "Failed"@ || key == "UnknownOutcome"@ {
        match value {
            Some(JsonShapeView::Text(reason)) => if key == "Failed"@ {
                Ok(CleanupResultView::Failed(reason))
            } else {
                Ok(CleanupResultView::UnknownOutcome(reason))
            },
            _ => Err(CleanupResultFaultView::WrongValue),
        }
    } else {
        Err(CleanupResultFaultView::UnknownVariant(key))
    }
}

/// The cleanup result that a JSON text stands for.
pub open spec fn text_meaning(text: Seq<char>) -> Result<
    CleanupResultView,
    CleanupResultFaultView,
> {
    match json_shape(text) {
        None => Err(CleanupResultFaultView::NotJson),
        Some(JsonShapeView::Text(w)) => word_meaning(w),
        Some(JsonShapeView::Object(m)) => if m.len() == 1 && !is_parted(text) {
            entry_meaning(m[0].0, json_shape(m[0].1))
        } else {
            Err(CleanupResultFaultView::WrongShape)
        },
        Some(_) => Err(CleanupResultFaultView::WrongShape),
    }
}

impl CleanupResult {
    /// The cleanup result that a plain word stands for.
    pub fn from_word(w: &str) -> (r: Result<CleanupResult, CleanupResultFault>)
        ensures
            reading(r) == word_meaning(w@),
    {
        if same(w, "DeleteRequested") || same(w, "deleted") {
            Ok(CleanupResult::DeleteRequested)
        } else if same(w, "Gone") || same(w, "gone") {
            Ok(CleanupResult::Gone)
        } else if same(w, "AlreadyGone") || same(w, "already_gone") || same(w, "already gone") {
            Ok(CleanupResult::AlreadyGone)
        } else if starts_with(w, "failed:") {
            Ok(CleanupResult::Failed(trim(trim_prefixes(w, "failed:").as_str())))
        } else {
            Err(CleanupResultFault::UnknownVariant(w.to_owned()))
        }
    }

    /// The cleanup result that a key and the JSON value under it stand for.
    pub fn from_entry(key: &str, value: &Option<JsonShape>) -> (r: Result<
        CleanupResult,
        CleanupResultFault,
    >)
        ensures
            reading(r) == entry_meaning(key@, shape_view(*value)),
    {
        let unit = match value {
            Some(JsonShape::Null) => true,
            _ => false,
        };
        let failed = same(key, "Failed");
        if same(key, "DeleteRequested") {
            if unit {
                Ok(CleanupResult::DeleteRequested)
            } else {
                Err(CleanupResultFault::WrongValue)
            }
        } else if same(key, "Gone") {
            if unit {
                Ok(CleanupResult::Gone)
            } else {
                Err(CleanupResultFault::WrongValue)
            }
        } else if same(key, "AlreadyGone") {
            if unit {
                Ok(CleanupResult::AlreadyGone)
            } else {
                Err(CleanupResultFault::WrongValue)
            }
        } else if failed || same(key, "UnknownOutcome") {
            match value {
                Some(JsonShape::Text(reason)) => if failed {
                    Ok(CleanupResult::Failed(reason.clone()))
                } else {
                    Ok(CleanupResult::UnknownOutcome(reason.clone()))
                },
                _ => Err(CleanupResultFault::WrongValue),
            }
        } else {
            Err(CleanupResultFault::UnknownVariant(key.to_owned()))
        }
    }

    /// The cleanup result that a JSON text stands for.
    pub fn from_json(text: &str) -> (r: Result<CleanupResult, CleanupResultFault>)
        ensures
            reading(r) == text_meaning(text@),
    {
        match read_json(text) {
            None => Err(CleanupResultFault::NotJson),
            Some(JsonShape::Text(w)) => CleanupResult::from_word(w.as_str()),
            Some(JsonShape::Object(m)) => {
                let ghost view = crate::audit::pair_texts(m@);
                assert(view.len() == m@.len());
                if m.len() == 1 && !has_many_members(text) {
                    assert(view[0] == (m@[0].0@, m@[0].1@));
                    CleanupResult::from_entry(m[0].0.as_str(), &read_json(m[0].1.as_str()))
                } else {
                    Err(CleanupResultFault::WrongShape)
                }
            },
            Some(_) => Err(CleanupResultFault::WrongShape),
        }
    }
}

/// A decision to delete one residual object, and what came of it.
#[derive(Debug)]
pub struct CleanupDecision {
    pub resource: ResourceId,
    pub bound_uid: Option<String>,
    pub action: String,
    pub result: Option<CleanupResult>,
    pub approved_spec_name: Option<String>,
}

impl CleanupDecision {
    /// The decision still needs something done: it was not carried out, or
    /// nobody knows whether the object is gone.
    pub open spec fn pending(&self) -> bool {
        match self.result {
            None => true,
            Some(c) => c is DeleteRequested || c is UnknownOutcome,
        }
    }

    /// The API server turned the DELETE down.
    pub open spec fn hard_failed(&self) -> bool {
        self.result matches Some(c) && c is Failed
    }

    /// The object is gone.
    pub open spec fn complete(&self) -> bool {
        self.result matches Some(c) && (c is Gone || c is AlreadyGone)
    }

    /// Whether the decision still needs something done.
    pub fn is_pending(&self) -> (r: bool)
        ensures
            r == self.pending(),
    {
        match &self.result {
            None => true,
            Some(CleanupResult::DeleteRequested) | Some(CleanupResult::UnknownOutcome(_)) => true,
            _ => false,
        }
    }

    /// Whether the API server turned the DELETE down.
    pub fn is_hard_failed(&self) -> (r: bool)
        ensures
            r == self.hard_failed(),
    {
        match &self.result {
            Some(CleanupResult::Failed(_)) => true,
            _ => false,
        }
    }

    /// Whether the DELETE was tried, and the object is not known to be gone.
    pub fn is_failed(&self) -> (r: bool)
        ensures
            r == (self.result is Some && !self.complete()),
    {
        match &self.result {
            Some(CleanupResult::DeleteRequested) => true,
            Some(CleanupResult::Failed(_)) => true,
            Some(CleanupResult::UnknownOutcome(_)) => true,
            _ => false,
        }
    }

    /// Whether the object is gone.
    pub fn is_complete(&self) -> (r: bool)
        ensures
            r == self.complete(),
    {
        match &self.result {
            Some(CleanupResult::Gone) | Some(CleanupResult::AlreadyGone) => true,
            _ => false,
        }
    }
}

/// Every decision is exactly one of pending, turned down and complete.
pub proof fn law_decision_is_one_of_three(d: CleanupDecision)
    ensures
        d.pending() || d.hard_failed() || d.complete(),
        !(d.pending() && d.hard_failed()),
        !(d.pending() && d.complete()),
        !(d.hard_failed() && d.complete()),
{
}

#[derive(Debug, Clone, Copy, PartialEq, Eq, Structural)]
pub enum RunState {
    Prepared,
    Applying,
    ApplyCompleted,
    AuditingResiduals,
    InteractiveCleanup,
    Paused,
    Finished,
    Failed,
}

/// The name of a run state.
pub open spec fn state_name(s: RunState) -> Seq<char> {
    match s {
        RunState::Prepared => "Prepared"@,
        RunState::Applying => "Applying"@,
        RunState::ApplyCompleted => "ApplyCompleted"@,
        RunState::AuditingResiduals => "AuditingResiduals"@,
        RunState::InteractiveCleanup => "InteractiveCleanup"@,
        RunState::Paused => "Paused"@,
        RunState::Finished => "Finished"@,
        RunState::Failed => "Failed"@,
    }
}

impl RunState {
    /// The name of the state.
    pub fn name(&self) -> (r: &'static str)
        ensures
            r@ == state_name(*self),
    {
        match self {
            RunState::Prepared => "Prepared",
            RunState::Applying => "Applying",
            RunState::ApplyCompleted => "ApplyCompleted",
            RunState::AuditingResiduals => "AuditingResiduals",
            RunState::InteractiveCleanup => "InteractiveCleanup",
            RunState::Paused => "Paused",
            RunState::Finished => "Finished",
            RunState::Failed => "Failed",
        }
    }
}

#[derive(Debug, Clone, Copy, PartialEq, Eq, Structural)]
pub enum ResidualStatus {
    NotAudited,
    ResidualsObserved { count: usize },
    NoneObservedInScope,
    AuditIncomplete,
    SupersededByNewGeneration,
}

/// What an audit needs to know of the operator and the plan.
#[derive(Debug)]
pub struct AuditContext {
    pub footprint_namespaces: KeySet<String>,
    pub csv_names: KeySet<String>,
    pub controller_deployment_names: KeySet<String>,
    pub service_account_names: KeySet<String>,
    pub known_labels: Vec<(String, String)>,
    pub managed_field_managers: KeySet<String>,
    /// The discovered resource types of the plan; `None` where they were not captured.
    pub known_gvrs: Option<Vec<KnownGvr>>,
    /// Owned CRDs that discovery did not know; `None` where this was not captured.
    pub unresolved_crds: Option<Vec<String>>,
    /// Group, version and kind of planned objects that discovery did not know;
    /// `None` where this was not captured.
    pub unresolved_gvks: Option<Vec<(String, String, String)>>,
    /// The discovered resource types of owned CRDs; `None` where they were not captured.
    pub owned_cr_gvrs: Option<Vec<KnownGvr>>,
    /// The ClusterServiceVersions before the run; `None` where they were not captured.
    pub csv_baseline: Option<Vec<CsvBaselineEntry>>,
}

impl Default for AuditContext {
    fn default() -> (r: Self)
        ensures
            r.footprint_namespaces.order().len() == 0,
            r.csv_names.order().len() == 0,
            r.controller_deployment_names.order().len() == 0,
            r.service_account_names.order().len() == 0,
            r.known_labels@.len() == 0,
            r.managed_field_managers.order().len() == 0,
            r.known_gvrs is None,
            r.unresolved_crds is None,
            r.unresolved_gvks is None,
            r.owned_cr_gvrs is None,
            r.csv_baseline is None,
    {
        AuditContext {
            footprint_namespaces: KeySet::new(),
            csv_names: KeySet::new(),
            controller_deployment_names: KeySet::new(),
            service_account_names: KeySet::new(),
            known_labels: Vec::new(),
            managed_field_managers: KeySet::new(),
            known_gvrs: None,
            unresolved_crds: None,
            unresolved_gvks: None,
            owned_cr_gvrs: None,
            csv_baseline: None,
        }
    }
}

#[derive(Debug, Clone)]
pub struct CsvBaselineEntry {
    pub name: String,
    pub uid: String,
}

/// A discovered resource type.
#[derive(Debug, PartialEq, Eq, Hash)]
pub struct KnownGvr {
    pub group: String,
    pub version: String,
    pub kind: String,
    pub plural: String,
    pub scope: GvrScope,
}

#[derive(Debug, Clone, Copy, PartialEq, Eq, Hash, Structural)]
pub enum GvrScope {
    Namespaced,
    Cluster,
}

/// The contents of a [`KnownGvr`].
#[verifier::ext_equal]
pub struct KnownGvrView {
    pub group: Seq<char>,
    pub version: Seq<char>,
    pub kind: Seq<char>,
    pub plural: Seq<char>,
    pub scope: GvrScope,
}

impl View for KnownGvr {
    type V = KnownGvrView;

    open spec fn view(&self) -> KnownGvrView {
        KnownGvrView {
            group: self.group@,
            version: self.version@,
            kind: self.kind@,
            plural: self.plural@,
            scope: self.scope,
        }
    }
}

/// What a run has done so far.
#[derive(Debug)]
pub struct ExecutionRecord {
    pub phases_completed: usize,
    pub phases_total: usize,
    pub deleted: Vec<ResourceId>,
    pub already_gone: Vec<ResourceId>,
    pub failed: Vec<(ResourceId, String)>,
    pub kept: Vec<PreservedRecord>,
    pub reviewed: Vec<PreservedRecord>,
    /// What stopped the run, where a wait or a guard did.
    pub barrier_timeout: Option<BarrierTimeoutRecord>,
    /// Leave to delete again what was recreated.
    pub re_delete_records: Vec<ReDeleteRecord>,
}

impl Default for ExecutionRecord {
    fn default() -> (r: Self)
        ensures
            r.phases_completed == 0,
            r.phases_total == 0,
            r.deleted@.len() == 0,
            r.already_gone@.len() == 0,
            r.failed@.len() == 0,
            r.kept@.len() == 0,
            r.reviewed@.len() == 0,
            r.barrier_timeout is None,
            r.re_delete_records@.len() == 0,
    {
        ExecutionRecord {
            phases_completed: 0,
            phases_total: 0,
            deleted: Vec::new(),
            already_gone: Vec::new(),
            failed: Vec::new(),
            kept: Vec::new(),
            reviewed: Vec::new(),
            barrier_timeout: None,
            re_delete_records: Vec::new(),
        }
    }
}

/// Leave to delete an object that took the place of one whose DELETE was taken.
#[derive(Debug)]
pub struct ReDeleteRecord {
    /// The object without a UID.
    pub resource_identity: ResourceId,
    /// The UID of the object whose DELETE was taken.
    pub original_uid: String,
    /// The UID of the object that took its place.
    pub new_uid: String,
    pub result: ReDeleteResult,
}

#[derive(Debug, Clone, PartialEq)]
pub enum ReDeleteResult {
    /// The DELETE was about to be sent.
    Authorized,
    Accepted,
    Gone,
    Failed(String),
    UnknownOutcome(String),
}

#[derive(Debug)]
pub struct BarrierTimeoutRecord {
    pub phase: String,
    pub remaining: Vec<ResourceId>,
    pub finalizer_details: Vec<(ResourceId, Vec<String>)>,
}

#[derive(Debug)]
pub struct PreservedRecord {
    pub resource: ResourceId,
    pub reason: String,
    pub metadata: Option<ReviewMetadata>,
}

/// The contents of a [`PreservedRecord`] or a [`PlannedPreserved`].
#[verifier::ext_equal]
pub struct PreservedView {
    pub resource: ResourceIdView,
    pub reason: Seq<char>,
    pub metadata: Option<ReviewMetadataView>,
}

impl View for PreservedRecord {
    type V = PreservedView;

    open spec fn view(&self) -> PreservedView {
        PreservedView {
            resource: self.resource@,
            reason: self.reason@,
            metadata: metadata_view(self.metadata),
        }
    }
}

impl View for PlannedPreserved {
    type V = PreservedView;

    open spec fn view(&self) -> PreservedView {
        PreservedView {
            resource: self.resource@,
            reason: self.reason@,
            metadata: metadata_view(self.metadata),
        }
    }
}

impl PreservedRecord {
    /// The record of a resource that the plan leaves in place.
    pub fn of(pp: &PlannedPreserved) -> (r: PreservedRecord)
        ensures
            r@ == pp@,
    {
        PreservedRecord {
            resource: pp.resource.clone(),
            reason: pp.reason.clone(),
            metadata: copy_metadata(&pp.metadata),
        }
    }
}

impl RunJournal {
    /// Marks the journal as changed at the time `now`.
    pub fn touch(&mut self, now: String)
        requires
            old(self).journal_revision < u64::MAX,
        ensures
            *final(self) == (RunJournal {
                journal_revision: (old(self).journal_revision + 1) as u64,
                updated_at: now,
                ..*old(self)
            }),
    {
        self.journal_revision = self.journal_revision + 1;
        self.updated_at = now;
    }

    /// Marks the journal as changed now.
    pub fn mark_changed(&mut self)
        requires
            old(self).journal_revision < u64::MAX,
        ensures
            *final(self) == (RunJournal {
                journal_revision: (old(self).journal_revision + 1) as u64,
                updated_at: final(self).updated_at,
                ..*old(self)
            }),
    {
        self.touch(chrono_now_iso());
    }
}

/// Calls `chrono::Utc::now` and writes the time with `chrono::DateTime::to_rfc3339`.
/// The text depends on the clock; nothing is claimed of it. `Utc::now` panics where
/// the clock stands before 1970.
#[verifier::external_body]
pub fn chrono_now_iso() -> (r: String) {
    chrono::Utc::now().to_rfc3339()
}

/// The schema version that a journal's outermost object states, or zero.
pub open spec fn stated_version(version: Option<JsonShapeView>) -> u32 {
    match version {
        Some(JsonShapeView::Number(Some(n))) => n as u32,
        _ => 0,
    }
}

/// The schema version that the value under `schema_version` states, or zero.
pub fn version_from(value: &Option<JsonShape>) -> (r: u32)
    ensures
        r == stated_version(shape_view(*value)),
{
    match value {
        Some(JsonShape::Number(Some(n))) => *n as u32,
        _ => 0,
    }
}

/// Why a journal cannot be read.
#[derive(Debug, Clone, Copy, PartialEq, Eq, Structural)]
pub enum JournalFault {
    /// The text is not JSON.
    NotJson,
    /// The journal has a schema version that is not supported.
    SchemaVersion { found: u32 },
}

/// The fault of a journal text that shows before the journal itself is read.
pub open spec fn journal_fault(text: Seq<char>) -> Option<JournalFault> {
    match json_shape(text) {
        None => Some(JournalFault::NotJson),
        Some(s) => {
            let version = match field_of(Some(s), "schema_version"@) {
                Some(v) => stated_version(json_shape(v)),
                None => 0,
            };
            version_fault(version)
        },
    }
}

/// The fault of a schema version.
pub open spec fn version_fault(version: u32) -> Option<JournalFault> {
    if version != RUN_JOURNAL_SCHEMA_VERSION {
        Some(JournalFault::SchemaVersion { found: version })
    } else {
        None
    }
}

/// Refuses a schema version that is not supported.
pub fn check_version(version: u32) -> (r: Result<(), JournalFault>)
    ensures
        match r {
            Ok(_) => version_fault(version) is None,
            Err(e) => version_fault(version) == Some(e),
        },
{
    if version != RUN_JOURNAL_SCHEMA_VERSION {
        Err(JournalFault::SchemaVersion { found: version })
    } else {
        Ok(())
    }
}

/// Refuses a journal text that is not JSON, or whose schema version is not
/// supported, before the journal itself is read.
pub fn check_journal_text(text: &str) -> (r: Result<(), JournalFault>)
    ensures
        match r {
            Ok(_) => journal_fault(text@) is None,
            Err(e) => journal_fault(text@) == Some(e),
        },
{
    let shape = read_json(text);
    if shape.is_none() {
        return Err(JournalFault::NotJson);
    }
    let version: u32 = match field(&shape, "schema_version") {
        Some(v) => version_from(&read_json(v.as_str())),
        None => 0,
    };
    check_version(version)
}

/// The message for a journal fault.
pub open spec fn journal_fault_text(e: JournalFault) -> Seq<char> {
    match e {
        JournalFault::NotJson => "Failed to parse journal JSON"@,
        JournalFault::SchemaVersion { found } => "Unsupported journal schema version "@ + decimal(
            found as nat,
        ) + " (expected "@ + decimal(RUN_JOURNAL_SCHEMA_VERSION as nat)
            + "). Remove old local run state and create a fresh teardown plan."@,
    }
}

impl JournalFault {
    /// The message for the fault.
    pub fn message(&self) -> (r: String)
        ensures
            r@ == journal_fault_text(*self),
    {
        match self {
            JournalFault::NotJson => "Failed to parse journal JSON".to_owned(),
            JournalFault::SchemaVersion {
                found,
            } => "Unsupported journal schema version ".to_owned().concat(
                u32_to_decimal(*found).as_str(),
            ).concat(" (expected ").concat(
                u32_to_decimal(RUN_JOURNAL_SCHEMA_VERSION).as_str(),
            ).concat("). Remove old local run state and create a fresh teardown plan."),
        }
    }
}

/// The path of a run's journal below the state directory, part by part.
pub fn run_path(cluster_id: &ClusterIdentity, run_id: &str) -> (r: Vec<String>)
    ensures
        crate::text::texts(r@) == seq![
            "clusters"@,
            cluster_id.kube_system_uid@,
            "runs"@,
            run_id@ + ".json"@,
        ],
{
    let mut parts: Vec<String> = Vec::new();
    parts.push("clusters".to_owned());
    parts.push(cluster_id.kube_system_uid.clone());
    parts.push("runs".to_owned());
    parts.push(run_id.to_owned().concat(".json"));
    assert(crate::text::texts(parts@) =~= seq![
        "clusters"@,
        cluster_id.kube_system_uid@,
        "runs"@,
        run_id@ + ".json"@,
    ]);
    parts
}

/// The identifier of a run that the process `pid` begins at `nanos` since the epoch.
pub fn generate_run_id(nanos: u128, pid: u32) -> (r: String)
    ensures
        r@ == "run-"@ + hexadecimal(nanos as nat) + "-"@ + hexadecimal(pid as nat),
{
    "run-".to_owned().concat(to_hexadecimal(nanos).as_str()).concat("-").concat(
        to_hexadecimal(pid as u128).as_str(),
    )
}

/// A name for a temporary file of the process `pid` at `nanos` since the epoch.
pub fn uuid_v4_short(nanos: u128, pid: u32) -> (r: String)
    ensures
        r@ == hexadecimal(nanos as nat) + "_"@ + hexadecimal(pid as nat),
{
    to_hexadecimal(nanos).concat("_").concat(to_hexadecimal(pid as u128).as_str())
}

/// `runs` with `j` put behind everything that is at least as new.
pub open spec fn filed(runs: Seq<RunJournal>, j: RunJournal) -> Seq<RunJournal>
    decreases runs.len(),
{
    if runs.len() == 0 || compare_text(runs.last().created_at@, j.created_at@) >= 0 {
        runs.push(j)
    } else {
        filed(runs.drop_last(), j).push(runs.last())
    }
}

/// `runs` with the newest first. Runs of one time keep their order.
pub open spec fn newest_first(runs: Seq<RunJournal>) -> Seq<RunJournal>
    decreases runs.len(),
{
    if runs.len() == 0 {
        seq![]
    } else {
        filed(newest_first(runs.drop_last()), runs.last())
    }
}

proof fn lemma_filed(runs: Seq<RunJournal>, j: RunJournal, at: int)
    requires
        0 <= at <= runs.len(),
        at > 0 ==> compare_text(runs[at - 1].created_at@, j.created_at@) >= 0,
        forall|k: int|
            at <= k < runs.len() ==> compare_text(
                (#[trigger] runs[k]).created_at@,
                j.created_at@,
            ) < 0,
    ensures
        filed(runs, j) == runs.insert(at, j),
    decreases runs.len() - at,
{
    if at == runs.len() {
        assert(runs.push(j) =~= runs.insert(at, j));
    } else {
        assert(compare_text(runs[runs.len() - 1].created_at@, j.created_at@) < 0);
        let front = runs.drop_last();
        assert forall|k: int| at <= k < front.len() implies compare_text(
            (#[trigger] front[k]).created_at@,
            j.created_at@,
        ) < 0 by {
            assert(runs[k] == front[k]);
        }
        lemma_filed(front, j, at);
        assert(front.insert(at, j).push(runs.last()) =~= runs.insert(at, j));
    }
}

fn file(runs: &mut Vec<RunJournal>, j: RunJournal)
    ensures
        final(runs)@ == filed(old(runs)@, j),
{
    let mut at: usize = runs.len();
    while at > 0 && compare_texts(runs[at - 1].created_at.as_str(), j.created_at.as_str()) < 0
        invariant
            at <= runs@.len(),
            runs@ == old(runs)@,
            forall|k: int|
                at <= k < runs@.len() ==> compare_text(
                    (#[trigger] runs@[k]).created_at@,
                    j.created_at@,
                ) < 0,
        ensures
            at > 0 ==> compare_text(runs@[at - 1].created_at@, j.created_at@) >= 0,
        decreases at,
    {
        at = at - 1;
    }
    proof {
        lemma_filed(runs@, j, at as int);
    }
    runs.insert(at, j);
}

/// `runs` with the newest first. Runs of one time keep their order.
pub fn sort_newest_first(runs: Vec<RunJournal>) -> (r: Vec<RunJournal>)
    ensures
        r@ == newest_first(runs@),
{
    let ghost all = runs@;
    let mut rest = runs;
    let mut last_first: Vec<RunJournal> = Vec::new();
    while rest.len() > 0
        invariant
            rest@.len() + last_first@.len() == all.len(),
            rest@ == all.take(rest@.len() as int),
            forall|k: int|
                0 <= k < last_first@.len() ==> (#[trigger] last_first@[k]) == all[all.len() - 1
                    - k],
        decreases rest@.len(),
    {
        let ghost n = rest@.len();
        match rest.pop() {
            Some(j) => {
                assert(rest@ =~= all.take(n - 1));
                last_first.push(j);
            },
            None => {},
        }
    }
    let mut out: Vec<RunJournal> = Vec::new();
    assert(all.take(0) =~= seq![]);
    while last_first.len() > 0
        invariant
            out@ == newest_first(all.take(all.len() - last_first@.len())),
            last_first@.len() <= all.len(),
            forall|k: int|
                0 <= k < last_first@.len() ==> (#[trigger] last_first@[k]) == all[all.len() - 1
                    - k],
        decreases last_first@.len(),
    {
        let ghost done = all.len() - last_first@.len();
        match last_first.pop() {
            Some(j) => {
                assert(j == all[done]);
                assert(all.take(done + 1).drop_last() =~= all.take(done));
                assert(all.take(done + 1).last() == all[done]);
                file(&mut out, j);
            },
            None => {},
        }
    }
    assert(all.take(all.len() as int) =~= all);
    out
}

/// The run is one of the operator on the cluster.
pub open spec fn is_run_of(j: RunJournal, cluster: ClusterIdentity, csv_name: Seq<char>) -> bool {
    j.cluster_identity.kube_system_uid@ == cluster.kube_system_uid@ && j.operator.csv_name@
        == csv_name
}

/// The first run of the operator on the cluster. The runs are given with the
/// newest first.
pub fn find_latest_run<'a>(
    runs: &'a Vec<RunJournal>,
    cluster_id: &ClusterIdentity,
    operator_csv_name: &str,
) -> (r: Option<&'a RunJournal>)
    ensures
        match r {
            Some(j) => exists|i: int|
                {
                    &&& 0 <= i < runs@.len()
                    &&& (#[trigger] runs@[i]) == *j
                    &&& is_run_of(runs@[i], *cluster_id, operator_csv_name@)
                    &&& forall|k: int|
                        0 <= k < i ==> !is_run_of(
                            #[trigger] runs@[k],
                            *cluster_id,
                            operator_csv_name@,
                        )
                },
            None => forall|k: int|
                0 <= k < runs@.len() ==> !is_run_of(
                    #[trigger] runs@[k],
                    *cluster_id,
                    operator_csv_name@,
                ),
        },
{
    for i in 0..runs.len()
        invariant
            forall|k: int|
                0 <= k < i ==> !is_run_of(#[trigger] runs@[k], *cluster_id, operator_csv_name@),
    {
        if runs[i].cluster_identity.matches(cluster_id) && same(
            runs[i].operator.csv_name.as_str(),
            operator_csv_name,
        ) {
            assert(is_run_of(runs@[i as int], *cluster_id, operator_csv_name@));
            return Some(&runs[i]);
        }
    }
    None
}

/// No run comes before a newer one.
pub open spec fn newest_lead(runs: Seq<RunJournal>) -> bool {
    forall|i: int, k: int|
        #![trigger runs[i], runs[k]]
        0 <= i < k < runs.len() ==> compare_text(runs[i].created_at@, runs[k].created_at@) >= 0
}

proof fn lemma_filed_sorted(runs: Seq<RunJournal>, j: RunJournal)
    requires
        newest_lead(runs),
    ensures
        newest_lead(filed(runs, j)),
        filed(runs, j).to_multiset() == runs.to_multiset().insert(j),
        forall|x: RunJournal| #[trigger] filed(runs, j).contains(x) ==> x == j || runs.contains(x),
    decreases runs.len(),
{
    broadcast use vstd::multiset::group_multiset_axioms;

    let p = filed(runs, j);
    runs.to_multiset_ensures();
    if runs.len() == 0 || compare_text(runs.last().created_at@, j.created_at@) >= 0 {
        assert forall|i: int, k: int|
            #![trigger p[i], p[k]]
            0 <= i < k < p.len() implies compare_text(p[i].created_at@, p[k].created_at@) >= 0 by {
            if k == runs.len() && i < runs.len() - 1 {
                let last = runs[runs.len() - 1];
                crate::text::lemma_compare_text_flip(runs[i].created_at@, last.created_at@);
                crate::text::lemma_compare_text_flip(last.created_at@, j.created_at@);
                crate::text::lemma_compare_text_chain(
                    j.created_at@,
                    last.created_at@,
                    runs[i].created_at@,
                );
                crate::text::lemma_compare_text_flip(runs[i].created_at@, j.created_at@);
            }
        }
        assert forall|x: RunJournal| #[trigger] p.contains(x) implies x == j || runs.contains(
            x,
        ) by {
            let k = choose|k: int| 0 <= k < p.len() && p[k] == x;
            if k < runs.len() {
                assert(runs[k] == x);
            }
        }
    } else {
        let front = runs.drop_last();
        let q = filed(front, j);
        lemma_filed_sorted(front, j);
        crate::text::lemma_compare_text_flip(runs.last().created_at@, j.created_at@);
        assert forall|i: int, k: int|
            #![trigger p[i], p[k]]
            0 <= i < k < p.len() implies compare_text(p[i].created_at@, p[k].created_at@) >= 0 by {
            if k == q.len() {
                assert(q.contains(q[i]));
                if q[i] != j {
                    let m = choose|m: int| 0 <= m < front.len() && front[m] == q[i];
                    assert(runs[m] == q[i]);
                    assert(runs[runs.len() - 1] == runs.last());
                }
            } else {
                assert(q[i] == p[i] && q[k] == p[k]);
            }
        }
        assert forall|x: RunJournal| #[trigger] p.contains(x) implies x == j || runs.contains(
            x,
        ) by {
            let k = choose|k: int| 0 <= k < p.len() && p[k] == x;
            if k < q.len() {
                assert(q[k] == x);
                assert(q.contains(x));
                if x != j {
                    let m = choose|m: int| 0 <= m < front.len() && front[m] == x;
                    assert(runs[m] == x);
                }
            } else {
                assert(runs[runs.len() - 1] == x);
            }
        }
        q.to_multiset_ensures();
        front.to_multiset_ensures();
        assert(front.push(runs.last()) =~= runs);
        assert(p.to_multiset() =~= runs.to_multiset().insert(j));
    }
}

/// Sorting puts no run before a newer one, and neither adds nor drops a run.
pub proof fn law_sorted_runs(runs: Seq<RunJournal>)
    ensures
        newest_lead(newest_first(runs)),
        newest_first(runs).to_multiset() == runs.to_multiset(),
    decreases runs.len(),
{
    if runs.len() > 0 {
        let front = runs.drop_last();
        law_sorted_runs(front);
        lemma_filed_sorted(newest_first(front), runs.last());
        front.to_multiset_ensures();
        assert(front.push(runs.last()) =~= runs);
    } else {
        assert(runs =~= newest_first(runs));
    }
}

/// Runs that come newest first already stay as they are, also those of one time.
pub proof fn law_sorted_runs_stay(runs: Seq<RunJournal>)
    requires
        forall|i: int, k: int|
            0 <= i < k < runs.len() ==> compare_text(
                (#[trigger] runs[i]).created_at@,
                (#[trigger] runs[k]).created_at@,
            ) >= 0,
    ensures
        newest_first(runs) == runs,
    decreases runs.len(),
{
    if runs.len() > 0 {
        let front = runs.drop_last();
        assert forall|i: int, k: int| 0 <= i < k < front.len() implies compare_text(
            (#[trigger] front[i]).created_at@,
            (#[trigger] front[k]).created_at@,
        ) >= 0 by {
            assert(front[i] == runs[i] && front[k] == runs[k]);
        }
        law_sorted_runs_stay(front);
        if front.len() > 0 {
            assert(front.last() == runs[runs.len() - 2]);
        }
        assert(front.push(runs.last()) =~= runs);
    } else {
        assert(runs =~= newest_first(runs));
    }
}

/// In a sorted list no run stands before one that was created later.
pub proof fn law_newest_run_leads(runs: Seq<RunJournal>, i: int, k: int)
    requires
        0 <= i < k < runs.len(),
    ensures
        newest_first(runs).len() == runs.len(),
        compare_text(
            newest_first(runs)[i].created_at@,
            newest_first(runs)[k].created_at@,
        ) >= 0,
{
    law_sorted_runs(runs);
    runs.to_multiset_ensures();
    newest_first(runs).to_multiset_ensures();
}

/// What is said of a journal that cannot be read.
pub proof fn law_journal_faults_in_words(found: u32)
    ensures
        journal_fault_text(JournalFault::NotJson) == "Failed to parse journal JSON"@,
        journal_fault_text(JournalFault::SchemaVersion { found })
            == "Unsupported journal schema version "@ + decimal(found as nat) + " (expected "@
            + decimal(9)
            + "). Remove old local run state and create a fresh teardown plan."@,
{
}

} // verus!
