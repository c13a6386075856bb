//! Whether the operator that was torn down is still there, or is there again.
//!
//! The answer is found step by step: each step names what to ask the cluster next,
//! and a function reads the reply. Nothing counts as absent that was not looked for.

use vstd::prelude::*;
use vstd::string::*;

use crate::audit::packages::{belongs_elsewhere, is_from_another_package};
use crate::cluster::{
    error_text, has_code, live_spec_name, live_uid, or_empty, GetReply, LiveObject, RequestError,
};
use crate::journal::CsvBaselineEntry;
use crate::plan::{
    ObservedResourceIdentity, OperatorGenerationIdentity, OperatorIdentitySnapshot,
};
use crate::text::{opt_text, same, text_or};

verus! {

/// What is known of the operator's installation.
#[derive(Debug, Clone)]
pub enum OperatorGenerationState {
    /// Nothing of it is left.
    Absent,
    /// The installation that the plan was made for is still there.
    SameGeneration,
    /// Another installation has taken its place.
    Reappeared,
    Unknown(String),
}

/// The contents of an [`OperatorGenerationState`].
#[verifier::ext_equal]
pub enum GenerationView {
    Absent,
    SameGeneration,
    Reappeared,
    Unknown(Seq<char>),
}

impl View for OperatorGenerationState {
    type V = GenerationView;

    open spec fn view(&self) -> GenerationView {
        match self {
            OperatorGenerationState::Absent => GenerationView::Absent,
            OperatorGenerationState::SameGeneration => GenerationView::SameGeneration,
            OperatorGenerationState::Reappeared => GenerationView::Reappeared,
            OperatorGenerationState::Unknown(s) => GenerationView::Unknown(s@),
        }
    }
}

impl OperatorGenerationState {
    /// Whether nothing of the installation is left.
    pub fn is_absent(&self) -> (r: bool)
        ensures
            r == (self@ is Absent),
    {
        match self {
            OperatorGenerationState::Absent => true,
            _ => false,
        }
    }
}

/// What comes next.
#[derive(Debug)]
pub enum GenerationStep {
    /// The answer.
    Settled(OperatorGenerationState),
    /// GET the ClusterServiceVersion that the plan was made for.
    GetCsv,
    /// List one ClusterServiceVersion.
    VerifyCsvEndpoint,
    /// GET the controller deployment at this position.
    GetDeployment(usize),
    /// List one deployment, on account of the one at this position.
    VerifyDeploymentEndpoint(usize),
    /// List the ClusterServiceVersions of the namespace.
    ListCsvs,
}

/// The contents of a [`GenerationStep`].
#[verifier::ext_equal]
pub enum GenerationStepView {
    Settled(GenerationView),
    GetCsv,
    VerifyCsvEndpoint,
    GetDeployment(int),
    VerifyDeploymentEndpoint(int),
    ListCsvs,
}

impl View for GenerationStep {
    type V = GenerationStepView;

    open spec fn view(&self) -> GenerationStepView {
        match self {
            GenerationStep::Settled(s) => GenerationStepView::Settled(s@),
            GenerationStep::GetCsv => GenerationStepView::GetCsv,
            GenerationStep::VerifyCsvEndpoint => GenerationStepView::VerifyCsvEndpoint,
            GenerationStep::GetDeployment(i) => GenerationStepView::GetDeployment(*i as int),
            GenerationStep::VerifyDeploymentEndpoint(i) => {
                GenerationStepView::VerifyDeploymentEndpoint(*i as int)
            },
            GenerationStep::ListCsvs => GenerationStepView::ListCsvs,
        }
    }
}

/// The package and the namespace that an installation is known by.
#[derive(Debug)]
pub struct PackageScope {
    pub package: String,
    pub namespace: String,
}

/// The contents of a [`PackageScope`].
#[verifier::ext_equal]
pub struct ScopeView {
    pub package: Seq<char>,
    pub namespace: Seq<char>,
}

impl View for PackageScope {
    type V = ScopeView;

    open spec fn view(&self) -> ScopeView {
        ScopeView { package: self.package@, namespace: self.namespace@ }
    }
}

/// An answer that leaves everything open.
pub open spec fn unknown(reason: Seq<char>) -> GenerationStepView {
    GenerationStepView::Settled(GenerationView::Unknown(reason))
}

fn not_known(reason: String) -> (r: GenerationStep)
    ensures
        r@ == unknown(reason@),
{
    GenerationStep::Settled(OperatorGenerationState::Unknown(reason))
}

/// What an installation is known by; or why that is not known.
pub fn generation_scope(snapshot: &OperatorIdentitySnapshot) -> (r: Result<
    PackageScope,
    OperatorGenerationState,
>)
    ensures
        match snapshot.generation_identity {
            OperatorGenerationIdentity::OlmPackage { package_name, install_namespace } =>
                r matches Ok(s) && s.package == package_name && s.namespace == install_namespace,
            OperatorGenerationIdentity::Unverifiable { reason } => r matches Err(e) && e@
                == GenerationView::Unknown("generation identity unverifiable: "@ + reason@),
        },
{
    match &snapshot.generation_identity {
        OperatorGenerationIdentity::OlmPackage { package_name, install_namespace } => Ok(
            PackageScope { package: package_name.clone(), namespace: install_namespace.clone() },
        ),
        OperatorGenerationIdentity::Unverifiable { reason } => Err(
            OperatorGenerationState::Unknown(
                "generation identity unverifiable: ".to_owned().concat(reason.as_str()),
            ),
        ),
    }
}

/// The first subscription, from position `i` on, under this UID.
pub open spec fn with_uid(subs: Seq<LiveObject>, uid: Seq<char>, i: nat) -> Option<LiveObject>
    decreases subs.len() - i,
{
    if i >= subs.len() {
        None
    } else if live_uid(subs[i as int]) == uid {
        Some(subs[i as int])
    } else {
        with_uid(subs, uid, i + 1)
    }
}

/// What a saved subscription says now that it is of another package.
pub open spec fn drift_of(
    saved: ObservedResourceIdentity,
    subs: Seq<LiveObject>,
    package: Seq<char>,
) -> Option<Seq<char>> {
    match with_uid(subs, saved.uid@, 0) {
        Some(sub) => if live_spec_name(sub) != package {
            Some(
                "saved Subscription UID "@ + saved.uid@
                    + " still exists but spec.name changed from '"@ + package + "' to '"@
                    + live_spec_name(sub) + "' — semantic identity drift"@,
            )
        } else {
            None
        },
        None => None,
    }
}

/// The first drift of a saved subscription, from position `i` on.
pub open spec fn first_drift(
    saved: Seq<ObservedResourceIdentity>,
    subs: Seq<LiveObject>,
    package: Seq<char>,
    i: nat,
) -> Option<Seq<char>>
    decreases saved.len() - i,
{
    if i >= saved.len() {
        None
    } else {
        match drift_of(saved[i as int], subs, package) {
            Some(e) => Some(e),
            None => first_drift(saved, subs, package, i + 1),
        }
    }
}

/// The first subscription, from position `i` on, to this package.
pub open spec fn subscription_to(subs: Seq<LiveObject>, package: Seq<char>, i: nat) -> Option<
    LiveObject,
>
    decreases subs.len() - i,
{
    if i >= subs.len() {
        None
    } else if opt_text(subs[i as int].spec_name) == Some(package) {
        Some(subs[i as int])
    } else {
        subscription_to(subs, package, i + 1)
    }
}

/// One of `saved` was observed under this UID.
pub open spec fn observed(saved: Seq<ObservedResourceIdentity>, uid: Seq<char>) -> bool {
    exists|i: int| 0 <= i < saved.len() && (#[trigger] saved[i]).uid@ == uid
}

/// The answer where something of the installation is there, under the UID that was
/// observed or under another.
pub open spec fn settled(was_observed: bool) -> GenerationStepView {
    GenerationStepView::Settled(
        if was_observed {
            GenerationView::SameGeneration
        } else {
            GenerationView::Reappeared
        },
    )
}

fn settle(was_observed: bool) -> (r: GenerationStep)
    ensures
        r@ == settled(was_observed),
{
    if was_observed {
        GenerationStep::Settled(OperatorGenerationState::SameGeneration)
    } else {
        GenerationStep::Settled(OperatorGenerationState::Reappeared)
    }
}

/// What comes after the list of subscriptions.
pub open spec fn step_on_subscriptions(
    scope: ScopeView,
    saved: Seq<ObservedResourceIdentity>,
    reply: Result<Vec<LiveObject>, RequestError>,
) -> GenerationStepView {
    match reply {
        Err(e) => unknown(
            "failed to LIST Subscriptions in "@ + scope.namespace + ": "@ + error_text(e),
        ),
        Ok(subs) => match first_drift(saved, subs@, scope.package, 0) {
            Some(e) => unknown(e),
            None => match subscription_to(subs@, scope.package, 0) {
                Some(sub) => settled(observed(saved, live_uid(sub))),
                None => GenerationStepView::GetCsv,
            },
        },
    }
}

fn find_uid<'a>(subs: &'a Vec<LiveObject>, uid: &str) -> (r: Option<&'a LiveObject>)
    ensures
        match r {
            Some(o) => with_uid(subs@, uid@, 0) == Some(*o),
            None => with_uid(subs@, uid@, 0) is None,
        },
{
    for i in 0..subs.len()
        invariant
            with_uid(subs@, uid@, 0) == with_uid(subs@, uid@, i as nat),
    {
        if same(or_empty(&subs[i].uid), uid) {
            return Some(&subs[i]);
        }
    }
    None
}

fn find_drift(saved: &Vec<ObservedResourceIdentity>, subs: &Vec<LiveObject>, package: &str) -> (r:
    Option<String>)
    ensures
        opt_text(r) == first_drift(saved@, subs@, package@, 0),
{
    for i in 0..saved.len()
        invariant
            first_drift(saved@, subs@, package@, 0) == first_drift(
                saved@,
                subs@,
                package@,
                i as nat,
            ),
    {
        let s: &ObservedResourceIdentity = &saved[i];
        match find_uid(subs, s.uid.as_str()) {
            Some(sub) => {
                let name = or_empty(&sub.spec_name);
                if !same(name, package) {
                    return Some(
                        "saved Subscription UID ".to_owned().concat(s.uid.as_str()).concat(
                            " still exists but spec.name changed from '",
                        ).concat(package).concat("' to '").concat(name).concat(
                            "' — semantic identity drift",
                        ),
                    );
                }
            },
            None => {},
        }
    }
    None
}

fn find_subscription<'a>(subs: &'a Vec<LiveObject>, package: &str) -> (r: Option<&'a LiveObject>)
    ensures
        match r {
            Some(o) => subscription_to(subs@, package@, 0) == Some(*o),
            None => subscription_to(subs@, package@, 0) is None,
        },
{
    for i in 0..subs.len()
        invariant
            subscription_to(subs@, package@, 0) == subscription_to(subs@, package@, i as nat),
    {
        match &subs[i].spec_name {
            Some(n) => {
                if same(n.as_str(), package) {
                    return Some(&subs[i]);
                }
            },
            None => {},
        }
    }
    None
}

fn was_observed(saved: &Vec<ObservedResourceIdentity>, uid: &str) -> (r: bool)
    ensures
        r == observed(saved@, uid@),
{
    for i in 0..saved.len()
        invariant
            forall|k: int| 0 <= k < i ==> (#[trigger] saved@[k]).uid@ != uid@,
    {
        if same(saved[i].uid.as_str(), uid) {
            assert(saved@[i as int].uid@ == uid@);
            return true;
        }
    }
    false
}

/// Reads the list of subscriptions in the namespace.
pub fn after_subscriptions(
    scope: &PackageScope,
    snapshot: &OperatorIdentitySnapshot,
    reply: &Result<Vec<LiveObject>, RequestError>,
) -> (r: GenerationStep)
    ensures
        r@ == step_on_subscriptions(scope@, snapshot.subscriptions@, *reply),
{
    match reply {
        Err(e) => not_known(
            "failed to LIST Subscriptions in ".to_owned().concat(scope.namespace.as_str()).concat(
                ": ",
            ).concat(e.text()),
        ),
        Ok(subs) => {
            match find_drift(&snapshot.subscriptions, subs, scope.package.as_str()) {
                Some(e) => not_known(e),
                None => match find_subscription(subs, scope.package.as_str()) {
                    Some(sub) => settle(
                        was_observed(&snapshot.subscriptions, or_empty(&sub.uid)),
                    ),
                    None => GenerationStep::GetCsv,
                },
            }
        },
    }
}

/// What comes once the deployments before position `i` are known to be gone.
pub open spec fn from_deployment(
    i: int,
    deployments: nat,
    has_baseline: bool,
) -> GenerationStepView {
    if i < deployments {
        GenerationStepView::GetDeployment(i)
    } else if has_baseline {
        GenerationStepView::ListCsvs
    } else {
        unknown(
            "No CSV baseline captured at plan time; cannot verify that no new operator generation has been installed"@,
        )
    }
}

fn look_from(i: usize, deployments: usize, has_baseline: bool) -> (r: GenerationStep)
    ensures
        r@ == from_deployment(i as int, deployments as nat, has_baseline),
{
    if i < deployments {
        GenerationStep::GetDeployment(i)
    } else if has_baseline {
        GenerationStep::ListCsvs
    } else {
        not_known(
            "No CSV baseline captured at plan time; cannot verify that no new operator generation has been installed".to_owned(),
        )
    }
}

/// What comes after the GET of the ClusterServiceVersion.
pub open spec fn step_on_csv(
    name: Seq<char>,
    uid: Seq<char>,
    reply: GetReply,
) -> GenerationStepView {
    match reply {
        GetReply::Found(o) => settled(uid == live_uid(o)),
        GetReply::Failed(e) => if has_code(e, 404) {
            GenerationStepView::VerifyCsvEndpoint
        } else {
            unknown("failed to GET CSV "@ + name + ": "@ + error_text(e))
        },
    }
}

/// Reads the GET of the ClusterServiceVersion that the plan was made for.
pub fn after_csv(snapshot: &OperatorIdentitySnapshot, reply: &GetReply) -> (r: GenerationStep)
    ensures
        r@ == step_on_csv(snapshot.csv_name@, snapshot.csv.uid@, *reply),
{
    match reply {
        GetReply::Found(o) => settle(same(snapshot.csv.uid.as_str(), or_empty(&o.uid))),
        GetReply::Failed(e) => {
            if e.has_code(404) {
                GenerationStep::VerifyCsvEndpoint
            } else {
                not_known(
                    "failed to GET CSV ".to_owned().concat(snapshot.csv_name.as_str()).concat(
                        ": ",
                    ).concat(e.text()),
                )
            }
        },
    }
}

/// The step after the endpoint of the ClusterServiceVersion was looked at.
pub open spec fn step_on_csv_endpoint(
    deployments: nat,
    has_baseline: bool,
    ok: bool,
) -> GenerationStepView {
    if ok {
        from_deployment(0, deployments, has_baseline)
    } else {
        unknown(
            "CSV GET returned 404 but API endpoint verification failed; cannot confirm CSV absence vs endpoint absence"@,
        )
    }
}

/// Reads whether ClusterServiceVersions can be listed, where the one that was asked
/// for was not found.
pub fn after_csv_endpoint(
    snapshot: &OperatorIdentitySnapshot,
    has_baseline: bool,
    endpoint_ok: bool,
) -> (r: GenerationStep)
    ensures
        r@ == step_on_csv_endpoint(
            snapshot.controller_deployments@.len(),
            has_baseline,
            endpoint_ok,
        ),
{
    if endpoint_ok {
        look_from(0, snapshot.controller_deployments.len(), has_baseline)
    } else {
        not_known(
            "CSV GET returned 404 but API endpoint verification failed; cannot confirm CSV absence vs endpoint absence".to_owned(),
        )
    }
}

/// What comes after the GET of the deployment at position `i`.
pub open spec fn step_on_deployment(
    saved: ObservedResourceIdentity,
    i: int,
    reply: GetReply,
) -> GenerationStepView {
    match reply {
        GetReply::Found(o) => settled(saved.uid@ == live_uid(o)),
        GetReply::Failed(e) => if has_code(e, 404) {
            GenerationStepView::VerifyDeploymentEndpoint(i)
        } else {
            unknown(
                "failed to GET Deployment "@ + saved.resource.name@ + ": "@ + error_text(e),
            )
        },
    }
}

/// Reads the GET of the controller deployment at position `i`.
pub fn after_deployment(snapshot: &OperatorIdentitySnapshot, i: usize, reply: &GetReply) -> (r:
    GenerationStep)
    requires
        i < snapshot.controller_deployments@.len(),
    ensures
        r@ == step_on_deployment(
            snapshot.controller_deployments@[i as int],
            i as int,
            *reply,
        ),
{
    let saved: &ObservedResourceIdentity = &snapshot.controller_deployments[i];
    match reply {
        GetReply::Found(o) => settle(same(saved.uid.as_str(), or_empty(&o.uid))),
        GetReply::Failed(e) => {
            if e.has_code(404) {
                GenerationStep::VerifyDeploymentEndpoint(i)
            } else {
                not_known(
                    "failed to GET Deployment ".to_owned().concat(
                        saved.resource.name.as_str(),
                    ).concat(": ").concat(e.text()),
                )
            }
        },
    }
}

/// The step after the endpoint of the deployment at position `i` was looked at.
pub open spec fn step_on_deployment_endpoint(
    snapshot: OperatorIdentitySnapshot,
    i: int,
    has_baseline: bool,
    ok: bool,
) -> GenerationStepView {
    if ok {
        from_deployment(i + 1, snapshot.controller_deployments@.len(), has_baseline)
    } else {
        unknown(
            "Deployment GET returned 404 but API endpoint verification failed for "@
                + snapshot.controller_deployments@[i].resource.name@,
        )
    }
}

/// Reads whether deployments can be listed, where the one at position `i` was not
/// found.
pub fn after_deployment_endpoint(
    snapshot: &OperatorIdentitySnapshot,
    i: usize,
    has_baseline: bool,
    endpoint_ok: bool,
) -> (r: GenerationStep)
    requires
        i < snapshot.controller_deployments@.len(),
    ensures
        r@ == step_on_deployment_endpoint(*snapshot, i as int, has_baseline, endpoint_ok),
{
    let deployments: usize = snapshot.controller_deployments.len();
    if endpoint_ok {
        look_from(i + 1, deployments, has_baseline)
    } else {
        not_known(
            "Deployment GET returned 404 but API endpoint verification failed for ".to_owned().concat(
                snapshot.controller_deployments[i].resource.name.as_str(),
            ),
        )
    }
}

/// The name of an object, or the empty text.
pub open spec fn live_name(o: LiveObject) -> Seq<char> {
    text_or(o.name, seq![])
}

/// One of the baseline has this name and this UID.
pub open spec fn in_baseline(
    baseline: Seq<CsvBaselineEntry>,
    name: Seq<char>,
    uid: Seq<char>,
) -> bool {
    exists|i: int|
        0 <= i < baseline.len() && (#[trigger] baseline[i]).name@ == name && baseline[i].uid@ == uid
}

/// Why a ClusterServiceVersion may be a new one: it has no name or no UID, or it was
/// not there before the run.
pub open spec fn novelty(
    csv: LiveObject,
    baseline: Seq<CsvBaselineEntry>,
    namespace: Seq<char>,
) -> Option<
    Seq<char>,
> {
    if live_name(csv).len() == 0 || live_uid(csv).len() == 0 {
        Some("CSV in "@ + namespace + " has missing name or UID — cannot verify generation"@)
    } else if !in_baseline(baseline, live_name(csv), live_uid(csv)) {
        Some(
            "CSV '"@ + live_name(csv) + "' (uid: "@ + live_uid(csv) + ") in "@ + namespace
                + " was not present at plan time — possible new operator generation"@,
        )
    } else {
        None
    }
}

/// The first novelty, from position `i` on.
pub open spec fn first_novelty(
    csvs: Seq<LiveObject>,
    baseline: Seq<CsvBaselineEntry>,
    namespace: Seq<char>,
    i: nat,
) -> Option<Seq<char>>
    decreases csvs.len() - i,
{
    if i >= csvs.len() {
        None
    } else {
        match novelty(csvs[i as int], baseline, namespace) {
            Some(e) => Some(e),
            None => first_novelty(csvs, baseline, namespace, i + 1),
        }
    }
}

/// Why a ClusterServiceVersion that was there before may be of the same package: it
/// is not the one that the plan was made for, and does not belong elsewhere.
pub open spec fn survival(
    csv: LiveObject,
    subs: Seq<LiveObject>,
    scope: ScopeView,
    csv_name: Seq<char>,
) -> Option<Seq<char>> {
    if live_name(csv) == csv_name || belongs_elsewhere(csv, subs, scope.namespace, scope.package) {
        None
    } else {
        Some(
            "CSV '"@ + live_name(csv) + "' (uid: "@ + live_uid(csv) + ") in "@ + scope.namespace
                + " survived teardown and cannot be attributed to a different package — possible same-package generation"@,
        )
    }
}

/// The first survival, from position `i` on.
pub open spec fn first_survival(
    csvs: Seq<LiveObject>,
    subs: Seq<LiveObject>,
    scope: ScopeView,
    csv_name: Seq<char>,
    i: nat,
) -> Option<Seq<char>>
    decreases csvs.len() - i,
{
    if i >= csvs.len() {
        None
    } else {
        match survival(csvs[i as int], subs, scope, csv_name) {
            Some(e) => Some(e),
            None => first_survival(csvs, subs, scope, csv_name, i + 1),
        }
    }
}

/// The answer that the list of ClusterServiceVersions gives.
pub open spec fn answer_on_csvs(
    scope: ScopeView,
    csv_name: Seq<char>,
    baseline: Seq<CsvBaselineEntry>,
    subs: Seq<LiveObject>,
    reply: Result<Vec<LiveObject>, RequestError>,
) -> GenerationView {
    match reply {
        Err(e) => GenerationView::Unknown(
            "failed to LIST CSVs in "@ + scope.namespace + " for baseline comparison: "@
                + error_text(e),
        ),
        Ok(csvs) => match first_novelty(csvs@, baseline, scope.namespace, 0) {
            Some(e) => GenerationView::Unknown(e),
            None => match first_survival(csvs@, subs, scope, csv_name, 0) {
                Some(e) => GenerationView::Unknown(e),
                None => GenerationView::Absent,
            },
        },
    }
}

fn was_there(baseline: &Vec<CsvBaselineEntry>, name: &str, uid: &str) -> (r: bool)
    ensures
        r == in_baseline(baseline@, name@, uid@),
{
    for i in 0..baseline.len()
        invariant
            forall|k: int|
                0 <= k < i ==> !((#[trigger] baseline@[k]).name@ == name@ && baseline@[k].uid@
                    == uid@),
    {
        if same(baseline[i].name.as_str(), name) && same(baseline[i].uid.as_str(), uid) {
            assert(baseline@[i as int].name@ == name@);
            return true;
        }
    }
    false
}

fn describe_csv(name: &str, uid: &str, namespace: &str, rest: &str) -> (r: String)
    ensures
        r@ == "CSV '"@ + name@ + "' (uid: "@ + uid@ + ") in "@ + namespace@ + rest@,
{
    "CSV '".to_owned().concat(name).concat("' (uid: ").concat(uid).concat(") in ").concat(
        namespace,
    ).concat(rest)
}

fn find_novelty(csvs: &Vec<LiveObject>, baseline: &Vec<CsvBaselineEntry>, namespace: &str) -> (r:
    Option<String>)
    ensures
        opt_text(r) == first_novelty(csvs@, baseline@, namespace@, 0),
{
    for i in 0..csvs.len()
        invariant
            first_novelty(csvs@, baseline@, namespace@, 0) == first_novelty(
                csvs@,
                baseline@,
                namespace@,
                i as nat,
            ),
    {
        let name = or_empty(&csvs[i].name);
        let uid = or_empty(&csvs[i].uid);
        if name.is_empty() || uid.is_empty() {
            return Some(
                "CSV in ".to_owned().concat(namespace).concat(
                    " has missing name or UID — cannot verify generation",
                ),
            );
        }
        if !was_there(baseline, name, uid) {
            return Some(
                describe_csv(
                    name,
                    uid,
                    namespace,
                    " was not present at plan time — possible new operator generation",
                ),
            );
        }
    }
    None
}

fn find_survival(
    csvs: &Vec<LiveObject>,
    subs: &Vec<LiveObject>,
    scope: &PackageScope,
    csv_name: &str,
) -> (r: Option<String>)
    ensures
        opt_text(r) == first_survival(csvs@, subs@, scope@, csv_name@, 0),
{
    for i in 0..csvs.len()
        invariant
            first_survival(csvs@, subs@, scope@, csv_name@, 0) == first_survival(
                csvs@,
                subs@,
                scope@,
                csv_name@,
                i as nat,
            ),
    {
        let name = or_empty(&csvs[i].name);
        if !same(name, csv_name) && !is_from_another_package(
            &csvs[i],
            subs,
            scope.namespace.as_str(),
            scope.package.as_str(),
        ) {
            return Some(
                describe_csv(
                    name,
                    or_empty(&csvs[i].uid),
                    scope.namespace.as_str(),
                    " survived teardown and cannot be attributed to a different package — possible same-package generation",
                ),
            );
        }
    }
    None
}

/// Reads the list of ClusterServiceVersions, against those that were there before
/// the run and the subscriptions that are there now.
pub fn after_csvs(
    scope: &PackageScope,
    snapshot: &OperatorIdentitySnapshot,
    baseline: &Vec<CsvBaselineEntry>,
    subs: &Vec<LiveObject>,
    reply: &Result<Vec<LiveObject>, RequestError>,
) -> (r: OperatorGenerationState)
    ensures
        r@ == answer_on_csvs(scope@, snapshot.csv_name@, baseline@, subs@, *reply),
{
    match reply {
        Err(e) => OperatorGenerationState::Unknown(
            "failed to LIST CSVs in ".to_owned().concat(scope.namespace.as_str()).concat(
                " for baseline comparison: ",
            ).concat(e.text()),
        ),
        Ok(csvs) => {
            match find_novelty(csvs, baseline, scope.namespace.as_str()) {
                Some(e) => OperatorGenerationState::Unknown(e),
                None => match find_survival(csvs, subs, scope, snapshot.csv_name.as_str()) {
                    Some(e) => OperatorGenerationState::Unknown(e),
                    None => OperatorGenerationState::Absent,
                },
            }
        },
    }
}

proof fn lemma_no_novelty(
    csvs: Seq<LiveObject>,
    baseline: Seq<CsvBaselineEntry>,
    namespace: Seq<char>,
    i: nat,
)
    requires
        first_novelty(csvs, baseline, namespace, i) is None,
    ensures
        forall|k: int| i <= k < csvs.len() ==> novelty(#[trigger] csvs[k], baseline, namespace) is None,
    decreases csvs.len() - i,
{
    if i < csvs.len() {
        lemma_no_novelty(csvs, baseline, namespace, i + 1);
    }
}

proof fn lemma_no_survival(
    csvs: Seq<LiveObject>,
    subs: Seq<LiveObject>,
    scope: ScopeView,
    csv_name: Seq<char>,
    i: nat,
)
    requires
        first_survival(csvs, subs, scope, csv_name, i) is None,
    ensures
        forall|k: int|
            i <= k < csvs.len() ==> survival(#[trigger] csvs[k], subs, scope, csv_name) is None,
    decreases csvs.len() - i,
{
    if i < csvs.len() {
        lemma_no_survival(csvs, subs, scope, csv_name, i + 1);
    }
}

/// The operator counts as absent only where the list of ClusterServiceVersions was
/// read, every one of them was there before the run under its UID, and every one but
/// the operator's own belongs to one other package.
pub proof fn law_absent_needs_all_csvs_explained(
    scope: ScopeView,
    csv_name: Seq<char>,
    baseline: Seq<CsvBaselineEntry>,
    subs: Seq<LiveObject>,
    reply: Result<Vec<LiveObject>, RequestError>,
    k: int,
)
    requires
        answer_on_csvs(scope, csv_name, baseline, subs, reply) is Absent,
    ensures
        reply is Ok,
        0 <= k < reply->Ok_0@.len() ==> in_baseline(
            baseline,
            live_name(reply->Ok_0@[k]),
            live_uid(reply->Ok_0@[k]),
        ) && (live_name(reply->Ok_0@[k]) == csv_name || belongs_elsewhere(
            reply->Ok_0@[k],
            subs,
            scope.namespace,
            scope.package,
        )),
{
    let csvs = reply->Ok_0@;
    lemma_no_novelty(csvs, baseline, scope.namespace, 0);
    lemma_no_survival(csvs, subs, scope, csv_name, 0);
    if 0 <= k < csvs.len() {
        assert(novelty(csvs[k], baseline, scope.namespace) is None);
        assert(survival(csvs[k], subs, scope, csv_name) is None);
    }
}

proof fn lemma_no_subscription(subs: Seq<LiveObject>, package: Seq<char>, i: nat)
    requires
        subscription_to(subs, package, i) is None,
    ensures
        forall|k: int|
            i <= k < subs.len() ==> opt_text((#[trigger] subs[k]).spec_name) != Some(package),
    decreases subs.len() - i,
{
    if i < subs.len() {
        lemma_no_subscription(subs, package, i + 1);
    }
}

/// No step before the list of ClusterServiceVersions answers that the operator is
/// absent, and none gets past a subscription to its package, past its
/// ClusterServiceVersion or past one of its deployments.
pub proof fn law_absence_is_not_guessed(
    scope: ScopeView,
    saved: Seq<ObservedResourceIdentity>,
    subs: Result<Vec<LiveObject>, RequestError>,
    name: Seq<char>,
    uid: Seq<char>,
    deployment: ObservedResourceIdentity,
    i: int,
    reply: GetReply,
)
    ensures
        step_on_subscriptions(scope, saved, subs) != GenerationStepView::Settled(
            GenerationView::Absent,
        ),
        step_on_subscriptions(scope, saved, subs) is GetCsv ==> subs is Ok && forall|k: int|
            0 <= k < subs->Ok_0@.len() ==> opt_text((#[trigger] subs->Ok_0@[k]).spec_name) != Some(
                scope.package,
            ),
        step_on_csv(name, uid, reply) != GenerationStepView::Settled(GenerationView::Absent),
        step_on_csv(name, uid, reply) is VerifyCsvEndpoint ==> (reply matches GetReply::Failed(e)
            && has_code(e, 404)),
        step_on_deployment(deployment, i, reply) != GenerationStepView::Settled(
            GenerationView::Absent,
        ),
        step_on_deployment(deployment, i, reply) is VerifyDeploymentEndpoint ==> (
        reply matches GetReply::Failed(e) && has_code(e, 404)),
{
    if step_on_subscriptions(scope, saved, subs) is GetCsv {
        lemma_no_subscription(subs->Ok_0@, scope.package, 0);
    }
}

} // verus!
