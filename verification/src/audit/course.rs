//! The course of finding out whether the operator is still there.

use vstd::prelude::*;

use crate::audit::generation::{
    after_csv, after_csv_endpoint, after_csvs, after_deployment, after_deployment_endpoint,
    after_subscriptions, answer_on_csvs, first_drift, from_deployment, generation_scope,
    step_on_csv, step_on_csv_endpoint, step_on_deployment, step_on_deployment_endpoint,
    step_on_subscriptions, subscription_to,
    GenerationStep, GenerationStepView, GenerationView, OperatorGenerationState, PackageScope,
    ScopeView,
};
use crate::cluster::{has_code, GetReply, LiveObject, RequestError};
use crate::journal::CsvBaselineEntry;
use crate::plan::{OperatorGenerationIdentity, OperatorIdentitySnapshot};

verus! {

/// What is to be found out next.
#[derive(Debug)]
pub enum GenerationRun {
    /// The list of subscriptions in the namespace.
    ListSubscriptions { scope: PackageScope },
    /// What the step asks for. The subscriptions have been listed.
    Ask { scope: PackageScope, subscriptions: Vec<LiveObject>, step: GenerationStep },
    /// Nothing: this is the answer.
    Settled(OperatorGenerationState),
}

/// The contents of a [`GenerationRun`].
#[verifier::ext_equal]
pub enum GenerationRunView {
    ListSubscriptions { scope: ScopeView },
    Ask { scope: ScopeView, subscriptions: Seq<LiveObject>, step: GenerationStepView },
    Settled(GenerationView),
}

impl View for GenerationRun {
    type V = GenerationRunView;

    open spec fn view(&self) -> GenerationRunView {
        match self {
            GenerationRun::ListSubscriptions {
                scope,
            } => GenerationRunView::ListSubscriptions { scope: scope@ },
            GenerationRun::Ask { scope, subscriptions, step } => GenerationRunView::Ask {
                scope: scope@,
                subscriptions: subscriptions@,
                step: step@,
            },
            GenerationRun::Settled(s) => GenerationRunView::Settled(s@),
        }
    }
}

/// What the cluster says.
#[derive(Debug)]
pub enum GenerationEvent {
    /// The answer to a list.
    Listed(Result<Vec<LiveObject>, RequestError>),
    /// The reply to a GET.
    Reply(GetReply),
    /// Whether one object of the kind could be listed.
    Endpoint(bool),
}

/// The run at this step.
pub open spec fn entered(
    scope: ScopeView,
    subscriptions: Seq<LiveObject>,
    step: GenerationStepView,
) -> GenerationRunView {
    match step {
        GenerationStepView::Settled(s) => GenerationRunView::Settled(s),
        _ => GenerationRunView::Ask { scope, subscriptions, step },
    }
}

/// The objects of a list, or none.
pub open spec fn listed(reply: Result<Vec<LiveObject>, RequestError>) -> Seq<LiveObject> {
    match reply {
        Ok(v) => v@,
        Err(_) => seq![],
    }
}

/// The step that follows on an event, where one does.
pub open spec fn step_after(
    step: GenerationStepView,
    scope: ScopeView,
    subscriptions: Seq<LiveObject>,
    snapshot: OperatorIdentitySnapshot,
    baseline: Option<Vec<CsvBaselineEntry>>,
    e: GenerationEvent,
) -> Option<GenerationStepView> {
    match (step, e) {
        (GenerationStepView::GetCsv, GenerationEvent::Reply(r)) => Some(
            step_on_csv(snapshot.csv_name@, snapshot.csv.uid@, r),
        ),
        (GenerationStepView::VerifyCsvEndpoint, GenerationEvent::Endpoint(ok)) => Some(
            step_on_csv_endpoint(
                snapshot.controller_deployments@.len(),
                baseline is Some,
                ok,
            ),
        ),
        (GenerationStepView::GetDeployment(i), GenerationEvent::Reply(r)) => Some(
            step_on_deployment(snapshot.controller_deployments@[i], i, r),
        ),
        (GenerationStepView::VerifyDeploymentEndpoint(i), GenerationEvent::Endpoint(ok)) => Some(
            step_on_deployment_endpoint(snapshot, i, baseline is Some, ok),
        ),
        (GenerationStepView::ListCsvs, GenerationEvent::Listed(r)) => match baseline {
            Some(b) => Some(
                GenerationStepView::Settled(
                    answer_on_csvs(scope, snapshot.csv_name@, b@, subscriptions, r),
                ),
            ),
            None => None,
        },
        _ => None,
    }
}

/// The run after the cluster said something. What is not asked for changes nothing.
pub open spec fn generation_next(
    v: GenerationRunView,
    snapshot: OperatorIdentitySnapshot,
    baseline: Option<Vec<CsvBaselineEntry>>,
    e: GenerationEvent,
) -> GenerationRunView {
    match v {
        GenerationRunView::ListSubscriptions { scope } => match e {
            GenerationEvent::Listed(r) => entered(
                scope,
                listed(r),
                step_on_subscriptions(scope, snapshot.subscriptions@, r),
            ),
            _ => v,
        },
        GenerationRunView::Ask { scope, subscriptions, step } => match step_after(
            step,
            scope,
            subscriptions,
            snapshot,
            baseline,
            e,
        ) {
            Some(next) => entered(scope, subscriptions, next),
            None => v,
        },
        GenerationRunView::Settled(_) => v,
    }
}

/// The run asks for nothing but deployments of the snapshot, and for the
/// ClusterServiceVersions only where it is known which were there before.
pub open spec fn generation_fits(
    v: GenerationRunView,
    snapshot: OperatorIdentitySnapshot,
    baseline: Option<Vec<CsvBaselineEntry>>,
) -> bool {
    v matches GenerationRunView::Ask { step, .. } ==> match step {
        GenerationStepView::Settled(_) => false,
        GenerationStepView::GetDeployment(i) => 0 <= i < snapshot.controller_deployments@.len(),
        GenerationStepView::VerifyDeploymentEndpoint(i) => 0 <= i
            < snapshot.controller_deployments@.len(),
        GenerationStepView::ListCsvs => baseline is Some,
        _ => true,
    }
}

/// A run that begins.
pub open spec fn generation_begun(snapshot: OperatorIdentitySnapshot) -> GenerationRunView {
    match snapshot.generation_identity {
        OperatorGenerationIdentity::OlmPackage {
            package_name,
            install_namespace,
        } => GenerationRunView::ListSubscriptions {
            scope: ScopeView { package: package_name@, namespace: install_namespace@ },
        },
        OperatorGenerationIdentity::Unverifiable { reason } => GenerationRunView::Settled(
            GenerationView::Unknown("generation identity unverifiable: "@ + reason@),
        ),
    }
}

fn enter(scope: PackageScope, subscriptions: Vec<LiveObject>, step: GenerationStep) -> (r:
    GenerationRun)
    ensures
        r@ == entered(scope@, subscriptions@, step@),
{
    match step {
        GenerationStep::Settled(s) => GenerationRun::Settled(s),
        _ => GenerationRun::Ask { scope, subscriptions, step },
    }
}

impl GenerationRun {
    /// A run that begins.
    pub fn begin(snapshot: &OperatorIdentitySnapshot) -> (r: GenerationRun)
        ensures
            r@ == generation_begun(*snapshot),
    {
        match generation_scope(snapshot) {
            Ok(scope) => GenerationRun::ListSubscriptions { scope },
            Err(state) => GenerationRun::Settled(state),
        }
    }

    /// Tells the run what the cluster says.
    pub fn step(
        self,
        snapshot: &OperatorIdentitySnapshot,
        baseline: &Option<Vec<CsvBaselineEntry>>,
        event: GenerationEvent,
    ) -> (r: GenerationRun)
        requires
            generation_fits(self@, *snapshot, *baseline),
        ensures
            r@ == generation_next(self@, *snapshot, *baseline, event),
            generation_fits(r@, *snapshot, *baseline),
    {
        match self {
            GenerationRun::ListSubscriptions { scope } => match event {
                GenerationEvent::Listed(reply) => {
                    let step = after_subscriptions(&scope, snapshot, &reply);
                    let subscriptions = match reply {
                        Ok(v) => v,
                        Err(_) => Vec::new(),
                    };
                    enter(scope, subscriptions, step)
                },
                _ => GenerationRun::ListSubscriptions { scope },
            },
            GenerationRun::Ask { scope, subscriptions, step } => {
                let next = match step {
                    GenerationStep::GetCsv => match event {
                        GenerationEvent::Reply(reply) => after_csv(snapshot, &reply),
                        _ => step,
                    },
                    GenerationStep::VerifyCsvEndpoint => match event {
                        GenerationEvent::Endpoint(ok) => after_csv_endpoint(
                            snapshot,
                            baseline.is_some(),
                            ok,
                        ),
                        _ => step,
                    },
                    GenerationStep::GetDeployment(i) => match event {
                        GenerationEvent::Reply(reply) => after_deployment(snapshot, i, &reply),
                        _ => step,
                    },
                    GenerationStep::VerifyDeploymentEndpoint(i) => match event {
                        GenerationEvent::Endpoint(ok) => after_deployment_endpoint(
                            snapshot,
                            i,
                            baseline.is_some(),
                            ok,
                        ),
                        _ => step,
                    },
                    GenerationStep::ListCsvs => match (event, baseline) {
                        (GenerationEvent::Listed(reply), Some(b)) => GenerationStep::Settled(
                            after_csvs(&scope, snapshot, b, &subscriptions, &reply),
                        ),
                        _ => step,
                    },
                    GenerationStep::Settled(s) => GenerationStep::Settled(s),
                };
                enter(scope, subscriptions, next)
            },
            GenerationRun::Settled(s) => GenerationRun::Settled(s),
        }
    }
}

/// All that the cluster could be asked.
pub struct GenerationReadings {
    pub subscriptions: Result<Vec<LiveObject>, RequestError>,
    pub csv: GetReply,
    pub csv_endpoint: bool,
    /// The reply to the GET of each controller deployment.
    pub deployments: Seq<GetReply>,
    /// Whether deployments could be listed, each time it was asked.
    pub endpoints: Seq<bool>,
    pub csvs: Result<Vec<LiveObject>, RequestError>,
}

/// What the cluster says to what the run asks.
pub open spec fn answer_to(v: GenerationRunView, r: GenerationReadings) -> GenerationEvent {
    match v {
        GenerationRunView::ListSubscriptions { .. } => GenerationEvent::Listed(r.subscriptions),
        GenerationRunView::Ask { step, .. } => match step {
            GenerationStepView::GetCsv => GenerationEvent::Reply(r.csv),
            GenerationStepView::VerifyCsvEndpoint => GenerationEvent::Endpoint(r.csv_endpoint),
            GenerationStepView::GetDeployment(i) => GenerationEvent::Reply(r.deployments[i]),
            GenerationStepView::VerifyDeploymentEndpoint(i) => GenerationEvent::Endpoint(
                r.endpoints[i],
            ),
            _ => GenerationEvent::Listed(r.csvs),
        },
        GenerationRunView::Settled(_) => GenerationEvent::Endpoint(true),
    }
}

/// How many questions may still come.
pub open spec fn questions_left(v: GenerationRunView, deployments: int) -> int {
    match v {
        GenerationRunView::ListSubscriptions { .. } => 2 * deployments + 5,
        GenerationRunView::Ask { step, .. } => match step {
            GenerationStepView::Settled(_) => 0,
            GenerationStepView::GetCsv => 2 * deployments + 4,
            GenerationStepView::VerifyCsvEndpoint => 2 * deployments + 3,
            GenerationStepView::GetDeployment(i) => 2 * (deployments - i) + 2,
            GenerationStepView::VerifyDeploymentEndpoint(i) => 2 * (deployments - i) + 1,
            GenerationStepView::ListCsvs => 1,
        },
        GenerationRunView::Settled(_) => 0,
    }
}

/// The answer that a run comes to.
pub open spec fn verdict(
    v: GenerationRunView,
    snapshot: OperatorIdentitySnapshot,
    baseline: Option<Vec<CsvBaselineEntry>>,
    r: GenerationReadings,
) -> GenerationView
    decreases questions_left(v, snapshot.controller_deployments@.len() as int),
    when generation_fits(v, snapshot, baseline)
{
    match v {
        GenerationRunView::Settled(s) => s,
        _ => verdict(
            generation_next(v, snapshot, baseline, answer_to(v, r)),
            snapshot,
            baseline,
            r,
        ),
    }
}

/// The reply shows that the object is not there.
pub open spec fn not_found(reply: GetReply) -> bool {
    reply matches GetReply::Failed(e) && has_code(e, 404)
}

/// From position `i` on, every deployment is gone; and the ClusterServiceVersions are
/// all explained.
spec fn rest_is_gone(
    scope: ScopeView,
    subscriptions: Seq<LiveObject>,
    snapshot: OperatorIdentitySnapshot,
    baseline: Option<Vec<CsvBaselineEntry>>,
    r: GenerationReadings,
    i: int,
) -> bool {
    &&& forall|k: int|
        i <= k < snapshot.controller_deployments@.len() ==> not_found(
            #[trigger] r.deployments[k],
        ) && r.endpoints[k]
    &&& baseline matches Some(b) && answer_on_csvs(
        scope,
        snapshot.csv_name@,
        b@,
        subscriptions,
        r.csvs,
    ) is Absent
}

proof fn lemma_deployments(
    scope: ScopeView,
    subscriptions: Seq<LiveObject>,
    snapshot: OperatorIdentitySnapshot,
    baseline: Option<Vec<CsvBaselineEntry>>,
    r: GenerationReadings,
    i: int,
)
    requires
        0 <= i <= snapshot.controller_deployments@.len(),
    ensures
        ({
            let n = snapshot.controller_deployments@.len();
            let v = entered(scope, subscriptions, from_deployment(i, n, baseline is Some));
            &&& generation_fits(v, snapshot, baseline)
            &&& verdict(v, snapshot, baseline, r) is Absent <==> rest_is_gone(
                scope,
                subscriptions,
                snapshot,
                baseline,
                r,
                i,
            )
        }),
    decreases snapshot.controller_deployments@.len() - i,
{
    let n = snapshot.controller_deployments@.len();
    let v = entered(scope, subscriptions, from_deployment(i, n, baseline is Some));
    if i < n {
        lemma_deployments(scope, subscriptions, snapshot, baseline, r, i + 1);
        let w = generation_next(v, snapshot, baseline, answer_to(v, r));
        assert(verdict(v, snapshot, baseline, r) == verdict(w, snapshot, baseline, r));
        assert(!not_found(r.deployments[i]) ==> w is Settled && !(w->Settled_0 is Absent));
        if not_found(r.deployments[i]) {
            let x = generation_next(w, snapshot, baseline, answer_to(w, r));
            assert(verdict(w, snapshot, baseline, r) == verdict(x, snapshot, baseline, r));
            if r.endpoints[i] {
                assert(x == entered(scope, subscriptions, from_deployment(
                    i + 1,
                    n,
                    baseline is Some,
                )));
            }
        }
    } else if baseline is Some {
        let w = generation_next(v, snapshot, baseline, answer_to(v, r));
        assert(verdict(v, snapshot, baseline, r) == verdict(w, snapshot, baseline, r));
    }
}

/// The operator counts as absent exactly where all of this was seen: no subscription
/// is to its package and none that was observed has gone over to another one, its
/// ClusterServiceVersion and each of its controller deployments are not found while
/// others of their kinds can be listed, and every ClusterServiceVersion that is left
/// was there before the run and belongs elsewhere.
pub proof fn law_absent_means_all_gone(
    snapshot: OperatorIdentitySnapshot,
    baseline: Option<Vec<CsvBaselineEntry>>,
    r: GenerationReadings,
    package: String,
    namespace: String,
)
    requires
        snapshot.generation_identity == (OperatorGenerationIdentity::OlmPackage {
            package_name: package,
            install_namespace: namespace,
        }),
    ensures
        verdict(generation_begun(snapshot), snapshot, baseline, r) is Absent <==> {
            let scope = ScopeView { package: package@, namespace: namespace@ };
            let subs = listed(r.subscriptions);
            &&& r.subscriptions is Ok
            &&& first_drift(snapshot.subscriptions@, subs, package@, 0) is None
            &&& subscription_to(subs, package@, 0) is None
            &&& not_found(r.csv) && r.csv_endpoint
            &&& forall|k: int|
                0 <= k < snapshot.controller_deployments@.len() ==> not_found(
                    #[trigger] r.deployments[k],
                ) && r.endpoints[k]
            &&& baseline matches Some(b) && answer_on_csvs(
                scope,
                snapshot.csv_name@,
                b@,
                subs,
                r.csvs,
            ) is Absent
        },
{
    let scope = ScopeView { package: package@, namespace: namespace@ };
    let subs = listed(r.subscriptions);
    let n = snapshot.controller_deployments@.len();
    let a = generation_begun(snapshot);
    let b = generation_next(a, snapshot, baseline, answer_to(a, r));
    assert(verdict(a, snapshot, baseline, r) == verdict(b, snapshot, baseline, r));
    if b is Ask {
        assert(b == (GenerationRunView::Ask {
            scope,
            subscriptions: subs,
            step: GenerationStepView::GetCsv,
        }));
        let c = generation_next(b, snapshot, baseline, answer_to(b, r));
        assert(verdict(b, snapshot, baseline, r) == verdict(c, snapshot, baseline, r));
        if c is Ask {
            let d = generation_next(c, snapshot, baseline, answer_to(c, r));
            assert(verdict(c, snapshot, baseline, r) == verdict(d, snapshot, baseline, r));
            lemma_deployments(scope, subs, snapshot, baseline, r, 0);
            if r.csv_endpoint {
                assert(d == entered(scope, subs, from_deployment(0, n, baseline is Some)));
            }
        }
    }
}

} // verus!
