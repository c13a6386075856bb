//! Deleting one object: read it, make sure it is the one that was planned, and
//! only then send a DELETE that is bound to its UID.

use vstd::prelude::*;
use vstd::string::*;

use crate::cluster::{
    error_text, has_code, live_spec_name, live_uid, or_empty, GetReply, LiveObject, RequestError,
};
use crate::resource::{label, ResourceId, ResourceIdView};
use crate::text::{contains, lower_text, lowercase, occurs, same, text_or};
use crate::watch::ResourceRuntimeState;

verus! {

/// How an attempt to delete an object ended.
#[derive(Debug)]
pub enum DeleteResult {
    /// The API server took the DELETE. The object need not be gone yet.
    Accepted,
    /// The object was not there, and its endpoint was.
    AlreadyGone,
    /// The API server turned the DELETE down without changing anything.
    Rejected(String),
    /// The attempt must not be repeated as it stands.
    Blocked(String),
    /// Nobody knows whether the object was deleted.
    Unknown(String),
}

/// The contents of a [`DeleteResult`].
pub enum DeleteResultView {
    Accepted,
    AlreadyGone,
    Rejected(Seq<char>),
    Blocked(Seq<char>),
    Unknown(Seq<char>),
}

impl View for DeleteResult {
    type V = DeleteResultView;

    open spec fn view(&self) -> DeleteResultView {
        match self {
            DeleteResult::Accepted => DeleteResultView::Accepted,
            DeleteResult::AlreadyGone => DeleteResultView::AlreadyGone,
            DeleteResult::Rejected(s) => DeleteResultView::Rejected(s@),
            DeleteResult::Blocked(s) => DeleteResultView::Blocked(s@),
            DeleteResult::Unknown(s) => DeleteResultView::Unknown(s@),
        }
    }
}

/// What is known of an object after an attempt to delete it; nothing new where the
/// DELETE was turned down.
pub open spec fn state_after(r: DeleteResult) -> Option<ResourceRuntimeState> {
    match r {
        DeleteResult::Accepted => Some(ResourceRuntimeState::DeleteRequested),
        DeleteResult::AlreadyGone => Some(ResourceRuntimeState::Gone),
        DeleteResult::Rejected(_) => None,
        DeleteResult::Blocked(reason) => Some(ResourceRuntimeState::Failed { reason }),
        DeleteResult::Unknown(reason) => Some(ResourceRuntimeState::Failed { reason }),
    }
}

impl DeleteResult {
    /// What is known of the object after the attempt.
    pub fn runtime_state(&self) -> (r: Option<ResourceRuntimeState>)
        ensures
            r == state_after(*self),
    {
        match self {
            DeleteResult::Accepted => Some(ResourceRuntimeState::DeleteRequested),
            DeleteResult::AlreadyGone => Some(ResourceRuntimeState::Gone),
            DeleteResult::Rejected(_) => None,
            DeleteResult::Blocked(reason) | DeleteResult::Unknown(reason) => Some(
                ResourceRuntimeState::Failed { reason: reason.clone() },
            ),
        }
    }
}

/// Which request answered that the object is not there.
#[derive(Debug, Clone, Copy, PartialEq, Eq, Structural)]
pub enum AbsentAfter {
    Get,
    Delete,
}

/// What comes next in an attempt to delete an object.
#[derive(Debug)]
pub enum DeleteStep {
    /// The attempt is over.
    Done(DeleteResult),
    /// List one object of the kind, to tell an absent object from an absent endpoint.
    VerifyEndpoint(AbsentAfter),
    /// Send a DELETE with these preconditions.
    SendDelete { uid: String, resource_version: Option<String> },
}

/// The contents of a [`DeleteStep`].
pub enum DeleteStepView {
    Done(DeleteResultView),
    VerifyEndpoint(AbsentAfter),
    SendDelete { uid: Seq<char>, resource_version: Option<Seq<char>> },
}

impl View for DeleteStep {
    type V = DeleteStepView;

    open spec fn view(&self) -> DeleteStepView {
        match self {
            DeleteStep::Done(r) => DeleteStepView::Done(r@),
            DeleteStep::VerifyEndpoint(a) => DeleteStepView::VerifyEndpoint(*a),
            DeleteStep::SendDelete { uid, resource_version } => DeleteStepView::SendDelete {
                uid: uid@,
                resource_version: crate::text::opt_text(*resource_version),
            },
        }
    }
}

/// The object is an operator subscription, which is told by its package too.
pub open spec fn is_subscription(id: ResourceIdView) -> bool {
    id.kind == "Subscription"@ && id.group == "operators.coreos.com"@
}

/// Whether the object is an operator subscription.
pub fn subscription(resource: &ResourceId) -> (r: bool)
    ensures
        r == is_subscription(resource@),
{
    same(resource.kind.as_str(), "Subscription") && same(
        resource.group.as_str(),
        "operators.coreos.com",
    )
}

/// Lower-case text in which an admission webhook denies a request.
pub open spec fn denial_words(lower: Seq<char>) -> bool {
    occurs(lower, "admission webhook"@) && occurs(lower, "denied"@)
}

/// Whether a lower-case text says that an admission webhook denied a request.
pub fn has_denial_words(lower: &str) -> (r: bool)
    ensures
        r == denial_words(lower@),
{
    contains(lower, "admission webhook") && contains(lower, "denied")
}

/// Whether a message says, in any case, that an admission webhook denied a request.
pub fn is_admission_webhook_denial(message: &str) -> (r: bool)
    ensures
        r == denial_words(lower_text(message@)),
{
    has_denial_words(lowercase(message).as_str())
}

/// Why a live UID is not the planned one, or `None` where it is.
pub open spec fn identity_fault(plan_uid: Option<Seq<char>>, live: Seq<char>) -> Option<Seq<char>> {
    if plan_uid is None || plan_uid->0.len() == 0 {
        Some("plan resource has no UID — cannot verify identity for safe DELETE"@)
    } else if live.len() == 0 {
        Some("live resource has no UID — cannot verify identity for safe DELETE"@)
    } else if live != plan_uid->0 {
        Some(
            "UID mismatch: plan expected "@ + plan_uid->0 + " but found "@ + live
                + " — resource may have been recreated"@,
        )
    } else {
        None
    }
}

/// Holds the live UID of an object against the planned one. Both must be there,
/// and be the same.
pub fn verify_delete_identity(plan_uid: &Option<String>, current_uid: &str) -> (r: Result<
    (),
    String,
>)
    ensures
        match r {
            Ok(_) => identity_fault(crate::text::opt_text(*plan_uid), current_uid@) is None,
            Err(e) => identity_fault(crate::text::opt_text(*plan_uid), current_uid@) == Some(e@),
        },
{
    let plan = match plan_uid {
        Some(uid) if !uid.as_str().is_empty() => uid.as_str(),
        _ => {
            return Err(
                "plan resource has no UID — cannot verify identity for safe DELETE".to_owned(),
            );
        },
    };
    if current_uid.is_empty() {
        return Err("live resource has no UID — cannot verify identity for safe DELETE".to_owned());
    }
    if !same(current_uid, plan) {
        return Err(
            "UID mismatch: plan expected ".to_owned().concat(plan).concat(" but found ").concat(
                current_uid,
            ).concat(" — resource may have been recreated"),
        );
    }
    Ok(())
}

/// The identity check passes exactly where the plan holds a UID that is not
/// empty and the live object carries the same one.
pub proof fn law_identity_needs_equal_uids(plan_uid: Option<Seq<char>>, live: Seq<char>)
    ensures
        identity_fault(plan_uid, live) is None <==> plan_uid == Some(live) && live.len() > 0,
{
}

/// An optional text that is there and not empty.
pub open spec fn named(package: Option<Seq<char>>) -> bool {
    package is Some && package->0.len() > 0
}

/// What follows on finding the object `o` for the planned `id`.
pub open spec fn step_on_found(
    id: ResourceIdView,
    package: Option<Seq<char>>,
    o: LiveObject,
) -> DeleteStepView {
    let fault = identity_fault(id.uid, live_uid(o));
    let spec_name = live_spec_name(o);
    let version = text_or(o.resource_version, seq![]);
    if fault is Some {
        DeleteStepView::Done(DeleteResultView::Blocked(fault->0))
    } else if !is_subscription(id) {
        DeleteStepView::SendDelete { uid: live_uid(o), resource_version: None }
    } else if !named(package) {
        DeleteStepView::Done(
            DeleteResultView::Blocked(
                "Subscription DELETE requires non-empty expected package name"@,
            ),
        )
    } else if spec_name.len() == 0 {
        DeleteStepView::Done(
            DeleteResultView::Blocked(
                "Subscription has empty spec.name — cannot verify semantic identity"@,
            ),
        )
    } else if spec_name != package->0 {
        DeleteStepView::Done(
            DeleteResultView::Blocked(
                "Subscription spec.name changed from '"@ + package->0 + "' to '"@ + spec_name
                    + "' — semantic identity drift"@,
            ),
        )
    } else if version.len() == 0 {
        DeleteStepView::Done(
            DeleteResultView::Blocked(
                "Subscription has no resourceVersion — cannot set atomic precondition for semantic identity"@,
            ),
        )
    } else {
        DeleteStepView::SendDelete { uid: live_uid(o), resource_version: Some(version) }
    }
}

/// What follows on a GET that failed.
pub open spec fn step_on_get_error(e: RequestError) -> DeleteStepView {
    if has_code(e, 404) {
        DeleteStepView::VerifyEndpoint(AbsentAfter::Get)
    } else if has_code(e, 403) || has_code(e, 401) {
        DeleteStepView::Done(
            DeleteResultView::Blocked("pre-delete GET: "@ + e->Status_message@),
        )
    } else {
        DeleteStepView::Done(
            DeleteResultView::Unknown("pre-delete GET failed: "@ + error_text(e)),
        )
    }
}

/// What follows on the answer to the GET.
pub open spec fn step_on_get(
    id: ResourceIdView,
    package: Option<Seq<char>>,
    reply: GetReply,
) -> DeleteStepView {
    match reply {
        GetReply::Found(o) => step_on_found(id, package, o),
        GetReply::Failed(e) => step_on_get_error(e),
    }
}

/// `reason: message` of an error status.
pub open spec fn status_text(e: RequestError) -> Seq<char> {
    e->Status_reason@ + ": "@ + e->Status_message@
}

/// What follows on a DELETE that failed. `semantic` says whether the DELETE was
/// bound to a resource version too.
pub open spec fn step_on_delete_error(semantic: bool, e: RequestError) -> DeleteStepView {
    if e is Other {
        DeleteStepView::Done(DeleteResultView::Unknown(error_text(e)))
    } else if has_code(e, 404) {
        DeleteStepView::VerifyEndpoint(AbsentAfter::Delete)
    } else if has_code(e, 409) {
        DeleteStepView::Done(
            DeleteResultView::Blocked(
                if semantic {
                    "Subscription modified between GET and DELETE (resourceVersion conflict)"@
                } else {
                    "UID conflict — resource recreated between GET and DELETE"@
                },
            ),
        )
    } else if has_code(e, 401) {
        DeleteStepView::Done(DeleteResultView::Blocked(status_text(e)))
    } else if has_code(e, 403) {
        if denial_words(lower_text(e->Status_message@)) {
            DeleteStepView::Done(DeleteResultView::Rejected(status_text(e)))
        } else {
            DeleteStepView::Done(DeleteResultView::Blocked(status_text(e)))
        }
    } else if has_code(e, 400) || has_code(e, 422) {
        DeleteStepView::Done(DeleteResultView::Rejected(status_text(e)))
    } else if e->Status_code >= 500 {
        DeleteStepView::Done(DeleteResultView::Unknown(status_text(e)))
    } else {
        DeleteStepView::Done(DeleteResultView::Unknown(error_text(e)))
    }
}

/// What follows on the answer to the DELETE.
pub open spec fn step_on_delete(semantic: bool, reply: Result<(), RequestError>) -> DeleteStepView {
    match reply {
        Ok(_) => DeleteStepView::Done(DeleteResultView::Accepted),
        Err(e) => step_on_delete_error(semantic, e),
    }
}

/// How an attempt ends once the endpoint has been looked at.
pub open spec fn result_on_endpoint(after: AbsentAfter, endpoint_ok: bool) -> DeleteResultView {
    if endpoint_ok {
        DeleteResultView::AlreadyGone
    } else {
        match after {
            AbsentAfter::Get => DeleteResultView::Unknown(
                "pre-delete GET returned 404 but API endpoint verification failed — cannot distinguish object absence from endpoint absence"@,
            ),
            AbsentAfter::Delete => DeleteResultView::Unknown(
                "DELETE returned 404 but endpoint verification failed"@,
            ),
        }
    }
}

fn blocked(reason: &str) -> (r: DeleteStep)
    ensures
        r@ == DeleteStepView::Done(DeleteResultView::Blocked(reason@)),
{
    DeleteStep::Done(DeleteResult::Blocked(reason.to_owned()))
}

/// How an attempt ends where discovery does not know the kind of the object.
pub fn unresolved_delete(resource: &ResourceId) -> (r: DeleteResult)
    ensures
        r@ == DeleteResultView::Blocked("cannot resolve API for "@ + label(resource@)),
{
    DeleteResult::Blocked("cannot resolve API for ".to_owned().concat(resource.label().as_str()))
}

/// What follows on the answer to the GET for `resource`. A subscription must be
/// of the expected package.
pub fn after_get(
    resource: &ResourceId,
    expected_package: &Option<String>,
    reply: &GetReply,
) -> (r: DeleteStep)
    ensures
        r@ == step_on_get(resource@, crate::text::opt_text(*expected_package), *reply),
{
    let o = match reply {
        GetReply::Found(o) => o,
        GetReply::Failed(e) => {
            return match e {
                RequestError::Status { code, message, .. } => if *code == 404 {
                    DeleteStep::VerifyEndpoint(AbsentAfter::Get)
                } else if *code == 403 || *code == 401 {
                    DeleteStep::Done(
                        DeleteResult::Blocked(
                            "pre-delete GET: ".to_owned().concat(message.as_str()),
                        ),
                    )
                } else {
                    DeleteStep::Done(
                        DeleteResult::Unknown("pre-delete GET failed: ".to_owned().concat(e.text())),
                    )
                },
                RequestError::Other { .. } => DeleteStep::Done(
                    DeleteResult::Unknown("pre-delete GET failed: ".to_owned().concat(e.text())),
                ),
            };
        },
    };
    let uid = or_empty(&o.uid);
    match verify_delete_identity(&resource.uid, uid) {
        Err(reason) => {
            return DeleteStep::Done(DeleteResult::Blocked(reason));
        },
        Ok(_) => {},
    }
    if !subscription(resource) {
        return DeleteStep::SendDelete { uid: uid.to_owned(), resource_version: None };
    }
    let package = match expected_package {
        Some(p) if !p.as_str().is_empty() => p.as_str(),
        _ => {
            return blocked("Subscription DELETE requires non-empty expected package name");
        },
    };
    let spec_name = or_empty(&o.spec_name);
    if spec_name.is_empty() {
        return blocked("Subscription has empty spec.name — cannot verify semantic identity");
    }
    if !same(spec_name, package) {
        return DeleteStep::Done(
            DeleteResult::Blocked(
                "Subscription spec.name changed from '".to_owned().concat(package).concat(
                    "' to '",
                ).concat(spec_name).concat("' — semantic identity drift"),
            ),
        );
    }
    let version = or_empty(&o.resource_version);
    if version.is_empty() {
        return blocked(
            "Subscription has no resourceVersion — cannot set atomic precondition for semantic identity",
        );
    }
    DeleteStep::SendDelete { uid: uid.to_owned(), resource_version: Some(version.to_owned()) }
}

/// What follows on the answer to the DELETE. `semantic` says whether the DELETE
/// was bound to a resource version too.
pub fn after_delete(semantic: bool, reply: &Result<(), RequestError>) -> (r: DeleteStep)
    ensures
        r@ == step_on_delete(semantic, *reply),
{
    let e = match reply {
        Ok(_) => {
            return DeleteStep::Done(DeleteResult::Accepted);
        },
        Err(e) => e,
    };
    match e {
        RequestError::Other { text } => DeleteStep::Done(DeleteResult::Unknown(text.clone())),
        RequestError::Status { code, reason, message, text } => {
            let status = reason.clone().concat(": ").concat(message.as_str());
            if *code == 404 {
                DeleteStep::VerifyEndpoint(AbsentAfter::Delete)
            } else if *code == 409 {
                if semantic {
                    blocked(
                        "Subscription modified between GET and DELETE (resourceVersion conflict)",
                    )
                } else {
                    blocked("UID conflict — resource recreated between GET and DELETE")
                }
            } else if *code == 401 {
                DeleteStep::Done(DeleteResult::Blocked(status))
            } else if *code == 403 {
                if is_admission_webhook_denial(message.as_str()) {
                    DeleteStep::Done(DeleteResult::Rejected(status))
                } else {
                    DeleteStep::Done(DeleteResult::Blocked(status))
                }
            } else if *code == 400 || *code == 422 {
                DeleteStep::Done(DeleteResult::Rejected(status))
            } else if *code >= 500 {
                DeleteStep::Done(DeleteResult::Unknown(status))
            } else {
                DeleteStep::Done(DeleteResult::Unknown(text.clone()))
            }
        },
    }
}

/// How an attempt ends once the endpoint has been looked at.
pub fn after_endpoint(after: AbsentAfter, endpoint_ok: bool) -> (r: DeleteResult)
    ensures
        r@ == result_on_endpoint(after, endpoint_ok),
{
    if endpoint_ok {
        DeleteResult::AlreadyGone
    } else {
        match after {
            AbsentAfter::Get => DeleteResult::Unknown(
                "pre-delete GET returned 404 but API endpoint verification failed — cannot distinguish object absence from endpoint absence".to_owned(),
            ),
            AbsentAfter::Delete => DeleteResult::Unknown(
                "DELETE returned 404 but endpoint verification failed".to_owned(),
            ),
        }
    }
}

/// A DELETE is sent only to an object that carries the planned UID, and it is
/// bound to that UID; a subscription's DELETE only where the subscription is of
/// the expected package, and it is bound to the resource version that was read.
pub proof fn law_delete_is_bound(id: ResourceIdView, package: Option<Seq<char>>, reply: GetReply)
    requires
        step_on_get(id, package, reply) is SendDelete,
    ensures
        reply is Found,
        id.uid == Some(live_uid(reply->Found_0)),
        live_uid(reply->Found_0).len() > 0,
        step_on_get(id, package, reply)->SendDelete_uid == live_uid(reply->Found_0),
        is_subscription(id) ==> {
            &&& package == Some(live_spec_name(reply->Found_0))
            &&& live_spec_name(reply->Found_0).len() > 0
            &&& step_on_get(id, package, reply)->SendDelete_resource_version == Some(
                text_or(reply->Found_0.resource_version, seq![]),
            )
            &&& text_or(reply->Found_0.resource_version, seq![]).len() > 0
        },
{
}

/// An object counts as gone before its DELETE was taken only where a request
/// answered 404 and the endpoint was there.
pub proof fn law_gone_needs_endpoint(
    id: ResourceIdView,
    package: Option<Seq<char>>,
    get: GetReply,
    semantic: bool,
    delete: Result<(), RequestError>,
    after: AbsentAfter,
    endpoint_ok: bool,
)
    ensures
        step_on_get(id, package, get) != DeleteStepView::Done(DeleteResultView::AlreadyGone),
        step_on_delete(semantic, delete) != DeleteStepView::Done(DeleteResultView::AlreadyGone),
        step_on_get(id, package, get) is VerifyEndpoint ==> get is Failed && has_code(
            get->Failed_0,
            404,
        ),
        step_on_delete(semantic, delete) is VerifyEndpoint ==> delete is Err && has_code(
            delete->Err_0,
            404,
        ),
        result_on_endpoint(after, endpoint_ok) is AlreadyGone <==> endpoint_ok,
{
}

/// How an attempt to delete an object ended, for callers outside a plan.
#[derive(Debug, Clone)]
pub enum DeleteOutcome {
    Accepted,
    AlreadyGone,
    Rejected(String),
    Blocked(String),
    Unknown(String),
}

impl View for DeleteOutcome {
    type V = DeleteResultView;

    open spec fn view(&self) -> DeleteResultView {
        match self {
            DeleteOutcome::Accepted => DeleteResultView::Accepted,
            DeleteOutcome::AlreadyGone => DeleteResultView::AlreadyGone,
            DeleteOutcome::Rejected(s) => DeleteResultView::Rejected(s@),
            DeleteOutcome::Blocked(s) => DeleteResultView::Blocked(s@),
            DeleteOutcome::Unknown(s) => DeleteResultView::Unknown(s@),
        }
    }
}

impl DeleteOutcome {
    /// Whether nothing more may be deleted after this outcome.
    pub fn is_stop(&self) -> (r: bool)
        ensures
            r == (self@ is Blocked || self@ is Unknown),
    {
        match self {
            DeleteOutcome::Blocked(_) | DeleteOutcome::Unknown(_) => true,
            _ => false,
        }
    }
}

/// The outcome for a result.
pub fn outcome_of(result: DeleteResult) -> (r: DeleteOutcome)
    ensures
        r@ == result@,
{
    match result {
        DeleteResult::Accepted => DeleteOutcome::Accepted,
        DeleteResult::AlreadyGone => DeleteOutcome::AlreadyGone,
        DeleteResult::Rejected(s) => DeleteOutcome::Rejected(s),
        DeleteResult::Blocked(s) => DeleteOutcome::Blocked(s),
        DeleteResult::Unknown(s) => DeleteOutcome::Unknown(s),
    }
}

/// The outcome where the object may not be deleted at all: a subscription whose
/// package nobody has verified. Looked at before a permit is asked for.
pub fn refuse_unnamed_subscription(resource: &ResourceId, expected_package: &Option<String>) -> (r:
    Option<DeleteOutcome>)
    ensures
        r is Some <==> is_subscription(resource@) && !named(
            crate::text::opt_text(*expected_package),
        ),
        r matches Some(o) ==> o@ == DeleteResultView::Blocked(
            "Cannot DELETE Subscription "@ + label(resource@) + " without verified package name"@,
        ),
{
    if !subscription(resource) {
        return None;
    }
    match expected_package {
        Some(p) if !p.as_str().is_empty() => None,
        _ => Some(
            DeleteOutcome::Blocked(
                "Cannot DELETE Subscription ".to_owned().concat(resource.label().as_str()).concat(
                    " without verified package name",
                ),
            ),
        ),
    }
}

/// The outcome where the mutation gate is closed.
pub fn gate_closed_outcome() -> (r: DeleteOutcome)
    ensures
        r@ == DeleteResultView::Blocked("Mutation gate closed"@),
{
    DeleteOutcome::Blocked("Mutation gate closed".to_owned())
}

} // verus!
