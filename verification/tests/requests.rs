//! What is asked of the API server before and after a DELETE.

use teardown::cluster::{GetReply, LiveObject, RequestError};
use teardown::collections::KeyMap;
use teardown::executor::checks::{
    check_finalizers, check_finalizers_endpoint, count_live_api_service_instances,
    count_live_cr_instances, find_kind_of_crd, find_types_of_service, unresolved_finalizers,
    CountStep,
};
use teardown::executor::deletion::{
    after_delete, after_endpoint, after_get, gate_closed_outcome, outcome_of,
    refuse_unnamed_subscription, unresolved_delete, AbsentAfter, DeleteOutcome, DeleteResult,
    DeleteStep,
};
use teardown::executor::result::{confirms, FinalizerCheckResult, LiveCount};
use teardown::planner::Action;
use teardown::resource::{KindInfo, ResourceId};
use teardown::watch::{planned_state, ResourceRuntimeState};

fn res(kind: &str) -> ResourceId {
    ResourceId {
        group: if kind == "Subscription" {
            "operators.coreos.com".to_string()
        } else {
            String::new()
        },
        version: "v1".to_string(),
        kind: kind.to_string(),
        namespace: Some("ns".to_string()),
        name: "o".to_string(),
        uid: Some("uid-o".to_string()),
    }
}

fn live(uid: &str, spec_name: Option<&str>, version: Option<&str>) -> GetReply {
    GetReply::Found(LiveObject {
        name: Some("o".to_string()),
        namespace: Some("ns".to_string()),
        uid: Some(uid.to_string()),
        resource_version: version.map(String::from),
        terminating: true,
        finalizers: vec!["f".to_string()],
        owner_references: vec![],
        labels: vec![],
        annotations: vec![],
        managers: vec![],
        spec_name: spec_name.map(String::from),
        template_service_account: None,
        service_account: None,
        installed_csv: None,
        current_csv: None,
    })
}

fn status(code: u16, message: &str) -> RequestError {
    RequestError::Status {
        code,
        reason: "Reason".to_string(),
        message: message.to_string(),
        text: "text".to_string(),
    }
}

fn done(step: DeleteStep) -> DeleteResult {
    match step {
        DeleteStep::Done(r) => r,
        other => panic!("unexpected {:?}", other),
    }
}

#[test]
fn a_delete_is_bound_to_the_uid_that_was_read() {
    assert!(matches!(
        after_get(&res("Widget"), &None, &live("uid-o", None, Some("7"))),
        DeleteStep::SendDelete { uid, resource_version: None } if uid == "uid-o"
    ));
    assert!(matches!(
        done(after_get(&res("Widget"), &None, &live("uid-2", None, None))),
        DeleteResult::Blocked(e) if e.starts_with("UID mismatch: plan expected uid-o but found uid-2")
    ));
}

#[test]
fn a_subscription_is_bound_to_its_package_and_version_too() {
    let package = Some("widgets".to_string());
    let get = |package: &Option<String>, reply: GetReply| {
        after_get(&res("Subscription"), package, &reply)
    };
    assert!(matches!(
        get(&package, live("uid-o", Some("widgets"), Some("7"))),
        DeleteStep::SendDelete { resource_version: Some(v), .. } if v == "7"
    ));
    let blocked = |package: &Option<String>, reply: GetReply| match done(get(package, reply)) {
        DeleteResult::Blocked(e) => e,
        other => panic!("unexpected {:?}", other),
    };
    assert_eq!(
        blocked(&None, live("uid-o", Some("widgets"), Some("7"))),
        "Subscription DELETE requires non-empty expected package name"
    );
    assert_eq!(
        blocked(&package, live("uid-o", None, Some("7"))),
        "Subscription has empty spec.name — cannot verify semantic identity"
    );
    assert_eq!(
        blocked(&package, live("uid-o", Some("gadgets"), Some("7"))),
        "Subscription spec.name changed from 'widgets' to 'gadgets' — semantic identity drift"
    );
    assert_eq!(
        blocked(&package, live("uid-o", Some("widgets"), None)),
        "Subscription has no resourceVersion — cannot set atomic precondition for semantic \
         identity"
    );
}

#[test]
fn a_get_that_fails_is_told_apart_from_absence() {
    let get = |e: RequestError| after_get(&res("Widget"), &None, &GetReply::Failed(e));
    assert!(matches!(
        get(status(404, "m")),
        DeleteStep::VerifyEndpoint(AbsentAfter::Get)
    ));
    assert!(matches!(
        done(get(status(403, "m"))),
        DeleteResult::Blocked(e) if e == "pre-delete GET: m"
    ));
    assert!(matches!(
        done(get(status(500, "m"))),
        DeleteResult::Unknown(e) if e == "pre-delete GET failed: text"
    ));
    assert!(matches!(
        after_endpoint(AbsentAfter::Get, true),
        DeleteResult::AlreadyGone
    ));
    assert!(matches!(
        after_endpoint(AbsentAfter::Get, false),
        DeleteResult::Unknown(_)
    ));
    assert!(matches!(
        after_endpoint(AbsentAfter::Delete, false),
        DeleteResult::Unknown(e) if e == "DELETE returned 404 but endpoint verification failed"
    ));
}

#[test]
fn the_answers_to_a_delete_are_sorted() {
    let answer = |code: u16, message: &str| {
        done(after_delete(false, &Err(status(code, message))))
    };
    assert!(matches!(
        done(after_delete(false, &Ok(()))),
        DeleteResult::Accepted
    ));
    assert!(matches!(
        after_delete(false, &Err(status(404, "m"))),
        DeleteStep::VerifyEndpoint(AbsentAfter::Delete)
    ));
    assert!(matches!(
        answer(409, "m"),
        DeleteResult::Blocked(e) if e == "UID conflict — resource recreated between GET and DELETE"
    ));
    assert!(matches!(
        done(after_delete(true, &Err(status(409, "m")))),
        DeleteResult::Blocked(e)
            if e == "Subscription modified between GET and DELETE (resourceVersion conflict)"
    ));
    assert!(matches!(
        answer(403, "Admission WEBHOOK \"x\" denied the request"),
        DeleteResult::Rejected(_)
    ));
    assert!(matches!(
        answer(403, "forbidden"),
        DeleteResult::Blocked(e) if e == "Reason: forbidden"
    ));
    assert!(matches!(answer(401, "m"), DeleteResult::Blocked(_)));
    assert!(matches!(answer(422, "m"), DeleteResult::Rejected(_)));
    assert!(matches!(answer(400, "m"), DeleteResult::Rejected(_)));
    assert!(matches!(answer(503, "m"), DeleteResult::Unknown(e) if e == "Reason: m"));
    assert!(matches!(answer(418, "m"), DeleteResult::Unknown(e) if e == "text"));
    assert!(matches!(
        done(after_delete(
            false,
            &Err(RequestError::Other {
                text: "timeout".to_string()
            })
        )),
        DeleteResult::Unknown(e) if e == "timeout"
    ));
}

#[test]
fn outcomes_that_stop_are_named() {
    assert!(!outcome_of(DeleteResult::Accepted).is_stop());
    assert!(!outcome_of(DeleteResult::Rejected("x".to_string())).is_stop());
    assert!(outcome_of(DeleteResult::Blocked("x".to_string())).is_stop());
    assert!(outcome_of(DeleteResult::Unknown("x".to_string())).is_stop());
    assert!(matches!(
        gate_closed_outcome(),
        DeleteOutcome::Blocked(e) if e == "Mutation gate closed"
    ));
    assert!(matches!(
        unresolved_delete(&res("Widget")),
        DeleteResult::Blocked(_) | DeleteResult::Unknown(_)
    ));
}

#[test]
fn a_subscription_needs_a_package() {
    assert!(refuse_unnamed_subscription(&res("Subscription"), &None).is_some());
    assert!(refuse_unnamed_subscription(&res("Subscription"), &Some(String::new())).is_some());
    assert!(
        refuse_unnamed_subscription(&res("Subscription"), &Some("widgets".to_string())).is_none()
    );
    assert!(refuse_unnamed_subscription(&res("Widget"), &None).is_none());
}

#[test]
fn finalizers_are_read_or_not_known() {
    assert!(matches!(
        check_finalizers(&live("uid-o", None, None)),
        Some(FinalizerCheckResult::Known { finalizers, terminating: true }) if finalizers == ["f"]
    ));
    assert!(check_finalizers(&GetReply::Failed(status(404, "m"))).is_none());
    assert!(matches!(
        check_finalizers(&GetReply::Failed(status(403, "m"))),
        Some(FinalizerCheckResult::Unknown(e)) if e == "GET failed: text"
    ));
    assert!(matches!(
        check_finalizers_endpoint(true),
        FinalizerCheckResult::Gone
    ));
    assert!(matches!(
        check_finalizers_endpoint(false),
        FinalizerCheckResult::Unknown(_)
    ));
    assert!(matches!(
        unresolved_finalizers(&res("Widget")),
        FinalizerCheckResult::Unknown(e) if e == "cannot resolve API for Widget/o"
    ));
}

fn info(version: &str) -> KindInfo {
    KindInfo {
        group: "x.io".to_string(),
        version: version.to_string(),
        plural: "widgets".to_string(),
        namespaced: true,
    }
}

#[test]
fn the_kind_of_a_crd_is_looked_up_in_lower_case() {
    let mut gvrs = KeyMap::new();
    gvrs.insert("widgets.x.io".to_string(), "Widget".to_string());
    let mut kinds = KeyMap::new();
    let unknown = |r: Result<(&String, &KindInfo), LiveCount>| match r {
        Err(LiveCount::Unknown(e)) => e,
        other => panic!("unexpected {:?}", other.is_ok()),
    };
    assert_eq!(
        unknown(find_kind_of_crd("widgets", &gvrs, &kinds)),
        "cannot parse CRD name: widgets"
    );
    assert_eq!(
        unknown(find_kind_of_crd("gadgets.x.io", &gvrs, &kinds)),
        "kind not found for gadgets.x.io"
    );
    assert_eq!(
        unknown(find_kind_of_crd("Widgets.x.io", &gvrs, &kinds)),
        "no GroupKind mapping for x.io/Widget"
    );
    kinds.insert(("x.io".to_string(), "Widget".to_string()), info("v1"));
    let (kind, found) = match find_kind_of_crd("WIDGETS.x.io", &gvrs, &kinds) {
        Ok(found) => found,
        Err(_) => panic!("Widget is known"),
    };
    assert_eq!(kind, "Widget");
    assert_eq!(found.plural, "widgets");
}

#[test]
fn live_objects_are_counted_up_to_one() {
    assert!(matches!(count_live_cr_instances(&Ok(0)), LiveCount::Zero));
    assert!(matches!(
        count_live_cr_instances(&Ok(1)),
        LiveCount::NonZero(1)
    ));
    assert!(matches!(
        count_live_cr_instances(&Err(status(403, "m"))),
        LiveCount::Unknown(e) if e == "list failed: text"
    ));
}

#[test]
fn an_api_service_serves_the_types_of_its_group_and_version() {
    let mut gvks = KeyMap::new();
    let key = |v: &str, k: &str| ("x.io".to_string(), v.to_string(), k.to_string());
    gvks.insert(key("v1", "Widget"), info("v1"));
    gvks.insert(key("v2", "Widget"), info("v2"));
    gvks.insert(key("v1", "Gadget"), info("v1"));
    let types = match find_types_of_service("v1.x.io", &gvks) {
        Ok(types) => types,
        Err(_) => panic!("v1.x.io serves two types"),
    };
    assert_eq!(types.len(), 2);
    assert_eq!(types[1].0 .2, "Gadget");
    // The first type that has objects, or that cannot be listed, decides.
    assert!(matches!(
        count_live_api_service_instances(&types, 0, &Ok(0)),
        CountStep::List(1)
    ));
    assert!(matches!(
        count_live_api_service_instances(&types, 1, &Ok(0)),
        CountStep::Counted(LiveCount::Zero)
    ));
    assert!(matches!(
        count_live_api_service_instances(&types, 0, &Ok(3)),
        CountStep::Counted(LiveCount::NonZero(1))
    ));
    assert!(matches!(
        count_live_api_service_instances(&types, 1, &Err(status(403, "m"))),
        CountStep::Counted(LiveCount::Unknown(e)) if e == "LIST x.io/Gadget failed: text"
    ));
    assert!(matches!(
        find_types_of_service("v3.x.io", &gvks),
        Err(LiveCount::Unknown(e)) if e == "no discovered resources for APIService v3.x.io"
    ));
    assert!(matches!(
        find_types_of_service("v1", &gvks),
        Err(LiveCount::Unknown(e)) if e == "cannot parse APIService name: v1"
    ));
}

#[test]
fn a_run_is_confirmed_by_a_word() {
    assert!(confirms(" yes\n"));
    assert!(confirms("YES"));
    assert!(!confirms("no"));
    assert!(!confirms(""));
}

#[test]
fn what_is_known_of_an_object_follows_its_delete() {
    assert_eq!(
        DeleteResult::Accepted.runtime_state(),
        Some(ResourceRuntimeState::DeleteRequested)
    );
    assert_eq!(
        DeleteResult::AlreadyGone.runtime_state(),
        Some(ResourceRuntimeState::Gone)
    );
    assert_eq!(DeleteResult::Rejected("no".to_string()).runtime_state(), None);
    assert_eq!(
        DeleteResult::Blocked("stop".to_string()).runtime_state(),
        Some(ResourceRuntimeState::Failed {
            reason: "stop".to_string()
        })
    );
    assert_eq!(
        DeleteResult::Unknown("lost".to_string()).runtime_state(),
        Some(ResourceRuntimeState::Failed {
            reason: "lost".to_string()
        })
    );
}

#[test]
fn what_is_known_of_an_object_begins_with_the_plan() {
    let delete = Action::Delete {
        resource: res("Pod"),
        reason: String::new(),
    };
    let expect = Action::ExpectGone {
        resource: res("Pod"),
        reason: String::new(),
    };
    let wait = Action::WaitGone {
        resource: res("Pod"),
    };
    let keep = Action::Keep {
        resource: res("Pod"),
        reason: String::new(),
    };
    assert_eq!(planned_state(&delete), ResourceRuntimeState::Planned);
    assert_eq!(planned_state(&expect), ResourceRuntimeState::ExpectingGone);
    assert_eq!(planned_state(&wait), ResourceRuntimeState::ExpectingGone);
    assert_eq!(planned_state(&keep), ResourceRuntimeState::Keep);
}
