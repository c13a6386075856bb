//! What is known of finalizers.

use teardown::cluster::{GetReply, RequestError};
use teardown::finalizers::{check_resource_finalizers, requires_serialization, FinalizerCheck};
use teardown::resource::ResourceId;

fn make_resource(kind: &str, name: &str) -> ResourceId {
    ResourceId {
        group: "test.example.com".to_string(),
        version: "v1".to_string(),
        kind: kind.to_string(),
        namespace: Some("test-ns".to_string()),
        name: name.to_string(),
        uid: None,
    }
}

#[test]
fn unknown_finalizer_check_triggers_serialization() {
    let results = vec![
        (make_resource("Pod", "a"), FinalizerCheck::KnownEmpty),
        (
            make_resource("Pod", "b"),
            FinalizerCheck::Unknown("GET failed".to_string()),
        ),
    ];
    assert!(requires_serialization(&results));
}

#[test]
fn known_finalizers_trigger_serialization() {
    let results = vec![(
        make_resource("Pod", "a"),
        FinalizerCheck::KnownFinalizers(vec!["foo/bar".to_string()]),
    )];
    assert!(requires_serialization(&results));
}

#[test]
fn all_empty_does_not_trigger_serialization() {
    let results = vec![
        (make_resource("Pod", "a"), FinalizerCheck::KnownEmpty),
        (make_resource("Pod", "b"), FinalizerCheck::KnownEmpty),
    ];
    assert!(!requires_serialization(&results));
}

#[test]
fn empty_results_does_not_trigger_serialization() {
    let results: Vec<(ResourceId, FinalizerCheck)> = vec![];
    assert!(!requires_serialization(&results));
}

fn status(code: u16) -> GetReply {
    GetReply::Failed(RequestError::Status {
        code,
        reason: "r".to_string(),
        message: "m".to_string(),
        text: format!("ApiError: {}", code),
    })
}

#[test]
fn missing_object_has_no_finalizers() {
    let check = check_resource_finalizers(&make_resource("Pod", "a"), &Some(status(404)));
    assert!(matches!(check, FinalizerCheck::KnownEmpty));
}

#[test]
fn failed_get_leaves_finalizers_unknown() {
    match check_resource_finalizers(&make_resource("Pod", "a"), &Some(status(403))) {
        FinalizerCheck::Unknown(e) => assert_eq!(e, "GET failed: ApiError: 403"),
        other => panic!("unexpected {:?}", other),
    }
}

#[test]
fn unresolved_kind_leaves_finalizers_unknown() {
    match check_resource_finalizers(&make_resource("Pod", "a"), &None) {
        FinalizerCheck::Unknown(e) => assert_eq!(e, "cannot resolve API for Pod/a"),
        other => panic!("unexpected {:?}", other),
    }
}
