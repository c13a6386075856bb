//! What comes back from the Kubernetes API.

use vstd::prelude::*;

use crate::text::text_or;

verus! {

/// Why a request failed.
#[derive(Debug)]
pub enum RequestError {
    /// The API server answered with an error status.
    Status { code: u16, reason: String, message: String, text: String },
    /// The request got no answer that could be read.
    Other { text: String },
}

/// The API server answered with the status `code`.
pub open spec fn has_code(e: RequestError, code: int) -> bool {
    e matches RequestError::Status { code: c, .. } && c == code
}

/// The whole error as text.
pub open spec fn error_text(e: RequestError) -> Seq<char> {
    match e {
        RequestError::Status { text, .. } => text@,
        RequestError::Other { text } => text@,
    }
}

impl RequestError {
    /// The whole error as text.
    pub fn text(&self) -> (r: &str)
        ensures
            r@ == error_text(*self),
    {
        match self {
            RequestError::Status { text, .. } => text.as_str(),
            RequestError::Other { text } => text.as_str(),
        }
    }

    /// Whether the API server answered with the status `code`.
    pub fn has_code(&self, code: u16) -> (r: bool)
        ensures
            r == has_code(*self, code as int),
    {
        match self {
            RequestError::Status { code: c, .. } => *c == code,
            RequestError::Other { .. } => false,
        }
    }
}

/// A reference from an object to its owner.
#[derive(Debug)]
pub struct OwnerReference {
    pub api_version: String,
    pub kind: String,
    pub name: String,
    pub uid: String,
    pub controller: Option<bool>,
    pub block_owner_deletion: Option<bool>,
}

/// What is read of an object. Absent lists are empty.
#[derive(Debug)]
pub struct LiveObject {
    pub name: Option<String>,
    pub namespace: Option<String>,
    pub uid: Option<String>,
    pub resource_version: Option<String>,
    /// The object has a deletion timestamp.
    pub terminating: bool,
    pub finalizers: Vec<String>,
    pub owner_references: Vec<OwnerReference>,
    pub labels: Vec<(String, String)>,
    pub annotations: Vec<(String, String)>,
    /// The managers named by the managed fields.
    pub managers: Vec<String>,
    /// `spec.name`, where it is a string.
    pub spec_name: Option<String>,
    /// `spec.template.spec.serviceAccountName`, where it is a string.
    pub template_service_account: Option<String>,
    /// `spec.serviceAccountName`, where it is a string.
    pub service_account: Option<String>,
    /// `status.installedCSV`, where it is a string.
    pub installed_csv: Option<String>,
    /// `status.currentCSV`, where it is a string.
    pub current_csv: Option<String>,
}

/// The UID of an object, or the empty text.
pub open spec fn live_uid(o: LiveObject) -> Seq<char> {
    text_or(o.uid, seq![])
}

/// `spec.name` of an object, or the empty text.
pub open spec fn live_spec_name(o: LiveObject) -> Seq<char> {
    text_or(o.spec_name, seq![])
}

/// An optional string, or the empty text.
pub fn or_empty(o: &Option<String>) -> (r: &str)
    ensures
        r@ == text_or(*o, seq![]),
{
    match o {
        Some(s) => s.as_str(),
        None => {
            proof {
                reveal_strlit("");
            }
            let r = "";
            assert(r@ =~= seq![]);
            r
        },
    }
}

/// The answer to a GET.
#[derive(Debug)]
pub enum GetReply {
    Found(LiveObject),
    Failed(RequestError),
}

} // verus!
