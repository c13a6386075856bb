//! Identity of a Kubernetes object, and what API discovery says of its kind.

use vstd::prelude::*;
use vstd::string::*;

use crate::collections::KeyMap;
use crate::text::{copy_opt, opt_text, quoted, quoted_opt, quoted_opt_text, quoted_text, same_opt};

verus! {

/// Group, version, kind, namespace, name and, once observed, UID of an object.
#[derive(Debug, PartialEq, Eq, Hash)]
pub struct ResourceId {
    pub group: String,
    pub version: String,
    pub kind: String,
    pub namespace: Option<String>,
    pub name: String,
    pub uid: Option<String>,
}

/// The texts of a [`ResourceId`].
#[verifier::ext_equal]
pub struct ResourceIdView {
    pub group: Seq<char>,
    pub version: Seq<char>,
    pub kind: Seq<char>,
    pub namespace: Option<Seq<char>>,
    pub name: Seq<char>,
    pub uid: Option<Seq<char>>,
}

impl View for ResourceId {
    type V = ResourceIdView;

    open spec fn view(&self) -> ResourceIdView {
        ResourceIdView {
            group: self.group@,
            version: self.version@,
            kind: self.kind@,
            namespace: opt_text(self.namespace),
            name: self.name@,
            uid: opt_text(self.uid),
        }
    }
}

impl Clone for ResourceId {
    fn clone(&self) -> (r: Self)
        ensures
            r == *self,
    {
        ResourceId {
            group: self.group.clone(),
            version: self.version.clone(),
            kind: self.kind.clone(),
            namespace: copy_opt(&self.namespace),
            name: self.name.clone(),
            uid: copy_opt(&self.uid),
        }
    }
}

/// Two identities agree in everything but, perhaps, the UID.
pub open spec fn same_object(a: ResourceIdView, b: ResourceIdView) -> bool {
    &&& a.group == b.group
    &&& a.version == b.version
    &&& a.kind == b.kind
    &&& a.namespace == b.namespace
    &&& a.name == b.name
}

/// Two identities agree in group, kind, namespace and name.
pub open spec fn same_slot(a: ResourceIdView, b: ResourceIdView) -> bool {
    &&& a.group == b.group
    &&& a.kind == b.kind
    &&& a.namespace == b.namespace
    &&& a.name == b.name
}

/// One of `ids` is `id`, UID included.
pub open spec fn has_id(ids: Seq<ResourceId>, id: ResourceIdView) -> bool {
    exists|i: int| 0 <= i < ids.len() && (#[trigger] ids[i])@ == id
}

/// `kind/name`.
pub open spec fn label(id: ResourceIdView) -> Seq<char> {
    id.kind + "/"@ + id.name
}

/// The identity carries a UID that is not empty.
pub open spec fn uid_bound(id: ResourceIdView) -> bool {
    id.uid is Some && id.uid->0.len() > 0
}

/// The debug form of an identity.
pub open spec fn debug_form(id: ResourceIdView) -> Seq<char> {
    "ResourceId { group: "@ + quoted_text(id.group) + ", version: "@ + quoted_text(id.version)
        + ", kind: "@ + quoted_text(id.kind) + ", namespace: "@ + quoted_opt_text(id.namespace)
        + ", name: "@ + quoted_text(id.name) + ", uid: "@ + quoted_opt_text(id.uid) + " }"@
}

impl ResourceId {
    /// Whether two identities agree, UID included.
    pub fn same(&self, other: &ResourceId) -> (r: bool)
        ensures
            r == (self@ == other@),
    {
        self.group == other.group && self.version == other.version && self.kind == other.kind
            && same_opt(&self.namespace, &other.namespace) && self.name == other.name && same_opt(
            &self.uid,
            &other.uid,
        )
    }

    /// Whether two identities agree in everything but, perhaps, the UID.
    pub fn is_same_object(&self, other: &ResourceId) -> (r: bool)
        ensures
            r == same_object(self@, other@),
    {
        self.group == other.group && self.version == other.version && self.kind == other.kind
            && same_opt(&self.namespace, &other.namespace) && self.name == other.name
    }

    /// Whether two identities agree in group, kind, namespace and name.
    pub fn is_same_slot(&self, other: &ResourceId) -> (r: bool)
        ensures
            r == same_slot(self@, other@),
    {
        self.group == other.group && self.kind == other.kind && same_opt(
            &self.namespace,
            &other.namespace,
        ) && self.name == other.name
    }

    /// Whether the identity carries a UID that is not empty.
    pub fn has_bound_uid(&self) -> (r: bool)
        ensures
            r == uid_bound(self@),
    {
        match &self.uid {
            Some(uid) => !uid.as_str().is_empty(),
            None => false,
        }
    }

    /// `kind/name`.
    pub fn label(&self) -> (r: String)
        ensures
            r@ == label(self@),
    {
        self.kind.clone().concat("/").concat(self.name.as_str())
    }

    /// The debug form of the identity.
    pub fn debug_text(&self) -> (r: String)
        ensures
            r@ == debug_form(self@),
    {
        "ResourceId { group: ".to_owned().concat(quoted(self.group.as_str()).as_str()).concat(
            ", version: ",
        ).concat(quoted(self.version.as_str()).as_str()).concat(", kind: ").concat(
            quoted(self.kind.as_str()).as_str(),
        ).concat(", namespace: ").concat(quoted_opt(&self.namespace).as_str()).concat(
            ", name: ",
        ).concat(quoted(self.name.as_str()).as_str()).concat(", uid: ").concat(
            quoted_opt(&self.uid).as_str(),
        ).concat(" }")
    }

    /// The same object under another UID.
    pub fn with_uid(&self, uid: Option<String>) -> (r: ResourceId)
        ensures
            r == (ResourceId { uid: uid, ..*self }),
    {
        let mut r = self.clone();
        r.uid = uid;
        r
    }
}

/// Whether one of `ids` is `id`, UID included.
pub fn contains_id(ids: &Vec<ResourceId>, id: &ResourceId) -> (r: bool)
    ensures
        r == has_id(ids@, id@),
{
    for i in 0..ids.len()
        invariant
            forall|j: int| 0 <= j < i ==> (#[trigger] ids@[j])@ != id@,
    {
        if ids[i].same(id) {
            assert(ids@[i as int]@ == id@);
            return true;
        }
    }
    false
}

/// A copy of a list of identities.
pub fn copy_ids(ids: &Vec<ResourceId>) -> (r: Vec<ResourceId>)
    ensures
        r@ == ids@,
{
    let mut out: Vec<ResourceId> = Vec::new();
    for i in 0..ids.len()
        invariant
            out@ == ids@.take(i as int),
    {
        out.push(ids[i].clone());
        assert(ids@.take(i + 1) =~= ids@.take(i as int).push(ids@[i as int]));
    }
    assert(ids@.take(ids.len() as int) =~= ids@);
    out
}

/// What API discovery says of a kind.
#[derive(Debug, PartialEq, Eq)]
pub struct KindInfo {
    pub group: String,
    pub version: String,
    pub plural: String,
    pub namespaced: bool,
}

/// Discovered kinds under `(group, kind)`.
pub type GroupKindMap = KeyMap<(String, String), KindInfo>;

/// Discovered kinds under `(group, version, kind)`.
pub type GvkMap = KeyMap<(String, String, String), KindInfo>;

/// The kind under the lower-case `plural.group`.
pub type GvrMap = KeyMap<String, String>;

/// Discovered kinds under the kind alone.
pub type KindMap = KeyMap<String, KindInfo>;

/// Two identities are of the same object exactly where group, version, kind, namespace
/// and name agree, and in the same slot exactly where group, kind, namespace and name
/// do; the UID never matters. An identity is bound where its UID is there and not
/// empty.
pub proof fn law_same_object_and_slot(a: ResourceIdView, b: ResourceIdView)
    ensures
        same_object(a, b) <==> a == (ResourceIdView { uid: a.uid, ..b }),
        same_slot(a, b) <==> a == (ResourceIdView { uid: a.uid, version: a.version, ..b }),
        same_object(a, b) ==> same_slot(a, b),
        uid_bound(a) <==> a.uid is Some && a.uid != Some(Seq::<char>::empty()),
{
    if a.uid is Some && a.uid->0.len() == 0 {
        assert(a.uid->0 =~= Seq::<char>::empty());
    }
}

} // verus!
