//! Which objects carry finalizers.

use vstd::prelude::*;
use vstd::string::*;

use crate::cluster::{error_text, has_code, GetReply, RequestError};
use crate::resource::{label, ResourceId, ResourceIdView};
use crate::text::{copy_texts, texts};

verus! {

/// What is known of the finalizers of an object.
#[derive(Debug, Clone)]
pub enum FinalizerCheck {
    KnownEmpty,
    KnownFinalizers(Vec<String>),
    Unknown(String),
}

/// The contents of a [`FinalizerCheck`].
#[verifier::ext_equal]
pub enum FinalizerView {
    KnownEmpty,
    KnownFinalizers(Seq<Seq<char>>),
    Unknown(Seq<char>),
}

impl View for FinalizerCheck {
    type V = FinalizerView;

    open spec fn view(&self) -> FinalizerView {
        match self {
            FinalizerCheck::KnownEmpty => FinalizerView::KnownEmpty,
            FinalizerCheck::KnownFinalizers(v) => FinalizerView::KnownFinalizers(texts(v@)),
            FinalizerCheck::Unknown(s) => FinalizerView::Unknown(s@),
        }
    }
}

/// What the GET of an object shows of its finalizers; no reply where discovery does
/// not know its kind. An object that is not there has none.
pub open spec fn finalizers_shown(id: ResourceIdView, reply: Option<GetReply>) -> FinalizerView {
    match reply {
        None => FinalizerView::Unknown("cannot resolve API for "@ + label(id)),
        Some(GetReply::Found(o)) => if o.finalizers@.len() == 0 {
            FinalizerView::KnownEmpty
        } else {
            FinalizerView::KnownFinalizers(texts(o.finalizers@))
        },
        Some(GetReply::Failed(e)) => if has_code(e, 404) {
            FinalizerView::KnownEmpty
        } else {
            FinalizerView::Unknown("GET failed: "@ + error_text(e))
        },
    }
}

/// Reads the finalizers of an object off its GET; no reply where discovery does not
/// know its kind.
pub fn check_resource_finalizers(resource: &ResourceId, reply: &Option<GetReply>) -> (r:
    FinalizerCheck)
    ensures
        r@ == finalizers_shown(resource@, *reply),
{
    match reply {
        None => FinalizerCheck::Unknown(
            "cannot resolve API for ".to_owned().concat(resource.label().as_str()),
        ),
        Some(GetReply::Found(o)) => {
            if o.finalizers.len() == 0 {
                FinalizerCheck::KnownEmpty
            } else {
                FinalizerCheck::KnownFinalizers(copy_texts(&o.finalizers))
            }
        },
        Some(GetReply::Failed(e)) => {
            if e.has_code(404) {
                FinalizerCheck::KnownEmpty
            } else {
                FinalizerCheck::Unknown("GET failed: ".to_owned().concat(e.text()))
            }
        },
    }
}

/// Whether one of the objects has finalizers, or may have.
pub fn requires_serialization(results: &Vec<(ResourceId, FinalizerCheck)>) -> (r: bool)
    ensures
        r == exists|i: int| 0 <= i < results@.len() && !((#[trigger] results@[i]).1 is KnownEmpty),
{
    for i in 0..results.len()
        invariant
            forall|k: int| 0 <= k < i ==> (#[trigger] results@[k]).1 is KnownEmpty,
    {
        match &results[i].1 {
            FinalizerCheck::KnownEmpty => {},
            _ => {
                assert(!(results@[i as int].1 is KnownEmpty));
                return true;
            },
        }
    }
    false
}

/// An object that is not there, with 404, has no finalizers; one that is there has those
/// that it shows. Where its kind is not known, or after any other failure, nobody knows.
pub proof fn law_shown_finalizers(id: ResourceIdView, reply: Option<GetReply>)
    ensures
        reply is None ==> finalizers_shown(id, reply) is Unknown,
        reply matches Some(GetReply::Found(o)) ==> (o.finalizers@.len() == 0
            <==> finalizers_shown(id, reply) is KnownEmpty) && (o.finalizers@.len() > 0
            ==> finalizers_shown(id, reply) == FinalizerView::KnownFinalizers(
            texts(o.finalizers@),
        )),
        reply matches Some(GetReply::Failed(RequestError::Status { code, .. })) ==> (code == 404
            <==> finalizers_shown(id, reply) is KnownEmpty) && (code != 404
            <==> finalizers_shown(id, reply) is Unknown),
        reply matches Some(GetReply::Failed(RequestError::Other { .. })) ==> finalizers_shown(
            id,
            reply,
        ) is Unknown,
{
}

} // verus!
