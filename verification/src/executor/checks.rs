//! What is looked at before the controller goes: finalizers of objects under review,
//! and whether types that are about to go still have objects.

use vstd::prelude::*;
use vstd::string::*;

use crate::cluster::{error_text, has_code, GetReply, RequestError};
use crate::executor::result::{FinalizerCheckResult, LiveCount};
use crate::resource::{label, GroupKindMap, GvkMap, GvrMap, KindInfo, ResourceId};
use crate::text::{copy_texts, lower_text, lowercase, part, parted, same, texts};

verus! {

/// The contents of a [`FinalizerCheckResult`].
#[verifier::ext_equal]
pub enum FinalizerCheckView {
    Known { finalizers: Seq<Seq<char>>, terminating: bool },
    Gone,
    Unknown(Seq<char>),
}

impl View for FinalizerCheckResult {
    type V = FinalizerCheckView;

    open spec fn view(&self) -> FinalizerCheckView {
        match self {
            FinalizerCheckResult::Known { finalizers, terminating } => FinalizerCheckView::Known {
                finalizers: texts(finalizers@),
                terminating: *terminating,
            },
            FinalizerCheckResult::Gone => FinalizerCheckView::Gone,
            FinalizerCheckResult::Unknown(s) => FinalizerCheckView::Unknown(s@),
        }
    }
}

/// What the GET of an object shows; nothing where the endpoint must be looked at
/// first.
pub open spec fn finalizers_read(reply: GetReply) -> Option<FinalizerCheckView> {
    match reply {
        GetReply::Found(o) => Some(
            FinalizerCheckView::Known {
                finalizers: texts(o.finalizers@),
                terminating: o.terminating,
            },
        ),
        GetReply::Failed(e) => if has_code(e, 404) {
            None
        } else {
            Some(FinalizerCheckView::Unknown("GET failed: "@ + error_text(e)))
        },
    }
}

/// The result where discovery does not know the kind of the object.
pub fn unresolved_finalizers(resource: &ResourceId) -> (r: FinalizerCheckResult)
    ensures
        r@ == FinalizerCheckView::Unknown("cannot resolve API for "@ + label(resource@)),
{
    FinalizerCheckResult::Unknown(
        "cannot resolve API for ".to_owned().concat(resource.label().as_str()),
    )
}

/// Reads the GET of an object. `None` means that it was not found, and that its
/// endpoint must be looked at before it counts as gone.
pub fn check_finalizers(reply: &GetReply) -> (r: Option<FinalizerCheckResult>)
    ensures
        match r {
            Some(c) => finalizers_read(*reply) == Some(c@),
            None => finalizers_read(*reply) is None,
        },
{
    match reply {
        GetReply::Found(o) => Some(
            FinalizerCheckResult::Known {
                finalizers: copy_texts(&o.finalizers),
                terminating: o.terminating,
            },
        ),
        GetReply::Failed(e) => {
            if e.has_code(404) {
                None
            } else {
                Some(FinalizerCheckResult::Unknown("GET failed: ".to_owned().concat(e.text())))
            }
        },
    }
}

/// Reads whether objects of the kind can be listed, where the object was not found.
pub fn check_finalizers_endpoint(endpoint_ok: bool) -> (r: FinalizerCheckResult)
    ensures
        r@ == if endpoint_ok {
            FinalizerCheckView::Gone
        } else {
            FinalizerCheckView::Unknown(
                "GET 404 but API endpoint verification failed — cannot confirm resource absence"@,
            )
        },
{
    if endpoint_ok {
        FinalizerCheckResult::Gone
    } else {
        FinalizerCheckResult::Unknown(
            "GET 404 but API endpoint verification failed — cannot confirm resource absence".to_owned(),
        )
    }
}

/// The contents of a [`LiveCount`].
#[verifier::ext_equal]
pub enum CountView {
    Zero,
    NonZero(usize),
    Unknown(Seq<char>),
}

impl View for LiveCount {
    type V = CountView;

    open spec fn view(&self) -> CountView {
        match self {
            LiveCount::Zero => CountView::Zero,
            LiveCount::NonZero(n) => CountView::NonZero(*n),
            LiveCount::Unknown(s) => CountView::Unknown(s@),
        }
    }
}

/// The kind that a CRD defines and what discovery says of it, looked up under `key`;
/// or why it is not known.
pub open spec fn kind_under(
    key: Seq<char>,
    group: Seq<char>,
    gvrs: GvrMap,
    kinds: GroupKindMap,
) -> Result<(Seq<char>, KindInfo), CountView> {
    match gvrs.value(key) {
        None => Err(CountView::Unknown("kind not found for "@ + key)),
        Some(kind) => match kinds.value((group, kind@)) {
            None => Err(
                CountView::Unknown("no GroupKind mapping for "@ + group + "/"@ + kind@),
            ),
            Some(info) => Ok((kind@, info)),
        },
    }
}

/// The kind that a CRD defines and what discovery says of it; or why it is not known.
pub open spec fn kind_of_crd(crd: Seq<char>, gvrs: GvrMap, kinds: GroupKindMap) -> Result<
    (Seq<char>, KindInfo),
    CountView,
> {
    match parted(crd, '.') {
        None => Err(CountView::Unknown("cannot parse CRD name: "@ + crd)),
        Some(p) => kind_under(lower_text(p.0 + "."@ + p.1), p.1, gvrs, kinds),
    }
}

/// A kind that was found, or why it was not.
pub open spec fn found_kind(r: Result<(&String, &KindInfo), LiveCount>) -> Result<
    (Seq<char>, KindInfo),
    CountView,
> {
    match r {
        Ok(p) => Ok((p.0@, *p.1)),
        Err(e) => Err(e@),
    }
}

/// The kind under `key`, and what discovery says of it.
pub fn find_kind_under<'a>(
    key: &String,
    group: &String,
    gvr_map: &'a GvrMap,
    gk_map: &'a GroupKindMap,
) -> (r: Result<(&'a String, &'a KindInfo), LiveCount>)
    ensures
        found_kind(r) == kind_under(key@, group@, *gvr_map, *gk_map),
{
    match gvr_map.get(key) {
        None => Err(LiveCount::Unknown("kind not found for ".to_owned().concat(key.as_str()))),
        Some(kind) => {
            let pair = (group.clone(), kind.clone());
            match gk_map.get(&pair) {
                None => Err(
                    LiveCount::Unknown(
                        "no GroupKind mapping for ".to_owned().concat(group.as_str()).concat(
                            "/",
                        ).concat(kind.as_str()),
                    ),
                ),
                Some(info) => Ok((kind, info)),
            }
        },
    }
}

/// The kind that a CRD defines, and what discovery says of it.
pub fn find_kind_of_crd<'a>(crd_name: &str, gvr_map: &'a GvrMap, gk_map: &'a GroupKindMap) -> (r:
    Result<(&'a String, &'a KindInfo), LiveCount>)
    ensures
        found_kind(r) == kind_of_crd(crd_name@, *gvr_map, *gk_map),
{
    match part(crd_name, '.') {
        None => Err(
            LiveCount::Unknown("cannot parse CRD name: ".to_owned().concat(crd_name)),
        ),
        Some(p) => {
            let key = lowercase(p.0.clone().concat(".").concat(p.1.as_str()).as_str());
            find_kind_under(&key, &p.1, gvr_map, gk_map)
        },
    }
}

/// Reads a list of at most one object of the type: how many it held.
pub fn count_live_cr_instances(list: &Result<usize, RequestError>) -> (r: LiveCount)
    ensures
        r@ == match *list {
            Ok(n) => if n == 0 {
                CountView::Zero
            } else {
                CountView::NonZero(1)
            },
            Err(e) => CountView::Unknown("list failed: "@ + error_text(e)),
        },
{
    match list {
        Ok(n) => if *n == 0 {
            LiveCount::Zero
        } else {
            LiveCount::NonZero(1)
        },
        Err(e) => LiveCount::Unknown("list failed: ".to_owned().concat(e.text())),
    }
}

/// The entry of a type that discovery knows by group, version and kind.
pub type GvkEntry = ((String, String, String), KindInfo);

/// The types that an API service serves, among the first `n` discovered ones.
pub open spec fn served(
    entries: Seq<GvkEntry>,
    group: Seq<char>,
    version: Seq<char>,
    n: nat,
) -> Seq<
    GvkEntry,
>
    decreases n,
{
    if n == 0 {
        seq![]
    } else {
        let before = served(entries, group, version, (n - 1) as nat);
        let e = entries[n - 1];
        if e.0.0@ == group && e.0.1@ == version {
            before.push(e)
        } else {
            before
        }
    }
}

/// The types that the API service `<version>.<group>` serves; or why they are not
/// known.
pub open spec fn types_of_service(
    name: Seq<char>,
    gvks: GvkMap,
) -> Result<Seq<GvkEntry>, CountView> {
    match parted(name, '.') {
        None => Err(CountView::Unknown("cannot parse APIService name: "@ + name)),
        Some(p) => {
            let found = served(gvks.entries(), p.1, p.0, gvks.entries().len());
            if found.len() == 0 {
                Err(CountView::Unknown("no discovered resources for APIService "@ + name))
            } else {
                Ok(found)
            }
        },
    }
}

/// The types that an API service serves, in the order of discovery.
pub fn find_types_of_service<'a>(api_service_name: &str, gvk_map: &'a GvkMap) -> (r: Result<
    Vec<&'a GvkEntry>,
    LiveCount,
>)
    ensures
        match r {
            Ok(v) => types_of_service(api_service_name@, *gvk_map) matches Ok(s) && v@.len()
                == s.len() && forall|i: int| 0 <= i < s.len() ==> *(#[trigger] v@[i]) == s[i],
            Err(e) => types_of_service(api_service_name@, *gvk_map) == Err::<
                Seq<GvkEntry>,
                CountView,
            >(e@),
        },
{
    match part(api_service_name, '.') {
        None => Err(
            LiveCount::Unknown(
                "cannot parse APIService name: ".to_owned().concat(api_service_name),
            ),
        ),
        Some(p) => {
            let entries: &'a Vec<GvkEntry> = gvk_map.as_vec();
            let mut out: Vec<&'a GvkEntry> = Vec::new();
            for i in 0..entries.len()
                invariant
                    entries@ == gvk_map.entries(),
                    out@.len() == served(entries@, p.1@, p.0@, i as nat).len(),
                    forall|k: int|
                        0 <= k < out@.len() ==> *(#[trigger] out@[k]) == served(
                            entries@,
                            p.1@,
                            p.0@,
                            i as nat,
                        )[k],
            {
                let e: &'a GvkEntry = &entries[i];
                if same(e.0.0.as_str(), p.1.as_str()) && same(e.0.1.as_str(), p.0.as_str()) {
                    out.push(e);
                }
            }
            if out.len() == 0 {
                Err(
                    LiveCount::Unknown(
                        "no discovered resources for APIService ".to_owned().concat(
                            api_service_name,
                        ),
                    ),
                )
            } else {
                Ok(out)
            }
        },
    }
}

/// What the count of the objects of an API service needs next.
#[derive(Debug)]
pub enum CountStep {
    /// Nothing: this is the count.
    Counted(LiveCount),
    /// A list of at most one object of the type at this position.
    List(usize),
}

/// The contents of a [`CountStep`].
pub enum CountStepView {
    Counted(CountView),
    List(int),
}

impl View for CountStep {
    type V = CountStepView;

    open spec fn view(&self) -> CountStepView {
        match self {
            CountStep::Counted(c) => CountStepView::Counted(c@),
            CountStep::List(at) => CountStepView::List(*at as int),
        }
    }
}

/// The count goes on after the type at position `at` was listed: the first type that has
/// objects, or that cannot be listed, decides. Where no type does, there are none.
pub open spec fn service_counts(
    types: Seq<&GvkEntry>,
    at: int,
    list: Result<usize, RequestError>,
) -> CountStepView {
    match list {
        Ok(n) => if n > 0 {
            CountStepView::Counted(CountView::NonZero(1))
        } else if at + 1 < types.len() {
            CountStepView::List(at + 1)
        } else {
            CountStepView::Counted(CountView::Zero)
        },
        Err(e) => CountStepView::Counted(
            CountView::Unknown(
                "LIST "@ + types[at].0.0@ + "/"@ + types[at].0.2@ + " failed: "@ + error_text(e),
            ),
        ),
    }
}

/// Reads a list of at most one object of the type at position `at` of those that an API
/// service serves.
pub fn count_live_api_service_instances(
    types: &Vec<&GvkEntry>,
    at: usize,
    list: &Result<usize, RequestError>,
) -> (r: CountStep)
    requires
        at < types@.len(),
    ensures
        r@ == service_counts(types@, at as int, *list),
{
    let count: usize = types.len();
    match list {
        Ok(n) => if *n > 0 {
            CountStep::Counted(LiveCount::NonZero(1))
        } else if at + 1 < count {
            CountStep::List(at + 1)
        } else {
            CountStep::Counted(LiveCount::Zero)
        },
        Err(e) => {
            let key: &(String, String, String) = &types[at].0;
            CountStep::Counted(
                LiveCount::Unknown(
                    "LIST ".to_owned().concat(key.0.as_str()).concat("/").concat(
                        key.2.as_str(),
                    ).concat(" failed: ").concat(e.text()),
                ),
            )
        },
    }
}

/// The count from position `at` on, where the type at each position is answered so.
pub open spec fn service_count(
    types: Seq<&GvkEntry>,
    lists: Seq<Result<usize, RequestError>>,
    at: int,
) -> CountView
    decreases types.len() - at,
{
    match service_counts(types, at, lists[at]) {
        CountStepView::Counted(c) => c,
        CountStepView::List(next) => service_count(types, lists, next),
    }
}

/// An API service counts as without objects exactly where every type that it serves was
/// listed and none has any.
pub proof fn law_service_is_empty_where_every_type_is(
    types: Seq<&GvkEntry>,
    lists: Seq<Result<usize, RequestError>>,
    at: int,
)
    requires
        0 <= at < types.len(),
        lists.len() == types.len(),
    ensures
        service_count(types, lists, at) == CountView::Zero <==> forall|i: int|
            at <= i < lists.len() ==> #[trigger] lists[i] == Ok::<usize, RequestError>(0),
    decreases types.len() - at,
{
    if let CountStepView::List(next) = service_counts(types, at, lists[at]) {
        law_service_is_empty_where_every_type_is(types, lists, next);
        assert(lists[at] == Ok::<usize, RequestError>(0));
    }
}

} // verus!
