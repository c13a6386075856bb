//! Selecting from sequences, and the identities in a list.

use vstd::prelude::*;

use crate::resource::{contains_id, ResourceId, ResourceIdView};

verus! {

/// What `f` gives for the elements of `s`, where it gives something, in order.
pub open spec fn pick<A, B>(s: Seq<A>, f: spec_fn(A) -> Option<B>) -> Seq<B>
    decreases s.len(),
{
    if s.len() == 0 {
        seq![]
    } else {
        match f(s.last()) {
            Some(b) => pick(s.drop_last(), f).push(b),
            None => pick(s.drop_last(), f),
        }
    }
}

/// Selecting from one element more.
pub proof fn lemma_pick_take<A, B>(s: Seq<A>, f: spec_fn(A) -> Option<B>, i: int)
    requires
        0 <= i < s.len(),
    ensures
        pick(s.take(i + 1), f) == match f(s[i]) {
            Some(b) => pick(s.take(i), f).push(b),
            None => pick(s.take(i), f),
        },
{
    assert(s.take(i + 1).drop_last() =~= s.take(i));
    assert(s.take(i + 1).last() == s[i]);
}

/// What is selected comes from an element, and every element that gives
/// something is selected.
pub proof fn lemma_pick_members<A, B>(s: Seq<A>, f: spec_fn(A) -> Option<B>)
    ensures
        forall|b: B| #[trigger]
            pick(s, f).contains(b) ==> exists|i: int| 0 <= i < s.len() && f(#[trigger] s[i]) == Some(b),
        forall|i: int|
            0 <= i < s.len() && f(#[trigger] s[i]) is Some ==> pick(s, f).contains(f(s[i])->0),
        pick(s, f).len() <= s.len(),
    decreases s.len(),
{
    if s.len() > 0 {
        let front = s.drop_last();
        lemma_pick_members(front, f);
        let whole = pick(s, f);
        let part = pick(front, f);
        assert forall|b: B| #[trigger] whole.contains(b) implies exists|i: int|
            0 <= i < s.len() && f(#[trigger] s[i]) == Some(b) by {
            if part.contains(b) {
                let i = choose|i: int| 0 <= i < front.len() && f(#[trigger] front[i]) == Some(b);
                assert(f(s[i]) == Some(b));
            } else {
                let k = choose|k: int| 0 <= k < whole.len() && whole[k] == b;
                if k < part.len() {
                    assert(part[k] == b);
                }
                assert(f(s[s.len() - 1]) == Some(b));
            }
        }
        assert forall|i: int| 0 <= i < s.len() && f(#[trigger] s[i]) is Some implies whole.contains(
            f(s[i])->0,
        ) by {
            if i < front.len() {
                assert(front[i] == s[i]);
                let k = choose|k: int| 0 <= k < part.len() && part[k] == f(s[i])->0;
                assert(whole[k] == f(s[i])->0);
            } else {
                assert(whole[whole.len() - 1] == f(s[i])->0);
            }
        }
    }
}

/// The identities in a list.
pub open spec fn ids(v: Seq<ResourceId>) -> Seq<ResourceIdView> {
    v.map_values(|r: ResourceId| r@)
}

/// An identity with a note.
pub type Noted = (ResourceId, String);

/// The identities and notes in a list.
pub open spec fn noted(v: Seq<Noted>) -> Seq<(ResourceIdView, Seq<char>)> {
    v.map_values(|x: Noted| (x.0@, x.1@))
}

/// Each of `s` with the same note.
pub open spec fn all_noted(s: Seq<ResourceIdView>, note: Seq<char>) -> Seq<
    (ResourceIdView, Seq<char>),
> {
    s.map_values(|r: ResourceIdView| (r, note))
}

/// The identities of a list with notes.
pub open spec fn noted_ids(s: Seq<(ResourceIdView, Seq<char>)>) -> Seq<ResourceIdView> {
    s.map_values(|x: (ResourceIdView, Seq<char>)| x.0)
}

/// `has_id` is membership among the identities.
pub proof fn lemma_has_id(v: Seq<ResourceId>, id: ResourceIdView)
    ensures
        crate::resource::has_id(v, id) == ids(v).contains(id),
{
    if crate::resource::has_id(v, id) {
        let i = choose|i: int| 0 <= i < v.len() && (#[trigger] v[i])@ == id;
        assert(ids(v)[i] == id);
    }
    if ids(v).contains(id) {
        let i = choose|i: int| 0 <= i < ids(v).len() && ids(v)[i] == id;
        assert(v[i]@ == id);
    }
}

/// Adds an identity to a list.
pub fn push_id(v: &mut Vec<ResourceId>, id: &ResourceId)
    ensures
        final(v)@ == old(v)@.push(*id),
        ids(final(v)@) == ids(old(v)@).push(id@),
{
    v.push(id.clone());
    assert(ids(v@) =~= ids(old(v)@).push(id@));
}

/// Adds all of `more` to a list.
pub fn push_ids(v: &mut Vec<ResourceId>, more: &Vec<ResourceId>)
    ensures
        final(v)@ == old(v)@ + more@,
        ids(final(v)@) == ids(old(v)@) + ids(more@),
{
    for i in 0..more.len()
        invariant
            v@ == old(v)@ + more@.take(i as int),
    {
        v.push(more[i].clone());
        assert(more@.take(i + 1) =~= more@.take(i as int).push(more@[i as int]));
    }
    assert(more@.take(more@.len() as int) =~= more@);
    assert(ids(v@) =~= ids(old(v)@) + ids(more@));
}

/// Adds each of `more`, with the same note, to a list.
pub fn push_noted(v: &mut Vec<Noted>, more: &Vec<ResourceId>, note: &str)
    ensures
        noted(final(v)@) == noted(old(v)@) + all_noted(ids(more@), note@),
{
    let ghost base = noted(v@);
    assert(base + all_noted(ids(more@).take(0), note@) =~= base);
    for i in 0..more.len()
        invariant
            noted(v@) == base + all_noted(ids(more@).take(i as int), note@),
    {
        let ghost list = v@;
        v.push((more[i].clone(), note.to_owned()));
        assert(noted(v@) =~= noted(list).push((more@[i as int]@, note@)));
        assert(base + all_noted(ids(more@).take(i + 1), note@) =~= (base + all_noted(
            ids(more@).take(i as int),
            note@,
        )).push((more@[i as int]@, note@)));
    }
    assert(ids(more@).take(more@.len() as int) =~= ids(more@));
}

/// A copy of a list with notes.
pub fn copy_noted(v: &Vec<Noted>) -> (r: Vec<Noted>)
    ensures
        r@ == v@,
{
    let mut out: Vec<Noted> = Vec::new();
    for i in 0..v.len()
        invariant
            out@ == v@.take(i as int),
    {
        out.push((v[i].0.clone(), v[i].1.clone()));
        assert(v@.take(i + 1) =~= v@.take(i as int).push(v@[i as int]));
    }
    assert(v@.take(v.len() as int) =~= v@);
    out
}

/// `acc` with those of `s` behind it that it does not hold yet.
pub open spec fn absorbed(acc: Seq<ResourceIdView>, s: Seq<ResourceIdView>) -> Seq<ResourceIdView>
    decreases s.len(),
{
    if s.len() == 0 {
        acc
    } else {
        let front = absorbed(acc, s.drop_last());
        if front.contains(s.last()) {
            front
        } else {
            front.push(s.last())
        }
    }
}

/// Membership in a concatenation.
pub proof fn lemma_contains_add<A>(a: Seq<A>, b: Seq<A>, x: A)
    ensures
        (a + b).contains(x) == (a.contains(x) || b.contains(x)),
{
    if a.contains(x) {
        let i = choose|i: int| 0 <= i < a.len() && a[i] == x;
        assert((a + b)[i] == x);
    }
    if b.contains(x) {
        let i = choose|i: int| 0 <= i < b.len() && b[i] == x;
        assert((a + b)[a.len() + i] == x);
    }
    if (a + b).contains(x) {
        let i = choose|i: int| 0 <= i < (a + b).len() && (a + b)[i] == x;
        if i < a.len() {
            assert(a[i] == x);
        } else {
            assert(b[i - a.len()] == x);
        }
    }
}

/// How many times `x` stands in `s`.
pub open spec fn count_of<A>(s: Seq<A>, x: A) -> nat
    decreases s.len(),
{
    if s.len() == 0 {
        0
    } else {
        count_of(s.drop_last(), x) + if s.last() == x {
            1nat
        } else {
            0
        }
    }
}

/// One element more.
pub proof fn lemma_count_push<A>(s: Seq<A>, y: A, x: A)
    ensures
        count_of(s.push(y), x) == count_of(s, x) + if y == x {
            1nat
        } else {
            0
        },
{
    assert(s.push(y).drop_last() =~= s);
}

/// What stands in a concatenation stands in one part or the other.
pub proof fn lemma_count_add<A>(a: Seq<A>, b: Seq<A>, x: A)
    ensures
        count_of(a + b, x) == count_of(a, x) + count_of(b, x),
    decreases b.len(),
{
    if b.len() == 0 {
        assert(a + b =~= a);
    } else {
        assert((a + b).drop_last() =~= a + b.drop_last());
        lemma_count_add(a, b.drop_last(), x);
    }
}

/// What a sequence holds stands in it at least once; where nothing stands in it twice, at
/// most once.
pub proof fn lemma_count_member<A>(s: Seq<A>, x: A)
    ensures
        count_of(s, x) > 0 <==> s.contains(x),
        s.no_duplicates() ==> count_of(s, x) <= 1,
    decreases s.len(),
{
    if s.len() > 0 {
        let front = s.drop_last();
        lemma_count_member(front, x);
        assert(s =~= front + seq![s.last()]);
        lemma_contains_add(front, seq![s.last()], x);
        assert(seq![s.last()].contains(x) == (s.last() == x)) by {
            assert(seq![s.last()][0] == s.last());
        }
        if s.no_duplicates() && front.contains(x) {
            let i = choose|i: int| 0 <= i < front.len() && front[i] == x;
            assert(s[i] == x);
        }
    }
}

/// What was absorbed and did not stand there before stands there once more.
pub proof fn lemma_count_absorbed(
    acc: Seq<ResourceIdView>,
    s: Seq<ResourceIdView>,
    t: ResourceIdView,
)
    requires
        count_of(acc, t) + count_of(s, t) <= 1,
    ensures
        count_of(absorbed(acc, s), t) == count_of(acc, t) + count_of(s, t),
    decreases s.len(),
{
    if s.len() > 0 {
        let front = absorbed(acc, s.drop_last());
        lemma_count_absorbed(acc, s.drop_last(), t);
        lemma_count_member(front, t);
        lemma_count_push(front, s.last(), t);
    }
}

/// Membership after absorbing.
pub proof fn lemma_absorbed(acc: Seq<ResourceIdView>, s: Seq<ResourceIdView>, t: ResourceIdView)
    ensures
        absorbed(acc, s).contains(t) == (acc.contains(t) || s.contains(t)),
    decreases s.len(),
{
    if s.len() > 0 {
        let front = absorbed(acc, s.drop_last());
        lemma_absorbed(acc, s.drop_last(), t);
        assert(s =~= s.drop_last() + seq![s.last()]);
        lemma_contains_add(s.drop_last(), seq![s.last()], t);
        assert(seq![s.last()].contains(t) == (s.last() == t)) by {
            assert(seq![s.last()][0] == s.last());
        }
        assert(front.push(s.last()) =~= front + seq![s.last()]);
        lemma_contains_add(front, seq![s.last()], t);
    }
}

/// Adds those of `more` to a list that it does not hold yet.
pub fn absorb(v: &mut Vec<ResourceId>, more: &Vec<ResourceId>)
    ensures
        ids(final(v)@) == absorbed(ids(old(v)@), ids(more@)),
{
    let ghost acc = ids(v@);
    let ghost s = ids(more@);
    assert(s.take(0) =~= seq![]);
    for i in 0..more.len()
        invariant
            s == ids(more@),
            ids(v@) == absorbed(acc, s.take(i as int)),
    {
        proof {
            assert(s.take(i + 1).drop_last() =~= s.take(i as int));
            assert(s.take(i + 1).last() == s[i as int]);
            lemma_has_id(v@, more@[i as int]@);
        }
        if !contains_id(v, &more[i]) {
            push_id(v, &more[i]);
        }
    }
    assert(s.take(s.len() as int) =~= s);
}

/// The position of the last element of `s` that `p` holds of.
pub open spec fn last_index<A>(s: Seq<A>, p: spec_fn(A) -> bool) -> Option<int>
    decreases s.len(),
{
    if s.len() == 0 {
        None
    } else if p(s.last()) {
        Some(s.len() - 1)
    } else {
        last_index(s.drop_last(), p)
    }
}

/// The last position at which `p` holds is the one that nothing behind it matches.
pub proof fn lemma_last_index<A>(s: Seq<A>, p: spec_fn(A) -> bool, i: int)
    requires
        0 <= i < s.len(),
        p(s[i]),
        forall|k: int| i < k < s.len() ==> !p(#[trigger] s[k]),
    ensures
        last_index(s, p) == Some(i),
    decreases s.len(),
{
    if i < s.len() - 1 {
        assert(!p(s[s.len() - 1]));
        assert forall|k: int| i < k < s.drop_last().len() implies !p(
            #[trigger] s.drop_last()[k],
        ) by {
            assert(s[k] == s.drop_last()[k]);
        }
        lemma_last_index(s.drop_last(), p, i);
    }
}

/// There is no last position where `p` holds nowhere.
pub proof fn lemma_no_last_index<A>(s: Seq<A>, p: spec_fn(A) -> bool)
    requires
        forall|k: int| 0 <= k < s.len() ==> !p(#[trigger] s[k]),
    ensures
        last_index(s, p) is None,
    decreases s.len(),
{
    if s.len() > 0 {
        assert(!p(s[s.len() - 1]));
        assert forall|k: int| 0 <= k < s.drop_last().len() implies !p(
            #[trigger] s.drop_last()[k],
        ) by {
            assert(s[k] == s.drop_last()[k]);
        }
        lemma_no_last_index(s.drop_last(), p);
    }
}

} // verus!
