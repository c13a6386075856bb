//! Sets and maps keyed by text, kept in the order of first insertion.

use vstd::prelude::*;

verus! {

/// A value that is told apart by its text.
pub trait Key: Sized {
    /// What tells two keys apart.
    type Text;

    /// The text of the key.
    spec fn text(&self) -> Self::Text;

    /// Whether two keys have the same text.
    fn same_key(&self, other: &Self) -> (r: bool)
        ensures
            r == (self.text() == other.text()),
    ;
}

impl Key for String {
    type Text = Seq<char>;

    open spec fn text(&self) -> Seq<char> {
        self@
    }

    fn same_key(&self, other: &Self) -> (r: bool) {
        *self == *other
    }
}

impl Key for (String, String) {
    type Text = (Seq<char>, Seq<char>);

    open spec fn text(&self) -> (Seq<char>, Seq<char>) {
        (self.0@, self.1@)
    }

    fn same_key(&self, other: &Self) -> (r: bool) {
        self.0 == other.0 && self.1 == other.1
    }
}

impl Key for (String, String, String) {
    type Text = (Seq<char>, Seq<char>, Seq<char>);

    open spec fn text(&self) -> (Seq<char>, Seq<char>, Seq<char>) {
        (self.0@, self.1@, self.2@)
    }

    fn same_key(&self, other: &Self) -> (r: bool) {
        self.0 == other.0 && self.1 == other.1 && self.2 == other.2
    }
}

/// `keys` holds the text `t`.
pub open spec fn holds<K: Key>(keys: Seq<K>, t: K::Text) -> bool {
    exists|i: int| 0 <= i < keys.len() && (#[trigger] keys[i]).text() == t
}

/// Adding a key adds its text.
proof fn lemma_holds_push<K: Key>(keys: Seq<K>, key: K)
    ensures
        forall|t: K::Text| #[trigger] holds(keys.push(key), t) == (holds(keys, t) || t == key.text()),
{
    assert forall|t: K::Text| #[trigger] holds(keys.push(key), t) == (holds(keys, t) || t
        == key.text()) by {
        let longer = keys.push(key);
        if holds(keys, t) {
            let i = choose|i: int| 0 <= i < keys.len() && (#[trigger] keys[i]).text() == t;
            assert(longer[i].text() == t);
        }
        if t == key.text() {
            assert(longer[keys.len() as int].text() == t);
        }
        if holds(longer, t) {
            let i = choose|i: int| 0 <= i < longer.len() && (#[trigger] longer[i]).text() == t;
            if i < keys.len() {
                assert(keys[i].text() == t);
            }
        }
    }
}

/// No text occurs twice in `keys`.
pub open spec fn distinct<K: Key>(keys: Seq<K>) -> bool {
    forall|i: int, j: int|
        #![trigger keys[i], keys[j]]
        0 <= i < j < keys.len() ==> keys[i].text() != keys[j].text()
}

/// A set of keys in the order of first insertion.
#[derive(Debug)]
pub struct KeySet<K: Key> {
    items: Vec<K>,
}

impl<K: Key> KeySet<K> {
    /// The keys in the order of first insertion.
    pub closed spec fn order(&self) -> Seq<K> {
        self.items@
    }

    #[verifier::type_invariant]
    closed spec fn no_repeats(&self) -> bool {
        distinct(self.items@)
    }

    /// The set holds the text `t`.
    pub open spec fn has(&self, t: K::Text) -> bool {
        holds(self.order(), t)
    }

    /// The empty set.
    pub fn new() -> (r: Self)
        ensures
            r.order() == Seq::<K>::empty(),
    {
        KeySet { items: Vec::new() }
    }

    /// The keys in the order of first insertion; none occurs twice.
    pub fn as_vec(&self) -> (r: &Vec<K>)
        ensures
            r@ == self.order(),
            distinct(r@),
    {
        proof {
            use_type_invariant(self);
        }
        &self.items
    }

    /// The number of keys.
    pub fn len(&self) -> (r: usize)
        ensures
            r == self.order().len(),
    {
        self.items.len()
    }

    /// Whether the set holds `key`.
    pub fn contains(&self, key: &K) -> (r: bool)
        ensures
            r == self.has(key.text()),
    {
        for i in 0..self.items.len()
            invariant
                forall|j: int| 0 <= j < i ==> (#[trigger] self.items@[j]).text() != key.text(),
        {
            if self.items[i].same_key(key) {
                assert(self.order()[i as int].text() == key.text());
                return true;
            }
        }
        assert forall|j: int| 0 <= j < self.order().len() implies (
        #[trigger] self.order()[j]).text() != key.text() by {
            assert(self.items@[j].text() != key.text());
        }
        false
    }

    /// Adds `key` at the end unless the set holds it; whether it was added.
    pub fn insert(&mut self, key: K) -> (added: bool)
        ensures
            added == !old(self).has(key.text()),
            final(self).order() == if added {
                old(self).order().push(key)
            } else {
                old(self).order()
            },
            forall|t: K::Text| #[trigger]
                final(self).has(t) == (old(self).has(t) || t == key.text()),
    {
        proof {
            use_type_invariant(&*self);
        }
        if self.contains(&key) {
            false
        } else {
            proof {
                lemma_holds_push(self.order(), key);
            }
            let mut items: Vec<K> = Vec::new();
            std::mem::swap(&mut items, &mut self.items);
            assert forall|i: int, j: int|
                #![trigger items@.push(key)[i], items@.push(key)[j]]
                0 <= i < j < items@.push(key).len() implies items@.push(key)[i].text()
                != items@.push(key)[j].text() by {
                if j == items@.len() {
                    assert(old(self).order()[i].text() != key.text());
                }
            }
            items.push(key);
            self.items = items;
            true
        }
    }
}

/// The value that the first entry of `entries` with the text `t` holds.
pub open spec fn found<K: Key, V>(entries: Seq<(K, V)>, t: K::Text) -> Option<V>
    decreases entries.len(),
{
    if entries.len() == 0 {
        None
    } else if entries[0].0.text() == t {
        Some(entries[0].1)
    } else {
        found(entries.drop_first(), t)
    }
}

/// No key occurs twice in `entries`.
pub open spec fn distinct_keys<K: Key, V>(entries: Seq<(K, V)>) -> bool {
    forall|i: int, j: int|
        #![trigger entries[i], entries[j]]
        0 <= i < j < entries.len() ==> entries[i].0.text() != entries[j].0.text()
}

/// A map in the order of first insertion of its keys.
#[derive(Debug)]
pub struct KeyMap<K: Key, V> {
    items: Vec<(K, V)>,
}

impl<K: Key, V> KeyMap<K, V> {
    /// The entries in the order of first insertion of their keys.
    pub closed spec fn entries(&self) -> Seq<(K, V)> {
        self.items@
    }

    #[verifier::type_invariant]
    closed spec fn no_repeats(&self) -> bool {
        distinct_keys(self.items@)
    }

    /// The value under the text `t`.
    pub open spec fn value(&self, t: K::Text) -> Option<V> {
        found(self.entries(), t)
    }

    /// The empty map.
    pub fn new() -> (r: Self)
        ensures
            r.entries() == Seq::<(K, V)>::empty(),
    {
        KeyMap { items: Vec::new() }
    }

    /// The entries in the order of first insertion; no key occurs twice.
    pub fn as_vec(&self) -> (r: &Vec<(K, V)>)
        ensures
            r@ == self.entries(),
            distinct_keys(r@),
    {
        proof {
            use_type_invariant(self);
        }
        &self.items
    }

    /// The value under `key`.
    pub fn get(&self, key: &K) -> (r: Option<&V>)
        ensures
            match r {
                Some(v) => self.value(key.text()) == Some(*v),
                None => self.value(key.text()) is None,
            },
    {
        assert(self.items@.skip(0) =~= self.items@);
        for i in 0..self.items.len()
            invariant
                found(self.items@, key.text()) == found(self.items@.skip(i as int), key.text()),
        {
            assert(self.items@.skip(i as int).drop_first() =~= self.items@.skip(i + 1));
            if self.items[i].0.same_key(key) {
                return Some(&self.items[i].1);
            }
        }
        None
    }

    /// Puts `value` under `key`, in the place of the value that was there.
    pub fn insert(&mut self, key: K, value: V)
        ensures
            final(self).value(key.text()) == Some(value),
            forall|t: K::Text| t != key.text() ==> #[trigger] final(self).value(t) == old(self).value(t),
    {
        proof {
            use_type_invariant(&*self);
        }
        let mut items: Vec<(K, V)> = Vec::new();
        std::mem::swap(&mut items, &mut self.items);
        let ghost before = items@;
        let count: usize = items.len();
        for i in 0..count
            invariant
                items@ == before,
                count == before.len(),
                before == old(self).entries(),
                distinct_keys(before),
                self.items@ == Seq::<(K, V)>::empty(),
                forall|j: int| 0 <= j < i ==> (#[trigger] before[j]).0.text() != key.text(),
        {
            if items[i].0.same_key(&key) {
                let ghost t = key.text();
                proof {
                    lemma_found_update(before, i as int, key, value);
                }
                items[i] = (key, value);
                assert(distinct_keys(items@)) by {
                    assert forall|a: int, b: int|
                        #![trigger items@[a], items@[b]]
                        0 <= a < b < items@.len() implies items@[a].0.text()
                        != items@[b].0.text() by {
                        assert(before[a].0.text() != before[b].0.text());
                    }
                }
                self.items = items;
                return ;
            }
        }
        proof {
            lemma_found_push(before, key, value);
            assert forall|a: int, b: int|
                #![trigger before.push((key, value))[a], before.push((key, value))[b]]
                0 <= a < b < before.push((key, value)).len() implies before.push(
                (key, value),
            )[a].0.text() != before.push((key, value))[b].0.text() by {
                if b == before.len() {
                    assert(before[a].0.text() != key.text());
                }
            }
        }
        items.push((key, value));
        self.items = items;
    }
}

/// Replacing the first entry of a key changes what is found under that key only.
proof fn lemma_found_update<K: Key, V>(entries: Seq<(K, V)>, at: int, key: K, value: V)
    requires
        0 <= at < entries.len(),
        entries[at].0.text() == key.text(),
        forall|j: int| 0 <= j < at ==> (#[trigger] entries[j]).0.text() != key.text(),
    ensures
        found(entries.update(at, (key, value)), key.text()) == Some(value),
        forall|t: K::Text|
            t != key.text() ==> #[trigger] found(entries.update(at, (key, value)), t) == found(
                entries,
                t,
            ),
    decreases entries.len(),
{
    let after = entries.update(at, (key, value));
    if at == 0 {
        assert(after.drop_first() =~= entries.drop_first());
    } else {
        assert(after.drop_first() =~= entries.drop_first().update(at - 1, (key, value)));
        assert(after[0] == entries[0]);
        assert(entries[0].0.text() != key.text());
        assert forall|j: int| 0 <= j < at - 1 implies (
        #[trigger] entries.drop_first()[j]).0.text() != key.text() by {
            assert(entries[j + 1].0.text() != key.text());
        }
        lemma_found_update(entries.drop_first(), at - 1, key, value);
        assert forall|t: K::Text| t != key.text() implies #[trigger] found(after, t) == found(
            entries,
            t,
        ) by {
            assert(found(after.drop_first(), t) == found(entries.drop_first(), t));
        }
    }
}

/// Adding an entry under a new key changes what is found under that key only.
proof fn lemma_found_push<K: Key, V>(entries: Seq<(K, V)>, key: K, value: V)
    requires
        forall|j: int| 0 <= j < entries.len() ==> (#[trigger] entries[j]).0.text() != key.text(),
    ensures
        found(entries.push((key, value)), key.text()) == Some(value),
        forall|t: K::Text|
            t != key.text() ==> #[trigger] found(entries.push((key, value)), t) == found(
                entries,
                t,
            ),
    decreases entries.len(),
{
    let after = entries.push((key, value));
    if entries.len() == 0 {
        assert(after.drop_first() =~= entries);
        assert(after[0] == (key, value));
    } else {
        assert(after.drop_first() =~= entries.drop_first().push((key, value)));
        assert(after[0] == entries[0]);
        assert forall|j: int| 0 <= j < entries.drop_first().len() implies (
        #[trigger] entries.drop_first()[j]).0.text() != key.text() by {
            assert(entries[j + 1].0.text() != key.text());
        }
        lemma_found_push(entries.drop_first(), key, value);
        assert forall|t: K::Text| t != key.text() implies #[trigger] found(after, t) == found(
            entries,
            t,
        ) by {
            assert(found(after.drop_first(), t) == found(entries.drop_first(), t));
        }
    }
}

} // verus!
