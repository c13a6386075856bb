//! Reading JSON text one level at a time.

use vstd::prelude::*;

use crate::text::{chars_of, opt_text, same, texts};

verus! {

/// The outermost level of a JSON value; what stands inside is given as JSON text.
#[derive(Debug, PartialEq, Eq)]
pub enum JsonShape {
    Null,
    Bool(bool),
    /// The number, where it is a `u64`.
    Number(Option<u64>),
    Text(String),
    /// The elements.
    Array(Vec<String>),
    /// The keys and values. Of a key that is repeated, the last value.
    Object(Vec<(String, String)>),
}

/// The contents of a [`JsonShape`].
#[verifier::ext_equal]
pub enum JsonShapeView {
    Null,
    Bool(bool),
    Number(Option<u64>),
    Text(Seq<char>),
    Array(Seq<Seq<char>>),
    Object(Seq<(Seq<char>, Seq<char>)>),
}

impl View for JsonShape {
    type V = JsonShapeView;

    open spec fn view(&self) -> JsonShapeView {
        match self {
            JsonShape::Null => JsonShapeView::Null,
            JsonShape::Bool(b) => JsonShapeView::Bool(*b),
            JsonShape::Number(n) => JsonShapeView::Number(*n),
            JsonShape::Text(s) => JsonShapeView::Text(s@),
            JsonShape::Array(a) => JsonShapeView::Array(texts(a@)),
            JsonShape::Object(m) => JsonShapeView::Object(crate::audit::pair_texts(m@)),
        }
    }
}

/// The contents of an optional [`JsonShape`].
pub open spec fn shape_view(s: Option<JsonShape>) -> Option<JsonShapeView> {
    match s {
        Some(s) => Some(s@),
        None => None,
    }
}

/// The outermost level of the JSON value that `text` holds; `None` where `text`
/// is not JSON.
pub uninterp spec fn json_shape(text: Seq<char>) -> Option<JsonShapeView>;

/// Calls `serde_json::from_str` for a `serde_json::Value` and writes what stands
/// inside an array or an object back with the value's `Display`. The result is a
/// function of the characters of `text` alone.
#[verifier::external_body]
pub(crate) fn read_json(text: &str) -> (r: Option<JsonShape>)
    ensures
        shape_view(r) == json_shape(text@),
{
    Some(match serde_json::from_str::<serde_json::Value>(text).ok()? {
        serde_json::Value::Null => JsonShape::Null,
        serde_json::Value::Bool(b) => JsonShape::Bool(b),
        serde_json::Value::Number(n) => JsonShape::Number(n.as_u64()),
        serde_json::Value::String(s) => JsonShape::Text(s),
        serde_json::Value::Array(a) => JsonShape::Array(a.iter().map(|v| v.to_string()).collect()),
        serde_json::Value::Object(m) => JsonShape::Object(
            m.into_iter().map(|(k, v)| (k, v.to_string())).collect(),
        ),
    })
}

/// A comma parts the members of the outermost array or object, from position `i` of the JSON
/// text `s` on. That position stands inside `depth` arrays and objects, and inside a string
/// where `quoted`.
pub open spec fn parted_from(s: Seq<char>, i: nat, depth: nat, quoted: bool) -> bool
    decreases s.len() - i,
{
    if i >= s.len() {
        false
    } else {
        let c = s[i as int];
        if quoted {
            if c == '\\' {
                i + 1 < s.len() && parted_from(s, i + 2, depth, true)
            } else {
                parted_from(s, i + 1, depth, c != '"')
            }
        } else if c == '"' {
            parted_from(s, i + 1, depth, true)
        } else if c == '[' || c == '{' {
            parted_from(s, i + 1, depth + 1, false)
        } else if c == ']' || c == '}' {
            depth > 0 && parted_from(s, i + 1, (depth - 1) as nat, false)
        } else {
            c == ',' && depth == 1 || parted_from(s, i + 1, depth, false)
        }
    }
}

/// The outermost array or object of a JSON text has more than one member. A key that is
/// repeated counts each time.
pub open spec fn is_parted(text: Seq<char>) -> bool {
    parted_from(text, 0, 0, false)
}

/// Whether the outermost array or object of a JSON text has more than one member. A key that
/// is repeated counts each time.
pub fn has_many_members(text: &str) -> (r: bool)
    ensures
        r == is_parted(text@),
{
    let cs = chars_of(text);
    let mut i: usize = 0;
    let mut depth: usize = 0;
    let mut quoted = false;
    while i < cs.len()
        invariant
            cs@ == text@,
            i <= cs@.len(),
            depth <= i,
            is_parted(text@) == parted_from(text@, i as nat, depth as nat, quoted),
        decreases cs@.len() - i,
    {
        let c: char = cs[i];
        if quoted {
            if c == '\\' && i + 1 < cs.len() {
                i = i + 1;
            } else if c == '"' {
                quoted = false;
            }
        } else if c == '"' {
            quoted = true;
        } else if c == '[' || c == '{' {
            depth = depth + 1;
        } else if c == ']' || c == '}' {
            if depth == 0 {
                return false;
            }
            depth = depth - 1;
        } else if c == ',' && depth == 1 {
            return true;
        }
        i = i + 1;
    }
    false
}

/// The value under `key`, from position `i` on.
pub open spec fn entry_from(m: Seq<(Seq<char>, Seq<char>)>, key: Seq<char>, i: nat) -> Option<
    Seq<char>,
>
    decreases m.len() - i,
{
    if i >= m.len() {
        None
    } else if m[i as int].0 == key {
        Some(m[i as int].1)
    } else {
        entry_from(m, key, i + 1)
    }
}

/// The JSON text under `key` of an object; `None` for what is no object.
pub open spec fn field_of(s: Option<JsonShapeView>, key: Seq<char>) -> Option<Seq<char>> {
    match s {
        Some(JsonShapeView::Object(m)) => entry_from(m, key, 0),
        _ => None,
    }
}

/// The JSON text under `key` of an object; `None` for what is no object.
pub fn field<'a>(s: &'a Option<JsonShape>, key: &str) -> (r: Option<&'a String>)
    ensures
        match r {
            Some(t) => field_of(shape_view(*s), key@) == Some(t@),
            None => field_of(shape_view(*s), key@) is None,
        },
{
    let m = match s {
        Some(JsonShape::Object(m)) => m,
        _ => {
            return None;
        },
    };
    let ghost view = crate::audit::pair_texts(m@);
    for i in 0..m.len()
        invariant
            *s == Some(JsonShape::Object(*m)),
            view == crate::audit::pair_texts(m@),
            entry_from(view, key@, 0) == entry_from(view, key@, i as nat),
    {
        assert(view[i as int] == (m@[i as int].0@, m@[i as int].1@));
        if same(m[i].0.as_str(), key) {
            return Some(&m[i].1);
        }
    }
    None
}

/// The text of a JSON string; `None` for anything else.
pub open spec fn string_in(s: Option<JsonShapeView>) -> Option<Seq<char>> {
    match s {
        Some(JsonShapeView::Text(t)) => Some(t),
        _ => None,
    }
}

/// The text of a JSON string; `None` for anything else.
pub fn string_of(s: Option<JsonShape>) -> (r: Option<String>)
    ensures
        opt_text(r) == string_in(shape_view(s)),
{
    match s {
        Some(JsonShape::Text(t)) => Some(t),
        _ => None,
    }
}

/// The string under `key` of an object.
pub open spec fn string_field_of(s: Option<JsonShapeView>, key: Seq<char>) -> Option<Seq<char>> {
    match field_of(s, key) {
        Some(t) => string_in(json_shape(t)),
        None => None,
    }
}

/// The string under `key` of an object.
pub fn string_field(s: &Option<JsonShape>, key: &str) -> (r: Option<String>)
    ensures
        opt_text(r) == string_field_of(shape_view(*s), key@),
{
    match field(s, key) {
        Some(t) => string_of(read_json(t.as_str())),
        None => None,
    }
}

/// A character that JSON gives no meaning to outside a string, as far as members are
/// concerned.
pub open spec fn is_plain(c: char) -> bool {
    c != '"' && c != '[' && c != ']' && c != '{' && c != '}' && c != ','
}

proof fn lemma_over_plain(s: Seq<char>, i: nat, n: nat, depth: nat)
    requires
        i + n <= s.len(),
        forall|k: int| i <= k < i + n ==> is_plain(#[trigger] s[k]),
    ensures
        parted_from(s, i, depth, false) == parted_from(s, i + n, depth, false),
    decreases n,
{
    if n > 0 {
        assert(is_plain(s[i as int]));
        lemma_over_plain(s, i + 1, (n - 1) as nat, depth);
    }
}

proof fn lemma_over_quoted(s: Seq<char>, i: nat, n: nat, depth: nat)
    requires
        i + n < s.len(),
        forall|k: int| i <= k < i + n ==> #[trigger] s[k] != '"' && s[k] != '\\',
        s[(i + n) as int] == '"',
    ensures
        parted_from(s, i, depth, true) == parted_from(s, i + n + 1, depth, false),
    decreases n,
{
    if n > 0 {
        assert(s[i as int] != '"' && s[i as int] != '\\');
        lemma_over_quoted(s, i + 1, (n - 1) as nat, depth);
    }
}

/// An object that begins with a key in quotes, something plain and then a comma has more
/// than one member, whatever stands in the quotes; one that is over instead has not.
pub proof fn law_parted_object(key: Seq<char>, value: Seq<char>, rest: Seq<char>)
    requires
        forall|k: int| 0 <= k < key.len() ==> #[trigger] key[k] != '"' && key[k] != '\\',
        forall|k: int| 0 <= k < value.len() ==> is_plain(#[trigger] value[k]),
    ensures
        is_parted(seq!['{', '"'] + key + seq!['"'] + value + seq![','] + rest),
        !is_parted(seq!['{', '"'] + key + seq!['"'] + value + seq!['}']),
{
    let a = seq!['{', '"'] + key + seq!['"'] + value + seq![','] + rest;
    let b = seq!['{', '"'] + key + seq!['"'] + value + seq!['}'];
    let n = key.len();
    let m = value.len();
    assert(a[0] == '{' && a[1] == '"' && b[0] == '{' && b[1] == '"');
    assert forall|k: int| 2 <= k < 2 + n implies #[trigger] a[k] != '"' && a[k] != '\\' by {
        assert(a[k] == key[k - 2]);
    }
    assert forall|k: int| 2 <= k < 2 + n implies #[trigger] b[k] != '"' && b[k] != '\\' by {
        assert(b[k] == key[k - 2]);
    }
    assert(a[(2 + n) as int] == '"');
    assert(b[(2 + n) as int] == '"');
    assert forall|k: int| 3 + n <= k < 3 + n + m implies is_plain(#[trigger] a[k]) by {
        assert(a[k] == value[k - 3 - n]);
    }
    assert forall|k: int| 3 + n <= k < 3 + n + m implies is_plain(#[trigger] b[k]) by {
        assert(b[k] == value[k - 3 - n]);
    }
    assert(a[(3 + n + m) as int] == ',');
    assert(b[(3 + n + m) as int] == '}');
    assert(b.len() == 4 + n + m);
    assert(parted_from(a, 0, 0, false) == parted_from(a, 1, 1, false));
    assert(parted_from(a, 1, 1, false) == parted_from(a, 2, 1, true));
    lemma_over_quoted(a, 2, n, 1);
    lemma_over_plain(a, (3 + n) as nat, m, 1);
    assert(parted_from(b, 0, 0, false) == parted_from(b, 1, 1, false));
    assert(parted_from(b, 1, 1, false) == parted_from(b, 2, 1, true));
    lemma_over_quoted(b, 2, n, 1);
    lemma_over_plain(b, (3 + n) as nat, m, 1);
    assert(!parted_from(b, (4 + n + m) as nat, 0, false));
}

} // verus!
