//! Text helpers: searching, splitting, joining and number rendering over the
//! characters of a string.

use vstd::prelude::*;
use vstd::string::*;

verus! {

broadcast use vstd::string::group_string_axioms;

/// `needle` stands in `hay` at position `i`.
pub open spec fn occurs_at(hay: Seq<char>, needle: Seq<char>, i: int) -> bool {
    0 <= i && i + needle.len() <= hay.len() && hay.subrange(i, i + needle.len()) == needle
}

/// `needle` stands somewhere in `hay`.
pub open spec fn occurs(hay: Seq<char>, needle: Seq<char>) -> bool {
    exists|i: int| #[trigger] occurs_at(hay, needle, i)
}

/// `hay` begins with `needle`.
pub open spec fn begins_with(hay: Seq<char>, needle: Seq<char>) -> bool {
    needle.len() <= hay.len() && hay.take(needle.len() as int) == needle
}

/// `hay` ends with `needle`.
pub open spec fn finishes_with(hay: Seq<char>, needle: Seq<char>) -> bool {
    needle.len() <= hay.len() && hay.skip(hay.len() - needle.len()) == needle
}

/// The text before the first `c`, or the whole text where `c` does not occur.
pub open spec fn head_of(s: Seq<char>, c: char) -> Seq<char>
    decreases s.len(),
{
    if s.len() == 0 || s[0] == c {
        seq![]
    } else {
        seq![s[0]] + head_of(s.drop_first(), c)
    }
}

/// `parts` written one after the other with `sep` between neighbours.
pub open spec fn joined(parts: Seq<Seq<char>>, sep: Seq<char>) -> Seq<char>
    decreases parts.len(),
{
    if parts.len() == 0 {
        seq![]
    } else if parts.len() == 1 {
        parts[0]
    } else {
        joined(parts.drop_last(), sep) + sep + parts.last()
    }
}

/// The texts of a sequence of strings.
pub open spec fn texts(v: Seq<String>) -> Seq<Seq<char>> {
    v.map_values(|s: String| s@)
}

/// One of `v` has the text `s`.
pub open spec fn has_text(v: Seq<String>, s: Seq<char>) -> bool {
    exists|i: int| 0 <= i < v.len() && (#[trigger] v[i])@ == s
}

/// The text of an optional string.
pub open spec fn opt_text(o: Option<String>) -> Option<Seq<char>> {
    match o {
        Some(s) => Some(s@),
        None => None,
    }
}

/// An optional string's text, with `default` where there is none.
pub open spec fn text_or(o: Option<String>, default: Seq<char>) -> Seq<char> {
    match o {
        Some(s) => s@,
        None => default,
    }
}

/// The character for the digit `d` in a base of at most sixteen.
pub open spec fn digit_char(d: int) -> char {
    if d == 0 {
        '0'
    } else if d == 1 {
        '1'
    } else if d == 2 {
        '2'
    } else if d == 3 {
        '3'
    } else if d == 4 {
        '4'
    } else if d == 5 {
        '5'
    } else if d == 6 {
        '6'
    } else if d == 7 {
        '7'
    } else if d == 8 {
        '8'
    } else if d == 9 {
        '9'
    } else if d == 10 {
        'a'
    } else if d == 11 {
        'b'
    } else if d == 12 {
        'c'
    } else if d == 13 {
        'd'
    } else if d == 14 {
        'e'
    } else {
        'f'
    }
}

/// `n` in base `base`, most significant digit first.
pub open spec fn in_base(n: nat, base: nat) -> Seq<char>
    decreases n,
{
    if base < 2 || n < base {
        seq![digit_char(n as int)]
    } else {
        proof {
            assert(n / base < n) by (nonlinear_arith)
                requires
                    n >= base,
                    base >= 2,
            ;
        }
        in_base(n / base, base).push(digit_char((n % base) as int))
    }
}

/// `n` in decimal.
pub open spec fn decimal(n: nat) -> Seq<char> {
    in_base(n, 10)
}

/// `n` in lower-case hexadecimal.
pub open spec fn hexadecimal(n: nat) -> Seq<char> {
    in_base(n, 16)
}

/// The ASCII lower-case form of a character.
pub open spec fn ascii_lower(c: char) -> int {
    if 65 <= c as int <= 90 {
        c as int + 32
    } else {
        c as int
    }
}

/// `a` and `b` differ at most in the case of ASCII letters.
pub open spec fn same_ignoring_ascii_case(a: Seq<char>, b: Seq<char>) -> bool {
    a.len() == b.len() && forall|i: int|
        0 <= i < a.len() ==> ascii_lower(#[trigger] a[i]) == ascii_lower(b[i])
}

/// Equality of two texts.
pub fn same(a: &str, b: &str) -> (r: bool)
    ensures
        r == (a@ == b@),
{
    a.to_owned() == b.to_owned()
}

/// A copy of an optional string.
pub fn copy_opt(o: &Option<String>) -> (r: Option<String>)
    ensures
        r == *o,
{
    match o {
        Some(s) => Some(s.clone()),
        None => None,
    }
}

/// Equality of two optional strings.
pub fn same_opt(a: &Option<String>, b: &Option<String>) -> (r: bool)
    ensures
        r == (opt_text(*a) == opt_text(*b)),
{
    match (a, b) {
        (Some(x), Some(y)) => *x == *y,
        (None, None) => true,
        _ => false,
    }
}

/// A copy of a list of strings.
pub fn copy_texts(v: &Vec<String>) -> (r: Vec<String>)
    ensures
        r@ == v@,
{
    let mut out: Vec<String> = Vec::new();
    for i in 0..v.len()
        invariant
            out@ == v@.take(i as int),
    {
        out.push(v[i].clone());
        assert(v@.take(i + 1) =~= v@.take(i as int).push(v@[i as int]));
    }
    assert(v@.take(v.len() as int) =~= v@);
    out
}

/// Adds a string to a list.
pub fn push_text(v: &mut Vec<String>, s: String)
    ensures
        texts(final(v)@) == texts(old(v)@).push(s@),
{
    let ghost added = s@;
    v.push(s);
    assert(texts(v@) =~= texts(old(v)@).push(added));
}

/// Whether a list of strings holds a text.
pub fn has(v: &Vec<String>, s: &str) -> (r: bool)
    ensures
        r == has_text(v@, s@),
{
    let wanted = s.to_owned();
    for i in 0..v.len()
        invariant
            wanted@ == s@,
            forall|j: int| 0 <= j < i ==> (#[trigger] v@[j])@ != s@,
    {
        if v[i] == wanted {
            assert(v@[i as int]@ == s@);
            return true;
        }
    }
    false
}

/// Holding a text is membership among the texts.
pub proof fn lemma_has_text(v: Seq<String>, s: Seq<char>)
    ensures
        has_text(v, s) == texts(v).contains(s),
{
    if has_text(v, s) {
        let i = choose|i: int| 0 <= i < v.len() && (#[trigger] v[i])@ == s;
        assert(texts(v)[i] == s);
    }
    if texts(v).contains(s) {
        let i = choose|i: int| 0 <= i < texts(v).len() && texts(v)[i] == s;
        assert(v[i]@ == s);
    }
}

/// The characters of a text.
pub fn chars_of(s: &str) -> (r: Vec<char>)
    ensures
        r@ == s@,
{
    let mut out: Vec<char> = Vec::new();
    for c in it: s.chars()
        invariant
            out@ == it.seq().take(it.index()),
            it.seq() == s@,
    {
        proof {
            assert(it.seq().take(it.index() + 1) =~= it.seq().take(it.index()).push(
                it.seq()[it.index()],
            ));
        }
        out.push(c);
    }
    assert(out@ =~= s@);
    out
}

/// Whether `needle` stands in `hay` at position `i`.
fn stands_at(hay: &Vec<char>, needle: &Vec<char>, i: usize) -> (r: bool)
    requires
        i + needle@.len() <= hay@.len(),
    ensures
        r == occurs_at(hay@, needle@, i as int),
{
    let end: usize = hay.len();
    for j in 0..needle.len()
        invariant
            i + needle@.len() <= hay@.len() == end,
            forall|k: int| 0 <= k < j ==> hay@[i + k] == #[trigger] needle@[k],
    {
        if hay[i + j] != needle[j] {
            assert(hay@.subrange(i as int, i + needle@.len())[j as int] != needle@[j as int]);
            return false;
        }
    }
    assert(hay@.subrange(i as int, i + needle@.len()) =~= needle@);
    true
}

/// Whether `needle` stands somewhere in `hay`.
pub fn contains(hay: &str, needle: &str) -> (r: bool)
    ensures
        r == occurs(hay@, needle@),
{
    let h = chars_of(hay);
    let n = chars_of(needle);
    if n.len() > h.len() {
        assert forall|i: int| !occurs_at(hay@, needle@, i) by {}
        return false;
    }
    let last: usize = h.len() - n.len();
    let mut i: usize = 0;
    loop
        invariant
            h@ == hay@,
            n@ == needle@,
            last == h@.len() - n@.len(),
            i <= last,
            forall|k: int| 0 <= k < i ==> !#[trigger] occurs_at(hay@, needle@, k),
        decreases last - i,
    {
        if stands_at(&h, &n, i) {
            assert(occurs_at(hay@, needle@, i as int));
            return true;
        }
        if i == last {
            assert forall|k: int| !#[trigger] occurs_at(hay@, needle@, k) by {}
            return false;
        }
        i = i + 1;
    }
}

/// Whether `s` begins with `prefix`.
pub fn starts_with(s: &str, prefix: &str) -> (r: bool)
    ensures
        r == begins_with(s@, prefix@),
{
    let h = chars_of(s);
    let p = chars_of(prefix);
    if p.len() > h.len() {
        return false;
    }
    let r = stands_at(&h, &p, 0);
    assert(s@.take(prefix@.len() as int) =~= s@.subrange(0, prefix@.len() as int));
    r
}

/// Whether `s` ends with `suffix`.
pub fn ends_with(s: &str, suffix: &str) -> (r: bool)
    ensures
        r == finishes_with(s@, suffix@),
{
    let h = chars_of(s);
    let p = chars_of(suffix);
    if p.len() > h.len() {
        return false;
    }
    let at: usize = h.len() - p.len();
    let r = stands_at(&h, &p, at);
    assert(s@.skip(at as int) =~= s@.subrange(at as int, at + suffix@.len()));
    r
}

/// The characters of `s` from `from` up to, but not including, `to`.
pub fn slice(s: &str, from: usize, to: usize) -> (r: String)
    requires
        from <= to <= s@.len(),
    ensures
        r@ == s@.subrange(from as int, to as int),
{
    s.substring_char(from, to).to_owned()
}

/// What follows `prefix` in `s`, where `s` begins with it.
pub fn strip_prefix(s: &str, prefix: &str) -> (r: Option<String>)
    ensures
        match r {
            Some(rest) => s@ == prefix@ + rest@,
            None => !begins_with(s@, prefix@),
        },
{
    if starts_with(s, prefix) {
        let from: usize = chars_of(prefix).len();
        let to: usize = chars_of(s).len();
        assert(s@ =~= s@.take(from as int) + s@.subrange(from as int, to as int));
        Some(slice(s, from, to))
    } else {
        None
    }
}

/// What precedes `suffix` in `s`, where `s` ends with it.
pub fn strip_suffix(s: &str, suffix: &str) -> (r: Option<String>)
    ensures
        match r {
            Some(rest) => s@ == rest@ + suffix@,
            None => !finishes_with(s@, suffix@),
        },
{
    if ends_with(s, suffix) {
        let cut: usize = chars_of(suffix).len();
        let len: usize = chars_of(s).len();
        assert(s@ =~= s@.subrange(0, len - cut) + s@.skip(len - cut));
        Some(slice(s, 0, len - cut))
    } else {
        None
    }
}

/// The two parts of `s` around its first `c`.
pub fn split_once(s: &str, c: char) -> (r: Option<(String, String)>)
    ensures
        match r {
            Some(parts) => s@ == parts.0@ + seq![c] + parts.1@ && !parts.0@.contains(c),
            None => !s@.contains(c),
        },
{
    let cs = chars_of(s);
    for i in 0..cs.len()
        invariant
            cs@ == s@,
            forall|k: int| 0 <= k < i ==> s@[k] != c,
    {
        if cs[i] == c {
            let a = slice(s, 0, i);
            let b = slice(s, i + 1, cs.len());
            assert(s@ =~= a@ + seq![c] + b@);
            return Some((a, b));
        }
    }
    None
}

/// A text splits at most one way around its first `c`, and the part before it
/// is [`head_of`].
pub proof fn lemma_head_of(s: Seq<char>, a: Seq<char>, c: char, b: Seq<char>)
    requires
        s == a + seq![c] + b,
        !a.contains(c),
    ensures
        head_of(s, c) == a,
    decreases a.len(),
{
    if a.len() == 0 {
        assert(s[0] == c);
        assert(head_of(s, c) =~= a);
    } else {
        assert(s[0] == a[0]);
        assert(a.contains(a[0]));
        assert(s.drop_first() =~= a.drop_first() + seq![c] + b);
        assert(!a.drop_first().contains(c)) by {
            if a.drop_first().contains(c) {
                let i = choose|i: int| 0 <= i < a.drop_first().len() && a.drop_first()[i] == c;
                assert(a[i + 1] == c);
            }
        }
        lemma_head_of(s.drop_first(), a.drop_first(), c, b);
        assert(seq![a[0]] + a.drop_first() =~= a);
    }
}

/// A text without `c` is its own [`head_of`].
pub proof fn lemma_head_of_whole(s: Seq<char>, c: char)
    requires
        !s.contains(c),
    ensures
        head_of(s, c) == s,
    decreases s.len(),
{
    if s.len() > 0 {
        assert(s.contains(s[0]));
        assert(!s.drop_first().contains(c)) by {
            if s.drop_first().contains(c) {
                let i = choose|i: int| 0 <= i < s.drop_first().len() && s.drop_first()[i] == c;
                assert(s[i + 1] == c);
            }
        }
        lemma_head_of_whole(s.drop_first(), c);
        assert(seq![s[0]] + s.drop_first() =~= s);
    }
}

/// The two parts of `s` around its first `c`.
pub open spec fn parted(s: Seq<char>, c: char) -> Option<(Seq<char>, Seq<char>)> {
    if s.contains(c) {
        Some((head_of(s, c), s.skip(head_of(s, c).len() as int + 1)))
    } else {
        None
    }
}

/// The two parts of `s` around its first `c`.
pub fn part(s: &str, c: char) -> (r: Option<(String, String)>)
    ensures
        match r {
            Some(p) => parted(s@, c) == Some((p.0@, p.1@)),
            None => parted(s@, c) is None,
        },
{
    match split_once(s, c) {
        Some(p) => {
            proof {
                lemma_head_of(s@, p.0@, c, p.1@);
                assert(s@[p.0@.len() as int] == c);
                assert(s@.skip(p.0@.len() as int + 1) =~= p.1@);
            }
            Some(p)
        },
        None => None,
    }
}

/// The text before the first `c`, or all of `s` where `c` does not occur.
pub fn before_first(s: &str, c: char) -> (r: String)
    ensures
        r@ == head_of(s@, c),
{
    match split_once(s, c) {
        Some(parts) => {
            proof {
                lemma_head_of(s@, parts.0@, c, parts.1@);
            }
            parts.0
        },
        None => {
            proof {
                lemma_head_of_whole(s@, c);
            }
            s.to_owned()
        },
    }
}

/// `parts` written one after the other with `sep` between neighbours.
pub fn join(parts: &Vec<String>, sep: &str) -> (r: String)
    ensures
        r@ == joined(texts(parts@), sep@),
{
    let mut out = String::new();
    for i in 0..parts.len()
        invariant
            out@ == joined(texts(parts@.take(i as int)), sep@),
    {
        let ghost before = texts(parts@.take(i as int));
        let ghost after = texts(parts@.take(i + 1));
        proof {
            assert(after.drop_last() =~= before);
            assert(after.last() == parts@[i as int]@);
        }
        if i > 0 {
            out.append(sep);
        } else {
            assert(out@ + parts@[0]@ =~= parts@[0]@);
        }
        out.append(parts[i].as_str());
    }
    assert(parts@.take(parts@.len() as int) =~= parts@);
    out
}

/// The digit `d` as text.
fn digit(d: u128) -> (r: &'static str)
    requires
        d < 16,
    ensures
        r@ == seq![digit_char(d as int)],
{
    proof {
        reveal_strlit("0");
        reveal_strlit("1");
        reveal_strlit("2");
        reveal_strlit("3");
        reveal_strlit("4");
        reveal_strlit("5");
        reveal_strlit("6");
        reveal_strlit("7");
        reveal_strlit("8");
        reveal_strlit("9");
        reveal_strlit("a");
        reveal_strlit("b");
        reveal_strlit("c");
        reveal_strlit("d");
        reveal_strlit("e");
        reveal_strlit("f");
    }
    let r = match d {
        0 => "0",
        1 => "1",
        2 => "2",
        3 => "3",
        4 => "4",
        5 => "5",
        6 => "6",
        7 => "7",
        8 => "8",
        9 => "9",
        10 => "a",
        11 => "b",
        12 => "c",
        13 => "d",
        14 => "e",
        _ => "f",
    };
    assert(r@ =~= seq![digit_char(d as int)]);
    r
}

/// `n` written in base `base`.
fn write_in_base(n: u128, base: u128) -> (r: String)
    requires
        2 <= base <= 16,
    ensures
        r@ == in_base(n as nat, base as nat),
    decreases n,
{
    if n < base {
        digit(n).to_owned()
    } else {
        proof {
            assert(n / base < n) by (nonlinear_arith)
                requires
                    n >= base,
                    base >= 2,
            ;
            assert(n % base < base) by (nonlinear_arith)
                requires
                    base >= 2,
            ;
        }
        let high = write_in_base(n / base, base);
        let r = high.concat(digit(n % base));
        assert(r@ =~= in_base((n / base) as nat, base as nat).push(
            digit_char((n % base) as int),
        ));
        r
    }
}

/// `n` in decimal.
pub fn to_decimal(n: usize) -> (r: String)
    ensures
        r@ == decimal(n as nat),
{
    write_in_base(n as u128, 10)
}

/// `n` in decimal.
pub fn u32_to_decimal(n: u32) -> (r: String)
    ensures
        r@ == decimal(n as nat),
{
    write_in_base(n as u128, 10)
}

/// `n` in lower-case hexadecimal.
pub fn to_hexadecimal(n: u128) -> (r: String)
    ensures
        r@ == hexadecimal(n as nat),
{
    write_in_base(n, 16)
}

/// The ASCII lower-case code of a character.
fn lower_code(c: char) -> (r: u32)
    ensures
        r == ascii_lower(c),
{
    let code: u32 = c as u32;
    if 65 <= code && code <= 90 {
        code + 32
    } else {
        code
    }
}

/// Whether `a` and `b` differ at most in the case of ASCII letters.
pub fn eq_ignoring_ascii_case(a: &str, b: &str) -> (r: bool)
    ensures
        r == same_ignoring_ascii_case(a@, b@),
{
    let x = chars_of(a);
    let y = chars_of(b);
    if x.len() != y.len() {
        return false;
    }
    for i in 0..x.len()
        invariant
            x@ == a@,
            y@ == b@,
            x@.len() == y@.len(),
            forall|k: int| 0 <= k < i ==> ascii_lower(#[trigger] a@[k]) == ascii_lower(b@[k]),
    {
        if lower_code(x[i]) != lower_code(y[i]) {
            assert(ascii_lower(a@[i as int]) != ascii_lower(b@[i as int]));
            return false;
        }
    }
    true
}

/// The Unicode lower-case form of a text.
pub uninterp spec fn lower_text(s: Seq<char>) -> Seq<char>;

/// Calls `str::to_lowercase`: the Unicode lower-case form of `s`, a function of
/// the characters of `s` alone.
#[verifier::external_body]
pub(crate) fn lowercase(s: &str) -> (r: String)
    ensures
        r@ == lower_text(s@),
{
    s.to_lowercase()
}

/// A text in double quotes with special characters escaped.
pub uninterp spec fn quoted_text(s: Seq<char>) -> Seq<char>;

/// Formats `s` with `{:?}`, std's `Debug` for `str`: the text in double quotes
/// with special characters escaped, a function of the characters of `s` alone.
#[verifier::external_body]
pub(crate) fn quoted(s: &str) -> (r: String)
    ensures
        r@ == quoted_text(s@),
{
    format!("{:?}", s)
}

/// `Some("..")` or `None`.
pub open spec fn quoted_opt_text(o: Option<Seq<char>>) -> Seq<char> {
    match o {
        Some(s) => "Some("@ + quoted_text(s) + ")"@,
        None => "None"@,
    }
}

/// `Some("..")` or `None`.
pub(crate) fn quoted_opt(o: &Option<String>) -> (r: String)
    ensures
        r@ == quoted_opt_text(opt_text(*o)),
{
    match o {
        Some(s) => "Some(".to_owned().concat(quoted(s.as_str()).as_str()).concat(")"),
        None => "None".to_owned(),
    }
}

/// A character has the Unicode property `White_Space`.
pub open spec fn white_space(c: char) -> bool {
    let n = c as int;
    ||| 0x9 <= n <= 0xd
    ||| n == 0x20
    ||| n == 0x85
    ||| n == 0xa0
    ||| n == 0x1680
    ||| 0x2000 <= n <= 0x200a
    ||| n == 0x2028
    ||| n == 0x2029
    ||| n == 0x202f
    ||| n == 0x205f
    ||| n == 0x3000
}

/// Whether a character has the Unicode property `White_Space`.
pub fn is_white_space(c: char) -> (r: bool)
    ensures
        r == white_space(c),
{
    let n: u32 = code_point(c);
    (0x9 <= n && n <= 0xd) || n == 0x20 || n == 0x85 || n == 0xa0 || n == 0x1680 || (0x2000 <= n
        && n <= 0x200a) || n == 0x2028 || n == 0x2029 || n == 0x202f || n == 0x205f || n == 0x3000
}

/// Every character of `s` is white space.
pub open spec fn blank(s: Seq<char>) -> bool {
    forall|i: int| 0 <= i < s.len() ==> white_space(#[trigger] s[i])
}

/// Whether every character of `s` is white space.
pub fn is_blank(s: &str) -> (r: bool)
    ensures
        r == blank(s@),
{
    let cs = chars_of(s);
    for i in 0..cs.len()
        invariant
            cs@ == s@,
            forall|k: int| 0 <= k < i ==> white_space(#[trigger] s@[k]),
    {
        if !is_white_space(cs[i]) {
            assert(!white_space(s@[i as int]));
            return false;
        }
    }
    true
}

/// `s` without the white space that it begins with.
pub open spec fn trim_front(s: Seq<char>) -> Seq<char>
    decreases s.len(),
{
    if s.len() > 0 && white_space(s[0]) {
        trim_front(s.drop_first())
    } else {
        s
    }
}

/// `s` without the white space that it ends with.
pub open spec fn trim_back(s: Seq<char>) -> Seq<char>
    decreases s.len(),
{
    if s.len() > 0 && white_space(s.last()) {
        trim_back(s.drop_last())
    } else {
        s
    }
}

/// `s` without white space at either end.
pub open spec fn trimmed(s: Seq<char>) -> Seq<char> {
    trim_back(trim_front(s))
}

/// `s` without white space at either end.
pub fn trim(s: &str) -> (r: String)
    ensures
        r@ == trimmed(s@),
{
    let cs = chars_of(s);
    let mut from: usize = 0;
    assert(s@.skip(0) =~= s@);
    while from < cs.len() && is_white_space(cs[from])
        invariant
            cs@ == s@,
            from <= cs@.len(),
            trim_front(s@) == trim_front(s@.skip(from as int)),
        ensures
            from < cs@.len() ==> !white_space(s@[from as int]),
        decreases cs@.len() - from,
    {
        assert(s@.skip(from as int).drop_first() =~= s@.skip(from + 1));
        from = from + 1;
    }
    let ghost front = trim_front(s@);
    assert(front == s@.skip(from as int));
    let mut to: usize = cs.len();
    assert(front =~= s@.subrange(from as int, to as int));
    while from < to && is_white_space(cs[to - 1])
        invariant
            cs@ == s@,
            from <= to <= cs@.len(),
            trim_back(front) == trim_back(s@.subrange(from as int, to as int)),
        ensures
            from < to ==> !white_space(s@[to - 1]),
        decreases to,
    {
        assert(s@.subrange(from as int, to as int).drop_last() =~= s@.subrange(
            from as int,
            to - 1,
        ));
        to = to - 1;
    }
    slice(s, from, to)
}

/// `s` without the `prefix`es that it begins with.
pub open spec fn strip_all(s: Seq<char>, prefix: Seq<char>) -> Seq<char>
    decreases s.len(),
{
    if prefix.len() > 0 && begins_with(s, prefix) {
        strip_all(s.skip(prefix.len() as int), prefix)
    } else {
        s
    }
}

/// `s` without the `prefix`es that it begins with.
pub fn trim_prefixes(s: &str, prefix: &str) -> (r: String)
    ensures
        r@ == strip_all(s@, prefix@),
{
    let mut rest = s.to_owned();
    if prefix.is_empty() {
        return rest;
    }
    while starts_with(rest.as_str(), prefix)
        invariant
            prefix@.len() > 0,
            strip_all(s@, prefix@) == strip_all(rest@, prefix@),
        decreases rest@.len(),
    {
        let from: usize = chars_of(prefix).len();
        let to: usize = chars_of(rest.as_str()).len();
        let shorter = slice(rest.as_str(), from, to);
        assert(shorter@ =~= rest@.skip(prefix@.len() as int));
        rest = shorter;
    }
    rest
}

/// Order of two texts by their characters: negative, zero or positive.
pub open spec fn compare_text(a: Seq<char>, b: Seq<char>) -> int
    decreases a.len(),
{
    if a.len() == 0 && b.len() == 0 {
        0
    } else if a.len() == 0 {
        -1
    } else if b.len() == 0 {
        1
    } else if (a[0] as int) < (b[0] as int) {
        -1
    } else if (a[0] as int) > (b[0] as int) {
        1
    } else {
        compare_text(a.drop_first(), b.drop_first())
    }
}

/// The code point of a character.
fn code_point(c: char) -> (r: u32)
    ensures
        r == c as int,
{
    c as u32
}

/// Order of two texts by their characters.
pub fn compare_texts(a: &str, b: &str) -> (r: i8)
    ensures
        r == compare_text(a@, b@),
{
    let x = chars_of(a);
    let y = chars_of(b);
    let mut i: usize = 0;
    assert(a@.skip(0) =~= a@);
    assert(b@.skip(0) =~= b@);
    while i < x.len() && i < y.len()
        invariant
            x@ == a@,
            y@ == b@,
            i <= a@.len(),
            i <= b@.len(),
            compare_text(a@, b@) == compare_text(a@.skip(i as int), b@.skip(i as int)),
        decreases a@.len() - i,
    {
        let c: u32 = code_point(x[i]);
        let d: u32 = code_point(y[i]);
        if c < d {
            return -1;
        }
        if c > d {
            return 1;
        }
        assert(a@.skip(i as int).drop_first() =~= a@.skip(i + 1));
        assert(b@.skip(i as int).drop_first() =~= b@.skip(i + 1));
        i = i + 1;
    }
    if i < y.len() {
        -1
    } else if i < x.len() {
        1
    } else {
        0
    }
}

/// Swapping two texts turns their order round, and only equal texts are equal in order.
pub proof fn lemma_compare_text_flip(a: Seq<char>, b: Seq<char>)
    ensures
        compare_text(a, b) == -compare_text(b, a),
        compare_text(a, b) == 0 ==> a == b,
    decreases a.len(),
{
    if a.len() > 0 && b.len() > 0 && a[0] == b[0] {
        lemma_compare_text_flip(a.drop_first(), b.drop_first());
        if compare_text(a, b) == 0 {
            assert(a =~= seq![a[0]] + a.drop_first());
            assert(b =~= seq![b[0]] + b.drop_first());
        }
    } else if a.len() == 0 && b.len() == 0 {
        assert(a =~= b);
    }
}

/// The order of texts carries over.
pub proof fn lemma_compare_text_chain(a: Seq<char>, b: Seq<char>, c: Seq<char>)
    requires
        compare_text(a, b) <= 0,
        compare_text(b, c) <= 0,
    ensures
        compare_text(a, c) <= 0,
        compare_text(a, c) == 0 ==> compare_text(a, b) == 0 && compare_text(b, c) == 0,
    decreases a.len(),
{
    if a.len() > 0 && b.len() > 0 && c.len() > 0 && a[0] == b[0] && b[0] == c[0] {
        lemma_compare_text_chain(a.drop_first(), b.drop_first(), c.drop_first());
    }
}

/// A text occurs in another exactly where the other is made of something, the text
/// and something more.
pub proof fn law_occurs(hay: Seq<char>, needle: Seq<char>, before: Seq<char>, after: Seq<char>)
    ensures
        hay == before + needle + after ==> occurs(hay, needle),
        occurs(hay, needle) ==> exists|a: Seq<char>, b: Seq<char>|
            hay == #[trigger] (a + needle + b),
{
    if hay == before + needle + after {
        let i = before.len() as int;
        assert(hay.subrange(i, i + needle.len()) =~= needle);
        assert(occurs_at(hay, needle, i));
    }
    if occurs(hay, needle) {
        let i = choose|i: int| #[trigger] occurs_at(hay, needle, i);
        assert(hay =~= hay.take(i) + needle + hay.skip(i + needle.len()));
    }
}

/// A text begins with another exactly where it is the other and something more, and
/// ends with another exactly where it is something and the other.
pub proof fn law_begins_and_finishes(hay: Seq<char>, needle: Seq<char>, rest: Seq<char>)
    ensures
        hay == needle + rest ==> begins_with(hay, needle),
        begins_with(hay, needle) ==> exists|r: Seq<char>| hay == #[trigger] (needle + r),
        hay == rest + needle ==> finishes_with(hay, needle),
        finishes_with(hay, needle) ==> exists|r: Seq<char>| hay == #[trigger] (r + needle),
{
    if hay == needle + rest {
        assert(hay.take(needle.len() as int) =~= needle);
    }
    if begins_with(hay, needle) {
        assert(hay =~= needle + hay.skip(needle.len() as int));
    }
    if hay == rest + needle {
        assert(hay.skip(hay.len() - needle.len()) =~= needle);
    }
    if finishes_with(hay, needle) {
        assert(hay =~= hay.take(hay.len() - needle.len()) + needle);
    }
}

/// The part of a text before the first `c`: where the text is `a`, `c` and more, and
/// `a` has no `c`, it is `a`; where the text has no `c`, it is the whole text. One of
/// the two is the case.
pub proof fn law_head_of(s: Seq<char>, a: Seq<char>, c: char, b: Seq<char>)
    ensures
        s == a + seq![c] + b && !a.contains(c) ==> head_of(s, c) == a,
        !s.contains(c) ==> head_of(s, c) == s,
        !head_of(s, c).contains(c),
        s.contains(c) ==> exists|r: Seq<char>| s == #[trigger] (head_of(s, c) + seq![c] + r),
    decreases s.len(),
{
    if s == a + seq![c] + b && !a.contains(c) {
        lemma_head_of(s, a, c, b);
    }
    if !s.contains(c) {
        lemma_head_of_whole(s, c);
    }
    let h = head_of(s, c);
    if s.len() > 0 && s[0] != c {
        let t = s.drop_first();
        law_head_of(t, a, c, b);
        let g = head_of(t, c);
        assert forall|i: int| 0 <= i < h.len() implies h[i] != c by {
            if i > 0 {
                assert(h[i] == g[i - 1]);
                assert(g.contains(g[i - 1]));
            }
        }
        if s.contains(c) {
            let k = choose|k: int| 0 <= k < s.len() && s[k] == c;
            assert(t[k - 1] == c);
            assert(t.contains(c));
            let r = choose|r: Seq<char>| t == #[trigger] (g + seq![c] + r);
            assert(h == seq![s[0]] + g);
            assert(seq![s[0]] + t =~= s);
            assert(seq![s[0]] + (g + seq![c] + r) =~= h + seq![c] + r);
        }
    } else if s.len() > 0 {
        assert(s =~= h + seq![c] + s.drop_first());
    }
}

proof fn lemma_compare_common(p: Seq<char>, a: Seq<char>, b: Seq<char>)
    ensures
        compare_text(p + a, p + b) == compare_text(a, b),
    decreases p.len(),
{
    if p.len() == 0 {
        assert(p + a =~= a);
        assert(p + b =~= b);
    } else {
        lemma_compare_common(p.drop_first(), a, b);
        assert((p + a).drop_first() =~= p.drop_first() + a);
        assert((p + b).drop_first() =~= p.drop_first() + b);
    }
}

/// Texts are ordered by their first difference: of two texts with a common beginning,
/// the one whose next character has the lower code point comes first, and one that
/// is over comes before one that goes on. Only equal texts are equal in order.
pub proof fn law_order_of_texts(
    p: Seq<char>,
    x: char,
    y: char,
    a: Seq<char>,
    b: Seq<char>,
)
    ensures
        (x as int) < (y as int) ==> compare_text(p + seq![x] + a, p + seq![y] + b) < 0,
        (x as int) > (y as int) ==> compare_text(p + seq![x] + a, p + seq![y] + b) > 0,
        compare_text(p, p + seq![x] + a) < 0,
        compare_text(p + seq![x] + a, p) > 0,
        compare_text(a, b) == 0 <==> a == b,
{
    let e = Seq::<char>::empty();
    assert(p + seq![x] + a =~= p + (seq![x] + a));
    assert(p + seq![y] + b =~= p + (seq![y] + b));
    assert(p =~= p + e);
    lemma_compare_common(p, seq![x] + a, seq![y] + b);
    lemma_compare_common(p, e, seq![x] + a);
    lemma_compare_common(p, seq![x] + a, e);
    lemma_compare_text_flip(a, b);
    lemma_compare_common(a, e, e);
    assert(a + e =~= a);
}

/// A text without white space at its ends is what lies between the white space: where
/// a text is white space, a middle that neither begins nor ends with any, and white
/// space, its trimmed form is the middle.
pub proof fn law_trimmed(a: Seq<char>, t: Seq<char>, b: Seq<char>)
    requires
        forall|i: int| 0 <= i < a.len() ==> white_space(#[trigger] a[i]),
        forall|i: int| 0 <= i < b.len() ==> white_space(#[trigger] b[i]),
        t.len() > 0 ==> !white_space(t[0]) && !white_space(t.last()),
    ensures
        trimmed(a + t + b) == t,
    decreases a.len() + b.len(),
{
    let s = a + t + b;
    if a.len() > 0 {
        assert(white_space(a[0]));
        assert(s[0] == a[0]);
        let rest = a.drop_first();
        assert forall|i: int| 0 <= i < rest.len() implies white_space(#[trigger] rest[i]) by {
            assert(rest[i] == a[i + 1]);
        }
        assert(s.drop_first() =~= rest + t + b);
        law_trimmed(rest, t, b);
    } else {
        assert(s =~= t + b);
        if t.len() > 0 {
            assert(s[0] == t[0]);
            assert(trim_front(s) == s);
            lemma_trim_back(t, b);
        } else {
            assert(s =~= b);
            assert(t =~= Seq::<char>::empty());
            lemma_trim_front_blank(b);
        }
    }
}

proof fn lemma_trim_back(t: Seq<char>, b: Seq<char>)
    requires
        forall|i: int| 0 <= i < b.len() ==> white_space(#[trigger] b[i]),
        t.len() > 0 ==> !white_space(t.last()),
    ensures
        trim_back(t + b) == t,
    decreases b.len(),
{
    if b.len() == 0 {
        assert(t + b =~= t);
    } else {
        assert(white_space(b[b.len() - 1]));
        assert((t + b).drop_last() =~= t + b.drop_last());
        lemma_trim_back(t, b.drop_last());
    }
}

proof fn lemma_trim_front_blank(b: Seq<char>)
    requires
        forall|i: int| 0 <= i < b.len() ==> white_space(#[trigger] b[i]),
    ensures
        trim_front(b).len() == 0,
    decreases b.len(),
{
    if b.len() > 0 {
        assert(white_space(b[0]));
        let rest = b.drop_first();
        assert forall|i: int| 0 <= i < rest.len() implies white_space(#[trigger] rest[i]) by {
            assert(rest[i] == b[i + 1]);
        }
        lemma_trim_front_blank(rest);
    }
}

/// A text that begins with a prefix, once or many times, loses all of them, and one
/// that does not is left as it is.
pub proof fn law_strip_all(s: Seq<char>, prefix: Seq<char>)
    requires
        prefix.len() > 0,
    ensures
        strip_all(prefix + s, prefix) == strip_all(s, prefix),
        !begins_with(s, prefix) ==> strip_all(s, prefix) == s,
        !begins_with(strip_all(s, prefix), prefix),
        strip_all(s, prefix).len() <= s.len(),
    decreases s.len(),
{
    assert((prefix + s).take(prefix.len() as int) =~= prefix);
    assert((prefix + s).skip(prefix.len() as int) =~= s);
    if begins_with(s, prefix) {
        law_strip_all(s.skip(prefix.len() as int), prefix);
    }
}

/// The decimal digits of a number: one digit for a number below ten; for any other,
/// the digits of a tenth of it, and the last digit behind them.
pub proof fn law_decimal(n: nat, d: nat)
    requires
        d < 10,
    ensures
        decimal(d).len() == 1,
        decimal(d)[0] as int == '0' as int + d,
        n > 0 ==> decimal((10 * n + d) as nat) == decimal(n).push(decimal(d)[0]),
{
    if n > 0 {
        let m = (10 * n + d) as nat;
        assert(m / 10 == n) by (nonlinear_arith)
            requires
                m == 10 * n + d,
                d < 10,
        ;
        assert(m % 10 == d) by (nonlinear_arith)
            requires
                m == 10 * n + d,
                d < 10,
        ;
    }
}

/// Parts are joined with the separator between neighbours, and nowhere else.
pub proof fn law_joined(parts: Seq<Seq<char>>, x: Seq<char>, sep: Seq<char>)
    ensures
        joined(seq![], sep).len() == 0,
        joined(seq![x], sep) == x,
        parts.len() > 0 ==> joined(parts.push(x), sep) == joined(parts, sep) + sep + x,
{
    if parts.len() > 0 {
        assert(parts.push(x).drop_last() =~= parts);
    }
}

/// Two texts are the same but for ASCII case exactly where they are equally long and,
/// at each place, have the same character, or an upper-case letter of the alphabet and
/// its lower-case one.
pub proof fn law_same_but_for_case(a: Seq<char>, b: Seq<char>)
    ensures
        same_ignoring_ascii_case(a, b) <==> a.len() == b.len() && forall|i: int|
            0 <= i < a.len() ==> {
                let x = (#[trigger] a[i]) as int;
                let y = b[i] as int;
                ||| x == y
                ||| 'A' as int <= x <= 'Z' as int && y == x + 32
                ||| 'A' as int <= y <= 'Z' as int && x == y + 32
            },
{
    if a.len() == b.len() {
        assert forall|i: int| 0 <= i < a.len() implies (ascii_lower(#[trigger] a[i])
            == ascii_lower(b[i])) == ({
            let x = a[i] as int;
            let y = b[i] as int;
            ||| x == y
            ||| 'A' as int <= x <= 'Z' as int && y == x + 32
            ||| 'A' as int <= y <= 'Z' as int && x == y + 32
        }) by {}
        if same_ignoring_ascii_case(a, b) {
            assert forall|i: int| 0 <= i < a.len() implies ({
                let x = (#[trigger] a[i]) as int;
                let y = b[i] as int;
                ||| x == y
                ||| 'A' as int <= x <= 'Z' as int && y == x + 32
                ||| 'A' as int <= y <= 'Z' as int && x == y + 32
            }) by {
                assert(ascii_lower(a[i]) == ascii_lower(b[i]));
            }
        }
    }
}

/// A text is parted around the first `c`, and around nothing where there is none.
pub proof fn law_parted(s: Seq<char>, a: Seq<char>, c: char, b: Seq<char>)
    requires
        !a.contains(c),
    ensures
        s == a + seq![c] + b ==> parted(s, c) == Some((a, b)),
        !s.contains(c) ==> parted(s, c) is None,
{
    if s == a + seq![c] + b {
        law_head_of(s, a, c, b);
        assert(s[a.len() as int] == c);
        assert(s.contains(c));
        assert(s.skip(a.len() as int + 1) =~= b);
    }
}

/// A text is blank exactly where no character of it is other than white space; the
/// empty text is blank, and a text with a letter is not.
pub proof fn law_blank(s: Seq<char>, i: int)
    ensures
        blank(seq![]),
        0 <= i < s.len() && !white_space(s[i]) ==> !blank(s),
        !blank(s) ==> exists|k: int| 0 <= k < s.len() && !white_space(#[trigger] s[k]),
        white_space(' '),
        white_space('\t'),
        white_space('\n'),
        white_space('\r'),
        forall|c: char| 0x21 <= c as int <= 0x7e ==> !#[trigger] white_space(c),
{
}

/// A number to base sixteen: one digit for a number below sixteen, `a` to `f` behind
/// `9`, and a further digit behind those of a sixteenth of it.
pub proof fn law_hexadecimal(n: nat, d: nat)
    requires
        d < 16,
    ensures
        hexadecimal(d).len() == 1,
        d < 10 ==> hexadecimal(d)[0] as int == '0' as int + d,
        d >= 10 ==> hexadecimal(d)[0] as int == 'a' as int + d - 10,
        n > 0 ==> hexadecimal((16 * n + d) as nat) == hexadecimal(n).push(hexadecimal(d)[0]),
{
    if n > 0 {
        let m = (16 * n + d) as nat;
        assert(m / 16 == n) by (nonlinear_arith)
            requires
                m == 16 * n + d,
                d < 16,
        ;
        assert(m % 16 == d) by (nonlinear_arith)
            requires
                m == 16 * n + d,
                d < 16,
        ;
    }
}

/// An optional text in quotes says whether it is there.
pub proof fn law_quoted_option(s: Seq<char>)
    ensures
        quoted_opt_text(None) == "None"@,
        quoted_opt_text(Some(s)) == "Some("@ + quoted_text(s) + ")"@,
{
}

} // verus!
