//! JSON values as the library builds and reads them.
//!
//! Numbers are held as their decimal text, so that values received from a
//! peer pass through unchanged whatever their precision.

use vstd::prelude::*;
use crate::text::{decimal, push_decimal, string_from_chars, str_eq, owned};

verus! {

broadcast use vstd::string::group_string_axioms;

/// A JSON value.
pub enum Json {
    Null,
    Bool(bool),
    /// A number, as its JSON text.
    Number(String),
    Str(String),
    Array(Vec<Json>),
    /// Members in order; keys do not repeat.
    Object(Vec<(String, Json)>),
}

/// The contents of a [`Json`] value.
pub enum JsonView {
    Null,
    Bool(bool),
    Number(Seq<char>),
    Str(Seq<char>),
    Array(Seq<JsonView>),
    Object(Seq<(Seq<char>, JsonView)>),
}

/// The views of a sequence of values.
pub open spec fn json_seq_view(s: Seq<Json>) -> Seq<JsonView>
    decreases s,
{
    if s.len() == 0 {
        Seq::empty()
    } else {
        json_seq_view(s.drop_last()).push(json_view(s.last()))
    }
}

/// The views of a sequence of members.
pub open spec fn json_members_view(s: Seq<(String, Json)>) -> Seq<(Seq<char>, JsonView)>
    decreases s,
{
    if s.len() == 0 {
        Seq::empty()
    } else {
        json_members_view(s.drop_last()).push((s.last().0@, json_view(s.last().1)))
    }
}

/// The view of a value.
pub open spec fn json_view(j: Json) -> JsonView
    decreases j,
{
    match j {
        Json::Null => JsonView::Null,
        Json::Bool(b) => JsonView::Bool(b),
        Json::Number(n) => JsonView::Number(n@),
        Json::Str(s) => JsonView::Str(s@),
        Json::Array(v) => JsonView::Array(json_seq_view(v@)),
        Json::Object(v) => JsonView::Object(json_members_view(v@)),
    }
}

impl View for Json {
    type V = JsonView;

    open spec fn view(&self) -> JsonView {
        json_view(*self)
    }
}

/// Positions of a sequence's view match positions of the sequence.
pub proof fn lemma_json_seq_view(s: Seq<Json>)
    ensures
        json_seq_view(s).len() == s.len(),
        forall|i: int| 0 <= i < s.len() ==> #[trigger] json_seq_view(s)[i] == json_view(s[i]),
    decreases s.len(),
{
    if s.len() > 0 {
        lemma_json_seq_view(s.drop_last());
        assert forall|i: int| 0 <= i < s.len() implies #[trigger] json_seq_view(s)[i] == json_view(s[i]) by {
            if i < s.len() - 1 {
                assert(s.drop_last()[i] == s[i]);
            }
        }
    }
}

/// Positions of a member sequence's view match positions of the sequence.
pub proof fn lemma_json_members_view(s: Seq<(String, Json)>)
    ensures
        json_members_view(s).len() == s.len(),
        forall|i: int|
            0 <= i < s.len() ==> #[trigger] json_members_view(s)[i] == (s[i].0@, json_view(s[i].1)),
    decreases s.len(),
{
    if s.len() > 0 {
        lemma_json_members_view(s.drop_last());
        assert forall|i: int| 0 <= i < s.len() implies #[trigger] json_members_view(s)[i] == (s[i].0@, json_view(s[i].1)) by {
            if i < s.len() - 1 {
                assert(s.drop_last()[i] == s[i]);
            }
        }
    }
}

/// Appending a value appends its view.
pub proof fn lemma_json_seq_push(s: Seq<Json>, x: Json)
    ensures
        json_seq_view(s.push(x)) == json_seq_view(s).push(json_view(x)),
{
    assert(s.push(x).drop_last() =~= s);
}

/// Appending a member appends its view.
pub proof fn lemma_json_members_push(s: Seq<(String, Json)>, k: String, x: Json)
    ensures
        json_members_view(s.push((k, x))) == json_members_view(s).push((k@, json_view(x))),
{
    assert(s.push((k, x)).drop_last() =~= s);
}

/// A string value.
pub fn json_str(s: &str) -> (res: Json)
    ensures
        res@ == JsonView::Str(s@),
{
    Json::Str(owned(s))
}

/// The JSON text of an unsigned integer.
pub open spec fn number_text(n: nat) -> Seq<char> {
    decimal(n)
}

/// A number value for `n`.
pub fn json_u64(n: u64) -> (res: Json)
    ensures
        res@ == JsonView::Number(number_text(n as nat)),
{
    let mut v: Vec<char> = Vec::new();
    push_decimal(&mut v, n);
    proof {
        assert(Seq::<char>::empty() + decimal(n as nat) =~= decimal(n as nat));
    }
    Json::Number(string_from_chars(&v))
}

/// A builder for a JSON object.
pub struct ObjectBuilder {
    pub members: Vec<(String, Json)>,
}

impl ObjectBuilder {
    /// An object with no members.
    pub fn new() -> (res: ObjectBuilder)
        ensures
            json_members_view(res.members@) == Seq::<(Seq<char>, JsonView)>::empty(),
    {
        ObjectBuilder { members: Vec::new() }
    }

    /// Adds a member.
    pub fn add(&mut self, key: &str, value: Json)
        ensures
            json_members_view(final(self).members@) == json_members_view(old(self).members@).push(
                (key@, value@),
            ),
    {
        let k = owned(key);
        proof {
            lemma_json_members_push(self.members@, k, value);
        }
        self.members.push((k, value));
    }

    /// The object built.
    pub fn build(self) -> (res: Json)
        ensures
            res@ == JsonView::Object(json_members_view(self.members@)),
    {
        Json::Object(self.members)
    }
}

/// An object with one member.
pub fn json_obj1(k: &str, v: Json) -> (res: Json)
    ensures
        res@ == JsonView::Object(seq![(k@, v@)]),
{
    let mut b = ObjectBuilder::new();
    b.add(k, v);
    proof {
        assert(Seq::<(Seq<char>, JsonView)>::empty().push((k@, v@)) =~= seq![(k@, v@)]);
    }
    b.build()
}

/// An object with two members.
pub fn json_obj2(k1: &str, v1: Json, k2: &str, v2: Json) -> (res: Json)
    ensures
        res@ == JsonView::Object(seq![(k1@, v1@), (k2@, v2@)]),
{
    let mut b = ObjectBuilder::new();
    b.add(k1, v1);
    b.add(k2, v2);
    proof {
        assert(Seq::<(Seq<char>, JsonView)>::empty().push((k1@, v1@)).push((k2@, v2@)) =~= seq![
            (k1@, v1@),
            (k2@, v2@),
        ]);
    }
    b.build()
}

/// A copy of a value.
pub fn json_copy(j: &Json) -> (res: Json)
    ensures
        res@ == j@,
    decreases *j,
{
    match j {
        Json::Null => Json::Null,
        Json::Bool(b) => Json::Bool(*b),
        Json::Number(n) => Json::Number(n.clone()),
        Json::Str(s) => Json::Str(s.clone()),
        Json::Array(v) => {
            let mut out: Vec<Json> = Vec::new();
            let mut i: usize = 0;
            proof {
                assert(v@.take(0) =~= Seq::<Json>::empty());
            }
            while i < v.len()
                invariant
                    *j == Json::Array(*v),
                    i <= v.len(),
                    json_seq_view(out@) == json_seq_view(v@.take(i as int)),
                decreases v.len() - i,
            {
                proof {
                    assert(decreases_to!(*j => (*j)->Array_0));
                    assert((*j)->Array_0 == *v);
                    assert(decreases_to!(*v => v@));
                    assert(decreases_to!(v@ => v@[i as int]));
                    assert(decreases_to!(*j => v@[i as int]));
                }
                let x = json_copy(&v[i]);
                proof {
                    lemma_json_seq_push(out@, x);
                    assert(v@.take(i + 1).drop_last() =~= v@.take(i as int));
                }
                out.push(x);
                i = i + 1;
            }
            proof {
                assert(v@.take(v@.len() as int) =~= v@);
            }
            Json::Array(out)
        },
        Json::Object(v) => {
            let mut out: Vec<(String, Json)> = Vec::new();
            let mut i: usize = 0;
            proof {
                assert(v@.take(0) =~= Seq::<(String, Json)>::empty());
            }
            while i < v.len()
                invariant
                    *j == Json::Object(*v),
                    i <= v.len(),
                    json_members_view(out@) == json_members_view(v@.take(i as int)),
                decreases v.len() - i,
            {
                proof {
                    assert(decreases_to!(*j => (*j)->Object_0));
                    assert((*j)->Object_0 == *v);
                    assert(decreases_to!(*v => v@));
                    assert(decreases_to!(v@ => v@[i as int]));
                    assert(decreases_to!(v@[i as int] => v@[i as int].1));
                    assert(decreases_to!(*j => v@[i as int].1));
                }
                let x = json_copy(&v[i].1);
                let k = v[i].0.clone();
                proof {
                    lemma_json_members_push(out@, k, x);
                    assert(v@.take(i + 1).drop_last() =~= v@.take(i as int));
                }
                out.push((k, x));
                i = i + 1;
            }
            proof {
                assert(v@.take(v@.len() as int) =~= v@);
            }
            Json::Object(out)
        },
    }
}

// ───────────────────────── JSON text ─────────────────────────

/// Whether `t.parse::<serde_json::Number>()` succeeds: `t` is a JSON number
/// that serde_json can hold.
pub uninterp spec fn json_number_ok(t: Seq<char>) -> bool;

/// Every number in `j` is text that serde_json reads as a number.
pub open spec fn numbers_ok(j: JsonView) -> bool
    decreases j,
{
    match j {
        JsonView::Number(t) => json_number_ok(t),
        JsonView::Array(s) => forall|i: int| 0 <= i < s.len() ==> numbers_ok(#[trigger] s[i]),
        JsonView::Object(m) => forall|i: int| 0 <= i < m.len() ==> numbers_ok(#[trigger] m[i].1),
        _ => true,
    }
}

/// The text `serde_json::Value::to_string` writes for the value: compact,
/// strings escaped, object members in serde_json's key order.
pub uninterp spec fn serde_text(j: JsonView) -> Seq<char>;

/// What `serde_json::from_str::<serde_json::Value>` makes of `text`, as a
/// value of the library (numbers as serde_json writes them); `None` when the
/// text is not one JSON value.
pub uninterp spec fn parsed_json(text: Seq<char>) -> Option<JsonView>;

/// The `serde_json::Value` type.
#[verifier::external_type_specification]
#[verifier::external_body]
pub struct ExSerdeValue(serde_json::Value);

/// The `serde_json::Value` holding `j`, item for item.
#[verifier::external_body]
fn value_of(j: &Json) -> serde_json::Value
    requires
        numbers_ok(j@),
{
    match j {
        Json::Null => serde_json::Value::Null,
        Json::Bool(b) => serde_json::Value::Bool(*b),
        Json::Number(t) => t.parse::<serde_json::Number>().map(serde_json::Value::Number).unwrap_or(serde_json::Value::Null),
        Json::Str(t) => serde_json::Value::String(t.clone()),
        Json::Array(v) => serde_json::Value::Array(v.iter().map(value_of).collect()),
        Json::Object(m) => serde_json::Value::Object(m.iter().map(|(k, v)| (k.clone(), value_of(v))).collect()),
    }
}

/// The library's value holding `v`, item for item; numbers as serde_json writes them.
#[verifier::external_body]
fn json_of(v: &serde_json::Value) -> Json {
    match v {
        serde_json::Value::Null => Json::Null,
        serde_json::Value::Bool(b) => Json::Bool(*b),
        serde_json::Value::Number(n) => Json::Number(n.to_string()),
        serde_json::Value::String(t) => Json::Str(t.clone()),
        serde_json::Value::Array(a) => Json::Array(a.iter().map(json_of).collect()),
        serde_json::Value::Object(m) => Json::Object(m.iter().map(|(k, v)| (k.clone(), json_of(v))).collect()),
    }
}

/// The JSON text of `j`: `serde_json::Value::to_string` of the same value.
#[verifier::external_body]
pub(crate) fn to_json_text(j: &Json) -> (res: String)
    requires
        numbers_ok(j@),
    ensures
        res@ == serde_text(j@),
{
    value_of(j).to_string()
}

/// Parses JSON text with `serde_json::from_str::<serde_json::Value>`.  A number
/// serde_json has read it writes back as text it reads again.
#[verifier::external_body]
pub(crate) fn parse_json(text: &str) -> (res: Option<Json>)
    ensures
        match res {
            Some(j) => parsed_json(text@) == Some(j@) && numbers_ok(j@) && (j@ matches JsonView::Number(t)
                ==> json_number_ok(t)),
            None => parsed_json(text@) is None,
        },
{
    match serde_json::from_str::<serde_json::Value>(text) {
        Ok(v) => Some(json_of(&v)),
        Err(_) => None,
    }
}

/// A member's value is among the object's member values.
proof fn lemma_find_member_in(m: Seq<(Seq<char>, JsonView)>, key: Seq<char>)
    ensures
        find_member(m, key) matches Some(v) ==> exists|i: int| 0 <= i < m.len() && #[trigger] m[i].1 == v,
    decreases m.len(),
{
    if m.len() > 0 {
        lemma_find_member_in(m.drop_last(), key);
        if let Some(v) = find_member(m.drop_last(), key) {
            let i = choose|i: int| 0 <= i < m.drop_last().len() && #[trigger] m.drop_last()[i].1 == v;
            assert(m[i].1 == v);
        } else if m.last().0 == key {
            assert(m[m.len() - 1].1 == m.last().1);
        }
    }
}

/// The members of a value whose numbers serde_json reads have the same property.
pub proof fn lemma_numbers_ok_field(j: JsonView, key: Seq<char>)
    requires
        numbers_ok(j),
    ensures
        numbers_ok(field(j, key)),
        get_field(j, key) matches Some(v) ==> numbers_ok(v),
{
    if let JsonView::Object(m) = j {
        lemma_find_member_in(m, key);
        if let Some(v) = find_member(m, key) {
            let i = choose|i: int| 0 <= i < m.len() && #[trigger] m[i].1 == v;
            assert(numbers_ok(m[i].1));
        }
    }
}

// ───────────────────────── reading ─────────────────────────

/// The value of the first member named `key`.
pub open spec fn find_member(m: Seq<(Seq<char>, JsonView)>, key: Seq<char>) -> Option<JsonView>
    decreases m.len(),
{
    if m.len() == 0 {
        None
    } else {
        match find_member(m.drop_last(), key) {
            Some(v) => Some(v),
            None => if m.last().0 == key {
                Some(m.last().1)
            } else {
                None
            },
        }
    }
}

/// `j[key]` as serde_json indexes: the member's value, or null when `j` is
/// not an object or has no such member.
pub open spec fn field(j: JsonView, key: Seq<char>) -> JsonView {
    match j {
        JsonView::Object(m) => match find_member(m, key) {
            Some(v) => v,
            None => JsonView::Null,
        },
        _ => JsonView::Null,
    }
}

/// `j.get(key)`: the member's value when `j` is an object that has it.
pub open spec fn get_field(j: JsonView, key: Seq<char>) -> Option<JsonView> {
    match j {
        JsonView::Object(m) => find_member(m, key),
        _ => None,
    }
}

/// `j.as_str()`.
pub open spec fn as_str(j: JsonView) -> Option<Seq<char>> {
    match j {
        JsonView::Str(s) => Some(s),
        _ => None,
    }
}

/// `j.as_bool()`.
pub open spec fn as_bool(j: JsonView) -> Option<bool> {
    match j {
        JsonView::Bool(b) => Some(b),
        _ => None,
    }
}

/// `j.as_array()`.
pub open spec fn as_array(j: JsonView) -> Option<Seq<JsonView>> {
    match j {
        JsonView::Array(a) => Some(a),
        _ => None,
    }
}

/// `c` is an ASCII digit.
pub open spec fn is_digit(c: char) -> bool {
    '0' <= c && c <= '9'
}

/// The value of a run of decimal digits.
pub open spec fn digits_value(s: Seq<char>) -> nat
    decreases s.len(),
{
    if s.len() == 0 {
        0
    } else {
        digits_value(s.drop_last()) * 10 + ((s.last() as u32 - 48) as nat)
    }
}

/// `j.as_u64()`: the value of a number written as plain decimal digits that
/// fits in 64 bits.
pub open spec fn as_u64(j: JsonView) -> Option<u64> {
    match j {
        JsonView::Number(t) => if t.len() > 0 && (forall|i: int| 0 <= i < t.len() ==> is_digit(#[trigger] t[i]))
            && digits_value(t) <= u64::MAX {
            Some(digits_value(t) as u64)
        } else {
            None
        },
        _ => None,
    }
}

impl Json {
    /// The value of the first member named `key`, when this is an object that has it.
    pub fn get(&self, key: &str) -> (res: Option<&Json>)
        ensures
            match res {
                Some(v) => get_field(self@, key@) == Some(v@),
                None => get_field(self@, key@) is None,
            },
    {
        match self {
            Json::Object(m) => {
                assert(self@ == JsonView::Object(json_members_view(m@)));
                let mut i: usize = 0;
                proof {
                    lemma_json_members_view(m@);
                    assert(m@.take(0) =~= Seq::<(String, Json)>::empty());
                }
                while i < m.len()
                    invariant
                        self@ == JsonView::Object(json_members_view(m@)),
                        i <= m.len(),
                        json_members_view(m@).len() == m@.len(),
                        forall|k: int| 0 <= k < m@.len() ==> #[trigger] json_members_view(m@)[k] == (m@[k].0@, json_view(m@[k].1)),
                        find_member(json_members_view(m@).take(i as int), key@) is None,
                    decreases m.len() - i,
                {
                    let ghost mv = json_members_view(m@);
                    proof {
                        assert(mv.take(i + 1).drop_last() =~= mv.take(i as int));
                        assert(mv.take(i + 1).last() == mv[i as int]);
                    }
                    if str_eq(m[i].0.as_str(), key) {
                        proof {
                            lemma_find_member_prefix(mv, i as int + 1, key@);
                        }
                        return Some(&m[i].1);
                    }
                    i = i + 1;
                }
                proof {
                    assert(json_members_view(m@).take(m@.len() as int) =~= json_members_view(m@));
                }
                None
            },
            _ => None,
        }
    }

    /// The text, when this is a string.
    pub fn as_str(&self) -> (res: Option<&str>)
        ensures
            match res {
                Some(s) => as_str(self@) == Some(s@),
                None => as_str(self@) is None,
            },
    {
        match self {
            Json::Str(s) => Some(s.as_str()),
            _ => None,
        }
    }

    /// The flag, when this is a boolean.
    pub fn as_bool(&self) -> (res: Option<bool>)
        ensures
            res == as_bool(self@),
    {
        match self {
            Json::Bool(b) => Some(*b),
            _ => None,
        }
    }

    /// The elements, when this is an array.
    pub fn as_array(&self) -> (res: Option<&Vec<Json>>)
        ensures
            match res {
                Some(v) => as_array(self@) == Some(json_seq_view(v@)),
                None => as_array(self@) is None,
            },
    {
        match self {
            Json::Array(v) => Some(v),
            _ => None,
        }
    }

    /// The value, when this is a number written as decimal digits fitting in 64 bits.
    pub fn as_u64(&self) -> (res: Option<u64>)
        ensures
            res == as_u64(self@),
    {
        match self {
            Json::Number(t) => {
                assert(self@ == JsonView::Number(t@));
                let cs = crate::text::to_chars(t.as_str());
                if cs.len() == 0 {
                    return None;
                }
                let mut v: u64 = 0;
                let mut i: usize = 0;
                while i < cs.len()
                    invariant
                        self@ == JsonView::Number(t@),
                        cs@ == t@,
                        i <= cs.len(),
                        forall|k: int| 0 <= k < i ==> is_digit(#[trigger] cs@[k]),
                        v as nat == digits_value(cs@.take(i as int)),
                    decreases cs.len() - i,
                {
                    let c = cs[i];
                    if !('0' <= c && c <= '9') {
                        proof {
                            assert(!is_digit(t@[i as int]));
                        }
                        return None;
                    }
                    let d = (c as u32 - 48) as u64;
                    proof {
                        assert(cs@.take(i + 1).drop_last() =~= cs@.take(i as int));
                        assert(cs@.take(i + 1).last() == c);
                    }
                    if v > (u64::MAX - d) / 10 {
                        proof {
                            let m = (u64::MAX - d) as int;
                            assert(v * 10 + d > u64::MAX) by (nonlinear_arith)
                                requires
                                    v > m / 10,
                                    m == u64::MAX - d,
                                    0 <= d <= 9,
                            ;
                            assert(digits_value(cs@.take(i + 1)) == v * 10 + d);
                            if forall|k: int| 0 <= k < cs@.len() ==> is_digit(#[trigger] cs@[k]) {
                                lemma_digits_prefix_le(cs@, i + 1);
                            }
                        }
                        return None;
                    }
                    proof {
                        let m = (u64::MAX - d) as int;
                        assert(v * 10 + d <= u64::MAX) by (nonlinear_arith)
                            requires
                                v <= m / 10,
                                m == u64::MAX - d,
                                0 <= d <= 9,
                        ;
                    }
                    v = v * 10 + d;
                    i = i + 1;
                }
                proof {
                    assert(cs@.take(cs@.len() as int) =~= cs@);
                }
                Some(v)
            },
            _ => None,
        }
    }
}

proof fn lemma_find_member_prefix(m: Seq<(Seq<char>, JsonView)>, n: int, key: Seq<char>)
    requires
        0 < n <= m.len(),
        find_member(m.take(n - 1), key) is None,
        m[n - 1].0 == key,
    ensures
        find_member(m, key) == Some(m[n - 1].1),
    decreases m.len(),
{
    assert(m.take(n).drop_last() =~= m.take(n - 1));
    if n < m.len() {
        assert(m.drop_last().take(n) =~= m.take(n));
        assert(m.drop_last().take(n - 1) =~= m.take(n - 1));
        lemma_find_member_prefix(m.drop_last(), n, key);
    } else {
        assert(m.take(n) =~= m);
    }
}

proof fn lemma_digits_prefix_le(s: Seq<char>, n: int)
    requires
        0 <= n <= s.len(),
    ensures
        digits_value(s) >= digits_value(s.take(n)),
    decreases s.len(),
{
    if n < s.len() {
        lemma_digits_prefix_le(s.drop_last(), n);
        assert(s.drop_last().take(n) =~= s.take(n));
    } else {
        assert(s.take(n) =~= s);
    }
}
} // verus!
