//! JSON values as the runtime reads and builds them.
//!
//! Numbers keep the three representations of the wire format: non-negative
//! integers, negative integers, and floating-point values, the latter carried
//! as the shortest decimal text that reads back to the same binary64 value.

use serde_json::Value;
use vstd::prelude::*;

verus! {

broadcast use vstd::std_specs::vec::group_vec_axioms;

#[derive(Debug, Clone)]
pub enum JsonNumber {
    PosInt(u64),
    NegInt(i64),
    /// A non-integral or out-of-range number, as its decimal text.
    Float(String),
}

pub enum NumberView {
    PosInt(u64),
    NegInt(i64),
    Float(Seq<char>),
}

impl View for JsonNumber {
    type V = NumberView;

    open spec fn view(&self) -> NumberView {
        match self {
            JsonNumber::PosInt(u) => NumberView::PosInt(*u),
            JsonNumber::NegInt(i) => NumberView::NegInt(*i),
            JsonNumber::Float(t) => NumberView::Float(t@),
        }
    }
}

impl JsonNumber {
    pub fn duplicate(&self) -> (r: JsonNumber)
        ensures
            r@ == self@,
    {
        match self {
            JsonNumber::PosInt(u) => JsonNumber::PosInt(*u),
            JsonNumber::NegInt(i) => JsonNumber::NegInt(*i),
            JsonNumber::Float(t) => JsonNumber::Float(t.clone()),
        }
    }
}

#[derive(Debug)]
pub enum Json {
    Null,
    Bool(bool),
    Number(JsonNumber),
    String(String),
    Array(Vec<Json>),
    Object(Vec<(String, Json)>),
}

pub enum JsonView {
    Null,
    Bool(bool),
    Number(NumberView),
    Str(Seq<char>),
    Array(Seq<JsonView>),
    Object(Seq<(Seq<char>, JsonView)>),
}

pub open spec fn items_view(items: Seq<Json>) -> Seq<JsonView>
    decreases items,
{
    if items.len() == 0 {
        Seq::empty()
    } else {
        items_view(items.drop_last()).push(json_view(items.last()))
    }
}

pub open spec fn members_view(members: Seq<(String, Json)>) -> Seq<(Seq<char>, JsonView)>
    decreases members,
{
    if members.len() == 0 {
        Seq::empty()
    } else {
        members_view(members.drop_last()).push((members.last().0@, json_view(members.last().1)))
    }
}

pub open spec fn json_view(j: Json) -> JsonView
    decreases j,
{
    match j {
        Json::Null => JsonView::Null,
        Json::Bool(b) => JsonView::Bool(b),
        Json::Number(n) => JsonView::Number(n@),
        Json::String(s) => JsonView::Str(s@),
        Json::Array(v) => JsonView::Array(items_view(v@)),
        Json::Object(m) => JsonView::Object(members_view(m@)),
    }
}

impl View for Json {
    type V = JsonView;

    open spec fn view(&self) -> JsonView {
        json_view(*self)
    }
}


/// The value stored under `key` in an object's members (the first match).
pub open spec fn lookup(members: Seq<(Seq<char>, JsonView)>, key: Seq<char>) -> Option<JsonView>
    decreases members.len(),
{
    if members.len() == 0 {
        None
    } else if members[0].0 == key {
        Some(members[0].1)
    } else {
        lookup(members.drop_first(), key)
    }
}

impl JsonView {
    /// `value.get(key)`: the member of an object, `None` for other values.
    pub open spec fn get(self, key: Seq<char>) -> Option<JsonView> {
        match self {
            JsonView::Object(m) => lookup(m, key),
            _ => None,
        }
    }

    pub open spec fn as_str(self) -> Option<Seq<char>> {
        match self {
            JsonView::Str(s) => Some(s),
            _ => None,
        }
    }

    pub open spec fn as_bool(self) -> Option<bool> {
        match self {
            JsonView::Bool(b) => Some(b),
            _ => None,
        }
    }

    pub open spec fn as_array(self) -> Option<Seq<JsonView>> {
        match self {
            JsonView::Array(a) => Some(a),
            _ => None,
        }
    }

    /// `value.as_i64()`: integers that fit a signed 64-bit integer.
    pub open spec fn as_i64(self) -> Option<i64> {
        match self {
            JsonView::Number(NumberView::PosInt(u)) => if u <= i64::MAX {
                Some(u as i64)
            } else {
                None
            },
            JsonView::Number(NumberView::NegInt(i)) => Some(i),
            _ => None,
        }
    }

    /// `value.get(key).and_then(as_str)`.
    pub open spec fn str_field(self, key: Seq<char>) -> Option<Seq<char>> {
        match self.get(key) {
            Some(v) => v.as_str(),
            None => None,
        }
    }

    /// `value.get(key).and_then(as_bool)`.
    pub open spec fn bool_field(self, key: Seq<char>) -> Option<bool> {
        match self.get(key) {
            Some(v) => v.as_bool(),
            None => None,
        }
    }
}

pub proof fn lemma_items_view(items: Seq<Json>)
    ensures
        items_view(items).len() == items.len(),
        forall|i: int| 0 <= i < items.len() ==> #[trigger] items_view(items)[i] == json_view(items[i]),
    decreases items.len(),
{
    if items.len() > 0 {
        lemma_items_view(items.drop_last());
        assert forall|i: int| 0 <= i < items.len() implies #[trigger] items_view(items)[i]
            == json_view(items[i]) by {
            if i < items.len() - 1 {
                assert(items.drop_last()[i] == items[i]);
            }
        }
    }
}

pub proof fn lemma_members_view(members: Seq<(String, Json)>)
    ensures
        members_view(members).len() == members.len(),
        forall|i: int|
            0 <= i < members.len() ==> #[trigger] members_view(members)[i] == (
                members[i].0@,
                json_view(members[i].1),
            ),
    decreases members.len(),
{
    if members.len() > 0 {
        lemma_members_view(members.drop_last());
        assert forall|i: int| 0 <= i < members.len() implies #[trigger] members_view(members)[i]
            == (members[i].0@, json_view(members[i].1)) by {
            if i < members.len() - 1 {
                assert(members.drop_last()[i] == members[i]);
            }
        }
    }
}

pub proof fn lemma_items_view_push(items: Seq<Json>, x: Json)
    ensures
        items_view(items.push(x)) == items_view(items).push(json_view(x)),
{
    assert(items.push(x).drop_last() =~= items);
}

pub proof fn lemma_members_view_push(members: Seq<(String, Json)>, x: (String, Json))
    ensures
        members_view(members.push(x)) == members_view(members).push((x.0@, json_view(x.1))),
{
    assert(members.push(x).drop_last() =~= members);
}

/// First index whose key is `key`, together with the lookup it determines.
pub proof fn lemma_lookup_index(members: Seq<(Seq<char>, JsonView)>, key: Seq<char>, i: int)
    requires
        0 <= i < members.len(),
        members[i].0 == key,
        forall|j: int| 0 <= j < i ==> members[j].0 != key,
    ensures
        lookup(members, key) == Some(members[i].1),
    decreases i,
{
    if i > 0 {
        assert forall|j: int| 0 <= j < i - 1 implies members.drop_first()[j].0 != key by {
            assert(members.drop_first()[j] == members[j + 1]);
        }
        lemma_lookup_index(members.drop_first(), key, i - 1);
    }
}

pub proof fn lemma_lookup_none(members: Seq<(Seq<char>, JsonView)>, key: Seq<char>)
    requires
        forall|j: int| 0 <= j < members.len() ==> members[j].0 != key,
    ensures
        lookup(members, key) is None,
    decreases members.len(),
{
    if members.len() > 0 {
        assert forall|j: int| 0 <= j < members.len() - 1 implies members.drop_first()[j].0
            != key by {
            assert(members.drop_first()[j] == members[j + 1]);
        }
        lemma_lookup_none(members.drop_first(), key);
    }
}

/// The member stored under `key` among an object's members (the first).
pub fn member<'a>(members: &'a Vec<(String, Json)>, key: &str) -> (r: Option<&'a Json>)
    ensures
        match lookup(members_view(members@), key@) {
            Some(v) => r matches Some(x) && x@ == v,
            None => r is None,
        },
{
    proof {
        lemma_members_view(members@);
    }
    let mut i: usize = 0;
    while i < members.len()
        invariant
            i <= members.len(),
            members_view(members@).len() == members@.len(),
            forall|j: int|
                0 <= j < members@.len() ==> #[trigger] members_view(members@)[j] == (
                    members@[j].0@,
                    json_view(members@[j].1),
                ),
            forall|j: int| 0 <= j < i ==> members@[j].0@ != key@,
        decreases members.len() - i,
    {
        if crate::text::str_eq(members[i].0.as_str(), key) {
            proof {
                assert forall|j: int| 0 <= j < i implies members_view(members@)[j].0 != key@ by {
                    assert(members_view(members@)[j].0 == members@[j].0@);
                }
                lemma_lookup_index(members_view(members@), key@, i as int);
            }
            return Some(&members[i].1);
        }
        i = i + 1;
    }
    proof {
        assert forall|j: int| 0 <= j < members_view(members@).len() implies members_view(members@)[j].0 != key@ by {
            assert(members_view(members@)[j].0 == members@[j].0@);
        }
        lemma_lookup_none(members_view(members@), key@);
    }
    None
}

impl Json {
    /// The member stored under `key` when this is an object.
    pub fn get(&self, key: &str) -> (r: Option<&Json>)
        ensures
            r is Some <==> self@.get(key@) is Some,
            r matches Some(v) ==> self@.get(key@) == Some(v@),
    {
        match self {
            Json::Object(members) => {
                proof {
                    lemma_members_view(members@);
                }
                let mut i: usize = 0;
                while i < members.len()
                    invariant
                        i <= members.len(),
                        self@ == JsonView::Object(members_view(members@)),
                        members_view(members@).len() == members@.len(),
                        forall|j: int|
                            0 <= j < members@.len() ==> #[trigger] members_view(members@)[j] == (
                                members@[j].0@,
                                json_view(members@[j].1),
                            ),
                        forall|j: int| 0 <= j < i ==> members@[j].0@ != key@,
                    decreases members.len() - i,
                {
                    if crate::text::str_eq(members[i].0.as_str(), key) {
                        proof {
                            assert forall|j: int| 0 <= j < i implies members_view(members@)[j].0
                                != key@ by {
                                assert(members_view(members@)[j].0 == members@[j].0@);
                            }
                            lemma_lookup_index(members_view(members@), key@, i as int);
                        }
                        return Some(&members[i].1);
                    }
                    i = i + 1;
                }
                proof {
                    assert forall|j: int| 0 <= j < members_view(members@).len() implies members_view(
                        members@,
                    )[j].0 != key@ by {
                        assert(members_view(members@)[j].0 == members@[j].0@);
                    }
                    lemma_lookup_none(members_view(members@), key@);
                }
                None
            },
            _ => None,
        }
    }

    pub fn as_str(&self) -> (r: Option<&str>)
        ensures
            r is Some <==> self@.as_str() is Some,
            r matches Some(s) ==> self@.as_str() == Some(s@),
    {
        match self {
            Json::String(s) => Some(s.as_str()),
            _ => None,
        }
    }

    pub fn as_bool(&self) -> (r: Option<bool>)
        ensures
            r == self@.as_bool(),
    {
        match self {
            Json::Bool(b) => Some(*b),
            _ => None,
        }
    }

    pub fn as_i64(&self) -> (r: Option<i64>)
        ensures
            r == self@.as_i64(),
    {
        match self {
            Json::Number(JsonNumber::PosInt(u)) => if *u <= 0x7fff_ffff_ffff_ffff {
                Some(*u as i64)
            } else {
                None
            },
            Json::Number(JsonNumber::NegInt(i)) => Some(*i),
            _ => None,
        }
    }

    pub fn is_object(&self) -> (r: bool)
        ensures
            r == (self@ is Object),
    {
        match self {
            Json::Object(_) => true,
            _ => false,
        }
    }

    /// `value.get(key).and_then(as_str)`.
    pub fn str_field(&self, key: &str) -> (r: Option<&str>)
        ensures
            r is Some <==> self@.str_field(key@) is Some,
            r matches Some(s) ==> self@.str_field(key@) == Some(s@),
    {
        match self.get(key) {
            Some(v) => v.as_str(),
            None => None,
        }
    }

    /// `value.get(key).and_then(as_bool)`.
    pub fn bool_field(&self, key: &str) -> (r: Option<bool>)
        ensures
            r == self@.bool_field(key@),
    {
        match self.get(key) {
            Some(v) => v.as_bool(),
            None => None,
        }
    }

    /// A structurally identical copy.
    pub fn deep_clone(&self) -> (r: Json)
        ensures
            r@ == self@,
        decreases self,
    {
        match self {
            Json::Null => Json::Null,
            Json::Bool(b) => Json::Bool(*b),
            Json::Number(n) => Json::Number(n.duplicate()),
            Json::String(s) => Json::String(s.clone()),
            Json::Array(items) => {
                let mut out: Vec<Json> = Vec::new();
                let mut i: usize = 0;
                while i < items.len()
                    invariant
                        i <= items.len(),
                        items_view(out@) == items_view(items@.subrange(0, i as int)),
                        *self == Json::Array(*items),
                    decreases items.len() - i,
                {
                    proof {
                        assert(decreases_to!(*self => self->Array_0));
                        assert(decreases_to!(*items => items@));
                        assert(decreases_to!(items@ => items@[i as int]));
                    }
                    let c = items[i].deep_clone();
                    proof {
                        lemma_items_view_push(out@, c);
                        assert(items@.subrange(0, i + 1) =~= items@.subrange(0, i as int).push(
                            items@[i as int],
                        ));
                        lemma_items_view_push(items@.subrange(0, i as int), items@[i as int]);
                    }
                    out.push(c);
                    i = i + 1;
                }
                assert(items@.subrange(0, items.len() as int) =~= items@);
                Json::Array(out)
            },
            Json::Object(members) => {
                let mut out: Vec<(String, Json)> = Vec::new();
                let mut i: usize = 0;
                while i < members.len()
                    invariant
                        i <= members.len(),
                        members_view(out@) == members_view(members@.subrange(0, i as int)),
                        *self == Json::Object(*members),
                    decreases members.len() - i,
                {
                    let k = members[i].0.clone();
                    proof {
                        assert(decreases_to!(*self => self->Object_0));
                        assert(decreases_to!(*members => members@));
                        assert(decreases_to!(members@ => members@[i as int]));
                        assert(decreases_to!(members@[i as int] => members@[i as int].1));
                    }
                    let c = members[i].1.deep_clone();
                    proof {
                        lemma_members_view_push(out@, (k, c));
                        assert(members@.subrange(0, i + 1) =~= members@.subrange(0, i as int).push(
                            members@[i as int],
                        ));
                        lemma_members_view_push(members@.subrange(0, i as int), members@[i as int]);
                    }
                    out.push((k, c));
                    i = i + 1;
                }
                assert(members@.subrange(0, members.len() as int) =~= members@);
                Json::Object(out)
            },
        }
    }
}

/// Structurally identical copies of `items`.
pub fn clone_items(items: &Vec<Json>) -> (r: Vec<Json>)
    ensures
        items_view(r@) == items_view(items@),
{
    let mut out: Vec<Json> = Vec::new();
    let mut i: usize = 0;
    while i < items.len()
        invariant
            i <= items.len(),
            items_view(out@) == items_view(items@.subrange(0, i as int)),
        decreases items.len() - i,
    {
        let c = items[i].deep_clone();
        proof {
            lemma_items_view_push(out@, c);
            assert(items@.subrange(0, i + 1) =~= items@.subrange(0, i as int).push(items@[i as int]));
            lemma_items_view_push(items@.subrange(0, i as int), items@[i as int]);
        }
        out.push(c);
        i = i + 1;
    }
    assert(items@.subrange(0, i as int) =~= items@);
    out
}

/// The members of an object built from a string-keyed map of values.
pub open spec fn map_members(s: Seq<(Seq<char>, Json)>) -> Seq<(Seq<char>, JsonView)> {
    s.map_values(|p: (Seq<char>, Json)| (p.0, p.1@))
}

/// Looking a key up in an object built from a map finds the map's value.
pub proof fn lemma_map_members_lookup(s: Seq<(Seq<char>, Json)>, k: Seq<char>)
    ensures
        lookup(map_members(s), k) == match crate::strmap::find(s, k) {
            Some(v) => Some(v@),
            None => None,
        },
        crate::strmap::ascending(s) ==> crate::strmap::ascending(map_members(s)),
    decreases s.len(),
{
    if s.len() > 0 {
        assert(map_members(s).drop_first() =~= map_members(s.drop_first()));
        lemma_map_members_lookup(s.drop_first(), k);
    }
}

/// An object whose members are the entries of `m`, in key order.
pub fn object_from_map(m: crate::strmap::StrMap<Json>) -> (r: Json)
    ensures
        r@ == JsonView::Object(map_members(m@)),
        crate::strmap::ascending(map_members(m@)),
{
    let ghost mv = m@;
    let entries = m.into_entries();
    proof {
        lemma_members_view(entries@);
        assert(members_view(entries@) =~= map_members(mv));
        lemma_map_members_lookup(mv, Seq::empty());
    }
    Json::Object(entries)
}

/// A key found by `lookup` occurs in the members.
proof fn lemma_lookup_found(m: Seq<(Seq<char>, JsonView)>, k: Seq<char>)
    requires
        lookup(m, k) is Some,
    ensures
        exists|j: int| 0 <= j < m.len() && m[j].0 == k,
    decreases m.len(),
{
    if m[0].0 != k {
        lemma_lookup_found(m.drop_first(), k);
        let j = choose|j: int| 0 <= j < m.drop_first().len() && m.drop_first()[j].0 == k;
        assert(m[j + 1].0 == k);
    }
}

/// Two objects whose keys ascend and which answer every lookup alike are
/// the same object.
pub proof fn lemma_ascending_members_equal(m1: Seq<(Seq<char>, JsonView)>, m2: Seq<(Seq<char>, JsonView)>)
    requires
        crate::strmap::ascending(m1),
        crate::strmap::ascending(m2),
        forall|k: Seq<char>| #![trigger lookup(m1, k), lookup(m2, k)] lookup(m1, k) == lookup(m2, k),
    ensures
        m1 == m2,
    decreases m1.len() + m2.len(),
{
    if m1.len() == 0 && m2.len() == 0 {
        assert(m1 =~= m2);
    } else if m1.len() == 0 {
        assert(lookup(m2, m2[0].0) is Some);
        assert(lookup(m1, m2[0].0) is None);
    } else if m2.len() == 0 {
        assert(lookup(m1, m1[0].0) is Some);
        assert(lookup(m2, m1[0].0) is None);
    } else {
        let a = m1[0].0;
        let b = m2[0].0;
        assert(lookup(m1, a) is Some);
        assert(lookup(m2, a) == lookup(m1, a));
        lemma_lookup_found(m2, a);
        let ja = choose|j: int| 0 <= j < m2.len() && m2[j].0 == a;
        assert(lookup(m2, b) is Some);
        assert(lookup(m1, b) == lookup(m2, b));
        lemma_lookup_found(m1, b);
        let jb = choose|j: int| 0 <= j < m1.len() && m1[j].0 == b;
        if a != b {
            assert(ja > 0);
            assert(crate::strmap::seq_less(b, a));
            assert(jb > 0);
            assert(crate::strmap::seq_less(a, b));
            crate::strmap::lemma_less_asymmetric(a, b);
        }
        assert(m1[0].1 == m2[0].1);
        let t1 = m1.drop_first();
        let t2 = m2.drop_first();
        assert(crate::strmap::ascending(t1)) by {
            assert forall|x: int, y: int| 0 <= x < y < t1.len() implies crate::strmap::seq_less(
                #[trigger] t1[x].0,
                #[trigger] t1[y].0,
            ) by {
                assert(t1[x] == m1[x + 1]);
                assert(t1[y] == m1[y + 1]);
            }
        }
        assert(crate::strmap::ascending(t2)) by {
            assert forall|x: int, y: int| 0 <= x < y < t2.len() implies crate::strmap::seq_less(
                #[trigger] t2[x].0,
                #[trigger] t2[y].0,
            ) by {
                assert(t2[x] == m2[x + 1]);
                assert(t2[y] == m2[y + 1]);
            }
        }
        assert forall|k: Seq<char>| #![trigger lookup(t1, k), lookup(t2, k)] lookup(t1, k) == lookup(t2, k) by {
            if k == a {
                if lookup(t1, k) is Some {
                    lemma_lookup_found(t1, k);
                    let j = choose|j: int| 0 <= j < t1.len() && t1[j].0 == k;
                    assert(m1[j + 1].0 == a);
                    crate::strmap::lemma_less_irreflexive(a);
                }
                if lookup(t2, k) is Some {
                    lemma_lookup_found(t2, k);
                    let j = choose|j: int| 0 <= j < t2.len() && t2[j].0 == k;
                    assert(m2[j + 1].0 == a);
                    crate::strmap::lemma_less_irreflexive(a);
                }
            } else {
                assert(lookup(m1, k) == lookup(t1, k));
                assert(lookup(m2, k) == lookup(t2, k));
            }
        }
        lemma_ascending_members_equal(t1, t2);
        assert(m1 =~= seq![m1[0]] + t1);
        assert(m2 =~= seq![m2[0]] + t2);
    }
}

/// The lowercase hexadecimal digit of `d` (below sixteen).
pub open spec fn hex_char(d: nat) -> char {
    if d < 10 {
        crate::text::digit_char(d)
    } else if d == 10 {
        'a'
    } else if d == 11 {
        'b'
    } else if d == 12 {
        'c'
    } else if d == 13 {
        'd'
    } else if d == 14 {
        'e'
    } else {
        'f'
    }
}

/// The compact JSON text `serde_json::to_string` writes for a value (its
/// objects as serde_json holds them: keys in ascending order, each once).
pub uninterp spec fn json_text(v: JsonView) -> Seq<char>;

/// The `serde_json::Value` for the library's JSON, one for one; a
/// non-integral number is read back from its decimal text.
#[verifier::external_body]
fn to_serde(j: &Json) -> Value {
    match j {
        Json::Null => Value::Null,
        Json::Bool(b) => Value::Bool(*b),
        Json::Number(JsonNumber::PosInt(u)) => Value::from(*u),
        Json::Number(JsonNumber::NegInt(i)) => Value::from(*i),
        Json::Number(JsonNumber::Float(t)) => serde_json::from_str::<Value>(t).unwrap_or(Value::Null),
        Json::String(s) => Value::String(s.clone()),
        Json::Array(items) => Value::Array(items.iter().map(to_serde).collect()),
        Json::Object(members) => Value::Object(members.iter().map(|(k, v)| (k.clone(), to_serde(v))).collect()),
    }
}

impl Json {
    /// `serde_json::to_string` of the value: its compact JSON text.
    /// Claimed: the text is a function of the value alone, named
    /// `json_text`.
    #[verifier::external_body]
    pub fn to_text(&self) -> (s: String)
        ensures
            s@ == json_text(self@),
    {
        serde_json::to_string(&to_serde(self)).unwrap_or_default()
    }
}


impl JsonNumber {
    /// `self == other` as serde_json compares numbers of one variant.
    pub fn same(&self, other: &JsonNumber) -> (r: bool)
        ensures
            r == (self@ == other@),
    {
        match (self, other) {
            (JsonNumber::PosInt(a), JsonNumber::PosInt(b)) => *a == *b,
            (JsonNumber::NegInt(a), JsonNumber::NegInt(b)) => *a == *b,
            (JsonNumber::Float(a), JsonNumber::Float(b)) => crate::text::str_eq(a.as_str(), b.as_str()),
            _ => false,
        }
    }
}

impl Json {
    /// Structural equality of two values.
    pub fn same(&self, other: &Json) -> (r: bool)
        ensures
            r == (self@ == other@),
        decreases self,
    {
        match (self, other) {
            (Json::Null, Json::Null) => true,
            (Json::Bool(a), Json::Bool(b)) => *a == *b,
            (Json::Number(a), Json::Number(b)) => a.same(b),
            (Json::String(a), Json::String(b)) => crate::text::str_eq(a.as_str(), b.as_str()),
            (Json::Array(a), Json::Array(b)) => {
                proof {
                    lemma_items_view(a@);
                    lemma_items_view(b@);
                }
                if a.len() != b.len() {
                    assert(items_view(a@).len() != items_view(b@).len());
                    return false;
                }
                let mut i: usize = 0;
                while i < a.len()
                    invariant
                        i <= a.len() == b.len(),
                        *self == Json::Array(*a),
                        *other == Json::Array(*b),
                        items_view(a@).len() == a@.len(),
                        items_view(b@).len() == b@.len(),
                        forall|x: int| 0 <= x < a@.len() ==> #[trigger] items_view(a@)[x] == a@[x]@,
                        forall|x: int| 0 <= x < b@.len() ==> #[trigger] items_view(b@)[x] == b@[x]@,
                        forall|x: int| 0 <= x < i ==> items_view(a@)[x] == items_view(b@)[x],
                    decreases a.len() - i,
                {
                    proof {
                        assert(decreases_to!(*self => self->Array_0));
                        assert(decreases_to!(*a => a@));
                        assert(decreases_to!(a@ => a@[i as int]));
                    }
                    if !a[i].same(&b[i]) {
                        assert(items_view(a@)[i as int] != items_view(b@)[i as int]);
                        assert(self@ == JsonView::Array(items_view(a@)));
                        assert(other@ == JsonView::Array(items_view(b@)));
                        return false;
                    }
                    i = i + 1;
                }
                assert(items_view(a@) =~= items_view(b@));
                true
            },
            (Json::Object(a), Json::Object(b)) => {
                proof {
                    lemma_members_view(a@);
                    lemma_members_view(b@);
                }
                if a.len() != b.len() {
                    assert(members_view(a@).len() != members_view(b@).len());
                    return false;
                }
                let mut i: usize = 0;
                while i < a.len()
                    invariant
                        i <= a.len() == b.len(),
                        *self == Json::Object(*a),
                        *other == Json::Object(*b),
                        members_view(a@).len() == a@.len(),
                        members_view(b@).len() == b@.len(),
                        forall|x: int| 0 <= x < a@.len() ==> #[trigger] members_view(a@)[x] == (a@[x].0@, a@[x].1@),
                        forall|x: int| 0 <= x < b@.len() ==> #[trigger] members_view(b@)[x] == (b@[x].0@, b@[x].1@),
                        forall|x: int| 0 <= x < i ==> members_view(a@)[x] == members_view(b@)[x],
                    decreases a.len() - i,
                {
                    proof {
                        assert(decreases_to!(*self => self->Object_0));
                        assert(decreases_to!(*a => a@));
                        assert(decreases_to!(a@ => a@[i as int]));
                        assert(decreases_to!(a@[i as int] => a@[i as int].1));
                    }
                    if !crate::text::str_eq(a[i].0.as_str(), b[i].0.as_str()) || !a[i].1.same(&b[i].1) {
                        assert(members_view(a@)[i as int] != members_view(b@)[i as int]);
                        assert(self@ == JsonView::Object(members_view(a@)));
                        assert(other@ == JsonView::Object(members_view(b@)));
                        return false;
                    }
                    i = i + 1;
                }
                assert(members_view(a@) =~= members_view(b@));
                true
            },
            _ => false,
        }
    }
}

} // verus!
