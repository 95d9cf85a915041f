//! A JSON document model for everything the library sends, receives or reports.
//! Contracts speak of a value by its view, a mathematical JSON tree.
use vstd::prelude::*;

use crate::chars::str_eq;

verus! {

broadcast use vstd::std_specs::vec::group_vec_axioms;

/// A JSON value. Numbers are kept as the provider sent them: non-negative
/// integers, negative integers, and any other number by its decimal text.
#[derive(Debug)]
pub enum JsonValue {
    Null,
    Bool(bool),
    UInt(u64),
    Int(i64),
    Float(String),
    Str(String),
    Array(Vec<JsonValue>),
    Object(Vec<(String, JsonValue)>),
}

/// The mathematical JSON tree a `JsonValue` stands for.
pub ghost enum Json {
    Null,
    Bool(bool),
    UInt(u64),
    Int(i64),
    Float(Seq<char>),
    Str(Seq<char>),
    Array(Seq<Json>),
    Object(Seq<(Seq<char>, Json)>),
}

pub open spec fn json_view(v: JsonValue) -> Json
    decreases v, 1int,
{
    match v {
        JsonValue::Null => Json::Null,
        JsonValue::Bool(b) => Json::Bool(b),
        JsonValue::UInt(n) => Json::UInt(n),
        JsonValue::Int(n) => Json::Int(n),
        JsonValue::Float(t) => Json::Float(t@),
        JsonValue::Str(t) => Json::Str(t@),
        JsonValue::Array(items) => Json::Array(
            Seq::new(items@.len(), |i: int| json_item_view(items, i)),
        ),
        JsonValue::Object(members) => Json::Object(
            Seq::new(members@.len(), |i: int| json_member_view(members, i)),
        ),
    }
}

/// The view of `items[i]`.
pub open spec fn json_item_view(items: Vec<JsonValue>, i: int) -> Json
    decreases items, 0int,
{
    if 0 <= i < items@.len() {
        json_view(items@[i])
    } else {
        Json::Null
    }
}

/// The view of the member `members[i]`.
pub open spec fn json_member_view(members: Vec<(String, JsonValue)>, i: int) -> (Seq<char>, Json)
    decreases members, 0int,
{
    if 0 <= i < members@.len() {
        (members@[i].0@, json_view(members@[i].1))
    } else {
        (Seq::empty(), Json::Null)
    }
}

impl View for JsonValue {
    type V = Json;

    open spec fn view(&self) -> Json {
        json_view(*self)
    }
}

/// The index of the first member of `members` whose key is `key`, if any.
pub open spec fn spec_member_index(members: Seq<(Seq<char>, Json)>, key: Seq<char>) -> Option<int>
    decreases members.len(),
{
    if members.len() == 0 {
        None
    } else if members[0].0 == key {
        Some(0)
    } else {
        match spec_member_index(members.drop_first(), key) {
            Some(i) => Some(i + 1),
            None => None,
        }
    }
}

/// `serde_json::Value::get` with a string key: the member of an object named `key`.
pub open spec fn spec_get(v: Json, key: Seq<char>) -> Option<Json> {
    match v {
        Json::Object(members) => match spec_member_index(members, key) {
            Some(i) => Some(members[i].1),
            None => None,
        },
        _ => None,
    }
}

/// `Option<&Value>::and_then(as_str)`.
pub open spec fn spec_as_str(v: Option<Json>) -> Option<Seq<char>> {
    match v {
        Some(Json::Str(s)) => Some(s),
        _ => None,
    }
}

/// `Option<&Value>::and_then(as_u64)`.
pub open spec fn spec_as_u64(v: Option<Json>) -> Option<u64> {
    match v {
        Some(Json::UInt(n)) => Some(n),
        _ => None,
    }
}

/// `Option<&Value>::and_then(as_bool)`.
pub open spec fn spec_as_bool(v: Option<Json>) -> Option<bool> {
    match v {
        Some(Json::Bool(b)) => Some(b),
        _ => None,
    }
}

/// The member named `key` of `v` if `v` is present.
pub open spec fn spec_get_opt(v: Option<Json>, key: Seq<char>) -> Option<Json> {
    match v {
        Some(x) => spec_get(x, key),
        None => None,
    }
}

/// The views of an optional value.
pub open spec fn opt_json(v: Option<JsonValue>) -> Option<Json> {
    match v {
        Some(x) => Some(x@),
        None => None,
    }
}

proof fn lemma_member_index_found(members: Seq<(Seq<char>, Json)>, key: Seq<char>)
    ensures
        match spec_member_index(members, key) {
            Some(i) => 0 <= i < members.len() && members[i].0 == key && forall|j: int|
                0 <= j < i ==> members[j].0 != key,
            None => forall|j: int| 0 <= j < members.len() ==> members[j].0 != key,
        },
    decreases members.len(),
{
    if members.len() > 0 && members[0].0 != key {
        let rest = members.drop_first();
        lemma_member_index_found(rest, key);
        assert forall|j: int| 1 <= j < members.len() implies members[j] == rest[j - 1] by {}
        match spec_member_index(rest, key) {
            Some(i) => {
                assert forall|j: int| 0 <= j < i + 1 implies members[j].0 != key by {
                    if j > 0 {
                        assert(members[j] == rest[j - 1]);
                    }
                }
            },
            None => {
                assert forall|j: int| 0 <= j < members.len() implies members[j].0 != key by {
                    if j > 0 {
                        assert(members[j] == rest[j - 1]);
                    }
                }
            },
        }
    }
}

impl JsonValue {
    /// A copy of this value.
    pub fn copy(&self) -> (r: JsonValue)
        ensures
            r@ == self@,
        decreases self,
    {
        match self {
            JsonValue::Null => JsonValue::Null,
            JsonValue::Bool(b) => JsonValue::Bool(*b),
            JsonValue::UInt(n) => JsonValue::UInt(*n),
            JsonValue::Int(n) => JsonValue::Int(*n),
            JsonValue::Float(t) => JsonValue::Float(t.clone()),
            JsonValue::Str(t) => JsonValue::Str(t.clone()),
            JsonValue::Array(items) => {
                let mut out: Vec<JsonValue> = Vec::new();
                let mut i: usize = 0;
                while i < items.len()
                    invariant
                        0 <= i <= items@.len(),
                        *self == JsonValue::Array(*items),
                        out@.len() == i,
                        forall|k: int| 0 <= k < i ==> out@[k]@ == items@[k]@,
                    decreases items.len() - i,
                {
                    proof {
                        let x = *self;
                        assert(x matches JsonValue::Array(v) && v == *items);
                        assert(decreases_to!(x => x->Array_0));
                        assert(decreases_to!(*items => items[i as int]));
                    }
                    let item = items[i].copy();
                    out.push(item);
                    i = i + 1;
                }
                let r = JsonValue::Array(out);
                proof {
                    assert(json_view(r)->Array_0 =~= json_view(*self)->Array_0);
                }
                r
            },
            JsonValue::Object(members) => {
                let mut out: Vec<(String, JsonValue)> = Vec::new();
                let mut i: usize = 0;
                while i < members.len()
                    invariant
                        0 <= i <= members@.len(),
                        *self == JsonValue::Object(*members),
                        out@.len() == i,
                        forall|k: int|
                            0 <= k < i ==> out@[k].0@ == members@[k].0@ && out@[k].1@
                                == members@[k].1@,
                    decreases members.len() - i,
                {
                    proof {
                        let x = *self;
                        assert(x matches JsonValue::Object(v) && v == *members);
                        assert(decreases_to!(x => x->Object_0));
                        assert(decreases_to!(*members => members[i as int]));
                        assert(decreases_to!(members[i as int] => members[i as int].1));
                    }
                    let value = members[i].1.copy();
                    out.push((members[i].0.clone(), value));
                    i = i + 1;
                }
                let r = JsonValue::Object(out);
                proof {
                    assert(json_view(r)->Object_0 =~= json_view(*self)->Object_0);
                }
                r
            },
        }
    }

    /// A string value.
    pub fn string(s: &str) -> (v: JsonValue)
        ensures
            v@ == Json::Str(s@),
    {
        JsonValue::Str(s.to_owned())
    }

    /// An empty object.
    pub fn object() -> (v: JsonValue)
        ensures
            v@ == Json::Object(Seq::empty()),
    {
        let v = JsonValue::Object(Vec::new());
        proof {
            assert(json_view(v)->Object_0 =~= Seq::empty());
        }
        v
    }

    /// The member named `key` of an object (`Value::get`).
    pub fn get(&self, key: &str) -> (r: Option<&JsonValue>)
        ensures
            match r {
                Some(x) => spec_get(self@, key@) == Some(x@),
                None => spec_get(self@, key@) is None,
            },
    {
        match self {
            JsonValue::Object(members) => {
                let ghost ms = json_view(*self)->Object_0;
                let n = members.len();
                let mut i: usize = 0;
                while i < n
                    invariant
                        n == members@.len(),
                        *self == JsonValue::Object(*members),
                        ms == json_view(*self)->Object_0,
                        ms.len() == n,
                        0 <= i <= n,
                        forall|j: int| 0 <= j < i ==> ms[j].0 != key@,
                    decreases n - i,
                {
                    proof {
                        assert(ms[i as int] == json_member_view(*members, i as int));
                    }
                    if str_eq(members[i].0.as_str(), key) {
                        proof {
                            lemma_member_index_found(ms, key@);
                            assert(ms[i as int].0 == key@);
                            assert(spec_member_index(ms, key@) == Some(i as int));
                        }
                        return Some(&members[i].1);
                    }
                    i = i + 1;
                }
                proof {
                    lemma_member_index_found(ms, key@);
                }
                None
            },
            _ => None,
        }
    }

    /// The string this value holds (`Value::as_str`).
    pub fn as_str(&self) -> (r: Option<&str>)
        ensures
            match r {
                Some(t) => self@ == Json::Str(t@),
                None => !(self@ is Str),
            },
    {
        match self {
            JsonValue::Str(t) => Some(t.as_str()),
            _ => None,
        }
    }

    /// The non-negative integer this value holds (`Value::as_u64`).
    pub fn as_u64(&self) -> (r: Option<u64>)
        ensures
            match r {
                Some(n) => self@ == Json::UInt(n),
                None => !(self@ is UInt),
            },
    {
        match self {
            JsonValue::UInt(n) => Some(*n),
            _ => None,
        }
    }

    /// The boolean this value holds (`Value::as_bool`).
    pub fn as_bool(&self) -> (r: Option<bool>)
        ensures
            match r {
                Some(b) => self@ == Json::Bool(b),
                None => !(self@ is Bool),
            },
    {
        match self {
            JsonValue::Bool(b) => Some(*b),
            _ => None,
        }
    }
}

/// The member views of an object's members.
pub open spec fn json_members(m: Vec<(String, JsonValue)>) -> Seq<(Seq<char>, Json)> {
    json_view(JsonValue::Object(m))->Object_0
}

/// The element views of an array's items.
pub open spec fn json_items(v: Vec<JsonValue>) -> Seq<Json> {
    json_view(JsonValue::Array(v))->Array_0
}

/// `Map::insert` on object members: replaces the member named `key`, or adds it last.
pub open spec fn spec_object_insert(members: Seq<(Seq<char>, Json)>, key: Seq<char>, value: Json) -> Seq<(Seq<char>, Json)> {
    match spec_member_index(members, key) {
        Some(i) => members.update(i, (key, value)),
        None => members.push((key, value)),
    }
}

/// Adds the member `key: value` at the end of `members`.
pub fn push_member(members: &mut Vec<(String, JsonValue)>, key: &str, value: JsonValue)
    ensures
        json_members(*final(members)) == json_members(*old(members)).push((key@, value@)),
{
    let ghost before = *members;
    members.push((key.to_owned(), value));
    proof {
        assert(json_members(*members) =~= json_members(before).push((key@, json_view(members@.last().1))));
    }
}

/// Adds `value` at the end of `items`.
pub fn push_item(items: &mut Vec<JsonValue>, value: JsonValue)
    ensures
        json_items(*final(items)) == json_items(*old(items)).push(value@),
{
    let ghost before = *items;
    items.push(value);
    proof {
        assert(json_items(*items) =~= json_items(before).push(json_view(items@.last())));
    }
}

/// `Map::insert` on an object's members.
pub fn insert_member(members: &mut Vec<(String, JsonValue)>, key: &str, value: JsonValue)
    ensures
        json_members(*final(members)) == spec_object_insert(json_members(*old(members)), key@, value@),
{
    let ghost ms = json_members(*members);
    let n = members.len();
    let mut i: usize = 0;
    while i < n
        invariant
            n == members@.len(),
            ms == json_members(*members),
            ms == json_members(*old(members)),
            ms.len() == n,
            0 <= i <= n,
            forall|j: int| 0 <= j < i ==> ms[j].0 != key@,
        decreases n - i,
    {
        proof {
            assert(ms[i as int] == json_member_view(*members, i as int));
        }
        if str_eq(members[i].0.as_str(), key) {
            proof {
                lemma_member_index_found(ms, key@);
                assert(spec_member_index(ms, key@) == Some(i as int));
            }
            let ghost before = *members;
            members.set(i, (key.to_owned(), value));
            proof {
                assert(json_members(*members) =~= ms.update(i as int, (key@, json_view(members@[i as int].1))));
            }
            return;
        }
        i = i + 1;
    }
    proof {
        lemma_member_index_found(ms, key@);
    }
    push_member(members, key, value);
}

} // verus!
