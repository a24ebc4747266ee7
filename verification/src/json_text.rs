use serde_json::Value;
use vstd::prelude::*;

use crate::json::{fields_map, json_view, json_wf, keys_distinct, last_index_of, lemma_last_index_of, lemma_object_view, Json, JsonValue};

verus! {

/// What serde_json reads from a text as a `serde_json::Value`, each number standing as the text
/// that serde_json writes for it; or the error's message.
pub uninterp spec fn json_parsing(text: Seq<char>) -> Result<JsonValue, Seq<char>>;

/// One level of a parsed JSON value: a scalar as it is; the items of an array, or the members
/// of an object, each as the JSON text that serde_json writes for it.
pub enum JsonLevel {
    Null,
    Bool(bool),
    Number(String),
    String(String),
    Array(Vec<String>),
    Object(Vec<(String, String)>),
}

/// Whether a level read from a text agrees with what serde_json reads from it: the same
/// scalar, or as many items (members with distinct keys, one per key of the object), each of
/// whose texts serde_json reads back as the value it stands for.
pub open spec fn level_agrees(text: Seq<char>, r: Result<JsonLevel, String>) -> bool {
    match r {
        Err(e) => json_parsing(text) == Err::<JsonValue, Seq<char>>(e@),
        Ok(JsonLevel::Null) => json_parsing(text) == Ok::<JsonValue, Seq<char>>(JsonValue::Null),
        Ok(JsonLevel::Bool(b)) => json_parsing(text) == Ok::<JsonValue, Seq<char>>(JsonValue::Bool(b)),
        Ok(JsonLevel::Number(n)) => json_parsing(text) == Ok::<JsonValue, Seq<char>>(JsonValue::Number(n@)),
        Ok(JsonLevel::String(s)) => json_parsing(text) == Ok::<JsonValue, Seq<char>>(JsonValue::String(s@)),
        Ok(JsonLevel::Array(items)) => json_parsing(text) matches Ok(JsonValue::Array(vs)) && {
            &&& vs.len() == items.len()
            &&& forall|i: int| 0 <= i < items.len() ==> json_parsing(#[trigger] items@[i]@) == Ok::<JsonValue, Seq<char>>(vs[i])
        },
        Ok(JsonLevel::Object(members)) => json_parsing(text) matches Ok(JsonValue::Object(m)) && {
            &&& m.dom().finite()
            &&& forall|i: int, j: int| 0 <= i < j < members.len() ==> (#[trigger] members@[i]).0@ != (#[trigger] members@[j]).0@
            &&& forall|k: Seq<char>| #[trigger] m.dom().contains(k) ==> exists|i: int| 0 <= i < members.len() && (#[trigger] members@[i]).0@ == k
            &&& forall|i: int| 0 <= i < members.len() ==> m.dom().contains((#[trigger] members@[i]).0@)
                && json_parsing(members@[i].1@) == Ok::<JsonValue, Seq<char>>(m[members@[i].0@])
        },
    }
}

/// Reads a text with `serde_json::from_str` into a `serde_json::Value` and hands back its top
/// level, writing each item or member value with `to_string`. Claims that the outcome is the
/// named result and that serde_json reads the text it writes for a value back as that value
/// (an object's members, one per key, come from its map).
#[verifier::external_body]
fn json_level(text: &str) -> (r: Result<JsonLevel, String>)
    ensures
        r is Ok <==> json_parsing(text@) is Ok,
        level_agrees(text@, r),
{
    match serde_json::from_str::<Value>(text) {
        Err(e) => Err(e.to_string()),
        Ok(Value::Null) => Ok(JsonLevel::Null),
        Ok(Value::Bool(b)) => Ok(JsonLevel::Bool(b)),
        Ok(Value::Number(n)) => Ok(JsonLevel::Number(n.to_string())),
        Ok(Value::String(s)) => Ok(JsonLevel::String(s)),
        Ok(Value::Array(items)) => Ok(JsonLevel::Array(items.iter().map(|v| v.to_string()).collect())),
        Ok(Value::Object(m)) => Ok(JsonLevel::Object(m.into_iter().map(|(k, v)| (k, v.to_string())).collect())),
    }
}

proof fn lemma_distinct_last_index(fields: Seq<(String, Json)>, i: int)
    requires
        keys_distinct(fields),
        0 <= i < fields.len(),
    ensures
        last_index_of(fields, fields[i].0@) == i,
    decreases fields.len(),
{
    if i < fields.len() - 1 {
        assert(fields.last().0@ != fields[i].0@);
        lemma_distinct_last_index(fields.drop_last(), i);
    }
}

/// The value that a level stands for, built level by level.
fn json_of_level(level: JsonLevel, Ghost(text): Ghost<Seq<char>>, Ghost(v): Ghost<JsonValue>) -> (j: Json)
    requires
        level_agrees(text, Ok(level)),
        json_parsing(text) == Ok::<JsonValue, Seq<char>>(v),
    ensures
        json_view(j) == v,
        json_wf(j),
    decreases v,
{
    match level {
        JsonLevel::Null => Json::Null,
        JsonLevel::Bool(b) => Json::Bool(b),
        JsonLevel::Number(n) => Json::Number(n),
        JsonLevel::String(s) => Json::String(s),
        JsonLevel::Array(items) => {
            let ghost vs = v->Array_0;
            let mut out: Vec<Json> = Vec::new();
            let mut i: usize = 0;
            while i < items.len()
                invariant
                    v == JsonValue::Array(vs),
                    vs.len() == items.len(),
                    forall|k: int| 0 <= k < items.len() ==> json_parsing(#[trigger] items@[k]@) == Ok::<JsonValue, Seq<char>>(vs[k]),
                    i <= items.len(),
                    out.len() == i,
                    forall|k: int| 0 <= k < i ==> json_view(#[trigger] out@[k]) == vs[k] && json_wf(out@[k]),
                decreases items.len() - i,
            {
                let item = json_level(items[i].as_str());
                let ghost w = vs[i as int];
                assert(json_parsing(items@[i as int]@) == Ok::<JsonValue, Seq<char>>(w));
                let item = match item {
                    Ok(l) => l,
                    Err(_) => {
                        return Json::Null;
                    },
                };
                proof {
                    assert(decreases_to!(v => v->Array_0));
                    assert(decreases_to!(vs => vs[i as int]));
                }
                let j = json_of_level(item, Ghost(items@[i as int]@), Ghost(w));
                out.push(j);
                i = i + 1;
            }
            let res = Json::Array(out);
            assert(json_view(res)->Array_0 =~= vs);
            res
        },
        JsonLevel::Object(members) => {
            let ghost m = v->Object_0;
            let mut out: Vec<(String, Json)> = Vec::new();
            let mut i: usize = 0;
            while i < members.len()
                invariant
                    v == JsonValue::Object(m),
                    m.dom().finite(),
                    forall|a: int, b: int| 0 <= a < b < members.len() ==> (#[trigger] members@[a]).0@ != (#[trigger] members@[b]).0@,
                    forall|k: int| 0 <= k < members.len() ==> m.dom().contains((#[trigger] members@[k]).0@)
                        && json_parsing(members@[k].1@) == Ok::<JsonValue, Seq<char>>(m[members@[k].0@]),
                    i <= members.len(),
                    out.len() == i,
                    forall|k: int| 0 <= k < i ==> (#[trigger] out@[k]).0@ == members@[k].0@
                        && json_view(out@[k].1) == m[members@[k].0@] && json_wf(out@[k].1),
                decreases members.len() - i,
            {
                let ghost key = members@[i as int].0@;
                let ghost w = m[key];
                assert(m.dom().contains(key));
                let item = json_level(members[i].1.as_str());
                let item = match item {
                    Ok(l) => l,
                    Err(_) => {
                        return Json::Null;
                    },
                };
                proof {
                    assert(decreases_to!(v => v->Object_0));
                    assert(decreases_to!(m => m[key]));
                }
                let j = json_of_level(item, Ghost(members@[i as int].1@), Ghost(w));
                out.push((members[i].0.clone(), j));
                i = i + 1;
            }
            proof {
                assert(keys_distinct(out@)) by {
                    assert forall|a: int, b: int| 0 <= a < out.len() && 0 <= b < out.len() && a != b implies
                        out@[a].0@ != out@[b].0@ by {
                        if a < b {
                            assert(members@[a].0@ != members@[b].0@);
                        } else {
                            assert(members@[b].0@ != members@[a].0@);
                        }
                    }
                }
                lemma_object_view(out);
                assert forall|k: Seq<char>| #[trigger] fields_map(out@).dom().contains(k) <==> m.dom().contains(k) by {
                    lemma_last_index_of(out@, k);
                    if m.dom().contains(k) {
                        let a = choose|a: int| 0 <= a < members.len() && (#[trigger] members@[a]).0@ == k;
                        assert(out@[a].0@ == k);
                        lemma_distinct_last_index(out@, a);
                    }
                }
                assert forall|k: Seq<char>| #[trigger] m.dom().contains(k) implies fields_map(out@)[k] == m[k] by {
                    let a = choose|a: int| 0 <= a < members.len() && (#[trigger] members@[a]).0@ == k;
                    assert(out@[a].0@ == k);
                    lemma_distinct_last_index(out@, a);
                }
                assert(fields_map(out@) =~= m);
            }
            Json::Object(out)
        },
    }
}

/// Reads a JSON text as serde_json does: the value, well formed (no object holds a key twice),
/// or the error's message.
pub fn parse_json(text: &str) -> (r: Result<Json, String>)
    ensures
        match json_parsing(text@) {
            Ok(v) => r matches Ok(j) && json_view(j) == v && json_wf(j),
            Err(e) => r matches Err(m) && m@ == e,
        },
{
    match json_level(text) {
        Err(e) => Err(e),
        Ok(level) => {
            let ghost v = json_parsing(text@)->Ok_0;
            Ok(json_of_level(level, Ghost(text@), Ghost(v)))
        },
    }
}

/// Whether a list of members (each value as JSON text) stands for a map: keys distinct, one
/// member per key, each text read by serde_json as the value under its key.
pub open spec fn members_stand_for(members: Seq<(String, String)>, m: Map<Seq<char>, JsonValue>) -> bool {
    &&& forall|i: int, j: int| 0 <= i < j < members.len() ==> (#[trigger] members[i]).0@ != (#[trigger] members[j]).0@
    &&& forall|k: Seq<char>| #[trigger] m.dom().contains(k) ==> exists|i: int| 0 <= i < members.len() && (#[trigger] members[i]).0@ == k
    &&& forall|i: int| 0 <= i < members.len() ==> m.dom().contains((#[trigger] members[i]).0@)
        && json_parsing(members[i].1@) == Ok::<JsonValue, Seq<char>>(m[members[i].0@])
}

/// The object fields that a list of members stands for, each value read with `parse_json`.
pub(crate) fn fields_of_members(members: &Vec<(String, String)>, Ghost(m): Ghost<Map<Seq<char>, JsonValue>>) -> (out: Vec<(String, Json)>)
    requires
        members_stand_for(members@, m),
    ensures
        fields_map(out@) == m,
        keys_distinct(out@),
        forall|i: int| 0 <= i < out.len() ==> json_wf(#[trigger] out@[i].1),
{
    let mut out: Vec<(String, Json)> = Vec::new();
    let mut i: usize = 0;
    while i < members.len()
        invariant
            members_stand_for(members@, m),
            i <= members.len(),
            out.len() == i,
            forall|k: int| 0 <= k < i ==> (#[trigger] out@[k]).0@ == members@[k].0@
                && json_view(out@[k].1) == m[members@[k].0@] && json_wf(out@[k].1),
        decreases members.len() - i,
    {
        let ghost key = members@[i as int].0@;
        assert(m.dom().contains(key) && json_parsing(members@[i as int].1@) == Ok::<JsonValue, Seq<char>>(m[key]));
        let value = match parse_json(members[i].1.as_str()) {
            Ok(j) => j,
            Err(_) => Json::Null,
        };
        out.push((members[i].0.clone(), value));
        i = i + 1;
    }
    proof {
        assert(keys_distinct(out@)) by {
            assert forall|a: int, b: int| 0 <= a < out.len() && 0 <= b < out.len() && a != b implies
                out@[a].0@ != out@[b].0@ by {
                if a < b {
                    assert(members@[a].0@ != members@[b].0@);
                } else {
                    assert(members@[b].0@ != members@[a].0@);
                }
            }
        }
        assert forall|k: Seq<char>| #[trigger] fields_map(out@).dom().contains(k) <==> m.dom().contains(k) by {
            lemma_last_index_of(out@, k);
            if m.dom().contains(k) {
                let a = choose|a: int| 0 <= a < members.len() && (#[trigger] members@[a]).0@ == k;
                assert(out@[a].0@ == k);
                lemma_distinct_last_index(out@, a);
            }
        }
        assert forall|k: Seq<char>| #[trigger] m.dom().contains(k) implies fields_map(out@)[k] == m[k] by {
            let a = choose|a: int| 0 <= a < members.len() && (#[trigger] members@[a]).0@ == k;
            assert(out@[a].0@ == k);
            lemma_distinct_last_index(out@, a);
        }
        assert(fields_map(out@) =~= m);
    }
    out
}

} // verus!
