use vstd::prelude::*;

verus! {

pub enum Json {
    Null,
    Bool(bool),
    Number(String),
    String(String),
    Array(Vec<Json>),
    Object(Vec<(String, Json)>),
}

pub enum JsonValue {
    Null,
    Bool(bool),
    Number(Seq<char>),
    String(Seq<char>),
    Array(Seq<JsonValue>),
    Object(Map<Seq<char>, JsonValue>),
}

pub open spec fn last_index_of(fields: Seq<(String, Json)>, k: Seq<char>) -> int
    decreases fields.len(),
{
    if fields.len() == 0 {
        -1
    } else if fields.last().0@ == k {
        fields.len() - 1
    } else {
        last_index_of(fields.drop_last(), k)
    }
}

pub proof fn lemma_last_index_of(fields: Seq<(String, Json)>, k: Seq<char>)
    ensures
        -1 <= last_index_of(fields, k) < fields.len(),
        last_index_of(fields, k) >= 0 ==> fields[last_index_of(fields, k)].0@ == k,
    decreases fields.len(),
{
    if fields.len() > 0 {
        lemma_last_index_of(fields.drop_last(), k);
    }
}

/// Field lists with the same keys, position by position, find the same last index for a key.
pub proof fn lemma_same_keys_same_last_index(a: Seq<(String, Json)>, b: Seq<(String, Json)>)
    requires
        a.len() == b.len(),
        forall|k: int| 0 <= k < a.len() ==> (#[trigger] a[k]).0@ == b[k].0@,
    ensures
        forall|key: Seq<char>| #[trigger] last_index_of(a, key) == last_index_of(b, key),
    decreases a.len(),
{
    if a.len() > 0 {
        assert forall|k: int| 0 <= k < a.drop_last().len() implies (#[trigger] a.drop_last()[k]).0@
            == b.drop_last()[k].0@ by {
            assert(a[k].0@ == b[k].0@);
        }
        lemma_same_keys_same_last_index(a.drop_last(), b.drop_last());
        assert(a.last().0@ == b.last().0@);
        assert forall|key: Seq<char>| #[trigger] last_index_of(a, key) == last_index_of(b, key) by {
            assert(last_index_of(a.drop_last(), key) == last_index_of(b.drop_last(), key));
        }
    }
}

pub open spec fn json_view(j: Json) -> JsonValue
    decreases j,
{
    match j {
        Json::Null => JsonValue::Null,
        Json::Bool(b) => JsonValue::Bool(b),
        Json::Number(n) => JsonValue::Number(n@),
        Json::String(s) => JsonValue::String(s@),
        Json::Array(items) => JsonValue::Array(Seq::new(items.len() as nat, |i: int| if 0 <= i < items.len() { json_view(items@[i]) } else { JsonValue::Null })),
        Json::Object(fields) => JsonValue::Object(Map::new(
            |k: Seq<char>| last_index_of(fields@, k) >= 0,
            |k: Seq<char>| {
                let i = last_index_of(fields@, k);
                if 0 <= i < fields.len() { json_view(fields@[i].1) } else { JsonValue::Null }
            },
        )),
    }
}

} // verus!

verus! {

#[verifier::loop_isolation(false)]
pub fn json_clone(j: &Json) -> (out: Json)
    ensures
        json_view(out) == json_view(*j),
        json_wf(*j) ==> json_wf(out),
    decreases j,
{
    match j {
        Json::Null => Json::Null,
        Json::Bool(b) => Json::Bool(*b),
        Json::Number(n) => Json::Number(n.clone()),
        Json::String(s) => Json::String(s.clone()),
        Json::Array(items) => {
            let mut out: Vec<Json> = Vec::new();
            let mut i: usize = 0;
            while i < items.len()
                invariant
                    i <= items.len(),
                    out@.len() == i,
                    forall|k: int| 0 <= k < i ==> json_view(#[trigger] out@[k]) == json_view(items@[k]),
                    json_wf(*j) ==> forall|k: int| 0 <= k < i ==> json_wf(#[trigger] out@[k]),
                decreases items.len() - i,
            {
                proof {
                    assert(decreases_to!(*j => j->Array_0));
                    assert(decreases_to!(*items => items[i as int]));
                }
                let c = json_clone(&items[i]);
                out.push(c);
                i = i + 1;
            }
            let res = Json::Array(out);
            assert(json_view(res)->Array_0 =~= json_view(*j)->Array_0);
            res
        },
        Json::Object(fields) => {
            let mut out: Vec<(String, Json)> = Vec::new();
            let mut i: usize = 0;
            while i < fields.len()
                invariant
                    i <= fields.len(),
                    out@.len() == i,
                    forall|k: int| 0 <= k < i ==> (#[trigger] out@[k]).0@ == fields@[k].0@
                        && json_view(out@[k].1) == json_view(fields@[k].1),
                    json_wf(*j) ==> forall|k: int| 0 <= k < i ==> json_wf(#[trigger] out@[k].1),
                decreases fields.len() - i,
            {
                proof {
                    assert(decreases_to!(*j => j->Object_0));
                    assert(decreases_to!(*fields => fields[i as int]));
                    assert(decreases_to!(fields[i as int] => fields[i as int].1));
                }
                let c = json_clone(&fields[i].1);
                out.push((fields[i].0.clone(), c));
                i = i + 1;
            }
            proof {
                lemma_same_keys_same_last_index(out@, fields@);
                if json_wf(*j) {
                    assert forall|a: int, b: int| 0 <= a < out@.len() && 0 <= b < out@.len() && a != b implies out@[a].0@ != out@[b].0@ by {
                        assert(out@[a].0@ == fields@[a].0@);
                        assert(out@[b].0@ == fields@[b].0@);
                    }
                }
            }
            let res = Json::Object(out);
            assert(json_view(res)->Object_0 =~= json_view(*j)->Object_0);
            res
        },
    }
}

} // verus!

verus! {

/// The map that a list of object fields stands for: a later field wins over an earlier one
/// with the same key, as when the fields are collected into a map.
pub open spec fn fields_map(fields: Seq<(String, Json)>) -> Map<Seq<char>, JsonValue> {
    Map::new(
        |k: Seq<char>| last_index_of(fields, k) >= 0,
        |k: Seq<char>| json_view(fields[last_index_of(fields, k)].1),
    )
}

/// An object's view is the map of its fields.
pub proof fn lemma_object_view(fields: Vec<(String, Json)>)
    ensures
        json_view(Json::Object(fields)) == JsonValue::Object(fields_map(fields@)),
{
    assert forall|k: Seq<char>| #[trigger] fields_map(fields@).dom().contains(k) implies
        last_index_of(fields@, k) < fields.len() by {
        lemma_last_index_of(fields@, k);
    }
    assert(json_view(Json::Object(fields))->Object_0 =~= fields_map(fields@));
}

proof fn lemma_last_index_push(f: Seq<(String, Json)>, e: (String, Json))
    ensures
        forall|key: Seq<char>| #[trigger] last_index_of(f.push(e), key) == if key == e.0@ {
            f.len() as int
        } else {
            last_index_of(f, key)
        },
{
    assert forall|key: Seq<char>| #[trigger] last_index_of(f.push(e), key) == if key == e.0@ {
        f.len() as int
    } else {
        last_index_of(f, key)
    } by {
        assert(f.push(e).drop_last() =~= f);
    }
}

proof fn lemma_last_index_update(f: Seq<(String, Json)>, i: int, e: (String, Json))
    requires
        0 <= i < f.len(),
        last_index_of(f, e.0@) == i,
    ensures
        forall|key: Seq<char>| #[trigger] last_index_of(f.update(i, e), key) == last_index_of(f, key),
    decreases f.len(),
{
    let u = f.update(i, e);
    lemma_last_index_of(f, e.0@);
    if i == f.len() - 1 {
        assert(u.drop_last() =~= f.drop_last());
        assert forall|key: Seq<char>| #[trigger] last_index_of(u, key) == last_index_of(f, key) by {
            assert(f.last().0@ == e.0@);
        }
    } else {
        assert(f.last().0@ != e.0@);
        lemma_last_index_update(f.drop_last(), i, e);
        assert(u.drop_last() =~= f.drop_last().update(i, e));
        assert forall|key: Seq<char>| #[trigger] last_index_of(u, key) == last_index_of(f, key) by {
            assert(last_index_of(u.drop_last(), key) == last_index_of(f.drop_last(), key));
        }
    }
}

/// The position of the field that holds `key` (the last one with that key), if any.
pub fn object_find(fields: &Vec<(String, Json)>, key: &str) -> (r: Option<usize>)
    ensures
        match r {
            Some(i) => i == last_index_of(fields@, key@) && i < fields.len(),
            None => last_index_of(fields@, key@) == -1,
        },
{
    let mut i: usize = fields.len();
    assert(fields@.take(i as int) =~= fields@);
    while i > 0
        invariant
            i <= fields.len(),
            last_index_of(fields@, key@) == last_index_of(fields@.take(i as int), key@),
        decreases i,
    {
        proof {
            assert(fields@.take(i as int).drop_last() =~= fields@.take(i - 1));
        }
        if crate::text::str_eq(fields[i - 1].0.as_str(), key) {
            return Some(i - 1);
        }
        i = i - 1;
    }
    None
}

/// The value stored under `key` in an object's fields, if any.
pub fn object_get<'a>(fields: &'a Vec<(String, Json)>, key: &str) -> (r: Option<&'a Json>)
    ensures
        match r {
            Some(v) => fields_map(fields@).dom().contains(key@) && json_view(*v) == fields_map(
                fields@,
            )[key@],
            None => !fields_map(fields@).dom().contains(key@),
        },
{
    match object_find(fields, key) {
        Some(i) => Some(&fields[i].1),
        None => None,
    }
}

/// Stores `value` under `key`, replacing the value that was there.
pub fn object_insert(fields: &mut Vec<(String, Json)>, key: String, value: Json)
    ensures
        fields_map(final(fields)@) == fields_map(old(fields)@).insert(key@, json_view(value)),
{
    let ghost k = key@;
    let ghost jv = json_view(value);
    match object_find(fields, key.as_str()) {
        Some(i) => {
            let ghost f = fields@;
            proof {
                lemma_last_index_update(f, i as int, (key, value));
            }
            let ghost e = (key, value);
            fields.set(i, (key, value));
            proof {
                assert(fields@ == f.update(i as int, e));
                assert forall|kk: Seq<char>| #[trigger] fields_map(fields@).dom().contains(kk) implies
                    fields_map(fields@)[kk] == fields_map(f).insert(k, jv)[kk] by {
                    lemma_last_index_of(f, kk);
                    lemma_last_index_of(f, k);
                    if kk != k {
                        assert(last_index_of(f, kk) != i);
                    }
                }
                assert(fields_map(fields@) =~= fields_map(f).insert(k, jv));
            }
        },
        None => {
            let ghost f = fields@;
            proof {
                lemma_last_index_push(f, (key, value));
            }
            let ghost e = (key, value);
            fields.push((key, value));
            proof {
                assert forall|kk: Seq<char>| #[trigger] fields_map(fields@).dom().contains(kk) implies
                    fields_map(fields@)[kk] == fields_map(f).insert(k, jv)[kk] by {
                    lemma_last_index_of(f, kk);
                }
                assert(fields_map(fields@) =~= fields_map(f).insert(k, jv));
            }
        },
    }
}

/// The values the loop operation sends for one input: each item of an array, or the value itself.
pub open spec fn each_spec(v: Json) -> Seq<JsonValue> {
    match v {
        Json::Array(items) => Seq::new(items.len() as nat, |i: int| json_view(items@[i])),
        _ => seq![json_view(v)],
    }
}

/// The values that the loop operation sends for one input.
pub fn each(input: Json) -> (out: Vec<Json>)
    ensures
        Seq::new(out.len() as nat, |i: int| json_view(out@[i])) == each_spec(input),
{
    let ghost spec_out = each_spec(input);
    match input {
        Json::Array(items) => {
            assert(Seq::new(items.len() as nat, |i: int| json_view(items@[i])) =~= spec_out);
            items
        },
        other => {
            let mut out: Vec<Json> = Vec::new();
            out.push(other);
            assert(Seq::new(out.len() as nat, |i: int| json_view(out@[i])) =~= spec_out);
            out
        },
    }
}

/// An object holding just `key` with `value`, as the object operation `new` builds it.
pub fn new_object(key: &str, value: Json) -> (out: Json)
    ensures
        json_view(out) == JsonValue::Object(Map::empty().insert(key@, json_view(value))),
{
    let mut fields: Vec<(String, Json)> = Vec::new();
    let ghost jv = json_view(value);
    assert(fields_map(fields@) =~= Map::empty());
    object_insert(&mut fields, String::from_str(key), value);
    proof {
        lemma_object_view(fields);
    }
    Json::Object(fields)
}

/// Two objects merged, the second one's fields winning; `None` unless both are objects.
pub open spec fn merged(a: JsonValue, b: JsonValue) -> Option<JsonValue> {
    match (a, b) {
        (JsonValue::Object(m1), JsonValue::Object(m2)) => Some(JsonValue::Object(m1.union_prefer_right(m2))),
        _ => None,
    }
}

/// The fields of `f` taken up to `i` stand for the map of the first `i` fields plus field `i`.
pub proof fn lemma_fields_map_take_succ(f: Seq<(String, Json)>, i: int)
    requires
        0 <= i < f.len(),
    ensures
        fields_map(f.take(i + 1)) == fields_map(f.take(i)).insert(f[i].0@, json_view(f[i].1)),
{
    assert(f.take(i + 1) =~= f.take(i).push(f[i]));
    lemma_last_index_push(f.take(i), f[i]);
    assert forall|kk: Seq<char>| #[trigger] fields_map(f.take(i + 1)).dom().contains(kk) implies
        fields_map(f.take(i + 1))[kk] == fields_map(f.take(i)).insert(f[i].0@, json_view(f[i].1))[kk] by {
        lemma_last_index_of(f.take(i), kk);
    }
    assert(fields_map(f.take(i + 1)) =~= fields_map(f.take(i)).insert(f[i].0@, json_view(f[i].1)));
}

/// Inserts copies of all fields of `f2`, in order, into `f1`.
pub fn insert_all(f1: &mut Vec<(String, Json)>, f2: &Vec<(String, Json)>)
    ensures
        fields_map(final(f1)@) == fields_map(old(f1)@).union_prefer_right(fields_map(f2@)),
{
    let ghost m1 = fields_map(f1@);
    let mut i: usize = 0;
    assert(fields_map(f2@.take(0)) =~= Map::empty());
    while i < f2.len()
        invariant
            i <= f2.len(),
            fields_map(f1@) =~= m1.union_prefer_right(fields_map(f2@.take(i as int))),
        decreases f2.len() - i,
    {
        proof {
            lemma_fields_map_take_succ(f2@, i as int);
        }
        let v = json_clone(&f2[i].1);
        object_insert(f1, f2[i].0.clone(), v);
        i = i + 1;
    }
    assert(f2@.take(f2.len() as int) =~= f2@);
}

/// Merges the fields of `b` into `a` (fields of `b` win); `None` unless both are objects.
pub fn merge_objects(a: &Json, b: &Json) -> (out: Option<Json>)
    ensures
        match out {
            Some(o) => merged(json_view(*a), json_view(*b)) == Some(json_view(o)),
            None => merged(json_view(*a), json_view(*b)).is_none(),
        },
{
    match (a, b) {
        (Json::Object(_), Json::Object(f2)) => {
            let copy = json_clone(a);
            proof {
                lemma_object_view(a->Object_0);
                lemma_object_view(*f2);
            }
            let mut f1 = match copy {
                Json::Object(f) => f,
                other => {
                    proof {
                        assert(json_view(other) is Object);
                    }
                    return None;
                },
            };
            proof {
                lemma_object_view(f1);
            }
            insert_all(&mut f1, f2);
            proof {
                lemma_object_view(f1);
            }
            Some(Json::Object(f1))
        },
        _ => None,
    }
}

/// Whether `extend_object_at_path` finishes on these values: every object it walks through
/// is an object, and the value put at the end is an object (merged into an object) or a string.
pub open spec fn extend_ok(root: JsonValue, path: Seq<Seq<char>>, new_value: JsonValue) -> bool
    decreases path.len(),
{
    if path.len() == 0 {
        match new_value {
            JsonValue::Object(_) => root is Object,
            JsonValue::String(_) => true,
            _ => false,
        }
    } else {
        match root {
            JsonValue::Object(m) => extend_ok(
                if m.dom().contains(path[0]) { m[path[0]] } else { JsonValue::Object(Map::empty()) },
                path.drop_first(),
                new_value,
            ),
            _ => false,
        }
    }
}

/// `root` with `new_value` put at `path`: missing objects on the way are created, an object
/// at the end has the new object's fields merged in, and a string replaces what is there.
pub open spec fn extended(root: JsonValue, path: Seq<Seq<char>>, new_value: JsonValue) -> JsonValue
    decreases path.len(),
{
    if path.len() == 0 {
        match (root, new_value) {
            (JsonValue::Object(m), JsonValue::Object(n)) => JsonValue::Object(m.union_prefer_right(n)),
            _ => new_value,
        }
    } else {
        match root {
            JsonValue::Object(m) => JsonValue::Object(m.insert(
                path[0],
                extended(
                    if m.dom().contains(path[0]) { m[path[0]] } else { JsonValue::Object(Map::empty()) },
                    path.drop_first(),
                    new_value,
                ),
            )),
            _ => root,
        }
    }
}

fn extend_from(root: Json, path: &Vec<String>, idx: usize, new_value: Json) -> (out: Json)
    requires
        idx <= path.len(),
        extend_ok(json_view(root), path.deep_view().skip(idx as int), json_view(new_value)),
    ensures
        json_view(out) == extended(json_view(root), path.deep_view().skip(idx as int), json_view(new_value)),
    decreases path.len() - idx,
{
    let ghost p = path.deep_view().skip(idx as int);
    if idx == path.len() {
        assert(p.len() == 0);
        match (root, new_value) {
            (Json::Object(mut rf), Json::Object(nf)) => {
                proof {
                    lemma_object_view(rf);
                    lemma_object_view(nf);
                }
                insert_all(&mut rf, &nf);
                proof {
                    lemma_object_view(rf);
                }
                Json::Object(rf)
            },
            (Json::Object(rf), other) => {
                proof {
                    lemma_object_view(rf);
                }
                other
            },
            (_, other) => other,
        }
    } else {
        match root {
            Json::Object(mut rf) => {
                proof {
                    lemma_object_view(rf);
                    assert(p[0] == path@[idx as int]@);
                    assert(p.drop_first() =~= path.deep_view().skip(idx + 1));
                }
                let child = match object_get(&rf, path[idx].as_str()) {
                    Some(c) => json_clone(c),
                    None => {
                        let empty: Vec<(String, Json)> = Vec::new();
                        proof {
                            lemma_object_view(empty);
                            assert(fields_map(empty@) =~= Map::empty());
                        }
                        Json::Object(empty)
                    },
                };
                let new_child = extend_from(child, path, idx + 1, new_value);
                object_insert(&mut rf, path[idx].clone(), new_child);
                proof {
                    lemma_object_view(rf);
                }
                Json::Object(rf)
            },
            other => other,
        }
    }
}

/// Puts `new_value` into `root` at `path`, as the object component's push operation does.
pub fn extend_object_at_path(root: Json, path: &Vec<String>, new_value: Json) -> (out: Json)
    requires
        extend_ok(json_view(root), path.deep_view(), json_view(new_value)),
    ensures
        json_view(out) == extended(json_view(root), path.deep_view(), json_view(new_value)),
{
    assert(path.deep_view().skip(0) =~= path.deep_view());
    extend_from(root, path, 0, new_value)
}


/// The value that following a path of keys through objects reaches.
pub open spec fn value_at(root: JsonValue, path: Seq<Seq<char>>) -> Option<JsonValue>
    decreases path.len(),
{
    if path.len() == 0 {
        Some(root)
    } else {
        match root {
            JsonValue::Object(m) => if m.dom().contains(path[0]) {
                value_at(m[path[0]], path.drop_first())
            } else {
                None
            },
            _ => None,
        }
    }
}

/// A string pushed at a path is what reading that path gives back.
pub proof fn lemma_push_string_read_back(root: JsonValue, path: Seq<Seq<char>>, s: Seq<char>)
    requires
        extend_ok(root, path, JsonValue::String(s)),
    ensures
        value_at(extended(root, path, JsonValue::String(s)), path) == Some(JsonValue::String(s)),
    decreases path.len(),
{
    if path.len() > 0 {
        let m = root->Object_0;
        let child = if m.dom().contains(path[0]) { m[path[0]] } else { JsonValue::Object(Map::empty()) };
        lemma_push_string_read_back(child, path.drop_first(), s);
    }
}

/// Every field of an object pushed at a path is found under that path with its value.
pub proof fn lemma_push_object_read_back(root: JsonValue, path: Seq<Seq<char>>, fields: Map<Seq<char>, JsonValue>, k: Seq<char>)
    requires
        extend_ok(root, path, JsonValue::Object(fields)),
        fields.dom().contains(k),
    ensures
        value_at(extended(root, path, JsonValue::Object(fields)), path.push(k)) == Some(fields[k]),
    decreases path.len(),
{
    if path.len() > 0 {
        let m = root->Object_0;
        let child = if m.dom().contains(path[0]) { m[path[0]] } else { JsonValue::Object(Map::empty()) };
        lemma_push_object_read_back(child, path.drop_first(), fields, k);
        assert(path.push(k).drop_first() =~= path.drop_first().push(k));
        assert(path.push(k)[0] == path[0]);
        let e = extended(root, path, JsonValue::Object(fields));
        assert(e->Object_0[path[0]] == extended(child, path.drop_first(), JsonValue::Object(fields)));
    } else {
        let u = root->Object_0.union_prefer_right(fields);
        assert(path.push(k).drop_first() =~= Seq::<Seq<char>>::empty());
        assert(extended(root, path, JsonValue::Object(fields)) == JsonValue::Object(u));
        assert(u[k] == fields[k]);
        assert(value_at(u[k], Seq::empty()) == Some(u[k]));
    }
}

/// Pushing at a path leaves every other field of the root as it was.
pub proof fn lemma_push_keeps_other_fields(root: JsonValue, path: Seq<Seq<char>>, v: JsonValue, k: Seq<char>)
    requires
        extend_ok(root, path, v),
        path.len() > 0,
        k != path[0],
    ensures
        extended(root, path, v) is Object,
        extended(root, path, v)->Object_0.dom().contains(k) == root->Object_0.dom().contains(k),
        root->Object_0.dom().contains(k) ==> extended(root, path, v)->Object_0[k] == root->Object_0[k],
{
}

} // verus!

verus! {

/// No two fields of the list have the same key.
pub open spec fn keys_distinct(fields: Seq<(String, Json)>) -> bool {
    forall|i: int, j: int|
        0 <= i < fields.len() && 0 <= j < fields.len() && i != j ==> fields[i].0@ != fields[j].0@
}

/// A value as a JSON parser produces it: no object holds a key twice, at any depth.
pub open spec fn json_wf(j: Json) -> bool
    decreases j,
{
    match j {
        Json::Array(items) => forall|i: int| 0 <= i < items.len() ==> json_wf(#[trigger] items@[i]),
        Json::Object(fields) => keys_distinct(fields@) && forall|i: int|
            0 <= i < fields.len() ==> json_wf(#[trigger] fields@[i].1),
        _ => true,
    }
}

/// What the xml component's simplification gives: an object whose only key is `$value`
/// becomes that value (as it is); other objects and arrays are simplified member by member.
pub open spec fn simplified(j: Json) -> JsonValue
    decreases j,
{
    match j {
        Json::Array(items) => JsonValue::Array(
            Seq::new(
                items.len() as nat,
                |i: int|
                    if 0 <= i < items.len() {
                        simplified(items@[i])
                    } else {
                        JsonValue::Null
                    },
            ),
        ),
        Json::Object(fields) => if fields.len() == 1 && fields@[0].0@ == "$value"@ {
            json_view(fields@[0].1)
        } else {
            JsonValue::Object(
                Map::new(
                    |k: Seq<char>| last_index_of(fields@, k) >= 0,
                    |k: Seq<char>|
                        {
                            let i = last_index_of(fields@, k);
                            if 0 <= i < fields.len() {
                                simplified(fields@[i].1)
                            } else {
                                JsonValue::Null
                            }
                        },
                ),
            )
        },
        _ => json_view(j),
    }
}

/// Simplifies a value converted from XML, as the xml component does before grouping.
#[verifier::loop_isolation(false)]
pub fn simplify_value(val: &Json) -> (out: Json)
    ensures
        json_view(out) == simplified(*val),
        json_wf(*val) ==> json_wf(out),
    decreases val,
{
    match val {
        Json::Array(items) => {
            let mut out: Vec<Json> = Vec::new();
            let mut i: usize = 0;
            while i < items.len()
                invariant
                    i <= items.len(),
                    out@.len() == i,
                    forall|k: int| 0 <= k < i ==> json_view(#[trigger] out@[k]) == simplified(items@[k]),
                    json_wf(*val) ==> forall|k: int| 0 <= k < i ==> json_wf(#[trigger] out@[k]),
                decreases items.len() - i,
            {
                proof {
                    assert(decreases_to!(*val => val->Array_0));
                    assert(decreases_to!(*items => items[i as int]));
                }
                let c = simplify_value(&items[i]);
                out.push(c);
                i = i + 1;
            }
            let res = Json::Array(out);
            assert(json_view(res)->Array_0 =~= simplified(*val)->Array_0);
            res
        },
        Json::Object(fields) => {
            if fields.len() == 1 && crate::text::str_eq(fields[0].0.as_str(), "$value") {
                return json_clone(&fields[0].1);
            }
            let mut out: Vec<(String, Json)> = Vec::new();
            let mut i: usize = 0;
            while i < fields.len()
                invariant
                    i <= fields.len(),
                    out@.len() == i,
                    forall|k: int| 0 <= k < i ==> (#[trigger] out@[k]).0@ == fields@[k].0@
                        && json_view(out@[k].1) == simplified(fields@[k].1),
                    json_wf(*val) ==> forall|k: int| 0 <= k < i ==> json_wf(#[trigger] out@[k].1),
                decreases fields.len() - i,
            {
                proof {
                    assert(decreases_to!(*val => val->Object_0));
                    assert(decreases_to!(*fields => fields[i as int]));
                    assert(decreases_to!(fields[i as int] => fields[i as int].1));
                }
                let c = simplify_value(&fields[i].1);
                out.push((fields[i].0.clone(), c));
                i = i + 1;
            }
            proof {
                lemma_same_keys_same_last_index(out@, fields@);
                if json_wf(*val) {
                    assert forall|a: int, b: int| 0 <= a < out@.len() && 0 <= b < out@.len() && a != b implies out@[a].0@ != out@[b].0@ by {
                        assert(out@[a].0@ == fields@[a].0@);
                        assert(out@[b].0@ == fields@[b].0@);
                    }
                }
            }
            let res = Json::Object(out);
            assert(json_view(res)->Object_0 =~= simplified(*val)->Object_0);
            res
        },
        Json::Null => Json::Null,
        Json::Bool(b) => Json::Bool(*b),
        Json::Number(n) => Json::Number(n.clone()),
        Json::String(s) => Json::String(s.clone()),
    }
}

} // verus!

verus! {

/// Groups repeated keys of objects into arrays, as the xml component does after simplifying.
/// A value as a parser produces it never repeats a key, so grouping leaves it as it is.
#[verifier::loop_isolation(false)]
pub fn group_same_elements(val: &Json) -> (out: Json)
    requires
        json_wf(*val),
    ensures
        json_view(out) == json_view(*val),
        json_wf(out),
    decreases val,
{
    match val {
        Json::Array(items) => {
            let mut out: Vec<Json> = Vec::new();
            let mut i: usize = 0;
            while i < items.len()
                invariant
                    i <= items.len(),
                    out@.len() == i,
                    forall|k: int| 0 <= k < i ==> json_view(#[trigger] out@[k]) == json_view(items@[k]) && json_wf(out@[k]),
                decreases items.len() - i,
            {
                proof {
                    assert(decreases_to!(*val => val->Array_0));
                    assert(decreases_to!(*items => items[i as int]));
                    assert(json_wf(items@[i as int]));
                }
                let c = group_same_elements(&items[i]);
                out.push(c);
                i = i + 1;
            }
            let res = Json::Array(out);
            assert(json_view(res)->Array_0 =~= json_view(*val)->Array_0);
            assert(json_wf(res));
            res
        },
        Json::Object(fields) => {
            let mut out: Vec<(String, Json)> = Vec::new();
            let mut i: usize = 0;
            while i < fields.len()
                invariant
                    i <= fields.len(),
                    out@.len() == i,
                    keys_distinct(fields@),
                    forall|k: int| 0 <= k < i ==> (#[trigger] out@[k]).0@ == fields@[k].0@
                        && json_view(out@[k].1) == json_view(fields@[k].1) && json_wf(out@[k].1),
                decreases fields.len() - i,
            {
                proof {
                    assert(decreases_to!(*val => val->Object_0));
                    assert(decreases_to!(*fields => fields[i as int]));
                    assert(decreases_to!(fields[i as int] => fields[i as int].1));
                    assert(json_wf(fields@[i as int].1));
                }
                let v = group_same_elements(&fields[i].1);
                match object_find(&out, fields[i].0.as_str()) {
                    Some(j) => {
                        proof {
                            lemma_last_index_of(out@, fields@[i as int].0@);
                            assert(fields@[j as int].0@ == fields@[i as int].0@);
                            assert(false);
                        }
                    },
                    None => {
                        out.push((fields[i].0.clone(), v));
                    },
                }
                i = i + 1;
            }
            proof {
                lemma_same_keys_same_last_index(out@, fields@);
            }
            let res = Json::Object(out);
            assert(json_view(res)->Object_0 =~= json_view(*val)->Object_0);
            assert(json_wf(res));
            res
        },
        Json::Null => Json::Null,
        Json::Bool(b) => Json::Bool(*b),
        Json::Number(n) => Json::Number(n.clone()),
        Json::String(s) => Json::String(s.clone()),
    }
}

} // verus!

verus! {

/// Whether two parsed values are equal as JSON (objects compare as maps).
#[verifier::loop_isolation(false)]
pub fn json_eq(a: &Json, b: &Json) -> (r: bool)
    requires
        json_wf(*a),
        json_wf(*b),
    ensures
        r == (json_view(*a) == json_view(*b)),
    decreases a,
{
    match (a, b) {
        (Json::Null, Json::Null) => true,
        (Json::Bool(x), Json::Bool(y)) => *x == *y,
        (Json::Number(x), Json::Number(y)) => crate::text::str_eq(x.as_str(), y.as_str()),
        (Json::String(x), Json::String(y)) => crate::text::str_eq(x.as_str(), y.as_str()),
        (Json::Array(xs), Json::Array(ys)) => {
            if xs.len() != ys.len() {
                assert(json_view(*a)->Array_0.len() != json_view(*b)->Array_0.len());
                return false;
            }
            let mut i: usize = 0;
            while i < xs.len()
                invariant
                    i <= xs.len() == ys.len(),
                    forall|k: int| 0 <= k < i ==> json_view(#[trigger] xs@[k]) == json_view(ys@[k]),
                decreases xs.len() - i,
            {
                proof {
                    assert(decreases_to!(*a => a->Array_0));
                    assert(decreases_to!(*xs => xs[i as int]));
                    assert(json_wf(xs@[i as int]));
                    assert(json_wf(ys@[i as int]));
                }
                if !json_eq(&xs[i], &ys[i]) {
                    assert(json_view(*a)->Array_0[i as int] != json_view(*b)->Array_0[i as int]);
                    return false;
                }
                i = i + 1;
            }
            assert(json_view(*a)->Array_0 =~= json_view(*b)->Array_0);
            true
        },
        (Json::Object(xs), Json::Object(ys)) => {
            proof {
                lemma_object_view(*xs);
                lemma_object_view(*ys);
            }
            let ghost ma = fields_map(xs@);
            let ghost mb = fields_map(ys@);
            let mut i: usize = 0;
            while i < xs.len()
                invariant
                    i <= xs.len(),
                    forall|k: int| 0 <= k < i ==> mb.dom().contains((#[trigger] xs@[k]).0@) && mb[xs@[k].0@] == json_view(xs@[k].1),
                decreases xs.len() - i,
            {
                proof {
                    assert(decreases_to!(*a => a->Object_0));
                    assert(decreases_to!(*xs => xs[i as int]));
                    assert(decreases_to!(xs[i as int] => xs[i as int].1));
                    assert(json_wf(xs@[i as int].1));
                    lemma_last_index_of(xs@, xs@[i as int].0@);
                    lemma_distinct_last_index(xs@, i as int);
                }
                match object_find(ys, xs[i].0.as_str()) {
                    None => {
                        assert(ma.dom().contains(xs@[i as int].0@));
                        return false;
                    },
                    Some(j) => {
                        proof {
                            assert(json_wf(ys@[j as int].1));
                        }
                        if !json_eq(&xs[i].1, &ys[j].1) {
                            assert(ma[xs@[i as int].0@] != mb[xs@[i as int].0@]);
                            return false;
                        }
                    },
                }
                i = i + 1;
            }
            let mut j: usize = 0;
            while j < ys.len()
                invariant
                    j <= ys.len(),
                    forall|k: int| 0 <= k < j ==> ma.dom().contains((#[trigger] ys@[k]).0@),
                decreases ys.len() - j,
            {
                match object_find(xs, ys[j].0.as_str()) {
                    None => {
                        proof {
                            lemma_distinct_last_index(ys@, j as int);
                        }
                        assert(mb.dom().contains(ys@[j as int].0@));
                        return false;
                    },
                    Some(_) => {},
                }
                j = j + 1;
            }
            proof {
                assert forall|k: Seq<char>| ma.dom().contains(k) <==> mb.dom().contains(k) by {
                    lemma_last_index_of(xs@, k);
                    lemma_last_index_of(ys@, k);
                    if ma.dom().contains(k) {
                        let ia = last_index_of(xs@, k);
                        assert(xs@[ia].0@ == k);
                    }
                    if mb.dom().contains(k) {
                        let ib = last_index_of(ys@, k);
                        assert(ys@[ib].0@ == k);
                    }
                }
                assert forall|k: Seq<char>| ma.dom().contains(k) implies ma[k] == mb[k] by {
                    lemma_last_index_of(xs@, k);
                    let ia = last_index_of(xs@, k);
                    assert(xs@[ia].0@ == k);
                }
                assert(ma =~= mb);
            }
            true
        },
        _ => false,
    }
}

/// With distinct keys, a field is the last one holding its key.
proof fn lemma_distinct_last_index(f: Seq<(String, Json)>, i: int)
    requires
        keys_distinct(f),
        0 <= i < f.len(),
    ensures
        last_index_of(f, f[i].0@) == i,
    decreases f.len(),
{
    if i < f.len() - 1 {
        assert(f.drop_last()[i] == f[i]);
        lemma_distinct_last_index(f.drop_last(), i);
    }
}

/// Whether `value` is among the items, as the array component's `includes` decides.
pub fn includes(array: &Vec<Json>, value: &Json) -> (r: bool)
    requires
        forall|i: int| 0 <= i < array.len() ==> json_wf(#[trigger] array@[i]),
        json_wf(*value),
    ensures
        r == exists|i: int| 0 <= i < array.len() && json_view(#[trigger] array@[i]) == json_view(*value),
{
    let mut i: usize = 0;
    while i < array.len()
        invariant
            i <= array.len(),
            forall|k: int| 0 <= k < array.len() ==> json_wf(#[trigger] array@[k]),
            json_wf(*value),
            forall|k: int| 0 <= k < i ==> json_view(#[trigger] array@[k]) != json_view(*value),
        decreases array.len() - i,
    {
        if json_eq(&array[i], value) {
            return true;
        }
        i = i + 1;
    }
    false
}

} // verus!

verus! {

/// What `Value::get` finds under `key`: a member of an object; nothing for other values.
pub open spec fn get_spec(v: JsonValue, key: Seq<char>) -> Option<JsonValue> {
    match v {
        JsonValue::Object(m) => if m.dom().contains(key) {
            Some(m[key])
        } else {
            None
        },
        _ => None,
    }
}

/// The string under `key`, or the empty string where there is none (`get`, `as_str`,
/// `unwrap_or_default`).
pub open spec fn str_field_spec(v: JsonValue, key: Seq<char>) -> Seq<char> {
    match get_spec(v, key) {
        Some(JsonValue::String(s)) => s,
        _ => Seq::empty(),
    }
}

/// The member of `v` under `key`, as `Value::get` finds it.
pub fn json_get<'a>(v: &'a Json, key: &str) -> (r: Option<&'a Json>)
    ensures
        match r {
            Some(x) => get_spec(json_view(*v), key@) == Some(json_view(*x)),
            None => get_spec(json_view(*v), key@).is_none(),
        },
{
    match v {
        Json::Object(fields) => {
            proof {
                lemma_object_view(*fields);
            }
            object_get(fields, key)
        },
        _ => None,
    }
}

/// The string under `key`, or the empty string.
pub fn str_field(v: &Json, key: &str) -> (out: String)
    ensures
        out@ == str_field_spec(json_view(*v), key@),
{
    match json_get(v, key) {
        Some(Json::String(s)) => s.clone(),
        _ => String::new(),
    }
}

/// The strings of an array whose items are all strings; `None` for any other value.
pub open spec fn string_list_spec(v: JsonValue) -> Option<Seq<Seq<char>>> {
    match v {
        JsonValue::Array(items) => if forall|i: int| 0 <= i < items.len() ==> #[trigger] items[i] is String {
            Some(Seq::new(items.len(), |i: int| items[i]->String_0))
        } else {
            None
        },
        _ => None,
    }
}

/// The strings of an array of strings, as deserializing it into a list of strings gives them.
#[verifier::loop_isolation(false)]
pub fn string_list(v: &Json) -> (r: Option<Vec<String>>)
    ensures
        match r {
            Some(l) => string_list_spec(json_view(*v)) == Some(l.deep_view()),
            None => string_list_spec(json_view(*v)).is_none(),
        },
{
    match v {
        Json::Array(items) => {
            let ghost iv = json_view(*v)->Array_0;
            let mut out: Vec<String> = Vec::new();
            let mut i: usize = 0;
            while i < items.len()
                invariant
                    i <= items.len(),
                    iv.len() == items.len(),
                    forall|k: int| 0 <= k < items.len() ==> iv[k] == json_view(#[trigger] items@[k]),
                    out.len() == i,
                    forall|k: int| 0 <= k < i ==> (#[trigger] iv[k]) is String && out@[k]@ == iv[k]->String_0,
                decreases items.len() - i,
            {
                match &items[i] {
                    Json::String(s) => {
                        out.push(s.clone());
                    },
                    _ => {
                        assert(!(iv[i as int] is String));
                        return None;
                    },
                }
                i = i + 1;
            }
            assert(out.deep_view() =~= Seq::new(iv.len(), |k: int| iv[k]->String_0));
            Some(out)
        },
        _ => None,
    }
}

} // verus!
