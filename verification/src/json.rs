//! A structured-value model for the service's responses.
//!
//! The remote service speaks JSON; inside this crate its responses are held
//! in [`JsonValue`], a plain recursive datatype that the proofs can see into.
//! Numbers are kept as signed integers, which covers everything the core
//! logic reads (cycle numbers, page sizes, status codes). Conversion to and
//! from the wire format lives outside the crate.

use vstd::prelude::*;

verus! {

/// A loosely-typed response value.
#[derive(Debug, PartialEq)]
pub enum JsonValue {
    Null,
    Bool(bool),
    Int(i64),
    Str(String),
    Arr(Vec<JsonValue>),
    Obj(Vec<(String, JsonValue)>),
}

/// The value under `key` in an object's pair list: first match wins.
pub open spec fn spec_obj_get(pairs: Seq<(String, JsonValue)>, key: Seq<char>) -> Option<
    JsonValue,
>
    decreases pairs.len(),
{
    if pairs.len() == 0 {
        Option::None
    } else if pairs[0].0@ == key {
        Option::Some(pairs[0].1)
    } else {
        spec_obj_get(pairs.drop_first(), key)
    }
}

/// The value under `key` in `v`, when `v` is an object that has it.
pub open spec fn spec_get(v: JsonValue, key: Seq<char>) -> Option<JsonValue> {
    match v {
        JsonValue::Obj(pairs) => spec_obj_get(pairs@, key),
        _ => Option::None,
    }
}

/// The view of a key path.
pub open spec fn path_view(path: Seq<&str>) -> Seq<Seq<char>> {
    path.map_values(|p: &str| p@)
}

/// The value reached from `v` by following `path` one key at a time.
pub open spec fn spec_get_path(v: JsonValue, path: Seq<Seq<char>>) -> Option<JsonValue>
    decreases path.len(),
{
    if path.len() == 0 {
        Option::Some(v)
    } else {
        match spec_get(v, path[0]) {
            Option::Some(child) => spec_get_path(child, path.drop_first()),
            Option::None => Option::None,
        }
    }
}

proof fn lemma_obj_get_found(pairs: Seq<(String, JsonValue)>, key: Seq<char>, j: int)
    requires
        0 <= j < pairs.len(),
        forall|k: int| 0 <= k < j ==> pairs[k].0@ != key,
        pairs[j].0@ == key,
    ensures
        spec_obj_get(pairs, key) == Option::Some(pairs[j].1),
    decreases j,
{
    if j > 0 {
        lemma_obj_get_found(pairs.drop_first(), key, j - 1);
    }
}

proof fn lemma_obj_get_missing(pairs: Seq<(String, JsonValue)>, key: Seq<char>)
    requires
        forall|k: int| 0 <= k < pairs.len() ==> pairs[k].0@ != key,
    ensures
        spec_obj_get(pairs, key) is None,
    decreases pairs.len(),
{
    if pairs.len() > 0 {
        lemma_obj_get_missing(pairs.drop_first(), key);
    }
}

impl JsonValue {
    /// Look `key` up in this value, when it is an object.
    pub fn get<'a>(&'a self, key: &str) -> (r: Option<&'a JsonValue>)
        ensures
            match spec_get(*self, key@) {
                Option::Some(v) => r matches Option::Some(p) && *p == v,
                Option::None => r is None,
            },
    {
        match self {
            JsonValue::Obj(pairs) => obj_find(pairs, key),
            _ => Option::None,
        }
    }

    /// The string inside, when this value is a string.
    pub fn as_str<'a>(&'a self) -> (r: Option<&'a str>)
        ensures
            match *self {
                JsonValue::Str(s) => r matches Option::Some(p) && p@ == s@,
                _ => r is None,
            },
    {
        match self {
            JsonValue::Str(s) => Option::Some(s.as_str()),
            _ => Option::None,
        }
    }

    /// The number inside, when this value is a number.
    pub fn as_i64(&self) -> (r: Option<i64>)
        ensures
            match *self {
                JsonValue::Int(n) => r == Option::Some(n),
                _ => r is None,
            },
    {
        match self {
            JsonValue::Int(n) => Option::Some(*n),
            _ => Option::None,
        }
    }

    /// The boolean inside, when this value is a boolean.
    pub fn as_bool(&self) -> (r: Option<bool>)
        ensures
            match *self {
                JsonValue::Bool(b) => r == Option::Some(b),
                _ => r is None,
            },
    {
        match self {
            JsonValue::Bool(b) => Option::Some(*b),
            _ => Option::None,
        }
    }

    /// The elements inside, when this value is an array.
    pub fn as_array<'a>(&'a self) -> (r: Option<&'a Vec<JsonValue>>)
        ensures
            match *self {
                JsonValue::Arr(items) => r matches Option::Some(p) && *p == items,
                _ => r is None,
            },
    {
        match self {
            JsonValue::Arr(items) => Option::Some(items),
            _ => Option::None,
        }
    }

    /// Whether this value is `null`.
    pub fn is_null(&self) -> (r: bool)
        ensures
            r == (*self is Null),
    {
        match self {
            JsonValue::Null => true,
            _ => false,
        }
    }

    /// Whether this value is an object.
    pub fn is_object(&self) -> (r: bool)
        ensures
            r == (*self is Obj),
    {
        match self {
            JsonValue::Obj(_) => true,
            _ => false,
        }
    }
}

/// First pair in `pairs` whose key is exactly `key`.
#[verifier::loop_isolation(false)]
fn obj_find<'a>(pairs: &'a Vec<(String, JsonValue)>, key: &str) -> (r: Option<&'a JsonValue>)
    ensures
        match spec_obj_get(pairs@, key@) {
            Option::Some(v) => r matches Option::Some(p) && *p == v,
            Option::None => r is None,
        },
{
    let mut j: usize = 0;
    while j < pairs.len()
        invariant
            j <= pairs.len(),
            forall|k: int| 0 <= k < j ==> pairs@[k].0@ != key@,
        decreases pairs.len() - j,
    {
        if crate::text::str_eq(pairs[j].0.as_str(), key) {
            proof {
                lemma_obj_get_found(pairs@, key@, j as int);
            }
            return Option::Some(&pairs[j].1);
        }
        j = j + 1;
    }
    proof {
        lemma_obj_get_missing(pairs@, key@);
    }
    Option::None
}

/// Follow `path` from `value` by reference, as the generic accessor
/// for loosely-typed responses.
#[verifier::loop_isolation(false)]
pub fn get_path<'a>(value: &'a JsonValue, path: &[&str]) -> (r: Option<&'a JsonValue>)
    ensures
        match spec_get_path(*value, path_view(path@)) {
            Option::Some(v) => r matches Option::Some(p) && *p == v,
            Option::None => r is None,
        },
{
    let mut cur: &JsonValue = value;
    let mut i: usize = 0;
    proof {
        assert(path@.skip(0) =~= path@);
    }
    while i < path.len()
        invariant
            i <= path.len(),
            spec_get_path(*value, path_view(path@)) == spec_get_path(
                *cur,
                path_view(path@.skip(i as int)),
            ),
        decreases path.len() - i,
    {
        proof {
            assert(path_view(path@.skip(i as int)).drop_first() =~= path_view(
                path@.skip(i + 1),
            ));
            assert(path_view(path@.skip(i as int))[0] == path@[i as int]@);
        }
        match cur.get(path[i]) {
            Option::Some(child) => {
                cur = child;
            },
            Option::None => {
                return Option::None;
            },
        }
        i = i + 1;
    }
    proof {
        assert(path_view(path@.skip(i as int)) =~= Seq::<Seq<char>>::empty());
    }
    Option::Some(cur)
}

/// Follow `path` from `value`, taking ownership of the reached value.
#[verifier::loop_isolation(false)]
pub fn take_path(value: JsonValue, path: &[&str]) -> (r: Option<JsonValue>)
    ensures
        r == spec_get_path(value, path_view(path@)),
{
    let ghost orig = value;
    let mut cur: JsonValue = value;
    let mut i: usize = 0;
    proof {
        assert(path@.skip(0) =~= path@);
    }
    while i < path.len()
        invariant
            i <= path.len(),
            spec_get_path(orig, path_view(path@)) == spec_get_path(
                cur,
                path_view(path@.skip(i as int)),
            ),
        decreases path.len() - i,
    {
        proof {
            assert(path_view(path@.skip(i as int)).drop_first() =~= path_view(
                path@.skip(i + 1),
            ));
            assert(path_view(path@.skip(i as int))[0] == path@[i as int]@);
        }
        match obj_take(cur, path[i]) {
            Option::Some(child) => {
                cur = child;
            },
            Option::None => {
                return Option::None;
            },
        }
        i = i + 1;
    }
    proof {
        assert(path_view(path@.skip(i as int)) =~= Seq::<Seq<char>>::empty());
    }
    Option::Some(cur)
}

/// Take the value under `key` out of `v`, when `v` is an object that has it.
#[verifier::loop_isolation(false)]
pub(crate) fn obj_take(v: JsonValue, key: &str) -> (r: Option<JsonValue>)
    ensures
        r == spec_get(v, key@),
{
    let mut pairs = match v {
        JsonValue::Obj(pairs) => pairs,
        _ => {
            return Option::None;
        },
    };
    let ghost orig = pairs@;
    let mut j: usize = 0;
    while j < pairs.len()
        invariant
            pairs@ == orig,
            j <= pairs.len(),
            forall|k: int| 0 <= k < j ==> orig[k].0@ != key@,
        decreases pairs.len() - j,
    {
        if crate::text::str_eq(pairs[j].0.as_str(), key) {
            proof {
                lemma_obj_get_found(orig, key@, j as int);
            }
            let pair = pairs.remove(j);
            return Option::Some(pair.1);
        }
        j = j + 1;
    }
    proof {
        lemma_obj_get_missing(orig, key@);
    }
    Option::None
}

} // verus!
