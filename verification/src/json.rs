//! A JSON document model: numbers are kept as the text of their literal.
use vstd::prelude::*;

verus! {

/// A JSON value.
#[derive(Debug)]
pub enum JsonValue {
    Null,
    Bool(bool),
    /// A number, held as the text of its literal.
    Number(String),
    Str(String),
    Array(Vec<JsonValue>),
    /// An object: its members in order.
    Object(Vec<(String, JsonValue)>),
}

/// The mathematical form of a JSON value.
pub enum Json {
    Null,
    Bool(bool),
    Number(Seq<char>),
    Str(Seq<char>),
    Array(Seq<Json>),
    Object(Seq<(Seq<char>, Json)>),
}

/// The mathematical form of a JSON value.
pub open spec fn json_view(v: JsonValue) -> Json
    decreases v, 1nat,
{
    match v {
        JsonValue::Null => Json::Null,
        JsonValue::Bool(b) => Json::Bool(b),
        JsonValue::Number(n) => Json::Number(n@),
        JsonValue::Str(s) => Json::Str(s@),
        JsonValue::Array(items) => Json::Array(items_view(items@)),
        JsonValue::Object(members) => Json::Object(members_view(members@)),
    }
}

/// The mathematical forms of a sequence of JSON values.
pub open spec fn items_view(s: Seq<JsonValue>) -> Seq<Json>
    decreases s, 0nat,
{
    if s.len() == 0 {
        Seq::<Json>::empty()
    } else {
        items_view(s.drop_last()).push(json_view(s.last()))
    }
}

/// The mathematical forms of a sequence of object members.
pub open spec fn members_view(s: Seq<(String, JsonValue)>) -> Seq<(Seq<char>, Json)>
    decreases s, 0nat,
{
    if s.len() == 0 {
        Seq::<(Seq<char>, Json)>::empty()
    } else {
        members_view(s.drop_last()).push((s.last().0@, json_view(s.last().1)))
    }
}

impl View for JsonValue {
    type V = Json;

    open spec fn view(&self) -> Json {
        json_view(*self)
    }
}

/// The view of a sequence of values has one entry per value.
pub proof fn lemma_items_view(s: Seq<JsonValue>)
    ensures
        items_view(s).len() == s.len(),
        forall|i: int| 0 <= i < s.len() ==> #[trigger] items_view(s)[i] == json_view(s[i]),
    decreases s.len(),
{
    if s.len() > 0 {
        lemma_items_view(s.drop_last());
    }
}

/// The view of a sequence of members has one entry per member.
pub proof fn lemma_members_view(s: Seq<(String, JsonValue)>)
    ensures
        members_view(s).len() == s.len(),
        forall|i: int|
            0 <= i < s.len() ==> #[trigger] members_view(s)[i] == (s[i].0@, json_view(s[i].1)),
    decreases s.len(),
{
    if s.len() > 0 {
        lemma_members_view(s.drop_last());
    }
}

/// Adding a value at the end adds its view at the end.
pub proof fn lemma_items_push(s: Seq<JsonValue>, x: JsonValue)
    ensures
        items_view(s.push(x)) == items_view(s).push(json_view(x)),
{
    assert(s.push(x).drop_last() =~= s);
}

/// Adding a member at the end adds its view at the end.
pub proof fn lemma_members_push(s: Seq<(String, JsonValue)>, m: (String, JsonValue))
    ensures
        members_view(s.push(m)) == members_view(s).push((m.0@, json_view(m.1))),
{
    assert(s.push(m).drop_last() =~= s);
}

/// Some member of `ms` has key `k`.
pub open spec fn has_key(ms: Seq<(Seq<char>, Json)>, k: Seq<char>) -> bool {
    exists|i: int| 0 <= i < ms.len() && #[trigger] ms[i].0 == k
}

/// `i` is the position of the first member of `ms` with key `k`.
pub open spec fn is_first_key(ms: Seq<(Seq<char>, Json)>, k: Seq<char>, i: int) -> bool {
    &&& 0 <= i < ms.len()
    &&& ms[i].0 == k
    &&& forall|j: int| 0 <= j < i ==> #[trigger] ms[j].0 != k
}

/// The position of the first member of `ms` with key `k` (meaningful when `has_key`).
pub open spec fn first_key(ms: Seq<(Seq<char>, Json)>, k: Seq<char>) -> int {
    choose|i: int| is_first_key(ms, k, i)
}

/// The value of the first member of `ms` with key `k`, if any.
pub open spec fn lookup(ms: Seq<(Seq<char>, Json)>, k: Seq<char>) -> Option<Json> {
    if has_key(ms, k) {
        Some(ms[first_key(ms, k)].1)
    } else {
        None
    }
}

/// `ms` with the value at key `k` set to `v`: the first member with that key
/// gets the new value in place, or a new member goes at the end.
pub open spec fn insert(ms: Seq<(Seq<char>, Json)>, k: Seq<char>, v: Json) -> Seq<(Seq<char>, Json)> {
    if has_key(ms, k) {
        ms.update(first_key(ms, k), (k, v))
    } else {
        ms.push((k, v))
    }
}

/// A key that occurs has exactly one first position, and `first_key` names it.
pub proof fn lemma_first_key(ms: Seq<(Seq<char>, Json)>, k: Seq<char>, i: int)
    requires
        is_first_key(ms, k, i),
    ensures
        has_key(ms, k),
        first_key(ms, k) == i,
{
    assert(ms[i].0 == k);
    let c = first_key(ms, k);
    assert(is_first_key(ms, k, c));
    if c < i {
        assert(ms[c].0 != k);
    } else if i < c {
        assert(ms[i].0 != k);
    }
}

/// The member `k` of an object; nothing for other values (`Value::get` with a key).
pub open spec fn get_member(j: Json, k: Seq<char>) -> Option<Json> {
    match j {
        Json::Object(ms) => lookup(ms, k),
        _ => None,
    }
}

/// The text of a string value (`Value::as_str`).
pub open spec fn as_text(j: Json) -> Option<Seq<char>> {
    match j {
        Json::Str(s) => Some(s),
        _ => None,
    }
}

/// The flag of a boolean value (`Value::as_bool`).
pub open spec fn as_flag(j: Json) -> Option<bool> {
    match j {
        Json::Bool(b) => Some(b),
        _ => None,
    }
}

/// The items of an array (`Value::as_array`).
pub open spec fn as_items(j: Json) -> Option<Seq<Json>> {
    match j {
        Json::Array(items) => Some(items),
        _ => None,
    }
}

/// The members of an object (`Value::as_object`).
pub open spec fn as_members(j: Json) -> Option<Seq<(Seq<char>, Json)>> {
    match j {
        Json::Object(ms) => Some(ms),
        _ => None,
    }
}

/// A string value.
pub open spec fn jstr(s: Seq<char>) -> Json {
    Json::Str(s)
}

/// The position of the first member with key `key`, if any.
pub fn find_key(ms: &Vec<(String, JsonValue)>, key: &str) -> (r: Option<usize>)
    ensures
        r is None <==> !has_key(members_view(ms@), key@),
        r matches Some(i) ==> is_first_key(members_view(ms@), key@, i as int) && first_key(
            members_view(ms@),
            key@,
        ) == i,
{
    proof {
        lemma_members_view(ms@);
    }
    let ghost mv = members_view(ms@);
    let n = ms.len();
    for i in 0..n
        invariant
            n == ms@.len(),
            mv == members_view(ms@),
            mv.len() == n,
            forall|j: int| 0 <= j < n ==> #[trigger] mv[j] == (ms@[j].0@, json_view(ms@[j].1)),
            forall|j: int| 0 <= j < i ==> #[trigger] mv[j].0 != key@,
    {
        if crate::text::str_eq(ms[i].0.as_str(), key) {
            proof {
                assert(mv[i as int].0 == key@);
                lemma_first_key(mv, key@, i as int);
            }
            return Some(i);
        }
        assert(mv[i as int].0 != key@);
    }
    None
}

impl JsonValue {
    /// The member `key` of an object; nothing for other values (`Value::get`).
    pub fn get(&self, key: &str) -> (r: Option<&JsonValue>)
        ensures
            r is None <==> get_member(self@, key@) is None,
            r matches Some(x) ==> get_member(self@, key@) == Some(x@),
    {
        match self {
            JsonValue::Object(ms) => {
                proof {
                    lemma_members_view(ms@);
                }
                match find_key(ms, key) {
                    Some(i) => Some(&ms[i].1),
                    None => None,
                }
            },
            _ => None,
        }
    }

    /// The text of a string value (`Value::as_str`).
    pub fn as_str(&self) -> (r: Option<&String>)
        ensures
            r is None <==> as_text(self@) is None,
            r matches Some(x) ==> as_text(self@) == Some(x@),
    {
        match self {
            JsonValue::Str(s) => Some(s),
            _ => None,
        }
    }

    /// The flag of a boolean value (`Value::as_bool`).
    pub fn as_bool(&self) -> (r: Option<bool>)
        ensures
            r == as_flag(self@),
    {
        match self {
            JsonValue::Bool(b) => Some(*b),
            _ => None,
        }
    }

    /// The items of an array (`Value::as_array`).
    pub fn as_array(&self) -> (r: Option<&Vec<JsonValue>>)
        ensures
            r is None <==> as_items(self@) is None,
            r matches Some(x) ==> as_items(self@) == Some(items_view(x@)),
    {
        match self {
            JsonValue::Array(v) => Some(v),
            _ => None,
        }
    }

    /// The members of an object (`Value::as_object`).
    pub fn as_object(&self) -> (r: Option<&Vec<(String, JsonValue)>>)
        ensures
            r is None <==> as_members(self@) is None,
            r matches Some(x) ==> as_members(self@) == Some(members_view(x@)),
    {
        match self {
            JsonValue::Object(ms) => Some(ms),
            _ => None,
        }
    }

    /// A copy of the value.
    pub fn deep_clone(&self) -> (r: JsonValue)
        ensures
            r@ == self@,
        decreases self,
    {
        match self {
            JsonValue::Null => JsonValue::Null,
            JsonValue::Bool(b) => JsonValue::Bool(*b),
            JsonValue::Number(n) => JsonValue::Number(n.clone()),
            JsonValue::Str(s) => JsonValue::Str(s.clone()),
            JsonValue::Array(items) => {
                let mut r: Vec<JsonValue> = Vec::new();
                let n = items.len();
                for i in 0..n
                    invariant
                        n == items@.len(),
                        *self == JsonValue::Array(*items),
                        items_view(r@) == items_view(items@.take(i as int)),
                {
                    assert(decreases_to!(*self => self->Array_0));
                    assert(decreases_to!(*items => items@));
                    assert(decreases_to!(items@ => items@[i as int]));
                    let x = items[i].deep_clone();
                    proof {
                        lemma_items_push(r@, x);
                        lemma_items_push(items@.take(i as int), items@[i as int]);
                        assert(items@.take(i + 1) =~= items@.take(i as int).push(items@[i as int]));
                    }
                    r.push(x);
                }
                assert(items@.take(n as int) =~= items@);
                JsonValue::Array(r)
            },
            JsonValue::Object(ms) => {
                let mut r: Vec<(String, JsonValue)> = Vec::new();
                let n = ms.len();
                for i in 0..n
                    invariant
                        n == ms@.len(),
                        *self == JsonValue::Object(*ms),
                        members_view(r@) == members_view(ms@.take(i as int)),
                {
                    assert(decreases_to!(*self => self->Object_0));
                    assert(decreases_to!(*ms => ms@));
                    assert(decreases_to!(ms@ => ms@[i as int]));
                    assert(decreases_to!(ms@[i as int] => ms@[i as int].1));
                    let x = ms[i].1.deep_clone();
                    let m = (ms[i].0.clone(), x);
                    proof {
                        lemma_members_push(r@, m);
                        lemma_members_push(ms@.take(i as int), ms@[i as int]);
                        assert(ms@.take(i + 1) =~= ms@.take(i as int).push(ms@[i as int]));
                    }
                    r.push(m);
                }
                assert(ms@.take(n as int) =~= ms@);
                JsonValue::Object(r)
            },
        }
    }
}

/// Appends a member with key `key` and value `v`.
pub fn push_member(ms: &mut Vec<(String, JsonValue)>, key: &str, v: JsonValue)
    ensures
        members_view(final(ms)@) == members_view(old(ms)@).push((key@, v@)),
{
    let m = (crate::text::owned(key), v);
    proof {
        lemma_members_push(old(ms)@, m);
    }
    ms.push(m);
}

/// Sets the value at key `key` to `v` (`Map::insert`, or `value[key] = v` on an object).
pub fn insert_member(ms: &mut Vec<(String, JsonValue)>, key: &str, v: JsonValue)
    ensures
        members_view(final(ms)@) == insert(members_view(old(ms)@), key@, v@),
{
    proof {
        lemma_members_view(ms@);
    }
    match find_key(ms, key) {
        Some(i) => {
            let ghost before = ms@;
            let m = (crate::text::owned(key), v);
            ms.set(i, m);
            proof {
                lemma_members_view(before);
                lemma_members_view(ms@);
                assert(members_view(ms@) =~= members_view(before).update(i as int, (key@, v@)));
            }
        },
        None => {
            push_member(ms, key, v);
        },
    }
}

/// A string value.
pub fn text_value(s: &str) -> (r: JsonValue)
    ensures
        r@ == Json::Str(s@),
{
    JsonValue::Str(crate::text::owned(s))
}

/// After setting key `k`, looking `k` up gives the new value.
pub proof fn lemma_lookup_insert_same(ms: Seq<(Seq<char>, Json)>, k: Seq<char>, v: Json)
    ensures
        lookup(insert(ms, k, v), k) == Some(v),
{
    if has_key(ms, k) {
        let f = first_key(ms, k);
        let witness = choose|i: int| 0 <= i < ms.len() && #[trigger] ms[i].0 == k;
        lemma_has_first(ms, k, witness);
        let u = ms.update(f, (k, v));
        assert(is_first_key(u, k, f));
        lemma_first_key(u, k, f);
    } else {
        let u = ms.push((k, v));
        assert(is_first_key(u, k, ms.len() as int));
        lemma_first_key(u, k, ms.len() as int);
    }
}

/// A key that occurs has a first position.
pub proof fn lemma_has_first(ms: Seq<(Seq<char>, Json)>, k: Seq<char>, i: int)
    requires
        0 <= i < ms.len(),
        ms[i].0 == k,
    ensures
        is_first_key(ms, k, first_key(ms, k)),
    decreases i,
{
    if exists|j: int| 0 <= j < i && #[trigger] ms[j].0 == k {
        let j = choose|j: int| 0 <= j < i && #[trigger] ms[j].0 == k;
        lemma_has_first(ms, k, j);
    } else {
        assert(is_first_key(ms, k, i));
    }
}

/// Setting key `k` leaves the other keys' values as they were.
pub proof fn lemma_lookup_insert_other(
    ms: Seq<(Seq<char>, Json)>,
    k: Seq<char>,
    v: Json,
    k2: Seq<char>,
)
    requires
        k2 != k,
    ensures
        lookup(insert(ms, k, v), k2) == lookup(ms, k2),
{
    let u = insert(ms, k, v);
    if has_key(ms, k) {
        let f = first_key(ms, k);
        let w = choose|i: int| 0 <= i < ms.len() && #[trigger] ms[i].0 == k;
        lemma_has_first(ms, k, w);
        assert(u == ms.update(f, (k, v)));
    }
    assert forall|i: int| 0 <= i < ms.len() && #[trigger] ms[i].0 == k2 implies u[i] == ms[i] by {}
    if has_key(ms, k2) {
        let w2 = choose|i: int| 0 <= i < ms.len() && #[trigger] ms[i].0 == k2;
        lemma_has_first(ms, k2, w2);
        let g = first_key(ms, k2);
        assert(u[g] == ms[g]);
        assert forall|j: int| 0 <= j < g implies #[trigger] u[j].0 != k2 by {
            if has_key(ms, k) && j == first_key(ms, k) {
            } else {
                assert(u[j] == ms[j]);
            }
        }
        assert(is_first_key(u, k2, g));
        lemma_first_key(u, k2, g);
    } else {
        assert forall|i: int| 0 <= i < u.len() implies #[trigger] u[i].0 != k2 by {
            if i < ms.len() {
                if has_key(ms, k) && i == first_key(ms, k) {
                } else {
                    assert(u[i] == ms[i]);
                }
            }
        }
    }
}

/// Whether two values are the same JSON document (members compared in order).
pub fn json_eq(a: &JsonValue, b: &JsonValue) -> (r: bool)
    ensures
        r == (a@ == b@),
    decreases a,
{
    match (a, b) {
        (JsonValue::Null, JsonValue::Null) => true,
        (JsonValue::Bool(x), JsonValue::Bool(y)) => *x == *y,
        (JsonValue::Number(x), JsonValue::Number(y)) => crate::text::str_eq(x.as_str(), y.as_str()),
        (JsonValue::Str(x), JsonValue::Str(y)) => crate::text::str_eq(x.as_str(), y.as_str()),
        (JsonValue::Array(xs), JsonValue::Array(ys)) => {
            proof {
                lemma_items_view(xs@);
                lemma_items_view(ys@);
            }
            if xs.len() != ys.len() {
                assert(items_view(xs@).len() != items_view(ys@).len());
                return false;
            }
            let n = xs.len();
            for i in 0..n
                invariant
                    n == xs@.len(),
                    n == ys@.len(),
                    *a == JsonValue::Array(*xs),
                    *b == JsonValue::Array(*ys),
                    items_view(xs@).len() == n,
                    items_view(ys@).len() == n,
                    forall|j: int| 0 <= j < n ==> #[trigger] items_view(xs@)[j] == xs@[j]@,
                    forall|j: int| 0 <= j < n ==> #[trigger] items_view(ys@)[j] == ys@[j]@,
                    forall|j: int| 0 <= j < i ==> xs@[j]@ == ys@[j]@,
            {
                assert(decreases_to!(*a => a->Array_0));
                assert(decreases_to!(*xs => xs@));
                assert(decreases_to!(xs@ => xs@[i as int]));
                if !json_eq(&xs[i], &ys[i]) {
                    assert(items_view(xs@)[i as int] != items_view(ys@)[i as int]);
                    return false;
                }
            }
            assert(items_view(xs@) =~= items_view(ys@));
            true
        },
        (JsonValue::Object(xs), JsonValue::Object(ys)) => {
            proof {
                lemma_members_view(xs@);
                lemma_members_view(ys@);
            }
            if xs.len() != ys.len() {
                assert(members_view(xs@).len() != members_view(ys@).len());
                return false;
            }
            let n = xs.len();
            for i in 0..n
                invariant
                    n == xs@.len(),
                    n == ys@.len(),
                    *a == JsonValue::Object(*xs),
                    *b == JsonValue::Object(*ys),
                    members_view(xs@).len() == n,
                    members_view(ys@).len() == n,
                    forall|j: int|
                        0 <= j < n ==> #[trigger] members_view(xs@)[j] == (xs@[j].0@, xs@[j].1@),
                    forall|j: int|
                        0 <= j < n ==> #[trigger] members_view(ys@)[j] == (ys@[j].0@, ys@[j].1@),
                    forall|j: int| 0 <= j < i ==> members_view(xs@)[j] == members_view(ys@)[j],
            {
                assert(decreases_to!(*a => a->Object_0));
                assert(decreases_to!(*xs => xs@));
                assert(decreases_to!(xs@ => xs@[i as int]));
                assert(decreases_to!(xs@[i as int] => xs@[i as int].1));
                if !crate::text::str_eq(xs[i].0.as_str(), ys[i].0.as_str()) {
                    assert(members_view(xs@)[i as int] != members_view(ys@)[i as int]);
                    return false;
                }
                if !json_eq(&xs[i].1, &ys[i].1) {
                    assert(members_view(xs@)[i as int] != members_view(ys@)[i as int]);
                    return false;
                }
            }
            assert(members_view(xs@) =~= members_view(ys@));
            true
        },
        _ => false,
    }
}

} // verus!
