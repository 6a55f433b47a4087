//! JSON documents as the API layer sees them.
//!
//! `JsonValue` is the executable document; `Json` is its mathematical
//! meaning. Numbers are kept as their canonical JSON text, so two numbers
//! are equal exactly when their texts are. An object is the map from keys
//! to values that its members describe; when a key is repeated, the last
//! member wins, as it does when a JSON text is read into a map.
use crate::text::chars_of;
use crate::text::chars_eq;
use vstd::prelude::*;

verus! {

/// An executable JSON document.
#[derive(Debug)]
pub enum JsonValue {
    Null,
    Bool(bool),
    /// A number, by its canonical JSON text.
    Number(String),
    String(String),
    Array(Vec<JsonValue>),
    /// Members in document order.
    Object(Vec<(String, JsonValue)>),
}

/// The meaning of a JSON document.
pub enum Json {
    Null,
    Bool(bool),
    Number(Seq<char>),
    Str(Seq<char>),
    Array(Seq<Json>),
    Object(Map<Seq<char>, Json>),
}

/// The map described by a list of members; a later member overrides an
/// earlier one with the same key.
pub open spec fn entries_map(s: Seq<(Seq<char>, Json)>) -> Map<Seq<char>, Json>
    decreases s.len(),
{
    if s.len() == 0 {
        Map::empty()
    } else {
        entries_map(s.drop_last()).insert(s.last().0, s.last().1)
    }
}

impl JsonValue {
    /// The meaning of the document.
    pub open spec fn deep(&self) -> Json
        decreases self,
    {
        match self {
            JsonValue::Null => Json::Null,
            JsonValue::Bool(b) => Json::Bool(*b),
            JsonValue::Number(n) => Json::Number(n@),
            JsonValue::String(s) => Json::Str(s@),
            JsonValue::Array(v) => Json::Array(deep_seq(v@)),
            JsonValue::Object(m) => Json::Object(entries_map(members(m@))),
        }
    }
}

impl View for JsonValue {
    type V = Json;

    /// A document is viewed as its meaning.
    open spec fn view(&self) -> Json {
        self.deep()
    }
}

/// The meanings of a sequence of documents.
pub open spec fn deep_seq(s: Seq<JsonValue>) -> Seq<Json>
    decreases s,
{
    if s.len() == 0 {
        Seq::empty()
    } else {
        deep_seq(s.subrange(0, s.len() - 1)).push(s[s.len() - 1].deep())
    }
}

/// The members of an object, by meaning.
pub open spec fn members(s: Seq<(String, JsonValue)>) -> Seq<(Seq<char>, Json)>
    decreases s,
{
    if s.len() == 0 {
        Seq::empty()
    } else {
        members(s.subrange(0, s.len() - 1)).push((s[s.len() - 1].0@, s[s.len() - 1].1.deep()))
    }
}

pub proof fn lemma_deep_seq(s: Seq<JsonValue>)
    ensures
        deep_seq(s).len() == s.len(),
        forall|i: int| 0 <= i < s.len() ==> #[trigger] deep_seq(s)[i] == s[i].deep(),
    decreases s.len(),
{
    if s.len() > 0 {
        let p = s.subrange(0, s.len() - 1);
        lemma_deep_seq(p);
        assert forall|i: int| 0 <= i < s.len() implies #[trigger] deep_seq(s)[i] == s[i].deep() by {
            if i < s.len() - 1 {
                assert(p[i] == s[i]);
            }
        }
    }
}

pub proof fn lemma_members(s: Seq<(String, JsonValue)>)
    ensures
        members(s).len() == s.len(),
        forall|i: int|
            0 <= i < s.len() ==> #[trigger] members(s)[i] == (s[i].0@, s[i].1.deep()),
    decreases s.len(),
{
    if s.len() > 0 {
        let p = s.subrange(0, s.len() - 1);
        lemma_members(p);
        assert forall|i: int| 0 <= i < s.len() implies #[trigger] members(s)[i] == (
            s[i].0@,
            s[i].1.deep(),
        ) by {
            if i < s.len() - 1 {
                assert(p[i] == s[i]);
            }
        }
    }
}

/// The map an object's members describe.
pub open spec fn object_map(m: Seq<(String, JsonValue)>) -> Map<Seq<char>, Json> {
    entries_map(members(m))
}

/// The value of key `k` in a document, as `serde_json::Value::get` gives
/// it: `None` unless the document is an object holding `k`.
pub open spec fn json_get(j: Json, k: Seq<char>) -> Option<Json> {
    match j {
        Json::Object(m) => if m.dom().contains(k) {
            Some(m[k])
        } else {
            None
        },
        _ => None,
    }
}

/// `i` is the last member of `m` with key `k`.
pub open spec fn last_with_key(m: Seq<(String, JsonValue)>, k: Seq<char>, i: int) -> bool {
    &&& 0 <= i < m.len()
    &&& m[i].0@ == k
    &&& forall|j: int| i < j < m.len() ==> (#[trigger] m[j]).0@ != k
}

pub proof fn lemma_array_deep(v: Vec<JsonValue>)
    ensures
        JsonValue::Array(v).deep() == Json::Array(deep_seq(v@)),
{
}

pub proof fn lemma_object_deep(m: Vec<(String, JsonValue)>)
    ensures
        JsonValue::Object(m).deep() == Json::Object(object_map(m@)),
{
}

/// A key is in the map of a member list exactly when some member has it,
/// and its value is that of the last such member.
pub proof fn lemma_entries_map(s: Seq<(Seq<char>, Json)>, k: Seq<char>)
    ensures
        entries_map(s).dom().contains(k) <==> exists|i: int| 0 <= i < s.len() && s[i].0 == k,
        forall|i: int|
            0 <= i < s.len() && s[i].0 == k && (forall|j: int| i < j < s.len() ==> s[j].0 != k)
                ==> entries_map(s)[k] == s[i].1,
    decreases s.len(),
{
    if s.len() > 0 {
        let p = s.drop_last();
        lemma_entries_map(p, k);
        if s.last().0 != k {
            assert forall|i: int| 0 <= i < s.len() && s[i].0 == k implies 0 <= i < p.len()
                && p[i].0 == k by {
                assert(i != s.len() - 1);
            }
            assert forall|i: int| 0 <= i < p.len() && p[i].0 == k implies 0 <= i < s.len()
                && s[i].0 == k by {}
        } else {
            assert(s[s.len() - 1].0 == k);
            assert forall|i: int|
                0 <= i < s.len() && s[i].0 == k && (forall|j: int| i < j < s.len() ==> s[j].0 != k)
                implies entries_map(s)[k] == s[i].1 by {
                if i < s.len() - 1 {
                    assert(s[s.len() - 1].0 != k);
                }
            }
        }
    }
}

/// The last member of `m` with a key equal to `k`, if any.
pub fn find_last_key(m: &Vec<(String, JsonValue)>, k: &Vec<char>) -> (r: Option<usize>)
    ensures
        match r {
            Some(i) => last_with_key(m@, k@, i as int),
            None => forall|j: int| 0 <= j < m@.len() ==> (#[trigger] m@[j]).0@ != k@,
        },
{
    let mut i = m.len();
    while i > 0
        invariant
            i <= m@.len(),
            forall|j: int| i <= j < m@.len() ==> (#[trigger] m@[j]).0@ != k@,
        decreases i,
    {
        let key_chars = chars_of(m[i - 1].0.as_str());
        if chars_eq(&key_chars, k) {
            return Some(i - 1);
        }
        i = i - 1;
    }
    None
}

pub proof fn lemma_find_meaning(m: Seq<(String, JsonValue)>, k: Seq<char>, r: Option<usize>)
    requires
        match r {
            Some(i) => last_with_key(m, k, i as int),
            None => forall|j: int| 0 <= j < m.len() ==> (#[trigger] m[j]).0@ != k,
        },
    ensures
        match r {
            Some(i) => object_map(m).dom().contains(k) && object_map(m)[k] == m[i as int].1.deep(),
            None => !object_map(m).dom().contains(k),
        },
{
    let s = members(m);
    lemma_members(m);
    lemma_entries_map(s, k);
    match r {
        Some(i) => {
            assert(s[i as int].0 == k);
            assert forall|j: int| i < j < s.len() implies s[j].0 != k by {
                assert(m[j].0@ != k);
            }
        },
        None => {
            assert forall|j: int| 0 <= j < s.len() implies s[j].0 != k by {
                assert(m[j].0@ != k);
            }
        },
    }
}

impl JsonValue {
    /// `serde_json::Value::get` with a string key.
    pub fn get(&self, key: &str) -> (r: Option<&JsonValue>)
        ensures
            match r {
                Some(v) => json_get(self.deep(), key@) == Some(v.deep()),
                None => json_get(self.deep(), key@) is None,
            },
    {
        match self {
            JsonValue::Object(m) => {
                let k = chars_of(key);
                let r = find_last_key(m, &k);
                proof {
                    lemma_object_deep(*m);
                    lemma_find_meaning(m@, key@, r);
                }
                match r {
                    Some(i) => Some(&m[i].1),
                    None => None,
                }
            },
            _ => None,
        }
    }

    /// `serde_json::Value::as_str`.
    pub fn as_str(&self) -> (r: Option<&String>)
        ensures
            match r {
                Some(s) => self.deep() == Json::Str(s@),
                None => !(self.deep() is Str),
            },
    {
        match self {
            JsonValue::String(s) => Some(s),
            _ => None,
        }
    }

    /// `serde_json::Value::is_null`.
    pub fn is_null(&self) -> (b: bool)
        ensures
            b == (self.deep() is Null),
    {
        match self {
            JsonValue::Null => true,
            _ => false,
        }
    }

    /// `serde_json::Value::is_object`.
    pub fn is_object(&self) -> (b: bool)
        ensures
            b == (self.deep() is Object),
    {
        match self {
            JsonValue::Object(_) => true,
            _ => false,
        }
    }
}

/// Two member lists describe the same map when every key of each is in
/// the other with the same value.
pub proof fn lemma_object_maps_equal(x: Seq<(String, JsonValue)>, y: Seq<(String, JsonValue)>)
    requires
        forall|t: int|
            0 <= t < x.len() ==> #[trigger] object_map(y).dom().contains(x[t].0@) && object_map(
                x,
            )[x[t].0@] == object_map(y)[x[t].0@],
        forall|t: int| 0 <= t < y.len() ==> #[trigger] object_map(x).dom().contains(y[t].0@),
    ensures
        object_map(x) == object_map(y),
{
    let mx = object_map(x);
    let my = object_map(y);
    lemma_members(x);
    lemma_members(y);
    assert forall|key: Seq<char>| #[trigger] mx.dom().contains(key) == my.dom().contains(key) by {
        lemma_entries_map(members(x), key);
        lemma_entries_map(members(y), key);
        if mx.dom().contains(key) {
            let t = choose|t: int| 0 <= t < members(x).len() && members(x)[t].0 == key;
            assert(x[t].0@ == key);
        }
        if my.dom().contains(key) {
            let t = choose|t: int| 0 <= t < members(y).len() && members(y)[t].0 == key;
            assert(y[t].0@ == key);
        }
    }
    assert forall|key: Seq<char>| #[trigger] mx.dom().contains(key) implies mx[key] == my[key] by {
        lemma_entries_map(members(x), key);
        let t = choose|t: int| 0 <= t < members(x).len() && members(x)[t].0 == key;
        assert(x[t].0@ == key);
    }
    assert(mx.dom() =~= my.dom());
    assert(mx =~= my);
}

/// A member's key is a key of its object's map.
pub proof fn lemma_member_key_in_map(x: Seq<(String, JsonValue)>, t: int)
    requires
        0 <= t < x.len(),
    ensures
        object_map(x).dom().contains(x[t].0@),
{
    lemma_members(x);
    lemma_entries_map(members(x), x[t].0@);
    assert(members(x)[t].0 == x[t].0@);
}

/// Whether two documents have the same meaning (`serde_json::Value`'s
/// `==`).
pub fn json_eq(a: &JsonValue, b: &JsonValue) -> (r: bool)
    ensures
        r == (a.deep() == b.deep()),
    decreases a,
{
    match (a, b) {
        (JsonValue::Null, JsonValue::Null) => true,
        (JsonValue::Bool(x), JsonValue::Bool(y)) => *x == *y,
        (JsonValue::Number(x), JsonValue::Number(y)) => *x == *y,
        (JsonValue::String(x), JsonValue::String(y)) => *x == *y,
        (JsonValue::Array(x), JsonValue::Array(y)) => {
            proof {
                lemma_deep_seq(x@);
                lemma_deep_seq(y@);
                lemma_array_deep(*x);
                lemma_array_deep(*y);
            }
            if x.len() != y.len() {
                return false;
            }
            let n = x.len();
            let mut i: usize = 0;
            while i < n
                invariant
                    i <= n == x@.len() == y@.len(),
                    *a == JsonValue::Array(*x),
                    a.deep() == Json::Array(deep_seq(x@)),
                    b.deep() == Json::Array(deep_seq(y@)),
                    deep_seq(x@).len() == x@.len(),
                    deep_seq(y@).len() == y@.len(),
                    forall|j: int| 0 <= j < x@.len() ==> #[trigger] deep_seq(x@)[j] == x@[j].deep(),
                    forall|j: int| 0 <= j < y@.len() ==> #[trigger] deep_seq(y@)[j] == y@[j].deep(),
                    forall|j: int| 0 <= j < i ==> (#[trigger] x@[j]).deep() == y@[j].deep(),
                decreases n - i,
            {
                proof {
                    assert(decreases_to!(*x => x@));
                    assert(decreases_to!(x@ => x@[i as int]));
                }
                if !json_eq(&x[i], &y[i]) {
                    assert(deep_seq(x@)[i as int] != deep_seq(y@)[i as int]);
                    return false;
                }
                i = i + 1;
            }
            assert(deep_seq(x@) =~= deep_seq(y@));
            true
        },
        (JsonValue::Object(x), JsonValue::Object(y)) => {
            proof {
                lemma_object_deep(*x);
                lemma_object_deep(*y);
            }
            // Every key of `x` must be in `y` with an equal value.
            let n = x.len();
            let mut i: usize = 0;
            while i < n
                invariant
                    i <= n == x@.len(),
                    *a == JsonValue::Object(*x),
                    a.deep() == Json::Object(object_map(x@)),
                    b.deep() == Json::Object(object_map(y@)),
                    forall|t: int|
                        #![trigger x@[t]]
                        0 <= t < i ==> object_map(y@).dom().contains(x@[t].0@) && object_map(
                            x@,
                        )[x@[t].0@] == object_map(y@)[x@[t].0@],
                decreases n - i,
            {
                let k = chars_of(x[i].0.as_str());
                let ix = find_last_key(x, &k);
                let iy = find_last_key(y, &k);
                proof {
                    lemma_find_meaning(x@, k@, ix);
                    lemma_find_meaning(y@, k@, iy);
                    lemma_member_key_in_map(x@, i as int);
                    assert(k@ == x@[i as int].0@);
                }
                match (ix, iy) {
                    (Some(p), Some(q)) => {
                        proof {
                            assert(decreases_to!(*x => x@));
                            assert(decreases_to!(x@ => x@[p as int]));
                        }
                        if !json_eq(&x[p].1, &y[q].1) {
                            return false;
                        }
                        assert(object_map(x@)[k@] == x@[p as int].1.deep());
                        assert(object_map(y@)[k@] == y@[q as int].1.deep());
                        assert(object_map(y@).dom().contains(k@));
                        assert(object_map(x@)[x@[i as int].0@] == object_map(y@)[x@[i as int].0@]);
                    },
                    _ => {
                        return false;
                    },
                }
                i = i + 1;
            }
            // Every key of `y` must be in `x`.
            let m2 = y.len();
            let mut j: usize = 0;
            while j < m2
                invariant
                    j <= m2 == y@.len(),
                    a.deep() == Json::Object(object_map(x@)),
                    b.deep() == Json::Object(object_map(y@)),
                    forall|t: int| 0 <= t < j ==> #[trigger] object_map(x@).dom().contains(y@[t].0@),
                decreases m2 - j,
            {
                let k = chars_of(y[j].0.as_str());
                let ix = find_last_key(x, &k);
                proof {
                    lemma_find_meaning(x@, k@, ix);
                }
                if ix.is_none() {
                    proof {
                        lemma_member_key_in_map(y@, j as int);
                    }
                    return false;
                }
                j = j + 1;
            }
            proof {
                lemma_object_maps_equal(x@, y@);
            }
            true
        },
        _ => false,
    }
}

/// A copy of `v` with the same meaning.
pub fn json_clone(v: &JsonValue) -> (r: JsonValue)
    ensures
        r.deep() == v.deep(),
    decreases v,
{
    match v {
        JsonValue::Null => JsonValue::Null,
        JsonValue::Bool(b) => JsonValue::Bool(*b),
        JsonValue::Number(n) => JsonValue::Number(n.clone()),
        JsonValue::String(s) => JsonValue::String(s.clone()),
        JsonValue::Array(x) => {
            let mut out: Vec<JsonValue> = Vec::new();
            let mut i: usize = 0;
            proof {
                lemma_deep_seq(x@);
                lemma_array_deep(*x);
            }
            while i < x.len()
                invariant
                    i <= x@.len(),
                    *v == JsonValue::Array(*x),
                    v.deep() == Json::Array(deep_seq(x@)),
                    out@.len() == i,
                    forall|j: int| 0 <= j < i ==> (#[trigger] out@[j]).deep() == x@[j].deep(),
                decreases x@.len() - i,
            {
                proof {
                    assert(decreases_to!(*x => x@));
                    assert(decreases_to!(x@ => x@[i as int]));
                }
                let c = json_clone(&x[i]);
                out.push(c);
                i = i + 1;
            }
            proof {
                lemma_deep_seq(out@);
                assert(deep_seq(out@) =~= deep_seq(x@));
            }
            JsonValue::Array(out)
        },
        JsonValue::Object(m) => {
            let mut out: Vec<(String, JsonValue)> = Vec::new();
            let mut i: usize = 0;
            proof {
                lemma_object_deep(*m);
            }
            while i < m.len()
                invariant
                    i <= m@.len(),
                    *v == JsonValue::Object(*m),
                    v.deep() == Json::Object(object_map(m@)),
                    out@.len() == i,
                    forall|j: int|
                        0 <= j < i ==> (#[trigger] out@[j]).0@ == m@[j].0@ && out@[j].1.deep()
                            == m@[j].1.deep(),
                decreases m@.len() - i,
            {
                proof {
                    assert(decreases_to!(*m => m@));
                    assert(decreases_to!(m@ => m@[i as int]));
                    assert(decreases_to!(m@[i as int] => m@[i as int].1));
                }
                let c = json_clone(&m[i].1);
                let k = m[i].0.clone();
                out.push((k, c));
                i = i + 1;
            }
            proof {
                lemma_members(out@);
                lemma_members(m@);
                assert(members(out@) =~= members(m@));
            }
            JsonValue::Object(out)
        },
    }
}

} // verus!
