//! Device shadow: the delta between desired and reported properties.
//!
//! `desired` holds bare property values; `reported` follows the
//! `property_latest.properties` shape, where each property is wrapped as
//! `{"value": v, "time": ts}`. A desired key is in the delta when its value
//! is not `null` (the delete sentinel of a merge patch) and the reported
//! entry is missing, or is not an object, or its `value` differs. The delta
//! holds the bare desired values; it is empty exactly when the device has
//! converged.
use crate::json::find_last_key;
use crate::json::json_clone;
use crate::json::json_eq;
use crate::json::json_get;
use crate::json::lemma_entries_map;
use crate::json::lemma_find_meaning;
use crate::json::lemma_members;
use crate::json::members;
use crate::json::object_map;
use crate::json::entries_map;
use crate::json::Json;
use crate::json::JsonValue;
use crate::text::chars_of;
use vstd::prelude::*;

verus! {

/// The reported snapshot already carries `d` as the value of key `k`.
pub open spec fn converged(reported: Map<Seq<char>, Json>, k: Seq<char>, d: Json) -> bool {
    reported.dom().contains(k) && json_get(reported[k], "value"@) == Some(d)
}

/// Key `k` is still to be pushed to the device.
pub open spec fn in_delta(
    desired: Map<Seq<char>, Json>,
    reported: Map<Seq<char>, Json>,
    k: Seq<char>,
) -> bool {
    &&& desired.dom().contains(k)
    &&& desired[k] != Json::Null
    &&& !converged(reported, k, desired[k])
}

/// The delta: the desired values of the keys still to be pushed.
pub open spec fn delta_of(
    desired: Map<Seq<char>, Json>,
    reported: Map<Seq<char>, Json>,
) -> Map<Seq<char>, Json> {
    Map::new(|k: Seq<char>| in_delta(desired, reported, k), |k: Seq<char>| desired[k])
}

/// No two members share a key.
pub open spec fn distinct_keys(m: Seq<(String, JsonValue)>) -> bool {
    forall|a: int, b: int| 0 <= a < b < m.len() ==> (#[trigger] m[a]).0@ != (#[trigger] m[b]).0@
}

/// Key `k` occurs in `m` and not at any index from `i` on.
spec fn settled(m: Seq<(String, JsonValue)>, k: Seq<char>, i: int) -> bool {
    &&& object_map(m).dom().contains(k)
    &&& forall|t: int| i <= t < m.len() ==> (#[trigger] m[t]).0@ != k
}

proof fn lemma_object_map_push(s: Seq<(String, JsonValue)>, e: (String, JsonValue))
    ensures
        object_map(s.push(e)) == object_map(s).insert(e.0@, e.1.deep()),
{
    let t = s.push(e);
    assert(t.subrange(0, t.len() - 1) =~= s);
    assert(t[t.len() - 1] == e);
    assert(members(t) == members(s).push((e.0@, e.1.deep())));
    let ms = members(s).push((e.0@, e.1.deep()));
    assert(ms.drop_last() =~= members(s));
    assert(entries_map(ms) == entries_map(members(s)).insert(e.0@, e.1.deep()));
}

/// Computes the delta between a desired document and a reported snapshot.
pub fn compute_delta(
    desired: &Vec<(String, JsonValue)>,
    reported: &Vec<(String, JsonValue)>,
) -> (delta: Vec<(String, JsonValue)>)
    ensures
        object_map(delta@) == delta_of(object_map(desired@), object_map(reported@)),
        distinct_keys(delta@),
{
    let ghost dm = object_map(desired@);
    let ghost rm = object_map(reported@);
    let mut out: Vec<(String, JsonValue)> = Vec::new();
    let n = desired.len();
    let mut i: usize = 0;
    proof {
        assert(object_map(out@) =~= Map::new(
            |k: Seq<char>| in_delta(dm, rm, k) && settled(desired@, k, 0),
            |k: Seq<char>| dm[k],
        )) by {
            assert forall|k: Seq<char>| !(#[trigger] settled(desired@, k, 0)) by {
                if settled(desired@, k, 0) {
                    lemma_members(desired@);
                    lemma_entries_map(members(desired@), k);
                    let t = choose|t: int|
                        0 <= t < members(desired@).len() && members(desired@)[t].0 == k;
                    assert(desired@[t].0@ == k);
                }
            }
        }
    }
    while i < n
        invariant
            i <= n == desired@.len(),
            dm == object_map(desired@),
            rm == object_map(reported@),
            object_map(out@) == Map::new(
                |k: Seq<char>| in_delta(dm, rm, k) && settled(desired@, k, i as int),
                |k: Seq<char>| dm[k],
            ),
            distinct_keys(out@),
            forall|a: int| 0 <= a < out@.len() ==> settled(desired@, (#[trigger] out@[a]).0@, i as int),
        decreases n - i,
    {
        let k = chars_of(desired[i].0.as_str());
        let li = find_last_key(desired, &k);
        proof {
            lemma_find_meaning(desired@, k@, li);
        }
        let ghost old_out = out@;
        let is_last = match li {
            Some(j) => j == i,
            None => false,
        };
        if is_last {
            let dv = &desired[i].1;
            if !dv.is_null() {
                let ri = find_last_key(reported, &k);
                proof {
                    lemma_find_meaning(reported@, k@, ri);
                }
                let diverged = match ri {
                    None => true,
                    Some(j) => match reported[j].1.get("value") {
                        None => true,
                        Some(rv) => !json_eq(rv, dv),
                    },
                };
                if diverged {
                    let key = desired[i].0.clone();
                    let val = json_clone(dv);
                    out.push((key, val));
                    proof {
                        lemma_object_map_push(old_out, out@[out@.len() - 1]);
                    }
                }
            }
        }
        proof {
            let new_map = Map::new(
                |kk: Seq<char>| in_delta(dm, rm, kk) && settled(desired@, kk, i + 1),
                |kk: Seq<char>| dm[kk],
            );
            assert forall|kk: Seq<char>|
                settled(desired@, kk, i + 1) == (settled(desired@, kk, i as int) || (is_last
                    && kk == k@)) by {
                if kk == k@ {
                    if !is_last {
                        if let Some(j) = li {
                            assert(desired@[j as int].0@ == kk);
                        }
                    }
                } else {
                    assert(desired@[i as int].0@ != kk);
                }
            }
            assert forall|a: int| 0 <= a < out@.len() implies settled(
                desired@,
                (#[trigger] out@[a]).0@,
                i + 1,
            ) by {
                if a < old_out.len() {
                    assert(out@[a] == old_out[a]);
                }
            }
            if out@.len() > old_out.len() {
                assert forall|a: int, b: int| 0 <= a < b < out@.len() implies (#[trigger] out@[a]).0@
                    != (#[trigger] out@[b]).0@ by {
                    if b == out@.len() - 1 {
                        assert(out@[a] == old_out[a]);
                        assert(settled(desired@, old_out[a].0@, i as int));
                        assert(out@[b].0@ == k@);
                    } else {
                        assert(out@[a] == old_out[a]);
                        assert(out@[b] == old_out[b]);
                    }
                }
            }
            assert(object_map(out@) =~= new_map);
        }
        i = i + 1;
    }
    proof {
        assert forall|k: Seq<char>| #[trigger] dm.dom().contains(k) == settled(desired@, k, n as int) by {
        }
        assert(object_map(out@) =~= delta_of(dm, rm));
    }
    out
}

/// The delta is empty exactly when every non-null desired value has been
/// reported: an empty delta means the device has converged.
pub proof fn law_delta_empty_iff_converged(
    desired: Map<Seq<char>, Json>,
    reported: Map<Seq<char>, Json>,
)
    ensures
        (delta_of(desired, reported) == Map::<Seq<char>, Json>::empty()) <==> (forall|k: Seq<char>|
            #[trigger] desired.dom().contains(k) && desired[k] != Json::Null ==> converged(
                reported,
                k,
                desired[k],
            )),
{
    let d = delta_of(desired, reported);
    if d == Map::<Seq<char>, Json>::empty() {
        assert forall|k: Seq<char>| #[trigger] desired.dom().contains(k) && desired[k]
            != Json::Null implies converged(reported, k, desired[k]) by {
            assert(!d.dom().contains(k));
        }
    }
    if forall|k: Seq<char>| #[trigger] desired.dom().contains(k) && desired[k] != Json::Null
        ==> converged(reported, k, desired[k]) {
        assert(d =~= Map::<Seq<char>, Json>::empty());
    }
}

/// Every delta entry is a desired key, carries the bare desired value, and
/// is never `null`.
pub proof fn law_delta_entries_are_desired(
    desired: Map<Seq<char>, Json>,
    reported: Map<Seq<char>, Json>,
    k: Seq<char>,
)
    requires
        delta_of(desired, reported).dom().contains(k),
    ensures
        desired.dom().contains(k),
        delta_of(desired, reported)[k] == desired[k],
        delta_of(desired, reported)[k] != Json::Null,
{
}

/// Against an empty snapshot the delta is the whole desired document
/// without its `null` entries.
pub proof fn law_delta_against_nothing_reported(desired: Map<Seq<char>, Json>)
    ensures
        delta_of(desired, Map::empty()) == desired.restrict(
            desired.dom().filter(|k: Seq<char>| desired[k] != Json::Null),
        ),
{
    assert(delta_of(desired, Map::empty()) =~= desired.restrict(
        desired.dom().filter(|k: Seq<char>| desired[k] != Json::Null),
    ));
}

/// A report never adds keys to the delta: every key still to be pushed
/// would also be pushed against an empty snapshot.
pub proof fn law_delta_bounded_by_desired(
    desired: Map<Seq<char>, Json>,
    reported: Map<Seq<char>, Json>,
)
    ensures
        delta_of(desired, reported).dom().subset_of(delta_of(desired, Map::empty()).dom()),
{
}

/// The reported entry a device produces when it applies value `v`.
pub open spec fn reported_entry(v: Json) -> Json {
    Json::Object(map![seq!['v', 'a', 'l', 'u', 'e'] => v])
}

/// The snapshot after the device applies every value of `delta`.
pub open spec fn apply_report(
    reported: Map<Seq<char>, Json>,
    delta: Map<Seq<char>, Json>,
) -> Map<Seq<char>, Json> {
    Map::new(
        |k: Seq<char>| reported.dom().contains(k) || delta.dom().contains(k),
        |k: Seq<char>|
            if delta.dom().contains(k) {
                reported_entry(delta[k])
            } else {
                reported[k]
            },
    )
}

/// Once the device reports the values of the delta it was sent, the delta
/// for the same desired document is empty.
pub proof fn law_reporting_delta_converges(
    desired: Map<Seq<char>, Json>,
    reported: Map<Seq<char>, Json>,
)
    ensures
        delta_of(desired, apply_report(reported, delta_of(desired, reported))) == Map::<
            Seq<char>,
            Json,
        >::empty(),
{
    let d = delta_of(desired, reported);
    let r2 = apply_report(reported, d);
    assert("value"@ =~= seq!['v', 'a', 'l', 'u', 'e']) by {
        reveal_strlit("value");
    }
    assert forall|k: Seq<char>| #[trigger] desired.dom().contains(k) && desired[k] != Json::Null
        implies converged(r2, k, desired[k]) by {
        if d.dom().contains(k) {
            let m = map![seq!['v', 'a', 'l', 'u', 'e'] => desired[k]];
            assert(r2[k] == Json::Object(m));
            assert(m.dom().contains("value"@));
        }
    }
    law_delta_empty_iff_converged(desired, r2);
}

} // verus!
