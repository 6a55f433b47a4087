//! OTA versions: the packed integer form of `major.minor.patch` versions
//! and the topic upgrades are pushed on.
use crate::error::fails_with;
use crate::error::ApiError;
use crate::json::lemma_members;
use crate::json::members;
use crate::json::Json;
use crate::json::JsonValue;
use crate::text::chars_of;
use crate::text::extend_chars;
use crate::text::int_decimal;
use crate::text::lemma_nat_decimal;
use crate::text::lemma_parse_u32_decimal;
use crate::text::lemma_split_concat;
use crate::text::lemma_split_no_sep;
use crate::text::nat_decimal;
use crate::text::owned;
use crate::text::parse_u32;
use crate::text::parse_u32_spec;
use crate::text::push_i64_decimal;
use crate::text::split_chars;
use crate::text::split_on;
use crate::text::string_from;
use crate::text::views;
use vstd::prelude::*;

verus! {

/// The message for a version that is not three dot-separated segments.
pub open spec fn shape_message() -> Seq<char> {
    "Invalid version format: must be major.minor.patch (e.g. 1.2.3)"@
}

/// The message for a segment that is not a `u32` numeral.
pub open spec fn numeric_message() -> Seq<char> {
    "Invalid version format: each segment must be numeric"@
}

/// The message for a segment over its bound.
pub open spec fn range_message() -> Seq<char> {
    "Invalid version format: a segment exceeds its allowed range"@
}

/// The packed form of a version: `major * 100000 + minor * 1000 + patch`.
pub open spec fn pack_version(major: int, minor: int, patch: int) -> int {
    major * 100000 + minor * 1000 + patch
}

/// What parsing a version text gives: its packed form, or the message it
/// is refused with. The text splits at `.` into exactly three segments,
/// each read as by `u32::from_str`, with major and minor at most 99 and
/// patch at most 999.
pub open spec fn semver_outcome(v: Seq<char>) -> Result<i32, Seq<char>> {
    let p = split_on(v, '.');
    if p.len() != 3 {
        Err(shape_message())
    } else {
        match (parse_u32_spec(p[0]), parse_u32_spec(p[1]), parse_u32_spec(p[2])) {
            (Some(a), Some(b), Some(c)) => if a > 99 || b > 99 || c > 999 {
                Err(range_message())
            } else {
                Ok(pack_version(a as int, b as int, c as int) as i32)
            },
            _ => Err(numeric_message()),
        }
    }
}

/// Parses a `major.minor.patch` version into its packed form.
pub fn parse_semver_to_int(version: &str) -> (r: Result<i32, ApiError>)
    ensures
        match semver_outcome(version@) {
            Ok(n) => r == Ok::<i32, ApiError>(n),
            Err(m) => fails_with(r, 400, m),
        },
{
    let v = chars_of(version);
    let parts = split_chars(&v, '.');
    if parts.len() != 3 {
        return Err(
            ApiError::bad_request("Invalid version format: must be major.minor.patch (e.g. 1.2.3)"),
        );
    }
    proof {
        assert(views(parts@)[0] == parts@[0]@);
        assert(views(parts@)[1] == parts@[1]@);
        assert(views(parts@)[2] == parts@[2]@);
    }
    let a = match parse_u32(&parts[0]) {
        Some(x) => x,
        None => {
            return Err(ApiError::bad_request("Invalid version format: each segment must be numeric"));
        },
    };
    let b = match parse_u32(&parts[1]) {
        Some(x) => x,
        None => {
            return Err(ApiError::bad_request("Invalid version format: each segment must be numeric"));
        },
    };
    let c = match parse_u32(&parts[2]) {
        Some(x) => x,
        None => {
            return Err(ApiError::bad_request("Invalid version format: each segment must be numeric"));
        },
    };
    if a > 99 || b > 99 || c > 999 {
        return Err(
            ApiError::bad_request("Invalid version format: a segment exceeds its allowed range"),
        );
    }
    Ok((a as i32) * 100_000 + (b as i32) * 1_000 + (c as i32))
}

/// Division truncating toward zero, as Rust's `/` on signed integers.
pub open spec fn tdiv(a: int, b: int) -> int {
    if a >= 0 {
        a / b
    } else {
        -((-a) / b)
    }
}

/// The remainder that goes with `tdiv`, as Rust's `%` on signed integers.
pub open spec fn trem(a: int, b: int) -> int {
    a - b * tdiv(a, b)
}

/// The text of a packed version: `major.minor.patch` with
/// `major = e / 100000`, `minor = (e % 100000) / 1000`, `patch = e % 1000`,
/// dividing as Rust does.
pub open spec fn semver_text(e: int) -> Seq<char> {
    int_decimal(tdiv(e, 100000)) + seq!['.'] + int_decimal(tdiv(trem(e, 100000), 1000)) + seq![
        '.',
    ] + int_decimal(trem(e, 1000))
}

/// The three segments of a version, written in decimal and joined by dots.
pub open spec fn version_text(major: nat, minor: nat, patch: nat) -> Seq<char> {
    nat_decimal(major) + seq!['.'] + nat_decimal(minor) + seq!['.'] + nat_decimal(patch)
}

/// Rust's `/` and `%` on an `i32` by a positive constant.
fn div_rem(e: i32, d: i32) -> (r: (i32, i32))
    requires
        d > 0,
    ensures
        r.0 == tdiv(e as int, d as int),
        r.1 == trem(e as int, d as int),
{
    let w = e as i64;
    let dd = d as i64;
    if w >= 0 {
        let q = w / dd;
        let m = w % dd;
        assert(q * dd + m == w && 0 <= m < dd) by (nonlinear_arith)
            requires
                q == w / dd,
                m == w % dd,
                w >= 0,
                dd > 0,
        ;
        assert(0 <= q <= w) by (nonlinear_arith)
            requires
                q == w / dd,
                w >= 0,
                dd > 0,
        ;
        assert(m == w - dd * q) by (nonlinear_arith)
            requires
                q * dd + m == w,
        ;
        (q as i32, m as i32)
    } else {
        let n = -w;
        let q = n / dd;
        assert(0 <= q <= n) by (nonlinear_arith)
            requires
                q == n / dd,
                n > 0,
                dd > 0,
        ;
        assert(q * dd <= n) by (nonlinear_arith)
            requires
                q == n / dd,
                n > 0,
                dd > 0,
        ;
        let rem = w + dd * q;
        assert(w - dd * (-q) == rem) by (nonlinear_arith)
            requires
                rem == w + dd * q,
        ;
        assert(dd * q <= n) by (nonlinear_arith)
            requires
                q * dd <= n,
        ;
        ((-q) as i32, rem as i32)
    }
}

/// Writes a packed version back as `major.minor.patch`.
pub fn format_semver_from_int(encoded: i32) -> (s: String)
    ensures
        s@ == semver_text(encoded as int),
{
    let (major, rest) = div_rem(encoded, 100_000);
    let (minor, _) = div_rem(rest, 1_000);
    let (_, patch) = div_rem(encoded, 1_000);
    let mut out: Vec<char> = Vec::new();
    push_i64_decimal(&mut out, major as i64);
    out.push('.');
    push_i64_decimal(&mut out, minor as i64);
    out.push('.');
    push_i64_decimal(&mut out, patch as i64);
    proof {
        assert(out@ =~= semver_text(encoded as int));
    }
    string_from(&out)
}

proof fn lemma_no_dot(n: nat)
    ensures
        forall|i: int| 0 <= i < nat_decimal(n).len() ==> nat_decimal(n)[i] != '.',
{
    lemma_nat_decimal(n);
    assert forall|i: int| 0 <= i < nat_decimal(n).len() implies nat_decimal(n)[i] != '.' by {
        assert(crate::text::is_digit(nat_decimal(n)[i]));
    }
}

/// The text of three segments splits back into them.
proof fn lemma_version_text_split(a: nat, b: nat, c: nat)
    ensures
        split_on(version_text(a, b, c), '.') == seq![nat_decimal(a), nat_decimal(b), nat_decimal(c)],
{
    let x = nat_decimal(a);
    let y = nat_decimal(b);
    let z = nat_decimal(c);
    lemma_no_dot(a);
    lemma_no_dot(b);
    lemma_no_dot(c);
    lemma_split_no_sep(x, '.');
    lemma_split_no_sep(y, '.');
    lemma_split_no_sep(z, '.');
    lemma_split_concat(x, '.', y);
    lemma_split_concat(x + seq!['.'] + y, '.', z);
    assert(split_on(x + seq!['.'] + y, '.') =~= seq![x, y]);
    assert(split_on(version_text(a, b, c), '.') =~= seq![x, y, z]);
}

/// Packed versions and their text round-trip: for segments within their
/// bounds, the written text of the packed version is the segments in
/// decimal, and parsing that text gives the packed version back.
pub proof fn law_semver_round_trip(major: u32, minor: u32, patch: u32)
    requires
        major <= 99,
        minor <= 99,
        patch <= 999,
    ensures
        semver_text(pack_version(major as int, minor as int, patch as int)) == version_text(
            major as nat,
            minor as nat,
            patch as nat,
        ),
        semver_outcome(version_text(major as nat, minor as nat, patch as nat)) == Ok::<
            i32,
            Seq<char>,
        >(pack_version(major as int, minor as int, patch as int) as i32),
{
    let e = pack_version(major as int, minor as int, patch as int);
    let low = minor * 1000 + patch;
    assert(e / 100000 == major as int && e % 100000 == low) by (nonlinear_arith)
        requires
            e == major * 100000 + low,
            0 <= low < 100000,
            major >= 0,
    ;
    assert(low / 1000 == minor as int) by (nonlinear_arith)
        requires
            low == minor * 1000 + patch,
            0 <= patch < 1000,
            minor >= 0,
    ;
    assert(e % 1000 == patch as int) by (nonlinear_arith)
        requires
            e == (major * 100 + minor) * 1000 + patch,
            0 <= patch < 1000,
            major >= 0,
            minor >= 0,
    ;
    assert(trem(e, 100000) == low);
    assert(trem(e, 1000) == patch as int);
    assert(int_decimal(major as int) == nat_decimal(major as nat));
    assert(int_decimal(minor as int) == nat_decimal(minor as nat));
    assert(int_decimal(patch as int) == nat_decimal(patch as nat));
    lemma_version_text_split(major as nat, minor as nat, patch as nat);
    lemma_parse_u32_decimal(major);
    lemma_parse_u32_decimal(minor);
    lemma_parse_u32_decimal(patch);
}

/// Every version that parses is the text of its segments: parsing reads
/// segments within their bounds, so writing the packed result gives the
/// segments back in decimal.
pub proof fn law_parsed_version_formats_back(v: Seq<char>)
    requires
        semver_outcome(v) is Ok,
    ensures
        ({
            let p = split_on(v, '.');
            let a = parse_u32_spec(p[0])->0;
            let b = parse_u32_spec(p[1])->0;
            let c = parse_u32_spec(p[2])->0;
            semver_text(semver_outcome(v)->Ok_0 as int) == version_text(a as nat, b as nat, c as nat)
        }),
{
    let p = split_on(v, '.');
    let a = parse_u32_spec(p[0])->0;
    let b = parse_u32_spec(p[1])->0;
    let c = parse_u32_spec(p[2])->0;
    law_semver_round_trip(a, b, c);
}

/// The topic an upgrade is pushed on: `/{product_id}/{device_id}/ota/upgrade`.
pub open spec fn upgrade_topic_spec(product_id: Seq<char>, device_id: Seq<char>) -> Seq<char> {
    seq!['/'] + product_id + seq!['/'] + device_id + "/ota/upgrade"@
}

/// The topic an upgrade for a device is pushed on.
pub fn upgrade_topic(product_id: &str, device_id: &str) -> (t: String)
    ensures
        t@ == upgrade_topic_spec(product_id@, device_id@),
{
    let mut v: Vec<char> = Vec::new();
    v.push('/');
    let p = chars_of(product_id);
    extend_chars(&mut v, &p);
    v.push('/');
    let d = chars_of(device_id);
    extend_chars(&mut v, &d);
    let tail = chars_of("/ota/upgrade");
    extend_chars(&mut v, &tail);
    proof {
        assert(v@ =~= upgrade_topic_spec(product_id@, device_id@));
    }
    string_from(&v)
}

/// A newer version a device is offered after a report.
#[derive(Debug)]
pub struct OtaUpgrade {
    /// The component the version is for.
    pub key: String,
    /// The object key of the firmware file.
    pub file_key: String,
    /// The packed version.
    pub version: i32,
    /// The release notes, if any.
    pub log: Option<JsonValue>,
}

/// The members of one offered upgrade, in order: its key, the object key
/// as `file_url`, the version written as `major.minor.patch`, and its
/// notes (or `null`).
pub open spec fn upgrade_members(u: OtaUpgrade) -> Seq<(Seq<char>, Json)> {
    seq![
        ("key"@, Json::Str(u.key@)),
        ("file_url"@, Json::Str(u.file_key@)),
        ("version"@, Json::Str(semver_text(u.version as int))),
        ("log"@, match u.log {
            Some(l) => l.deep(),
            None => Json::Null,
        }),
    ]
}

/// `entries` holds one object per upgrade, in order, with its members.
pub open spec fn upgrade_entries(entries: Seq<JsonValue>, updates: Seq<OtaUpgrade>) -> bool {
    &&& entries.len() == updates.len()
    &&& forall|i: int|
        0 <= i < updates.len() ==> (#[trigger] entries[i] matches JsonValue::Object(m) && members(
            m@,
        ) == upgrade_members(updates[i]))
}

fn upgrade_entry(u: OtaUpgrade) -> (v: JsonValue)
    ensures
        v matches JsonValue::Object(m) && members(m@) == upgrade_members(u),
{
    let ghost g = u;
    let version = format_semver_from_int(u.version);
    let log = match u.log {
        Some(l) => l,
        None => JsonValue::Null,
    };
    let mut m: Vec<(String, JsonValue)> = Vec::new();
    m.push((owned("key"), JsonValue::String(u.key)));
    m.push((owned("file_url"), JsonValue::String(u.file_key)));
    m.push((owned("version"), JsonValue::String(version)));
    m.push((owned("log"), log));
    proof {
        lemma_members(m@);
        assert(members(m@) =~= upgrade_members(g));
    }
    JsonValue::Object(m)
}

/// The upgrade push after a version report: nothing when no newer
/// version applies; otherwise the message `{"id", "ack": 0, "params"}`
/// whose params list each offered upgrade in order. The push asks for no
/// reply, so `ack` is `0`.
pub fn upgrade_payload(id: String, updates: Vec<OtaUpgrade>) -> (r: Option<JsonValue>)
    ensures
        updates@.len() == 0 <==> r is None,
        r matches Some(v) ==> v matches JsonValue::Object(m) && m@.len() == 3 && m@[0].0@
            == "id"@ && m@[0].1.deep() == Json::Str(id@) && m@[1].0@ == "ack"@ && m@[1].1.deep()
            == Json::Number("0"@) && m@[2].0@ == "params"@ && (m@[2].1 matches JsonValue::Array(
            arr,
        ) && upgrade_entries(arr@, updates@)),
{
    if updates.len() == 0 {
        return None;
    }
    let ghost orig = updates@;
    let mut rest = updates;
    let mut out: Vec<JsonValue> = Vec::new();
    while rest.len() > 0
        invariant
            out@.len() <= orig.len(),
            rest@ == orig.skip(out@.len() as int),
            forall|i: int|
                0 <= i < out@.len() ==> (#[trigger] out@[i] matches JsonValue::Object(m) && members(
                    m@,
                ) == upgrade_members(orig[i])),
        decreases rest@.len(),
    {
        let ghost n = out@.len();
        let u = rest.remove(0);
        assert(u == orig[n as int]);
        assert(orig.skip(n as int).remove(0) =~= orig.skip(n as int + 1));
        out.push(upgrade_entry(u));
    }
    let ghost entries = out@;
    let mut m: Vec<(String, JsonValue)> = Vec::new();
    m.push((owned("id"), JsonValue::String(id)));
    m.push((owned("ack"), JsonValue::Number(owned("0"))));
    m.push((owned("params"), JsonValue::Array(out)));
    proof {
        reveal_strlit("id");
        reveal_strlit("ack");
        reveal_strlit("params");
        reveal_strlit("0");
        assert(upgrade_entries(entries, orig));
    }
    Some(JsonValue::Object(m))
}

} // verus!
