//! Broker access decisions: which topics a device may use (ACL), whether
//! its signed password is accepted, and whether it is admitted.
use crate::clock::unix_now_nanos;
use crate::clock::whole_seconds;
use crate::json::JsonValue;
use crate::ota_handlers::upgrade_topic_spec;
use crate::text::chars_of;
use crate::text::extend_chars;
use crate::text::is_ascii_alnum;
use crate::text::int_decimal;
use crate::text::is_digit;
use crate::text::lemma_nat_decimal;
use crate::text::lemma_nat_decimal_len;
use crate::text::lemma_parse_i64_decimal;
use crate::text::lemma_split_concat;
use crate::text::lemma_utf8_len_ascii;
use crate::text::lemma_utf8_len_concat;
use crate::text::nat_decimal;
use crate::text::pow10;
use crate::text::lemma_split_no_sep;
use crate::text::parse_i64;
use crate::text::parse_i64_spec;
use crate::text::split_chars;
use crate::text::split_on;
use crate::text::str_eq_chars;
use crate::text::string_from;
use crate::text::sub_chars;
use crate::text::utf8_len;
use crate::text::utf8_len_exceeds;
use crate::text::views;
use crate::utils::valid_identifier;
use hmac::Hmac;
use hmac::Mac;
use sha1::Sha1;
use vstd::prelude::*;
use vstd::utf8::encode_utf8;

verus! {

// ---------------------------------------------------------------------------
// Topic access
// ---------------------------------------------------------------------------

/// What a client asks to do on a topic.
#[derive(Clone, Copy, Debug, PartialEq, Eq, Structural)]
pub enum Access {
    Subscribe,
    Publish,
}

/// The MQTT protocol version of a connection.
#[derive(Clone, Copy, Debug, PartialEq, Eq, Structural)]
pub enum MqttProtocol {
    Mqttv3,
    MqttV311,
    MqttV5,
}

/// The broker's question: may this client use this topic?
#[derive(Debug)]
pub struct AclPayload {
    pub access: Access,
    pub username: Option<String>,
    pub client_id: String,
    pub ip: String,
    pub topic: String,
    pub protocol: JsonValue,
}

/// The topic families a device may use: `{product}/{device}/thing/`
/// followed by `event`, `service`, `file` or `factory-metadata`, and
/// `{product}/{device}/ota/` followed by `upgrade` or `version`.
pub open spec fn device_topic_family(kind: Seq<char>, name: Seq<char>) -> bool {
    ||| kind == "thing"@ && (name == "event"@ || name == "service"@ || name == "file"@ || name
        == "factory-metadata"@)
    ||| kind == "ota"@ && (name == "upgrade"@ || name == "version"@)
}

/// A client may use a topic when, after one leading `/` is dropped, the
/// topic has at least four segments, the second is the client's id, the
/// first is the client's username (the product id) when it gave one, and
/// the third and fourth name a device topic family.
pub open spec fn acl_allows(username: Option<Seq<char>>, client_id: Seq<char>, topic: Seq<char>) -> bool {
    let t = if topic.len() > 0 && topic[0] == '/' {
        topic.drop_first()
    } else {
        topic
    };
    let p = split_on(t, '/');
    &&& p.len() >= 4
    &&& p[1] == client_id
    &&& (username matches Some(u) ==> p[0] == u)
    &&& device_topic_family(p[2], p[3])
}

/// The answer to an ACL query: `allow` or `deny`.
pub fn acl(payload: &AclPayload) -> (r: &'static str)
    ensures
        r@ == (if acl_allows(
            match payload.username {
                Some(u) => Some(u@),
                None => None,
            },
            payload.client_id@,
            payload.topic@,
        ) {
            "allow"@
        } else {
            "deny"@
        }),
{
    let whole = chars_of(payload.topic.as_str());
    let start: usize = if whole.len() > 0 && whole[0] == '/' {
        1
    } else {
        0
    };
    let t = sub_chars(&whole, start, whole.len());
    proof {
        if start == 1 {
            assert(t@ =~= payload.topic@.drop_first());
        } else {
            assert(t@ =~= payload.topic@);
        }
    }
    let parts = split_chars(&t, '/');
    if parts.len() < 4 {
        return "deny";
    }
    proof {
        assert(views(parts@)[0] == parts@[0]@);
        assert(views(parts@)[1] == parts@[1]@);
        assert(views(parts@)[2] == parts@[2]@);
        assert(views(parts@)[3] == parts@[3]@);
    }
    if !str_eq_chars(payload.client_id.as_str(), &parts[1]) {
        return "deny";
    }
    if let Some(username) = &payload.username {
        if !str_eq_chars(username.as_str(), &parts[0]) {
            return "deny";
        }
    }
    let kind = &parts[2];
    let name = &parts[3];
    if str_eq_chars("thing", kind) && (str_eq_chars("event", name) || str_eq_chars("service", name)
        || str_eq_chars("file", name) || str_eq_chars("factory-metadata", name)) {
        return "allow";
    }
    if str_eq_chars("ota", kind) && (str_eq_chars("upgrade", name) || str_eq_chars(
        "version",
        name,
    )) {
        return "allow";
    }
    "deny"
}

proof fn lemma_no_slash(s: Seq<char>)
    requires
        valid_identifier(s),
    ensures
        forall|i: int| 0 <= i < s.len() ==> s[i] != '/',
{
    assert forall|i: int| 0 <= i < s.len() implies s[i] != '/' by {
        assert(is_ascii_alnum(s[i]) || s[i] == '-' || s[i] == '_');
    }
}

/// A device may subscribe to the topic its OTA upgrades are pushed on:
/// for a product id and device id that are identifiers, the upgrade topic
/// is allowed to the device, whether or not it names its product.
pub proof fn law_upgrade_topic_allowed(product_id: Seq<char>, device_id: Seq<char>)
    requires
        valid_identifier(product_id),
        valid_identifier(device_id),
    ensures
        acl_allows(Some(product_id), device_id, upgrade_topic_spec(product_id, device_id)),
        acl_allows(None, device_id, upgrade_topic_spec(product_id, device_id)),
{
    reveal_strlit("/ota/upgrade");
    reveal_strlit("ota");
    reveal_strlit("upgrade");
    let ota = "ota"@;
    let upgrade = "upgrade"@;
    let topic = upgrade_topic_spec(product_id, device_id);
    let t = topic.drop_first();
    assert("/ota/upgrade"@ =~= seq!['/'] + ota + seq!['/'] + upgrade);
    assert(t =~= product_id + seq!['/'] + device_id + seq!['/'] + ota + seq!['/'] + upgrade);
    lemma_no_slash(product_id);
    lemma_no_slash(device_id);
    lemma_split_no_sep(product_id, '/');
    lemma_split_no_sep(device_id, '/');
    lemma_split_no_sep(ota, '/');
    lemma_split_no_sep(upgrade, '/');
    let a = product_id;
    let b = a + seq!['/'] + device_id;
    let c = b + seq!['/'] + ota;
    lemma_split_concat(a, '/', device_id);
    lemma_split_concat(b, '/', ota);
    lemma_split_concat(c, '/', upgrade);
    assert(split_on(t, '/') =~= seq![product_id, device_id, ota, upgrade]);
    assert(topic[0] == '/');
    assert(device_topic_family(ota, upgrade));
}

// ---------------------------------------------------------------------------
// Signed device passwords
// ---------------------------------------------------------------------------

/// The broker's question: may this client connect with this password?
#[derive(Debug)]
pub struct AuthPayload {
    /// At most 64 bytes.
    pub client_id: String,
    /// The product id of the device.
    pub username: Option<String>,
    /// `{nonce}.{timestamp}.{signature}`.
    pub password: String,
    pub protocol: JsonValue,
    pub ipaddress: String,
}

/// The name of what `Hmac<Sha1>` computes: the HMAC-SHA1 tag of `message`
/// under `key`.
pub uninterp spec fn hmac_sha1_of(key: Seq<u8>, message: Seq<u8>) -> Seq<u8>;

/// `Hmac::<Sha1>::new_from_slice(key)`, `update(message)`, `finalize()`:
/// the 20-byte HMAC-SHA1 tag. `new_from_slice` accepts a key of any
/// length for HMAC (its source always returns `Ok`), so the tag is always
/// computed.
#[verifier::external_body]
fn hmac_sha1(key: &[u8], message: &[u8]) -> (tag: Vec<u8>)
    ensures
        tag@ == hmac_sha1_of(key@, message@),
        tag@.len() == 20,
{
    match Hmac::<Sha1>::new_from_slice(key) {
        Ok(mut mac) => {
            mac.update(message);
            mac.finalize().into_bytes().to_vec()
        },
        Err(_) => Vec::new(),
    }
}

/// The lowercase hexadecimal digit of a value below sixteen.
pub open spec fn hex_digit(n: int) -> char {
    if n < 10 {
        (48 + n) as char
    } else {
        (87 + n) as char
    }
}

/// Lowercase hexadecimal text of bytes, two digits per byte, high nibble
/// first.
pub open spec fn hex_text(b: Seq<u8>) -> Seq<char>
    decreases b.len(),
{
    if b.len() == 0 {
        Seq::empty()
    } else {
        hex_text(b.drop_last()) + seq![hex_digit(b.last() as int / 16), hex_digit(b.last() as int % 16)]
    }
}

/// `hex::encode`: lowercase hexadecimal text, two digits per byte.
#[verifier::external_body]
fn hex_encode(bytes: &[u8]) -> (s: String)
    ensures
        s@ == hex_text(bytes@),
{
    hex::encode(bytes)
}

/// Hex text has two characters per byte, each a digit or `a` to `f`.
proof fn lemma_hex_text(b: Seq<u8>)
    ensures
        hex_text(b).len() == 2 * b.len(),
        forall|i: int|
            0 <= i < hex_text(b).len() ==> ('0' <= #[trigger] hex_text(b)[i] <= '9' || 'a'
                <= hex_text(b)[i] <= 'f'),
    decreases b.len(),
{
    if b.len() > 0 {
        lemma_hex_text(b.drop_last());
        let h = hex_text(b);
        let p = hex_text(b.drop_last());
        assert forall|i: int| 0 <= i < h.len() implies ('0' <= #[trigger] h[i] <= '9' || 'a' <= h[i]
            <= 'f') by {
            if i < p.len() {
                assert(h[i] == p[i]);
            }
        }
    }
}

/// The text a device signs: `{client_id}.{nonce}.{timestamp}.{suffix}`.
pub open spec fn sign_text(
    client_id: Seq<char>,
    nonce: Seq<char>,
    timestamp: Seq<char>,
    suffix: Seq<char>,
) -> Seq<char> {
    client_id + seq!['.'] + nonce + seq!['.'] + timestamp + seq!['.'] + suffix
}

/// The signature a password must carry: the lowercase hex HMAC-SHA1 of the
/// signed text, keyed with the shared suffix.
pub open spec fn expected_signature(
    client_id: Seq<char>,
    nonce: Seq<char>,
    timestamp: Seq<char>,
    suffix: Seq<char>,
) -> Seq<char> {
    hex_text(
        hmac_sha1_of(encode_utf8(suffix), encode_utf8(sign_text(client_id, nonce, timestamp, suffix))),
    )
}

/// The signature part of a password: what follows its second `.`.
pub open spec fn signature_of(password: Seq<char>) -> Seq<char> {
    split_on(password, '.')[2]
}

/// A password is accepted for a client at time `now` when the client id
/// has at most 64 bytes, the password is non-empty with at most 256
/// bytes, it has three `.`-separated parts, the nonce has six bytes, the
/// timestamp is an `i64` at most `tolerance` seconds from `now`, and the
/// signature is the expected one.
pub open spec fn password_accepted(
    client_id: Seq<char>,
    password: Seq<char>,
    suffix: Seq<char>,
    now: int,
    tolerance: int,
) -> bool {
    let p = split_on(password, '.');
    &&& utf8_len(client_id) <= 64
    &&& password.len() > 0
    &&& utf8_len(password) <= 256
    &&& p.len() == 3
    &&& utf8_len(p[0]) == 6
    &&& parse_i64_spec(p[1]) matches Some(ts) && -tolerance <= now - ts <= tolerance
    &&& p[2] == expected_signature(client_id, p[0], p[1], suffix)
}

/// Checks a device's signed password at time `now` (Unix seconds).
pub fn verify_password(
    client_id: &str,
    password: &str,
    suffix: &str,
    now: i64,
    tolerance_secs: i64,
) -> (ok: bool)
    ensures
        ok == password_accepted(client_id@, password@, suffix@, now as int, tolerance_secs as int),
        ok ==> signature_of(password@).len() == 40,
{
    let cid = chars_of(client_id);
    let pw = chars_of(password);
    if utf8_len_exceeds(&cid, 0, cid.len(), 64) {
        assert(cid@.subrange(0, cid@.len() as int) == cid@);
        return false;
    }
    assert(cid@.subrange(0, cid@.len() as int) == cid@);
    if utf8_len_exceeds(&pw, 0, pw.len(), 256) {
        assert(pw@.subrange(0, pw@.len() as int) == pw@);
        return false;
    }
    assert(pw@.subrange(0, pw@.len() as int) == pw@);
    if pw.len() == 0 {
        return false;
    }
    let parts = split_chars(&pw, '.');
    if parts.len() != 3 {
        return false;
    }
    proof {
        assert(views(parts@)[0] == parts@[0]@);
        assert(views(parts@)[1] == parts@[1]@);
        assert(views(parts@)[2] == parts@[2]@);
    }
    let nonce = &parts[0];
    let stamp = &parts[1];
    let hash = &parts[2];
    if utf8_len_exceeds(nonce, 0, nonce.len(), 6) || !utf8_len_exceeds(nonce, 0, nonce.len(), 5) {
        assert(nonce@.subrange(0, nonce@.len() as int) == nonce@);
        return false;
    }
    assert(nonce@.subrange(0, nonce@.len() as int) == nonce@);
    let ts = match parse_i64(stamp) {
        Some(t) => t,
        None => {
            return false;
        },
    };
    let diff: i128 = (now as i128) - (ts as i128);
    let tol = tolerance_secs as i128;
    if diff > tol || diff < -tol {
        return false;
    }
    let mut to_sign = chars_of(client_id);
    to_sign.push('.');
    extend_chars(&mut to_sign, nonce);
    to_sign.push('.');
    extend_chars(&mut to_sign, stamp);
    to_sign.push('.');
    let sfx = chars_of(suffix);
    extend_chars(&mut to_sign, &sfx);
    let to_sign_text = string_from(&to_sign);
    proof {
        assert(to_sign@ =~= sign_text(client_id@, nonce@, stamp@, suffix@));
    }
    let tag = hmac_sha1(suffix.as_bytes(), to_sign_text.as_str().as_bytes());
    let expected = hex_encode(tag.as_slice());
    proof {
        lemma_hex_text(tag@);
    }
    str_eq_chars(expected.as_str(), hash)
}

/// What to do with a connecting device.
#[derive(Debug)]
pub enum AuthDecision {
    /// Refuse the connection.
    Deny,
    /// The password is good; admit the device if its product admits it.
    Admit { product_id: String },
}

/// The decision `r` is the one owed to a connection at time `now`: a
/// device whose password is accepted and that names its product goes on to
/// the admission check with that product; every other is denied.
pub open spec fn auth_decided(
    payload: AuthPayload,
    suffix: Seq<char>,
    now: int,
    tolerance_secs: int,
    r: AuthDecision,
) -> bool {
    let accepted = password_accepted(payload.client_id@, payload.password@, suffix, now, tolerance_secs);
    match r {
        AuthDecision::Admit { product_id } => accepted && signature_of(payload.password@).len()
            == 40 && payload.username == Some(product_id),
        AuthDecision::Deny => !accepted || payload.username is None,
    }
}

/// Decides a connection from its password at time `now` (Unix seconds).
pub fn auth(payload: &AuthPayload, suffix: &str, now: i64, tolerance_secs: i64) -> (r:
    AuthDecision)
    ensures
        auth_decided(*payload, suffix@, now as int, tolerance_secs as int, r),
{
    if !verify_password(
        payload.client_id.as_str(),
        payload.password.as_str(),
        suffix,
        now,
        tolerance_secs,
    ) {
        return AuthDecision::Deny;
    }
    match &payload.username {
        Some(pid) => AuthDecision::Admit { product_id: pid.clone() },
        None => AuthDecision::Deny,
    }
}

/// Decides a connection from its password at the current time, read from
/// the system clock in whole Unix seconds: the decision is the one `auth`
/// owes at that time, whatever the clock said.
pub fn auth_now(payload: &AuthPayload, suffix: &str, tolerance_secs: i64) -> (r: AuthDecision)
    ensures
        exists|now: i64| auth_decided(*payload, suffix@, now as int, tolerance_secs as int, r),
{
    let now = whole_seconds(unix_now_nanos());
    let r = auth(payload, suffix, now, tolerance_secs);
    assert(auth_decided(*payload, suffix@, now as int, tolerance_secs as int, r));
    r
}

/// The next step of admitting a device with a good password.
#[derive(Clone, Copy, Debug, PartialEq, Eq, Structural)]
pub enum AdmissionStep {
    /// The device is registered: allow.
    Allow,
    /// Register the device, then allow it if that succeeds.
    Provision,
    /// Deny.
    Deny,
}

/// Decides admission from the registry lookup, `None` when the lookup
/// failed: a registered device is allowed; an unknown device is registered
/// when its product has auto-provisioning on; otherwise, or when the
/// product is unknown or the lookup failed, it is denied.
pub fn check_device_admission(lookup: Option<(bool, Option<bool>)>) -> (r: AdmissionStep)
    ensures
        r == (match lookup {
            None => AdmissionStep::Deny,
            Some((true, _)) => AdmissionStep::Allow,
            Some((false, Some(true))) => AdmissionStep::Provision,
            Some((false, _)) => AdmissionStep::Deny,
        }),
{
    match lookup {
        None => AdmissionStep::Deny,
        Some((exists, auto)) => {
            if exists {
                AdmissionStep::Allow
            } else {
                match auto {
                    Some(true) => AdmissionStep::Provision,
                    _ => AdmissionStep::Deny,
                }
            }
        },
    }
}

/// The answer after a registration attempt: `allow` when it succeeded.
pub fn provisioning_answer(registered: bool) -> (r: &'static str)
    ensures
        r@ == (if registered {
            "allow"@
        } else {
            "deny"@
        }),
{
    if registered {
        "allow"
    } else {
        "deny"
    }
}

/// Whether admission lets a device in, from the registry lookup for its
/// product and client id (`None` when the lookup failed) and whether
/// registering it succeeded: a registered device is admitted; an unknown
/// device of a product with auto-provisioning on is admitted once it is
/// registered; every other is refused.
pub open spec fn admitted(lookup: Option<(bool, Option<bool>)>, registered: bool) -> bool {
    match lookup {
        Some((true, _)) => true,
        Some((false, Some(true))) => registered,
        _ => false,
    }
}

/// The broker's answer to a connecting device is `allow` exactly when its
/// password is accepted at time `now`, it names its product, and the
/// product admits it (`admitted`, with the lookup and registration made
/// for that product and the client id).
pub open spec fn connection_allowed(
    payload: AuthPayload,
    suffix: Seq<char>,
    now: int,
    tolerance_secs: int,
    lookup: Option<(bool, Option<bool>)>,
    registered: bool,
) -> bool {
    &&& password_accepted(payload.client_id@, payload.password@, suffix, now, tolerance_secs)
    &&& payload.username is Some
    &&& admitted(lookup, registered)
}

/// What a password decision, followed by the admission steps, lets in.
pub open spec fn decision_allows(
    decision: AuthDecision,
    lookup: Option<(bool, Option<bool>)>,
    registered: bool,
) -> bool {
    decision is Admit && admitted(lookup, registered)
}

/// The final answer to a connecting device, once its password decision,
/// the registry lookup and (for a device to provision) the registration
/// are known; `registered` is `false` when no registration was made.
pub fn connection_answer(
    decision: &AuthDecision,
    lookup: Option<(bool, Option<bool>)>,
    registered: bool,
) -> (r: &'static str)
    ensures
        r@ == (if decision_allows(*decision, lookup, registered) {
            "allow"@
        } else {
            "deny"@
        }),
{
    match decision {
        AuthDecision::Deny => "deny",
        AuthDecision::Admit { .. } => match check_device_admission(lookup) {
            AdmissionStep::Allow => "allow",
            AdmissionStep::Deny => "deny",
            AdmissionStep::Provision => provisioning_answer(registered),
        },
    }
}

/// The composed rule of the broker's auth webhook: after the password
/// decision owed at time `now`, the device is allowed exactly when its
/// password is accepted, it names its product, and that product admits it.
pub proof fn law_connection_answer(
    payload: AuthPayload,
    suffix: Seq<char>,
    now: int,
    tolerance_secs: int,
    decision: AuthDecision,
    lookup: Option<(bool, Option<bool>)>,
    registered: bool,
)
    requires
        auth_decided(payload, suffix, now, tolerance_secs, decision),
    ensures
        decision_allows(decision, lookup, registered) == connection_allowed(
            payload,
            suffix,
            now,
            tolerance_secs,
            lookup,
            registered,
        ),
{
}

/// The password a device builds: `{nonce}.{timestamp}.{signature}`.
pub open spec fn device_password(nonce: Seq<char>, timestamp: i64, signature: Seq<char>) -> Seq<char> {
    nonce + seq!['.'] + int_decimal(timestamp as int) + seq!['.'] + signature
}

/// A device that signs as documented is accepted: with a client id of at
/// most 64 bytes, a six-byte nonce without `.`, and a timestamp within the
/// tolerance of `now`, the password made of the nonce, the timestamp in
/// decimal and the expected signature (an HMAC-SHA1 tag of 20 bytes, in
/// hex) is accepted.
pub proof fn law_device_password_accepted(
    client_id: Seq<char>,
    nonce: Seq<char>,
    timestamp: i64,
    suffix: Seq<char>,
    now: int,
    tolerance: int,
)
    requires
        utf8_len(client_id) <= 64,
        utf8_len(nonce) == 6,
        forall|i: int| 0 <= i < nonce.len() ==> nonce[i] != '.',
        -tolerance <= now - timestamp <= tolerance,
        hmac_sha1_of(
            encode_utf8(suffix),
            encode_utf8(sign_text(client_id, nonce, int_decimal(timestamp as int), suffix)),
        ).len() == 20,
    ensures
        password_accepted(
            client_id,
            device_password(
                nonce,
                timestamp,
                expected_signature(client_id, nonce, int_decimal(timestamp as int), suffix),
            ),
            suffix,
            now,
            tolerance,
        ),
{
    let dec = int_decimal(timestamp as int);
    let sig = expected_signature(client_id, nonce, dec, suffix);
    let tag = hmac_sha1_of(
        encode_utf8(suffix),
        encode_utf8(sign_text(client_id, nonce, dec, suffix)),
    );
    let pw = device_password(nonce, timestamp, sig);
    lemma_hex_text(tag);
    lemma_parse_i64_decimal(timestamp);
    // The decimal text: an optional minus sign and at most 19 digits.
    let m: nat = if timestamp < 0 {
        (-(timestamp as int)) as nat
    } else {
        timestamp as nat
    };
    lemma_nat_decimal(m);
    assert(pow10(19) == 10000000000000000000nat) by {
        reveal_with_fuel(pow10, 20);
    }
    lemma_nat_decimal_len(m, 19);
    assert(forall|i: int| 0 <= i < dec.len() ==> dec[i] != '.' && (dec[i] as u32) < 0x80) by {
        if timestamp < 0 {
            assert(dec =~= seq!['-'] + nat_decimal(m));
            assert forall|i: int| 0 <= i < dec.len() implies dec[i] != '.' && (dec[i] as u32)
                < 0x80 by {
                if i > 0 {
                    assert(dec[i] == nat_decimal(m)[i - 1]);
                    assert(is_digit(nat_decimal(m)[i - 1]));
                }
            }
        } else {
            assert forall|i: int| 0 <= i < dec.len() implies dec[i] != '.' && (dec[i] as u32)
                < 0x80 by {
                assert(is_digit(nat_decimal(m)[i]));
            }
        }
    }
    assert(dec.len() <= 20);
    // Splitting.
    assert forall|i: int| 0 <= i < sig.len() implies sig[i] != '.' && (sig[i] as u32) < 0x80 by {
        assert('0' <= sig[i] <= '9' || 'a' <= sig[i] <= 'f');
    }
    lemma_split_no_sep(nonce, '.');
    lemma_split_no_sep(dec, '.');
    lemma_split_no_sep(sig, '.');
    lemma_split_concat(nonce, '.', dec);
    lemma_split_concat(nonce + seq!['.'] + dec, '.', sig);
    assert(split_on(pw, '.') =~= seq![nonce, dec, sig]);
    // Length in bytes.
    lemma_utf8_len_ascii(dec);
    lemma_utf8_len_ascii(sig);
    lemma_utf8_len_ascii(seq!['.']);
    lemma_utf8_len_concat(nonce, seq!['.']);
    lemma_utf8_len_concat(nonce + seq!['.'], dec);
    lemma_utf8_len_concat(nonce + seq!['.'] + dec, seq!['.']);
    lemma_utf8_len_concat(nonce + seq!['.'] + dec + seq!['.'], sig);
    assert(utf8_len(pw) <= 256);
}

} // verus!
