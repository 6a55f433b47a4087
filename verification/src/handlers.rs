//! Device-side request logic: upload directory rules, device identity,
//! service replies and subscriptions.
use crate::admin_models::CommandStatus;
use crate::error::fails_with;
use crate::error::ApiError;
use crate::json::entries_map;
use crate::json::lemma_members;
use crate::json::members;
use crate::json::Json;
use crate::json::JsonValue;
use crate::text::owned;
use crate::schema::schema_error_count;
use crate::schema::schema_error_count_of;
use crate::text::chars_eq;
use crate::text::chars_of;
use crate::text::ends_with;
use crate::text::extend_chars;
use crate::text::find_first;
use crate::text::first_index_of;
use crate::text::lemma_split_nonempty;
use crate::text::matches_at;
use crate::text::parse_i64;
use crate::text::parse_i64_spec;
use crate::text::replace_all;
use crate::text::replace_chars;
use crate::text::is_ascii_alnum;
use crate::text::lemma_replace_at_start;
use crate::text::lemma_replace_none;
use crate::text::lemma_replace_skip_prefix;
use crate::text::skip_leading;
use crate::text::split_chars;
use crate::text::split_on;
use crate::text::starts_with;
use crate::text::starts_with_exec;
use crate::text::string_from;
use crate::text::string_of;
use crate::text::sub_chars;
use crate::text::trim_leading;
use crate::text::views;
use crate::utils::identifier_error;
use crate::utils::valid_identifier;
use crate::utils::validate_identifier;
use vstd::prelude::*;

verus! {

// ---------------------------------------------------------------------------
// Upload directory rules
// ---------------------------------------------------------------------------

/// A rule with `${productId}` and then `${deviceId}` replaced.
pub open spec fn expand_rule(rule: Seq<char>, product_id: Seq<char>, device_id: Seq<char>) -> Seq<
    char,
> {
    replace_all(replace_all(rule, "${productId}"@, product_id), "${deviceId}"@, device_id)
}

/// An expanded rule admits `directory`: a rule ending in `/*` admits its
/// base and every path below it (a path-segment boundary); a rule ending in
/// `*` admits every directory with its prefix; any other rule admits
/// exactly itself.
pub open spec fn rule_allows(rule: Seq<char>, directory: Seq<char>) -> bool {
    if ends_with(rule, "/*"@) {
        let base = rule.take(rule.len() - 2);
        directory == base || starts_with(directory, base + "/"@)
    } else if ends_with(rule, "*"@) {
        starts_with(directory, rule.take(rule.len() - 1))
    } else {
        directory == rule
    }
}

/// Some rule admits `directory` for this product and device.
pub open spec fn directory_allowed(
    rules: Seq<Seq<char>>,
    product_id: Seq<char>,
    device_id: Seq<char>,
    directory: Seq<char>,
) -> bool {
    exists|i: int| 0 <= i < rules.len() && rule_allows(
        expand_rule(rules[i], product_id, device_id),
        directory,
    )
}

/// The views of a list of strings.
pub open spec fn string_views(v: Seq<String>) -> Seq<Seq<char>> {
    v.map_values(|s: String| s@)
}

fn rule_allows_exec(rule: &Vec<char>, directory: &Vec<char>) -> (b: bool)
    ensures
        b == rule_allows(rule@, directory@),
{
    let n = rule.len();
    if n >= 2 && rule[n - 2] == '/' && rule[n - 1] == '*' {
        proof {
            reveal_strlit("/*");
            assert(rule@.skip(n - 2) =~= "/*"@);
        }
        let base = sub_chars(rule, 0, n - 2);
        assert(base@ == rule@.take(n - 2));
        if chars_eq(directory, &base) {
            return true;
        }
        let mut with_slash = sub_chars(rule, 0, n - 1);
        assert(with_slash@ =~= base@ + "/"@) by {
            reveal_strlit("/");
        }
        starts_with_exec(directory, &with_slash)
    } else if n >= 1 && rule[n - 1] == '*' {
        proof {
            reveal_strlit("/*");
            reveal_strlit("*");
            assert(rule@.skip(n - 1) =~= "*"@);
            if n >= 2 {
                assert(rule@.skip(n - 2)[0] != '/' || rule@.skip(n - 2)[1] != '*');
            }
        }
        let prefix = sub_chars(rule, 0, n - 1);
        assert(prefix@ == rule@.take(n - 1));
        starts_with_exec(directory, &prefix)
    } else {
        proof {
            reveal_strlit("/*");
            reveal_strlit("*");
            if n >= 1 {
                assert(rule@.skip(n - 1)[0] != '*');
            }
            if n >= 2 {
                assert(rule@.skip(n - 2)[1] != '*');
            }
        }
        chars_eq(directory, rule)
    }
}

/// The rule giving each device a directory of its own:
/// `${productId}/${deviceId}/*`.
pub open spec fn device_directory_rule() -> Seq<char> {
    "${productId}/${deviceId}/*"@
}

proof fn lemma_identifier_no(s: Seq<char>, c: char)
    requires
        valid_identifier(s),
        !(is_ascii_alnum(c) || c == '-' || c == '_'),
    ensures
        forall|i: int| 0 <= i < s.len() ==> s[i] != c,
{
    assert forall|i: int| 0 <= i < s.len() implies s[i] != c by {
        assert(is_ascii_alnum(s[i]) || s[i] == '-' || s[i] == '_');
    }
}

/// The device rule, expanded for a product and a device that are
/// identifiers, is `{product}/{device}/*`.
proof fn lemma_expand_device_rule(p: Seq<char>, d: Seq<char>)
    requires
        valid_identifier(p),
        valid_identifier(d),
    ensures
        expand_rule(device_directory_rule(), p, d) == p + seq!['/'] + d + seq!['/', '*'],
{
    reveal_strlit("${productId}/${deviceId}/*");
    reveal_strlit("${productId}");
    reveal_strlit("${deviceId}");
    let pp = "${productId}"@;
    let dp = "${deviceId}"@;
    let rest = seq!['/'] + dp + seq!['/', '*'];
    assert(device_directory_rule() =~= pp + rest);
    lemma_replace_at_start(pp, rest, p);
    // In the rest, only `${deviceId}` starts with `$`, and it is not
    // `${productId}`.
    let tail = dp.drop_first() + seq!['/', '*'];
    assert(rest =~= seq!['/'] + (seq!['$'] + tail));
    lemma_replace_skip_prefix(seq!['/'], seq!['$'] + tail, pp, p);
    let u = seq!['$'] + tail;
    assert(u.take(pp.len() as int)[2] != pp[2]);
    assert(u.drop_first() =~= tail);
    lemma_replace_none(tail, pp, p);
    assert(replace_all(rest, pp, p) =~= rest);
    let step = replace_all(device_directory_rule(), pp, p);
    assert(step =~= p + (seq!['/'] + (dp + seq!['/', '*'])));
    lemma_identifier_no(p, '$');
    lemma_replace_skip_prefix(p, seq!['/'] + (dp + seq!['/', '*']), dp, d);
    lemma_replace_skip_prefix(seq!['/'], dp + seq!['/', '*'], dp, d);
    lemma_replace_at_start(dp, seq!['/', '*'], d);
    lemma_replace_none(seq!['/', '*'], dp, d);
    assert(expand_rule(device_directory_rule(), p, d) =~= p + seq!['/'] + d + seq!['/', '*']);
}

/// Devices of a product never share an upload directory under the device
/// rule: when it admits a directory for two devices (identifiers both),
/// they are the same device.
pub proof fn law_device_directories_disjoint(
    p: Seq<char>,
    a: Seq<char>,
    b: Seq<char>,
    directory: Seq<char>,
)
    requires
        valid_identifier(p),
        valid_identifier(a),
        valid_identifier(b),
        rule_allows(expand_rule(device_directory_rule(), p, a), directory),
        rule_allows(expand_rule(device_directory_rule(), p, b), directory),
    ensures
        a == b,
{
    lemma_expand_device_rule(p, a);
    lemma_expand_device_rule(p, b);
    reveal_strlit("/*");
    reveal_strlit("/");
    let ra = p + seq!['/'] + a + seq!['/', '*'];
    let rb = p + seq!['/'] + b + seq!['/', '*'];
    assert(ends_with(ra, "/*"@)) by {
        assert("/*"@ =~= seq!['/', '*']);
        assert(ra.skip(ra.len() - 2) =~= seq!['/', '*']);
    }
    assert(ends_with(rb, "/*"@)) by {
        assert("/*"@ =~= seq!['/', '*']);
        assert(rb.skip(rb.len() - 2) =~= seq!['/', '*']);
    }
    let ba = p + seq!['/'] + a;
    let bb = p + seq!['/'] + b;
    assert(ra.take(ra.len() - 2) =~= ba);
    assert(rb.take(rb.len() - 2) =~= bb);
    lemma_identifier_no(a, '/');
    lemma_identifier_no(b, '/');
    let k: int = p.len() as int + 1;
    // Both bases are prefixes of the directory, each followed by its end
    // or a `/`.
    assert(directory.len() >= ba.len() && directory.take(ba.len() as int) =~= ba);
    assert(directory.len() >= bb.len() && directory.take(bb.len() as int) =~= bb);
    assert("/"@ =~= seq!['/']);
    assert(directory.len() == ba.len() || directory[ba.len() as int] == '/') by {
        if directory != ba {
            assert(directory.take(ba.len() as int + 1) =~= ba + seq!['/']);
            assert(directory.take(ba.len() as int + 1)[ba.len() as int] == '/');
        }
    }
    assert(directory.len() == bb.len() || directory[bb.len() as int] == '/') by {
        if directory != bb {
            assert(directory.take(bb.len() as int + 1) =~= bb + seq!['/']);
            assert(directory.take(bb.len() as int + 1)[bb.len() as int] == '/');
        }
    }
    if a.len() < b.len() {
        let i = k + a.len() as int;
        assert(bb[i] == b[a.len() as int]);
        assert(directory.take(bb.len() as int)[i] == directory[i]);
        assert(directory[k + a.len() as int] == b[a.len() as int]);
        assert(false);
    } else if b.len() < a.len() {
        let i = k + b.len() as int;
        assert(ba[i] == a[b.len() as int]);
        assert(directory.take(ba.len() as int)[i] == directory[i]);
        assert(directory[k + b.len() as int] == a[b.len() as int]);
        assert(false);
    } else {
        assert forall|i: int| 0 <= i < a.len() implies a[i] == b[i] by {
            assert(ba[k + i] == a[i]);
            assert(bb[k + i] == b[i]);
            assert(directory.take(ba.len() as int)[k + i] == directory[k + i]);
            assert(directory.take(bb.len() as int)[k + i] == directory[k + i]);
        }
        assert(a =~= b);
    }
}

/// Whether an upload to `directory` is allowed by the configured rules,
/// after `${productId}` and `${deviceId}` in each rule are replaced by the
/// given ids.
pub fn is_file_upload_directory_allowed(
    rules: &[String],
    product_id: &str,
    device_id: &str,
    directory: &str,
) -> (b: bool)
    ensures
        b == directory_allowed(string_views(rules@), product_id@, device_id@, directory@),
{
    let pid_pat = chars_of("${productId}");
    let did_pat = chars_of("${deviceId}");
    proof {
        reveal_strlit("${productId}");
        reveal_strlit("${deviceId}");
    }
    let pid = chars_of(product_id);
    let did = chars_of(device_id);
    let dir = chars_of(directory);
    let ghost rv = string_views(rules@);
    let mut i: usize = 0;
    while i < rules.len()
        invariant
            i <= rules@.len(),
            rv == string_views(rules@),
            pid_pat@ == "${productId}"@,
            did_pat@ == "${deviceId}"@,
            pid_pat@.len() > 0,
            did_pat@.len() > 0,
            pid@ == product_id@,
            did@ == device_id@,
            dir@ == directory@,
            forall|j: int|
                0 <= j < i ==> !rule_allows(
                    expand_rule(#[trigger] rv[j], product_id@, device_id@),
                    directory@,
                ),
        decreases rules@.len() - i,
    {
        let rule = chars_of(rules[i].as_str());
        let step = replace_chars(&rule, &pid_pat, &pid);
        let expanded = replace_chars(&step, &did_pat, &did);
        assert(rv[i as int] == rules@[i as int]@);
        if rule_allows_exec(&expanded, &dir) {
            return true;
        }
        i = i + 1;
    }
    false
}

// ---------------------------------------------------------------------------
// Device identity on connect / disconnect
// ---------------------------------------------------------------------------

/// Fills in a missing product id from the connection's username and a
/// missing device id from its client id, then checks both are identifiers.
pub fn resolve_device_identity(
    product_id: &mut String,
    device_id: &mut String,
    username: &str,
    client_id: Option<&str>,
) -> (r: Result<(), ApiError>)
    ensures
        final(product_id)@ == (if old(product_id)@.len() == 0 {
            username@
        } else {
            old(product_id)@
        }),
        final(device_id)@ == (if old(device_id)@.len() == 0 && client_id is Some {
            client_id->0@
        } else {
            old(device_id)@
        }),
        r is Ok <==> valid_identifier(final(product_id)@) && valid_identifier(final(device_id)@),
        final(product_id)@.len() == 0 || final(device_id)@.len() == 0 ==> fails_with(
            r,
            400,
            "Invalid device identity"@,
        ),
        final(product_id)@.len() > 0 && final(device_id)@.len() > 0 && !valid_identifier(
            final(product_id)@,
        ) ==> fails_with(r, 400, identifier_error(final(product_id)@, "product_id"@)),
        final(product_id)@.len() > 0 && final(device_id)@.len() > 0 && valid_identifier(
            final(product_id)@,
        ) && !valid_identifier(final(device_id)@) ==> fails_with(
            r,
            400,
            identifier_error(final(device_id)@, "device_id"@),
        ),
{
    if product_id.as_str().is_empty() {
        let v = chars_of(username);
        *product_id = string_from(&v);
    }
    if device_id.as_str().is_empty() {
        if let Some(cid) = client_id {
            let v = chars_of(cid);
            *device_id = string_from(&v);
        }
    }
    if product_id.as_str().is_empty() || device_id.as_str().is_empty() {
        return Err(ApiError::bad_request("Invalid device identity"));
    }
    validate_identifier(product_id.as_str(), "product_id")?;
    validate_identifier(device_id.as_str(), "device_id")?;
    Ok(())
}

// ---------------------------------------------------------------------------
// Service replies: `{prefix}:{db_id}` correlation ids
// ---------------------------------------------------------------------------

/// Which kind of command a reply answers.
#[derive(Clone, Copy, Debug, PartialEq, Eq, Structural)]
pub enum ReplyTarget {
    /// `property:{db_id}`: a property command.
    Property,
    /// `action:{db_id}`: an action invocation.
    Action,
    /// Any other prefix: acknowledged and otherwise ignored.
    Unknown,
}

/// A parsed service reply.
#[derive(Debug)]
pub struct ServiceReply {
    pub target: ReplyTarget,
    pub db_id: i64,
    pub status: CommandStatus,
}

/// Any 2xx reply code counts as success, everything else as failure.
pub open spec fn reply_status_spec(code: i32) -> CommandStatus {
    if 200 <= code <= 299 {
        CommandStatus::Success
    } else {
        CommandStatus::Failed
    }
}

/// The meaning of a reply with code `code` and correlation id `id`: the
/// id splits at its first `:` into a prefix and a decimal database id.
pub open spec fn reply_spec(code: i32, id: Seq<char>) -> Option<(ReplyTarget, i64, CommandStatus)> {
    if exists|c: int| first_index_of(id, ':', c) {
        let c = choose|c: int| first_index_of(id, ':', c);
        let prefix = id.take(c);
        match parse_i64_spec(id.skip(c + 1)) {
            Some(db_id) => Some(
                (
                    if prefix == "property"@ {
                        ReplyTarget::Property
                    } else if prefix == "action"@ {
                        ReplyTarget::Action
                    } else {
                        ReplyTarget::Unknown
                    },
                    db_id,
                    reply_status_spec(code),
                ),
            ),
            None => None,
        }
    } else {
        None
    }
}

/// Reads a service reply: its success from the reply code and the command
/// it answers from the correlation id. A malformed id is a 400.
pub fn parse_service_reply(code: i32, id: &str) -> (r: Result<ServiceReply, ApiError>)
    ensures
        match reply_spec(code, id@) {
            Some((target, db_id, status)) => r matches Ok(rep) && rep.target == target
                && rep.db_id == db_id && rep.status == status,
            None => fails_with(r, 400, "Invalid id format"@),
        },
{
    let status = if 200 <= code && code <= 299 {
        CommandStatus::Success
    } else {
        CommandStatus::Failed
    };
    let v = chars_of(id);
    let c = match find_first(&v, ':') {
        Some(c) => c,
        None => {
            return Err(ApiError::bad_request("Invalid id format"));
        },
    };
    proof {
        assert(exists|c2: int| first_index_of(id@, ':', c2));
        let c2 = choose|c2: int| first_index_of(id@, ':', c2);
        if c2 < c {
            assert(v@[c2] != ':');
        }
        if c < c2 {
            assert(id@[c as int] != ':');
        }
    }
    let n = v.len();
    assert(c < n);
    let rest = sub_chars(&v, c + 1, n);
    assert(rest@ == id@.skip(c + 1));
    let db_id = match parse_i64(&rest) {
        Some(x) => x,
        None => {
            return Err(ApiError::bad_request("Invalid id format"));
        },
    };
    let prefix = sub_chars(&v, 0, c);
    assert(prefix@ == id@.take(c as int));
    let property = chars_of("property");
    let action = chars_of("action");
    let target = if chars_eq(&prefix, &property) {
        ReplyTarget::Property
    } else if chars_eq(&prefix, &action) {
        ReplyTarget::Action
    } else {
        ReplyTarget::Unknown
    };
    Ok(ServiceReply { target, db_id, status })
}

// ---------------------------------------------------------------------------
// Subscriptions
// ---------------------------------------------------------------------------

/// The second segment of the topic (leading `/` ignored) names the
/// subscribing client.
pub open spec fn subscribe_topic_matches(topic: Seq<char>, device_id: Seq<char>) -> bool {
    let parts = split_on(trim_leading(topic, '/'), '/');
    parts.len() >= 2 && parts[1] == device_id
}

/// Whether a subscription topic's second segment is the client's id.
pub fn subscribe_topic_matches_client(topic: &str, device_id: &str) -> (b: bool)
    ensures
        b == subscribe_topic_matches(topic@, device_id@),
{
    let v = chars_of(topic);
    let start = skip_leading(&v, '/');
    let rest = sub_chars(&v, start, v.len());
    assert(rest@ == v@.skip(start as int));
    let parts = split_chars(&rest, '/');
    let did = chars_of(device_id);
    if parts.len() < 2 {
        return false;
    }
    assert(views(parts@)[1] == parts@[1]@);
    chars_eq(&parts[1], &did)
}

// ---------------------------------------------------------------------------
// Upload object keys
// ---------------------------------------------------------------------------

/// The object key of an upload: `{directory}/{file_name}`, where the file
/// name is prefixed with `{unique}_` unless the file keeps its own name.
pub open spec fn object_key_spec(
    directory: Seq<char>,
    file_name: Seq<char>,
    use_origin_name: bool,
    unique: Seq<char>,
) -> Seq<char> {
    if use_origin_name {
        directory + "/"@ + file_name
    } else {
        directory + "/"@ + unique + "_"@ + file_name
    }
}

/// Builds the object key of an upload from a unique prefix.
pub fn object_key_with_prefix(
    directory: &str,
    file_name: &str,
    use_origin_name: bool,
    unique: &str,
) -> (k: String)
    ensures
        k@ == object_key_spec(directory@, file_name@, use_origin_name, unique@),
{
    let mut v = chars_of(directory);
    let slash = chars_of("/");
    extend_chars(&mut v, &slash);
    if !use_origin_name {
        let u = chars_of(unique);
        let us = chars_of("_");
        extend_chars(&mut v, &u);
        extend_chars(&mut v, &us);
    }
    let f = chars_of(file_name);
    extend_chars(&mut v, &f);
    string_from(&v)
}

/// A lowercase hexadecimal digit.
pub open spec fn lower_hex_digit(c: char) -> bool {
    ('0' <= c <= '9') || ('a' <= c <= 'f')
}

/// The hyphenated text of a random (version 4, RFC 4122 variant) UUID:
/// 36 characters, hyphens at 8, 13, 18 and 23 and lowercase hex digits
/// elsewhere, the version digit `4` at 14 and a variant digit of `8`, `9`,
/// `a` or `b` at 19.
pub open spec fn uuid_v4_text(u: Seq<char>) -> bool {
    &&& u.len() == 36
    &&& forall|i: int|
        0 <= i < 36 ==> if i == 8 || i == 13 || i == 18 || i == 23 {
            #[trigger] u[i] == '-'
        } else {
            lower_hex_digit(u[i])
        }
    &&& u[14] == '4'
    &&& (u[19] == '8' || u[19] == '9' || u[19] == 'a' || u[19] == 'b')
}

/// `uuid::Uuid::new_v4().to_string()`: a fresh random UUID in its
/// hyphenated lowercase form (`new_v4` fixes the version and variant bits;
/// `Display` writes `as_hyphenated` in lowercase). Which UUID is left to
/// chance.
#[verifier::external_body]
fn new_uuid_string() -> (s: String)
    ensures
        uuid_v4_text(s@),
{
    uuid::Uuid::new_v4().to_string()
}

/// The object key of an upload, with a fresh random UUID as the unique
/// prefix.
pub fn upload_object_key(directory: &str, file_name: &str, use_origin_name: bool) -> (k: String)
    ensures
        exists|u: Seq<char>|
            uuid_v4_text(u) && k@ == object_key_spec(directory@, file_name@, use_origin_name, u),
{
    let u = new_uuid_string();
    object_key_with_prefix(directory, file_name, use_origin_name, u.as_str())
}

// ---------------------------------------------------------------------------
// Device reports
// ---------------------------------------------------------------------------

/// The `params` of a property or event report must be a JSON object.
pub fn check_report_params(params: Option<&JsonValue>) -> (r: Result<(), ApiError>)
    ensures
        r is Ok <==> (params matches Some(p) && p.deep() is Object),
        r is Err ==> fails_with(r, 400, "Invalid params format"@),
{
    match params {
        Some(p) => if p.is_object() {
            Ok(())
        } else {
            Err(ApiError::bad_request("Invalid params format"))
        },
        None => Err(ApiError::bad_request("Invalid params format")),
    }
}

/// What a device reports.
#[derive(Clone, Copy, Debug, PartialEq, Eq, Structural)]
pub enum ReportKind {
    Property,
    Event,
}

/// A report with schema violations is refused.
pub fn check_schema_violations(kind: ReportKind, violations: usize) -> (r: Result<(), ApiError>)
    ensures
        r is Ok <==> violations == 0,
        r is Err ==> fails_with(
            r,
            400,
            match kind {
                ReportKind::Property => "Property validation failed"@,
                ReportKind::Event => "Event validation failed"@,
            },
        ),
{
    if violations == 0 {
        return Ok(());
    }
    match kind {
        ReportKind::Property => Err(ApiError::bad_request("Property validation failed")),
        ReportKind::Event => Err(ApiError::bad_request("Event validation failed")),
    }
}

/// The message a report of this kind is refused with when it breaks its
/// schema.
pub open spec fn violation_message(kind: ReportKind) -> Seq<char> {
    match kind {
        ReportKind::Property => "Property validation failed"@,
        ReportKind::Event => "Event validation failed"@,
    }
}

/// What checking a report against its schema gives, from the number of
/// errors found (`None` when the schema did not compile): a 500 for a
/// schema that does not compile, a 400 for a report with errors, and
/// acceptance otherwise.
pub fn check_schema_outcome(kind: ReportKind, errors: Option<usize>) -> (r: Result<(), ApiError>)
    ensures
        match errors {
            None => fails_with(r, 500, "Schema compilation failed"@),
            Some(n) => (r is Ok <==> n == 0) && (n > 0 ==> fails_with(r, 400, violation_message(kind))),
        },
{
    match errors {
        None => Err(ApiError::internal("Schema compilation failed")),
        Some(n) => check_schema_violations(kind, n),
    }
}

/// Checks a report against the schema of its product (or event), when
/// there is one: with no schema the report is accepted; otherwise the
/// schema is compiled and the report's errors counted, as
/// `check_schema_outcome` says.
pub fn validate_report(kind: ReportKind, schema: Option<&JsonValue>, report: &JsonValue) -> (r:
    Result<(), ApiError>)
    ensures
        match schema {
            None => r is Ok,
            Some(s) => match schema_error_count_of(s@, report@) {
                None => fails_with(r, 500, "Schema compilation failed"@),
                Some(n) => (r is Ok <==> n == 0) && (n > 0 ==> fails_with(
                    r,
                    400,
                    violation_message(kind),
                )),
            },
        },
{
    match schema {
        None => Ok(()),
        Some(s) => {
            let errors = schema_error_count(s, report);
            check_schema_outcome(kind, errors)
        },
    }
}

/// An event report whose event identifier is `property` is a property
/// report.
pub fn routes_to_property(event_identifier: Option<&str>) -> (b: bool)
    ensures
        b == (event_identifier matches Some(e) && e@ == "property"@),
{
    match event_identifier {
        Some(e) => {
            let v = chars_of(e);
            let p = chars_of("property");
            chars_eq(&v, &p)
        },
        None => false,
    }
}

// ---------------------------------------------------------------------------
// Subscriptions and uploads
// ---------------------------------------------------------------------------

/// The outcome of a service subscription: the subscribing client must be
/// an identifier, its username (the product id; empty when absent) too,
/// and a given topic must name the client as its second segment. The
/// product id is returned.
pub open spec fn subscription_error(
    client_id: Seq<char>,
    username: Option<Seq<char>>,
    topic: Option<Seq<char>>,
) -> Option<Seq<char>> {
    let product = match username {
        Some(u) => u,
        None => Seq::empty(),
    };
    if !valid_identifier(client_id) {
        Some(identifier_error(client_id, "device_id"@))
    } else if !valid_identifier(product) {
        Some(identifier_error(product, "product_id"@))
    } else if topic matches Some(t) && !subscribe_topic_matches(t, client_id) {
        Some("Topic does not match clientId"@)
    } else {
        None
    }
}

/// Checks a service subscription and gives the product id it is for.
pub fn check_subscription(client_id: &str, username: Option<&str>, topic: Option<&str>) -> (r:
    Result<String, ApiError>)
    ensures
        match subscription_error(
            client_id@,
            match username {
                Some(u) => Some(u@),
                None => None,
            },
            match topic {
                Some(t) => Some(t@),
                None => None,
            },
        ) {
            Some(m) => fails_with(r, 400, m),
            None => r matches Ok(p) && p@ == (match username {
                Some(u) => u@,
                None => Seq::empty(),
            }),
        },
{
    validate_identifier(client_id, "device_id")?;
    let product: &str = match username {
        Some(u) => u,
        None => "",
    };
    proof {
        reveal_strlit("");
        assert(""@ =~= Seq::<char>::empty());
    }
    validate_identifier(product, "product_id")?;
    if let Some(t) = topic {
        if !subscribe_topic_matches_client(t, client_id) {
            return Err(ApiError::bad_request("Topic does not match clientId"));
        }
    }
    let v = chars_of(product);
    Ok(string_from(&v))
}

/// An upload into a directory no rule admits is refused.
pub fn check_upload_directory(
    rules: &[String],
    product_id: &str,
    device_id: &str,
    directory: &str,
) -> (r: Result<(), ApiError>)
    ensures
        r is Ok <==> directory_allowed(string_views(rules@), product_id@, device_id@, directory@),
        r is Err ==> fails_with(r, 400, "Directory not allowed"@),
{
    if is_file_upload_directory_allowed(rules, product_id, device_id, directory) {
        Ok(())
    } else {
        Err(ApiError::bad_request("Directory not allowed"))
    }
}

// ---------------------------------------------------------------------------
// Report handling, step by step
// ---------------------------------------------------------------------------

/// What to do with a report that passed its first checks.
#[derive(Debug)]
pub enum ReportStep {
    /// Load the schema of the product (for an event, of the event) and
    /// check the report against it with `report_checked`.
    LoadSchema { product_id: String },
    /// Store the report.
    Store { product_id: String },
}

/// The outcome of the first checks of a property report: the device id
/// must be an identifier, the report's `params` an object, and the topic
/// must name a valid product (`topic_product`, the result of reading it);
/// then the schema is loaded when schema checks are on, and the report is
/// stored otherwise.
pub open spec fn report_start_outcome(
    device_id: Seq<char>,
    params: Option<JsonValue>,
    schema_checks_on: bool,
    topic_product: Result<String, ApiError>,
    r: Result<ReportStep, ApiError>,
) -> bool {
    if !valid_identifier(device_id) {
        fails_with(r, 400, identifier_error(device_id, "device_id"@))
    } else if !(params matches Some(p) && p@ is Object) {
        fails_with(r, 400, "Invalid params format"@)
    } else {
        match topic_product {
            Err(e) => r == Err::<ReportStep, ApiError>(e),
            Ok(p) => if schema_checks_on {
                r matches Ok(ReportStep::LoadSchema { product_id }) && product_id == p
            } else {
                r matches Ok(ReportStep::Store { product_id }) && product_id == p
            },
        }
    }
}

/// The document a reference holds, if any.
pub open spec fn given_json(o: Option<&JsonValue>) -> Option<JsonValue> {
    match o {
        Some(p) => Some(*p),
        None => None,
    }
}

/// The first checks of a property report, in order.
pub fn property_report_start(
    device_id: &str,
    params: Option<&JsonValue>,
    schema_checks_on: bool,
    topic_product: Result<String, ApiError>,
) -> (r: Result<ReportStep, ApiError>)
    ensures
        report_start_outcome(
            device_id@,
            given_json(params),
            schema_checks_on,
            topic_product,
            r,
        ),
{
    validate_identifier(device_id, "device_id")?;
    check_report_params(params)?;
    let product_id = match topic_product {
        Ok(p) => p,
        Err(e) => {
            return Err(e);
        },
    };
    if schema_checks_on {
        Ok(ReportStep::LoadSchema { product_id })
    } else {
        Ok(ReportStep::Store { product_id })
    }
}

/// What to do with an event report that passed its first checks.
#[derive(Debug)]
pub enum EventStep {
    /// The event is a property report: handle it as one.
    AsProperty,
    /// As for a property report.
    Report(ReportStep),
}

/// The outcome of an event report's first checks, when the event is not a
/// property report: the outcome of a property report's first checks,
/// carried into the event's steps.
pub open spec fn event_start_outcome(
    device_id: Seq<char>,
    params: Option<JsonValue>,
    schema_checks_on: bool,
    topic_product: Result<String, ApiError>,
    r: Result<EventStep, ApiError>,
) -> bool {
    exists|s: Result<ReportStep, ApiError>|
        #[trigger] report_start_outcome(device_id, params, schema_checks_on, topic_product, s)
            && match s {
            Ok(step) => r == Ok::<EventStep, ApiError>(EventStep::Report(step)),
            Err(e) => r == Err::<EventStep, ApiError>(e),
        }
}

/// The first checks of an event report, in order: an event whose
/// identifier is `property` is handled as a property report; otherwise
/// the checks of a property report apply, and the event's schema is loaded
/// only when schema checks are on and the topic names an event.
pub fn event_report_start(
    event_identifier: Option<&str>,
    device_id: &str,
    params: Option<&JsonValue>,
    schema_checks_on: bool,
    topic_product: Result<String, ApiError>,
) -> (r: Result<EventStep, ApiError>)
    ensures
        (event_identifier matches Some(e) && e@ == "property"@) ==> r matches Ok(EventStep::AsProperty),
        !(event_identifier matches Some(e) && e@ == "property"@) ==> event_start_outcome(
            device_id@,
            given_json(params),
            schema_checks_on && event_identifier is Some,
            topic_product,
            r,
        ),
{
    if routes_to_property(event_identifier) {
        return Ok(EventStep::AsProperty);
    }
    let s = property_report_start(device_id, params, schema_checks_on && event_identifier.is_some(), topic_product);
    match s {
        Ok(step) => Ok(EventStep::Report(step)),
        Err(e) => Err(e),
    }
}

/// The check of a report against its loaded schema (`None` when there is
/// none); when it passes, the report is stored under its product.
pub fn report_checked(
    kind: ReportKind,
    product_id: String,
    schema: Option<&JsonValue>,
    report: &JsonValue,
) -> (r: Result<ReportStep, ApiError>)
    ensures
        match schema {
            None => r matches Ok(ReportStep::Store { product_id: p }) && p == product_id,
            Some(s) => match schema_error_count_of(s@, report@) {
                None => fails_with(r, 500, "Schema compilation failed"@),
                Some(n) => (n == 0 ==> (r matches Ok(ReportStep::Store { product_id: p })
                    && p == product_id)) && (n > 0 ==> fails_with(r, 400, violation_message(kind))),
            },
        },
{
    validate_report(kind, schema, report)?;
    Ok(ReportStep::Store { product_id })
}

// ---------------------------------------------------------------------------
// File upload handling, step by step
// ---------------------------------------------------------------------------

/// The object key an upload is granted, after its checks in order: the
/// topic must name a valid product (`topic_product`), the device id must
/// be an identifier, and a directory rule must admit the directory; the
/// key is the directory and file name, with a fresh random UUID prefixed
/// to the name unless the original name is kept.
pub fn file_upload_step(
    rules: &[String],
    topic_product: Result<String, ApiError>,
    device_id: &str,
    directory: &str,
    file_name: &str,
    use_origin_name: bool,
) -> (r: Result<String, ApiError>)
    ensures
        topic_product matches Err(e) ==> r == Err::<String, ApiError>(e),
        topic_product matches Ok(p) ==> {
            if !valid_identifier(device_id@) {
                fails_with(r, 400, identifier_error(device_id@, "device_id"@))
            } else if !directory_allowed(string_views(rules@), p@, device_id@, directory@) {
                fails_with(r, 400, "Directory not allowed"@)
            } else {
                r matches Ok(k) && exists|u: Seq<char>|
                    uuid_v4_text(u) && k@ == object_key_spec(directory@, file_name@, use_origin_name, u)
            }
        },
{
    let product_id = match topic_product {
        Ok(p) => p,
        Err(e) => {
            return Err(e);
        },
    };
    validate_identifier(device_id, "device_id")?;
    check_upload_directory(rules, product_id.as_str(), device_id, directory)?;
    Ok(upload_object_key(directory, file_name, use_origin_name))
}

/// The members of the reply to a device whose upload cannot be served
/// because no object storage is configured: its request id, code 503 and
/// the message `do not support file upload`.
pub open spec fn unsupported_reply_members(id: Seq<char>) -> Seq<(Seq<char>, Json)> {
    seq![
        ("id"@, Json::Str(id)),
        ("code"@, Json::Number("503"@)),
        ("data"@, Json::Object(map!["message"@ => Json::Str("do not support file upload"@)])),
    ]
}

/// The reply to an upload request when no object storage is configured.
pub fn unsupported_upload_reply(id: String) -> (v: JsonValue)
    ensures
        v matches JsonValue::Object(m) && members(m@) == unsupported_reply_members(id@),
{
    let ghost gid = id@;
    let mut inner: Vec<(String, JsonValue)> = Vec::new();
    inner.push((owned("message"), JsonValue::String(owned("do not support file upload"))));
    let mut m: Vec<(String, JsonValue)> = Vec::new();
    m.push((owned("id"), JsonValue::String(id)));
    m.push((owned("code"), JsonValue::Number(owned("503"))));
    m.push((owned("data"), JsonValue::Object(inner)));
    proof {
        lemma_members(m@);
        lemma_members(inner@);
        reveal_strlit("message");
        assert(members(inner@) =~= seq![("message"@, Json::Str("do not support file upload"@))]);
        assert(entries_map(members(inner@)) =~= map!["message"@ => Json::Str("do not support file upload"@)]) by {
            let e = members(inner@);
            assert(e.drop_last() =~= Seq::<(Seq<char>, Json)>::empty());
            assert(entries_map(e.drop_last()) =~= Map::<Seq<char>, Json>::empty());
            assert(entries_map(e) == entries_map(e.drop_last()).insert(e.last().0, e.last().1));
        }
        assert(members(m@) =~= unsupported_reply_members(gid));
    }
    JsonValue::Object(m)
}

// ---------------------------------------------------------------------------
// Service replies and version reports, first steps
// ---------------------------------------------------------------------------

/// The checks a service reply passes before its payload is read, in
/// order: the client id must be an identifier, the topic must name a valid
/// product (`topic_product`) and a service type (`service_type`, `None`
/// when the topic names none, a 400 `Invalid service topic`). Gives the
/// product id and the service type.
pub fn service_reply_target(
    client_id: &str,
    topic_product: Result<String, ApiError>,
    service_type: Option<String>,
) -> (r: Result<(String, String), ApiError>)
    ensures
        !valid_identifier(client_id@) ==> fails_with(r, 400, identifier_error(client_id@, "device_id"@)),
        valid_identifier(client_id@) ==> match topic_product {
            Err(e) => r == Err::<(String, String), ApiError>(e),
            Ok(p) => match service_type {
                None => fails_with(r, 400, "Invalid service topic"@),
                Some(t) => r == Ok::<(String, String), ApiError>((p, t)),
            },
        },
{
    validate_identifier(client_id, "device_id")?;
    let product_id = match topic_product {
        Ok(p) => p,
        Err(e) => {
            return Err(e);
        },
    };
    match service_type {
        Some(t) => Ok((product_id, t)),
        None => Err(ApiError::bad_request("Invalid service topic")),
    }
}

/// The checks a version report passes before its payload is read, in
/// order: the topic must name a valid product (`topic_product`), then the
/// device id must be an identifier. Gives the product id.
pub fn version_report_start(topic_product: Result<String, ApiError>, device_id: &str) -> (r: Result<
    String,
    ApiError,
>)
    ensures
        topic_product matches Err(e) ==> r == Err::<String, ApiError>(e),
        topic_product matches Ok(p) ==> if valid_identifier(device_id@) {
            r == Ok::<String, ApiError>(p)
        } else {
            fails_with(r, 400, identifier_error(device_id@, "device_id"@))
        },
{
    let product_id = match topic_product {
        Ok(p) => p,
        Err(e) => {
            return Err(e);
        },
    };
    validate_identifier(device_id, "device_id")?;
    Ok(product_id)
}

// ---------------------------------------------------------------------------
// Laws of directory rules and service replies
// ---------------------------------------------------------------------------

/// A text ending in `/*` also ends in `*`.
proof fn lemma_slash_star_ends_star(r: Seq<char>)
    requires
        ends_with(r, "/*"@),
    ensures
        ends_with(r, "*"@),
{
    reveal_strlit("/*");
    reveal_strlit("*");
    assert(r.skip(r.len() - 1) =~= r.skip(r.len() - 2).skip(1));
    assert("/*"@.skip(1) =~= "*"@);
}

/// A rule without a trailing `*` admits exactly itself: whatever directory
/// it admits is the rule's own text, and no directory below it.
pub proof fn law_exact_rule_admits_only_itself(rule: Seq<char>, directory: Seq<char>)
    requires
        !ends_with(rule, "*"@),
        rule_allows(rule, directory),
    ensures
        directory == rule,
{
    if ends_with(rule, "/*"@) {
        lemma_slash_star_ends_star(rule);
    }
}

/// An exact rule admits its own text, and nothing that only begins with it.
pub proof fn law_exact_rule_refuses_subdirectories(rule: Seq<char>, rest: Seq<char>)
    requires
        !ends_with(rule, "*"@),
        rest.len() > 0,
    ensures
        rule_allows(rule, rule),
        !rule_allows(rule, rule + rest),
{
    if ends_with(rule, "/*"@) {
        lemma_slash_star_ends_star(rule);
    }
    assert((rule + rest).len() != rule.len());
}

/// Where no rule of a list ends in `*` once expanded, a directory is
/// allowed only when it equals one of the expanded rules.
pub proof fn law_exact_rules_allow_only_their_texts(
    rules: Seq<Seq<char>>,
    product_id: Seq<char>,
    device_id: Seq<char>,
    directory: Seq<char>,
)
    requires
        forall|i: int| 0 <= i < rules.len() ==> !ends_with(
            #[trigger] expand_rule(rules[i], product_id, device_id),
            "*"@,
        ),
        directory_allowed(rules, product_id, device_id, directory),
    ensures
        exists|i: int| 0 <= i < rules.len() && directory == #[trigger] expand_rule(rules[i], product_id, device_id),
{
    let i = choose|i: int| 0 <= i < rules.len() && rule_allows(
        expand_rule(rules[i], product_id, device_id),
        directory,
    );
    law_exact_rule_admits_only_itself(expand_rule(rules[i], product_id, device_id), directory);
}

/// Every 2xx reply code reports success and every other code failure,
/// whatever command the reply answers.
pub proof fn law_reply_success_is_2xx(code: i32, id: Seq<char>)
    requires
        reply_spec(code, id) is Some,
    ensures
        ((reply_spec(code, id)->0).2 == CommandStatus::Success) <==> (200 <= code && code <= 299),
        ((reply_spec(code, id)->0).2 == CommandStatus::Failed) <==> !(200 <= code && code <= 299),
{
}

} // verus!
