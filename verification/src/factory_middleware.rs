//! The API-key gate of the production-line routes: a request passes when
//! its `Authorization: Bearer <key>` names one of the configured keys,
//! compared in constant time. With no keys configured nothing passes.
use crate::error::fails_with;
use crate::error::ApiError;
use crate::text::chars_of;
use crate::text::owned;
use crate::text::starts_with;
use crate::text::starts_with_exec;
use crate::text::string_of;
use vstd::prelude::*;
use vstd::utf8::encode_utf8;

verus! {

/// `constant_time_eq::constant_time_eq`: whether two byte strings are
/// equal (of equal length and equal at every byte), compared in time that
/// does not depend on where they differ.
pub assume_specification[ constant_time_eq::constant_time_eq ](a: &[u8], b: &[u8]) -> (r: bool)
    ensures
        r == (a@ == b@),
;

/// The configured API keys of the production line.
#[derive(Debug)]
pub struct FactoryAuthState {
    pub api_keys: Vec<String>,
}

/// Who made an authorised production-line request.
#[derive(Debug)]
pub struct FactoryCaller {
    pub label: String,
}

/// The key of an `Authorization` header: what follows `Bearer `.
pub open spec fn bearer_of(header: Option<Seq<char>>) -> Option<Seq<char>> {
    match header {
        Some(h) => if starts_with(h, "Bearer "@) {
            Some(h.skip(7))
        } else {
            None
        },
        None => None,
    }
}

/// A key is accepted when it is one of the configured keys.
pub open spec fn key_accepted(key: Seq<char>, keys: Seq<String>) -> bool {
    exists|i: int| 0 <= i < keys.len() && (#[trigger] keys[i])@ == key
}

/// Authorises a production-line request from its `Authorization` header
/// (its text, when present and readable).
pub fn factory_authorize(authorization: Option<&str>, state: &FactoryAuthState) -> (r: Result<
    FactoryCaller,
    ApiError,
>)
    ensures
        match bearer_of(
            match authorization {
                Some(h) => Some(h@),
                None => None,
            },
        ) {
            Some(key) => if key_accepted(key, state.api_keys@) {
                r matches Ok(c) && c.label@ == "factory"@
            } else {
                fails_with(r, 401, "Invalid factory API key"@)
            },
            None => fails_with(r, 401, "Invalid factory API key"@),
        },
{
    let h = match authorization {
        Some(h) => h,
        None => {
            return Err(ApiError::unauthorized_with("Invalid factory API key"));
        },
    };
    proof {
        reveal_strlit("Bearer ");
    }
    let hv = chars_of(h);
    let prefix = chars_of("Bearer ");
    if !starts_with_exec(&hv, &prefix) {
        return Err(ApiError::unauthorized_with("Invalid factory API key"));
    }
    let bearer = string_of(&hv, 7, hv.len());
    assert(hv@.subrange(7, hv@.len() as int) == h@.skip(7));
    let keys = &state.api_keys;
    let mut i: usize = 0;
    while i < keys.len()
        invariant
            i <= keys@.len(),
            authorization == Some(h),
            starts_with(h@, "Bearer "@),
            bearer@ == h@.skip(7),
            keys == &state.api_keys,
            forall|j: int| 0 <= j < i ==> (#[trigger] keys@[j])@ != bearer@,
        decreases keys@.len() - i,
    {
        if constant_time_eq::constant_time_eq(bearer.as_str().as_bytes(), keys[i].as_str().as_bytes()) {
            proof {
                vstd::utf8::encode_utf8_decode_utf8(bearer@);
                vstd::utf8::encode_utf8_decode_utf8(keys@[i as int]@);
                assert(encode_utf8(bearer@) == encode_utf8(keys@[i as int]@));
            }
            assert(keys@[i as int]@ == bearer@);
            return Ok(FactoryCaller { label: owned("factory") });
        }
        i = i + 1;
    }
    Err(ApiError::unauthorized_with("Invalid factory API key"))
}

/// With no keys configured, no request is authorised.
pub proof fn law_no_keys_no_access(header: Option<Seq<char>>)
    ensures
        !(bearer_of(header) matches Some(k) && key_accepted(k, Seq::<String>::empty())),
{
}

} // verus!
