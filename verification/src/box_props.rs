//! Pairing properties: the bearer secret and the owner id derived from the
//! pairing token's `sub` claim.

use vstd::prelude::*;
use crate::range::{spec_find, lemma_find_char};
use crate::state::{hash_user_id, spec_hash_user_id};
use vstd::string::{StrSliceExecFns, StringSliceAdditionalSpecFns};
use vstd::utf8::encode_utf8;

verus! {

/// What URL-safe unpadded base64 decodes to; a function of the text alone.
pub uninterp spec fn b64url_decoded(s: Seq<char>) -> Option<Seq<u8>>;

/// Relies on base64's URL_SAFE_NO_PAD engine and its Engine::decode:
/// decoding is a function of the text alone, and text that is not valid
/// base64 decodes to nothing.
#[verifier::external_body]
fn b64url_decode(s: &str) -> (r: Option<Vec<u8>>)
    ensures
        r matches Some(v) ==> b64url_decoded(s@) == Some(v@),
        r is None ==> b64url_decoded(s@) is None,
{
    match base64::Engine::decode(&base64::engine::general_purpose::URL_SAFE_NO_PAD, s) {
        Ok(v) => Some(v),
        Err(_) => None,
    }
}

/// The string a top-level JSON field holds; a function of the document and
/// the field name alone.
pub uninterp spec fn json_str_field(data: Seq<u8>, field: Seq<char>) -> Option<Seq<char>>;

/// Relies on serde_json::from_slice, serde_json::Value::get and
/// serde_json::Value::as_str: the string a top-level field of a JSON
/// document holds, a function of the document and field name alone; a
/// document that does not parse, a missing field, and a field that is not
/// a string all yield nothing.
#[verifier::external_body]
fn json_string_field(data: &[u8], field: &str) -> (r: Option<String>)
    ensures
        r matches Some(v) ==> json_str_field(data@, field@) == Some(v@),
        r is None ==> json_str_field(data@, field@) is None,
{
    let value: serde_json::Value = match serde_json::from_slice(data) {
        Ok(v) => v,
        Err(_) => {
            return None;
        },
    };
    match value.get(field) {
        Some(f) => match f.as_str() {
            Some(s) => Some(s.to_string()),
            None => None,
        },
        None => None,
    }
}

/// The owner id a pairing token yields: the hashed `sub` claim of its
/// payload, or nothing when the token has no payload part, the payload is
/// not base64, or it holds no string `sub`.
pub open spec fn spec_jwt_owner(jwt: Seq<char>) -> Option<Seq<char>> {
    let d1 = spec_find(jwt, '.');
    if d1 < 0 {
        None
    } else {
        let rest = jwt.skip(d1 + 1);
        let d2 = spec_find(rest, '.');
        let payload = if d2 < 0 {
            rest
        } else {
            rest.take(d2)
        };
        match b64url_decoded(payload) {
            None => None,
            Some(bytes) => match json_str_field(bytes, "sub"@) {
                None => None,
                Some(sub) => Some(spec_hash_user_id(encode_utf8(sub))),
            },
        }
    }
}

/// Decode a pairing token's payload and hash its `sub` claim. The token is
/// not validated: only the claim is read.
pub fn extract_owner_id_from_jwt(jwt: &str) -> (r: Option<String>)
    ensures
        r matches Some(v) ==> spec_jwt_owner(jwt@) == Some(v@),
        r is None ==> spec_jwt_owner(jwt@) is None,
{
    let n = jwt.unicode_len();
    let mut d1: usize = 0;
    while d1 < n && jwt.get_char(d1) != '.'
        invariant
            d1 <= n,
            n == jwt@.len(),
            forall|j: int| 0 <= j < d1 ==> jwt@[j] != '.',
        decreases n - d1,
    {
        d1 = d1 + 1;
    }
    proof {
        lemma_find_char(jwt@, '.', d1 as int);
    }
    if d1 == n {
        return None;
    }
    let ghost rest = jwt@.skip(d1 + 1);
    let mut d2: usize = d1 + 1;
    while d2 < n && jwt.get_char(d2) != '.'
        invariant
            d1 + 1 <= d2 <= n,
            n == jwt@.len(),
            rest == jwt@.skip(d1 + 1),
            forall|j: int| d1 + 1 <= j < d2 ==> jwt@[j] != '.',
        decreases n - d2,
    {
        d2 = d2 + 1;
    }
    proof {
        assert forall|j: int| 0 <= j < d2 - (d1 + 1) implies rest[j] != '.' by {
            assert(rest[j] == jwt@[d1 + 1 + j]);
        }
        if d2 < n {
            assert(rest[d2 - (d1 + 1)] == jwt@[d2 as int]);
        }
        lemma_find_char(rest, '.', d2 - (d1 + 1));
    }
    let payload = jwt.substring_char(d1 + 1, d2);
    proof {
        if d2 == n {
            assert(payload@ =~= rest);
        } else {
            assert(payload@ =~= rest.take(d2 - (d1 + 1)));
        }
    }
    let bytes = match b64url_decode(payload) {
        Some(b) => b,
        None => {
            return None;
        },
    };
    let sub = match json_string_field(bytes.as_slice(), "sub") {
        Some(s) => s,
        None => {
            return None;
        },
    };
    Some(hash_user_id(sub.as_str()))
}

/// What the pairing-properties document yields: the derived owner id and
/// the bearer secret, each only when present and non-empty.
pub open spec fn spec_box_props(data: Seq<u8>) -> (Option<Seq<char>>, Option<Seq<char>>) {
    let bearer = match json_str_field(data, "auto_pin_pairing_secret"@) {
        Some(s) => if s.len() > 0 {
            Some(s)
        } else {
            None
        },
        None => None,
    };
    let owner = match json_str_field(data, "auto_pin_token"@) {
        Some(t) => if t.len() > 0 {
            spec_jwt_owner(t)
        } else {
            None
        },
        None => None,
    };
    (owner, bearer)
}

/// Read the owner filter and bearer secret out of a pairing-properties
/// document. Nothing here is fatal: whatever cannot be read is absent.
pub fn parse_box_props(data: &[u8]) -> (r: (Option<String>, Option<String>))
    ensures
        (match r.0 {
            Some(o) => Some(o@),
            None => None,
        }, match r.1 {
            Some(b) => Some(b@),
            None => None,
        }) == spec_box_props(data@),
{
    let bearer: Option<String> = match json_string_field(data, "auto_pin_pairing_secret") {
        Some(s) => if s.as_str().unicode_len() > 0 {
            Some(s)
        } else {
            None
        },
        None => None,
    };
    let owner: Option<String> = match json_string_field(data, "auto_pin_token") {
        Some(t) => if t.as_str().unicode_len() > 0 {
            extract_owner_id_from_jwt(t.as_str())
        } else {
            None
        },
        None => None,
    };
    (owner, bearer)
}

} // verus!
