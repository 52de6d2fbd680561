//! Bearer-only authentication: a constant-time token check and the
//! decision attaching a session to each request.
//!
//! With a configured bearer secret every request must carry
//! `Authorization: Bearer <secret>`; without one (unpaired device) every
//! request authenticates as the local device.

use vstd::prelude::*;
use crate::error::{ApiError, S3ErrorCode};
use crate::state::LocalSession;
use vstd::string::StringSliceAdditionalSpecFns;
use vstd::utf8::encode_utf8;

verus! {

/// Constant-time byte comparison: the result says whether the inputs are
/// equal, and the scan never exits early on a mismatch.
pub fn constant_time_eq(a: &[u8], b: &[u8]) -> (r: bool)
    ensures
        r == (a@ == b@),
{
    if a.len() != b.len() {
        proof {
            assert(a@ != b@);
        }
        return false;
    }
    let n = a.len();
    let mut acc: u8 = 0;
    let mut i: usize = 0;
    while i < n
        invariant
            i <= n,
            n == a@.len(),
            n == b@.len(),
            (acc == 0) <==> (forall|j: int| 0 <= j < i ==> a@[j] == b@[j]),
        decreases n - i,
    {
        let x = a[i];
        let y = b[i];
        proof {
            assert(((acc | (x ^ y)) == 0) == (acc == 0 && x == y)) by (bit_vector);
        }
        acc = acc | (x ^ y);
        i = i + 1;
    }
    if acc == 0 {
        proof {
            assert(a@ =~= b@);
        }
        true
    } else {
        false
    }
}

/// Whether header bytes begin with `Bearer` and a space.
pub open spec fn spec_has_bearer_prefix(hb: Seq<u8>) -> bool {
    hb.len() >= 7 && hb.subrange(0, 7) == ("Bearer ").spec_bytes()
}

/// What a session looks like for this configuration: the configured owner
/// id, or the local device.
pub open spec fn spec_session_for(owner_id: Option<String>, s: LocalSession) -> bool {
    &&& s.hashed_user_id@ == (match owner_id {
        Some(o) => o@,
        None => "local-device"@,
    })
    &&& s.display_name@ == "Local Device"@
}

/// Build the local session for the configured owner.
fn create_local_session(owner_id: &Option<String>) -> (r: LocalSession)
    ensures
        spec_session_for(*owner_id, r),
{
    let hashed_user_id = match owner_id {
        Some(o) => o.clone(),
        None => ("local-device").to_owned(),
    };
    LocalSession { hashed_user_id, display_name: ("Local Device").to_owned() }
}

/// Decide whether a request authenticates, and as whom.
///
/// Without a configured secret every request passes. With one, the
/// `Authorization` header must read `Bearer ` followed by exactly the
/// secret's bytes; a missing header, a malformed header and a wrong token
/// are refused as `AccessDenied`, each with its own message.
pub fn authenticate(
    bearer_secret: &Option<String>,
    owner_id: &Option<String>,
    auth_header: Option<&String>,
) -> (r: Result<LocalSession, ApiError>)
    ensures
        bearer_secret is None ==> (r matches Ok(s) && spec_session_for(*owner_id, s)),
        bearer_secret matches Some(sec) ==> match auth_header {
            None => (r matches Err(e) && e.spec_code() == S3ErrorCode::AccessDenied),
            Some(h) => {
                if !spec_has_bearer_prefix(encode_utf8(h@)) {
                    r matches Err(e) && e.spec_code() == S3ErrorCode::AccessDenied
                } else if encode_utf8(h@).skip(7) != encode_utf8(sec@) {
                    r matches Err(e) && e.spec_code() == S3ErrorCode::AccessDenied
                } else {
                    r matches Ok(s) && spec_session_for(*owner_id, s)
                }
            },
        },
        r is Ok <==> (bearer_secret is None || (bearer_secret matches Some(sec)
            && auth_header matches Some(h) && spec_has_bearer_prefix(encode_utf8(h@))
            && encode_utf8(h@).skip(7) == encode_utf8(sec@))),
{
    let secret = match bearer_secret {
        Some(s) => s,
        None => {
            return Ok(create_local_session(owner_id));
        },
    };
    let header = match auth_header {
        Some(h) => h,
        None => {
            return Err(
                ApiError::s3(
                    S3ErrorCode::AccessDenied,
                    "Authentication required. Use 'Authorization: Bearer <secret>'",
                ),
            );
        },
    };
    let hb = header.as_str().as_bytes();
    let pb = ("Bearer ").as_bytes();
    proof {
        reveal_strlit("Bearer ");
        assert(("Bearer ").is_ascii());
        broadcast use vstd::string::is_ascii_spec_bytes;

        assert(("Bearer ").spec_bytes().len() == 7);
    }
    if hb.len() < 7 {
        return Err(ApiError::s3(S3ErrorCode::AccessDenied, "Use 'Authorization: Bearer <secret>'"));
    }
    let mut i: usize = 0;
    while i < 7
        invariant
            i <= 7,
            hb@.len() >= 7,
            hb@ == encode_utf8(header@),
            pb@ == ("Bearer ").spec_bytes(),
            pb@.len() == 7,
            *bearer_secret matches Some(s2) && s2 == *secret,
            auth_header matches Some(h2) && h2 == header,
            forall|j: int| 0 <= j < i ==> hb@[j] == pb@[j],
        decreases 7 - i,
    {
        if hb[i] != pb[i] {
            proof {
                assert(hb@.subrange(0, 7)[i as int] != pb@[i as int]);
            }
            return Err(
                ApiError::s3(S3ErrorCode::AccessDenied, "Use 'Authorization: Bearer <secret>'"),
            );
        }
        i = i + 1;
    }
    proof {
        assert(hb@.subrange(0, 7) =~= pb@);
    }
    let token = &hb[7..hb.len()];
    let sb = secret.as_str().as_bytes();
    proof {
        assert(token@ =~= encode_utf8(header@).skip(7));
    }
    if !constant_time_eq(token, sb) {
        return Err(ApiError::s3(S3ErrorCode::AccessDenied, "Invalid bearer token"));
    }
    Ok(create_local_session(owner_id))
}

} // verus!
