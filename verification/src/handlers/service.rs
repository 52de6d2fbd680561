//! Service-level handlers: ListBuckets and the health checks.

use vstd::prelude::*;
use crate::error::ApiError;
use crate::http::Response;
use crate::state::{AppState, LocalSession};
use crate::xml;
use vstd::string::{StrSliceExecFns, StringSliceAdditionalSpecFns};

verus! {

/// What listing the caller's buckets yields: the
/// `ListAllMyBucketsResult` document over exactly the caller's namespace.
pub open spec fn list_buckets_outcome(
    st: AppState,
    session: LocalSession,
    hr: Result<Response, ApiError>,
) -> bool {
    hr matches Ok(resp) && resp.status == 200 && resp.headers@.len() == 1
        && resp.headers@[0].0@ == "Content-Type"@ && resp.headers@[0].1@ == "application/xml"@
        && resp.body@ == vstd::utf8::encode_utf8(
        xml::spec_list_all_my_buckets_result(
            session.hashed_user_id@,
            session.display_name@,
            match st.bucket_manager.spec_user(session.hashed_user_id@) {
                Some(bs) => bs.map_values(
                    |p: (Seq<char>, crate::registry::BucketView)| (p.0, p.1.created_at),
                ),
                None => Seq::<(Seq<char>, u64)>::empty(),
            },
        ),
    )
}

/// List the caller's buckets.
pub fn list_buckets(state: &AppState, session: &LocalSession) -> (r: Result<Response, ApiError>)
    ensures
        list_buckets_outcome(*state, *session, r),
{
    let buckets = state.bucket_manager.list_buckets_for_user(session.hashed_user_id.as_str());
    let body = xml::list_all_my_buckets_result(
        session.hashed_user_id.as_str(),
        session.display_name.as_str(),
        &buckets,
    );
    let mut headers: Vec<(String, String)> = Vec::new();
    headers.push((("Content-Type").to_owned(), ("application/xml").to_owned()));
    Ok(Response { status: 200, headers, body: body.as_str().as_bytes_vec() })
}

/// HEAD / health check.
pub fn health_check() -> (r: Response)
    ensures
        r.status == 200,
        r.body@ == ("OK").spec_bytes(),
        r.headers@.len() == 0,
{
    Response { status: 200, headers: Vec::new(), body: ("OK").as_bytes_vec() }
}

/// GET /healthz, the unauthenticated container health check.
pub fn healthz() -> (r: Response)
    ensures
        r.status == 200,
        r.body@ == ("ok").spec_bytes(),
        r.headers@.len() == 0,
{
    Response { status: 200, headers: Vec::new(), body: ("ok").as_bytes_vec() }
}

} // verus!
