//! Bucket operation handlers, always scoped to the caller's namespace.

use vstd::prelude::*;
use crate::error::{ApiError, S3ErrorCode};
use crate::http::Response;
use crate::metadata::{Owner, opt_view};
use crate::registry::{spec_valid_bucket_name, spec_list_objects, BucketView};
use crate::state::{AppState, LocalSession};
use crate::xml;
use vstd::string::{StrSliceExecFns, StringExecFns, StringSliceAdditionalSpecFns};
use vstd::utf8::encode_utf8;

verus! {

/// What creating a bucket does: success exactly on a valid, fresh name;
/// then a 200 with the `Location` header and the bucket standing in the
/// caller's namespace; each refusal with its code and the state as it
/// was; every other namespace untouched.
pub open spec fn create_bucket_outcome(
    pre: AppState,
    post: AppState,
    session: LocalSession,
    bucket: Seq<char>,
    now_ms: u64,
    hr: Result<Response, ApiError>,
) -> bool {
    &&& post.block_store == pre.block_store
    &&& post.multipart_manager == pre.multipart_manager
    &&& (hr is Ok <==> spec_valid_bucket_name(bucket) && pre.bucket_manager.spec_bucket(
        session.hashed_user_id@,
        bucket,
    ) is None)
    &&& (hr matches Ok(resp) ==> resp.status == 200 && resp.headers@.len() == 1
        && resp.headers@[0].0@ == "Location"@ && resp.headers@[0].1@ == "/"@ + bucket
        && resp.body@.len() == 0 && (post.bucket_manager.spec_bucket(
        session.hashed_user_id@,
        bucket,
    ) matches Some(bv) && bv.created_at == now_ms && bv.objects.len() == 0))
    &&& (hr matches Err(e) ==> post == pre && (if !spec_valid_bucket_name(bucket) {
        e.spec_code() == S3ErrorCode::InvalidBucketName
    } else {
        e.spec_code() == S3ErrorCode::BucketAlreadyExists
    }))
    &&& (forall|u: Seq<char>, b: Seq<char>| !(u == session.hashed_user_id@ && b == bucket)
        ==> #[trigger] post.bucket_manager.spec_bucket(u, b) == pre.bucket_manager.spec_bucket(
        u,
        b,
    ))
}

/// PUT /{bucket}: create a bucket.
pub fn create_bucket(
    state: &mut AppState,
    session: &LocalSession,
    bucket: &str,
    now_ms: u64,
) -> (r: Result<Response, ApiError>)
    requires
        old(state).wf(),
    ensures
        final(state).wf(),
        create_bucket_outcome(*old(state), *final(state), *session, bucket@, now_ms, r),
{
    let owner = Owner::new(session.hashed_user_id.as_str()).with_display_name(
        session.display_name.as_str(),
    );
    match state.bucket_manager.create_bucket_for_user(
        session.hashed_user_id.as_str(),
        bucket.to_owned(),
        owner,
        now_ms,
    ) {
        Ok(()) => {
            let mut location = String::from_str("/");
            location.append(bucket);
            let mut headers: Vec<(String, String)> = Vec::new();
            headers.push((("Location").to_owned(), location));
            Ok(Response { status: 200, headers, body: Vec::new() })
        },
        Err(e) => Err(ApiError::Core(e)),
    }
}

/// What deleting a bucket does: success exactly on an existing, empty
/// bucket of the caller's; then a 204 and the bucket gone; a missing
/// bucket and a non-empty bucket each refused with its code and the state
/// as it was; every other namespace untouched.
pub open spec fn delete_bucket_outcome(
    pre: AppState,
    post: AppState,
    session: LocalSession,
    bucket: Seq<char>,
    hr: Result<Response, ApiError>,
) -> bool {
    &&& post.block_store == pre.block_store
    &&& post.multipart_manager == pre.multipart_manager
    &&& (hr is Ok <==> (pre.bucket_manager.spec_bucket(session.hashed_user_id@, bucket)
        matches Some(bv) && bv.objects.len() == 0))
    &&& (hr matches Ok(resp) ==> resp.status == 204 && resp.body@.len() == 0
        && post.bucket_manager.spec_bucket(session.hashed_user_id@, bucket) is None)
    &&& (hr matches Err(e) ==> post == pre && (if pre.bucket_manager.spec_bucket(
        session.hashed_user_id@,
        bucket,
    ) is None {
        e.spec_code() == S3ErrorCode::NoSuchBucket
    } else {
        e.spec_code() == S3ErrorCode::BucketNotEmpty
    }))
    &&& (forall|u: Seq<char>, b: Seq<char>| !(u == session.hashed_user_id@ && b == bucket)
        ==> #[trigger] post.bucket_manager.spec_bucket(u, b) == pre.bucket_manager.spec_bucket(
        u,
        b,
    ))
}

/// DELETE /{bucket}: delete a bucket.
pub fn delete_bucket(state: &mut AppState, session: &LocalSession, bucket: &str) -> (r: Result<
    Response,
    ApiError,
>)
    requires
        old(state).wf(),
    ensures
        final(state).wf(),
        delete_bucket_outcome(*old(state), *final(state), *session, bucket@, r),
{
    match state.bucket_manager.delete_bucket_for_user(session.hashed_user_id.as_str(), bucket) {
        Ok(()) => Ok(Response { status: 204, headers: Vec::new(), body: Vec::new() }),
        Err(e) => Err(ApiError::Core(e)),
    }
}

/// What a bucket existence check answers: 200 exactly when the bucket
/// stands in the caller's namespace, `NoSuchBucket` otherwise.
pub open spec fn head_bucket_outcome(
    st: AppState,
    session: LocalSession,
    bucket: Seq<char>,
    hr: Result<Response, ApiError>,
) -> bool {
    &&& (hr is Ok <==> st.bucket_manager.spec_bucket(session.hashed_user_id@, bucket) is Some)
    &&& (hr matches Ok(resp) ==> resp.status == 200 && resp.body@.len() == 0)
    &&& (hr matches Err(e) ==> e.spec_code() == S3ErrorCode::NoSuchBucket)
}

/// HEAD /{bucket}: whether the bucket exists.
pub fn head_bucket(state: &AppState, session: &LocalSession, bucket: &str) -> (r: Result<
    Response,
    ApiError,
>)
    ensures
        head_bucket_outcome(*state, *session, bucket@, r),
{
    if !state.bucket_manager.bucket_exists_for_user(session.hashed_user_id.as_str(), bucket) {
        return Err(ApiError::s3(S3ErrorCode::NoSuchBucket, "Bucket not found"));
    }
    Ok(Response { status: 200, headers: Vec::new(), body: Vec::new() })
}

/// Query parameters of ListObjectsV2.
#[derive(Debug)]
pub struct ListObjectsParams {
    pub list_type: Option<u8>,
    pub prefix: Option<String>,
    pub delimiter: Option<String>,
    pub max_keys: Option<u64>,
    pub continuation_token: Option<String>,
    pub start_after: Option<String>,
    pub fetch_owner: Option<bool>,
}

/// What ListObjectsV2 answers: success exactly when the bucket stands in
/// the caller's namespace, and then the `ListBucketResult` document over
/// the listing walk for the effective prefix, delimiter, cursor
/// (start-after before continuation-token) and key cap.
pub open spec fn list_objects_outcome(
    st: AppState,
    session: LocalSession,
    bucket: Seq<char>,
    prefix: Option<Seq<char>>,
    delimiter: Option<Seq<char>>,
    max_keys: Option<u64>,
    continuation_token: Option<Seq<char>>,
    start_after: Option<Seq<char>>,
    hr: Result<Response, ApiError>,
) -> bool {
    &&& (hr is Ok <==> st.bucket_manager.spec_bucket(session.hashed_user_id@, bucket) is Some)
    &&& (hr matches Err(e) ==> e.spec_code() == S3ErrorCode::NoSuchBucket)
    &&& (hr matches Ok(resp) ==> (st.bucket_manager.spec_bucket(session.hashed_user_id@, bucket)
        matches Some(bv) && {
        let pfx = match prefix {
            Some(p) => p,
            None => Seq::<char>::empty(),
        };
        let cursor = match start_after {
            Some(s) => Some(s),
            None => continuation_token,
        };
        let max = match max_keys {
            Some(m) => m as nat,
            None => 1000nat,
        };
        let w = spec_list_objects(bv.objects, pfx, delimiter, cursor, max);
        resp.status == 200 && resp.headers@.len() == 1 && resp.headers@[0].0@ == "Content-Type"@
            && resp.headers@[0].1@ == "application/xml"@ && resp.body@ == encode_utf8(
            xml::spec_list_bucket_result(
                bucket,
                pfx,
                delimiter,
                (match max_keys {
                    Some(m) => m,
                    None => 1000u64,
                }),
                w.2,
                w.0,
                w.1,
                continuation_token,
                w.3,
            ),
        )
    }))
}

/// GET /{bucket}: ListObjectsV2.
pub fn list_objects(
    state: &AppState,
    session: &LocalSession,
    bucket_name: &str,
    params: &ListObjectsParams,
) -> (r: Result<Response, ApiError>)
    ensures
        list_objects_outcome(
            *state,
            *session,
            bucket_name@,
            opt_view(params.prefix),
            opt_view(params.delimiter),
            params.max_keys,
            opt_view(params.continuation_token),
            opt_view(params.start_after),
            r,
        ),
{
    let max_keys: u64 = match &params.max_keys {
        Some(m) => *m,
        None => 1000,
    };
    let cursor: Option<&String> = match &params.start_after {
        Some(s) => Some(s),
        None => match &params.continuation_token {
            Some(t) => Some(t),
            None => None,
        },
    };
    let result = match state.bucket_manager.list_objects(
        session.hashed_user_id.as_str(),
        bucket_name,
        match &params.prefix {
            Some(p) => Some(p),
            None => None,
        },
        match &params.delimiter {
            Some(d) => Some(d),
            None => None,
        },
        cursor,
        max_keys,
    ) {
        Ok(res) => res,
        Err(e) => {
            return Err(ApiError::Core(e));
        },
    };
    let body = xml::list_bucket_result(
        bucket_name,
        result.prefix.as_str(),
        match &result.delimiter {
            Some(d) => Some(d),
            None => None,
        },
        result.max_keys,
        result.is_truncated,
        &result.objects,
        &result.common_prefixes,
        match &params.continuation_token {
            Some(t) => Some(t),
            None => None,
        },
        match &result.next_continuation_token {
            Some(t) => Some(t),
            None => None,
        },
    );
    let mut headers: Vec<(String, String)> = Vec::new();
    headers.push((("Content-Type").to_owned(), ("application/xml").to_owned()));
    Ok(Response { status: 200, headers, body: body.as_str().as_bytes_vec() })
}

/// What the location query answers: the fixed empty `LocationConstraint`
/// when the bucket stands in the caller's namespace, `NoSuchBucket`
/// otherwise.
pub open spec fn get_bucket_location_outcome(
    st: AppState,
    session: LocalSession,
    bucket: Seq<char>,
    hr: Result<Response, ApiError>,
) -> bool {
    &&& (hr is Ok <==> st.bucket_manager.spec_bucket(session.hashed_user_id@, bucket) is Some)
    &&& (hr matches Ok(resp) ==> resp.status == 200 && resp.body@ == encode_utf8(
        xml::spec_location_constraint(),
    ))
    &&& (hr matches Err(e) ==> e.spec_code() == S3ErrorCode::NoSuchBucket)
}

/// GET /{bucket}?location: the bucket location document.
pub fn get_bucket_location(state: &AppState, session: &LocalSession, bucket: &str) -> (r: Result<
    Response,
    ApiError,
>)
    ensures
        get_bucket_location_outcome(*state, *session, bucket@, r),
{
    if !state.bucket_manager.bucket_exists_for_user(session.hashed_user_id.as_str(), bucket) {
        return Err(ApiError::s3(S3ErrorCode::NoSuchBucket, "Bucket not found"));
    }
    let body = xml::location_constraint();
    let mut headers: Vec<(String, String)> = Vec::new();
    headers.push((("Content-Type").to_owned(), ("application/xml").to_owned()));
    Ok(Response { status: 200, headers, body: body.as_str().as_bytes_vec() })
}

} // verus!
