//! Request demultiplexing: one URL shape resolved into an S3 operation by
//! method, path shape and query keys, and the dispatcher that runs it.

use vstd::prelude::*;
use crate::error::{ApiError, spec_error_response};
use crate::handlers::bucket::{
    create_bucket, create_bucket_outcome, delete_bucket, delete_bucket_outcome,
    get_bucket_location, get_bucket_location_outcome, head_bucket, head_bucket_outcome,
    list_objects, list_objects_outcome, ListObjectsParams,
};
use crate::handlers::multipart::{
    abort_multipart_upload, abort_multipart_upload_outcome, complete_multipart_upload,
    complete_multipart_upload_outcome, create_multipart_upload, create_multipart_upload_outcome,
    list_multipart_uploads, list_multipart_uploads_outcome, list_parts, list_parts_outcome,
    upload_part, upload_part_outcome, MultipartParams,
};
use crate::handlers::object::{
    copy_object, copy_object_outcome, delete_object, delete_object_outcome, get_object,
    get_object_outcome, head_object, head_object_outcome, put_object, put_object_outcome,
};
use crate::handlers::service::{health_check, healthz, list_buckets, list_buckets_outcome};
use crate::http::{Headers, Response};
use crate::metadata::opt_view;
use crate::range::{spec_find, lemma_find_char};
use crate::state::{AppState, LocalSession};
use crate::text::str_eq;
use vstd::string::{StrSliceExecFns, StringSliceAdditionalSpecFns};

verus! {

/// An HTTP method, as far as the gateway distinguishes them.
#[derive(Clone, Copy, Debug, PartialEq, Eq, Structural)]
pub enum Method {
    Get,
    Put,
    Post,
    Delete,
    Head,
    Other,
}

/// The S3 operation a request resolves to.
#[derive(Clone, Copy, Debug, PartialEq, Eq, Structural)]
pub enum S3Op {
    ListBuckets,
    HealthCheck,
    Healthz,
    CreateBucket,
    DeleteBucket,
    HeadBucket,
    ListMultipartUploads,
    GetBucketLocation,
    ListObjectsV2,
    BatchDelete,
    InvalidBucketPost,
    UploadPart,
    CopyObject,
    PutObject,
    ListParts,
    GetObject,
    HeadObject,
    AbortMultipartUpload,
    DeleteObject,
    CreateMultipartUpload,
    CompleteMultipartUpload,
    InvalidObjectPost,
    Unsupported,
}

/// Which query keys and headers steer the demultiplexer.
#[derive(Clone, Copy, Debug)]
pub struct RouteQuery {
    pub uploads: bool,
    pub location: bool,
    pub delete: bool,
    pub upload_id: bool,
    pub part_number: bool,
    pub copy_source: bool,
}

/// The demultiplexing table: method, path shape and query keys pick the
/// operation.
pub open spec fn spec_route(
    method: Method,
    bucket: Option<Seq<char>>,
    key: Option<Seq<char>>,
    q: RouteQuery,
) -> S3Op {
    match (bucket, key) {
        (None, _) => match method {
            Method::Get => S3Op::ListBuckets,
            Method::Head => S3Op::HealthCheck,
            _ => S3Op::Unsupported,
        },
        (Some(b), None) => match method {
            Method::Get => if b == "healthz"@ {
                S3Op::Healthz
            } else if q.uploads {
                S3Op::ListMultipartUploads
            } else if q.location {
                S3Op::GetBucketLocation
            } else {
                S3Op::ListObjectsV2
            },
            Method::Put => S3Op::CreateBucket,
            Method::Delete => S3Op::DeleteBucket,
            Method::Head => S3Op::HeadBucket,
            Method::Post => if q.delete {
                S3Op::BatchDelete
            } else {
                S3Op::InvalidBucketPost
            },
            Method::Other => S3Op::Unsupported,
        },
        (Some(_), Some(_)) => match method {
            Method::Put => if q.part_number && q.upload_id {
                S3Op::UploadPart
            } else if q.copy_source {
                S3Op::CopyObject
            } else {
                S3Op::PutObject
            },
            Method::Get => if q.upload_id {
                S3Op::ListParts
            } else {
                S3Op::GetObject
            },
            Method::Head => S3Op::HeadObject,
            Method::Delete => if q.upload_id {
                S3Op::AbortMultipartUpload
            } else {
                S3Op::DeleteObject
            },
            Method::Post => if q.uploads {
                S3Op::CreateMultipartUpload
            } else if q.upload_id {
                S3Op::CompleteMultipartUpload
            } else {
                S3Op::InvalidObjectPost
            },
            Method::Other => S3Op::Unsupported,
        },
    }
}

/// Resolve a request to its operation.
pub fn route(
    method: Method,
    bucket: Option<&String>,
    key: Option<&String>,
    q: &RouteQuery,
) -> (r: S3Op)
    ensures
        r == spec_route(
            method,
            match bucket {
                Some(b) => Some(b@),
                None => None,
            },
            match key {
                Some(k) => Some(k@),
                None => None,
            },
            *q,
        ),
{
    match (bucket, key) {
        (None, _) => match method {
            Method::Get => S3Op::ListBuckets,
            Method::Head => S3Op::HealthCheck,
            _ => S3Op::Unsupported,
        },
        (Some(b), None) => match method {
            Method::Get => if str_eq(b.as_str(), "healthz") {
                S3Op::Healthz
            } else if q.uploads {
                S3Op::ListMultipartUploads
            } else if q.location {
                S3Op::GetBucketLocation
            } else {
                S3Op::ListObjectsV2
            },
            Method::Put => S3Op::CreateBucket,
            Method::Delete => S3Op::DeleteBucket,
            Method::Head => S3Op::HeadBucket,
            Method::Post => if q.delete {
                S3Op::BatchDelete
            } else {
                S3Op::InvalidBucketPost
            },
            Method::Other => S3Op::Unsupported,
        },
        (Some(_), Some(_)) => match method {
            Method::Put => if q.part_number && q.upload_id {
                S3Op::UploadPart
            } else if q.copy_source {
                S3Op::CopyObject
            } else {
                S3Op::PutObject
            },
            Method::Get => if q.upload_id {
                S3Op::ListParts
            } else {
                S3Op::GetObject
            },
            Method::Head => S3Op::HeadObject,
            Method::Delete => if q.upload_id {
                S3Op::AbortMultipartUpload
            } else {
                S3Op::DeleteObject
            },
            Method::Post => if q.uploads {
                S3Op::CreateMultipartUpload
            } else if q.upload_id {
                S3Op::CompleteMultipartUpload
            } else {
                S3Op::InvalidObjectPost
            },
            Method::Other => S3Op::Unsupported,
        },
    }
}

/// What a path names: nothing, a bucket, or a bucket and a key. Keys may
/// hold slashes; a trailing slash after the bucket is dropped.
pub open spec fn spec_parse_path(p: Seq<char>) -> (Option<Seq<char>>, Option<Seq<char>>) {
    let t = if p.len() > 0 && p[0] == '/' {
        p.skip(1)
    } else {
        p
    };
    if t.len() == 0 {
        (None, None)
    } else {
        let d = spec_find(t, '/');
        if d < 0 {
            (Some(t), None)
        } else {
            let rest = t.skip(d + 1);
            if rest.len() == 0 {
                (Some(t.take(d)), None)
            } else {
                (Some(t.take(d)), Some(rest))
            }
        }
    }
}

/// Split a request path into bucket and key.
pub fn parse_path(path: &str) -> (r: (Option<String>, Option<String>))
    ensures
        (match r.0 {
            Some(b) => Some(b@),
            None => None,
        }, match r.1 {
            Some(k) => Some(k@),
            None => None,
        }) == spec_parse_path(path@),
{
    let n = path.unicode_len();
    let start: usize = if n > 0 && path.get_char(0) == '/' {
        1
    } else {
        0
    };
    let ghost t = if path@.len() > 0 && path@[0] == '/' {
        path@.skip(1)
    } else {
        path@
    };
    proof {
        if start == 0 {
            assert(t =~= path@.skip(0));
        }
        assert(t == path@.skip(start as int));
    }
    if start >= n {
        return (None, None);
    }
    let mut d: usize = start;
    while d < n && path.get_char(d) != '/'
        invariant
            start <= d <= n,
            n == path@.len(),
            t == path@.skip(start as int),
            forall|j: int| start <= j < d ==> path@[j] != '/',
        decreases n - d,
    {
        d = d + 1;
    }
    proof {
        assert forall|j: int| 0 <= j < d - start implies t[j] != '/' by {
            assert(t[j] == path@[start + j]);
        }
        if d < n {
            assert(t[d - start] == path@[d as int]);
        }
        lemma_find_char(t, '/', d - start);
    }
    if d == n {
        let b = path.substring_char(start, n).to_owned();
        proof {
            assert(b@ =~= t);
        }
        return (Some(b), None);
    }
    let b = path.substring_char(start, d).to_owned();
    proof {
        assert(b@ =~= t.take(d - start));
    }
    if d + 1 == n {
        proof {
            assert(t.skip(d - start + 1) =~= path@.skip(d + 1));
            assert(path@.skip(d + 1).len() == 0);
        }
        return (Some(b), None);
    }
    let k = path.substring_char(d + 1, n).to_owned();
    proof {
        assert(k@ =~= t.skip(d - start + 1));
    }
    (Some(b), Some(k))
}

/// Everything a parsed request carries into dispatch.
#[derive(Debug)]
pub struct QueryParams {
    pub uploads: bool,
    pub location: bool,
    pub delete: bool,
    pub upload_id: Option<String>,
    pub part_number: Option<u32>,
    pub list_type: Option<u8>,
    pub prefix: Option<String>,
    pub delimiter: Option<String>,
    pub max_keys: Option<u64>,
    pub continuation_token: Option<String>,
    pub start_after: Option<String>,
    pub fetch_owner: Option<bool>,
}

/// How a handler's result reaches the wire: a success response as it
/// stands, an error as its XML rendering.
pub open spec fn spec_rendered(r: Response, hr: Result<Response, ApiError>) -> bool {
    match hr {
        Ok(resp) => r == resp,
        Err(e) => spec_error_response(e, r),
    }
}

/// Turn a handler result into the wire response.
fn render(result: Result<Response, ApiError>) -> (r: Response)
    ensures
        spec_rendered(r, result),
{
    match result {
        Ok(resp) => resp,
        Err(e) => e.into_response(),
    }
}

/// Demultiplex and run one authenticated request; errors become S3 XML
/// error responses.
pub fn handle_request(
    state: &mut AppState,
    session: &LocalSession,
    method: Method,
    path: &str,
    query: QueryParams,
    headers: &Headers,
    body: &Vec<u8>,
    now_ms: u64,
) -> (r: Response)
    requires
        old(state).wf(),
        body@.len() <= u64::MAX,
    ensures
        final(state).wf(),
        ({
            let rq = RouteQuery {
                uploads: query.uploads,
                location: query.location,
                delete: query.delete,
                upload_id: query.upload_id is Some,
                part_number: query.part_number is Some,
                copy_source: headers.spec_get("x-amz-copy-source"@) is Some,
            };
            let pp = spec_parse_path(path@);
            let op = spec_route(method, pp.0, pp.1, rq);
            &&& (op == S3Op::Healthz ==> r.status == 200 && r.body@ == ("ok").spec_bytes()
                && *final(state) == *old(state))
            &&& (op == S3Op::HealthCheck ==> r.status == 200 && r.body@ == ("OK").spec_bytes()
                && *final(state) == *old(state))
            &&& (op == S3Op::ListBuckets ==> *final(state) == *old(state) && (exists|
                hr: Result<Response, ApiError>,
            |
                #[trigger] spec_rendered(r, hr) && list_buckets_outcome(
                    *final(state),
                    *session,
                    hr,
                )))
            &&& (op == S3Op::BatchDelete ==> *final(state) == *old(state) && (exists|
                hr: Result<Response, ApiError>,
            |
                #![trigger spec_rendered(r, hr)]
                (hr matches Err(e) && e.spec_code() == crate::error::S3ErrorCode::NotImplemented
                    && spec_rendered(r, hr))))
            &&& (op == S3Op::InvalidBucketPost || op == S3Op::InvalidObjectPost ==> *final(state)
                == *old(state) && (exists|hr: Result<Response, ApiError>|
                #![trigger spec_rendered(r, hr)]
                (hr matches Err(e) && e.spec_code() == crate::error::S3ErrorCode::InvalidRequest
                    && spec_rendered(r, hr))))
            &&& (op == S3Op::Unsupported ==> *final(state) == *old(state) && (exists|
                hr: Result<Response, ApiError>,
            |
                #![trigger spec_rendered(r, hr)]
                (hr matches Err(e) && e.spec_code() == crate::error::S3ErrorCode::MethodNotAllowed
                    && spec_rendered(r, hr))))
            &&& (op == S3Op::CreateBucket ==> (pp.0 matches Some(b) && (exists|
                hr: Result<Response, ApiError>,
            |
                #[trigger] spec_rendered(r, hr) && create_bucket_outcome(
                    *old(state),
                    *final(state),
                    *session,
                    b,
                    now_ms,
                    hr,
                ))))
            &&& (op == S3Op::DeleteBucket ==> (pp.0 matches Some(b) && (exists|
                hr: Result<Response, ApiError>,
            |
                #[trigger] spec_rendered(r, hr) && delete_bucket_outcome(
                    *old(state),
                    *final(state),
                    *session,
                    b,
                    hr,
                ))))
            &&& (op == S3Op::HeadBucket ==> (pp.0 matches Some(b) && *final(state) == *old(state)
                && (exists|hr: Result<Response, ApiError>|
                #[trigger] spec_rendered(r, hr) && head_bucket_outcome(
                    *final(state),
                    *session,
                    b,
                    hr,
                ))))
            &&& (op == S3Op::GetBucketLocation ==> (pp.0 matches Some(b) && *final(state) == *old(
                state,
            ) && (exists|hr: Result<Response, ApiError>|
                #[trigger] spec_rendered(r, hr) && get_bucket_location_outcome(
                    *final(state),
                    *session,
                    b,
                    hr,
                ))))
            &&& (op == S3Op::ListObjectsV2 ==> (pp.0 matches Some(b) && *final(state) == *old(state)
                && (exists|hr: Result<Response, ApiError>|
                #[trigger] spec_rendered(r, hr) && list_objects_outcome(
                    *final(state),
                    *session,
                    b,
                    opt_view(query.prefix),
                    opt_view(query.delimiter),
                    query.max_keys,
                    opt_view(query.continuation_token),
                    opt_view(query.start_after),
                    hr,
                ))))
            &&& (op == S3Op::ListMultipartUploads ==> (pp.0 matches Some(b) && *final(state) == *old(
                state,
            ) && (exists|hr: Result<Response, ApiError>|
                #[trigger] spec_rendered(r, hr) && list_multipart_uploads_outcome(
                    *final(state),
                    *session,
                    b,
                    hr,
                ))))
            &&& (op == S3Op::PutObject ==> (pp.0 matches Some(b) && pp.1 matches Some(k) && (
            exists|hr: Result<Response, ApiError>|
                #[trigger] spec_rendered(r, hr) && put_object_outcome(
                    *old(state),
                    *final(state),
                    *session,
                    b,
                    k,
                    *headers,
                    body@,
                    now_ms,
                    hr,
                ))))
            &&& (op == S3Op::GetObject ==> (pp.0 matches Some(b) && pp.1 matches Some(k)
                && *final(state) == *old(state) && (exists|hr: Result<Response, ApiError>|
                #[trigger] spec_rendered(r, hr) && get_object_outcome(
                    *final(state),
                    *session,
                    b,
                    k,
                    *headers,
                    hr,
                ))))
            &&& (op == S3Op::HeadObject ==> (pp.0 matches Some(b) && pp.1 matches Some(k)
                && *final(state) == *old(state) && (exists|hr: Result<Response, ApiError>|
                #[trigger] spec_rendered(r, hr) && head_object_outcome(
                    *final(state),
                    *session,
                    b,
                    k,
                    hr,
                ))))
            &&& (op == S3Op::DeleteObject ==> (pp.0 matches Some(b) && pp.1 matches Some(k) && (
            exists|hr: Result<Response, ApiError>|
                #[trigger] spec_rendered(r, hr) && delete_object_outcome(
                    *old(state),
                    *final(state),
                    *session,
                    b,
                    k,
                    hr,
                ))))
            &&& (op == S3Op::CopyObject ==> (pp.0 matches Some(b) && pp.1 matches Some(k) && (
            exists|hr: Result<Response, ApiError>|
                #[trigger] spec_rendered(r, hr) && copy_object_outcome(
                    *old(state),
                    *final(state),
                    *session,
                    b,
                    k,
                    *headers,
                    now_ms,
                    hr,
                ))))
            &&& (op == S3Op::CreateMultipartUpload ==> (pp.0 matches Some(b) && pp.1
                matches Some(k) && (exists|hr: Result<Response, ApiError>|
                #[trigger] spec_rendered(r, hr) && create_multipart_upload_outcome(
                    *old(state),
                    *final(state),
                    *session,
                    b,
                    k,
                    *headers,
                    now_ms,
                    hr,
                ))))
            &&& (op == S3Op::UploadPart ==> (pp.0 matches Some(b) && pp.1 matches Some(k) && (
            exists|hr: Result<Response, ApiError>|
                #[trigger] spec_rendered(r, hr) && upload_part_outcome(
                    *old(state),
                    *final(state),
                    *session,
                    b,
                    k,
                    opt_view(query.upload_id),
                    query.part_number,
                    *headers,
                    body@,
                    now_ms,
                    hr,
                ))))
            &&& (op == S3Op::CompleteMultipartUpload ==> (pp.0 matches Some(b) && pp.1
                matches Some(k) && (exists|hr: Result<Response, ApiError>|
                #[trigger] spec_rendered(r, hr) && complete_multipart_upload_outcome(
                    *old(state),
                    *final(state),
                    *session,
                    b,
                    k,
                    opt_view(query.upload_id),
                    now_ms,
                    hr,
                ))))
            &&& (op == S3Op::AbortMultipartUpload ==> (pp.0 matches Some(b) && pp.1
                matches Some(k) && (exists|hr: Result<Response, ApiError>|
                #[trigger] spec_rendered(r, hr) && abort_multipart_upload_outcome(
                    *old(state),
                    *final(state),
                    *session,
                    b,
                    k,
                    opt_view(query.upload_id),
                    hr,
                ))))
            &&& (op == S3Op::ListParts ==> (pp.0 matches Some(b) && pp.1 matches Some(k)
                && *final(state) == *old(state) && (exists|hr: Result<Response, ApiError>|
                #[trigger] spec_rendered(r, hr) && list_parts_outcome(
                    *final(state),
                    *session,
                    b,
                    k,
                    opt_view(query.upload_id),
                    hr,
                ))))
        }),
{
    let (bucket_opt, key_opt) = parse_path(path);
    let rq = RouteQuery {
        uploads: query.uploads,
        location: query.location,
        delete: query.delete,
        upload_id: match &query.upload_id {
            Some(_) => true,
            None => false,
        },
        part_number: match &query.part_number {
            Some(_) => true,
            None => false,
        },
        copy_source: headers.has("x-amz-copy-source"),
    };
    let op = route(
        method,
        match &bucket_opt {
            Some(b) => Some(b),
            None => None,
        },
        match &key_opt {
            Some(k) => Some(k),
            None => None,
        },
        &rq,
    );
    let mp = MultipartParams {
        upload_id: query.upload_id,
        part_number: query.part_number,
        uploads: if query.uploads {
            Some(String::new())
        } else {
            None
        },
    };
    let lp = ListObjectsParams {
        list_type: query.list_type,
        prefix: query.prefix,
        delimiter: query.delimiter,
        max_keys: query.max_keys,
        continuation_token: query.continuation_token,
        start_after: query.start_after,
        fetch_owner: query.fetch_owner,
    };
    let result: Result<Response, ApiError> = match op {
        S3Op::ListBuckets => list_buckets(state, session),
        S3Op::HealthCheck => Ok(health_check()),
        S3Op::Healthz => Ok(healthz()),
        S3Op::CreateBucket => {
            let b = match &bucket_opt {
                Some(b) => b,
                None => {
                    return crate::error::ApiError::s3(
                        crate::error::S3ErrorCode::InvalidRequest,
                        "Missing bucket",
                    ).into_response();
                },
            };
            create_bucket(state, session, b.as_str(), now_ms)
        },
        S3Op::DeleteBucket => {
            let b = match &bucket_opt {
                Some(b) => b,
                None => {
                    return crate::error::ApiError::s3(
                        crate::error::S3ErrorCode::InvalidRequest,
                        "Missing bucket",
                    ).into_response();
                },
            };
            delete_bucket(state, session, b.as_str())
        },
        S3Op::HeadBucket => {
            let b = match &bucket_opt {
                Some(b) => b,
                None => {
                    return crate::error::ApiError::s3(
                        crate::error::S3ErrorCode::InvalidRequest,
                        "Missing bucket",
                    ).into_response();
                },
            };
            head_bucket(state, session, b.as_str())
        },
        S3Op::ListMultipartUploads => {
            let b = match &bucket_opt {
                Some(b) => b,
                None => {
                    return crate::error::ApiError::s3(
                        crate::error::S3ErrorCode::InvalidRequest,
                        "Missing bucket",
                    ).into_response();
                },
            };
            list_multipart_uploads(state, session, b.as_str())
        },
        S3Op::GetBucketLocation => {
            let b = match &bucket_opt {
                Some(b) => b,
                None => {
                    return crate::error::ApiError::s3(
                        crate::error::S3ErrorCode::InvalidRequest,
                        "Missing bucket",
                    ).into_response();
                },
            };
            get_bucket_location(state, session, b.as_str())
        },
        S3Op::ListObjectsV2 => {
            let b = match &bucket_opt {
                Some(b) => b,
                None => {
                    return crate::error::ApiError::s3(
                        crate::error::S3ErrorCode::InvalidRequest,
                        "Missing bucket",
                    ).into_response();
                },
            };
            list_objects(state, session, b.as_str(), &lp)
        },
        S3Op::BatchDelete => Err(
            crate::error::ApiError::s3(
                crate::error::S3ErrorCode::NotImplemented,
                "Batch delete not supported on local gateway",
            ),
        ),
        S3Op::InvalidBucketPost => Err(
            crate::error::ApiError::s3(
                crate::error::S3ErrorCode::InvalidRequest,
                "Invalid POST request on bucket",
            ),
        ),
        S3Op::InvalidObjectPost => Err(
            crate::error::ApiError::s3(
                crate::error::S3ErrorCode::InvalidRequest,
                "Invalid POST request",
            ),
        ),
        S3Op::Unsupported => Err(
            crate::error::ApiError::s3(
                crate::error::S3ErrorCode::MethodNotAllowed,
                "Method not allowed",
            ),
        ),
        S3Op::UploadPart | S3Op::CopyObject | S3Op::PutObject | S3Op::ListParts | S3Op::GetObject
            | S3Op::HeadObject | S3Op::AbortMultipartUpload | S3Op::DeleteObject
            | S3Op::CreateMultipartUpload | S3Op::CompleteMultipartUpload => {
            let b = match &bucket_opt {
                Some(b) => b,
                None => {
                    return crate::error::ApiError::s3(
                        crate::error::S3ErrorCode::InvalidRequest,
                        "Missing bucket",
                    ).into_response();
                },
            };
            let k = match &key_opt {
                Some(k) => k,
                None => {
                    return crate::error::ApiError::s3(
                        crate::error::S3ErrorCode::InvalidRequest,
                        "Missing key",
                    ).into_response();
                },
            };
            match op {
                S3Op::UploadPart => upload_part(
                    state,
                    session,
                    b.as_str(),
                    k.as_str(),
                    &mp,
                    headers,
                    body,
                    now_ms,
                ),
                S3Op::CopyObject => copy_object(
                    state,
                    session,
                    b.as_str(),
                    k.as_str(),
                    headers,
                    now_ms,
                ),
                S3Op::PutObject => put_object(
                    state,
                    session,
                    b.as_str(),
                    k.as_str(),
                    headers,
                    body,
                    now_ms,
                ),
                S3Op::ListParts => list_parts(state, session, b.as_str(), k.as_str(), &mp),
                S3Op::GetObject => get_object(state, session, b.as_str(), k.as_str(), headers),
                S3Op::HeadObject => head_object(state, session, b.as_str(), k.as_str()),
                S3Op::AbortMultipartUpload => abort_multipart_upload(
                    state,
                    session,
                    b.as_str(),
                    k.as_str(),
                    &mp,
                ),
                S3Op::DeleteObject => delete_object(state, session, b.as_str(), k.as_str()),
                S3Op::CreateMultipartUpload => create_multipart_upload(
                    state,
                    session,
                    b.as_str(),
                    k.as_str(),
                    headers,
                    now_ms,
                ),
                _ => complete_multipart_upload(
                    state,
                    session,
                    b.as_str(),
                    k.as_str(),
                    &mp,
                    now_ms,
                ),
            }
        },
    };
    let ghost ghr = result;
    let resp = render(result);
    proof {
        assert(spec_rendered(resp, ghr));
    }
    resp
}

} // verus!
