//! Object operation handlers, always scoped to the caller's namespace.

use vstd::prelude::*;
use crate::error::{ApiError, S3ErrorCode};
use crate::http::{Headers, Response, try_decode_chunked, spec_wants_chunked};
use crate::chunked::spec_decode_from;
use crate::metadata::{ObjectMetadata, MetadataView, opt_view};
use crate::state::{AppState, LocalSession};
use crate::store::cid_of;
use crate::httpdate::{parse_rfc2822, rfc2822_secs};
use crate::range::{parse_range_header, spec_range_header};
use crate::text::{spec_dec, push_u64, u64_to_string};
use crate::timefmt::{format_http_date, spec_format_http_date};
use vstd::string::{StrSliceExecFns, StringExecFns, StringSliceAdditionalSpecFns};

verus! {

/// The request body after optional chunk decoding.
pub open spec fn spec_effective_body(headers: Headers, body: Seq<u8>) -> Seq<u8> {
    if spec_wants_chunked(headers, body) && (spec_decode_from(body, 0, Seq::empty())
        matches Some(d) && d.len() > 0) {
        spec_decode_from(body, 0, Seq::empty()).unwrap()
    } else {
        body
    }
}

/// The user metadata pairs carried by `x-amz-meta-` headers, with the
/// prefix stripped.
pub open spec fn spec_meta_pairs(entries: Seq<(String, String)>) -> Seq<(Seq<char>, Seq<char>)>
    decreases entries.len(),
{
    if entries.len() == 0 {
        Seq::empty()
    } else {
        let rest = spec_meta_pairs(entries.drop_last());
        let name = entries.last().0@;
        if name.len() >= 11 && name.take(11) == "x-amz-meta-"@ {
            rest.push((name.skip(11), entries.last().1@))
        } else {
            rest
        }
    }
}

/// Collect the `x-amz-meta-` headers, prefix stripped, in header order.
pub fn collect_meta(headers: &Headers) -> (r: Vec<(String, String)>)
    ensures
        crate::metadata::pairs_view(r@) == spec_meta_pairs(headers.entries@),
{
    let mut out: Vec<(String, String)> = Vec::new();
    let n = headers.entries.len();
    let mut i: usize = 0;
    proof {
        assert(spec_meta_pairs(headers.entries@.take(0)) =~= Seq::<(Seq<char>, Seq<char>)>::empty());
        assert(crate::metadata::pairs_view(out@) =~= Seq::<(Seq<char>, Seq<char>)>::empty());
    }
    while i < n
        invariant
            i <= n,
            n == headers.entries@.len(),
            crate::metadata::pairs_view(out@) == spec_meta_pairs(headers.entries@.take(i as int)),
        decreases n - i,
    {
        let ghost prev = crate::metadata::pairs_view(out@);
        proof {
            assert(headers.entries@.take(i + 1).drop_last() =~= headers.entries@.take(i as int));
            assert(headers.entries@.take(i + 1).last() == headers.entries@[i as int]);
        }
        let name = &headers.entries[i].0;
        if crate::text::has_prefix(name.as_str(), "x-amz-meta-") {
            proof {
                reveal_strlit("x-amz-meta-");
            }
            let stripped = name.as_str().substring_char(11, name.as_str().unicode_len());
            out.push((stripped.to_owned(), headers.entries[i].1.clone()));
            proof {
                assert(crate::metadata::pairs_view(out@) =~= prev.push(
                    (name@.skip(11), headers.entries@[i as int].1@),
                ));
            }
        } else {
            proof {
                reveal_strlit("x-amz-meta-");
                if name@.len() >= 11 {
                    assert(name@.take(11) != "x-amz-meta-"@);
                }
            }
        }
        i = i + 1;
    }
    proof {
        assert(headers.entries@.take(n as int) =~= headers.entries@);
    }
    out
}

/// What the stored metadata of a single-shot put looks like.
pub open spec fn spec_put_meta(
    headers: Headers,
    body: Seq<u8>,
    owner: Seq<char>,
    now_ms: u64,
) -> MetadataView {
    MetadataView {
        cid: cid_of(spec_effective_body(headers, body)),
        size: spec_effective_body(headers, body).len() as u64,
        etag: cid_of(spec_effective_body(headers, body)),
        last_modified: now_ms,
        content_type: headers.spec_get("content-type"@),
        content_encoding: None,
        content_disposition: None,
        cache_control: None,
        version_id: None,
        storage_class: crate::metadata::StorageClass::Standard,
        user_metadata: spec_meta_pairs(headers.entries@),
        owner_id: Some(owner),
        is_delete_marker: false,
    }
}

/// What storing an object does: the decoded body stands in the block
/// store under its content id whatever happens; success exactly when the
/// bucket stands in the caller's namespace, and then the key binds the
/// metadata of this put, other keys and namespaces untouched, with a 200
/// carrying the quoted etag and the content id.
pub open spec fn put_object_outcome(
    pre: AppState,
    post: AppState,
    session: LocalSession,
    bucket: Seq<char>,
    key: Seq<char>,
    headers: Headers,
    body: Seq<u8>,
    now_ms: u64,
    hr: Result<Response, ApiError>,
) -> bool {
    &&& post.multipart_manager == pre.multipart_manager
    &&& (hr is Ok <==> pre.bucket_manager.spec_bucket(session.hashed_user_id@, bucket) is Some)
    &&& (hr matches Err(e) ==> e.spec_code() == S3ErrorCode::NoSuchBucket && post.bucket_manager
        == pre.bucket_manager)
    &&& post.block_store.spec_get_block(cid_of(spec_effective_body(headers, body))) == Some(
        spec_effective_body(headers, body),
    )
    &&& (hr is Ok ==> post.bucket_manager.spec_object(session.hashed_user_id@, bucket, key)
        == Some(spec_put_meta(headers, body, session.hashed_user_id@, now_ms)))
    &&& (hr is Ok ==> forall|k2: Seq<char>| k2 != key ==> #[trigger] post.bucket_manager.spec_object(
        session.hashed_user_id@,
        bucket,
        k2,
    ) == pre.bucket_manager.spec_object(session.hashed_user_id@, bucket, k2))
    &&& (forall|u: Seq<char>, b: Seq<char>| !(u == session.hashed_user_id@ && b == bucket)
        ==> #[trigger] post.bucket_manager.spec_bucket(u, b) == pre.bucket_manager.spec_bucket(
        u,
        b,
    ))
    &&& (hr matches Ok(resp) ==> resp.status == 200 && resp.body@.len() == 0
        && resp.headers@.len() == 2 && resp.headers@[0].0@ == "ETag"@ && resp.headers@[0].1@
        == seq!['"'] + cid_of(spec_effective_body(headers, body)) + seq!['"']
        && resp.headers@[1].0@ == "X-Fula-Content-Cid"@ && resp.headers@[1].1@ == cid_of(
        spec_effective_body(headers, body),
    ))
}

/// PUT /{bucket}/{key}: store an object.
#[verifier::rlimit(100)]
#[verifier::spinoff_prover]
pub fn put_object(
    state: &mut AppState,
    session: &LocalSession,
    bucket_name: &str,
    key: &str,
    headers: &Headers,
    body: &Vec<u8>,
    now_ms: u64,
) -> (r: Result<Response, ApiError>)
    requires
        old(state).wf(),
        body@.len() <= u64::MAX,
    ensures
        final(state).wf(),
        put_object_outcome(
            *old(state),
            *final(state),
            *session,
            bucket_name@,
            key@,
            *headers,
            body@,
            now_ms,
            r,
        ),
{
    let decoded = try_decode_chunked(headers, body);
    let effective: &Vec<u8> = match &decoded {
        Some(d) => d,
        None => body,
    };
    proof {
        assert(effective@ == spec_effective_body(*headers, body@));
    }
    let cid = state.block_store.put_block(effective);
    let etag = cid.clone();
    let size = effective.len() as u64;
    let mut metadata = ObjectMetadata::new(cid.clone(), size, etag.clone(), now_ms).with_owner(
        session.hashed_user_id.as_str(),
    );
    match headers.get("content-type") {
        Some(ct) => {
            metadata = metadata.with_content_type(ct.clone());
        },
        None => {},
    }
    metadata.user_metadata = collect_meta(headers);
    proof {
        assert(metadata@ =~= spec_put_meta(*headers, body@, session.hashed_user_id@, now_ms));
    }
    match state.bucket_manager.put_object(
        session.hashed_user_id.as_str(),
        bucket_name,
        key.to_owned(),
        metadata,
    ) {
        Ok(()) => {},
        Err(e) => {
            return Err(ApiError::Core(e));
        },
    }
    let mut quoted = String::from_str("\"");
    quoted.append(etag.as_str());
    quoted.append("\"");
    proof {
        reveal_strlit("\"");
    }
    let mut headers_out: Vec<(String, String)> = Vec::new();
    headers_out.push((("ETag").to_owned(), quoted));
    headers_out.push((("X-Fula-Content-Cid").to_owned(), cid));
    let resp = Response { status: 200, headers: headers_out, body: Vec::new() };
    proof {
        let eff = spec_effective_body(*headers, body@);
        assert(final(state).multipart_manager == old(state).multipart_manager);
        assert(final(state).block_store.spec_get_block(cid_of(eff)) == Some(eff));
        assert(final(state).bucket_manager.spec_object(
            session.hashed_user_id@,
            bucket_name@,
            key@,
        ) == Some(spec_put_meta(*headers, body@, session.hashed_user_id@, now_ms)));
        assert(resp.headers@[0].0@ == "ETag"@);
        assert(resp.headers@[0].1@ == seq!['"'] + cid_of(eff) + seq!['"']);
        assert(resp.headers@[1].0@ == "X-Fula-Content-Cid"@);
        assert(resp.headers@[1].1@ == cid_of(eff));
        assert(resp.status == 200 && resp.body@.len() == 0 && resp.headers@.len() == 2);
    }
    Ok(resp)
}


/// An etag in its quoted header form.
pub open spec fn spec_quoted(etag: Seq<char>) -> Seq<char> {
    seq!['"'] + etag + seq!['"']
}

/// Quote an etag for a header.
pub fn quote_etag(etag: &str) -> (r: String)
    ensures
        r@ == spec_quoted(etag@),
{
    let mut s = String::from_str("\"");
    s.append(etag);
    s.append("\"");
    proof {
        reveal_strlit("\"");
        assert(s@ =~= spec_quoted(etag@));
    }
    s
}

/// Whether `If-None-Match` matches the object's etag.
pub open spec fn spec_if_none_match(headers: Headers, etag: Seq<char>) -> bool {
    match headers.spec_get("if-none-match"@) {
        Some(v) => v == spec_quoted(etag) || v == "*"@,
        None => false,
    }
}

/// Whether `If-Modified-Since` places the object at or before the given
/// date.
pub open spec fn spec_if_modified_since(headers: Headers, lm_ms: u64) -> bool {
    match headers.spec_get("if-modified-since"@) {
        Some(v) => match rfc2822_secs(v) {
            Some(s) => 0 <= s && lm_ms as int <= s * 1000,
            None => false,
        },
        None => false,
    }
}

/// Whether a conditional read answers `304 Not Modified`.
pub open spec fn spec_not_modified(headers: Headers, etag: Seq<char>, lm_ms: u64) -> bool {
    spec_if_none_match(headers, etag) || spec_if_modified_since(headers, lm_ms)
}

/// The fixed header block every successful object read carries:
/// `ETag`, `Content-Length`, `Last-Modified`, `Accept-Ranges` and
/// `X-Fula-Content-Cid`, in that order.
pub open spec fn spec_read_headers(hs: Seq<(String, String)>, m: MetadataView, len: nat) -> bool {
    &&& hs.len() >= 5
    &&& hs[0].0@ == "ETag"@ && hs[0].1@ == spec_quoted(m.etag)
    &&& hs[1].0@ == "Content-Length"@ && hs[1].1@ == spec_dec(len)
    &&& hs[2].0@ == "Last-Modified"@ && hs[2].1@ == spec_format_http_date(m.last_modified as nat)
    &&& hs[3].0@ == "Accept-Ranges"@ && hs[3].1@ == "bytes"@
    &&& hs[4].0@ == "X-Fula-Content-Cid"@ && hs[4].1@ == m.cid
}

/// What reading an object answers, over the whole decision tree: the
/// missing-bucket and missing-key refusals, the delete-marker refusal,
/// the 304 of a conditional read, a missing block as an internal error,
/// the plain 200 serving the stored bytes, and the 206 serving exactly
/// the resolved slice with its `Content-Range`.
pub open spec fn get_object_outcome(
    st: AppState,
    session: LocalSession,
    bucket: Seq<char>,
    key: Seq<char>,
    headers: Headers,
    hr: Result<Response, ApiError>,
) -> bool {
    &&& (st.bucket_manager.spec_bucket(session.hashed_user_id@, bucket) is None ==> (
        hr matches Err(e) && e.spec_code() == S3ErrorCode::NoSuchBucket))
    &&& (st.bucket_manager.spec_bucket(session.hashed_user_id@, bucket) is Some
            && st.bucket_manager.spec_object(session.hashed_user_id@, bucket, key)
            is None ==> (hr matches Err(e) && e.spec_code() == S3ErrorCode::NoSuchKey))
    &&& (st.bucket_manager.spec_object(session.hashed_user_id@, bucket, key)
            matches Some(m) ==> (m.is_delete_marker ==> (hr matches Err(e) && e.spec_code()
            == S3ErrorCode::NoSuchKey)) && (!m.is_delete_marker ==> (if spec_not_modified(
            headers,
            m.etag,
            m.last_modified,
        ) {
            hr matches Ok(resp) && resp.status == 304 && resp.body@.len() == 0
                && resp.headers@.len() == 2 && resp.headers@[0].0@ == "ETag"@
                && resp.headers@[0].1@ == spec_quoted(m.etag) && resp.headers@[1].0@
                == "Last-Modified"@
        } else {
            match st.block_store.spec_get_block(m.cid) {
                None => hr matches Err(e) && e.spec_code() == S3ErrorCode::InternalError,
                Some(data) => match headers.spec_get("range"@) {
                    None => hr matches Ok(resp) && resp.status == 200 && resp.body@ == data
                        && spec_read_headers(resp.headers@, m, data.len()),
                    Some(rv) => {
                        if data.len() == 0 {
                            hr matches Err(e) && e.spec_code() == S3ErrorCode::InvalidRange
                        } else {
                            match spec_range_header(rv, data.len()) {
                                None => hr matches Err(e) && e.spec_code()
                                    == S3ErrorCode::InvalidRange,
                                Some(se) => hr matches Ok(resp) && resp.status == 206 && resp.body@
                                    == data.subrange(se.0 as int, se.1 as int + 1) && spec_read_headers(
                                    resp.headers@,
                                    m,
                                    (se.1 as int + 1 - se.0 as int) as nat,
                                ) && resp.headers@[5].0@ == "Content-Range"@
                                    && resp.headers@[5].1@ == "bytes "@ + spec_dec(se.0) + "-"@
                                    + spec_dec(se.1) + "/"@ + spec_dec(data.len()),
                            }
                        }
                    },
                },
            }
        })))
}

/// GET /{bucket}/{key}: read an object, honouring conditional headers and
/// a byte range.
pub fn get_object(
    state: &AppState,
    session: &LocalSession,
    bucket_name: &str,
    key: &str,
    headers: &Headers,
) -> (r: Result<Response, ApiError>)
    ensures
        get_object_outcome(*state, *session, bucket_name@, key@, *headers, r),
{
    let metadata = match state.bucket_manager.get_object(
        session.hashed_user_id.as_str(),
        bucket_name,
        key,
    ) {
        Ok(Some(m)) => m,
        Ok(None) => {
            return Err(ApiError::s3(S3ErrorCode::NoSuchKey, "Object not found"));
        },
        Err(e) => {
            return Err(ApiError::Core(e));
        },
    };
    if metadata.is_delete_marker {
        return Err(ApiError::s3(S3ErrorCode::NoSuchKey, "Object is a delete marker"));
    }
    let etag = quote_etag(metadata.etag.as_str());
    let last_modified_str = format_http_date(metadata.last_modified);
    // conditional reads
    let mut not_modified = false;
    match headers.get("if-none-match") {
        Some(v) => {
            if crate::text::str_eq(v.as_str(), etag.as_str()) || crate::text::str_eq(
                v.as_str(),
                "*",
            ) {
                not_modified = true;
            }
        },
        None => {},
    }
    match headers.get("if-modified-since") {
        Some(v) => {
            match parse_rfc2822(v.as_str()) {
                Some(since) => {
                    if since >= 0 && metadata.last_modified as u128 <= (since as u128) * 1000 {
                        not_modified = true;
                    }
                },
                None => {},
            }
        },
        None => {},
    }
    if not_modified {
        let mut hs: Vec<(String, String)> = Vec::new();
        hs.push((("ETag").to_owned(), etag));
        hs.push((("Last-Modified").to_owned(), last_modified_str));
        return Ok(Response { status: 304, headers: hs, body: Vec::new() });
    }
    let data = match state.block_store.get_block(metadata.cid.as_str()) {
        Some(d) => d,
        None => {
            return Err(ApiError::Internal(("Stored block is missing").to_owned()));
        },
    };
    let total_size = data.len() as u64;
    let mut status: u16 = 200;
    let mut body = data;
    let mut content_range: Option<String> = None;
    let ghost whole = body@;
    match headers.get("range") {
        Some(rv) => {
            if total_size == 0 {
                return Err(
                    ApiError::s3(S3ErrorCode::InvalidRange, "Requested range not satisfiable"),
                );
            }
            match parse_range_header(rv.as_str(), total_size) {
                Ok((start, end)) => {
                    proof {
                        crate::range::lemma_range_header_bounds(rv@, whole.len());
                    }
                    let mut cr = String::from_str("bytes ");
                    push_u64(&mut cr, start);
                    cr.append("-");
                    push_u64(&mut cr, end);
                    cr.append("/");
                    push_u64(&mut cr, total_size);
                    content_range = Some(cr);
                    let mut sliced: Vec<u8> = Vec::new();
                    let len_us = body.len();
                    let start_us = start as usize;
                    let end_us = end as usize;
                    let mut i: usize = start_us;
                    proof {
                        assert(whole.subrange(start as int, start as int) =~= Seq::<u8>::empty());
                    }
                    while i < end_us + 1
                        invariant
                            start_us <= end_us + 1,
                            end_us < len_us,
                            len_us == whole.len(),
                            whole == body@,
                            start_us <= i <= end_us + 1,
                            start_us == start,
                            end_us == end,
                            sliced@ == whole.subrange(start_us as int, i as int),
                        decreases end_us + 1 - i,
                    {
                        sliced.push(body[i]);
                        proof {
                            assert(whole.subrange(start_us as int, i + 1) =~= whole.subrange(
                                start_us as int,
                                i as int,
                            ).push(whole[i as int]));
                        }
                        i = i + 1;
                    }
                    status = 206;
                    body = sliced;
                },
                Err(()) => {
                    return Err(
                        ApiError::s3(S3ErrorCode::InvalidRange, "Requested range not satisfiable"),
                    );
                },
            }
        },
        None => {},
    }
    let mut hs: Vec<(String, String)> = Vec::new();
    hs.push((("ETag").to_owned(), etag));
    hs.push((("Content-Length").to_owned(), u64_to_string(body.len() as u64)));
    hs.push((("Last-Modified").to_owned(), last_modified_str));
    hs.push((("Accept-Ranges").to_owned(), ("bytes").to_owned()));
    hs.push((("X-Fula-Content-Cid").to_owned(), metadata.cid.clone()));
    match content_range {
        Some(cr) => {
            hs.push((("Content-Range").to_owned(), cr));
        },
        None => {},
    }
    match &metadata.content_type {
        Some(ct) => {
            hs.push((("Content-Type").to_owned(), ct.clone()));
        },
        None => {},
    }
    match &metadata.cache_control {
        Some(cc) => {
            hs.push((("Cache-Control").to_owned(), cc.clone()));
        },
        None => {},
    }
    match &metadata.content_disposition {
        Some(cd) => {
            hs.push((("Content-Disposition").to_owned(), cd.clone()));
        },
        None => {},
    }
    match &metadata.content_encoding {
        Some(ce) => {
            hs.push((("Content-Encoding").to_owned(), ce.clone()));
        },
        None => {},
    }
    let nmeta = metadata.user_metadata.len();
    let ghost hbase = hs@;
    let mut mi: usize = 0;
    while mi < nmeta
        invariant
            mi <= nmeta,
            nmeta == metadata.user_metadata@.len(),
            hs@.len() >= hbase.len(),
            hs@.subrange(0, hbase.len() as int) == hbase,
        decreases nmeta - mi,
    {
        let ghost before = hs@;
        let mut name = String::from_str("x-amz-meta-");
        name.append(metadata.user_metadata[mi].0.as_str());
        hs.push((name, metadata.user_metadata[mi].1.clone()));
        proof {
            assert(hs@.subrange(0, hbase.len() as int) =~= before.subrange(
                0,
                hbase.len() as int,
            ));
        }
        mi = mi + 1;
    }
    proof {
        assert(hs@[0] == hbase[0]);
        assert(hs@[1] == hbase[1]);
        assert(hs@[2] == hbase[2]);
        assert(hs@[3] == hbase[3]);
        assert(hs@[4] == hbase[4]);
        if hbase.len() >= 6 {
            assert(hs@[5] == hbase[5]);
        }
    }
    match &metadata.version_id {
        Some(vid) => {
            hs.push((("x-amz-version-id").to_owned(), vid.clone()));
        },
        None => {},
    }
    proof {
        let m = state.bucket_manager.spec_object(
            session.hashed_user_id@,
            bucket_name@,
            key@,
        ).unwrap();
        assert(metadata@ == m);
        assert(!spec_not_modified(*headers, m.etag, m.last_modified));
        assert(hs@[0].0@ == "ETag"@ && hs@[0].1@ == spec_quoted(m.etag));
        assert(hs@[1].0@ == "Content-Length"@ && hs@[1].1@ == spec_dec(body@.len() as nat));
        assert(hs@[2].0@ == "Last-Modified"@ && hs@[2].1@ == spec_format_http_date(
            m.last_modified as nat,
        ));
        assert(hs@[3].0@ == "Accept-Ranges"@ && hs@[3].1@ == "bytes"@);
        assert(hs@[4].0@ == "X-Fula-Content-Cid"@ && hs@[4].1@ == m.cid);
        assert(spec_read_headers(hs@, m, body@.len() as nat));
        match headers.spec_get("range"@) {
            None => {
                assert(status == 200 && body@ == whole);
            },
            Some(rv) => {
                let se = spec_range_header(rv, whole.len()).unwrap();
                assert(status == 206);
                assert(body@ == whole.subrange(se.0 as int, se.1 as int + 1));
                assert(hs@[5].0@ == "Content-Range"@);
                assert(hs@[5].1@ == "bytes "@ + spec_dec(se.0) + "-"@ + spec_dec(se.1) + "/"@
                    + spec_dec(whole.len()));
            },
        }
    }
    Ok(Response { status, headers: hs, body })
}


/// What a metadata-only read answers: the missing-bucket and
/// missing-key refusals, and otherwise a bodiless 200 carrying the
/// quoted etag, the stored size, the last-modified date and the content
/// id.
pub open spec fn head_object_outcome(
    st: AppState,
    session: LocalSession,
    bucket: Seq<char>,
    key: Seq<char>,
    hr: Result<Response, ApiError>,
) -> bool {
    &&& (st.bucket_manager.spec_bucket(session.hashed_user_id@, bucket) is None ==> (
        hr matches Err(e) && e.spec_code() == S3ErrorCode::NoSuchBucket))
    &&& (st.bucket_manager.spec_bucket(session.hashed_user_id@, bucket) is Some
            && st.bucket_manager.spec_object(session.hashed_user_id@, bucket, key)
            is None ==> (hr matches Err(e) && e.spec_code() == S3ErrorCode::NoSuchKey))
    &&& (st.bucket_manager.spec_object(session.hashed_user_id@, bucket, key)
            matches Some(m) ==> (hr matches Ok(resp) && resp.status == 200 && resp.body@.len() == 0
            && resp.headers@.len() >= 4 && resp.headers@[0].0@ == "ETag"@ && resp.headers@[0].1@
            == spec_quoted(m.etag) && resp.headers@[1].0@ == "Content-Length"@
            && resp.headers@[1].1@ == spec_dec(m.size as nat) && resp.headers@[2].0@
            == "Last-Modified"@ && resp.headers@[2].1@ == spec_format_http_date(
            m.last_modified as nat,
        ) && resp.headers@[3].0@ == "X-Fula-Content-Cid"@ && resp.headers@[3].1@ == m.cid))
}

/// HEAD /{bucket}/{key}: object metadata only.
pub fn head_object(
    state: &AppState,
    session: &LocalSession,
    bucket_name: &str,
    key: &str,
) -> (r: Result<Response, ApiError>)
    ensures
        head_object_outcome(*state, *session, bucket_name@, key@, r),
{
    let metadata = match state.bucket_manager.get_object(
        session.hashed_user_id.as_str(),
        bucket_name,
        key,
    ) {
        Ok(Some(m)) => m,
        Ok(None) => {
            return Err(ApiError::s3(S3ErrorCode::NoSuchKey, "Object not found"));
        },
        Err(e) => {
            return Err(ApiError::Core(e));
        },
    };
    let mut hs: Vec<(String, String)> = Vec::new();
    hs.push((("ETag").to_owned(), quote_etag(metadata.etag.as_str())));
    hs.push((("Content-Length").to_owned(), u64_to_string(metadata.size)));
    hs.push((("Last-Modified").to_owned(), format_http_date(metadata.last_modified)));
    hs.push((("X-Fula-Content-Cid").to_owned(), metadata.cid.clone()));
    match &metadata.content_type {
        Some(ct) => {
            hs.push((("Content-Type").to_owned(), ct.clone()));
        },
        None => {},
    }
    let nmeta = metadata.user_metadata.len();
    let ghost hbase = hs@;
    let mut mi: usize = 0;
    while mi < nmeta
        invariant
            mi <= nmeta,
            nmeta == metadata.user_metadata@.len(),
            hs@.len() >= hbase.len(),
            hs@.subrange(0, hbase.len() as int) == hbase,
        decreases nmeta - mi,
    {
        let ghost before = hs@;
        let mut name = String::from_str("x-amz-meta-");
        name.append(metadata.user_metadata[mi].0.as_str());
        hs.push((name, metadata.user_metadata[mi].1.clone()));
        proof {
            assert(hs@.subrange(0, hbase.len() as int) =~= before.subrange(
                0,
                hbase.len() as int,
            ));
        }
        mi = mi + 1;
    }
    proof {
        assert(hs@[0] == hbase[0]);
        assert(hs@[1] == hbase[1]);
        assert(hs@[2] == hbase[2]);
        assert(hs@[3] == hbase[3]);
    }
    Ok(Response { status: 200, headers: hs, body: Vec::new() })
}

/// What deleting a key does: success exactly when the bucket stands in
/// the caller's namespace, then a bodiless 204 with the key unbound, the
/// bucket still standing, other keys and namespaces untouched; deleting
/// an already unbound key changes nothing; a missing bucket is refused
/// with the state as it was.
pub open spec fn delete_object_outcome(
    pre: AppState,
    post: AppState,
    session: LocalSession,
    bucket: Seq<char>,
    key: Seq<char>,
    hr: Result<Response, ApiError>,
) -> bool {
    &&& (post.block_store == pre.block_store)
    &&& (post.multipart_manager == pre.multipart_manager)
    &&& (hr is Ok <==> pre.bucket_manager.spec_bucket(session.hashed_user_id@, bucket)
            is Some)
    &&& (hr matches Err(e) ==> e.spec_code() == S3ErrorCode::NoSuchBucket && post == pre)
    &&& (hr matches Ok(resp) ==> resp.status == 204 && resp.body@.len() == 0 && post.bucket_manager.spec_object(session.hashed_user_id@, bucket, key) is None)
    &&& (hr is Ok ==> post.bucket_manager.spec_bucket(session.hashed_user_id@, bucket)
            is Some)
    &&& (hr is Ok ==> forall|k2: Seq<char>| k2 != key ==> #[trigger] post.bucket_manager.spec_object(session.hashed_user_id@, bucket, k2) == pre.bucket_manager.spec_object(session.hashed_user_id@, bucket, k2))
    &&& (forall|u: Seq<char>, b: Seq<char>| !(u == session.hashed_user_id@ && b == bucket)
            ==> #[trigger] post.bucket_manager.spec_bucket(u, b) == pre.bucket_manager.spec_bucket(u, b))
    &&& (pre.bucket_manager.spec_object(session.hashed_user_id@, bucket, key)
            is None && hr is Ok ==> post.bucket_manager == pre.bucket_manager)
}

/// DELETE /{bucket}/{key}: unbind a key; deleting an unbound key also
/// answers 204.
pub fn delete_object(
    state: &mut AppState,
    session: &LocalSession,
    bucket_name: &str,
    key: &str,
) -> (r: Result<Response, ApiError>)
    requires
        old(state).wf(),
    ensures
        final(state).wf(),
        delete_object_outcome(*old(state), *final(state), *session, bucket_name@, key@, r),
{
    match state.bucket_manager.delete_object(session.hashed_user_id.as_str(), bucket_name, key) {
        Ok(()) => Ok(Response { status: 204, headers: Vec::new(), body: Vec::new() }),
        Err(e) => Err(ApiError::Core(e)),
    }
}

/// `s` with every leading slash dropped.
pub open spec fn spec_skip_slashes(s: Seq<char>) -> Seq<char>
    decreases s.len(),
{
    if s.len() > 0 && s[0] == '/' {
        spec_skip_slashes(s.drop_first())
    } else {
        s
    }
}

/// What `x-amz-copy-source` names: the source bucket and key, split at the
/// first slash after the leading slashes.
pub open spec fn spec_copy_source(v: Seq<char>) -> Option<(Seq<char>, Seq<char>)> {
    let t = spec_skip_slashes(v);
    let d = crate::range::spec_find(t, '/');
    if d < 0 {
        None
    } else {
        Some((t.take(d), t.skip(d + 1)))
    }
}

/// Split a copy-source header value into bucket and key.
fn parse_copy_source(v: &str) -> (r: Option<(String, String)>)
    ensures
        r matches Some(p) ==> spec_copy_source(v@) == Some((p.0@, p.1@)),
        r is None ==> spec_copy_source(v@) is None,
{
    let n = v.unicode_len();
    let mut s: usize = 0;
    proof {
        assert(v@.skip(0) =~= v@);
    }
    while s < n && v.get_char(s) == '/'
        invariant
            s <= n,
            n == v@.len(),
            spec_skip_slashes(v@) == spec_skip_slashes(v@.skip(s as int)),
        decreases n - s,
    {
        proof {
            assert(v@.skip(s as int)[0] == v@[s as int]);
            assert(v@.skip(s as int).drop_first() =~= v@.skip(s + 1));
        }
        s = s + 1;
    }
    let ghost t = spec_skip_slashes(v@);
    proof {
        if s < n {
            assert(v@.skip(s as int)[0] == v@[s as int]);
        }
        assert(t == v@.skip(s as int));
    }
    let mut d: usize = s;
    while d < n && v.get_char(d) != '/'
        invariant
            s <= d <= n,
            n == v@.len(),
            t == v@.skip(s as int),
            forall|j: int| s <= j < d ==> v@[j] != '/',
        decreases n - d,
    {
        d = d + 1;
    }
    proof {
        assert forall|j: int| 0 <= j < d - s implies t[j] != '/' by {
            assert(t[j] == v@[s + j]);
        }
        if d < n {
            assert(t[d - s] == v@[d as int]);
        }
        crate::range::lemma_find_char(t, '/', d - s);
    }
    if d == n {
        return None;
    }
    let b = v.substring_char(s, d).to_owned();
    let k = v.substring_char(d + 1, n).to_owned();
    proof {
        assert(b@ =~= t.take(d - s));
        assert(k@ =~= t.skip(d - s + 1));
    }
    Some((b, k))
}

/// What a copy does: a missing or malformed `x-amz-copy-source` refused;
/// the source looked up in the caller's own namespace, then the
/// destination bucket; on success the destination key binds the source
/// metadata re-dated and re-owned, with the `CopyObjectResult` document.
pub open spec fn copy_object_outcome(
    pre: AppState,
    post: AppState,
    session: LocalSession,
    bucket: Seq<char>,
    key: Seq<char>,
    headers: Headers,
    now_ms: u64,
    hr: Result<Response, ApiError>,
) -> bool {
    &&& (post.block_store == pre.block_store)
    &&& (post.multipart_manager == pre.multipart_manager)
    &&& (headers.spec_get("x-amz-copy-source"@) is None ==> (hr matches Err(e) && e.spec_code()
            == S3ErrorCode::InvalidArgument && post == pre))
    &&& (headers.spec_get("x-amz-copy-source"@) matches Some(v) ==> (match spec_copy_source(v) {
            None => hr matches Err(e) && e.spec_code() == S3ErrorCode::InvalidArgument && post == pre,
            Some(src) => {
                if pre.bucket_manager.spec_bucket(session.hashed_user_id@, src.0)
                    is None {
                    hr matches Err(e) && e.spec_code() == S3ErrorCode::NoSuchBucket && post == pre
                } else if pre.bucket_manager.spec_object(
                    session.hashed_user_id@,
                    src.0,
                    src.1,
                ) is None {
                    hr matches Err(e) && e.spec_code() == S3ErrorCode::NoSuchKey && post
                        == pre
                } else if pre.bucket_manager.spec_bucket(
                    session.hashed_user_id@,
                    bucket,
                ) is None {
                    hr matches Err(e) && e.spec_code() == S3ErrorCode::NoSuchBucket && post == pre
                } else {
                    let sm = pre.bucket_manager.spec_object(
                        session.hashed_user_id@,
                        src.0,
                        src.1,
                    ).unwrap();
                    hr matches Ok(resp) && resp.status == 200 && resp.body@
                        == vstd::utf8::encode_utf8(crate::xml::spec_copy_result(now_ms, sm.etag))
                        && post.bucket_manager.spec_object(
                        session.hashed_user_id@,
                        bucket,
                        key,
                    ) == Some(
                        MetadataView {
                            last_modified: now_ms,
                            owner_id: Some(session.hashed_user_id@),
                            ..sm
                        },
                    )
                }
            },
        }))
}

/// PUT /{bucket}/{key} with `x-amz-copy-source`: copy an object inside
/// the caller's namespace; the stored block is shared, not rewritten.
pub fn copy_object(
    state: &mut AppState,
    session: &LocalSession,
    dest_bucket: &str,
    dest_key: &str,
    headers: &Headers,
    now_ms: u64,
) -> (r: Result<Response, ApiError>)
    requires
        old(state).wf(),
    ensures
        final(state).wf(),
        copy_object_outcome(
            *old(state),
            *final(state),
            *session,
            dest_bucket@,
            dest_key@,
            *headers,
            now_ms,
            r,
        ),
{
    let copy_source = match headers.get("x-amz-copy-source") {
        Some(v) => v,
        None => {
            return Err(ApiError::s3(S3ErrorCode::InvalidArgument, "Missing x-amz-copy-source"));
        },
    };
    let (source_bucket, source_key) = match parse_copy_source(copy_source.as_str()) {
        Some(p) => p,
        None => {
            return Err(ApiError::s3(S3ErrorCode::InvalidArgument, "Invalid copy source format"));
        },
    };
    let mut metadata = match state.bucket_manager.get_object(
        session.hashed_user_id.as_str(),
        source_bucket.as_str(),
        source_key.as_str(),
    ) {
        Ok(Some(m)) => m,
        Ok(None) => {
            return Err(ApiError::s3(S3ErrorCode::NoSuchKey, "Source object not found"));
        },
        Err(e) => {
            return Err(ApiError::Core(e));
        },
    };
    metadata.last_modified = now_ms;
    metadata.owner_id = Some(session.hashed_user_id.clone());
    let ghost dest_view = metadata@;
    let etag_copy = metadata.etag.clone();
    if !state.bucket_manager.bucket_exists_for_user(session.hashed_user_id.as_str(), dest_bucket) {
        return Err(ApiError::s3(S3ErrorCode::NoSuchBucket, "Bucket not found"));
    }
    match state.bucket_manager.put_object(
        session.hashed_user_id.as_str(),
        dest_bucket,
        dest_key.to_owned(),
        metadata,
    ) {
        Ok(()) => {},
        Err(e) => {
            return Err(ApiError::Core(e));
        },
    }
    let body = crate::xml::copy_object_result(now_ms, etag_copy.as_str());
    let mut hs: Vec<(String, String)> = Vec::new();
    hs.push((("Content-Type").to_owned(), ("application/xml").to_owned()));
    proof {
        let sm = old(state).bucket_manager.spec_object(
            session.hashed_user_id@,
            spec_copy_source(headers.spec_get("x-amz-copy-source"@).unwrap()).unwrap().0,
            spec_copy_source(headers.spec_get("x-amz-copy-source"@).unwrap()).unwrap().1,
        ).unwrap();
        assert(dest_view =~= (MetadataView {
            last_modified: now_ms,
            owner_id: Some(session.hashed_user_id@),
            ..sm
        }));
    }
    Ok(Response { status: 200, headers: hs, body: body.as_str().as_bytes_vec() })
}

} // verus!
