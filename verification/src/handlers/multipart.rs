//! Multipart upload handlers: initiate, part upload, completion into a
//! unified DAG, abort, and the listings.

use vstd::prelude::*;
use crate::error::{ApiError, S3ErrorCode};
use crate::handlers::object::{collect_meta, spec_effective_body, spec_meta_pairs, quote_etag, spec_quoted};
use crate::hashing::{blake3_hash, blake3_of, hex_encode, hex_of};
use crate::http::{Headers, Response, try_decode_chunked};
use crate::metadata::{ObjectMetadata, MetadataView, opt_view};
use crate::multipart_manager::{UploadPart, PartView, spec_add_part, spec_total_size, part_views};
use crate::state::{AppState, LocalSession};
use crate::store::cid_of;
use crate::text::spec_dec;
use crate::xml;
use vstd::string::{StrSliceExecFns, StringExecFns, StringSliceAdditionalSpecFns};
use vstd::utf8::encode_utf8;

verus! {

/// Query parameters of the multipart operations.
#[derive(Debug)]
pub struct MultipartParams {
    pub upload_id: Option<String>,
    pub part_number: Option<u32>,
    pub uploads: Option<String>,
}

/// What initiating an upload does: success exactly when the bucket
/// stands in the caller's namespace; then a fresh upload registered with
/// the request's content type and user metadata, and the
/// `InitiateMultipartUploadResult` document naming its id.
pub open spec fn create_multipart_upload_outcome(
    pre: AppState,
    post: AppState,
    session: LocalSession,
    bucket: Seq<char>,
    key: Seq<char>,
    headers: Headers,
    now_ms: u64,
    hr: Result<Response, ApiError>,
) -> bool {
    &&& (post.block_store == pre.block_store)
    &&& (post.bucket_manager == pre.bucket_manager)
    &&& (hr is Ok <==> pre.bucket_manager.spec_bucket(session.hashed_user_id@, bucket)
            is Some)
    &&& (hr matches Err(e) ==> e.spec_code() == S3ErrorCode::NoSuchBucket && post == pre)
    &&& (hr matches Ok(resp) ==> resp.status == 200 && (exists|uid: Seq<char>|
            {
                &&& #[trigger] post.multipart_manager.spec_get(uid) matches Some(u)
                &&& u.bucket == bucket
                &&& u.key == key
                &&& u.owner_id == session.hashed_user_id@
                &&& u.created_at == now_ms
                &&& u.content_type == headers.spec_get("content-type"@)
                &&& u.metadata == spec_meta_pairs(headers.entries@)
                &&& u.parts.len() == 0
                &&& resp.body@ == encode_utf8(xml::spec_initiate_result(bucket, key, uid))
            }))
}

/// POST /{bucket}/{key}?uploads: initiate a multipart upload.
pub fn create_multipart_upload(
    state: &mut AppState,
    session: &LocalSession,
    bucket: &str,
    key: &str,
    headers: &Headers,
    now_ms: u64,
) -> (r: Result<Response, ApiError>)
    requires
        old(state).wf(),
    ensures
        final(state).wf(),
        create_multipart_upload_outcome(
            *old(state),
            *final(state),
            *session,
            bucket@,
            key@,
            *headers,
            now_ms,
            r,
        ),
{
    if !state.bucket_manager.bucket_exists_for_user(session.hashed_user_id.as_str(), bucket) {
        return Err(ApiError::s3(S3ErrorCode::NoSuchBucket, "Bucket not found"));
    }
    let content_type: Option<String> = match headers.get("content-type") {
        Some(ct) => Some(ct.clone()),
        None => None,
    };
    let metadata = collect_meta(headers);
    let upload = state.multipart_manager.create_upload_with_metadata(
        bucket.to_owned(),
        key.to_owned(),
        session.hashed_user_id.clone(),
        content_type,
        metadata,
        now_ms,
    );
    let body = xml::initiate_multipart_upload_result(bucket, key, upload.upload_id.as_str());
    let mut hs: Vec<(String, String)> = Vec::new();
    hs.push((("Content-Type").to_owned(), ("application/xml").to_owned()));
    proof {
        assert(final(state).multipart_manager.spec_get(upload@.upload_id) == Some(upload@));
    }
    Ok(Response { status: 200, headers: hs, body: body.as_str().as_bytes_vec() })
}

/// What storing a part does: the missing-parameter, out-of-range,
/// unknown-upload and bucket/key-mismatch refusals each leave the state
/// as it was; otherwise the decoded part body stands in the block store
/// and the upload binds the part under its number, answered with the
/// part's quoted etag.
pub open spec fn upload_part_outcome(
    pre: AppState,
    post: AppState,
    session: LocalSession,
    bucket: Seq<char>,
    key: Seq<char>,
    upload_id: Option<Seq<char>>,
    part_number: Option<u32>,
    headers: Headers,
    body: Seq<u8>,
    now_ms: u64,
    hr: Result<Response, ApiError>,
) -> bool {
    &&& (post.bucket_manager == pre.bucket_manager)
    &&& (upload_id is None ==> (hr matches Err(e) && e.spec_code()
            == S3ErrorCode::InvalidArgument && post == pre))
    &&& (part_number is None && upload_id is Some ==> (hr matches Err(e)
            && e.spec_code() == S3ErrorCode::InvalidArgument && post == pre))
    &&& (upload_id matches Some(uid) ==> (part_number matches Some(pn) ==> {
            if !(1 <= pn <= 10000) {
                hr matches Err(e) && e.spec_code() == S3ErrorCode::InvalidArgument && post
                    == pre
            } else {
                match pre.multipart_manager.spec_get(uid) {
                    None => hr matches Err(e) && e.spec_code() == S3ErrorCode::NoSuchUpload
                        && post == pre,
                    Some(u) => {
                        if u.bucket != bucket || u.key != key {
                            hr matches Err(e) && e.spec_code() == S3ErrorCode::InvalidArgument
                                && post == pre
                        } else {
                            let eff = spec_effective_body(headers, body);
                            let cid = cid_of(eff);
                            let part = PartView {
                                part_number: pn,
                                etag: cid,
                                size: eff.len() as u64,
                                cid: cid,
                                uploaded_at: now_ms,
                                checksum_blake3: None,
                            };
                            &&& post.block_store.spec_get_block(cid) == Some(eff)
                            &&& post.multipart_manager.spec_get(uid) == Some(
                                crate::multipart_manager::UploadView {
                                    parts: spec_add_part(u.parts, part),
                                    ..u
                                },
                            )
                            &&& (hr matches Ok(resp) && resp.status == 200 && resp.body@.len() == 0
                                && resp.headers@.len() == 1 && resp.headers@[0].0@ == "ETag"@
                                && resp.headers@[0].1@ == spec_quoted(cid))
                        }
                    },
                }
            }
        }))
}

/// PUT /{bucket}/{key}?partNumber=N&uploadId=X: store one part.
pub fn upload_part(
    state: &mut AppState,
    session: &LocalSession,
    bucket: &str,
    key: &str,
    params: &MultipartParams,
    headers: &Headers,
    body: &Vec<u8>,
    now_ms: u64,
) -> (r: Result<Response, ApiError>)
    requires
        old(state).wf(),
        body@.len() <= u64::MAX,
    ensures
        final(state).wf(),
        upload_part_outcome(
            *old(state),
            *final(state),
            *session,
            bucket@,
            key@,
            opt_view(params.upload_id),
            params.part_number,
            *headers,
            body@,
            now_ms,
            r,
        ),
{
    let upload_id = match &params.upload_id {
        Some(u) => u,
        None => {
            return Err(ApiError::s3(S3ErrorCode::InvalidArgument, "Missing uploadId"));
        },
    };
    let part_number = match &params.part_number {
        Some(p) => *p,
        None => {
            return Err(ApiError::s3(S3ErrorCode::InvalidArgument, "Missing partNumber"));
        },
    };
    if !(1 <= part_number && part_number <= 10000) {
        return Err(
            ApiError::s3(S3ErrorCode::InvalidArgument, "Part number must be between 1 and 10000"),
        );
    }
    let upload = match state.multipart_manager.get_upload(upload_id.as_str()) {
        Some(u) => u,
        None => {
            return Err(ApiError::s3(S3ErrorCode::NoSuchUpload, "Upload not found"));
        },
    };
    if !crate::text::str_eq(upload.bucket.as_str(), bucket) || !crate::text::str_eq(
        upload.key.as_str(),
        key,
    ) {
        return Err(ApiError::s3(S3ErrorCode::InvalidArgument, "Bucket/key mismatch"));
    }
    let decoded = try_decode_chunked(headers, body);
    let effective: &Vec<u8> = match &decoded {
        Some(d) => d,
        None => body,
    };
    proof {
        assert(effective@ == spec_effective_body(*headers, body@));
    }
    let cid = state.block_store.put_block(effective);
    let etag = cid.clone();
    let part = UploadPart::new(part_number, etag.clone(), effective.len() as u64, cid, now_ms);
    let added = state.multipart_manager.add_part(upload_id.as_str(), part);
    proof {
        assert(added is Some);
    }
    let mut hs: Vec<(String, String)> = Vec::new();
    hs.push((("ETag").to_owned(), quote_etag(etag.as_str())));
    Ok(Response { status: 200, headers: hs, body: Vec::new() })
}

/// The ascending part cids of an upload, as one character sequence each.
pub open spec fn spec_part_cids(parts: Seq<PartView>) -> Seq<Seq<char>> {
    parts.map_values(|p: PartView| p.cid)
}

/// The unified DAG document naming the parts of a completed upload.
pub open spec fn spec_dag_entries(cids: Seq<Seq<char>>) -> Seq<char>
    decreases cids.len(),
{
    if cids.len() == 0 {
        Seq::empty()
    } else if cids.len() == 1 {
        seq!['"'] + cids.last() + seq!['"']
    } else {
        spec_dag_entries(cids.drop_last()) + ","@ + seq!['"'] + cids.last() + seq!['"']
    }
}

pub open spec fn spec_dag_doc(cids: Seq<Seq<char>>) -> Seq<char> {
    "{\"type\":\"fula-multipart-file\",\"parts\":["@ + spec_dag_entries(cids) + "]}"@
}

/// Build the unified DAG document for the given part cids.
fn dag_doc(parts: &Vec<UploadPart>) -> (r: String)
    ensures
        r@ == spec_dag_doc(spec_part_cids(part_views(parts@))),
{
    let ghost cids = spec_part_cids(part_views(parts@));
    let mut s = String::from_str("{\"type\":\"fula-multipart-file\",\"parts\":[");
    let ghost head = s@;
    let n = parts.len();
    let mut i: usize = 0;
    proof {
        assert(spec_dag_entries(cids.take(0)) =~= Seq::<char>::empty());
        assert(s@ =~= head + spec_dag_entries(cids.take(0)));
        reveal_strlit("\"");
        reveal_strlit(",");
        reveal_strlit(",\"");
    }
    while i < n
        invariant
            i <= n,
            n == parts@.len(),
            cids == spec_part_cids(part_views(parts@)),
            s@ == head + spec_dag_entries(cids.take(i as int)),
        decreases n - i,
    {
        proof {
            assert(cids.take(i + 1).drop_last() =~= cids.take(i as int));
            assert(cids.take(i + 1).last() == cids[i as int]);
            reveal_strlit("\"");
            reveal_strlit(",");
        }
        let ghost before = s@;
        if i > 0 {
            s.append(",");
        }
        s.append("\"");
        s.append(parts[i].cid.as_str());
        s.append("\"");
        proof {
            assert(s@ =~= head + spec_dag_entries(cids.take(i + 1)));
        }
        i = i + 1;
    }
    proof {
        assert(cids.take(n as int) =~= cids);
    }
    s.append("]}");
    s
}

/// The multipart etag: the first 16 bytes of the BLAKE3 digest of the
/// concatenated part cids, in hexadecimal, a dash, and the part count.
pub open spec fn spec_multipart_etag(parts: Seq<PartView>) -> Seq<char> {
    hex_of(blake3_of(vstd::utf8::encode_utf8(spec_concat_cids(spec_part_cids(parts)))).take(16))
        + "-"@ + spec_dec(parts.len())
}

/// The part cids joined into one character sequence.
pub open spec fn spec_concat_cids(cids: Seq<Seq<char>>) -> Seq<char>
    decreases cids.len(),
{
    if cids.len() == 0 {
        Seq::empty()
    } else {
        spec_concat_cids(cids.drop_last()) + cids.last()
    }
}

/// Join the part cids into one string.
fn concat_cids(parts: &Vec<UploadPart>) -> (r: String)
    ensures
        r@ == spec_concat_cids(spec_part_cids(part_views(parts@))),
{
    let ghost cids = spec_part_cids(part_views(parts@));
    let mut s = String::new();
    let n = parts.len();
    let mut i: usize = 0;
    proof {
        assert(spec_concat_cids(cids.take(0)) =~= Seq::<char>::empty());
        assert(s@ =~= spec_concat_cids(cids.take(0)));
    }
    while i < n
        invariant
            i <= n,
            n == parts@.len(),
            cids == spec_part_cids(part_views(parts@)),
            s@ == spec_concat_cids(cids.take(i as int)),
        decreases n - i,
    {
        proof {
            assert(cids.take(i + 1).drop_last() =~= cids.take(i as int));
            assert(cids.take(i + 1).last() == cids[i as int]);
        }
        s.append(parts[i].cid.as_str());
        i = i + 1;
    }
    proof {
        assert(cids.take(n as int) =~= cids);
    }
    s
}

/// The final content id of a completed upload: one part's own cid, or the
/// cid of the unified DAG document naming every part.
pub open spec fn spec_final_cid(parts: Seq<PartView>) -> Seq<char> {
    if parts.len() == 1 {
        parts[0].cid
    } else {
        cid_of(vstd::utf8::encode_utf8(spec_dag_doc(spec_part_cids(parts))))
    }
}

/// The metadata a completed upload stores.
pub open spec fn spec_complete_meta(u: crate::multipart_manager::UploadView, now_ms: u64) -> MetadataView {
    MetadataView {
        cid: spec_final_cid(u.parts),
        size: (if spec_total_size(u.parts) <= u64::MAX as nat {
            spec_total_size(u.parts)
        } else {
            u64::MAX as nat
        }) as u64,
        etag: spec_multipart_etag(u.parts),
        last_modified: now_ms,
        content_type: u.content_type,
        content_encoding: None,
        content_disposition: None,
        cache_control: None,
        version_id: None,
        storage_class: crate::metadata::StorageClass::Standard,
        user_metadata: u.metadata,
        owner_id: Some(u.owner_id),
        is_delete_marker: false,
    }
}

/// What completing an upload does: the upload leaves the registry on
/// every path that found it; mismatch and no-parts refusals leave the
/// bucket manager and block store as they were; on success one object
/// appears, built from the final content id, the summed size and the
/// multipart etag, answered with the completion document and the content
/// id header.
pub open spec fn complete_multipart_upload_outcome(
    pre: AppState,
    post: AppState,
    session: LocalSession,
    bucket: Seq<char>,
    key: Seq<char>,
    upload_id: Option<Seq<char>>,
    now_ms: u64,
    hr: Result<Response, ApiError>,
) -> bool {
    &&& (upload_id is None ==> (hr matches Err(e) && e.spec_code()
        == S3ErrorCode::InvalidArgument && post == pre))
    &&& (upload_id matches Some(uid) ==> {
        match pre.multipart_manager.spec_get(uid) {
            None => hr matches Err(e) && e.spec_code() == S3ErrorCode::NoSuchUpload && post
                == pre,
            Some(u) => {
                &&& post.multipart_manager.spec_get(uid) is None
                &&& (forall|id2: Seq<char>| id2 != uid ==> #[trigger] post.multipart_manager.spec_get(
                    id2,
                ) == pre.multipart_manager.spec_get(id2))
                &&& (u.bucket != bucket || u.key != key ==> (hr matches Err(e) && e.spec_code()
                    == S3ErrorCode::InvalidArgument && post.bucket_manager == pre.bucket_manager
                    && post.block_store == pre.block_store))
                &&& (u.bucket == bucket && u.key == key && u.parts.len() == 0 ==> (hr matches Err(
                    e,
                ) && e.spec_code() == S3ErrorCode::InvalidPart && post.bucket_manager
                    == pre.bucket_manager && post.block_store == pre.block_store))
                &&& (u.bucket == bucket && u.key == key && u.parts.len() > 0 ==> {
                    if pre.bucket_manager.spec_bucket(session.hashed_user_id@, bucket) is None {
                        hr matches Err(e) && e.spec_code() == S3ErrorCode::NoSuchBucket
                    } else {
                        &&& post.bucket_manager.spec_object(session.hashed_user_id@, bucket, key)
                            == Some(spec_complete_meta(u, now_ms))
                        &&& (hr matches Ok(resp) && resp.status == 200 && resp.body@
                            == encode_utf8(
                            xml::spec_complete_result(
                                "/"@ + bucket + "/"@ + key,
                                bucket,
                                key,
                                spec_multipart_etag(u.parts),
                            ),
                        ) && resp.headers@.len() == 2 && resp.headers@[0].0@ == "Content-Type"@
                            && resp.headers@[0].1@ == "application/xml"@ && resp.headers@[1].0@
                            == "X-Fula-Content-Cid"@ && resp.headers@[1].1@ == spec_final_cid(
                            u.parts,
                        ))
                    }
                })
            },
        }
    })

}

/// POST /{bucket}/{key}?uploadId=X: complete a multipart upload. The
/// upload leaves the registry atomically; a single object appears.
pub fn complete_multipart_upload(
    state: &mut AppState,
    session: &LocalSession,
    bucket: &str,
    key: &str,
    params: &MultipartParams,
    now_ms: u64,
) -> (r: Result<Response, ApiError>)
    requires
        old(state).wf(),
    ensures
        final(state).wf(),
        complete_multipart_upload_outcome(
            *old(state),
            *final(state),
            *session,
            bucket@,
            key@,
            opt_view(params.upload_id),
            now_ms,
            r,
        ),
{
    let upload_id = match &params.upload_id {
        Some(u) => u,
        None => {
            return Err(ApiError::s3(S3ErrorCode::InvalidArgument, "Missing uploadId"));
        },
    };
    let upload = match state.multipart_manager.complete_upload(upload_id.as_str()) {
        Some(u) => u,
        None => {
            return Err(ApiError::s3(S3ErrorCode::NoSuchUpload, "Upload not found"));
        },
    };
    if !crate::text::str_eq(upload.bucket.as_str(), bucket) || !crate::text::str_eq(
        upload.key.as_str(),
        key,
    ) {
        return Err(ApiError::s3(S3ErrorCode::InvalidArgument, "Bucket/key mismatch"));
    }
    if upload.parts.len() == 0 {
        return Err(ApiError::s3(S3ErrorCode::InvalidPart, "No parts uploaded"));
    }
    // the final cid: one part's own cid, or a unified DAG document
    let final_cid: String = if upload.parts.len() == 1 {
        upload.parts[0].cid.clone()
    } else {
        let doc = dag_doc(&upload.parts);
        let encoded = doc.as_str().as_bytes_vec();
        state.block_store.put_ipld(&encoded)
    };
    proof {
        assert(final_cid@ == spec_final_cid(upload@.parts));
    }
    // the multipart etag
    let cid_concat = concat_cids(&upload.parts);
    let digest = blake3_hash(cid_concat.as_str().as_bytes());
    let hash_hex = hex_encode(&digest[0..16]);
    let mut final_etag = hash_hex;
    final_etag.append("-");
    crate::text::push_u64(&mut final_etag, upload.parts.len() as u64);
    proof {
        assert(digest@.subrange(0, 16) =~= blake3_of(
            vstd::utf8::encode_utf8(spec_concat_cids(spec_part_cids(upload@.parts))),
        ).take(16));
        assert(final_etag@ == spec_multipart_etag(upload@.parts));
    }
    let final_cid_header = final_cid.clone();
    let total_size = upload.total_size();
    let mut metadata = ObjectMetadata::new(
        final_cid,
        total_size,
        final_etag.clone(),
        now_ms,
    ).with_owner(upload.owner_id.as_str());
    metadata.content_type = crate::metadata::clone_opt(&upload.content_type);
    metadata.user_metadata = crate::metadata::clone_pairs(&upload.metadata);
    proof {
        assert(metadata@ =~= spec_complete_meta(upload@, now_ms));
    }
    match state.bucket_manager.put_object(
        session.hashed_user_id.as_str(),
        bucket,
        key.to_owned(),
        metadata,
    ) {
        Ok(()) => {},
        Err(e) => {
            return Err(ApiError::Core(e));
        },
    }
    let mut location = String::from_str("/");
    location.append(bucket);
    location.append("/");
    location.append(key);
    proof {
        reveal_strlit("/");
        assert(location@ =~= "/"@ + bucket@ + "/"@ + key@);
    }
    let body = xml::complete_multipart_upload_result(
        location.as_str(),
        bucket,
        key,
        final_etag.as_str(),
    );
    let mut hs: Vec<(String, String)> = Vec::new();
    hs.push((("Content-Type").to_owned(), ("application/xml").to_owned()));
    hs.push((("X-Fula-Content-Cid").to_owned(), final_cid_header));
    Ok(Response { status: 200, headers: hs, body: body.as_str().as_bytes_vec() })
}

/// What aborting an upload does: the upload leaves the registry when
/// found, discarding its parts, with nothing written anywhere else; the
/// missing-parameter, unknown-upload and mismatch refusals each carry
/// their code.
pub open spec fn abort_multipart_upload_outcome(
    pre: AppState,
    post: AppState,
    session: LocalSession,
    bucket: Seq<char>,
    key: Seq<char>,
    upload_id: Option<Seq<char>>,
    hr: Result<Response, ApiError>,
) -> bool {
    &&& post.block_store == pre.block_store
    &&& post.bucket_manager == pre.bucket_manager
    &&& (upload_id is None ==> (hr matches Err(e) && e.spec_code()
        == S3ErrorCode::InvalidArgument && post == pre))
    &&& (upload_id matches Some(uid) ==> {
        match pre.multipart_manager.spec_get(uid) {
            None => hr matches Err(e) && e.spec_code() == S3ErrorCode::NoSuchUpload && post
                == pre,
            Some(u) => {
                &&& post.multipart_manager.spec_get(uid) is None
                &&& (forall|id2: Seq<char>| id2 != uid ==> #[trigger] post.multipart_manager.spec_get(
                    id2,
                ) == pre.multipart_manager.spec_get(id2))
                &&& (u.bucket != bucket || u.key != key ==> (hr matches Err(e) && e.spec_code()
                    == S3ErrorCode::InvalidArgument))
                &&& (u.bucket == bucket && u.key == key ==> (hr matches Ok(resp) && resp.status
                    == 204 && resp.body@.len() == 0))
            },
        }
    })

}

/// DELETE /{bucket}/{key}?uploadId=X: abort a multipart upload.
pub fn abort_multipart_upload(
    state: &mut AppState,
    session: &LocalSession,
    bucket: &str,
    key: &str,
    params: &MultipartParams,
) -> (r: Result<Response, ApiError>)
    requires
        old(state).wf(),
    ensures
        final(state).wf(),
        abort_multipart_upload_outcome(
            *old(state),
            *final(state),
            *session,
            bucket@,
            key@,
            opt_view(params.upload_id),
            r,
        ),
{
    let upload_id = match &params.upload_id {
        Some(u) => u,
        None => {
            return Err(ApiError::s3(S3ErrorCode::InvalidArgument, "Missing uploadId"));
        },
    };
    let upload = match state.multipart_manager.abort_upload(upload_id.as_str()) {
        Some(u) => u,
        None => {
            return Err(ApiError::s3(S3ErrorCode::NoSuchUpload, "Upload not found"));
        },
    };
    if !crate::text::str_eq(upload.bucket.as_str(), bucket) || !crate::text::str_eq(
        upload.key.as_str(),
        key,
    ) {
        return Err(ApiError::s3(S3ErrorCode::InvalidArgument, "Bucket/key mismatch"));
    }
    Ok(Response { status: 204, headers: Vec::new(), body: Vec::new() })
}

/// What listing parts answers: the missing-parameter and
/// unknown-upload refusals, and otherwise the `ListPartsResult` document
/// over the upload's parts in part-number order.
pub open spec fn list_parts_outcome(
    st: AppState,
    session: LocalSession,
    bucket: Seq<char>,
    key: Seq<char>,
    upload_id: Option<Seq<char>>,
    hr: Result<Response, ApiError>,
) -> bool {
    &&& (upload_id is None ==> (hr matches Err(e) && e.spec_code()
        == S3ErrorCode::InvalidArgument))
    &&& (upload_id matches Some(uid) ==> {
        match st.multipart_manager.spec_get(uid) {
            None => hr matches Err(e) && e.spec_code() == S3ErrorCode::NoSuchUpload,
            Some(u) => hr matches Ok(resp) && resp.status == 200 && resp.body@ == encode_utf8(
                xml::spec_list_parts_result(bucket, key, uid, u.parts, false, 1000),
            ),
        }
    })

}

/// GET /{bucket}/{key}?uploadId=X: list the parts of an open upload.
pub fn list_parts(
    state: &AppState,
    session: &LocalSession,
    bucket: &str,
    key: &str,
    params: &MultipartParams,
) -> (r: Result<Response, ApiError>)
    ensures
        list_parts_outcome(*state, *session, bucket@, key@, opt_view(params.upload_id), r),
{
    let upload_id = match &params.upload_id {
        Some(u) => u,
        None => {
            return Err(ApiError::s3(S3ErrorCode::InvalidArgument, "Missing uploadId"));
        },
    };
    let parts = match state.multipart_manager.list_parts(upload_id.as_str()) {
        Some(p) => p,
        None => {
            return Err(ApiError::s3(S3ErrorCode::NoSuchUpload, "Upload not found"));
        },
    };
    let body = xml::list_parts_result(bucket, key, upload_id.as_str(), &parts, false, 1000);
    let mut hs: Vec<(String, String)> = Vec::new();
    hs.push((("Content-Type").to_owned(), ("application/xml").to_owned()));
    Ok(Response { status: 200, headers: hs, body: body.as_str().as_bytes_vec() })
}

/// What listing a bucket's open uploads answers: the
/// `ListMultipartUploadsResult` document over exactly the uploads of
/// that bucket in the caller's namespace.
pub open spec fn list_multipart_uploads_outcome(
    st: AppState,
    session: LocalSession,
    bucket: Seq<char>,
    hr: Result<Response, ApiError>,
) -> bool {
    &&& (hr matches Ok(resp) && resp.status == 200 && resp.body@ == encode_utf8(
            xml::spec_list_multipart_uploads_result(
                bucket,
                crate::multipart_manager::upload_views(st.multipart_manager.uploads@).filter(
                    |u: crate::multipart_manager::UploadView| u.bucket == bucket && u.owner_id
                        == session.hashed_user_id@,
                ),
                false,
                1000,
            ),
        ))
}

/// GET /{bucket}?uploads: list the open uploads addressed to a bucket in
/// the caller's namespace; other users' uploads never surface, whatever
/// their bucket is named.
pub fn list_multipart_uploads(state: &AppState, session: &LocalSession, bucket: &str) -> (r: Result<
    Response,
    ApiError,
>)
    ensures
        list_multipart_uploads_outcome(*state, *session, bucket@, r),
{
    let uploads = state.multipart_manager.list_uploads(bucket, session.hashed_user_id.as_str());
    let body = xml::list_multipart_uploads_result(bucket, &uploads, false, 1000);
    let mut hs: Vec<(String, String)> = Vec::new();
    hs.push((("Content-Type").to_owned(), ("application/xml").to_owned()));
    Ok(Response { status: 200, headers: hs, body: body.as_str().as_bytes_vec() })
}

} // verus!
