use fula_gateway::auth::authenticate;
use fula_gateway::config::LocalGatewayConfig;
use fula_gateway::http::{Headers, Response};
use fula_gateway::routes::{handle_request, Method, QueryParams};
use fula_gateway::state::{AppState, LocalSession};

fn session(user: &str) -> LocalSession {
    LocalSession { hashed_user_id: user.to_string(), display_name: "Local Device".to_string() }
}

fn fresh_state() -> AppState {
    AppState::new(LocalGatewayConfig::default())
}

fn no_query() -> QueryParams {
    QueryParams {
        uploads: false,
        location: false,
        delete: false,
        upload_id: None,
        part_number: None,
        list_type: None,
        prefix: None,
        delimiter: None,
        max_keys: None,
        continuation_token: None,
        start_after: None,
        fetch_owner: None,
    }
}

fn no_headers() -> Headers {
    Headers { entries: Vec::new() }
}

fn header_value(resp: &Response, name: &str) -> Option<String> {
    for (n, v) in &resp.headers {
        if n == name {
            return Some(v.clone());
        }
    }
    None
}

fn body_string(resp: &Response) -> String {
    String::from_utf8(resp.body.clone()).unwrap()
}

fn run(
    state: &mut AppState,
    sess: &LocalSession,
    method: Method,
    path: &str,
    query: QueryParams,
    headers: Headers,
    body: &[u8],
) -> Response {
    handle_request(state, sess, method, path, query, &headers, &body.to_vec(), 1_000)
}

#[test]
fn create_put_get_round_trip() {
    let mut state = fresh_state();
    let sess = session("local-device");
    let r = run(&mut state, &sess, Method::Put, "/mybucket", no_query(), no_headers(), b"");
    assert_eq!(r.status, 200);
    assert_eq!(header_value(&r, "Location").unwrap(), "/mybucket");

    let r = run(&mut state, &sess, Method::Put, "/mybucket/hello", no_query(), no_headers(), b"Hello\n");
    assert_eq!(r.status, 200);
    let etag = header_value(&r, "ETag").unwrap();
    assert!(etag.starts_with('"') && etag.ends_with('"'));
    let cid = header_value(&r, "X-Fula-Content-Cid").unwrap();
    assert_eq!(etag, format!("\"{}\"", cid));
    assert_eq!(cid.len(), 64);
    assert!(cid.chars().all(|c| c.is_ascii_hexdigit() && !c.is_ascii_uppercase()));

    let r = run(&mut state, &sess, Method::Get, "/mybucket/hello", no_query(), no_headers(), b"");
    assert_eq!(r.status, 200);
    assert_eq!(r.body, b"Hello\n".to_vec());
    assert_eq!(header_value(&r, "ETag").unwrap(), etag);
    assert_eq!(header_value(&r, "Content-Length").unwrap(), "6");

    let r = run(&mut state, &sess, Method::Head, "/mybucket/hello", no_query(), no_headers(), b"");
    assert_eq!(r.status, 200);
    assert!(r.body.is_empty());
    assert_eq!(header_value(&r, "ETag").unwrap(), etag);
    assert_eq!(header_value(&r, "Content-Length").unwrap(), "6");
}

#[test]
fn range_request_returns_partial_content() {
    let mut state = fresh_state();
    let sess = session("local-device");
    run(&mut state, &sess, Method::Put, "/mybucket", no_query(), no_headers(), b"");
    run(&mut state, &sess, Method::Put, "/mybucket/hello", no_query(), no_headers(), b"Hello\n");

    let mut h = no_headers();
    h.entries.push(("range".to_string(), "bytes=1-3".to_string()));
    let r = run(&mut state, &sess, Method::Get, "/mybucket/hello", no_query(), h, b"");
    assert_eq!(r.status, 206);
    assert_eq!(r.body, b"ell".to_vec());
    assert_eq!(header_value(&r, "Content-Range").unwrap(), "bytes 1-3/6");
    assert_eq!(header_value(&r, "Content-Length").unwrap(), "3");
}

#[test]
fn range_suffix_and_open_forms() {
    let mut state = fresh_state();
    let sess = session("local-device");
    run(&mut state, &sess, Method::Put, "/b", no_query(), no_headers(), b"");
    run(&mut state, &sess, Method::Put, "/b/k", no_query(), no_headers(), b"0123456789");

    let mut h = no_headers();
    h.entries.push(("range".to_string(), "bytes=-4".to_string()));
    let r = run(&mut state, &sess, Method::Get, "/b/k", no_query(), h, b"");
    assert_eq!(r.status, 206);
    assert_eq!(r.body, b"6789".to_vec());

    let mut h = no_headers();
    h.entries.push(("range".to_string(), "bytes=7-".to_string()));
    let r = run(&mut state, &sess, Method::Get, "/b/k", no_query(), h, b"");
    assert_eq!(r.status, 206);
    assert_eq!(r.body, b"789".to_vec());

    let mut h = no_headers();
    h.entries.push(("range".to_string(), "bytes=4-99".to_string()));
    let r = run(&mut state, &sess, Method::Get, "/b/k", no_query(), h, b"");
    assert_eq!(r.status, 206);
    assert_eq!(r.body, b"456789".to_vec());
    assert_eq!(header_value(&r, "Content-Range").unwrap(), "bytes 4-9/10");

    let mut h = no_headers();
    h.entries.push(("range".to_string(), "bytes=12-".to_string()));
    let r = run(&mut state, &sess, Method::Get, "/b/k", no_query(), h, b"");
    assert_eq!(r.status, 400);
    assert_eq!(header_value(&r, "x-amz-error-code").unwrap(), "InvalidRange");

    // a zero-byte suffix names no byte and is refused
    let mut h = no_headers();
    h.entries.push(("range".to_string(), "bytes=-0".to_string()));
    let r = run(&mut state, &sess, Method::Get, "/b/k", no_query(), h, b"");
    assert_eq!(r.status, 400);
    assert_eq!(header_value(&r, "x-amz-error-code").unwrap(), "InvalidRange");
}

#[test]
fn multipart_upload_completes_into_one_object() {
    let mut state = fresh_state();
    let sess = session("local-device");
    run(&mut state, &sess, Method::Put, "/b", no_query(), no_headers(), b"");

    let mut q = no_query();
    q.uploads = true;
    let r = run(&mut state, &sess, Method::Post, "/b/big", q, no_headers(), b"");
    assert_eq!(r.status, 200);
    let body = body_string(&r);
    let start = body.find("<UploadId>").unwrap() + "<UploadId>".len();
    let end = body.find("</UploadId>").unwrap();
    let upload_id = body[start..end].to_string();
    assert_eq!(upload_id.len(), 36);

    let part1 = vec![0u8; 5 * 1024 * 1024];
    let part2 = vec![1u8; 3 * 1024 * 1024];
    let mut q = no_query();
    q.upload_id = Some(upload_id.clone());
    q.part_number = Some(1);
    let r = run(&mut state, &sess, Method::Put, "/b/big", q, no_headers(), &part1);
    assert_eq!(r.status, 200);
    let mut q = no_query();
    q.upload_id = Some(upload_id.clone());
    q.part_number = Some(2);
    let r = run(&mut state, &sess, Method::Put, "/b/big", q, no_headers(), &part2);
    assert_eq!(r.status, 200);

    let mut q = no_query();
    q.upload_id = Some(upload_id.clone());
    let r = run(&mut state, &sess, Method::Post, "/b/big", q, no_headers(), b"");
    assert_eq!(r.status, 200);
    let body = body_string(&r);
    let start = body.find("<ETag>\"").unwrap() + "<ETag>\"".len();
    let end = body[start..].find('"').unwrap() + start;
    let etag = body[start..end].to_string();
    let (hex_part, count_part) = etag.split_once('-').unwrap();
    assert_eq!(hex_part.len(), 32);
    assert!(hex_part.chars().all(|c| c.is_ascii_hexdigit() && !c.is_ascii_uppercase()));
    assert_eq!(count_part, "2");

    let complete_cid = header_value(&r, "X-Fula-Content-Cid").unwrap();
    assert_eq!(complete_cid.len(), 64);

    let r = run(&mut state, &sess, Method::Get, "/b/big", no_query(), no_headers(), b"");
    assert_eq!(r.status, 200);
    assert_eq!(header_value(&r, "X-Fula-Content-Cid").unwrap(), complete_cid);
    // the unified DAG document stands in for the concatenated bytes
    let body = body_string(&r);
    assert!(body.starts_with("{\"type\":\"fula-multipart-file\",\"parts\":["));
}

#[test]
fn multipart_single_part_keeps_part_cid() {
    let mut state = fresh_state();
    let sess = session("local-device");
    run(&mut state, &sess, Method::Put, "/b", no_query(), no_headers(), b"");
    let mut q = no_query();
    q.uploads = true;
    let r = run(&mut state, &sess, Method::Post, "/b/one", q, no_headers(), b"");
    let body = body_string(&r);
    let start = body.find("<UploadId>").unwrap() + "<UploadId>".len();
    let end = body.find("</UploadId>").unwrap();
    let upload_id = body[start..end].to_string();

    let mut q = no_query();
    q.upload_id = Some(upload_id.clone());
    q.part_number = Some(1);
    let r = run(&mut state, &sess, Method::Put, "/b/one", q, no_headers(), b"payload");
    let part_etag = header_value(&r, "ETag").unwrap();

    let mut q = no_query();
    q.upload_id = Some(upload_id);
    let r = run(&mut state, &sess, Method::Post, "/b/one", q, no_headers(), b"");
    assert_eq!(r.status, 200);
    assert_eq!(
        header_value(&r, "X-Fula-Content-Cid").unwrap(),
        part_etag.trim_matches('"').to_string()
    );

    // the object's content id is the single part's cid, so the body reads
    // back as the part bytes
    let r = run(&mut state, &sess, Method::Get, "/b/one", no_query(), no_headers(), b"");
    assert_eq!(r.status, 200);
    assert_eq!(r.body, b"payload".to_vec());
    assert_eq!(
        header_value(&r, "X-Fula-Content-Cid").unwrap(),
        part_etag.trim_matches('"').to_string()
    );
}

#[test]
fn multipart_abort_leaves_no_object() {
    let mut state = fresh_state();
    let sess = session("local-device");
    run(&mut state, &sess, Method::Put, "/b", no_query(), no_headers(), b"");
    let mut q = no_query();
    q.uploads = true;
    let r = run(&mut state, &sess, Method::Post, "/b/gone", q, no_headers(), b"");
    let body = body_string(&r);
    let start = body.find("<UploadId>").unwrap() + "<UploadId>".len();
    let end = body.find("</UploadId>").unwrap();
    let upload_id = body[start..end].to_string();

    let mut q = no_query();
    q.upload_id = Some(upload_id.clone());
    q.part_number = Some(1);
    run(&mut state, &sess, Method::Put, "/b/gone", q, no_headers(), b"data");

    let mut q = no_query();
    q.upload_id = Some(upload_id.clone());
    let r = run(&mut state, &sess, Method::Delete, "/b/gone", q, no_headers(), b"");
    assert_eq!(r.status, 204);

    // the upload is gone and nothing surfaced in the bucket
    let mut q = no_query();
    q.upload_id = Some(upload_id);
    let r = run(&mut state, &sess, Method::Post, "/b/gone", q, no_headers(), b"");
    assert_eq!(r.status, 404);
    let r = run(&mut state, &sess, Method::Get, "/b/gone", no_query(), no_headers(), b"");
    assert_eq!(r.status, 404);
    let r = run(&mut state, &sess, Method::Get, "/b", no_query(), no_headers(), b"");
    assert!(!body_string(&r).contains("gone"));
}

#[test]
fn complete_with_no_parts_is_invalid_part() {
    let mut state = fresh_state();
    let sess = session("local-device");
    run(&mut state, &sess, Method::Put, "/b", no_query(), no_headers(), b"");
    let mut q = no_query();
    q.uploads = true;
    let r = run(&mut state, &sess, Method::Post, "/b/empty", q, no_headers(), b"");
    let body = body_string(&r);
    let start = body.find("<UploadId>").unwrap() + "<UploadId>".len();
    let end = body.find("</UploadId>").unwrap();
    let upload_id = body[start..end].to_string();

    let mut q = no_query();
    q.upload_id = Some(upload_id);
    let r = run(&mut state, &sess, Method::Post, "/b/empty", q, no_headers(), b"");
    assert_eq!(r.status, 400);
    assert_eq!(header_value(&r, "x-amz-error-code").unwrap(), "InvalidPart");
}

#[test]
fn part_number_out_of_range_is_invalid_argument() {
    let mut state = fresh_state();
    let sess = session("local-device");
    run(&mut state, &sess, Method::Put, "/b", no_query(), no_headers(), b"");
    let mut q = no_query();
    q.uploads = true;
    let r = run(&mut state, &sess, Method::Post, "/b/x", q, no_headers(), b"");
    let body = body_string(&r);
    let start = body.find("<UploadId>").unwrap() + "<UploadId>".len();
    let end = body.find("</UploadId>").unwrap();
    let upload_id = body[start..end].to_string();

    let mut q = no_query();
    q.upload_id = Some(upload_id);
    q.part_number = Some(10001);
    let r = run(&mut state, &sess, Method::Put, "/b/x", q, no_headers(), b"data");
    assert_eq!(r.status, 400);
    assert_eq!(header_value(&r, "x-amz-error-code").unwrap(), "InvalidArgument");
}

#[test]
fn idempotent_delete_answers_204_twice() {
    let mut state = fresh_state();
    let sess = session("local-device");
    run(&mut state, &sess, Method::Put, "/b", no_query(), no_headers(), b"");
    run(&mut state, &sess, Method::Put, "/b/k", no_query(), no_headers(), b"v");

    let r = run(&mut state, &sess, Method::Delete, "/b/k", no_query(), no_headers(), b"");
    assert_eq!(r.status, 204);
    let r = run(&mut state, &sess, Method::Delete, "/b/k", no_query(), no_headers(), b"");
    assert_eq!(r.status, 204);
    let r = run(&mut state, &sess, Method::Get, "/b/k", no_query(), no_headers(), b"");
    assert_eq!(r.status, 404);
}

#[test]
fn conditional_get_if_none_match_is_304() {
    let mut state = fresh_state();
    let sess = session("local-device");
    run(&mut state, &sess, Method::Put, "/b", no_query(), no_headers(), b"");
    let r = run(&mut state, &sess, Method::Put, "/b/k", no_query(), no_headers(), b"v");
    let etag = header_value(&r, "ETag").unwrap();

    let mut h = no_headers();
    h.entries.push(("if-none-match".to_string(), etag.clone()));
    let r = run(&mut state, &sess, Method::Get, "/b/k", no_query(), h, b"");
    assert_eq!(r.status, 304);
    assert!(r.body.is_empty());

    let mut h = no_headers();
    h.entries.push(("if-none-match".to_string(), "*".to_string()));
    let r = run(&mut state, &sess, Method::Get, "/b/k", no_query(), h, b"");
    assert_eq!(r.status, 304);

    let mut h = no_headers();
    h.entries.push(("if-none-match".to_string(), "\"other\"".to_string()));
    let r = run(&mut state, &sess, Method::Get, "/b/k", no_query(), h, b"");
    assert_eq!(r.status, 200);
}

#[test]
fn conditional_get_if_modified_since_is_304() {
    let mut state = fresh_state();
    let sess = session("local-device");
    run(&mut state, &sess, Method::Put, "/b", no_query(), no_headers(), b"");
    // stored at 1000 ms after the epoch
    run(&mut state, &sess, Method::Put, "/b/k", no_query(), no_headers(), b"v");

    let mut h = no_headers();
    h.entries.push(("if-modified-since".to_string(), "Wed, 21 Oct 2015 07:28:00 GMT".to_string()));
    let r = run(&mut state, &sess, Method::Get, "/b/k", no_query(), h, b"");
    assert_eq!(r.status, 304);

    let mut h = no_headers();
    h.entries.push(("if-modified-since".to_string(), "Wed, 31 Dec 1969 23:00:00 GMT".to_string()));
    let r = run(&mut state, &sess, Method::Get, "/b/k", no_query(), h, b"");
    assert_eq!(r.status, 200);
}

#[test]
fn user_isolation_across_sessions() {
    let mut state = fresh_state();
    let alice = session("0000aaaa0000aaaa0000aaaa0000aaaa");
    let bob = session("1111bbbb1111bbbb1111bbbb1111bbbb");

    let r = run(&mut state, &alice, Method::Put, "/shared-name", no_query(), no_headers(), b"");
    assert_eq!(r.status, 200);
    let r = run(&mut state, &alice, Method::Put, "/shared-name/secret", no_query(), no_headers(), b"alice data");
    assert_eq!(r.status, 200);

    // bob sees neither the bucket nor the object
    let r = run(&mut state, &bob, Method::Head, "/shared-name", no_query(), no_headers(), b"");
    assert_eq!(r.status, 404);
    let r = run(&mut state, &bob, Method::Get, "/shared-name/secret", no_query(), no_headers(), b"");
    assert_eq!(r.status, 404);
    let r = run(&mut state, &bob, Method::Get, "/", no_query(), no_headers(), b"");
    assert!(!body_string(&r).contains("shared-name"));

    // bob can create a bucket of the same name and it stays separate
    let r = run(&mut state, &bob, Method::Put, "/shared-name", no_query(), no_headers(), b"");
    assert_eq!(r.status, 200);
    let r = run(&mut state, &bob, Method::Get, "/shared-name/secret", no_query(), no_headers(), b"");
    assert_eq!(r.status, 404);
    let r = run(&mut state, &alice, Method::Get, "/shared-name/secret", no_query(), no_headers(), b"");
    assert_eq!(r.status, 200);
    assert_eq!(r.body, b"alice data".to_vec());
}

#[test]
fn list_objects_with_prefix_delimiter_and_truncation() {
    let mut state = fresh_state();
    let sess = session("local-device");
    run(&mut state, &sess, Method::Put, "/b", no_query(), no_headers(), b"");
    for key in ["a.txt", "dir/one", "dir/two", "other/x", "z.txt"] {
        let r = run(&mut state, &sess, Method::Put, &format!("/b/{key}"), no_query(), no_headers(), b"v");
        assert_eq!(r.status, 200);
    }

    let mut q = no_query();
    q.delimiter = Some("/".to_string());
    let r = run(&mut state, &sess, Method::Get, "/b", q, no_headers(), b"");
    let body = body_string(&r);
    assert!(body.contains("<Key>a.txt</Key>"));
    assert!(body.contains("<Key>z.txt</Key>"));
    assert!(body.contains("<Prefix>dir/</Prefix>"));
    assert!(body.contains("<Prefix>other/</Prefix>"));
    assert!(!body.contains("<Key>dir/one</Key>"));
    assert!(body.contains("<KeyCount>4</KeyCount>"));
    assert!(body.contains("<IsTruncated>false</IsTruncated>"));

    let mut q = no_query();
    q.prefix = Some("dir/".to_string());
    let r = run(&mut state, &sess, Method::Get, "/b", q, no_headers(), b"");
    let body = body_string(&r);
    assert!(body.contains("<Key>dir/one</Key>"));
    assert!(body.contains("<Key>dir/two</Key>"));
    assert!(!body.contains("<Key>a.txt</Key>"));

    let mut q = no_query();
    q.max_keys = Some(2);
    let r = run(&mut state, &sess, Method::Get, "/b", q, no_headers(), b"");
    let body = body_string(&r);
    assert!(body.contains("<IsTruncated>true</IsTruncated>"));
    assert!(body.contains("<KeyCount>2</KeyCount>"));
    assert!(body.contains("<NextContinuationToken>dir/one</NextContinuationToken>"));

    let mut q = no_query();
    q.continuation_token = Some("dir/one".to_string());
    let r = run(&mut state, &sess, Method::Get, "/b", q, no_headers(), b"");
    let body = body_string(&r);
    assert!(!body.contains("<Key>a.txt</Key>"));
    assert!(body.contains("<Key>dir/two</Key>"));
}

#[test]
fn copy_object_reuses_content() {
    let mut state = fresh_state();
    let sess = session("local-device");
    run(&mut state, &sess, Method::Put, "/src", no_query(), no_headers(), b"");
    run(&mut state, &sess, Method::Put, "/dst", no_query(), no_headers(), b"");
    let r = run(&mut state, &sess, Method::Put, "/src/orig", no_query(), no_headers(), b"content");
    let cid = header_value(&r, "X-Fula-Content-Cid").unwrap();

    let mut h = no_headers();
    h.entries.push(("x-amz-copy-source".to_string(), "/src/orig".to_string()));
    let r = run(&mut state, &sess, Method::Put, "/dst/copy", no_query(), h, b"");
    assert_eq!(r.status, 200);
    assert!(body_string(&r).contains("<CopyObjectResult"));

    let r = run(&mut state, &sess, Method::Get, "/dst/copy", no_query(), no_headers(), b"");
    assert_eq!(r.status, 200);
    assert_eq!(r.body, b"content".to_vec());
    assert_eq!(header_value(&r, "X-Fula-Content-Cid").unwrap(), cid);
}

#[test]
fn bucket_errors_map_to_s3_codes() {
    let mut state = fresh_state();
    let sess = session("local-device");

    let r = run(&mut state, &sess, Method::Put, "/b", no_query(), no_headers(), b"");
    assert_eq!(r.status, 200);
    let r = run(&mut state, &sess, Method::Put, "/b", no_query(), no_headers(), b"");
    assert_eq!(r.status, 409);
    assert_eq!(header_value(&r, "x-amz-error-code").unwrap(), "BucketAlreadyExists");

    let r = run(&mut state, &sess, Method::Put, "/Bad_Bucket", no_query(), no_headers(), b"");
    assert_eq!(r.status, 400);
    assert_eq!(header_value(&r, "x-amz-error-code").unwrap(), "InvalidBucketName");

    run(&mut state, &sess, Method::Put, "/b/k", no_query(), no_headers(), b"v");
    let r = run(&mut state, &sess, Method::Delete, "/b", no_query(), no_headers(), b"");
    assert_eq!(r.status, 409);
    assert_eq!(header_value(&r, "x-amz-error-code").unwrap(), "BucketNotEmpty");

    run(&mut state, &sess, Method::Delete, "/b/k", no_query(), no_headers(), b"");
    let r = run(&mut state, &sess, Method::Delete, "/b", no_query(), no_headers(), b"");
    assert_eq!(r.status, 204);

    let r = run(&mut state, &sess, Method::Get, "/missing/k", no_query(), no_headers(), b"");
    assert_eq!(r.status, 404);
    assert_eq!(header_value(&r, "x-amz-error-code").unwrap(), "NoSuchBucket");

    let r = run(&mut state, &sess, Method::Post, "/b", no_query(), no_headers(), b"");
    assert_eq!(r.status, 400);
    assert_eq!(header_value(&r, "x-amz-error-code").unwrap(), "InvalidRequest");

    let mut q = no_query();
    q.delete = true;
    let r = run(&mut state, &sess, Method::Post, "/b", q, no_headers(), b"");
    assert_eq!(r.status, 501);
    assert_eq!(header_value(&r, "x-amz-error-code").unwrap(), "NotImplemented");

    let r = run(&mut state, &sess, Method::Other, "/b", no_query(), no_headers(), b"");
    assert_eq!(r.status, 405);
    assert_eq!(header_value(&r, "x-amz-error-code").unwrap(), "MethodNotAllowed");
}

#[test]
fn service_endpoints_answer() {
    let mut state = fresh_state();
    let sess = session("local-device");
    let r = run(&mut state, &sess, Method::Head, "/", no_query(), no_headers(), b"");
    assert_eq!(r.status, 200);
    assert_eq!(r.body, b"OK".to_vec());

    let r = run(&mut state, &sess, Method::Get, "/healthz", no_query(), no_headers(), b"");
    assert_eq!(r.status, 200);
    assert_eq!(r.body, b"ok".to_vec());

    let r = run(&mut state, &sess, Method::Get, "/", no_query(), no_headers(), b"");
    assert_eq!(r.status, 200);
    let body = body_string(&r);
    assert!(body.contains("<ListAllMyBucketsResult"));
    assert!(body.contains("<ID>local-device</ID>"));

    let mut q = no_query();
    q.location = true;
    run(&mut state, &sess, Method::Put, "/b", no_query(), no_headers(), b"");
    let r = run(&mut state, &sess, Method::Get, "/b", q, no_headers(), b"");
    assert!(body_string(&r).contains("<LocationConstraint"));
}

#[test]
fn chunked_body_is_decoded_on_put() {
    let mut state = fresh_state();
    let sess = session("local-device");
    run(&mut state, &sess, Method::Put, "/b", no_query(), no_headers(), b"");

    let framed = b"5;chunk-signature=abc\r\nHello\r\n1\r\n!\r\n0\r\n\r\n";
    let mut h = no_headers();
    h.entries.push(("x-amz-decoded-content-length".to_string(), "6".to_string()));
    let r = run(&mut state, &sess, Method::Put, "/b/c", no_query(), h, framed);
    assert_eq!(r.status, 200);

    let r = run(&mut state, &sess, Method::Get, "/b/c", no_query(), no_headers(), b"");
    assert_eq!(r.body, b"Hello!".to_vec());
}

#[test]
fn user_metadata_and_content_type_round_trip() {
    let mut state = fresh_state();
    let sess = session("local-device");
    run(&mut state, &sess, Method::Put, "/b", no_query(), no_headers(), b"");

    let mut h = no_headers();
    h.entries.push(("content-type".to_string(), "text/plain".to_string()));
    h.entries.push(("x-amz-meta-color".to_string(), "blue".to_string()));
    let r = run(&mut state, &sess, Method::Put, "/b/k", no_query(), h, b"v");
    assert_eq!(r.status, 200);

    let r = run(&mut state, &sess, Method::Get, "/b/k", no_query(), no_headers(), b"");
    assert_eq!(header_value(&r, "Content-Type").unwrap(), "text/plain");
    assert_eq!(header_value(&r, "x-amz-meta-color").unwrap(), "blue");
}

#[test]
fn put_replaces_object_atomically() {
    let mut state = fresh_state();
    let sess = session("local-device");
    run(&mut state, &sess, Method::Put, "/b", no_query(), no_headers(), b"");
    run(&mut state, &sess, Method::Put, "/b/k", no_query(), no_headers(), b"first");
    run(&mut state, &sess, Method::Put, "/b/k", no_query(), no_headers(), b"second");
    let r = run(&mut state, &sess, Method::Get, "/b/k", no_query(), no_headers(), b"");
    assert_eq!(r.body, b"second".to_vec());
    let r = run(&mut state, &sess, Method::Get, "/b", no_query(), no_headers(), b"");
    let body = body_string(&r);
    assert!(body.contains("<KeyCount>1</KeyCount>"));
}

#[test]
fn paired_mode_requires_the_bearer_secret() {
    let mut state = fresh_state();
    let secret = Some("s".to_string());

    // no Authorization header: refused before any handler runs
    let err = authenticate(&secret, &None, None).unwrap_err();
    let resp = err.into_response();
    assert_eq!(resp.status, 403);
    assert_eq!(header_value(&resp, "x-amz-error-code").unwrap(), "AccessDenied");

    // wrong token: refused
    let wrong = "Bearer wrong".to_string();
    let err = authenticate(&secret, &None, Some(&wrong)).unwrap_err();
    assert_eq!(err.into_response().status, 403);

    // correct token: the request reaches the handlers as the local device
    let good = "Bearer s".to_string();
    let sess = authenticate(&secret, &None, Some(&good)).unwrap();
    let r = run(&mut state, &sess, Method::Get, "/", no_query(), no_headers(), b"");
    assert_eq!(r.status, 200);
    assert!(body_string(&r).contains("<ListAllMyBucketsResult"));
}

#[test]
fn unpaired_mode_scopes_to_the_local_device() {
    let mut state = fresh_state();

    // no secret configured: any request authenticates as the local device
    let sess = authenticate(&None, &None, None).unwrap();
    assert_eq!(sess.hashed_user_id, "local-device");
    let r = run(&mut state, &sess, Method::Put, "/mine", no_query(), no_headers(), b"");
    assert_eq!(r.status, 200);
    let r = run(&mut state, &sess, Method::Get, "/", no_query(), no_headers(), b"");
    assert!(body_string(&r).contains("<Name>mine</Name>"));
    assert!(body_string(&r).contains("<ID>local-device</ID>"));
}

#[test]
fn uploads_listing_is_owner_scoped() {
    let mut state = fresh_state();
    let alice = session("0000aaaa0000aaaa0000aaaa0000aaaa");
    let bob = session("1111bbbb1111bbbb1111bbbb1111bbbb");

    run(&mut state, &alice, Method::Put, "/shared", no_query(), no_headers(), b"");
    run(&mut state, &bob, Method::Put, "/shared", no_query(), no_headers(), b"");

    let mut q = no_query();
    q.uploads = true;
    let r = run(&mut state, &alice, Method::Post, "/shared/secret-key", q, no_headers(), b"");
    assert_eq!(r.status, 200);
    let body = body_string(&r);
    let start = body.find("<UploadId>").unwrap() + "<UploadId>".len();
    let end = body.find("</UploadId>").unwrap();
    let alice_upload = body[start..end].to_string();

    // alice sees her upload in the listing
    let mut q = no_query();
    q.uploads = true;
    let r = run(&mut state, &alice, Method::Get, "/shared", q, no_headers(), b"");
    assert_eq!(r.status, 200);
    let body = body_string(&r);
    assert!(body.contains(&alice_upload));
    assert!(body.contains("secret-key"));

    // bob's listing of his same-named bucket shows none of it
    let mut q = no_query();
    q.uploads = true;
    let r = run(&mut state, &bob, Method::Get, "/shared", q, no_headers(), b"");
    assert_eq!(r.status, 200);
    let body = body_string(&r);
    assert!(!body.contains(&alice_upload));
    assert!(!body.contains("secret-key"));
    assert!(!body.contains(&alice.hashed_user_id));
}
