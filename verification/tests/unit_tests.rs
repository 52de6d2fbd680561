use fula_gateway::auth::{authenticate, constant_time_eq};
use fula_gateway::box_props::parse_box_props;
use fula_gateway::chunked::{decode_chunked_body, looks_like_chunked};
use fula_gateway::config::LocalGatewayConfig;
use fula_gateway::error::{ApiError, S3ErrorCode};
use fula_gateway::multipart_manager::{MultipartManager, UploadPart};
use fula_gateway::range::parse_range_header;
use fula_gateway::state::{cid_file_changed, hash_user_id};
use fula_gateway::text::{str_contains, str_eq, str_lt, u64_to_string};
use fula_gateway::timefmt::{civil_from_days, format_datetime_ms, format_http_date};
use fula_gateway::xml;

#[test]
fn constant_time_eq_agrees_with_equality() {
    assert!(constant_time_eq(b"secret", b"secret"));
    assert!(!constant_time_eq(b"secret", b"secreT"));
    assert!(!constant_time_eq(b"secret", b"secrets"));
    assert!(!constant_time_eq(b"Xecret", b"secret"));
    assert!(constant_time_eq(b"", b""));
}

#[test]
fn authenticate_paired_and_unpaired() {
    let secret = Some("s".to_string());
    let owner = Some("owner-hash".to_string());

    // unpaired: everything passes as the local device
    let s = authenticate(&None, &None, None).unwrap();
    assert_eq!(s.hashed_user_id, "local-device");
    assert_eq!(s.display_name, "Local Device");

    // paired: missing header refused
    let e = authenticate(&secret, &owner, None).unwrap_err();
    assert!(matches!(e.error_code(), S3ErrorCode::AccessDenied));

    // malformed header refused
    let bad = "Token s".to_string();
    let e = authenticate(&secret, &owner, Some(&bad)).unwrap_err();
    assert!(matches!(e.error_code(), S3ErrorCode::AccessDenied));

    // wrong token refused
    let wrong = "Bearer wrong".to_string();
    let e = authenticate(&secret, &owner, Some(&wrong)).unwrap_err();
    assert!(matches!(e.error_code(), S3ErrorCode::AccessDenied));

    // correct token passes and carries the configured owner
    let good = "Bearer s".to_string();
    let s = authenticate(&secret, &owner, Some(&good)).unwrap();
    assert_eq!(s.hashed_user_id, "owner-hash");
}

#[test]
fn hash_user_id_is_hex_and_domain_separated() {
    let h = hash_user_id("alice");
    assert_eq!(h.len(), 32);
    assert!(h.chars().all(|c| c.is_ascii_hexdigit() && !c.is_ascii_uppercase()));
    assert_ne!(h, hash_user_id("bob"));
    assert_ne!(h, "alice");
    // stable across calls
    assert_eq!(h, hash_user_id("alice"));
}

#[test]
fn parse_range_header_forms() {
    assert_eq!(parse_range_header("bytes=0-3", 10), Ok((0, 3)));
    assert_eq!(parse_range_header("bytes=4-", 10), Ok((4, 9)));
    assert_eq!(parse_range_header("bytes=-3", 10), Ok((7, 9)));
    assert_eq!(parse_range_header("bytes=2-99", 10), Ok((2, 9)));
    assert_eq!(parse_range_header("bytes=-99", 10), Ok((0, 9)));
    assert_eq!(parse_range_header("bytes=-0", 10), Err(()));
    assert_eq!(parse_range_header("bytes=5-2", 10), Err(()));
    assert_eq!(parse_range_header("bytes=10-", 10), Err(()));
    assert_eq!(parse_range_header("bytes=a-b", 10), Err(()));
    assert_eq!(parse_range_header("octets=0-1", 10), Err(()));
    assert_eq!(parse_range_header("bytes=12", 10), Err(()));
}

#[test]
fn chunked_decoding() {
    let body = b"5\r\nHello\r\n6\r\n World\r\n0\r\n\r\n";
    assert!(looks_like_chunked(body));
    let decoded = decode_chunked_body(body).unwrap();
    assert_eq!(decoded, b"Hello World".to_vec());

    let signed = b"5;chunk-signature=deadbeef\r\nHello\r\n0\r\n\r\n";
    assert!(looks_like_chunked(signed));
    assert_eq!(decode_chunked_body(signed).unwrap(), b"Hello".to_vec());

    assert!(!looks_like_chunked(b"Hello World"));
    assert_eq!(decode_chunked_body(b"zz\r\nHello\r\n"), None);
    assert_eq!(decode_chunked_body(b"0\r\n\r\n"), None);
}

#[test]
fn datetime_formats() {
    assert_eq!(format_datetime_ms(0), "1970-01-01T00:00:00.000Z");
    assert_eq!(format_http_date(0), "Thu, 01 Jan 1970 00:00:00 GMT");
    // a leap-year date with milliseconds
    assert_eq!(format_datetime_ms(1_445_412_480_000), "2015-10-21T07:28:00.000Z");
    assert_eq!(format_http_date(1_445_412_480_000), "Wed, 21 Oct 2015 07:28:00 GMT");
    assert_eq!(format_datetime_ms(951_827_696_789), "2000-02-29T12:34:56.789Z");
    assert_eq!(civil_from_days(0), (1970, 1, 1));
    assert_eq!(civil_from_days(11_016), (2000, 2, 29));
}

#[test]
fn xml_escape_and_documents() {
    assert_eq!(xml::escape_xml("a&b<c>d\"e'f"), "a&amp;b&lt;c&gt;d&quot;e&apos;f");
    assert_eq!(xml::escape_xml("plain"), "plain");

    let doc = xml::initiate_multipart_upload_result("b", "k", "uid");
    assert_eq!(
        doc,
        "<?xml version=\"1.0\" encoding=\"UTF-8\"?>\n<InitiateMultipartUploadResult xmlns=\"http://s3.amazonaws.com/doc/2006-03-01/\">\n    <Bucket>b</Bucket>\n    <Key>k</Key>\n    <UploadId>uid</UploadId>\n</InitiateMultipartUploadResult>"
    );

    let doc = xml::complete_multipart_upload_result("/b/k", "b", "k", "abc-2");
    assert!(doc.contains("<ETag>\"abc-2\"</ETag>"));

    let doc = xml::error_document("NoSuchKey", "a<b>c", "rid");
    assert!(doc.contains("<Code>NoSuchKey</Code>"));
    assert!(doc.contains("<Message>a&lt;b&gt;c</Message>"));
    assert!(doc.contains("<RequestId>rid</RequestId>"));

    let deleted = vec!["k1".to_string()];
    let errors = vec![("k2".to_string(), "InternalError".to_string(), "oops".to_string())];
    let doc = xml::delete_result(&deleted, &errors);
    assert!(doc.contains("<Deleted>\n        <Key>k1</Key>"));
    assert!(doc.contains("<Error>\n        <Key>k2</Key>"));
}

#[test]
fn error_code_names_and_statuses() {
    assert_eq!(S3ErrorCode::AccessDenied.as_str(), "AccessDenied");
    assert_eq!(S3ErrorCode::AccessDenied.status_code(), 403);
    assert_eq!(S3ErrorCode::NoSuchBucket.status_code(), 404);
    assert_eq!(S3ErrorCode::BucketAlreadyExists.status_code(), 409);
    assert_eq!(S3ErrorCode::TooManyBuckets.status_code(), 400);
    assert_eq!(S3ErrorCode::NotImplemented.status_code(), 501);
    assert_eq!(S3ErrorCode::MethodNotAllowed.as_str(), "MethodNotAllowed");
    assert_eq!(S3ErrorCode::ServiceUnavailable.status_code(), 503);

    let e = ApiError::s3(S3ErrorCode::InvalidRange, "Requested range not satisfiable");
    let resp = e.into_response();
    assert_eq!(resp.status, 400);
    let body = String::from_utf8(resp.body).unwrap();
    assert!(body.contains("<Code>InvalidRange</Code>"));
    assert!(body.contains("S3 error: InvalidRange - Requested range not satisfiable"));
}

#[test]
fn multipart_manager_orders_and_replaces_parts() {
    let mgr = &mut MultipartManager::new(3600);
    let up = mgr.create_upload_with_metadata(
        "b".to_string(),
        "k".to_string(),
        "owner".to_string(),
        None,
        Vec::new(),
        50_000,
    );
    let id = up.upload_id.clone();

    mgr.add_part(&id, UploadPart::new(2, "e2".to_string(), 20, "c2".to_string(), 51_000));
    mgr.add_part(&id, UploadPart::new(1, "e1".to_string(), 10, "c1".to_string(), 52_000));
    mgr.add_part(&id, UploadPart::new(2, "e2b".to_string(), 25, "c2b".to_string(), 53_000));

    let parts = mgr.list_parts(&id).unwrap();
    assert_eq!(parts.len(), 2);
    assert_eq!(parts[0].part_number, 1);
    assert_eq!(parts[1].part_number, 2);
    assert_eq!(parts[1].cid, "c2b");

    let got = mgr.get_upload(&id).unwrap();
    assert_eq!(got.total_size(), 35);

    // expiry: nothing before the horizon, everything after
    assert_eq!(mgr.cleanup_expired(50_000 + 3_600_000 - 1), 0);
    assert_eq!(mgr.cleanup_expired(50_000 + 3_600_000 + 1), 1);
    assert!(mgr.get_upload(&id).is_none());
}

#[test]
fn box_props_parsing() {
    // payload eyJzdWIiOiJhbGljZSJ9 is {"sub":"alice"} in url-safe base64
    let data = br#"{"auto_pin_pairing_secret":"sss","auto_pin_token":"eyJhbGciOiJIUzI1NiJ9.eyJzdWIiOiJhbGljZSJ9.sig"}"#;
    let (owner, bearer) = parse_box_props(data);
    assert_eq!(bearer.unwrap(), "sss");
    let owner = owner.unwrap();
    assert_eq!(owner, hash_user_id("alice"));

    // empty secret and missing token yield nothing
    let (owner, bearer) = parse_box_props(br#"{"auto_pin_pairing_secret":""}"#);
    assert!(owner.is_none() && bearer.is_none());

    // malformed documents are never fatal
    let (owner, bearer) = parse_box_props(b"not json at all");
    assert!(owner.is_none() && bearer.is_none());

    // a token without a payload part yields no owner
    let (owner, _) = parse_box_props(br#"{"auto_pin_token":"headeronly"}"#);
    assert!(owner.is_none());
}

#[test]
fn cid_watcher_change_detection() {
    let a = Some("bafyone".to_string());
    let b = Some("bafytwo".to_string());
    assert!(!cid_file_changed(&None, &None));
    assert!(!cid_file_changed(&a, &a.clone()));
    assert!(cid_file_changed(&a, &b));
    assert!(cid_file_changed(&None, &a));
    assert!(cid_file_changed(&a, &None));
}

#[test]
fn config_defaults_and_bind_addr() {
    let c = LocalGatewayConfig::default();
    assert_eq!(c.host, "0.0.0.0");
    assert_eq!(c.port, 9000);
    assert_eq!(c.bind_addr(), "0.0.0.0:9000");
    assert_eq!(c.max_body_size, 5 * 1024 * 1024 * 1024);
    assert_eq!(c.multipart_expiry_secs, 24 * 60 * 60);
    let mut c2 = c.clone();
    c2.host = "127.0.0.1".to_string();
    c2.port = 80;
    assert_eq!(c2.bind_addr(), "127.0.0.1:80");
}

#[test]
fn text_helpers() {
    assert_eq!(u64_to_string(0), "0");
    assert_eq!(u64_to_string(90210), "90210");
    assert_eq!(u64_to_string(u64::MAX), "18446744073709551615");
    assert!(str_eq("abc", "abc"));
    assert!(!str_eq("abc", "abd"));
    assert!(str_lt("abc", "abd"));
    assert!(str_lt("ab", "abc"));
    assert!(!str_lt("abc", "abc"));
    assert!(str_contains("content-encoding: aws-chunked, gzip", "aws-chunked"));
    assert!(!str_contains("plain", "aws-chunked"));
}
