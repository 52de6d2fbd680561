//! XML response builders for the S3 API. Every document's exact text is
//! pinned by a specification function.

use vstd::prelude::*;
use crate::metadata::{ObjectMetadata, MetadataView};
use crate::multipart_manager::{UploadPart, MultipartUpload, PartView, UploadView};
use crate::text::{push_u64, spec_dec};
use crate::timefmt::{format_datetime_ms, spec_format_datetime};

verus! {

/// How one character is escaped in XML text.
pub open spec fn spec_escape_char(c: char) -> Seq<char> {
    if c == '&' {
        "&amp;"@
    } else if c == '<' {
        "&lt;"@
    } else if c == '>' {
        "&gt;"@
    } else if c == '"' {
        "&quot;"@
    } else if c == '\'' {
        "&apos;"@
    } else {
        seq![c]
    }
}

/// XML-escaped text: every character escaped in place.
pub open spec fn spec_escape(s: Seq<char>) -> Seq<char>
    decreases s.len(),
{
    if s.len() == 0 {
        Seq::empty()
    } else {
        spec_escape(s.drop_last()) + spec_escape_char(s.last())
    }
}

/// Escape the XML special characters.
pub fn escape_xml(s: &str) -> (r: String)
    ensures
        r@ == spec_escape(s@),
{
    let n = s.unicode_len();
    let mut out = String::new();
    let mut i: usize = 0;
    proof {
        assert(spec_escape(s@.take(0)) =~= Seq::<char>::empty());
    }
    while i < n
        invariant
            i <= n,
            n == s@.len(),
            out@ == spec_escape(s@.take(i as int)),
        decreases n - i,
    {
        let c = s.get_char(i);
        proof {
            assert(s@.take(i + 1).drop_last() =~= s@.take(i as int));
            assert(s@.take(i + 1).last() == s@[i as int]);
        }
        if c == '&' {
            out.append("&amp;");
        } else if c == '<' {
            out.append("&lt;");
        } else if c == '>' {
            out.append("&gt;");
        } else if c == '"' {
            out.append("&quot;");
        } else if c == '\'' {
            out.append("&apos;");
        } else {
            out.push(c);
        }
        i = i + 1;
    }
    proof {
        assert(s@.take(n as int) =~= s@);
    }
    out
}

/// How one character of an error message is escaped: only the angle
/// brackets, as error bodies are built.
pub open spec fn spec_escape_angle_char(c: char) -> Seq<char> {
    if c == '<' {
        "&lt;"@
    } else if c == '>' {
        "&gt;"@
    } else {
        seq![c]
    }
}

/// Error-message text with angle brackets escaped.
pub open spec fn spec_escape_angle(s: Seq<char>) -> Seq<char>
    decreases s.len(),
{
    if s.len() == 0 {
        Seq::empty()
    } else {
        spec_escape_angle(s.drop_last()) + spec_escape_angle_char(s.last())
    }
}

/// Escape only the angle brackets.
pub fn escape_angle(s: &str) -> (r: String)
    ensures
        r@ == spec_escape_angle(s@),
{
    let n = s.unicode_len();
    let mut out = String::new();
    let mut i: usize = 0;
    proof {
        assert(spec_escape_angle(s@.take(0)) =~= Seq::<char>::empty());
    }
    while i < n
        invariant
            i <= n,
            n == s@.len(),
            out@ == spec_escape_angle(s@.take(i as int)),
        decreases n - i,
    {
        let c = s.get_char(i);
        proof {
            assert(s@.take(i + 1).drop_last() =~= s@.take(i as int));
            assert(s@.take(i + 1).last() == s@[i as int]);
        }
        if c == '<' {
            out.append("&lt;");
        } else if c == '>' {
            out.append("&gt;");
        } else {
            out.push(c);
        }
        i = i + 1;
    }
    proof {
        assert(s@.take(n as int) =~= s@);
    }
    out
}

/// `true` or `false`.
pub open spec fn spec_bool_str(b: bool) -> Seq<char> {
    if b {
        "true"@
    } else {
        "false"@
    }
}

fn push_bool(s: &mut String, b: bool)
    ensures
        final(s)@ == old(s)@ + spec_bool_str(b),
{
    if b {
        s.append("true");
    } else {
        s.append("false");
    }
}

/// Format a datetime as ISO 8601 with milliseconds, for S3 XML documents.
pub fn format_datetime(ms: u64) -> (r: String)
    ensures
        r@ == spec_format_datetime(ms as nat),
{
    format_datetime_ms(ms)
}

/// The S3 `Error` response document.
pub open spec fn spec_error_doc(code: Seq<char>, message: Seq<char>, request_id: Seq<char>) -> Seq<
    char,
> {
    "<?xml version=\"1.0\" encoding=\"UTF-8\"?>\n<Error>\n    <Code>"@ + code + "</Code>\n    <Message>"@
        + spec_escape_angle(message) + "</Message>\n    <RequestId>"@ + request_id
        + "</RequestId>\n</Error>"@
}

/// Build the S3 `Error` response document.
pub fn error_document(code: &str, message: &str, request_id: &str) -> (r: String)
    ensures
        r@ == spec_error_doc(code@, message@, request_id@),
{
    let mut s = String::from_str(
        "<?xml version=\"1.0\" encoding=\"UTF-8\"?>\n<Error>\n    <Code>",
    );
    s.append(code);
    s.append("</Code>\n    <Message>");
    s.append(escape_angle(message).as_str());
    s.append("</Message>\n    <RequestId>");
    s.append(request_id);
    s.append("</RequestId>\n</Error>");
    s
}

/// The `InitiateMultipartUploadResult` document.
pub open spec fn spec_initiate_result(bucket: Seq<char>, key: Seq<char>, upload_id: Seq<char>) -> Seq<
    char,
> {
    "<?xml version=\"1.0\" encoding=\"UTF-8\"?>\n<InitiateMultipartUploadResult xmlns=\"http://s3.amazonaws.com/doc/2006-03-01/\">\n    <Bucket>"@
        + spec_escape(bucket) + "</Bucket>\n    <Key>"@ + spec_escape(key)
        + "</Key>\n    <UploadId>"@ + spec_escape(upload_id)
        + "</UploadId>\n</InitiateMultipartUploadResult>"@
}

/// Build `InitiateMultipartUploadResult`.
pub fn initiate_multipart_upload_result(bucket: &str, key: &str, upload_id: &str) -> (r: String)
    ensures
        r@ == spec_initiate_result(bucket@, key@, upload_id@),
{
    let mut s = String::from_str(
        "<?xml version=\"1.0\" encoding=\"UTF-8\"?>\n<InitiateMultipartUploadResult xmlns=\"http://s3.amazonaws.com/doc/2006-03-01/\">\n    <Bucket>",
    );
    s.append(escape_xml(bucket).as_str());
    s.append("</Bucket>\n    <Key>");
    s.append(escape_xml(key).as_str());
    s.append("</Key>\n    <UploadId>");
    s.append(escape_xml(upload_id).as_str());
    s.append("</UploadId>\n</InitiateMultipartUploadResult>");
    s
}

/// The `CompleteMultipartUploadResult` document.
pub open spec fn spec_complete_result(
    location: Seq<char>,
    bucket: Seq<char>,
    key: Seq<char>,
    etag: Seq<char>,
) -> Seq<char> {
    "<?xml version=\"1.0\" encoding=\"UTF-8\"?>\n<CompleteMultipartUploadResult xmlns=\"http://s3.amazonaws.com/doc/2006-03-01/\">\n    <Location>"@
        + spec_escape(location) + "</Location>\n    <Bucket>"@ + spec_escape(bucket)
        + "</Bucket>\n    <Key>"@ + spec_escape(key) + "</Key>\n    <ETag>\""@ + spec_escape(etag)
        + "\"</ETag>\n</CompleteMultipartUploadResult>"@
}

/// Build `CompleteMultipartUploadResult`.
pub fn complete_multipart_upload_result(location: &str, bucket: &str, key: &str, etag: &str) -> (r:
    String)
    ensures
        r@ == spec_complete_result(location@, bucket@, key@, etag@),
{
    let mut s = String::from_str(
        "<?xml version=\"1.0\" encoding=\"UTF-8\"?>\n<CompleteMultipartUploadResult xmlns=\"http://s3.amazonaws.com/doc/2006-03-01/\">\n    <Location>",
    );
    s.append(escape_xml(location).as_str());
    s.append("</Location>\n    <Bucket>");
    s.append(escape_xml(bucket).as_str());
    s.append("</Bucket>\n    <Key>");
    s.append(escape_xml(key).as_str());
    s.append("</Key>\n    <ETag>\"");
    s.append(escape_xml(etag).as_str());
    s.append("\"</ETag>\n</CompleteMultipartUploadResult>");
    s
}

/// The `CopyObjectResult` document.
pub open spec fn spec_copy_result(last_modified_ms: u64, etag: Seq<char>) -> Seq<char> {
    "<?xml version=\"1.0\" encoding=\"UTF-8\"?>\n<CopyObjectResult xmlns=\"http://s3.amazonaws.com/doc/2006-03-01/\">\n    <LastModified>"@
        + spec_format_datetime(last_modified_ms as nat) + "</LastModified>\n    <ETag>\""@
        + spec_escape(etag) + "\"</ETag>\n</CopyObjectResult>"@
}

/// Build `CopyObjectResult`.
pub fn copy_object_result(last_modified_ms: u64, etag: &str) -> (r: String)
    ensures
        r@ == spec_copy_result(last_modified_ms, etag@),
{
    let mut s = String::from_str(
        "<?xml version=\"1.0\" encoding=\"UTF-8\"?>\n<CopyObjectResult xmlns=\"http://s3.amazonaws.com/doc/2006-03-01/\">\n    <LastModified>",
    );
    s.append(format_datetime_ms(last_modified_ms).as_str());
    s.append("</LastModified>\n    <ETag>\"");
    s.append(escape_xml(etag).as_str());
    s.append("\"</ETag>\n</CopyObjectResult>");
    s
}

/// The `LocationConstraint` document.
pub open spec fn spec_location_constraint() -> Seq<char> {
    "<?xml version=\"1.0\" encoding=\"UTF-8\"?>\n<LocationConstraint xmlns=\"http://s3.amazonaws.com/doc/2006-03-01/\"></LocationConstraint>"@
}

/// Build `LocationConstraint` (always the empty constraint).
pub fn location_constraint() -> (r: String)
    ensures
        r@ == spec_location_constraint(),
{
    String::from_str(
        "<?xml version=\"1.0\" encoding=\"UTF-8\"?>\n<LocationConstraint xmlns=\"http://s3.amazonaws.com/doc/2006-03-01/\"></LocationConstraint>",
    )
}

/// One `<Bucket>` entry of `ListAllMyBucketsResult`.
pub open spec fn spec_bucket_entry(name: Seq<char>, created_ms: u64) -> Seq<char> {
    "\n        <Bucket>\n            <Name>"@ + spec_escape(name)
        + "</Name>\n            <CreationDate>"@ + spec_format_datetime(created_ms as nat)
        + "</CreationDate>\n        </Bucket>"@
}

fn bucket_entry(name: &str, created_ms: u64) -> (r: String)
    ensures
        r@ == spec_bucket_entry(name@, created_ms),
{
    let mut s = String::from_str("\n        <Bucket>\n            <Name>");
    s.append(escape_xml(name).as_str());
    s.append("</Name>\n            <CreationDate>");
    s.append(format_datetime_ms(created_ms).as_str());
    s.append("</CreationDate>\n        </Bucket>");
    s
}

/// The `<Bucket>` entries for a list of (name, creation time) pairs.
pub open spec fn spec_bucket_entries(buckets: Seq<(Seq<char>, u64)>) -> Seq<char>
    decreases buckets.len(),
{
    if buckets.len() == 0 {
        Seq::empty()
    } else {
        spec_bucket_entries(buckets.drop_last()) + spec_bucket_entry(
            buckets.last().0,
            buckets.last().1,
        )
    }
}

/// The views of a (name, creation time) list.
pub open spec fn bucket_pairs_view(s: Seq<(String, u64)>) -> Seq<(Seq<char>, u64)> {
    s.map_values(|p: (String, u64)| (p.0@, p.1))
}

/// The `ListAllMyBucketsResult` document.
pub open spec fn spec_list_all_my_buckets_result(
    owner_id: Seq<char>,
    owner_name: Seq<char>,
    buckets: Seq<(Seq<char>, u64)>,
) -> Seq<char> {
    "<?xml version=\"1.0\" encoding=\"UTF-8\"?>\n<ListAllMyBucketsResult xmlns=\"http://s3.amazonaws.com/doc/2006-03-01/\">\n    <Owner>\n        <ID>"@
        + spec_escape(owner_id) + "</ID>\n        <DisplayName>"@ + spec_escape(owner_name)
        + "</DisplayName>\n    </Owner>\n    <Buckets>"@ + spec_bucket_entries(buckets)
        + "\n    </Buckets>\n</ListAllMyBucketsResult>"@
}

/// Build `ListAllMyBucketsResult`.
pub fn list_all_my_buckets_result(
    owner_id: &str,
    owner_name: &str,
    buckets: &Vec<(String, u64)>,
) -> (r: String)
    ensures
        r@ == spec_list_all_my_buckets_result(owner_id@, owner_name@, bucket_pairs_view(buckets@)),
{
    let ghost views = bucket_pairs_view(buckets@);
    let mut s = String::from_str(
        "<?xml version=\"1.0\" encoding=\"UTF-8\"?>\n<ListAllMyBucketsResult xmlns=\"http://s3.amazonaws.com/doc/2006-03-01/\">\n    <Owner>\n        <ID>",
    );
    s.append(escape_xml(owner_id).as_str());
    s.append("</ID>\n        <DisplayName>");
    s.append(escape_xml(owner_name).as_str());
    s.append("</DisplayName>\n    </Owner>\n    <Buckets>");
    let ghost head = s@;
    let n = buckets.len();
    let mut i: usize = 0;
    proof {
        assert(spec_bucket_entries(views.take(0)) =~= Seq::<char>::empty());
        assert(s@ =~= head + spec_bucket_entries(views.take(0)));
    }
    while i < n
        invariant
            i <= n,
            n == buckets@.len(),
            views == bucket_pairs_view(buckets@),
            s@ == head + spec_bucket_entries(views.take(i as int)),
        decreases n - i,
    {
        proof {
            assert(views.take(i + 1).drop_last() =~= views.take(i as int));
            assert(views.take(i + 1).last() == views[i as int]);
        }
        let entry = bucket_entry(buckets[i].0.as_str(), buckets[i].1);
        let ghost before = s@;
        s.append(entry.as_str());
        proof {
            assert(s@ =~= head + spec_bucket_entries(views.take(i + 1)));
        }
        i = i + 1;
    }
    proof {
        assert(views.take(n as int) =~= views);
    }
    s.append("\n    </Buckets>\n</ListAllMyBucketsResult>");
    s
}

/// The string form of a storage class.
pub open spec fn spec_storage_class(c: crate::metadata::StorageClass) -> Seq<char> {
    "STANDARD"@
}

/// One `<Contents>` entry of `ListBucketResult`.
pub open spec fn spec_contents_entry(key: Seq<char>, m: MetadataView) -> Seq<char> {
    "\n    <Contents>\n        <Key>"@ + spec_escape(key) + "</Key>\n        <LastModified>"@
        + spec_format_datetime(m.last_modified as nat) + "</LastModified>\n        <ETag>\""@
        + spec_escape(m.etag) + "\"</ETag>\n        <Size>"@ + spec_dec(m.size as nat)
        + "</Size>\n        <StorageClass>"@ + spec_storage_class(m.storage_class)
        + "</StorageClass>\n    </Contents>"@
}

fn contents_entry(key: &str, m: &ObjectMetadata) -> (r: String)
    ensures
        r@ == spec_contents_entry(key@, m@),
{
    let mut s = String::from_str("\n    <Contents>\n        <Key>");
    s.append(escape_xml(key).as_str());
    s.append("</Key>\n        <LastModified>");
    s.append(format_datetime_ms(m.last_modified).as_str());
    s.append("</LastModified>\n        <ETag>\"");
    s.append(escape_xml(m.etag.as_str()).as_str());
    s.append("\"</ETag>\n        <Size>");
    push_u64(&mut s, m.size);
    s.append("</Size>\n        <StorageClass>");
    s.append(m.storage_class.as_str());
    s.append("</StorageClass>\n    </Contents>");
    s
}

/// The `<Contents>` entries for a listing.
pub open spec fn spec_contents_entries(objects: Seq<(Seq<char>, MetadataView)>) -> Seq<char>
    decreases objects.len(),
{
    if objects.len() == 0 {
        Seq::empty()
    } else {
        spec_contents_entries(objects.drop_last()) + spec_contents_entry(
            objects.last().0,
            objects.last().1,
        )
    }
}

/// The views of a (key, metadata) list.
pub open spec fn object_pairs_view(s: Seq<(String, ObjectMetadata)>) -> Seq<
    (Seq<char>, MetadataView),
> {
    s.map_values(|p: (String, ObjectMetadata)| (p.0@, p.1@))
}

/// One `<CommonPrefixes>` entry.
pub open spec fn spec_prefix_entry(p: Seq<char>) -> Seq<char> {
    "\n    <CommonPrefixes>\n        <Prefix>"@ + spec_escape(p)
        + "</Prefix>\n    </CommonPrefixes>"@
}

/// The `<CommonPrefixes>` entries for a listing.
pub open spec fn spec_prefix_entries(prefixes: Seq<Seq<char>>) -> Seq<char>
    decreases prefixes.len(),
{
    if prefixes.len() == 0 {
        Seq::empty()
    } else {
        spec_prefix_entries(prefixes.drop_last()) + spec_prefix_entry(prefixes.last())
    }
}

/// The views of a string list.
pub open spec fn strings_view(s: Seq<String>) -> Seq<Seq<char>> {
    s.map_values(|p: String| p@)
}

/// An optional `<Delimiter>`, `<ContinuationToken>` or similar element.
pub open spec fn spec_opt_element(
    open_tag: Seq<char>,
    value: Option<Seq<char>>,
    close_tag: Seq<char>,
) -> Seq<char> {
    match value {
        Some(v) => open_tag + spec_escape(v) + close_tag,
        None => Seq::empty(),
    }
}

/// The head of `ListBucketResult`: everything before the entries.
pub open spec fn spec_list_bucket_head(
    bucket_name: Seq<char>,
    prefix: Seq<char>,
    delimiter: Option<Seq<char>>,
    max_keys: u64,
    is_truncated: bool,
    key_count: nat,
    continuation_token: Option<Seq<char>>,
    next_continuation_token: Option<Seq<char>>,
) -> Seq<char> {
    "<?xml version=\"1.0\" encoding=\"UTF-8\"?>\n<ListBucketResult xmlns=\"http://s3.amazonaws.com/doc/2006-03-01/\">\n    <Name>"@
        + spec_escape(bucket_name) + "</Name>\n    <Prefix>"@ + spec_escape(prefix)
        + "</Prefix>\n    <KeyCount>"@ + spec_dec(key_count)
        + "</KeyCount>\n    <MaxKeys>"@ + spec_dec(max_keys as nat) + "</MaxKeys>\n    <IsTruncated>"@
        + spec_bool_str(is_truncated) + "</IsTruncated>"@ + spec_opt_element(
        "\n    <Delimiter>"@,
        delimiter,
        "</Delimiter>"@,
    ) + spec_opt_element("\n    <ContinuationToken>"@, continuation_token, "</ContinuationToken>"@)
        + spec_opt_element(
        "\n    <NextContinuationToken>"@,
        next_continuation_token,
        "</NextContinuationToken>"@,
    )
}

#[verifier::rlimit(100)]
#[verifier::spinoff_prover]
fn list_bucket_head(
    bucket_name: &str,
    prefix: &str,
    delimiter: Option<&String>,
    max_keys: u64,
    is_truncated: bool,
    key_count: u64,
    continuation_token: Option<&String>,
    next_continuation_token: Option<&String>,
) -> (r: String)
    ensures
        r@ == spec_list_bucket_head(
            bucket_name@,
            prefix@,
            match delimiter {
                Some(d) => Some(d@),
                None => None,
            },
            max_keys,
            is_truncated,
            key_count as nat,
            match continuation_token {
                Some(t) => Some(t@),
                None => None,
            },
            match next_continuation_token {
                Some(t) => Some(t@),
                None => None,
            },
        ),
{
    let mut s = String::from_str(
        "<?xml version=\"1.0\" encoding=\"UTF-8\"?>\n<ListBucketResult xmlns=\"http://s3.amazonaws.com/doc/2006-03-01/\">\n    <Name>",
    );
    s.append(escape_xml(bucket_name).as_str());
    s.append("</Name>\n    <Prefix>");
    s.append(escape_xml(prefix).as_str());
    s.append("</Prefix>\n    <KeyCount>");
    push_u64(&mut s, key_count);
    s.append("</KeyCount>\n    <MaxKeys>");
    push_u64(&mut s, max_keys);
    s.append("</MaxKeys>\n    <IsTruncated>");
    push_bool(&mut s, is_truncated);
    s.append("</IsTruncated>");
    match delimiter {
        Some(d) => {
            s.append("\n    <Delimiter>");
            s.append(escape_xml(d.as_str()).as_str());
            s.append("</Delimiter>");
        },
        None => {},
    }
    match continuation_token {
        Some(t) => {
            s.append("\n    <ContinuationToken>");
            s.append(escape_xml(t.as_str()).as_str());
            s.append("</ContinuationToken>");
        },
        None => {},
    }
    match next_continuation_token {
        Some(t) => {
            s.append("\n    <NextContinuationToken>");
            s.append(escape_xml(t.as_str()).as_str());
            s.append("</NextContinuationToken>");
        },
        None => {},
    }
    s
}

/// The `ListBucketResult` document.
pub open spec fn spec_list_bucket_result(
    bucket_name: Seq<char>,
    prefix: Seq<char>,
    delimiter: Option<Seq<char>>,
    max_keys: u64,
    is_truncated: bool,
    objects: Seq<(Seq<char>, MetadataView)>,
    common_prefixes: Seq<Seq<char>>,
    continuation_token: Option<Seq<char>>,
    next_continuation_token: Option<Seq<char>>,
) -> Seq<char> {
    spec_list_bucket_head(
        bucket_name,
        prefix,
        delimiter,
        max_keys,
        is_truncated,
        (objects.len() + common_prefixes.len()) as nat,
        continuation_token,
        next_continuation_token,
    ) + spec_contents_entries(objects) + spec_prefix_entries(common_prefixes)
        + "\n</ListBucketResult>"@
}

/// Build `ListBucketResult`.
#[verifier::rlimit(50)]
pub fn list_bucket_result(
    bucket_name: &str,
    prefix: &str,
    delimiter: Option<&String>,
    max_keys: u64,
    is_truncated: bool,
    objects: &Vec<(String, ObjectMetadata)>,
    common_prefixes: &Vec<String>,
    continuation_token: Option<&String>,
    next_continuation_token: Option<&String>,
) -> (r: String)
    requires
        objects@.len() + common_prefixes@.len() <= u64::MAX,
    ensures
        r@ == spec_list_bucket_result(
            bucket_name@,
            prefix@,
            match delimiter {
                Some(d) => Some(d@),
                None => None,
            },
            max_keys,
            is_truncated,
            object_pairs_view(objects@),
            strings_view(common_prefixes@),
            match continuation_token {
                Some(t) => Some(t@),
                None => None,
            },
            match next_continuation_token {
                Some(t) => Some(t@),
                None => None,
            },
        ),
{
    let ghost ov = object_pairs_view(objects@);
    let ghost pv = strings_view(common_prefixes@);
    let key_count: u64 = (objects.len() as u64) + (common_prefixes.len() as u64);
    let mut s = list_bucket_head(
        bucket_name,
        prefix,
        delimiter,
        max_keys,
        is_truncated,
        key_count,
        continuation_token,
        next_continuation_token,
    );
    let ghost head = s@;
    let n = objects.len();
    let mut i: usize = 0;
    proof {
        assert(spec_contents_entries(ov.take(0)) =~= Seq::<char>::empty());
        assert(s@ =~= head + spec_contents_entries(ov.take(0)));
    }
    while i < n
        invariant
            i <= n,
            n == objects@.len(),
            ov == object_pairs_view(objects@),
            s@ == head + spec_contents_entries(ov.take(i as int)),
        decreases n - i,
    {
        proof {
            assert(ov.take(i + 1).drop_last() =~= ov.take(i as int));
            assert(ov.take(i + 1).last() == ov[i as int]);
        }
        let entry = contents_entry(objects[i].0.as_str(), &objects[i].1);
        s.append(entry.as_str());
        proof {
            assert(s@ =~= head + spec_contents_entries(ov.take(i + 1)));
        }
        i = i + 1;
    }
    proof {
        assert(ov.take(n as int) =~= ov);
    }
    let ghost head2 = s@;
    let np = common_prefixes.len();
    let mut j: usize = 0;
    proof {
        assert(spec_prefix_entries(pv.take(0)) =~= Seq::<char>::empty());
        assert(s@ =~= head2 + spec_prefix_entries(pv.take(0)));
    }
    while j < np
        invariant
            j <= np,
            np == common_prefixes@.len(),
            pv == strings_view(common_prefixes@),
            s@ == head2 + spec_prefix_entries(pv.take(j as int)),
        decreases np - j,
    {
        proof {
            assert(pv.take(j + 1).drop_last() =~= pv.take(j as int));
            assert(pv.take(j + 1).last() == pv[j as int]);
        }
        s.append("\n    <CommonPrefixes>\n        <Prefix>");
        s.append(escape_xml(common_prefixes[j].as_str()).as_str());
        s.append("</Prefix>\n    </CommonPrefixes>");
        proof {
            assert(s@ =~= head2 + spec_prefix_entries(pv.take(j + 1)));
        }
        j = j + 1;
    }
    proof {
        assert(pv.take(np as int) =~= pv);
    }
    s.append("\n</ListBucketResult>");
    s
}

/// One `<Part>` entry of `ListPartsResult`.
pub open spec fn spec_part_entry(p: PartView) -> Seq<char> {
    "\n    <Part>\n        <PartNumber>"@ + spec_dec(p.part_number as nat)
        + "</PartNumber>\n        <LastModified>"@ + spec_format_datetime(p.uploaded_at as nat)
        + "</LastModified>\n        <ETag>\""@ + spec_escape(p.etag) + "\"</ETag>\n        <Size>"@
        + spec_dec(p.size as nat) + "</Size>\n    </Part>"@
}

fn part_entry(p: &UploadPart) -> (r: String)
    ensures
        r@ == spec_part_entry(p@),
{
    let mut s = String::from_str("\n    <Part>\n        <PartNumber>");
    push_u64(&mut s, p.part_number as u64);
    s.append("</PartNumber>\n        <LastModified>");
    s.append(format_datetime_ms(p.uploaded_at).as_str());
    s.append("</LastModified>\n        <ETag>\"");
    s.append(escape_xml(p.etag.as_str()).as_str());
    s.append("\"</ETag>\n        <Size>");
    push_u64(&mut s, p.size);
    s.append("</Size>\n    </Part>");
    s
}

/// The `<Part>` entries for a part list.
pub open spec fn spec_part_entries(parts: Seq<PartView>) -> Seq<char>
    decreases parts.len(),
{
    if parts.len() == 0 {
        Seq::empty()
    } else {
        spec_part_entries(parts.drop_last()) + spec_part_entry(parts.last())
    }
}

/// The `ListPartsResult` document.
pub open spec fn spec_list_parts_result(
    bucket: Seq<char>,
    key: Seq<char>,
    upload_id: Seq<char>,
    parts: Seq<PartView>,
    is_truncated: bool,
    max_parts: u64,
) -> Seq<char> {
    "<?xml version=\"1.0\" encoding=\"UTF-8\"?>\n<ListPartsResult xmlns=\"http://s3.amazonaws.com/doc/2006-03-01/\">\n    <Bucket>"@
        + spec_escape(bucket) + "</Bucket>\n    <Key>"@ + spec_escape(key)
        + "</Key>\n    <UploadId>"@ + spec_escape(upload_id) + "</UploadId>\n    <MaxParts>"@
        + spec_dec(max_parts as nat) + "</MaxParts>\n    <IsTruncated>"@ + spec_bool_str(
        is_truncated,
    ) + "</IsTruncated>"@ + spec_part_entries(parts) + "\n</ListPartsResult>"@
}

/// Build `ListPartsResult`.
pub fn list_parts_result(
    bucket: &str,
    key: &str,
    upload_id: &str,
    parts: &Vec<UploadPart>,
    is_truncated: bool,
    max_parts: u64,
) -> (r: String)
    ensures
        r@ == spec_list_parts_result(
            bucket@,
            key@,
            upload_id@,
            crate::multipart_manager::part_views(parts@),
            is_truncated,
            max_parts,
        ),
{
    let ghost views = crate::multipart_manager::part_views(parts@);
    let mut s = String::from_str(
        "<?xml version=\"1.0\" encoding=\"UTF-8\"?>\n<ListPartsResult xmlns=\"http://s3.amazonaws.com/doc/2006-03-01/\">\n    <Bucket>",
    );
    s.append(escape_xml(bucket).as_str());
    s.append("</Bucket>\n    <Key>");
    s.append(escape_xml(key).as_str());
    s.append("</Key>\n    <UploadId>");
    s.append(escape_xml(upload_id).as_str());
    s.append("</UploadId>\n    <MaxParts>");
    push_u64(&mut s, max_parts);
    s.append("</MaxParts>\n    <IsTruncated>");
    push_bool(&mut s, is_truncated);
    s.append("</IsTruncated>");
    let ghost head = s@;
    let n = parts.len();
    let mut i: usize = 0;
    proof {
        assert(spec_part_entries(views.take(0)) =~= Seq::<char>::empty());
        assert(s@ =~= head + spec_part_entries(views.take(0)));
    }
    while i < n
        invariant
            i <= n,
            n == parts@.len(),
            views == crate::multipart_manager::part_views(parts@),
            s@ == head + spec_part_entries(views.take(i as int)),
        decreases n - i,
    {
        proof {
            assert(views.take(i + 1).drop_last() =~= views.take(i as int));
            assert(views.take(i + 1).last() == views[i as int]);
        }
        let entry = part_entry(&parts[i]);
        s.append(entry.as_str());
        proof {
            assert(s@ =~= head + spec_part_entries(views.take(i + 1)));
        }
        i = i + 1;
    }
    proof {
        assert(views.take(n as int) =~= views);
    }
    s.append("\n</ListPartsResult>");
    s
}

/// One `<Upload>` entry of `ListMultipartUploadsResult`.
pub open spec fn spec_upload_entry(u: UploadView) -> Seq<char> {
    "\n    <Upload>\n        <Key>"@ + spec_escape(u.key) + "</Key>\n        <UploadId>"@
        + spec_escape(u.upload_id)
        + "</UploadId>\n        <Initiator>\n            <ID>"@ + spec_escape(u.owner_id)
        + "</ID>\n        </Initiator>\n        <Owner>\n            <ID>"@ + spec_escape(
        u.owner_id,
    ) + "</ID>\n        </Owner>\n        <Initiated>"@ + spec_format_datetime(u.created_at as nat)
        + "</Initiated>\n    </Upload>"@
}

fn upload_entry(u: &MultipartUpload) -> (r: String)
    ensures
        r@ == spec_upload_entry(u@),
{
    let mut s = String::from_str("\n    <Upload>\n        <Key>");
    s.append(escape_xml(u.key.as_str()).as_str());
    s.append("</Key>\n        <UploadId>");
    s.append(escape_xml(u.upload_id.as_str()).as_str());
    s.append("</UploadId>\n        <Initiator>\n            <ID>");
    s.append(escape_xml(u.owner_id.as_str()).as_str());
    s.append("</ID>\n        </Initiator>\n        <Owner>\n            <ID>");
    s.append(escape_xml(u.owner_id.as_str()).as_str());
    s.append("</ID>\n        </Owner>\n        <Initiated>");
    s.append(format_datetime_ms(u.created_at).as_str());
    s.append("</Initiated>\n    </Upload>");
    s
}

/// The `<Upload>` entries for an upload list.
pub open spec fn spec_upload_entries(uploads: Seq<UploadView>) -> Seq<char>
    decreases uploads.len(),
{
    if uploads.len() == 0 {
        Seq::empty()
    } else {
        spec_upload_entries(uploads.drop_last()) + spec_upload_entry(uploads.last())
    }
}

/// The `ListMultipartUploadsResult` document.
pub open spec fn spec_list_multipart_uploads_result(
    bucket: Seq<char>,
    uploads: Seq<UploadView>,
    is_truncated: bool,
    max_uploads: u64,
) -> Seq<char> {
    "<?xml version=\"1.0\" encoding=\"UTF-8\"?>\n<ListMultipartUploadsResult xmlns=\"http://s3.amazonaws.com/doc/2006-03-01/\">\n    <Bucket>"@
        + spec_escape(bucket) + "</Bucket>\n    <MaxUploads>"@ + spec_dec(max_uploads as nat)
        + "</MaxUploads>\n    <IsTruncated>"@ + spec_bool_str(is_truncated) + "</IsTruncated>"@
        + spec_upload_entries(uploads) + "\n</ListMultipartUploadsResult>"@
}

/// Build `ListMultipartUploadsResult`.
pub fn list_multipart_uploads_result(
    bucket: &str,
    uploads: &Vec<MultipartUpload>,
    is_truncated: bool,
    max_uploads: u64,
) -> (r: String)
    ensures
        r@ == spec_list_multipart_uploads_result(
            bucket@,
            crate::multipart_manager::upload_views(uploads@),
            is_truncated,
            max_uploads,
        ),
{
    let ghost views = crate::multipart_manager::upload_views(uploads@);
    let mut s = String::from_str(
        "<?xml version=\"1.0\" encoding=\"UTF-8\"?>\n<ListMultipartUploadsResult xmlns=\"http://s3.amazonaws.com/doc/2006-03-01/\">\n    <Bucket>",
    );
    s.append(escape_xml(bucket).as_str());
    s.append("</Bucket>\n    <MaxUploads>");
    push_u64(&mut s, max_uploads);
    s.append("</MaxUploads>\n    <IsTruncated>");
    push_bool(&mut s, is_truncated);
    s.append("</IsTruncated>");
    let ghost head = s@;
    let n = uploads.len();
    let mut i: usize = 0;
    proof {
        assert(spec_upload_entries(views.take(0)) =~= Seq::<char>::empty());
        assert(s@ =~= head + spec_upload_entries(views.take(0)));
    }
    while i < n
        invariant
            i <= n,
            n == uploads@.len(),
            views == crate::multipart_manager::upload_views(uploads@),
            s@ == head + spec_upload_entries(views.take(i as int)),
        decreases n - i,
    {
        proof {
            assert(views.take(i + 1).drop_last() =~= views.take(i as int));
            assert(views.take(i + 1).last() == views[i as int]);
        }
        let entry = upload_entry(&uploads[i]);
        s.append(entry.as_str());
        proof {
            assert(s@ =~= head + spec_upload_entries(views.take(i + 1)));
        }
        i = i + 1;
    }
    proof {
        assert(views.take(n as int) =~= views);
    }
    s.append("\n</ListMultipartUploadsResult>");
    s
}

/// One `<Deleted>` entry of `DeleteResult`.
pub open spec fn spec_deleted_entry(key: Seq<char>) -> Seq<char> {
    "\n    <Deleted>\n        <Key>"@ + spec_escape(key) + "</Key>\n    </Deleted>"@
}

/// The `<Deleted>` entries for a key list.
pub open spec fn spec_deleted_entries(keys: Seq<Seq<char>>) -> Seq<char>
    decreases keys.len(),
{
    if keys.len() == 0 {
        Seq::empty()
    } else {
        spec_deleted_entries(keys.drop_last()) + spec_deleted_entry(keys.last())
    }
}

/// One `<Error>` entry of `DeleteResult`.
pub open spec fn spec_delete_error_entry(key: Seq<char>, code: Seq<char>, message: Seq<char>) -> Seq<
    char,
> {
    "\n    <Error>\n        <Key>"@ + spec_escape(key) + "</Key>\n        <Code>"@ + spec_escape(
        code,
    ) + "</Code>\n        <Message>"@ + spec_escape(message) + "</Message>\n    </Error>"@
}

/// The `<Error>` entries for a (key, code, message) list.
pub open spec fn spec_delete_error_entries(errors: Seq<(Seq<char>, Seq<char>, Seq<char>)>) -> Seq<
    char,
>
    decreases errors.len(),
{
    if errors.len() == 0 {
        Seq::empty()
    } else {
        spec_delete_error_entries(errors.drop_last()) + spec_delete_error_entry(
            errors.last().0,
            errors.last().1,
            errors.last().2,
        )
    }
}

/// The views of a (key, code, message) list.
pub open spec fn triples_view(s: Seq<(String, String, String)>) -> Seq<
    (Seq<char>, Seq<char>, Seq<char>),
> {
    s.map_values(|p: (String, String, String)| (p.0@, p.1@, p.2@))
}

/// The `DeleteResult` document.
pub open spec fn spec_delete_result(
    deleted: Seq<Seq<char>>,
    errors: Seq<(Seq<char>, Seq<char>, Seq<char>)>,
) -> Seq<char> {
    "<?xml version=\"1.0\" encoding=\"UTF-8\"?>\n<DeleteResult xmlns=\"http://s3.amazonaws.com/doc/2006-03-01/\">"@
        + spec_deleted_entries(deleted) + spec_delete_error_entries(errors) + "\n</DeleteResult>"@
}

/// Build `DeleteResult`.
pub fn delete_result(deleted: &Vec<String>, errors: &Vec<(String, String, String)>) -> (r: String)
    ensures
        r@ == spec_delete_result(strings_view(deleted@), triples_view(errors@)),
{
    let ghost dv = strings_view(deleted@);
    let ghost ev = triples_view(errors@);
    let mut s = String::from_str(
        "<?xml version=\"1.0\" encoding=\"UTF-8\"?>\n<DeleteResult xmlns=\"http://s3.amazonaws.com/doc/2006-03-01/\">",
    );
    let ghost head = s@;
    let n = deleted.len();
    let mut i: usize = 0;
    proof {
        assert(spec_deleted_entries(dv.take(0)) =~= Seq::<char>::empty());
        assert(s@ =~= head + spec_deleted_entries(dv.take(0)));
    }
    while i < n
        invariant
            i <= n,
            n == deleted@.len(),
            dv == strings_view(deleted@),
            s@ == head + spec_deleted_entries(dv.take(i as int)),
        decreases n - i,
    {
        proof {
            assert(dv.take(i + 1).drop_last() =~= dv.take(i as int));
            assert(dv.take(i + 1).last() == dv[i as int]);
        }
        s.append("\n    <Deleted>\n        <Key>");
        s.append(escape_xml(deleted[i].as_str()).as_str());
        s.append("</Key>\n    </Deleted>");
        proof {
            assert(s@ =~= head + spec_deleted_entries(dv.take(i + 1)));
        }
        i = i + 1;
    }
    proof {
        assert(dv.take(n as int) =~= dv);
    }
    let ghost head2 = s@;
    let ne = errors.len();
    let mut j: usize = 0;
    proof {
        assert(spec_delete_error_entries(ev.take(0)) =~= Seq::<char>::empty());
        assert(s@ =~= head2 + spec_delete_error_entries(ev.take(0)));
    }
    while j < ne
        invariant
            j <= ne,
            ne == errors@.len(),
            ev == triples_view(errors@),
            s@ == head2 + spec_delete_error_entries(ev.take(j as int)),
        decreases ne - j,
    {
        proof {
            assert(ev.take(j + 1).drop_last() =~= ev.take(j as int));
            assert(ev.take(j + 1).last() == ev[j as int]);
        }
        s.append("\n    <Error>\n        <Key>");
        s.append(escape_xml(errors[j].0.as_str()).as_str());
        s.append("</Key>\n        <Code>");
        s.append(escape_xml(errors[j].1.as_str()).as_str());
        s.append("</Code>\n        <Message>");
        s.append(escape_xml(errors[j].2.as_str()).as_str());
        s.append("</Message>\n    </Error>");
        proof {
            assert(s@ =~= head2 + spec_delete_error_entries(ev.take(j + 1)));
        }
        j = j + 1;
    }
    proof {
        assert(ev.take(ne as int) =~= ev);
    }
    s.append("\n</DeleteResult>");
    s
}

} // verus!
