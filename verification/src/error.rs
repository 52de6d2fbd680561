//! S3 error taxonomy: error codes, their wire names, their HTTP statuses,
//! and the gateway's error type.

use vstd::prelude::*;
use crate::ids::new_uuid;
use crate::registry::CoreError;
use crate::http::{Response, spec_lookup};
use crate::xml::{error_document, spec_error_doc};
use vstd::string::StrSliceExecFns;
use vstd::utf8::encode_utf8;

verus! {

/// S3 error codes used by the gateway.
#[derive(Clone, Copy, Debug, PartialEq, Eq, Structural)]
pub enum S3ErrorCode {
    AccessDenied,
    BucketAlreadyExists,
    BucketAlreadyOwnedByYou,
    BucketNotEmpty,
    EntityTooLarge,
    EntityTooSmall,
    InternalError,
    InvalidArgument,
    InvalidBucketName,
    InvalidDigest,
    InvalidPart,
    InvalidPartOrder,
    InvalidRange,
    InvalidRequest,
    KeyTooLong,
    MalformedXML,
    MethodNotAllowed,
    MissingContentLength,
    NoSuchBucket,
    NoSuchKey,
    NoSuchUpload,
    NotImplemented,
    OperationAborted,
    PreconditionFailed,
    RequestTimeout,
    ServiceUnavailable,
    TooManyBuckets,
}

impl S3ErrorCode {
    /// The code's name as it appears on the wire.
    pub open spec fn spec_name(self) -> Seq<char> {
        match self {
            S3ErrorCode::AccessDenied => "AccessDenied"@,
            S3ErrorCode::BucketAlreadyExists => "BucketAlreadyExists"@,
            S3ErrorCode::BucketAlreadyOwnedByYou => "BucketAlreadyOwnedByYou"@,
            S3ErrorCode::BucketNotEmpty => "BucketNotEmpty"@,
            S3ErrorCode::EntityTooLarge => "EntityTooLarge"@,
            S3ErrorCode::EntityTooSmall => "EntityTooSmall"@,
            S3ErrorCode::InternalError => "InternalError"@,
            S3ErrorCode::InvalidArgument => "InvalidArgument"@,
            S3ErrorCode::InvalidBucketName => "InvalidBucketName"@,
            S3ErrorCode::InvalidDigest => "InvalidDigest"@,
            S3ErrorCode::InvalidPart => "InvalidPart"@,
            S3ErrorCode::InvalidPartOrder => "InvalidPartOrder"@,
            S3ErrorCode::InvalidRange => "InvalidRange"@,
            S3ErrorCode::InvalidRequest => "InvalidRequest"@,
            S3ErrorCode::KeyTooLong => "KeyTooLong"@,
            S3ErrorCode::MalformedXML => "MalformedXML"@,
            S3ErrorCode::MethodNotAllowed => "MethodNotAllowed"@,
            S3ErrorCode::MissingContentLength => "MissingContentLength"@,
            S3ErrorCode::NoSuchBucket => "NoSuchBucket"@,
            S3ErrorCode::NoSuchKey => "NoSuchKey"@,
            S3ErrorCode::NoSuchUpload => "NoSuchUpload"@,
            S3ErrorCode::NotImplemented => "NotImplemented"@,
            S3ErrorCode::OperationAborted => "OperationAborted"@,
            S3ErrorCode::PreconditionFailed => "PreconditionFailed"@,
            S3ErrorCode::RequestTimeout => "RequestTimeout"@,
            S3ErrorCode::ServiceUnavailable => "ServiceUnavailable"@,
            S3ErrorCode::TooManyBuckets => "TooManyBuckets"@,
        }
    }

    /// The HTTP status this code is reported with.
    pub open spec fn spec_status(self) -> u16 {
        match self {
            S3ErrorCode::AccessDenied => 403,
            S3ErrorCode::BucketAlreadyExists => 409,
            S3ErrorCode::BucketAlreadyOwnedByYou => 409,
            S3ErrorCode::BucketNotEmpty => 409,
            S3ErrorCode::EntityTooLarge => 400,
            S3ErrorCode::EntityTooSmall => 400,
            S3ErrorCode::InternalError => 500,
            S3ErrorCode::InvalidArgument => 400,
            S3ErrorCode::InvalidBucketName => 400,
            S3ErrorCode::InvalidDigest => 400,
            S3ErrorCode::InvalidPart => 400,
            S3ErrorCode::InvalidPartOrder => 400,
            S3ErrorCode::InvalidRange => 400,
            S3ErrorCode::InvalidRequest => 400,
            S3ErrorCode::KeyTooLong => 400,
            S3ErrorCode::MalformedXML => 400,
            S3ErrorCode::MethodNotAllowed => 405,
            S3ErrorCode::MissingContentLength => 400,
            S3ErrorCode::NoSuchBucket => 404,
            S3ErrorCode::NoSuchKey => 404,
            S3ErrorCode::NoSuchUpload => 404,
            S3ErrorCode::NotImplemented => 501,
            S3ErrorCode::OperationAborted => 409,
            S3ErrorCode::PreconditionFailed => 409,
            S3ErrorCode::RequestTimeout => 408,
            S3ErrorCode::ServiceUnavailable => 503,
            S3ErrorCode::TooManyBuckets => 400,
        }
    }

    pub fn as_str(&self) -> (r: &'static str)
        ensures
            r@ == self.spec_name(),
    {
        match self {
            S3ErrorCode::AccessDenied => "AccessDenied",
            S3ErrorCode::BucketAlreadyExists => "BucketAlreadyExists",
            S3ErrorCode::BucketAlreadyOwnedByYou => "BucketAlreadyOwnedByYou",
            S3ErrorCode::BucketNotEmpty => "BucketNotEmpty",
            S3ErrorCode::EntityTooLarge => "EntityTooLarge",
            S3ErrorCode::EntityTooSmall => "EntityTooSmall",
            S3ErrorCode::InternalError => "InternalError",
            S3ErrorCode::InvalidArgument => "InvalidArgument",
            S3ErrorCode::InvalidBucketName => "InvalidBucketName",
            S3ErrorCode::InvalidDigest => "InvalidDigest",
            S3ErrorCode::InvalidPart => "InvalidPart",
            S3ErrorCode::InvalidPartOrder => "InvalidPartOrder",
            S3ErrorCode::InvalidRange => "InvalidRange",
            S3ErrorCode::InvalidRequest => "InvalidRequest",
            S3ErrorCode::KeyTooLong => "KeyTooLong",
            S3ErrorCode::MalformedXML => "MalformedXML",
            S3ErrorCode::MethodNotAllowed => "MethodNotAllowed",
            S3ErrorCode::MissingContentLength => "MissingContentLength",
            S3ErrorCode::NoSuchBucket => "NoSuchBucket",
            S3ErrorCode::NoSuchKey => "NoSuchKey",
            S3ErrorCode::NoSuchUpload => "NoSuchUpload",
            S3ErrorCode::NotImplemented => "NotImplemented",
            S3ErrorCode::OperationAborted => "OperationAborted",
            S3ErrorCode::PreconditionFailed => "PreconditionFailed",
            S3ErrorCode::RequestTimeout => "RequestTimeout",
            S3ErrorCode::ServiceUnavailable => "ServiceUnavailable",
            S3ErrorCode::TooManyBuckets => "TooManyBuckets",
        }
    }

    pub fn status_code(&self) -> (r: u16)
        ensures
            r == self.spec_status(),
    {
        match self {
            S3ErrorCode::AccessDenied => 403,
            S3ErrorCode::BucketAlreadyExists => 409,
            S3ErrorCode::BucketAlreadyOwnedByYou => 409,
            S3ErrorCode::BucketNotEmpty => 409,
            S3ErrorCode::EntityTooLarge => 400,
            S3ErrorCode::EntityTooSmall => 400,
            S3ErrorCode::InternalError => 500,
            S3ErrorCode::InvalidArgument => 400,
            S3ErrorCode::InvalidBucketName => 400,
            S3ErrorCode::InvalidDigest => 400,
            S3ErrorCode::InvalidPart => 400,
            S3ErrorCode::InvalidPartOrder => 400,
            S3ErrorCode::InvalidRange => 400,
            S3ErrorCode::InvalidRequest => 400,
            S3ErrorCode::KeyTooLong => 400,
            S3ErrorCode::MalformedXML => 400,
            S3ErrorCode::MethodNotAllowed => 405,
            S3ErrorCode::MissingContentLength => 400,
            S3ErrorCode::NoSuchBucket => 404,
            S3ErrorCode::NoSuchKey => 404,
            S3ErrorCode::NoSuchUpload => 404,
            S3ErrorCode::NotImplemented => 501,
            S3ErrorCode::OperationAborted => 409,
            S3ErrorCode::PreconditionFailed => 409,
            S3ErrorCode::RequestTimeout => 408,
            S3ErrorCode::ServiceUnavailable => 503,
            S3ErrorCode::TooManyBuckets => 400,
        }
    }
}

/// The gateway's error type.
#[derive(Debug)]
pub enum ApiError {
    S3Error { code: S3ErrorCode, message: String, resource: Option<String>, request_id: String },
    Internal(String),
    Core(CoreError),
}

impl ApiError {
    /// The S3 code every variant maps to at the HTTP boundary.
    pub open spec fn spec_code(self) -> S3ErrorCode {
        match self {
            ApiError::S3Error { code, .. } => code,
            ApiError::Internal(_) => S3ErrorCode::InternalError,
            ApiError::Core(e) => match e {
                CoreError::BucketNotFound(_) => S3ErrorCode::NoSuchBucket,
                CoreError::BucketAlreadyExists(_) => S3ErrorCode::BucketAlreadyExists,
                CoreError::ObjectNotFound(_) => S3ErrorCode::NoSuchKey,
                CoreError::InvalidBucketName(_) => S3ErrorCode::InvalidBucketName,
                CoreError::AccessDenied(_) => S3ErrorCode::AccessDenied,
                CoreError::PreconditionFailed(_) => S3ErrorCode::BucketNotEmpty,
            },
        }
    }

    pub fn s3(code: S3ErrorCode, message: &str) -> (r: ApiError)
        ensures
            r is S3Error,
            r.spec_code() == code,
            r->message@ == message@,
            r->resource is None,
    {
        ApiError::S3Error {
            code,
            message: message.to_owned(),
            resource: None,
            request_id: new_uuid(),
        }
    }

    pub fn s3_with_resource(code: S3ErrorCode, message: &str, resource: &str) -> (r: ApiError)
        ensures
            r is S3Error,
            r.spec_code() == code,
            r->message@ == message@,
            r->resource matches Some(res) && res@ == resource@,
    {
        ApiError::S3Error {
            code,
            message: message.to_owned(),
            resource: Some(resource.to_owned()),
            request_id: new_uuid(),
        }
    }

    pub fn error_code(&self) -> (r: S3ErrorCode)
        ensures
            r == self.spec_code(),
    {
        match self {
            ApiError::S3Error { code, .. } => *code,
            ApiError::Internal(_) => S3ErrorCode::InternalError,
            ApiError::Core(e) => match e {
                CoreError::BucketNotFound(_) => S3ErrorCode::NoSuchBucket,
                CoreError::BucketAlreadyExists(_) => S3ErrorCode::BucketAlreadyExists,
                CoreError::ObjectNotFound(_) => S3ErrorCode::NoSuchKey,
                CoreError::InvalidBucketName(_) => S3ErrorCode::InvalidBucketName,
                CoreError::AccessDenied(_) => S3ErrorCode::AccessDenied,
                CoreError::PreconditionFailed(_) => S3ErrorCode::BucketNotEmpty,
            },
        }
    }
}


impl ApiError {
    /// The stable message phrase reported for this error.
    pub open spec fn spec_message(self) -> Seq<char> {
        match self {
            ApiError::S3Error { code, message, .. } => "S3 error: "@ + code.spec_name() + " - "@
                + message@,
            ApiError::Internal(m) => "Internal error: "@ + m@,
            ApiError::Core(e) => "Core error: "@ + (match e {
                CoreError::BucketNotFound(s) => s@,
                CoreError::BucketAlreadyExists(s) => s@,
                CoreError::ObjectNotFound(s) => s@,
                CoreError::InvalidBucketName(s) => s@,
                CoreError::AccessDenied(s) => s@,
                CoreError::PreconditionFailed(s) => s@,
            }),
        }
    }

    /// Build the stable message phrase.
    pub fn message_string(&self) -> (r: String)
        ensures
            r@ == self.spec_message(),
    {
        match self {
            ApiError::S3Error { code, message, .. } => {
                let mut s = String::from_str("S3 error: ");
                s.append(code.as_str());
                s.append(" - ");
                s.append(message.as_str());
                s
            },
            ApiError::Internal(m) => {
                let mut s = String::from_str("Internal error: ");
                s.append(m.as_str());
                s
            },
            ApiError::Core(e) => {
                let mut s = String::from_str("Core error: ");
                match e {
                    CoreError::BucketNotFound(t) => s.append(t.as_str()),
                    CoreError::BucketAlreadyExists(t) => s.append(t.as_str()),
                    CoreError::ObjectNotFound(t) => s.append(t.as_str()),
                    CoreError::InvalidBucketName(t) => s.append(t.as_str()),
                    CoreError::AccessDenied(t) => s.append(t.as_str()),
                    CoreError::PreconditionFailed(t) => s.append(t.as_str()),
                }
                s
            },
        }
    }

    /// Render this error as an S3 XML error response.
    pub fn into_response(self) -> (r: Response)
        ensures
            spec_error_response(self, r),
    {
        let code = self.error_code();
        let status = code.status_code();
        let request_id = match &self {
            ApiError::S3Error { request_id, .. } => request_id.clone(),
            _ => new_uuid(),
        };
        let ghost rid_view = request_id@;
        let message = self.message_string();
        let xml = error_document(code.as_str(), message.as_str(), request_id.as_str());
        let mut headers: Vec<(String, String)> = Vec::new();
        headers.push((("Content-Type").to_owned(), ("application/xml").to_owned()));
        headers.push((("x-amz-request-id").to_owned(), request_id));
        headers.push((("x-amz-error-code").to_owned(), code.as_str().to_owned()));
        let body = xml.as_str().as_bytes_vec();
        proof {
            reveal_strlit("Content-Type");
            reveal_strlit("x-amz-request-id");
            reveal_strlit("x-amz-error-code");
            assert("x-amz-request-id"@[6] != "x-amz-error-code"@[6]);
            let hs = headers@;
            assert(hs.drop_first()[0] == hs[1]);
            assert(hs.drop_first().drop_first()[0] == hs[2]);
            assert(hs.drop_first().drop_first().drop_first() =~= Seq::<(String, String)>::empty());
            assert(spec_lookup(hs, "Content-Type"@) == Some("application/xml"@));
            assert("Content-Type"@.len() != "x-amz-request-id"@.len());
            assert(spec_lookup(hs.drop_first(), "x-amz-request-id"@) == Some(rid_view));
            assert(spec_lookup(hs, "x-amz-request-id"@) == Some(rid_view));
            assert(spec_lookup(hs.drop_first().drop_first(), "x-amz-error-code"@) == Some(
                code.spec_name(),
            ));
            assert(spec_lookup(hs.drop_first(), "x-amz-error-code"@) == Some(code.spec_name()));
            assert(spec_lookup(hs, "x-amz-error-code"@) == Some(code.spec_name()));
            assert(body@ == encode_utf8(spec_error_doc(
                self.spec_code().spec_name(),
                self.spec_message(),
                rid_view,
            )));
        }
        Response { status, headers, body }
    }
}


/// What the XML rendering of an error looks like: the code's status, the
/// XML content type, the code name in `x-amz-error-code`, and the error
/// document built over the code, the stable message and the request id
/// the response carries.
pub open spec fn spec_error_response(e: ApiError, r: Response) -> bool {
    &&& r.status == e.spec_code().spec_status()
    &&& (spec_lookup(r.headers@, "Content-Type"@) matches Some(ct) && ct == "application/xml"@)
    &&& spec_lookup(r.headers@, "x-amz-error-code"@) == Some(e.spec_code().spec_name())
    &&& (spec_lookup(r.headers@, "x-amz-request-id"@) matches Some(rid) && r.body@ == encode_utf8(
        spec_error_doc(e.spec_code().spec_name(), e.spec_message(), rid),
    ))
}

} // verus!
