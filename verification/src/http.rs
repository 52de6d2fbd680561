//! Plain HTTP value types the gateway works on: a header list and a
//! response, plus chunk-framing detection against request headers.

use vstd::prelude::*;
use crate::chunked::{decode_chunked_body, looks_like_chunked, spec_decode_from, spec_looks_like_chunked};
use crate::text::{str_eq, str_contains, spec_str_contains};

verus! {

/// First value bound to `name` in an association list, or nothing.
pub open spec fn spec_lookup(s: Seq<(String, String)>, name: Seq<char>) -> Option<Seq<char>>
    decreases s.len(),
{
    if s.len() == 0 {
        None
    } else if s[0].0@ == name {
        Some(s[0].1@)
    } else {
        spec_lookup(s.drop_first(), name)
    }
}

/// Request headers, with names already lowercased by the caller.
pub struct Headers {
    pub entries: Vec<(String, String)>,
}

impl Headers {
    pub open spec fn spec_get(self, name: Seq<char>) -> Option<Seq<char>> {
        spec_lookup(self.entries@, name)
    }

    pub fn new() -> (r: Headers)
        ensures
            r.entries@.len() == 0,
    {
        Headers { entries: Vec::new() }
    }

    pub fn add(&mut self, name: String, value: String)
        ensures
            final(self).entries@ == old(self).entries@.push((name, value)),
    {
        self.entries.push((name, value));
    }

    /// The first value carried under `name`.
    pub fn get(&self, name: &str) -> (r: Option<&String>)
        ensures
            match r {
                Some(v) => self.spec_get(name@) == Some(v@),
                None => self.spec_get(name@) is None,
            },
    {
        let n = self.entries.len();
        proof {
            assert(self.entries@.skip(0) =~= self.entries@);
        }
        let mut i: usize = 0;
        while i < n
            invariant
                i <= n,
                n == self.entries@.len(),
                spec_lookup(self.entries@, name@) == spec_lookup(self.entries@.skip(i as int), name@),
            decreases n - i,
        {
            proof {
                assert(self.entries@.skip(i as int)[0] == self.entries@[i as int]);
                assert(self.entries@.skip(i as int).drop_first() =~= self.entries@.skip(i + 1));
            }
            if str_eq(self.entries[i].0.as_str(), name) {
                return Some(&self.entries[i].1);
            }
            i = i + 1;
        }
        proof {
            assert(self.entries@.skip(n as int) =~= Seq::<(String, String)>::empty());
        }
        None
    }

    /// Whether some value is carried under `name`.
    pub fn has(&self, name: &str) -> (r: bool)
        ensures
            r == (self.spec_get(name@) is Some),
    {
        match self.get(name) {
            Some(_) => true,
            None => false,
        }
    }
}

/// An HTTP response: status, headers in order, body bytes.
pub struct Response {
    pub status: u16,
    pub headers: Vec<(String, String)>,
    pub body: Vec<u8>,
}

/// Whether request headers or body shape call for chunk decoding:
/// a decoded-length header, an `aws-chunked` content encoding, or a body
/// whose first line looks like a chunk header.
pub open spec fn spec_wants_chunked(headers: Headers, body: Seq<u8>) -> bool {
    headers.spec_get("x-amz-decoded-content-length"@) is Some || (
    headers.spec_get("content-encoding"@) matches Some(v) && spec_str_contains(v, "aws-chunked"@))
        || spec_looks_like_chunked(body)
}

/// Strip chunk framing from a buffered request body when headers or the
/// body's own shape call for it; malformed or empty framing yields `None`
/// and the body is used as it came.
pub fn try_decode_chunked(headers: &Headers, body: &Vec<u8>) -> (r: Option<Vec<u8>>)
    ensures
        r is Some <==> spec_wants_chunked(*headers, body@) && (spec_decode_from(
            body@,
            0,
            Seq::empty(),
        ) matches Some(d) && d.len() > 0),
        r matches Some(v) ==> spec_decode_from(body@, 0, Seq::empty()) == Some(v@),
{
    let has_decoded_len = headers.has("x-amz-decoded-content-length");
    let has_aws_chunked = match headers.get("content-encoding") {
        Some(v) => str_contains(v.as_str(), "aws-chunked"),
        None => false,
    };
    if !has_decoded_len && !has_aws_chunked && !looks_like_chunked(body.as_slice()) {
        return None;
    }
    decode_chunked_body(body.as_slice())
}

} // verus!
