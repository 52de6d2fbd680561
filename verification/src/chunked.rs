//! Detection and decoding of `aws-chunked` request-body framing:
//! `<hex-size>[;extension]CRLF <data> [CRLF]` repeated, ended by a zero-size
//! chunk.

use vstd::prelude::*;

verus! {

/// Whether `b` is an ASCII hexadecimal digit.
pub open spec fn is_hex_digit(b: u8) -> bool {
    (48 <= b <= 57) || (97 <= b <= 102) || (65 <= b <= 70)
}

/// The value of one hexadecimal digit.
pub open spec fn hex_digit_val(b: u8) -> nat {
    if 48 <= b <= 57 {
        (b - 48) as nat
    } else if 97 <= b <= 102 {
        (b - 87) as nat
    } else {
        (b - 55) as nat
    }
}

/// Whether every byte of `s` is a hexadecimal digit, and `s` is non-empty.
pub open spec fn spec_all_hex(s: Seq<u8>) -> bool {
    s.len() > 0 && forall|i: int| 0 <= i < s.len() ==> is_hex_digit(#[trigger] s[i])
}

/// The value of a run of hexadecimal digits, most significant first.
pub open spec fn spec_hex_val(s: Seq<u8>) -> nat
    decreases s.len(),
{
    if s.len() == 0 {
        0
    } else {
        spec_hex_val(s.drop_last()) * 16 + hex_digit_val(s.last())
    }
}

/// Appending digits never decreases the value of a hexadecimal run.
pub proof fn lemma_hex_val_prefix_le(s: Seq<u8>, n: int)
    requires
        0 <= n <= s.len(),
    ensures
        spec_hex_val(s.take(n)) <= spec_hex_val(s),
    decreases s.len() - n,
{
    if n < s.len() {
        lemma_hex_val_prefix_le(s, n + 1);
        assert(s.take(n + 1).drop_last() =~= s.take(n));
        assert(spec_hex_val(s.take(n)) <= spec_hex_val(s.take(n + 1)));
    } else {
        assert(s.take(n) =~= s);
    }
}

/// Parse bytes `from..to` of `s` as a hexadecimal number. Fails when the
/// run is empty, holds a non-digit, or does not fit in a `u64`.
pub fn parse_hex(s: &[u8], from: usize, to: usize) -> (r: Option<u64>)
    requires
        from <= to <= s@.len(),
    ensures
        r is Some <==> spec_all_hex(s@.subrange(from as int, to as int)) && spec_hex_val(
            s@.subrange(from as int, to as int),
        ) <= u64::MAX,
        r matches Some(v) ==> v == spec_hex_val(s@.subrange(from as int, to as int)),
{
    let ghost digits = s@.subrange(from as int, to as int);
    if from == to {
        return None;
    }
    let mut acc: u64 = 0;
    let mut i: usize = from;
    while i < to
        invariant
            from <= i <= to <= s@.len(),
            digits == s@.subrange(from as int, to as int),
            from < to,
            forall|j: int| from <= j < i ==> is_hex_digit(#[trigger] s@[j]),
            acc == spec_hex_val(digits.take(i - from)),
        decreases to - i,
    {
        let b = s[i];
        let d: u64 = if 48 <= b && b <= 57 {
            (b - 48) as u64
        } else if 97 <= b && b <= 102 {
            (b - 87) as u64
        } else if 65 <= b && b <= 70 {
            (b - 55) as u64
        } else {
            proof {
                assert(digits[i - from] == s@[i as int]);
            }
            return None;
        };
        proof {
            assert(digits.take(i + 1 - from).drop_last() =~= digits.take(i - from));
            assert(digits.take(i + 1 - from).last() == s@[i as int]);
        }
        if acc > (u64::MAX - d) / 16 {
            proof {
                lemma_hex_val_prefix_le(digits, i + 1 - from);
                assert((acc as int) * 16 + (d as int) > u64::MAX) by (nonlinear_arith)
                    requires
                        acc as int > (u64::MAX - d as int) / 16,
                        0 <= d as int <= 15,
                        acc as int >= 0,
                ;
                assert(spec_hex_val(digits.take(i + 1 - from)) == acc * 16 + d);
            }
            return None;
        }
        acc = acc * 16 + d;
        i = i + 1;
    }
    proof {
        assert(digits.take(to - from) =~= digits);
    }
    Some(acc)
}

/// Whether `b` is ASCII whitespace.
pub open spec fn is_ascii_space(b: u8) -> bool {
    b == 32 || (9 <= b <= 13)
}

/// `s` with leading whitespace dropped.
pub open spec fn spec_trim_front(s: Seq<u8>) -> Seq<u8>
    decreases s.len(),
{
    if s.len() > 0 && is_ascii_space(s[0]) {
        spec_trim_front(s.drop_first())
    } else {
        s
    }
}

/// `s` with trailing whitespace dropped.
pub open spec fn spec_trim_back(s: Seq<u8>) -> Seq<u8>
    decreases s.len(),
{
    if s.len() > 0 && is_ascii_space(s.last()) {
        spec_trim_back(s.drop_last())
    } else {
        s
    }
}

/// `s` with whitespace dropped at both ends.
pub open spec fn spec_trim(s: Seq<u8>) -> Seq<u8> {
    spec_trim_back(spec_trim_front(s))
}

/// First index at or after `from` where CRLF begins, or -1 when none.
pub open spec fn spec_find_crlf(s: Seq<u8>, from: int) -> int
    decreases s.len() - from,
{
    if from < 0 || from + 1 >= s.len() {
        -1
    } else if s[from] == 13 && s[from + 1] == 10 {
        from
    } else {
        spec_find_crlf(s, from + 1)
    }
}

/// `spec_find_crlf` yields -1 or an index at or after `from` with room for
/// the two-byte CRLF.
pub proof fn lemma_find_crlf_bounds(s: Seq<u8>, from: int)
    requires
        0 <= from,
    ensures
        spec_find_crlf(s, from) == -1 || (from <= spec_find_crlf(s, from) && spec_find_crlf(
            s,
            from,
        ) + 1 < s.len()),
    decreases s.len() - from,
{
    if from + 1 < s.len() && !(s[from] == 13 && s[from + 1] == 10) {
        lemma_find_crlf_bounds(s, from + 1);
    }
}

/// A scan that saw no CRLF from `from` up to `i`, and CRLF at `i` unless it
/// ran out, determines `spec_find_crlf`.
pub proof fn lemma_find_crlf(s: Seq<u8>, from: int, i: int)
    requires
        0 <= from <= i,
        i + 1 <= s.len(),
        forall|j: int| from <= j < i ==> !(#[trigger] s[j] == 13 && s[j + 1] == 10),
        i + 1 < s.len() ==> s[i] == 13 && s[i + 1] == 10,
    ensures
        spec_find_crlf(s, from) == if i + 1 == s.len() {
            -1int
        } else {
            i
        },
    decreases i - from,
{
    if from < i {
        lemma_find_crlf(s, from + 1, i);
    }
}

/// Find the first CRLF at or after `from`.
fn find_crlf(s: &[u8], from: usize) -> (r: Option<usize>)
    requires
        from <= s@.len(),
    ensures
        r matches Some(i) ==> spec_find_crlf(s@, from as int) == i && from <= i && i + 1
            < s@.len(),
        r is None ==> spec_find_crlf(s@, from as int) == -1,
{
    let n = s.len();
    if n == 0 || from >= n - 1 {
        proof {
            if from as int + 1 >= s@.len() {
            } else {
                lemma_find_crlf(s@, from as int, from as int);
            }
        }
        return None;
    }
    let mut i: usize = from;
    while i < n - 1 && !(s[i] == 13 && s[i + 1] == 10)
        invariant
            from <= i,
            i + 1 <= n,
            n == s@.len(),
            n >= 2,
            forall|j: int| from <= j < i ==> !(#[trigger] s@[j] == 13 && s@[j + 1] == 10),
        decreases n - i,
    {
        i = i + 1;
    }
    proof {
        lemma_find_crlf(s@, from as int, i as int);
    }
    if i < n - 1 {
        Some(i)
    } else {
        None
    }
}

/// First index of `b` in `s`, or `s.len()` when absent.
pub open spec fn spec_find_byte(s: Seq<u8>, b: u8) -> int
    decreases s.len(),
{
    if s.len() == 0 {
        0
    } else if s[0] == b {
        0
    } else {
        1 + spec_find_byte(s.drop_first(), b)
    }
}

proof fn lemma_find_byte(s: Seq<u8>, b: u8, i: int)
    requires
        0 <= i <= s.len(),
        forall|j: int| 0 <= j < i ==> s[j] != b,
        i < s.len() ==> s[i] == b,
    ensures
        spec_find_byte(s, b) == i,
    decreases i,
{
    if i > 0 {
        lemma_find_byte(s.drop_first(), b, i - 1);
    }
}

/// The size token of a chunk header line: what stands before the first `;`,
/// trimmed of whitespace.
pub open spec fn spec_size_token(line: Seq<u8>) -> Seq<u8> {
    spec_trim(line.take(spec_find_byte(line, 59)))
}

/// Extract the size token of the line `s[from..to]`, returning its bounds.
fn size_token_bounds(s: &[u8], from: usize, to: usize) -> (r: (usize, usize))
    requires
        from <= to <= s@.len(),
    ensures
        from <= r.0 <= r.1 <= to,
        s@.subrange(r.0 as int, r.1 as int) == spec_size_token(
            s@.subrange(from as int, to as int),
        ),
{
    let ghost line = s@.subrange(from as int, to as int);
    // stop at the first ';'
    let mut semi: usize = from;
    while semi < to && s[semi] != 59
        invariant
            from <= semi <= to <= s@.len(),
            line == s@.subrange(from as int, to as int),
            forall|j: int| from <= j < semi ==> s@[j] != 59,
        decreases to - semi,
    {
        semi = semi + 1;
    }
    proof {
        lemma_find_byte(line, 59, semi - from);
        assert(line.take(semi - from) =~= s@.subrange(from as int, semi as int));
    }
    let ghost token0 = line.take(semi - from);
    proof {
        assert(s@.subrange(from as int, semi as int).skip(0) =~= s@.subrange(
            from as int,
            semi as int,
        ));
    }
    // trim leading whitespace
    let mut lo: usize = from;
    while lo < semi && (s[lo] == 32 || (9 <= s[lo] && s[lo] <= 13))
        invariant
            from <= lo <= semi <= s@.len(),
            token0 == line.take(semi - from),
            line == s@.subrange(from as int, to as int),
            semi <= to,
            spec_trim_front(token0) == spec_trim_front(
                s@.subrange(from as int, semi as int).skip(lo - from),
            ),
        decreases semi - lo,
    {
        proof {
            let cur = s@.subrange(from as int, semi as int).skip(lo - from);
            assert(cur[0] == s@[lo as int]);
            assert(cur.drop_first() =~= s@.subrange(from as int, semi as int).skip(lo + 1 - from));
        }
        lo = lo + 1;
    }
    proof {
        let cur = s@.subrange(from as int, semi as int).skip(lo - from);
        if lo < semi {
            assert(cur[0] == s@[lo as int]);
        }
        assert(spec_trim_front(cur) == cur);
    }
    proof {
        let base = s@.subrange(from as int, semi as int);
        assert(base.skip(lo - from) =~= base.subrange(lo - from, semi - from));
    }
    // trim trailing whitespace
    let mut hi: usize = semi;
    while hi > lo && (s[hi - 1] == 32 || (9 <= s[hi - 1] && s[hi - 1] <= 13))
        invariant
            from <= lo <= hi <= semi <= s@.len(),
            line == s@.subrange(from as int, to as int),
            semi <= to,
            spec_trim(token0) == spec_trim_back(
                s@.subrange(from as int, semi as int).subrange(lo - from, hi - from),
            ),
        decreases hi,
    {
        proof {
            let cur = s@.subrange(from as int, semi as int).subrange(lo - from, hi - from);
            assert(cur.last() == s@[hi - 1]);
            assert(cur.drop_last() =~= s@.subrange(from as int, semi as int).subrange(
                lo - from,
                hi - 1 - from,
            ));
        }
        hi = hi - 1;
    }
    proof {
        let cur = s@.subrange(from as int, semi as int).subrange(lo - from, hi - from);
        if hi > lo {
            assert(cur.last() == s@[hi - 1]);
        }
        assert(spec_trim_back(cur) == cur);
        assert(cur =~= s@.subrange(lo as int, hi as int));
    }
    (lo, hi)
}

/// What decoding yields from `pos` on, with `acc` already decoded; `None`
/// when the framing is malformed.
pub open spec fn spec_decode_from(body: Seq<u8>, pos: int, acc: Seq<u8>) -> Option<Seq<u8>>
    decreases body.len() - pos,
    via spec_decode_from_dec
{
    if !(0 <= pos < body.len()) {
        Some(acc)
    } else {
        let crlf = spec_find_crlf(body, pos);
        if crlf < 0 {
            None
        } else if crlf == pos {
            spec_decode_from(body, pos + 2, acc)
        } else {
            let token = spec_size_token(body.subrange(pos, crlf));
            if !(spec_all_hex(token) && spec_hex_val(token) <= u64::MAX) {
                None
            } else if spec_hex_val(token) == 0 {
                Some(acc)
            } else {
                let size = spec_hex_val(token);
                let data_start = crlf + 2;
                if data_start + size > body.len() {
                    None
                } else {
                    let next = data_start + size;
                    let skipped = if next + 2 <= body.len() && body[next] == 13 && body[next + 1]
                        == 10 {
                        next + 2
                    } else {
                        next
                    };
                    spec_decode_from(body, skipped, acc + body.subrange(data_start, next))
                }
            }
        }
    }
}

#[via_fn]
proof fn spec_decode_from_dec(body: Seq<u8>, pos: int, acc: Seq<u8>) {
    if 0 <= pos < body.len() {
        lemma_find_crlf_bounds(body, pos);
    }
}

/// Decode a chunk-framed body. Yields the concatenated chunk data, or
/// `None` when the framing is malformed or the decoded output is empty.
pub fn decode_chunked_body(body: &[u8]) -> (r: Option<Vec<u8>>)
    ensures
        r is Some <==> (spec_decode_from(body@, 0, Seq::empty()) matches Some(d) && d.len() > 0),
        r matches Some(v) ==> spec_decode_from(body@, 0, Seq::empty()) == Some(v@),
{
    let mut decoded: Vec<u8> = Vec::new();
    let mut pos: usize = 0;
    let n = body.len();
    while pos < n
        invariant
            pos <= n,
            n == body@.len(),
            spec_decode_from(body@, 0, Seq::empty()) == spec_decode_from(
                body@,
                pos as int,
                decoded@,
            ),
        decreases n - pos,
    {
        let crlf = match find_crlf(body, pos) {
            Some(c) => c,
            None => {
                return None;
            },
        };
        if crlf == pos {
            pos = pos + 2;
            continue;
        }
        let (lo, hi) = size_token_bounds(body, pos, crlf);
        let chunk_size = match parse_hex(body, lo, hi) {
            Some(v) => v,
            None => {
                proof {
                    assert(body@.subrange(lo as int, hi as int) == spec_size_token(
                        body@.subrange(pos as int, crlf as int),
                    ));
                }
                return None;
            },
        };
        if chunk_size == 0 {
            if decoded.len() == 0 {
                return None;
            }
            return Some(decoded);
        }
        let data_start = crlf + 2;
        if chunk_size > (n - data_start) as u64 {
            return None;
        }
        let data_end = data_start + (chunk_size as usize);
        let ghost pre = decoded@;
        let mut k: usize = data_start;
        while k < data_end
            invariant
                data_start <= k <= data_end <= n,
                n == body@.len(),
                decoded@ == pre + body@.subrange(data_start as int, k as int),
            decreases data_end - k,
        {
            decoded.push(body[k]);
            proof {
                assert(pre + body@.subrange(data_start as int, k + 1) =~= (pre + body@.subrange(
                    data_start as int,
                    k as int,
                )).push(body@[k as int]));
            }
            k = k + 1;
        }
        pos = data_end;
        if n - pos >= 2 && body[pos] == 13 && body[pos + 1] == 10 {
            pos = pos + 2;
        }
    }
    if decoded.len() == 0 {
        None
    } else {
        proof {
            assert(spec_decode_from(body@, pos as int, decoded@) == Some(decoded@));
        }
        Some(decoded)
    }
}

/// Whether a body's first line looks like the start of chunk framing:
/// a CRLF within the first 100 bytes, preceded by a hexadecimal size token
/// whose value is positive and no larger than what follows the line.
pub open spec fn spec_looks_like_chunked(body: Seq<u8>) -> bool {
    body.len() >= 4 && {
        let p = spec_find_crlf(body, 0);
        1 <= p <= 100 && {
            let token = spec_size_token(body.take(p));
            spec_all_hex(token) && spec_hex_val(token) <= u64::MAX && spec_hex_val(token) > 0
                && spec_hex_val(token) <= body.len() - p - 2
        }
    }
}

/// Heuristic detection of chunk framing in a raw body.
pub fn looks_like_chunked(body: &[u8]) -> (r: bool)
    ensures
        r == spec_looks_like_chunked(body@),
{
    if body.len() < 4 {
        return false;
    }
    let crlf = match find_crlf(body, 0) {
        Some(c) => c,
        None => {
            return false;
        },
    };
    if crlf == 0 || crlf > 100 {
        return false;
    }
    let (lo, hi) = size_token_bounds(body, 0, crlf);
    proof {
        assert(body@.take(crlf as int) =~= body@.subrange(0, crlf as int));
    }
    let chunk_size = match parse_hex(body, lo, hi) {
        Some(v) => v,
        None => {
            return false;
        },
    };
    chunk_size > 0 && chunk_size <= (body.len() - (crlf + 2)) as u64
}

} // verus!
