//! The HTTP `Range: bytes=...` parser: one of `a-b`, `a-` (from `a` to the
//! end), `-n` (the last `n` bytes), resolved against the object size.

use vstd::prelude::*;
use crate::text::{spec_all_dec, spec_dec_val, parse_dec};

verus! {

/// First index of `c` in `s`, or -1 when absent.
pub open spec fn spec_find(s: Seq<char>, c: char) -> int
    decreases s.len(),
{
    if s.len() == 0 {
        -1
    } else if s[0] == c {
        0
    } else {
        let r = spec_find(s.drop_first(), c);
        if r == -1 {
            -1
        } else {
            r + 1
        }
    }
}

/// A scan that saw no `c` before `i`, and `c` at `i` unless it ran out,
/// determines `spec_find`.
pub proof fn lemma_find_char(s: Seq<char>, c: char, i: int)
    requires
        0 <= i <= s.len(),
        forall|j: int| 0 <= j < i ==> s[j] != c,
        i < s.len() ==> s[i] == c,
    ensures
        spec_find(s, c) == if i == s.len() {
            -1int
        } else {
            i
        },
    decreases i,
{
    if i == 0 {
    } else {
        assert(s[0] != c);
        lemma_find_char(s.drop_first(), c, i - 1);
    }
}

/// Whether a digit run parses as a `u64`.
pub open spec fn spec_parses_u64(s: Seq<char>) -> bool {
    spec_all_dec(s) && spec_dec_val(s) <= u64::MAX
}

/// What a `Range` header resolves to against an object of `size` bytes:
/// the inclusive byte range served, or nothing when the header is
/// malformed or unsatisfiable.
pub open spec fn spec_range_header(s: Seq<char>, size: nat) -> Option<(nat, nat)> {
    if !(s.len() >= 6 && s.subrange(0, 6) == "bytes="@) {
        None
    } else {
        let r = s.skip(6);
        let dash = spec_find(r, '-');
        if dash < 0 {
            None
        } else {
            let a = r.take(dash);
            let b = r.skip(dash + 1);
            if a.len() == 0 {
                if spec_parses_u64(b) && spec_dec_val(b) > 0 {
                    let n = spec_dec_val(b);
                    Some(((if n >= size { 0nat } else { (size - n) as nat }), (size - 1) as nat))
                } else {
                    None
                }
            } else if b.len() == 0 {
                if spec_parses_u64(a) && spec_dec_val(a) < size {
                    Some((spec_dec_val(a), (size - 1) as nat))
                } else {
                    None
                }
            } else {
                if spec_parses_u64(a) && spec_parses_u64(b) && spec_dec_val(a) <= spec_dec_val(b)
                    && spec_dec_val(a) < size {
                    Some((spec_dec_val(a), (if spec_dec_val(b) < size - 1 { spec_dec_val(b) } else { (size - 1) as nat })))
                } else {
                    None
                }
            }
        }
    }
}

/// A satisfiable range stays inside the object: the start is at most the
/// end, and the end is inside the object.
pub proof fn lemma_range_header_bounds(s: Seq<char>, size: nat)
    requires
        size > 0,
        spec_range_header(s, size) is Some,
    ensures
        spec_range_header(s, size).unwrap().0 <= spec_range_header(s, size).unwrap().1,
        spec_range_header(s, size).unwrap().1 < size,
{
}

/// Parse a `Range` header against an object of `total_size` bytes.
pub fn parse_range_header(range: &str, total_size: u64) -> (r: Result<(u64, u64), ()>)
    requires
        total_size > 0,
    ensures
        r is Ok <==> spec_range_header(range@, total_size as nat) is Some,
        r matches Ok(p) ==> Some((p.0 as nat, p.1 as nat)) == spec_range_header(
            range@,
            total_size as nat,
        ),
{
    let n = range.unicode_len();
    let prefix = "bytes=";
    proof {
        reveal_strlit("bytes=");
    }
    if n < 6 {
        return Err(());
    }
    let mut i: usize = 0;
    while i < 6
        invariant
            i <= 6,
            n == range@.len(),
            n >= 6,
            prefix@ == "bytes="@,
            prefix@.len() == 6,
            forall|j: int| 0 <= j < i ==> range@[j] == prefix@[j],
        decreases 6 - i,
    {
        if range.get_char(i) != prefix.get_char(i) {
            proof {
                assert(range@.subrange(0, 6)[i as int] != "bytes="@[i as int]);
            }
            return Err(());
        }
        i = i + 1;
    }
    proof {
        assert(range@.subrange(0, 6) =~= "bytes="@);
    }
    let ghost rest = range@.skip(6);
    let mut dash: usize = 6;
    while dash < n && range.get_char(dash) != '-'
        invariant
            6 <= dash <= n,
            n == range@.len(),
            rest == range@.skip(6),
            forall|j: int| 6 <= j < dash ==> range@[j] != '-',
        decreases n - dash,
    {
        dash = dash + 1;
    }
    proof {
        lemma_find_char(rest, '-', dash - 6);
    }
    if dash == n {
        return Err(());
    }
    let ghost a = rest.take(dash - 6);
    let ghost b = rest.skip(dash - 6 + 1);
    proof {
        assert(a =~= range@.subrange(6, dash as int));
        assert(b =~= range@.subrange(dash + 1, n as int));
    }
    if dash == 6 {
        // "-n": the last n bytes; a zero count names no byte and is refused
        match parse_dec(range, dash + 1, n) {
            Some(suffix_len) => {
                if suffix_len == 0 {
                    return Err(());
                }
                let start = if suffix_len >= total_size {
                    0
                } else {
                    total_size - suffix_len
                };
                Ok((start, total_size - 1))
            },
            None => Err(()),
        }
    } else if dash + 1 == n {
        // "a-": from a to the end
        match parse_dec(range, 6, dash) {
            Some(start) => {
                if start >= total_size {
                    Err(())
                } else {
                    Ok((start, total_size - 1))
                }
            },
            None => Err(()),
        }
    } else {
        match (parse_dec(range, 6, dash), parse_dec(range, dash + 1, n)) {
            (Some(start), Some(end)) => {
                if start > end || start >= total_size {
                    Err(())
                } else {
                    let capped = if end < total_size - 1 {
                        end
                    } else {
                        total_size - 1
                    };
                    Ok((start, capped))
                }
            },
            _ => Err(()),
        }
    }
}

} // verus!
