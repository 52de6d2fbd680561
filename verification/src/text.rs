//! Character-level text helpers: building decimal numbers into strings,
//! parsing decimal and hexadecimal digit runs, and comparing strings.

use vstd::prelude::*;

verus! {

/// Relies on String::push from std, which vstd does not specify:
/// it appends exactly the given character to the string.
pub assume_specification[ String::push ](s: &mut String, ch: char)
    ensures
        final(s)@ == old(s)@ + seq![ch],
;

/// A sequence reversed.
pub open spec fn rev<A>(s: Seq<A>) -> Seq<A> {
    Seq::new(s.len(), |i: int| s[s.len() - 1 - i])
}

/// The character for a single decimal digit.
pub open spec fn dec_digit(d: nat) -> char
    recommends
        d < 10,
{
    ((48 + d) as u8) as char
}

/// The decimal rendering of a natural number, most significant digit first.
pub open spec fn spec_dec(n: nat) -> Seq<char>
    decreases n,
{
    if n < 10 {
        seq![dec_digit(n)]
    } else {
        spec_dec(n / 10) + seq![dec_digit(n % 10)]
    }
}

/// Append the decimal rendering of `n` to `s`.
pub fn push_u64(s: &mut String, n: u64)
    ensures
        final(s)@ == old(s)@ + spec_dec(n as nat),
{
    if n == 0 {
        s.push('0');
        proof {
            assert(spec_dec(0) =~= seq!['0']);
        }
        return;
    }
    let mut digits: Vec<char> = Vec::new();
    let mut m: u64 = n;
    while m > 0
        invariant
            n > 0,
            digits@.len() == 0 ==> m == n,
            m > 0 && digits@.len() > 0 ==> spec_dec(n as nat) == spec_dec(m as nat) + rev(
                digits@,
            ),
            m == 0 ==> digits@.len() > 0 && spec_dec(n as nat) == rev(digits@),
        decreases m,
    {
        let ghost old_m = m;
        let ghost old_digits = digits@;
        let d: u8 = (m % 10) as u8 + 48;
        digits.push(d as char);
        m = m / 10;
        proof {
            assert(d as char == dec_digit((old_m % 10) as nat));
            assert(rev(digits@) =~= seq![dec_digit((old_m % 10) as nat)] + rev(old_digits));
            if old_m >= 10 {
                assert(spec_dec(old_m as nat) == spec_dec((old_m / 10) as nat) + seq![
                    dec_digit((old_m % 10) as nat),
                ]);
                assert(spec_dec(m as nat) + rev(digits@) =~= spec_dec(old_m as nat) + rev(
                    old_digits,
                ));
            } else {
                assert(spec_dec(old_m as nat) =~= seq![dec_digit((old_m % 10) as nat)]);
                assert(rev(digits@) =~= spec_dec(old_m as nat) + rev(old_digits));
            }
            if old_digits.len() == 0 {
                assert(spec_dec(n as nat) == spec_dec(old_m as nat) + rev(old_digits)) by {
                    assert(spec_dec(old_m as nat) + rev(old_digits) =~= spec_dec(old_m as nat));
                };
            }
            if m > 0 {
                assert(spec_dec(n as nat) =~= spec_dec(m as nat) + rev(digits@)) by {
                    assert(spec_dec(old_m as nat) + rev(old_digits) =~= (spec_dec(m as nat) + seq![
                        dec_digit((old_m % 10) as nat),
                    ]) + rev(old_digits));
                    assert((spec_dec(m as nat) + seq![dec_digit((old_m % 10) as nat)]) + rev(
                        old_digits,
                    ) =~= spec_dec(m as nat) + (seq![dec_digit((old_m % 10) as nat)] + rev(
                        old_digits,
                    )));
                };
            } else {
                assert(spec_dec(n as nat) =~= rev(digits@)) by {
                    assert(spec_dec(old_m as nat) + rev(old_digits) =~= seq![
                        dec_digit((old_m % 10) as nat),
                    ] + rev(old_digits));
                };
            }
        }
    }
    let n_digits = digits.len();
    let mut i: usize = n_digits;
    while i > 0
        invariant
            i <= n_digits,
            n_digits == digits@.len(),
            spec_dec(n as nat) == rev(digits@),
            s@ == old(s)@ + rev(digits@).take(n_digits - i),
        decreases i,
    {
        i = i - 1;
        s.push(digits[i]);
        proof {
            assert(rev(digits@).take(n_digits - i) =~= rev(digits@).take(n_digits - (i + 1)) + seq![
                digits@[i as int],
            ]);
        }
    }
    proof {
        assert(rev(digits@).take(n_digits as int) =~= rev(digits@));
    }
}

/// The decimal rendering of `n` as a fresh string.
pub fn u64_to_string(n: u64) -> (r: String)
    ensures
        r@ == spec_dec(n as nat),
{
    let mut s = String::new();
    push_u64(&mut s, n);
    s
}

/// Whether every character of `s` is a decimal digit, and `s` is non-empty.
pub open spec fn spec_all_dec(s: Seq<char>) -> bool {
    s.len() > 0 && forall|i: int| 0 <= i < s.len() ==> 48 <= #[trigger] s[i] as u32 <= 57
}

/// The value of a run of decimal digits, most significant first.
pub open spec fn spec_dec_val(s: Seq<char>) -> nat
    decreases s.len(),
{
    if s.len() == 0 {
        0
    } else {
        spec_dec_val(s.drop_last()) * 10 + (s.last() as u32 - 48) as nat
    }
}

/// Appending digits never decreases the value of a digit run.
pub proof fn lemma_dec_val_prefix_le(s: Seq<char>, n: int)
    requires
        0 <= n <= s.len(),
    ensures
        spec_dec_val(s.take(n)) <= spec_dec_val(s),
    decreases s.len() - n,
{
    if n < s.len() {
        lemma_dec_val_prefix_le(s, n + 1);
        assert(s.take(n + 1).drop_last() =~= s.take(n));
        assert(spec_dec_val(s.take(n)) <= spec_dec_val(s.take(n + 1)));
    } else {
        assert(s.take(n) =~= s);
    }
}

/// Parse the characters of `s` from `from` (inclusive) to `to` (exclusive)
/// as a decimal number. Fails when the run is empty, contains a non-digit,
/// or does not fit in a `u64`.
pub fn parse_dec(s: &str, from: usize, to: usize) -> (r: Option<u64>)
    requires
        from <= to <= s@.len(),
    ensures
        r is Some <==> spec_all_dec(s@.subrange(from as int, to as int)) && spec_dec_val(
            s@.subrange(from as int, to as int),
        ) <= u64::MAX,
        r matches Some(v) ==> v == spec_dec_val(s@.subrange(from as int, to as int)),
{
    let ghost digits = s@.subrange(from as int, to as int);
    if from == to {
        return None;
    }
    let mut acc: u64 = 0;
    let mut i: usize = from;
    while i < to
        invariant
            from <= i <= to <= s@.len(),
            digits == s@.subrange(from as int, to as int),
            from < to,
            forall|j: int| from <= j < i ==> 48 <= #[trigger] s@[j] as u32 <= 57,
            acc == spec_dec_val(digits.take(i - from)),
        decreases to - i,
    {
        let c = s.get_char(i);
        let v = c as u32;
        if !(48 <= v && v <= 57) {
            proof {
                assert(digits[i - from] == s@[i as int]);
            }
            return None;
        }
        let d: u64 = (v - 48) as u64;
        proof {
            assert(digits.take(i + 1 - from).drop_last() =~= digits.take(i - from));
            assert(digits.take(i + 1 - from).last() == s@[i as int]);
        }
        if acc > (u64::MAX - d) / 10 {
            proof {
                lemma_dec_val_prefix_le(digits, i + 1 - from);
                assert((acc as int) * 10 + (d as int) > u64::MAX) by (nonlinear_arith)
                    requires
                        acc as int > (u64::MAX - d as int) / 10,
                        0 <= d as int <= 9,
                        acc as int >= 0,
                ;
                assert(spec_dec_val(digits.take(i + 1 - from)) == acc * 10 + d);
            }
            return None;
        }
        acc = acc * 10 + d;
        i = i + 1;
    }
    proof {
        assert(digits.take(to - from) =~= digits);
    }
    Some(acc)
}

/// Strict lexicographic order on character sequences, by scalar value.
pub open spec fn spec_str_lt(a: Seq<char>, b: Seq<char>) -> bool
    decreases a.len(),
{
    if b.len() == 0 {
        false
    } else if a.len() == 0 {
        true
    } else if (a[0] as int) < (b[0] as int) {
        true
    } else if (a[0] as int) > (b[0] as int) {
        false
    } else {
        spec_str_lt(a.drop_first(), b.drop_first())
    }
}

/// The order is irreflexive.
pub proof fn lemma_str_lt_irrefl(a: Seq<char>)
    ensures
        !spec_str_lt(a, a),
    decreases a.len(),
{
    if a.len() > 0 {
        lemma_str_lt_irrefl(a.drop_first());
    }
}

/// The order is total: of two distinct sequences one is smaller.
pub proof fn lemma_str_lt_total(a: Seq<char>, b: Seq<char>)
    ensures
        spec_str_lt(a, b) || spec_str_lt(b, a) || a == b,
    decreases a.len(),
{
    if a.len() == 0 && b.len() == 0 {
        assert(a =~= b);
    } else if a.len() > 0 && b.len() > 0 {
        if a[0] == b[0] {
            lemma_str_lt_total(a.drop_first(), b.drop_first());
            if a.drop_first() == b.drop_first() {
                assert(seq![a[0]] =~= seq![b[0]]);
                assert(a =~= seq![a[0]] + a.drop_first());
                assert(b =~= seq![b[0]] + b.drop_first());
            }
        } else {
            if a[0] as int == b[0] as int {
                assert(a[0] == b[0]);
            }
        }
    }
}

/// The order is transitive.
pub proof fn lemma_str_lt_trans(a: Seq<char>, b: Seq<char>, c: Seq<char>)
    requires
        spec_str_lt(a, b),
        spec_str_lt(b, c),
    ensures
        spec_str_lt(a, c),
    decreases a.len(),
{
    if a.len() > 0 && b.len() > 0 && c.len() > 0 {
        if a[0] == b[0] && b[0] == c[0] {
            lemma_str_lt_trans(a.drop_first(), b.drop_first(), c.drop_first());
        }
    }
}

/// Compare two strings in the strict lexicographic order.
pub fn str_lt(a: &str, b: &str) -> (r: bool)
    ensures
        r == spec_str_lt(a@, b@),
    decreases a@.len(),
{
    let an = a.unicode_len();
    let bn = b.unicode_len();
    proof {
        assert(a@.skip(0) =~= a@);
        assert(b@.skip(0) =~= b@);
    }
    let mut i: usize = 0;
    loop
        invariant
            i <= an,
            i <= bn,
            an == a@.len(),
            bn == b@.len(),
            spec_str_lt(a@, b@) == spec_str_lt(a@.skip(i as int), b@.skip(i as int)),
        decreases an - i,
    {
        proof {
            let ra = a@.skip(i as int);
            let rb = b@.skip(i as int);
            if i < an && i < bn {
                assert(ra[0] == a@[i as int]);
                assert(rb[0] == b@[i as int]);
                assert(ra.drop_first() =~= a@.skip(i + 1));
                assert(rb.drop_first() =~= b@.skip(i + 1));
            }
        }
        if i >= bn {
            return false;
        }
        if i >= an {
            return true;
        }
        let ca = a.get_char(i) as u32;
        let cb = b.get_char(i) as u32;
        if ca < cb {
            return true;
        }
        if ca > cb {
            return false;
        }
        i = i + 1;
    }
}

/// Whether `p` is a prefix of `s`.
pub open spec fn spec_has_prefix(s: Seq<char>, p: Seq<char>) -> bool {
    p.len() <= s.len() && s.take(p.len() as int) == p
}

/// Prefix test.
pub fn has_prefix(s: &str, p: &str) -> (r: bool)
    ensures
        r == spec_has_prefix(s@, p@),
{
    let sn = s.unicode_len();
    let pn = p.unicode_len();
    if pn > sn {
        return false;
    }
    let mut i: usize = 0;
    while i < pn
        invariant
            i <= pn <= sn,
            sn == s@.len(),
            pn == p@.len(),
            forall|j: int| 0 <= j < i ==> s@[j] == p@[j],
        decreases pn - i,
    {
        if s.get_char(i) != p.get_char(i) {
            proof {
                assert(s@.take(pn as int)[i as int] != p@[i as int]);
            }
            return false;
        }
        i = i + 1;
    }
    proof {
        assert(s@.take(pn as int) =~= p@);
    }
    true
}

/// First index where `needle` occurs in `hay`, or -1.
pub open spec fn spec_find_sub(hay: Seq<char>, needle: Seq<char>) -> int
    decreases hay.len(),
{
    if needle.len() > hay.len() {
        -1
    } else if hay.take(needle.len() as int) == needle {
        0
    } else if hay.len() == 0 {
        -1
    } else {
        let r = spec_find_sub(hay.drop_first(), needle);
        if r < 0 {
            -1
        } else {
            r + 1
        }
    }
}

/// A scan that saw no occurrence before `i`, and one at `i` unless it ran
/// out of room, determines `spec_find_sub`.
pub proof fn lemma_find_sub(hay: Seq<char>, needle: Seq<char>, i: int)
    requires
        needle.len() > 0,
        0 <= i,
        i + needle.len() <= hay.len() + 1,
        forall|j: int| 0 <= j < i ==> #[trigger] hay.subrange(j, j + needle.len() as int)
            != needle,
        i + needle.len() <= hay.len() ==> hay.subrange(i, i + needle.len() as int) == needle,
    ensures
        spec_find_sub(hay, needle) == if i + needle.len() > hay.len() {
            -1int
        } else {
            i
        },
    decreases i,
{
    if i == 0 {
        if needle.len() <= hay.len() {
            assert(hay.take(needle.len() as int) =~= hay.subrange(0, needle.len() as int));
        }
    } else {
        assert(hay.subrange(0int, 0int + needle.len() as int) != needle);
        assert(hay.take(needle.len() as int) =~= hay.subrange(0, 0int + needle.len() as int));
        assert(needle.len() <= hay.len()) by {
            assert(1 <= i && i + needle.len() <= hay.len() + 1);
        }
        let t = hay.drop_first();
        assert forall|j: int| 0 <= j < i - 1 implies #[trigger] t.subrange(
            j,
            j + needle.len() as int,
        ) != needle by {
            assert(t.subrange(j, j + needle.len() as int) =~= hay.subrange(
                j + 1,
                j + 1 + needle.len() as int,
            ));
        }
        if i - 1 + needle.len() <= t.len() {
            assert(t.subrange(i - 1, i - 1 + needle.len() as int) =~= hay.subrange(
                i,
                i + needle.len() as int,
            ));
        }
        lemma_find_sub(t, needle, i - 1);
    }
}

/// Find the first occurrence of `needle` in `hay`.
pub fn find_sub(hay: &str, needle: &str) -> (r: Option<usize>)
    ensures
        r matches Some(i) ==> spec_find_sub(hay@, needle@) == i && i + needle@.len()
            <= hay@.len(),
        r is None ==> spec_find_sub(hay@, needle@) < 0,
{
    let n = hay.unicode_len();
    let m = needle.unicode_len();
    if m > n {
        return None;
    }
    if m == 0 {
        proof {
            assert(hay@.take(0) =~= needle@);
        }
        return Some(0);
    }
    let mut k: usize = 0;
    while k <= n - m
        invariant
            1 <= m <= n,
            k <= n - m + 1,
            n == hay@.len(),
            m == needle@.len(),
            forall|kk: int| 0 <= kk < k ==> #[trigger] hay@.subrange(
                kk,
                kk + needle@.len() as int,
            ) != needle@,
        decreases n - k,
    {
        let mut j: usize = 0;
        let mut matched = true;
        while j < m
            invariant
                j <= m,
                1 <= m,
                k + m <= n,
                n == hay@.len(),
                m == needle@.len(),
                matched ==> forall|jj: int| 0 <= jj < j ==> hay@[k + jj] == needle@[jj],
                !matched ==> hay@.subrange(k as int, k + m as int) != needle@,
            decreases m - j,
        {
            if hay.get_char(k + j) != needle.get_char(j) {
                proof {
                    assert(hay@.subrange(k as int, k + m as int)[j as int] != needle@[j as int]);
                }
                matched = false;
                j = m;
            } else {
                j = j + 1;
            }
        }
        if matched {
            proof {
                assert(hay@.subrange(k as int, k + m as int) =~= needle@);
                lemma_find_sub(hay@, needle@, k as int);
            }
            return Some(k);
        }
        k = k + 1;
    }
    proof {
        lemma_find_sub(hay@, needle@, (n - m + 1) as int);
    }
    None
}

/// Whether `needle` occurs in `hay` starting at `k`.
pub open spec fn spec_contains_at(hay: Seq<char>, needle: Seq<char>, k: int) -> bool {
    0 <= k && k + needle.len() <= hay.len() && hay.subrange(k, k + needle.len()) == needle
}

/// Whether `needle` occurs anywhere in `hay`.
pub open spec fn spec_str_contains(hay: Seq<char>, needle: Seq<char>) -> bool {
    exists|k: int| spec_contains_at(hay, needle, k)
}

/// Substring search.
pub fn str_contains(hay: &str, needle: &str) -> (r: bool)
    ensures
        r == spec_str_contains(hay@, needle@),
{
    let n = hay.unicode_len();
    let m = needle.unicode_len();
    if m > n {
        return false;
    }
    if m == 0 {
        proof {
            assert(hay@.subrange(0, 0) =~= needle@);
            assert(spec_contains_at(hay@, needle@, 0));
        }
        return true;
    }
    let mut k: usize = 0;
    while k <= n - m
        invariant
            m >= 1,
            m <= n,
            k <= n - m + 1,
            n == hay@.len(),
            m == needle@.len(),
            forall|kk: int| 0 <= kk < k ==> !spec_contains_at(hay@, needle@, kk),
        decreases n - k,
    {
        let mut j: usize = 0;
        let mut matched = true;
        while j < m
            invariant
                j <= m,
                1 <= m,
                k + m <= n,
                n == hay@.len(),
                m == needle@.len(),
                matched ==> forall|jj: int| 0 <= jj < j ==> hay@[k + jj] == needle@[jj],
                !matched ==> !spec_contains_at(hay@, needle@, k as int),
            decreases m - j,
        {
            if hay.get_char(k + j) != needle.get_char(j) {
                proof {
                    assert(hay@.subrange(k as int, k + m as int)[j as int] != needle@[j as int]);
                }
                matched = false;
                j = m;
            } else {
                j = j + 1;
            }
        }
        if matched {
            proof {
                assert(hay@.subrange(k as int, k + m as int) =~= needle@);
                assert(spec_contains_at(hay@, needle@, k as int));
            }
            return true;
        }
        k = k + 1;
    }
    proof {
        assert forall|kk: int| !spec_contains_at(hay@, needle@, kk) by {
            if kk >= k {
                assert(kk + needle@.len() > hay@.len());
            }
        }
    }
    false
}

/// Whether two strings hold the same characters.
pub fn str_eq(a: &str, b: &str) -> (r: bool)
    ensures
        r == (a@ == b@),
{
    let an = a.unicode_len();
    let bn = b.unicode_len();
    if an != bn {
        return false;
    }
    let mut i: usize = 0;
    while i < an
        invariant
            i <= an,
            an == a@.len(),
            an == b@.len(),
            forall|j: int| 0 <= j < i ==> a@[j] == b@[j],
        decreases an - i,
    {
        if a.get_char(i) != b.get_char(i) {
            return false;
        }
        i = i + 1;
    }
    proof {
        assert(a@ =~= b@);
    }
    true
}

} // verus!
