//! Association lists keyed by strings, at the specification level: first
//! occurrence wins, and with unique keys the list behaves as a map.

use vstd::prelude::*;

verus! {

/// First index bound to `k`, or -1.
pub open spec fn spec_index_of<V>(s: Seq<(Seq<char>, V)>, k: Seq<char>) -> int
    decreases s.len(),
{
    if s.len() == 0 {
        -1
    } else if s[0].0 == k {
        0
    } else {
        let r = spec_index_of(s.drop_first(), k);
        if r < 0 {
            -1
        } else {
            r + 1
        }
    }
}

/// What the list binds `k` to.
pub open spec fn spec_assoc_get<V>(s: Seq<(Seq<char>, V)>, k: Seq<char>) -> Option<V> {
    let i = spec_index_of(s, k);
    if i < 0 {
        None
    } else {
        Some(s[i].1)
    }
}

/// No two entries share a key.
pub open spec fn unique_keys<V>(s: Seq<(Seq<char>, V)>) -> bool {
    forall|i: int, j: int| 0 <= i < j < s.len() ==> #[trigger] s[i].0 != #[trigger] s[j].0
}

/// A scan that saw no match before `i`, and a match at `i` unless it ran
/// out, determines `spec_index_of`.
pub proof fn lemma_index_of<V>(s: Seq<(Seq<char>, V)>, k: Seq<char>, i: int)
    requires
        0 <= i <= s.len(),
        forall|j: int| 0 <= j < i ==> #[trigger] s[j].0 != k,
        i < s.len() ==> s[i].0 == k,
    ensures
        spec_index_of(s, k) == if i == s.len() {
            -1int
        } else {
            i
        },
    decreases i,
{
    if i > 0 {
        lemma_index_of(s.drop_first(), k, i - 1);
    }
}

/// When no index matches, no entry carries the key.
pub proof fn lemma_index_of_absent<V>(s: Seq<(Seq<char>, V)>, k: Seq<char>)
    requires
        spec_index_of(s, k) < 0,
    ensures
        forall|j: int| 0 <= j < s.len() ==> #[trigger] s[j].0 != k,
    decreases s.len(),
{
    if s.len() > 0 {
        lemma_index_of_absent(s.drop_first(), k);
        assert forall|j: int| 0 <= j < s.len() implies #[trigger] s[j].0 != k by {
            if j > 0 {
                assert(s.drop_first()[j - 1] == s[j]);
            }
        }
    }
}

/// A found index carries the key, and nothing before it does.
pub proof fn lemma_index_of_found<V>(s: Seq<(Seq<char>, V)>, k: Seq<char>)
    requires
        spec_index_of(s, k) >= 0,
    ensures
        spec_index_of(s, k) < s.len(),
        s[spec_index_of(s, k)].0 == k,
        forall|j: int| 0 <= j < spec_index_of(s, k) ==> #[trigger] s[j].0 != k,
    decreases s.len(),
{
    if s.len() > 0 && s[0].0 != k {
        lemma_index_of_found(s.drop_first(), k);
        assert forall|j: int| 0 <= j < spec_index_of(s, k) implies #[trigger] s[j].0 != k by {
            if j > 0 {
                assert(s.drop_first()[j - 1] == s[j]);
            }
        }
    }
}

/// Pushing a fresh key binds it and leaves every other key as before.
pub proof fn lemma_get_push<V>(s: Seq<(Seq<char>, V)>, p: (Seq<char>, V))
    requires
        spec_index_of(s, p.0) < 0,
        unique_keys(s),
    ensures
        unique_keys(s.push(p)),
        spec_assoc_get(s.push(p), p.0) == Some(p.1),
        forall|k: Seq<char>| k != p.0 ==> #[trigger] spec_assoc_get(s.push(p), k)
            == spec_assoc_get(s, k),
{
    let t = s.push(p);
    lemma_index_of_absent(s, p.0);
    assert forall|j: int| 0 <= j < s.len() implies #[trigger] t[j].0 != p.0 by {
        assert(t[j] == s[j]);
    }
    lemma_index_of(t, p.0, s.len() as int);
    assert forall|i: int, j: int| 0 <= i < j < t.len() implies #[trigger] t[i].0
        != #[trigger] t[j].0 by {
        if j < s.len() {
            assert(t[i] == s[i]);
            assert(t[j] == s[j]);
        } else {
            assert(t[i] == s[i]);
            assert(t[j] == p);
        }
    }
    assert forall|k: Seq<char>| k != p.0 implies #[trigger] spec_assoc_get(t, k) == spec_assoc_get(
        s,
        k,
    ) by {
        let m = spec_index_of(s, k);
        if m >= 0 {
            lemma_index_of_found(s, k);
            assert forall|j: int| 0 <= j < m implies #[trigger] t[j].0 != k by {
                assert(t[j] == s[j]);
            }
            assert(t[m] == s[m]);
            lemma_index_of(t, k, m);
        } else {
            lemma_index_of_absent(s, k);
            assert forall|j: int| 0 <= j < t.len() implies #[trigger] t[j].0 != k by {
                if j < s.len() {
                    assert(t[j] == s[j]);
                } else {
                    assert(t[j] == p);
                }
            }
            lemma_index_of(t, k, t.len() as int);
        }
    }
}

/// Removing the entry at the key's index unbinds it and leaves every other
/// key as before.
pub proof fn lemma_get_remove<V>(s: Seq<(Seq<char>, V)>, i: int)
    requires
        unique_keys(s),
        0 <= i < s.len(),
        spec_index_of(s, s[i].0) == i,
    ensures
        unique_keys(s.remove(i)),
        spec_assoc_get(s.remove(i), s[i].0) is None,
        forall|k: Seq<char>| k != s[i].0 ==> #[trigger] spec_assoc_get(s.remove(i), k)
            == spec_assoc_get(s, k),
{
    let t = s.remove(i);
    assert forall|a: int, b: int| 0 <= a < b < t.len() implies #[trigger] t[a].0
        != #[trigger] t[b].0 by {
        let a0 = if a < i {
            a
        } else {
            a + 1
        };
        let b0 = if b < i {
            b
        } else {
            b + 1
        };
        assert(t[a] == s[a0]);
        assert(t[b] == s[b0]);
    }
    assert forall|j: int| 0 <= j < t.len() implies #[trigger] t[j].0 != s[i].0 by {
        let j0 = if j < i {
            j
        } else {
            j + 1
        };
        assert(t[j] == s[j0]);
        assert(s[j0].0 != s[i].0);
    }
    lemma_index_of(t, s[i].0, t.len() as int);
    assert forall|k: Seq<char>| k != s[i].0 implies #[trigger] spec_assoc_get(t, k)
        == spec_assoc_get(s, k) by {
        let m = spec_index_of(s, k);
        if m >= 0 {
            lemma_index_of_found(s, k);
            assert(m != i);
            let m2 = if m < i {
                m
            } else {
                m - 1
            };
            assert(t[m2] == s[m]);
            assert forall|j: int| 0 <= j < m2 implies #[trigger] t[j].0 != k by {
                let j0 = if j < i {
                    j
                } else {
                    j + 1
                };
                assert(t[j] == s[j0]);
                if j0 != m {
                    assert(s[j0].0 != s[m].0);
                }
            }
            lemma_index_of(t, k, m2);
        } else {
            lemma_index_of_absent(s, k);
            assert forall|j: int| 0 <= j < t.len() implies #[trigger] t[j].0 != k by {
                let j0 = if j < i {
                    j
                } else {
                    j + 1
                };
                assert(t[j] == s[j0]);
            }
            lemma_index_of(t, k, t.len() as int);
        }
    }
}

/// Updating the value at the key's index rebinds it and leaves every other
/// key as before.
pub proof fn lemma_get_update<V>(s: Seq<(Seq<char>, V)>, i: int, v: V)
    requires
        unique_keys(s),
        0 <= i < s.len(),
        spec_index_of(s, s[i].0) == i,
    ensures
        unique_keys(s.update(i, (s[i].0, v))),
        spec_assoc_get(s.update(i, (s[i].0, v)), s[i].0) == Some(v),
        forall|k: Seq<char>| k != s[i].0 ==> #[trigger] spec_assoc_get(s.update(i, (s[i].0, v)), k)
            == spec_assoc_get(s, k),
{
    let t = s.update(i, (s[i].0, v));
    assert forall|a: int, b: int| 0 <= a < b < t.len() implies #[trigger] t[a].0
        != #[trigger] t[b].0 by {
        assert(t[a].0 == s[a].0);
        assert(t[b].0 == s[b].0);
    }
    lemma_index_of_found(s, s[i].0);
    assert forall|j: int| 0 <= j < i implies #[trigger] t[j].0 != s[i].0 by {
        assert(t[j] == s[j]);
    }
    lemma_index_of(t, s[i].0, i);
    assert forall|k: Seq<char>| k != s[i].0 implies #[trigger] spec_assoc_get(t, k)
        == spec_assoc_get(s, k) by {
        let m = spec_index_of(s, k);
        if m >= 0 {
            lemma_index_of_found(s, k);
            assert(m != i);
            assert forall|j: int| 0 <= j < m implies #[trigger] t[j].0 != k by {
                assert(t[j].0 == s[j].0);
            }
            assert(t[m] == s[m]);
            lemma_index_of(t, k, m);
        } else {
            lemma_index_of_absent(s, k);
            assert forall|j: int| 0 <= j < t.len() implies #[trigger] t[j].0 != k by {
                assert(t[j].0 == s[j].0);
            }
            lemma_index_of(t, k, t.len() as int);
        }
    }
}

} // verus!
