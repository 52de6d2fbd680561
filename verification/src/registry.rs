//! The per-user bucket registry: `user -> { bucket -> { key -> object } }`,
//! the single mutable state behind every handler. Object keys are kept in
//! lexicographic order, which listings rely on.

use vstd::prelude::*;
use crate::assoc::{
    spec_index_of, spec_assoc_get, unique_keys, lemma_index_of, lemma_index_of_found,
    lemma_get_push, lemma_get_remove, lemma_get_update,
};
use crate::metadata::{ObjectMetadata, MetadataView, Owner, OwnerView, opt_view};
use crate::text::{
    str_eq, str_lt, spec_str_lt, lemma_str_lt_irrefl, lemma_str_lt_total, lemma_str_lt_trans,
    has_prefix, spec_has_prefix, find_sub, spec_find_sub,
};

verus! {

/// Errors raised by the bucket registry.
#[derive(Debug)]
pub enum CoreError {
    BucketNotFound(String),
    BucketAlreadyExists(String),
    ObjectNotFound(String),
    InvalidBucketName(String),
    AccessDenied(String),
    PreconditionFailed(String),
}

/// One bucket: its creation time, owner, and objects by key.
#[derive(Debug)]
pub struct BucketEntry {
    pub name: String,
    pub created_at: u64,
    pub owner: Owner,
    pub objects: Vec<(String, ObjectMetadata)>,
}

pub struct BucketView {
    pub created_at: u64,
    pub owner: OwnerView,
    pub objects: Seq<(Seq<char>, MetadataView)>,
}

impl View for BucketEntry {
    type V = BucketView;

    open spec fn view(&self) -> BucketView {
        BucketView {
            created_at: self.created_at,
            owner: self.owner@,
            objects: crate::xml::object_pairs_view(self.objects@),
        }
    }
}

/// One user's entry: the buckets of that namespace.
#[derive(Debug)]
pub struct UserEntry {
    pub user: String,
    pub buckets: Vec<BucketEntry>,
}

/// The view of a bucket list: name characters to bucket views.
pub open spec fn bucket_views(s: Seq<BucketEntry>) -> Seq<(Seq<char>, BucketView)> {
    s.map_values(|b: BucketEntry| (b.name@, b@))
}

/// The view of a user list: user characters to bucket maps.
pub open spec fn user_views(s: Seq<UserEntry>) -> Seq<
    (Seq<char>, Seq<(Seq<char>, BucketView)>),
> {
    s.map_values(|u: UserEntry| (u.user@, bucket_views(u.buckets@)))
}

/// Object keys in strictly increasing lexicographic order.
pub open spec fn keys_sorted(s: Seq<(Seq<char>, MetadataView)>) -> bool {
    forall|i: int, j: int| 0 <= i < j < s.len() ==> spec_str_lt(#[trigger] s[i].0, #[trigger] s[j].0)
}

/// Strictly ordered keys are unique.
pub proof fn lemma_sorted_unique(s: Seq<(Seq<char>, MetadataView)>)
    requires
        keys_sorted(s),
    ensures
        unique_keys(s),
{
    assert forall|i: int, j: int| 0 <= i < j < s.len() implies #[trigger] s[i].0
        != #[trigger] s[j].0 by {
        assert(spec_str_lt(s[i].0, s[j].0));
        if s[i].0 == s[j].0 {
            lemma_str_lt_irrefl(s[i].0);
        }
    }
}

/// An object list with `(k, v)` bound: inserted in key order, or replacing
/// the entry that carried the same key.
pub open spec fn spec_put_sorted(
    s: Seq<(Seq<char>, MetadataView)>,
    k: Seq<char>,
    v: MetadataView,
) -> Seq<(Seq<char>, MetadataView)>
    decreases s.len(),
{
    if s.len() == 0 {
        seq![(k, v)]
    } else if spec_str_lt(s[0].0, k) {
        seq![s[0]] + spec_put_sorted(s.drop_first(), k, v)
    } else if s[0].0 == k {
        seq![(k, v)] + s.drop_first()
    } else {
        seq![(k, v)] + s
    }
}

/// A scan that found the insertion point determines `spec_put_sorted`.
proof fn lemma_put_sorted_split(s: Seq<(Seq<char>, MetadataView)>, k: Seq<char>, v: MetadataView, idx: int)
    requires
        0 <= idx <= s.len(),
        forall|j: int| 0 <= j < idx ==> spec_str_lt(#[trigger] s[j].0, k),
        idx < s.len() ==> !spec_str_lt(s[idx].0, k),
    ensures
        spec_put_sorted(s, k, v) == if idx < s.len() && s[idx].0 == k {
            s.take(idx) + seq![(k, v)] + s.skip(idx + 1)
        } else {
            s.take(idx) + seq![(k, v)] + s.skip(idx)
        },
    decreases idx,
{
    if idx == 0 {
        if s.len() == 0 {
            assert(spec_put_sorted(s, k, v) =~= s.take(0) + seq![(k, v)] + s.skip(0));
        } else if s[0].0 == k {
            lemma_str_lt_irrefl(k);
            assert(spec_put_sorted(s, k, v) =~= s.take(0) + seq![(k, v)] + s.skip(1));
        } else {
            assert(spec_put_sorted(s, k, v) =~= s.take(0) + seq![(k, v)] + s.skip(0));
        }
    } else {
        let t = s.drop_first();
        assert(forall|j: int| 0 <= j < idx - 1 ==> spec_str_lt(#[trigger] t[j].0, k));
        lemma_put_sorted_split(t, k, v, idx - 1);
        if idx < s.len() && s[idx].0 == k {
            assert(seq![s[0]] + (t.take(idx - 1) + seq![(k, v)] + t.skip(idx)) =~= s.take(idx)
                + seq![(k, v)] + s.skip(idx + 1));
        } else {
            assert(seq![s[0]] + (t.take(idx - 1) + seq![(k, v)] + t.skip(idx - 1)) =~= s.take(idx)
                + seq![(k, v)] + s.skip(idx));
        }
    }
}

/// Binding a key keeps the list ordered, binds the key, and leaves every
/// other key bound as before.
proof fn lemma_put_sorted_props(
    s: Seq<(Seq<char>, MetadataView)>,
    k: Seq<char>,
    v: MetadataView,
    idx: int,
)
    requires
        keys_sorted(s),
        0 <= idx <= s.len(),
        forall|j: int| 0 <= j < idx ==> spec_str_lt(#[trigger] s[j].0, k),
        idx < s.len() ==> !spec_str_lt(s[idx].0, k),
    ensures
        keys_sorted(spec_put_sorted(s, k, v)),
        spec_assoc_get(spec_put_sorted(s, k, v), k) == Some(v),
        forall|k2: Seq<char>| k2 != k ==> #[trigger] spec_assoc_get(spec_put_sorted(s, k, v), k2)
            == spec_assoc_get(s, k2),
{
    lemma_put_sorted_split(s, k, v, idx);
    lemma_sorted_unique(s);
    let r = spec_put_sorted(s, k, v);
    if idx < s.len() && s[idx].0 == k {
        // replacement in place
        assert(r == s.take(idx) + seq![(k, v)] + s.skip(idx + 1));
        assert forall|i: int, j: int| 0 <= i < j < r.len() implies spec_str_lt(
            #[trigger] r[i].0,
            #[trigger] r[j].0,
        ) by {
            let i0 = if i < idx {
                i
            } else if i == idx {
                idx
            } else {
                i
            };
            if i < idx {
                assert(r[i] == s[i]);
            } else if i == idx {
                assert(r[i].0 == s[idx].0);
            } else {
                assert(r[i] == s[i]);
            }
            if j < idx {
                assert(r[j] == s[j]);
            } else if j == idx {
                assert(r[j].0 == s[idx].0);
            } else {
                assert(r[j] == s[j]);
            }
        }
        assert forall|j: int| 0 <= j < idx implies #[trigger] r[j].0 != k by {
            assert(r[j] == s[j]);
            assert(spec_str_lt(s[j].0, k));
            if s[j].0 == k {
                lemma_str_lt_irrefl(k);
            }
        }
        lemma_index_of(r, k, idx);
        lemma_index_of(s, k, idx);
        assert forall|k2: Seq<char>| k2 != k implies #[trigger] spec_assoc_get(r, k2)
            == spec_assoc_get(s, k2) by {
            let m = spec_index_of(s, k2);
            if m >= 0 {
                lemma_index_of_found(s, k2);
                assert(m != idx);
                assert(r[m] == s[m]);
                assert forall|j: int| 0 <= j < m implies #[trigger] r[j].0 != k2 by {
                    if j == idx {
                        assert(r[j].0 == k);
                        assert(s[m].0 == k2);
                    } else {
                        assert(r[j] == s[j]);
                        if j != m {
                            assert(s[j].0 != s[m].0);
                        }
                    }
                }
                lemma_index_of(r, k2, m);
            } else {
                crate::assoc::lemma_index_of_absent(s, k2);
                assert forall|j: int| 0 <= j < r.len() implies #[trigger] r[j].0 != k2 by {
                    if j == idx {
                        assert(r[j].0 == k);
                    } else {
                        assert(r[j] == s[j]);
                    }
                }
                lemma_index_of(r, k2, r.len() as int);
            }
        }
    } else {
        // fresh insertion at idx
        assert(r == s.take(idx) + seq![(k, v)] + s.skip(idx));
        if idx < s.len() {
            lemma_str_lt_total(s[idx].0, k);
        }
        assert forall|i: int, j: int| 0 <= i < j < r.len() implies spec_str_lt(
            #[trigger] r[i].0,
            #[trigger] r[j].0,
        ) by {
            if i < idx {
                assert(r[i] == s[i]);
            } else if i > idx {
                assert(r[i] == s[i - 1]);
            }
            if j < idx {
                assert(r[j] == s[j]);
            } else if j > idx {
                assert(r[j] == s[j - 1]);
            }
            if i == idx && j > idx {
                // k < s[idx].0 <= s[j-1].0
                if j - 1 > idx {
                    lemma_str_lt_trans(k, s[idx as int].0, s[j - 1].0);
                }
            }
            if j == idx && i < idx {
                assert(spec_str_lt(s[i].0, k));
            }
        }
        assert forall|j: int| 0 <= j < r.len() implies (j != idx ==> #[trigger] r[j].0 != k) by {
            if j < idx {
                assert(r[j] == s[j]);
                if s[j].0 == k {
                    lemma_str_lt_irrefl(k);
                }
            } else if j > idx {
                assert(r[j] == s[j - 1]);
                if s[j - 1].0 == k {
                    lemma_str_lt_irrefl(k);
                } else {
                }
                if j - 1 == idx {
                    assert(r[j].0 != k);
                } else {
                    assert(spec_str_lt(s[idx as int].0, s[j - 1].0));
                    if s[j - 1].0 == k {
                        lemma_str_lt_irrefl(k);
                    }
                }
            }
        }
        assert forall|j: int| 0 <= j < idx implies #[trigger] r[j].0 != k by {}
        lemma_index_of(r, k, idx);
        assert forall|k2: Seq<char>| k2 != k implies #[trigger] spec_assoc_get(r, k2)
            == spec_assoc_get(s, k2) by {
            let m = spec_index_of(s, k2);
            if m >= 0 {
                lemma_index_of_found(s, k2);
                let m2 = if m < idx {
                    m
                } else {
                    m + 1
                };
                assert(r[m2] == s[m]);
                assert forall|j: int| 0 <= j < m2 implies #[trigger] r[j].0 != k2 by {
                    if j == idx {
                        assert(r[j].0 == k);
                        assert(s[m].0 == k2);
                    } else {
                        let j0 = if j < idx {
                            j
                        } else {
                            j - 1
                        };
                        assert(r[j] == s[j0]);
                        if j0 != m {
                            assert(s[j0].0 != s[m].0);
                        }
                    }
                }
                lemma_index_of(r, k2, m2);
            } else {
                crate::assoc::lemma_index_of_absent(s, k2);
                assert forall|j: int| 0 <= j < r.len() implies #[trigger] r[j].0 != k2 by {
                    if j == idx {
                        assert(r[j].0 == k);
                    } else {
                        let j0 = if j < idx {
                            j
                        } else {
                            j - 1
                        };
                        assert(r[j] == s[j0]);
                    }
                }
                lemma_index_of(r, k2, r.len() as int);
            }
        }
    }
}

/// What one listing step does with a key: fold it into a common prefix, or
/// keep it as an object.
pub open spec fn spec_common_prefix_of(k: Seq<char>, prefix: Seq<char>, delim: Option<Seq<char>>) -> Option<
    Seq<char>,
> {
    match delim {
        Some(d) => {
            if d.len() > 0 && spec_find_sub(k.skip(prefix.len() as int), d) >= 0 {
                Some(k.take(prefix.len() + spec_find_sub(k.skip(prefix.len() as int), d) + d.len()))
            } else {
                None
            }
        },
        None => None,
    }
}

/// The listing walk: keys in order, delete markers and keys outside the
/// prefix or at or before the cursor skipped, runs under a common prefix
/// folded, stopping with a truncation mark once `max` entries stand.
pub open spec fn spec_list_walk(
    objs: Seq<(Seq<char>, MetadataView)>,
    i: int,
    prefix: Seq<char>,
    delim: Option<Seq<char>>,
    cursor: Option<Seq<char>>,
    max: nat,
    acc_o: Seq<(Seq<char>, MetadataView)>,
    acc_p: Seq<Seq<char>>,
    last: Option<Seq<char>>,
) -> (Seq<(Seq<char>, MetadataView)>, Seq<Seq<char>>, bool, Option<Seq<char>>)
    decreases objs.len() - i,
{
    if i < 0 || i >= objs.len() {
        (acc_o, acc_p, false, None)
    } else {
        let k = objs[i].0;
        let m = objs[i].1;
        let skip = m.is_delete_marker || !spec_has_prefix(k, prefix) || (match cursor {
            Some(c) => !spec_str_lt(c, k),
            None => false,
        });
        if skip {
            spec_list_walk(objs, i + 1, prefix, delim, cursor, max, acc_o, acc_p, last)
        } else {
            match spec_common_prefix_of(k, prefix, delim) {
                Some(p) => {
                    if acc_p.len() > 0 && acc_p.last() == p {
                        spec_list_walk(objs, i + 1, prefix, delim, cursor, max, acc_o, acc_p, last)
                    } else if acc_o.len() + acc_p.len() >= max {
                        (acc_o, acc_p, true, last)
                    } else {
                        spec_list_walk(
                            objs,
                            i + 1,
                            prefix,
                            delim,
                            cursor,
                            max,
                            acc_o,
                            acc_p.push(p),
                            Some(k),
                        )
                    }
                },
                None => {
                    if acc_o.len() + acc_p.len() >= max {
                        (acc_o, acc_p, true, last)
                    } else {
                        spec_list_walk(
                            objs,
                            i + 1,
                            prefix,
                            delim,
                            cursor,
                            max,
                            acc_o.push((k, m)),
                            acc_p,
                            Some(k),
                        )
                    }
                },
            }
        }
    }
}

/// What a listing yields for a bucket's objects.
pub open spec fn spec_list_objects(
    objs: Seq<(Seq<char>, MetadataView)>,
    prefix: Seq<char>,
    delim: Option<Seq<char>>,
    cursor: Option<Seq<char>>,
    max: nat,
) -> (Seq<(Seq<char>, MetadataView)>, Seq<Seq<char>>, bool, Option<Seq<char>>) {
    spec_list_walk(
        objs,
        0,
        prefix,
        delim,
        cursor,
        max,
        Seq::empty(),
        Seq::empty(),
        None,
    )
}

/// A bucket name the registry accepts: 1 to 63 characters, lowercase
/// letters, digits, dots and hyphens, beginning and ending with a letter
/// or digit.
pub open spec fn spec_valid_bucket_name(s: Seq<char>) -> bool {
    &&& 1 <= s.len() <= 63
    &&& forall|i: int|
        0 <= i < s.len() ==> (97 <= #[trigger] s[i] as int <= 122 || 48 <= s[i] as int <= 57 || s[i]
            == '.' || s[i] == '-')
    &&& (97 <= s[0] as int <= 122 || 48 <= s[0] as int <= 57)
    &&& (97 <= s.last() as int <= 122 || 48 <= s.last() as int <= 57)
}

/// Validate a bucket name.
pub fn valid_bucket_name(s: &str) -> (r: bool)
    ensures
        r == spec_valid_bucket_name(s@),
{
    let n = s.unicode_len();
    if n < 1 || n > 63 {
        return false;
    }
    let first = s.get_char(0) as u32;
    if !((97 <= first && first <= 122) || (48 <= first && first <= 57)) {
        return false;
    }
    let last_c = s.get_char(n - 1) as u32;
    if !((97 <= last_c && last_c <= 122) || (48 <= last_c && last_c <= 57)) {
        return false;
    }
    let mut i: usize = 0;
    while i < n
        invariant
            i <= n,
            n == s@.len(),
            forall|j: int|
                0 <= j < i ==> (97 <= #[trigger] s@[j] as int <= 122 || 48 <= s@[j] as int <= 57
                    || s@[j] == '.' || s@[j] == '-'),
        decreases n - i,
    {
        let c = s.get_char(i);
        let v = c as u32;
        if !((97 <= v && v <= 122) || (48 <= v && v <= 57) || c == '.' || c == '-') {
            return false;
        }
        i = i + 1;
    }
    true
}


/// Find a user entry by id.
fn find_user(users: &Vec<UserEntry>, user: &str) -> (r: Option<usize>)
    ensures
        r matches Some(i) ==> i < users@.len() && spec_index_of(user_views(users@), user@) == i
            && user_views(users@)[i as int].0 == user@,
        r is None ==> spec_index_of(user_views(users@), user@) < 0,
{
    let n = users.len();
    let mut i: usize = 0;
    while i < n
        invariant
            i <= n,
            n == users@.len(),
            forall|j: int| 0 <= j < i ==> #[trigger] user_views(users@)[j].0 != user@,
        decreases n - i,
    {
        if str_eq(users[i].user.as_str(), user) {
            proof {
                lemma_index_of(user_views(users@), user@, i as int);
            }
            return Some(i);
        }
        i = i + 1;
    }
    proof {
        lemma_index_of(user_views(users@), user@, n as int);
    }
    None
}

/// Find a bucket entry by name.
fn find_bucket_in(buckets: &Vec<BucketEntry>, name: &str) -> (r: Option<usize>)
    ensures
        r matches Some(i) ==> i < buckets@.len() && spec_index_of(bucket_views(buckets@), name@)
            == i && bucket_views(buckets@)[i as int].0 == name@,
        r is None ==> spec_index_of(bucket_views(buckets@), name@) < 0,
{
    let n = buckets.len();
    let mut i: usize = 0;
    while i < n
        invariant
            i <= n,
            n == buckets@.len(),
            forall|j: int| 0 <= j < i ==> #[trigger] bucket_views(buckets@)[j].0 != name@,
        decreases n - i,
    {
        if str_eq(buckets[i].name.as_str(), name) {
            proof {
                lemma_index_of(bucket_views(buckets@), name@, i as int);
            }
            return Some(i);
        }
        i = i + 1;
    }
    proof {
        lemma_index_of(bucket_views(buckets@), name@, n as int);
    }
    None
}

/// The bucket registry, the gateway's only durable state.
#[derive(Debug)]
pub struct BucketManager {
    pub users: Vec<UserEntry>,
}

impl BucketManager {
    /// Users are unique, bucket names are unique per user, and object keys
    /// stand in strict lexicographic order.
    pub open spec fn wf(self) -> bool {
        &&& unique_keys(user_views(self.users@))
        &&& forall|i: int|
            0 <= i < self.users@.len() ==> unique_keys(
                bucket_views((#[trigger] self.users@[i]).buckets@),
            )
        &&& forall|i: int, j: int|
            0 <= i < self.users@.len() && 0 <= j < self.users@[i].buckets@.len() ==> keys_sorted(
                (#[trigger] self.users@[i].buckets@[j])@.objects,
            )
    }

    /// The bucket map of a user's namespace.
    pub open spec fn spec_user(self, user: Seq<char>) -> Option<Seq<(Seq<char>, BucketView)>> {
        spec_assoc_get(user_views(self.users@), user)
    }

    /// One bucket of a user's namespace.
    pub open spec fn spec_bucket(self, user: Seq<char>, bucket: Seq<char>) -> Option<BucketView> {
        match self.spec_user(user) {
            Some(bs) => spec_assoc_get(bs, bucket),
            None => None,
        }
    }

    /// One object of a bucket.
    pub open spec fn spec_object(self, user: Seq<char>, bucket: Seq<char>, key: Seq<char>) -> Option<
        MetadataView,
    > {
        match self.spec_bucket(user, bucket) {
            Some(b) => spec_assoc_get(b.objects, key),
            None => None,
        }
    }

    pub fn new() -> (r: BucketManager)
        ensures
            r.wf(),
            r.users@.len() == 0,
    {
        BucketManager { users: Vec::new() }
    }

    /// Whether a bucket exists in the user's namespace.
    pub fn bucket_exists_for_user(&self, user: &str, bucket: &str) -> (r: bool)
        ensures
            r == (self.spec_bucket(user@, bucket@) is Some),
    {
        match find_user(&self.users, user) {
            Some(i) => {
                match find_bucket_in(&self.users[i].buckets, bucket) {
                    Some(_) => {
                        proof {
                            lemma_index_of_found(bucket_views(self.users@[i as int].buckets@), bucket@);
                        }
                        true
                    },
                    None => false,
                }
            },
            None => false,
        }
    }

    /// The user's buckets as (name, creation time) pairs, in registration
    /// order.
    pub fn list_buckets_for_user(&self, user: &str) -> (r: Vec<(String, u64)>)
        ensures
            crate::xml::bucket_pairs_view(r@) == (match self.spec_user(user@) {
                Some(bs) => bs.map_values(|p: (Seq<char>, BucketView)| (p.0, p.1.created_at)),
                None => Seq::<(Seq<char>, u64)>::empty(),
            }),
    {
        let iu = match find_user(&self.users, user) {
            Some(i) => i,
            None => {
                let r: Vec<(String, u64)> = Vec::new();
                proof {
                    assert(crate::xml::bucket_pairs_view(r@) =~= Seq::<(Seq<char>, u64)>::empty());
                }
                return r;
            },
        };
        let buckets = &self.users[iu].buckets;
        let n = buckets.len();
        let mut out: Vec<(String, u64)> = Vec::new();
        let mut i: usize = 0;
        while i < n
            invariant
                i <= n,
                n == buckets@.len(),
                out@.len() == i,
                forall|j: int| 0 <= j < i ==> #[trigger] out@[j].0@ == buckets@[j].name@
                    && out@[j].1 == buckets@[j].created_at,
            decreases n - i,
        {
            out.push((buckets[i].name.clone(), buckets[i].created_at));
            i = i + 1;
        }
        proof {
            assert(crate::xml::bucket_pairs_view(out@) =~= bucket_views(buckets@).map_values(
                |p: (Seq<char>, BucketView)| (p.0, p.1.created_at),
            ));
        }
        out
    }

    /// Create a bucket in the user's namespace. An invalid name and an
    /// existing bucket are each refused.
    pub fn create_bucket_for_user(
        &mut self,
        user: &str,
        bucket: String,
        owner: Owner,
        now_ms: u64,
    ) -> (r: Result<(), CoreError>)
        requires
            old(self).wf(),
        ensures
            final(self).wf(),
            r is Ok <==> spec_valid_bucket_name(bucket@) && old(self).spec_bucket(user@, bucket@)
                is None,
            !spec_valid_bucket_name(bucket@) ==> (r matches Err(CoreError::InvalidBucketName(_))
                && *final(self) == *old(self)),
            spec_valid_bucket_name(bucket@) && old(self).spec_bucket(user@, bucket@) is Some ==> (
            r matches Err(CoreError::BucketAlreadyExists(_)) && *final(self) == *old(self)),
            r is Ok ==> (final(self).spec_bucket(user@, bucket@) matches Some(bv)
                && bv.created_at == now_ms && bv.owner == owner@ && bv.objects.len() == 0),
            forall|u: Seq<char>, b: Seq<char>| !(u == user@ && b == bucket@) ==> #[trigger] final(self).spec_bucket(u, b) == old(self).spec_bucket(u, b),
    {
        if !valid_bucket_name(bucket.as_str()) {
            return Err(CoreError::InvalidBucketName(bucket));
        }
        let ghost olds_u = user_views(self.users@);
        match find_user(&self.users, user) {
            Some(iu) => {
                match find_bucket_in(&self.users[iu].buckets, bucket.as_str()) {
                    Some(_) => {
                        proof {
                            lemma_index_of_found(
                                bucket_views(self.users@[iu as int].buckets@),
                                bucket@,
                            );
                        }
                        return Err(CoreError::BucketAlreadyExists(bucket));
                    },
                    None => {},
                }
                let ghost old_bviews = bucket_views(self.users@[iu as int].buckets@);
                let ghost bname = bucket@;
                let mut ue = self.users.remove(iu);
                let be = BucketEntry {
                    name: bucket,
                    created_at: now_ms,
                    owner,
                    objects: Vec::new(),
                };
                let ghost bv = be@;
                ue.buckets.push(be);
                self.users.insert(iu, ue);
                proof {
                    let new_bviews = bucket_views(self.users@[iu as int].buckets@);
                    assert(new_bviews =~= old_bviews.push((bname, bv)));
                    lemma_get_push(old_bviews, (bname, bv));
                    assert(user_views(self.users@) =~= olds_u.update(
                        iu as int,
                        (user@, new_bviews),
                    ));
                    lemma_get_update(olds_u, iu as int, new_bviews);
                    assert(bv.objects =~= Seq::<(Seq<char>, MetadataView)>::empty());
                    assert forall|u: Seq<char>, b: Seq<char>|
                        !(u == user@ && b == bucket@) implies #[trigger] self.spec_bucket(u, b)
                        == old(self).spec_bucket(u, b) by {}
                    self.lemma_wf_after_update(*old(self), iu as int);
                }
                Ok(())
            },
            None => {
                let mut buckets: Vec<BucketEntry> = Vec::new();
                let be = BucketEntry {
                    name: bucket,
                    created_at: now_ms,
                    owner,
                    objects: Vec::new(),
                };
                let ghost bv = be@;
                let ghost bname = be.name@;
                buckets.push(be);
                let ue = UserEntry { user: user.to_owned(), buckets };
                let ghost uv = (user@, bucket_views(ue.buckets@));
                self.users.push(ue);
                proof {
                    assert(user_views(self.users@) =~= olds_u.push(uv));
                    crate::assoc::lemma_index_of_absent(olds_u, user@);
                    lemma_get_push(olds_u, uv);
                    assert(uv.1 =~= seq![(bname, bv)]);
                    assert(spec_assoc_get(uv.1, bname) == Some(bv));
                    assert forall|b: Seq<char>| b != bname implies spec_assoc_get(uv.1, b)
                        is None by {
                        assert(uv.1[0].0 == bname);
                        lemma_index_of(uv.1, b, 1int);
                    }
                    assert(bv.objects =~= Seq::<(Seq<char>, MetadataView)>::empty());
                    self.lemma_wf_after_push(*old(self));
                }
                Ok(())
            },
        }
    }

    /// Bookkeeping: pushing a fresh well-formed user entry keeps the
    /// registry well formed.
    proof fn lemma_wf_after_push(self, old_mgr: BucketManager)
        requires
            old_mgr.wf(),
            self.users@.len() == old_mgr.users@.len() + 1,
            forall|i: int| 0 <= i < old_mgr.users@.len() ==> #[trigger] self.users@[i]
                == old_mgr.users@[i],
            unique_keys(user_views(self.users@)),
            unique_keys(bucket_views(self.users@[self.users@.len() - 1].buckets@)),
            forall|j: int|
                0 <= j < self.users@[self.users@.len() - 1].buckets@.len() ==> keys_sorted(
                    (#[trigger] self.users@[self.users@.len() - 1].buckets@[j])@.objects,
                ),
        ensures
            self.wf(),
    {
        assert forall|i: int|
            0 <= i < self.users@.len() implies unique_keys(
            bucket_views((#[trigger] self.users@[i]).buckets@),
        ) by {
            if i < old_mgr.users@.len() {
                assert(self.users@[i] == old_mgr.users@[i]);
            }
        }
        assert forall|i: int, j: int|
            0 <= i < self.users@.len() && 0 <= j < self.users@[i].buckets@.len() implies keys_sorted(
            (#[trigger] self.users@[i].buckets@[j])@.objects,
        ) by {
            if i < old_mgr.users@.len() {
                assert(self.users@[i] == old_mgr.users@[i]);
            }
        }
    }

    /// Bookkeeping: replacing one user entry with a well-formed one keeps
    /// the registry well formed.
    proof fn lemma_wf_after_update(self, old_mgr: BucketManager, iu: int)
        requires
            old_mgr.wf(),
            0 <= iu < old_mgr.users@.len(),
            self.users@.len() == old_mgr.users@.len(),
            forall|i: int| 0 <= i < old_mgr.users@.len() && i != iu ==> #[trigger] self.users@[i]
                == old_mgr.users@[i],
            unique_keys(user_views(self.users@)),
            unique_keys(bucket_views(self.users@[iu].buckets@)),
            forall|j: int|
                0 <= j < self.users@[iu].buckets@.len() ==> keys_sorted(
                    (#[trigger] self.users@[iu].buckets@[j])@.objects,
                ),
        ensures
            self.wf(),
    {
        assert forall|i: int|
            0 <= i < self.users@.len() implies unique_keys(
            bucket_views((#[trigger] self.users@[i]).buckets@),
        ) by {
            if i != iu {
                assert(self.users@[i] == old_mgr.users@[i]);
            }
        }
        assert forall|i: int, j: int|
            0 <= i < self.users@.len() && 0 <= j < self.users@[i].buckets@.len() implies keys_sorted(
            (#[trigger] self.users@[i].buckets@[j])@.objects,
        ) by {
            if i != iu {
                assert(self.users@[i] == old_mgr.users@[i]);
            }
        }
    }

    /// Delete a bucket from the user's namespace; a missing bucket is
    /// refused, and so is one that still holds objects.
    pub fn delete_bucket_for_user(&mut self, user: &str, bucket: &str) -> (r: Result<
        (),
        CoreError,
    >)
        requires
            old(self).wf(),
        ensures
            final(self).wf(),
            r is Ok <==> (old(self).spec_bucket(user@, bucket@) matches Some(bv)
                && bv.objects.len() == 0),
            old(self).spec_bucket(user@, bucket@) is None ==> (r matches Err(
                CoreError::BucketNotFound(_),
            ) && *final(self) == *old(self)),
            (old(self).spec_bucket(user@, bucket@) matches Some(bv) && bv.objects.len() > 0) ==> (
            r matches Err(CoreError::PreconditionFailed(_)) && *final(self) == *old(self)),
            r is Ok ==> final(self).spec_bucket(user@, bucket@) is None,
            forall|u: Seq<char>, b: Seq<char>| !(u == user@ && b == bucket@) ==> #[trigger] final(self).spec_bucket(u, b) == old(self).spec_bucket(u, b),
    {
        let iu = match find_user(&self.users, user) {
            Some(i) => i,
            None => {
                return Err(CoreError::BucketNotFound(bucket.to_owned()));
            },
        };
        let ib = match find_bucket_in(&self.users[iu].buckets, bucket) {
            Some(i) => i,
            None => {
                return Err(CoreError::BucketNotFound(bucket.to_owned()));
            },
        };
        if self.users[iu].buckets[ib].objects.len() > 0 {
            return Err(CoreError::PreconditionFailed(bucket.to_owned()));
        }
        let ghost olds_u = user_views(self.users@);
        let ghost old_bviews = bucket_views(self.users@[iu as int].buckets@);
        let mut ue = self.users.remove(iu);
        ue.buckets.remove(ib);
        self.users.insert(iu, ue);
        proof {
            let new_bviews = bucket_views(self.users@[iu as int].buckets@);
            assert(new_bviews =~= old_bviews.remove(ib as int));
            lemma_get_remove(old_bviews, ib as int);
            assert(user_views(self.users@) =~= olds_u.update(iu as int, (user@, new_bviews)));
            lemma_get_update(olds_u, iu as int, new_bviews);
            assert forall|j: int|
                0 <= j < self.users@[iu as int].buckets@.len() implies keys_sorted(
                (#[trigger] self.users@[iu as int].buckets@[j])@.objects,
            ) by {
                let j0 = if j < ib {
                    j
                } else {
                    j + 1
                };
                assert(self.users@[iu as int].buckets@[j] == old(
                    self,
                ).users@[iu as int].buckets@[j0]);
            }
            self.lemma_wf_after_update(*old(self), iu as int);
        }
        Ok(())
    }
}


/// Find an object entry by key.
fn find_key_in(objects: &Vec<(String, ObjectMetadata)>, key: &str) -> (r: Option<usize>)
    ensures
        r matches Some(i) ==> i < objects@.len() && spec_index_of(
            crate::xml::object_pairs_view(objects@),
            key@,
        ) == i && crate::xml::object_pairs_view(objects@)[i as int].0 == key@,
        r is None ==> spec_index_of(crate::xml::object_pairs_view(objects@), key@) < 0,
{
    let n = objects.len();
    let mut i: usize = 0;
    while i < n
        invariant
            i <= n,
            n == objects@.len(),
            forall|j: int| 0 <= j < i ==> #[trigger] crate::xml::object_pairs_view(objects@)[j].0
                != key@,
        decreases n - i,
    {
        if str_eq(objects[i].0.as_str(), key) {
            proof {
                lemma_index_of(crate::xml::object_pairs_view(objects@), key@, i as int);
            }
            return Some(i);
        }
        i = i + 1;
    }
    proof {
        lemma_index_of(crate::xml::object_pairs_view(objects@), key@, n as int);
    }
    None
}

/// What a listing yields, together with the parameters it answered.
#[derive(Debug)]
pub struct ListObjectsResult {
    pub objects: Vec<(String, ObjectMetadata)>,
    pub common_prefixes: Vec<String>,
    pub is_truncated: bool,
    pub next_continuation_token: Option<String>,
    pub prefix: String,
    pub delimiter: Option<String>,
    pub max_keys: u64,
}

impl BucketManager {
    /// Bind object metadata to a key in a bucket, replacing what the key
    /// held before.
    pub fn put_object(
        &mut self,
        user: &str,
        bucket: &str,
        key: String,
        meta: ObjectMetadata,
    ) -> (r: Result<(), CoreError>)
        requires
            old(self).wf(),
        ensures
            final(self).wf(),
            r is Ok <==> old(self).spec_bucket(user@, bucket@) is Some,
            r is Err ==> (r matches Err(CoreError::BucketNotFound(_)) && *final(self) == *old(
                self,
            )),
            old(self).spec_bucket(user@, bucket@) matches Some(bv) ==> final(self).spec_bucket(
                user@,
                bucket@,
            ) == Some(BucketView { objects: spec_put_sorted(bv.objects, key@, meta@), ..bv }),
            r is Ok ==> final(self).spec_object(user@, bucket@, key@) == Some(meta@),
            r is Ok ==> forall|k2: Seq<char>| k2 != key@ ==> #[trigger] final(self).spec_object(
                user@,
                bucket@,
                k2,
            ) == old(self).spec_object(user@, bucket@, k2),
            forall|u: Seq<char>, b: Seq<char>| !(u == user@ && b == bucket@)
                ==> #[trigger] final(self).spec_bucket(u, b) == old(self).spec_bucket(u, b),
    {
        let iu = match find_user(&self.users, user) {
            Some(i) => i,
            None => {
                return Err(CoreError::BucketNotFound(bucket.to_owned()));
            },
        };
        let ib = match find_bucket_in(&self.users[iu].buckets, bucket) {
            Some(i) => i,
            None => {
                return Err(CoreError::BucketNotFound(bucket.to_owned()));
            },
        };
        let ghost olds_u = user_views(self.users@);
        let ghost old_bviews = bucket_views(self.users@[iu as int].buckets@);
        let ghost old_objs = crate::xml::object_pairs_view(
            self.users@[iu as int].buckets@[ib as int].objects@,
        );
        let ghost kv = key@;
        let ghost mv = meta@;
        let mut ue = self.users.remove(iu);
        let mut be = ue.buckets.remove(ib);
        let ghost bname = be.name@;
        let n = be.objects.len();
        let mut idx: usize = 0;
        while idx < n && str_lt(be.objects[idx].0.as_str(), key.as_str())
            invariant
                idx <= n,
                n == be.objects@.len(),
                key@ == kv,
                crate::xml::object_pairs_view(be.objects@) == old_objs,
                forall|j: int| 0 <= j < idx ==> spec_str_lt(#[trigger] old_objs[j].0, kv),
            decreases n - idx,
        {
            idx = idx + 1;
        }
        proof {
            lemma_put_sorted_props(old_objs, kv, mv, idx as int);
            lemma_put_sorted_split(old_objs, kv, mv, idx as int);
        }
        if idx < be.objects.len() && str_eq(be.objects[idx].0.as_str(), key.as_str()) {
            be.objects.remove(idx);
            be.objects.insert(idx, (key, meta));
            proof {
                assert(crate::xml::object_pairs_view(be.objects@) =~= old_objs.take(idx as int)
                    + seq![(kv, mv)] + old_objs.skip(idx + 1));
            }
        } else {
            be.objects.insert(idx, (key, meta));
            proof {
                assert(crate::xml::object_pairs_view(be.objects@) =~= old_objs.take(idx as int)
                    + seq![(kv, mv)] + old_objs.skip(idx as int));
            }
        }
        proof {
            assert(crate::xml::object_pairs_view(be.objects@) == spec_put_sorted(
                old_objs,
                kv,
                mv,
            ));
        }
        let ghost new_bv = be@;
        ue.buckets.insert(ib, be);
        self.users.insert(iu, ue);
        proof {
            let new_bviews = bucket_views(self.users@[iu as int].buckets@);
            assert(new_bviews =~= old_bviews.update(ib as int, (bname, new_bv)));
            assert(old_bviews[ib as int].0 == bname);
            lemma_get_update(old_bviews, ib as int, new_bv);
            assert(user_views(self.users@) =~= olds_u.update(iu as int, (user@, new_bviews)));
            lemma_get_update(olds_u, iu as int, new_bviews);
            assert(new_bv == (BucketView {
                objects: spec_put_sorted(old_bviews[ib as int].1.objects, kv, mv),
                ..old_bviews[ib as int].1
            }));
            assert forall|j: int|
                0 <= j < self.users@[iu as int].buckets@.len() implies keys_sorted(
                (#[trigger] self.users@[iu as int].buckets@[j])@.objects,
            ) by {
                if j != ib {
                    assert(self.users@[iu as int].buckets@[j] == old(
                        self,
                    ).users@[iu as int].buckets@[j]);
                }
            }
            assert forall|a: int, b: int|
                0 <= a < b < bucket_views(self.users@[iu as int].buckets@).len() implies #[trigger] bucket_views(
                self.users@[iu as int].buckets@,
            )[a].0 != #[trigger] bucket_views(self.users@[iu as int].buckets@)[b].0 by {
                assert(bucket_views(self.users@[iu as int].buckets@)[a].0 == old_bviews[a].0);
                assert(bucket_views(self.users@[iu as int].buckets@)[b].0 == old_bviews[b].0);
            }
            self.lemma_wf_after_update(*old(self), iu as int);
        }
        Ok(())
    }

    /// Fetch a copy of the metadata bound to a key, or nothing when the
    /// key is unbound; a missing bucket is refused.
    pub fn get_object(&self, user: &str, bucket: &str, key: &str) -> (r: Result<
        Option<ObjectMetadata>,
        CoreError,
    >)
        ensures
            r is Ok <==> self.spec_bucket(user@, bucket@) is Some,
            r is Err ==> r matches Err(CoreError::BucketNotFound(_)),
            r matches Ok(opt) ==> (match opt {
                Some(m) => self.spec_object(user@, bucket@, key@) == Some(m@),
                None => self.spec_object(user@, bucket@, key@) is None,
            }),
    {
        let iu = match find_user(&self.users, user) {
            Some(i) => i,
            None => {
                return Err(CoreError::BucketNotFound(bucket.to_owned()));
            },
        };
        let ib = match find_bucket_in(&self.users[iu].buckets, bucket) {
            Some(i) => i,
            None => {
                return Err(CoreError::BucketNotFound(bucket.to_owned()));
            },
        };
        let objects = &self.users[iu].buckets[ib].objects;
        match find_key_in(objects, key) {
            Some(ik) => Ok(Some(objects[ik].1.duplicate())),
            None => Ok(None),
        }
    }

    /// Unbind a key in a bucket; unbinding an unbound key is not a fault.
    pub fn delete_object(&mut self, user: &str, bucket: &str, key: &str) -> (r: Result<
        (),
        CoreError,
    >)
        requires
            old(self).wf(),
        ensures
            final(self).wf(),
            r is Ok <==> old(self).spec_bucket(user@, bucket@) is Some,
            r is Err ==> (r matches Err(CoreError::BucketNotFound(_)) && *final(self) == *old(
                self,
            )),
            r is Ok ==> final(self).spec_object(user@, bucket@, key@) is None,
            r is Ok ==> (final(self).spec_bucket(user@, bucket@) matches Some(bv) && old(
                self,
            ).spec_bucket(user@, bucket@) matches Some(bv0) && bv.created_at == bv0.created_at
                && bv.owner == bv0.owner),
            r is Ok ==> forall|k2: Seq<char>| k2 != key@ ==> #[trigger] final(self).spec_object(
                user@,
                bucket@,
                k2,
            ) == old(self).spec_object(user@, bucket@, k2),
            forall|u: Seq<char>, b: Seq<char>| !(u == user@ && b == bucket@)
                ==> #[trigger] final(self).spec_bucket(u, b) == old(self).spec_bucket(u, b),
            old(self).spec_object(user@, bucket@, key@) is None ==> *final(self) == *old(self),
    {
        let iu = match find_user(&self.users, user) {
            Some(i) => i,
            None => {
                return Err(CoreError::BucketNotFound(bucket.to_owned()));
            },
        };
        let ib = match find_bucket_in(&self.users[iu].buckets, bucket) {
            Some(i) => i,
            None => {
                return Err(CoreError::BucketNotFound(bucket.to_owned()));
            },
        };
        let ik = match find_key_in(&self.users[iu].buckets[ib].objects, key) {
            Some(i) => i,
            None => {
                return Ok(());
            },
        };
        let ghost olds_u = user_views(self.users@);
        let ghost old_bviews = bucket_views(self.users@[iu as int].buckets@);
        let ghost old_objs = crate::xml::object_pairs_view(
            self.users@[iu as int].buckets@[ib as int].objects@,
        );
        let mut ue = self.users.remove(iu);
        let mut be = ue.buckets.remove(ib);
        let ghost bname = be.name@;
        be.objects.remove(ik);
        proof {
            assert(crate::xml::object_pairs_view(be.objects@) =~= old_objs.remove(ik as int));
            lemma_sorted_unique(old_objs);
            lemma_get_remove(old_objs, ik as int);
            assert forall|i: int, j: int|
                0 <= i < j < old_objs.remove(ik as int).len() implies spec_str_lt(
                #[trigger] old_objs.remove(ik as int)[i].0,
                #[trigger] old_objs.remove(ik as int)[j].0,
            ) by {
                let i0 = if i < ik {
                    i
                } else {
                    i + 1
                };
                let j0 = if j < ik {
                    j
                } else {
                    j + 1
                };
                assert(old_objs.remove(ik as int)[i] == old_objs[i0]);
                assert(old_objs.remove(ik as int)[j] == old_objs[j0]);
            }
        }
        let ghost new_bv = be@;
        ue.buckets.insert(ib, be);
        self.users.insert(iu, ue);
        proof {
            let new_bviews = bucket_views(self.users@[iu as int].buckets@);
            assert(new_bviews =~= old_bviews.update(ib as int, (bname, new_bv)));
            assert(old_bviews[ib as int].0 == bname);
            lemma_get_update(old_bviews, ib as int, new_bv);
            assert(user_views(self.users@) =~= olds_u.update(iu as int, (user@, new_bviews)));
            lemma_get_update(olds_u, iu as int, new_bviews);
            assert forall|j: int|
                0 <= j < self.users@[iu as int].buckets@.len() implies keys_sorted(
                (#[trigger] self.users@[iu as int].buckets@[j])@.objects,
            ) by {
                if j != ib {
                    assert(self.users@[iu as int].buckets@[j] == old(
                        self,
                    ).users@[iu as int].buckets@[j]);
                }
            }
            assert forall|a: int, b: int|
                0 <= a < b < bucket_views(self.users@[iu as int].buckets@).len() implies #[trigger] bucket_views(
                self.users@[iu as int].buckets@,
            )[a].0 != #[trigger] bucket_views(self.users@[iu as int].buckets@)[b].0 by {
                assert(bucket_views(self.users@[iu as int].buckets@)[a].0 == old_bviews[a].0);
                assert(bucket_views(self.users@[iu as int].buckets@)[b].0 == old_bviews[b].0);
            }
            self.lemma_wf_after_update(*old(self), iu as int);
        }
        Ok(())
    }

    /// List a bucket: keys in order under the given prefix, strictly after
    /// the cursor, runs under a common prefix folded when a delimiter is
    /// given, truncated at `max_keys` entries.
    pub fn list_objects(
        &self,
        user: &str,
        bucket: &str,
        prefix: Option<&String>,
        delimiter: Option<&String>,
        cursor: Option<&String>,
        max_keys: u64,
    ) -> (r: Result<ListObjectsResult, CoreError>)
        ensures
            r is Ok <==> self.spec_bucket(user@, bucket@) is Some,
            r is Err ==> r matches Err(CoreError::BucketNotFound(_)),
            r matches Ok(res) ==> (self.spec_bucket(user@, bucket@) matches Some(bv) && {
                let w = spec_list_objects(
                    bv.objects,
                    match prefix {
                        Some(p) => p@,
                        None => Seq::empty(),
                    },
                    match delimiter {
                        Some(d) => Some(d@),
                        None => None,
                    },
                    match cursor {
                        Some(c) => Some(c@),
                        None => None,
                    },
                    max_keys as nat,
                );
                &&& crate::xml::object_pairs_view(res.objects@) == w.0
                &&& crate::xml::strings_view(res.common_prefixes@) == w.1
                &&& res.is_truncated == w.2
                &&& opt_view(res.next_continuation_token) == w.3
                &&& res.prefix@ == (match prefix {
                    Some(p) => p@,
                    None => Seq::<char>::empty(),
                })
                &&& opt_view(res.delimiter) == (match delimiter {
                    Some(d) => Some(d@),
                    None => None,
                })
                &&& res.max_keys == max_keys
                &&& res.objects@.len() + res.common_prefixes@.len() <= u64::MAX
            }),
    {
        let iu = match find_user(&self.users, user) {
            Some(i) => i,
            None => {
                return Err(CoreError::BucketNotFound(bucket.to_owned()));
            },
        };
        let ib = match find_bucket_in(&self.users[iu].buckets, bucket) {
            Some(i) => i,
            None => {
                return Err(CoreError::BucketNotFound(bucket.to_owned()));
            },
        };
        let objects = &self.users[iu].buckets[ib].objects;
        let ghost objs = crate::xml::object_pairs_view(objects@);
        let prefix_str: &str = match prefix {
            Some(p) => p.as_str(),
            None => "",
        };
        proof {
            reveal_strlit("");
            assert(prefix_str@ == (match prefix {
                Some(p) => p@,
                None => Seq::<char>::empty(),
            }));
        }
        let ghost pv = prefix_str@;
        let ghost dv: Option<Seq<char>> = match delimiter {
            Some(d) => Some(d@),
            None => None,
        };
        let ghost cv: Option<Seq<char>> = match cursor {
            Some(c) => Some(c@),
            None => None,
        };
        let plen = prefix_str.unicode_len();
        let n = objects.len();
        let mut acc_o: Vec<(String, ObjectMetadata)> = Vec::new();
        let mut acc_p: Vec<String> = Vec::new();
        let mut last: Option<String> = None;
        let mut i: usize = 0;
        let mut truncated = false;
        let mut token: Option<String> = None;
        proof {
            assert(crate::xml::object_pairs_view(acc_o@) =~= Seq::<
                (Seq<char>, MetadataView),
            >::empty());
            assert(crate::xml::strings_view(acc_p@) =~= Seq::<Seq<char>>::empty());
        }
        while i < n && !truncated
            invariant
                i <= n,
                n == objects@.len(),
                objs == crate::xml::object_pairs_view(objects@),
                pv == prefix_str@,
                plen == pv.len(),
                dv == (match delimiter {
                    Some(d) => Some(d@),
                    None => None,
                }),
                cv == (match cursor {
                    Some(c) => Some(c@),
                    None => None,
                }),
                acc_o@.len() + acc_p@.len() <= i,
                !truncated ==> token is None && spec_list_objects(objs, pv, dv, cv, max_keys as nat)
                    == spec_list_walk(
                    objs,
                    i as int,
                    pv,
                    dv,
                    cv,
                    max_keys as nat,
                    crate::xml::object_pairs_view(acc_o@),
                    crate::xml::strings_view(acc_p@),
                    opt_view(last),
                ),
                truncated ==> spec_list_objects(objs, pv, dv, cv, max_keys as nat) == (
                crate::xml::object_pairs_view(acc_o@),
                crate::xml::strings_view(acc_p@),
                true,
                opt_view(token),
                ),
            decreases n - i, (if truncated { 0int } else { 1int }),
        {
            let ghost ao = crate::xml::object_pairs_view(acc_o@);
            let ghost ap = crate::xml::strings_view(acc_p@);
            let ghost lv = opt_view(last);
            let k = &objects[i].0;
            let m = &objects[i].1;
            proof {
                assert(objs[i as int] == (k@, m@));
            }
            let skip = m.is_delete_marker || !has_prefix(k.as_str(), prefix_str) || (match cursor {
                Some(c) => !str_lt(c.as_str(), k.as_str()),
                None => false,
            });
            if skip {
                proof {
                    assert(m@.is_delete_marker || !spec_has_prefix(k@, pv) || (match cv {
                        Some(c) => !spec_str_lt(c, k@),
                        None => false,
                    }));
                    assert(spec_list_walk(objs, i as int, pv, dv, cv, max_keys as nat, ao, ap, lv)
                        == spec_list_walk(
                        objs,
                        i + 1,
                        pv,
                        dv,
                        cv,
                        max_keys as nat,
                        ao,
                        ap,
                        lv,
                    ));
                }
                i = i + 1;
                continue;
            }
            proof {
                assert(!(m@.is_delete_marker || !spec_has_prefix(k@, pv) || (match cv {
                    Some(c) => !spec_str_lt(c, k@),
                    None => false,
                })));
            }
            // decide whether the key folds under a common prefix
            let mut cp: Option<String> = None;
            match delimiter {
                Some(d) => {
                    if d.unicode_len() > 0 {
                        let klen = k.as_str().unicode_len();
                        let rest = k.as_str().substring_char(plen, klen);
                        match find_sub(rest, d.as_str()) {
                            Some(pos) => {
                                let cut = plen + pos + d.unicode_len();
                                cp = Some(k.as_str().substring_char(0, cut).to_owned());
                                proof {
                                    assert(rest@ == k@.skip(plen as int));
                                }
                            },
                            None => {},
                        }
                    }
                },
                None => {},
            }
            proof {
                assert(opt_view(cp) == spec_common_prefix_of(k@, pv, dv));
            }
            match cp {
                Some(p) => {
                    let dup = if acc_p.len() > 0 {
                        str_eq(acc_p[acc_p.len() - 1].as_str(), p.as_str())
                    } else {
                        false
                    };
                    if dup {
                        proof {
                            assert(ap.len() > 0 && ap.last() == p@);
                        }
                        i = i + 1;
                        continue;
                    }
                    proof {
                        if ap.len() > 0 {
                            assert(ap.last() != p@);
                        }
                    }
                    let count: u64 = (acc_o.len() as u64) + (acc_p.len() as u64);
                    if count >= max_keys {
                        truncated = true;
                        token = crate::metadata::clone_opt(&last);
                        proof {
                            assert(ao.len() + ap.len() >= max_keys as nat);
                        }
                    } else {
                    let ghost pview = p@;
                    acc_p.push(p);
                    last = Some(k.clone());
                    proof {
                        assert(crate::xml::strings_view(acc_p@) =~= ap.push(pview));
                        assert(opt_view(last) == Some(k@));
                    }
                    i = i + 1;
                    }
                },
                None => {
                    let count: u64 = (acc_o.len() as u64) + (acc_p.len() as u64);
                    if count >= max_keys {
                        truncated = true;
                        token = crate::metadata::clone_opt(&last);
                        proof {
                            assert(ao.len() + ap.len() >= max_keys as nat);
                        }
                    } else {
                        acc_o.push((k.clone(), m.duplicate()));
                        last = Some(k.clone());
                        proof {
                            assert(crate::xml::object_pairs_view(acc_o@) =~= ao.push((k@, m@)));
                            assert(opt_view(last) == Some(k@));
                        }
                        i = i + 1;
                    }
                },
            }
        }
        let out_prefix = prefix_str.to_owned();
        let out_delim = match delimiter {
            Some(d) => Some(d.clone()),
            None => None,
        };
        Ok(
            ListObjectsResult {
                objects: acc_o,
                common_prefixes: acc_p,
                is_truncated: truncated,
                next_continuation_token: token,
                prefix: out_prefix,
                delimiter: out_delim,
                max_keys,
            },
        )
    }
}

} // verus!
