//! Multipart upload management: an in-memory registry of open uploads,
//! their parts ordered by part number, and expiry.

use vstd::prelude::*;
use crate::ids::new_uuid;
use crate::metadata::{opt_view, pairs_view, clone_pairs, clone_opt};
use crate::text::str_eq;

verus! {

/// An uploaded part.
#[derive(Debug)]
pub struct UploadPart {
    pub part_number: u32,
    pub etag: String,
    pub size: u64,
    pub cid: String,
    /// UTC milliseconds since the epoch
    pub uploaded_at: u64,
    pub checksum_blake3: Option<String>,
}

pub struct PartView {
    pub part_number: u32,
    pub etag: Seq<char>,
    pub size: u64,
    pub cid: Seq<char>,
    pub uploaded_at: u64,
    pub checksum_blake3: Option<Seq<char>>,
}

impl View for UploadPart {
    type V = PartView;

    open spec fn view(&self) -> PartView {
        PartView {
            part_number: self.part_number,
            etag: self.etag@,
            size: self.size,
            cid: self.cid@,
            uploaded_at: self.uploaded_at,
            checksum_blake3: opt_view(self.checksum_blake3),
        }
    }
}

impl UploadPart {
    pub fn new(part_number: u32, etag: String, size: u64, cid: String, now_ms: u64) -> (r:
        UploadPart)
        ensures
            r@.part_number == part_number,
            r@.etag == etag@,
            r@.size == size,
            r@.cid == cid@,
            r@.uploaded_at == now_ms,
            r@.checksum_blake3 is None,
    {
        UploadPart { part_number, etag, size, cid, uploaded_at: now_ms, checksum_blake3: None }
    }

    /// An exact copy, field for field.
    pub fn duplicate(&self) -> (r: UploadPart)
        ensures
            r@ == self@,
    {
        let r = UploadPart {
            part_number: self.part_number,
            etag: self.etag.clone(),
            size: self.size,
            cid: self.cid.clone(),
            uploaded_at: self.uploaded_at,
            checksum_blake3: clone_opt(&self.checksum_blake3),
        };
        proof {
            assert(r@ =~= self@);
        }
        r
    }
}

/// The views of a part list.
pub open spec fn part_views(s: Seq<UploadPart>) -> Seq<PartView> {
    s.map_values(|p: UploadPart| p@)
}

/// Parts strictly ordered by part number.
pub open spec fn parts_sorted(s: Seq<PartView>) -> bool {
    forall|i: int, j: int|
        0 <= i < j < s.len() ==> #[trigger] s[i].part_number < #[trigger] s[j].part_number
}

/// A part list with `p` bound to its part number: inserted in order, or
/// replacing the part that carried the same number.
pub open spec fn spec_add_part(s: Seq<PartView>, p: PartView) -> Seq<PartView>
    decreases s.len(),
{
    if s.len() == 0 {
        seq![p]
    } else if s[0].part_number < p.part_number {
        seq![s[0]] + spec_add_part(s.drop_first(), p)
    } else if s[0].part_number == p.part_number {
        seq![p] + s.drop_first()
    } else {
        seq![p] + s
    }
}

/// A scan that found the insertion point determines `spec_add_part`.
proof fn lemma_add_part_split(s: Seq<PartView>, p: PartView, idx: int)
    requires
        0 <= idx <= s.len(),
        forall|j: int| 0 <= j < idx ==> #[trigger] s[j].part_number < p.part_number,
        idx < s.len() ==> s[idx].part_number >= p.part_number,
    ensures
        spec_add_part(s, p) == if idx < s.len() && s[idx].part_number == p.part_number {
            s.take(idx) + seq![p] + s.skip(idx + 1)
        } else {
            s.take(idx) + seq![p] + s.skip(idx)
        },
    decreases idx,
{
    if idx == 0 {
        if s.len() == 0 {
            assert(spec_add_part(s, p) =~= s.take(0) + seq![p] + s.skip(0));
        } else if s[0].part_number == p.part_number {
            assert(spec_add_part(s, p) =~= s.take(0) + seq![p] + s.skip(1));
        } else {
            assert(spec_add_part(s, p) =~= s.take(0) + seq![p] + s.skip(0));
        }
    } else {
        let t = s.drop_first();
        assert(forall|j: int| 0 <= j < idx - 1 ==> #[trigger] t[j].part_number < p.part_number);
        lemma_add_part_split(t, p, idx - 1);
        if idx < s.len() && s[idx].part_number == p.part_number {
            assert(seq![s[0]] + (t.take(idx - 1) + seq![p] + t.skip(idx)) =~= s.take(idx) + seq![p]
                + s.skip(idx + 1));
        } else {
            assert(seq![s[0]] + (t.take(idx - 1) + seq![p] + t.skip(idx - 1)) =~= s.take(idx)
                + seq![p] + s.skip(idx));
        }
    }
}

/// Binding a part keeps the list ordered.
proof fn lemma_add_part_sorted(s: Seq<PartView>, p: PartView, idx: int)
    requires
        parts_sorted(s),
        0 <= idx <= s.len(),
        forall|j: int| 0 <= j < idx ==> #[trigger] s[j].part_number < p.part_number,
        idx < s.len() ==> s[idx].part_number >= p.part_number,
    ensures
        parts_sorted(spec_add_part(s, p)),
{
    lemma_add_part_split(s, p, idx);
    if idx < s.len() && s[idx].part_number == p.part_number {
        let r = s.take(idx) + seq![p] + s.skip(idx + 1);
        assert forall|i: int, j: int| 0 <= i < j < r.len() implies #[trigger] r[i].part_number
            < #[trigger] r[j].part_number by {
            if i < idx {
                assert(r[i] == s[i]);
            }
            if j < idx {
                assert(r[j] == s[j]);
            }
            if i > idx {
                assert(r[i] == s[i]);
            }
            if j > idx {
                assert(r[j] == s[j]);
            }
        }
    } else {
        let r = s.take(idx) + seq![p] + s.skip(idx);
        assert forall|i: int, j: int| 0 <= i < j < r.len() implies #[trigger] r[i].part_number
            < #[trigger] r[j].part_number by {
            if i < idx {
                assert(r[i] == s[i]);
            }
            if j < idx {
                assert(r[j] == s[j]);
            }
            if i > idx {
                assert(r[i] == s[i - 1]);
            }
            if j > idx {
                assert(r[j] == s[j - 1]);
            }
        }
    }
}

/// The sum of the part sizes.
pub open spec fn spec_total_size(s: Seq<PartView>) -> nat
    decreases s.len(),
{
    if s.len() == 0 {
        0
    } else {
        spec_total_size(s.drop_last()) + s.last().size as nat
    }
}

/// One multipart upload in progress.
#[derive(Debug)]
pub struct MultipartUpload {
    pub upload_id: String,
    pub bucket: String,
    pub key: String,
    pub owner_id: String,
    /// UTC milliseconds since the epoch
    pub created_at: u64,
    pub content_type: Option<String>,
    pub metadata: Vec<(String, String)>,
    pub parts: Vec<UploadPart>,
}

pub struct UploadView {
    pub upload_id: Seq<char>,
    pub bucket: Seq<char>,
    pub key: Seq<char>,
    pub owner_id: Seq<char>,
    pub created_at: u64,
    pub content_type: Option<Seq<char>>,
    pub metadata: Seq<(Seq<char>, Seq<char>)>,
    pub parts: Seq<PartView>,
}

impl View for MultipartUpload {
    type V = UploadView;

    open spec fn view(&self) -> UploadView {
        UploadView {
            upload_id: self.upload_id@,
            bucket: self.bucket@,
            key: self.key@,
            owner_id: self.owner_id@,
            created_at: self.created_at,
            content_type: opt_view(self.content_type),
            metadata: pairs_view(self.metadata@),
            parts: part_views(self.parts@),
        }
    }
}

impl MultipartUpload {
    /// Parts stay strictly ordered by part number.
    pub open spec fn wf(self) -> bool {
        parts_sorted(self@.parts)
    }

    /// A fresh upload with a random id.
    pub fn new(bucket: String, key: String, owner_id: String, now_ms: u64) -> (r: MultipartUpload)
        ensures
            r.wf(),
            r@.upload_id.len() == 36,
            r@.bucket == bucket@,
            r@.key == key@,
            r@.owner_id == owner_id@,
            r@.created_at == now_ms,
            r@.content_type is None,
            r@.metadata =~= Seq::<(Seq<char>, Seq<char>)>::empty(),
            r@.parts =~= Seq::<PartView>::empty(),
    {
        let r = MultipartUpload {
            upload_id: new_uuid(),
            bucket,
            key,
            owner_id,
            created_at: now_ms,
            content_type: None,
            metadata: Vec::new(),
            parts: Vec::new(),
        };
        proof {
            assert(part_views(r.parts@) =~= Seq::<PartView>::empty());
            assert(pairs_view(r.metadata@) =~= Seq::<(Seq<char>, Seq<char>)>::empty());
        }
        r
    }

    /// Bind a part to its part number, replacing any previous part under
    /// the same number.
    pub fn add_part(&mut self, part: UploadPart)
        requires
            old(self).wf(),
        ensures
            final(self).wf(),
            final(self)@ == (UploadView {
                parts: spec_add_part(old(self)@.parts, part@),
                ..old(self)@
            }),
    {
        let ghost pv = part@;
        let ghost old_views = part_views(self.parts@);
        let n = self.parts.len();
        let mut idx: usize = 0;
        while idx < n && self.parts[idx].part_number < part.part_number
            invariant
                idx <= n,
                n == self.parts@.len(),
                self.parts@ == old(self).parts@,
                part@ == pv,
                old_views == part_views(self.parts@),
                forall|j: int| 0 <= j < idx ==> #[trigger] part_views(self.parts@)[j].part_number
                    < pv.part_number,
            decreases n - idx,
        {
            idx = idx + 1;
        }
        proof {
            lemma_add_part_split(old_views, pv, idx as int);
            lemma_add_part_sorted(old_views, pv, idx as int);
        }
        if idx < self.parts.len() && self.parts[idx].part_number == part.part_number {
            self.parts.remove(idx);
            self.parts.insert(idx, part);
            proof {
                assert(part_views(self.parts@) =~= old_views.take(idx as int) + seq![pv]
                    + old_views.skip(idx + 1));
                assert(self@ =~= (UploadView {
                    parts: spec_add_part(old(self)@.parts, pv),
                    ..old(self)@
                }));
            }
        } else {
            self.parts.insert(idx, part);
            proof {
                assert(part_views(self.parts@) =~= old_views.take(idx as int) + seq![pv]
                    + old_views.skip(idx as int));
                assert(self@ =~= (UploadView {
                    parts: spec_add_part(old(self)@.parts, pv),
                    ..old(self)@
                }));
            }
        }
    }

    /// The parts, in part-number order.
    pub fn sorted_parts(&self) -> (r: &Vec<UploadPart>)
        ensures
            r@ == self.parts@,
    {
        &self.parts
    }

    /// The sum of the part sizes, saturating at the largest `u64`.
    pub fn total_size(&self) -> (r: u64)
        ensures
            r as nat == if spec_total_size(self@.parts) <= u64::MAX as nat {
                spec_total_size(self@.parts)
            } else {
                u64::MAX as nat
            },
    {
        let n = self.parts.len();
        let mut acc: u64 = 0;
        let mut i: usize = 0;
        while i < n
            invariant
                i <= n,
                n == self.parts@.len(),
                acc as nat == if spec_total_size(part_views(self.parts@).take(i as int)) <= u64::MAX
                    as nat {
                    spec_total_size(part_views(self.parts@).take(i as int))
                } else {
                    u64::MAX as nat
                },
            decreases n - i,
        {
            let sz = self.parts[i].size;
            proof {
                assert(part_views(self.parts@).take(i + 1).drop_last() =~= part_views(
                    self.parts@,
                ).take(i as int));
                assert(part_views(self.parts@).take(i + 1).last() == part_views(
                    self.parts@,
                )[i as int]);
            }
            if acc > u64::MAX - sz {
                acc = u64::MAX;
            } else {
                acc = acc + sz;
            }
            i = i + 1;
        }
        proof {
            assert(part_views(self.parts@).take(n as int) =~= part_views(self.parts@));
        }
        acc
    }

    /// An exact copy, field for field.
    pub fn duplicate(&self) -> (r: MultipartUpload)
        ensures
            r@ == self@,
    {
        let mut parts: Vec<UploadPart> = Vec::new();
        let n = self.parts.len();
        let mut i: usize = 0;
        while i < n
            invariant
                i <= n,
                n == self.parts@.len(),
                parts@.len() == i,
                forall|j: int| 0 <= j < i ==> #[trigger] parts@[j]@ == self.parts@[j]@,
            decreases n - i,
        {
            parts.push(self.parts[i].duplicate());
            i = i + 1;
        }
        let r = MultipartUpload {
            upload_id: self.upload_id.clone(),
            bucket: self.bucket.clone(),
            key: self.key.clone(),
            owner_id: self.owner_id.clone(),
            created_at: self.created_at,
            content_type: clone_opt(&self.content_type),
            metadata: clone_pairs(&self.metadata),
            parts,
        };
        proof {
            assert(part_views(r.parts@) =~= part_views(self.parts@));
            assert(r@ =~= self@);
        }
        r
    }
}

/// The views of an upload list.
pub open spec fn upload_views(s: Seq<MultipartUpload>) -> Seq<UploadView> {
    s.map_values(|u: MultipartUpload| u@)
}

/// First index whose upload carries `id`, or -1.
pub open spec fn spec_find_id(s: Seq<UploadView>, id: Seq<char>) -> int
    decreases s.len(),
{
    if s.len() == 0 {
        -1
    } else if s[0].upload_id == id {
        0
    } else {
        let r = spec_find_id(s.drop_first(), id);
        if r < 0 {
            -1
        } else {
            r + 1
        }
    }
}

/// A scan that saw no match before `i`, and a match at `i` unless it ran
/// out, determines `spec_find_id`.
proof fn lemma_find_id(s: Seq<UploadView>, id: Seq<char>, i: int)
    requires
        0 <= i <= s.len(),
        forall|j: int| 0 <= j < i ==> #[trigger] s[j].upload_id != id,
        i < s.len() ==> s[i].upload_id == id,
    ensures
        spec_find_id(s, id) == if i == s.len() {
            -1int
        } else {
            i
        },
    decreases i,
{
    if i > 0 {
        lemma_find_id(s.drop_first(), id, i - 1);
    }
}

/// When no index matches, no element carries the id.
proof fn lemma_find_id_none_means_absent(s: Seq<UploadView>, id: Seq<char>)
    requires
        spec_find_id(s, id) < 0,
    ensures
        forall|j: int| 0 <= j < s.len() ==> #[trigger] s[j].upload_id != id,
    decreases s.len(),
{
    if s.len() > 0 {
        lemma_find_id_none_means_absent(s.drop_first(), id);
        assert forall|j: int| 0 <= j < s.len() implies #[trigger] s[j].upload_id != id by {
            if j > 0 {
                assert(s.drop_first()[j - 1] == s[j]);
            }
        }
    }
}

/// A found index carries the id, and nothing before it does.
proof fn lemma_find_id_found(s: Seq<UploadView>, id: Seq<char>)
    requires
        spec_find_id(s, id) >= 0,
    ensures
        spec_find_id(s, id) < s.len(),
        s[spec_find_id(s, id)].upload_id == id,
        forall|j: int| 0 <= j < spec_find_id(s, id) ==> #[trigger] s[j].upload_id != id,
    decreases s.len(),
{
    if s.len() > 0 && s[0].upload_id != id {
        lemma_find_id_found(s.drop_first(), id);
        assert forall|j: int|
            0 <= j < spec_find_id(s, id) implies #[trigger] s[j].upload_id != id by {
            if j > 0 {
                assert(s.drop_first()[j - 1] == s[j]);
            }
        }
    }
}

/// The in-memory registry of open multipart uploads.
#[derive(Debug)]
pub struct MultipartManager {
    pub uploads: Vec<MultipartUpload>,
    pub expiry_secs: u64,
}

impl MultipartManager {
    /// Upload ids are unique and every upload keeps its parts ordered.
    pub open spec fn wf(self) -> bool {
        &&& forall|i: int, j: int|
            0 <= i < j < self.uploads@.len() ==> #[trigger] self.uploads@[i]@.upload_id
                != #[trigger] self.uploads@[j]@.upload_id
        &&& forall|i: int| 0 <= i < self.uploads@.len() ==> (#[trigger] self.uploads@[i]).wf()
    }

    /// The upload registered under `id`.
    pub open spec fn spec_get(self, id: Seq<char>) -> Option<UploadView> {
        let i = spec_find_id(upload_views(self.uploads@), id);
        if i < 0 {
            None
        } else {
            Some(upload_views(self.uploads@)[i])
        }
    }

    pub fn new(expiry_secs: u64) -> (r: MultipartManager)
        ensures
            r.wf(),
            r.uploads@.len() == 0,
            r.expiry_secs == expiry_secs,
    {
        MultipartManager { uploads: Vec::new(), expiry_secs }
    }

    /// Find the index of the upload registered under `id`.
    fn find_index(&self, upload_id: &str) -> (r: Option<usize>)
        ensures
            r matches Some(i) ==> i < self.uploads@.len() && spec_find_id(
                upload_views(self.uploads@),
                upload_id@,
            ) == i && upload_views(self.uploads@)[i as int].upload_id == upload_id@,
            r is None ==> spec_find_id(upload_views(self.uploads@), upload_id@) == -1,
    {
        let n = self.uploads.len();
        let mut i: usize = 0;
        while i < n
            invariant
                i <= n,
                n == self.uploads@.len(),
                forall|j: int| 0 <= j < i ==> #[trigger] upload_views(self.uploads@)[j].upload_id
                    != upload_id@,
            decreases n - i,
        {
            if str_eq(self.uploads[i].upload_id.as_str(), upload_id) {
                proof {
                    lemma_find_id(upload_views(self.uploads@), upload_id@, i as int);
                }
                return Some(i);
            }
            i = i + 1;
        }
        proof {
            lemma_find_id(upload_views(self.uploads@), upload_id@, n as int);
        }
        None
    }

    /// Register a fresh upload carrying the given content type and user
    /// metadata; the returned record is an exact copy of what was
    /// registered.
    pub fn create_upload_with_metadata(
        &mut self,
        bucket: String,
        key: String,
        owner_id: String,
        content_type: Option<String>,
        metadata: Vec<(String, String)>,
        now_ms: u64,
    ) -> (r: MultipartUpload)
        requires
            old(self).wf(),
        ensures
            final(self).wf(),
            r.wf(),
            r@.bucket == bucket@,
            r@.key == key@,
            r@.owner_id == owner_id@,
            r@.created_at == now_ms,
            r@.content_type == opt_view(content_type),
            r@.metadata == pairs_view(metadata@),
            r@.parts =~= Seq::<PartView>::empty(),
            final(self).spec_get(r@.upload_id) == Some(r@),
            forall|id: Seq<char>| id != r@.upload_id ==> #[trigger] final(self).spec_get(id)
                == old(self).spec_get(id),
            final(self).expiry_secs == old(self).expiry_secs,
    {
        let ghost ctv = opt_view(content_type);
        let ghost mdv = pairs_view(metadata@);
        let mut upload = MultipartUpload::new(bucket, key, owner_id, now_ms);
        upload.content_type = content_type;
        upload.metadata = metadata;
        proof {
            assert(upload.wf());
        }
        // a random id may, in principle, collide: drop any holder of the
        // same id first, so that ids stay unique
        match self.find_index(upload.upload_id.as_str()) {
            Some(i) => {
                self.uploads.remove(i);
                proof {
                    lemma_remove_spec_get(old(self).uploads@, *self, i as int, upload@.upload_id);
                }
            },
            None => {},
        }
        let r = upload.duplicate();
        self.register(upload);
        r
    }

    /// Append an upload whose id is not yet registered.
    fn register(&mut self, upload: MultipartUpload)
        requires
            old(self).wf(),
            upload.wf(),
            spec_find_id(upload_views(old(self).uploads@), upload@.upload_id) < 0,
        ensures
            final(self).wf(),
            final(self).spec_get(upload@.upload_id) == Some(upload@),
            forall|id: Seq<char>| id != upload@.upload_id ==> #[trigger] final(self).spec_get(id)
                == old(self).spec_get(id),
            final(self).expiry_secs == old(self).expiry_secs,
    {
        proof {
            lemma_find_id_none_means_absent(upload_views(self.uploads@), upload@.upload_id);
        }
        let ghost uv = upload@;
        let ghost olds = upload_views(self.uploads@);
        self.uploads.push(upload);
        proof {
            let news = upload_views(self.uploads@);
            assert(news =~= olds.push(uv));
            assert forall|j: int| 0 <= j < olds.len() implies #[trigger] news[j].upload_id
                != uv.upload_id by {
                assert(news[j] == olds[j]);
            }
            lemma_find_id(news, uv.upload_id, olds.len() as int);
            assert(self.spec_get(uv.upload_id) == Some(uv));
            assert forall|id: Seq<char>| id != uv.upload_id implies #[trigger] self.spec_get(id)
                == old(self).spec_get(id) by {
                let k = spec_find_id(olds, id);
                if k >= 0 {
                    lemma_find_id_found(olds, id);
                    lemma_find_id(news, id, k);
                } else {
                    lemma_find_id_none_means_absent(olds, id);
                    lemma_find_id(news, id, news.len() as int);
                }
            }
            assert forall|a: int, b: int|
                0 <= a < b < self.uploads@.len() implies #[trigger] self.uploads@[a]@.upload_id
                != #[trigger] self.uploads@[b]@.upload_id by {
                if b < olds.len() {
                } else {
                    assert(self.uploads@[b]@ == uv);
                    assert(self.uploads@[a]@.upload_id == olds[a].upload_id);
                }
            }
            assert forall|a: int| 0 <= a < self.uploads@.len() implies (
            #[trigger] self.uploads@[a]).wf() by {
                if a < olds.len() {
                    assert(self.uploads@[a] == old(self).uploads@[a]);
                }
            }
        }
    }

    /// A copy of the upload registered under `id`.
    pub fn get_upload(&self, upload_id: &str) -> (r: Option<MultipartUpload>)
        ensures
            match r {
                Some(u) => self.spec_get(upload_id@) == Some(u@),
                None => self.spec_get(upload_id@) is None,
            },
    {
        match self.find_index(upload_id) {
            Some(i) => Some(self.uploads[i].duplicate()),
            None => None,
        }
    }

    /// Bind a part to the upload registered under `id`; nothing happens
    /// when the id is unknown.
    pub fn add_part(&mut self, upload_id: &str, part: UploadPart) -> (r: Option<()>)
        requires
            old(self).wf(),
        ensures
            final(self).wf(),
            r is Some <==> old(self).spec_get(upload_id@) is Some,
            old(self).spec_get(upload_id@) matches Some(u) ==> final(self).spec_get(upload_id@)
                == Some(UploadView { parts: spec_add_part(u.parts, part@), ..u }),
            forall|id: Seq<char>| id != upload_id@ ==> #[trigger] final(self).spec_get(id) == old(
                self,
            ).spec_get(id),
            old(self).spec_get(upload_id@) is None ==> *final(self) == *old(self),
            final(self).expiry_secs == old(self).expiry_secs,
    {
        let i = match self.find_index(upload_id) {
            Some(i) => i,
            None => {
                return None;
            },
        };
        let ghost olds = upload_views(self.uploads@);
        let ghost u = olds[i as int];
        let mut upload = self.uploads.remove(i);
        upload.add_part(part);
        let ghost nv = upload@;
        self.uploads.insert(i, upload);
        proof {
            let news = upload_views(self.uploads@);
            assert(news =~= olds.update(i as int, nv));
            lemma_find_id_found(olds, upload_id@);
            lemma_find_id(news, upload_id@, i as int);
            assert(self.spec_get(upload_id@) == Some(nv));
            assert forall|id: Seq<char>| id != upload_id@ implies #[trigger] self.spec_get(id)
                == old(self).spec_get(id) by {
                lemma_update_spec_get_other(olds, news, i as int, upload_id@, id);
            }
            assert forall|a: int, b: int|
                0 <= a < b < self.uploads@.len() implies #[trigger] self.uploads@[a]@.upload_id
                != #[trigger] self.uploads@[b]@.upload_id by {
                assert(news[a].upload_id == olds[a].upload_id);
                assert(news[b].upload_id == olds[b].upload_id);
            }
        }
        Some(())
    }

    /// Remove and yield the upload registered under `id`: completion takes
    /// it out of the registry atomically.
    pub fn complete_upload(&mut self, upload_id: &str) -> (r: Option<MultipartUpload>)
        requires
            old(self).wf(),
        ensures
            final(self).wf(),
            match r {
                Some(u) => old(self).spec_get(upload_id@) == Some(u@) && u.wf(),
                None => old(self).spec_get(upload_id@) is None && *final(self) == *old(self),
            },
            final(self).spec_get(upload_id@) is None,
            forall|id: Seq<char>| id != upload_id@ ==> #[trigger] final(self).spec_get(id) == old(
                self,
            ).spec_get(id),
            final(self).expiry_secs == old(self).expiry_secs,
    {
        let i = match self.find_index(upload_id) {
            Some(i) => i,
            None => {
                return None;
            },
        };
        let u = self.uploads.remove(i);
        proof {
            lemma_remove_spec_get(old(self).uploads@, *self, i as int, upload_id@);
        }
        Some(u)
    }

    /// Remove and discard the upload registered under `id`.
    pub fn abort_upload(&mut self, upload_id: &str) -> (r: Option<MultipartUpload>)
        requires
            old(self).wf(),
        ensures
            final(self).wf(),
            match r {
                Some(u) => old(self).spec_get(upload_id@) == Some(u@) && u.wf(),
                None => old(self).spec_get(upload_id@) is None && *final(self) == *old(self),
            },
            final(self).spec_get(upload_id@) is None,
            forall|id: Seq<char>| id != upload_id@ ==> #[trigger] final(self).spec_get(id) == old(
                self,
            ).spec_get(id),
            final(self).expiry_secs == old(self).expiry_secs,
    {
        self.complete_upload(upload_id)
    }

    /// Copies of the uploads addressed to `bucket` in the owner's
    /// namespace, in registration order: every lookup is scoped by the
    /// hashed user id.
    pub fn list_uploads(&self, bucket: &str, owner_id: &str) -> (r: Vec<MultipartUpload>)
        ensures
            upload_views(r@) == upload_views(self.uploads@).filter(
                |u: UploadView| u.bucket == bucket@ && u.owner_id == owner_id@,
            ),
    {
        let mut out: Vec<MultipartUpload> = Vec::new();
        let n = self.uploads.len();
        let mut i: usize = 0;
        proof {
            reveal(Seq::filter);
            assert(upload_views(self.uploads@).take(0) =~= Seq::<UploadView>::empty());
        }
        while i < n
            invariant
                i <= n,
                n == self.uploads@.len(),
                upload_views(out@) == upload_views(self.uploads@).take(i as int).filter(
                    |u: UploadView| u.bucket == bucket@ && u.owner_id == owner_id@,
                ),
            decreases n - i,
        {
            let ghost views = upload_views(self.uploads@);
            let ghost prev = upload_views(out@);
            proof {
                reveal(Seq::filter);
                assert(views.take(i + 1).drop_last() =~= views.take(i as int));
                assert(views.take(i + 1).last() == views[i as int]);
            }
            if str_eq(self.uploads[i].bucket.as_str(), bucket) && str_eq(
                self.uploads[i].owner_id.as_str(),
                owner_id,
            ) {
                out.push(self.uploads[i].duplicate());
                proof {
                    assert(upload_views(out@) =~= prev.push(views[i as int]));
                }
            }
            i = i + 1;
        }
        proof {
            assert(upload_views(self.uploads@).take(n as int) =~= upload_views(self.uploads@));
        }
        out
    }

    /// Copies of the parts of the upload registered under `id`, in
    /// part-number order.
    pub fn list_parts(&self, upload_id: &str) -> (r: Option<Vec<UploadPart>>)
        ensures
            match r {
                Some(parts) => self.spec_get(upload_id@) matches Some(u) && part_views(parts@)
                    == u.parts,
                None => self.spec_get(upload_id@) is None,
            },
    {
        let i = match self.find_index(upload_id) {
            Some(i) => i,
            None => {
                return None;
            },
        };
        let src = &self.uploads[i];
        let n = src.parts.len();
        let mut out: Vec<UploadPart> = Vec::new();
        let mut j: usize = 0;
        while j < n
            invariant
                j <= n,
                n == src.parts@.len(),
                out@.len() == j,
                forall|k: int| 0 <= k < j ==> #[trigger] out@[k]@ == src.parts@[k]@,
            decreases n - j,
        {
            out.push(src.parts[j].duplicate());
            j = j + 1;
        }
        proof {
            assert(part_views(out@) =~= part_views(src.parts@));
            assert(upload_views(self.uploads@)[i as int] == self.uploads@[i as int]@);
            assert(self.spec_get(upload_id@) == Some(upload_views(self.uploads@)[i as int]));
            assert(part_views(out@) == upload_views(self.uploads@)[i as int].parts);
        }
        Some(out)
    }

    /// Drop every upload created before the expiry horizon; yields how many
    /// were dropped.
    pub fn cleanup_expired(&mut self, now_ms: u64) -> (r: usize)
        requires
            old(self).wf(),
        ensures
            final(self).wf(),
            upload_views(final(self).uploads@) == upload_views(old(self).uploads@).filter(
                |u: UploadView| u.created_at >= spec_expiry_threshold(
                    now_ms,
                    old(self).expiry_secs,
                ),
            ),
            r + final(self).uploads@.len() == old(self).uploads@.len(),
            final(self).expiry_secs == old(self).expiry_secs,
    {
        let threshold: u64 = expiry_threshold(now_ms, self.expiry_secs);
        let mut kept: Vec<MultipartUpload> = Vec::new();
        let mut dropped: usize = 0;
        let n = self.uploads.len();
        let mut i: usize = 0;
        proof {
            reveal(Seq::filter);
            assert(upload_views(self.uploads@).take(0) =~= Seq::<UploadView>::empty());
        }
        while i < n
            invariant
                i <= n,
                n == self.uploads@.len(),
                self.uploads@ == old(self).uploads@,
                self.expiry_secs == old(self).expiry_secs,
                old(self).wf(),
                threshold == spec_expiry_threshold(now_ms, old(self).expiry_secs),
                upload_views(kept@) == upload_views(self.uploads@).take(i as int).filter(
                    |u: UploadView| u.created_at >= spec_expiry_threshold(
                        now_ms,
                        old(self).expiry_secs,
                    ),
                ),
                kept@.len() + dropped == i,
                forall|k: int| 0 <= k < kept@.len() ==> (#[trigger] kept@[k]).wf(),
                forall|k: int| 0 <= k < kept@.len() ==> exists|j: int|
                    0 <= j < i && #[trigger] kept@[k]@ == self.uploads@[j]@,
                forall|a: int, b: int|
                    0 <= a < b < kept@.len() ==> #[trigger] kept@[a]@.upload_id
                        != #[trigger] kept@[b]@.upload_id,
            decreases n - i,
        {
            let ghost views = upload_views(self.uploads@);
            let ghost prev = upload_views(kept@);
            proof {
                reveal(Seq::filter);
                assert(views.take(i + 1).drop_last() =~= views.take(i as int));
                assert(views.take(i + 1).last() == views[i as int]);
            }
            if self.uploads[i].created_at >= threshold {
                let u = self.uploads[i].duplicate();
                proof {
                    assert(u.wf());
                }
                let ghost old_kept = kept@;
                kept.push(u);
                proof {
                    assert(upload_views(kept@) =~= prev.push(views[i as int]));
                    assert(kept@[old_kept.len() as int]@ == self.uploads@[i as int]@);
                    assert forall|k: int| 0 <= k < kept@.len() implies exists|j: int|
                        0 <= j < i + 1 && #[trigger] kept@[k]@ == self.uploads@[j]@ by {
                        if k < old_kept.len() {
                            assert(kept@[k] == old_kept[k]);
                            let j0 = choose|j0: int|
                                0 <= j0 < i && #[trigger] old_kept[k]@ == self.uploads@[j0]@;
                            assert(0 <= j0 < i + 1 && kept@[k]@ == self.uploads@[j0]@);
                        } else {
                            assert(kept@[k]@ == self.uploads@[i as int]@);
                        }
                    }
                    assert forall|a: int, b: int|
                        0 <= a < b < kept@.len() implies #[trigger] kept@[a]@.upload_id
                        != #[trigger] kept@[b]@.upload_id by {
                        if b < old_kept.len() {
                            assert(kept@[a] == old_kept[a]);
                            assert(kept@[b] == old_kept[b]);
                        } else {
                            assert(kept@[b]@ == self.uploads@[i as int]@);
                            assert(kept@[a] == old_kept[a]);
                            let j0 = choose|j0: int|
                                0 <= j0 < i && #[trigger] old_kept[a]@ == self.uploads@[j0]@;
                            assert(self.uploads@[j0]@.upload_id
                                != self.uploads@[i as int]@.upload_id);
                        }
                    }
                }
            } else {
                dropped = dropped + 1;
            }
            i = i + 1;
        }
        proof {
            assert(upload_views(self.uploads@).take(n as int) =~= upload_views(self.uploads@));
        }
        self.uploads = kept;
        dropped
    }
}

/// The expiry horizon: uploads created before it are dropped.
pub open spec fn spec_expiry_threshold(now_ms: u64, expiry_secs: u64) -> u64 {
    if expiry_secs * 1000 > now_ms {
        0u64
    } else {
        (now_ms - expiry_secs * 1000) as u64
    }
}

fn expiry_threshold(now_ms: u64, expiry_secs: u64) -> (r: u64)
    ensures
        r == spec_expiry_threshold(now_ms, expiry_secs),
{
    if expiry_secs > now_ms / 1000 {
        proof {
            assert(expiry_secs * 1000 > now_ms) by (nonlinear_arith)
                requires
                    expiry_secs > now_ms / 1000,
            ;
        }
        0
    } else {
        proof {
            assert(expiry_secs * 1000 <= now_ms) by (nonlinear_arith)
                requires
                    expiry_secs <= now_ms / 1000,
            ;
        }
        now_ms - expiry_secs * 1000
    }
}

/// Removing the unique holder of `rid` makes it absent and leaves every
/// other id bound as before.
proof fn lemma_remove_spec_get(
    olds_exec: Seq<MultipartUpload>,
    new_mgr: MultipartManager,
    i: int,
    rid: Seq<char>,
)
    requires
        0 <= i < olds_exec.len(),
        forall|a: int, b: int|
            0 <= a < b < olds_exec.len() ==> #[trigger] olds_exec[a]@.upload_id
                != #[trigger] olds_exec[b]@.upload_id,
        forall|a: int| 0 <= a < olds_exec.len() ==> (#[trigger] olds_exec[a]).wf(),
        upload_views(olds_exec)[i].upload_id == rid,
        spec_find_id(upload_views(olds_exec), rid) == i,
        new_mgr.uploads@ == olds_exec.remove(i),
    ensures
        new_mgr.wf(),
        new_mgr.spec_get(rid) is None,
        forall|id: Seq<char>|
            id != rid ==> #[trigger] new_mgr.spec_get(id) == (if spec_find_id(
                upload_views(olds_exec),
                id,
            ) < 0 {
                None
            } else {
                Some(upload_views(olds_exec)[spec_find_id(upload_views(olds_exec), id)])
            }),
{
    let olds = upload_views(olds_exec);
    let news = upload_views(new_mgr.uploads@);
    assert(news =~= olds.remove(i));
    assert forall|a: int, b: int|
        0 <= a < b < new_mgr.uploads@.len() implies #[trigger] new_mgr.uploads@[a]@.upload_id
        != #[trigger] new_mgr.uploads@[b]@.upload_id by {
        let a0 = if a < i {
            a
        } else {
            a + 1
        };
        let b0 = if b < i {
            b
        } else {
            b + 1
        };
        assert(new_mgr.uploads@[a]@ == olds_exec[a0]@);
        assert(new_mgr.uploads@[b]@ == olds_exec[b0]@);
    }
    assert forall|a: int| 0 <= a < new_mgr.uploads@.len() implies (
    #[trigger] new_mgr.uploads@[a]).wf() by {
        let a0 = if a < i {
            a
        } else {
            a + 1
        };
        assert(new_mgr.uploads@[a]@ == olds_exec[a0]@);
        assert(olds_exec[a0].wf());
    }
    assert forall|j: int| 0 <= j < news.len() implies #[trigger] news[j].upload_id != rid by {
        let j0 = if j < i {
            j
        } else {
            j + 1
        };
        assert(news[j] == olds[j0]);
        assert(olds[j0].upload_id != olds[i].upload_id);
    }
    lemma_find_id(news, rid, news.len() as int);
    assert forall|id: Seq<char>|
        id != rid implies #[trigger] new_mgr.spec_get(id) == (if spec_find_id(olds, id) < 0 {
        None
    } else {
        Some(olds[spec_find_id(olds, id)])
    }) by {
        let k = spec_find_id(olds, id);
        if k < 0 {
            lemma_find_id_none_means_absent(olds, id);
            assert forall|j: int| 0 <= j < news.len() implies #[trigger] news[j].upload_id
                != id by {
                let j0 = if j < i {
                    j
                } else {
                    j + 1
                };
                assert(news[j] == olds[j0]);
            }
            lemma_find_id(news, id, news.len() as int);
        } else {
            lemma_find_id_found(olds, id);
            assert(k != i);
            let k2 = if k < i {
                k
            } else {
                k - 1
            };
            assert(news[k2] == olds[k]);
            assert forall|j: int| 0 <= j < k2 implies #[trigger] news[j].upload_id != id by {
                let j0 = if j < i {
                    j
                } else {
                    j + 1
                };
                assert(news[j] == olds[j0]);
                if j0 != k {
                    assert(olds[j0].upload_id != olds[k].upload_id);
                }
            }
            lemma_find_id(news, id, k2);
        }
    }
}

/// Updating one element in place, keeping its id, leaves every other id
/// bound as before.
proof fn lemma_update_spec_get_other(
    olds: Seq<UploadView>,
    news: Seq<UploadView>,
    i: int,
    uid: Seq<char>,
    id: Seq<char>,
)
    requires
        0 <= i < olds.len(),
        news.len() == olds.len(),
        olds[i].upload_id == uid,
        news[i].upload_id == uid,
        forall|j: int| 0 <= j < olds.len() && j != i ==> #[trigger] news[j] == olds[j],
        id != uid,
    ensures
        spec_find_id(news, id) == spec_find_id(olds, id),
        spec_find_id(olds, id) >= 0 ==> news[spec_find_id(olds, id)] == olds[spec_find_id(
            olds,
            id,
        )],
    decreases olds.len(),
{
    let k = spec_find_id(olds, id);
    if k < 0 {
        lemma_find_id_none_means_absent(olds, id);
        assert forall|j: int| 0 <= j < news.len() implies #[trigger] news[j].upload_id != id by {
            if j == i {
            } else {
                assert(news[j] == olds[j]);
            }
        }
        lemma_find_id(news, id, news.len() as int);
    } else {
        lemma_find_id_found(olds, id);
        assert(k != i);
        assert forall|j: int| 0 <= j < k implies #[trigger] news[j].upload_id != id by {
            if j == i {
            } else {
                assert(news[j] == olds[j]);
            }
        }
        assert(news[k] == olds[k]);
        lemma_find_id(news, id, k);
    }
}

} // verus!
