//! Object metadata as stored inside a bucket graph, and its owner record.

use vstd::prelude::*;

verus! {

/// The view of an optional string.
pub open spec fn opt_view(o: Option<String>) -> Option<Seq<char>> {
    match o {
        Some(s) => Some(s@),
        None => None,
    }
}

/// The views of a list of string pairs.
pub open spec fn pairs_view(s: Seq<(String, String)>) -> Seq<(Seq<char>, Seq<char>)> {
    s.map_values(|p: (String, String)| (p.0@, p.1@))
}

/// Clone a list of string pairs.
pub fn clone_pairs(s: &Vec<(String, String)>) -> (r: Vec<(String, String)>)
    ensures
        pairs_view(r@) == pairs_view(s@),
        r@.len() == s@.len(),
{
    let mut out: Vec<(String, String)> = Vec::new();
    let n = s.len();
    let mut i: usize = 0;
    while i < n
        invariant
            i <= n,
            n == s@.len(),
            out@.len() == i,
            forall|j: int| 0 <= j < i ==> #[trigger] out@[j].0@ == s@[j].0@ && out@[j].1@
                == s@[j].1@,
        decreases n - i,
    {
        out.push((s[i].0.clone(), s[i].1.clone()));
        i = i + 1;
    }
    proof {
        assert(pairs_view(out@) =~= pairs_view(s@));
    }
    out
}

/// A bucket or object owner.
#[derive(Clone, Debug)]
pub struct Owner {
    pub id: String,
    pub display_name: Option<String>,
}

pub struct OwnerView {
    pub id: Seq<char>,
    pub display_name: Option<Seq<char>>,
}

impl View for Owner {
    type V = OwnerView;

    open spec fn view(&self) -> OwnerView {
        OwnerView { id: self.id@, display_name: opt_view(self.display_name) }
    }
}

impl Owner {
    pub fn new(id: &str) -> (r: Owner)
        ensures
            r@.id == id@,
            r@.display_name is None,
    {
        Owner { id: id.to_owned(), display_name: None }
    }

    pub fn with_display_name(self, name: &str) -> (r: Owner)
        ensures
            r@.id == self@.id,
            r@.display_name == Some(name@),
    {
        Owner { id: self.id, display_name: Some(name.to_owned()) }
    }
}

/// Storage class reported in listings.
#[derive(Clone, Copy, Debug, PartialEq, Eq, Structural)]
pub enum StorageClass {
    Standard,
}

impl StorageClass {
    pub fn as_str(&self) -> (r: &'static str)
        ensures
            r@ == "STANDARD"@,
    {
        "STANDARD"
    }
}

/// Metadata of one stored object.
#[derive(Debug)]
pub struct ObjectMetadata {
    pub cid: String,
    pub size: u64,
    pub etag: String,
    /// UTC milliseconds since the epoch
    pub last_modified: u64,
    pub content_type: Option<String>,
    pub content_encoding: Option<String>,
    pub content_disposition: Option<String>,
    pub cache_control: Option<String>,
    pub version_id: Option<String>,
    pub storage_class: StorageClass,
    pub user_metadata: Vec<(String, String)>,
    pub owner_id: Option<String>,
    pub is_delete_marker: bool,
}

pub struct MetadataView {
    pub cid: Seq<char>,
    pub size: u64,
    pub etag: Seq<char>,
    pub last_modified: u64,
    pub content_type: Option<Seq<char>>,
    pub content_encoding: Option<Seq<char>>,
    pub content_disposition: Option<Seq<char>>,
    pub cache_control: Option<Seq<char>>,
    pub version_id: Option<Seq<char>>,
    pub storage_class: StorageClass,
    pub user_metadata: Seq<(Seq<char>, Seq<char>)>,
    pub owner_id: Option<Seq<char>>,
    pub is_delete_marker: bool,
}

impl View for ObjectMetadata {
    type V = MetadataView;

    open spec fn view(&self) -> MetadataView {
        MetadataView {
            cid: self.cid@,
            size: self.size,
            etag: self.etag@,
            last_modified: self.last_modified,
            content_type: opt_view(self.content_type),
            content_encoding: opt_view(self.content_encoding),
            content_disposition: opt_view(self.content_disposition),
            cache_control: opt_view(self.cache_control),
            version_id: opt_view(self.version_id),
            storage_class: self.storage_class,
            user_metadata: pairs_view(self.user_metadata@),
            owner_id: opt_view(self.owner_id),
            is_delete_marker: self.is_delete_marker,
        }
    }
}

impl ObjectMetadata {
    /// Fresh metadata for a stored block.
    pub fn new(cid: String, size: u64, etag: String, now_ms: u64) -> (r: ObjectMetadata)
        ensures
            r@.cid == cid@,
            r@.size == size,
            r@.etag == etag@,
            r@.last_modified == now_ms,
            r@.content_type is None,
            r@.content_encoding is None,
            r@.content_disposition is None,
            r@.cache_control is None,
            r@.version_id is None,
            r@.storage_class == StorageClass::Standard,
            r@.user_metadata =~= Seq::<(Seq<char>, Seq<char>)>::empty(),
            r@.owner_id is None,
            r@.is_delete_marker == false,
    {
        ObjectMetadata {
            cid,
            size,
            etag,
            last_modified: now_ms,
            content_type: None,
            content_encoding: None,
            content_disposition: None,
            cache_control: None,
            version_id: None,
            storage_class: StorageClass::Standard,
            user_metadata: Vec::new(),
            owner_id: None,
            is_delete_marker: false,
        }
    }

    pub fn with_owner(self, owner: &str) -> (r: ObjectMetadata)
        ensures
            r@ == (MetadataView { owner_id: Some(owner@), ..self@ }),
    {
        let mut m = self;
        m.owner_id = Some(owner.to_owned());
        proof {
            assert(m@ =~= (MetadataView { owner_id: Some(owner@), ..self@ }));
        }
        m
    }

    pub fn with_content_type(self, ct: String) -> (r: ObjectMetadata)
        ensures
            r@ == (MetadataView { content_type: Some(ct@), ..self@ }),
    {
        let ghost ctv = ct@;
        let mut m = self;
        m.content_type = Some(ct);
        proof {
            assert(m@ =~= (MetadataView { content_type: Some(ctv), ..self@ }));
        }
        m
    }

    pub fn with_user_metadata(self, name: &str, value: &str) -> (r: ObjectMetadata)
        ensures
            r@ == (MetadataView {
                user_metadata: self@.user_metadata.push((name@, value@)),
                ..self@
            }),
    {
        let mut m = self;
        m.user_metadata.push((name.to_owned(), value.to_owned()));
        proof {
            assert(pairs_view(m.user_metadata@) =~= self@.user_metadata.push((name@, value@)));
            assert(m@ =~= (MetadataView {
                user_metadata: self@.user_metadata.push((name@, value@)),
                ..self@
            }));
        }
        m
    }

    /// An exact copy; the derived clone says nothing, this one does.
    pub fn duplicate(&self) -> (r: ObjectMetadata)
        ensures
            r@ == self@,
    {
        let r = ObjectMetadata {
            cid: self.cid.clone(),
            size: self.size,
            etag: self.etag.clone(),
            last_modified: self.last_modified,
            content_type: clone_opt(&self.content_type),
            content_encoding: clone_opt(&self.content_encoding),
            content_disposition: clone_opt(&self.content_disposition),
            cache_control: clone_opt(&self.cache_control),
            version_id: clone_opt(&self.version_id),
            storage_class: self.storage_class,
            user_metadata: clone_pairs(&self.user_metadata),
            owner_id: clone_opt(&self.owner_id),
            is_delete_marker: self.is_delete_marker,
        };
        proof {
            assert(r@ =~= self@);
        }
        r
    }
}

/// Clone an optional string, keeping its view.
pub fn clone_opt(o: &Option<String>) -> (r: Option<String>)
    ensures
        opt_view(r) == opt_view(*o),
{
    match o {
        Some(s) => Some(s.clone()),
        None => None,
    }
}

} // verus!
