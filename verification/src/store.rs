//! The in-memory content-addressed block store: blocks named by the
//! lowercase hexadecimal of their BLAKE3 digest, plus advisory pins.

use vstd::prelude::*;
use crate::assoc::{
    spec_index_of, spec_assoc_get, unique_keys, lemma_index_of, lemma_get_push, lemma_get_remove,
};
use crate::hashing::{blake3_hash, blake3_of, hex_encode, hex_of};
use crate::text::str_eq;

verus! {

/// The name a block gets: its BLAKE3 digest in lowercase hexadecimal.
pub open spec fn cid_of(data: Seq<u8>) -> Seq<char> {
    hex_of(blake3_of(data))
}

/// An in-memory block store.
#[derive(Debug)]
pub struct MemoryBlockStore {
    pub blocks: Vec<(String, Vec<u8>)>,
    pub pins: Vec<(String, Option<String>)>,
}

/// The view of the block list: cid characters to block bytes.
pub open spec fn block_views(s: Seq<(String, Vec<u8>)>) -> Seq<(Seq<char>, Seq<u8>)> {
    s.map_values(|p: (String, Vec<u8>)| (p.0@, p.1@))
}

impl MemoryBlockStore {
    /// Block names are unique and each names its content's digest.
    pub open spec fn wf(self) -> bool {
        &&& unique_keys(block_views(self.blocks@))
        &&& forall|i: int| 0 <= i < self.blocks@.len() ==> #[trigger] self.blocks@[i].0@ == cid_of(
            self.blocks@[i].1@,
        )
    }

    /// The bytes stored under a cid.
    pub open spec fn spec_get_block(self, cid: Seq<char>) -> Option<Seq<u8>> {
        spec_assoc_get(block_views(self.blocks@), cid)
    }

    pub fn new() -> (r: MemoryBlockStore)
        ensures
            r.wf(),
            r.blocks@.len() == 0,
            r.pins@.len() == 0,
    {
        MemoryBlockStore { blocks: Vec::new(), pins: Vec::new() }
    }

    /// Find the index of a cid in the block list.
    fn find_block(&self, cid: &str) -> (r: Option<usize>)
        ensures
            r matches Some(i) ==> i < self.blocks@.len() && spec_index_of(
                block_views(self.blocks@),
                cid@,
            ) == i && block_views(self.blocks@)[i as int].0 == cid@,
            r is None ==> spec_index_of(block_views(self.blocks@), cid@) < 0,
    {
        let n = self.blocks.len();
        let mut i: usize = 0;
        while i < n
            invariant
                i <= n,
                n == self.blocks@.len(),
                forall|j: int| 0 <= j < i ==> #[trigger] block_views(self.blocks@)[j].0 != cid@,
            decreases n - i,
        {
            if str_eq(self.blocks[i].0.as_str(), cid) {
                proof {
                    lemma_index_of(block_views(self.blocks@), cid@, i as int);
                }
                return Some(i);
            }
            i = i + 1;
        }
        proof {
            lemma_index_of(block_views(self.blocks@), cid@, n as int);
        }
        None
    }

    /// Store a block and yield its content-derived cid. Writing the same
    /// content again renames nothing: the cid is a function of the bytes.
    pub fn put_block(&mut self, data: &Vec<u8>) -> (cid: String)
        requires
            old(self).wf(),
        ensures
            final(self).wf(),
            cid@ == cid_of(data@),
            final(self).spec_get_block(cid@) == Some(data@),
            forall|c: Seq<char>| c != cid@ ==> #[trigger] final(self).spec_get_block(c) == old(
                self,
            ).spec_get_block(c),
            final(self).pins@ == old(self).pins@,
    {
        let digest = blake3_hash(data.as_slice());
        let cid = hex_encode(&digest[0..32]);
        proof {
            assert(digest@.subrange(0, 32) =~= blake3_of(data@));
            assert(cid@ == cid_of(data@));
        }
        let ghost olds = block_views(self.blocks@);
        match self.find_block(cid.as_str()) {
            Some(i) => {
                let ghost old_exec = self.blocks@;
                self.blocks.remove(i);
                proof {
                    assert(block_views(self.blocks@) =~= olds.remove(i as int));
                    lemma_get_remove(olds, i as int);
                    assert forall|j: int|
                        0 <= j < self.blocks@.len() implies #[trigger] self.blocks@[j].0@ == cid_of(
                        self.blocks@[j].1@,
                    ) by {
                        let j0 = if j < i {
                            j
                        } else {
                            j + 1
                        };
                        assert(self.blocks@[j] == old_exec[j0]);
                    }
                    if spec_index_of(block_views(self.blocks@), cid@) >= 0 {
                        crate::assoc::lemma_index_of_found(block_views(self.blocks@), cid@);
                    }
                }
            },
            None => {},
        }
        let ghost mid = block_views(self.blocks@);
        let ghost mid_exec = self.blocks@;
        proof {
            assert(spec_index_of(mid, cid@) < 0);
        }
        let ghost dv = data@;
        self.blocks.push((cid.clone(), data.clone()));
        proof {
            assert(block_views(self.blocks@) =~= mid.push((cid@, dv)));
            lemma_get_push(mid, (cid@, dv));
            assert forall|j: int| 0 <= j < self.blocks@.len() implies #[trigger] self.blocks@[j].0@
                == cid_of(self.blocks@[j].1@) by {
                if j < self.blocks@.len() - 1 {
                    assert(self.blocks@[j] == mid_exec[j]);
                } else {
                    assert(self.blocks@[j].0@ == cid@);
                    assert(self.blocks@[j].1@ == dv);
                }
            }
        }
        cid
    }

    /// Store an encoded IPLD document; it is content-addressed like any
    /// block.
    pub fn put_ipld(&mut self, encoded: &Vec<u8>) -> (cid: String)
        requires
            old(self).wf(),
        ensures
            final(self).wf(),
            cid@ == cid_of(encoded@),
            final(self).spec_get_block(cid@) == Some(encoded@),
            forall|c: Seq<char>| c != cid@ ==> #[trigger] final(self).spec_get_block(c) == old(
                self,
            ).spec_get_block(c),
            final(self).pins@ == old(self).pins@,
    {
        self.put_block(encoded)
    }

    /// Fetch the bytes stored under a cid.
    pub fn get_block(&self, cid: &str) -> (r: Option<Vec<u8>>)
        ensures
            match r {
                Some(v) => self.spec_get_block(cid@) == Some(v@),
                None => self.spec_get_block(cid@) is None,
            },
    {
        match self.find_block(cid) {
            Some(i) => {
                let mut out: Vec<u8> = Vec::new();
                out.extend_from_slice(self.blocks[i].1.as_slice());
                proof {
                    assert(out@ =~= block_views(self.blocks@)[i as int].1);
                }
                Some(out)
            },
            None => None,
        }
    }

    /// Record an advisory pin.
    pub fn pin(&mut self, cid: &str, name: Option<&String>)
        ensures
            final(self).blocks@ == old(self).blocks@,
            final(self).pins@.len() == old(self).pins@.len() + 1,
            final(self).pins@.last().0@ == cid@,
            match name {
                Some(n) => final(self).pins@.last().1 matches Some(s) && s@ == n@,
                None => final(self).pins@.last().1 is None,
            },
    {
        let entry = match name {
            Some(n) => (cid.to_owned(), Some(n.clone())),
            None => (cid.to_owned(), None),
        };
        self.pins.push(entry);
    }

    /// The memory store never survives a restart.
    pub fn is_persistent(&self) -> (r: bool)
        ensures
            r == false,
    {
        false
    }
}

} // verus!
