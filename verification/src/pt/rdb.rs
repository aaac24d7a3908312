//! Amiga rigid disk block container.
//!
//! The RDSK header is searched over the first blocks; partitions form a
//! linked list of PART blocks. The walk is capped, so a list that points
//! backward — or at itself — only repeats until the cap and never loops
//! forever.

use vstd::prelude::*;

use crate::container::{coherent_slice_child, Child};
use crate::pt::push_slice_child;
use crate::reader::{read_be32, Source};

use std::rc::Rc;

verus! {

/// End-of-list marker in the partition chain.
pub const RDB_NO_BLOCK: u32 = 0xffff_ffff;

/// How many leading blocks are searched for the RDSK header.
pub const MAX_RDB_SEARCH: u32 = 16;

/// Most partitions the chain walk may yield.
pub const MAX_RDB_PARTITIONS: u32 = 256;

/// Whether the `RDSK` signature stands at the start of block `b` of `c`,
/// whole inside the stream.
pub open spec fn rdsk_at(c: Seq<u8>, b: int) -> bool {
    &&& b * 512 + 4 <= c.len()
    &&& c[b * 512] == 0x52
    &&& c[b * 512 + 1] == 0x44
    &&& c[b * 512 + 2] == 0x53
    &&& c[b * 512 + 3] == 0x4b
}

/// The first block from `b` on, among the leading blocks that are
/// searched, that carries the RDSK signature; `None` when none does
/// before the search cap or the stream ends first.
pub open spec fn rdb_search(c: Seq<u8>, b: int) -> Option<int>
    decreases MAX_RDB_SEARCH - b,
{
    if b < 0 || b >= MAX_RDB_SEARCH {
        None
    } else if b * 512 + 4 > c.len() {
        None
    } else if rdsk_at(c, b) {
        Some(b)
    } else {
        rdb_search(c, b + 1)
    }
}

/// Whether content `c` carries a usable rigid disk block: an RDSK header
/// among the searched leading blocks, with its fields whole inside the
/// stream.
pub open spec fn rdb_header_ok(c: Seq<u8>) -> bool {
    match rdb_search(c, 0) {
        Some(b) => b * 512 + 148 <= c.len(),
        None => false,
    }
}

/// Amiga rigid disk block container.
pub struct RdbContainer;

impl RdbContainer {
    /// One slice child per linked PART block, following the list up to
    /// the cap and numbering children in list order; `None` exactly when
    /// no RDSK header is found or its fields cannot be read whole.
    pub fn children(&self, reader: Rc<Source>) -> (r: Option<Vec<Child>>)
        ensures
            r matches Some(cs) ==> cs@.len() <= MAX_RDB_PARTITIONS && forall|k: int|
                0 <= k < cs@.len() ==> #[trigger] coherent_slice_child(cs@[k], *reader),
            r matches Some(cs) ==> forall|k: int|
                0 <= k < cs@.len() ==> (#[trigger] cs@[k]).index == k,
            (*reader).plain() ==> (r is Some <==> rdb_header_ok((*reader).content())),
    {
        let src = &*reader;
        let ghost pc = src.content();
        proof {
            if src.plain() {
                src.lemma_content_len();
            }
        }
        let mut rdb_offset: u64 = 0;
        let mut found = false;
        let mut blk: u32 = 0;
        while blk < MAX_RDB_SEARCH
            invariant
                src == &*reader,
                blk <= MAX_RDB_SEARCH,
                rdb_offset <= MAX_RDB_SEARCH as u64 * 512,
                found ==> blk == MAX_RDB_SEARCH,
                src.plain() ==> {
                    &&& pc == src.content()
                    &&& pc.len() <= usize::MAX
                    &&& if found {
                        &&& rdb_search(pc, 0) == Some(rdb_offset as int / 512)
                        &&& rdb_offset as int % 512 == 0
                        &&& rdb_offset as int / 512 < MAX_RDB_SEARCH
                    } else {
                        rdb_search(pc, 0) == rdb_search(pc, blk as int)
                    }
                },
            decreases MAX_RDB_SEARCH - blk,
        {
            let offset = (blk as u64) * 512;
            let sig = src.read_at(offset, 4);
            if sig.len() != 4 {
                proof {
                    if src.plain() {
                        assert(rdb_search(pc, blk as int) is None);
                    }
                }
                blk = MAX_RDB_SEARCH;
            } else {
                let s = sig.as_slice();
                proof {
                    if src.plain() {
                        assert(s@ =~= pc.subrange(offset as int, offset + 4));
                    }
                }
                if s[0] == 0x52 && s[1] == 0x44 && s[2] == 0x53 && s[3] == 0x4b {
                    rdb_offset = offset;
                    found = true;
                    proof {
                        if src.plain() {
                            assert(rdsk_at(pc, blk as int));
                        }
                    }
                    blk = MAX_RDB_SEARCH;
                } else {
                    proof {
                        if src.plain() {
                            assert(!rdsk_at(pc, blk as int));
                        }
                    }
                    blk = blk + 1;
                }
            }
        }
        if !found {
            return None;
        }
        let block_size = match read_be32(src, rdb_offset + 16) {
            Some(v) => v as u64,
            None => {
                return None;
            },
        };
        let part_list = match read_be32(src, rdb_offset + 28) {
            Some(v) => v,
            None => {
                return None;
            },
        };
        let cyl_blks = match read_be32(src, rdb_offset + 144) {
            Some(v) => v as u64,
            None => {
                return None;
            },
        };
        let mut children: Vec<Child> = Vec::new();
        let mut part_blk = part_list;
        let mut iter: u32 = 0;
        while iter < MAX_RDB_PARTITIONS
            invariant
                iter <= MAX_RDB_PARTITIONS,
                children@.len() <= iter,
                forall|k: int|
                    0 <= k < children@.len() ==> #[trigger] coherent_slice_child(
                        children@[k],
                        *reader,
                    ),
                forall|k: int|
                    0 <= k < children@.len() ==> (#[trigger] children@[k]).index == k,
            decreases MAX_RDB_PARTITIONS - iter,
        {
            if part_blk == RDB_NO_BLOCK {
                break;
            }
            let part_offset = match (part_blk as u64).checked_mul(block_size) {
                Some(v) => v,
                None => {
                    break;
                },
            };
            let sig = src.read_at(part_offset, 4);
            if sig.len() != 4 {
                break;
            }
            let s = sig.as_slice();
            if !(s[0] == 0x50 && s[1] == 0x41 && s[2] == 0x52 && s[3] == 0x54) {
                break;
            }
            let next = match part_offset.checked_add(16) {
                Some(o) => match read_be32(src, o) {
                    Some(v) => v,
                    None => {
                        break;
                    },
                },
                None => {
                    break;
                },
            };
            let low_cyl = match part_offset.checked_add(164) {
                Some(o) => match read_be32(src, o) {
                    Some(v) => v as u64,
                    None => {
                        break;
                    },
                },
                None => {
                    break;
                },
            };
            let high_cyl = match part_offset.checked_add(168) {
                Some(o) => match read_be32(src, o) {
                    Some(v) => v as u64,
                    None => {
                        break;
                    },
                },
                None => {
                    break;
                },
            };
            if high_cyl < low_cyl {
                break;
            }
            let start = match low_cyl.checked_mul(cyl_blks) {
                Some(v) => match v.checked_mul(block_size) {
                    Some(w) => w,
                    None => {
                        break;
                    },
                },
                None => {
                    break;
                },
            };
            let length = match (high_cyl - low_cyl + 1).checked_mul(cyl_blks) {
                Some(v) => match v.checked_mul(block_size) {
                    Some(w) => w,
                    None => {
                        break;
                    },
                },
                None => {
                    break;
                },
            };
            let idx = children.len() as u32;
            push_slice_child(&mut children, &reader, idx, start, length);
            part_blk = next;
            iter = iter + 1;
        }
        Some(children)
    }
}

} // verus!
