//! SGI volume header container.
//!
//! A flat array of sixteen partition entries; volume-header and
//! whole-volume entries yield no children.

use vstd::prelude::*;

use crate::container::{clamped_len, coherent_slice_child, is_slice_child, Child};
use crate::pt::push_slice_child;
use crate::reader::{be32_of, read_be32, Source};

use std::rc::Rc;

verus! {

/// SGI volume header magic, big-endian at offset 0.
pub const SGI_LABEL_MAGIC: u32 = 0x0be5a941;

/// Whether entry `s` of the volume header names a data partition: it lies
/// whole inside the stream, has blocks, and is neither the volume header
/// nor the whole volume.
pub open spec fn sgi_entry_valid(c: Seq<u8>, s: int) -> bool {
    &&& 312 + s * 12 + 12 <= c.len()
    &&& be32_of(c, 312 + s * 12) != 0
    &&& be32_of(c, 312 + s * 12 + 8) != 0
    &&& be32_of(c, 312 + s * 12 + 8) != 6
}

/// The byte offset where entry `s` starts.
pub open spec fn sgi_entry_start(c: Seq<u8>, s: int) -> int {
    be32_of(c, 312 + s * 12 + 4) * 512
}

/// The byte length of entry `s`.
pub open spec fn sgi_entry_len(c: Seq<u8>, s: int) -> int {
    be32_of(c, 312 + s * 12) * 512
}

/// Whether, for every data partition entry below `n`, some child of `cs`
/// slices `parent` at exactly that entry's blocks under the entry's slot.
pub open spec fn sgi_children_match_upto(
    c: Seq<u8>,
    cs: Seq<Child>,
    parent: Source,
    n: int,
) -> bool {
    forall|s: int|
        0 <= s < n && #[trigger] sgi_entry_valid(c, s) ==> exists|k: int|
            0 <= k < cs.len() && is_slice_child(
                #[trigger] cs[k],
                parent,
                s as u32,
                sgi_entry_start(c, s) as u64,
                clamped_len(sgi_entry_start(c, s) as u64, sgi_entry_len(c, s) as u64),
            )
}

/// SGI volume header container.
pub struct SgiContainer;

impl SgiContainer {
    /// One slice child per data partition entry, each carrying its slot as
    /// index and slicing the parent at its entry's blocks; `None` exactly
    /// when the magic is absent.
    pub fn children(&self, reader: Rc<Source>) -> (r: Option<Vec<Child>>)
        ensures
            r matches Some(cs) ==> cs@.len() <= 16 && forall|k: int|
                0 <= k < cs@.len() ==> #[trigger] coherent_slice_child(cs@[k], *reader),
            (*reader).plain() ==> (r is Some <==> (*reader).content().len() >= 4 && be32_of(
                (*reader).content(),
                0,
            ) == SGI_LABEL_MAGIC),
            (*reader).plain() ==> match r {
                Some(cs) => sgi_children_match_upto((*reader).content(), cs@, *reader, 16),
                None => true,
            },
    {
        let src = &*reader;
        let magic = match read_be32(src, 0) {
            Some(v) => v,
            None => {
                return None;
            },
        };
        if magic != SGI_LABEL_MAGIC {
            return None;
        }
        let ghost pc = src.content();
        let mut children: Vec<Child> = Vec::new();
        let mut i: u32 = 0;
        while i < 16
            invariant
                src == &*reader,
                i <= 16,
                children@.len() <= i,
                forall|k: int|
                    0 <= k < children@.len() ==> #[trigger] coherent_slice_child(
                        children@[k],
                        *reader,
                    ),
                src.plain() ==> {
                    &&& pc == src.content()
                    &&& pc.len() >= 4
                    &&& be32_of(pc, 0) == SGI_LABEL_MAGIC
                    &&& sgi_children_match_upto(pc, children@, *reader, i as int)
                },
            decreases 16 - i,
        {
            let entry_offset = 312 + (i as u64) * 12;
            let num_blocks = match read_be32(src, entry_offset) {
                Some(v) => v,
                None => {
                    proof {
                        if src.plain() {
                            assert forall|s: int|
                                i <= s < 16 implies !sgi_entry_valid(pc, s) by {}
                        }
                    }
                    return Some(children);
                },
            };
            let first_block = match read_be32(src, entry_offset + 4) {
                Some(v) => v,
                None => {
                    proof {
                        if src.plain() {
                            assert forall|s: int|
                                i <= s < 16 implies !sgi_entry_valid(pc, s) by {}
                        }
                    }
                    return Some(children);
                },
            };
            let ptype = match read_be32(src, entry_offset + 8) {
                Some(v) => v,
                None => {
                    proof {
                        if src.plain() {
                            assert forall|s: int|
                                i <= s < 16 implies !sgi_entry_valid(pc, s) by {}
                        }
                    }
                    return Some(children);
                },
            };
            if num_blocks == 0 || ptype == 0 || ptype == 6 {
                i = i + 1;
                continue;
            }
            let start = (first_block as u64) * 512;
            let length = (num_blocks as u64) * 512;
            let ghost old_children = children@;
            push_slice_child(&mut children, &reader, i, start, length);
            proof {
                if src.plain() {
                    assert(is_slice_child(
                        children@[old_children.len() as int],
                        *reader,
                        i as u32,
                        sgi_entry_start(pc, i as int) as u64,
                        clamped_len(
                            sgi_entry_start(pc, i as int) as u64,
                            sgi_entry_len(pc, i as int) as u64,
                        ),
                    ));
                }
            }
            i = i + 1;
        }
        Some(children)
    }
}

} // verus!
