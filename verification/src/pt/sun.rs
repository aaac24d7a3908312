//! Sun disklabel container.
//!
//! Partitions are given in cylinders; the label's geometry fields convert
//! cylinders to sectors. The conventional whole-disk entry yields no
//! child.

use vstd::prelude::*;

use crate::container::{clamped_len, coherent_slice_child, is_slice_child, Child};
use crate::pt::push_slice_child;
use crate::reader::{be16_of, be32_of, read_be16, read_be32, Source};

use std::rc::Rc;

verus! {

/// Sun disklabel magic, big-endian at offset 508.
pub const SUN_LABEL_MAGIC: u16 = 0xdabe;

/// Whether content `c` carries a usable Sun disklabel: the magic and a
/// geometry with at least one sector per cylinder.
pub open spec fn sun_label_ok(c: Seq<u8>) -> bool {
    &&& c.len() >= 510
    &&& be16_of(c, 508) == SUN_LABEL_MAGIC
    &&& be16_of(c, 436) * be16_of(c, 438) != 0
}

/// The sector count of label entry `s`.
pub open spec fn sun_entry_sectors(c: Seq<u8>, s: int) -> int {
    be32_of(c, 444 + s * 8 + 4)
}

/// The byte offset where label entry `s` starts: its cylinder scaled by
/// the label's geometry.
pub open spec fn sun_entry_start(c: Seq<u8>, s: int) -> int {
    be32_of(c, 444 + s * 8) * (be16_of(c, 436) * be16_of(c, 438)) * 512
}

/// Whether, for every used label entry below `n` other than the whole-disk
/// slot whose start fits the address space, some child of `cs` slices
/// `parent` at exactly that entry's cylinders under the entry's slot.
pub open spec fn sun_children_match_upto(
    c: Seq<u8>,
    cs: Seq<Child>,
    parent: Source,
    n: int,
) -> bool {
    forall|s: int|
        0 <= s < n && s != 2 && #[trigger] sun_entry_sectors(c, s) != 0 && sun_entry_start(c, s)
            <= u64::MAX ==> exists|k: int|
            0 <= k < cs.len() && is_slice_child(
                #[trigger] cs[k],
                parent,
                s as u32,
                sun_entry_start(c, s) as u64,
                clamped_len(
                    sun_entry_start(c, s) as u64,
                    (sun_entry_sectors(c, s) * 512) as u64,
                ),
            )
}

/// Sun disklabel container.
pub struct SunContainer;

impl SunContainer {
    /// One slice child per used partition entry other than the whole-disk
    /// slot, each carrying its slot as index and slicing the parent at its
    /// entry's cylinders; `None` exactly when the label or its geometry is
    /// unusable.
    #[verifier::rlimit(60)]
    pub fn children(&self, reader: Rc<Source>) -> (r: Option<Vec<Child>>)
        ensures
            r matches Some(cs) ==> cs@.len() <= 8 && forall|k: int|
                0 <= k < cs@.len() ==> #[trigger] coherent_slice_child(cs@[k], *reader),
            (*reader).plain() ==> (r is Some <==> sun_label_ok((*reader).content())),
            (*reader).plain() ==> match r {
                Some(cs) => sun_children_match_upto((*reader).content(), cs@, *reader, 8),
                None => true,
            },
    {
        let src = &*reader;
        let magic = match read_be16(src, 508) {
            Some(v) => v,
            None => {
                return None;
            },
        };
        if magic != SUN_LABEL_MAGIC {
            return None;
        }
        let ntrks = match read_be16(src, 436) {
            Some(v) => v as u64,
            None => {
                return None;
            },
        };
        let nsect = match read_be16(src, 438) {
            Some(v) => v as u64,
            None => {
                return None;
            },
        };
        proof {
            assert(ntrks * nsect <= 0xffffu64 * 0xffffu64) by (nonlinear_arith)
                requires
                    ntrks <= 0xffffu64,
                    nsect <= 0xffffu64,
            ;
        }
        let spc = ntrks * nsect;
        if spc == 0 {
            return None;
        }
        let ghost pc = src.content();
        let mut children: Vec<Child> = Vec::new();
        let mut i: u32 = 0;
        while i < 8
            invariant
                src == &*reader,
                spc >= 1,
                spc <= 0xffffu64 * 0xffff,
                i <= 8,
                children@.len() <= i,
                forall|k: int|
                    0 <= k < children@.len() ==> #[trigger] coherent_slice_child(
                        children@[k],
                        *reader,
                    ),
                src.plain() ==> {
                    &&& pc == src.content()
                    &&& sun_label_ok(pc)
                    &&& spc == be16_of(pc, 436) * be16_of(pc, 438)
                    &&& sun_children_match_upto(pc, children@, *reader, i as int)
                },
            decreases 8 - i,
        {
            let entry_offset = 444 + (i as u64) * 8;
            let start_cyl = match read_be32(src, entry_offset) {
                Some(v) => v as u64,
                None => {
                    return Some(children);
                },
            };
            let num_sectors = match read_be32(src, entry_offset + 4) {
                Some(v) => v as u64,
                None => {
                    return Some(children);
                },
            };
            if num_sectors == 0 || i == 2 {
                i = i + 1;
                continue;
            }
            let start_sector = match start_cyl.checked_mul(spc) {
                Some(v) => v,
                None => {
                    proof {
                        if src.plain() {
                            assert(sun_entry_start(pc, i as int) > u64::MAX);
                        }
                    }
                    i = i + 1;
                    continue;
                },
            };
            let start = match start_sector.checked_mul(512) {
                Some(v) => v,
                None => {
                    proof {
                        if src.plain() {
                            assert(sun_entry_start(pc, i as int) > u64::MAX);
                        }
                    }
                    i = i + 1;
                    continue;
                },
            };
            let length = num_sectors * 512;
            let ghost old_children = children@;
            push_slice_child(&mut children, &reader, i, start, length);
            proof {
                if src.plain() {
                    assert(is_slice_child(
                        children@[old_children.len() as int],
                        *reader,
                        i as u32,
                        sun_entry_start(pc, i as int) as u64,
                        clamped_len(
                            sun_entry_start(pc, i as int) as u64,
                            (sun_entry_sectors(pc, i as int) * 512) as u64,
                        ),
                    ));
                }
            }
            i = i + 1;
        }
        Some(children)
    }
}

} // verus!
