//! PC-98 partition table container.
//!
//! Sixteen 32-byte entries follow the boot sector; positions are given in
//! cylinder/head/sector form under a fixed geometry.

use vstd::prelude::*;

use crate::container::{clamped_len, coherent_slice_child, is_slice_child, Child};
use crate::pt::push_slice_child;
use crate::reader::{byte_of, le16_of, read_le16, Source};

use std::rc::Rc;

verus! {

/// The sector where table entry `s` starts, under the fixed geometry of
/// eight heads and sixteen sectors per track.
pub open spec fn pc98_entry_start_sect(c: Seq<u8>, s: int) -> int {
    let base = 512 + s * 32;
    (le16_of(c, base + 10) * 8 + byte_of(c, base + 9)) * 16 + byte_of(c, base + 8)
}

/// The sector just past table entry `s`: the end of its last cylinder.
pub open spec fn pc98_entry_end_sect(c: Seq<u8>, s: int) -> int {
    (le16_of(c, 512 + s * 32 + 14) + 1) * 8 * 16
}

/// Whether table entry `s` is used: it lies whole inside the stream, both
/// identifiers are set, and it spans at least one sector.
pub open spec fn pc98_entry_valid(c: Seq<u8>, s: int) -> bool {
    let base = 512 + s * 32;
    &&& base + 32 <= c.len()
    &&& byte_of(c, base) != 0
    &&& byte_of(c, base + 1) != 0
    &&& pc98_entry_end_sect(c, s) > pc98_entry_start_sect(c, s)
}

/// Whether, for every used entry below `n`, some child of `cs` slices
/// `parent` at exactly that entry's sectors under the entry's slot.
pub open spec fn pc98_children_match_upto(
    c: Seq<u8>,
    cs: Seq<Child>,
    parent: Source,
    n: int,
) -> bool {
    forall|s: int|
        0 <= s < n && #[trigger] pc98_entry_valid(c, s) ==> exists|k: int|
            0 <= k < cs.len() && is_slice_child(
                #[trigger] cs[k],
                parent,
                s as u32,
                (pc98_entry_start_sect(c, s) * 512) as u64,
                clamped_len(
                    (pc98_entry_start_sect(c, s) * 512) as u64,
                    ((pc98_entry_end_sect(c, s) - pc98_entry_start_sect(c, s)) * 512) as u64,
                ),
            )
}

/// PC-98 partition table container.
pub struct Pc98Container;

impl Pc98Container {
    /// One slice child per used entry, each carrying its slot as index and
    /// slicing the parent at its entry's sectors; `None` exactly when the
    /// boot signature is absent.
    pub fn children(&self, reader: Rc<Source>) -> (r: Option<Vec<Child>>)
        ensures
            r matches Some(cs) ==> cs@.len() <= 16 && forall|k: int|
                0 <= k < cs@.len() ==> #[trigger] coherent_slice_child(cs@[k], *reader),
            (*reader).plain() ==> (r is Some <==> (*reader).content().len() >= 512 && le16_of(
                (*reader).content(),
                510,
            ) == 0xaa55),
            (*reader).plain() ==> match r {
                Some(cs) => pc98_children_match_upto((*reader).content(), cs@, *reader, 16),
                None => true,
            },
    {
        let src = &*reader;
        let magic = match read_le16(src, 510) {
            Some(v) => v,
            None => {
                return None;
            },
        };
        if magic != 0xaa55 {
            return None;
        }
        let ghost pc = src.content();
        let mut children: Vec<Child> = Vec::new();
        let mut i: u32 = 0;
        while i < 16
            invariant
                src == &*reader,
                i <= 16,
                children@.len() <= i,
                forall|k: int|
                    0 <= k < children@.len() ==> #[trigger] coherent_slice_child(
                        children@[k],
                        *reader,
                    ),
                src.plain() ==> {
                    &&& pc == src.content()
                    &&& pc.len() >= 512
                    &&& le16_of(pc, 510) == 0xaa55
                    &&& pc98_children_match_upto(pc, children@, *reader, i as int)
                },
            decreases 16 - i,
        {
            let ghost base = 512 + (i as int) * 32;
            let entry_offset = 512 + (i as u64) * 32;
            let buf = src.read_at(entry_offset, 32);
            if buf.len() != 32 {
                proof {
                    if src.plain() {
                        assert(!pc98_entry_valid(pc, i as int));
                    }
                }
                i = i + 1;
                continue;
            }
            let b = buf.as_slice();
            proof {
                if src.plain() {
                    assert(b@ =~= pc.subrange(base, base + 32));
                }
            }
            let mid = b[0];
            let sid = b[1];
            if mid == 0 || sid == 0 {
                i = i + 1;
                continue;
            }
            let sector = b[8] as u64;
            let head = b[9] as u64;
            let cyl = (b[10] as u64) + (b[11] as u64) * 0x100;
            let end_cyl = (b[14] as u64) + (b[15] as u64) * 0x100;
            // Geometry fixed at 8 heads and 16 sectors per track.
            let start_sect = (cyl * 8 + head) * 16 + sector;
            let end_sect = (end_cyl + 1) * 8 * 16;
            if end_sect <= start_sect {
                i = i + 1;
                continue;
            }
            let start = start_sect * 512;
            let length = (end_sect - start_sect) * 512;
            let ghost old_children = children@;
            push_slice_child(&mut children, &reader, i, start, length);
            proof {
                if src.plain() {
                    assert(is_slice_child(
                        children@[old_children.len() as int],
                        *reader,
                        i as u32,
                        (pc98_entry_start_sect(pc, i as int) * 512) as u64,
                        clamped_len(
                            (pc98_entry_start_sect(pc, i as int) * 512) as u64,
                            ((pc98_entry_end_sect(pc, i as int) - pc98_entry_start_sect(
                                pc,
                                i as int,
                            )) * 512) as u64,
                        ),
                    ));
                }
            }
            i = i + 1;
        }
        Some(children)
    }
}

} // verus!
