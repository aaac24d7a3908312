//! BSD disklabel container.
//!
//! The label may sit at offset 0 or, when embedded behind a boot record,
//! at offset 512. Entries are given in the label's own sector size; the
//! conventional whole-disk slot yields no child.

use vstd::prelude::*;

use crate::container::{coherent_slice_child, Child};
use crate::pt::push_slice_child;
use crate::reader::{le32_of, read_byte, read_le16, read_le32, Source};

use std::rc::Rc;

verus! {

/// BSD disklabel magic.
pub const DISKLABEL_MAGIC: u32 = 0x82564557;

/// Most partition entries a label may hold.
pub const MAX_DISKLABEL_PARTITIONS: u16 = 22;

/// Where a label starts in `c`: at the stream's start, or past a boot
/// record; `None` when the magic stands at neither place.
pub open spec fn disklabel_base(c: Seq<u8>) -> Option<int> {
    if c.len() >= 4 && le32_of(c, 0) == DISKLABEL_MAGIC {
        Some(0int)
    } else if c.len() >= 516 && le32_of(c, 512) == DISKLABEL_MAGIC {
        Some(512int)
    } else {
        None
    }
}

/// Whether content `c` carries a usable BSD disklabel: the magic at one of
/// its two places, repeated at the label's second magic field, with the
/// header fields whole inside the stream.
pub open spec fn disklabel_ok(c: Seq<u8>) -> bool {
    match disklabel_base(c) {
        Some(b) => b + 140 <= c.len() && le32_of(c, b + 132) == DISKLABEL_MAGIC,
        None => false,
    }
}

/// BSD disklabel container.
pub struct DisklabelContainer;

impl DisklabelContainer {
    /// One slice child per used entry other than the whole-disk slot;
    /// `None` exactly when no usable label is found at either offset.
    pub fn children(&self, reader: Rc<Source>) -> (r: Option<Vec<Child>>)
        ensures
            r matches Some(cs) ==> cs@.len() <= MAX_DISKLABEL_PARTITIONS && forall|k: int|
                0 <= k < cs@.len() ==> #[trigger] coherent_slice_child(cs@[k], *reader),
            (*reader).plain() ==> (r is Some <==> disklabel_ok((*reader).content())),
    {
        let src = &*reader;
        let ghost pc = src.content();
        let base: u64 = if check_magic(src, 0) {
            0
        } else if check_magic(src, 512) {
            512
        } else {
            return None;
        };
        let magic2 = match read_le32(src, base + 132) {
            Some(v) => v,
            None => {
                return None;
            },
        };
        if magic2 != DISKLABEL_MAGIC {
            return None;
        }
        let sector_size = match read_le32(src, base + 40) {
            Some(v) => v as u64,
            None => {
                return None;
            },
        };
        let npartitions = match read_le16(src, base + 138) {
            Some(v) => v,
            None => {
                return None;
            },
        };
        let npartitions = if npartitions <= MAX_DISKLABEL_PARTITIONS {
            npartitions
        } else {
            MAX_DISKLABEL_PARTITIONS
        };
        let mut children: Vec<Child> = Vec::new();
        let mut i: u16 = 0;
        while i < npartitions
            invariant
                src == &*reader,
                src.plain() ==> pc == src.content() && disklabel_ok(pc),
                base <= 512,
                npartitions <= MAX_DISKLABEL_PARTITIONS,
                i <= npartitions,
                children@.len() <= i,
                forall|k: int|
                    0 <= k < children@.len() ==> #[trigger] coherent_slice_child(
                        children@[k],
                        *reader,
                    ),
            decreases npartitions - i,
        {
            let entry_offset = base + 148 + (i as u64) * 16;
            let size_sectors = match read_le32(src, entry_offset) {
                Some(v) => v,
                None => {
                    return Some(children);
                },
            };
            let offset_sectors = match read_le32(src, entry_offset + 4) {
                Some(v) => v,
                None => {
                    return Some(children);
                },
            };
            let fstype = match read_byte(src, entry_offset + 12) {
                Some(v) => v,
                None => {
                    return Some(children);
                },
            };
            if fstype == 0 || size_sectors == 0 || i == 2 {
                i = i + 1;
                continue;
            }
            let start = match (offset_sectors as u64).checked_mul(sector_size) {
                Some(v) => v,
                None => {
                    i = i + 1;
                    continue;
                },
            };
            let length = match (size_sectors as u64).checked_mul(sector_size) {
                Some(v) => v,
                None => {
                    i = i + 1;
                    continue;
                },
            };
            push_slice_child(&mut children, &reader, i as u32, start, length);
            i = i + 1;
        }
        Some(children)
    }
}

/// Whether the disklabel magic sits whole at `offset`.
fn check_magic(src: &Source, offset: u64) -> (r: bool)
    ensures
        src.plain() ==> r == (offset + 4 <= src.content().len() && le32_of(
            src.content(),
            offset as int,
        ) == DISKLABEL_MAGIC),
{
    match read_le32(src, offset) {
        Some(v) => v == DISKLABEL_MAGIC,
        None => false,
    }
}

} // verus!
