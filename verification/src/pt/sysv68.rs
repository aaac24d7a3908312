//! Motorola SysV68 slice table container.
//!
//! The configuration block names where the slice table lives; the last
//! slice covers the whole disk and yields no child.

use vstd::prelude::*;

use crate::container::{coherent_slice_child, Child};
use crate::pt::push_slice_child;
use crate::reader::{read_be16, read_be32, Source};

use std::rc::Rc;

verus! {

/// Most slices that are walked.
pub const MAX_SYSV68_SLICES: u16 = 1024;

/// SysV68 slice table container.
pub struct Sysv68Container;

impl Sysv68Container {
    /// One slice child per used table entry short of the whole-disk
    /// slice; `None` when the magic is absent.
    pub fn children(&self, reader: Rc<Source>) -> (r: Option<Vec<Child>>)
        ensures
            r matches Some(cs) ==> cs@.len() <= MAX_SYSV68_SLICES && forall|k: int|
                0 <= k < cs@.len() ==> #[trigger] coherent_slice_child(cs@[k], *reader),
    {
        let src = &*reader;
        let magic = src.read_at(248, 8);
        if magic.len() != 8 {
            return None;
        }
        let m = magic.as_slice();
        if !(m[0] == 0x4d && m[1] == 0x4f && m[2] == 0x54 && m[3] == 0x4f && m[4] == 0x52 && m[5]
            == 0x4f && m[6] == 0x4c && m[7] == 0x41) {
            return None;
        }
        let slc_blk = match read_be32(src, 0x180) {
            Some(v) => v as u64,
            None => {
                return None;
            },
        };
        let slc_cnt = match read_be16(src, 0x184) {
            Some(v) => v,
            None => {
                return None;
            },
        };
        let mut children: Vec<Child> = Vec::new();
        if slc_blk == 0 || slc_cnt == 0 {
            return Some(children);
        }
        let slices = if slc_cnt - 1 <= MAX_SYSV68_SLICES {
            slc_cnt - 1
        } else {
            MAX_SYSV68_SLICES
        };
        let table_offset = slc_blk * 512;
        let mut i: u16 = 0;
        while i < slices
            invariant
                src == &*reader,
                slices <= MAX_SYSV68_SLICES,
                table_offset <= 0xffff_ffffu64 * 512,
                i <= slices,
                children@.len() <= i,
                forall|k: int|
                    0 <= k < children@.len() ==> #[trigger] coherent_slice_child(
                        children@[k],
                        *reader,
                    ),
            decreases slices - i,
        {
            let entry_offset = table_offset + (i as u64) * 8;
            let nblocks = match read_be32(src, entry_offset) {
                Some(v) => v,
                None => {
                    return Some(children);
                },
            };
            let blkoff = match read_be32(src, entry_offset + 4) {
                Some(v) => v,
                None => {
                    return Some(children);
                },
            };
            if nblocks == 0 {
                i = i + 1;
                continue;
            }
            let start = (blkoff as u64) * 512;
            let length = (nblocks as u64) * 512;
            push_slice_child(&mut children, &reader, i as u32, start, length);
            i = i + 1;
        }
        Some(children)
    }
}

} // verus!
