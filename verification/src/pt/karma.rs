//! Rio Karma partition table container.
//!
//! Two fixed entries after the boot area, each marked with a type byte.

use vstd::prelude::*;

use crate::container::{coherent_slice_child, Child};
use crate::pt::push_slice_child;
use crate::reader::{le16_of, read_byte, read_le16, read_le32, Source};

use std::rc::Rc;

verus! {

/// Karma boot signature, little-endian at offset 510.
pub const KARMA_MAGIC: u16 = 0xab56;

/// Rio Karma partition table container.
pub struct KarmaContainer;

impl KarmaContainer {
    /// One slice child per typed entry; `None` when the signature is
    /// absent.
    pub fn children(&self, reader: Rc<Source>) -> (r: Option<Vec<Child>>)
        ensures
            r matches Some(cs) ==> cs@.len() <= 2 && forall|k: int|
                0 <= k < cs@.len() ==> #[trigger] coherent_slice_child(cs@[k], *reader),
            (*reader).plain() && r is Some ==> le16_of((*reader).content(), 510) == KARMA_MAGIC,
    {
        let src = &*reader;
        let magic = match read_le16(src, 510) {
            Some(v) => v,
            None => {
                return None;
            },
        };
        if magic != KARMA_MAGIC {
            return None;
        }
        let mut children: Vec<Child> = Vec::new();
        let mut i: u32 = 0;
        while i < 2
            invariant
                src == &*reader,
                (*reader).plain() ==> le16_of((*reader).content(), 510) == KARMA_MAGIC,
                i <= 2,
                children@.len() <= i,
                forall|k: int|
                    0 <= k < children@.len() ==> #[trigger] coherent_slice_child(
                        children@[k],
                        *reader,
                    ),
            decreases 2 - i,
        {
            let entry_offset = 270 + (i as u64) * 16;
            let fstype = match read_byte(src, entry_offset + 4) {
                Some(v) => v,
                None => {
                    return Some(children);
                },
            };
            let start_sector = match read_le32(src, entry_offset + 8) {
                Some(v) => v,
                None => {
                    return Some(children);
                },
            };
            let size_sectors = match read_le32(src, entry_offset + 12) {
                Some(v) => v,
                None => {
                    return Some(children);
                },
            };
            if fstype != 0x4d || size_sectors == 0 {
                i = i + 1;
                continue;
            }
            let start = (start_sector as u64) * 512;
            let length = (size_sectors as u64) * 512;
            push_slice_child(&mut children, &reader, i, start, length);
            i = i + 1;
        }
        Some(children)
    }
}

} // verus!
