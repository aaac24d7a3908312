//! Ultrix disklabel container.
//!
//! A fixed label deep in the boot area carries eight partition entries.

use vstd::prelude::*;

use crate::container::{coherent_slice_child, Child};
use crate::pt::push_slice_child;
use crate::reader::{le32_of, read_le32, Source};

use std::rc::Rc;

verus! {

/// Ultrix label offset within the boot block area.
pub const ULTRIX_LABEL_OFFSET: u64 = 16312;

/// Ultrix label magic.
pub const ULTRIX_PT_MAGIC: u32 = 0x032957;

/// Ultrix disklabel container.
pub struct UltrixContainer;

impl UltrixContainer {
    /// One slice child per used entry; `None` when the label or its valid
    /// flag is absent.
    pub fn children(&self, reader: Rc<Source>) -> (r: Option<Vec<Child>>)
        ensures
            r matches Some(cs) ==> cs@.len() <= 8 && forall|k: int|
                0 <= k < cs@.len() ==> #[trigger] coherent_slice_child(cs@[k], *reader),
            (*reader).plain() && r is Some ==> le32_of(
                (*reader).content(),
                ULTRIX_LABEL_OFFSET as int,
            ) == ULTRIX_PT_MAGIC,
    {
        let src = &*reader;
        let magic = match read_le32(src, ULTRIX_LABEL_OFFSET) {
            Some(v) => v,
            None => {
                return None;
            },
        };
        let valid = match read_le32(src, ULTRIX_LABEL_OFFSET + 4) {
            Some(v) => v,
            None => {
                return None;
            },
        };
        if magic != ULTRIX_PT_MAGIC || valid != 1 {
            return None;
        }
        let mut children: Vec<Child> = Vec::new();
        let mut i: u32 = 0;
        while i < 8
            invariant
                src == &*reader,
                (*reader).plain() ==> le32_of((*reader).content(), ULTRIX_LABEL_OFFSET as int)
                    == ULTRIX_PT_MAGIC,
                i <= 8,
                children@.len() <= i,
                forall|k: int|
                    0 <= k < children@.len() ==> #[trigger] coherent_slice_child(
                        children@[k],
                        *reader,
                    ),
            decreases 8 - i,
        {
            let entry_offset = ULTRIX_LABEL_OFFSET + 8 + (i as u64) * 8;
            let nblocks = match read_le32(src, entry_offset) {
                Some(v) => v,
                None => {
                    return Some(children);
                },
            };
            let blkoff = match read_le32(src, entry_offset + 4) {
                Some(v) => v,
                None => {
                    return Some(children);
                },
            };
            if nblocks == 0 {
                i = i + 1;
                continue;
            }
            let start = (blkoff as u64) * 512;
            let length = (nblocks as u64) * 512;
            push_slice_child(&mut children, &reader, i, start, length);
            i = i + 1;
        }
        Some(children)
    }
}

} // verus!
