//! ICS SCSI partition table container.
//!
//! The table sits in sector 0, guarded by the ICS checksum; entries are
//! eight bytes each — a start sector and a signed size. A negative size
//! marks a non-native partition whose first sector may carry a marker that
//! is then skipped.

use vstd::prelude::*;

use crate::checksum;
use crate::container::{coherent_slice_child, Child};
use crate::pt::{ics_checksum, push_slice_child, read_le32, read_sector};
use crate::reader::Source;

use std::rc::Rc;

verus! {

/// ICS partition table container.
pub struct IcsContainer;

impl IcsContainer {
    /// One slice child per table entry with a nonzero size; `None` when
    /// sector 0 cannot be read whole or its checksum fails.
    pub fn children(&self, reader: Rc<Source>) -> (r: Option<Vec<Child>>)
        ensures
            r matches Some(cs) ==> cs@.len() <= 64 && forall|k: int|
                0 <= k < cs@.len() ==> #[trigger] coherent_slice_child(cs@[k], *reader),
            (*reader).plain() ==> match r {
                Some(_) => 512 <= (*reader).content().len() && checksum::ics_valid(
                    (*reader).content().subrange(0, 512),
                ),
                None => 512 > (*reader).content().len() || !checksum::ics_valid(
                    (*reader).content().subrange(0, 512),
                ),
            },
    {
        let src = &*reader;
        let sector = match read_sector(src, 0) {
            Some(s) => s,
            None => {
                return None;
            },
        };
        if !ics_checksum(sector.as_slice()) {
            return None;
        }
        let mut children: Vec<Child> = Vec::new();
        let mut slot: u32 = 0;
        let mut offset: usize = 0;
        while offset + 8 <= 508
            invariant
                sector@.len() == 512,
                offset <= 508,
                slot == children@.len(),
                children@.len() * 8 <= offset,
                forall|k: int|
                    0 <= k < children@.len() ==> #[trigger] coherent_slice_child(
                        children@[k],
                        *reader,
                    ),
            decreases 508 - offset,
        {
            let start = read_le32(sector.as_slice(), offset);
            let size_raw = read_le32(sector.as_slice(), offset + 4);
            if size_raw == 0 {
                break;
            }
            let negative = size_raw >= 0x8000_0000;
            let mut actual_start = start;
            let mut actual_size = if negative {
                (0xffff_ffffu32 - size_raw) + 1
            } else {
                size_raw
            };
            if negative && actual_size > 1 {
                if let Some(part_sector) = read_sector(src, start as u64) {
                    let p = part_sector.as_slice();
                    if p[0] == 0x4c && p[1] == 0x69 && p[2] == 0x6e && p[3] == 0x75 && p[4] == 0x78
                        && p[5] == 0x50 && p[6] == 0x61 && p[7] == 0x72 && p[8] == 0x74
                        && actual_start < 0xffff_ffffu32 {
                        actual_start = actual_start + 1;
                        actual_size = actual_size - 1;
                    }
                }
            }
            if actual_size > 0 {
                let start_bytes = (actual_start as u64) * 512;
                let length = (actual_size as u64) * 512;
                push_slice_child(&mut children, &reader, slot, start_bytes, length);
                slot = slot + 1;
            }
            offset = offset + 8;
        }
        Some(children)
    }
}

} // verus!
