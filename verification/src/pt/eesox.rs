//! EESOX SCSI partition table container.
//!
//! The table sits in sector 7, XOR-hidden behind a fixed key. Each entry
//! names only a start sector; a partition runs to the next entry's start,
//! and the last one to the end of the disk.

use vstd::prelude::*;

use crate::container::{coherent_slice_child, Child};
use crate::pt::{eesox_decrypt, push_slice_child, read_le32, read_sector};
use crate::reader::Source;

use std::rc::Rc;

verus! {

/// EESOX partition table container.
pub struct EesoxContainer;

impl EesoxContainer {
    /// One slice child per entry, sized by the gap to the next entry;
    /// `None` when sector 7 cannot be read whole or no entry carries the
    /// EESOX magic.
    pub fn children(&self, reader: Rc<Source>) -> (r: Option<Vec<Child>>)
        ensures
            r matches Some(cs) ==> cs@.len() <= 8 && forall|k: int|
                0 <= k < cs@.len() ==> #[trigger] coherent_slice_child(cs@[k], *reader),
    {
        let src = &*reader;
        let sector = match read_sector(src, 7) {
            Some(s) => s,
            None => {
                return None;
            },
        };
        let head = &sector.as_slice()[0..256];
        let decrypted = eesox_decrypt(head);
        let d = decrypted.as_slice();
        let mut starts: Vec<u64> = Vec::new();
        let mut i: usize = 0;
        while i < 8
            invariant
                decrypted@.len() == 256,
                d@.len() == 256,
                d@ == decrypted@,
                i <= 8,
                starts@.len() <= i,
            decreases 8 - i,
        {
            let entry_off = i * 32;
            if !(d[entry_off] == 0x45 && d[entry_off + 1] == 0x65 && d[entry_off + 2] == 0x73
                && d[entry_off + 3] == 0x6f && d[entry_off + 4] == 0x78) {
                break;
            }
            let start = read_le32(d, entry_off + 16);
            starts.push(start as u64);
            i = i + 1;
        }
        if starts.len() == 0 {
            return None;
        }
        let mut children: Vec<Child> = Vec::new();
        let mut j: usize = 0;
        while j < starts.len()
            invariant
                starts@.len() <= 8,
                j <= starts@.len(),
                children@.len() <= j,
                forall|k: int|
                    0 <= k < children@.len() ==> #[trigger] coherent_slice_child(
                        children@[k],
                        *reader,
                    ),
            decreases starts@.len() - j,
        {
            let start = starts[j];
            let start_bytes = match start.checked_mul(512) {
                Some(v) => v,
                None => {
                    j = j + 1;
                    continue;
                },
            };
            let end_sect: u64 = if j + 1 < starts.len() {
                starts[j + 1]
            } else {
                u64::MAX / 512
            };
            let size = if end_sect >= start {
                end_sect - start
            } else {
                0
            };
            if size > 0 {
                let length = match size.checked_mul(512) {
                    Some(v) => v,
                    None => {
                        j = j + 1;
                        continue;
                    },
                };
                push_slice_child(&mut children, &reader, j as u32, start_bytes, length);
            }
            j = j + 1;
        }
        Some(children)
    }
}

} // verus!
