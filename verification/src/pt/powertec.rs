//! PowerTec SCSI partition table container.
//!
//! The table sits in sector 0, guarded by the PowerTec checksum, which
//! also rejects blocks carrying an MBR boot signature. Twelve entries of
//! 28 bytes each name a start sector and a size.

use vstd::prelude::*;

use crate::checksum;
use crate::container::{coherent_slice_child, Child};
use crate::pt::{powertec_checksum, push_slice_child, read_le32, read_sector};
use crate::reader::Source;

use std::rc::Rc;

verus! {

/// PowerTec partition table container.
pub struct PowertecContainer;

impl PowertecContainer {
    /// One slice child per entry with a nonzero size; `None` when sector 0
    /// cannot be read whole or its checksum fails.
    pub fn children(&self, reader: Rc<Source>) -> (r: Option<Vec<Child>>)
        ensures
            r matches Some(cs) ==> cs@.len() <= 12 && forall|k: int|
                0 <= k < cs@.len() ==> #[trigger] coherent_slice_child(cs@[k], *reader),
            (*reader).plain() ==> match r {
                Some(_) => 512 <= (*reader).content().len() && checksum::powertec_valid(
                    (*reader).content().subrange(0, 512),
                ),
                None => 512 > (*reader).content().len() || !checksum::powertec_valid(
                    (*reader).content().subrange(0, 512),
                ),
            },
    {
        let src = &*reader;
        let sector = match read_sector(src, 0) {
            Some(s) => s,
            None => {
                return None;
            },
        };
        if !powertec_checksum(sector.as_slice()) {
            return None;
        }
        let mut children: Vec<Child> = Vec::new();
        let mut slot: u32 = 0;
        let mut i: usize = 0;
        while i < 12
            invariant
                sector@.len() == 512,
                i <= 12,
                children@.len() <= i,
                slot == children@.len(),
                forall|k: int|
                    0 <= k < children@.len() ==> #[trigger] coherent_slice_child(
                        children@[k],
                        *reader,
                    ),
            decreases 12 - i,
        {
            let entry_off = i * 28;
            let start = read_le32(sector.as_slice(), entry_off + 8);
            let size = read_le32(sector.as_slice(), entry_off + 12);
            if size > 0 {
                let start_bytes = (start as u64) * 512;
                let length = (size as u64) * 512;
                push_slice_child(&mut children, &reader, slot, start_bytes, length);
                slot = slot + 1;
            }
            i = i + 1;
        }
        Some(children)
    }
}

} // verus!
