//! Cumana SCSI partition table container.
//!
//! Cumana uses the ADFS boot-block format but chains partitions: each
//! block names the cylinder where the next begins. Every link must
//! advance, and the chain stops after a hard cap, so a table pointing at
//! itself only truncates the chain.

use vstd::prelude::*;

use crate::container::{coherent_slice_child, Child};
use crate::pt::adfs::{
    DiscRecord, LINUX_NATIVE_MAGIC, LINUX_SWAP_MAGIC, PARTITION_LINUX, PARTITION_RISCIX_MFM,
    PARTITION_RISCIX_SCSI, RISCIX_MAGIC,
};
use crate::pt::{adfs_checksum, push_slice_child, read_le32, read_sector};
use crate::reader::Source;

use std::rc::Rc;

verus! {

/// Most chain links followed before the walk stops.
pub const MAX_CHAIN: u32 = 64;

/// Cumana partition table container.
pub struct CumanaContainer;

impl CumanaContainer {
    /// One slice child per chained ADFS partition, with the trailing
    /// RISCiX or Linux table expanded; `None` when a secondary table
    /// cannot be read whole.
    pub fn children(&self, reader: Rc<Source>) -> (r: Option<Vec<Child>>)
        ensures
            r matches Some(cs) ==> cs@.len() <= MAX_CHAIN + 44 && forall|k: int|
                0 <= k < cs@.len() ==> #[trigger] coherent_slice_child(cs@[k], *reader),
    {
        let src = &*reader;
        let mut children: Vec<Child> = Vec::new();
        let mut slot: u32 = 0;
        let mut start_blk: u64 = 0;
        let mut first_sector: u64 = 0;
        let mut link: u32 = 0;
        while link < MAX_CHAIN
            invariant_except_break
                children@.len() <= link,
                slot == children@.len(),
            invariant
                link <= MAX_CHAIN,
                forall|k: int|
                    0 <= k < children@.len() ==> #[trigger] coherent_slice_child(
                        children@[k],
                        *reader,
                    ),
            ensures
                children@.len() <= MAX_CHAIN + 44,
                forall|k: int|
                    0 <= k < children@.len() ==> #[trigger] coherent_slice_child(
                        children@[k],
                        *reader,
                    ),
            decreases MAX_CHAIN - link,
        {
            link = link + 1;
            let sector_num = match start_blk.checked_mul(2) {
                Some(v) => match v.checked_add(6) {
                    Some(w) => w,
                    None => {
                        break;
                    },
                },
                None => {
                    break;
                },
            };
            let boot = match read_sector(src, sector_num) {
                Some(s) => s,
                None => {
                    break;
                },
            };
            if !adfs_checksum(boot.as_slice()) {
                break;
            }
            let dr = match DiscRecord::parse(boot.as_slice()) {
                Some(d) => d,
                None => {
                    break;
                },
            };
            if dr.disc_size == 0 && dr.disc_size_high == 0 {
                break;
            }
            let nr_sects = dr.sectors();
            if nr_sects > 0 {
                let start = match first_sector.checked_mul(512) {
                    Some(v) => v,
                    None => {
                        break;
                    },
                };
                let length = match nr_sects.checked_mul(512) {
                    Some(v) => v,
                    None => {
                        break;
                    },
                };
                push_slice_child(&mut children, &reader, slot, start, length);
                slot = slot + 1;
            }
            let heads = dr.effective_heads();
            let sectscyl = match (dr.secspertrack as u64).checked_mul(heads) {
                Some(v) => v,
                None => {
                    break;
                },
            };
            let cylinder = ((boot[0x1fe] as u64) << 8) | (boot[0x1fd] as u64);
            let next_sects = match cylinder.checked_mul(sectscyl) {
                Some(v) => v,
                None => {
                    break;
                },
            };
            if next_sects == 0 {
                break;
            }
            first_sector = match first_sector.checked_add(next_sects) {
                Some(v) => v,
                None => {
                    break;
                },
            };
            start_blk = match start_blk.checked_add(next_sects / 2) {
                Some(v) => v,
                None => {
                    break;
                },
            };
            let part_type = boot[0x1fc] & 0x0f;
            if part_type == 0 {
                continue;
            }
            if part_type == PARTITION_RISCIX_MFM || part_type == PARTITION_RISCIX_SCSI {
                if parse_riscix_cumana(&reader, first_sector, &mut children, slot).is_none() {
                    return None;
                }
                break;
            }
            if part_type == PARTITION_LINUX {
                if parse_linux_cumana(&reader, first_sector, &mut children, slot).is_none() {
                    return None;
                }
                break;
            }
            break;
        }
        Some(children)
    }
}

/// Parse a RISCiX table within a Cumana chain: a boot area child, then one
/// child per usable entry. `None` when the table sector cannot be read
/// whole.
pub fn parse_riscix_cumana(
    parent: &Rc<Source>,
    start_sect: u64,
    children: &mut Vec<Child>,
    first_slot: u32,
) -> (r: Option<()>)
    requires
        first_slot <= 1000,
    ensures
        final(children)@.len() <= old(children)@.len() + 9,
        forall|k: int| 0 <= k < old(children)@.len() ==> final(children)@[k] == old(children)@[k],
        forall|k: int|
            old(children)@.len() <= k < final(children)@.len() ==> #[trigger] coherent_slice_child(
                final(children)@[k],
                **parent,
            ),
{
    let src = &**parent;
    let sector = match read_sector(src, start_sect) {
        Some(s) => s,
        None => {
            return None;
        },
    };
    let sl = sector.as_slice();
    let start = match start_sect.checked_mul(512) {
        Some(v) => v,
        None => {
            return Some(());
        },
    };
    let mut added: Vec<Child> = Vec::new();
    push_slice_child(&mut added, parent, first_slot, start, 1024);
    let mut slot: u32 = first_slot + 1;
    let magic = read_le32(sl, 0);
    if magic != RISCIX_MAGIC {
        children.append(&mut added);
        return Some(());
    }
    let mut i: usize = 0;
    while i < 8
        invariant
            first_slot <= 1000,
            sector@.len() == 512,
            sl@.len() == 512,
            sl@ == sector@,
            i <= 8,
            added@.len() <= 1 + i,
            slot == first_slot + added@.len(),
            forall|k: int|
                0 <= k < added@.len() ==> #[trigger] coherent_slice_child(added@[k], **parent),
        decreases 8 - i,
    {
        let entry_off = 8 + i * 28;
        let part_start = read_le32(sl, entry_off);
        let length = read_le32(sl, entry_off + 4);
        let one = read_le32(sl, entry_off + 8);
        let all_marker = sl[entry_off + 12] == 0x41 && sl[entry_off + 13] == 0x6c && sl[entry_off
            + 14] == 0x6c && sl[entry_off + 15] == 0;
        if one != 0 && !all_marker && part_start > 0 && length > 0 {
            let sb = (part_start as u64) * 512;
            let lb = (length as u64) * 512;
            push_slice_child(&mut added, parent, slot, sb, lb);
            slot = slot + 1;
        }
        i = i + 1;
    }
    children.append(&mut added);
    Some(())
}

/// Parse an Acorn Linux table within a Cumana chain: a boot area child,
/// then one child per magic-tagged entry. `None` when the table sector
/// cannot be read whole.
pub fn parse_linux_cumana(
    parent: &Rc<Source>,
    start_sect: u64,
    children: &mut Vec<Child>,
    first_slot: u32,
) -> (r: Option<()>)
    requires
        first_slot <= 1000,
    ensures
        final(children)@.len() <= old(children)@.len() + 44,
        forall|k: int| 0 <= k < old(children)@.len() ==> final(children)@[k] == old(children)@[k],
        forall|k: int|
            old(children)@.len() <= k < final(children)@.len() ==> #[trigger] coherent_slice_child(
                final(children)@[k],
                **parent,
            ),
{
    let src = &**parent;
    let sector = match read_sector(src, start_sect) {
        Some(s) => s,
        None => {
            return None;
        },
    };
    let sl = sector.as_slice();
    let start = match start_sect.checked_mul(512) {
        Some(v) => v,
        None => {
            return Some(());
        },
    };
    let mut added: Vec<Child> = Vec::new();
    push_slice_child(&mut added, parent, first_slot, start, 1024);
    let mut slot: u32 = first_slot + 1;
    let mut offset: usize = 0;
    while offset + 12 <= 512
        invariant
            first_slot <= 1000,
            sector@.len() == 512,
            sl@.len() == 512,
            sl@ == sector@,
            offset <= 512,
            added@.len() * 12 <= 12 + offset,
            slot == first_slot + added@.len(),
            forall|k: int|
                0 <= k < added@.len() ==> #[trigger] coherent_slice_child(added@[k], **parent),
        decreases 512 - offset,
    {
        let magic = read_le32(sl, offset);
        if magic != LINUX_NATIVE_MAGIC && magic != LINUX_SWAP_MAGIC {
            break;
        }
        let part_start = read_le32(sl, offset + 4);
        let part_size = read_le32(sl, offset + 8);
        if part_start > 0 && part_size > 0 {
            let abs_sect = match start_sect.checked_add(part_start as u64) {
                Some(v) => v,
                None => {
                    offset = offset + 12;
                    continue;
                },
            };
            let abs_start = match abs_sect.checked_mul(512) {
                Some(v) => v,
                None => {
                    offset = offset + 12;
                    continue;
                },
            };
            let length = (part_size as u64) * 512;
            push_slice_child(&mut added, parent, slot, abs_start, length);
            slot = slot + 1;
        }
        offset = offset + 12;
    }
    children.append(&mut added);
    Some(())
}

} // verus!
