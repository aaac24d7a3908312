//! ADFS partition table container.
//!
//! The native Acorn format: a boot block at sector 6, guarded by the ADFS
//! carry-folding checksum, describes the primary partition; a secondary
//! RISCiX or Linux partition may follow at a cylinder boundary, each with
//! its own small table.

use vstd::prelude::*;

use crate::checksum;
use crate::container::{coherent_slice_child, Child};
use crate::pt::{adfs_checksum, push_slice_child, read_le32, read_sector};
use crate::reader::{le32_of, Source};

use std::rc::Rc;

verus! {

/// RISCiX partition type codes (MFM and SCSI variants).
pub const PARTITION_RISCIX_MFM: u8 = 1;

/// RISCiX SCSI partition type code.
pub const PARTITION_RISCIX_SCSI: u8 = 2;

/// Acorn Linux partition type code.
pub const PARTITION_LINUX: u8 = 9;

/// RISCiX partition table magic.
pub const RISCIX_MAGIC: u32 = 0x4a657320;

/// Acorn Linux native partition magic.
pub const LINUX_NATIVE_MAGIC: u32 = 0xdeafa1de;

/// Acorn Linux swap partition magic.
pub const LINUX_SWAP_MAGIC: u32 = 0xdeafab1e;

/// The ADFS disc record found at offset 0x1c0 of the boot block.
pub struct DiscRecord {
    /// Log2 of the sector size.
    pub log2secsize: u8,
    /// Sectors per track.
    pub secspertrack: u8,
    /// Head count.
    pub heads: u8,
    /// Low sector byte; bit 6 adjusts the head count.
    pub lowsector: u8,
    /// Disc size in bytes, low word.
    pub disc_size: u32,
    /// Disc size in bytes, high word.
    pub disc_size_high: u32,
}

impl DiscRecord {
    /// Parse a disc record out of a boot block; `None` when the block is
    /// too short to hold one.
    pub fn parse(data: &[u8]) -> (r: Option<Self>)
        ensures
            match r {
                Some(d) => data@.len() >= 0x1f0 && d.log2secsize == data@[0x1c0]
                    && d.secspertrack == data@[0x1c1] && d.heads == data@[0x1c2] && d.lowsector
                    == data@[0x1c8] && d.disc_size == le32_of(data@, 0x1d0) && d.disc_size_high
                    == le32_of(data@, 0x1e4),
                None => data@.len() < 0x1f0,
            },
    {
        if data.len() < 0x1c0 + 48 {
            return None;
        }
        Some(
            DiscRecord {
                log2secsize: data[0x1c0],
                secspertrack: data[0x1c1],
                heads: data[0x1c2],
                lowsector: data[0x1c8],
                disc_size: read_le32(data, 0x1d0),
                disc_size_high: read_le32(data, 0x1e4),
            },
        )
    }

    /// The partition size in sectors: the high word supplies bits above
    /// the low word's sector count.
    pub fn sectors(&self) -> (r: u64)
        ensures
            r == (((self.disc_size_high as u64) << 23u64) | ((self.disc_size as u64) >> 9u64)),
    {
        ((self.disc_size_high as u64) << 23) | ((self.disc_size as u64) >> 9)
    }

    /// The effective head count: bit 6 of the low sector byte adds one.
    pub fn effective_heads(&self) -> (r: u64)
        ensures
            r == self.heads + (if self.lowsector & 0x40 != 0 {
                1u64
            } else {
                0u64
            }),
    {
        self.heads as u64 + (
        if (self.lowsector & 0x40) != 0 {
            1u64
        } else {
            0u64
        })
    }
}

/// ADFS partition table container.
pub struct AdfsContainer;

impl AdfsContainer {
    /// The primary partition, and the secondary RISCiX or Linux partitions
    /// where the boot block names them; `None` when the boot block cannot
    /// be read whole, fails its checksum, or declares a zero-sized disc.
    pub fn children(&self, reader: Rc<Source>) -> (r: Option<Vec<Child>>)
        ensures
            r matches Some(cs) ==> cs@.len() <= 45 && forall|k: int|
                0 <= k < cs@.len() ==> #[trigger] coherent_slice_child(cs@[k], *reader),
            (*reader).plain() && r is Some ==> 0xe00 <= (*reader).content().len()
                && checksum::adfs_valid((*reader).content().subrange(0xc00, 0xe00)),
    {
        let src = &*reader;
        let boot = match read_sector(src, 6) {
            Some(s) => s,
            None => {
                return None;
            },
        };
        if !adfs_checksum(boot.as_slice()) {
            return None;
        }
        let dr = match DiscRecord::parse(boot.as_slice()) {
            Some(d) => d,
            None => {
                return None;
            },
        };
        if dr.disc_size == 0 && dr.disc_size_high == 0 {
            return None;
        }
        let mut children: Vec<Child> = Vec::new();
        let nr_sects = dr.sectors();
        if nr_sects > 0 {
            let length = match nr_sects.checked_mul(512) {
                Some(v) => v,
                None => {
                    return None;
                },
            };
            push_slice_child(&mut children, &reader, 0, 0, length);
        }
        let part_type = boot[0x1fc] & 0x0f;
        if part_type != 0 {
            let heads = dr.effective_heads();
            let sectscyl = match (dr.secspertrack as u64).checked_mul(heads) {
                Some(v) => v,
                None => {
                    return Some(children);
                },
            };
            let cylinder = ((boot[0x1fe] as u64) << 8) | (boot[0x1fd] as u64);
            let start_sect = match cylinder.checked_mul(sectscyl) {
                Some(v) => v,
                None => {
                    return Some(children);
                },
            };
            if start_sect > 0 {
                if part_type == PARTITION_RISCIX_MFM || part_type == PARTITION_RISCIX_SCSI {
                    if parse_riscix(&reader, start_sect, &mut children).is_none() {
                        return None;
                    }
                } else if part_type == PARTITION_LINUX {
                    if parse_linux(&reader, start_sect, &mut children).is_none() {
                        return None;
                    }
                } else {
                    let start = match start_sect.checked_mul(512) {
                        Some(v) => v,
                        None => {
                            return Some(children);
                        },
                    };
                    push_slice_child(&mut children, &reader, 1, start, u64::MAX - start);
                }
            }
        }
        Some(children)
    }
}

/// Parse a RISCiX partition table at `start_sect`: a boot area child, then
/// one child per usable table entry. `None` when the table sector cannot
/// be read whole.
pub fn parse_riscix(parent: &Rc<Source>, start_sect: u64, children: &mut Vec<Child>) -> (r: Option<
    (),
>)
    ensures
        final(children)@.len() <= old(children)@.len() + 9,
        forall|k: int| 0 <= k < old(children)@.len() ==> final(children)@[k] == old(children)@[k],
        forall|k: int|
            old(children)@.len() <= k < final(children)@.len() ==> #[trigger] coherent_slice_child(
                final(children)@[k],
                **parent,
            ),
{
    let src = &**parent;
    let sector = match read_sector(src, start_sect) {
        Some(s) => s,
        None => {
            return None;
        },
    };
    let sl = sector.as_slice();
    let magic = read_le32(sl, 0);
    let start_bytes = match start_sect.checked_mul(512) {
        Some(v) => v,
        None => {
            return Some(());
        },
    };
    let mut added: Vec<Child> = Vec::new();
    if magic != RISCIX_MAGIC {
        push_slice_child(&mut added, parent, 1, start_bytes, u64::MAX - start_bytes);
        children.append(&mut added);
        return Some(());
    }
    push_slice_child(&mut added, parent, 1, start_bytes, 512);
    let mut slot: u32 = 2;
    let mut i: usize = 0;
    while i < 8
        invariant
            sector@.len() == 512,
            sl@.len() == 512,
            sl@ == sector@,
            i <= 8,
            added@.len() <= 1 + i,
            slot == 1 + added@.len(),
            forall|k: int|
                0 <= k < added@.len() ==> #[trigger] coherent_slice_child(added@[k], **parent),
        decreases 8 - i,
    {
        let entry_off = 8 + i * 28;
        let part_start = read_le32(sl, entry_off);
        let length = read_le32(sl, entry_off + 4);
        let one = read_le32(sl, entry_off + 8);
        let all_marker = sl[entry_off + 12] == 0x41 && sl[entry_off + 13] == 0x6c && sl[entry_off
            + 14] == 0x6c && sl[entry_off + 15] == 0;
        if one != 0 && !all_marker && part_start > 0 && length > 0 {
            let sb = (part_start as u64) * 512;
            let lb = (length as u64) * 512;
            push_slice_child(&mut added, parent, slot, sb, lb);
            slot = slot + 1;
        }
        i = i + 1;
    }
    children.append(&mut added);
    Some(())
}

/// Parse an Acorn Linux partition table at `start_sect`: a boot area
/// child, then one child per magic-tagged entry. `None` when the table
/// sector cannot be read whole.
pub fn parse_linux(parent: &Rc<Source>, start_sect: u64, children: &mut Vec<Child>) -> (r: Option<
    (),
>)
    ensures
        final(children)@.len() <= old(children)@.len() + 44,
        forall|k: int| 0 <= k < old(children)@.len() ==> final(children)@[k] == old(children)@[k],
        forall|k: int|
            old(children)@.len() <= k < final(children)@.len() ==> #[trigger] coherent_slice_child(
                final(children)@[k],
                **parent,
            ),
{
    let src = &**parent;
    let sector = match read_sector(src, start_sect) {
        Some(s) => s,
        None => {
            return None;
        },
    };
    let sl = sector.as_slice();
    let start_bytes = match start_sect.checked_mul(512) {
        Some(v) => v,
        None => {
            return Some(());
        },
    };
    let mut added: Vec<Child> = Vec::new();
    push_slice_child(&mut added, parent, 1, start_bytes, 1024);
    let mut slot: u32 = 2;
    let mut offset: usize = 0;
    while offset + 12 <= 512
        invariant
            sector@.len() == 512,
            sl@.len() == 512,
            sl@ == sector@,
            offset <= 512,
            added@.len() * 12 <= 12 + offset,
            slot == 1 + added@.len(),
            forall|k: int|
                0 <= k < added@.len() ==> #[trigger] coherent_slice_child(added@[k], **parent),
        decreases 512 - offset,
    {
        let magic = read_le32(sl, offset);
        if magic != LINUX_NATIVE_MAGIC && magic != LINUX_SWAP_MAGIC {
            break;
        }
        let part_start = read_le32(sl, offset + 4);
        let part_size = read_le32(sl, offset + 8);
        if part_start > 0 && part_size > 0 {
            let abs_sect = match start_sect.checked_add(part_start as u64) {
                Some(v) => v,
                None => {
                    offset = offset + 12;
                    continue;
                },
            };
            let abs_start = match abs_sect.checked_mul(512) {
                Some(v) => v,
                None => {
                    offset = offset + 12;
                    continue;
                },
            };
            let length = (part_size as u64) * 512;
            push_slice_child(&mut added, parent, slot, abs_start, length);
            slot = slot + 1;
        }
        offset = offset + 12;
    }
    children.append(&mut added);
    Some(())
}

} // verus!
