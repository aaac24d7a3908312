//! Master boot record partition table container.
//!
//! The four primary slots are read from the boot sector; extended
//! partitions (types 0x05 and 0x0F) start a chain of extended boot
//! records. The chain walk enforces strict forward progress and a hard
//! iteration cap, so a table whose next pointer points backward — or at
//! itself — only truncates the chain.

use vstd::prelude::*;

use crate::container::{
    clamped_len, coherent_slice_child, is_slice_child, Child, ChildOrigin,
};
use crate::reader::{byte_of, le16_of, le32_of, read_byte, read_le16, read_le32, Source, SliceReader};

use std::rc::Rc;

verus! {

/// Most logical partitions one extended-partition chain may yield.
pub const MAX_LOGICAL: u32 = 256;

/// Whether content `c` carries the MBR boot signature at byte 510 of the
/// sector starting at `base`.
pub open spec fn mbr_sig_ok(c: Seq<u8>, base: int) -> bool {
    base + 512 <= c.len() && le16_of(c, base + 510) == 0xaa55
}

/// One parsed partition entry.
#[derive(Clone, Copy)]
pub struct PartitionEntry {
    /// Partition type code.
    pub type_code: u8,
    /// First sector, relative to the table's reference point.
    pub lba_start: u32,
    /// Length in sectors.
    pub sector_count: u32,
}

/// The partition type of entry `i` of the table in the sector at `base`.
pub open spec fn mbr_entry_type(c: Seq<u8>, base: int, i: int) -> int {
    byte_of(c, base + 446 + i * 16 + 4)
}

/// The first sector of entry `i` of the table in the sector at `base`,
/// relative to the table's reference point.
pub open spec fn mbr_entry_lba(c: Seq<u8>, base: int, i: int) -> int {
    le32_of(c, base + 446 + i * 16 + 8)
}

/// The sector count of entry `i` of the table in the sector at `base`.
pub open spec fn mbr_entry_count(c: Seq<u8>, base: int, i: int) -> int {
    le32_of(c, base + 446 + i * 16 + 12)
}

/// Read the boot signature and the four partition entries of the sector at
/// `lba`; `None` exactly when the signature is missing or the sector
/// unreadable. Each returned entry carries the type, start and count
/// stored in its slot.
pub fn read_partition_table(src: &Source, lba: u64) -> (r: Option<Vec<PartitionEntry>>)
    ensures
        r matches Some(es) ==> es@.len() == 4,
        src.plain() ==> {
            let c = src.content();
            let base = lba as int * 512;
            match r {
                Some(es) => mbr_sig_ok(c, base) && es@.len() == 4 && forall|i: int|
                    0 <= i < 4 ==> {
                        &&& (#[trigger] es@[i]).type_code == mbr_entry_type(c, base, i)
                        &&& es@[i].lba_start == mbr_entry_lba(c, base, i)
                        &&& es@[i].sector_count == mbr_entry_count(c, base, i)
                    },
                None => base + 510 > u64::MAX || !mbr_sig_ok(c, base),
            }
        },
{
    let base = match lba.checked_mul(512) {
        Some(b) => b,
        None => {
            return None;
        },
    };
    let sig_off = match base.checked_add(510) {
        Some(v) => v,
        None => {
            return None;
        },
    };
    let sig = match read_le16(src, sig_off) {
        Some(v) => v,
        None => {
            return None;
        },
    };
    if sig != 0xaa55 {
        return None;
    }
    let mut entries: Vec<PartitionEntry> = Vec::new();
    let mut i: u64 = 0;
    while i < 4
        invariant
            i <= 4,
            entries@.len() == i,
            base + 510 <= u64::MAX,
            base == lba * 512,
            src.plain() ==> {
                let c = src.content();
                &&& mbr_sig_ok(c, base as int)
                &&& forall|j: int|
                    0 <= j < i ==> {
                        &&& (#[trigger] entries@[j]).type_code == mbr_entry_type(c, base as int, j)
                        &&& entries@[j].lba_start == mbr_entry_lba(c, base as int, j)
                        &&& entries@[j].sector_count == mbr_entry_count(c, base as int, j)
                    }
            },
        decreases 4 - i,
    {
        let entry_offset = base + 446 + i * 16;
        let type_code = match read_byte(src, entry_offset + 4) {
            Some(v) => v,
            None => {
                return None;
            },
        };
        let lba_start = match read_le32(src, entry_offset + 8) {
            Some(v) => v,
            None => {
                return None;
            },
        };
        let sector_count = match read_le32(src, entry_offset + 12) {
            Some(v) => v,
            None => {
                return None;
            },
        };
        entries.push(PartitionEntry { type_code, lba_start, sector_count });
        i = i + 1;
    }
    Some(entries)
}

/// Walk the chain of extended boot records, collecting logical partitions.
/// Each link must strictly advance and stay inside the extended partition;
/// the walk stops after `MAX_LOGICAL` records no matter what the table
/// says.
fn parse_extended_chain(
    parent: &Rc<Source>,
    extended_start: u64,
    extended_size: u64,
    first_index: u32,
) -> (r: Vec<Child>)
    requires
        extended_start <= u64::MAX / 512,
        extended_size <= u64::MAX / 512,
    ensures
        r@.len() <= MAX_LOGICAL,
        forall|k: int| 0 <= k < r@.len() ==> #[trigger] coherent_slice_child(r@[k], **parent),
        forall|k: int| 0 <= k < r@.len() ==> (#[trigger] r@[k]).index == first_index + k,
{
    let src = &**parent;
    let mut children: Vec<Child> = Vec::new();
    let mut current_ebr_lba = extended_start;
    let mut iter: u32 = 0;
    while iter < MAX_LOGICAL
        invariant
            extended_start <= u64::MAX / 512,
            extended_size <= u64::MAX / 512,
            current_ebr_lba <= u64::MAX / 512 * 2,
            children@.len() <= iter,
            iter <= MAX_LOGICAL,
            forall|k: int|
                0 <= k < children@.len() ==> #[trigger] coherent_slice_child(
                    children@[k],
                    **parent,
                ),
            first_index + children@.len() <= u32::MAX + 1,
            forall|k: int|
                0 <= k < children@.len() ==> (#[trigger] children@[k]).index == first_index + k,
        decreases MAX_LOGICAL - iter,
    {
        let entries = match read_partition_table(src, current_ebr_lba) {
            Some(e) => e,
            None => {
                return children;
            },
        };
        let logical = entries[0];
        if logical.type_code != 0 && logical.lba_start > 0 && logical.sector_count > 0 {
            let partition_lba = match current_ebr_lba.checked_add(logical.lba_start as u64) {
                Some(v) => v,
                None => {
                    return children;
                },
            };
            let partition_end = match partition_lba.checked_add(logical.sector_count as u64) {
                Some(v) => v,
                None => {
                    return children;
                },
            };
            if partition_end <= extended_start + extended_size {
                let offset = match partition_lba.checked_mul(512) {
                    Some(v) => v,
                    None => {
                        return children;
                    },
                };
                let length = (logical.sector_count as u64) * 512;
                let idx = match first_index.checked_add(children.len() as u32) {
                    Some(v) => v,
                    None => {
                        return children;
                    },
                };
                let slice = SliceReader::new(crate::reader::rc_clone(parent), offset, length);
                children.push(
                    Child {
                        index: idx,
                        origin: ChildOrigin::Slice { offset },
                        reader: Rc::new(Source::Slice(slice)),
                    },
                );
            }
        }
        let next_ebr = entries[1];
        if next_ebr.type_code == 0 || next_ebr.lba_start == 0 {
            return children;
        }
        let next_lba = extended_start + next_ebr.lba_start as u64;
        if next_lba >= extended_start + extended_size {
            return children;
        }
        if next_lba <= current_ebr_lba {
            return children;
        }
        current_ebr_lba = next_lba;
        iter = iter + 1;
    }
    children
}

/// Whether entry `s` of the boot sector's table names a used primary
/// partition: typed, started and sized, and neither a protective GPT entry
/// nor the head of an extended chain.
pub open spec fn mbr_primary_slot(c: Seq<u8>, s: int) -> bool {
    let t = mbr_entry_type(c, 0, s);
    &&& t != 0
    &&& t != 0xee
    &&& t != 0x05
    &&& t != 0x0f
    &&& mbr_entry_lba(c, 0, s) > 0
    &&& mbr_entry_count(c, 0, s) > 0
}

/// MBR partition table container.
pub struct MbrContainer;

impl MbrContainer {
    /// One slice child per used primary entry — carrying its slot as index
    /// and slicing the parent at its entry's sectors — plus the logical
    /// partitions of every extended-partition chain; `None` when the boot
    /// signature is missing.
    pub fn children(&self, reader: Rc<Source>) -> (r: Option<Vec<Child>>)
        ensures
            reader.plain() ==> (r is Some <==> mbr_sig_ok(reader.content(), 0)),
            r matches Some(cs) ==> cs@.len() <= 4 * MAX_LOGICAL + 4 && forall|k: int|
                0 <= k < cs@.len() ==> #[trigger] coherent_slice_child(cs@[k], *reader),
            reader.plain() ==> match r {
                Some(cs) => forall|s: int|
                    0 <= s < 4 && #[trigger] mbr_primary_slot(reader.content(), s) ==> exists|
                        k: int,
                    |
                        0 <= k < cs@.len() && is_slice_child(
                            #[trigger] cs@[k],
                            *reader,
                            s as u32,
                            (mbr_entry_lba(reader.content(), 0, s) * 512) as u64,
                            clamped_len(
                                (mbr_entry_lba(reader.content(), 0, s) * 512) as u64,
                                (mbr_entry_count(reader.content(), 0, s) * 512) as u64,
                            ),
                        ),
                None => true,
            },
    {
        let src = &*reader;
        let entries = match read_partition_table(src, 0) {
            Some(e) => e,
            None => {
                return None;
            },
        };
        let ghost pc = src.content();
        let mut children: Vec<Child> = Vec::new();
        let mut next_logical: u32 = 4;
        let mut slot: usize = 0;
        while slot < 4
            invariant
                src == &*reader,
                entries@.len() == 4,
                slot <= 4,
                children@.len() <= 257 * slot,
                next_logical <= 4 + 256 * slot,
                forall|k: int|
                    0 <= k < children@.len() ==> #[trigger] coherent_slice_child(
                        children@[k],
                        *reader,
                    ),
                src.plain() ==> {
                    &&& pc == src.content()
                    &&& forall|i: int|
                        0 <= i < 4 ==> {
                            &&& (#[trigger] entries@[i]).type_code == mbr_entry_type(pc, 0, i)
                            &&& entries@[i].lba_start == mbr_entry_lba(pc, 0, i)
                            &&& entries@[i].sector_count == mbr_entry_count(pc, 0, i)
                        }
                    &&& forall|s: int|
                        0 <= s < slot && #[trigger] mbr_primary_slot(pc, s) ==> exists|k: int|
                            0 <= k < children@.len() && is_slice_child(
                                #[trigger] children@[k],
                                *reader,
                                s as u32,
                                (mbr_entry_lba(pc, 0, s) * 512) as u64,
                                clamped_len(
                                    (mbr_entry_lba(pc, 0, s) * 512) as u64,
                                    (mbr_entry_count(pc, 0, s) * 512) as u64,
                                ),
                            )
                },
            decreases 4 - slot,
        {
            let entry = entries[slot];
            if entry.type_code == 0x00 || entry.type_code == 0xee {
                slot = slot + 1;
                continue;
            }
            if entry.type_code == 0x05 || entry.type_code == 0x0f {
                let mut logical = parse_extended_chain(
                    &reader,
                    entry.lba_start as u64,
                    entry.sector_count as u64,
                    next_logical,
                );
                let ghost old_children = children@;
                next_logical = next_logical + logical.len() as u32;
                children.append(&mut logical);
                proof {
                    assert(forall|k: int|
                        0 <= k < old_children.len() ==> children@[k] == old_children[k]);
                }
            } else if entry.lba_start > 0 && entry.sector_count > 0 {
                let offset = (entry.lba_start as u64) * 512;
                let length = (entry.sector_count as u64) * 512;
                let slice = SliceReader::new(crate::reader::rc_clone(&reader), offset, length);
                let ghost old_children = children@;
                children.push(
                    Child {
                        index: slot as u32,
                        origin: ChildOrigin::Slice { offset },
                        reader: Rc::new(Source::Slice(slice)),
                    },
                );
                proof {
                    assert(forall|k: int|
                        0 <= k < old_children.len() ==> children@[k] == old_children[k]);
                    if src.plain() {
                        assert(is_slice_child(
                            children@[old_children.len() as int],
                            *reader,
                            slot as u32,
                            (mbr_entry_lba(pc, 0, slot as int) * 512) as u64,
                            clamped_len(
                                (mbr_entry_lba(pc, 0, slot as int) * 512) as u64,
                                (mbr_entry_count(pc, 0, slot as int) * 512) as u64,
                            ),
                        ));
                    }
                }
            }
            slot = slot + 1;
        }
        Some(children)
    }
}

} // verus!
