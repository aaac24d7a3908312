//! Atari partition table container.
//!
//! Four primary entries sit in the root sector; an XGM entry starts a
//! chain of extension sectors, each link relative to the original XGM
//! start. Every link must strictly advance and stay inside the disk, and
//! the walk stops after a hard cap. When no XGM entry exists, the ICD
//! table is consulted as well.

use vstd::prelude::*;

use crate::container::{coherent_slice_child, Child};
use crate::pt::push_slice_child;
use crate::reader::{read_be32, read_byte, Source};

use std::rc::Rc;

verus! {

/// Most XGM extension sectors that are walked.
pub const MAX_XGM_CHAIN: u32 = 256;

/// One parsed root-sector partition entry.
pub struct AtariEntry {
    /// Flag byte; bit 0 marks the entry active.
    pub flags: u8,
    /// Three-letter partition type.
    pub id0: u8,
    /// Second letter of the type.
    pub id1: u8,
    /// Third letter of the type.
    pub id2: u8,
    /// First sector.
    pub start: u32,
    /// Length in sectors.
    pub size: u32,
}

/// Read one 12-byte partition entry; `None` when the sector ends first.
pub fn read_partition_entry(src: &Source, offset: u64) -> (r: Option<AtariEntry>) {
    if offset > u64::MAX - 12 {
        return None;
    }
    let flags = match read_byte(src, offset) {
        Some(v) => v,
        None => {
            return None;
        },
    };
    let id0 = match read_byte(src, offset + 1) {
        Some(v) => v,
        None => {
            return None;
        },
    };
    let id1 = match read_byte(src, offset + 2) {
        Some(v) => v,
        None => {
            return None;
        },
    };
    let id2 = match read_byte(src, offset + 3) {
        Some(v) => v,
        None => {
            return None;
        },
    };
    let start = match read_be32(src, offset + 4) {
        Some(v) => v,
        None => {
            return None;
        },
    };
    let size = match read_be32(src, offset + 8) {
        Some(v) => v,
        None => {
            return None;
        },
    };
    Some(AtariEntry { flags, id0, id1, id2, start, size })
}

fn alnum(c: u8) -> (r: bool)
    ensures
        r == spec_alnum(c),
{
    (0x30 <= c && c <= 0x39) || (0x41 <= c && c <= 0x5a) || (0x61 <= c && c <= 0x7a)
}

/// Whether byte `c` is an ASCII digit or letter.
pub open spec fn spec_alnum(c: u8) -> bool {
    (0x30 <= c <= 0x39) || (0x41 <= c <= 0x5a) || (0x61 <= c <= 0x7a)
}

/// Whether an entry is active, typed with three alphanumeric letters, and
/// lies whole inside the disk.
pub fn is_valid_partition(entry: &AtariEntry, hd_siz: u32) -> (r: bool)
    ensures
        r == {
            &&& entry.flags & 0x01 != 0
            &&& spec_alnum(entry.id0)
            &&& spec_alnum(entry.id1)
            &&& spec_alnum(entry.id2)
            &&& entry.start <= hd_siz
            &&& vstd::math::min(entry.start + entry.size, u32::MAX as int) <= hd_siz
        },
{
    if entry.flags & 0x01 == 0 {
        return false;
    }
    if !(alnum(entry.id0) && alnum(entry.id1) && alnum(entry.id2)) {
        return false;
    }
    if entry.start > hd_siz {
        return false;
    }
    let end = if entry.start <= u32::MAX - entry.size {
        entry.start + entry.size
    } else {
        u32::MAX
    };
    end <= hd_siz
}

/// Append a slice child for an entry with a nonzero start and size.
pub fn add_partition(parent: &Rc<Source>, entry: &AtariEntry, children: &mut Vec<Child>, index: u32)
    ensures
        old(children)@.len() <= final(children)@.len() <= old(children)@.len() + 1,
        forall|k: int| 0 <= k < old(children)@.len() ==> final(children)@[k] == old(children)@[k],
        forall|k: int|
            old(children)@.len() <= k < final(children)@.len() ==> #[trigger] coherent_slice_child(
                final(children)@[k],
                **parent,
            ),
{
    if entry.start == 0 || entry.size == 0 {
        return ;
    }
    let start = (entry.start as u64) * 512;
    let length = (entry.size as u64) * 512;
    push_slice_child(children, parent, index, start, length);
}

/// Walk the chain of XGM extension sectors. Each link must strictly
/// advance and stay inside the disk; the walk stops after the cap no
/// matter what the table says.
pub fn parse_xgm_chain(
    parent: &Rc<Source>,
    xgm_start: u32,
    hd_siz: u32,
    children: &mut Vec<Child>,
    first_index: u32,
) -> (r: u32)
    requires
        first_index <= 1000,
    ensures
        old(children)@.len() <= final(children)@.len() <= old(children)@.len() + MAX_XGM_CHAIN,
        forall|k: int| 0 <= k < old(children)@.len() ==> final(children)@[k] == old(children)@[k],
        forall|k: int|
            old(children)@.len() <= k < final(children)@.len() ==> #[trigger] coherent_slice_child(
                final(children)@[k],
                **parent,
            ),
        r <= first_index + MAX_XGM_CHAIN,
{
    let src = &**parent;
    let extension_sect = xgm_start as u64;
    let mut current_sect = xgm_start as u64;
    let mut added: Vec<Child> = Vec::new();
    let mut link: u32 = 0;
    while link < MAX_XGM_CHAIN
        invariant
            first_index <= 1000,
            extension_sect <= 0xffff_ffff,
            current_sect <= 0x1_ffff_ffff,
            link <= MAX_XGM_CHAIN,
            added@.len() <= link,
            forall|k: int|
                0 <= k < added@.len() ==> #[trigger] coherent_slice_child(added@[k], **parent),
        decreases MAX_XGM_CHAIN - link,
    {
        link = link + 1;
        let base = match current_sect.checked_mul(512) {
            Some(v) => v,
            None => {
                break;
            },
        };
        let entry0 = match read_partition_entry(src, base + 0x1c6) {
            Some(e) => e,
            None => {
                break;
            },
        };
        let entry1 = match read_partition_entry(src, base + 0x1c6 + 12) {
            Some(e) => e,
            None => {
                break;
            },
        };
        if entry0.flags & 0x01 != 0 && entry0.start > 0 && entry0.size > 0 {
            let abs_start = current_sect + entry0.start as u64;
            if abs_start + entry0.size as u64 <= hd_siz as u64 {
                let start_bytes = abs_start * 512;
                let length = (entry0.size as u64) * 512;
                let idx = first_index + (added.len() as u32);
                push_slice_child(&mut added, parent, idx, start_bytes, length);
            }
        }
        if !(entry1.id0 == 0x58 && entry1.id1 == 0x47 && entry1.id2 == 0x4d) || entry1.start == 0 {
            break;
        }
        let next_sect = extension_sect + entry1.start as u64;
        if next_sect <= current_sect || next_sect >= hd_siz as u64 {
            break;
        }
        current_sect = next_sect;
    }
    let count = added.len() as u32;
    children.append(&mut added);
    first_index + count
}

/// Parse the ICD table: eight entries consulted only when the first one
/// carries a known type.
pub fn parse_icd_partitions(
    parent: &Rc<Source>,
    hd_siz: u32,
    children: &mut Vec<Child>,
    first_index: u32,
) -> (r: u32)
    requires
        first_index <= 2000,
    ensures
        old(children)@.len() <= final(children)@.len() <= old(children)@.len() + 8,
        forall|k: int| 0 <= k < old(children)@.len() ==> final(children)@[k] == old(children)@[k],
        forall|k: int|
            old(children)@.len() <= k < final(children)@.len() ==> #[trigger] coherent_slice_child(
                final(children)@[k],
                **parent,
            ),
        r <= first_index + 8,
{
    let src = &**parent;
    let first = match read_partition_entry(src, 0x156) {
        Some(e) => e,
        None => {
            return first_index;
        },
    };
    let known = (first.id0 == 0x47 && first.id1 == 0x45 && first.id2 == 0x4d)  // GEM
        || (first.id0 == 0x42 && first.id1 == 0x47 && first.id2 == 0x4d)  // BGM
        || (first.id0 == 0x4c && first.id1 == 0x4e && first.id2 == 0x58)  // LNX
        || (first.id0 == 0x53 && first.id1 == 0x57 && first.id2 == 0x50)  // SWP
        || (first.id0 == 0x52 && first.id1 == 0x41 && first.id2 == 0x57);  // RAW
    if !known {
        return first_index;
    }
    let mut added: Vec<Child> = Vec::new();
    let mut i: u32 = 0;
    while i < 8
        invariant
            first_index <= 2000,
            i <= 8,
            added@.len() <= i,
            forall|k: int|
                0 <= k < added@.len() ==> #[trigger] coherent_slice_child(added@[k], **parent),
        decreases 8 - i,
    {
        let entry = match read_partition_entry(src, 0x156 + (i as u64) * 12) {
            Some(e) => e,
            None => {
                break;
            },
        };
        if is_valid_partition(&entry, hd_siz) {
            let idx = first_index + (added.len() as u32);
            add_partition(parent, &entry, &mut added, idx);
        }
        i = i + 1;
    }
    let count = added.len() as u32;
    children.append(&mut added);
    first_index + count
}

/// Atari partition table container.
pub struct AtariContainer;

impl AtariContainer {
    /// One slice child per valid primary entry, the XGM chain expanded,
    /// and the ICD table consulted when no XGM entry exists; `None` when
    /// the root sector cannot be read whole.
    pub fn children(&self, reader: Rc<Source>) -> (r: Option<Vec<Child>>)
        ensures
            r matches Some(cs) ==> cs@.len() <= 4 + 4 * MAX_XGM_CHAIN + 8 && forall|k: int|
                0 <= k < cs@.len() ==> #[trigger] coherent_slice_child(cs@[k], *reader),
    {
        let src = &*reader;
        let hd_siz = match read_be32(src, 0x1c2) {
            Some(v) => v,
            None => {
                return None;
            },
        };
        let mut children: Vec<Child> = Vec::new();
        let mut partition_index: u32 = 0;
        let mut has_xgm = false;
        let mut i: u32 = 0;
        while i < 4
            invariant
                i <= 4,
                children@.len() <= 257 * i,
                partition_index <= 257 * i,
                forall|k: int|
                    0 <= k < children@.len() ==> #[trigger] coherent_slice_child(
                        children@[k],
                        *reader,
                    ),
            decreases 4 - i,
        {
            let entry = match read_partition_entry(src, 0x1c6 + (i as u64) * 12) {
                Some(e) => e,
                None => {
                    break;
                },
            };
            if !is_valid_partition(&entry, hd_siz) {
                i = i + 1;
                continue;
            }
            if entry.id0 == 0x58 && entry.id1 == 0x47 && entry.id2 == 0x4d {
                has_xgm = true;
                partition_index = parse_xgm_chain(
                    &reader,
                    entry.start,
                    hd_siz,
                    &mut children,
                    partition_index,
                );
            } else {
                add_partition(&reader, &entry, &mut children, partition_index);
                partition_index = partition_index + 1;
            }
            i = i + 1;
        }
        if !has_xgm {
            if partition_index <= 2000 {
                parse_icd_partitions(&reader, hd_siz, &mut children, partition_index);
            }
        }
        Some(children)
    }
}

} // verus!
