//! S/390 DASD label container.
//!
//! The volume label sits in sector 1 or 2 and is tagged in EBCDIC. LNX1
//! and CMS1 labels describe one partition each; VOL1 volumes would need
//! geometry-aware VTOC traversal and yield no children.

use vstd::prelude::*;

use crate::container::{coherent_slice_child, Child};
use crate::pt::push_slice_child;
use crate::reader::{read_be32, read_be64, read_byte, Source};

use std::rc::Rc;

verus! {

/// "VOL1" in EBCDIC.
pub const VOL1_EBCDIC: u32 = 0xe5d6d3f1;

/// "LNX1" in EBCDIC.
pub const LNX1_EBCDIC: u32 = 0xd3d5e7f1;

/// "CMS1" in EBCDIC.
pub const CMS1_EBCDIC: u32 = 0xc3d4e2f1;

/// S/390 DASD label container.
pub struct DasdContainer;

impl DasdContainer {
    /// At most one slice child, depending on the label flavor found;
    /// `None` when neither candidate sector carries a known label.
    pub fn children(&self, reader: Rc<Source>) -> (r: Option<Vec<Child>>)
        ensures
            r matches Some(cs) ==> cs@.len() <= 1 && forall|k: int|
                0 <= k < cs@.len() ==> #[trigger] coherent_slice_child(cs@[k], *reader),
    {
        let src = &*reader;
        let mut label_sector: u64 = 1;
        while label_sector <= 2
            invariant
                1 <= label_sector <= 3,
            decreases 3 - label_sector,
        {
            let label_offset = label_sector * 512;
            let magic = match read_be32(src, label_offset) {
                Some(v) => v,
                None => {
                    return None;
                },
            };
            if magic == VOL1_EBCDIC {
                let children: Vec<Child> = Vec::new();
                return Some(children);
            }
            if magic == LNX1_EBCDIC {
                return parse_lnx1(&reader, label_offset, label_sector);
            }
            if magic == CMS1_EBCDIC {
                return parse_cms1(&reader, label_offset, label_sector);
            }
            label_sector = label_sector + 1;
        }
        None
    }
}

/// Parse an LNX1 label: large-volume labels carry the formatted size, and
/// the partition covers everything after the label block.
pub fn parse_lnx1(parent: &Rc<Source>, label_offset: u64, label_sector: u64) -> (r: Option<
    Vec<Child>,
>)
    requires
        label_offset == label_sector * 512,
        1 <= label_sector <= 2,
    ensures
        r matches Some(cs) ==> cs@.len() <= 1 && forall|k: int|
            0 <= k < cs@.len() ==> #[trigger] coherent_slice_child(cs@[k], **parent),
{
    let src = &**parent;
    let version = match read_byte(src, label_offset + 0x0a) {
        Some(v) => v,
        None => {
            return None;
        },
    };
    let size_sectors: u64 = if version == 0xf2 {
        match read_be64(src, label_offset + 0x0b) {
            Some(v) => v,
            None => {
                return None;
            },
        }
    } else {
        0
    };
    let mut children: Vec<Child> = Vec::new();
    if size_sectors == 0 {
        return Some(children);
    }
    let start = (label_sector + 1) * 512;
    let total = match size_sectors.checked_mul(512) {
        Some(v) => v,
        None => {
            return Some(children);
        },
    };
    if total <= start {
        return Some(children);
    }
    let length = total - start;
    push_slice_child(&mut children, parent, 0, start, length);
    Some(children)
}

/// Parse a CMS1 label: a minidisk names its own offset and size, a
/// regular disk starts after the label area.
pub fn parse_cms1(parent: &Rc<Source>, label_offset: u64, label_sector: u64) -> (r: Option<
    Vec<Child>,
>)
    requires
        label_offset == label_sector * 512,
        1 <= label_sector <= 2,
    ensures
        r matches Some(cs) ==> cs@.len() <= 1 && forall|k: int|
            0 <= k < cs@.len() ==> #[trigger] coherent_slice_child(cs@[k], **parent),
{
    let src = &**parent;
    let block_size = match read_be32(src, label_offset + 0x0c) {
        Some(v) => v,
        None => {
            return None;
        },
    };
    let disk_offset = match read_be32(src, label_offset + 0x10) {
        Some(v) => v,
        None => {
            return None;
        },
    };
    let block_count = match read_be32(src, label_offset + 0x14) {
        Some(v) => v,
        None => {
            return None;
        },
    };
    let mut children: Vec<Child> = Vec::new();
    if block_size == 0 || block_count == 0 {
        return Some(children);
    }
    let secperblk = (block_size / 512) as u64;
    if disk_offset != 0 {
        let start = match (disk_offset as u64).checked_mul(secperblk) {
            Some(v) => match v.checked_mul(512) {
                Some(w) => w,
                None => {
                    return Some(children);
                },
            },
            None => {
                return Some(children);
            },
        };
        let length = match ((block_count - 1) as u64).checked_mul(secperblk) {
            Some(v) => match v.checked_mul(512) {
                Some(w) => w,
                None => {
                    return Some(children);
                },
            },
            None => {
                return Some(children);
            },
        };
        push_slice_child(&mut children, parent, 0, start, length);
        return Some(children);
    }
    let start = if label_sector == 1 {
        match secperblk.checked_mul(1024) {
            Some(v) => v,
            None => {
                return Some(children);
            },
        }
    } else {
        match (label_sector + secperblk).checked_mul(512) {
            Some(v) => v,
            None => {
                return Some(children);
            },
        }
    };
    let total = match (block_count as u64).checked_mul(secperblk) {
        Some(v) => match v.checked_mul(512) {
            Some(w) => w,
            None => {
                return Some(children);
            },
        },
        None => {
            return Some(children);
        },
    };
    if total <= start {
        return Some(children);
    }
    let length = total - start;
    push_slice_child(&mut children, parent, 0, start, length);
    Some(children)
}

} // verus!
