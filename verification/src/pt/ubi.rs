//! UBI flash image container.
//!
//! Physical erase blocks are scanned up to a hard cap; each block's
//! volume-ID header names the volume and logical block it carries. Every
//! user volume becomes one child whose reader maps logical blocks back to
//! the scanned physical positions; unmapped blocks read as zeroes.

use vstd::prelude::*;

use crate::container::{Child, ChildOrigin};
use crate::reader::{rc_clone, read_be16, read_be32, read_byte, Source};

use std::rc::Rc;

verus! {

/// Erase-counter header magic ("UBI#").
pub const EC_HDR_MAGIC: u32 = 0x55424923;

/// Volume-ID header magic ("UBI!").
pub const VID_HDR_MAGIC: u32 = 0x55424921;

/// First internal volume identifier; the layout volume lives here.
pub const UBI_INTERNAL_VOL_START: u32 = 0x7fffefff;

/// Most physical erase blocks that are scanned.
pub const MAX_PEBS: u32 = 65536;

/// Most volumes that are tracked.
pub const MAX_VOLUMES: u32 = 128;

/// One mapped logical erase block.
pub struct LebEntry {
    /// Logical block number.
    pub lnum: u32,
    /// Absolute offset of the block's data in the image.
    pub data_offset: u64,
    /// Bytes of data the header claims.
    pub data_size: u64,
}

/// One scanned volume: its identifier and mapped blocks.
struct VolEntry {
    vol_id: u32,
    lebs: Vec<LebEntry>,
}

/// Reader that maps a UBI volume's logical blocks onto the image.
pub struct UbiVolumeReader {
    parent: Rc<Source>,
    leb_map: Vec<LebEntry>,
    leb_size: u64,
    virtual_size: u64,
}

impl UbiVolumeReader {
    #[verifier::type_invariant]
    spec fn wf(self) -> bool {
        1 <= self.leb_size <= 0x10_0000
    }

    /// The volume's virtual size in bytes.
    pub closed spec fn spec_virtual_size(&self) -> u64 {
        self.virtual_size
    }

    /// The logical block size in bytes.
    pub closed spec fn spec_leb_size(&self) -> u64 {
        self.leb_size
    }

    /// The scanned block map.
    pub closed spec fn spec_leb_map(&self) -> Seq<LebEntry> {
        self.leb_map@
    }

    /// Whether no scanned block carries logical number `leb`. Such a block
    /// is read as zeroes without consulting the parent.
    pub open spec fn unmapped(&self, leb: int) -> bool {
        forall|i: int|
            0 <= i < self.spec_leb_map().len() ==> (#[trigger] self.spec_leb_map()[i]).lnum != leb
    }

    /// The largest length a read at `offset` may return: never past the
    /// virtual size, and never across a logical block boundary.
    pub open spec fn clamp(&self, offset: u64, len: usize) -> int {
        if offset >= self.spec_virtual_size() {
            0
        } else {
            vstd::math::min(
                len as int,
                vstd::math::min(
                    self.spec_leb_size() - offset as int % self.spec_leb_size() as int,
                    self.spec_virtual_size() - offset,
                ),
            )
        }
    }

    /// Build a volume reader over the scanned block map.
    pub fn new(parent: Rc<Source>, leb_map: Vec<LebEntry>, leb_size: u64) -> (r: Option<Self>)
    {
        if leb_size < 1 || leb_size > 0x10_0000 {
            return None;
        }
        let mut max_leb: u64 = 0;
        let mut any = false;
        let mut i: usize = 0;
        while i < leb_map.len()
            invariant
                i <= leb_map@.len(),
                max_leb <= 0xffff_ffff,
            decreases leb_map@.len() - i,
        {
            let l = leb_map[i].lnum as u64;
            if l > max_leb {
                max_leb = l;
            }
            any = true;
            i = i + 1;
        }
        let virtual_size = if any {
            match (max_leb + 1).checked_mul(leb_size) {
                Some(v) => v,
                None => {
                    return None;
                },
            }
        } else {
            0
        };
        Some(UbiVolumeReader { parent, leb_map, leb_size, virtual_size })
    }

    /// Total virtual size of the volume.
    pub fn size(&self) -> (r: u64)
        ensures
            r == self.spec_virtual_size(),
    {
        self.virtual_size
    }

    /// Read up to `len` bytes at virtual offset `offset`. The returned
    /// length never exceeds the clamp, and an unmapped logical block is
    /// answered with exactly the clamped number of zero bytes without
    /// touching the parent.
    pub fn read_at(&self, offset: u64, len: usize) -> (r: Vec<u8>)
        ensures
            r@.len() <= len,
            r@.len() <= self.clamp(offset, len),
            offset < self.spec_virtual_size() && self.unmapped(
                offset as int / self.spec_leb_size() as int,
            ) ==> r@.len() == self.clamp(offset, len) && (forall|j: int|
                0 <= j < r@.len() ==> r@[j] == 0),
        decreases self, 2int,
    {
        proof {
            use_type_invariant(self);
        }
        if offset >= self.virtual_size {
            let r: Vec<u8> = Vec::new();
            return r;
        }
        let leb_num = offset / self.leb_size;
        let in_leb = offset % self.leb_size;
        let remaining_in_leb = self.leb_size - in_leb;
        let remaining_in_vol = self.virtual_size - offset;
        let clamp64 = if remaining_in_leb <= remaining_in_vol {
            remaining_in_leb
        } else {
            remaining_in_vol
        };
        let to_read: usize = if (len as u64) <= clamp64 {
            len
        } else {
            clamp64 as usize
        };
        let mut i: usize = 0;
        while i < self.leb_map.len()
            invariant
                i <= self.leb_map@.len(),
                to_read <= len,
                to_read as int <= self.clamp(offset, len),
                leb_num == offset as int / self.spec_leb_size() as int,
                offset < self.spec_virtual_size(),
                self.unmapped(leb_num as int) ==> to_read as int == self.clamp(offset, len),
            decreases self.leb_map@.len() - i,
        {
            if self.leb_map[i].lnum as u64 == leb_num {
                proof {
                    assert(self.spec_leb_map()[i as int].lnum == leb_num);
                    assert(!self.unmapped(leb_num as int));
                }
                let e_off = self.leb_map[i].data_offset;
                let phys = match e_off.checked_add(in_leb) {
                    Some(v) => v,
                    None => {
                        let r: Vec<u8> = Vec::new();
                        return r;
                    },
                };
                return (&*self.parent).read_at(phys, to_read);
            }
            i = i + 1;
        }
        crate::disk::qcow2::zeroes(to_read)
    }
}

/// Probe the erase-block size by looking for repeated erase-counter
/// headers at candidate spacings; the most common size is the fallback.
pub fn detect_peb_size(src: &Source) -> (r: Option<u64>)
    ensures
        r matches Some(v) ==> 0x1_0000 <= v <= 0x10_0000,
{
    let magic = match read_be32(src, 0) {
        Some(v) => v,
        None => {
            return None;
        },
    };
    if magic != EC_HDR_MAGIC {
        return None;
    }
    let mut candidate: u64 = 0;
    let mut idx: u32 = 0;
    while idx < 5
        invariant
            idx <= 5,
            candidate == 0 || 0x1_0000 <= candidate <= 0x10_0000,
        decreases 5 - idx,
    {
        let peb_size: u64 = if idx == 0 {
            0x2_0000
        } else if idx == 1 {
            0x4_0000
        } else if idx == 2 {
            0x8_0000
        } else if idx == 3 {
            0x1_0000
        } else {
            0x10_0000
        };
        if candidate == 0 {
            if let Some(m) = read_be32(src, peb_size) {
                if m == EC_HDR_MAGIC {
                    candidate = peb_size;
                }
            }
        }
        idx = idx + 1;
    }
    if candidate != 0 {
        Some(candidate)
    } else {
        Some(0x2_0000)
    }
}

/// Scan the physical erase blocks, building each volume's logical block
/// map; later blocks for the same logical number replace earlier ones.
/// Also reports the common data offset within a block.
fn scan_pebs(src: &Source, peb_size: u64) -> (r: Option<(Vec<VolEntry>, u64)>)
    requires
        0x1_0000 <= peb_size <= 0x10_0000,
    ensures
        r matches Some(v) ==> v.0@.len() <= MAX_VOLUMES,
{
    let mut vols: Vec<VolEntry> = Vec::new();
    let mut data_offset: u64 = 0;
    let mut peb: u32 = 0;
    while peb < MAX_PEBS
        invariant
            0x1_0000 <= peb_size <= 0x10_0000,
            peb <= MAX_PEBS,
            vols@.len() <= MAX_VOLUMES,
        decreases MAX_PEBS - peb,
    {
        proof {
            assert((peb as u64) * peb_size <= 65536u64 * 0x10_0000u64) by (nonlinear_arith)
                requires
                    peb <= 65536u32,
                    peb_size <= 0x10_0000u64,
            ;
        }
        let peb_start = (peb as u64) * peb_size;
        let magic = match read_be32(src, peb_start) {
            Some(v) => v,
            None => {
                break;
            },
        };
        if magic != EC_HDR_MAGIC {
            peb = peb + 1;
            continue;
        }
        let peb_vid_offset = match read_be32(src, peb_start + 0x10) {
            Some(v) => v as u64,
            None => {
                return None;
            },
        };
        let peb_data_offset = match read_be32(src, peb_start + 0x14) {
            Some(v) => v as u64,
            None => {
                return None;
            },
        };
        if data_offset == 0 {
            data_offset = peb_data_offset;
        }
        if peb_vid_offset >= peb_size {
            peb = peb + 1;
            continue;
        }
        let vid_start = peb_start + peb_vid_offset;
        let vid_magic = match read_be32(src, vid_start) {
            Some(v) => v,
            None => {
                peb = peb + 1;
                continue;
            },
        };
        if vid_magic != VID_HDR_MAGIC {
            peb = peb + 1;
            continue;
        }
        let vol_id = match read_be32(src, vid_start + 0x08) {
            Some(v) => v,
            None => {
                return None;
            },
        };
        let lnum = match read_be32(src, vid_start + 0x0c) {
            Some(v) => v,
            None => {
                return None;
            },
        };
        let data_size = match read_be32(src, vid_start + 0x14) {
            Some(v) => v as u64,
            None => {
                return None;
            },
        };
        if peb_data_offset >= peb_size {
            peb = peb + 1;
            continue;
        }
        let abs_data_offset = peb_start + peb_data_offset;
        record_leb(&mut vols, vol_id, lnum, abs_data_offset, data_size);
        peb = peb + 1;
    }
    if vols.len() == 0 {
        return None;
    }
    Some((vols, data_offset))
}

/// Insert one scanned logical block into the volume list, replacing an
/// earlier sighting of the same block.
fn record_leb(vols: &mut Vec<VolEntry>, vol_id: u32, lnum: u32, data_offset: u64, data_size: u64)
    requires
        old(vols)@.len() <= MAX_VOLUMES,
    ensures
        final(vols)@.len() <= MAX_VOLUMES,
{
    let mut v: usize = 0;
    while v < vols.len()
        invariant
            v <= vols@.len(),
            vols@.len() <= MAX_VOLUMES,
            vols@ == old(vols)@,
        decreases vols@.len() - v,
    {
        if vols[v].vol_id == vol_id {
            let mut l: usize = 0;
            let n = vols[v].lebs.len();
            while l < n
                invariant
                    v < vols@.len(),
                    vols@.len() <= MAX_VOLUMES,
                    n <= vols@[v as int].lebs@.len(),
                    l <= n,
                decreases n - l,
            {
                if vols[v].lebs[l].lnum == lnum {
                    vols[v].lebs[l] = LebEntry { lnum, data_offset, data_size };
                    return ;
                }
                l = l + 1;
            }
            vols[v].lebs.push(LebEntry { lnum, data_offset, data_size });
            return ;
        }
        v = v + 1;
    }
    if vols.len() < MAX_VOLUMES as usize {
        let mut lebs: Vec<LebEntry> = Vec::new();
        lebs.push(LebEntry { lnum, data_offset, data_size });
        vols.push(VolEntry { vol_id, lebs });
    }
}

/// UBI flash image container.
pub struct UbiContainer;

impl UbiContainer {
    /// One child per user volume found by the scan; `None` when no
    /// erase-counter header opens the image or no volume is mapped.
    pub fn children(&self, reader: Rc<Source>) -> (r: Option<Vec<Child>>)
        ensures
            r matches Some(cs) ==> cs@.len() <= MAX_VOLUMES,
    {
        let src = &*reader;
        let peb_size = match detect_peb_size(src) {
            Some(v) => v,
            None => {
                return None;
            },
        };
        let (vols, data_offset) = match scan_pebs(src, peb_size) {
            Some(v) => v,
            None => {
                return None;
            },
        };
        if data_offset >= peb_size {
            return None;
        }
        let leb_size = peb_size - data_offset;
        let mut children: Vec<Child> = Vec::new();
        let mut vols = vols;
        while vols.len() > 0
            invariant
                children@.len() + vols@.len() <= MAX_VOLUMES,
                1 <= leb_size <= 0x10_0000,
            decreases vols@.len(),
        {
            let entry = vols.remove(0);
            if entry.vol_id >= UBI_INTERNAL_VOL_START {
                continue;
            }
            let vol_reader = match UbiVolumeReader::new(
                rc_clone(&reader),
                entry.lebs,
                leb_size,
            ) {
                Some(v) => v,
                None => {
                    continue;
                },
            };
            children.push(
                Child {
                    index: entry.vol_id,
                    origin: ChildOrigin::Slice { offset: 0 },
                    reader: Rc::new(Source::Ubi(vol_reader)),
                },
            );
        }
        Some(children)
    }
}

} // verus!
