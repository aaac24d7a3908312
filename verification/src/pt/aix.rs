//! AIX LVM physical volume container.
//!
//! The LVM record at sector 7 locates the volume group descriptor area;
//! scanning the physical partition entries reconstructs each logical
//! volume that is laid out contiguously, and only those become children.

use vstd::prelude::*;

use crate::container::{coherent_slice_child, Child};
use crate::pt::push_slice_child;
use crate::reader::{read_be16, read_be32, Source};

use std::rc::Rc;

verus! {

/// Most logical volumes a volume group may hold.
pub const MAX_LVS: u16 = 256;

/// Most physical partition entries that are scanned.
pub const MAX_PPES: u16 = 1016;

/// Whether content `c` carries a readable LVM record at sector seven: the
/// `_LVM` magic and the record fields the scan starts from.
pub open spec fn aix_lvm_ok(c: Seq<u8>) -> bool {
    &&& c.len() >= 7 * 512 + 0x30
    &&& c[3584] == 0x5f
    &&& c[3585] == 0x4c
    &&& c[3586] == 0x56
    &&& c[3587] == 0x4d
}

/// AIX LVM container.
pub struct AixContainer;

impl AixContainer {
    /// One slice child per contiguously laid-out logical volume; `None`
    /// exactly when the LVM record cannot be read whole or carries no
    /// magic. A descriptor area that cannot be walked yields no children
    /// rather than a failure.
    pub fn children(&self, reader: Rc<Source>) -> (r: Option<Vec<Child>>)
        ensures
            r matches Some(cs) ==> cs@.len() <= MAX_LVS && forall|k: int|
                0 <= k < cs@.len() ==> #[trigger] coherent_slice_child(cs@[k], *reader),
            (*reader).plain() ==> (r is Some <==> aix_lvm_ok((*reader).content())),
    {
        let src = &*reader;
        let lvm_offset: u64 = 7 * 512;
        let magic = src.read_at(lvm_offset, 4);
        if magic.len() != 4 {
            return None;
        }
        let m = magic.as_slice();
        if !(m[0] == 0x5f && m[1] == 0x4c && m[2] == 0x56 && m[3] == 0x4d) {
            return None;
        }
        let pp_size_log2 = match read_be16(src, lvm_offset + 0x2e) {
            Some(v) => v,
            None => {
                return None;
            },
        };
        let vgda_sector = match read_be32(src, lvm_offset + 0x1c) {
            Some(v) => v as u64,
            None => {
                return None;
            },
        };
        let mut children: Vec<Child> = Vec::new();
        if vgda_sector == 0 || pp_size_log2 > 30 {
            return Some(children);
        }
        let sh = pp_size_log2 as u64;
        proof {
            assert(sh <= 30 ==> 1u64 << sh <= 0x4000_0000) by (bit_vector);
        }
        let pp_bytes = 1u64 << sh;
        let pp_blocks = pp_bytes / 512;
        let vgda_offset = vgda_sector * 512;
        let numlvs = match read_be16(src, vgda_offset + 0x18) {
            Some(v) => v,
            None => {
                return Some(children);
            },
        };
        if numlvs == 0 || numlvs > MAX_LVS {
            return Some(children);
        }
        let lvd_offset = (vgda_sector + 1) * 512;
        let mut lv_num_lps: Vec<u16> = Vec::new();
        let mut i: u16 = 0;
        while i < numlvs
            invariant
                src == &*reader,
                src.plain() ==> aix_lvm_ok(src.content()),
                numlvs <= MAX_LVS,
                vgda_sector <= 0xffff_ffff,
                lvd_offset == (vgda_sector + 1) * 512,
                i <= numlvs,
                lv_num_lps@.len() == i,
                children@.len() == 0,
            decreases numlvs - i,
        {
            let entry_offset = lvd_offset + (i as u64) * 32;
            let lps = match read_be16(src, entry_offset + 0x0e) {
                Some(v) => v,
                None => {
                    return Some(children);
                },
            };
            lv_num_lps.push(lps);
            i = i + 1;
        }
        let pvd_offset = (vgda_sector + 17) * 512;
        let pp_count = match read_be16(src, pvd_offset + 0x10) {
            Some(v) => v,
            None => {
                return Some(children);
            },
        };
        let psn_part1 = match read_be32(src, pvd_offset + 0x14) {
            Some(v) => v as u64,
            None => {
                return Some(children);
            },
        };
        let pp_count = if pp_count <= MAX_PPES {
            pp_count
        } else {
            MAX_PPES
        };
        // Per-volume scan state: first physical partition, logical
        // partitions found, and whether the layout stayed contiguous.
        let mut first_pp: Vec<u64> = Vec::new();
        let mut lps_found: Vec<u16> = Vec::new();
        let mut contiguous: Vec<bool> = Vec::new();
        let mut j: u16 = 0;
        while j < MAX_LVS
            invariant
                j <= MAX_LVS,
                first_pp@.len() == j,
                lps_found@.len() == j,
                contiguous@.len() == j,
                forall|q: int| 0 <= q < j ==> #[trigger] lps_found@[q] == 0,
            decreases MAX_LVS - j,
        {
            first_pp.push(0xffff_ffff_ffff_ffff);
            lps_found.push(0);
            contiguous.push(true);
            j = j + 1;
        }
        let mut cur_lv: u64 = 0xffff_ffff_ffff_ffff;
        let mut next_lp_ix: u16 = 1;
        let ppe_base = pvd_offset + 0x20;
        let mut p: u16 = 0;
        while p < pp_count
            invariant
                src == &*reader,
                src.plain() ==> aix_lvm_ok(src.content()),
                pp_count <= MAX_PPES,
                vgda_sector <= 0xffff_ffff,
                ppe_base == (vgda_sector + 17) * 512 + 0x20,
                p <= pp_count,
                first_pp@.len() == MAX_LVS,
                lps_found@.len() == MAX_LVS,
                contiguous@.len() == MAX_LVS,
                next_lp_ix <= p + 2,
                children@.len() == 0,
                forall|q: int| 0 <= q < MAX_LVS ==> #[trigger] lps_found@[q] <= p,
            decreases pp_count - p,
        {
            let ppe_offset = ppe_base + (p as u64) * 32;
            let lv_ix = match read_be16(src, ppe_offset) {
                Some(v) => v,
                None => {
                    return Some(children);
                },
            };
            let lp_ix = match read_be16(src, ppe_offset + 6) {
                Some(v) => v,
                None => {
                    return Some(children);
                },
            };
            if lp_ix == 0 {
                cur_lv = 0xffff_ffff_ffff_ffff;
                next_lp_ix = 1;
                p = p + 1;
                continue;
            }
            if lv_ix == 0 {
                cur_lv = 0xffff_ffff_ffff_ffff;
                p = p + 1;
                continue;
            }
            let lv_idx = (lv_ix - 1) as usize;
            if lv_idx >= MAX_LVS as usize {
                cur_lv = 0xffff_ffff_ffff_ffff;
                p = p + 1;
                continue;
            }
            lps_found[lv_idx] = lps_found[lv_idx] + 1;
            if lp_ix == 1 {
                first_pp[lv_idx] = p as u64;
                cur_lv = lv_idx as u64;
                next_lp_ix = 2;
            } else if cur_lv == lv_idx as u64 && lp_ix == next_lp_ix {
                next_lp_ix = next_lp_ix + 1;
            } else {
                contiguous[lv_idx] = false;
                cur_lv = 0xffff_ffff_ffff_ffff;
                next_lp_ix = 1;
            }
            p = p + 1;
        }
        let mut lv: u16 = 0;
        while lv < MAX_LVS
            invariant
                first_pp@.len() == MAX_LVS,
                lps_found@.len() == MAX_LVS,
                contiguous@.len() == MAX_LVS,
                lv_num_lps@.len() <= MAX_LVS,
                psn_part1 <= 0xffff_ffff,
                pp_bytes <= 0x4000_0000,
                pp_blocks == pp_bytes / 512,
                lv <= MAX_LVS,
                children@.len() <= lv,
                forall|k: int|
                    0 <= k < children@.len() ==> #[trigger] coherent_slice_child(
                        children@[k],
                        *reader,
                    ),
            decreases MAX_LVS - lv,
        {
            let lv_idx = lv as usize;
            let fp = first_pp[lv_idx];
            if fp == 0xffff_ffff_ffff_ffff || !contiguous[lv_idx] || lps_found[lv_idx] == 0 {
                lv = lv + 1;
                continue;
            }
            let expected = if lv_idx < lv_num_lps.len() {
                lv_num_lps[lv_idx]
            } else {
                0
            };
            if lps_found[lv_idx] != expected {
                lv = lv + 1;
                continue;
            }
            let start_sector = match fp.checked_mul(pp_blocks) {
                Some(v) => match psn_part1.checked_add(v) {
                    Some(w) => w,
                    None => {
                        lv = lv + 1;
                        continue;
                    },
                },
                None => {
                    lv = lv + 1;
                    continue;
                },
            };
            let start = match start_sector.checked_mul(512) {
                Some(v) => v,
                None => {
                    lv = lv + 1;
                    continue;
                },
            };
            let length = match (lps_found[lv_idx] as u64).checked_mul(pp_bytes) {
                Some(v) => v,
                None => {
                    lv = lv + 1;
                    continue;
                },
            };
            push_slice_child(&mut children, &reader, lv as u32, start, length);
            lv = lv + 1;
        }
        Some(children)
    }
}

} // verus!
