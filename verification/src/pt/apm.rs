//! Apple partition map container.
//!
//! Block 0 carries the driver descriptor map with the block size; the
//! partition map entries follow, one per block, each naming its start and
//! length in blocks. Map, driver and free-space entries yield no children.

use vstd::prelude::*;

use crate::container::{coherent_slice_child, Child};
use crate::pt::push_slice_child;
use crate::reader::{be16_of, read_be16, read_be32, Source};

use std::rc::Rc;

verus! {

/// Driver descriptor map signature.
pub const DDM_SIGNATURE: u16 = 0x4552;

/// Partition map entry signature.
pub const PM_SIGNATURE: u16 = 0x504d;

/// Most partition entries that are walked.
pub const MAX_APM_PARTITIONS: u32 = 64;

/// Whether content `c` carries a usable Apple partition map: the driver
/// descriptor signature, and a first map entry that lies inside the stream
/// and carries the map signature.
pub open spec fn apm_header_ok(c: Seq<u8>) -> bool {
    let bs = be16_of(c, 2);
    &&& c.len() >= 4
    &&& be16_of(c, 0) == DDM_SIGNATURE
    &&& bs + 8 <= c.len()
    &&& be16_of(c, bs) == PM_SIGNATURE
}

/// Apple partition map container.
pub struct ApmContainer;

impl ApmContainer {
    /// One slice child per data partition entry, numbered in map order;
    /// `None` exactly when the descriptor map or first entry is unusable.
    pub fn children(&self, reader: Rc<Source>) -> (r: Option<Vec<Child>>)
        ensures
            r matches Some(cs) ==> cs@.len() <= MAX_APM_PARTITIONS && forall|k: int|
                0 <= k < cs@.len() ==> #[trigger] coherent_slice_child(cs@[k], *reader),
            r matches Some(cs) ==> forall|k: int|
                0 <= k < cs@.len() ==> (#[trigger] cs@[k]).index == k,
            (*reader).plain() ==> (r is Some <==> apm_header_ok((*reader).content())),
    {
        let src = &*reader;
        let ghost pc = src.content();
        let ddm_sig = match read_be16(src, 0) {
            Some(v) => v,
            None => {
                return None;
            },
        };
        if ddm_sig != DDM_SIGNATURE {
            return None;
        }
        let block_size = match read_be16(src, 2) {
            Some(v) => v as u64,
            None => {
                return None;
            },
        };
        let pm_sig = match read_be16(src, block_size) {
            Some(v) => v,
            None => {
                return None;
            },
        };
        if pm_sig != PM_SIGNATURE {
            return None;
        }
        let map_entries = match read_be32(src, block_size + 4) {
            Some(v) => v,
            None => {
                return None;
            },
        };
        let map_entries = if map_entries <= MAX_APM_PARTITIONS {
            map_entries
        } else {
            MAX_APM_PARTITIONS
        };
        let mut children: Vec<Child> = Vec::new();
        let mut i: u32 = 1;
        while i <= map_entries
            invariant
                src == &*reader,
                src.plain() ==> pc == src.content() && apm_header_ok(pc),
                block_size <= 0xffff,
                map_entries <= MAX_APM_PARTITIONS,
                1 <= i,
                i <= map_entries + 1,
                children@.len() < i,
                forall|k: int|
                    0 <= k < children@.len() ==> #[trigger] coherent_slice_child(
                        children@[k],
                        *reader,
                    ),
                forall|k: int|
                    0 <= k < children@.len() ==> (#[trigger] children@[k]).index == k,
            decreases map_entries + 1 - i,
        {
            proof {
                assert((i as u64) * block_size <= 65u64 * 0xffffu64) by (nonlinear_arith)
                    requires
                        i <= 65,
                        block_size <= 0xffffu64,
                ;
            }
            let entry_offset = (i as u64) * block_size;
            let sig = match read_be16(src, entry_offset) {
                Some(v) => v,
                None => {
                    return Some(children);
                },
            };
            if sig != PM_SIGNATURE {
                break;
            }
            let pblock_start = match read_be32(src, entry_offset + 8) {
                Some(v) => v as u64,
                None => {
                    return Some(children);
                },
            };
            let pblock_count = match read_be32(src, entry_offset + 12) {
                Some(v) => v as u64,
                None => {
                    return Some(children);
                },
            };
            let ptype = src.read_at(entry_offset + 48, 32);
            if ptype.len() != 32 {
                return Some(children);
            }
            let p = ptype.as_slice();
            let is_map = p[0] == 0x41 && p[1] == 0x70 && p[2] == 0x70 && p[3] == 0x6c && p[4]
                == 0x65 && p[5] == 0x5f && p[6] == 0x70 && p[7] == 0x61 && p[8] == 0x72 && p[9]
                == 0x74 && p[10] == 0x69 && p[11] == 0x74 && p[12] == 0x69 && p[13] == 0x6f
                && p[14] == 0x6e && p[15] == 0x5f && p[16] == 0x6d && p[17] == 0x61 && p[18]
                == 0x70 && p[19] == 0;
            let is_driver = p[0] == 0x41 && p[1] == 0x70 && p[2] == 0x70 && p[3] == 0x6c && p[4]
                == 0x65 && p[5] == 0x5f && p[6] == 0x44 && p[7] == 0x72 && p[8] == 0x69 && p[9]
                == 0x76 && p[10] == 0x65 && p[11] == 0x72;
            let is_free = p[0] == 0x41 && p[1] == 0x70 && p[2] == 0x70 && p[3] == 0x6c && p[4]
                == 0x65 && p[5] == 0x5f && p[6] == 0x46 && p[7] == 0x72 && p[8] == 0x65 && p[9]
                == 0x65 && p[10] == 0;
            if is_map || is_driver || is_free {
                i = i + 1;
                continue;
            }
            let start = match pblock_start.checked_mul(block_size) {
                Some(v) => v,
                None => {
                    i = i + 1;
                    continue;
                },
            };
            let length = match pblock_count.checked_mul(block_size) {
                Some(v) => v,
                None => {
                    i = i + 1;
                    continue;
                },
            };
            let idx = children.len() as u32;
            push_slice_child(&mut children, &reader, idx, start, length);
            i = i + 1;
        }
        Some(children)
    }
}

} // verus!
