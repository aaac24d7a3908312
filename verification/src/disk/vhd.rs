//! VHD disk image reader.
//!
//! A fixed VHD is raw data with a trailing footer, read straight through;
//! a dynamic or differencing VHD maps blocks through the block allocation
//! table, with a sector bitmap ahead of each data block. Unallocated
//! entries are read as zeroes without touching the parent.

use vstd::prelude::*;

use crate::container::{Child, ChildOrigin};
use crate::disk::qcow2::zeroes;
use crate::disk::single_translated_child;
use crate::reader::{be32_of, be64_of, read_be32, read_be64, Source};

use std::rc::Rc;

verus! {

/// Block allocation table entry marking an unallocated block.
pub const VHD_UNALLOCATED: u32 = 0xffff_ffff;

/// Most entries the block allocation table may hold.
pub const MAX_VHD_ENTRIES: u32 = 0x10_0000;

/// Whether the footer cookie `conectix` stands at the start of `c`.
pub open spec fn vhd_conectix_at(c: Seq<u8>) -> bool {
    &&& c[0] == 0x63
    &&& c[1] == 0x6f
    &&& c[2] == 0x6e
    &&& c[3] == 0x65
    &&& c[4] == 0x63
    &&& c[5] == 0x74
    &&& c[6] == 0x69
    &&& c[7] == 0x78
}

/// Whether the dynamic-header cookie `cxsparse` stands at `o` in `c`.
pub open spec fn vhd_cxsparse_at(c: Seq<u8>, o: int) -> bool {
    &&& c[o] == 0x63
    &&& c[o + 1] == 0x78
    &&& c[o + 2] == 0x73
    &&& c[o + 3] == 0x70
    &&& c[o + 4] == 0x61
    &&& c[o + 5] == 0x72
    &&& c[o + 6] == 0x73
    &&& c[o + 7] == 0x65
}

/// Whether the dynamic header and allocation table that the footer's data
/// offset names are usable and lie whole inside the stream.
pub open spec fn vhd_dynamic_ok(c: Seq<u8>) -> bool {
    let doff = be64_of(c, 0x10);
    &&& doff + 8 <= c.len()
    &&& vhd_cxsparse_at(c, doff)
    &&& doff + 0x24 <= c.len()
    &&& be32_of(c, doff + 0x20) >= 1
    &&& be32_of(c, doff + 0x1c) <= MAX_VHD_ENTRIES
    &&& (be32_of(c, doff + 0x1c) > 0 ==> be64_of(c, doff + 0x10) + be32_of(c, doff + 0x1c) * 4
        <= c.len())
}

/// Whether content `c` carries a usable VHD image: the footer cookie and,
/// by disk type, either a fixed image or a usable dynamic header.
pub open spec fn vhd_header_ok(c: Seq<u8>) -> bool {
    &&& c.len() >= 0x40
    &&& vhd_conectix_at(c)
    &&& {
        let dt = be32_of(c, 0x3c);
        ||| dt == 2
        ||| ((dt == 3 || dt == 4) && vhd_dynamic_ok(c))
    }
}

/// The bytes a block's sector bitmap takes ahead of its data: one bit per
/// sector, rounded up to whole sectors.
pub open spec fn vhd_bitmap_bytes(bs: u64) -> u64 {
    (((bs / 512 + 7) / 8 + 511) as u64) & !511u64
}

/// Whether reader `v` translates into `parent` with exactly the variant,
/// geometry and allocation table that content `pc` dictates.
pub open spec fn vhd_reader_matches(v: VhdReader, parent: Source, pc: Seq<u8>) -> bool {
    &&& v.spec_parent() == parent
    &&& v.spec_virtual_size() == be64_of(pc, 0x30)
    &&& if be32_of(pc, 0x3c) == 2 {
        !v.spec_is_dynamic()
    } else {
        let doff = be64_of(pc, 0x10);
        &&& v.spec_is_dynamic()
        &&& v.spec_block_size() == be32_of(pc, doff + 0x20)
        &&& v.spec_bitmap_size() == vhd_bitmap_bytes((be32_of(pc, doff + 0x20) as u64))
        &&& v.spec_bat().len() == be32_of(pc, doff + 0x1c)
        &&& forall|k: int|
            0 <= k < v.spec_bat().len() ==> v.spec_bat()[k] == be32_of(
                pc,
                be64_of(pc, doff + 0x10) + k * 4,
            )
    }
}

/// How a VHD stores its data.
enum VhdVariant {
    /// Raw data at offset 0, footer at the end.
    Fixed,
    /// Blocks located through the allocation table.
    Dynamic { bat: Vec<u32>, block_size: u64, bitmap_size: u64 },
}

/// Reader that translates virtual disk offsets through a VHD image.
pub struct VhdReader {
    parent: Rc<Source>,
    variant: VhdVariant,
    virtual_size: u64,
}

impl VhdReader {
    #[verifier::type_invariant]
    spec fn wf(self) -> bool {
        match self.variant {
            VhdVariant::Fixed => true,
            VhdVariant::Dynamic { bat, block_size, bitmap_size } => block_size >= 1
                && bat@.len() <= MAX_VHD_ENTRIES,
        }
    }

    /// The parent source the reader translates into.
    pub closed spec fn spec_parent(&self) -> Source {
        *self.parent
    }

    /// The virtual disk size in bytes.
    pub closed spec fn spec_virtual_size(&self) -> u64 {
        self.virtual_size
    }

    /// Whether the image maps blocks through an allocation table.
    pub closed spec fn spec_is_dynamic(&self) -> bool {
        self.variant is Dynamic
    }

    /// The sector-bitmap bytes ahead of each data block of a dynamic image.
    pub closed spec fn spec_bitmap_size(&self) -> u64 {
        match self.variant {
            VhdVariant::Fixed => 0,
            VhdVariant::Dynamic { bitmap_size, .. } => bitmap_size,
        }
    }

    /// The block size of a dynamic image.
    pub closed spec fn spec_block_size(&self) -> u64 {
        match self.variant {
            VhdVariant::Fixed => 0,
            VhdVariant::Dynamic { block_size, .. } => block_size,
        }
    }

    /// The allocation table of a dynamic image.
    pub closed spec fn spec_bat(&self) -> Seq<u32> {
        match self.variant {
            VhdVariant::Fixed => Seq::empty(),
            VhdVariant::Dynamic { bat, .. } => bat@,
        }
    }

    /// Whether a dynamic image's table marks this offset unallocated: the
    /// block index lies beyond the table, or the entry is the unallocated
    /// sentinel. Such an offset is read as zeroes without consulting the
    /// parent.
    pub open spec fn sparse_at(&self, offset: u64) -> bool {
        &&& self.spec_is_dynamic()
        &&& {
            let bi = offset as int / self.spec_block_size() as int;
            bi >= self.spec_bat().len() || self.spec_bat()[bi] == VHD_UNALLOCATED
        }
    }

    /// The largest length a read at `offset` may return: never past the
    /// virtual size, and in a dynamic image never across a block boundary.
    pub open spec fn clamp(&self, offset: u64, len: usize) -> int {
        if offset >= self.spec_virtual_size() {
            0
        } else if self.spec_is_dynamic() {
            vstd::math::min(
                len as int,
                vstd::math::min(
                    self.spec_block_size() - offset as int % self.spec_block_size() as int,
                    self.spec_virtual_size() - offset,
                ),
            )
        } else {
            vstd::math::min(len as int, self.spec_virtual_size() - offset)
        }
    }

    /// Parse the footer copy at offset 0 and, for dynamic images, the
    /// dynamic header and allocation table. `None` when any of them is
    /// unusable.
    pub fn new(parent: Rc<Source>) -> (r: Option<Self>)
        ensures
            (*parent).plain() ==> {
                let pc = (*parent).content();
                match r {
                    Some(v) => vhd_header_ok(pc) && vhd_reader_matches(v, *parent, pc),
                    None => !vhd_header_ok(pc),
                }
            },
    {
        let src = &*parent;
        let ghost pc = src.content();
        proof {
            if src.plain() {
                src.lemma_content_len();
            }
        }
        let magic = src.read_at(0, 8);
        if magic.len() != 8 {
            return None;
        }
        let m = magic.as_slice();
        if !(m[0] == 0x63 && m[1] == 0x6f && m[2] == 0x6e && m[3] == 0x65 && m[4] == 0x63 && m[5]
            == 0x74 && m[6] == 0x69 && m[7] == 0x78) {
            return None;
        }
        let data_offset = match read_be64(src, 0x10) {
            Some(v) => v,
            None => {
                return None;
            },
        };
        let virtual_size = match read_be64(src, 0x30) {
            Some(v) => v,
            None => {
                return None;
            },
        };
        let disk_type = match read_be32(src, 0x3c) {
            Some(v) => v,
            None => {
                return None;
            },
        };
        if disk_type == 2 {
            return Some(VhdReader { parent, variant: VhdVariant::Fixed, virtual_size });
        }
        if disk_type != 3 && disk_type != 4 {
            return None;
        }
        let dm = src.read_at(data_offset, 8);
        if dm.len() != 8 {
            return None;
        }
        let d = dm.as_slice();
        if !(d[0] == 0x63 && d[1] == 0x78 && d[2] == 0x73 && d[3] == 0x70 && d[4] == 0x61 && d[5]
            == 0x72 && d[6] == 0x73 && d[7] == 0x65) {
            return None;
        }
        let table_offset = match data_offset.checked_add(0x10) {
            Some(o) => match read_be64(src, o) {
                Some(v) => v,
                None => {
                    return None;
                },
            },
            None => {
                return None;
            },
        };
        let max_entries = match data_offset.checked_add(0x1c) {
            Some(o) => match read_be32(src, o) {
                Some(v) => v,
                None => {
                    return None;
                },
            },
            None => {
                return None;
            },
        };
        let block_size = match data_offset.checked_add(0x20) {
            Some(o) => match read_be32(src, o) {
                Some(v) => v as u64,
                None => {
                    return None;
                },
            },
            None => {
                return None;
            },
        };
        if block_size == 0 {
            return None;
        }
        if max_entries > MAX_VHD_ENTRIES {
            return None;
        }
        let bitmap_size = (((block_size / 512) + 7) / 8 + 511) & !511u64;
        let mut bat: Vec<u32> = Vec::new();
        let mut k: u32 = 0;
        while k < max_entries
            invariant
                src == &*parent,
                k <= max_entries,
                max_entries <= MAX_VHD_ENTRIES,
                bat@.len() == k,
                src.plain() ==> {
                    &&& pc == src.content()
                    &&& pc.len() <= usize::MAX
                    &&& (be32_of(pc, 0x3c) == 3 || be32_of(pc, 0x3c) == 4)
                    &&& data_offset == be64_of(pc, 0x10)
                    &&& max_entries == be32_of(pc, data_offset + 0x1c)
                    &&& table_offset == be64_of(pc, data_offset + 0x10)
                    &&& k > 0 ==> table_offset + k * 4 <= pc.len()
                    &&& forall|j: int|
                        0 <= j < k ==> bat@[j] == be32_of(pc, table_offset + j * 4)
                },
            decreases max_entries - k,
        {
            let eo = match table_offset.checked_add((k as u64) * 4) {
                Some(v) => v,
                None => {
                    proof {
                        if src.plain() {
                            assert(table_offset + k * 4 > u64::MAX);
                            assert((k + 1) * 4 <= max_entries * 4);
                            assert(table_offset + max_entries * 4 > pc.len());
                            assert(!vhd_dynamic_ok(pc));
                        }
                    }
                    return None;
                },
            };
            let entry = match read_be32(src, eo) {
                Some(v) => v,
                None => {
                    proof {
                        if src.plain() {
                            assert(eo == table_offset + k * 4);
                            assert(table_offset + (k + 1) * 4 > pc.len());
                            assert((k + 1) * 4 <= max_entries * 4);
                            assert(table_offset + max_entries * 4 > pc.len());
                            assert(!vhd_dynamic_ok(pc));
                        }
                    }
                    return None;
                },
            };
            bat.push(entry);
            k = k + 1;
        }
        Some(
            VhdReader {
                parent,
                variant: VhdVariant::Dynamic { bat, block_size, bitmap_size },
                virtual_size,
            },
        )
    }

    /// Total virtual size of the disk.
    pub fn size(&self) -> (r: u64)
        ensures
            r == self.spec_virtual_size(),
    {
        self.virtual_size
    }

    /// Read up to `len` bytes at virtual offset `offset`. The returned
    /// length never exceeds the clamp, and an unallocated block of a
    /// dynamic image is answered with exactly the clamped number of zero
    /// bytes without touching the parent. When the parent is a plain
    /// source, a fixed image is answered with the parent's bytes at the
    /// same offset, and an allocated block of a dynamic image with the
    /// parent's bytes past the block's sector bitmap.
    pub fn read_at(&self, offset: u64, len: usize) -> (r: Vec<u8>)
        ensures
            r@.len() <= len,
            r@.len() <= self.clamp(offset, len),
            offset < self.spec_virtual_size() && self.sparse_at(offset) ==> r@.len()
                == self.clamp(offset, len) && (forall|j: int| 0 <= j < r@.len() ==> r@[j] == 0),
            offset < self.spec_virtual_size() && !self.spec_is_dynamic()
                && self.spec_parent().plain() ==> {
                let pc = self.spec_parent().content();
                let lo = vstd::math::min(offset as int, pc.len() as int);
                r@.len() == vstd::math::min(self.clamp(offset, len), pc.len() - lo) && r@
                    == pc.subrange(lo, lo + r@.len())
            },
            offset < self.spec_virtual_size() && self.spec_is_dynamic() && !self.sparse_at(offset)
                && self.spec_parent().plain() ==> {
                let pc = self.spec_parent().content();
                let bs = self.spec_block_size() as int;
                let e = self.spec_bat()[offset as int / bs] as int;
                let phys = e * 512 + self.spec_bitmap_size() + offset as int % bs;
                if phys <= u64::MAX {
                    let lo = vstd::math::min(phys, pc.len() as int);
                    r@.len() == vstd::math::min(self.clamp(offset, len), pc.len() - lo) && r@
                        == pc.subrange(lo, lo + r@.len())
                } else {
                    r@.len() == 0
                }
            },
        decreases self, 2int,
    {
        proof {
            use_type_invariant(self);
        }
        if offset >= self.virtual_size {
            let r: Vec<u8> = Vec::new();
            return r;
        }
        let remaining_in_disk = self.virtual_size - offset;
        let base_read: usize = if (len as u64) <= remaining_in_disk {
            len
        } else {
            remaining_in_disk as usize
        };
        match &self.variant {
            VhdVariant::Fixed => (&*self.parent).read_at(offset, base_read),
            VhdVariant::Dynamic { bat, block_size, bitmap_size } => {
                let bs = *block_size;
                let block_idx = offset / bs;
                let in_block = offset % bs;
                let remaining_in_block = bs - in_block;
                let to_read: usize = if (base_read as u64) <= remaining_in_block {
                    base_read
                } else {
                    remaining_in_block as usize
                };
                if block_idx >= bat.len() as u64 {
                    return zeroes(to_read);
                }
                let entry = bat[block_idx as usize];
                if entry == VHD_UNALLOCATED {
                    return zeroes(to_read);
                }
                let phys = match (entry as u64).checked_mul(512) {
                    Some(v) => match v.checked_add(*bitmap_size) {
                        Some(w) => match w.checked_add(in_block) {
                            Some(x) => x,
                            None => {
                                let r: Vec<u8> = Vec::new();
                                return r;
                            },
                        },
                        None => {
                            let r: Vec<u8> = Vec::new();
                            return r;
                        },
                    },
                    None => {
                        let r: Vec<u8> = Vec::new();
                        return r;
                    },
                };
                (&*self.parent).read_at(phys, to_read)
            },
        }
    }
}

/// VHD disk image container.
pub struct VhdContainer;

impl VhdContainer {
    /// The translated virtual disk as a single child; `None` when the
    /// footer or dynamic header is unusable.
    pub fn children(&self, reader: Rc<Source>) -> (r: Option<Vec<Child>>)
        ensures
            (*reader).plain() ==> match r {
                Some(cs) => {
                    let pc = (*reader).content();
                    &&& vhd_header_ok(pc)
                    &&& cs@.len() == 1
                    &&& cs@[0].index == 0
                    &&& cs@[0].origin == (ChildOrigin::Slice { offset: 0u64 })
                    &&& match *cs@[0].reader {
                        Source::Vhd(v) => vhd_reader_matches(v, *reader, pc),
                        _ => false,
                    }
                },
                None => !vhd_header_ok((*reader).content()),
            },
    {
        match VhdReader::new(reader) {
            Some(v) => Some(single_translated_child(Source::Vhd(v))),
            None => None,
        }
    }
}

} // verus!
