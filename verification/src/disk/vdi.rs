//! VirtualBox VDI disk image reader.
//!
//! A flat block map translates virtual block indices to data blocks;
//! unallocated and discarded entries are read as zeroes without touching
//! the parent.

use vstd::prelude::*;

use crate::container::{Child, ChildOrigin};
use crate::disk::single_translated_child;
use crate::reader::{le32_of, le64_of, read_le32, read_le64, Source};

use std::rc::Rc;

verus! {

/// VDI header signature, little-endian at offset 0x40.
pub const VDI_SIGNATURE: u32 = 0xbeda107f;

/// Block map entry marking an unallocated block.
pub const VDI_UNALLOCATED: u32 = 0xffff_ffff;

/// Block map entry marking a discarded block.
pub const VDI_DISCARDED: u32 = 0xffff_fffe;

/// Most entries the block map may hold.
pub const MAX_VDI_BLOCKS: u32 = 0x10_0000;

/// Whether content `c` carries a usable VDI header: the signature, a
/// nonzero block size, and a block map of acceptable size that lies whole
/// inside the stream.
pub open spec fn vdi_header_ok(c: Seq<u8>) -> bool {
    &&& c.len() >= 0x184
    &&& le32_of(c, 0x40) == VDI_SIGNATURE
    &&& le32_of(c, 0x178) >= 1
    &&& le32_of(c, 0x180) <= MAX_VDI_BLOCKS
    &&& (le32_of(c, 0x180) > 0 ==> le32_of(c, 0x154) + le32_of(c, 0x180) * 4 <= c.len())
}

/// Whether reader `v` translates into `parent` with exactly the geometry
/// and block map that header content `pc` dictates.
pub open spec fn vdi_reader_matches(v: VdiReader, parent: Source, pc: Seq<u8>) -> bool {
    &&& v.spec_parent() == parent
    &&& v.spec_block_size() == le32_of(pc, 0x178)
    &&& v.spec_data_offset() == le32_of(pc, 0x158)
    &&& v.spec_virtual_size() == le64_of(pc, 0x170)
    &&& v.spec_block_map().len() == le32_of(pc, 0x180)
    &&& forall|k: int|
        0 <= k < v.spec_block_map().len() ==> v.spec_block_map()[k] == le32_of(
            pc,
            le32_of(pc, 0x154) + k * 4,
        )
}

/// Reader that translates virtual disk offsets through the VDI block map.
pub struct VdiReader {
    parent: Rc<Source>,
    block_map: Vec<u32>,
    block_size: u64,
    data_offset: u64,
    virtual_size: u64,
}

impl VdiReader {
    #[verifier::type_invariant]
    spec fn wf(self) -> bool {
        &&& self.block_size >= 1
        &&& self.block_map@.len() <= MAX_VDI_BLOCKS
    }

    /// The parent source the reader translates into.
    pub closed spec fn spec_parent(&self) -> Source {
        *self.parent
    }

    /// The virtual disk size in bytes.
    pub closed spec fn spec_virtual_size(&self) -> u64 {
        self.virtual_size
    }

    /// The block size in bytes.
    pub closed spec fn spec_block_size(&self) -> u64 {
        self.block_size
    }

    /// Where the data blocks start in the parent.
    pub closed spec fn spec_data_offset(&self) -> u64 {
        self.data_offset
    }

    /// The loaded block map.
    pub closed spec fn spec_block_map(&self) -> Seq<u32> {
        self.block_map@
    }

    /// Whether the block map marks this offset unallocated: the block
    /// index lies beyond the map, or the entry is the unallocated or
    /// discarded sentinel. Such an offset is read as zeroes without
    /// consulting the parent.
    pub open spec fn sparse_at(&self, offset: u64) -> bool {
        let bi = offset as int / self.spec_block_size() as int;
        ||| bi >= self.spec_block_map().len()
        ||| self.spec_block_map()[bi] == VDI_UNALLOCATED
        ||| self.spec_block_map()[bi] == VDI_DISCARDED
    }

    /// The largest length a read at `offset` may return: never past the
    /// virtual size, and never across a block boundary.
    pub open spec fn clamp(&self, offset: u64, len: usize) -> int {
        if offset >= self.spec_virtual_size() {
            0
        } else {
            vstd::math::min(
                len as int,
                vstd::math::min(
                    self.spec_block_size() - offset as int % self.spec_block_size() as int,
                    self.spec_virtual_size() - offset,
                ),
            )
        }
    }

    /// Parse the header and load the block map. `None` when the signature,
    /// block size or block map are unusable.
    pub fn new(parent: Rc<Source>) -> (r: Option<Self>)
        ensures
            (*parent).plain() ==> {
                let pc = (*parent).content();
                match r {
                    Some(v) => vdi_header_ok(pc) && vdi_reader_matches(v, *parent, pc),
                    None => !vdi_header_ok(pc),
                }
            },
    {
        let src = &*parent;
        let ghost pc = src.content();
        proof {
            if src.plain() {
                src.lemma_content_len();
            }
        }
        let signature = match read_le32(src, 0x40) {
            Some(v) => v,
            None => {
                return None;
            },
        };
        if signature != VDI_SIGNATURE {
            return None;
        }
        let offset_bmap = match read_le32(src, 0x154) {
            Some(v) => v as u64,
            None => {
                return None;
            },
        };
        let offset_data = match read_le32(src, 0x158) {
            Some(v) => v as u64,
            None => {
                return None;
            },
        };
        let disk_size = match read_le64(src, 0x170) {
            Some(v) => v,
            None => {
                return None;
            },
        };
        let block_size = match read_le32(src, 0x178) {
            Some(v) => v as u64,
            None => {
                return None;
            },
        };
        let blocks_in_image = match read_le32(src, 0x180) {
            Some(v) => v,
            None => {
                return None;
            },
        };
        if block_size == 0 {
            return None;
        }
        if blocks_in_image > MAX_VDI_BLOCKS {
            return None;
        }
        let mut block_map: Vec<u32> = Vec::new();
        let mut k: u32 = 0;
        while k < blocks_in_image
            invariant
                src == &*parent,
                k <= blocks_in_image,
                blocks_in_image <= MAX_VDI_BLOCKS,
                block_map@.len() == k,
                offset_bmap <= u32::MAX,
                src.plain() ==> {
                    &&& pc == src.content()
                    &&& pc.len() <= usize::MAX
                    &&& blocks_in_image == le32_of(pc, 0x180)
                    &&& offset_bmap == le32_of(pc, 0x154)
                    &&& k > 0 ==> offset_bmap + k * 4 <= pc.len()
                    &&& forall|j: int|
                        0 <= j < k ==> block_map@[j] == le32_of(pc, offset_bmap + j * 4)
                },
            decreases blocks_in_image - k,
        {
            let eo = offset_bmap + (k as u64) * 4;
            let entry = match read_le32(src, eo) {
                Some(v) => v,
                None => {
                    proof {
                        if src.plain() {
                            assert(eo == offset_bmap + k * 4);
                            assert(offset_bmap + (k + 1) * 4 > pc.len());
                            assert((k + 1) * 4 <= blocks_in_image * 4);
                            assert(offset_bmap + blocks_in_image * 4 > pc.len());
                            assert(!vdi_header_ok(pc));
                        }
                    }
                    return None;
                },
            };
            block_map.push(entry);
            k = k + 1;
        }
        Some(
            VdiReader {
                parent,
                block_map,
                block_size,
                data_offset: offset_data,
                virtual_size: disk_size,
            },
        )
    }

    /// Total virtual size of the disk.
    pub fn size(&self) -> (r: u64)
        ensures
            r == self.spec_virtual_size(),
    {
        self.virtual_size
    }

    /// Read up to `len` bytes at virtual offset `offset`. The returned
    /// length never exceeds the clamp; an unallocated or discarded block is
    /// answered with exactly the clamped number of zero bytes, and when the
    /// parent is a plain source an allocated block is answered with the
    /// parent's bytes at the block's mapped physical offset.
    pub fn read_at(&self, offset: u64, len: usize) -> (r: Vec<u8>)
        ensures
            r@.len() <= len,
            r@.len() <= self.clamp(offset, len),
            offset < self.spec_virtual_size() && self.sparse_at(offset) ==> r@.len()
                == self.clamp(offset, len) && (forall|j: int| 0 <= j < r@.len() ==> r@[j] == 0),
            offset < self.spec_virtual_size() && !self.sparse_at(offset)
                && self.spec_parent().plain() ==> {
                let pc = self.spec_parent().content();
                let bs = self.spec_block_size() as int;
                let e = self.spec_block_map()[offset as int / bs] as int;
                let phys = self.spec_data_offset() + e * bs + offset as int % bs;
                if phys <= u64::MAX {
                    let lo = vstd::math::min(phys, pc.len() as int);
                    r@.len() == vstd::math::min(self.clamp(offset, len), pc.len() - lo) && r@
                        == pc.subrange(lo, lo + r@.len())
                } else {
                    r@.len() == 0
                }
            },
        decreases self, 2int,
    {
        proof {
            use_type_invariant(self);
            if self.spec_parent().plain() {
                self.spec_parent().lemma_content_len();
            }
        }
        if offset >= self.virtual_size {
            let r: Vec<u8> = Vec::new();
            return r;
        }
        let block_idx = offset / self.block_size;
        let in_block = offset % self.block_size;
        let remaining_in_block = self.block_size - in_block;
        let remaining_in_disk = self.virtual_size - offset;
        let clamp64 = if remaining_in_block <= remaining_in_disk {
            remaining_in_block
        } else {
            remaining_in_disk
        };
        let to_read: usize = if (len as u64) <= clamp64 {
            len
        } else {
            clamp64 as usize
        };
        if block_idx >= self.block_map.len() as u64 {
            return crate::disk::qcow2::zeroes(to_read);
        }
        let entry = self.block_map[block_idx as usize];
        if entry == VDI_UNALLOCATED || entry == VDI_DISCARDED {
            return crate::disk::qcow2::zeroes(to_read);
        }
        let phys = match (entry as u64).checked_mul(self.block_size) {
            Some(v) => match self.data_offset.checked_add(v) {
                Some(w) => match w.checked_add(in_block) {
                    Some(x) => x,
                    None => {
                        let r: Vec<u8> = Vec::new();
                        return r;
                    },
                },
                None => {
                    let r: Vec<u8> = Vec::new();
                    return r;
                },
            },
            None => {
                let r: Vec<u8> = Vec::new();
                return r;
            },
        };
        (&*self.parent).read_at(phys, to_read)
    }
}

/// VDI disk image container.
pub struct VdiContainer;

impl VdiContainer {
    /// The translated virtual disk as a single child; `None` when the
    /// header is unusable.
    pub fn children(&self, reader: Rc<Source>) -> (r: Option<Vec<Child>>)
        ensures
            (*reader).plain() ==> match r {
                Some(cs) => {
                    let pc = (*reader).content();
                    &&& vdi_header_ok(pc)
                    &&& cs@.len() == 1
                    &&& cs@[0].index == 0
                    &&& cs@[0].origin == (ChildOrigin::Slice { offset: 0u64 })
                    &&& match *cs@[0].reader {
                        Source::Vdi(v) => vdi_reader_matches(v, *reader, pc),
                        _ => false,
                    }
                },
                None => !vdi_header_ok((*reader).content()),
            },
    {
        match VdiReader::new(reader) {
            Some(v) => Some(single_translated_child(Source::Vdi(v))),
            None => None,
        }
    }
}

} // verus!
