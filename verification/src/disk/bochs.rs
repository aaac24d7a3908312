//! Bochs growing disk image reader.
//!
//! A redolog catalog maps extents to slots in the file, each slot holding
//! a bitmap followed by the extent's data. Unallocated catalog entries are
//! read as zeroes without touching the parent.

use vstd::prelude::*;

use crate::container::{Child, ChildOrigin};
use crate::disk::qcow2::zeroes;
use crate::disk::single_translated_child;
use crate::reader::{le32_of, le64_of, read_le32, read_le64, Source};

use std::rc::Rc;

verus! {

/// Catalog entry marking an unallocated extent.
pub const CATALOG_UNALLOCATED: u32 = 0xffff_ffff;

/// Most entries the catalog may hold.
pub const MAX_BOCHS_CATALOG: u32 = 0x10_0000;

/// Whether the three text markers of a growing Bochs redolog — the image
/// signature, the `Redolog` type and the `Growing` subtype — stand at
/// their places in `c`.
pub open spec fn bochs_magic_ok(c: Seq<u8>) -> bool {
    &&& c[0] == 0x42 && c[1] == 0x6f && c[2] == 0x63 && c[3] == 0x68 && c[4] == 0x73
    &&& c[5] == 0x20 && c[6] == 0x56 && c[7] == 0x69 && c[8] == 0x72 && c[9] == 0x74
    &&& c[10] == 0x75 && c[11] == 0x61 && c[12] == 0x6c && c[13] == 0x20 && c[14] == 0x48
    &&& c[15] == 0x44 && c[16] == 0x20 && c[17] == 0x49 && c[18] == 0x6d && c[19] == 0x61
    &&& c[20] == 0x67 && c[21] == 0x65
    &&& c[32] == 0x52 && c[33] == 0x65 && c[34] == 0x64 && c[35] == 0x6f && c[36] == 0x6c
    &&& c[37] == 0x6f && c[38] == 0x67
    &&& c[48] == 0x47 && c[49] == 0x72 && c[50] == 0x6f && c[51] == 0x77 && c[52] == 0x69
    &&& c[53] == 0x6e && c[54] == 0x67
}

/// Whether content `c` carries a usable growing Bochs redolog header: the
/// markers, an extent size that is a power of two of at least one sector,
/// and a catalog of acceptable size that lies whole inside the stream.
pub open spec fn bochs_header_ok(c: Seq<u8>) -> bool {
    &&& c.len() >= 96
    &&& bochs_magic_ok(c)
    &&& 512 <= le32_of(c, 80)
    &&& ((le32_of(c, 80) as u64) & ((le32_of(c, 80) - 1) as u64)) == 0
    &&& le32_of(c, 72) <= MAX_BOCHS_CATALOG
    &&& (le32_of(c, 72) > 0 ==> le32_of(c, 68) + le32_of(c, 72) * 4 <= c.len())
}

/// Whether reader `b` translates into `parent` with exactly the geometry
/// and catalog that header content `pc` dictates.
pub open spec fn bochs_reader_matches(b: BochsReader, parent: Source, pc: Seq<u8>) -> bool {
    &&& b.spec_parent() == parent
    &&& b.spec_extent_size() == le32_of(pc, 80)
    &&& b.spec_virtual_size() == (if le32_of(pc, 64) == 0x00010000 {
        le64_of(pc, 84)
    } else {
        le64_of(pc, 88)
    })
    &&& b.spec_catalog().len() == le32_of(pc, 72)
    &&& forall|k: int|
        0 <= k < b.spec_catalog().len() ==> b.spec_catalog()[k] == le32_of(
            pc,
            le32_of(pc, 68) + k * 4,
        )
}

/// Reader that translates virtual disk offsets through a Bochs catalog.
pub struct BochsReader {
    parent: Rc<Source>,
    catalog: Vec<u32>,
    extent_size: u64,
    bitmap_size: u64,
    data_offset: u64,
    virtual_size: u64,
}

impl BochsReader {
    #[verifier::type_invariant]
    spec fn wf(self) -> bool {
        &&& 512 <= self.extent_size
        &&& self.catalog@.len() <= MAX_BOCHS_CATALOG
    }

    /// The parent source the reader translates into.
    pub closed spec fn spec_parent(&self) -> Source {
        *self.parent
    }

    /// The virtual disk size in bytes.
    pub closed spec fn spec_virtual_size(&self) -> u64 {
        self.virtual_size
    }

    /// The extent size in bytes.
    pub closed spec fn spec_extent_size(&self) -> u64 {
        self.extent_size
    }

    /// The loaded catalog.
    pub closed spec fn spec_catalog(&self) -> Seq<u32> {
        self.catalog@
    }

    /// Whether the catalog marks this offset unallocated. Such an offset
    /// is read as zeroes without consulting the parent.
    pub open spec fn sparse_at(&self, offset: u64) -> bool {
        let ei = offset as int / self.spec_extent_size() as int;
        ei >= self.spec_catalog().len() || self.spec_catalog()[ei] == CATALOG_UNALLOCATED
    }

    /// The largest length a read at `offset` may return: never past the
    /// virtual size, and never across an extent boundary.
    pub open spec fn clamp(&self, offset: u64, len: usize) -> int {
        if offset >= self.spec_virtual_size() {
            0
        } else {
            vstd::math::min(
                len as int,
                vstd::math::min(
                    self.spec_extent_size() - offset as int % self.spec_extent_size() as int,
                    self.spec_virtual_size() - offset,
                ),
            )
        }
    }

    /// Parse the header and load the catalog. `None` when the magic,
    /// type, extent size or catalog are unusable.
    pub fn new(parent: Rc<Source>) -> (r: Option<Self>)
        ensures
            (*parent).plain() ==> {
                let pc = (*parent).content();
                match r {
                    Some(b) => bochs_header_ok(pc) && bochs_reader_matches(b, *parent, pc),
                    None => !bochs_header_ok(pc),
                }
            },
    {
        let src = &*parent;
        let ghost pc = src.content();
        proof {
            if src.plain() {
                src.lemma_content_len();
            }
        }
        let head = src.read_at(0, 96);
        if head.len() < 96 {
            return None;
        }
        let h = head.as_slice();
        // "Bochs Virtual HD Image" in the first magic field.
        if !(h[0] == 0x42 && h[1] == 0x6f && h[2] == 0x63 && h[3] == 0x68 && h[4] == 0x73 && h[5]
            == 0x20 && h[6] == 0x56 && h[7] == 0x69 && h[8] == 0x72 && h[9] == 0x74 && h[10]
            == 0x75 && h[11] == 0x61 && h[12] == 0x6c && h[13] == 0x20 && h[14] == 0x48 && h[15]
            == 0x44 && h[16] == 0x20 && h[17] == 0x49 && h[18] == 0x6d && h[19] == 0x61 && h[20]
            == 0x67 && h[21] == 0x65) {
            return None;
        }
        // "Redolog" type and "Growing" subtype.
        if !(h[32] == 0x52 && h[33] == 0x65 && h[34] == 0x64 && h[35] == 0x6f && h[36] == 0x6c
            && h[37] == 0x6f && h[38] == 0x67) {
            return None;
        }
        if !(h[48] == 0x47 && h[49] == 0x72 && h[50] == 0x6f && h[51] == 0x77 && h[52] == 0x69
            && h[53] == 0x6e && h[54] == 0x67) {
            return None;
        }
        let version = match read_le32(src, 64) {
            Some(v) => v,
            None => {
                return None;
            },
        };
        let header_size = match read_le32(src, 68) {
            Some(v) => v as u64,
            None => {
                return None;
            },
        };
        let catalog_size = match read_le32(src, 72) {
            Some(v) => v,
            None => {
                return None;
            },
        };
        let bitmap_size = match read_le32(src, 76) {
            Some(v) => v as u64,
            None => {
                return None;
            },
        };
        let extent_size = match read_le32(src, 80) {
            Some(v) => v as u64,
            None => {
                return None;
            },
        };
        let disk_size = if version == 0x00010000 {
            match read_le64(src, 84) {
                Some(v) => v,
                None => {
                    return None;
                },
            }
        } else {
            match read_le64(src, 88) {
                Some(v) => v,
                None => {
                    return None;
                },
            }
        };
        if extent_size < 512 || (extent_size & (extent_size - 1)) != 0 {
            return None;
        }
        if catalog_size > MAX_BOCHS_CATALOG {
            return None;
        }
        let mut catalog: Vec<u32> = Vec::new();
        let mut k: u32 = 0;
        while k < catalog_size
            invariant
                src == &*parent,
                k <= catalog_size,
                catalog_size <= MAX_BOCHS_CATALOG,
                catalog@.len() == k,
                header_size <= u32::MAX,
                src.plain() ==> {
                    &&& pc == src.content()
                    &&& pc.len() <= usize::MAX
                    &&& catalog_size == le32_of(pc, 72)
                    &&& header_size == le32_of(pc, 68)
                    &&& k > 0 ==> header_size + k * 4 <= pc.len()
                    &&& forall|j: int|
                        0 <= j < k ==> catalog@[j] == le32_of(pc, header_size + j * 4)
                },
            decreases catalog_size - k,
        {
            let eo = header_size + (k as u64) * 4;
            let entry = match read_le32(src, eo) {
                Some(v) => v,
                None => {
                    proof {
                        if src.plain() {
                            assert(eo == header_size + k * 4);
                            assert(header_size + (k + 1) * 4 > pc.len());
                            assert((k + 1) * 4 <= catalog_size * 4);
                            assert(header_size + catalog_size * 4 > pc.len());
                            assert(!bochs_header_ok(pc));
                        }
                    }
                    return None;
                },
            };
            catalog.push(entry);
            k = k + 1;
        }
        let data_offset = header_size + (catalog_size as u64) * 4;
        let bitmap_size_aligned = ((bitmap_size + 511) / 512) * 512;
        Some(
            BochsReader {
                parent,
                catalog,
                extent_size,
                bitmap_size: bitmap_size_aligned,
                data_offset,
                virtual_size: disk_size,
            },
        )
    }

    /// Total virtual size of the disk.
    pub fn size(&self) -> (r: u64)
        ensures
            r == self.spec_virtual_size(),
    {
        self.virtual_size
    }

    /// Read up to `len` bytes at virtual offset `offset`. The returned
    /// length never exceeds the clamp, and an unallocated extent is
    /// answered with exactly the clamped number of zero bytes without
    /// touching the parent.
    pub fn read_at(&self, offset: u64, len: usize) -> (r: Vec<u8>)
        ensures
            r@.len() <= len,
            r@.len() <= self.clamp(offset, len),
            offset < self.spec_virtual_size() && self.sparse_at(offset) ==> r@.len()
                == self.clamp(offset, len) && (forall|j: int| 0 <= j < r@.len() ==> r@[j] == 0),
        decreases self, 2int,
    {
        proof {
            use_type_invariant(self);
        }
        if offset >= self.virtual_size {
            let r: Vec<u8> = Vec::new();
            return r;
        }
        let extent_idx = offset / self.extent_size;
        let in_extent = offset % self.extent_size;
        let remaining_in_extent = self.extent_size - in_extent;
        let remaining_in_disk = self.virtual_size - offset;
        let clamp64 = if remaining_in_extent <= remaining_in_disk {
            remaining_in_extent
        } else {
            remaining_in_disk
        };
        let to_read: usize = if (len as u64) <= clamp64 {
            len
        } else {
            clamp64 as usize
        };
        if extent_idx >= self.catalog.len() as u64 {
            return zeroes(to_read);
        }
        let entry = self.catalog[extent_idx as usize];
        if entry == CATALOG_UNALLOCATED {
            return zeroes(to_read);
        }
        let slot_size = match self.bitmap_size.checked_add(self.extent_size) {
            Some(v) => v,
            None => {
                let r: Vec<u8> = Vec::new();
                return r;
            },
        };
        let phys = match (entry as u64).checked_mul(slot_size) {
            Some(v) => match self.data_offset.checked_add(v) {
                Some(w) => match w.checked_add(self.bitmap_size) {
                    Some(x) => match x.checked_add(in_extent) {
                        Some(y) => y,
                        None => {
                            let r: Vec<u8> = Vec::new();
                            return r;
                        },
                    },
                    None => {
                        let r: Vec<u8> = Vec::new();
                        return r;
                    },
                },
                None => {
                    let r: Vec<u8> = Vec::new();
                    return r;
                },
            },
            None => {
                let r: Vec<u8> = Vec::new();
                return r;
            },
        };
        (&*self.parent).read_at(phys, to_read)
    }
}

/// Bochs disk image container.
pub struct BochsContainer;

impl BochsContainer {
    /// The translated virtual disk as a single child; `None` when the
    /// header is unusable.
    pub fn children(&self, reader: Rc<Source>) -> (r: Option<Vec<Child>>)
        ensures
            (*reader).plain() ==> match r {
                Some(cs) => {
                    let pc = (*reader).content();
                    &&& bochs_header_ok(pc)
                    &&& cs@.len() == 1
                    &&& cs@[0].index == 0
                    &&& cs@[0].origin == (ChildOrigin::Slice { offset: 0u64 })
                    &&& match *cs@[0].reader {
                        Source::Bochs(b) => bochs_reader_matches(b, *reader, pc),
                        _ => false,
                    }
                },
                None => !bochs_header_ok((*reader).content()),
            },
    {
        match BochsReader::new(reader) {
            Some(b) => Some(single_translated_child(Source::Bochs(b))),
            None => None,
        }
    }
}

} // verus!
