//! VMDK disk image reader.
//!
//! Three on-disk flavors share one grain abstraction: the old COWD format
//! with a single-level table, the KDMV format with a grain directory and
//! grain tables — optionally stream-optimized with deflate-compressed
//! grains — and the ESXi seSparse format with 64-bit state-tagged
//! entries. Unallocated and zero grains are read as zeroes.

use vstd::prelude::*;

use crate::codecs;
use crate::container::{Child, ChildOrigin};
use crate::disk::qcow2::zeroes;
use crate::disk::single_translated_child;
use crate::reader::{le32_of, le64_of, read_le32, read_le64, Source};

use std::rc::Rc;

verus! {

/// COWD magic, little-endian at offset 0.
pub const VMDK3_MAGIC: u32 = 0x444f5743;

/// KDMV magic, little-endian at offset 0.
pub const VMDK4_MAGIC: u32 = 0x564d444b;

/// seSparse magic, little-endian over the first eight bytes.
pub const SESPARSE_MAGIC: u64 = 0x0000_0000_cafe_babe;

/// KDMV flag marking a stream-optimized (compressed) image.
pub const VMDK4_FLAG_COMPRESS: u32 = 0x10000;

/// KDMV flag marking zero-grain support.
pub const VMDK4_FLAG_ZERO_GRAIN: u32 = 0x4;

/// Grain-table entry naming an explicit zero grain.
pub const VMDK4_GTE_ZEROED: u32 = 1;

/// Most directory or table entries that are loaded.
pub const MAX_VMDK_ENTRIES: u64 = 0x10_0000;

/// Whether content `c` carries a usable COWD header body: exponent-free
/// geometry within bounds and a flat grain table that lies whole inside
/// the stream. The magic is checked by the dispatching header predicate.
pub open spec fn vmdk3_header_ok(c: Seq<u8>) -> bool {
    &&& c.len() >= 28
    &&& 1 <= le32_of(c, 16) <= 0x1_0000
    &&& le32_of(c, 24) <= MAX_VMDK_ENTRIES
    &&& (le32_of(c, 24) > 0 ==> le32_of(c, 20) * 512 + le32_of(c, 24) * 4 <= c.len())
}

/// How many grain-directory entries a KDMV header calls for: the capacity
/// in grain-table coverage units, rounded up.
pub open spec fn vmdk4_gd_entries(c: Seq<u8>) -> int {
    let cov = le32_of(c, 44) * (le64_of(c, 20) * 512);
    (le64_of(c, 12) * 512 + cov - 1) / cov
}

/// Whether content `c` carries a usable KDMV header body: geometry within
/// bounds, sizes that do not overflow, and a grain directory that lies
/// whole inside the stream.
pub open spec fn vmdk4_header_ok(c: Seq<u8>) -> bool {
    let cov = le32_of(c, 44) * (le64_of(c, 20) * 512);
    &&& c.len() >= 64
    &&& 1 <= le64_of(c, 20) <= 0x1_0000
    &&& 1 <= le32_of(c, 44) <= 4096
    &&& le64_of(c, 12) * 512 <= u64::MAX
    &&& le64_of(c, 12) * 512 + cov - 1 <= u64::MAX
    &&& vmdk4_gd_entries(c) <= MAX_VMDK_ENTRIES
    &&& le64_of(c, 56) * 512 <= u64::MAX
    &&& (vmdk4_gd_entries(c) > 0 ==> le64_of(c, 56) * 512 + vmdk4_gd_entries(c) * 4 <= c.len())
}

/// How many grain-directory entries a seSparse header calls for.
pub open spec fn sesparse_gd_entries(c: Seq<u8>) -> int {
    let cov = le64_of(c, 32) * le64_of(c, 24);
    (le64_of(c, 16) + cov - 1) / cov
}

/// Whether content `c` carries a usable seSparse header body: geometry
/// within bounds, a rounding that does not overflow, and a grain directory
/// that lies whole inside the stream.
pub open spec fn sesparse_header_ok(c: Seq<u8>) -> bool {
    &&& c.len() >= 48
    &&& 512 <= le64_of(c, 24) <= 0x200_0000
    &&& 1 <= le64_of(c, 32) <= MAX_VMDK_ENTRIES
    &&& le64_of(c, 16) + le64_of(c, 32) * le64_of(c, 24) - 1 <= u64::MAX
    &&& sesparse_gd_entries(c) <= MAX_VMDK_ENTRIES
    &&& (sesparse_gd_entries(c) > 0 ==> le64_of(c, 40) + sesparse_gd_entries(c) * 8 <= c.len())
}

/// Whether content `c` carries a usable header of any VMDK flavor, as the
/// magics dispatch them.
pub open spec fn vmdk_header_ok(c: Seq<u8>) -> bool {
    &&& c.len() >= 4
    &&& {
        ||| (le32_of(c, 0) == VMDK3_MAGIC && vmdk3_header_ok(c))
        ||| (le32_of(c, 0) == VMDK4_MAGIC && vmdk4_header_ok(c))
        ||| (le32_of(c, 0) != VMDK3_MAGIC && le32_of(c, 0) != VMDK4_MAGIC && c.len() >= 8
            && le64_of(c, 0) == SESPARSE_MAGIC && sesparse_header_ok(c))
    }
}

/// A 32-bit grain-table entry as found in parent content `pc`; `None` when
/// it cannot be read whole.
pub open spec fn gt_entry32_of(pc: Seq<u8>, gt_base: int, idx: int) -> Option<u32> {
    if gt_base + idx * 4 + 4 <= pc.len() {
        Some(le32_of(pc, gt_base + idx * 4) as u32)
    } else {
        None
    }
}

/// A 64-bit grain-table entry as found in parent content `pc`; `None` when
/// it cannot be read whole.
pub open spec fn gt_entry64_of(pc: Seq<u8>, gt_base: int, idx: int) -> Option<u64> {
    if gt_base + idx * 8 + 8 <= pc.len() {
        Some(le64_of(pc, gt_base + idx * 8) as u64)
    } else {
        None
    }
}

/// Whether reader `v` translates into `parent` with exactly the flavor,
/// geometry and tables that header content `pc` dictates.
pub open spec fn vmdk_reader_matches(v: VmdkReader, parent: Source, pc: Seq<u8>) -> bool {
    &&& v.spec_parent() == parent
    &&& match v.spec_variant() {
        VmdkVariant::Vmdk3 { l1_table } => {
            &&& le32_of(pc, 0) == VMDK3_MAGIC
            &&& v.spec_grain_size() == le32_of(pc, 16) * 512
            &&& v.spec_virtual_size() == le32_of(pc, 12) * 512
            &&& l1_table@.len() == le32_of(pc, 24)
            &&& forall|k: int|
                0 <= k < l1_table@.len() ==> l1_table@[k] == le32_of(
                    pc,
                    le32_of(pc, 20) * 512 + k * 4,
                )
        },
        VmdkVariant::Vmdk4 { gd, num_gtes_per_gt, has_zero_grain } => {
            &&& le32_of(pc, 0) == VMDK4_MAGIC
            &&& ((le32_of(pc, 8) as u32) & VMDK4_FLAG_COMPRESS) == 0
            &&& has_zero_grain == (((le32_of(pc, 8) as u32) & VMDK4_FLAG_ZERO_GRAIN) != 0)
            &&& v.spec_grain_size() == le64_of(pc, 20) * 512
            &&& v.spec_virtual_size() == le64_of(pc, 12) * 512
            &&& num_gtes_per_gt == le32_of(pc, 44)
            &&& gd@.len() == vmdk4_gd_entries(pc)
            &&& forall|k: int|
                0 <= k < gd@.len() ==> gd@[k] == le32_of(pc, le64_of(pc, 56) * 512 + k * 4)
        },
        VmdkVariant::Vmdk4Compressed { gd, num_gtes_per_gt } => {
            &&& le32_of(pc, 0) == VMDK4_MAGIC
            &&& ((le32_of(pc, 8) as u32) & VMDK4_FLAG_COMPRESS) != 0
            &&& v.spec_grain_size() == le64_of(pc, 20) * 512
            &&& v.spec_virtual_size() == le64_of(pc, 12) * 512
            &&& num_gtes_per_gt == le32_of(pc, 44)
            &&& gd@.len() == vmdk4_gd_entries(pc)
            &&& forall|k: int|
                0 <= k < gd@.len() ==> gd@[k] == le32_of(pc, le64_of(pc, 56) * 512 + k * 4)
        },
        VmdkVariant::SeSparse { gd, gt_size } => {
            &&& le64_of(pc, 0) == SESPARSE_MAGIC
            &&& v.spec_grain_size() == le64_of(pc, 24)
            &&& v.spec_virtual_size() == le64_of(pc, 16)
            &&& gt_size == le64_of(pc, 32)
            &&& gd@.len() == sesparse_gd_entries(pc)
            &&& forall|k: int|
                0 <= k < gd@.len() ==> gd@[k] == le64_of(pc, le64_of(pc, 40) + k * 8)
        },
    }
}

/// How a VMDK image locates its grains.
pub enum VmdkVariant {
    /// COWD: one flat table of grain sectors.
    Vmdk3 { l1_table: Vec<u32> },
    /// KDMV: grain directory naming grain tables in the parent.
    Vmdk4 { gd: Vec<u32>, num_gtes_per_gt: u64, has_zero_grain: bool },
    /// KDMV stream-optimized: grains are deflate-compressed runs.
    Vmdk4Compressed { gd: Vec<u32>, num_gtes_per_gt: u64 },
    /// seSparse: 64-bit state-tagged directory and table entries.
    SeSparse { gd: Vec<u64>, gt_size: u64 },
}

/// Reader that translates virtual disk offsets through VMDK grain tables.
pub struct VmdkReader {
    parent: Rc<Source>,
    variant: VmdkVariant,
    grain_size: u64,
    virtual_size: u64,
}

impl VmdkReader {
    #[verifier::type_invariant]
    spec fn wf(self) -> bool {
        &&& 512 <= self.grain_size <= 0x200_0000
        &&& match self.variant {
            VmdkVariant::Vmdk3 { l1_table } => l1_table@.len() <= MAX_VMDK_ENTRIES,
            VmdkVariant::Vmdk4 { gd, num_gtes_per_gt, .. } => gd@.len() <= MAX_VMDK_ENTRIES && 1
                <= num_gtes_per_gt <= 4096,
            VmdkVariant::Vmdk4Compressed { gd, num_gtes_per_gt } => gd@.len()
                <= MAX_VMDK_ENTRIES && 1 <= num_gtes_per_gt <= 4096,
            VmdkVariant::SeSparse { gd, gt_size } => gd@.len() <= MAX_VMDK_ENTRIES && 1 <= gt_size
                <= MAX_VMDK_ENTRIES,
        }
    }

    /// The parent source the reader translates into.
    pub closed spec fn spec_parent(&self) -> Source {
        *self.parent
    }

    /// The flavor and its loaded tables.
    pub closed spec fn spec_variant(&self) -> VmdkVariant {
        self.variant
    }

    /// The virtual disk size in bytes.
    pub closed spec fn spec_virtual_size(&self) -> u64 {
        self.virtual_size
    }

    /// The grain size in bytes.
    pub closed spec fn spec_grain_size(&self) -> u64 {
        self.grain_size
    }

    /// Whether the loaded directory alone marks the grain at `offset`
    /// unallocated: its index lies beyond the directory, or the directory
    /// entry names no table or grain. Such an offset is read as zeroes
    /// without consulting the parent.
    pub open spec fn dir_sparse(&self, offset: u64) -> bool {
        let gi = offset as int / self.spec_grain_size() as int;
        match self.spec_variant() {
            VmdkVariant::Vmdk3 { l1_table } => gi >= l1_table@.len() || l1_table@[gi] == 0,
            VmdkVariant::Vmdk4 { gd, num_gtes_per_gt, .. } => {
                let gdi = gi / num_gtes_per_gt as int;
                gdi >= gd@.len() || gd@[gdi] == 0
            },
            VmdkVariant::Vmdk4Compressed { gd, num_gtes_per_gt } => {
                let gdi = gi / num_gtes_per_gt as int;
                gdi >= gd@.len() || gd@[gdi] == 0
            },
            VmdkVariant::SeSparse { gd, gt_size } => {
                let gdi = gi / gt_size as int;
                ||| gdi >= gd@.len()
                ||| {
                    let e = gd@[gdi];
                    let state = (e >> 60) & 0xf;
                    (state != 0 && state != 3) || (e & 0x0fff_ffff_ffff_ffff) == 0
                }
            },
        }
    }

    /// The largest length a read at `offset` may return: never past the
    /// virtual size, and never across a grain boundary.
    pub open spec fn clamp(&self, offset: u64, len: usize) -> int {
        if offset >= self.spec_virtual_size() {
            0
        } else {
            vstd::math::min(
                len as int,
                vstd::math::min(
                    self.spec_grain_size() - offset as int % self.spec_grain_size() as int,
                    self.spec_virtual_size() - offset,
                ),
            )
        }
    }

    /// Parse whichever header flavor the magic announces and load its
    /// directory. `None` when the header is unusable.
    pub fn new(parent: Rc<Source>) -> (r: Option<Self>)
        ensures
            (*parent).plain() ==> {
                let pc = (*parent).content();
                match r {
                    Some(v) => vmdk_header_ok(pc) && vmdk_reader_matches(v, *parent, pc),
                    None => !vmdk_header_ok(pc),
                }
            },
    {
        let src = &*parent;
        let magic32 = match read_le32(src, 0) {
            Some(v) => v,
            None => {
                return None;
            },
        };
        if magic32 == VMDK3_MAGIC {
            return parse_vmdk3(parent);
        }
        if magic32 == VMDK4_MAGIC {
            return parse_vmdk4(parent);
        }
        let magic64 = match read_le64(src, 0) {
            Some(v) => v,
            None => {
                return None;
            },
        };
        if magic64 == SESPARSE_MAGIC {
            return parse_sesparse(parent);
        }
        None
    }

    /// Total virtual size of the disk.
    pub fn size(&self) -> (r: u64)
        ensures
            r == self.spec_virtual_size(),
    {
        self.virtual_size
    }

    /// Read one 32-bit grain-table entry from the parent.
    fn read_gt_entry(&self, gt_offset: u64, gt_index: u64) -> (r: Option<u32>)
        requires
            gt_index <= 4096,
        ensures
            self.spec_parent().plain() ==> r == gt_entry32_of(
                self.spec_parent().content(),
                gt_offset as int,
                gt_index as int,
            ),
        decreases self, 1int,
    {
        let step = gt_index * 4;
        let eo = match gt_offset.checked_add(step) {
            Some(v) => v,
            None => {
                proof {
                    if self.spec_parent().plain() {
                        self.spec_parent().lemma_content_len();
                    }
                }
                return None;
            },
        };
        read_le32(&*self.parent, eo)
    }

    /// Read one 64-bit grain-table entry from the parent.
    fn read_gt_entry_64(&self, gt_offset: u64, gt_index: u64) -> (r: Option<u64>)
        requires
            gt_index <= MAX_VMDK_ENTRIES,
        ensures
            self.spec_parent().plain() ==> r == gt_entry64_of(
                self.spec_parent().content(),
                gt_offset as int,
                gt_index as int,
            ),
        decreases self, 1int,
    {
        let step = gt_index * 8;
        let eo = match gt_offset.checked_add(step) {
            Some(v) => v,
            None => {
                proof {
                    if self.spec_parent().plain() {
                        self.spec_parent().lemma_content_len();
                    }
                }
                return None;
            },
        };
        read_le64(&*self.parent, eo)
    }

    /// Read part of a compressed grain: its marker names the run's length,
    /// and one whole grain is inflated before slicing.
    fn read_compressed_grain(&self, grain_sector: u64, in_grain: u64, to_read: usize) -> (r: Vec<
        u8,
    >)
        requires
            self.wf(),
            in_grain + to_read <= self.spec_grain_size(),
        ensures
            r@.len() <= to_read,
        decreases self, 1int,
    {
        let base = match grain_sector.checked_mul(512) {
            Some(v) => v,
            None => {
                let r: Vec<u8> = Vec::new();
                return r;
            },
        };
        let compressed_size = match read_le32(&*self.parent, match base.checked_add(8) {
            Some(v) => v,
            None => {
                let r: Vec<u8> = Vec::new();
                return r;
            },
        }) {
            Some(v) => v,
            None => {
                let r: Vec<u8> = Vec::new();
                return r;
            },
        };
        if compressed_size > 0x4000_0000 {
            let r: Vec<u8> = Vec::new();
            return r;
        }
        let data_at = match base.checked_add(16) {
            Some(v) => v,
            None => {
                let r: Vec<u8> = Vec::new();
                return r;
            },
        };
        let compressed = (&*self.parent).read_at(data_at, compressed_size as usize);
        let decompressed = match codecs::inflate_raw(
            compressed.as_slice(),
            self.grain_size as usize,
        ) {
            Some(d) => d,
            None => {
                let r: Vec<u8> = Vec::new();
                return r;
            },
        };
        let mut out: Vec<u8> = Vec::new();
        let ig = in_grain as usize;
        let mut j: usize = 0;
        while j < to_read
            invariant
                decompressed@.len() == self.spec_grain_size(),
                self.spec_grain_size() <= 0x200_0000,
                ig + to_read <= decompressed@.len(),
                j <= to_read,
                out@.len() == j,
            decreases to_read - j,
        {
            out.push(decompressed[ig + j]);
            j = j + 1;
        }
        out
    }

    /// Read up to `len` bytes at virtual offset `offset`. The returned
    /// length never exceeds the clamp; a grain the directory marks
    /// unallocated is answered with exactly the clamped number of zero
    /// bytes without touching the parent. When the parent is a plain
    /// source, a grain whose table entry marks it unallocated or zero is
    /// likewise answered with exactly the clamped number of zero bytes,
    /// and a stored grain is answered with the parent's bytes at the
    /// entry's physical offset; only a compressed grain's bytes are left
    /// unstated, since they pass through the inflate call.
    pub fn read_at(&self, offset: u64, len: usize) -> (r: Vec<u8>)
        ensures
            r@.len() <= len,
            r@.len() <= self.clamp(offset, len),
            offset < self.spec_virtual_size() && self.dir_sparse(offset) ==> r@.len()
                == self.clamp(offset, len) && (forall|j: int| 0 <= j < r@.len() ==> r@[j] == 0),
            offset < self.spec_virtual_size() && !self.dir_sparse(offset)
                && self.spec_parent().plain() ==> {
                let pc = self.spec_parent().content();
                let gs = self.spec_grain_size() as int;
                let gi = offset as int / gs;
                let ig = offset as int % gs;
                match self.spec_variant() {
                    VmdkVariant::Vmdk3 { l1_table } => {
                        let phys = l1_table@[gi] * 512 + ig;
                        if phys <= u64::MAX {
                            let lo = vstd::math::min(phys, pc.len() as int);
                            r@.len() == vstd::math::min(self.clamp(offset, len), pc.len() - lo)
                                && r@ == pc.subrange(lo, lo + r@.len())
                        } else {
                            r@.len() == 0
                        }
                    },
                    VmdkVariant::Vmdk4 { gd, num_gtes_per_gt, has_zero_grain } => {
                        let n = num_gtes_per_gt as int;
                        match gt_entry32_of(pc, gd@[gi / n] * 512, gi % n) {
                            Some(e) => {
                                &&& (e == 0 || (has_zero_grain && e == VMDK4_GTE_ZEROED))
                                    ==> r@.len() == self.clamp(offset, len) && (forall|j: int|
                                    0 <= j < r@.len() ==> r@[j] == 0)
                                &&& (e != 0 && !(has_zero_grain && e == VMDK4_GTE_ZEROED)) ==> {
                                    let phys = e * 512 + ig;
                                    if phys <= u64::MAX {
                                        let lo = vstd::math::min(phys, pc.len() as int);
                                        r@.len() == vstd::math::min(
                                            self.clamp(offset, len),
                                            pc.len() - lo,
                                        ) && r@ == pc.subrange(lo, lo + r@.len())
                                    } else {
                                        r@.len() == 0
                                    }
                                }
                            },
                            None => r@.len() == 0,
                        }
                    },
                    VmdkVariant::Vmdk4Compressed { gd, num_gtes_per_gt } => {
                        let n = num_gtes_per_gt as int;
                        match gt_entry32_of(pc, gd@[gi / n] * 512, gi % n) {
                            Some(e) => e == 0 ==> r@.len() == self.clamp(offset, len) && (
                            forall|j: int| 0 <= j < r@.len() ==> r@[j] == 0),
                            None => r@.len() == 0,
                        }
                    },
                    VmdkVariant::SeSparse { gd, gt_size } => {
                        let t = gt_size as int;
                        let gt_addr = (gd@[gi / t] & 0x0fff_ffff_ffff_ffff) as int;
                        match gt_entry64_of(pc, gt_addr, gi % t) {
                            Some(e) => {
                                &&& ((e >> 60) & 0xf) != 3 ==> r@.len() == self.clamp(
                                    offset,
                                    len,
                                ) && (forall|j: int| 0 <= j < r@.len() ==> r@[j] == 0)
                                &&& ((e >> 60) & 0xf) == 3 ==> {
                                    let phys = (e & 0x0fff_ffff_ffff_ffff) + ig;
                                    if phys <= u64::MAX {
                                        let lo = vstd::math::min(phys, pc.len() as int);
                                        r@.len() == vstd::math::min(
                                            self.clamp(offset, len),
                                            pc.len() - lo,
                                        ) && r@ == pc.subrange(lo, lo + r@.len())
                                    } else {
                                        r@.len() == 0
                                    }
                                }
                            },
                            None => r@.len() == 0,
                        }
                    },
                }
            },
        decreases self, 2int,
    {
        proof {
            use_type_invariant(self);
        }
        if offset >= self.virtual_size {
            let r: Vec<u8> = Vec::new();
            return r;
        }
        let grain_idx = offset / self.grain_size;
        let in_grain = offset % self.grain_size;
        let remaining_in_grain = self.grain_size - in_grain;
        let remaining_in_disk = self.virtual_size - offset;
        let clamp64 = if remaining_in_grain <= remaining_in_disk {
            remaining_in_grain
        } else {
            remaining_in_disk
        };
        let to_read: usize = if (len as u64) <= clamp64 {
            len
        } else {
            clamp64 as usize
        };
        match &self.variant {
            VmdkVariant::Vmdk3 { l1_table } => {
                if grain_idx >= l1_table.len() as u64 {
                    return zeroes(to_read);
                }
                let grain_sector = l1_table[grain_idx as usize];
                if grain_sector == 0 {
                    return zeroes(to_read);
                }
                let phys = match (grain_sector as u64).checked_mul(512) {
                    Some(v) => match v.checked_add(in_grain) {
                        Some(w) => w,
                        None => {
                            let r: Vec<u8> = Vec::new();
                            return r;
                        },
                    },
                    None => {
                        let r: Vec<u8> = Vec::new();
                        return r;
                    },
                };
                (&*self.parent).read_at(phys, to_read)
            },
            VmdkVariant::Vmdk4 { gd, num_gtes_per_gt, has_zero_grain } => {
                let gd_idx = grain_idx / *num_gtes_per_gt;
                let gt_idx = grain_idx % *num_gtes_per_gt;
                if gd_idx >= gd.len() as u64 {
                    return zeroes(to_read);
                }
                let gt_sector = gd[gd_idx as usize];
                if gt_sector == 0 {
                    return zeroes(to_read);
                }
                let grain_sector = match self.read_gt_entry(
                    (gt_sector as u64) * 512,
                    gt_idx,
                ) {
                    Some(v) => v,
                    None => {
                        let r: Vec<u8> = Vec::new();
                        return r;
                    },
                };
                if grain_sector == 0 || (*has_zero_grain && grain_sector == VMDK4_GTE_ZEROED) {
                    return zeroes(to_read);
                }
                let phys = match (grain_sector as u64).checked_mul(512) {
                    Some(v) => match v.checked_add(in_grain) {
                        Some(w) => w,
                        None => {
                            let r: Vec<u8> = Vec::new();
                            return r;
                        },
                    },
                    None => {
                        let r: Vec<u8> = Vec::new();
                        return r;
                    },
                };
                (&*self.parent).read_at(phys, to_read)
            },
            VmdkVariant::Vmdk4Compressed { gd, num_gtes_per_gt } => {
                let gd_idx = grain_idx / *num_gtes_per_gt;
                let gt_idx = grain_idx % *num_gtes_per_gt;
                if gd_idx >= gd.len() as u64 {
                    return zeroes(to_read);
                }
                let gt_sector = gd[gd_idx as usize];
                if gt_sector == 0 {
                    return zeroes(to_read);
                }
                let grain_sector = match self.read_gt_entry(
                    (gt_sector as u64) * 512,
                    gt_idx,
                ) {
                    Some(v) => v,
                    None => {
                        let r: Vec<u8> = Vec::new();
                        return r;
                    },
                };
                if grain_sector == 0 {
                    return zeroes(to_read);
                }
                self.read_compressed_grain(grain_sector as u64, in_grain, to_read)
            },
            VmdkVariant::SeSparse { gd, gt_size } => {
                let gd_idx = grain_idx / *gt_size;
                let gt_idx = grain_idx % *gt_size;
                if gd_idx >= gd.len() as u64 {
                    return zeroes(to_read);
                }
                let gt_offset = gd[gd_idx as usize];
                let state = (gt_offset >> 60) & 0xf;
                if state != 0 && state != 3 {
                    return zeroes(to_read);
                }
                let gt_addr = gt_offset & 0x0fff_ffff_ffff_ffff;
                if gt_addr == 0 {
                    return zeroes(to_read);
                }
                let grain_entry = match self.read_gt_entry_64(gt_addr, gt_idx) {
                    Some(v) => v,
                    None => {
                        let r: Vec<u8> = Vec::new();
                        return r;
                    },
                };
                let grain_state = (grain_entry >> 60) & 0xf;
                if grain_state != 3 {
                    return zeroes(to_read);
                }
                let grain_addr = grain_entry & 0x0fff_ffff_ffff_ffff;
                let phys = match grain_addr.checked_add(in_grain) {
                    Some(v) => v,
                    None => {
                        let r: Vec<u8> = Vec::new();
                        return r;
                    },
                };
                (&*self.parent).read_at(phys, to_read)
            },
        }
    }
}

/// Parse a COWD header and its flat grain table.
fn parse_vmdk3(parent: Rc<Source>) -> (r: Option<VmdkReader>)
    requires
        (*parent).plain() ==> le32_of((*parent).content(), 0) == VMDK3_MAGIC,
    ensures
        (*parent).plain() ==> {
            let pc = (*parent).content();
            match r {
                Some(v) => vmdk3_header_ok(pc) && vmdk_reader_matches(v, *parent, pc),
                None => !vmdk3_header_ok(pc),
            }
        },
{
    let src = &*parent;
    let ghost pc = src.content();
    proof {
        if src.plain() {
            src.lemma_content_len();
        }
    }
    let disk_sectors = match read_le32(src, 12) {
        Some(v) => v as u64,
        None => {
            return None;
        },
    };
    let granularity = match read_le32(src, 16) {
        Some(v) => v as u64,
        None => {
            return None;
        },
    };
    let l1dir_offset = match read_le32(src, 20) {
        Some(v) => v as u64,
        None => {
            return None;
        },
    };
    let l1dir_size = match read_le32(src, 24) {
        Some(v) => v as u64,
        None => {
            return None;
        },
    };
    if granularity < 1 || granularity > 0x1_0000 {
        return None;
    }
    if l1dir_size > MAX_VMDK_ENTRIES {
        return None;
    }
    let grain_size = granularity * 512;
    let virtual_size = disk_sectors * 512;
    let table_base = l1dir_offset * 512;
    let mut l1_table: Vec<u32> = Vec::new();
    let mut k: u64 = 0;
    while k < l1dir_size
        invariant
            src == &*parent,
            l1dir_size <= MAX_VMDK_ENTRIES,
            table_base <= 0xffff_ffffu64 * 512,
            k <= l1dir_size,
            l1_table@.len() == k,
            src.plain() ==> {
                &&& pc == src.content()
                &&& l1dir_size == le32_of(pc, 24)
                &&& table_base == le32_of(pc, 20) * 512
                &&& k > 0 ==> table_base + k * 4 <= pc.len()
                &&& forall|j: int|
                    0 <= j < k ==> l1_table@[j] == le32_of(pc, table_base + j * 4)
            },
        decreases l1dir_size - k,
    {
        let entry = match read_le32(src, table_base + k * 4) {
            Some(v) => v,
            None => {
                proof {
                    if src.plain() {
                        assert(table_base + (k + 1) * 4 > pc.len());
                        assert((k + 1) * 4 <= l1dir_size * 4);
                        assert(table_base + l1dir_size * 4 > pc.len());
                        assert(!vmdk3_header_ok(pc));
                    }
                }
                return None;
            },
        };
        l1_table.push(entry);
        k = k + 1;
    }
    Some(
        VmdkReader {
            parent,
            variant: VmdkVariant::Vmdk3 { l1_table },
            grain_size,
            virtual_size,
        },
    )
}

/// Parse a KDMV header and its grain directory.
fn parse_vmdk4(parent: Rc<Source>) -> (r: Option<VmdkReader>)
    requires
        (*parent).plain() ==> le32_of((*parent).content(), 0) == VMDK4_MAGIC,
    ensures
        (*parent).plain() ==> {
            let pc = (*parent).content();
            match r {
                Some(v) => vmdk4_header_ok(pc) && vmdk_reader_matches(v, *parent, pc),
                None => !vmdk4_header_ok(pc),
            }
        },
{
    let src = &*parent;
    let ghost pc = src.content();
    proof {
        if src.plain() {
            src.lemma_content_len();
        }
    }
    let flags = match read_le32(src, 8) {
        Some(v) => v,
        None => {
            return None;
        },
    };
    let capacity = match read_le64(src, 12) {
        Some(v) => v,
        None => {
            return None;
        },
    };
    let granularity = match read_le64(src, 20) {
        Some(v) => v,
        None => {
            return None;
        },
    };
    let num_gtes_per_gt = match read_le32(src, 44) {
        Some(v) => v as u64,
        None => {
            return None;
        },
    };
    let gd_offset = match read_le64(src, 56) {
        Some(v) => v,
        None => {
            return None;
        },
    };
    if granularity < 1 || granularity > 0x1_0000 {
        return None;
    }
    if num_gtes_per_gt < 1 || num_gtes_per_gt > 4096 {
        return None;
    }
    let grain_size = granularity * 512;
    let virtual_size = match capacity.checked_mul(512) {
        Some(v) => v,
        None => {
            return None;
        },
    };
    proof {
        assert(num_gtes_per_gt * grain_size <= 4096u64 * 0x200_0000u64) by (nonlinear_arith)
            requires
                num_gtes_per_gt <= 4096u64,
                grain_size <= 0x200_0000u64,
        ;
        assert(num_gtes_per_gt * grain_size >= 1) by (nonlinear_arith)
            requires
                num_gtes_per_gt >= 1u64,
                grain_size >= 1u64,
        ;
    }
    let gt_coverage = num_gtes_per_gt * grain_size;
    let rounded = match virtual_size.checked_add(gt_coverage - 1) {
        Some(v) => v,
        None => {
            return None;
        },
    };
    let gd_entries = rounded / gt_coverage;
    if gd_entries > MAX_VMDK_ENTRIES {
        return None;
    }
    let table_base = match gd_offset.checked_mul(512) {
        Some(v) => v,
        None => {
            return None;
        },
    };
    let mut gd: Vec<u32> = Vec::new();
    let mut k: u64 = 0;
    while k < gd_entries
        invariant
            src == &*parent,
            gd_entries <= MAX_VMDK_ENTRIES,
            k <= gd_entries,
            gd@.len() == k,
            src.plain() ==> {
                &&& pc == src.content()
                &&& pc.len() <= usize::MAX
                &&& gd_entries == vmdk4_gd_entries(pc)
                &&& table_base == le64_of(pc, 56) * 512
                &&& k > 0 ==> table_base + k * 4 <= pc.len()
                &&& forall|j: int| 0 <= j < k ==> gd@[j] == le32_of(pc, table_base + j * 4)
            },
        decreases gd_entries - k,
    {
        let eo = match table_base.checked_add(k * 4) {
            Some(v) => v,
            None => {
                proof {
                    if src.plain() {
                        assert(table_base + k * 4 > u64::MAX);
                        assert((k + 1) * 4 <= gd_entries * 4);
                        assert(table_base + gd_entries * 4 > pc.len());
                        assert(!vmdk4_header_ok(pc));
                    }
                }
                return None;
            },
        };
        let entry = match read_le32(src, eo) {
            Some(v) => v,
            None => {
                proof {
                    if src.plain() {
                        assert(eo == table_base + k * 4);
                        assert(table_base + (k + 1) * 4 > pc.len());
                        assert((k + 1) * 4 <= gd_entries * 4);
                        assert(table_base + gd_entries * 4 > pc.len());
                        assert(!vmdk4_header_ok(pc));
                    }
                }
                return None;
            },
        };
        gd.push(entry);
        k = k + 1;
    }
    let variant = if flags & VMDK4_FLAG_COMPRESS != 0 {
        VmdkVariant::Vmdk4Compressed { gd, num_gtes_per_gt }
    } else {
        VmdkVariant::Vmdk4 {
            gd,
            num_gtes_per_gt,
            has_zero_grain: flags & VMDK4_FLAG_ZERO_GRAIN != 0,
        }
    };
    Some(VmdkReader { parent, variant, grain_size, virtual_size })
}

/// Parse a seSparse header and its grain directory.
fn parse_sesparse(parent: Rc<Source>) -> (r: Option<VmdkReader>)
    requires
        (*parent).plain() ==> (*parent).content().len() >= 8 && le64_of(
            (*parent).content(),
            0,
        ) == SESPARSE_MAGIC,
    ensures
        (*parent).plain() ==> {
            let pc = (*parent).content();
            match r {
                Some(v) => sesparse_header_ok(pc) && vmdk_reader_matches(v, *parent, pc),
                None => !sesparse_header_ok(pc),
            }
        },
{
    let src = &*parent;
    let ghost pc = src.content();
    proof {
        if src.plain() {
            src.lemma_content_len();
        }
    }
    let capacity = match read_le64(src, 16) {
        Some(v) => v,
        None => {
            return None;
        },
    };
    let grain_size_bytes = match read_le64(src, 24) {
        Some(v) => v,
        None => {
            return None;
        },
    };
    let gt_size = match read_le64(src, 32) {
        Some(v) => v,
        None => {
            return None;
        },
    };
    let gd_offset = match read_le64(src, 40) {
        Some(v) => v,
        None => {
            return None;
        },
    };
    if grain_size_bytes < 512 || grain_size_bytes > 0x200_0000 {
        return None;
    }
    if gt_size < 1 || gt_size > MAX_VMDK_ENTRIES {
        return None;
    }
    proof {
        assert(gt_size * grain_size_bytes <= 0x10_0000u64 * 0x200_0000u64) by (nonlinear_arith)
            requires
                gt_size <= 0x10_0000u64,
                grain_size_bytes <= 0x200_0000u64,
        ;
        assert(gt_size * grain_size_bytes >= 1) by (nonlinear_arith)
            requires
                gt_size >= 1u64,
                grain_size_bytes >= 1u64,
        ;
    }
    let gt_coverage = gt_size * grain_size_bytes;
    let rounded = match capacity.checked_add(gt_coverage - 1) {
        Some(v) => v,
        None => {
            return None;
        },
    };
    let gd_entries = rounded / gt_coverage;
    if gd_entries > MAX_VMDK_ENTRIES {
        return None;
    }
    let mut gd: Vec<u64> = Vec::new();
    let mut k: u64 = 0;
    while k < gd_entries
        invariant
            src == &*parent,
            gd_entries <= MAX_VMDK_ENTRIES,
            k <= gd_entries,
            gd@.len() == k,
            src.plain() ==> {
                &&& pc == src.content()
                &&& pc.len() <= usize::MAX
                &&& gd_entries == sesparse_gd_entries(pc)
                &&& gd_offset == le64_of(pc, 40)
                &&& k > 0 ==> gd_offset + k * 8 <= pc.len()
                &&& forall|j: int| 0 <= j < k ==> gd@[j] == le64_of(pc, gd_offset + j * 8)
            },
        decreases gd_entries - k,
    {
        let eo = match gd_offset.checked_add(k * 8) {
            Some(v) => v,
            None => {
                proof {
                    if src.plain() {
                        assert(gd_offset + k * 8 > u64::MAX);
                        assert((k + 1) * 8 <= gd_entries * 8);
                        assert(gd_offset + gd_entries * 8 > pc.len());
                        assert(!sesparse_header_ok(pc));
                    }
                }
                return None;
            },
        };
        let entry = match read_le64(src, eo) {
            Some(v) => v,
            None => {
                proof {
                    if src.plain() {
                        assert(eo == gd_offset + k * 8);
                        assert(gd_offset + (k + 1) * 8 > pc.len());
                        assert((k + 1) * 8 <= gd_entries * 8);
                        assert(gd_offset + gd_entries * 8 > pc.len());
                        assert(!sesparse_header_ok(pc));
                    }
                }
                return None;
            },
        };
        gd.push(entry);
        k = k + 1;
    }
    Some(
        VmdkReader {
            parent,
            variant: VmdkVariant::SeSparse { gd, gt_size },
            grain_size: grain_size_bytes,
            virtual_size: capacity,
        },
    )
}

/// VMDK disk image container.
pub struct VmdkContainer;

impl VmdkContainer {
    /// The translated virtual disk as a single child; `None` when no
    /// flavor's header is usable.
    pub fn children(&self, reader: Rc<Source>) -> (r: Option<Vec<Child>>)
        ensures
            (*reader).plain() ==> match r {
                Some(cs) => {
                    let pc = (*reader).content();
                    &&& vmdk_header_ok(pc)
                    &&& cs@.len() == 1
                    &&& cs@[0].index == 0
                    &&& cs@[0].origin == (ChildOrigin::Slice { offset: 0u64 })
                    &&& match *cs@[0].reader {
                        Source::Vmdk(v) => vmdk_reader_matches(v, *reader, pc),
                        _ => false,
                    }
                },
                None => !vmdk_header_ok((*reader).content()),
            },
    {
        match VmdkReader::new(reader) {
            Some(v) => Some(single_translated_child(Source::Vmdk(v))),
            None => None,
        }
    }
}

} // verus!
