//! VHDX disk image reader.
//!
//! The region table names the block allocation table and the metadata
//! region; metadata items carry the virtual size and block size. A BAT
//! entry whose state is not fully present is read as zeroes without
//! touching the parent.

use vstd::prelude::*;

use crate::container::{bytes_eq, Child, ChildOrigin};
use crate::disk::qcow2::zeroes;
use crate::disk::single_translated_child;
use crate::reader::{le16_of, le32_of, le64_of, read_le16, read_le32, read_le64, Source};

use std::rc::Rc;

verus! {

/// BAT entry state bits.
pub const BAT_STATE_MASK: u64 = 0x07;

/// BAT entry file-offset bits.
pub const BAT_FILE_OFF_MASK: u64 = 0xffff_ffff_fff0_0000;

/// BAT state of a block whose data is fully present.
pub const BAT_STATE_FULLY_PRESENT: u64 = 6;

/// Most entries the allocation table may hold.
pub const MAX_VHDX_ENTRIES: u64 = 0x10_0000;

/// Whether `g` is the sixteen-byte identifier of the BAT region.
pub open spec fn is_bat_guid(g: Seq<u8>) -> bool {
    &&& g.len() == 16
    &&& g[0] == 0x66 && g[1] == 0x77 && g[2] == 0xc2 && g[3] == 0x2d
    &&& g[4] == 0x23 && g[5] == 0xf6 && g[6] == 0x00 && g[7] == 0x42
    &&& g[8] == 0x9d && g[9] == 0x64 && g[10] == 0x11 && g[11] == 0x5e
    &&& g[12] == 0x9b && g[13] == 0xfd && g[14] == 0x4a && g[15] == 0x08
}

/// Whether `g` is the sixteen-byte identifier of the metadata region.
pub open spec fn is_metadata_guid(g: Seq<u8>) -> bool {
    &&& g.len() == 16
    &&& g[0] == 0x06 && g[1] == 0xa2 && g[2] == 0x7c && g[3] == 0x8b
    &&& g[4] == 0x90 && g[5] == 0x47 && g[6] == 0x9a && g[7] == 0x4b
    &&& g[8] == 0xb8 && g[9] == 0xfe && g[10] == 0x57 && g[11] == 0x5f
    &&& g[12] == 0x05 && g[13] == 0x0f && g[14] == 0x88 && g[15] == 0x6e
}

/// Whether `g` is the identifier of the virtual-disk-size metadata item.
pub open spec fn is_virtual_disk_size_guid(g: Seq<u8>) -> bool {
    &&& g.len() == 16
    &&& g[0] == 0x24 && g[1] == 0x42 && g[2] == 0xa5 && g[3] == 0x2f
    &&& g[4] == 0x1b && g[5] == 0xcd && g[6] == 0x76 && g[7] == 0x48
    &&& g[8] == 0xb2 && g[9] == 0x11 && g[10] == 0x5d && g[11] == 0xbe
    &&& g[12] == 0xd8 && g[13] == 0x3b && g[14] == 0xf4 && g[15] == 0xb8
}

/// Whether `g` is the identifier of the file-parameters metadata item.
pub open spec fn is_file_parameters_guid(g: Seq<u8>) -> bool {
    &&& g.len() == 16
    &&& g[0] == 0x37 && g[1] == 0x67 && g[2] == 0xa1 && g[3] == 0xca
    &&& g[4] == 0x36 && g[5] == 0xfa && g[6] == 0x43 && g[7] == 0x4d
    &&& g[8] == 0xb3 && g[9] == 0xb6 && g[10] == 0x33 && g[11] == 0xf0
    &&& g[12] == 0xaa && g[13] == 0x44 && g[14] == 0xe7 && g[15] == 0x6b
}

/// Whether the region-table entry `i` lies whole inside content `c`.
pub open spec fn vhdx_region_entry_readable(c: Seq<u8>, i: int) -> bool {
    0x30010 + i * 32 + 32 <= c.len()
}

/// The BAT offset, BAT length and metadata offset found by scanning the
/// first `n` region-table entries of `c` in order, later matches
/// overriding earlier ones; zero where no entry named a region. Scanning
/// stops at the first entry that does not lie whole inside the stream.
pub open spec fn vhdx_region_scan(c: Seq<u8>, n: int) -> (u64, u64, u64)
    decreases n,
{
    if n <= 0 {
        (0u64, 0u64, 0u64)
    } else {
        let prev = vhdx_region_scan(c, n - 1);
        if !vhdx_region_entry_readable(c, n - 1) {
            prev
        } else {
            let base = 0x30010 + (n - 1) * 32;
            let g = c.subrange(base, base + 16);
            if is_bat_guid(g) {
                ((le64_of(c, base + 16) as u64), (le32_of(c, base + 24) as u64), prev.2)
            } else if is_metadata_guid(g) {
                (prev.0, prev.1, (le64_of(c, base + 16) as u64))
            } else {
                prev
            }
        }
    }
}

/// Once a region-table entry falls outside the stream, scanning further
/// entries changes nothing.
proof fn lemma_region_scan_stops(c: Seq<u8>, i: int, m: int)
    requires
        0 <= i <= m,
        !vhdx_region_entry_readable(c, i),
    ensures
        vhdx_region_scan(c, m) == vhdx_region_scan(c, i),
    decreases m,
{
    if m > i {
        lemma_region_scan_stops(c, i, m - 1);
    }
}

/// The number of region-table entries the header names, capped as the
/// walk caps it.
pub open spec fn vhdx_region_count(c: Seq<u8>) -> int {
    if le32_of(c, 0x30008) <= 2047 {
        le32_of(c, 0x30008)
    } else {
        2047
    }
}

/// The virtual size and block size found by scanning the first `n`
/// metadata items at `mo` in `c`, later matches overriding earlier ones;
/// zero where no usable item named them. Scanning stops at the first item
/// whose descriptor does not lie whole inside the stream.
pub open spec fn vhdx_meta_scan(c: Seq<u8>, mo: u64, n: int) -> (u64, u64)
    decreases n,
{
    if n <= 0 {
        (0u64, 0u64)
    } else {
        let prev = vhdx_meta_scan(c, mo, n - 1);
        let base = mo + 32 + (n - 1) * 32;
        if base + 32 > c.len() {
            prev
        } else {
            let g = c.subrange(base, base + 16);
            let item_at = mo + le32_of(c, base + 16);
            let item_len = le32_of(c, base + 20);
            if item_at > u64::MAX {
                prev
            } else if item_len >= 8 && is_virtual_disk_size_guid(g) && item_at + 8 <= c.len() {
                ((le64_of(c, item_at) as u64), prev.1)
            } else if item_len >= 8 && is_file_parameters_guid(g) && item_at + 4 <= c.len() {
                (prev.0, (le32_of(c, item_at) as u64))
            } else {
                prev
            }
        }
    }
}

/// Once a metadata item descriptor falls outside the stream, scanning
/// further items changes nothing.
proof fn lemma_meta_scan_stops(c: Seq<u8>, mo: u64, i: int, m: int)
    requires
        0 <= i <= m,
        mo + 32 + i * 32 + 32 > c.len(),
    ensures
        vhdx_meta_scan(c, mo, m) == vhdx_meta_scan(c, mo, i),
    decreases m,
{
    if m > i {
        lemma_meta_scan_stops(c, mo, i, m - 1);
    }
}

/// The metadata-item values that content `c` yields: the scan at the
/// metadata offset the region table names, over the item count stored
/// there.
pub open spec fn vhdx_meta_values(c: Seq<u8>) -> (u64, u64) {
    let mo = vhdx_region_scan(c, vhdx_region_count(c)).2;
    vhdx_meta_scan(c, mo, le16_of(c, mo + 10))
}

/// Whether content `c` carries a usable VHDX image: the file signature,
/// the region table and its BAT and metadata regions, and metadata that
/// yields a virtual size and a block size of at least one sector.
pub open spec fn vhdx_header_ok(c: Seq<u8>) -> bool {
    let rs = vhdx_region_scan(c, vhdx_region_count(c));
    &&& c.len() >= 8
    &&& c[0] == 0x76 && c[1] == 0x68 && c[2] == 0x64 && c[3] == 0x78
    &&& c[4] == 0x66 && c[5] == 0x69 && c[6] == 0x6c && c[7] == 0x65
    &&& c.len() >= 0x3000c
    &&& le32_of(c, 0x30000) == 0x69676572
    &&& rs.0 != 0
    &&& rs.2 != 0
    &&& rs.2 + 12 <= c.len()
    &&& vhdx_meta_values(c).0 != 0
    &&& vhdx_meta_values(c).1 >= 512
}

/// How many allocation-table entries the named BAT region holds, capped.
pub open spec fn vhdx_bat_count(c: Seq<u8>) -> int {
    let rs = vhdx_region_scan(c, vhdx_region_count(c));
    if rs.1 as int / 8 <= MAX_VHDX_ENTRIES {
        rs.1 as int / 8
    } else {
        MAX_VHDX_ENTRIES as int
    }
}

/// Whether reader `v` translates into `parent` with exactly the geometry
/// and the longest loadable allocation-table prefix that content `pc`
/// dictates.
pub open spec fn vhdx_reader_matches(v: VhdxReader, parent: Source, pc: Seq<u8>) -> bool {
    let rs = vhdx_region_scan(pc, vhdx_region_count(pc));
    &&& v.spec_parent() == parent
    &&& v.spec_virtual_size() == vhdx_meta_values(pc).0
    &&& v.spec_block_size() == vhdx_meta_values(pc).1
    &&& v.spec_bat().len() <= vhdx_bat_count(pc)
    &&& forall|k: int|
        0 <= k < v.spec_bat().len() ==> v.spec_bat()[k] == le64_of(pc, rs.0 + k * 8)
    &&& (v.spec_bat().len() < vhdx_bat_count(pc) ==> rs.0 + v.spec_bat().len() * 8 + 8
        > pc.len())
}

/// The identifier of the BAT region.
fn bat_guid() -> (r: Vec<u8>)
    ensures
        is_bat_guid(r@),
{
    let mut g: Vec<u8> = Vec::new();
    g.push(0x66);
    g.push(0x77);
    g.push(0xc2);
    g.push(0x2d);
    g.push(0x23);
    g.push(0xf6);
    g.push(0x00);
    g.push(0x42);
    g.push(0x9d);
    g.push(0x64);
    g.push(0x11);
    g.push(0x5e);
    g.push(0x9b);
    g.push(0xfd);
    g.push(0x4a);
    g.push(0x08);
    g
}

/// The identifier of the metadata region.
fn metadata_guid() -> (r: Vec<u8>)
    ensures
        is_metadata_guid(r@),
{
    let mut g: Vec<u8> = Vec::new();
    g.push(0x06);
    g.push(0xa2);
    g.push(0x7c);
    g.push(0x8b);
    g.push(0x90);
    g.push(0x47);
    g.push(0x9a);
    g.push(0x4b);
    g.push(0xb8);
    g.push(0xfe);
    g.push(0x57);
    g.push(0x5f);
    g.push(0x05);
    g.push(0x0f);
    g.push(0x88);
    g.push(0x6e);
    g
}

/// The identifier of the virtual-disk-size metadata item.
fn virtual_disk_size_guid() -> (r: Vec<u8>)
    ensures
        is_virtual_disk_size_guid(r@),
{
    let mut g: Vec<u8> = Vec::new();
    g.push(0x24);
    g.push(0x42);
    g.push(0xa5);
    g.push(0x2f);
    g.push(0x1b);
    g.push(0xcd);
    g.push(0x76);
    g.push(0x48);
    g.push(0xb2);
    g.push(0x11);
    g.push(0x5d);
    g.push(0xbe);
    g.push(0xd8);
    g.push(0x3b);
    g.push(0xf4);
    g.push(0xb8);
    g
}

/// The identifier of the file-parameters metadata item.
fn file_parameters_guid() -> (r: Vec<u8>)
    ensures
        is_file_parameters_guid(r@),
{
    let mut g: Vec<u8> = Vec::new();
    g.push(0x37);
    g.push(0x67);
    g.push(0xa1);
    g.push(0xca);
    g.push(0x36);
    g.push(0xfa);
    g.push(0x43);
    g.push(0x4d);
    g.push(0xb3);
    g.push(0xb6);
    g.push(0x33);
    g.push(0xf0);
    g.push(0xaa);
    g.push(0x44);
    g.push(0xe7);
    g.push(0x6b);
    g
}

/// Reader that translates virtual disk offsets through the VHDX BAT.
pub struct VhdxReader {
    parent: Rc<Source>,
    bat: Vec<u64>,
    block_size: u64,
    virtual_size: u64,
}

impl VhdxReader {
    #[verifier::type_invariant]
    spec fn wf(self) -> bool {
        &&& 512 <= self.block_size
        &&& self.bat@.len() <= MAX_VHDX_ENTRIES
    }

    /// The parent source the reader translates into.
    pub closed spec fn spec_parent(&self) -> Source {
        *self.parent
    }

    /// The virtual disk size in bytes.
    pub closed spec fn spec_virtual_size(&self) -> u64 {
        self.virtual_size
    }

    /// The block size in bytes.
    pub closed spec fn spec_block_size(&self) -> u64 {
        self.block_size
    }

    /// The loaded allocation table.
    pub closed spec fn spec_bat(&self) -> Seq<u64> {
        self.bat@
    }

    /// Whether the table marks this offset as not fully present. Such an
    /// offset is read as zeroes without consulting the parent.
    pub open spec fn sparse_at(&self, offset: u64) -> bool {
        let bi = offset as int / self.spec_block_size() as int;
        ||| bi >= self.spec_bat().len()
        ||| (self.spec_bat()[bi] & BAT_STATE_MASK) != BAT_STATE_FULLY_PRESENT
    }

    /// The largest length a read at `offset` may return: never past the
    /// virtual size, and never across a block boundary.
    pub open spec fn clamp(&self, offset: u64, len: usize) -> int {
        if offset >= self.spec_virtual_size() {
            0
        } else {
            vstd::math::min(
                len as int,
                vstd::math::min(
                    self.spec_block_size() - offset as int % self.spec_block_size() as int,
                    self.spec_virtual_size() - offset,
                ),
            )
        }
    }

    /// Parse the region table and metadata, then load the allocation
    /// table. `None` when any of them is unusable.
    pub fn new(parent: Rc<Source>) -> (r: Option<Self>)
        ensures
            (*parent).plain() ==> {
                let pc = (*parent).content();
                match r {
                    Some(v) => vhdx_header_ok(pc) && vhdx_reader_matches(v, *parent, pc),
                    None => !vhdx_header_ok(pc),
                }
            },
    {
        let src = &*parent;
        let ghost pc = src.content();
        proof {
            if src.plain() {
                src.lemma_content_len();
            }
        }
        let sig = src.read_at(0, 8);
        if sig.len() != 8 {
            return None;
        }
        let sg = sig.as_slice();
        // "vhdxfile"
        if !(sg[0] == 0x76 && sg[1] == 0x68 && sg[2] == 0x64 && sg[3] == 0x78 && sg[4] == 0x66
            && sg[5] == 0x69 && sg[6] == 0x6c && sg[7] == 0x65) {
            return None;
        }
        // Region table at 0x30000: "regi" then the entry count.
        let region_sig = match read_le32(src, 0x30000) {
            Some(v) => v,
            None => {
                return None;
            },
        };
        if region_sig != 0x69676572 {
            return None;
        }
        let entry_count = match read_le32(src, 0x30008) {
            Some(v) => v,
            None => {
                return None;
            },
        };
        let entry_count = if entry_count <= 2047 {
            entry_count
        } else {
            2047
        };
        let bguid = bat_guid();
        let mguid = metadata_guid();
        let mut bat_offset: u64 = 0;
        let mut bat_length: u64 = 0;
        let mut metadata_offset: u64 = 0;
        let mut i: u32 = 0;
        while i < entry_count
            invariant
                src == &*parent,
                entry_count <= 2047,
                i <= entry_count,
                is_bat_guid(bguid@),
                is_metadata_guid(mguid@),
                src.plain() ==> {
                    &&& pc == src.content()
                    &&& pc.len() <= usize::MAX
                    &&& entry_count == vhdx_region_count(pc)
                    &&& (bat_offset, bat_length, metadata_offset) == vhdx_region_scan(
                        pc,
                        i as int,
                    )
                },
            decreases entry_count - i,
        {
            let entry_offset = 0x30010u64 + (i as u64) * 32;
            let entry = src.read_at(entry_offset, 32);
            if entry.len() != 32 {
                proof {
                    if src.plain() {
                        assert(!vhdx_region_entry_readable(pc, i as int));
                        lemma_region_scan_stops(pc, i as int, entry_count as int);
                    }
                }
                i = entry_count;
            } else {
                let ghost base = 0x30010 + (i as int) * 32;
                let e = entry.as_slice();
                proof {
                    if src.plain() {
                        assert(e@ =~= pc.subrange(base, base + 32));
                    }
                }
                let guid = &e[0..16];
                proof {
                    if src.plain() {
                        assert(guid@ =~= pc.subrange(base, base + 16));
                    }
                }
                let file_offset = (e[16] as u64) + (e[17] as u64) * 0x100 + (e[18] as u64)
                    * 0x10000 + (e[19] as u64) * 0x1000000 + (e[20] as u64) * 0x100000000 + (
                e[21] as u64) * 0x10000000000 + (e[22] as u64) * 0x1000000000000 + (e[23] as u64)
                    * 0x100000000000000;
                let length = (e[24] as u64) + (e[25] as u64) * 0x100 + (e[26] as u64) * 0x10000
                    + (e[27] as u64) * 0x1000000;
                if bytes_eq(guid, bguid.as_slice()) {
                    bat_offset = file_offset;
                    bat_length = length;
                } else if bytes_eq(guid, mguid.as_slice()) {
                    metadata_offset = file_offset;
                }
                // A guid that failed the byte comparison cannot satisfy
                // the corresponding identifier predicate.
                proof {
                    if src.plain() && is_bat_guid(guid@) && guid@ != bguid@ {
                        assert(guid@ =~= bguid@);
                    }
                    if src.plain() && !is_bat_guid(guid@) && is_metadata_guid(guid@) && guid@
                        != mguid@ {
                        assert(guid@ =~= mguid@);
                    }
                }
                i = i + 1;
            }
        }
        if bat_offset == 0 || metadata_offset == 0 {
            return None;
        }
        let (virtual_size, block_size) = match parse_metadata(src, metadata_offset) {
            Some(v) => v,
            None => {
                return None;
            },
        };
        if block_size < 512 {
            return None;
        }
        let bat_entries = bat_length / 8;
        let bat_entries = if bat_entries <= MAX_VHDX_ENTRIES {
            bat_entries
        } else {
            MAX_VHDX_ENTRIES
        };
        let mut bat: Vec<u64> = Vec::new();
        let mut k: u64 = 0;
        while k < bat_entries
            invariant
                src == &*parent,
                bat_entries <= MAX_VHDX_ENTRIES,
                k <= bat_entries,
                bat@.len() == k,
                block_size >= 512,
                src.plain() ==> {
                    &&& pc == src.content()
                    &&& pc.len() <= usize::MAX
                    &&& vhdx_header_ok(pc)
                    &&& bat_offset == vhdx_region_scan(pc, vhdx_region_count(pc)).0
                    &&& virtual_size == vhdx_meta_values(pc).0
                    &&& block_size == vhdx_meta_values(pc).1
                    &&& block_size >= 512
                    &&& bat_entries == vhdx_bat_count(pc)
                    &&& forall|j: int|
                        0 <= j < k ==> bat@[j] == le64_of(pc, bat_offset + j * 8)
                },
            decreases bat_entries - k,
        {
            let eo = match bat_offset.checked_add(k * 8) {
                Some(v) => v,
                None => {
                    proof {
                        if src.plain() {
                            assert(bat_offset + k * 8 + 8 > pc.len());
                        }
                    }
                    return Some(VhdxReader { parent, bat, block_size, virtual_size });
                },
            };
            let entry = match read_le64(src, eo) {
                Some(v) => v,
                None => {
                    proof {
                        if src.plain() {
                            assert(bat_offset + k * 8 + 8 > pc.len());
                        }
                    }
                    return Some(VhdxReader { parent, bat, block_size, virtual_size });
                },
            };
            bat.push(entry);
            k = k + 1;
        }
        Some(VhdxReader { parent, bat, block_size, virtual_size })
    }

    /// Total virtual size of the disk.
    pub fn size(&self) -> (r: u64)
        ensures
            r == self.spec_virtual_size(),
    {
        self.virtual_size
    }

    /// Read up to `len` bytes at virtual offset `offset`. The returned
    /// length never exceeds the clamp, and a block that is not fully
    /// present is answered with exactly the clamped number of zero bytes
    /// without touching the parent.
    pub fn read_at(&self, offset: u64, len: usize) -> (r: Vec<u8>)
        ensures
            r@.len() <= len,
            r@.len() <= self.clamp(offset, len),
            offset < self.spec_virtual_size() && self.sparse_at(offset) ==> r@.len()
                == self.clamp(offset, len) && (forall|j: int| 0 <= j < r@.len() ==> r@[j] == 0),
        decreases self, 2int,
    {
        proof {
            use_type_invariant(self);
        }
        if offset >= self.virtual_size {
            let r: Vec<u8> = Vec::new();
            return r;
        }
        let block_idx = offset / self.block_size;
        let in_block = offset % self.block_size;
        let remaining_in_block = self.block_size - in_block;
        let remaining_in_disk = self.virtual_size - offset;
        let clamp64 = if remaining_in_block <= remaining_in_disk {
            remaining_in_block
        } else {
            remaining_in_disk
        };
        let to_read: usize = if (len as u64) <= clamp64 {
            len
        } else {
            clamp64 as usize
        };
        if block_idx >= self.bat.len() as u64 {
            return zeroes(to_read);
        }
        let entry = self.bat[block_idx as usize];
        if entry & BAT_STATE_MASK != BAT_STATE_FULLY_PRESENT {
            return zeroes(to_read);
        }
        let file_off = entry & BAT_FILE_OFF_MASK;
        let phys = match file_off.checked_add(in_block) {
            Some(v) => v,
            None => {
                let r: Vec<u8> = Vec::new();
                return r;
            },
        };
        (&*self.parent).read_at(phys, to_read)
    }
}

/// Walk the metadata items for the virtual disk size and the block size.
pub fn parse_metadata(src: &Source, metadata_offset: u64) -> (r: Option<(u64, u64)>)
    ensures
        src.plain() ==> {
            let c = src.content();
            let m = vhdx_meta_scan(c, metadata_offset, le16_of(c, metadata_offset + 10));
            match r {
                Some(v) => metadata_offset + 12 <= c.len() && v.0 == m.0 && v.1 == m.1 && v.0
                    != 0 && v.1 != 0,
                None => metadata_offset + 12 > c.len() || m.0 == 0 || m.1 == 0,
            }
        },
{
    let ghost pc = src.content();
    proof {
        if src.plain() {
            src.lemma_content_len();
        }
    }
    let entry_count = match read_le16(src, match metadata_offset.checked_add(10) {
        Some(v) => v,
        None => {
            return None;
        },
    }) {
        Some(v) => v,
        None => {
            return None;
        },
    };
    let vguid = virtual_disk_size_guid();
    let fguid = file_parameters_guid();
    let mut virtual_size: u64 = 0;
    let mut block_size: u64 = 0;
    let mut i: u16 = 0;
    while i < entry_count
        invariant
            i <= entry_count,
            is_virtual_disk_size_guid(vguid@),
            is_file_parameters_guid(fguid@),
            src.plain() ==> {
                &&& pc == src.content()
                &&& pc.len() <= usize::MAX
                &&& entry_count == le16_of(pc, metadata_offset + 10)
                &&& (virtual_size, block_size) == vhdx_meta_scan(pc, metadata_offset, i as int)
            },
        decreases entry_count - i,
    {
        let ghost base = metadata_offset + 32 + (i as int) * 32;
        let entry_off = match metadata_offset.checked_add(32 + (i as u64) * 32) {
            Some(v) => v,
            None => {
                proof {
                    if src.plain() {
                        lemma_meta_scan_stops(pc, metadata_offset, i as int, entry_count as int);
                    }
                }
                i = entry_count;
                continue;
            },
        };
        let entry = src.read_at(entry_off, 32);
        if entry.len() != 32 {
            proof {
                if src.plain() {
                    assert(base + 32 > pc.len());
                    lemma_meta_scan_stops(pc, metadata_offset, i as int, entry_count as int);
                }
            }
            i = entry_count;
            continue;
        }
        let e = entry.as_slice();
        proof {
            if src.plain() {
                assert(e@ =~= pc.subrange(base, base + 32));
            }
        }
        let guid = &e[0..16];
        proof {
            if src.plain() {
                assert(guid@ =~= pc.subrange(base, base + 16));
            }
        }
        let item_offset = (e[16] as u64) + (e[17] as u64) * 0x100 + (e[18] as u64) * 0x10000 + (
        e[19] as u64) * 0x1000000;
        let item_length = (e[20] as u64) + (e[21] as u64) * 0x100 + (e[22] as u64) * 0x10000 + (
        e[23] as u64) * 0x1000000;
        let item_at = match metadata_offset.checked_add(item_offset) {
            Some(v) => v,
            None => {
                i = i + 1;
                continue;
            },
        };
        if item_length >= 8 {
            if bytes_eq(guid, vguid.as_slice()) {
                if let Some(v) = read_le64(src, item_at) {
                    virtual_size = v;
                }
            } else if bytes_eq(guid, fguid.as_slice()) {
                if let Some(v) = read_le32(src, item_at) {
                    block_size = v as u64;
                }
            }
        }
        proof {
            if src.plain() && is_virtual_disk_size_guid(guid@) && guid@ != vguid@ {
                assert(guid@ =~= vguid@);
            }
            if src.plain() && is_file_parameters_guid(guid@) && guid@ != fguid@ {
                assert(guid@ =~= fguid@);
            }
        }
        i = i + 1;
    }
    if virtual_size == 0 || block_size == 0 {
        return None;
    }
    Some((virtual_size, block_size))
}

/// VHDX disk image container.
pub struct VhdxContainer;

impl VhdxContainer {
    /// The translated virtual disk as a single child; `None` when the
    /// signature, regions or metadata are unusable.
    pub fn children(&self, reader: Rc<Source>) -> (r: Option<Vec<Child>>)
        ensures
            (*reader).plain() ==> match r {
                Some(cs) => {
                    let pc = (*reader).content();
                    &&& vhdx_header_ok(pc)
                    &&& cs@.len() == 1
                    &&& cs@[0].index == 0
                    &&& cs@[0].origin == (ChildOrigin::Slice { offset: 0u64 })
                    &&& match *cs@[0].reader {
                        Source::Vhdx(v) => vhdx_reader_matches(v, *reader, pc),
                        _ => false,
                    }
                },
                None => !vhdx_header_ok((*reader).content()),
            },
    {
        match VhdxReader::new(reader) {
            Some(v) => Some(single_translated_child(Source::Vhdx(v))),
            None => None,
        }
    }
}

} // verus!
