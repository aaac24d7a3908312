//! Parallels disk image reader.
//!
//! A flat block allocation table maps track-sized clusters; a zero entry
//! is a sparse cluster, read as zeroes without touching the parent. The
//! extended flavor scales entries by the cluster size, the old flavor by
//! the sector size.

use vstd::prelude::*;

use crate::container::{Child, ChildOrigin};
use crate::disk::qcow2::zeroes;
use crate::disk::single_translated_child;
use crate::reader::{le32_of, le64_of, read_le32, read_le64, Source};

use std::rc::Rc;

verus! {

/// Most entries the allocation table may hold.
pub const MAX_PARALLELS_BAT: u32 = 0x10_0000;

/// Whether the extended-flavor magic `WithouFreSpacExt` starts `c`.
pub open spec fn parallels_ext_magic(c: Seq<u8>) -> bool {
    &&& c[0] == 0x57 && c[1] == 0x69 && c[2] == 0x74 && c[3] == 0x68
    &&& c[4] == 0x6f && c[5] == 0x75 && c[6] == 0x46 && c[7] == 0x72
    &&& c[8] == 0x65 && c[9] == 0x53 && c[10] == 0x70 && c[11] == 0x61
    &&& c[12] == 0x63 && c[13] == 0x45 && c[14] == 0x78 && c[15] == 0x74
}

/// Whether the old-flavor magic `WithoutFreeSpace` starts `c`.
pub open spec fn parallels_old_magic(c: Seq<u8>) -> bool {
    &&& c[0] == 0x57 && c[1] == 0x69 && c[2] == 0x74 && c[3] == 0x68
    &&& c[4] == 0x6f && c[5] == 0x75 && c[6] == 0x74 && c[7] == 0x46
    &&& c[8] == 0x72 && c[9] == 0x65 && c[10] == 0x65 && c[11] == 0x53
    &&& c[12] == 0x70 && c[13] == 0x61 && c[14] == 0x63 && c[15] == 0x65
}

/// Whether content `c` carries a usable Parallels header: one of the two
/// magics, version two, geometry within bounds, a virtual size that does
/// not overflow, and a table that lies whole inside the stream.
pub open spec fn parallels_header_ok(c: Seq<u8>) -> bool {
    &&& c.len() >= 44
    &&& (parallels_ext_magic(c) || parallels_old_magic(c))
    &&& le32_of(c, 16) == 2
    &&& 1 <= le32_of(c, 28) <= 0x40_0000
    &&& le32_of(c, 32) <= MAX_PARALLELS_BAT
    &&& le64_of(c, 36) * 512 <= u64::MAX
    &&& (le32_of(c, 32) > 0 ==> 64 + le32_of(c, 32) * 4 <= c.len())
}

/// Whether reader `p` translates into `parent` with exactly the flavor,
/// geometry and table that header content `pc` dictates.
pub open spec fn parallels_reader_matches(p: ParallelsReader, parent: Source, pc: Seq<u8>) -> bool {
    &&& p.spec_parent() == parent
    &&& p.spec_extended() == parallels_ext_magic(pc)
    &&& p.spec_cluster_size() == le32_of(pc, 28) * 512
    &&& p.spec_virtual_size() == le64_of(pc, 36) * 512
    &&& p.spec_bat().len() == le32_of(pc, 32)
    &&& forall|k: int|
        0 <= k < p.spec_bat().len() ==> p.spec_bat()[k] == le32_of(pc, 64 + k * 4)
}

/// Reader that translates virtual disk offsets through a Parallels table.
pub struct ParallelsReader {
    parent: Rc<Source>,
    bat: Vec<u32>,
    cluster_size: u64,
    virtual_size: u64,
    extended: bool,
}

impl ParallelsReader {
    #[verifier::type_invariant]
    spec fn wf(self) -> bool {
        &&& 512 <= self.cluster_size <= 0x8000_0000
        &&& self.bat@.len() <= MAX_PARALLELS_BAT
    }

    /// The parent source the reader translates into.
    pub closed spec fn spec_parent(&self) -> Source {
        *self.parent
    }

    /// Whether the image is the extended flavor, whose entries are scaled
    /// by the cluster size rather than the sector size.
    pub closed spec fn spec_extended(&self) -> bool {
        self.extended
    }

    /// The virtual disk size in bytes.
    pub closed spec fn spec_virtual_size(&self) -> u64 {
        self.virtual_size
    }

    /// The cluster size in bytes.
    pub closed spec fn spec_cluster_size(&self) -> u64 {
        self.cluster_size
    }

    /// The loaded allocation table.
    pub closed spec fn spec_bat(&self) -> Seq<u32> {
        self.bat@
    }

    /// Whether the table marks this offset sparse. Such an offset is read
    /// as zeroes without consulting the parent.
    pub open spec fn sparse_at(&self, offset: u64) -> bool {
        let ci = offset as int / self.spec_cluster_size() as int;
        ci < self.spec_bat().len() && self.spec_bat()[ci] == 0
    }

    /// The largest length a read at `offset` may return: never past the
    /// virtual size, and never across a cluster boundary.
    pub open spec fn clamp(&self, offset: u64, len: usize) -> int {
        if offset >= self.spec_virtual_size() {
            0
        } else {
            vstd::math::min(
                len as int,
                vstd::math::min(
                    self.spec_cluster_size() - offset as int % self.spec_cluster_size() as int,
                    self.spec_virtual_size() - offset,
                ),
            )
        }
    }

    /// Parse the header and load the allocation table. `None` when the
    /// magic, version, geometry or table are unusable.
    pub fn new(parent: Rc<Source>) -> (r: Option<Self>)
        ensures
            (*parent).plain() ==> {
                let pc = (*parent).content();
                match r {
                    Some(p) => parallels_header_ok(pc) && parallels_reader_matches(
                        p,
                        *parent,
                        pc,
                    ),
                    None => !parallels_header_ok(pc),
                }
            },
    {
        let src = &*parent;
        let ghost pc = src.content();
        proof {
            if src.plain() {
                src.lemma_content_len();
            }
        }
        let head = src.read_at(0, 16);
        if head.len() != 16 {
            return None;
        }
        let h = head.as_slice();
        // "WithouFreSpacExt" or "WithoutFreeSpace".
        let extended = h[0] == 0x57 && h[1] == 0x69 && h[2] == 0x74 && h[3] == 0x68 && h[4]
            == 0x6f && h[5] == 0x75 && h[6] == 0x46 && h[7] == 0x72 && h[8] == 0x65 && h[9]
            == 0x53 && h[10] == 0x70 && h[11] == 0x61 && h[12] == 0x63 && h[13] == 0x45 && h[14]
            == 0x78 && h[15] == 0x74;
        let old = h[0] == 0x57 && h[1] == 0x69 && h[2] == 0x74 && h[3] == 0x68 && h[4] == 0x6f
            && h[5] == 0x75 && h[6] == 0x74 && h[7] == 0x46 && h[8] == 0x72 && h[9] == 0x65
            && h[10] == 0x65 && h[11] == 0x53 && h[12] == 0x70 && h[13] == 0x61 && h[14] == 0x63
            && h[15] == 0x65;
        if !extended && !old {
            return None;
        }
        let version = match read_le32(src, 16) {
            Some(v) => v,
            None => {
                return None;
            },
        };
        if version != 2 {
            return None;
        }
        let tracks = match read_le32(src, 28) {
            Some(v) => v as u64,
            None => {
                return None;
            },
        };
        let bat_entries = match read_le32(src, 32) {
            Some(v) => v,
            None => {
                return None;
            },
        };
        let nb_sectors = match read_le64(src, 36) {
            Some(v) => v,
            None => {
                return None;
            },
        };
        if tracks < 1 || tracks > 0x40_0000 {
            return None;
        }
        if bat_entries > MAX_PARALLELS_BAT {
            return None;
        }
        let cluster_size = tracks * 512;
        let virtual_size = match nb_sectors.checked_mul(512) {
            Some(v) => v,
            None => {
                return None;
            },
        };
        let mut bat: Vec<u32> = Vec::new();
        let mut k: u32 = 0;
        while k < bat_entries
            invariant
                src == &*parent,
                k <= bat_entries,
                bat_entries <= MAX_PARALLELS_BAT,
                bat@.len() == k,
                src.plain() ==> {
                    &&& pc == src.content()
                    &&& bat_entries == le32_of(pc, 32)
                    &&& k > 0 ==> 64 + k * 4 <= pc.len()
                    &&& forall|j: int| 0 <= j < k ==> bat@[j] == le32_of(pc, 64 + j * 4)
                },
            decreases bat_entries - k,
        {
            let eo = 64 + (k as u64) * 4;
            let entry = match read_le32(src, eo) {
                Some(v) => v,
                None => {
                    proof {
                        if src.plain() {
                            assert(64 + (k + 1) * 4 > pc.len());
                            assert((k + 1) * 4 <= bat_entries * 4);
                            assert(64 + bat_entries * 4 > pc.len());
                            assert(!parallels_header_ok(pc));
                        }
                    }
                    return None;
                },
            };
            bat.push(entry);
            k = k + 1;
        }
        Some(ParallelsReader { parent, bat, cluster_size, virtual_size, extended })
    }

    /// Total virtual size of the disk.
    pub fn size(&self) -> (r: u64)
        ensures
            r == self.spec_virtual_size(),
    {
        self.virtual_size
    }

    /// Read up to `len` bytes at virtual offset `offset`. The returned
    /// length never exceeds the clamp; a sparse cluster is answered with
    /// exactly the clamped number of zero bytes without touching the
    /// parent, and when the parent is a plain source an allocated cluster
    /// is answered with the parent's bytes at the entry's scaled offset.
    pub fn read_at(&self, offset: u64, len: usize) -> (r: Vec<u8>)
        ensures
            r@.len() <= len,
            r@.len() <= self.clamp(offset, len),
            offset < self.spec_virtual_size() && self.sparse_at(offset) ==> r@.len()
                == self.clamp(offset, len) && (forall|j: int| 0 <= j < r@.len() ==> r@[j] == 0),
            offset < self.spec_virtual_size() && !self.sparse_at(offset)
                && self.spec_parent().plain() ==> {
                let pc = self.spec_parent().content();
                let cs = self.spec_cluster_size() as int;
                let ci = offset as int / cs;
                if ci >= self.spec_bat().len() {
                    r@.len() == 0
                } else {
                    let scale = if self.spec_extended() {
                        cs
                    } else {
                        512
                    };
                    let phys = self.spec_bat()[ci] * scale + offset as int % cs;
                    if phys <= u64::MAX {
                        let lo = vstd::math::min(phys, pc.len() as int);
                        r@.len() == vstd::math::min(self.clamp(offset, len), pc.len() - lo) && r@
                            == pc.subrange(lo, lo + r@.len())
                    } else {
                        r@.len() == 0
                    }
                }
            },
        decreases self, 2int,
    {
        proof {
            use_type_invariant(self);
            if self.spec_parent().plain() {
                self.spec_parent().lemma_content_len();
            }
        }
        if offset >= self.virtual_size {
            let r: Vec<u8> = Vec::new();
            return r;
        }
        let cluster_idx = offset / self.cluster_size;
        let in_cluster = offset % self.cluster_size;
        let remaining_in_cluster = self.cluster_size - in_cluster;
        let remaining_in_disk = self.virtual_size - offset;
        let clamp64 = if remaining_in_cluster <= remaining_in_disk {
            remaining_in_cluster
        } else {
            remaining_in_disk
        };
        let to_read: usize = if (len as u64) <= clamp64 {
            len
        } else {
            clamp64 as usize
        };
        if cluster_idx >= self.bat.len() as u64 {
            let r: Vec<u8> = Vec::new();
            return r;
        }
        let entry = self.bat[cluster_idx as usize];
        if entry == 0 {
            return zeroes(to_read);
        }
        let scale = if self.extended {
            self.cluster_size
        } else {
            512
        };
        let phys = match (entry as u64).checked_mul(scale) {
            Some(v) => match v.checked_add(in_cluster) {
                Some(w) => w,
                None => {
                    let r: Vec<u8> = Vec::new();
                    return r;
                },
            },
            None => {
                let r: Vec<u8> = Vec::new();
                return r;
            },
        };
        (&*self.parent).read_at(phys, to_read)
    }
}

/// Parallels disk image container.
pub struct ParallelsContainer;

impl ParallelsContainer {
    /// The translated virtual disk as a single child; `None` when the
    /// header is unusable.
    pub fn children(&self, reader: Rc<Source>) -> (r: Option<Vec<Child>>)
        ensures
            (*reader).plain() ==> match r {
                Some(cs) => {
                    let pc = (*reader).content();
                    &&& parallels_header_ok(pc)
                    &&& cs@.len() == 1
                    &&& cs@[0].index == 0
                    &&& cs@[0].origin == (ChildOrigin::Slice { offset: 0u64 })
                    &&& match *cs@[0].reader {
                        Source::Parallels(p) => parallels_reader_matches(p, *reader, pc),
                        _ => false,
                    }
                },
                None => !parallels_header_ok((*reader).content()),
            },
    {
        match ParallelsReader::new(reader) {
            Some(p) => Some(single_translated_child(Source::Parallels(p))),
            None => None,
        }
    }
}

} // verus!
