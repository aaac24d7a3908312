//! QED disk image reader.
//!
//! A two-level table addressed by division: each L1 entry names an L2
//! table in the parent, each L2 entry names a data cluster; entries of
//! zero or one mean an unallocated or explicitly zero cluster.

use vstd::prelude::*;

use crate::container::{Child, ChildOrigin};
use crate::disk::qcow2::zeroes;
use crate::disk::single_translated_child;
use crate::reader::{le32_of, le64_of, read_le32, read_le64, Source};

use std::rc::Rc;

verus! {

/// QED magic, little-endian at offset 0.
pub const QED_MAGIC: u32 = 0x0044_4551;

/// Most entries the L1 table may hold.
pub const MAX_QED_ENTRIES: u64 = 0x10_0000;

/// Whether content `c` carries a usable QED header: the magic, a cluster
/// size that is a power of two within bounds, a table size giving an
/// acceptable number of entries per table, and an L1 table that lies whole
/// inside the stream.
pub open spec fn qed_header_ok(c: Seq<u8>) -> bool {
    let cs = le32_of(c, 4);
    let l2e = le32_of(c, 8) * cs / 8;
    &&& c.len() >= 0x38
    &&& le32_of(c, 0) == QED_MAGIC
    &&& 512 <= cs <= 0x100_0000
    &&& ((cs as u64) & ((cs - 1) as u64)) == 0
    &&& 1 <= l2e <= MAX_QED_ENTRIES
    &&& le64_of(c, 0x28) + l2e * 8 <= c.len()
}

/// Whether reader `q` translates into `parent` with exactly the geometry
/// and L1 table that header content `pc` dictates.
pub open spec fn qed_reader_matches(q: QedReader, parent: Source, pc: Seq<u8>) -> bool {
    &&& q.spec_parent() == parent
    &&& q.spec_cluster_size() == le32_of(pc, 4)
    &&& q.spec_l2_entries() == le32_of(pc, 8) * le32_of(pc, 4) / 8
    &&& q.spec_virtual_size() == le64_of(pc, 0x30)
    &&& q.spec_l1().len() == q.spec_l2_entries()
    &&& forall|k: int|
        0 <= k < q.spec_l1().len() ==> q.spec_l1()[k] == le64_of(pc, le64_of(pc, 0x28) + k * 8)
}

/// Reader that translates virtual disk offsets through QED L1/L2 tables.
pub struct QedReader {
    parent: Rc<Source>,
    l1_table: Vec<u64>,
    cluster_size: u64,
    l2_entries: u64,
    virtual_size: u64,
}

impl QedReader {
    #[verifier::type_invariant]
    spec fn wf(self) -> bool {
        &&& 512 <= self.cluster_size <= 0x100_0000
        &&& 1 <= self.l2_entries <= MAX_QED_ENTRIES
        &&& self.l1_table@.len() <= MAX_QED_ENTRIES
    }

    /// The parent source the reader translates into.
    pub closed spec fn spec_parent(&self) -> Source {
        *self.parent
    }

    /// The virtual disk size in bytes.
    pub closed spec fn spec_virtual_size(&self) -> u64 {
        self.virtual_size
    }

    /// The cluster size in bytes.
    pub closed spec fn spec_cluster_size(&self) -> u64 {
        self.cluster_size
    }

    /// How many entries one L2 table holds.
    pub closed spec fn spec_l2_entries(&self) -> u64 {
        self.l2_entries
    }

    /// The loaded L1 table.
    pub closed spec fn spec_l1(&self) -> Seq<u64> {
        self.l1_table@
    }

    /// Whether the L1 table alone marks this offset unallocated.
    pub open spec fn l1_sparse(&self, offset: u64) -> bool {
        let coverage = self.spec_l2_entries() * self.spec_cluster_size();
        let l1i = offset as int / coverage as int;
        l1i >= self.spec_l1().len() || self.spec_l1()[l1i] == 0
    }

    /// The L2 entry for a virtual offset, as found in parent content `pc`;
    /// `None` when the entry cannot be read whole.
    pub open spec fn l2_entry_of(&self, pc: Seq<u8>, offset: u64) -> Option<u64> {
        let coverage = self.spec_l2_entries() * self.spec_cluster_size();
        let l1i = offset as int / coverage as int;
        let l2i = (offset as int % coverage as int) / self.spec_cluster_size() as int;
        let eo = self.spec_l1()[l1i] + l2i * 8;
        if eo + 8 <= pc.len() {
            Some(le64_of(pc, eo) as u64)
        } else {
            None
        }
    }

    /// The largest length a read at `offset` may return: never past the
    /// virtual size, and never across a cluster boundary.
    pub open spec fn clamp(&self, offset: u64, len: usize) -> int {
        if offset >= self.spec_virtual_size() {
            0
        } else {
            vstd::math::min(
                len as int,
                vstd::math::min(
                    self.spec_cluster_size() - offset as int % self.spec_cluster_size() as int,
                    self.spec_virtual_size() - offset,
                ),
            )
        }
    }

    /// Parse the header and load the L1 table. `None` when the magic,
    /// cluster size or tables are unusable.
    pub fn new(parent: Rc<Source>) -> (r: Option<Self>)
        ensures
            (*parent).plain() ==> {
                let pc = (*parent).content();
                match r {
                    Some(q) => qed_header_ok(pc) && qed_reader_matches(q, *parent, pc),
                    None => !qed_header_ok(pc),
                }
            },
    {
        let src = &*parent;
        let ghost pc = src.content();
        proof {
            if src.plain() {
                src.lemma_content_len();
            }
        }
        let magic = match read_le32(src, 0) {
            Some(v) => v,
            None => {
                return None;
            },
        };
        if magic != QED_MAGIC {
            return None;
        }
        let cluster_size = match read_le32(src, 4) {
            Some(v) => v as u64,
            None => {
                return None;
            },
        };
        let table_size = match read_le32(src, 8) {
            Some(v) => v as u64,
            None => {
                return None;
            },
        };
        let l1_table_offset = match read_le64(src, 0x28) {
            Some(v) => v,
            None => {
                return None;
            },
        };
        let virtual_size = match read_le64(src, 0x30) {
            Some(v) => v,
            None => {
                return None;
            },
        };
        if cluster_size < 512 || cluster_size > 0x100_0000 {
            return None;
        }
        if (cluster_size & (cluster_size - 1)) != 0 {
            return None;
        }
        proof {
            assert(table_size * cluster_size <= 0x1_0000_0000u64 * 0x100_0000u64)
                by (nonlinear_arith)
                requires
                    table_size <= 0x1_0000_0000u64,
                    cluster_size <= 0x100_0000u64,
            ;
        }
        let l2_entries = table_size * cluster_size / 8;
        if l2_entries < 1 || l2_entries > MAX_QED_ENTRIES {
            return None;
        }
        let mut l1_table: Vec<u64> = Vec::new();
        let mut k: u64 = 0;
        while k < l2_entries
            invariant
                src == &*parent,
                k <= l2_entries,
                l2_entries <= MAX_QED_ENTRIES,
                l1_table@.len() == k,
                src.plain() ==> {
                    &&& pc == src.content()
                    &&& pc.len() <= usize::MAX
                    &&& l2_entries == le32_of(pc, 8) * le32_of(pc, 4) / 8
                    &&& l1_table_offset == le64_of(pc, 0x28)
                    &&& k > 0 ==> l1_table_offset + k * 8 <= pc.len()
                    &&& forall|j: int|
                        0 <= j < k ==> l1_table@[j] == le64_of(pc, l1_table_offset + j * 8)
                },
            decreases l2_entries - k,
        {
            let eo = match l1_table_offset.checked_add(k * 8) {
                Some(v) => v,
                None => {
                    proof {
                        if src.plain() {
                            assert(l1_table_offset + k * 8 > u64::MAX);
                            assert((k + 1) * 8 <= l2_entries * 8);
                            assert(l1_table_offset + l2_entries * 8 > pc.len());
                            assert(!qed_header_ok(pc));
                        }
                    }
                    return None;
                },
            };
            let entry = match read_le64(src, eo) {
                Some(v) => v,
                None => {
                    proof {
                        if src.plain() {
                            assert(eo == l1_table_offset + k * 8);
                            assert(l1_table_offset + (k + 1) * 8 > pc.len());
                            assert((k + 1) * 8 <= l2_entries * 8);
                            assert(l1_table_offset + l2_entries * 8 > pc.len());
                            assert(!qed_header_ok(pc));
                        }
                    }
                    return None;
                },
            };
            l1_table.push(entry);
            k = k + 1;
        }
        Some(QedReader { parent, l1_table, cluster_size, l2_entries, virtual_size })
    }

    /// Total virtual size of the disk.
    pub fn size(&self) -> (r: u64)
        ensures
            r == self.spec_virtual_size(),
    {
        self.virtual_size
    }

    /// Read the L2 entry for a cluster from the parent; `None` when it
    /// cannot be read whole.
    fn read_l2_entry(&self, l2_offset: u64, l2_idx: u64) -> (r: Option<u64>)
        requires
            l2_idx <= MAX_QED_ENTRIES,
        ensures
            self.spec_parent().plain() ==> {
                let pc = self.spec_parent().content();
                let eo = l2_offset + l2_idx * 8;
                match r {
                    Some(v) => eo + 8 <= pc.len() && v == le64_of(pc, eo as int),
                    None => eo + 8 > pc.len(),
                }
            },
        decreases self, 1int,
    {
        let step = l2_idx * 8;
        let eo = match l2_offset.checked_add(step) {
            Some(v) => v,
            None => {
                proof {
                    if self.spec_parent().plain() {
                        self.spec_parent().lemma_content_len();
                    }
                }
                return None;
            },
        };
        read_le64(&*self.parent, eo)
    }

    /// Read up to `len` bytes at virtual offset `offset`. The returned
    /// length never exceeds the clamp, and an offset whose L1 entry is
    /// unallocated is answered with exactly the clamped number of zero
    /// bytes without touching the parent. When the parent is a plain
    /// source, a cluster whose L2 entry marks it unallocated or explicitly
    /// zero is likewise answered with exactly the clamped number of zero
    /// bytes, and an allocated cluster is answered with the parent's bytes
    /// at the entry's physical offset.
    pub fn read_at(&self, offset: u64, len: usize) -> (r: Vec<u8>)
        ensures
            r@.len() <= len,
            r@.len() <= self.clamp(offset, len),
            offset < self.spec_virtual_size() && self.l1_sparse(offset) ==> r@.len()
                == self.clamp(offset, len) && (forall|j: int| 0 <= j < r@.len() ==> r@[j] == 0),
            offset < self.spec_virtual_size() && !self.l1_sparse(offset)
                && self.spec_parent().plain() ==> {
                let pc = self.spec_parent().content();
                match self.l2_entry_of(pc, offset) {
                    Some(e) => {
                        &&& e <= 1 ==> r@.len() == self.clamp(offset, len) && (forall|j: int|
                            0 <= j < r@.len() ==> r@[j] == 0)
                        &&& e > 1 ==> {
                            let phys = e + offset as int % self.spec_cluster_size() as int;
                            if phys <= u64::MAX {
                                let lo = vstd::math::min(phys, pc.len() as int);
                                r@.len() == vstd::math::min(
                                    self.clamp(offset, len),
                                    pc.len() - lo,
                                ) && r@ == pc.subrange(lo, lo + r@.len())
                            } else {
                                r@.len() == 0
                            }
                        }
                    },
                    None => r@.len() == 0,
                }
            },
        decreases self, 2int,
    {
        proof {
            use_type_invariant(self);
        }
        if offset >= self.virtual_size {
            let r: Vec<u8> = Vec::new();
            return r;
        }
        proof {
            assert(self.l2_entries * self.cluster_size <= 0x10_0000u64 * 0x100_0000u64)
                by (nonlinear_arith)
                requires
                    self.l2_entries <= 0x10_0000u64,
                    self.cluster_size <= 0x100_0000u64,
            ;
            assert(self.l2_entries * self.cluster_size >= 512) by (nonlinear_arith)
                requires
                    self.l2_entries >= 1,
                    self.cluster_size >= 512,
            ;
        }
        let l2_coverage = self.l2_entries * self.cluster_size;
        let l1_index = offset / l2_coverage;
        let l2_index = (offset % l2_coverage) / self.cluster_size;
        let in_cluster = offset % self.cluster_size;
        let remaining_in_cluster = self.cluster_size - in_cluster;
        let remaining_in_disk = self.virtual_size - offset;
        let clamp64 = if remaining_in_cluster <= remaining_in_disk {
            remaining_in_cluster
        } else {
            remaining_in_disk
        };
        let to_read: usize = if (len as u64) <= clamp64 {
            len
        } else {
            clamp64 as usize
        };
        if l1_index >= self.l1_table.len() as u64 {
            return zeroes(to_read);
        }
        let l2_offset = self.l1_table[l1_index as usize];
        if l2_offset == 0 {
            return zeroes(to_read);
        }
        proof {
            let cov = self.l2_entries * self.cluster_size;
            assert(((offset as int % cov) / (self.cluster_size as int)) < (
            self.l2_entries as int))
                by (nonlinear_arith)
                requires
                    self.cluster_size >= 1,
                    self.l2_entries >= 1,
                    cov == self.l2_entries * self.cluster_size,
            ;
        }
        let cluster_offset = match self.read_l2_entry(l2_offset, l2_index) {
            Some(v) => v,
            None => {
                let r: Vec<u8> = Vec::new();
                return r;
            },
        };
        if cluster_offset <= 1 {
            return zeroes(to_read);
        }
        let phys = match cluster_offset.checked_add(in_cluster) {
            Some(v) => v,
            None => {
                let r: Vec<u8> = Vec::new();
                return r;
            },
        };
        (&*self.parent).read_at(phys, to_read)
    }
}

/// QED disk image container.
pub struct QedContainer;

impl QedContainer {
    /// The translated virtual disk as a single child; `None` when the
    /// header is unusable.
    pub fn children(&self, reader: Rc<Source>) -> (r: Option<Vec<Child>>)
        ensures
            (*reader).plain() ==> match r {
                Some(cs) => {
                    let pc = (*reader).content();
                    &&& qed_header_ok(pc)
                    &&& cs@.len() == 1
                    &&& cs@[0].index == 0
                    &&& cs@[0].origin == (ChildOrigin::Slice { offset: 0u64 })
                    &&& match *cs@[0].reader {
                        Source::Qed(q) => qed_reader_matches(q, *reader, pc),
                        _ => false,
                    }
                },
                None => !qed_header_ok((*reader).content()),
            },
    {
        let inner = match QedReader::new(reader) {
            Some(q) => q,
            None => {
                return None;
            },
        };
        Some(single_translated_child(Source::Qed(inner)))
    }
}

} // verus!
