//! QCOW (version 1) disk image reader.
//!
//! The ancestor of QCOW2: a two-level table without flag bits in the L1
//! entries. Compressed clusters are not expanded; a read that lands on one
//! returns no bytes.

use vstd::prelude::*;

use crate::container::{Child, ChildOrigin};
use crate::disk::qcow2::{lemma_and_le, lemma_shl_bounds, lemma_shl_le_val, lemma_shl_pos, zeroes};
use crate::disk::single_translated_child;
use crate::reader::{be32_of, be64_of, byte_of, read_be32, read_be64, read_byte, Source};

use std::rc::Rc;

verus! {

/// QCOW magic, big-endian at offset 0.
pub const QCOW1_MAGIC: u32 = 0x514649fb;

/// Most entries the L1 table may hold.
pub const MAX_QCOW1_L1: u64 = 0x10_0000;

/// The virtual bytes one L1 entry covers, from the header's two exponent
/// bytes: one L2 table of clusters.
pub open spec fn qcow1_covering(c: Seq<u8>) -> u64 {
    1u64 << ((byte_of(c, 32) + byte_of(c, 33)) as u64)
}

/// How many entries the L1 table holds: the virtual size in covering
/// units, rounded up.
pub open spec fn qcow1_l1_size(c: Seq<u8>) -> u64 {
    ((be64_of(c, 24) + qcow1_covering(c) - 1) as u64) >> ((byte_of(c, 32) + byte_of(c, 33)) as u64)
}

/// Whether content `c` carries a usable QCOW version 1 header: the magic
/// and version, exponents within bounds, a virtual size whose rounding
/// does not overflow, and an L1 table of acceptable size that lies whole
/// inside the stream.
pub open spec fn qcow1_header_ok(c: Seq<u8>) -> bool {
    &&& c.len() >= 48
    &&& be32_of(c, 0) == QCOW1_MAGIC
    &&& be32_of(c, 4) == 1
    &&& 9 <= byte_of(c, 32) <= 20
    &&& 1 <= byte_of(c, 33) <= 16
    &&& be64_of(c, 24) + qcow1_covering(c) - 1 <= u64::MAX
    &&& qcow1_l1_size(c) <= MAX_QCOW1_L1
    &&& (qcow1_l1_size(c) > 0 ==> be64_of(c, 40) + qcow1_l1_size(c) * 8 <= c.len())
}

/// Whether reader `q` translates into `parent` with exactly the geometry
/// and L1 table that header content `pc` dictates.
pub open spec fn qcow1_reader_matches(q: QcowReader, parent: Source, pc: Seq<u8>) -> bool {
    &&& q.spec_parent() == parent
    &&& q.spec_cluster_bits_v() == byte_of(pc, 32)
    &&& q.spec_l2_bits() == byte_of(pc, 33)
    &&& q.spec_cluster_size() == (1u64 << (byte_of(pc, 32) as u64))
    &&& q.spec_virtual_size() == be64_of(pc, 24)
    &&& q.spec_l1().len() == qcow1_l1_size(pc)
    &&& forall|k: int|
        0 <= k < q.spec_l1().len() ==> q.spec_l1()[k] == be64_of(pc, be64_of(pc, 40) + k * 8)
}

/// Reader that translates virtual disk offsets through QCOW v1 tables.
pub struct QcowReader {
    parent: Rc<Source>,
    l1_table: Vec<u64>,
    cluster_size: u64,
    cluster_bits: u64,
    l2_bits: u64,
    l2_size: u64,
    virtual_size: u64,
}

impl QcowReader {
    #[verifier::type_invariant]
    spec fn wf(self) -> bool {
        &&& 9 <= self.cluster_bits <= 20
        &&& 1 <= self.l2_bits <= 16
        &&& self.cluster_size == 1u64 << self.cluster_bits
        &&& self.l2_size == 1u64 << self.l2_bits
        &&& self.l1_table@.len() <= MAX_QCOW1_L1
    }

    /// The parent source the reader translates into.
    pub closed spec fn spec_parent(&self) -> Source {
        *self.parent
    }

    /// The virtual disk size in bytes.
    pub closed spec fn spec_virtual_size(&self) -> u64 {
        self.virtual_size
    }

    /// The cluster size in bytes.
    pub closed spec fn spec_cluster_size(&self) -> u64 {
        self.cluster_size
    }

    /// The loaded L1 table.
    pub closed spec fn spec_l1(&self) -> Seq<u64> {
        self.l1_table@
    }

    /// The L1 index a virtual offset falls under.
    pub open spec fn l1_index(&self, offset: u64) -> u64 {
        offset >> ((self.spec_l2_bits() + self.spec_cluster_bits_v()) as u64)
    }

    /// The L2 table index width.
    pub closed spec fn spec_l2_bits(&self) -> u64 {
        self.l2_bits
    }

    /// The cluster size exponent.
    pub closed spec fn spec_cluster_bits_v(&self) -> u64 {
        self.cluster_bits
    }

    /// Whether the L1 table alone marks this offset unallocated.
    pub open spec fn l1_sparse(&self, offset: u64) -> bool {
        ||| self.l1_index(offset) >= self.spec_l1().len()
        ||| self.spec_l1()[self.l1_index(offset) as int] == 0
    }

    /// The L2 index a virtual offset falls under.
    pub open spec fn l2_index(&self, offset: u64) -> u64 {
        (offset >> self.spec_cluster_bits_v()) & (((1u64 << self.spec_l2_bits()) - 1) as u64)
    }

    /// The offset of a virtual position within its cluster.
    pub open spec fn in_cluster(&self, offset: u64) -> u64 {
        offset & (self.spec_cluster_size() - 1) as u64
    }

    /// The L2 entry for a virtual offset, as found in parent content `pc`;
    /// `None` when the entry cannot be read whole.
    pub open spec fn l2_entry_of(&self, pc: Seq<u8>, offset: u64) -> Option<u64> {
        let eo = self.spec_l1()[self.l1_index(offset) as int] + self.l2_index(offset) * 8;
        if eo + 8 <= pc.len() {
            Some(be64_of(pc, eo) as u64)
        } else {
            None
        }
    }

    /// The largest length a read at `offset` may return: never past the
    /// virtual size, and never across a cluster boundary.
    pub open spec fn clamp(&self, offset: u64, len: usize) -> int {
        if offset >= self.spec_virtual_size() {
            0
        } else {
            vstd::math::min(
                len as int,
                vstd::math::min(
                    self.spec_cluster_size() - (offset & (
                    (self.spec_cluster_size() - 1) as u64)),
                    self.spec_virtual_size() - offset,
                ),
            )
        }
    }

    /// Parse the header and load the L1 table. `None` when the magic,
    /// version, exponents or L1 table are unusable.
    pub fn new(parent: Rc<Source>) -> (r: Option<Self>)
        ensures
            (*parent).plain() ==> {
                let pc = (*parent).content();
                match r {
                    Some(q) => qcow1_header_ok(pc) && qcow1_reader_matches(q, *parent, pc),
                    None => !qcow1_header_ok(pc),
                }
            },
    {
        let src = &*parent;
        let ghost pc = src.content();
        proof {
            if src.plain() {
                src.lemma_content_len();
            }
        }
        let magic = match read_be32(src, 0) {
            Some(v) => v,
            None => {
                return None;
            },
        };
        if magic != QCOW1_MAGIC {
            return None;
        }
        let version = match read_be32(src, 4) {
            Some(v) => v,
            None => {
                return None;
            },
        };
        if version != 1 {
            return None;
        }
        let virtual_size = match read_be64(src, 24) {
            Some(v) => v,
            None => {
                return None;
            },
        };
        let cluster_bits = match read_byte(src, 32) {
            Some(v) => v as u64,
            None => {
                return None;
            },
        };
        let l2_bits = match read_byte(src, 33) {
            Some(v) => v as u64,
            None => {
                return None;
            },
        };
        let l1_table_offset = match read_be64(src, 40) {
            Some(v) => v,
            None => {
                return None;
            },
        };
        if cluster_bits < 9 || cluster_bits > 20 {
            return None;
        }
        if l2_bits < 1 || l2_bits > 16 {
            return None;
        }
        let shift = cluster_bits + l2_bits;
        proof {
            lemma_shl_pos(shift);
        }
        let covering = 1u64 << shift;
        let rounded = match virtual_size.checked_add(covering - 1) {
            Some(v) => v,
            None => {
                return None;
            },
        };
        let l1_size = rounded >> shift;
        if l1_size > MAX_QCOW1_L1 {
            return None;
        }
        let mut l1_table: Vec<u64> = Vec::new();
        let mut k: u64 = 0;
        while k < l1_size
            invariant
                src == &*parent,
                k <= l1_size,
                l1_size <= MAX_QCOW1_L1,
                l1_table@.len() == k,
                src.plain() ==> {
                    &&& pc == src.content()
                    &&& pc.len() <= usize::MAX
                    &&& l1_size == qcow1_l1_size(pc)
                    &&& l1_table_offset == be64_of(pc, 40)
                    &&& k > 0 ==> l1_table_offset + k * 8 <= pc.len()
                    &&& forall|j: int|
                        0 <= j < k ==> l1_table@[j] == be64_of(pc, l1_table_offset + j * 8)
                },
            decreases l1_size - k,
        {
            let eo = match l1_table_offset.checked_add(k * 8) {
                Some(v) => v,
                None => {
                    proof {
                        if src.plain() {
                            assert(l1_table_offset + k * 8 > u64::MAX);
                            assert((k + 1) * 8 <= l1_size * 8);
                            assert(l1_table_offset + l1_size * 8 > pc.len());
                            assert(!qcow1_header_ok(pc));
                        }
                    }
                    return None;
                },
            };
            let entry = match read_be64(src, eo) {
                Some(v) => v,
                None => {
                    proof {
                        if src.plain() {
                            assert(eo == l1_table_offset + k * 8);
                            assert(l1_table_offset + (k + 1) * 8 > pc.len());
                            assert((k + 1) * 8 <= l1_size * 8);
                            assert(l1_table_offset + l1_size * 8 > pc.len());
                            assert(!qcow1_header_ok(pc));
                        }
                    }
                    return None;
                },
            };
            l1_table.push(entry);
            k = k + 1;
        }
        let cluster_size = 1u64 << cluster_bits;
        let l2_size = 1u64 << l2_bits;
        Some(
            QcowReader {
                parent,
                l1_table,
                cluster_size,
                cluster_bits,
                l2_bits,
                l2_size,
                virtual_size,
            },
        )
    }

    /// Total virtual size of the disk.
    pub fn size(&self) -> (r: u64)
        ensures
            r == self.spec_virtual_size(),
    {
        self.virtual_size
    }

    /// Read the L2 entry for a cluster from the parent; `None` when it
    /// cannot be read whole.
    fn read_l2_entry(&self, l2_offset: u64, l2_idx: u64) -> (r: Option<u64>)
        requires
            l2_idx <= 0x40000,
        ensures
            self.spec_parent().plain() ==> {
                let pc = self.spec_parent().content();
                let eo = l2_offset + l2_idx * 8;
                match r {
                    Some(v) => eo + 8 <= pc.len() && v == be64_of(pc, eo as int),
                    None => eo + 8 > pc.len(),
                }
            },
        decreases self, 1int,
    {
        let eo = match l2_offset.checked_add(l2_idx * 8) {
            Some(v) => v,
            None => {
                proof {
                    if self.spec_parent().plain() {
                        self.spec_parent().lemma_content_len();
                    }
                }
                return None;
            },
        };
        read_be64(&*self.parent, eo)
    }

    /// Read up to `len` bytes at virtual offset `offset`. The returned
    /// length never exceeds the clamp, and an offset whose L1 entry is
    /// unallocated is answered with exactly the clamped number of zero
    /// bytes without touching the parent. When the parent is a plain
    /// source, a cluster whose L2 entry is zero is likewise answered with
    /// exactly the clamped number of zero bytes, a compressed cluster —
    /// which this format's reader does not expand — with no bytes, and a
    /// stored cluster with the parent's bytes at the entry's physical
    /// offset.
    pub fn read_at(&self, offset: u64, len: usize) -> (r: Vec<u8>)
        ensures
            r@.len() <= len,
            r@.len() <= self.clamp(offset, len),
            offset < self.spec_virtual_size() && self.l1_sparse(offset) ==> r@.len()
                == self.clamp(offset, len) && (forall|j: int| 0 <= j < r@.len() ==> r@[j] == 0),
            offset < self.spec_virtual_size() && !self.l1_sparse(offset)
                && self.spec_parent().plain() ==> {
                let pc = self.spec_parent().content();
                match self.l2_entry_of(pc, offset) {
                    Some(e) => {
                        &&& e == 0 ==> r@.len() == self.clamp(offset, len) && (forall|j: int|
                            0 <= j < r@.len() ==> r@[j] == 0)
                        &&& e != 0 && e & 0x8000_0000_0000_0000u64 != 0 ==> r@.len() == 0
                        &&& e != 0 && e & 0x8000_0000_0000_0000u64 == 0 ==> {
                            let phys = e + self.in_cluster(offset);
                            if phys <= u64::MAX {
                                let lo = vstd::math::min(phys, pc.len() as int);
                                r@.len() == vstd::math::min(
                                    self.clamp(offset, len),
                                    pc.len() - lo,
                                ) && r@ == pc.subrange(lo, lo + r@.len())
                            } else {
                                r@.len() == 0
                            }
                        }
                    },
                    None => r@.len() == 0,
                }
            },
        decreases self, 2int,
    {
        proof {
            use_type_invariant(self);
            lemma_shl_bounds(self.cluster_bits);
            lemma_shl_bounds(self.l2_bits);
            lemma_and_le(offset, (self.cluster_size - 1) as u64);
        }
        if offset >= self.virtual_size {
            let r: Vec<u8> = Vec::new();
            return r;
        }
        let in_cluster = offset & (self.cluster_size - 1);
        let remaining_in_cluster = self.cluster_size - in_cluster;
        let remaining_in_disk = self.virtual_size - offset;
        let clamp64 = if remaining_in_cluster <= remaining_in_disk {
            remaining_in_cluster
        } else {
            remaining_in_disk
        };
        let to_read: usize = if (len as u64) <= clamp64 {
            len
        } else {
            clamp64 as usize
        };
        let sh = self.l2_bits + self.cluster_bits;
        let l1_index = offset >> sh;
        if l1_index >= self.l1_table.len() as u64 {
            return zeroes(to_read);
        }
        let l2_offset = self.l1_table[l1_index as usize];
        if l2_offset == 0 {
            return zeroes(to_read);
        }
        let l2_idx = (offset >> self.cluster_bits) & (self.l2_size - 1);
        proof {
            lemma_and_le(offset >> self.cluster_bits, (self.l2_size - 1) as u64);
            lemma_shl_le_val(self.l2_bits);
        }
        let cluster_offset = match self.read_l2_entry(l2_offset, l2_idx) {
            Some(v) => v,
            None => {
                let r: Vec<u8> = Vec::new();
                return r;
            },
        };
        if cluster_offset == 0 {
            return zeroes(to_read);
        }
        if cluster_offset & 0x8000_0000_0000_0000u64 != 0 {
            let r: Vec<u8> = Vec::new();
            return r;
        }
        let phys = match cluster_offset.checked_add(in_cluster) {
            Some(v) => v,
            None => {
                let r: Vec<u8> = Vec::new();
                return r;
            },
        };
        (&*self.parent).read_at(phys, to_read)
    }
}

/// QCOW v1 disk image container.
pub struct QcowContainer;

impl QcowContainer {
    /// The translated virtual disk as a single child; `None` when the
    /// header is unusable.
    pub fn children(&self, reader: Rc<Source>) -> (r: Option<Vec<Child>>)
        ensures
            (*reader).plain() ==> match r {
                Some(cs) => {
                    let pc = (*reader).content();
                    &&& qcow1_header_ok(pc)
                    &&& cs@.len() == 1
                    &&& cs@[0].index == 0
                    &&& cs@[0].origin == (ChildOrigin::Slice { offset: 0u64 })
                    &&& match *cs@[0].reader {
                        Source::Qcow(q) => qcow1_reader_matches(q, *reader, pc),
                        _ => false,
                    }
                },
                None => !qcow1_header_ok((*reader).content()),
            },
    {
        match QcowReader::new(reader) {
            Some(q) => Some(single_translated_child(Source::Qcow(q))),
            None => None,
        }
    }
}

} // verus!
