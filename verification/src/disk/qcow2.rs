//! QCOW2 disk image reader.
//!
//! Virtual offsets are translated through a two-level table: the L1 table,
//! loaded whole at construction and capped against hostile headers, names
//! L2 tables in the parent; each L2 entry classifies one cluster as
//! unallocated, explicitly zero, compressed, or stored at a physical
//! offset. Reads never cross a cluster boundary and unallocated clusters
//! are read as zeroes without touching the parent.

use vstd::prelude::*;

use crate::codecs;
use crate::container::Child;
use crate::disk::single_translated_child;
use crate::reader::{be32_of, be64_of, read_be32, read_be64, Source};

use std::rc::Rc;

verus! {

/// QCOW magic, big-endian at offset 0.
pub const QCOW_MAGIC: u32 = 0x514649fb;

/// Mask selecting the physical-offset bits of an L1 or L2 entry.
pub const L2E_OFFSET_MASK: u64 = 0x00ff_ffff_ffff_fe00;

/// L2 entry flag marking a compressed cluster.
pub const QCOW_OFLAG_COMPRESSED: u64 = 0x4000_0000_0000_0000;

/// L2 entry flag marking an explicit all-zero cluster.
pub const QCOW_OFLAG_ZERO: u64 = 1;

/// Most entries the L1 table may hold; a header that asks for more is
/// rejected before anything is allocated.
pub const MAX_L1_ENTRIES: u32 = 0x10_0000;

/// Reader that translates virtual disk offsets through QCOW2 L1/L2 tables.
pub struct Qcow2Reader {
    parent: Rc<Source>,
    l1_table: Vec<u64>,
    cluster_bits: u64,
    cluster_size: u64,
    l2_bits: u64,
    l2_size: u64,
    virtual_size: u64,
}

/// Whether content `c` carries a usable QCOW2 header: the magic, a version
/// of at least 2, cluster bits within bounds, an L1 table of acceptable
/// size that lies whole inside the stream.
pub open spec fn qcow2_header_ok(c: Seq<u8>) -> bool {
    &&& c.len() >= 0x30
    &&& be32_of(c, 0) == QCOW_MAGIC
    &&& be32_of(c, 4) >= 2
    &&& 9 <= be32_of(c, 0x14) <= 21
    &&& be32_of(c, 0x24) <= MAX_L1_ENTRIES
    &&& (be32_of(c, 0x24) > 0 ==> be64_of(c, 0x28) + be32_of(c, 0x24) * 8 <= c.len())
}

impl Qcow2Reader {
    #[verifier::type_invariant]
    spec fn wf(self) -> bool {
        &&& 9 <= self.cluster_bits <= 21
        &&& self.cluster_size == 1u64 << self.cluster_bits
        &&& self.l2_bits == self.cluster_bits - 3
        &&& self.l2_size == 1u64 << self.l2_bits
        &&& self.l1_table@.len() <= MAX_L1_ENTRIES
    }

    /// The parent source the reader translates into.
    pub closed spec fn spec_parent(&self) -> Source {
        *self.parent
    }

    /// The loaded L1 table.
    pub closed spec fn spec_l1(&self) -> Seq<u64> {
        self.l1_table@
    }

    /// The cluster size in bytes.
    pub closed spec fn spec_cluster_size(&self) -> u64 {
        self.cluster_size
    }

    /// The cluster size exponent.
    pub closed spec fn spec_cluster_bits(&self) -> u64 {
        self.cluster_bits
    }

    /// The L2 table index width: three less than the cluster exponent,
    /// since each L2 entry takes eight bytes.
    pub closed spec fn spec_l2_bits(&self) -> u64 {
        self.l2_bits
    }

    /// The virtual disk size in bytes.
    pub closed spec fn spec_virtual_size(&self) -> u64 {
        self.virtual_size
    }

    /// The L1 index a virtual offset falls under.
    pub open spec fn l1_index(&self, offset: u64) -> u64 {
        offset >> ((self.spec_l2_bits() + self.spec_cluster_bits()) as u64)
    }

    /// The L2 index a virtual offset falls under.
    pub open spec fn l2_index(&self, offset: u64) -> u64 {
        (offset >> self.spec_cluster_bits()) & (((1u64 << self.spec_l2_bits()) - 1) as u64)
    }

    /// The offset of a virtual position within its cluster.
    pub open spec fn in_cluster(&self, offset: u64) -> u64 {
        offset & (self.spec_cluster_size() - 1) as u64
    }

    /// Whether the L1 table alone marks this offset unallocated: the index
    /// lies beyond the table, or the entry carries no L2 table offset. Such
    /// an offset is read as zeroes without consulting the parent.
    pub open spec fn l1_sparse(&self, offset: u64) -> bool {
        ||| self.l1_index(offset) >= self.spec_l1().len()
        ||| (self.spec_l1()[self.l1_index(offset) as int] & L2E_OFFSET_MASK) == 0
    }

    /// The L2 entry for a virtual offset, as found in parent content `pc`;
    /// `None` when the entry cannot be read whole.
    pub open spec fn l2_entry_of(&self, pc: Seq<u8>, offset: u64) -> Option<u64> {
        let l2_off = self.spec_l1()[self.l1_index(offset) as int] & L2E_OFFSET_MASK;
        let eo = l2_off + self.l2_index(offset) * 8;
        if eo + 8 <= pc.len() {
            Some(be64_of(pc, eo as int) as u64)
        } else {
            None
        }
    }

    /// The largest length a read at `offset` may return: never past the
    /// virtual size, and never across a cluster boundary.
    pub open spec fn clamp(&self, offset: u64, len: usize) -> int {
        if offset >= self.spec_virtual_size() {
            0
        } else {
            vstd::math::min(
                len as int,
                vstd::math::min(
                    self.spec_cluster_size() - self.in_cluster(offset),
                    self.spec_virtual_size() - offset,
                ),
            )
        }
    }

    /// Parse the header and load the L1 table. `None` when the magic,
    /// version, cluster bits or L1 table are unusable.
    pub fn new(parent: Rc<Source>) -> (r: Option<Self>)
        ensures
            (*parent).plain() ==> {
                let pc = (*parent).content();
                match r {
                    Some(q) => {
                        &&& qcow2_header_ok(pc)
                        &&& q.spec_parent() == *parent
                        &&& q.spec_cluster_bits() == be32_of(pc, 0x14)
                        &&& q.spec_cluster_size() == (1u64 << (be32_of(pc, 0x14) as u64))
                        &&& q.spec_virtual_size() == be64_of(pc, 0x18)
                        &&& q.spec_l1().len() == be32_of(pc, 0x24)
                        &&& forall|k: int|
                            0 <= k < q.spec_l1().len() ==> q.spec_l1()[k] == be64_of(
                                pc,
                                be64_of(pc, 0x28) + k * 8,
                            )
                    },
                    None => !qcow2_header_ok(pc),
                }
            },
    {
        let src = &*parent;
        let ghost pc = src.content();
        proof {
            if src.plain() {
                src.lemma_content_len();
            }
        }
        let magic = match read_be32(src, 0) {
            Some(v) => v,
            None => {
                return None;
            },
        };
        if magic != QCOW_MAGIC {
            return None;
        }
        let version = match read_be32(src, 4) {
            Some(v) => v,
            None => {
                return None;
            },
        };
        if version < 2 {
            return None;
        }
        let cluster_bits = match read_be32(src, 0x14) {
            Some(v) => v,
            None => {
                return None;
            },
        };
        if cluster_bits < 9 || cluster_bits > 21 {
            return None;
        }
        let virtual_size = match read_be64(src, 0x18) {
            Some(v) => v,
            None => {
                return None;
            },
        };
        let l1_size = match read_be32(src, 0x24) {
            Some(v) => v,
            None => {
                return None;
            },
        };
        if l1_size > MAX_L1_ENTRIES {
            return None;
        }
        let l1_table_offset = match read_be64(src, 0x28) {
            Some(v) => v,
            None => {
                return None;
            },
        };
        let mut l1_table: Vec<u64> = Vec::new();
        let mut k: u32 = 0;
        while k < l1_size
            invariant
                src == &*parent,
                k <= l1_size,
                l1_size <= MAX_L1_ENTRIES,
                l1_table@.len() == k,
                src.plain() ==> {
                    &&& pc == src.content()
                    &&& pc.len() <= usize::MAX
                    &&& l1_size == be32_of(pc, 0x24)
                    &&& l1_table_offset == be64_of(pc, 0x28)
                    &&& k > 0 ==> l1_table_offset + k * 8 <= pc.len()
                    &&& forall|j: int|
                        0 <= j < k ==> l1_table@[j] == be64_of(pc, l1_table_offset + j * 8)
                },
            decreases l1_size - k,
        {
            let eo = match l1_table_offset.checked_add((k as u64) * 8) {
                Some(v) => v,
                None => {
                    proof {
                        if src.plain() {
                            assert(l1_table_offset + k * 8 > u64::MAX);
                            assert((k + 1) * 8 <= l1_size * 8);
                            assert(l1_table_offset + l1_size * 8 > pc.len());
                            assert(!qcow2_header_ok(pc));
                        }
                    }
                    return None;
                },
            };
            let entry = match read_be64(src, eo) {
                Some(v) => v,
                None => {
                    proof {
                        if src.plain() {
                            assert(eo == l1_table_offset + k * 8);
                            assert(l1_table_offset + (k + 1) * 8 > pc.len());
                            assert((k + 1) * 8 <= l1_size * 8);
                            assert(l1_table_offset + l1_size * 8 > pc.len());
                            assert(!qcow2_header_ok(pc));
                        }
                    }
                    return None;
                },
            };
            l1_table.push(entry);
            k = k + 1;
        }
        let cluster_bits = cluster_bits as u64;
        let cluster_size = 1u64 << cluster_bits;
        let l2_bits = cluster_bits - 3;
        let l2_size = 1u64 << l2_bits;
        Some(
            Qcow2Reader {
                parent,
                l1_table,
                cluster_bits,
                cluster_size,
                l2_bits,
                l2_size,
                virtual_size,
            },
        )
    }

    /// Total virtual size of the disk.
    pub fn size(&self) -> (r: u64)
        ensures
            r == self.spec_virtual_size(),
    {
        self.virtual_size
    }

    /// Read the L2 entry for a virtual offset from the parent; `None` when
    /// it cannot be read whole.
    fn read_l2_entry(&self, l2_offset: u64, l2_idx: u64) -> (r: Option<u64>)
        requires
            l2_offset <= L2E_OFFSET_MASK,
            l2_idx < 0x40000,
        ensures
            self.spec_parent().plain() ==> {
                let pc = self.spec_parent().content();
                let eo = l2_offset + l2_idx * 8;
                match r {
                    Some(v) => eo + 8 <= pc.len() && v == be64_of(pc, eo as int),
                    None => eo + 8 > pc.len(),
                }
            },
        decreases self, 1int,
    {
        let eo = l2_offset + l2_idx * 8;
        read_be64(&*self.parent, eo)
    }

    /// Read up to `len` bytes at virtual offset `offset`.
    ///
    /// The returned length never exceeds the clamp: it stops at the cluster
    /// boundary and at the virtual size, so no call mixes bytes of two
    /// table entries. An offset whose L1 entry is unallocated is answered
    /// with exactly the clamped number of zero bytes, without touching the
    /// parent. When the parent is a plain source, a cluster whose L2 entry
    /// is unallocated or zero-flagged is likewise answered with exactly the
    /// clamped number of zero bytes, and a stored cluster is answered with
    /// the parent's bytes at the entry's physical offset.
    pub fn read_at(&self, offset: u64, len: usize) -> (r: Vec<u8>)
        ensures
            r@.len() <= len,
            r@.len() <= self.clamp(offset, len),
            offset < self.spec_virtual_size() && self.l1_sparse(offset) ==> r@.len()
                == self.clamp(offset, len) && (forall|j: int| 0 <= j < r@.len() ==> r@[j] == 0),
            offset < self.spec_virtual_size() && !self.l1_sparse(offset)
                && self.spec_parent().plain() ==> {
                let pc = self.spec_parent().content();
                match self.l2_entry_of(pc, offset) {
                    Some(e) => {
                        &&& (e & QCOW_OFLAG_ZERO != 0 || (e & QCOW_OFLAG_COMPRESSED == 0 && e
                            & L2E_OFFSET_MASK == 0)) ==> r@.len() == self.clamp(offset, len) && (
                        forall|j: int| 0 <= j < r@.len() ==> r@[j] == 0)
                        &&& (e & QCOW_OFLAG_ZERO == 0 && e & QCOW_OFLAG_COMPRESSED == 0 && e
                            & L2E_OFFSET_MASK != 0) ==> {
                            let phys = (e & L2E_OFFSET_MASK) + self.in_cluster(offset);
                            let lo = vstd::math::min(phys, pc.len() as int);
                            r@.len() == vstd::math::min(self.clamp(offset, len), pc.len() - lo)
                                && r@ == pc.subrange(lo, lo + r@.len())
                        }
                    },
                    None => r@.len() == 0,
                }
            },
        decreases self, 2int,
    {
        proof {
            use_type_invariant(self);
            lemma_shl_bounds(self.cluster_bits);
            lemma_shl_bounds(self.l2_bits);
            lemma_shl_le_val(self.l2_bits);
            lemma_and_le(offset, (self.cluster_size - 1) as u64);
        }
        if offset >= self.virtual_size {
            let r: Vec<u8> = Vec::new();
            return r;
        }
        let in_cluster = offset & (self.cluster_size - 1);
        let remaining_in_cluster = self.cluster_size - in_cluster;
        let remaining_in_disk = self.virtual_size - offset;
        let clamp64 = if remaining_in_cluster <= remaining_in_disk {
            remaining_in_cluster
        } else {
            remaining_in_disk
        };
        let to_read: usize = if (len as u64) <= clamp64 {
            len
        } else {
            clamp64 as usize
        };
        let sh = self.l2_bits + self.cluster_bits;
        let l1_index = offset >> sh;
        if l1_index >= self.l1_table.len() as u64 {
            return zeroes(to_read);
        }
        let l1_entry = self.l1_table[l1_index as usize];
        let l2_offset = l1_entry & L2E_OFFSET_MASK;
        proof {
            lemma_and_le(l1_entry, L2E_OFFSET_MASK);
        }
        if l2_offset == 0 {
            return zeroes(to_read);
        }
        let l2_idx = (offset >> self.cluster_bits) & (self.l2_size - 1);
        proof {
            lemma_and_le(offset >> self.cluster_bits, (self.l2_size - 1) as u64);
        }
        let l2_entry = match self.read_l2_entry(l2_offset, l2_idx) {
            Some(v) => v,
            None => {
                let r: Vec<u8> = Vec::new();
                return r;
            },
        };
        if l2_entry & QCOW_OFLAG_ZERO != 0 {
            return zeroes(to_read);
        }
        let cluster_offset = l2_entry & L2E_OFFSET_MASK;
        if cluster_offset == 0 {
            if l2_entry & QCOW_OFLAG_COMPRESSED != 0 {
                let r: Vec<u8> = Vec::new();
                return r;
            }
            return zeroes(to_read);
        }
        if l2_entry & QCOW_OFLAG_COMPRESSED != 0 {
            return self.read_compressed(l2_entry, in_cluster, to_read);
        }
        proof {
            lemma_and_le(l2_entry, L2E_OFFSET_MASK);
        }
        let physical_offset = cluster_offset + in_cluster;
        (&*self.parent).read_at(physical_offset, to_read)
    }

    /// Read part of a compressed cluster: locate the compressed run through
    /// the entry's auxiliary encoding, inflate one cluster, and slice the
    /// requested range out of it.
    fn read_compressed(&self, l2_entry: u64, in_cluster: u64, to_read: usize) -> (r: Vec<u8>)
        requires
            self.wf(),
            in_cluster < self.spec_cluster_size(),
            in_cluster + to_read <= self.spec_cluster_size(),
        ensures
            r@.len() <= to_read,
            self.spec_parent().plain() ==> {
                let pc = self.spec_parent().content();
                let csize_shift = (63 - self.spec_cluster_bits()) as u64;
                let coffset = l2_entry & ((1u64 << csize_shift) - 1) as u64;
                let nb = ((l2_entry >> csize_shift) & ((1u64 << self.spec_cluster_bits() as u64)
                    - 1) as u64) + 1;
                let lo = vstd::math::min(coffset as int, pc.len() as int);
                let taken = vstd::math::min(nb * 512, pc.len() - lo);
                match codecs::inflate_raw_exact(
                    pc.subrange(lo, lo + taken),
                    self.spec_cluster_size() as usize,
                ) {
                    Some(d) => r@.len() == to_read && r@ == d.subrange(
                        in_cluster as int,
                        in_cluster + to_read,
                    ),
                    None => r@.len() == 0,
                }
            },
        decreases self, 1int,
    {
        let csize_shift = 63 - self.cluster_bits;
        proof {
            lemma_shl_bounds(self.cluster_bits);
            lemma_shl_pos(csize_shift);
        }
        let coffset_mask = (1u64 << csize_shift) - 1;
        let csize_mask = (1u64 << self.cluster_bits) - 1;
        let coffset = l2_entry & coffset_mask;
        proof {
            lemma_and_le(l2_entry >> csize_shift, csize_mask);
        }
        let nb_sectors = ((l2_entry >> csize_shift) & csize_mask) + 1;
        let compressed_size = (nb_sectors * 512) as usize;
        let compressed = (&*self.parent).read_at(coffset, compressed_size);
        let decompressed = match codecs::inflate_raw(
            compressed.as_slice(),
            self.cluster_size as usize,
        ) {
            Some(d) => d,
            None => {
                let r: Vec<u8> = Vec::new();
                return r;
            },
        };
        let mut out: Vec<u8> = Vec::new();
        let mut j: usize = 0;
        let start = in_cluster as usize;
        while j < to_read
            invariant
                decompressed@.len() == self.spec_cluster_size(),
                self.spec_cluster_size() <= 0x20_0000,
                start + to_read <= decompressed@.len(),
                j <= to_read,
                out@ =~= decompressed@.subrange(start as int, start + j),
            decreases to_read - j,
        {
            out.push(decompressed[start + j]);
            j = j + 1;
        }
        proof {
            assert(out@ =~= decompressed@.subrange(start as int, start + to_read));
        }
        out
    }
}

/// A conjunction of bit facts: masking with `m` never exceeds `m`.
pub(crate) proof fn lemma_and_le(x: u64, m: u64)
    ensures
        (x & m) <= m,
{
    assert((x & m) <= m) by (bit_vector);
}

/// One shifted bit stays within the bounds the exponent dictates.
pub(crate) proof fn lemma_shl_bounds(b: u64)
    requires
        b <= 21,
    ensures
        1 <= (1u64 << b) <= 0x20_0000,
{
    assert(b <= 21 ==> 1 <= (1u64 << b) <= 0x20_0000) by (bit_vector);
}

/// An L2 exponent never exceeds 18, so the L2 table never holds more than
/// 0x40000 entries.
pub(crate) proof fn lemma_shl_le_val(b: u64)
    requires
        b <= 18,
    ensures
        (1u64 << b) <= 0x4_0000,
{
    assert(b <= 18 ==> (1u64 << b) <= 0x4_0000) by (bit_vector);
}

/// One shifted bit is never zero for exponents below the width.
pub(crate) proof fn lemma_shl_pos(b: u64)
    requires
        b <= 63,
    ensures
        (1u64 << b) >= 1,
{
    assert(b <= 63 ==> (1u64 << b) >= 1) by (bit_vector);
}

/// A vector of `n` zero bytes.
pub(crate) fn zeroes(n: usize) -> (r: Vec<u8>)
    ensures
        r@.len() == n,
        forall|j: int| 0 <= j < n ==> r@[j] == 0,
{
    let mut out: Vec<u8> = Vec::new();
    let mut i: usize = 0;
    while i < n
        invariant
            i <= n,
            out@.len() == i,
            forall|j: int| 0 <= j < i ==> out@[j] == 0,
        decreases n - i,
    {
        out.push(0);
        i = i + 1;
    }
    out
}

/// QCOW2 disk image container.
pub struct Qcow2Container;

impl Qcow2Container {
    /// The translated virtual disk as a single child; `None` when the
    /// header is unusable.
    pub fn children(&self, reader: Rc<Source>) -> (r: Option<Vec<Child>>)
        ensures
            (*reader).plain() ==> (r is Some <==> qcow2_header_ok((*reader).content())),
    {
        match Qcow2Reader::new(reader) {
            Some(q) => Some(single_translated_child(Source::Qcow2(q))),
            None => None,
        }
    }
}

} // verus!
