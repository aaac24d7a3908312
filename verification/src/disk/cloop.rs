//! Compressed loopback (cloop) disk image reader.
//!
//! An offset table after the header names where each zlib-compressed
//! block starts; a block is inflated whole and the requested range sliced
//! out of it.

use vstd::prelude::*;

use crate::codecs;
use crate::container::{Child, ChildOrigin};
use crate::disk::single_translated_child;
use crate::reader::{be32_of, be64_of, read_be32, Source};

use std::rc::Rc;

verus! {

/// Largest accepted block size.
pub const MAX_CLOOP_BLOCK: u32 = 0x400_0000;

/// Most blocks the offset table may name.
pub const MAX_CLOOP_BLOCKS: u32 = 0x10_0000;

/// Whether content `c` carries a usable cloop header: a sector-aligned
/// block size within bounds, an acceptable block count, and an offset
/// table that lies whole inside the stream.
pub open spec fn cloop_header_ok(c: Seq<u8>) -> bool {
    &&& c.len() >= 136
    &&& 512 <= be32_of(c, 128) <= MAX_CLOOP_BLOCK
    &&& be32_of(c, 128) % 512 == 0
    &&& be32_of(c, 132) <= MAX_CLOOP_BLOCKS
    &&& 136 + (be32_of(c, 132) + 1) * 8 <= c.len()
}

/// Whether reader `cl` translates into `parent` with exactly the geometry
/// and offset table that header content `pc` dictates.
pub open spec fn cloop_reader_matches(cl: CloopReader, parent: Source, pc: Seq<u8>) -> bool {
    &&& cl.spec_parent() == parent
    &&& cl.spec_block_size() == be32_of(pc, 128)
    &&& cl.spec_virtual_size() == be32_of(pc, 132) * be32_of(pc, 128)
    &&& cl.spec_offsets().len() == be32_of(pc, 132) + 1
    &&& forall|k: int|
        0 <= k < cl.spec_offsets().len() ==> cl.spec_offsets()[k] == be64_of(pc, 136 + k * 8)
}

/// Reader that inflates cloop blocks on demand.
pub struct CloopReader {
    parent: Rc<Source>,
    offsets: Vec<u64>,
    block_size: u64,
    virtual_size: u64,
}

impl CloopReader {
    #[verifier::type_invariant]
    spec fn wf(self) -> bool {
        &&& 512 <= self.block_size <= MAX_CLOOP_BLOCK
        &&& self.offsets@.len() <= MAX_CLOOP_BLOCKS + 1
    }

    /// The parent source the reader translates into.
    pub closed spec fn spec_parent(&self) -> Source {
        *self.parent
    }

    /// The loaded offset table: where each compressed block starts, with
    /// one trailing entry marking the end of the last block.
    pub closed spec fn spec_offsets(&self) -> Seq<u64> {
        self.offsets@
    }

    /// The virtual disk size in bytes.
    pub closed spec fn spec_virtual_size(&self) -> u64 {
        self.virtual_size
    }

    /// The block size in bytes.
    pub closed spec fn spec_block_size(&self) -> u64 {
        self.block_size
    }

    /// The largest length a read at `offset` may return: never past the
    /// virtual size, and never across a block boundary.
    pub open spec fn clamp(&self, offset: u64, len: usize) -> int {
        if offset >= self.spec_virtual_size() {
            0
        } else {
            vstd::math::min(
                len as int,
                vstd::math::min(
                    self.spec_block_size() - offset as int % self.spec_block_size() as int,
                    self.spec_virtual_size() - offset,
                ),
            )
        }
    }

    /// Parse the header after the shell-script area and load the offset
    /// table. `None` when the geometry or table is unusable.
    pub fn new(parent: Rc<Source>) -> (r: Option<Self>)
        ensures
            (*parent).plain() ==> {
                let pc = (*parent).content();
                match r {
                    Some(c) => cloop_header_ok(pc) && cloop_reader_matches(c, *parent, pc),
                    None => !cloop_header_ok(pc),
                }
            },
    {
        let src = &*parent;
        let ghost pc = src.content();
        proof {
            if src.plain() {
                src.lemma_content_len();
            }
        }
        let block_size = match read_be32(src, 128) {
            Some(v) => v,
            None => {
                return None;
            },
        };
        let n_blocks = match read_be32(src, 132) {
            Some(v) => v,
            None => {
                return None;
            },
        };
        if block_size < 512 || block_size > MAX_CLOOP_BLOCK || block_size % 512 != 0 {
            return None;
        }
        if n_blocks > MAX_CLOOP_BLOCKS {
            return None;
        }
        let mut offsets: Vec<u64> = Vec::new();
        let mut k: u32 = 0;
        while k <= n_blocks
            invariant
                src == &*parent,
                n_blocks <= MAX_CLOOP_BLOCKS,
                k <= n_blocks + 1,
                offsets@.len() == k,
                src.plain() ==> {
                    &&& pc == src.content()
                    &&& n_blocks == be32_of(pc, 132)
                    &&& k > 0 ==> 136 + k * 8 <= pc.len()
                    &&& forall|j: int| 0 <= j < k ==> offsets@[j] == be64_of(pc, 136 + j * 8)
                },
            decreases n_blocks + 1 - k,
        {
            let eo = 136 + (k as u64) * 8;
            let entry = match crate::reader::read_be64(src, eo) {
                Some(v) => v,
                None => {
                    proof {
                        if src.plain() {
                            assert(136 + (k + 1) * 8 > pc.len());
                            assert((k + 1) * 8 <= (n_blocks + 1) * 8);
                            assert(136 + (n_blocks + 1) * 8 > pc.len());
                            assert(!cloop_header_ok(pc));
                        }
                    }
                    return None;
                },
            };
            offsets.push(entry);
            k = k + 1;
        }
        proof {
            assert((n_blocks as u64) * (block_size as u64) <= 0x10_0000u64 * 0x400_0000u64)
                by (nonlinear_arith)
                requires
                    n_blocks <= 0x10_0000u32,
                    block_size <= 0x400_0000u32,
            ;
        }
        let virtual_size = (n_blocks as u64) * (block_size as u64);
        Some(CloopReader { parent, offsets, block_size: block_size as u64, virtual_size })
    }

    /// Total virtual size of the disk.
    pub fn size(&self) -> (r: u64)
        ensures
            r == self.spec_virtual_size(),
    {
        self.virtual_size
    }

    /// Read up to `len` bytes at virtual offset `offset`, inflating the
    /// block it falls in. The returned length never exceeds the clamp, and
    /// when the parent is a plain source the bytes are exactly the
    /// requested range of the inflated block that the offset table names;
    /// an unusable table entry or stream yields no bytes.
    pub fn read_at(&self, offset: u64, len: usize) -> (r: Vec<u8>)
        ensures
            r@.len() <= len,
            r@.len() <= self.clamp(offset, len),
            offset < self.spec_virtual_size() && self.spec_parent().plain() ==> {
                let pc = self.spec_parent().content();
                let bs = self.spec_block_size() as int;
                let bi = offset as int / bs;
                let ib = offset as int % bs;
                if bi + 1 >= self.spec_offsets().len() {
                    r@.len() == 0
                } else {
                    let start = self.spec_offsets()[bi] as int;
                    let end = self.spec_offsets()[bi + 1] as int;
                    if end < start || end - start > 0x4000_0000 {
                        r@.len() == 0
                    } else {
                        let lo = vstd::math::min(start, pc.len() as int);
                        let taken = vstd::math::min(end - start, pc.len() - lo);
                        match codecs::zlib_inflate_exact(
                            pc.subrange(lo, lo + taken),
                            self.spec_block_size() as usize,
                        ) {
                            Some(d) => r@.len() == self.clamp(offset, len) && r@ == d.subrange(
                                ib,
                                ib + self.clamp(offset, len),
                            ),
                            None => r@.len() == 0,
                        }
                    }
                }
            },
        decreases self, 2int,
    {
        proof {
            use_type_invariant(self);
        }
        if offset >= self.virtual_size {
            let r: Vec<u8> = Vec::new();
            return r;
        }
        let block_idx = offset / self.block_size;
        let in_block = offset % self.block_size;
        let remaining_in_block = self.block_size - in_block;
        let remaining_in_disk = self.virtual_size - offset;
        let clamp64 = if remaining_in_block <= remaining_in_disk {
            remaining_in_block
        } else {
            remaining_in_disk
        };
        let to_read: usize = if (len as u64) <= clamp64 {
            len
        } else {
            clamp64 as usize
        };
        if block_idx + 1 >= self.offsets.len() as u64 {
            let r: Vec<u8> = Vec::new();
            return r;
        }
        let start = self.offsets[block_idx as usize];
        let end = self.offsets[(block_idx + 1) as usize];
        let compressed_size = match end.checked_sub(start) {
            Some(v) => v,
            None => {
                let r: Vec<u8> = Vec::new();
                return r;
            },
        };
        if compressed_size > 0x4000_0000 {
            let r: Vec<u8> = Vec::new();
            return r;
        }
        let compressed = (&*self.parent).read_at(start, compressed_size as usize);
        let decompressed = match codecs::zlib_inflate(
            compressed.as_slice(),
            self.block_size as usize,
        ) {
            Some(d) => d,
            None => {
                let r: Vec<u8> = Vec::new();
                return r;
            },
        };
        let mut out: Vec<u8> = Vec::new();
        let ib = in_block as usize;
        let mut j: usize = 0;
        while j < to_read
            invariant
                decompressed@.len() == self.spec_block_size(),
                self.spec_block_size() <= MAX_CLOOP_BLOCK,
                ib + to_read <= decompressed@.len(),
                j <= to_read,
                out@ =~= decompressed@.subrange(ib as int, ib + j),
            decreases to_read - j,
        {
            out.push(decompressed[ib + j]);
            j = j + 1;
        }
        proof {
            assert(out@ =~= decompressed@.subrange(ib as int, ib + to_read));
        }
        out
    }
}

/// Cloop disk image container.
pub struct CloopContainer;

impl CloopContainer {
    /// The translated virtual disk as a single child; `None` when the
    /// header is unusable.
    pub fn children(&self, reader: Rc<Source>) -> (r: Option<Vec<Child>>)
        ensures
            (*reader).plain() ==> match r {
                Some(cs) => {
                    let pc = (*reader).content();
                    &&& cloop_header_ok(pc)
                    &&& cs@.len() == 1
                    &&& cs@[0].index == 0
                    &&& cs@[0].origin == (ChildOrigin::Slice { offset: 0u64 })
                    &&& match *cs@[0].reader {
                        Source::Cloop(c) => cloop_reader_matches(c, *reader, pc),
                        _ => false,
                    }
                },
                None => !cloop_header_ok((*reader).content()),
            },
    {
        match CloopReader::new(reader) {
            Some(c) => Some(single_translated_child(Source::Cloop(c))),
            None => None,
        }
    }
}

} // verus!
