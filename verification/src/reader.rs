//! Byte sources and positional reads.
//!
//! Every byte source offers stateless positional reads: `read_at` returns the
//! bytes found at an offset (possibly fewer than asked for), and `size`
//! returns the total length when it is known. Sources are either plain — an
//! in-memory buffer, or a bounded slice of a plain source — or translated
//! views whose bytes are computed from a parent source.

use vstd::prelude::*;

use std::rc::Rc;

verus! {

/// Relies on Rc::clone: the clone refers to the very same value.
#[verifier::external_body]
pub fn rc_clone(v: &Rc<Source>) -> (res: Rc<Source>)
    ensures
        res == *v,
{
    Rc::clone(v)
}

/// Reading more than this many bytes into memory at once is refused.
pub const MAX_SIZE: usize = 0x4000_0000;

/// Reader backed by in-memory bytes.
pub struct BytesReader {
    data: Vec<u8>,
}

/// Reader that exposes a bounded region of a parent source.
pub struct SliceReader {
    parent: Rc<Source>,
    offset: u64,
    length: u64,
}

/// A byte source: an in-memory buffer, a bounded slice of another source,
/// or a translated view of a parent source.
pub enum Source {
    /// Owned in-memory bytes.
    Bytes(BytesReader),
    /// A bounded region of a parent source.
    Slice(SliceReader),
    /// A QCOW2 virtual disk view over a parent source.
    Qcow2(crate::disk::qcow2::Qcow2Reader),
    /// A VDI virtual disk view over a parent source.
    Vdi(crate::disk::vdi::VdiReader),
    /// A QCOW v1 virtual disk view over a parent source.
    Qcow(crate::disk::qcow::QcowReader),
    /// A QED virtual disk view over a parent source.
    Qed(crate::disk::qed::QedReader),
    /// A VHD virtual disk view over a parent source.
    Vhd(crate::disk::vhd::VhdReader),
    /// A Bochs growing disk view over a parent source.
    Bochs(crate::disk::bochs::BochsReader),
    /// A Parallels disk view over a parent source.
    Parallels(crate::disk::parallels::ParallelsReader),
    /// A cloop compressed disk view over a parent source.
    Cloop(crate::disk::cloop::CloopReader),
    /// A UBI volume view over a parent source.
    Ubi(crate::pt::ubi::UbiVolumeReader),
    /// A VHDX virtual disk view over a parent source.
    Vhdx(crate::disk::vhdx::VhdxReader),
    /// A VMDK virtual disk view over a parent source.
    Vmdk(crate::disk::vmdk::VmdkReader),
    /// A DMG virtual disk view over a parent source.
    Dmg(crate::disk::dmg::DmgReader),
}

impl BytesReader {
    /// The bytes this reader exposes.
    pub closed spec fn content(&self) -> Seq<u8> {
        self.data@
    }

    /// Wrap owned bytes as a reader.
    pub fn new(data: Vec<u8>) -> (r: Self)
        ensures
            r.content() == data@,
            r.content().len() <= usize::MAX,
    {
        let n = data.len();
        BytesReader { data }
    }
}

impl SliceReader {
    #[verifier::type_invariant]
    spec fn wf(self) -> bool {
        self.offset + self.length <= u64::MAX
    }

    /// Where the slice starts in the parent.
    pub closed spec fn spec_offset(&self) -> u64 {
        self.offset
    }

    /// The length of the slice.
    pub closed spec fn spec_length(&self) -> u64 {
        self.length
    }

    /// The parent source.
    pub closed spec fn spec_parent(&self) -> Source {
        *self.parent
    }

    /// Expose `length` bytes of `parent` starting at `offset`. A region that
    /// would run past the largest possible offset is clamped.
    pub fn new(parent: Rc<Source>, offset: u64, length: u64) -> (r: Self)
        ensures
            r.spec_parent() == *parent,
            r.spec_offset() == offset,
            r.spec_length() == if offset + length <= u64::MAX {
                length
            } else {
                (u64::MAX - offset) as u64
            },
    {
        let clamped = if length <= u64::MAX - offset {
            length
        } else {
            u64::MAX - offset
        };
        SliceReader { parent, offset, length: clamped }
    }
}

impl Source {
    /// A plain source reads back stored bytes directly: an in-memory buffer,
    /// or a slice of a plain source.
    pub open spec fn plain(&self) -> bool
        decreases self,
    {
        match self {
            Source::Bytes(b) => b.content().len() <= usize::MAX,
            Source::Slice(s) => s.spec_parent().plain(),
            Source::Qcow2(_) => false,
            Source::Vdi(_) => false,
            Source::Qcow(_) => false,
            Source::Qed(_) => false,
            Source::Vhd(_) => false,
            Source::Bochs(_) => false,
            Source::Parallels(_) => false,
            Source::Cloop(_) => false,
            Source::Ubi(_) => false,
            Source::Vhdx(_) => false,
            Source::Vmdk(_) => false,
            Source::Dmg(_) => false,
        }
    }

    /// The byte content of a plain source.
    pub open spec fn content(&self) -> Seq<u8>
        decreases self,
    {
        match self {
            Source::Bytes(b) => b.content(),
            Source::Slice(s) => {
                let pc = s.spec_parent().content();
                let lo = vstd::math::min(s.spec_offset() as int, pc.len() as int);
                let hi = vstd::math::min(s.spec_offset() + s.spec_length(), pc.len() as int);
                pc.subrange(lo, hi)
            },
            Source::Qcow2(_) => Seq::empty(),
            Source::Vdi(_) => Seq::empty(),
            Source::Qcow(_) => Seq::empty(),
            Source::Qed(_) => Seq::empty(),
            Source::Vhd(_) => Seq::empty(),
            Source::Bochs(_) => Seq::empty(),
            Source::Parallels(_) => Seq::empty(),
            Source::Cloop(_) => Seq::empty(),
            Source::Ubi(_) => Seq::empty(),
            Source::Vhdx(_) => Seq::empty(),
            Source::Vmdk(_) => Seq::empty(),
            Source::Dmg(_) => Seq::empty(),
        }
    }

    /// The content of a plain source fits in memory bounds.
    pub proof fn lemma_content_len(&self)
        requires
            self.plain(),
        ensures
            self.content().len() <= usize::MAX,
        decreases self,
    {
        match self {
            Source::Bytes(b) => {},
            Source::Slice(s) => {
                s.spec_parent().lemma_content_len();
            },
            Source::Qcow2(_) => {},
            Source::Vdi(_) => {},
            Source::Qcow(_) => {},
            Source::Qed(_) => {},
            Source::Vhd(_) => {},
            Source::Bochs(_) => {},
            Source::Parallels(_) => {},
            Source::Cloop(_) => {},
            Source::Ubi(_) => {},
            Source::Vhdx(_) => {},
            Source::Vmdk(_) => {},
            Source::Dmg(_) => {},
        }
    }

    /// Total length of the source, when known. A plain source always knows
    /// its length.
    pub fn size(&self) -> (r: Option<u64>)
        ensures
            self.plain() ==> r == Some(self.content().len() as u64),
        decreases self,
    {
        match self {
            Source::Bytes(b) => Some(b.len() as u64),
            Source::Slice(s) => s.size(),
            Source::Qcow2(q) => Some(q.size()),
            Source::Vdi(v) => Some(v.size()),
            Source::Qcow(q) => Some(q.size()),
            Source::Qed(q) => Some(q.size()),
            Source::Vhd(v) => Some(v.size()),
            Source::Bochs(b) => Some(b.size()),
            Source::Parallels(p) => Some(p.size()),
            Source::Cloop(c) => Some(c.size()),
            Source::Ubi(u) => Some(u.size()),
            Source::Vhdx(v) => Some(v.size()),
            Source::Vmdk(v) => Some(v.size()),
            Source::Dmg(d) => Some(d.size()),
        }
    }

    /// Read up to `len` bytes at `offset`. Fewer bytes — or none — come back
    /// at the end of the source; reads past the end return no bytes rather
    /// than failing. A plain source returns exactly the bytes it stores.
    pub fn read_at(&self, offset: u64, len: usize) -> (r: Vec<u8>)
        ensures
            r@.len() <= len,
            self.plain() ==> {
                let c = self.content();
                let lo = vstd::math::min(offset as int, c.len() as int);
                r@.len() == vstd::math::min(len as int, c.len() - lo) && r@ == c.subrange(
                    lo,
                    lo + r@.len(),
                )
            },
        decreases self, 0int,
    {
        match self {
            Source::Bytes(b) => b.read_at(offset, len),
            Source::Slice(s) => s.read_at(offset, len),
            Source::Qcow2(q) => q.read_at(offset, len),
            Source::Vdi(v) => v.read_at(offset, len),
            Source::Qcow(q) => q.read_at(offset, len),
            Source::Qed(q) => q.read_at(offset, len),
            Source::Vhd(v) => v.read_at(offset, len),
            Source::Bochs(b) => b.read_at(offset, len),
            Source::Parallels(p) => p.read_at(offset, len),
            Source::Cloop(c) => c.read_at(offset, len),
            Source::Ubi(u) => u.read_at(offset, len),
            Source::Vhdx(v) => v.read_at(offset, len),
            Source::Vmdk(v) => v.read_at(offset, len),
            Source::Dmg(d) => d.read_at(offset, len),
        }
    }
}

impl BytesReader {
    /// The stored length.
    pub fn len(&self) -> (r: usize)
        ensures
            r == self.content().len(),
    {
        self.data.len()
    }

    /// Read up to `len` bytes at `offset` out of the buffer.
    pub fn read_at(&self, offset: u64, len: usize) -> (r: Vec<u8>)
        ensures
            ({
                let c = self.content();
                let lo = vstd::math::min(offset as int, c.len() as int);
                r@.len() == vstd::math::min(len as int, c.len() - lo) && r@ == c.subrange(
                    lo,
                    lo + r@.len(),
                )
            }),
    {
        let n = self.data.len();
        if offset >= n as u64 {
            let r: Vec<u8> = Vec::new();
            proof {
                assert(r@ =~= self.content().subrange(n as int, n as int));
            }
            return r;
        }
        let o = offset as usize;
        let to_read = if len <= n - o {
            len
        } else {
            n - o
        };
        let mut out: Vec<u8> = Vec::new();
        let mut k: usize = 0;
        while k < to_read
            invariant
                self.data@.len() <= usize::MAX,
                o + to_read <= self.data@.len(),
                k <= to_read,
                out@ =~= self.data@.subrange(o as int, o + k),
            decreases to_read - k,
        {
            out.push(self.data[o + k]);
            k = k + 1;
        }
        proof {
            assert(out@ =~= self.content().subrange(o as int, o + to_read));
        }
        out
    }
}

impl SliceReader {
    /// The slice's own view as a source value.
    pub open spec fn as_source(self) -> Source {
        Source::Slice(self)
    }

    /// Length of the region this slice exposes, when the parent's length is
    /// known.
    pub fn size(&self) -> (r: Option<u64>)
        ensures
            self.as_source().plain() ==> r == Some(self.as_source().content().len() as u64),
        decreases self,
    {
        proof {
            use_type_invariant(self);
        }
        match (&*self.parent).size() {
            Some(p) => {
                proof {
                    if self.as_source().plain() {
                        (*self.parent).lemma_content_len();
                    }
                }
                let lo = if self.offset <= p {
                    self.offset
                } else {
                    p
                };
                let end = self.offset + self.length;
                let hi = if end <= p {
                    end
                } else {
                    p
                };
                Some(hi - lo)
            },
            None => None,
        }
    }

    /// Read up to `len` bytes at `offset` within the slice, delegating to the
    /// parent source.
    pub fn read_at(&self, offset: u64, len: usize) -> (r: Vec<u8>)
        ensures
            r@.len() <= len,
            self.as_source().plain() ==> {
                let c = self.as_source().content();
                let lo = vstd::math::min(offset as int, c.len() as int);
                r@.len() == vstd::math::min(len as int, c.len() - lo) && r@ == c.subrange(
                    lo,
                    lo + r@.len(),
                )
            },
        decreases self, 0int,
    {
        proof {
            use_type_invariant(self);
        }
        if offset >= self.length {
            let r: Vec<u8> = Vec::new();
            return r;
        }
        let avail = self.length - offset;
        let to_read = if (len as u64) <= avail {
            len
        } else {
            avail as usize
        };
        (&*self.parent).read_at(self.offset + offset, to_read)
    }
}


/// The byte stored at `o`.
pub open spec fn byte_of(c: Seq<u8>, o: int) -> int {
    c[o] as int
}

/// Little-endian 16-bit value stored at `c[o..o+2]`.
pub open spec fn le16_of(c: Seq<u8>, o: int) -> int {
    c[o] + c[o + 1] * 0x100
}

/// Little-endian 32-bit value stored at `c[o..o+4]`.
pub open spec fn le32_of(c: Seq<u8>, o: int) -> int {
    c[o] + c[o + 1] * 0x100 + c[o + 2] * 0x10000 + c[o + 3] * 0x1000000
}

/// Little-endian 64-bit value stored at `c[o..o+8]`.
pub open spec fn le64_of(c: Seq<u8>, o: int) -> int {
    c[o] + c[o + 1] * 0x100 + c[o + 2] * 0x10000 + c[o + 3] * 0x1000000 + c[o + 4] * 0x100000000
        + c[o + 5] * 0x10000000000 + c[o + 6] * 0x1000000000000 + c[o + 7] * 0x100000000000000
}

/// Big-endian 16-bit value stored at `c[o..o+2]`.
pub open spec fn be16_of(c: Seq<u8>, o: int) -> int {
    c[o + 1] + c[o] * 0x100
}

/// Big-endian 32-bit value stored at `c[o..o+4]`.
pub open spec fn be32_of(c: Seq<u8>, o: int) -> int {
    c[o + 3] + c[o + 2] * 0x100 + c[o + 1] * 0x10000 + c[o] * 0x1000000
}

/// Big-endian 64-bit value stored at `c[o..o+8]`.
pub open spec fn be64_of(c: Seq<u8>, o: int) -> int {
    c[o + 7] + c[o + 6] * 0x100 + c[o + 5] * 0x10000 + c[o + 4] * 0x1000000 + c[o + 3]
        * 0x100000000 + c[o + 2] * 0x10000000000 + c[o + 1] * 0x1000000000000 + c[o]
        * 0x100000000000000
}

/// Read one byte; `None` at or past the end of a plain source.
pub fn read_byte(src: &Source, offset: u64) -> (r: Option<u8>)
    ensures
        src.plain() ==> match r {
            Some(v) => offset + 1 <= src.content().len() && v == byte_of(
                src.content(),
                offset as int,
            ),
            None => offset + 1 > src.content().len(),
        },
    decreases src, 1int,
{
    let b = src.read_at(offset, 1);
    if b.len() == 1 {
        Some(b[0])
    } else {
        None
    }
}

/// Read a little-endian 16-bit value; `None` when the source ends first.
pub fn read_le16(src: &Source, offset: u64) -> (r: Option<u16>)
    ensures
        src.plain() ==> match r {
            Some(v) => offset + 2 <= src.content().len() && v == le16_of(
                src.content(),
                offset as int,
            ),
            None => offset + 2 > src.content().len(),
        },
    decreases src, 1int,
{
    let b = src.read_at(offset, 2);
    if b.len() == 2 {
        Some(b[0] as u16 + b[1] as u16 * 0x100)
    } else {
        None
    }
}

/// Read a little-endian 32-bit value; `None` when the source ends first.
pub fn read_le32(src: &Source, offset: u64) -> (r: Option<u32>)
    ensures
        src.plain() ==> match r {
            Some(v) => offset + 4 <= src.content().len() && v == le32_of(
                src.content(),
                offset as int,
            ),
            None => offset + 4 > src.content().len(),
        },
    decreases src, 1int,
{
    let b = src.read_at(offset, 4);
    if b.len() == 4 {
        Some(
            b[0] as u32 + b[1] as u32 * 0x100 + b[2] as u32 * 0x10000 + b[3] as u32 * 0x1000000,
        )
    } else {
        None
    }
}

/// Read a little-endian 64-bit value; `None` when the source ends first.
pub fn read_le64(src: &Source, offset: u64) -> (r: Option<u64>)
    ensures
        src.plain() ==> match r {
            Some(v) => offset + 8 <= src.content().len() && v == le64_of(
                src.content(),
                offset as int,
            ),
            None => offset + 8 > src.content().len(),
        },
    decreases src, 1int,
{
    let b = src.read_at(offset, 8);
    if b.len() == 8 {
        Some(
            b[0] as u64 + b[1] as u64 * 0x100 + b[2] as u64 * 0x10000 + b[3] as u64 * 0x1000000
                + b[4] as u64 * 0x100000000 + b[5] as u64 * 0x10000000000 + b[6] as u64
                * 0x1000000000000 + b[7] as u64 * 0x100000000000000,
        )
    } else {
        None
    }
}

/// Read a big-endian 16-bit value; `None` when the source ends first.
pub fn read_be16(src: &Source, offset: u64) -> (r: Option<u16>)
    ensures
        src.plain() ==> match r {
            Some(v) => offset + 2 <= src.content().len() && v == be16_of(
                src.content(),
                offset as int,
            ),
            None => offset + 2 > src.content().len(),
        },
    decreases src, 1int,
{
    let b = src.read_at(offset, 2);
    if b.len() == 2 {
        Some(b[1] as u16 + b[0] as u16 * 0x100)
    } else {
        None
    }
}

/// Read a big-endian 32-bit value; `None` when the source ends first.
pub fn read_be32(src: &Source, offset: u64) -> (r: Option<u32>)
    ensures
        src.plain() ==> match r {
            Some(v) => offset + 4 <= src.content().len() && v == be32_of(
                src.content(),
                offset as int,
            ),
            None => offset + 4 > src.content().len(),
        },
    decreases src, 1int,
{
    let b = src.read_at(offset, 4);
    if b.len() == 4 {
        Some(
            b[3] as u32 + b[2] as u32 * 0x100 + b[1] as u32 * 0x10000 + b[0] as u32 * 0x1000000,
        )
    } else {
        None
    }
}

/// Read a big-endian 64-bit value; `None` when the source ends first.
pub fn read_be64(src: &Source, offset: u64) -> (r: Option<u64>)
    ensures
        src.plain() ==> match r {
            Some(v) => offset + 8 <= src.content().len() && v == be64_of(
                src.content(),
                offset as int,
            ),
            None => offset + 8 > src.content().len(),
        },
    decreases src, 1int,
{
    let b = src.read_at(offset, 8);
    if b.len() == 8 {
        Some(
            b[7] as u64 + b[6] as u64 * 0x100 + b[5] as u64 * 0x10000 + b[4] as u64 * 0x1000000
                + b[3] as u64 * 0x100000000 + b[2] as u64 * 0x10000000000 + b[1] as u64
                * 0x1000000000000 + b[0] as u64 * 0x100000000000000,
        )
    } else {
        None
    }
}

} // verus!
