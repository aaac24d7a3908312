//! Transform containers: compressed streams.
//!
//! Each transform container decodes its whole payload into memory and
//! exposes the decoded bytes as a single child backed by a brand-new byte
//! stream; the child is never a sub-region of the parent. The compressed
//! input is read whole, bounded by `MAX_SIZE`; a decode error means the
//! container has no children, never a failure of the scan.

use vstd::prelude::*;

use crate::codecs;
use crate::container::{read_all, Child, ChildOrigin};
use crate::reader::{BytesReader, Source, MAX_SIZE};

use std::rc::Rc;

verus! {

/// Whether `cs` is the single transformed child that a transform container
/// yields, carrying exactly the bytes `d`.
pub open spec fn transformed_child(cs: Seq<Child>, d: Seq<u8>) -> bool {
    &&& cs.len() == 1
    &&& cs[0].index == 0
    &&& cs[0].origin is Transformed
    &&& (*cs[0].reader).plain()
    &&& (*cs[0].reader).content() == d
}

/// Wrap decoded bytes as the single transformed child.
fn single_child(decoded: Vec<u8>) -> (r: Vec<Child>)
    ensures
        transformed_child(r@, decoded@),
{
    let child = Child {
        index: 0,
        origin: ChildOrigin::Transformed,
        reader: Rc::new(Source::Bytes(BytesReader::new(decoded))),
    };
    let mut cs: Vec<Child> = Vec::new();
    cs.push(child);
    cs
}

/// Gzip container: decompresses the stream to expose the inner bytes.
pub struct GzipContainer;

impl GzipContainer {
    /// The decompressed payload as a single transformed child; `None` when
    /// the input is oversized or does not decode.
    pub fn children(&self, reader: Rc<Source>) -> (r: Option<Vec<Child>>)
        ensures
            reader.plain() ==> match r {
                Some(cs) => reader.content().len() <= MAX_SIZE && match codecs::gzip_decoded(
                    reader.content(),
                ) {
                    Some(d) => transformed_child(cs@, d),
                    None => false,
                },
                None => reader.content().len() > MAX_SIZE || codecs::gzip_decoded(
                    reader.content(),
                ) is None,
            },
    {
        let compressed = match read_all(&*reader) {
            Some(v) => v,
            None => {
                return None;
            },
        };
        match codecs::gzip_decode(compressed.as_slice()) {
            Some(decoded) => Some(single_child(decoded)),
            None => None,
        }
    }
}

/// Bzip2 container: decompresses the stream to expose the inner bytes.
pub struct Bzip2Container;

impl Bzip2Container {
    /// The decompressed payload as a single transformed child; `None` when
    /// the input is oversized or does not decode.
    pub fn children(&self, reader: Rc<Source>) -> (r: Option<Vec<Child>>)
        ensures
            reader.plain() ==> match r {
                Some(cs) => reader.content().len() <= MAX_SIZE && match codecs::bzip2_decoded(
                    reader.content(),
                ) {
                    Some(d) => transformed_child(cs@, d),
                    None => false,
                },
                None => reader.content().len() > MAX_SIZE || codecs::bzip2_decoded(
                    reader.content(),
                ) is None,
            },
    {
        let compressed = match read_all(&*reader) {
            Some(v) => v,
            None => {
                return None;
            },
        };
        match codecs::bzip2_decode(compressed.as_slice()) {
            Some(decoded) => Some(single_child(decoded)),
            None => None,
        }
    }
}

/// XZ container: decompresses the stream to expose the inner bytes.
pub struct XzContainer;

impl XzContainer {
    /// The decompressed payload as a single transformed child; `None` when
    /// the input is oversized or does not decode.
    pub fn children(&self, reader: Rc<Source>) -> (r: Option<Vec<Child>>)
        ensures
            reader.plain() ==> match r {
                Some(cs) => reader.content().len() <= MAX_SIZE && match codecs::xz_decoded(
                    reader.content(),
                ) {
                    Some(d) => transformed_child(cs@, d),
                    None => false,
                },
                None => reader.content().len() > MAX_SIZE || codecs::xz_decoded(
                    reader.content(),
                ) is None,
            },
    {
        let compressed = match read_all(&*reader) {
            Some(v) => v,
            None => {
                return None;
            },
        };
        match codecs::xz_decode(compressed.as_slice()) {
            Some(decoded) => Some(single_child(decoded)),
            None => None,
        }
    }
}

/// Raw-LZMA container: decompresses the stream to expose the inner bytes.
pub struct LzmaContainer;

impl LzmaContainer {
    /// The decompressed payload as a single transformed child; `None` when
    /// the input is oversized or does not decode.
    pub fn children(&self, reader: Rc<Source>) -> (r: Option<Vec<Child>>)
        ensures
            reader.plain() ==> match r {
                Some(cs) => reader.content().len() <= MAX_SIZE && match codecs::lzma_decoded(
                    reader.content(),
                ) {
                    Some(d) => transformed_child(cs@, d),
                    None => false,
                },
                None => reader.content().len() > MAX_SIZE || codecs::lzma_decoded(
                    reader.content(),
                ) is None,
            },
    {
        let compressed = match read_all(&*reader) {
            Some(v) => v,
            None => {
                return None;
            },
        };
        match codecs::lzma_decode(compressed.as_slice()) {
            Some(decoded) => Some(single_child(decoded)),
            None => None,
        }
    }
}

/// LZ4-frame container: decompresses the stream to expose the inner bytes.
pub struct Lz4Container;

impl Lz4Container {
    /// The decompressed payload as a single transformed child; `None` when
    /// the input is oversized or does not decode.
    pub fn children(&self, reader: Rc<Source>) -> (r: Option<Vec<Child>>)
        ensures
            reader.plain() ==> match r {
                Some(cs) => reader.content().len() <= MAX_SIZE && match codecs::lz4_decoded(
                    reader.content(),
                ) {
                    Some(d) => transformed_child(cs@, d),
                    None => false,
                },
                None => reader.content().len() > MAX_SIZE || codecs::lz4_decoded(
                    reader.content(),
                ) is None,
            },
    {
        let compressed = match read_all(&*reader) {
            Some(v) => v,
            None => {
                return None;
            },
        };
        match codecs::lz4_decode(compressed.as_slice()) {
            Some(decoded) => Some(single_child(decoded)),
            None => None,
        }
    }
}

/// Zstandard container: decompresses the stream to expose the inner bytes.
pub struct ZstdContainer;

impl ZstdContainer {
    /// The decompressed payload as a single transformed child; `None` when
    /// the input is oversized or does not decode.
    pub fn children(&self, reader: Rc<Source>) -> (r: Option<Vec<Child>>)
        ensures
            reader.plain() ==> match r {
                Some(cs) => reader.content().len() <= MAX_SIZE && match codecs::zstd_decoded(
                    reader.content(),
                ) {
                    Some(d) => transformed_child(cs@, d),
                    None => false,
                },
                None => reader.content().len() > MAX_SIZE || codecs::zstd_decoded(
                    reader.content(),
                ) is None,
            },
    {
        let compressed = match read_all(&*reader) {
            Some(v) => v,
            None => {
                return None;
            },
        };
        match codecs::zstd_decode(compressed.as_slice()) {
            Some(decoded) => Some(single_child(decoded)),
            None => None,
        }
    }
}

/// Whether bytes `c` carry a well-formed Unix compress (.Z) header.
pub open spec fn compress_header_ok(c: Seq<u8>) -> bool {
    c.len() >= 3 && c[0] == 0x1f && c[1] == 0x9d && 9 <= (c[2] & 0x1f) <= 16
}

/// Unix compress (.Z) container: LZW-decompresses the stream to expose the
/// inner bytes.
pub struct CompressContainer;

impl CompressContainer {
    /// The decompressed payload as a single transformed child; `None` when
    /// the input is oversized, carries no compress header, asks for a code
    /// width above 12 — the widest the LZW decoder takes — or does not
    /// decode.
    pub fn children(&self, reader: Rc<Source>) -> (r: Option<Vec<Child>>)
        ensures
            reader.plain() ==> match r {
                Some(cs) => {
                    let c = reader.content();
                    c.len() <= MAX_SIZE && compress_header_ok(c) && (c[2] & 0x1f) <= 12
                        && match codecs::lzw_decoded(c[2] & 0x1f, c.skip(3)) {
                        Some(d) => transformed_child(cs@, d),
                        None => false,
                    }
                },
                None => {
                    let c = reader.content();
                    c.len() > MAX_SIZE || !compress_header_ok(c) || (c[2] & 0x1f) > 12
                        || codecs::lzw_decoded(c[2] & 0x1f, c.skip(3)) is None
                },
            },
    {
        let compressed = match read_all(&*reader) {
            Some(v) => v,
            None => {
                return None;
            },
        };
        if compressed.len() < 3 {
            return None;
        }
        let sl = compressed.as_slice();
        if sl[0] != 0x1f || sl[1] != 0x9d {
            return None;
        }
        let max_bits: u8 = sl[2] & 0x1f;
        if max_bits < 9 || max_bits > 12 {
            return None;
        }
        let rest = &sl[3..compressed.len()];
        proof {
            if reader.plain() {
                assert(rest@ =~= reader.content().skip(3));
            }
        }
        match codecs::lzw_decode(max_bits, rest) {
            Some(decoded) => Some(single_child(decoded)),
            None => None,
        }
    }
}

} // verus!
