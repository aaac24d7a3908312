//! Apple DMG disk image reader.
//!
//! The koly trailer names an XML property list whose blkx entries carry
//! base64-encoded MISH blocks; each block lists chunks that are zero-
//! filled, raw, or compressed with zlib, bzip2 or LZFSE. A read inflates
//! the chunk it falls in and slices the requested range out of it.

use vstd::prelude::*;

use crate::codecs;
use crate::container::{Child, ChildOrigin};
use crate::disk::qcow2::zeroes;
use crate::disk::single_translated_child;
use crate::reader::{be64_of, read_be64, Source};

use std::rc::Rc;

verus! {

/// Chunk holding literal zeroes.
pub const UDZE: u32 = 0x0000_0000;

/// Chunk holding raw bytes.
pub const UDRW: u32 = 0x0000_0001;

/// Chunk to be ignored.
pub const UDIG: u32 = 0x0000_0002;

/// zlib-compressed chunk.
pub const UDZO: u32 = 0x8000_0005;

/// bzip2-compressed chunk.
pub const UDBZ: u32 = 0x8000_0006;

/// LZFSE-compressed chunk.
pub const ULFO: u32 = 0x8000_0007;

/// Comment entry.
pub const DMG_COMMENT: u32 = 0x7fff_fffe;

/// Terminator entry.
pub const DMG_LAST_ENTRY: u32 = 0xffff_ffff;

/// Most chunks kept across all MISH blocks.
pub const MAX_DMG_CHUNKS: u32 = 0x1_0000;

/// One mapped run of sectors.
pub struct DmgChunk {
    /// How the run's bytes are stored.
    pub chunk_type: u32,
    /// First virtual sector of the run.
    pub sector_start: u64,
    /// Length of the run in sectors.
    pub sector_count: u64,
    /// Where the stored bytes sit in the image.
    pub compressed_offset: u64,
    /// How many stored bytes the run has.
    pub compressed_length: u64,
}

/// Find `pat` in `data` at or after `from`; the match begins at the
/// returned index.
fn find_bytes(data: &[u8], from: usize, pat: &[u8]) -> (r: Option<usize>)
    ensures
        r matches Some(i) ==> from <= i && i + pat@.len() <= data@.len() && data@.len()
            <= usize::MAX,
{
    if pat.len() == 0 || data.len() < pat.len() {
        return None;
    }
    let last = data.len() - pat.len();
    if from > last {
        return None;
    }
    let mut i = from;
    while i <= last
        invariant
            from <= i,
            pat@.len() >= 1,
            last + pat@.len() == data@.len(),
            data@.len() <= usize::MAX,
            last <= usize::MAX - 1,
            i <= last + 1,
        decreases last + 1 - i,
    {
        let mut j: usize = 0;
        let mut ok = true;
        while j < pat.len()
            invariant
                i + pat@.len() <= data@.len(),
                data@.len() <= usize::MAX,
                j <= pat@.len(),
            decreases pat@.len() - j,
        {
            if data[i + j] != pat[j] {
                ok = false;
                break;
            }
            j = j + 1;
        }
        if ok {
            return Some(i);
        }
        i = i + 1;
    }
    None
}

/// The value a base64 alphabet byte encodes, if any.
fn b64val(b: u8) -> (r: Option<u8>)
    ensures
        r matches Some(v) ==> v < 64,
{
    if 0x41 <= b && b <= 0x5a {
        Some(b - 0x41)  // A-Z
    } else if 0x61 <= b && b <= 0x7a {
        Some(b - 0x61 + 26)  // a-z
    } else if 0x30 <= b && b <= 0x39 {
        Some(b - 0x30 + 52)  // 0-9
    } else if b == 0x2b {
        Some(62)  // +
    } else if b == 0x2f {
        Some(63)  // /
    } else {
        None
    }
}

/// Decode base64 text, ignoring whitespace and padding; `None` on any
/// other byte outside the alphabet.
pub fn decode_base64(input: &[u8]) -> (r: Option<Vec<u8>>) {
    let mut output: Vec<u8> = Vec::new();
    let mut accum: u32 = 0;
    let mut bits: u32 = 0;
    proof {
        assert(0u32 < (1u32 << 0u32)) by (bit_vector);
    }
    let mut i: usize = 0;
    while i < input.len()
        invariant
            i <= input@.len(),
            bits <= 7,
            accum < (1u32 << bits),
        decreases input@.len() - i,
    {
        let byte = input[i];
        i = i + 1;
        if byte == 0x3d {
            // '=' padding
            continue;
        }
        if byte == 0x20 || byte == 0x09 || byte == 0x0a || byte == 0x0d || byte == 0x0c {
            continue;
        }
        let val = match b64val(byte) {
            Some(v) => v,
            None => {
                return None;
            },
        };
        proof {
            let a0 = accum;
            let b0 = bits;
            let v0 = val;
            assert(b0 <= 7 && a0 < (1u32 << b0) && v0 < 64 ==> ((a0 << 6u32) | (v0 as u32)) < (
            1u32 << ((b0 + 6) as u32))) by (bit_vector);
        }
        accum = (accum << 6) | (val as u32);
        bits = bits + 6;
        if bits >= 8 {
            bits = bits - 8;
            output.push(#[verifier::truncate] ((accum >> bits) as u8));
            proof {
                let a1 = accum;
                let b1 = bits;
                assert(b1 <= 31 ==> (1u32 << b1) >= 1) by (bit_vector);
                assert(b1 <= 7 ==> (a1 & (((1u32 << b1) - 1) as u32)) < (1u32 << b1))
                    by (bit_vector);
            }
            accum = accum & ((1u32 << bits) - 1);
        }
    }
    Some(output)
}

/// Parse one MISH block's chunk entries, offsetting sectors by the
/// block's base and stored bytes by the data fork.
pub fn parse_mish_block(data: &[u8], data_fork_offset: u64, chunks: &mut Vec<DmgChunk>) -> (r:
    Option<()>)
    requires
        old(chunks)@.len() <= MAX_DMG_CHUNKS,
    ensures
        final(chunks)@.len() <= MAX_DMG_CHUNKS,
{
    if data.len() < 204 {
        return None;
    }
    let magic = (data[0] as u32) * 0x1000000 + (data[1] as u32) * 0x10000 + (data[2] as u32)
        * 0x100 + (data[3] as u32);
    if magic != 0x6d697368 {
        return None;
    }
    let block_sector_start = be64_slice(data, 8);
    let last = data.len() - 40;
    let mut offset: usize = 204;
    while offset <= last
        invariant
            data@.len() >= 204,
            last + 40 == data@.len(),
            offset >= 204,
            chunks@.len() <= MAX_DMG_CHUNKS,
        decreases data@.len() - offset,
    {
        let chunk_type = (data[offset] as u32) * 0x1000000 + (data[offset + 1] as u32) * 0x10000
            + (data[offset + 2] as u32) * 0x100 + (data[offset + 3] as u32);
        if chunk_type == DMG_COMMENT || chunk_type == UDIG {
            offset = offset + 40;
            continue;
        }
        if chunk_type == DMG_LAST_ENTRY {
            break;
        }
        let sector_number = be64_slice(data, offset + 8);
        let sector_count = be64_slice(data, offset + 16);
        let compressed_offset = be64_slice(data, offset + 24);
        let compressed_length = be64_slice(data, offset + 32);
        if sector_count > 0 && chunks.len() < MAX_DMG_CHUNKS as usize {
            let sector_start = match block_sector_start.checked_add(sector_number) {
                Some(v) => v,
                None => {
                    offset = offset + 40;
                    continue;
                },
            };
            let abs_offset = match data_fork_offset.checked_add(compressed_offset) {
                Some(v) => v,
                None => {
                    offset = offset + 40;
                    continue;
                },
            };
            chunks.push(
                DmgChunk {
                    chunk_type,
                    sector_start,
                    sector_count,
                    compressed_offset: abs_offset,
                    compressed_length,
                },
            );
        }
        offset = offset + 40;
    }
    Some(())
}

/// Big-endian 64-bit value out of an in-memory buffer.
fn be64_slice(data: &[u8], offset: usize) -> (r: u64)
    requires
        offset + 8 <= data@.len(),
{
    (data[offset] as u64) * 0x100000000000000 + (data[offset + 1] as u64) * 0x1000000000000 + (
    data[offset + 2] as u64) * 0x10000000000 + (data[offset + 3] as u64) * 0x100000000 + (data[offset
        + 4] as u64) * 0x1000000 + (data[offset + 5] as u64) * 0x10000 + (data[offset + 6] as u64)
        * 0x100 + (data[offset + 7] as u64)
}

/// Reader that inflates DMG chunks on demand.
pub struct DmgReader {
    parent: Rc<Source>,
    chunks: Vec<DmgChunk>,
    virtual_size: u64,
}

/// Whether the `koly` trailer magic stands in the last full sector of `c`.
pub open spec fn dmg_koly_at_end(c: Seq<u8>) -> bool {
    &&& c.len() >= 512
    &&& c[c.len() - 512] == 0x6b
    &&& c[c.len() - 511] == 0x6f
    &&& c[c.len() - 510] == 0x6c
    &&& c[c.len() - 509] == 0x79
}

impl DmgReader {
    /// The parent source the reader translates into.
    pub closed spec fn spec_parent(&self) -> Source {
        *self.parent
    }

    /// The collected chunk table.
    pub closed spec fn spec_chunks(&self) -> Seq<DmgChunk> {
        self.chunks@
    }

    /// The virtual disk size in bytes.
    pub closed spec fn spec_virtual_size(&self) -> u64 {
        self.virtual_size
    }

    /// Whether no chunk of the table covers `sector`. Such a sector is
    /// read as zeroes without consulting the parent.
    pub open spec fn unmapped_sector(&self, sector: int) -> bool {
        forall|i: int|
            0 <= i < self.spec_chunks().len() ==> {
                let c = #[trigger] self.spec_chunks()[i];
                !(c.sector_start <= sector < c.sector_start + c.sector_count)
            }
    }

    /// Locate the koly trailer, read the property list, and collect every
    /// chunk of every blkx entry. `None` when no usable table is found; a
    /// reader is only built over a stream whose last sector carries the
    /// trailer magic.
    pub fn new(parent: Rc<Source>) -> (r: Option<Self>)
        ensures
            (*parent).plain() ==> match r {
                Some(d) => dmg_koly_at_end((*parent).content()) && d.spec_parent() == *parent,
                None => true,
            },
    {
        let src = &*parent;
        let size = match src.size() {
            Some(v) => v,
            None => {
                return None;
            },
        };
        if size < 512 {
            return None;
        }
        let koly_offset = size - 512;
        let trailer = src.read_at(koly_offset, 512);
        if trailer.len() != 512 {
            return None;
        }
        let t = trailer.as_slice();
        proof {
            if src.plain() {
                assert(t@ =~= src.content().subrange(
                    koly_offset as int,
                    koly_offset + 512,
                ));
            }
        }
        // "koly"
        if !(t[0] == 0x6b && t[1] == 0x6f && t[2] == 0x6c && t[3] == 0x79) {
            return None;
        }
        let data_fork_offset = be64_slice(t, 0x18);
        let xml_offset = be64_slice(t, 0xd8);
        let xml_length = be64_slice(t, 0xe0);
        if xml_length == 0 || xml_length > 0x640_0000 {
            return None;
        }
        let xml = src.read_at(xml_offset, xml_length as usize);
        if xml.len() as u64 != xml_length {
            return None;
        }
        let chunks = match parse_plist_blkx(xml.as_slice(), data_fork_offset) {
            Some(c) => c,
            None => {
                return None;
            },
        };
        let mut virtual_size: u64 = 0;
        let mut i: usize = 0;
        while i < chunks.len()
            invariant
                i <= chunks@.len(),
            decreases chunks@.len() - i,
        {
            let end_sector = match chunks[i].sector_start.checked_add(chunks[i].sector_count) {
                Some(v) => v,
                None => {
                    i = i + 1;
                    continue;
                },
            };
            let end = match end_sector.checked_mul(512) {
                Some(v) => v,
                None => {
                    i = i + 1;
                    continue;
                },
            };
            if end > virtual_size {
                virtual_size = end;
            }
            i = i + 1;
        }
        Some(DmgReader { parent, chunks, virtual_size })
    }

    /// Total virtual size of the disk.
    pub fn size(&self) -> (r: u64)
        ensures
            r == self.spec_virtual_size(),
    {
        self.virtual_size
    }

    /// The chunk containing `sector`, if any is mapped there; `None`
    /// exactly when no chunk covers it.
    fn find_chunk(&self, sector: u64) -> (r: Option<usize>)
        ensures
            r matches Some(i) ==> i < self.chunks@.len() && self.chunks@[i as int].sector_start
                <= sector && sector - self.chunks@[i as int].sector_start < self.chunks@[
            i as int].sector_count,
            r is None ==> self.unmapped_sector(sector as int),
    {
        let mut i: usize = 0;
        while i < self.chunks.len()
            invariant
                i <= self.chunks@.len(),
                forall|j: int|
                    0 <= j < i ==> {
                        let c = #[trigger] self.spec_chunks()[j];
                        !(c.sector_start <= sector < c.sector_start + c.sector_count)
                    },
            decreases self.chunks@.len() - i,
        {
            let c = &self.chunks[i];
            if sector >= c.sector_start {
                let rel = sector - c.sector_start;
                if rel < c.sector_count {
                    return Some(i);
                }
            }
            i = i + 1;
        }
        None
    }

    /// Materialize one chunk's bytes: zeroes, raw bytes padded with
    /// zeroes, or the chunk inflated with its named codec.
    fn decompress_chunk(&self, idx: usize, out_len: usize) -> (r: Option<Vec<u8>>)
        requires
            idx < self.chunks@.len(),
        ensures
            r matches Some(v) ==> v@.len() == out_len,
        decreases self, 1int,
    {
        let c = &self.chunks[idx];
        if c.chunk_type == UDZE {
            return Some(zeroes(out_len));
        }
        if c.chunk_type == UDRW {
            let mut data = (&*self.parent).read_at(c.compressed_offset, out_len);
            while data.len() < out_len
                invariant
                    data@.len() <= out_len,
                decreases out_len - data@.len(),
            {
                data.push(0);
            }
            if data.len() == out_len {
                return Some(data);
            }
            return None;
        }
        if c.compressed_length > 0x4000_0000 {
            return None;
        }
        let compressed = (&*self.parent).read_at(c.compressed_offset, c.compressed_length as usize);
        if c.chunk_type == UDZO {
            return codecs::zlib_inflate(compressed.as_slice(), out_len);
        }
        if c.chunk_type == UDBZ {
            let full = match codecs::bzip2_decode(compressed.as_slice()) {
                Some(v) => v,
                None => {
                    return None;
                },
            };
            if full.len() < out_len {
                return None;
            }
            let mut out: Vec<u8> = Vec::new();
            let mut j: usize = 0;
            while j < out_len
                invariant
                    out_len <= full@.len(),
                    j <= out_len,
                    out@.len() == j,
                decreases out_len - j,
            {
                out.push(full[j]);
                j = j + 1;
            }
            return Some(out);
        }
        if c.chunk_type == ULFO {
            return codecs::lzfse_decode(compressed.as_slice(), out_len);
        }
        Some(zeroes(out_len))
    }

    /// Read up to `len` bytes at virtual offset `offset`. The returned
    /// length never exceeds what was asked, and a sector no chunk maps is
    /// answered with exactly the number of zero bytes left in it and in
    /// the disk, without touching the parent.
    pub fn read_at(&self, offset: u64, len: usize) -> (r: Vec<u8>)
        ensures
            r@.len() <= len,
            offset < self.spec_virtual_size() && self.unmapped_sector(offset as int / 512)
                ==> r@.len() == vstd::math::min(
                len as int,
                vstd::math::min(
                    512 - offset as int % 512,
                    self.spec_virtual_size() - offset,
                ),
            ) && (forall|j: int| 0 <= j < r@.len() ==> r@[j] == 0),
        decreases self, 2int,
    {
        if offset >= self.virtual_size {
            let r: Vec<u8> = Vec::new();
            return r;
        }
        let sector = offset / 512;
        let in_sector = offset % 512;
        let remaining_in_disk = self.virtual_size - offset;
        let idx = match self.find_chunk(sector) {
            Some(i) => i,
            None => {
                let gap = 512 - in_sector;
                let clamp64 = if gap <= remaining_in_disk {
                    gap
                } else {
                    remaining_in_disk
                };
                let to_read: usize = if (len as u64) <= clamp64 {
                    len
                } else {
                    clamp64 as usize
                };
                return zeroes(to_read);
            },
        };
        let c = &self.chunks[idx];
        proof {
            let cw = self.spec_chunks()[idx as int];
            assert(cw.sector_start <= sector as int && (sector as int) < cw.sector_start
                + cw.sector_count);
            assert(!self.unmapped_sector(sector as int));
        }
        let chunk_sector_offset = sector - c.sector_start;
        let chunk_byte_offset = match chunk_sector_offset.checked_mul(512) {
            Some(v) => match v.checked_add(in_sector) {
                Some(w) => w,
                None => {
                    let r: Vec<u8> = Vec::new();
                    return r;
                },
            },
            None => {
                let r: Vec<u8> = Vec::new();
                return r;
            },
        };
        let chunk_size = match c.sector_count.checked_mul(512) {
            Some(v) => v,
            None => {
                let r: Vec<u8> = Vec::new();
                return r;
            },
        };
        if chunk_size > 0x4000_0000 || chunk_byte_offset >= chunk_size {
            let r: Vec<u8> = Vec::new();
            return r;
        }
        let remaining_in_chunk = chunk_size - chunk_byte_offset;
        let clamp64 = if remaining_in_chunk <= remaining_in_disk {
            remaining_in_chunk
        } else {
            remaining_in_disk
        };
        let to_read: usize = if (len as u64) <= clamp64 {
            len
        } else {
            clamp64 as usize
        };
        let decompressed = match self.decompress_chunk(idx, chunk_size as usize) {
            Some(v) => v,
            None => {
                let r: Vec<u8> = Vec::new();
                return r;
            },
        };
        let mut out: Vec<u8> = Vec::new();
        let base = chunk_byte_offset as usize;
        let mut j: usize = 0;
        while j < to_read
            invariant
                decompressed@.len() == chunk_size,
                chunk_size <= 0x4000_0000,
                base + to_read <= decompressed@.len(),
                j <= to_read,
                out@.len() == j,
            decreases to_read - j,
        {
            out.push(decompressed[base + j]);
            j = j + 1;
        }
        out
    }
}

/// Scan the property list for blkx entries and decode each one's MISH
/// block.
pub fn parse_plist_blkx(xml: &[u8], data_fork_offset: u64) -> (r: Option<Vec<DmgChunk>>)
    ensures
        r matches Some(cs) ==> cs@.len() <= MAX_DMG_CHUNKS,
{
    let key_pat: Vec<u8> = tag_bytes_key();
    let open_pat: Vec<u8> = tag_bytes_open();
    let close_pat: Vec<u8> = tag_bytes_close();
    let mut chunks: Vec<DmgChunk> = Vec::new();
    let mut pos: usize = 0;
    loop
        invariant
            pos <= xml@.len() + 21,
            chunks@.len() <= MAX_DMG_CHUNKS,
            key_pat@.len() == 15,
            open_pat@.len() == 6,
            close_pat@.len() == 7,
        decreases xml@.len() + 21 - pos,
    {
        let key_pos = match find_bytes(xml, pos, key_pat.as_slice()) {
            Some(v) => v,
            None => {
                break;
            },
        };
        let after_key = key_pos + key_pat.len();
        let data_start = match find_bytes(xml, after_key, open_pat.as_slice()) {
            Some(v) => v + open_pat.len(),
            None => {
                break;
            },
        };
        let data_end = match find_bytes(xml, data_start, close_pat.as_slice()) {
            Some(v) => v,
            None => {
                break;
            },
        };
        if data_end < data_start {
            break;
        }
        let body = &xml[data_start..data_end];
        if let Some(mish) = decode_base64(body) {
            parse_mish_block(mish.as_slice(), data_fork_offset, &mut chunks);
        }
        if data_end + 1 <= pos {
            break;
        }
        pos = data_end + 1;
    }
    if chunks.len() == 0 {
        return None;
    }
    Some(chunks)
}

/// The bytes of the blkx key tag.
fn tag_bytes_key() -> (r: Vec<u8>)
    ensures
        r@.len() == 15,
{
    let mut v: Vec<u8> = Vec::new();
    v.push(0x3c);  // <
    v.push(0x6b);  // k
    v.push(0x65);  // e
    v.push(0x79);  // y
    v.push(0x3e);  // >
    v.push(0x62);  // b
    v.push(0x6c);  // l
    v.push(0x6b);  // k
    v.push(0x78);  // x
    v.push(0x3c);  // <
    v.push(0x2f);  // /
    v.push(0x6b);  // k
    v.push(0x65);  // e
    v.push(0x79);  // y
    v.push(0x3e);  // >
    v
}

/// The bytes of the opening data tag.
fn tag_bytes_open() -> (r: Vec<u8>)
    ensures
        r@.len() == 6,
{
    let mut v: Vec<u8> = Vec::new();
    v.push(0x3c);  // <
    v.push(0x64);  // d
    v.push(0x61);  // a
    v.push(0x74);  // t
    v.push(0x61);  // a
    v.push(0x3e);  // >
    v
}

/// The bytes of the closing data tag.
fn tag_bytes_close() -> (r: Vec<u8>)
    ensures
        r@.len() == 7,
{
    let mut v: Vec<u8> = Vec::new();
    v.push(0x3c);  // <
    v.push(0x2f);  // /
    v.push(0x64);  // d
    v.push(0x61);  // a
    v.push(0x74);  // t
    v.push(0x61);  // a
    v.push(0x3e);  // >
    v
}

/// DMG disk image container.
pub struct DmgContainer;

impl DmgContainer {
    /// The translated virtual disk as a single child; `None` when the
    /// trailer or chunk table is unusable.
    pub fn children(&self, reader: Rc<Source>) -> (r: Option<Vec<Child>>)
        ensures
            (*reader).plain() ==> match r {
                Some(cs) => {
                    &&& dmg_koly_at_end((*reader).content())
                    &&& cs@.len() == 1
                    &&& cs@[0].index == 0
                    &&& cs@[0].origin == (ChildOrigin::Slice { offset: 0u64 })
                    &&& match *cs@[0].reader {
                        Source::Dmg(d) => d.spec_parent() == *reader,
                        _ => false,
                    }
                },
                None => true,
            },
    {
        match DmgReader::new(reader) {
            Some(d) => Some(single_translated_child(Source::Dmg(d))),
            None => None,
        }
    }
}

} // verus!
