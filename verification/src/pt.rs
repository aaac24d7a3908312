//! Partition-table containers.
//!
//! A partition table enumerates fixed or chained regions of its parent:
//! every child is a plain slice of the parent at a computed offset and
//! length. Chained tables enforce forward progress and a hard iteration
//! cap, so a hostile table that points backward or at itself only
//! truncates the chain.

pub mod adfs;
pub mod aix;
pub mod apm;
pub mod atari;
pub mod cumana;
pub mod dasd;
pub mod disklabel;
pub mod eesox;
pub mod gpt;
pub mod ics;
pub mod karma;
pub mod mbr;
pub mod pc98;
pub mod powertec;
pub mod rdb;
pub mod sgi;
pub mod sun;
pub mod sysv68;
pub mod ubi;
pub mod ultrix;

use vstd::prelude::*;

use crate::checksum;
use crate::container::{clamped_len, coherent_slice_child, is_slice_child, Child, ChildOrigin};
use crate::reader::{le32_of, rc_clone, Source, SliceReader};

use std::rc::Rc;

verus! {

/// Sector size used by all partition tables here: logical sectors are 512
/// bytes even on drives with larger physical sectors.
pub const SECTOR_SIZE: u64 = 512;

/// ADFS boot block checksum over a 512-byte sector.
pub fn adfs_checksum(data: &[u8]) -> (r: bool)
    ensures
        r == checksum::adfs_valid(data@),
{
    checksum::adfs(data)
}

/// ICS checksum over a 512-byte sector.
pub fn ics_checksum(data: &[u8]) -> (r: bool)
    ensures
        r == checksum::ics_valid(data@),
{
    checksum::ics(data)
}

/// PowerTec checksum over a 512-byte sector.
pub fn powertec_checksum(data: &[u8]) -> (r: bool)
    ensures
        r == checksum::powertec_valid(data@),
{
    checksum::powertec(data)
}

/// Read one 512-byte sector; `None` when the source ends first.
pub fn read_sector(src: &Source, sector: u64) -> (r: Option<Vec<u8>>)
    ensures
        r matches Some(v) ==> v@.len() == 512,
        src.plain() && sector * 512 <= u64::MAX ==> match r {
            Some(v) => sector * 512 + 512 <= src.content().len() && v@ == src.content().subrange(
                sector * 512,
                sector * 512 + 512,
            ),
            None => sector * 512 + 512 > src.content().len(),
        },
{
    let off = match sector.checked_mul(SECTOR_SIZE) {
        Some(o) => o,
        None => {
            return None;
        },
    };
    let buf = src.read_at(off, 512);
    if buf.len() == 512 {
        Some(buf)
    } else {
        None
    }
}

/// The XOR key that hides an EESOX partition table.
pub open spec fn eesox_key() -> Seq<u8> {
    seq![
        0x4eu8,
        0x65u8,
        0x69u8,
        0x6cu8,
        0x20u8,
        0x43u8,
        0x72u8,
        0x69u8,
        0x74u8,
        0x63u8,
        0x68u8,
        0x65u8,
        0x6cu8,
        0x6cu8,
        0x20u8,
        0x20u8,
    ]
}

/// Decrypt an EESOX partition table: XOR with its fixed 16-byte key.
pub fn eesox_decrypt(data: &[u8]) -> (r: Vec<u8>)
    ensures
        r@ == checksum::xor_decrypt_spec(data@, eesox_key()),
{
    let mut key: Vec<u8> = Vec::new();
    key.push(0x4e);
    key.push(0x65);
    key.push(0x69);
    key.push(0x6c);
    key.push(0x20);
    key.push(0x43);
    key.push(0x72);
    key.push(0x69);
    key.push(0x74);
    key.push(0x63);
    key.push(0x68);
    key.push(0x65);
    key.push(0x6c);
    key.push(0x6c);
    key.push(0x20);
    key.push(0x20);
    proof {
        assert(key@ =~= eesox_key());
    }
    checksum::xor_decrypt(data, key.as_slice())
}

/// Read a little-endian 32-bit value out of an in-memory sector.
pub fn read_le32(data: &[u8], offset: usize) -> (r: u32)
    requires
        offset + 4 <= data@.len(),
    ensures
        r == le32_of(data@, offset as int),
{
    data[offset] as u32 + data[offset + 1] as u32 * 0x100 + data[offset + 2] as u32 * 0x10000
        + data[offset + 3] as u32 * 0x1000000
}

/// Append one slice child; every existing child stays as it was.
pub(crate) fn push_slice_child(
    children: &mut Vec<Child>,
    parent: &Rc<Source>,
    index: u32,
    start: u64,
    length: u64,
)
    ensures
        final(children)@.len() == old(children)@.len() + 1,
        forall|k: int| 0 <= k < old(children)@.len() ==> final(children)@[k] == old(children)@[k],
        coherent_slice_child(final(children)@[final(children)@.len() - 1], **parent),
        is_slice_child(
            final(children)@[final(children)@.len() - 1],
            **parent,
            index,
            start,
            clamped_len(start, length),
        ),
{
    let slice = SliceReader::new(rc_clone(parent), start, length);
    children.push(
        Child { index, origin: ChildOrigin::Slice { offset: start }, reader: Rc::new(
            Source::Slice(slice),
        ) },
    );
}

} // verus!
