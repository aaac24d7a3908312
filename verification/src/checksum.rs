//! Checksum validators used by format-detection rules.
//!
//! Each validator takes a byte slice and decides whether the stored checksum
//! is consistent with the rest of the bytes. All validators work on a
//! 512-byte boot block; shorter input never validates.

use vstd::prelude::*;
use vstd::string::StringSliceAdditionalSpecFns;

verus! {

/// The named checksum algorithms that rules may refer to.
#[derive(Clone, Copy, PartialEq, Eq, Structural, Debug)]
pub enum ChecksumAlg {
    Adfs,
    Ics,
    Powertec,
}

/// One step of the ADFS carry-folding accumulation.
pub open spec fn adfs_step(r: int, b: u8) -> int {
    (r % 256) + (r / 256) + b
}

/// ADFS carry-folding sum of `d[i..511]`, accumulated from index 510 down to
/// index `i`.
pub open spec fn adfs_fold(d: Seq<u8>, i: int) -> int
    decreases 511 - i,
{
    if i >= 511 {
        0
    } else {
        adfs_step(adfs_fold(d, i + 1), d[i])
    }
}

/// A block passes the ADFS check when the folded sum of bytes 0..511 equals
/// the stored checksum byte at index 511.
pub open spec fn adfs_valid(d: Seq<u8>) -> bool {
    d.len() >= 512 && adfs_fold(d, 0) % 256 == d[511]
}

/// Plain sum of the first `n` bytes of `d`.
pub open spec fn byte_sum(d: Seq<u8>, n: int) -> int
    decreases n,
{
    if n <= 0 {
        0
    } else {
        byte_sum(d, n - 1) + d[n - 1]
    }
}

/// Little-endian 32-bit value stored at `d[o..o+4]`.
pub open spec fn le32_at(d: Seq<u8>, o: int) -> int {
    d[o] + d[o + 1] * 0x100 + d[o + 2] * 0x10000 + d[o + 3] * 0x1000000
}

/// A block passes the ICS check when the magic-seeded sum of bytes 0..508
/// equals the little-endian word stored at 508.
pub open spec fn ics_valid(d: Seq<u8>) -> bool {
    d.len() >= 512 && 0x50617274 + byte_sum(d, 508) == le32_at(d, 508)
}

/// A block passes the PowerTec check when the magic-seeded byte sum of bytes
/// 0..511 equals the checksum byte at 511, unless the block carries an MBR
/// boot signature, which is always rejected.
pub open spec fn powertec_valid(d: Seq<u8>) -> bool {
    &&& d.len() >= 512
    &&& !(d[510] == 0x55 && d[511] == 0xaa)
    &&& (0x2a + byte_sum(d, 511)) % 256 == d[511]
}

/// What a validator of the given algorithm accepts.
pub open spec fn checksum_valid(alg: ChecksumAlg, d: Seq<u8>) -> bool {
    match alg {
        ChecksumAlg::Adfs => adfs_valid(d),
        ChecksumAlg::Ics => ics_valid(d),
        ChecksumAlg::Powertec => powertec_valid(d),
    }
}

/// The algorithm a textual name refers to, by its UTF-8 bytes.
pub open spec fn alg_of_name(s: Seq<u8>) -> Option<ChecksumAlg> {
    if s =~= seq![0x61u8, 0x64u8, 0x66u8, 0x73u8] {
        Some(ChecksumAlg::Adfs)
    } else if s =~= seq![0x69u8, 0x63u8, 0x73u8] {
        Some(ChecksumAlg::Ics)
    } else if s =~= seq![0x70u8, 0x6fu8, 0x77u8, 0x65u8, 0x72u8, 0x74u8, 0x65u8, 0x63u8] {
        Some(ChecksumAlg::Powertec)
    } else {
        None
    }
}

proof fn lemma_adfs_fold_bounds(d: Seq<u8>, i: int)
    ensures
        0 <= adfs_fold(d, i) <= 0x10001fd,
    decreases 511 - i,
{
    if i >= 511 {
    } else {
        lemma_adfs_fold_bounds(d, i + 1);
    }
}

/// Get checksum validator by name.
pub fn get(name: &str) -> (r: Option<ChecksumAlg>)
    ensures
        r == alg_of_name(name.spec_bytes()),
{
    let b = name.as_bytes();
    if b.len() == 4 && b[0] == 0x61 && b[1] == 0x64 && b[2] == 0x66 && b[3] == 0x73 {
        proof {
            assert(b@ =~= seq![0x61u8, 0x64u8, 0x66u8, 0x73u8]);
        }
        Some(ChecksumAlg::Adfs)
    } else if b.len() == 3 && b[0] == 0x69 && b[1] == 0x63 && b[2] == 0x73 {
        proof {
            assert(b@ =~= seq![0x69u8, 0x63u8, 0x73u8]);
        }
        Some(ChecksumAlg::Ics)
    } else if b.len() == 8 && b[0] == 0x70 && b[1] == 0x6f && b[2] == 0x77 && b[3] == 0x65
        && b[4] == 0x72 && b[5] == 0x74 && b[6] == 0x65 && b[7] == 0x63 {
        proof {
            assert(b@ =~= seq![
                0x70u8,
                0x6fu8,
                0x77u8,
                0x65u8,
                0x72u8,
                0x74u8,
                0x65u8,
                0x63u8,
            ]);
        }
        Some(ChecksumAlg::Powertec)
    } else {
        proof {
            assert(alg_of_name(b@) is None);
        }
        None
    }
}

/// Run the validator for `alg` over `data`.
pub fn run(alg: ChecksumAlg, data: &[u8]) -> (r: bool)
    ensures
        r == checksum_valid(alg, data@),
{
    match alg {
        ChecksumAlg::Adfs => adfs(data),
        ChecksumAlg::Ics => ics(data),
        ChecksumAlg::Powertec => powertec(data),
    }
}

/// ADFS boot block checksum (carry-folding sum).
///
/// Iterates bytes 510 down to 0, accumulating with carry folding; valid if
/// the low byte of the result equals the stored byte at index 511.
pub fn adfs(data: &[u8]) -> (r: bool)
    ensures
        r == adfs_valid(data@),
{
    if data.len() < 512 {
        return false;
    }
    let mut result: u32 = 0;
    let mut i: usize = 511;
    while i > 0
        invariant
            data@.len() >= 512,
            i <= 511,
            result == adfs_fold(data@, i as int),
        decreases i,
    {
        proof {
            lemma_adfs_fold_bounds(data@, i - 1);
            assert(result & 0xff == result % 256) by (bit_vector);
            assert(result >> 8 == result / 256) by (bit_vector);
        }
        i = i - 1;
        result = (result & 0xff) + (result >> 8) + data[i] as u32;
    }
    proof {
        assert(result & 0xff == result % 256) by (bit_vector);
        assert(result & 0xff <= 0xff) by (bit_vector);
    }
    (result & 0xff) as u8 == data[511]
}

proof fn lemma_byte_sum_bounds(d: Seq<u8>, n: int)
    ensures
        0 <= byte_sum(d, n) <= if n <= 0 { 0 } else { n * 255 },
    decreases n,
{
    if n <= 0 {
    } else {
        lemma_byte_sum_bounds(d, n - 1);
    }
}

/// ICS checksum: the sum of bytes 0..508 seeded with a magic constant must
/// equal the little-endian word stored at bytes 508..512.
pub fn ics(data: &[u8]) -> (r: bool)
    ensures
        r == ics_valid(data@),
{
    if data.len() < 512 {
        return false;
    }
    let mut sum: u32 = 0x50617274;
    let mut i: usize = 0;
    while i < 508
        invariant
            data@.len() >= 512,
            i <= 508,
            sum == 0x50617274 + byte_sum(data@, i as int),
        decreases 508 - i,
    {
        proof {
            lemma_byte_sum_bounds(data@, i as int);
        }
        sum = sum + data[i] as u32;
        i = i + 1;
    }
    let stored0 = data[508] as u32;
    let stored1 = data[509] as u32;
    let stored2 = data[510] as u32;
    let stored3 = data[511] as u32;
    let stored = stored0 + stored1 * 0x100 + stored2 * 0x10000 + stored3 * 0x1000000;
    sum == stored
}

/// PowerTec checksum: the seeded byte sum of bytes 0..511 must equal the byte
/// at 511; blocks that carry an MBR boot signature are rejected.
pub fn powertec(data: &[u8]) -> (r: bool)
    ensures
        r == powertec_valid(data@),
{
    if data.len() < 512 {
        return false;
    }
    if data[510] == 0x55 && data[511] == 0xaa {
        return false;
    }
    let mut sum: u32 = 0x2a;
    let mut i: usize = 0;
    while i < 511
        invariant
            data@.len() >= 512,
            i <= 511,
            sum == 0x2a + byte_sum(data@, i as int),
        decreases 511 - i,
    {
        proof {
            lemma_byte_sum_bounds(data@, i as int);
        }
        sum = sum + data[i] as u32;
        i = i + 1;
    }
    (sum % 256) as u8 == data[511]
}

/// The bytes of `d` decrypted with the repeating `key`; an empty key is the
/// identity transform.
pub open spec fn xor_decrypt_spec(d: Seq<u8>, k: Seq<u8>) -> Seq<u8> {
    if k.len() == 0 {
        d
    } else {
        Seq::new(d.len(), |i: int| d[i] ^ k[i % k.len() as int])
    }
}

/// XOR decrypt data with a repeating key.
pub fn xor_decrypt(data: &[u8], key: &[u8]) -> (r: Vec<u8>)
    ensures
        r@ == xor_decrypt_spec(data@, key@),
{
    let mut out: Vec<u8> = Vec::new();
    let mut i: usize = 0;
    if key.len() == 0 {
        while i < data.len()
            invariant
                i <= data@.len(),
                out@ =~= data@.subrange(0, i as int),
            decreases data@.len() - i,
        {
            out.push(data[i]);
            i = i + 1;
        }
        proof {
            assert(out@ =~= data@);
        }
        return out;
    }
    while i < data.len()
        invariant
            key@.len() > 0,
            i <= data@.len(),
            out@.len() == i,
            forall|j: int|
                0 <= j < i ==> out@[j] == (data@[j] ^ key@[j % key@.len() as int]),
        decreases data@.len() - i,
    {
        out.push(data[i] ^ key[i % key.len()]);
        i = i + 1;
    }
    proof {
        assert(out@ =~= xor_decrypt_spec(data@, key@));
    }
    out
}

/// Decrypting twice with the same key restores the original bytes, and an
/// empty key leaves the bytes unchanged.
pub proof fn lemma_xor_decrypt_involution(d: Seq<u8>, k: Seq<u8>)
    ensures
        xor_decrypt_spec(xor_decrypt_spec(d, k), k) =~= d,
        xor_decrypt_spec(d, Seq::<u8>::empty()) == d,
{
    if k.len() == 0 {
    } else {
        assert forall|i: int| 0 <= i < d.len() implies xor_decrypt_spec(
            xor_decrypt_spec(d, k),
            k,
        )[i] == d[i] by {
            let b = d[i];
            let x = k[i % k.len() as int];
            assert((b ^ x) ^ x == b) by (bit_vector);
        }
    }
}

} // verus!
