//! Translate readers for the simpler disk-image formats.

use std::rc::Rc;

use qemount::disk::bochs::BochsReader;
use qemount::disk::parallels::ParallelsReader;
use qemount::disk::qcow::QcowReader;
use qemount::disk::qed::QedReader;
use qemount::disk::vdi::VdiReader;
use qemount::disk::vhd::VhdReader;
use qemount::reader::{BytesReader, Source};
use std::io::Write;

fn src_rc(bytes: Vec<u8>) -> Rc<Source> {
    Rc::new(Source::Bytes(BytesReader::new(bytes)))
}

fn put_le32(buf: &mut [u8], off: usize, v: u32) {
    buf[off..off + 4].copy_from_slice(&v.to_le_bytes());
}

fn put_le64(buf: &mut [u8], off: usize, v: u64) {
    buf[off..off + 8].copy_from_slice(&v.to_le_bytes());
}

fn put_be32(buf: &mut [u8], off: usize, v: u32) {
    buf[off..off + 4].copy_from_slice(&v.to_be_bytes());
}

fn put_be64(buf: &mut [u8], off: usize, v: u64) {
    buf[off..off + 8].copy_from_slice(&v.to_be_bytes());
}

#[test]
fn qcow1_sparse_reads_zeroes() {
    let mut buf = vec![0u8; 4096];
    put_be32(&mut buf, 0, 0x514649fb);
    put_be32(&mut buf, 4, 1); // version 1
    put_be64(&mut buf, 24, 1 << 20); // virtual size
    buf[32] = 12; // cluster_bits
    buf[33] = 9; // l2_bits
    put_be64(&mut buf, 40, 48); // L1 table offset
    let reader = QcowReader::new(src_rc(buf)).expect("valid QCOW v1 header");
    assert_eq!(reader.size(), 1 << 20);
    let got = reader.read_at(12345, 64);
    assert_eq!(got.len(), 64);
    assert!(got.iter().all(|&b| b == 0));
}

#[test]
fn qcow1_rejects_version_two() {
    let mut buf = vec![0u8; 4096];
    put_be32(&mut buf, 0, 0x514649fb);
    put_be32(&mut buf, 4, 2);
    assert!(QcowReader::new(src_rc(buf)).is_none());
}

#[test]
fn qed_maps_allocated_cluster() {
    // cluster_size 4096, table_size 8: tables of 4096 entries each.
    let mut buf = vec![0u8; 0x12000];
    put_le32(&mut buf, 0, 0x00444551);
    put_le32(&mut buf, 4, 4096);
    put_le32(&mut buf, 8, 8);
    put_le64(&mut buf, 0x28, 0x1000); // L1 table offset
    put_le64(&mut buf, 0x30, 8192); // virtual size: two clusters
    put_le64(&mut buf, 0x1000, 0x9000); // L1[0] names the L2 table
    put_le64(&mut buf, 0x9000, 0x11000); // L2[0] names the data cluster
    put_le64(&mut buf, 0x9008, 1); // L2[1] is an explicit zero cluster
    for i in 0..64 {
        buf[0x11000 + i] = (i + 1) as u8;
    }
    let reader = QedReader::new(src_rc(buf)).expect("valid QED header");
    assert_eq!(reader.size(), 8192);
    let got = reader.read_at(0, 64);
    assert_eq!(got.len(), 64);
    assert_eq!(got[0], 1);
    assert_eq!(got[63], 64);
    let zeros = reader.read_at(4096, 32);
    assert_eq!(zeros.len(), 32);
    assert!(zeros.iter().all(|&b| b == 0));
}

#[test]
fn vdi_block_map_translates_and_zero_fills() {
    let mut buf = vec![0u8; 0x10000];
    put_le32(&mut buf, 0x40, 0xbeda107f);
    put_le32(&mut buf, 0x154, 0x1000); // block map offset
    put_le32(&mut buf, 0x158, 0x2000); // data offset
    put_le64(&mut buf, 0x170, 8192); // disk size
    put_le32(&mut buf, 0x178, 4096); // block size
    put_le32(&mut buf, 0x180, 2); // blocks in image
    put_le32(&mut buf, 0x1000, 0xffffffff); // block 0 unallocated
    put_le32(&mut buf, 0x1004, 0); // block 1 -> data block 0
    for i in 0..16 {
        buf[0x2000 + i] = 0xa0 + i as u8;
    }
    let reader = VdiReader::new(src_rc(buf)).expect("valid VDI header");
    assert_eq!(reader.size(), 8192);
    let sparse = reader.read_at(100, 40);
    assert_eq!(sparse.len(), 40);
    assert!(sparse.iter().all(|&b| b == 0));
    let data = reader.read_at(4096, 16);
    assert_eq!(data[0], 0xa0);
    assert_eq!(data[15], 0xaf);
}

#[test]
fn vhd_fixed_reads_through() {
    let mut buf = vec![0u8; 0x2000];
    buf[0..8].copy_from_slice(b"conectix");
    put_be64(&mut buf, 0x30, 0x1000); // virtual size
    put_be32(&mut buf, 0x3c, 2); // fixed
    for i in 0..32 {
        buf[512 + i] = i as u8;
    }
    let reader = VhdReader::new(src_rc(buf)).expect("valid VHD footer");
    assert_eq!(reader.size(), 0x1000);
    let got = reader.read_at(512, 32);
    assert_eq!(got.len(), 32);
    assert_eq!(got[5], 5);
}

#[test]
fn vhd_dynamic_zero_fills_unallocated() {
    let mut buf = vec![0u8; 0x3000];
    buf[0..8].copy_from_slice(b"conectix");
    put_be64(&mut buf, 0x10, 0x200); // dynamic header offset
    put_be64(&mut buf, 0x30, 0x10000); // virtual size
    put_be32(&mut buf, 0x3c, 3); // dynamic
    let dh = 0x200;
    buf[dh..dh + 8].copy_from_slice(b"cxsparse");
    put_be64(&mut buf, dh + 0x10, 0x1000); // BAT offset
    put_be32(&mut buf, dh + 0x1c, 4); // entries
    put_be32(&mut buf, dh + 0x20, 0x4000); // block size
    for k in 0..4 {
        put_be32(&mut buf, 0x1000 + 4 * k, 0xffffffff);
    }
    let reader = VhdReader::new(src_rc(buf)).expect("valid dynamic VHD");
    let got = reader.read_at(0x5000, 64);
    assert_eq!(got.len(), 64);
    assert!(got.iter().all(|&b| b == 0));
}

#[test]
fn parallels_sparse_cluster_is_zero() {
    let mut buf = vec![0u8; 0x2000];
    buf[0..16].copy_from_slice(b"WithoutFreeSpace");
    put_le32(&mut buf, 16, 2); // version
    put_le32(&mut buf, 28, 4); // tracks: 2 KiB clusters
    put_le32(&mut buf, 32, 2); // BAT entries
    put_le64(&mut buf, 36, 8); // 8 sectors of virtual space
    put_le32(&mut buf, 64, 0); // cluster 0 sparse
    put_le32(&mut buf, 68, 3); // cluster 1 at sector 3
    for i in 0..8 {
        buf[3 * 512 + i] = 0xb0 + i as u8;
    }
    let reader = ParallelsReader::new(src_rc(buf)).expect("valid Parallels header");
    assert_eq!(reader.size(), 8 * 512);
    let sparse = reader.read_at(0, 16);
    assert!(sparse.iter().all(|&b| b == 0));
    let data = reader.read_at(2048, 8);
    assert_eq!(data[0], 0xb0);
}

#[test]
fn bochs_growing_zero_fills_unallocated() {
    let mut buf = vec![0u8; 0x2000];
    buf[0..22].copy_from_slice(b"Bochs Virtual HD Image");
    buf[32..39].copy_from_slice(b"Redolog");
    buf[48..55].copy_from_slice(b"Growing");
    put_le32(&mut buf, 64, 0x0002_0000); // version 2
    put_le32(&mut buf, 68, 512); // header size
    put_le32(&mut buf, 72, 4); // catalog entries
    put_le32(&mut buf, 76, 512); // bitmap size
    put_le32(&mut buf, 80, 4096); // extent size
    put_le64(&mut buf, 88, 16384); // disk size
    for k in 0..4 {
        put_le32(&mut buf, 512 + 4 * k, 0xffffffff);
    }
    let reader = BochsReader::new(src_rc(buf)).expect("valid Bochs header");
    assert_eq!(reader.size(), 16384);
    let got = reader.read_at(5000, 128);
    assert_eq!(got.len(), 128);
    assert!(got.iter().all(|&b| b == 0));
}

#[test]
fn cloop_inflates_blocks() {
    let block_size: usize = 512;
    let mut plain = vec![0u8; block_size];
    for (i, b) in plain.iter_mut().enumerate() {
        *b = (i % 9) as u8 + 1;
    }
    let mut enc = flate2::write::ZlibEncoder::new(Vec::new(), flate2::Compression::default());
    enc.write_all(&plain).unwrap();
    let compressed = enc.finish().unwrap();
    // Header at 128: block size and one block; table of two offsets.
    let data_start = 136u64 + 16;
    let mut img = vec![0u8; data_start as usize + compressed.len()];
    img[128..132].copy_from_slice(&(block_size as u32).to_be_bytes());
    img[132..136].copy_from_slice(&1u32.to_be_bytes());
    img[136..144].copy_from_slice(&data_start.to_be_bytes());
    img[144..152].copy_from_slice(&(data_start + compressed.len() as u64).to_be_bytes());
    img[data_start as usize..].copy_from_slice(&compressed);
    let reader = qemount::disk::cloop::CloopReader::new(src_rc(img)).expect("valid cloop");
    assert_eq!(reader.size(), 512);
    let got = reader.read_at(0, 512);
    assert_eq!(got, plain);
    let part = reader.read_at(100, 10);
    assert_eq!(part, &plain[100..110]);
}

#[test]
fn vmdk3_sparse_reads_zeroes() {
    let mut buf = vec![0u8; 0x2000];
    put_le32(&mut buf, 0, 0x444f5743); // "COWD"
    put_le32(&mut buf, 12, 64); // 64 sectors
    put_le32(&mut buf, 16, 8); // granularity: 8 sectors per grain
    put_le32(&mut buf, 20, 2); // L1 directory at sector 2
    put_le32(&mut buf, 24, 8); // 8 entries, all zero
    let reader = qemount::disk::vmdk::VmdkReader::new(src_rc(buf)).expect("valid COWD header");
    assert_eq!(reader.size(), 64 * 512);
    let got = reader.read_at(100, 64);
    assert_eq!(got.len(), 64);
    assert!(got.iter().all(|&b| b == 0));
}

#[test]
fn vmdk4_grain_table_translates() {
    let mut buf = vec![0u8; 0x4000];
    put_le32(&mut buf, 0, 0x564d444b); // "KDMV"
    put_le32(&mut buf, 8, 0); // flags
    put_le64(&mut buf, 12, 16); // capacity: 16 sectors
    put_le64(&mut buf, 20, 1); // granularity: 1 sector grains
    put_le32(&mut buf, 44, 16); // grain-table entries per table
    put_le64(&mut buf, 56, 2); // grain directory at sector 2
    put_le32(&mut buf, 2 * 512, 3); // GD[0]: grain table at sector 3
    put_le32(&mut buf, 3 * 512, 8); // GT[0]: grain at sector 8
    for i in 0..16 {
        buf[8 * 512 + i] = 0xd0 + i as u8;
    }
    let reader = qemount::disk::vmdk::VmdkReader::new(src_rc(buf)).expect("valid KDMV header");
    assert_eq!(reader.size(), 16 * 512);
    let got = reader.read_at(0, 16);
    assert_eq!(got[0], 0xd0);
    assert_eq!(got[15], 0xdf);
    // Grain 1 has no table entry: zero-filled.
    let sparse = reader.read_at(512, 16);
    assert!(sparse.iter().all(|&b| b == 0));
}

#[test]
fn vhdx_unallocated_blocks_read_zero() {
    let mut buf = vec![0u8; 0x40000];
    buf[0..8].copy_from_slice(b"vhdxfile");
    put_le32(&mut buf, 0x30000, 0x69676572); // "regi"
    put_le32(&mut buf, 0x30008, 2); // two region entries
    // Region entry 0: BAT.
    let e0 = 0x30010;
    buf[e0..e0 + 16].copy_from_slice(&[
        0x66, 0x77, 0xc2, 0x2d, 0x23, 0xf6, 0x00, 0x42, 0x9d, 0x64, 0x11, 0x5e, 0x9b, 0xfd,
        0x4a, 0x08,
    ]);
    put_le64(&mut buf, e0 + 16, 0x20000); // BAT offset
    put_le32(&mut buf, e0 + 24, 32); // BAT length: four entries
    // Region entry 1: metadata.
    let e1 = 0x30030;
    buf[e1..e1 + 16].copy_from_slice(&[
        0x06, 0xa2, 0x7c, 0x8b, 0x90, 0x47, 0x9a, 0x4b, 0xb8, 0xfe, 0x57, 0x5f, 0x05, 0x0f,
        0x88, 0x6e,
    ]);
    put_le64(&mut buf, e1 + 16, 0x10000); // metadata offset
    // Metadata header: two entries.
    put_le16(&mut buf, 0x10000 + 10, 2);
    // Metadata entry 0: virtual disk size item at +0x100.
    let m0 = 0x10000 + 32;
    buf[m0..m0 + 16].copy_from_slice(&[
        0x24, 0x42, 0xa5, 0x2f, 0x1b, 0xcd, 0x76, 0x48, 0xb2, 0x11, 0x5d, 0xbe, 0xd8, 0x3b,
        0xf4, 0xb8,
    ]);
    put_le32(&mut buf, m0 + 16, 0x100);
    put_le32(&mut buf, m0 + 20, 8);
    put_le64(&mut buf, 0x10000 + 0x100, 0x100000); // one MiB virtual
    // Metadata entry 1: file parameters item at +0x110.
    let m1 = 0x10000 + 64;
    buf[m1..m1 + 16].copy_from_slice(&[
        0x37, 0x67, 0xa1, 0xca, 0x36, 0xfa, 0x43, 0x4d, 0xb3, 0xb6, 0x33, 0xf0, 0xaa, 0x44,
        0xe7, 0x6b,
    ]);
    put_le32(&mut buf, m1 + 16, 0x110);
    put_le32(&mut buf, m1 + 20, 8);
    put_le32(&mut buf, 0x10000 + 0x110, 0x80000); // half-MiB blocks
    // The BAT at 0x20000 stays all zero: nothing fully present.
    let reader = qemount::disk::vhdx::VhdxReader::new(src_rc(buf)).expect("valid VHDX");
    assert_eq!(reader.size(), 0x100000);
    let got = reader.read_at(0x1234, 64);
    assert_eq!(got.len(), 64);
    assert!(got.iter().all(|&b| b == 0));
}

fn put_le16(buf: &mut [u8], off: usize, v: u16) {
    buf[off..off + 2].copy_from_slice(&v.to_le_bytes());
}

#[test]
fn nrg_etn_chunk_lists_tracks() {
    // Old-format trailer: "NERO" at -8, chunk stream offset at -4.
    let chunk_stream: u64 = 0x1000;
    let mut buf = vec![0u8; 0x1100];
    // ETNF chunk with one entry: offset 0x200, size 0x400, mode 0.
    let cs = chunk_stream as usize;
    buf[cs..cs + 4].copy_from_slice(b"ETNF");
    buf[cs + 4..cs + 8].copy_from_slice(&16u32.to_be_bytes());
    buf[cs + 8..cs + 12].copy_from_slice(&0x200u32.to_be_bytes());
    buf[cs + 12..cs + 16].copy_from_slice(&0x400u32.to_be_bytes());
    buf[cs + 16..cs + 20].copy_from_slice(&0u32.to_be_bytes());
    buf[cs + 24..cs + 28].copy_from_slice(b"END!");
    let n = buf.len();
    buf[n - 8..n - 4].copy_from_slice(b"NERO");
    buf[n - 4..n].copy_from_slice(&(chunk_stream as u32).to_be_bytes());
    let children = (qemount::disk::nrg::NrgContainer {}).children(src_rc(buf)).expect(
        "valid NRG",
    );
    assert_eq!(children.len(), 1);
    assert!(matches!(
        children[0].origin,
        qemount::container::ChildOrigin::Slice { offset } if offset == 0x200
    ));
}

#[test]
fn base64_round_trip() {
    // "TWFu" is the classic encoding of "Man".
    let decoded = qemount::disk::dmg::decode_base64(b"TWFu").expect("valid base64");
    assert_eq!(decoded, b"Man");
    let decoded2 = qemount::disk::dmg::decode_base64(b"TWFuTQ==").expect("padding ok");
    assert_eq!(decoded2, b"ManM");
    assert!(qemount::disk::dmg::decode_base64(b"T!").is_none());
}

fn build_dmg(chunk_type: u32, stored: &[u8], plain_len: u64) -> Vec<u8> {
    // One MISH block with a single chunk covering `plain_len` bytes.
    let mut mish = vec![0u8; 204 + 40];
    mish[0..4].copy_from_slice(&0x6d697368u32.to_be_bytes());
    let e = 204;
    mish[e..e + 4].copy_from_slice(&chunk_type.to_be_bytes());
    mish[e + 16..e + 24].copy_from_slice(&(plain_len / 512).to_be_bytes()); // sector count
    mish[e + 24..e + 32].copy_from_slice(&0u64.to_be_bytes()); // stored offset
    mish[e + 32..e + 40].copy_from_slice(&(stored.len() as u64).to_be_bytes());
    // Base64-encode the MISH block.
    let table = b"ABCDEFGHIJKLMNOPQRSTUVWXYZabcdefghijklmnopqrstuvwxyz0123456789+/";
    let mut b64 = Vec::new();
    for c in mish.chunks(3) {
        let b0 = c[0] as u32;
        let b1 = if c.len() > 1 { c[1] as u32 } else { 0 };
        let b2 = if c.len() > 2 { c[2] as u32 } else { 0 };
        let n = (b0 << 16) | (b1 << 8) | b2;
        b64.push(table[(n >> 18) as usize & 63]);
        b64.push(table[(n >> 12) as usize & 63]);
        b64.push(if c.len() > 1 { table[(n >> 6) as usize & 63] } else { b'=' });
        b64.push(if c.len() > 2 { table[n as usize & 63] } else { b'=' });
    }
    let mut xml = b"<key>blkx</key><data>".to_vec();
    xml.extend_from_slice(&b64);
    xml.extend_from_slice(b"</data>");
    // Layout: stored data at 0, xml after it, koly trailer at the end.
    let data_fork = 0u64;
    let xml_offset = 0x4000u64;
    let mut img = vec![0u8; xml_offset as usize];
    img[..stored.len()].copy_from_slice(stored);
    img.extend_from_slice(&xml);
    let xml_len = xml.len() as u64;
    let mut koly = vec![0u8; 512];
    koly[0..4].copy_from_slice(b"koly");
    koly[0x18..0x20].copy_from_slice(&data_fork.to_be_bytes());
    koly[0xd8..0xe0].copy_from_slice(&xml_offset.to_be_bytes());
    koly[0xe0..0xe8].copy_from_slice(&xml_len.to_be_bytes());
    img.extend_from_slice(&koly);
    img
}

#[test]
fn dmg_zlib_chunk_reads_back() {
    let mut plain = vec![0u8; 1024];
    for (i, b) in plain.iter_mut().enumerate() {
        *b = (i % 7) as u8 + 1;
    }
    let mut enc = flate2::write::ZlibEncoder::new(Vec::new(), flate2::Compression::default());
    std::io::Write::write_all(&mut enc, &plain).unwrap();
    let compressed = enc.finish().unwrap();
    let img = build_dmg(0x80000005, &compressed, 1024);
    let reader = qemount::disk::dmg::DmgReader::new(src_rc(img)).expect("valid DMG");
    assert_eq!(reader.size(), 1024);
    let got = reader.read_at(0, 1024);
    assert_eq!(got, plain);
    let part = reader.read_at(100, 41);
    assert_eq!(part, &plain[100..141]);
}

#[test]
fn dmg_lzfse_chunk_reads_back() {
    let mut plain = vec![0u8; 1024];
    for (i, b) in plain.iter_mut().enumerate() {
        *b = (i % 11) as u8 + 3;
    }
    let mut scratch = vec![0u8; plain.len() + 4096];
    let n = lzfse::encode_buffer(&plain, &mut scratch).expect("lzfse encodes");
    let img = build_dmg(0x80000007, &scratch[..n], 1024);
    let reader = qemount::disk::dmg::DmgReader::new(src_rc(img)).expect("valid DMG");
    let got = reader.read_at(0, 1024);
    assert_eq!(got, plain);
}
