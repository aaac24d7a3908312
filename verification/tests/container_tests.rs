//! Container children and translate readers on synthetic images.

use std::io::Write;
use std::rc::Rc;

use qemount::container::{read_all, Child, ChildOrigin};
use qemount::disk::qcow2::{Qcow2Container, Qcow2Reader};
use qemount::pt::gpt::GptContainer;
use qemount::pt::mbr::MbrContainer;
use qemount::pt::rdb::RdbContainer;
use qemount::reader::{BytesReader, Source};

fn src_rc(bytes: Vec<u8>) -> Rc<Source> {
    Rc::new(Source::Bytes(BytesReader::new(bytes)))
}

fn put_le16(buf: &mut [u8], off: usize, v: u16) {
    buf[off..off + 2].copy_from_slice(&v.to_le_bytes());
}

fn put_le32(buf: &mut [u8], off: usize, v: u32) {
    buf[off..off + 4].copy_from_slice(&v.to_le_bytes());
}

fn put_le64(buf: &mut [u8], off: usize, v: u64) {
    buf[off..off + 8].copy_from_slice(&v.to_le_bytes());
}

fn put_be32(buf: &mut [u8], off: usize, v: u32) {
    buf[off..off + 4].copy_from_slice(&v.to_be_bytes());
}

fn put_be64(buf: &mut [u8], off: usize, v: u64) {
    buf[off..off + 8].copy_from_slice(&v.to_be_bytes());
}

/// A GPT image with one partition spanning LBAs 34..=100.
pub fn gpt_image() -> Vec<u8> {
    let mut buf = vec![0u8; 101 * 512];
    buf[512..520].copy_from_slice(b"EFI PART");
    put_le64(&mut buf, 512 + 72, 2); // entry array at LBA 2
    put_le32(&mut buf, 512 + 80, 1); // one entry
    put_le32(&mut buf, 512 + 84, 128); // entry size
    let eo = 2 * 512;
    buf[eo] = 1; // nonzero type GUID
    put_le64(&mut buf, eo + 32, 34); // first LBA
    put_le64(&mut buf, eo + 40, 100); // last LBA
    buf
}

#[test]
fn gpt_children_slice_the_partition() {
    let img = gpt_image();
    let children = (GptContainer {}).children(src_rc(img)).expect("valid GPT");
    assert_eq!(children.len(), 1);
    let child = &children[0];
    assert_eq!(child.index, 0);
    assert!(matches!(child.origin, ChildOrigin::Slice { offset } if offset == 34 * 512));
    // The slice is 67 sectors long: a read over-asks and gets exactly that.
    let got = child.reader.read_at(0, 200 * 512);
    assert_eq!(got.len(), 67 * 512);
}

#[test]
fn gpt_refuses_wrong_signature() {
    let mut img = gpt_image();
    img[512] = b'X';
    assert!((GptContainer {}).children(src_rc(img)).is_none());
}

#[test]
fn gpt_skips_zero_guid_entries() {
    let mut img = gpt_image();
    let eo = 2 * 512;
    img[eo] = 0; // type GUID all zero: unused entry
    let children = (GptContainer {}).children(src_rc(img)).expect("valid GPT");
    assert_eq!(children.len(), 0);
}

/// An MBR whose extended partition chain points backward at itself.
fn mbr_with_backward_chain() -> Vec<u8> {
    let mut buf = vec![0u8; 64 * 512];
    // Primary slot 0: a plain partition at LBA 40, 8 sectors.
    let e0 = 446;
    buf[e0 + 4] = 0x83;
    put_le32(&mut buf, e0 + 8, 40);
    put_le32(&mut buf, e0 + 12, 8);
    // Primary slot 1: extended partition at LBA 2, 50 sectors.
    let e1 = 446 + 16;
    buf[e1 + 4] = 0x05;
    put_le32(&mut buf, e1 + 8, 2);
    put_le32(&mut buf, e1 + 12, 50);
    put_le16(&mut buf, 510, 0xaa55);
    // EBR at LBA 2: one logical partition, next pointer into itself.
    let ebr = 2 * 512;
    let l0 = ebr + 446;
    buf[l0 + 4] = 0x83;
    put_le32(&mut buf, l0 + 8, 1);
    put_le32(&mut buf, l0 + 12, 4);
    let l1 = ebr + 446 + 16;
    buf[l1 + 4] = 0x05;
    put_le32(&mut buf, l1 + 8, 4); // next EBR at LBA 6
    put_le16(&mut buf, ebr + 510, 0xaa55);
    // EBR at LBA 6: logical partition, and a next pointer that goes
    // backward (to LBA 4, before the current record).
    let ebr2 = 6 * 512;
    let m0 = ebr2 + 446;
    buf[m0 + 4] = 0x83;
    put_le32(&mut buf, m0 + 8, 1);
    put_le32(&mut buf, m0 + 12, 4);
    let m1 = ebr2 + 446 + 16;
    buf[m1 + 4] = 0x05;
    put_le32(&mut buf, m1 + 8, 2); // next = 2 + 2 = 4 <= 6: backward
    put_le16(&mut buf, ebr2 + 510, 0xaa55);
    buf
}

#[test]
fn mbr_chain_terminates_on_backward_pointer() {
    let img = mbr_with_backward_chain();
    let children = (MbrContainer {}).children(src_rc(img)).expect("valid MBR");
    // One primary plus the two logical partitions reached before the
    // backward link stops the walk.
    assert_eq!(children.len(), 3);
    assert_eq!(children[0].index, 0); // the primary in slot 0
    assert_eq!(children[1].index, 4); // first logical
    assert_eq!(children[2].index, 5); // second logical, then the walk stops
    assert!(matches!(children[0].origin, ChildOrigin::Slice { offset } if offset == 40 * 512));
    assert!(matches!(children[1].origin, ChildOrigin::Slice { offset } if offset == 3 * 512));
    assert!(matches!(children[2].origin, ChildOrigin::Slice { offset } if offset == 7 * 512));
}

#[test]
fn mbr_refuses_missing_signature() {
    let img = vec![0u8; 1024];
    assert!((MbrContainer {}).children(src_rc(img)).is_none());
}

/// A QCOW2 image: magic, version 2, 64 KiB clusters, one all-zero L1
/// entry, one MiB of virtual space.
fn qcow2_sparse_image() -> Vec<u8> {
    let mut buf = vec![0u8; 0x1000];
    put_be32(&mut buf, 0, 0x514649fb);
    put_be32(&mut buf, 4, 2);
    put_be32(&mut buf, 0x14, 16); // cluster_bits
    put_be64(&mut buf, 0x18, 1 << 20); // virtual size
    put_be32(&mut buf, 0x24, 1); // one L1 entry
    put_be64(&mut buf, 0x28, 0x30); // L1 table right after the header
    buf
}

#[test]
fn qcow2_sparse_reads_zeroes_everywhere() {
    let img = qcow2_sparse_image();
    let reader = Qcow2Reader::new(src_rc(img)).expect("valid QCOW2 header");
    assert_eq!(reader.size(), 1 << 20);
    for &off in &[0u64, 1, 511, 65535, 65536, 70000, (1 << 20) - 10] {
        let got = reader.read_at(off, 128);
        assert!(!got.is_empty());
        assert!(got.iter().all(|&b| b == 0), "nonzero byte at {}", off);
    }
    // Reads past the virtual size return nothing.
    assert!(reader.read_at(1 << 20, 16).is_empty());
}

#[test]
fn qcow2_read_never_crosses_a_cluster_boundary() {
    let img = qcow2_sparse_image();
    let reader = Qcow2Reader::new(src_rc(img)).expect("valid QCOW2 header");
    // 64 KiB clusters: a read 6 bytes before a boundary stops there.
    let got = reader.read_at(65530, 100);
    assert_eq!(got.len(), 6);
}

#[test]
fn qcow2_container_yields_single_translated_child() {
    let img = qcow2_sparse_image();
    let children = (Qcow2Container {}).children(src_rc(img)).expect("valid QCOW2");
    assert_eq!(children.len(), 1);
    assert_eq!(children[0].index, 0);
    let got = children[0].reader.read_at(12345, 64);
    assert_eq!(got.len(), 64);
    assert!(got.iter().all(|&b| b == 0));
}

#[test]
fn qcow2_reads_compressed_cluster() {
    // 512-byte clusters; cluster 0 is compressed.
    let mut buf = vec![0u8; 0x1000];
    put_be32(&mut buf, 0, 0x514649fb);
    put_be32(&mut buf, 4, 2);
    put_be32(&mut buf, 0x14, 9); // cluster_bits = 9
    put_be64(&mut buf, 0x18, 512); // one cluster of virtual space
    put_be32(&mut buf, 0x24, 1);
    put_be64(&mut buf, 0x28, 0x30); // L1 at 0x30
    // The cluster's plain content.
    let mut plain = vec![0u8; 512];
    for (i, b) in plain.iter_mut().enumerate() {
        *b = (i % 251) as u8;
    }
    let mut enc = flate2::write::DeflateEncoder::new(Vec::new(), flate2::Compression::default());
    enc.write_all(&plain).unwrap();
    let compressed = enc.finish().unwrap();
    let coffset: u64 = 0x800;
    let nb_sectors = ((compressed.len() + 511) / 512) as u64;
    buf.resize((coffset as usize) + (nb_sectors as usize) * 512, 0);
    buf[coffset as usize..coffset as usize + compressed.len()].copy_from_slice(&compressed);
    // L1 entry at 0x30 points at an L2 table at 0x400.
    put_be64(&mut buf, 0x30, 0x400);
    // L2 entry 0: compressed flag, size in sectors, host offset.
    let csize_shift = 63 - 9;
    let entry: u64 = (1u64 << 62) | ((nb_sectors - 1) << csize_shift) | coffset;
    put_be64(&mut buf, 0x400, entry);
    let reader = Qcow2Reader::new(src_rc(buf)).expect("valid QCOW2 header");
    let got = reader.read_at(0, 512);
    assert_eq!(got, plain);
    let part = reader.read_at(100, 32);
    assert_eq!(part, &plain[100..132]);
}

/// An RDB whose partition list points at itself.
fn rdb_self_loop_image() -> Vec<u8> {
    let mut buf = vec![0u8; 16 * 512];
    buf[0..4].copy_from_slice(b"RDSK");
    put_be32(&mut buf, 16, 512); // block size
    put_be32(&mut buf, 28, 4); // partition list head at block 4
    put_be32(&mut buf, 144, 1); // blocks per cylinder
    let part = 4 * 512;
    buf[part..part + 4].copy_from_slice(b"PART");
    put_be32(&mut buf, part + 16, 4); // next: itself
    put_be32(&mut buf, part + 164, 1); // low cylinder
    put_be32(&mut buf, part + 168, 2); // high cylinder
    buf
}

#[test]
fn rdb_chain_terminates_within_cap() {
    let img = rdb_self_loop_image();
    let children = (RdbContainer {}).children(src_rc(img)).expect("valid RDB");
    // The self-referential list is walked up to the cap, never forever.
    assert_eq!(children.len(), 256);
}

fn transformed_payload(children: &[Child]) -> Vec<u8> {
    assert_eq!(children.len(), 1);
    assert!(matches!(children[0].origin, ChildOrigin::Transformed));
    read_all(&children[0].reader).expect("child fits in memory")
}

#[test]
fn gzip_container_decompresses() {
    let payload = b"payload inside a gzip stream".to_vec();
    let mut enc = flate2::write::GzEncoder::new(Vec::new(), flate2::Compression::default());
    enc.write_all(&payload).unwrap();
    let compressed = enc.finish().unwrap();
    let children = (qemount::arc::GzipContainer {}).children(src_rc(compressed)).unwrap();
    assert_eq!(transformed_payload(&children), payload);
}

#[test]
fn gzip_container_refuses_garbage() {
    let garbage = vec![0x1f, 0x8b, 0xff, 0xff, 0xff];
    assert!((qemount::arc::GzipContainer {}).children(src_rc(garbage)).is_none());
}

#[test]
fn bzip2_container_decompresses() {
    let payload = b"payload inside a bzip2 stream".to_vec();
    let mut enc = bzip2::write::BzEncoder::new(Vec::new(), bzip2::Compression::new(6));
    enc.write_all(&payload).unwrap();
    let compressed = enc.finish().unwrap();
    let children = (qemount::arc::Bzip2Container {}).children(src_rc(compressed)).unwrap();
    assert_eq!(transformed_payload(&children), payload);
}

#[test]
fn xz_container_decompresses() {
    let payload = b"payload inside an xz stream".to_vec();
    let mut enc = xz2::write::XzEncoder::new(Vec::new(), 6);
    enc.write_all(&payload).unwrap();
    let compressed = enc.finish().unwrap();
    let children = (qemount::arc::XzContainer {}).children(src_rc(compressed)).unwrap();
    assert_eq!(transformed_payload(&children), payload);
}

#[test]
fn lzma_container_decompresses() {
    let payload = b"payload inside a raw lzma stream".to_vec();
    let mut compressed = Vec::new();
    lzma_rs::lzma_compress(&mut &payload[..], &mut compressed).unwrap();
    let children = (qemount::arc::LzmaContainer {}).children(src_rc(compressed)).unwrap();
    assert_eq!(transformed_payload(&children), payload);
}

#[test]
fn lz4_container_decompresses() {
    let payload = b"payload inside an lz4 frame".to_vec();
    let mut enc = lz4_flex::frame::FrameEncoder::new(Vec::new());
    enc.write_all(&payload).unwrap();
    let compressed = enc.finish().unwrap();
    let children = (qemount::arc::Lz4Container {}).children(src_rc(compressed)).unwrap();
    assert_eq!(transformed_payload(&children), payload);
}

#[test]
fn zstd_container_decompresses() {
    let payload = b"payload inside a zstd stream".to_vec();
    let compressed = zstd::stream::encode_all(&payload[..], 3).unwrap();
    let children = (qemount::arc::ZstdContainer {}).children(src_rc(compressed)).unwrap();
    assert_eq!(transformed_payload(&children), payload);
}

#[test]
fn compress_container_decompresses() {
    let payload = b"payload inside a compress stream, with repeats repeats repeats".to_vec();
    let mut encoder = weezl::encode::Encoder::new(weezl::BitOrder::Lsb, 9);
    let mut body = Vec::new();
    encoder.into_stream(&mut body).encode_all(&payload[..]).status.unwrap();
    let mut compressed = vec![0x1f, 0x9d, 0x09];
    compressed.extend_from_slice(&body);
    let children = (qemount::arc::CompressContainer {}).children(src_rc(compressed)).unwrap();
    assert_eq!(transformed_payload(&children), payload);
}

#[test]
fn compress_container_refuses_wide_codes() {
    // A compress header asking for 16-bit codes: wider than the LZW
    // decoder takes, so the container yields no children.
    let compressed = vec![0x1f, 0x9d, 0x10, 0x00, 0x01, 0x02];
    assert!((qemount::arc::CompressContainer {}).children(src_rc(compressed)).is_none());
}

#[test]
fn registry_holds_exactly_the_expandable_formats() {
    let registered = [
        "arc/gzip",
        "disk/parallels",
        "disk/qcow",
        "disk/qcow2",
        "disk/qed",
        "disk/vdi",
        "disk/vhd",
        "disk/vhdx",
        "disk/vmdk",
        "pt/apm",
        "pt/disklabel",
        "pt/gpt",
        "pt/mbr",
        "pt/rdb",
        "pt/pc98",
        "pt/sgi",
        "pt/sun",
    ];
    for name in registered {
        assert!(qemount::container::get_container(name).is_some(), "{name}");
    }
    for name in ["pt/adfs", "pt/ics", "pt/powertec", "pt/eesox", "pt/cumana", "arc/zstd", "fs/ext"]
    {
        assert!(qemount::container::get_container(name).is_none(), "{name}");
    }
}
