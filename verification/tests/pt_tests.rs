//! Partition tables of the fixed and chained kinds.

use std::rc::Rc;

use qemount::container::ChildOrigin;
use qemount::pt::adfs::{AdfsContainer, DiscRecord};
use qemount::pt::apm::ApmContainer;
use qemount::pt::disklabel::DisklabelContainer;
use qemount::pt::eesox::EesoxContainer;
use qemount::pt::ics::IcsContainer;
use qemount::pt::karma::KarmaContainer;
use qemount::pt::powertec::PowertecContainer;
use qemount::pt::sgi::SgiContainer;
use qemount::pt::sun::SunContainer;
use qemount::pt::atari::AtariContainer;
use qemount::pt::dasd::DasdContainer;
use qemount::pt::ubi::UbiContainer;
use qemount::pt::ultrix::UltrixContainer;
use qemount::pt::{eesox_decrypt, read_le32, read_sector};
use qemount::reader::{BytesReader, Source};

fn src_rc(bytes: Vec<u8>) -> Rc<Source> {
    Rc::new(Source::Bytes(BytesReader::new(bytes)))
}

fn put_le32(buf: &mut [u8], off: usize, v: u32) {
    buf[off..off + 4].copy_from_slice(&v.to_le_bytes());
}

fn put_be16(buf: &mut [u8], off: usize, v: u16) {
    buf[off..off + 2].copy_from_slice(&v.to_be_bytes());
}

fn put_be32(buf: &mut [u8], off: usize, v: u32) {
    buf[off..off + 4].copy_from_slice(&v.to_be_bytes());
}

fn offset_of(origin: &ChildOrigin) -> u64 {
    match origin {
        ChildOrigin::Slice { offset } => *offset,
        ChildOrigin::Transformed => panic!("expected a slice child"),
    }
}

#[test]
fn read_helpers_work_on_sectors() {
    let mut img = vec![0u8; 2048];
    img[512] = 0x78;
    img[513] = 0x56;
    img[514] = 0x34;
    img[515] = 0x12;
    let src = Source::Bytes(BytesReader::new(img));
    let sector = read_sector(&src, 1).expect("sector readable");
    assert_eq!(sector.len(), 512);
    assert_eq!(read_le32(&sector, 0), 0x12345678);
    assert!(read_sector(&src, 9).is_none());
}

#[test]
fn eesox_decrypt_restores_plaintext() {
    let key = b"Neil Critchell  ";
    let plain = b"Eesox-partition-table-bytes!";
    let hidden: Vec<u8> = plain
        .iter()
        .enumerate()
        .map(|(i, &b)| b ^ key[i % 16])
        .collect();
    assert_eq!(eesox_decrypt(&hidden), plain);
}

fn ics_image() -> Vec<u8> {
    let mut img = vec![0u8; 64 * 512];
    // Two entries: (start 10, size 4) and (start 20, size 6).
    put_le32(&mut img, 0, 10);
    put_le32(&mut img, 4, 4);
    put_le32(&mut img, 8, 20);
    put_le32(&mut img, 12, 6);
    // Seal with the ICS checksum.
    let mut sum: u32 = 0x50617274;
    for &b in &img[..508] {
        sum = sum.wrapping_add(b as u32);
    }
    let s = sum.to_le_bytes();
    img[508..512].copy_from_slice(&s);
    img
}

#[test]
fn ics_children_follow_table_entries() {
    let children = (IcsContainer {}).children(src_rc(ics_image())).expect("valid ICS");
    assert_eq!(children.len(), 2);
    assert_eq!(offset_of(&children[0].origin), 10 * 512);
    assert_eq!(offset_of(&children[1].origin), 20 * 512);
}

#[test]
fn ics_rejects_bad_checksum() {
    let mut img = ics_image();
    img[0] ^= 0xff;
    assert!((IcsContainer {}).children(src_rc(img)).is_none());
}

fn powertec_image() -> Vec<u8> {
    let mut img = vec![0u8; 64 * 512];
    // Entry 0: start 8, size 16 (at offsets +8 and +12 of the entry).
    put_le32(&mut img, 8, 8);
    put_le32(&mut img, 12, 16);
    let mut sum: u8 = 0x2a;
    for &b in &img[..511] {
        sum = sum.wrapping_add(b);
    }
    img[511] = sum;
    img
}

#[test]
fn powertec_children_follow_table_entries() {
    let children = (PowertecContainer {}).children(src_rc(powertec_image())).expect(
        "valid PowerTec",
    );
    assert_eq!(children.len(), 1);
    assert_eq!(offset_of(&children[0].origin), 8 * 512);
}

fn eesox_image() -> Vec<u8> {
    let key = b"Neil Critchell  ";
    let mut table = vec![0u8; 256];
    // Two entries with starts 100 and 200.
    for (i, entry_start) in [(0usize, 100u32), (1usize, 200u32)] {
        let off = i * 32;
        table[off..off + 5].copy_from_slice(b"Eesox");
        table[off + 16..off + 20].copy_from_slice(&entry_start.to_le_bytes());
    }
    let hidden: Vec<u8> = table
        .iter()
        .enumerate()
        .map(|(i, &b)| b ^ key[i % 16])
        .collect();
    let mut img = vec![0u8; 16 * 512];
    img[7 * 512..7 * 512 + 256].copy_from_slice(&hidden);
    img
}

#[test]
fn eesox_children_are_sized_by_gaps() {
    let children = (EesoxContainer {}).children(src_rc(eesox_image())).expect("valid EESOX");
    assert_eq!(children.len(), 2);
    assert_eq!(offset_of(&children[0].origin), 100 * 512);
    assert_eq!(offset_of(&children[1].origin), 200 * 512);
}

fn adfs_image() -> Vec<u8> {
    let mut img = vec![0u8; 600 * 512];
    let boot = 6 * 512;
    // Disc record: disc_size 0x40000 bytes = 512 sectors.
    put_le32(&mut img, boot + 0x1d0, 0x40000);
    // Fold the checksum.
    let mut result: u32 = 0;
    for i in (0..511).rev() {
        result = (result & 0xff) + (result >> 8) + img[boot + i] as u32;
    }
    img[boot + 511] = (result & 0xff) as u8;
    img
}

#[test]
fn adfs_primary_partition_covers_disc_record_size() {
    let children = (AdfsContainer {}).children(src_rc(adfs_image())).expect("valid ADFS");
    assert_eq!(children.len(), 1);
    assert_eq!(offset_of(&children[0].origin), 0);
    // 0x40000 >> 9 sectors, each 512 bytes.
    let got = children[0].reader.read_at(0, usize::MAX >> 1);
    assert_eq!(got.len() as u64, (0x40000u64 >> 9) * 512);
}

#[test]
fn disc_record_parses_fields() {
    let mut block = vec![0u8; 512];
    block[0x1c0] = 9;
    block[0x1c1] = 16;
    block[0x1c2] = 4;
    put_le32(&mut block, 0x1d0, 0x1234);
    let dr = DiscRecord::parse(&block).expect("long enough");
    assert_eq!(dr.log2secsize, 9);
    assert_eq!(dr.secspertrack, 16);
    assert_eq!(dr.heads, 4);
    assert_eq!(dr.disc_size, 0x1234);
    assert_eq!(dr.sectors(), 0x1234 >> 9);
    assert_eq!(dr.effective_heads(), 4);
    assert!(DiscRecord::parse(&block[..100]).is_none());
}

fn sun_image() -> Vec<u8> {
    let mut img = vec![0u8; 64 * 512];
    put_be16(&mut img, 508, 0xdabe);
    put_be16(&mut img, 436, 4); // heads
    put_be16(&mut img, 438, 8); // sectors per track
    // Partition 0: start cylinder 1, 64 sectors.
    put_be32(&mut img, 444, 1);
    put_be32(&mut img, 448, 64);
    img
}

#[test]
fn sun_children_convert_cylinders() {
    let children = (SunContainer {}).children(src_rc(sun_image())).expect("valid Sun label");
    assert_eq!(children.len(), 1);
    assert_eq!(children[0].index, 0);
    // One cylinder of 4 * 8 sectors.
    assert_eq!(offset_of(&children[0].origin), 32 * 512);
}

fn sgi_image() -> Vec<u8> {
    let mut img = vec![0u8; 64 * 512];
    put_be32(&mut img, 0, 0x0be5a941);
    // Entry 0: 128 blocks at block 8, type 4.
    put_be32(&mut img, 312, 128);
    put_be32(&mut img, 316, 8);
    put_be32(&mut img, 320, 4);
    // Entry 1: whole volume, skipped.
    put_be32(&mut img, 312 + 12, 512);
    put_be32(&mut img, 312 + 16, 0);
    put_be32(&mut img, 312 + 20, 6);
    img
}

#[test]
fn sgi_children_skip_volume_entries() {
    let children = (SgiContainer {}).children(src_rc(sgi_image())).expect("valid SGI label");
    assert_eq!(children.len(), 1);
    assert_eq!(offset_of(&children[0].origin), 8 * 512);
}

fn apm_image() -> Vec<u8> {
    let mut img = vec![0u8; 64 * 512];
    put_be16(&mut img, 0, 0x4552);
    put_be16(&mut img, 2, 512); // block size
    // Entry 1 (the map itself).
    let e1 = 512;
    put_be16(&mut img, e1, 0x504d);
    put_be32(&mut img, e1 + 4, 2); // two map entries
    img[e1 + 48..e1 + 48 + 19].copy_from_slice(b"Apple_partition_map");
    // Entry 2: a data partition at block 16, 8 blocks.
    let e2 = 2 * 512;
    put_be16(&mut img, e2, 0x504d);
    put_be32(&mut img, e2 + 4, 2);
    put_be32(&mut img, e2 + 8, 16);
    put_be32(&mut img, e2 + 12, 8);
    img[e2 + 48..e2 + 48 + 9].copy_from_slice(b"Apple_HFS");
    img
}

#[test]
fn apm_children_skip_map_entries() {
    let children = (ApmContainer {}).children(src_rc(apm_image())).expect("valid APM");
    assert_eq!(children.len(), 1);
    assert_eq!(offset_of(&children[0].origin), 16 * 512);
}

fn karma_image() -> Vec<u8> {
    let mut img = vec![0u8; 64 * 512];
    img[510] = 0x56;
    img[511] = 0xab;
    // Entry 0 at offset 270: type 0x4d, start 4, size 32.
    img[270 + 4] = 0x4d;
    put_le32(&mut img, 270 + 8, 4);
    put_le32(&mut img, 270 + 12, 32);
    img
}

#[test]
fn karma_children_follow_typed_entries() {
    let children = (KarmaContainer {}).children(src_rc(karma_image())).expect("valid Karma");
    assert_eq!(children.len(), 1);
    assert_eq!(offset_of(&children[0].origin), 4 * 512);
}

fn ultrix_image() -> Vec<u8> {
    let mut img = vec![0u8; 64 * 512];
    put_le32(&mut img, 16312, 0x032957);
    put_le32(&mut img, 16316, 1);
    // Entry 0: 128 blocks at block 2.
    put_le32(&mut img, 16320, 128);
    put_le32(&mut img, 16324, 2);
    img
}

#[test]
fn ultrix_children_follow_label() {
    let children = (UltrixContainer {}).children(src_rc(ultrix_image())).expect("valid label");
    assert_eq!(children.len(), 1);
    assert_eq!(offset_of(&children[0].origin), 2 * 512);
}

fn disklabel_image() -> Vec<u8> {
    let mut img = vec![0u8; 64 * 512];
    put_le32(&mut img, 0, 0x82564557);
    put_le32(&mut img, 132, 0x82564557);
    put_le32(&mut img, 40, 512); // sector size
    img[138] = 4; // four partitions
    // Partition 0: 64 sectors at 16, fstype 7.
    put_le32(&mut img, 148, 64);
    put_le32(&mut img, 152, 16);
    img[148 + 12] = 7;
    img
}

#[test]
fn disklabel_children_follow_label() {
    let children = (DisklabelContainer {}).children(src_rc(disklabel_image())).expect(
        "valid disklabel",
    );
    assert_eq!(children.len(), 1);
    assert_eq!(offset_of(&children[0].origin), 16 * 512);
}

fn put_be64_at(buf: &mut [u8], off: usize, v: u64) {
    buf[off..off + 8].copy_from_slice(&v.to_be_bytes());
}

#[test]
fn atari_xgm_chain_stops_on_backward_link() {
    let mut img = vec![0u8; 200 * 512];
    // hd_siz: 200 sectors.
    put_be32(&mut img, 0x1c2, 200);
    // Primary entry 0: XGM at sector 10.
    let e0 = 0x1c6;
    img[e0] = 0x01;
    img[e0 + 1..e0 + 4].copy_from_slice(b"XGM");
    put_be32(&mut img, e0 + 4, 10);
    put_be32(&mut img, e0 + 8, 100);
    // XGM sector 10: a partition, and a link pointing at itself.
    let x = 10 * 512 + 0x1c6;
    img[x] = 0x01;
    img[x + 1..x + 4].copy_from_slice(b"GEM");
    put_be32(&mut img, x + 4, 1);
    put_be32(&mut img, x + 8, 4);
    let l = x + 12;
    img[l + 1..l + 4].copy_from_slice(b"XGM");
    put_be32(&mut img, l + 4, 0); // relative start 0: the chain must stop
    let children = (AtariContainer {}).children(src_rc(img)).expect("readable root sector");
    assert_eq!(children.len(), 1);
    assert_eq!(offset_of(&children[0].origin), 11 * 512);
}

#[test]
fn ubi_volume_maps_logical_blocks() {
    let peb = 0x2_0000usize;
    let mut img = vec![0u8; 3 * peb];
    for p in 0..3 {
        put_be32(&mut img, p * peb, 0x55424923); // EC magic
        put_be32(&mut img, p * peb + 0x10, 64); // VID header offset
        put_be32(&mut img, p * peb + 0x14, 128); // data offset
    }
    // PEB 0 and 1 carry volume 3, logical blocks 0 and 1.
    for (p, lnum) in [(0usize, 0u32), (1usize, 1u32)] {
        let vid = p * peb + 64;
        put_be32(&mut img, vid, 0x55424921);
        put_be32(&mut img, vid + 0x08, 3); // volume id
        put_be32(&mut img, vid + 0x0c, lnum);
        put_be32(&mut img, vid + 0x14, 0x1000);
        img[p * peb + 128] = 0xc0 + p as u8;
    }
    let children = (UbiContainer {}).children(src_rc(img)).expect("valid UBI");
    assert_eq!(children.len(), 1);
    assert_eq!(children[0].index, 3);
    let leb_size = (peb - 128) as u64;
    // Logical block 0 starts with the byte written into PEB 0's data area.
    let got = children[0].reader.read_at(0, 1);
    assert_eq!(got, vec![0xc0]);
    let got1 = children[0].reader.read_at(leb_size, 1);
    assert_eq!(got1, vec![0xc1]);
}

#[test]
fn dasd_cms1_label_yields_partition() {
    let mut img = vec![0u8; 64 * 512];
    // CMS1 label in sector 1.
    put_be32(&mut img, 512, 0xc3d4e2f1);
    put_be32(&mut img, 512 + 0x0c, 512); // block size
    put_be32(&mut img, 512 + 0x10, 0); // not a minidisk
    put_be32(&mut img, 512 + 0x14, 32); // 32 blocks
    let children = (DasdContainer {}).children(src_rc(img)).expect("valid CMS1 label");
    assert_eq!(children.len(), 1);
    // FBA layout: the partition starts at block 2.
    assert_eq!(offset_of(&children[0].origin), 2 * 512);
}
