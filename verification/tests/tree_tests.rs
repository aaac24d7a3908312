//! End-to-end detection trees with a small synthetic registry.

use std::io::Write;
use std::rc::Rc;

use qemount::detect::{detect_tree, DetectNode, FormatDb};
use qemount::format::{Detect, LeafRule, LeafType, Rule, Value};
use qemount::reader::{BytesReader, Source};

fn str_leaf(offset: i64, expected: &[u8]) -> Rule {
    Rule::Leaf(LeafRule {
        offset,
        typ: LeafType::Str,
        value: Some(Value::Bytes(expected.iter().map(|&b| b as i64).collect())),
        op: None,
        mask: None,
        then_rules: None,
        length: None,
        algorithm: None,
        key: None,
    })
}

fn gzip_magic_rule() -> Rule {
    str_leaf(0, &[0x1f, 0x8b])
}

/// A registry of three formats: gzip by its magic, GPT by its signature,
/// and a toy filesystem by a marker string.
fn test_db() -> FormatDb {
    FormatDb {
        formats: vec![
            (String::from("arc/gzip"), Detect::All { all: vec![gzip_magic_rule()] }),
            (String::from("pt/gpt"), Detect::All { all: vec![str_leaf(512, b"EFI PART")] }),
            (String::from("fs/test"), Detect::All { all: vec![str_leaf(0, b"FSTEST")] }),
        ],
    }
}

fn put_le32(buf: &mut [u8], off: usize, v: u32) {
    buf[off..off + 4].copy_from_slice(&v.to_le_bytes());
}

fn put_le64(buf: &mut [u8], off: usize, v: u64) {
    buf[off..off + 8].copy_from_slice(&v.to_le_bytes());
}

/// A GPT image with one partition spanning LBAs 34..=100.
fn gpt_image() -> Vec<u8> {
    let mut buf = vec![0u8; 101 * 512];
    buf[512..520].copy_from_slice(b"EFI PART");
    put_le64(&mut buf, 512 + 72, 2);
    put_le32(&mut buf, 512 + 80, 1);
    put_le32(&mut buf, 512 + 84, 128);
    let eo = 2 * 512;
    buf[eo] = 1;
    put_le64(&mut buf, eo + 32, 34);
    put_le64(&mut buf, eo + 40, 100);
    buf
}

/// A GPT image whose two entries describe the same partition twice.
fn gpt_image_double_entry() -> Vec<u8> {
    let mut buf = gpt_image();
    put_le32(&mut buf, 512 + 80, 2); // two entries
    let e1 = 2 * 512 + 128;
    buf[e1] = 1;
    put_le64(&mut buf, e1 + 32, 34);
    put_le64(&mut buf, e1 + 40, 100);
    buf
}

fn src_rc(bytes: Vec<u8>) -> Rc<Source> {
    Rc::new(Source::Bytes(BytesReader::new(bytes)))
}

fn gzip(data: &[u8]) -> Vec<u8> {
    let mut enc = flate2::write::GzEncoder::new(Vec::new(), flate2::Compression::default());
    enc.write_all(data).unwrap();
    enc.finish().unwrap()
}

#[test]
fn gpt_tree_has_partition_child() {
    // A GPT signature at byte 512 and one valid entry: the tree holds one
    // GPT node whose only child covers the partition; nothing is
    // recognized inside it, so the child is the fallback leaf.
    let db = test_db();
    let tree = detect_tree(&db, src_rc(gpt_image()));
    assert_eq!(tree.len(), 1);
    assert_eq!(tree[0].format, "pt/gpt");
    assert_eq!(tree[0].index, 0);
    assert_eq!(tree[0].children.len(), 1);
    assert_eq!(tree[0].children[0].format, "data");
    assert_eq!(tree[0].children[0].index, 0);
}

#[test]
fn gpt_partition_content_is_detected() {
    let mut img = gpt_image();
    let part = 34 * 512;
    img[part..part + 6].copy_from_slice(b"FSTEST");
    let db = test_db();
    let tree = detect_tree(&db, src_rc(img));
    assert_eq!(tree.len(), 1);
    assert_eq!(tree[0].format, "pt/gpt");
    assert_eq!(tree[0].children.len(), 1);
    assert_eq!(tree[0].children[0].format, "fs/test");
}

#[test]
fn dedup_same_key_yields_one_node() {
    // Two table entries describe the very same partition: same stream,
    // same offset, same format. The second detection is skipped and the
    // region falls back to the unrecognized-data leaf.
    let mut img = gpt_image_double_entry();
    let part = 34 * 512;
    img[part..part + 6].copy_from_slice(b"FSTEST");
    let db = test_db();
    let tree = detect_tree(&db, src_rc(img));
    assert_eq!(tree.len(), 1);
    assert_eq!(tree[0].format, "pt/gpt");
    assert_eq!(tree[0].children.len(), 2);
    assert_eq!(tree[0].children[0].format, "fs/test");
    assert_eq!(tree[0].children[0].index, 0);
    assert_eq!(tree[0].children[1].format, "data");
    assert_eq!(tree[0].children[1].index, 1);
}

#[test]
fn dedup_distinct_streams_each_get_a_node() {
    // A gzip stream inside a gzip stream: the same format matches twice,
    // but on different stream lineages, so both nodes appear.
    let inner_payload = {
        let mut v = b"FSTEST".to_vec();
        v.extend_from_slice(&[0u8; 64]);
        v
    };
    let once = gzip(&inner_payload);
    let twice = gzip(&once);
    let db = test_db();
    let tree = detect_tree(&db, src_rc(twice));
    assert_eq!(tree.len(), 1);
    assert_eq!(tree[0].format, "arc/gzip");
    assert_eq!(tree[0].children.len(), 1);
    assert_eq!(tree[0].children[0].format, "arc/gzip");
    assert_eq!(tree[0].children[0].children.len(), 1);
    assert_eq!(tree[0].children[0].children[0].format, "fs/test");
}

#[test]
fn gzip_wrapping_gpt_yields_nested_tree() {
    // Compressed bytes wrapping a GPT image: the root is the gzip node,
    // and its child subtree is the GPT tree of the decompressed bytes.
    let compressed = gzip(&gpt_image());
    let db = test_db();
    let tree = detect_tree(&db, src_rc(compressed));
    assert_eq!(tree.len(), 1);
    assert_eq!(tree[0].format, "arc/gzip");
    assert_eq!(tree[0].children.len(), 1);
    let inner: &DetectNode = &tree[0].children[0];
    assert_eq!(inner.format, "pt/gpt");
    assert_eq!(inner.children.len(), 1);
    assert_eq!(inner.children[0].format, "data");
}

#[test]
fn unrecognized_input_yields_no_nodes() {
    let db = test_db();
    let tree = detect_tree(&db, src_rc(vec![0u8; 4096]));
    assert_eq!(tree.len(), 0);
}
