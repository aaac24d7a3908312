//! The rule-matching engine on in-memory sources.

use qemount::checksum::ChecksumAlg;
use qemount::detect::matches_detect;
use qemount::format::{CmpOp, Detect, LeafRule, LeafType, Rule, Value};
use qemount::reader::{BytesReader, Source};

fn leaf(typ: LeafType, offset: i64, value: Option<Value>) -> Rule {
    Rule::Leaf(LeafRule {
        offset,
        typ,
        value,
        op: None,
        mask: None,
        then_rules: None,
        length: None,
        algorithm: None,
        key: None,
    })
}

fn src_of(bytes: &[u8]) -> Source {
    Source::Bytes(BytesReader::new(bytes.to_vec()))
}

fn str_value(s: &[u8]) -> Value {
    Value::Bytes(s.iter().map(|&b| b as i64).collect())
}

#[test]
fn string_rule_matches_exact_bytes() {
    let src = src_of(b"EFI PART and more");
    let d = Detect::All { all: vec![leaf(LeafType::Str, 0, Some(str_value(b"EFI PART")))] };
    assert!(matches_detect(&src, &d));
    let d2 = Detect::All { all: vec![leaf(LeafType::Str, 1, Some(str_value(b"EFI PART")))] };
    assert!(!matches_detect(&src, &d2));
}

#[test]
fn integer_rules_compare_with_width_and_endianness() {
    let src = src_of(&[0x01, 0x02, 0x03, 0x04, 0xff, 0xff, 0xff, 0xff]);
    let le = leaf(LeafType::Le32, 0, Some(Value::Int(0x04030201)));
    let be = leaf(LeafType::Be32, 0, Some(Value::Int(0x01020304)));
    assert!(matches_detect(&src, &Detect::All { all: vec![le] }));
    assert!(matches_detect(&src, &Detect::All { all: vec![be] }));
    // A 64-bit read reinterprets the top bit as a sign.
    let raw: u64 = 0xffffffff04030201;
    let neg = leaf(LeafType::Le64, 0, Some(Value::Int(raw as i64)));
    assert!(matches_detect(&src, &Detect::All { all: vec![neg] }));
}

#[test]
fn negative_offset_resolves_from_end() {
    let src = src_of(b"0123456789");
    let tail = leaf(LeafType::Str, -2, Some(str_value(b"89")));
    assert!(matches_detect(&src, &Detect::All { all: vec![tail] }));
}

#[test]
fn short_read_is_a_mismatch_not_an_error() {
    let src = src_of(b"ab");
    let r = leaf(LeafType::Le32, 0, Some(Value::Int(0)));
    assert!(!matches_detect(&src, &Detect::All { all: vec![r] }));
}

#[test]
fn operators_and_masks() {
    let src = src_of(&[0xf3, 0x00]);
    let ge = LeafRule {
        offset: 0,
        typ: LeafType::Byte,
        value: Some(Value::Int(0xf0)),
        op: Some(CmpOp::Ge),
        mask: None,
        then_rules: None,
        length: None,
        algorithm: None,
        key: None,
    };
    assert!(matches_detect(&src, &Detect::All { all: vec![Rule::Leaf(ge)] }));
    let masked = LeafRule {
        offset: 0,
        typ: LeafType::Byte,
        value: Some(Value::Int(0xf0)),
        op: Some(CmpOp::Eq),
        mask: Some(0xf0),
        then_rules: None,
        length: None,
        algorithm: None,
        key: None,
    };
    assert!(matches_detect(&src, &Detect::All { all: vec![Rule::Leaf(masked)] }));
    let ne = LeafRule {
        offset: 0,
        typ: LeafType::Byte,
        value: Some(Value::Int(0xf3)),
        op: Some(CmpOp::Ne),
        mask: None,
        then_rules: None,
        length: None,
        algorithm: None,
        key: None,
    };
    assert!(!matches_detect(&src, &Detect::All { all: vec![Rule::Leaf(ne)] }));
}

#[test]
fn any_and_all_combine() {
    let src = src_of(b"XYZ");
    let no = leaf(LeafType::Str, 0, Some(str_value(b"AAA")));
    let yes = leaf(LeafType::Str, 0, Some(str_value(b"XYZ")));
    let d = Detect::Any { any: vec![no, yes] };
    assert!(matches_detect(&src, &d));
    let no2 = leaf(LeafType::Str, 0, Some(str_value(b"AAA")));
    let yes2 = leaf(LeafType::Str, 0, Some(str_value(b"XYZ")));
    let d2 = Detect::All { all: vec![no2, yes2] };
    assert!(!matches_detect(&src, &d2));
}

#[test]
fn checksum_rule_validates_window() {
    let mut data = vec![0u8; 512];
    let stored: u32 = 0x50617274;
    data[508..512].copy_from_slice(&stored.to_le_bytes());
    let src = src_of(&data);
    let rule = Rule::Leaf(LeafRule {
        offset: 0,
        typ: LeafType::Checksum,
        value: None,
        op: None,
        mask: None,
        then_rules: None,
        length: Some(512),
        algorithm: Some(ChecksumAlg::Ics),
        key: None,
    });
    assert!(matches_detect(&src, &Detect::All { all: vec![rule] }));
    let bad = Rule::Leaf(LeafRule {
        offset: 0,
        typ: LeafType::Checksum,
        value: None,
        op: None,
        mask: None,
        then_rules: None,
        length: Some(512),
        algorithm: Some(ChecksumAlg::Adfs),
        key: None,
    });
    assert!(!matches_detect(&src, &Detect::All { all: vec![bad] }));
}

#[test]
fn xor_rule_decrypts_window_for_nested_rules() {
    let plain = b"SECRETHEADER";
    let key = b"key";
    let encrypted: Vec<u8> = plain
        .iter()
        .enumerate()
        .map(|(i, &b)| b ^ key[i % key.len()])
        .collect();
    let src = src_of(&encrypted);
    let inner = leaf(LeafType::Str, 0, Some(str_value(b"SECRET")));
    let rule = Rule::Leaf(LeafRule {
        offset: 0,
        typ: LeafType::Xor,
        value: None,
        op: None,
        mask: None,
        then_rules: Some(vec![inner]),
        length: Some(12),
        algorithm: None,
        key: Some(String::from("key")),
    });
    assert!(matches_detect(&src, &Detect::All { all: vec![rule] }));
    // The encrypted bytes themselves must not match without the key.
    let direct = leaf(LeafType::Str, 0, Some(str_value(b"SECRET")));
    assert!(!matches_detect(&src, &Detect::All { all: vec![direct] }));
}

#[test]
fn ascii_rule_matches_pattern_over_window() {
    let src = src_of(b"HELLO-WORLD-PAD-");
    let rule = Rule::Leaf(LeafRule {
        offset: 0,
        typ: LeafType::Ascii,
        value: Some(Value::Text(String::from("^HELLO"))),
        op: None,
        mask: None,
        then_rules: None,
        length: Some(16),
        algorithm: None,
        key: None,
    });
    assert!(matches_detect(&src, &Detect::All { all: vec![rule] }));
    let miss = Rule::Leaf(LeafRule {
        offset: 0,
        typ: LeafType::Ascii,
        value: Some(Value::Text(String::from("^GOODBYE"))),
        op: None,
        mask: None,
        then_rules: None,
        length: Some(16),
        algorithm: None,
        key: None,
    });
    assert!(!matches_detect(&src, &Detect::All { all: vec![miss] }));
    // A non-ASCII window never matches.
    let bin = src_of(&[0x80u8; 16]);
    let any = Rule::Leaf(LeafRule {
        offset: 0,
        typ: LeafType::Ascii,
        value: Some(Value::Text(String::from("."))),
        op: None,
        mask: None,
        then_rules: None,
        length: Some(16),
        algorithm: None,
        key: None,
    });
    assert!(!matches_detect(&bin, &Detect::All { all: vec![any] }));
}

#[test]
fn leaf_without_value_is_a_probe() {
    let src = src_of(b"anything");
    let probe = leaf(LeafType::Byte, 0, None);
    assert!(matches_detect(&src, &Detect::All { all: vec![probe] }));
}
