//! The rule-matching engine.
//!
//! `rule_matches` and its companions define, over the byte content of a
//! stream, what it means for a detection rule to match; the executable
//! engine is proved to agree with that definition on every plain source.
//! Any failure to read — a window that runs past the end of the stream —
//! makes the rule not match; it is never an error.

use vstd::prelude::*;
use vstd::string::StringSliceAdditionalSpecFns;

use crate::checksum;
use crate::checksum::ChecksumAlg;
use crate::codecs;
use crate::container::{children_of, get_container, is_transform, Child, ChildOrigin};
use crate::format::{CmpOp, Detect, LeafRule, LeafType, Rule, Value};
use crate::reader::{rc_clone, BytesReader, Source};
use vstd::string::StringExecFns;

use std::rc::Rc;

verus! {

/// The absolute position a leaf offset resolves to in a stream of `len`
/// bytes: a negative offset counts back from the end, stopping at zero.
pub open spec fn resolve_in(len: int, off: i64) -> int {
    if off >= 0 {
        off as int
    } else if len + off >= 0 {
        len + off
    } else {
        0
    }
}

/// Whether a window of `n` bytes at `o` can be read whole from content of
/// length `len`; an empty window can always be read.
pub open spec fn window_ok(len: int, o: int, n: int) -> bool {
    n == 0 || (0 <= o && o + n <= len)
}

/// The window of `n` bytes at `o`, with the start clamped to the end of the
/// content; meaningful under `window_ok`.
pub open spec fn window_at(c: Seq<u8>, o: int, n: int) -> Seq<u8> {
    let lo = vstd::math::min(o, c.len() as int);
    c.subrange(lo, lo + n)
}

/// The window length of a leaf, with the given default.
pub open spec fn len_or(length: Option<u32>, default: u32) -> u32 {
    match length {
        Some(n) => n,
        None => default,
    }
}

/// The checksum algorithm of a leaf; ADFS when unnamed.
pub open spec fn alg_or(algorithm: Option<ChecksumAlg>) -> ChecksumAlg {
    match algorithm {
        Some(a) => a,
        None => ChecksumAlg::Adfs,
    }
}

/// The comparison operator of a leaf; equality when unnamed.
pub open spec fn op_or(op: Option<CmpOp>) -> CmpOp {
    match op {
        Some(o) => o,
        None => CmpOp::Eq,
    }
}

/// The UTF-8 bytes of an optional XOR key; empty when absent.
pub open spec fn key_bytes_of(key: Option<String>) -> Seq<u8> {
    match key {
        Some(k) => vstd::utf8::encode_utf8(k@),
        None => Seq::empty(),
    }
}

/// A byte-string rule value as bytes (each stored integer truncated).
pub open spec fn bytes_of_ints(s: Seq<i64>) -> Seq<u8> {
    s.map_values(|x: i64| x as u8)
}

/// Whether every byte of `w` is ASCII.
pub open spec fn all_ascii(w: Seq<u8>) -> bool {
    forall|i: int| 0 <= i < w.len() ==> w[i] < 0x80
}

/// How many bytes a fixed-width integer probe reads.
pub open spec fn width_of(t: LeafType) -> int {
    match t {
        LeafType::Byte => 1,
        LeafType::Le16 | LeafType::Be16 => 2,
        LeafType::Le32 | LeafType::Be32 => 4,
        LeafType::Le64 | LeafType::Be64 => 8,
        _ => 0,
    }
}

/// The unsigned integer encoded by window `w` under the width and
/// endianness of `t`.
pub open spec fn raw_int_of(t: LeafType, w: Seq<u8>) -> int {
    match t {
        LeafType::Byte => w[0] as int,
        LeafType::Le16 => w[0] + w[1] * 0x100,
        LeafType::Be16 => w[1] + w[0] * 0x100,
        LeafType::Le32 => w[0] + w[1] * 0x100 + w[2] * 0x10000 + w[3] * 0x1000000,
        LeafType::Be32 => w[3] + w[2] * 0x100 + w[1] * 0x10000 + w[0] * 0x1000000,
        LeafType::Le64 => w[0] + w[1] * 0x100 + w[2] * 0x10000 + w[3] * 0x1000000 + w[4]
            * 0x100000000 + w[5] * 0x10000000000 + w[6] * 0x1000000000000 + w[7]
            * 0x100000000000000,
        LeafType::Be64 => w[7] + w[6] * 0x100 + w[5] * 0x10000 + w[4] * 0x1000000 + w[3]
            * 0x100000000 + w[2] * 0x10000000000 + w[1] * 0x1000000000000 + w[0]
            * 0x100000000000000,
        _ => 0,
    }
}

/// The signed 64-bit reinterpretation of an unsigned value.
pub open spec fn to_i64(raw: int) -> int {
    if raw >= 0x8000000000000000 {
        raw - 0x10000000000000000
    } else {
        raw
    }
}

/// Whether `a` compares to `e` under `op`.
pub open spec fn compare_spec(a: i64, e: i64, op: CmpOp) -> bool {
    match op {
        CmpOp::Eq => a == e,
        CmpOp::Ne => a != e,
        CmpOp::And => (a & e) == e,
        CmpOp::Xor => (a ^ e) == 0,
        CmpOp::Lt => a < e,
        CmpOp::Gt => a > e,
        CmpOp::Le => a <= e,
        CmpOp::Ge => a >= e,
    }
}

/// The masked actual value a fixed-width probe compares: the decoded
/// integer, reinterpreted as signed, AND-combined with the mask if present.
pub open spec fn actual_of(t: LeafType, w: Seq<u8>, mask: Option<u64>) -> i64 {
    let a = to_i64(raw_int_of(t, w)) as i64;
    match mask {
        Some(m) => a & (m as i64),
        None => a,
    }
}

/// Whether the primary (non-recursive) test of a leaf holds on content `c`
/// with resolved offset `o`. Covers exact byte strings, ASCII patterns and
/// fixed-width integer comparisons; a missing or ill-typed expected value
/// never matches here.
pub open spec fn primary_matches(c: Seq<u8>, o: int, l: LeafRule) -> bool {
    match l.typ {
        LeafType::Str => match l.value {
            Some(Value::Bytes(v)) => {
                let n = v@.len() as int;
                window_ok(c.len() as int, o, n) && window_at(c, o, n) == bytes_of_ints(v@)
            },
            _ => false,
        },
        LeafType::Ascii => match (l.value, l.length) {
            (Some(Value::Text(p)), Some(n)) => window_ok(c.len() as int, o, n as int) && {
                let w = window_at(c, o, n as int);
                all_ascii(w) && codecs::regex_eval_of(p@, w) == Some(true)
            },
            _ => false,
        },
        LeafType::Byte | LeafType::Le16 | LeafType::Be16 | LeafType::Le32 | LeafType::Be32
            | LeafType::Le64 | LeafType::Be64 => match l.value {
            Some(Value::Int(e)) => {
                let n = width_of(l.typ);
                window_ok(c.len() as int, o, n) && compare_spec(
                    actual_of(l.typ, window_at(c, o, n), l.mask),
                    e,
                    op_or(l.op),
                )
            },
            _ => false,
        },
        _ => false,
    }
}

/// Whether every rule of `rs` matches content `c`.
pub open spec fn rules_all_match(c: Seq<u8>, rs: Seq<Rule>) -> bool
    decreases rs,
{
    if rs.len() == 0 {
        true
    } else {
        rule_matches(c, rs.first()) && rules_all_match(c, rs.drop_first())
    }
}

/// Whether at least one rule of `rs` matches content `c`.
pub open spec fn rules_any_match(c: Seq<u8>, rs: Seq<Rule>) -> bool
    decreases rs,
{
    if rs.len() == 0 {
        false
    } else {
        rule_matches(c, rs.first()) || rules_any_match(c, rs.drop_first())
    }
}

/// Whether the nested rules of a leaf, if any, all match content `c`.
pub open spec fn then_rules_match(c: Seq<u8>, l: LeafRule) -> bool
    decreases l, 1int,
{
    match l.then_rules {
        None => true,
        Some(rs) => rules_all_match(c, rs@),
    }
}

/// Whether a leaf rule matches content `c`.
///
/// Checksum probes validate a window; XOR probes decrypt a window and
/// evaluate their nested rules against the decrypted bytes; a leaf with no
/// expected value matches unconditionally; all remaining kinds compare the
/// window against the expected value. Nested rules, where present, must all
/// match as well.
pub open spec fn leaf_matches(c: Seq<u8>, l: LeafRule) -> bool
    decreases l, 2int,
{
    let o = resolve_in(c.len() as int, l.offset);
    match l.typ {
        LeafType::Checksum => {
            let n = len_or(l.length, 512) as int;
            window_ok(c.len() as int, o, n) && checksum::checksum_valid(
                alg_or(l.algorithm),
                window_at(c, o, n),
            )
        },
        LeafType::Xor => leaf_matches_xor(c, l, o, len_or(l.length, 256) as int),
        _ => match l.value {
            None => then_rules_match(c, l),
            Some(_) => primary_matches(c, o, l) && then_rules_match(c, l),
        },
    }
}

/// Whether a rule tree matches content `c`.
pub open spec fn rule_matches(c: Seq<u8>, r: Rule) -> bool
    decreases r,
{
    match r {
        Rule::Any { any } => rules_any_match(c, any@),
        Rule::All { all } => rules_all_match(c, all@),
        Rule::Leaf(l) => leaf_matches(c, l),
    }
}

/// Whether a top-level detection rule matches content `c`.
pub open spec fn detect_matches(c: Seq<u8>, d: Detect) -> bool {
    match d {
        Detect::All { all } => rules_all_match(c, all@),
        Detect::Any { any } => rules_any_match(c, any@),
    }
}

/// Resolve a potentially negative offset using the stream size: a negative
/// offset counts back from the end, and fails closed when the size is
/// unknown.
pub fn resolve_offset(offset: i64, size: Option<u64>) -> (r: Option<u64>)
    ensures
        offset >= 0 ==> r == Some(offset as u64),
        offset < 0 ==> match size {
            Some(s) => r == Some(resolve_in(s as int, offset) as u64),
            None => r is None,
        },
{
    if offset >= 0 {
        Some(offset as u64)
    } else {
        match size {
            Some(s) => {
                let mag: u64 = if offset == i64::MIN {
                    0x8000_0000_0000_0000u64
                } else {
                    (-offset) as u64
                };
                if s >= mag {
                    Some(s - mag)
                } else {
                    Some(0)
                }
            },
            None => None,
        }
    }
}

/// Read a window of exactly `n` bytes at `o`; `None` when the stream ends
/// before `n` bytes.
fn read_window(src: &Source, o: u64, n: usize) -> (r: Option<Vec<u8>>)
    ensures
        r matches Some(v) ==> v@.len() == n,
        src.plain() ==> {
            let c = src.content();
            match r {
                Some(v) => window_ok(c.len() as int, o as int, n as int) && v@ == window_at(
                    c,
                    o as int,
                    n as int,
                ),
                None => !window_ok(c.len() as int, o as int, n as int),
            }
        },
{
    let buf = src.read_at(o, n);
    if buf.len() == n {
        Some(buf)
    } else {
        None
    }
}

/// Compare two decoded integers under `op`.
fn compare(a: i64, e: i64, op: CmpOp) -> (r: bool)
    ensures
        r == compare_spec(a, e, op),
{
    match op {
        CmpOp::Eq => a == e,
        CmpOp::Ne => a != e,
        CmpOp::And => (a & e) == e,
        CmpOp::Xor => (a ^ e) == 0,
        CmpOp::Lt => a < e,
        CmpOp::Gt => a > e,
        CmpOp::Le => a <= e,
        CmpOp::Ge => a >= e,
    }
}

/// Decode the unsigned integer in `w` per the width and endianness of `t`,
/// reinterpreted as signed.
fn decode_int(t: LeafType, w: &Vec<u8>) -> (r: i64)
    requires
        w@.len() == width_of(t),
        width_of(t) >= 1,
    ensures
        r == to_i64(raw_int_of(t, w@)),
{
    let raw: u64 = match t {
        LeafType::Byte => w[0] as u64,
        LeafType::Le16 => w[0] as u64 + w[1] as u64 * 0x100,
        LeafType::Be16 => w[1] as u64 + w[0] as u64 * 0x100,
        LeafType::Le32 => w[0] as u64 + w[1] as u64 * 0x100 + w[2] as u64 * 0x10000 + w[3] as u64
            * 0x1000000,
        LeafType::Be32 => w[3] as u64 + w[2] as u64 * 0x100 + w[1] as u64 * 0x10000 + w[0] as u64
            * 0x1000000,
        LeafType::Le64 => w[0] as u64 + w[1] as u64 * 0x100 + w[2] as u64 * 0x10000 + w[3] as u64
            * 0x1000000 + w[4] as u64 * 0x100000000 + w[5] as u64 * 0x10000000000 + w[6] as u64
            * 0x1000000000000 + w[7] as u64 * 0x100000000000000,
        LeafType::Be64 => w[7] as u64 + w[6] as u64 * 0x100 + w[5] as u64 * 0x10000 + w[4] as u64
            * 0x1000000 + w[3] as u64 * 0x100000000 + w[2] as u64 * 0x10000000000 + w[1] as u64
            * 0x1000000000000 + w[0] as u64 * 0x100000000000000,
        _ => 0,
    };
    proof {
        assert(raw == raw_int_of(t, w@));
    }
    if raw >= 0x8000000000000000 {
        let lo = raw - 0x8000000000000000;
        i64::MIN + lo as i64
    } else {
        raw as i64
    }
}

/// Whether every byte of `w` is ASCII.
fn check_all_ascii(w: &Vec<u8>) -> (r: bool)
    ensures
        r == all_ascii(w@),
{
    let mut i: usize = 0;
    while i < w.len()
        invariant
            i <= w@.len(),
            forall|j: int| 0 <= j < i ==> w@[j] < 0x80,
        decreases w@.len() - i,
    {
        if w[i] >= 0x80 {
            return false;
        }
        i = i + 1;
    }
    true
}

/// Whether the expected byte string equals the window read at `o`.
fn match_bytes(src: &Source, o: u64, expected: &Vec<i64>) -> (r: bool)
    ensures
        src.plain() ==> {
            let c = src.content();
            let n = expected@.len() as int;
            r == (window_ok(c.len() as int, o as int, n) && window_at(c, o as int, n)
                == bytes_of_ints(expected@))
        },
{
    let n = expected.len();
    let buf = match read_window(src, o, n) {
        Some(b) => b,
        None => {
            return false;
        },
    };
    let mut i: usize = 0;
    while i < n
        invariant
            n == expected@.len(),
            buf@.len() == n,
            i <= n,
            src.plain() ==> window_ok(src.content().len() as int, o as int, n as int) && buf@
                == window_at(src.content(), o as int, n as int),
            forall|j: int| 0 <= j < i ==> buf@[j] == expected@[j] as u8,
        decreases n - i,
    {
        if buf[i] != #[verifier::truncate] (expected[i] as u8) {
            proof {
                assert(bytes_of_ints(expected@).len() == expected@.len());
                assert(bytes_of_ints(expected@)[i as int] == (expected@[i as int] as u8));
                assert(buf@ != bytes_of_ints(expected@));
            }
            return false;
        }
        i = i + 1;
    }
    proof {
        assert(buf@ =~= bytes_of_ints(expected@));
    }
    true
}

/// Validate the named checksum over a window of `n` bytes at `o`.
fn match_checksum(src: &Source, o: u64, n: usize, alg: ChecksumAlg) -> (r: bool)
    ensures
        src.plain() ==> {
            let c = src.content();
            r == (window_ok(c.len() as int, o as int, n as int) && checksum::checksum_valid(
                alg,
                window_at(c, o as int, n as int),
            ))
        },
{
    match read_window(src, o, n) {
        Some(buf) => checksum::run(alg, buf.as_slice()),
        None => false,
    }
}

/// Match an ASCII-pattern probe: the window must exist, be pure ASCII, and
/// match the pattern.
fn match_ascii_regex(src: &Source, o: u64, n: usize, pattern: &String) -> (r: bool)
    ensures
        src.plain() ==> {
            let c = src.content();
            r == (window_ok(c.len() as int, o as int, n as int) && {
                let w = window_at(c, o as int, n as int);
                all_ascii(w) && codecs::regex_eval_of(pattern@, w) == Some(true)
            })
        },
{
    let buf = match read_window(src, o, n) {
        Some(b) => b,
        None => {
            return false;
        },
    };
    if !check_all_ascii(&buf) {
        return false;
    }
    match codecs::regex_eval(pattern.as_str(), buf.as_slice()) {
        Some(m) => m,
        None => false,
    }
}

/// How the remaining rules relate to the whole list: matching every rule of
/// `rs` from index `i` on is matching every rule of the suffix.
proof fn lemma_all_match_step(c: Seq<u8>, rs: Seq<Rule>, i: int)
    requires
        0 <= i < rs.len(),
    ensures
        rules_all_match(c, rs.skip(i)) == (rule_matches(c, rs[i]) && rules_all_match(
            c,
            rs.skip(i + 1),
        )),
        rules_any_match(c, rs.skip(i)) == (rule_matches(c, rs[i]) || rules_any_match(
            c,
            rs.skip(i + 1),
        )),
{
    assert(rs.skip(i).len() != 0);
    assert(rs.skip(i).first() == rs[i]);
    assert(rs.skip(i).drop_first() =~= rs.skip(i + 1));
}

/// Evaluate every rule of `rules` against `src`.
fn matches_all(src: &Source, rules: &Vec<Rule>) -> (r: bool)
    ensures
        src.plain() ==> r == rules_all_match(src.content(), rules@),
    decreases rules@,
{
    proof {
        assert(rules@.skip(0) =~= rules@);
    }
    let mut i: usize = 0;
    while i < rules.len()
        invariant
            i <= rules@.len(),
            src.plain() ==> rules_all_match(src.content(), rules@) == rules_all_match(
                src.content(),
                rules@.skip(i as int),
            ),
        decreases rules@.len() - i,
    {
        proof {
            if src.plain() {
                lemma_all_match_step(src.content(), rules@, i as int);
            }
        }
        if !matches_rule(src, &rules[i]) {
            return false;
        }
        i = i + 1;
    }
    proof {
        assert(rules@.skip(rules@.len() as int).len() == 0);
    }
    true
}

/// Evaluate the rules of `rules` against `src` until one matches.
fn matches_any(src: &Source, rules: &Vec<Rule>) -> (r: bool)
    ensures
        src.plain() ==> r == rules_any_match(src.content(), rules@),
    decreases rules@,
{
    proof {
        assert(rules@.skip(0) =~= rules@);
    }
    let mut i: usize = 0;
    while i < rules.len()
        invariant
            i <= rules@.len(),
            src.plain() ==> rules_any_match(src.content(), rules@) == rules_any_match(
                src.content(),
                rules@.skip(i as int),
            ),
        decreases rules@.len() - i,
    {
        proof {
            if src.plain() {
                lemma_all_match_step(src.content(), rules@, i as int);
            }
        }
        if matches_rule(src, &rules[i]) {
            return true;
        }
        i = i + 1;
    }
    proof {
        assert(rules@.skip(rules@.len() as int).len() == 0);
    }
    false
}

/// Match an XOR probe: decrypt the window with the repeating key and
/// evaluate all nested rules against the decrypted bytes.
fn match_xor_then(src: &Source, o: u64, n: usize, l: &LeafRule) -> (r: bool)
    requires
        l.typ == LeafType::Xor,
    ensures
        src.plain() ==> r == leaf_matches_xor(src.content(), *l, o as int, n as int),
    decreases l, 0int,
{
    let rules = match &l.then_rules {
        Some(rs) => rs,
        None => {
            return true;
        },
    };
    let buf = match read_window(src, o, n) {
        Some(b) => b,
        None => {
            return false;
        },
    };
    let decrypted = match &l.key {
        Some(k) => checksum::xor_decrypt(buf.as_slice(), k.as_str().as_bytes()),
        None => {
            let empty: Vec<u8> = Vec::new();
            checksum::xor_decrypt(buf.as_slice(), empty.as_slice())
        },
    };
    let inner = Source::Bytes(BytesReader::new(decrypted));
    matches_all(&inner, rules)
}

/// The XOR arm of `leaf_matches`, with the offset and window length already
/// resolved.
pub open spec fn leaf_matches_xor(c: Seq<u8>, l: LeafRule, o: int, n: int) -> bool
    decreases l, 1int,
{
    match l.then_rules {
        None => true,
        Some(rs) => window_ok(c.len() as int, o, n) && rules_all_match(
            checksum::xor_decrypt_spec(window_at(c, o, n), key_bytes_of(l.key)),
            rs@,
        ),
    }
}

/// Evaluate the nested rules of a leaf, if any.
fn matches_then_rules(src: &Source, l: &LeafRule) -> (r: bool)
    ensures
        src.plain() ==> r == then_rules_match(src.content(), *l),
    decreases l, 1int,
{
    match &l.then_rules {
        None => true,
        Some(rs) => matches_all(src, rs),
    }
}

/// Evaluate one leaf probe against `src`.
fn matches_leaf(src: &Source, l: &LeafRule) -> (r: bool)
    ensures
        src.plain() ==> r == leaf_matches(src.content(), *l),
    decreases l, 2int,
{
    let size = src.size();
    let o = match resolve_offset(l.offset, size) {
        Some(o) => o,
        None => {
            return false;
        },
    };
    proof {
        if src.plain() {
            src.lemma_content_len();
            assert(o == resolve_in(src.content().len() as int, l.offset));
        }
    }
    match l.typ {
        LeafType::Checksum => {
            let n: u32 = match l.length {
                Some(n) => n,
                None => 512,
            };
            let alg = match l.algorithm {
                Some(a) => a,
                None => ChecksumAlg::Adfs,
            };
            match_checksum(src, o, n as usize, alg)
        },
        LeafType::Xor => {
            let n: u32 = match l.length {
                Some(n) => n,
                None => 256,
            };
            match_xor_then(src, o, n as usize, l)
        },
        _ => {
            let has_value = match &l.value {
                Some(_) => true,
                None => false,
            };
            if !has_value {
                return matches_then_rules(src, l);
            }
            let primary = match l.typ {
                LeafType::Str => match &l.value {
                    Some(Value::Bytes(v)) => match_bytes(src, o, v),
                    _ => false,
                },
                LeafType::Ascii => match (&l.value, &l.length) {
                    (Some(Value::Text(p)), Some(n)) => match_ascii_regex(src, o, *n as usize, p),
                    _ => false,
                },
                _ => match &l.value {
                    Some(Value::Int(e)) => {
                        let width: usize = match l.typ {
                            LeafType::Byte => 1,
                            LeafType::Le16 | LeafType::Be16 => 2,
                            LeafType::Le32 | LeafType::Be32 => 4,
                            _ => 8,
                        };
                        match read_window(src, o, width) {
                            Some(w) => {
                                let a = decode_int(l.typ, &w);
                                let a = match l.mask {
                                    Some(m) => a & (#[verifier::truncate] (m as i64)),
                                    None => a,
                                };
                                let op = match l.op {
                                    Some(op) => op,
                                    None => CmpOp::Eq,
                                };
                                compare(a, *e, op)
                            },
                            None => false,
                        }
                    },
                    _ => false,
                },
            };
            if primary {
                matches_then_rules(src, l)
            } else {
                false
            }
        },
    }
}

/// Evaluate a rule tree against `src`.
fn matches_rule(src: &Source, rule: &Rule) -> (r: bool)
    ensures
        src.plain() ==> r == rule_matches(src.content(), *rule),
    decreases rule,
{
    match rule {
        Rule::Any { any } => matches_any(src, any),
        Rule::All { all } => matches_all(src, all),
        Rule::Leaf(l) => matches_leaf(src, l),
    }
}

/// Evaluate a top-level detection rule against `src`.
pub fn matches_detect(src: &Source, d: &Detect) -> (r: bool)
    ensures
        src.plain() ==> r == detect_matches(src.content(), *d),
{
    match d {
        Detect::All { all } => matches_all(src, all),
        Detect::Any { any } => matches_any(src, any),
    }
}


/// A node in the detection tree.
pub struct DetectNode {
    /// Detected format name (for instance "arc/gzip"), or "data" for an
    /// unrecognized region.
    pub format: String,
    /// Index within the parent container (partition number, stream index).
    pub index: u32,
    /// Child nodes, for container formats.
    pub children: Vec<DetectNode>,
}

/// The format registry: an ordered list of format names and their
/// detection rules, highest priority first.
pub struct FormatDb {
    /// The (name, rule) pairs, in priority order.
    pub formats: Vec<(String, Detect)>,
}

/// One remembered detection: the stream lineage, the offset within it, and
/// the format found there. A second detection with the same key is skipped.
pub struct SeenKey {
    /// Stream lineage identifier.
    pub stream: String,
    /// Byte offset within the stream.
    pub offset: u64,
    /// Format name.
    pub format: String,
}

/// Maximum recursion depth for nested containers.
pub const MAX_DEPTH: u32 = 16;

/// Whether every node of `s` fits within `d` levels.
pub open spec fn nodes_depth_le(s: Seq<DetectNode>, d: int) -> bool
    decreases s, 0int,
{
    if s.len() == 0 {
        true
    } else {
        node_depth_le(s.last(), d) && nodes_depth_le(s.drop_last(), d)
    }
}

/// Whether node `n` fits within `d` levels.
pub open spec fn node_depth_le(n: DetectNode, d: int) -> bool
    decreases n, 1int,
{
    d >= 1 && nodes_depth_le(n.children@, d - 1)
}

/// Whether a name is one of the registry's format names.
pub open spec fn name_in_db(db: Seq<(String, Detect)>, name: Seq<char>) -> bool {
    exists|i: int| 0 <= i < db.len() && #[trigger] db[i].0@ == name
}

/// Whether every node of `s` carries a registry format name or the
/// fallback name of unrecognized data.
pub open spec fn nodes_formats_ok(s: Seq<DetectNode>, db: Seq<(String, Detect)>) -> bool
    decreases s, 0int,
{
    if s.len() == 0 {
        true
    } else {
        node_format_ok(s.last(), db) && nodes_formats_ok(s.drop_last(), db)
    }
}

/// Whether node `n` and all its descendants carry acceptable format names.
pub open spec fn node_format_ok(n: DetectNode, db: Seq<(String, Detect)>) -> bool
    decreases n, 1int,
{
    (name_in_db(db, n.format@) || n.format@ == "data"@) && nodes_formats_ok(n.children@, db)
}

/// Whether node `n` reports a registry format whose detection rule truly
/// matches content `c`.
pub open spec fn node_sound(db: Seq<(String, Detect)>, c: Seq<u8>, n: DetectNode) -> bool {
    exists|j: int|
        0 <= j < db.len() && #[trigger] db[j].0@ == n.format@ && detect_matches(c, db[j].1)
}

/// Whether some node of the forest `s`, at any depth, carries format `f`.
pub open spec fn trees_have_format(s: Seq<DetectNode>, f: Seq<char>) -> bool
    decreases s, 0int,
{
    if s.len() == 0 {
        false
    } else {
        tree_has_format(s.last(), f) || trees_have_format(s.drop_last(), f)
    }
}

/// Whether node `n` or one of its descendants carries format `f`.
pub open spec fn tree_has_format(n: DetectNode, f: Seq<char>) -> bool
    decreases n, 1int,
{
    n.format@ == f || trees_have_format(n.children@, f)
}

/// A format found in a forest is still found after a node is appended, and
/// a format of the new node is found too.
proof fn lemma_trees_format_push(s: Seq<DetectNode>, n: DetectNode, f: Seq<char>)
    requires
        trees_have_format(s, f) || tree_has_format(n, f),
    ensures
        trees_have_format(s.push(n), f),
{
    assert(s.push(n).last() == n);
    assert(s.push(n).drop_last() =~= s);
}

/// A format found in either forest is found in their concatenation.
proof fn lemma_trees_format_concat(a: Seq<DetectNode>, b: Seq<DetectNode>, f: Seq<char>)
    requires
        trees_have_format(a, f) || trees_have_format(b, f),
    ensures
        trees_have_format(a + b, f),
    decreases b.len(),
{
    if b.len() == 0 {
        assert(a + b =~= a);
    } else {
        assert((a + b).last() == b.last());
        assert((a + b).drop_last() =~= a + b.drop_last());
        if trees_have_format(a, f) || trees_have_format(b.drop_last(), f) {
            lemma_trees_format_concat(a, b.drop_last(), f);
        }
    }
}

/// Whether no format name appears twice in a list of sibling nodes.
pub open spec fn formats_distinct(s: Seq<DetectNode>) -> bool {
    forall|i: int, j: int| 0 <= i < j < s.len() ==> (#[trigger] s[i]).format@ != (#[trigger] s[j]).format@
}

/// Whether the remembered set holds this key.
pub open spec fn seen_has(s: Seq<SeenKey>, stream: Seq<char>, offset: u64, format: Seq<char>) -> bool {
    exists|i: int|
        0 <= i < s.len() && (#[trigger] s[i]).stream@ == stream && s[i].offset == offset
            && s[i].format@ == format
}

/// Check whether a detection key was already recorded.
fn seen_contains(seen: &Vec<SeenKey>, stream: &String, offset: u64, format: &String) -> (r: bool)
    ensures
        r == seen_has(seen@, stream@, offset, format@),
{
    let mut i: usize = 0;
    while i < seen.len()
        invariant
            i <= seen@.len(),
            forall|j: int|
                0 <= j < i ==> !((#[trigger] seen@[j]).stream@ == stream@ && seen@[j].offset
                    == offset && seen@[j].format@ == format@),
        decreases seen@.len() - i,
    {
        let k = &seen[i];
        if k.offset == offset && k.stream == *stream && k.format == *format {
            return true;
        }
        i = i + 1;
    }
    false
}

/// A key found in a remembered set is still found after the set has only
/// grown.
proof fn lemma_seen_mono(
    s1: Seq<SeenKey>,
    s2: Seq<SeenKey>,
    stream: Seq<char>,
    offset: u64,
    format: Seq<char>,
)
    requires
        seen_has(s1, stream, offset, format),
        s1.len() <= s2.len(),
        forall|k: int| 0 <= k < s1.len() ==> s2[k] == s1[k],
    ensures
        seen_has(s2, stream, offset, format),
{
    let i = choose|i: int|
        0 <= i < s1.len() && (#[trigger] s1[i]).stream@ == stream && s1[i].offset == offset
            && s1[i].format@ == format;
    assert(s2[i] == s1[i]);
}

/// Appending a node keeps the depth bound when the node fits it.
proof fn lemma_nodes_depth_push(s: Seq<DetectNode>, n: DetectNode, d: int)
    requires
        nodes_depth_le(s, d),
        node_depth_le(n, d),
    ensures
        nodes_depth_le(s.push(n), d),
{
    assert(s.push(n).last() == n);
    assert(s.push(n).drop_last() =~= s);
}

/// Appending a node keeps the format-name property when the node has it.
proof fn lemma_nodes_formats_push(s: Seq<DetectNode>, n: DetectNode, db: Seq<(String, Detect)>)
    requires
        nodes_formats_ok(s, db),
        node_format_ok(n, db),
    ensures
        nodes_formats_ok(s.push(n), db),
{
    assert(s.push(n).last() == n);
    assert(s.push(n).drop_last() =~= s);
}

/// Detect the format tree of a stream.
///
/// Every reported node carries either a registry format name or the
/// fallback name of unrecognized data; the tree is no deeper than the
/// recursion cap; on a plain source every root node names a format whose
/// detection rule truly matches the stream's content, and every registry
/// format whose rule matches the content labels some node of the tree.
pub fn detect_tree(db: &FormatDb, reader: Rc<Source>) -> (r: Vec<DetectNode>)
    ensures
        nodes_depth_le(r@, MAX_DEPTH + 1),
        nodes_formats_ok(r@, db.formats@),
        formats_distinct(r@),
        (*reader).plain() ==> forall|i: int|
            0 <= i < r@.len() ==> node_sound(db.formats@, (*reader).content(), #[trigger] r@[i]),
        (*reader).plain() ==> forall|j: int|
            0 <= j < db.formats@.len() && detect_matches(
                (*reader).content(),
                (#[trigger] db.formats@[j]).1,
            ) ==> trees_have_format(r@, db.formats@[j].0@),
{
    let mut seen: Vec<SeenKey> = Vec::new();
    let stream = String::new();
    detect_tree_recursive(db, reader, 0, 0, &stream, 0, &mut seen)
}

/// Detect formats at one node of the tree, recursing into the children of
/// every matching container format.
fn detect_tree_recursive(
    db: &FormatDb,
    reader: Rc<Source>,
    index: u32,
    depth: u32,
    stream: &String,
    offset: u64,
    seen: &mut Vec<SeenKey>,
) -> (r: Vec<DetectNode>)
    requires
        depth <= MAX_DEPTH,
    ensures
        nodes_depth_le(r@, MAX_DEPTH - depth + 1),
        nodes_formats_ok(r@, db.formats@),
        formats_distinct(r@),
        old(seen)@.len() <= final(seen)@.len(),
        forall|k: int| 0 <= k < old(seen)@.len() ==> final(seen)@[k] == old(seen)@[k],
        (*reader).plain() ==> forall|i: int|
            0 <= i < r@.len() ==> node_sound(db.formats@, (*reader).content(), #[trigger] r@[i]),
        forall|k: int|
            old(seen)@.len() <= k < final(seen)@.len() ==> trees_have_format(
                r@,
                (#[trigger] final(seen)@[k]).format@,
            ),
        depth < MAX_DEPTH && (*reader).plain() ==> forall|j: int|
            0 <= j < db.formats@.len() && detect_matches(
                (*reader).content(),
                (#[trigger] db.formats@[j]).1,
            ) ==> seen_has(old(seen)@, stream@, offset, db.formats@[j].0@) || trees_have_format(
                r@,
                db.formats@[j].0@,
            ),
    decreases MAX_DEPTH - depth, 1int,
{
    let mut results: Vec<DetectNode> = Vec::new();
    if depth >= MAX_DEPTH {
        return results;
    }
    let mut fi: usize = 0;
    while fi < db.formats.len()
        invariant
            depth < MAX_DEPTH,
            fi <= db.formats@.len(),
            nodes_depth_le(results@, MAX_DEPTH - depth + 1),
            nodes_formats_ok(results@, db.formats@),
            formats_distinct(results@),
            old(seen)@.len() <= seen@.len(),
            forall|k: int| 0 <= k < old(seen)@.len() ==> seen@[k] == old(seen)@[k],
            forall|i: int|
                0 <= i < results@.len() ==> seen_has(
                    seen@,
                    stream@,
                    offset,
                    (#[trigger] results@[i]).format@,
                ),
            (*reader).plain() ==> forall|i: int|
                0 <= i < results@.len() ==> node_sound(
                    db.formats@,
                    (*reader).content(),
                    #[trigger] results@[i],
                ),
            forall|k: int|
                old(seen)@.len() <= k < seen@.len() ==> trees_have_format(
                    results@,
                    (#[trigger] seen@[k]).format@,
                ),
            (*reader).plain() ==> forall|j: int|
                0 <= j < fi && detect_matches(
                    (*reader).content(),
                    (#[trigger] db.formats@[j]).1,
                ) ==> seen_has(old(seen)@, stream@, offset, db.formats@[j].0@)
                    || trees_have_format(results@, db.formats@[j].0@),
        decreases db.formats@.len() - fi,
    {
        let format = &db.formats[fi].0;
        if !matches_detect(&*reader, &db.formats[fi].1) {
            fi = fi + 1;
            continue;
        }
        if seen_contains(seen, stream, offset, format) {
            proof {
                let i = choose|i: int|
                    0 <= i < seen@.len() && (#[trigger] seen@[i]).stream@ == stream@
                        && seen@[i].offset == offset && seen@[i].format@ == format@;
                if i < old(seen)@.len() {
                    assert(seen_has(old(seen)@, stream@, offset, format@));
                }
            }
            fi = fi + 1;
            continue;
        }
        let ghost seen_at_check = seen@;
        seen.push(SeenKey { stream: stream.clone(), offset, format: format.clone() });
        let ghost seen_after_insert = seen@;
        proof {
            let last = seen@.len() - 1;
            assert(seen@[last].stream@ == stream@);
            assert(seen@[last].offset == offset);
            assert(seen@[last].format@ == format@);
            assert(seen_has(seen@, stream@, offset, format@));
        }
        let children = match get_container(format.as_str()) {
            Some(kind) => match children_of(kind, rc_clone(&reader)) {
                Some(kids) => {
                    let child_stream = if is_transform(format.as_str()) {
                        let mut cs = stream.clone();
                        cs.append("/");
                        cs.append(format.as_str());
                        cs
                    } else {
                        stream.clone()
                    };
                    detect_children(db, kids, depth, &child_stream, seen)
                },
                None => Vec::new(),
            },
            None => Vec::new(),
        };
        let node = DetectNode { format: format.clone(), index, children };
        proof {
            assert(node_depth_le(node, MAX_DEPTH - depth + 1));
            assert(db.formats@[fi as int].0@ == node.format@);
            assert(node_format_ok(node, db.formats@));
            lemma_nodes_depth_push(results@, node, MAX_DEPTH - depth + 1);
            lemma_nodes_formats_push(results@, node, db.formats@);
            if (*reader).plain() {
                assert(node_sound(db.formats@, (*reader).content(), node));
            }
            // The new node's format was absent from the remembered set
            // when it was checked, while every earlier sibling's format
            // was already present: the names must all differ.
            assert forall|i: int| 0 <= i < results@.len() implies (#[trigger] results@[i]).format@
                != node.format@ by {
                assert(seen_has(seen_at_check, stream@, offset, results@[i].format@));
            }
            // Every sibling's format stays in the set as it grows.
            assert(seen_has(seen_after_insert, stream@, offset, node.format@));
            assert forall|i: int|
                0 <= i < results@.len() + 1 implies seen_has(
                seen@,
                stream@,
                offset,
                (#[trigger] results@.push(node)[i]).format@,
            ) by {
                if i < results@.len() {
                    assert(results@.push(node)[i] == results@[i]);
                    lemma_seen_mono(seen_at_check, seen@, stream@, offset, results@[i].format@);
                } else {
                    assert(results@.push(node)[i] == node);
                    lemma_seen_mono(seen_after_insert, seen@, stream@, offset, node.format@);
                }
            }
            // Every key recorded so far names a format that labels a node
            // of the forest once this node joins it: keys of earlier
            // iterations label earlier results, the key just inserted
            // labels this node, and keys recorded while its children were
            // scanned label nodes inside them.
            assert forall|k: int|
                old(seen)@.len() <= k < seen@.len() implies trees_have_format(
                results@.push(node),
                (#[trigger] seen@[k]).format@,
            ) by {
                if k < seen_at_check.len() {
                    assert(seen@[k] == seen_at_check[k]);
                    lemma_trees_format_push(results@, node, seen@[k].format@);
                } else if k == seen_at_check.len() {
                    assert(seen@[k] == seen_after_insert[k]);
                    assert(tree_has_format(node, seen@[k].format@));
                    lemma_trees_format_push(results@, node, seen@[k].format@);
                } else {
                    assert(trees_have_format(node.children@, seen@[k].format@));
                    assert(tree_has_format(node, seen@[k].format@));
                    lemma_trees_format_push(results@, node, seen@[k].format@);
                }
            }
            if (*reader).plain() {
                assert forall|j: int|
                    0 <= j <= fi && detect_matches(
                        (*reader).content(),
                        (#[trigger] db.formats@[j]).1,
                    ) implies seen_has(old(seen)@, stream@, offset, db.formats@[j].0@)
                    || trees_have_format(results@.push(node), db.formats@[j].0@) by {
                    if j < fi {
                        if trees_have_format(results@, db.formats@[j].0@) {
                            lemma_trees_format_push(results@, node, db.formats@[j].0@);
                        }
                    } else {
                        assert(tree_has_format(node, node.format@));
                        lemma_trees_format_push(results@, node, node.format@);
                    }
                }
            }
        }
        results.push(node);
        fi = fi + 1;
    }
    results
}

/// Apply detection to each child of a container, synthesizing a fallback
/// node for any child in which nothing is recognized: every byte region is
/// accounted for in the tree.
fn detect_children(
    db: &FormatDb,
    kids: Vec<Child>,
    depth: u32,
    child_stream: &String,
    seen: &mut Vec<SeenKey>,
) -> (r: Vec<DetectNode>)
    requires
        depth < MAX_DEPTH,
    ensures
        nodes_depth_le(r@, MAX_DEPTH - depth),
        nodes_formats_ok(r@, db.formats@),
        old(seen)@.len() <= final(seen)@.len(),
        forall|k: int| 0 <= k < old(seen)@.len() ==> final(seen)@[k] == old(seen)@[k],
        forall|k: int|
            old(seen)@.len() <= k < final(seen)@.len() ==> trees_have_format(
                r@,
                (#[trigger] final(seen)@[k]).format@,
            ),
    decreases MAX_DEPTH - depth, 0int,
{
    let mut out: Vec<DetectNode> = Vec::new();
    let mut ki: usize = 0;
    while ki < kids.len()
        invariant
            depth < MAX_DEPTH,
            ki <= kids@.len(),
            nodes_depth_le(out@, MAX_DEPTH - depth),
            nodes_formats_ok(out@, db.formats@),
            old(seen)@.len() <= seen@.len(),
            forall|k: int| 0 <= k < old(seen)@.len() ==> seen@[k] == old(seen)@[k],
            forall|k: int|
                old(seen)@.len() <= k < seen@.len() ==> trees_have_format(
                    out@,
                    (#[trigger] seen@[k]).format@,
                ),
        decreases kids@.len() - ki,
    {
        let child = &kids[ki];
        let child_offset = match child.origin {
            ChildOrigin::Slice { offset } => offset,
            ChildOrigin::Transformed => 0,
        };
        let ghost seen_before_child = seen@;
        let detected = detect_tree_recursive(
            db,
            rc_clone(&child.reader),
            child.index,
            depth + 1,
            child_stream,
            child_offset,
            seen,
        );
        if detected.len() == 0 {
            let node = DetectNode {
                format: <String as StringExecFns>::from_str("data"),
                index: child.index,
                children: Vec::new(),
            };
            proof {
                assert(node_depth_le(node, MAX_DEPTH - depth));
                assert(node_format_ok(node, db.formats@));
                lemma_nodes_depth_push(out@, node, MAX_DEPTH - depth);
                lemma_nodes_formats_push(out@, node, db.formats@);
                // An empty detection added no keys, so every recorded key
                // still labels a node of the grown forest.
                assert forall|k: int|
                    old(seen)@.len() <= k < seen@.len() implies trees_have_format(
                    out@.push(node),
                    (#[trigger] seen@[k]).format@,
                ) by {
                    if k < seen_before_child.len() {
                        assert(seen@[k] == seen_before_child[k]);
                        lemma_trees_format_push(out@, node, seen@[k].format@);
                    } else {
                        assert(trees_have_format(detected@, seen@[k].format@));
                    }
                }
            }
            out.push(node);
        } else {
            let mut detected = detected;
            proof {
                lemma_nodes_depth_mono(detected@, MAX_DEPTH - depth - 1 + 1, MAX_DEPTH - depth);
                lemma_nodes_depth_concat(out@, detected@, MAX_DEPTH - depth);
                lemma_nodes_formats_concat(out@, detected@, db.formats@);
                assert forall|k: int|
                    old(seen)@.len() <= k < seen@.len() implies trees_have_format(
                    out@ + detected@,
                    (#[trigger] seen@[k]).format@,
                ) by {
                    if k < seen_before_child.len() {
                        assert(seen@[k] == seen_before_child[k]);
                    }
                    lemma_trees_format_concat(out@, detected@, seen@[k].format@);
                }
            }
            out.append(&mut detected);
        }
        ki = ki + 1;
    }
    out
}

/// A list within a depth bound is within any larger bound.
proof fn lemma_nodes_depth_mono(s: Seq<DetectNode>, d1: int, d2: int)
    requires
        nodes_depth_le(s, d1),
        d1 <= d2,
    ensures
        nodes_depth_le(s, d2),
    decreases s, 1int,
{
    if s.len() != 0 {
        lemma_node_depth_mono(s.last(), d1, d2);
        lemma_nodes_depth_mono(s.drop_last(), d1, d2);
    }
}

/// A node within a depth bound is within any larger bound.
proof fn lemma_node_depth_mono(n: DetectNode, d1: int, d2: int)
    requires
        node_depth_le(n, d1),
        d1 <= d2,
    ensures
        node_depth_le(n, d2),
    decreases n, 2int,
{
    lemma_nodes_depth_mono(n.children@, d1 - 1, d2 - 1);
}

/// Concatenating two lists keeps the depth bound both satisfy.
proof fn lemma_nodes_depth_concat(a: Seq<DetectNode>, b: Seq<DetectNode>, d: int)
    requires
        nodes_depth_le(a, d),
        nodes_depth_le(b, d),
    ensures
        nodes_depth_le(a + b, d),
    decreases b.len(),
{
    if b.len() == 0 {
        assert(a + b =~= a);
    } else {
        assert((a + b).last() == b.last());
        assert((a + b).drop_last() =~= a + b.drop_last());
        lemma_nodes_depth_concat(a, b.drop_last(), d);
    }
}

/// Concatenating two lists keeps the format-name property both satisfy.
proof fn lemma_nodes_formats_concat(
    a: Seq<DetectNode>,
    b: Seq<DetectNode>,
    db: Seq<(String, Detect)>,
)
    requires
        nodes_formats_ok(a, db),
        nodes_formats_ok(b, db),
    ensures
        nodes_formats_ok(a + b, db),
    decreases b.len(),
{
    if b.len() == 0 {
        assert(a + b =~= a);
    } else {
        assert((a + b).last() == b.last());
        assert((a + b).drop_last() =~= a + b.drop_last());
        lemma_nodes_formats_concat(a, b.drop_last(), db);
    }
}

} // verus!
