//! The rule AST that format detection interprets.
//!
//! A format is described by a `Detect` rule: a conjunction (`All`) or
//! disjunction (`Any`) of nested `Rule`s, whose leaves probe the byte stream
//! at fixed offsets.

use vstd::prelude::*;

use crate::checksum::ChecksumAlg;

verus! {

/// A value a leaf rule compares against.
pub enum Value {
    /// An integer, compared under the leaf's width and endianness.
    Int(i64),
    /// A byte string, matched exactly.
    Bytes(Vec<i64>),
    /// A textual pattern over a declared-length ASCII window.
    Text(String),
}

/// The probe kind of a leaf rule.
#[derive(Clone, Copy, PartialEq, Eq, Structural)]
pub enum LeafType {
    /// Single byte.
    Byte,
    /// 16-bit little-endian integer.
    Le16,
    /// 16-bit big-endian integer.
    Be16,
    /// 32-bit little-endian integer.
    Le32,
    /// 32-bit big-endian integer.
    Be32,
    /// 64-bit little-endian integer.
    Le64,
    /// 64-bit big-endian integer.
    Be64,
    /// Exact byte-string match.
    Str,
    /// Regular-expression match over an ASCII window.
    Ascii,
    /// Checksum validation over a range.
    Checksum,
    /// XOR-decrypt a window, then evaluate nested rules on the result.
    Xor,
}

/// The comparison operator of a leaf rule; equality when absent.
#[derive(Clone, Copy, PartialEq, Eq, Structural)]
pub enum CmpOp {
    /// Values are equal.
    Eq,
    /// Values differ.
    Ne,
    /// Every bit of the expected value is set in the actual value.
    And,
    /// Actual and expected are bitwise identical (their XOR is zero).
    Xor,
    /// Actual is less than expected.
    Lt,
    /// Actual is greater than expected.
    Gt,
    /// Actual is at most expected.
    Le,
    /// Actual is at least expected.
    Ge,
}

/// A leaf probe: read at `offset`, interpret per `typ`, compare or recurse.
///
/// A negative `offset` is relative to the end of the stream. A leaf with no
/// `value` matches unconditionally (a pure readability probe). When
/// `then_rules` is present, all of them must also match.
pub struct LeafRule {
    /// Where to read; negative means relative to end of stream.
    pub offset: i64,
    /// How to interpret the bytes read.
    pub typ: LeafType,
    /// The expected value, if any.
    pub value: Option<Value>,
    /// How to compare actual and expected integers.
    pub op: Option<CmpOp>,
    /// AND-mask applied to the actual integer before comparing.
    pub mask: Option<u64>,
    /// Nested rules that must all hold once this leaf matched.
    pub then_rules: Option<Vec<Rule>>,
    /// Window length for checksum, xor and ascii probes.
    pub length: Option<u32>,
    /// Checksum algorithm for checksum probes.
    pub algorithm: Option<ChecksumAlg>,
    /// Repeating XOR key for xor probes.
    pub key: Option<String>,
}

/// A detection rule tree.
pub enum Rule {
    /// At least one member matches.
    Any { any: Vec<Rule> },
    /// Every member matches.
    All { all: Vec<Rule> },
    /// A leaf probe.
    Leaf(LeafRule),
}

/// The top-level rule for one named format: never a bare leaf.
pub enum Detect {
    /// Every member matches.
    All { all: Vec<Rule> },
    /// At least one member matches.
    Any { any: Vec<Rule> },
}

} // verus!
