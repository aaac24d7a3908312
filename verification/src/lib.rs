//! Format detection for nested binary containers.
//!
//! The library recognizes the format of a byte stream by matching declarative
//! rules against positional reads, and descends recursively into container
//! formats (compressed streams, partition tables, disk-image block maps),
//! producing a labeled tree of nested formats.

pub mod arc;
pub mod checksum;
pub mod codecs;
pub mod container;
pub mod detect;
pub mod disk;
pub mod format;
pub mod pt;
pub mod reader;
