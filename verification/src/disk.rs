//! Disk-image containers: virtual address spaces over a parent stream.
//!
//! A disk-image reader translates virtual offsets to physical offsets in
//! its parent through one or more levels of an indirection table loaded at
//! construction. Table entries mark a block as unallocated or zero — read
//! as zero bytes without touching the parent — or name the physical
//! location of its data. Every read is clamped so that it never crosses a
//! block boundary and never runs past the virtual size.

pub mod bochs;
pub mod cdi;
pub mod nrg;
pub mod cloop;
pub mod dmg;
pub mod parallels;
pub mod qcow;
pub mod qcow2;
pub mod qed;
pub mod vdi;
pub mod vhd;
pub mod vhdx;
pub mod vmdk;

use vstd::prelude::*;

use crate::container::{Child, ChildOrigin};
use crate::reader::Source;

use std::rc::Rc;

verus! {

/// Whether `cs` is the single child of a whole-disk translate container
/// backed by the given source value.
pub open spec fn translated_child(cs: Seq<Child>, inner: Source) -> bool {
    &&& cs.len() == 1
    &&& cs[0].index == 0
    &&& cs[0].origin == (ChildOrigin::Slice { offset: 0u64 })
    &&& *cs[0].reader == inner
}

/// Wrap a translating source as the single child at offset zero.
pub fn single_translated_child(inner: Source) -> (r: Vec<Child>)
    ensures
        translated_child(r@, inner),
{
    let child = Child { index: 0, origin: ChildOrigin::Slice { offset: 0 }, reader: Rc::new(inner) };
    let mut cs: Vec<Child> = Vec::new();
    cs.push(child);
    cs
}

} // verus!
