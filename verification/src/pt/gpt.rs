//! GUID partition table container.
//!
//! A GPT is a flat array of partition entries, located by the header at
//! LBA 1; no chain following is involved. Each used entry becomes one child
//! slicing the parent at the entry's first LBA.

use vstd::prelude::*;

use crate::container::{clamped_len, is_slice_child, slice_children_match, Child, ChildOrigin};
use crate::reader::{le32_of, le64_of, read_le32, read_le64, Source, SliceReader};

use std::rc::Rc;

verus! {

/// The GPT header signature, at byte 512.
pub open spec fn efi_signature() -> Seq<u8> {
    seq![0x45u8, 0x46u8, 0x49u8, 0x20u8, 0x50u8, 0x41u8, 0x52u8, 0x54u8]
}

/// Whether content `c` carries a usable GPT header: the signature at LBA 1,
/// a readable header, an entry size of at least 128, no more than 256
/// entries, and an entry array whose byte offset fits.
pub open spec fn gpt_ok(c: Seq<u8>) -> bool {
    &&& c.len() >= 600
    &&& c.subrange(512, 520) == efi_signature()
    &&& 128 <= le32_of(c, 596)
    &&& le32_of(c, 592) <= 256
    &&& le64_of(c, 584) * 512 <= u64::MAX
}

/// The slice a partition entry describes, if the entry is usable: readable,
/// a nonzero type GUID, ordered LBAs, and byte offsets that fit. The length
/// is clamped as the slice reader clamps it.
pub open spec fn gpt_entry(c: Seq<u8>, i: int) -> Option<(u64, u64)> {
    let eo = le64_of(c, 584) * 512 + i * le32_of(c, 596);
    if eo + 48 <= c.len() && (exists|j: int| 0 <= j < 16 && #[trigger] c[eo + j] != 0) {
        let first = le64_of(c, eo + 32);
        let last = le64_of(c, eo + 40);
        if first <= last && first * 512 <= u64::MAX && (last - first + 1) * 512 <= u64::MAX {
            let start = (first * 512) as u64;
            let raw = ((last - first + 1) * 512) as u64;
            Some((start, clamped_len(start, raw)))
        } else {
            None
        }
    } else {
        None
    }
}

/// The partition slices of the first `n` entries, each tagged with its
/// entry ordinal.
pub open spec fn gpt_children_upto(c: Seq<u8>, n: int) -> Seq<(u32, u64, u64)>
    decreases n,
{
    if n <= 0 {
        Seq::empty()
    } else {
        let rest = gpt_children_upto(c, n - 1);
        match gpt_entry(c, n - 1) {
            Some(sl) => rest.push(((n - 1) as u32, sl.0, sl.1)),
            None => rest,
        }
    }
}

/// GPT partition table container.
pub struct GptContainer;

impl GptContainer {
    /// One slice child per used partition entry, in entry order; `None`
    /// when the header is unusable.
    pub fn children(&self, reader: Rc<Source>) -> (r: Option<Vec<Child>>)
        ensures
            reader.plain() ==> match r {
                Some(cs) => gpt_ok(reader.content()) && slice_children_match(
                    cs@,
                    *reader,
                    gpt_children_upto(reader.content(), le32_of(reader.content(), 592)),
                ),
                None => !gpt_ok(reader.content()),
            },
    {
        let src = &*reader;
        let ghost c = src.content();
        let sig = src.read_at(512, 8);
        if sig.len() != 8 {
            proof {
                if src.plain() {
                    assert(c.len() < 520);
                    assert(!gpt_ok(c));
                }
            }
            return None;
        }
        if !(sig[0] == 0x45 && sig[1] == 0x46 && sig[2] == 0x49 && sig[3] == 0x20 && sig[4]
            == 0x50 && sig[5] == 0x41 && sig[6] == 0x52 && sig[7] == 0x54) {
            proof {
                if src.plain() {
                    assert(c.subrange(512, 520) != efi_signature());
                }
            }
            return None;
        }
        proof {
            if src.plain() {
                assert(c.subrange(512, 520) =~= efi_signature());
            }
        }
        let entries_lba = match read_le64(src, 584) {
            Some(v) => v,
            None => {
                return None;
            },
        };
        let num_entries = match read_le32(src, 592) {
            Some(v) => v,
            None => {
                return None;
            },
        };
        let entry_size = match read_le32(src, 596) {
            Some(v) => v,
            None => {
                return None;
            },
        };
        if entry_size < 128 || num_entries > 256 {
            return None;
        }
        let entries_offset = match entries_lba.checked_mul(512) {
            Some(v) => v,
            None => {
                return None;
            },
        };
        let mut children: Vec<Child> = Vec::new();
        let mut i: u32 = 0;
        while i < num_entries
            invariant
                i <= num_entries,
                num_entries <= 256,
                entry_size >= 128,
                src.plain() ==> {
                    &&& c == src.content()
                    &&& gpt_ok(c)
                    &&& entries_offset == le64_of(c, 584) * 512
                    &&& entry_size == le32_of(c, 596)
                    &&& num_entries == le32_of(c, 592)
                    &&& slice_children_match(children@, *reader, gpt_children_upto(c, i as int))
                },
            decreases num_entries - i,
        {
            proof {
                assert((i as u64) * (entry_size as u64) <= 256u64 * 0xffff_ffffu64)
                    by (nonlinear_arith)
                    requires
                        i <= 256,
                        entry_size <= 0xffff_ffffu32,
                ;
            }
            let step = (i as u64) * (entry_size as u64);
            let eo = match entries_offset.checked_add(step) {
                Some(v) => v,
                None => {
                    proof {
                        if src.plain() {
                            assert(gpt_entry(c, i as int) is None);
                            assert(gpt_children_upto(c, i + 1) =~= gpt_children_upto(c, i as int));
                        }
                    }
                    i = i + 1;
                    continue;
                },
            };
            let guid = src.read_at(eo, 16);
            if guid.len() != 16 {
                proof {
                    if src.plain() {
                        assert(eo + 16 > c.len());
                        assert(gpt_entry(c, i as int) is None);
                        assert(gpt_children_upto(c, i + 1) =~= gpt_children_upto(c, i as int));
                    }
                }
                i = i + 1;
                continue;
            }
            let mut all_zero = true;
            let mut j: usize = 0;
            while j < 16
                invariant
                    guid@.len() == 16,
                    j <= 16,
                    all_zero == (forall|k: int| 0 <= k < j ==> guid@[k] == 0),
                decreases 16 - j,
            {
                if guid[j] != 0 {
                    all_zero = false;
                }
                j = j + 1;
            }
            if all_zero {
                proof {
                    if src.plain() {
                        assert forall|k: int| 0 <= k < 16 implies #[trigger] c[eo + k] == 0 by {
                            assert(guid@[k] == 0);
                        }
                        assert(gpt_entry(c, i as int) is None);
                        assert(gpt_children_upto(c, i + 1) =~= gpt_children_upto(c, i as int));
                    }
                }
                i = i + 1;
                continue;
            }
            let first_ok = match eo.checked_add(32) {
                Some(v) => read_le64(src, v),
                None => None,
            };
            let last_ok = match eo.checked_add(40) {
                Some(v) => read_le64(src, v),
                None => None,
            };
            let (first, last) = match (first_ok, last_ok) {
                (Some(f), Some(l)) => (f, l),
                _ => {
                    proof {
                        if src.plain() {
                            assert(eo + 48 > c.len());
                            assert(gpt_entry(c, i as int) is None);
                            assert(gpt_children_upto(c, i + 1) =~= gpt_children_upto(c, i as int));
                        }
                    }
                    i = i + 1;
                    continue;
                },
            };
            if last < first {
                proof {
                    if src.plain() {
                        assert(gpt_entry(c, i as int) is None);
                        assert(gpt_children_upto(c, i + 1) =~= gpt_children_upto(c, i as int));
                    }
                }
                i = i + 1;
                continue;
            }
            let start_ok = first.checked_mul(512);
            let raw_ok = match last.checked_sub(first) {
                Some(d) => match d.checked_add(1) {
                    Some(d1) => d1.checked_mul(512),
                    None => None,
                },
                None => None,
            };
            let (start, raw) = match (start_ok, raw_ok) {
                (Some(s), Some(rw)) => (s, rw),
                _ => {
                    proof {
                        if src.plain() {
                            assert(gpt_entry(c, i as int) is None);
                            assert(gpt_children_upto(c, i + 1) =~= gpt_children_upto(c, i as int));
                        }
                    }
                    i = i + 1;
                    continue;
                },
            };
            let slice = SliceReader::new(crate::reader::rc_clone(&reader), start, raw);
            let child = Child {
                index: i,
                origin: ChildOrigin::Slice { offset: start },
                reader: Rc::new(Source::Slice(slice)),
            };
            children.push(child);
            proof {
                if src.plain() {
                    assert(guid@ =~= c.subrange(eo as int, eo as int + 16));
                    assert(exists|k: int| 0 <= k < 16 && #[trigger] guid@[k] != 0);
                    let k = choose|k: int| 0 <= k < 16 && #[trigger] guid@[k] != 0;
                    assert(c[eo + k] != 0);
                    assert(gpt_entry(c, i as int) == Some(
                        (start, clamped_len(start, raw)),
                    ));
                    assert(gpt_children_upto(c, i + 1) =~= gpt_children_upto(c, i as int).push(
                        (i, start, clamped_len(start, raw)),
                    ));
                    assert(is_slice_child(
                        children@[children@.len() - 1],
                        *reader,
                        i,
                        start,
                        clamped_len(start, raw),
                    ));
                }
            }
            i = i + 1;
        }
        Some(children)
    }
}

} // verus!
