//! Container formats and their children.
//!
//! A container format holds further detectable content and can enumerate it
//! as children. Transform containers decode their payload into a brand-new
//! byte stream; translate containers expose sub-regions or virtual address
//! spaces of the parent's bytes.

use vstd::prelude::*;
use vstd::string::StringSliceAdditionalSpecFns;

use crate::reader::{Source, MAX_SIZE};

use std::rc::Rc;

verus! {

/// How a child's bytes relate to its parent's bytes.
pub enum ChildOrigin {
    /// The child is the parent's bytes from `offset` on: a sub-region.
    Slice { offset: u64 },
    /// The child's bytes were newly materialized (decoded), not a region of
    /// the parent.
    Transformed,
}

/// A child found within a container.
pub struct Child {
    /// Ordinal within the parent (partition number, stream index).
    pub index: u32,
    /// Where the child's bytes come from.
    pub origin: ChildOrigin,
    /// Reader for the child's data.
    pub reader: Rc<Source>,
}

/// The container formats the tree builder can expand.
#[derive(Clone, Copy, PartialEq, Eq, Structural)]
pub enum ContainerKind {
    /// gzip-compressed stream.
    Gzip,
    /// Parallels disk image.
    Parallels,
    /// QCOW disk image.
    Qcow,
    /// QCOW2 disk image.
    Qcow2,
    /// QED disk image.
    Qed,
    /// VirtualBox VDI disk image.
    Vdi,
    /// VHD disk image.
    Vhd,
    /// VHDX disk image.
    Vhdx,
    /// VMDK disk image.
    Vmdk,
    /// Apple partition map.
    Apm,
    /// BSD disklabel.
    Disklabel,
    /// GUID partition table.
    Gpt,
    /// Master boot record partition table.
    Mbr,
    /// Amiga rigid disk block.
    Rdb,
    /// PC-98 partition table.
    Pc98,
    /// SGI volume header.
    Sgi,
    /// Sun disklabel.
    Sun,
}

/// Whether two byte slices hold the same bytes.
pub(crate) fn bytes_eq(a: &[u8], b: &[u8]) -> (r: bool)
    ensures
        r == (a@ == b@),
{
    if a.len() != b.len() {
        return false;
    }
    let n = a.len();
    let mut i: usize = 0;
    while i < n
        invariant
            n == a@.len(),
            n == b@.len(),
            i <= n,
            forall|j: int| 0 <= j < i ==> a@[j] == b@[j],
        decreases n - i,
    {
        if a[i] != b[i] {
            return false;
        }
        i = i + 1;
    }
    proof {
        assert(a@ =~= b@);
    }
    true
}

/// Whether a format name equals a literal name, by UTF-8 bytes.
pub(crate) fn name_is(name: &str, lit: &str) -> (r: bool)
    ensures
        r == (name.spec_bytes() == lit.spec_bytes()),
{
    bytes_eq(name.as_bytes(), lit.as_bytes())
}

/// The container kind a format name refers to, by its UTF-8 bytes; `None`
/// for leaf formats.
pub open spec fn container_of(s: Seq<u8>) -> Option<ContainerKind> {
    if s == "arc/gzip".spec_bytes() {
        Some(ContainerKind::Gzip)
    } else if s == "disk/parallels".spec_bytes() {
        Some(ContainerKind::Parallels)
    } else if s == "disk/qcow".spec_bytes() {
        Some(ContainerKind::Qcow)
    } else if s == "disk/qcow2".spec_bytes() {
        Some(ContainerKind::Qcow2)
    } else if s == "disk/qed".spec_bytes() {
        Some(ContainerKind::Qed)
    } else if s == "disk/vdi".spec_bytes() {
        Some(ContainerKind::Vdi)
    } else if s == "disk/vhd".spec_bytes() {
        Some(ContainerKind::Vhd)
    } else if s == "disk/vhdx".spec_bytes() {
        Some(ContainerKind::Vhdx)
    } else if s == "disk/vmdk".spec_bytes() {
        Some(ContainerKind::Vmdk)
    } else if s == "pt/apm".spec_bytes() {
        Some(ContainerKind::Apm)
    } else if s == "pt/disklabel".spec_bytes() {
        Some(ContainerKind::Disklabel)
    } else if s == "pt/gpt".spec_bytes() {
        Some(ContainerKind::Gpt)
    } else if s == "pt/mbr".spec_bytes() {
        Some(ContainerKind::Mbr)
    } else if s == "pt/rdb".spec_bytes() {
        Some(ContainerKind::Rdb)
    } else if s == "pt/pc98".spec_bytes() {
        Some(ContainerKind::Pc98)
    } else if s == "pt/sgi".spec_bytes() {
        Some(ContainerKind::Sgi)
    } else if s == "pt/sun".spec_bytes() {
        Some(ContainerKind::Sun)
    } else {
        None
    }
}

/// Get the container kind for a format, if it is a container format.
pub fn get_container(format: &str) -> (r: Option<ContainerKind>)
    ensures
        r == container_of(format.spec_bytes()),
{
    if name_is(format, "arc/gzip") {
        Some(ContainerKind::Gzip)
    } else if name_is(format, "disk/parallels") {
        Some(ContainerKind::Parallels)
    } else if name_is(format, "disk/qcow") {
        Some(ContainerKind::Qcow)
    } else if name_is(format, "disk/qcow2") {
        Some(ContainerKind::Qcow2)
    } else if name_is(format, "disk/qed") {
        Some(ContainerKind::Qed)
    } else if name_is(format, "disk/vdi") {
        Some(ContainerKind::Vdi)
    } else if name_is(format, "disk/vhd") {
        Some(ContainerKind::Vhd)
    } else if name_is(format, "disk/vhdx") {
        Some(ContainerKind::Vhdx)
    } else if name_is(format, "disk/vmdk") {
        Some(ContainerKind::Vmdk)
    } else if name_is(format, "pt/apm") {
        Some(ContainerKind::Apm)
    } else if name_is(format, "pt/disklabel") {
        Some(ContainerKind::Disklabel)
    } else if name_is(format, "pt/gpt") {
        Some(ContainerKind::Gpt)
    } else if name_is(format, "pt/mbr") {
        Some(ContainerKind::Mbr)
    } else if name_is(format, "pt/rdb") {
        Some(ContainerKind::Rdb)
    } else if name_is(format, "pt/pc98") {
        Some(ContainerKind::Pc98)
    } else if name_is(format, "pt/sgi") {
        Some(ContainerKind::Sgi)
    } else if name_is(format, "pt/sun") {
        Some(ContainerKind::Sun)
    } else {
        None
    }
}

/// Whether a format name names a transform container: one whose children
/// are newly materialized bytes rather than regions of the parent.
pub open spec fn is_transform_name(s: Seq<u8>) -> bool {
    s.len() >= 4 && s.subrange(0, 4) == "arc/".spec_bytes()
}

/// Check if a format is a transform (creates a new byte stream) rather than
/// a slice of the same bytes.
pub fn is_transform(format: &str) -> (r: bool)
    ensures
        r == is_transform_name(format.spec_bytes()),
{
    let b = format.as_bytes();
    if b.len() < 4 {
        return false;
    }
    bytes_eq(&b[0..4], "arc/".as_bytes())
}

/// Whether `ch` is the child with ordinal `index` that slices `parent` at
/// `start` for `len` bytes, and reports that region as its origin.
pub open spec fn is_slice_child(ch: Child, parent: Source, index: u32, start: u64, len: u64) -> bool {
    &&& ch.index == index
    &&& ch.origin == (ChildOrigin::Slice { offset: start })
    &&& match *ch.reader {
        Source::Slice(s) => s.spec_parent() == parent && s.spec_offset() == start
            && s.spec_length() == len,
        _ => false,
    }
}

/// Whether the children `cs` are exactly the slices of `parent` that the
/// descriptions `ds` call for, in order: each description gives an ordinal,
/// a start offset and a length.
pub open spec fn slice_children_match(cs: Seq<Child>, parent: Source, ds: Seq<(u32, u64, u64)>) -> bool {
    &&& cs.len() == ds.len()
    &&& forall|k: int|
        0 <= k < cs.len() ==> #[trigger] is_slice_child(cs[k], parent, ds[k].0, ds[k].1, ds[k].2)
}

/// Whether `ch` slices `parent` at the very offset its origin reports,
/// whatever that offset and its length are.
pub open spec fn coherent_slice_child(ch: Child, parent: Source) -> bool {
    match ch.origin {
        ChildOrigin::Slice { offset } => match *ch.reader {
            Source::Slice(s) => s.spec_parent() == parent && s.spec_offset() == offset,
            _ => false,
        },
        ChildOrigin::Transformed => false,
    }
}

/// The length a slice of `parent` keeps when created at `start` with the
/// requested `len`: clamped so the region cannot run past the largest
/// possible offset.
pub open spec fn clamped_len(start: u64, len: u64) -> u64 {
    if start + len <= u64::MAX {
        len
    } else {
        (u64::MAX - start) as u64
    }
}

/// Read the whole content of a source into memory, refusing streams larger
/// than `MAX_SIZE`.
pub fn read_all(reader: &Source) -> (r: Option<Vec<u8>>)
    ensures
        r matches Some(v) ==> v@.len() <= MAX_SIZE,
        reader.plain() ==> match r {
            Some(v) => v@ == reader.content() && reader.content().len() <= MAX_SIZE,
            None => reader.content().len() > MAX_SIZE,
        },
{
    let mut data: Vec<u8> = Vec::new();
    loop
        invariant
            data@.len() <= MAX_SIZE,
            reader.plain() ==> data@.len() <= reader.content().len() && data@
                == reader.content().subrange(0, data@.len() as int),
        decreases MAX_SIZE - data@.len(),
    {
        let offset = data.len() as u64;
        let mut chunk = reader.read_at(offset, 65536);
        if chunk.len() == 0 {
            proof {
                if reader.plain() {
                    reader.lemma_content_len();
                    assert(data@.len() == reader.content().len());
                    assert(data@ =~= reader.content());
                }
            }
            return Some(data);
        }
        data.append(&mut chunk);
        if data.len() > MAX_SIZE {
            return None;
        }
        proof {
            if reader.plain() {
                assert(data@ =~= reader.content().subrange(0, data@.len() as int));
            }
        }
    }
}

/// Whether `cs` is a single child at ordinal zero slicing its source from
/// the start: the shape every whole-disk translate container yields.
pub open spec fn single_child_shape(cs: Seq<Child>) -> bool {
    &&& cs.len() == 1
    &&& cs[0].index == 0
    &&& cs[0].origin == (ChildOrigin::Slice { offset: 0u64 })
}

/// Enumerate the children of a container format, handing each kind to its
/// container. The result is exactly what that container's own contract
/// promises of it.
pub fn children_of(kind: ContainerKind, reader: Rc<Source>) -> (r: Option<Vec<Child>>)
    ensures
        (*reader).plain() ==> {
            let pc = (*reader).content();
            match kind {
                ContainerKind::Gzip => match r {
                    Some(cs) => pc.len() <= MAX_SIZE && match crate::codecs::gzip_decoded(pc) {
                        Some(d) => crate::arc::transformed_child(cs@, d),
                        None => false,
                    },
                    None => pc.len() > MAX_SIZE || crate::codecs::gzip_decoded(pc) is None,
                },
                ContainerKind::Qcow2 => (r is Some <==> crate::disk::qcow2::qcow2_header_ok(pc)),
                ContainerKind::Vdi => match r {
                    Some(cs) => crate::disk::vdi::vdi_header_ok(pc) && single_child_shape(cs@)
                        && match *cs@[0].reader {
                        Source::Vdi(v) => crate::disk::vdi::vdi_reader_matches(v, *reader, pc),
                        _ => false,
                    },
                    None => !crate::disk::vdi::vdi_header_ok(pc),
                },
                ContainerKind::Qcow => match r {
                    Some(cs) => crate::disk::qcow::qcow1_header_ok(pc) && single_child_shape(cs@)
                        && match *cs@[0].reader {
                        Source::Qcow(q) => crate::disk::qcow::qcow1_reader_matches(
                            q,
                            *reader,
                            pc,
                        ),
                        _ => false,
                    },
                    None => !crate::disk::qcow::qcow1_header_ok(pc),
                },
                ContainerKind::Qed => match r {
                    Some(cs) => crate::disk::qed::qed_header_ok(pc) && single_child_shape(cs@)
                        && match *cs@[0].reader {
                        Source::Qed(q) => crate::disk::qed::qed_reader_matches(q, *reader, pc),
                        _ => false,
                    },
                    None => !crate::disk::qed::qed_header_ok(pc),
                },
                ContainerKind::Vhd => match r {
                    Some(cs) => crate::disk::vhd::vhd_header_ok(pc) && single_child_shape(cs@)
                        && match *cs@[0].reader {
                        Source::Vhd(v) => crate::disk::vhd::vhd_reader_matches(v, *reader, pc),
                        _ => false,
                    },
                    None => !crate::disk::vhd::vhd_header_ok(pc),
                },
                ContainerKind::Vhdx => match r {
                    Some(cs) => crate::disk::vhdx::vhdx_header_ok(pc) && single_child_shape(cs@)
                        && match *cs@[0].reader {
                        Source::Vhdx(v) => crate::disk::vhdx::vhdx_reader_matches(
                            v,
                            *reader,
                            pc,
                        ),
                        _ => false,
                    },
                    None => !crate::disk::vhdx::vhdx_header_ok(pc),
                },
                ContainerKind::Vmdk => match r {
                    Some(cs) => crate::disk::vmdk::vmdk_header_ok(pc) && single_child_shape(cs@)
                        && match *cs@[0].reader {
                        Source::Vmdk(v) => crate::disk::vmdk::vmdk_reader_matches(
                            v,
                            *reader,
                            pc,
                        ),
                        _ => false,
                    },
                    None => !crate::disk::vmdk::vmdk_header_ok(pc),
                },
                ContainerKind::Parallels => match r {
                    Some(cs) => crate::disk::parallels::parallels_header_ok(pc)
                        && single_child_shape(cs@) && match *cs@[0].reader {
                        Source::Parallels(p) => crate::disk::parallels::parallels_reader_matches(
                            p,
                            *reader,
                            pc,
                        ),
                        _ => false,
                    },
                    None => !crate::disk::parallels::parallels_header_ok(pc),
                },
                ContainerKind::Gpt => match r {
                    Some(cs) => crate::pt::gpt::gpt_ok(pc) && crate::container::slice_children_match(
                        cs@,
                        *reader,
                        crate::pt::gpt::gpt_children_upto(pc, crate::reader::le32_of(pc, 592)),
                    ),
                    None => !crate::pt::gpt::gpt_ok(pc),
                },
                ContainerKind::Mbr => (r is Some <==> crate::pt::mbr::mbr_sig_ok(pc, 0)),
                ContainerKind::Rdb => (r is Some <==> crate::pt::rdb::rdb_header_ok(pc)),
                ContainerKind::Apm => (r is Some <==> crate::pt::apm::apm_header_ok(pc)),
                ContainerKind::Sun => (r is Some <==> crate::pt::sun::sun_label_ok(pc)),
                ContainerKind::Sgi => (r is Some <==> pc.len() >= 4 && crate::reader::be32_of(
                    pc,
                    0,
                ) == crate::pt::sgi::SGI_LABEL_MAGIC),
                ContainerKind::Pc98 => (r is Some <==> pc.len() >= 512 && crate::reader::le16_of(
                    pc,
                    510,
                ) == 0xaa55),
                ContainerKind::Disklabel => (r is Some <==> crate::pt::disklabel::disklabel_ok(
                    pc,
                )),
            }
        },
        r matches Some(cs) ==> match kind {
            ContainerKind::Apm => cs@.len() <= crate::pt::apm::MAX_APM_PARTITIONS && forall|
                k: int,
            | 0 <= k < cs@.len() ==> #[trigger] coherent_slice_child(cs@[k], *reader),
            ContainerKind::Sun => cs@.len() <= 8 && forall|k: int|
                0 <= k < cs@.len() ==> #[trigger] coherent_slice_child(cs@[k], *reader),
            ContainerKind::Sgi => cs@.len() <= 16 && forall|k: int|
                0 <= k < cs@.len() ==> #[trigger] coherent_slice_child(cs@[k], *reader),
            ContainerKind::Pc98 => cs@.len() <= 16 && forall|k: int|
                0 <= k < cs@.len() ==> #[trigger] coherent_slice_child(cs@[k], *reader),
            ContainerKind::Disklabel => cs@.len()
                <= crate::pt::disklabel::MAX_DISKLABEL_PARTITIONS && forall|k: int|
                0 <= k < cs@.len() ==> #[trigger] coherent_slice_child(cs@[k], *reader),
            ContainerKind::Mbr => cs@.len() <= 4 * crate::pt::mbr::MAX_LOGICAL + 4 && forall|
                k: int,
            | 0 <= k < cs@.len() ==> #[trigger] coherent_slice_child(cs@[k], *reader),
            ContainerKind::Rdb => cs@.len() <= crate::pt::rdb::MAX_RDB_PARTITIONS && forall|
                k: int,
            | 0 <= k < cs@.len() ==> #[trigger] coherent_slice_child(cs@[k], *reader),
            _ => true,
        },
{
    match kind {
        ContainerKind::Gzip => (crate::arc::GzipContainer {}).children(reader),
        ContainerKind::Qcow2 => (crate::disk::qcow2::Qcow2Container {}).children(reader),
        ContainerKind::Vdi => (crate::disk::vdi::VdiContainer {}).children(reader),
        ContainerKind::Qcow => (crate::disk::qcow::QcowContainer {}).children(reader),
        ContainerKind::Qed => (crate::disk::qed::QedContainer {}).children(reader),
        ContainerKind::Vhd => (crate::disk::vhd::VhdContainer {}).children(reader),
        ContainerKind::Vhdx => (crate::disk::vhdx::VhdxContainer {}).children(reader),
        ContainerKind::Vmdk => (crate::disk::vmdk::VmdkContainer {}).children(reader),
        ContainerKind::Parallels => (crate::disk::parallels::ParallelsContainer {}).children(
            reader,
        ),
        ContainerKind::Gpt => (crate::pt::gpt::GptContainer {}).children(reader),
        ContainerKind::Mbr => (crate::pt::mbr::MbrContainer {}).children(reader),
        ContainerKind::Apm => (crate::pt::apm::ApmContainer {}).children(reader),
        ContainerKind::Sun => (crate::pt::sun::SunContainer {}).children(reader),
        ContainerKind::Sgi => (crate::pt::sgi::SgiContainer {}).children(reader),
        ContainerKind::Pc98 => (crate::pt::pc98::Pc98Container {}).children(reader),
        ContainerKind::Disklabel => (crate::pt::disklabel::DisklabelContainer {}).children(
            reader,
        ),
        ContainerKind::Rdb => (crate::pt::rdb::RdbContainer {}).children(reader),
    }
}

} // verus!
