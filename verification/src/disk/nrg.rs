//! Nero NRG image container.
//!
//! A trailer names the chunk stream; DAO and ETN chunks list tracks, each
//! becoming one slice child. Unknown chunks are skipped; the walk is
//! capped so a hostile chunk stream cannot run away.

use vstd::prelude::*;

use crate::container::{coherent_slice_child, Child};
use crate::pt::push_slice_child;
use crate::reader::{read_be32, read_be64, read_byte, Source};

use std::rc::Rc;

verus! {

/// Most chunks walked in the stream.
pub const MAX_NRG_CHUNKS: u32 = 4096;

/// Most tracks collected over all chunks.
pub const MAX_NRG_TRACKS: u32 = 1024;

/// How a track's sectors are encoded.
#[derive(Clone, Copy, PartialEq, Eq, Structural)]
pub enum NrgTrackMode {
    /// Mode 1 data.
    Mode1,
    /// Mode 2 data.
    Mode2,
    /// Mode 2 XA form 1 data.
    Mode2Xa1,
    /// Raw mode 2 sectors.
    Mode2Raw,
    /// Audio sectors.
    Audio,
    /// Raw mode 1 sectors.
    Mode1Raw,
    /// Raw mode 2 XA form 1 sectors.
    Mode2Xa1Raw,
    /// Raw mode 2 XA form 2 sectors.
    Mode2Xa2Raw,
}

impl NrgTrackMode {
    /// The mode a header code names, if any.
    pub fn from_code(code: u8) -> (r: Option<NrgTrackMode>) {
        if code == 0x00 {
            Some(NrgTrackMode::Mode1)
        } else if code == 0x02 {
            Some(NrgTrackMode::Mode2)
        } else if code == 0x03 {
            Some(NrgTrackMode::Mode2Xa1)
        } else if code == 0x06 {
            Some(NrgTrackMode::Mode2Raw)
        } else if code == 0x07 {
            Some(NrgTrackMode::Audio)
        } else if code == 0x0f {
            Some(NrgTrackMode::Mode1Raw)
        } else if code == 0x10 {
            Some(NrgTrackMode::Mode2Xa1Raw)
        } else if code == 0x11 {
            Some(NrgTrackMode::Mode2Xa2Raw)
        } else {
            None
        }
    }
}

/// One parsed track: its byte range within the image.
pub struct NrgTrack {
    /// Sector encoding.
    pub mode: NrgTrackMode,
    /// Byte offset of the track's data.
    pub offset: u64,
    /// Length of the track's data in bytes.
    pub length: u64,
}

/// Parse a DAO chunk's track entries.
pub fn parse_dao_chunk(src: &Source, offset: u64, length: u64, wide: bool, tracks: &mut Vec<
    NrgTrack,
>) -> (r: Option<()>)
    requires
        old(tracks)@.len() <= MAX_NRG_TRACKS,
    ensures
        final(tracks)@.len() <= MAX_NRG_TRACKS,
{
    let entry_size: u64 = if wide {
        42
    } else {
        30
    };
    if length < 22 {
        return Some(());
    }
    let num_entries = (length - 22) / entry_size;
    let mut entry_pos = match offset.checked_add(22) {
        Some(v) => v,
        None => {
            return Some(());
        },
    };
    let mut e: u64 = 0;
    while e < num_entries
        invariant
            e <= num_entries,
            entry_size >= 30,
            tracks@.len() <= MAX_NRG_TRACKS,
        decreases num_entries - e,
    {
        if tracks.len() >= MAX_NRG_TRACKS as usize {
            return Some(());
        }
        let mode_at = match entry_pos.checked_add(14) {
            Some(v) => v,
            None => {
                return Some(());
            },
        };
        let mode_code = match read_byte(src, mode_at) {
            Some(v) => v,
            None => {
                return None;
            },
        };
        if let Some(mode) = NrgTrackMode::from_code(mode_code) {
            let (start, end) = if wide {
                let s = match entry_pos.checked_add(26) {
                    Some(o) => match read_be64(src, o) {
                        Some(v) => v,
                        None => {
                            return None;
                        },
                    },
                    None => {
                        return Some(());
                    },
                };
                let en = match entry_pos.checked_add(34) {
                    Some(o) => match read_be64(src, o) {
                        Some(v) => v,
                        None => {
                            return None;
                        },
                    },
                    None => {
                        return Some(());
                    },
                };
                (s, en)
            } else {
                let s = match entry_pos.checked_add(22) {
                    Some(o) => match read_be32(src, o) {
                        Some(v) => v as u64,
                        None => {
                            return None;
                        },
                    },
                    None => {
                        return Some(());
                    },
                };
                let en = match entry_pos.checked_add(26) {
                    Some(o) => match read_be32(src, o) {
                        Some(v) => v as u64,
                        None => {
                            return None;
                        },
                    },
                    None => {
                        return Some(());
                    },
                };
                (s, en)
            };
            let track_length = if end >= start {
                end - start
            } else {
                0
            };
            tracks.push(NrgTrack { mode, offset: start, length: track_length });
        }
        entry_pos = match entry_pos.checked_add(entry_size) {
            Some(v) => v,
            None => {
                return Some(());
            },
        };
        e = e + 1;
    }
    Some(())
}

/// Parse an ETN chunk's track entries.
pub fn parse_etn_chunk(src: &Source, offset: u64, length: u64, wide: bool, tracks: &mut Vec<
    NrgTrack,
>) -> (r: Option<()>)
    requires
        old(tracks)@.len() <= MAX_NRG_TRACKS,
    ensures
        final(tracks)@.len() <= MAX_NRG_TRACKS,
{
    let entry_size: u64 = if wide {
        24
    } else {
        16
    };
    let num_entries = length / entry_size;
    let mut entry_pos = offset;
    let mut e: u64 = 0;
    while e < num_entries
        invariant
            e <= num_entries,
            entry_size >= 16,
            tracks@.len() <= MAX_NRG_TRACKS,
        decreases num_entries - e,
    {
        if tracks.len() >= MAX_NRG_TRACKS as usize {
            return Some(());
        }
        let (track_offset, track_size, mode_val) = if wide {
            let off = match read_be64(src, entry_pos) {
                Some(v) => v,
                None => {
                    return None;
                },
            };
            let size = match entry_pos.checked_add(8) {
                Some(o) => match read_be64(src, o) {
                    Some(v) => v,
                    None => {
                        return None;
                    },
                },
                None => {
                    return Some(());
                },
            };
            let mode = match entry_pos.checked_add(16) {
                Some(o) => match read_be32(src, o) {
                    Some(v) => v,
                    None => {
                        return None;
                    },
                },
                None => {
                    return Some(());
                },
            };
            (off, size, mode)
        } else {
            let off = match read_be32(src, entry_pos) {
                Some(v) => v as u64,
                None => {
                    return None;
                },
            };
            let size = match entry_pos.checked_add(4) {
                Some(o) => match read_be32(src, o) {
                    Some(v) => v as u64,
                    None => {
                        return None;
                    },
                },
                None => {
                    return Some(());
                },
            };
            let mode = match entry_pos.checked_add(8) {
                Some(o) => match read_be32(src, o) {
                    Some(v) => v,
                    None => {
                        return None;
                    },
                },
                None => {
                    return Some(());
                },
            };
            (off, size, mode)
        };
        if let Some(mode) = NrgTrackMode::from_code((mode_val & 0xff) as u8) {
            tracks.push(NrgTrack { mode, offset: track_offset, length: track_size });
        }
        entry_pos = match entry_pos.checked_add(entry_size) {
            Some(v) => v,
            None => {
                return Some(());
            },
        };
        e = e + 1;
    }
    Some(())
}

/// Walk the chunk stream from the trailer's start offset.
pub fn parse_chunks(src: &Source, start_offset: u64, file_size: u64, wide_format: bool) -> (r:
    Option<Vec<NrgTrack>>)
    ensures
        r matches Some(ts) ==> ts@.len() <= MAX_NRG_TRACKS,
{
    let mut pos = start_offset;
    let mut tracks: Vec<NrgTrack> = Vec::new();
    let mut chunk: u32 = 0;
    while chunk < MAX_NRG_CHUNKS
        invariant
            chunk <= MAX_NRG_CHUNKS,
            tracks@.len() <= MAX_NRG_TRACKS,
        decreases MAX_NRG_CHUNKS - chunk,
    {
        let pos8 = match pos.checked_add(8) {
            Some(v) => v,
            None => {
                break;
            },
        };
        if pos8 > file_size {
            break;
        }
        let id = src.read_at(pos, 4);
        if id.len() != 4 {
            return None;
        }
        let cid = id.as_slice();
        let chunk_len = match read_be32(src, pos + 4) {
            Some(v) => v as u64,
            None => {
                return None;
            },
        };
        pos = pos8;
        if cid[0] == 0x45 && cid[1] == 0x4e && cid[2] == 0x44 && cid[3] == 0x21 {
            // "END!"
            break;
        }
        let is_daox = cid[0] == 0x44 && cid[1] == 0x41 && cid[2] == 0x4f && cid[3] == 0x58;
        let is_daoi = cid[0] == 0x44 && cid[1] == 0x41 && cid[2] == 0x4f && cid[3] == 0x49;
        let is_etn2 = cid[0] == 0x45 && cid[1] == 0x54 && cid[2] == 0x4e && cid[3] == 0x32;
        let is_etnf = cid[0] == 0x45 && cid[1] == 0x54 && cid[2] == 0x4e && cid[3] == 0x46;
        if is_daox || is_daoi {
            if parse_dao_chunk(src, pos, chunk_len, is_daox, &mut tracks).is_none() {
                return None;
            }
        } else if is_etn2 || is_etnf {
            if parse_etn_chunk(src, pos, chunk_len, is_etn2, &mut tracks).is_none() {
                return None;
            }
        }
        pos = match pos.checked_add(chunk_len) {
            Some(v) => v,
            None => {
                break;
            },
        };
        chunk = chunk + 1;
    }
    Some(tracks)
}

/// Parse the trailer and the chunk stream it names.
pub fn parse_nrg(src: &Source) -> (r: Option<Vec<NrgTrack>>)
    ensures
        r matches Some(ts) ==> ts@.len() <= MAX_NRG_TRACKS,
{
    let file_size = match src.size() {
        Some(v) => v,
        None => {
            return None;
        },
    };
    if file_size < 12 {
        return None;
    }
    let sig = src.read_at(file_size - 12, 4);
    if sig.len() != 4 {
        return None;
    }
    let s5 = sig.as_slice();
    // "NER5" marks the wide trailer, "NERO" the old one.
    if s5[0] == 0x4e && s5[1] == 0x45 && s5[2] == 0x52 && s5[3] == 0x35 {
        let offset = match read_be64(src, file_size - 8) {
            Some(v) => v,
            None => {
                return None;
            },
        };
        return parse_chunks(src, offset, file_size, true);
    }
    let sig2 = src.read_at(file_size - 8, 4);
    if sig2.len() != 4 {
        return None;
    }
    let so = sig2.as_slice();
    if !(so[0] == 0x4e && so[1] == 0x45 && so[2] == 0x52 && so[3] == 0x4f) {
        return None;
    }
    let offset = match read_be32(src, file_size - 4) {
        Some(v) => v as u64,
        None => {
            return None;
        },
    };
    parse_chunks(src, offset, file_size, false)
}

/// Nero NRG image container.
pub struct NrgContainer;

impl NrgContainer {
    /// One slice child per track; `None` when the trailer or a chunk is
    /// unusable.
    pub fn children(&self, reader: Rc<Source>) -> (r: Option<Vec<Child>>)
        ensures
            r matches Some(cs) ==> cs@.len() <= MAX_NRG_TRACKS && forall|k: int|
                0 <= k < cs@.len() ==> #[trigger] coherent_slice_child(cs@[k], *reader),
    {
        let src = &*reader;
        let tracks = match parse_nrg(src) {
            Some(t) => t,
            None => {
                return None;
            },
        };
        let mut children: Vec<Child> = Vec::new();
        let mut i: usize = 0;
        while i < tracks.len()
            invariant
                tracks@.len() <= MAX_NRG_TRACKS,
                i <= tracks@.len(),
                children@.len() <= i,
                forall|k: int|
                    0 <= k < children@.len() ==> #[trigger] coherent_slice_child(
                        children@[k],
                        *reader,
                    ),
            decreases tracks@.len() - i,
        {
            push_slice_child(&mut children, &reader, i as u32, tracks[i].offset, tracks[i].length);
            i = i + 1;
        }
        Some(children)
    }
}

} // verus!
