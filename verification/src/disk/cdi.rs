//! DiscJuggler CDI image container.
//!
//! The footer names the track header; sessions list tracks, each with
//! pregap, length, mode and sector size. Every track becomes one slice
//! child over its data area.

use vstd::prelude::*;

use crate::container::{coherent_slice_child, Child};
use crate::pt::push_slice_child;
use crate::reader::{read_byte, read_le16, read_le32, Source};

use std::rc::Rc;

verus! {

/// CDI version tags found in the footer.
pub const CDI_V2: u32 = 0x8000_0004;

/// Version 3 tag.
pub const CDI_V3: u32 = 0x8000_0005;

/// Version 3.5 tag.
pub const CDI_V35: u32 = 0x8000_0006;

/// Most tracks read over all sessions.
pub const MAX_CDI_TRACKS: u32 = 1024;

/// How a track's sectors are encoded.
#[derive(Clone, Copy, PartialEq, Eq, Structural)]
pub enum TrackMode {
    /// Audio sectors.
    Audio,
    /// Mode 1 data sectors.
    Mode1,
    /// Mode 2 data sectors.
    Mode2,
}

impl TrackMode {
    /// The mode a header code names, if any.
    pub fn from_code(code: u32) -> (r: Option<TrackMode>)
        ensures
            r is Some <==> code <= 2,
    {
        if code == 0 {
            Some(TrackMode::Audio)
        } else if code == 1 {
            Some(TrackMode::Mode1)
        } else if code == 2 {
            Some(TrackMode::Mode2)
        } else {
            None
        }
    }
}

/// One parsed track.
pub struct Track {
    /// Sector encoding.
    pub mode: TrackMode,
    /// Bytes per sector.
    pub sector_size: u32,
    /// Sectors of pregap before the data.
    pub pregap_length: u32,
    /// Sectors of data.
    pub length: u32,
    /// Logical block address where the track starts.
    pub start_lba: u32,
    /// Total sectors including the pregap.
    pub total_length: u32,
    /// File position where the track's data starts.
    pub data_offset: u64,
}

/// Whether the ten-byte track marker sits at `pos`.
fn check_marker(src: &Source, pos: u64) -> (r: bool) {
    let m = src.read_at(pos, 10);
    if m.len() != 10 {
        return false;
    }
    let b = m.as_slice();
    b[0] == 0 && b[1] == 0 && b[2] == 1 && b[3] == 0 && b[4] == 0 && b[5] == 0 && b[6] == 0xff
        && b[7] == 0xff && b[8] == 0xff && b[9] == 0xff
}

/// Parse one track record at `pos`; also yields the position of the next
/// record. `None` when a marker, mode or sector size is unusable. A parsed
/// track carries one of the three sector sizes the format defines, and its
/// data starts exactly one pregap past the session's running data
/// position; the next record never stands at or before this one.
pub fn parse_track(src: &Source, pos: u64, version: u32, data_pos: u64) -> (r: Option<(Track, u64)>)
    ensures
        r matches Some(t) ==> {
            &&& (t.0.sector_size == 2048 || t.0.sector_size == 2336 || t.0.sector_size == 2352)
            &&& t.0.data_offset == data_pos + t.0.pregap_length * t.0.sector_size
            &&& t.1 > pos
        },
{
    let mut pos = pos;
    let temp = match read_le32(src, pos) {
        Some(v) => v,
        None => {
            return None;
        },
    };
    pos = match pos.checked_add(if temp != 0 {
        12
    } else {
        4
    }) {
        Some(v) => v,
        None => {
            return None;
        },
    };
    if !check_marker(src, pos) {
        return None;
    }
    pos = match pos.checked_add(10) {
        Some(v) => v,
        None => {
            return None;
        },
    };
    if !check_marker(src, pos) {
        return None;
    }
    pos = match pos.checked_add(14) {
        Some(v) => v,
        None => {
            return None;
        },
    };
    let filename_len = match read_byte(src, pos) {
        Some(v) => v as u64,
        None => {
            return None;
        },
    };
    pos = match pos.checked_add(1 + filename_len + 11 + 4 + 4) {
        Some(v) => v,
        None => {
            return None;
        },
    };
    let temp = match read_le32(src, pos) {
        Some(v) => v,
        None => {
            return None;
        },
    };
    pos = match pos.checked_add(if temp == 0x8000_0000 {
        12
    } else {
        4
    }) {
        Some(v) => v,
        None => {
            return None;
        },
    };
    pos = match pos.checked_add(2) {
        Some(v) => v,
        None => {
            return None;
        },
    };
    let pregap_length = match read_le32(src, pos) {
        Some(v) => v,
        None => {
            return None;
        },
    };
    let length = match pos.checked_add(4) {
        Some(o) => match read_le32(src, o) {
            Some(v) => v,
            None => {
                return None;
            },
        },
        None => {
            return None;
        },
    };
    pos = match pos.checked_add(14) {
        Some(v) => v,
        None => {
            return None;
        },
    };
    let mode_val = match read_le32(src, pos) {
        Some(v) => v,
        None => {
            return None;
        },
    };
    let mode = match TrackMode::from_code(mode_val) {
        Some(m) => m,
        None => {
            return None;
        },
    };
    pos = match pos.checked_add(16) {
        Some(v) => v,
        None => {
            return None;
        },
    };
    let start_lba = match read_le32(src, pos) {
        Some(v) => v,
        None => {
            return None;
        },
    };
    let total_length = match pos.checked_add(4) {
        Some(o) => match read_le32(src, o) {
            Some(v) => v,
            None => {
                return None;
            },
        },
        None => {
            return None;
        },
    };
    pos = match pos.checked_add(24) {
        Some(v) => v,
        None => {
            return None;
        },
    };
    let sector_size_val = match read_le32(src, pos) {
        Some(v) => v,
        None => {
            return None;
        },
    };
    let sector_size: u32 = if sector_size_val == 0 {
        2048
    } else if sector_size_val == 1 {
        2336
    } else if sector_size_val == 2 {
        2352
    } else {
        return None;
    };
    pos = match pos.checked_add(33) {
        Some(v) => v,
        None => {
            return None;
        },
    };
    if version != CDI_V2 {
        pos = match pos.checked_add(5) {
            Some(v) => v,
            None => {
                return None;
            },
        };
        let temp = match read_le32(src, pos) {
            Some(v) => v,
            None => {
                return None;
            },
        };
        pos = match pos.checked_add(if temp == 0xffff_ffff {
            82
        } else {
            4
        }) {
            Some(v) => v,
            None => {
                return None;
            },
        };
    }
    let pregap_bytes = match (pregap_length as u64).checked_mul(sector_size as u64) {
        Some(v) => v,
        None => {
            return None;
        },
    };
    let track_data_offset = match data_pos.checked_add(pregap_bytes) {
        Some(v) => v,
        None => {
            return None;
        },
    };
    Some(
        (
            Track {
                mode,
                sector_size,
                pregap_length,
                length,
                start_lba,
                total_length,
                data_offset: track_data_offset,
            },
            pos,
        ),
    )
}

/// Parse the footer, then every session's tracks.
pub fn parse_cdi(src: &Source) -> (r: Option<Vec<Track>>)
    ensures
        r matches Some(ts) ==> ts@.len() <= MAX_CDI_TRACKS,
{
    let file_size = match src.size() {
        Some(v) => v,
        None => {
            return None;
        },
    };
    if file_size < 8 {
        return None;
    }
    let version = match read_le32(src, file_size - 8) {
        Some(v) => v,
        None => {
            return None;
        },
    };
    let header_offset = match read_le32(src, file_size - 4) {
        Some(v) => v,
        None => {
            return None;
        },
    };
    if header_offset == 0 {
        return None;
    }
    let header_pos: u64 = if version == CDI_V35 {
        if file_size < header_offset as u64 {
            return None;
        }
        file_size - header_offset as u64
    } else if version == CDI_V2 || version == CDI_V3 {
        header_offset as u64
    } else {
        return None;
    };
    let sessions = match read_le16(src, header_pos) {
        Some(v) => v,
        None => {
            return None;
        },
    };
    let mut pos = match header_pos.checked_add(2) {
        Some(v) => v,
        None => {
            return None;
        },
    };
    let mut data_pos: u64 = 0;
    let mut tracks: Vec<Track> = Vec::new();
    let mut session: u16 = 0;
    while session < sessions
        invariant
            session <= sessions,
            tracks@.len() <= MAX_CDI_TRACKS,
        decreases sessions - session,
    {
        let track_count = match read_le16(src, pos) {
            Some(v) => v,
            None => {
                return None;
            },
        };
        pos = match pos.checked_add(2) {
            Some(v) => v,
            None => {
                return None;
            },
        };
        let mut t: u16 = 0;
        while t < track_count
            invariant
                t <= track_count,
                tracks@.len() <= MAX_CDI_TRACKS,
            decreases track_count - t,
        {
            if tracks.len() >= MAX_CDI_TRACKS as usize {
                return None;
            }
            let (track, new_pos) = match parse_track(src, pos, version, data_pos) {
                Some(v) => v,
                None => {
                    return None;
                },
            };
            let span = match (track.pregap_length as u64).checked_add(track.length as u64) {
                Some(v) => match v.checked_mul(track.sector_size as u64) {
                    Some(w) => w,
                    None => {
                        return None;
                    },
                },
                None => {
                    return None;
                },
            };
            data_pos = match data_pos.checked_add(span) {
                Some(v) => v,
                None => {
                    return None;
                },
            };
            tracks.push(track);
            pos = new_pos;
            t = t + 1;
        }
        pos = match pos.checked_add(if version != CDI_V2 {
            13
        } else {
            12
        }) {
            Some(v) => v,
            None => {
                return None;
            },
        };
        session = session + 1;
    }
    Some(tracks)
}

/// DiscJuggler CDI image container.
pub struct CdiContainer;

impl CdiContainer {
    /// One slice child per track, covering the track's data area; `None`
    /// when the footer or a track record is unusable.
    pub fn children(&self, reader: Rc<Source>) -> (r: Option<Vec<Child>>)
        ensures
            r matches Some(cs) ==> cs@.len() <= MAX_CDI_TRACKS && forall|k: int|
                0 <= k < cs@.len() ==> #[trigger] coherent_slice_child(cs@[k], *reader),
    {
        let src = &*reader;
        let tracks = match parse_cdi(src) {
            Some(t) => t,
            None => {
                return None;
            },
        };
        let mut children: Vec<Child> = Vec::new();
        let mut i: usize = 0;
        while i < tracks.len()
            invariant
                tracks@.len() <= MAX_CDI_TRACKS,
                i <= tracks@.len(),
                children@.len() <= i,
                forall|k: int|
                    0 <= k < children@.len() ==> #[trigger] coherent_slice_child(
                        children@[k],
                        *reader,
                    ),
            decreases tracks@.len() - i,
        {
            let data_size = match (tracks[i].length as u64).checked_mul(
                tracks[i].sector_size as u64,
            ) {
                Some(v) => v,
                None => {
                    i = i + 1;
                    continue;
                },
            };
            push_slice_child(&mut children, &reader, i as u32, tracks[i].data_offset, data_size);
            i = i + 1;
        }
        Some(children)
    }
}

} // verus!
