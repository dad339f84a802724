//! Track tag data, and repair of ID3v2 frames that lack a null terminator.
use vstd::prelude::*;

use crate::numfmt::{decimal, decimal_chars};
use crate::text::{
    concat, contains, extend, from_chars, is_trimmed, lemma_find_from_first, lemma_trim_of_trimmed,
    matches_at, starts_with, str_eq, to_chars, trim_start_matches,
};
use crate::track::Track;
use crate::unicode::nfc;
use crate::utils::{get_tags_from_filename, normalize_str, spec_tags_from_filename};

use crate::bytes::{be_u32_at, copy_range, le_u32_at, read_be_u32, read_le_u32};

verus! {

// ---------------------------------------------------------------------------
// Locating the ID3v2 tag
// ---------------------------------------------------------------------------

/// `data[at..at + 3]` is `ID3`.
pub open spec fn is_id3_at(data: Seq<u8>, at: int) -> bool {
    at + 3 <= data.len() && data[at] == 0x49 && data[at + 1] == 0x44 && data[at + 2] == 0x33
}

/// `data[at..at + 4]` holds the four given bytes.
pub open spec fn bytes4_at(data: Seq<u8>, at: int, a: u8, b: u8, c: u8, d: u8) -> bool {
    at + 4 <= data.len() && data[at] == a && data[at + 1] == b && data[at + 2] == c && data[at + 3] == d
}

/// Scan AIFF/WAV chunks from `pos` for an `ID3 ` chunk whose data starts with an ID3v2 header.
/// Chunk sizes are big-endian for AIFF and little-endian for WAV; chunks are padded to even length.
pub open spec fn scan_chunks(data: Seq<u8>, pos: int, big_endian: bool) -> Option<int>
    decreases data.len() - pos,
{
    if pos < 0 || pos + 8 > data.len() {
        None
    } else {
        let size: int = if big_endian {
            be_u32_at(data, pos + 4) as int
        } else {
            le_u32_at(data, pos + 4) as int
        };
        let start = pos + 8;
        if bytes4_at(data, pos, 0x49, 0x44, 0x33, 0x20) && start + 10 <= data.len() && is_id3_at(
            data,
            start,
        ) {
            Some(start)
        } else if start + size + size % 2 > data.len() {
            None
        } else {
            proof {
                assert(size >= 0 && size % 2 >= 0);
            }
            scan_chunks(data, start + size + size % 2, big_endian)
        }
    }
}

/// Where the ID3v2 header starts: at byte 0 (MP3), or inside the `ID3 ` chunk of an
/// AIFF (`FORM`) or WAV (`RIFF`) container.
pub open spec fn id3_header_offset(data: Seq<u8>) -> Option<int> {
    if data.len() >= 10 && is_id3_at(data, 0) {
        Some(0)
    } else if data.len() >= 12 && bytes4_at(data, 0, 0x46, 0x4f, 0x52, 0x4d) {
        scan_chunks(data, 12, true)
    } else if data.len() >= 12 && bytes4_at(data, 0, 0x52, 0x49, 0x46, 0x46) {
        scan_chunks(data, 12, false)
    } else {
        None
    }
}

fn is_id3_at_exec(data: &[u8], at: usize) -> (b: bool)
    ensures
        b == is_id3_at(data@, at as int),
{
    data.len() >= 3 && at <= data.len() - 3 && data[at] == 0x49 && data[at + 1] == 0x44 && data[at
        + 2] == 0x33
}

fn bytes4_at_exec(data: &[u8], at: usize, a: u8, b: u8, c: u8, d: u8) -> (r: bool)
    ensures
        r == bytes4_at(data@, at as int, a, b, c, d),
{
    data.len() >= 4 && at <= data.len() - 4 && data[at] == a && data[at + 1] == b && data[at + 2]
        == c && data[at + 3] == d
}

/// Locate the byte offset of the ID3v2 header within a file's raw bytes.
pub fn find_id3_header_offset(data: &[u8]) -> (r: Option<usize>)
    ensures
        match id3_header_offset(data@) {
            Some(k) => r == Some(k as usize) && 0 <= k <= data@.len(),
            None => r is None,
        },
{
    if data.len() >= 10 && is_id3_at_exec(data, 0) {
        return Some(0);
    }
    let big_endian = if data.len() >= 12 && bytes4_at_exec(data, 0, 0x46, 0x4f, 0x52, 0x4d) {
        true
    } else if data.len() >= 12 && bytes4_at_exec(data, 0, 0x52, 0x49, 0x46, 0x46) {
        false
    } else {
        return None;
    };
    let mut pos: usize = 12;
    while data.len() >= 8 && pos <= data.len() - 8
        invariant
            scan_chunks(data@, pos as int, big_endian) == id3_header_offset(data@),
            pos <= data@.len() + 0,
        decreases data.len() - pos,
    {
        let size = if big_endian {
            read_be_u32(data, pos + 4)
        } else {
            read_le_u32(data, pos + 4)
        } as usize;
        let start = pos + 8;
        if bytes4_at_exec(data, pos, 0x49, 0x44, 0x33, 0x20) && data.len() >= 10 && start <= data.len()
            - 10 && is_id3_at_exec(data, start) {
            return Some(start);
        }
        if size > data.len() - start {
            assert(scan_chunks(data@, start + size + size % 2, big_endian) is None);
            return None;
        }
        let padded = size + size % 2;
        if padded > data.len() - start {
            assert(scan_chunks(data@, start + size + size % 2, big_endian) is None);
            return None;
        }
        pos = start + padded;
    }
    None
}

/// A synchsafe integer: four bytes of which each holds 7 bits.
pub open spec fn synchsafe(b0: u8, b1: u8, b2: u8, b3: u8) -> u32 {
    ((b0 as u32) << 21u32) | ((b1 as u32) << 14u32) | ((b2 as u32) << 7u32) | (b3 as u32)
}

/// Decode a synchsafe integer (each byte uses only 7 bits, MSB is always 0).
pub fn decode_synchsafe(data: &[u8]) -> (v: u32)
    requires
        data@.len() == 4,
    ensures
        v == synchsafe(data@[0], data@[1], data@[2], data@[3]),
{
    ((data[0] as u32) << 21u32) | ((data[1] as u32) << 14u32) | ((data[2] as u32) << 7u32) | (
    data[3] as u32)
}


// ---------------------------------------------------------------------------
// Repairing frames without a null terminator
// ---------------------------------------------------------------------------

/// Why no frame could be repaired.
#[derive(Debug, Clone, Copy, PartialEq, Eq)]
pub enum FrameFixError {
    /// Fewer than 12 bytes.
    TooSmall,
    /// No ID3v2 header found.
    NoHeader,
    /// The header is cut short.
    NoRoomForHeader,
    /// The tag declares more bytes than there are.
    Truncated,
    /// An ID3v2 version other than 2, 3 or 4.
    UnsupportedVersion(u8),
    /// The extended header flag is set but the tag has no room for it.
    ExtendedHeader,
    /// No frame needed repair.
    NothingToFix,
}

pub open spec fn id_ufid() -> Seq<u8> {
    seq![0x55u8, 0x46u8, 0x49u8, 0x44u8]
}

pub open spec fn id_priv() -> Seq<u8> {
    seq![0x50u8, 0x52u8, 0x49u8, 0x56u8]
}

pub open spec fn id_ufi() -> Seq<u8> {
    seq![0x55u8, 0x46u8, 0x49u8]
}

/// Frame id length and frame header length of an ID3v2 version.
pub open spec fn id_len(v: u8) -> int {
    if v == 2 {
        3
    } else {
        4
    }
}

pub open spec fn header_len(v: u8) -> int {
    if v == 2 {
        6
    } else {
        10
    }
}

/// Frames whose first field is a null-terminated string that some encoders write without
/// the terminator: `UFI` in ID3v2.2, `UFID` and `PRIV` in later versions.
pub open spec fn fixable_id(v: u8, id: Seq<u8>) -> bool {
    if v == 2 {
        id == id_ufi()
    } else {
        id == id_ufid() || id == id_priv()
    }
}

/// Size of the frame whose header starts at `o`: 24-bit big-endian in v2.2, synchsafe in v2.4,
/// big-endian `u32` in v2.3.
pub open spec fn frame_size(d: Seq<u8>, o: int, v: u8) -> int {
    if v == 2 {
        d[o + 3] as int * 65536 + d[o + 4] as int * 256 + d[o + 5] as int
    } else if v == 4 {
        synchsafe(d[o + 4], d[o + 5], d[o + 6], d[o + 7]) as int
    } else {
        be_u32_at(d, o + 4) as int
    }
}

pub open spec fn all_zero(s: Seq<u8>) -> bool {
    forall|i: int| 0 <= i < s.len() ==> s[i] == 0
}

/// The frames from `o` up to `end` that need repair: a fixable id and nonempty content
/// without any null byte. Each is given by where its content starts and its id.
/// The walk stops at padding (an all-zero id) or at a frame that runs past `end`.
pub open spec fn frames_to_fix(d: Seq<u8>, o: int, end: int, v: u8) -> Seq<(int, Seq<u8>)>
    decreases end - o,
{
    if o < 0 || o + header_len(v) > end || end > d.len() {
        Seq::empty()
    } else if all_zero(d.subrange(o, o + id_len(v))) {
        Seq::empty()
    } else {
        let cs = o + header_len(v);
        let ce = cs + frame_size(d, o, v);
        if ce > end {
            Seq::empty()
        } else {
            proof {
                assert(frame_size(d, o, v) >= 0);
            }
            (if frame_size(d, o, v) > 0 && fixable_id(v, d.subrange(o, o + id_len(v))) && !d.subrange(
                cs,
                ce,
            ).contains(0u8) {
                seq![(cs, d.subrange(o, o + id_len(v)))]
            } else {
                Seq::empty()
            }) + frames_to_fix(d, ce, end, v)
        }
    }
}

/// The ID3v2 version and the frames to repair, or why there are none.
pub open spec fn fix_plan(d: Seq<u8>) -> Result<(u8, Seq<(int, Seq<u8>)>), FrameFixError> {
    if d.len() < 12 {
        Err(FrameFixError::TooSmall)
    } else {
        match id3_header_offset(d) {
            None => Err(FrameFixError::NoHeader),
            Some(off) => if d.len() - off < 10 {
                Err(FrameFixError::NoRoomForHeader)
            } else {
                let v = d[off + 3];
                let flags = d[off + 5];
                let end = off + 10 + synchsafe(d[off + 6], d[off + 7], d[off + 8], d[off + 9]);
                let o = off + 10;
                if d.len() < end {
                    Err(FrameFixError::Truncated)
                } else if v != 2 && v != 3 && v != 4 {
                    Err(FrameFixError::UnsupportedVersion(v))
                } else if flags & 0x40 != 0 && o + 4 > end {
                    Err(FrameFixError::ExtendedHeader)
                } else {
                    let start = if flags & 0x40 != 0 {
                        o + (if v == 4 {
                            synchsafe(d[o], d[o + 1], d[o + 2], d[o + 3]) as int
                        } else {
                            be_u32_at(d, o) as int + 4
                        })
                    } else {
                        o
                    };
                    let fr = frames_to_fix(d, start, end, v);
                    if fr.len() == 0 {
                        Err(FrameFixError::NothingToFix)
                    } else {
                        Ok((v, fr))
                    }
                }
            },
        }
    }
}

/// The positions in a list of frames to fix.
pub open spec fn is_fix_position(fr: Seq<(int, Seq<u8>)>, i: int) -> bool {
    exists|k: int| 0 <= k < fr.len() && #[trigger] fr[k].0 == i
}

/// The data with the first content byte of each listed frame set to zero.
pub open spec fn patched(d: Seq<u8>, fr: Seq<(int, Seq<u8>)>) -> Seq<u8> {
    Seq::new(d.len(), |i: int| if is_fix_position(fr, i) { 0u8 } else { d[i] })
}

/// How many listed frames have the id.
pub open spec fn count_id(fr: Seq<(int, Seq<u8>)>, id: Seq<u8>) -> nat
    decreases fr.len(),
{
    if fr.len() == 0 {
        0
    } else {
        count_id(fr.drop_last(), id) + (if fr.last().1 == id { 1nat } else { 0nat })
    }
}

/// The `(frame id, count)` summary, sorted by id.
pub open spec fn fix_summary(v: u8, fr: Seq<(int, Seq<u8>)>) -> Seq<(Seq<char>, nat)> {
    if v == 2 {
        seq![("UFI"@, fr.len())]
    } else {
        (if count_id(fr, id_priv()) > 0 {
            seq![("PRIV"@, count_id(fr, id_priv()))]
        } else {
            Seq::empty()
        }) + (if count_id(fr, id_ufid()) > 0 {
            seq![("UFID"@, count_id(fr, id_ufid()))]
        } else {
            Seq::empty()
        })
    }
}

pub open spec fn summary_view(r: Seq<(String, usize)>) -> Seq<(Seq<char>, nat)> {
    r.map_values(|p: (String, usize)| (p.0@, p.1 as nat))
}


fn frame_id_is(data: &[u8], at: usize, id: &[u8]) -> (b: bool)
    requires
        at + id@.len() <= data@.len(),
    ensures
        b == (data@.subrange(at as int, at + id@.len()) == id@),
{
    let n = data.len();
    let mut j: usize = 0;
    while j < id.len()
        invariant
            n == data@.len(),
            j <= id@.len(),
            at + id@.len() <= data@.len(),
            forall|k: int| 0 <= k < j ==> data@[at + k] == id@[k],
        decreases id.len() - j,
    {
        if data[at + j] != id[j] {
            assert(data@.subrange(at as int, at + id@.len())[j as int] != id@[j as int]);
            return false;
        }
        j += 1;
    }
    assert(data@.subrange(at as int, at + id@.len()) =~= id@);
    true
}

fn range_has_zero(data: &[u8], from: usize, to: usize) -> (b: bool)
    requires
        from <= to <= data@.len(),
    ensures
        b == data@.subrange(from as int, to as int).contains(0u8),
{
    let mut i = from;
    while i < to
        invariant
            from <= i <= to <= data@.len(),
            forall|k: int| from <= k < i ==> data@[k] != 0,
        decreases to - i,
    {
        if data[i] == 0 {
            assert(data@.subrange(from as int, to as int)[i - from] == 0);
            return true;
        }
        i += 1;
    }
    assert forall|k: int| 0 <= k < to - from implies data@.subrange(from as int, to as int)[k]
        != 0u8 by {
        assert(data@.subrange(from as int, to as int)[k] == data@[from + k]);
    }
    false
}

fn range_all_zero(data: &[u8], from: usize, len: usize) -> (b: bool)
    requires
        from + len <= data@.len(),
    ensures
        b == all_zero(data@.subrange(from as int, from + len)),
{
    let n = data.len();
    let mut j: usize = 0;
    while j < len
        invariant
            n == data@.len(),
            j <= len,
            from + len <= data@.len(),
            forall|k: int| from <= k < from + j ==> data@[k] == 0,
        decreases len - j,
    {
        if data[from + j] != 0 {
            assert(data@.subrange(from as int, from + len)[j as int] != 0);
            return false;
        }
        j += 1;
    }
    assert forall|k: int| 0 <= k < len implies #[trigger] data@.subrange(from as int, from + len)[k] == 0 by {
        assert(data@.subrange(from as int, from + len)[k] == data@[from + k]);
    }
    true
}

proof fn lemma_count_push(fr: Seq<(int, Seq<u8>)>, x: (int, Seq<u8>), id: Seq<u8>)
    ensures
        count_id(fr.push(x), id) == count_id(fr, id) + (if x.1 == id { 1nat } else { 0nat }),
{
    assert(fr.push(x).drop_last() =~= fr);
}

proof fn lemma_count_all(fr: Seq<(int, Seq<u8>)>, id: Seq<u8>)
    requires
        forall|k: int| 0 <= k < fr.len() ==> (#[trigger] fr[k]).1 == id,
    ensures
        count_id(fr, id) == fr.len(),
    decreases fr.len(),
{
    if fr.len() > 0 {
        lemma_count_all(fr.drop_last(), id);
    }
}

proof fn lemma_count_le(fr: Seq<(int, Seq<u8>)>, id: Seq<u8>)
    ensures
        count_id(fr, id) <= fr.len(),
    decreases fr.len(),
{
    if fr.len() > 0 {
        lemma_count_le(fr.drop_last(), id);
    }
}

/// `frames_to_fix` reads only the bytes from `o` on.
proof fn lemma_frames_agree(d1: Seq<u8>, d2: Seq<u8>, o: int, end: int, v: u8)
    requires
        d1.len() == d2.len(),
        0 <= o,
        forall|i: int| o <= i < d1.len() ==> d1[i] == d2[i],
    ensures
        frames_to_fix(d1, o, end, v) == frames_to_fix(d2, o, end, v),
    decreases end - o,
{
    if o + header_len(v) <= end && end <= d1.len() {
        assert(d1.subrange(o, o + id_len(v)) =~= d2.subrange(o, o + id_len(v)));
        let cs = o + header_len(v);
        let ce = cs + frame_size(d1, o, v);
        assert(frame_size(d1, o, v) == frame_size(d2, o, v));
        if ce <= end {
            assert(d1.subrange(cs, ce) =~= d2.subrange(cs, ce));
            lemma_frames_agree(d1, d2, ce, end, v);
        }
    }
}

/// Read the frame header at `offset`: where the walk goes next, whether the frame needs
/// repair, and whether it is a `PRIV` frame.
fn next_frame(data: &[u8], offset: usize, end: usize, v: u8) -> (r: (usize, bool, bool))
    requires
        v == 2 || v == 3 || v == 4,
        offset + header_len(v) <= end <= data@.len(),
    ensures
        offset < r.0 <= end,
        frames_to_fix(data@, offset as int, end as int, v) == (if r.1 {
            seq![(offset + header_len(v), data@.subrange(offset as int, offset + id_len(v)))]
        } else {
            Seq::empty()
        }) + frames_to_fix(data@, r.0 as int, end as int, v),
        r.1 ==> offset + header_len(v) < r.0 && fixable_id(v, data@.subrange(offset as int, offset + id_len(v))),
        r.1 && v != 2 ==> (r.2 <==> data@.subrange(offset as int, offset + id_len(v)) == id_priv()),
{
    let idl: usize = if v == 2 { 3 } else { 4 };
    let hl: usize = if v == 2 { 6 } else { 10 };
    if range_all_zero(data, offset, idl) {
        return (end, false, false);
    }
    let size: usize = if v == 2 {
        ((data[offset + 3] as u32) * 65536 + (data[offset + 4] as u32) * 256 + (data[offset
            + 5] as u32)) as usize
    } else if v == 4 {
        let sb = copy_range(data, offset + 4, offset + 8);
        decode_synchsafe(&sb) as usize
    } else {
        read_be_u32(data, offset + 4) as usize
    };
    assert(size as int == frame_size(data@, offset as int, v));
    let cs = offset + hl;
    if size > end - cs {
        return (end, false, false);
    }
    let ce = cs + size;
    let ufid: [u8; 4] = [0x55, 0x46, 0x49, 0x44];
    let privid: [u8; 4] = [0x50, 0x52, 0x49, 0x56];
    let ufi: [u8; 3] = [0x55, 0x46, 0x49];
    assert(ufid@ =~= id_ufid());
    assert(privid@ =~= id_priv());
    assert(ufi@ =~= id_ufi());
    let is_ufid = idl == 4 && frame_id_is(data, offset, ufid.as_slice());
    let is_priv = idl == 4 && frame_id_is(data, offset, privid.as_slice());
    let is_ufi = idl == 3 && frame_id_is(data, offset, ufi.as_slice());
    let fixable = if v == 2 {
        is_ufi
    } else {
        is_ufid || is_priv
    };
    let fix = size > 0 && fixable && !range_has_zero(data, cs, ce);
    (ce, fix, is_priv)
}

/// Patch frames that lack a null terminator after their first string field.
///
/// Supports MP3 (ID3v2 at byte 0), AIFF (`FORM` with an `ID3 ` chunk) and WAV (`RIFF` with an
/// `ID3 ` chunk). Walks the ID3v2 frames; for each `UFID`/`PRIV` (`UFI` in v2.2) frame whose
/// content has no null byte, the first content byte becomes `0x00`. Gives the
/// `(frame id, count)` pairs sorted by id; on an error the data is left as it was.
pub fn fix_malformed_frames(data: &mut Vec<u8>) -> (res: Result<Vec<(String, usize)>, FrameFixError>)
    ensures
        match fix_plan(old(data)@) {
            Ok((v, fr)) => res matches Ok(r) && summary_view(r@) == fix_summary(v, fr)
                && final(data)@ == patched(old(data)@, fr),
            Err(e) => res == Err::<Vec<(String, usize)>, FrameFixError>(e)
                && final(data)@ == old(data)@,
        },
{
    let ghost d0 = data@;
    if data.len() < 12 {
        return Err(FrameFixError::TooSmall);
    }
    let off = match find_id3_header_offset(data.as_slice()) {
        Some(k) => k,
        None => return Err(FrameFixError::NoHeader),
    };
    assert(off <= data@.len());
    if data.len() - off < 10 {
        return Err(FrameFixError::NoRoomForHeader);
    }
    let v = data[off + 3];
    let flags = data[off + 5];
    let size_bytes = copy_range(data.as_slice(), off + 6, off + 10);
    let tag_size = decode_synchsafe(&size_bytes) as usize;
    if tag_size > data.len() - off - 10 {
        return Err(FrameFixError::Truncated);
    }
    let end = off + 10 + tag_size;
    if v != 2 && v != 3 && v != 4 {
        return Err(FrameFixError::UnsupportedVersion(v));
    }
    let idl: usize = if v == 2 {
        3
    } else {
        4
    };
    let hl: usize = if v == 2 {
        6
    } else {
        10
    };
    let mut offset: usize = off + 10;
    if flags & 0x40 != 0 {
        if end - offset < 4 {
            return Err(FrameFixError::ExtendedHeader);
        }
        let ext: u64 = if v == 4 {
            let ext_bytes = copy_range(data.as_slice(), offset, offset + 4);
            decode_synchsafe(&ext_bytes) as u64
        } else {
            read_be_u32(data.as_slice(), offset) as u64 + 4
        };
        if ext > (end - offset) as u64 {
            offset = end;
        } else {
            offset = offset + ext as usize;
        }
    }
    let ghost start = offset as int;
    proof {
        let o = off + 10;
        let plan_start = if flags & 0x40 != 0 {
            o + (if v == 4 {
                synchsafe(d0[o], d0[o + 1], d0[o + 2], d0[o + 3]) as int
            } else {
                be_u32_at(d0, o) as int + 4
            })
        } else {
            o
        };
        assert(frames_to_fix(d0, plan_start, end as int, v) == frames_to_fix(d0, start, end as int, v));
    }
    let ghost mut done: Seq<(int, Seq<u8>)> = Seq::empty();
    let mut n_priv: usize = 0;
    let mut n_ufid: usize = 0;
    let mut n_ufi: usize = 0;
    assert(frames_to_fix(d0, start, end as int, v) == done + frames_to_fix(
        d0,
        offset as int,
        end as int,
        v,
    ));
    while hl <= end - offset
        invariant
            data@.len() == d0.len(),
            end <= d0.len(),
            start <= offset <= end,
            idl as int == id_len(v),
            hl as int == header_len(v),
            v == 2 || v == 3 || v == 4,
            frames_to_fix(d0, start, end as int, v) == done + frames_to_fix(
                d0,
                offset as int,
                end as int,
                v,
            ),
            forall|i: int|
                0 <= i < d0.len() ==> data@[i] == (if is_fix_position(done, i) {
                    0u8
                } else {
                    d0[i]
                }),
            forall|k: int|
                0 <= k < done.len() ==> (#[trigger] done[k]).0 < offset && fixable_id(v, done[k].1),
            n_priv == count_id(done, id_priv()),
            n_ufid == count_id(done, id_ufid()),
            n_ufi == count_id(done, id_ufi()),
            done.len() <= offset,
        decreases end - offset,
    {
        assert forall|i: int| offset <= i < d0.len() implies data@[i] == d0[i] by {
            if is_fix_position(done, i) {
                let k = choose|k: int| 0 <= k < done.len() && #[trigger] done[k].0 == i;
                assert(done[k].0 < offset);
            }
        }
        let (next, fix, is_priv) = next_frame(data.as_slice(), offset, end, v);
        let cs = offset + hl;
        let ghost id = data@.subrange(offset as int, offset + idl);
        proof {
            lemma_frames_agree(data@, d0, offset as int, end as int, v);
            lemma_frames_agree(data@, d0, next as int, end as int, v);
            assert(id =~= d0.subrange(offset as int, offset + idl));
        }
        let ghost old_done = done;
        if fix {
            data.set(cs, 0);
            proof {
                done = done.push((cs as int, id));
                lemma_count_push(old_done, (cs as int, id), id_priv());
                lemma_count_push(old_done, (cs as int, id), id_ufid());
                lemma_count_push(old_done, (cs as int, id), id_ufi());
                lemma_count_le(old_done, id_priv());
                lemma_count_le(old_done, id_ufid());
                lemma_count_le(old_done, id_ufi());
                assert(id_priv()[0] != id_ufid()[0]);
                assert(id_ufi().len() != id_ufid().len());
                assert forall|i: int| 0 <= i < d0.len() implies data@[i] == (if is_fix_position(
                    done,
                    i,
                ) {
                    0u8
                } else {
                    d0[i]
                }) by {
                    if i == cs {
                        assert(done[done.len() - 1].0 == cs);
                    } else {
                        if is_fix_position(done, i) {
                            let k = choose|k: int| 0 <= k < done.len() && #[trigger] done[k].0 == i;
                            assert(k < old_done.len());
                            assert(old_done[k].0 == i);
                        }
                        if is_fix_position(old_done, i) {
                            let k = choose|k: int| 0 <= k < old_done.len() && #[trigger] old_done[k].0 == i;
                            assert(done[k].0 == i);
                        }
                    }
                }
            }
            if v == 2 {
                n_ufi = n_ufi + 1;
            } else if is_priv {
                n_priv = n_priv + 1;
            } else {
                n_ufid = n_ufid + 1;
            }
        }
        assert(done == old_done + (if fix {
            seq![(cs as int, id)]
        } else {
            Seq::empty()
        }));
        offset = next;
    }
    assert(frames_to_fix(d0, offset as int, end as int, v) =~= Seq::<(int, Seq<u8>)>::empty());
    assert(done + Seq::<(int, Seq<u8>)>::empty() == done);
    if n_priv == 0 && n_ufid == 0 && n_ufi == 0 {
        proof {
            lemma_count_le(done, id_priv());
            if done.len() > 0 {
                let x = done.last();
                lemma_count_push(done.drop_last(), x, id_priv());
                lemma_count_push(done.drop_last(), x, id_ufid());
                lemma_count_push(done.drop_last(), x, id_ufi());
                assert(done.drop_last().push(x) =~= done);
            }
        }
        assert(data@ =~= d0);
        return Err(FrameFixError::NothingToFix);
    }
    let mut result: Vec<(String, usize)> = Vec::new();
    if v == 2 {
        proof {
            lemma_count_all(done, id_ufi());
        }
        result.push((String::from_str("UFI"), n_ufi));
    } else {
        if n_priv > 0 {
            result.push((String::from_str("PRIV"), n_priv));
        }
        if n_ufid > 0 {
            result.push((String::from_str("UFID"), n_ufid));
        }
    }
    assert(data@ =~= patched(d0, done));
    Ok(result)
}

// ---------------------------------------------------------------------------
// The repair leaves nothing to repair
// ---------------------------------------------------------------------------

proof fn lemma_scan_after(d: Seq<u8>, pos: int, be: bool)
    ensures
        scan_chunks(d, pos, be) matches Some(s) ==> s >= pos + 8 && s + 10 <= d.len(),
    decreases d.len() - pos,
{
    if !(pos < 0 || pos + 8 > d.len()) {
        let size: int = if be {
            be_u32_at(d, pos + 4) as int
        } else {
            le_u32_at(d, pos + 4) as int
        };
        let start = pos + 8;
        if !(bytes4_at(d, pos, 0x49, 0x44, 0x33, 0x20) && start + 10 <= d.len() && is_id3_at(
            d,
            start,
        )) && start + size + size % 2 <= d.len() {
            lemma_scan_after(d, start + size + size % 2, be);
        }
    }
}

/// The chunk scan reads nothing at or after the header it finds plus ten bytes.
proof fn lemma_scan_agree(d: Seq<u8>, p: Seq<u8>, pos: int, be: bool, bound: int)
    requires
        d.len() == p.len(),
        forall|i: int| 0 <= i < bound && i < d.len() ==> d[i] == p[i],
        scan_chunks(d, pos, be) matches Some(s) && s + 10 <= bound,
    ensures
        scan_chunks(p, pos, be) == scan_chunks(d, pos, be),
    decreases d.len() - pos,
{
    lemma_scan_after(d, pos, be);
    let size: int = if be {
        be_u32_at(d, pos + 4) as int
    } else {
        le_u32_at(d, pos + 4) as int
    };
    let start = pos + 8;
    assert(d[pos + 4] == p[pos + 4] && d[pos + 5] == p[pos + 5] && d[pos + 6] == p[pos + 6] && d[pos
        + 7] == p[pos + 7]);
    assert(d[pos] == p[pos] && d[pos + 1] == p[pos + 1] && d[pos + 2] == p[pos + 2] && d[pos + 3]
        == p[pos + 3]);
    if bytes4_at(d, pos, 0x49, 0x44, 0x33, 0x20) && start + 10 <= d.len() && is_id3_at(d, start) {
        assert(d[start] == p[start] && d[start + 1] == p[start + 1] && d[start + 2] == p[start + 2]);
    } else {
        let next = start + size + size % 2;
        lemma_scan_after(d, next, be);
        if start + 10 <= d.len() {
            assert(d[start] == p[start] && d[start + 1] == p[start + 1] && d[start + 2] == p[start
                + 2]);
        }
        lemma_scan_agree(d, p, next, be, bound);
    }
}

proof fn lemma_offset_bounds(d: Seq<u8>)
    ensures
        id3_header_offset(d) matches Some(off) ==> 0 <= off && off + 10 <= d.len(),
{
    lemma_scan_after(d, 12, true);
    lemma_scan_after(d, 12, false);
}

proof fn lemma_header_agree(d: Seq<u8>, p: Seq<u8>, bound: int)
    requires
        d.len() == p.len(),
        d.len() >= 4,
        bound >= 10,
        forall|i: int| 0 <= i < bound && i < d.len() ==> d[i] == p[i],
        id3_header_offset(d) matches Some(off) && off + 10 <= bound,
    ensures
        id3_header_offset(p) == id3_header_offset(d),
{
    assert(d[0] == p[0]);
    assert(d[1] == p[1]);
    assert(d[2] == p[2]);
    assert(d[3] == p[3]);
    if !(d.len() >= 10 && is_id3_at(d, 0)) {
        if d.len() >= 12 && bytes4_at(d, 0, 0x46, 0x4f, 0x52, 0x4d) {
            lemma_scan_agree(d, p, 12, true, bound);
        } else if d.len() >= 12 && bytes4_at(d, 0, 0x52, 0x49, 0x46, 0x46) {
            lemma_scan_agree(d, p, 12, false, bound);
        }
    }
}

proof fn lemma_frames_positions(d: Seq<u8>, o: int, end: int, v: u8)
    ensures
        forall|k: int|
            0 <= k < frames_to_fix(d, o, end, v).len() ==> (#[trigger] frames_to_fix(d, o, end, v)[k]).0
                >= o + header_len(v),
    decreases end - o,
{
    if !(o < 0 || o + header_len(v) > end || end > d.len()) && !all_zero(
        d.subrange(o, o + id_len(v)),
    ) {
        let cs = o + header_len(v);
        let ce = cs + frame_size(d, o, v);
        if ce <= end {
            lemma_frames_positions(d, ce, end, v);
            assert(frame_size(d, o, v) >= 0);
            let head = if frame_size(d, o, v) > 0 && fixable_id(v, d.subrange(o, o + id_len(v)))
                && !d.subrange(cs, ce).contains(0u8) {
                seq![(cs, d.subrange(o, o + id_len(v)))]
            } else {
                Seq::empty()
            };
            let rest = frames_to_fix(d, ce, end, v);
            assert forall|k: int| 0 <= k < (head + rest).len() implies (#[trigger] (head + rest)[k]).0
                >= o + header_len(v) by {
                if k >= head.len() {
                    assert((head + rest)[k] == rest[k - head.len()]);
                }
            }
        }
    }
}

/// Walking the frames of the patched data from `o` finds nothing to repair, when the patch
/// positions before `o` lie before it and those from `o` on are the ones the walk finds.
proof fn lemma_walk_patched(
    d: Seq<u8>,
    p: Seq<u8>,
    all: Seq<(int, Seq<u8>)>,
    before: Seq<(int, Seq<u8>)>,
    o: int,
    end: int,
    v: u8,
)
    requires
        p.len() == d.len(),
        all == before + frames_to_fix(d, o, end, v),
        forall|k: int| 0 <= k < before.len() ==> (#[trigger] before[k]).0 < o,
        forall|i: int| 0 <= i < d.len() ==> p[i] == (if is_fix_position(all, i) { 0u8 } else { d[i] }),
    ensures
        frames_to_fix(p, o, end, v) == Seq::<(int, Seq<u8>)>::empty(),
    decreases end - o,
{
    let hl = header_len(v);
    if o < 0 || o + hl > end || end > d.len() {
        return;
    }
    lemma_frames_positions(d, o, end, v);
    let here = frames_to_fix(d, o, end, v);
    // No patch position lies in the header.
    assert forall|i: int| o <= i < o + hl implies p[i] == d[i] by {
        if is_fix_position(all, i) {
            let k = choose|k: int| 0 <= k < all.len() && #[trigger] all[k].0 == i;
            if k < before.len() {
                assert(before[k] == all[k]);
            } else {
                assert(all[k] == here[k - before.len()]);
            }
        }
    }
    assert(p.subrange(o, o + id_len(v)) =~= d.subrange(o, o + id_len(v)));
    if all_zero(d.subrange(o, o + id_len(v))) {
        return;
    }
    assert(frame_size(p, o, v) == frame_size(d, o, v));
    let cs = o + hl;
    let ce = cs + frame_size(d, o, v);
    if ce > end {
        return;
    }
    assert(frame_size(d, o, v) >= 0);
    let id = d.subrange(o, o + id_len(v));
    let fixed = frame_size(d, o, v) > 0 && fixable_id(v, id) && !d.subrange(cs, ce).contains(0u8);
    let head: Seq<(int, Seq<u8>)> = if fixed {
        seq![(cs, id)]
    } else {
        Seq::empty()
    };
    let rest = frames_to_fix(d, ce, end, v);
    assert(here == head + rest);
    lemma_frames_positions(d, ce, end, v);
    if fixed {
        assert(all[before.len() as int] == (cs, id));
        assert(is_fix_position(all, cs));
        assert(p.subrange(cs, ce)[0] == 0u8);
    } else if frame_size(d, o, v) > 0 && fixable_id(v, id) {
        // The content is not patched, so it still holds a null byte.
        assert forall|i: int| cs <= i < ce implies p[i] == d[i] by {
            if is_fix_position(all, i) {
                let k = choose|k: int| 0 <= k < all.len() && #[trigger] all[k].0 == i;
                if k < before.len() {
                    assert(before[k] == all[k]);
                } else {
                    assert(all[k] == rest[k - before.len()]);
                }
            }
        }
        assert(p.subrange(cs, ce) =~= d.subrange(cs, ce));
    }
    let before2 = before + head;
    assert(all =~= before2 + rest);
    assert forall|k: int| 0 <= k < before2.len() implies (#[trigger] before2[k]).0 < ce by {
        if k < before.len() {
            assert(before2[k] == before[k]);
        }
    }
    lemma_walk_patched(d, p, all, before2, ce, end, v);
}

/// Repairing frames leaves nothing to repair: on the repaired data the plan finds no frame
/// that lacks its terminator.
pub proof fn law_fix_idempotent(d: Seq<u8>)
    requires
        fix_plan(d) is Ok,
    ensures
        fix_plan(patched(d, fix_plan(d)->Ok_0.1)) == Err::<(u8, Seq<(int, Seq<u8>)>), FrameFixError>(
            FrameFixError::NothingToFix,
        ),
{
    let (v, fr) = fix_plan(d)->Ok_0;
    let p = patched(d, fr);
    lemma_offset_bounds(d);
    let off = id3_header_offset(d)->Some_0;
    let o = off + 10;
    let end = off + 10 + synchsafe(d[off + 6], d[off + 7], d[off + 8], d[off + 9]);
    let flags = d[off + 5];
    let start = if flags & 0x40 != 0 {
        o + (if v == 4 {
            synchsafe(d[o], d[o + 1], d[o + 2], d[o + 3]) as int
        } else {
            be_u32_at(d, o) as int + 4
        })
    } else {
        o
    };
    assert(fr == frames_to_fix(d, start, end, v));
    lemma_frames_positions(d, start, end, v);
    let bound = start + header_len(v);
    assert forall|i: int| 0 <= i < bound && i < d.len() implies d[i] == p[i] by {
        if is_fix_position(fr, i) {
            let k = choose|k: int| 0 <= k < fr.len() && #[trigger] fr[k].0 == i;
        }
    }
    assert(start >= o);
    lemma_header_agree(d, p, bound);
    assert(p[off + 3] == d[off + 3]);
    assert(p[off + 5] == d[off + 5]);
    assert(p[off + 6] == d[off + 6]);
    assert(p[off + 7] == d[off + 7]);
    assert(p[off + 8] == d[off + 8]);
    assert(p[off + 9] == d[off + 9]);
    if flags & 0x40 != 0 {
        assert(p[o] == d[o]);
        assert(p[o + 1] == d[o + 1]);
        assert(p[o + 2] == d[o + 2]);
        assert(p[o + 3] == d[o + 3]);
    }
    assert forall|i: int| 0 <= i < d.len() implies p[i] == (if is_fix_position(fr, i) {
        0u8
    } else {
        d[i]
    }) by {}
    assert(fr =~= Seq::<(int, Seq<u8>)>::empty() + frames_to_fix(d, start, end, v));
    lemma_walk_patched(d, p, fr, Seq::empty(), start, end, v);
}

/// Each frame the walk lists starts its content before `end`, on a byte that is not zero.
proof fn lemma_frames_positions_below(d: Seq<u8>, o: int, end: int, v: u8)
    ensures
        forall|k: int|
            0 <= k < frames_to_fix(d, o, end, v).len() ==> {
                let i = (#[trigger] frames_to_fix(d, o, end, v)[k]).0;
                0 <= i < end && end <= d.len() && d[i] != 0
            },
    decreases end - o,
{
    if !(o < 0 || o + header_len(v) > end || end > d.len()) && !all_zero(
        d.subrange(o, o + id_len(v)),
    ) {
        let cs = o + header_len(v);
        let ce = cs + frame_size(d, o, v);
        if ce <= end {
            lemma_frames_positions_below(d, ce, end, v);
            assert(frame_size(d, o, v) >= 0);
            let fixes = frame_size(d, o, v) > 0 && fixable_id(v, d.subrange(o, o + id_len(v)))
                && !d.subrange(cs, ce).contains(0u8);
            let head = if fixes {
                seq![(cs, d.subrange(o, o + id_len(v)))]
            } else {
                Seq::empty()
            };
            let rest = frames_to_fix(d, ce, end, v);
            if fixes {
                if d[cs] == 0 {
                    assert(d.subrange(cs, ce)[0] == 0u8);
                    assert(d.subrange(cs, ce).contains(0u8));
                }
            }
            assert forall|k: int| 0 <= k < (head + rest).len() implies {
                let i = (#[trigger] (head + rest)[k]).0;
                0 <= i < end && end <= d.len() && d[i] != 0
            } by {
                if k >= head.len() {
                    assert((head + rest)[k] == rest[k - head.len()]);
                } else {
                    assert((head + rest)[k] == head[k]);
                }
            }
            assert(frames_to_fix(d, o, end, v) == head + rest);
        }
    }
}

/// Repairing changes only bytes inside the ID3 tag: every byte that the repair sets to zero
/// lies after the tag's ten-byte header and before the tag's end, and was not zero before;
/// the length and all other bytes, the audio data among them, stay as they were.
pub proof fn law_fix_inside_tag(d: Seq<u8>)
    requires
        fix_plan(d) is Ok,
    ensures
        ({
            let off = id3_header_offset(d)->Some_0;
            let end = off + 10 + synchsafe(d[off + 6], d[off + 7], d[off + 8], d[off + 9]);
            let p = patched(d, fix_plan(d)->Ok_0.1);
            &&& p.len() == d.len()
            &&& forall|i: int| 0 <= i < d.len() && #[trigger] p[i] != d[i] ==> off + 10 <= i < end
                && p[i] == 0 && d[i] != 0
        }),
{
    let (v, fr) = fix_plan(d)->Ok_0;
    lemma_offset_bounds(d);
    let off = id3_header_offset(d)->Some_0;
    let o = off + 10;
    let end = off + 10 + synchsafe(d[off + 6], d[off + 7], d[off + 8], d[off + 9]);
    let flags = d[off + 5];
    let start = if flags & 0x40 != 0 {
        o + (if v == 4 {
            synchsafe(d[o], d[o + 1], d[o + 2], d[o + 3]) as int
        } else {
            be_u32_at(d, o) as int + 4
        })
    } else {
        o
    };
    assert(fr == frames_to_fix(d, start, end, v));
    assert(start >= o);
    lemma_frames_positions(d, start, end, v);
    lemma_frames_positions_below(d, start, end, v);
    let p = patched(d, fr);
    assert forall|i: int| 0 <= i < d.len() && #[trigger] p[i] != d[i] implies o <= i < end && p[i]
        == 0 && d[i] != 0 by {
        if is_fix_position(fr, i) {
            let k = choose|k: int| 0 <= k < fr.len() && #[trigger] fr[k].0 == i;
            assert(fr[k].0 >= start + header_len(v));
        }
    }
}

/// `n id frame`, or `n id frames` for any other count than one.
pub open spec fn fixed_item_text(id: Seq<char>, n: nat) -> Seq<char> {
    decimal(n) + " "@ + id + (if n == 1 { " frame"@ } else { " frames"@ })
}

/// The repaired frames as one line: the items joined by `", "`.
pub open spec fn fixed_summary_text(items: Seq<(Seq<char>, nat)>) -> Seq<char>
    decreases items.len(),
{
    if items.len() == 0 {
        Seq::empty()
    } else if items.len() == 1 {
        fixed_item_text(items[0].0, items[0].1)
    } else {
        fixed_summary_text(items.drop_last()) + ", "@ + fixed_item_text(
            items.last().0,
            items.last().1,
        )
    }
}

/// Describe the repaired frames, such as `1 UFID frame, 2 PRIV frames`.
pub fn fix_summary_text(fixed: &Vec<(String, usize)>) -> (s: String)
    ensures
        s@ == fixed_summary_text(summary_view(fixed@)),
{
    let mut v: Vec<char> = Vec::new();
    let mut i: usize = 0;
    assert(fixed@.take(0) =~= Seq::<(String, usize)>::empty());
    while i < fixed.len()
        invariant
            i <= fixed@.len(),
            v@ == fixed_summary_text(summary_view(fixed@.take(i as int))),
        decreases fixed.len() - i,
    {
        let (id, n) = &fixed[i];
        if i > 0 {
            extend(&mut v, &to_chars(", "));
        }
        extend(&mut v, &decimal_chars(*n as u64));
        extend(&mut v, &to_chars(" "));
        extend(&mut v, &to_chars(id.as_str()));
        if *n == 1 {
            extend(&mut v, &to_chars(" frame"));
        } else {
            extend(&mut v, &to_chars(" frames"));
        }
        proof {
            let t = summary_view(fixed@.take(i + 1));
            assert(t.drop_last() =~= summary_view(fixed@.take(i as int)));
            assert(t.last() == (id@, *n as nat));
        }
        i += 1;
    }
    assert(fixed@.take(fixed@.len() as int) =~= fixed@);
    from_chars(&v)
}

// ---------------------------------------------------------------------------
// Tag values
// ---------------------------------------------------------------------------

/// The tag values read from an audio file; the genre as the tag library resolves it.
#[derive(Debug, Clone)]
pub struct FileTags {
    pub artist: Option<String>,
    pub title: Option<String>,
    pub album: Option<String>,
    pub genre: Option<String>,
}

/// Track tag data with current and formatted field values.
#[derive(Debug, Clone, PartialEq, Eq, PartialOrd, Ord)]
pub struct TrackTags {
    pub current_artist: String,
    pub current_title: String,
    pub current_album: String,
    pub current_genre: String,
    pub current_name: String,
    pub formatted_name: String,
    pub formatted_artist: String,
    pub formatted_title: String,
    pub formatted_album: String,
    pub formatted_genre: String,
    pub update_needed: bool,
}

/// Tag data as plain text.
pub struct TrackTagsView {
    pub current_artist: Seq<char>,
    pub current_title: Seq<char>,
    pub current_album: Seq<char>,
    pub current_genre: Seq<char>,
    pub current_name: Seq<char>,
    pub formatted_name: Seq<char>,
    pub formatted_artist: Seq<char>,
    pub formatted_title: Seq<char>,
    pub formatted_album: Seq<char>,
    pub formatted_genre: Seq<char>,
    pub update_needed: bool,
}

impl View for TrackTags {
    type V = TrackTagsView;

    open spec fn view(&self) -> TrackTagsView {
        TrackTagsView {
            current_artist: self.current_artist@,
            current_title: self.current_title@,
            current_album: self.current_album@,
            current_genre: self.current_genre@,
            current_name: self.current_name@,
            formatted_name: self.formatted_name@,
            formatted_artist: self.formatted_artist@,
            formatted_title: self.formatted_title@,
            formatted_album: self.formatted_album@,
            formatted_genre: self.formatted_genre@,
            update_needed: self.update_needed,
        }
    }
}

/// Current values as given, formatted values empty.
pub open spec fn tags_with_current(
    name: Seq<char>,
    artist: Seq<char>,
    title: Seq<char>,
    album: Seq<char>,
    genre: Seq<char>,
) -> TrackTagsView {
    TrackTagsView {
        current_artist: artist,
        current_title: title,
        current_album: album,
        current_genre: genre,
        current_name: name,
        formatted_name: Seq::empty(),
        formatted_artist: Seq::empty(),
        formatted_title: Seq::empty(),
        formatted_album: Seq::empty(),
        formatted_genre: Seq::empty(),
        update_needed: false,
    }
}

/// A formatted value differs from the current one.
pub open spec fn tags_changed(t: TrackTagsView) -> bool {
    t.current_name != t.formatted_name || t.current_artist != t.formatted_artist || t.current_title
        != t.formatted_title || t.current_album != t.formatted_album || t.current_genre
        != t.formatted_genre
}

pub open spec fn opt_view(o: Option<String>) -> Option<Seq<char>> {
    match o {
        Some(s) => Some(s@),
        None => None,
    }
}

pub open spec fn or_empty(o: Option<Seq<char>>) -> Seq<char> {
    match o {
        Some(s) => s,
        None => Seq::empty(),
    }
}

/// Artist and title from the tags, normalized; where one is missing it comes from the
/// track name. The current name is written from the tags as they were.
pub open spec fn spec_parse_tag_data(
    track_name: Seq<char>,
    artist: Option<Seq<char>>,
    title: Option<Seq<char>>,
    album: Option<Seq<char>>,
    genre: Option<Seq<char>>,
) -> TrackTagsView {
    let parsed = spec_tags_from_filename(track_name);
    let (name, a, t) = match (artist, title) {
        (Some(a), Some(t)) => (nfc(a) + " - "@ + nfc(t), nfc(a), nfc(t)),
        (None, None) => (" - "@, match parsed {
            Some(p) => p.0,
            None => Seq::empty(),
        }, match parsed {
            Some(p) => p.1,
            None => Seq::empty(),
        }),
        (None, Some(t)) => (" - "@ + nfc(t), match parsed {
            Some(p) => p.0,
            None => Seq::empty(),
        }, nfc(t)),
        (Some(a), None) => (nfc(a) + " - "@, nfc(a), match parsed {
            Some(p) => p.1,
            None => Seq::empty(),
        }),
    };
    tags_with_current(name, a, t, nfc(or_empty(album)), nfc(or_empty(genre)))
}

/// A name `artist - title` splits into the artist and the title, in composed Unicode form,
/// where the artist holds no `-`, is not `Various Artists`, and neither part has whitespace
/// at its ends.
proof fn lemma_name_parts(artist: Seq<char>, title: Seq<char>)
    requires
        artist.len() > 0,
        title.len() > 0,
        is_trimmed(artist),
        is_trimmed(title),
        forall|i: int| 0 <= i < artist.len() ==> artist[i] != '-',
        artist != "Various Artists"@,
    ensures
        spec_tags_from_filename(artist + " - "@ + title) == Some((nfc(artist), nfc(title))),
{
    let sep = " - "@;
    let va = "Various Artists - "@;
    reveal_strlit(" - ");
    reveal_strlit("Various Artists - ");
    reveal_strlit("Various Artists");
    let name = artist + sep + title;
    let n = artist.len() as int;
    assert(name.subrange(n, n + 3) =~= sep);
    assert(matches_at(name, sep, n));
    assert(contains(name, sep));
    // The name does not begin with `Various Artists - `.
    if starts_with(name, va) {
        assert(name.subrange(0, 18) == va);
        assert(name[16] == va[16]);
        if n > 16 {
            assert(name[16] == artist[16]);
        } else if n == 15 {
            assert forall|i: int| 0 <= i < 15 implies artist[i] == "Various Artists"@[i] by {
                assert(name[i] == va[i]);
                assert(name[i] == artist[i]);
            }
            assert(artist =~= "Various Artists"@);
        } else {
            assert(name[n + 1] == '-');
            assert(name[n + 1] == va[n + 1]);
        }
    }
    assert(trim_start_matches(name, va) == name);
    // The name has no whitespace at its ends.
    assert(name[0] == artist[0]);
    assert(name.last() == title.last());
    lemma_trim_of_trimmed(name);
    // The first separator follows the artist.
    assert forall|j: int| 0 <= j < n implies !matches_at(name, sep, j) by {
        if matches_at(name, sep, j) {
            assert(name.subrange(j, j + 3)[1] == sep[1]);
            assert(name[j + 1] == '-');
            if j + 1 < n {
                assert(name[j + 1] == artist[j + 1]);
            }
        }
    }
    lemma_find_from_first(name, sep, 0, n);
    assert(name.take(n) =~= artist);
    assert(name.skip(n + 3) =~= title);
    lemma_trim_of_trimmed(artist);
    lemma_trim_of_trimmed(title);
}

/// When a file has neither an artist nor a title tag, a track named `artist - title` gets
/// its artist and title from the name, in composed Unicode form: where the artist holds no
/// `-`, is not `Various Artists`, and neither part has whitespace at its ends.
pub proof fn law_missing_tags_from_name(
    artist: Seq<char>,
    title: Seq<char>,
    album: Option<Seq<char>>,
    genre: Option<Seq<char>>,
)
    requires
        artist.len() > 0,
        title.len() > 0,
        is_trimmed(artist),
        is_trimmed(title),
        forall|i: int| 0 <= i < artist.len() ==> artist[i] != '-',
        artist != "Various Artists"@,
    ensures
        spec_parse_tag_data(artist + " - "@ + title, None, None, album, genre).current_artist
            == nfc(artist),
        spec_parse_tag_data(artist + " - "@ + title, None, None, album, genre).current_title
            == nfc(title),
{
    lemma_name_parts(artist, title);
}

/// When only the title tag is missing, a track named `artist - title` keeps the artist of
/// its tag and gets its title from the part of the name after `" - "` (same conditions on
/// the name as above).
pub proof fn law_missing_title_from_name(
    artist: Seq<char>,
    title: Seq<char>,
    artist_tag: Seq<char>,
    album: Option<Seq<char>>,
    genre: Option<Seq<char>>,
)
    requires
        artist.len() > 0,
        title.len() > 0,
        is_trimmed(artist),
        is_trimmed(title),
        forall|i: int| 0 <= i < artist.len() ==> artist[i] != '-',
        artist != "Various Artists"@,
    ensures
        spec_parse_tag_data(artist + " - "@ + title, Some(artist_tag), None, album, genre).current_artist
            == nfc(artist_tag),
        spec_parse_tag_data(artist + " - "@ + title, Some(artist_tag), None, album, genre).current_title
            == nfc(title),
{
    lemma_name_parts(artist, title);
}

/// When only the artist tag is missing, a track named `artist - title` keeps the title of
/// its tag and gets its artist from the part of the name before `" - "` (same conditions on
/// the name as above).
pub proof fn law_missing_artist_from_name(
    artist: Seq<char>,
    title: Seq<char>,
    title_tag: Seq<char>,
    album: Option<Seq<char>>,
    genre: Option<Seq<char>>,
)
    requires
        artist.len() > 0,
        title.len() > 0,
        is_trimmed(artist),
        is_trimmed(title),
        forall|i: int| 0 <= i < artist.len() ==> artist[i] != '-',
        artist != "Various Artists"@,
    ensures
        spec_parse_tag_data(artist + " - "@ + title, None, Some(title_tag), album, genre).current_artist
            == nfc(artist),
        spec_parse_tag_data(artist + " - "@ + title, None, Some(title_tag), album, genre).current_title
            == nfc(title_tag),
{
    lemma_name_parts(artist, title);
}

impl Default for TrackTags {
    fn default() -> (t: Self)
        ensures
            t@ == tags_with_current(
                Seq::empty(),
                Seq::empty(),
                Seq::empty(),
                Seq::empty(),
                Seq::empty(),
            ),
    {
        TrackTags::new(String::new(), String::new(), String::new(), String::new(), String::new())
    }
}

impl TrackTags {
    /// Tags with the given current values.
    pub fn new(name: String, artist: String, title: String, album: String, genre: String) -> (t:
        Self)
        ensures
            t@ == tags_with_current(name@, artist@, title@, album@, genre@),
    {
        let e = String::new();
        assert(e@ =~= Seq::<char>::empty());
        TrackTags {
            current_artist: artist,
            current_title: title,
            current_album: album,
            current_genre: genre,
            current_name: name,
            formatted_name: String::new(),
            formatted_artist: String::new(),
            formatted_title: String::new(),
            formatted_album: String::new(),
            formatted_genre: String::new(),
            update_needed: false,
        }
    }

    /// Read artist, title, album and genre from the file's tags. Where artist or title is
    /// missing, it is parsed from the track's file name.
    pub fn parse_tag_data(track: &Track, tag: &FileTags) -> (t: Self)
        ensures
            t@ == spec_parse_tag_data(
                track.name@,
                opt_view(tag.artist),
                opt_view(tag.title),
                opt_view(tag.album),
                opt_view(tag.genre),
            ),
    {
        let dash = to_chars(" - ");
        let (name, artist, title): (String, String, String) = match (&tag.artist, &tag.title) {
            (Some(a), Some(t)) => {
                let artist = normalize_str(a.as_str());
                let title = normalize_str(t.as_str());
                let name = from_chars(
                    &concat(&concat(&to_chars(artist.as_str()), &dash), &to_chars(title.as_str())),
                );
                (name, artist, title)
            },
            (None, None) => match get_tags_from_filename(track.name.as_str()) {
                Some((pa, pt)) => (from_chars(&dash), pa, pt),
                None => (from_chars(&dash), String::new(), String::new()),
            },
            (None, Some(t)) => {
                let title = normalize_str(t.as_str());
                let name = from_chars(&concat(&dash, &to_chars(title.as_str())));
                match get_tags_from_filename(track.name.as_str()) {
                    Some((pa, _)) => (name, pa, title),
                    None => (name, String::new(), title),
                }
            },
            (Some(a), None) => {
                let artist = normalize_str(a.as_str());
                let name = from_chars(&concat(&to_chars(artist.as_str()), &dash));
                match get_tags_from_filename(track.name.as_str()) {
                    Some((_, pt)) => (name, artist, pt),
                    None => (name, artist, String::new()),
                }
            },
        };
        let album = match &tag.album {
            Some(a) => normalize_str(a.as_str()),
            None => normalize_str(""),
        };
        let genre = match &tag.genre {
            Some(g) => normalize_str(g.as_str()),
            None => normalize_str(""),
        };
        assert(""@ =~= Seq::<char>::empty()) by {
            reveal_strlit("");
        }
        TrackTags::new(name, artist, title, album, genre)
    }

    /// A copy of the tags, field by field.
    pub fn duplicate(&self) -> (t: Self)
        ensures
            t@ == self@,
    {
        TrackTags {
            current_artist: self.current_artist.clone(),
            current_title: self.current_title.clone(),
            current_album: self.current_album.clone(),
            current_genre: self.current_genre.clone(),
            current_name: self.current_name.clone(),
            formatted_name: self.formatted_name.clone(),
            formatted_artist: self.formatted_artist.clone(),
            formatted_title: self.formatted_title.clone(),
            formatted_album: self.formatted_album.clone(),
            formatted_genre: self.formatted_genre.clone(),
            update_needed: self.update_needed,
        }
    }

    /// Whether any formatted field differs from its current value.
    pub fn changed(&self) -> (b: bool)
        ensures
            b == tags_changed(self@),
    {
        !str_eq(self.current_name.as_str(), self.formatted_name.as_str()) || !str_eq(
            self.current_artist.as_str(),
            self.formatted_artist.as_str(),
        ) || !str_eq(self.current_title.as_str(), self.formatted_title.as_str()) || !str_eq(
            self.current_album.as_str(),
            self.formatted_album.as_str(),
        ) || !str_eq(self.current_genre.as_str(), self.formatted_genre.as_str())
    }
}

} // verus!
