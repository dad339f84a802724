//! The `Serato Markers2` tag: cue points, saved loops, track color and BPM lock status.
use base64::engine::general_purpose;
use base64::Engine;
use vstd::prelude::*;
use vstd::utf8::{decode_utf8, valid_utf8};

use crate::bytes::{
    be_u32_at, copy_range, first_index_of, lemma_first_index_of, position_of, read_be_u32,
    utf8_to_string,
};
use crate::serato::{format_position_timestamp, position_timestamp, SeratoError};
use crate::numfmt::{decimal, decimal_chars, pad_left, pad_to};
use crate::text::{
    extend, from_chars, str_eq, to_chars, trim, trim_end_char, trim_end_char_chars, trim_chars,
};

verus! {

/// RGB colour, used for the track, cues and loops.
#[derive(Debug, Clone, Copy, PartialEq, Eq)]
pub struct Color {
    pub r: u8,
    pub g: u8,
    pub b: u8,
}

/// BPM lock status; `true` means the lock is enabled.
#[derive(Debug, Clone, Copy, PartialEq, Eq)]
pub struct BpmLock {
    pub enabled: bool,
}

/// A cue point.
#[derive(Debug, Clone)]
pub struct Cue {
    /// Cue number
    pub index: u8,
    /// Position in milliseconds
    pub position: u32,
    /// RGB Color
    pub color: Color,
    /// Name
    pub name: String,
}

/// A saved loop.
#[derive(Debug, Clone)]
pub struct Loop {
    /// Loop number
    pub index: u8,
    /// Start position in milliseconds
    pub start_position: u32,
    /// End position in milliseconds
    pub end_position: u32,
    /// RGB Color
    pub color: Color,
    pub locked: bool,
    pub name: String,
}

/// One entry of the markers tag.
#[derive(Debug, Clone)]
pub enum Markers {
    BpmLock(BpmLock),
    Color(Color),
    Cue(Cue),
    Loop(Loop),
}

/// A cue as plain values.
pub struct CueView {
    pub index: u8,
    pub position: u32,
    pub color: Color,
    pub name: Seq<char>,
}

/// A loop as plain values.
pub struct LoopView {
    pub index: u8,
    pub start_position: u32,
    pub end_position: u32,
    pub color: Color,
    pub locked: bool,
    pub name: Seq<char>,
}

/// A markers entry as plain values.
pub enum MarkerView {
    BpmLock(BpmLock),
    Color(Color),
    Cue(CueView),
    Loop(LoopView),
}

impl View for Cue {
    type V = CueView;

    open spec fn view(&self) -> CueView {
        CueView {
            index: self.index,
            position: self.position,
            color: self.color,
            name: self.name@,
        }
    }
}

impl View for Loop {
    type V = LoopView;

    open spec fn view(&self) -> LoopView {
        LoopView {
            index: self.index,
            start_position: self.start_position,
            end_position: self.end_position,
            color: self.color,
            locked: self.locked,
            name: self.name@,
        }
    }
}

impl View for Markers {
    type V = MarkerView;

    open spec fn view(&self) -> MarkerView {
        match self {
            Markers::BpmLock(l) => MarkerView::BpmLock(*l),
            Markers::Color(c) => MarkerView::Color(*c),
            Markers::Cue(c) => MarkerView::Cue(c@),
            Markers::Loop(l) => MarkerView::Loop(l@),
        }
    }
}

// ---------------------------------------------------------------------------
// What each entry type decodes to
// ---------------------------------------------------------------------------

pub open spec fn spec_bpmlock(data: Seq<u8>) -> Result<BpmLock, SeratoError> {
    if data.len() != 1 {
        Err(SeratoError::InvalidLength)
    } else {
        Ok(BpmLock { enabled: data[0] != 0 })
    }
}

pub open spec fn spec_color(data: Seq<u8>) -> Result<Color, SeratoError> {
    if data.len() != 4 {
        Err(SeratoError::InvalidLength)
    } else {
        Ok(Color { r: data[1], g: data[2], b: data[3] })
    }
}

/// A cue entry: byte 1 is the index, bytes 2..6 the big-endian position in ms,
/// bytes 7..10 the RGB colour and bytes 12.. the null-terminated UTF-8 name.
/// An empty name is replaced by the position as `MM:SS.T`.
pub open spec fn spec_cue(data: Seq<u8>) -> Result<CueView, SeratoError> {
    if data.len() < 13 {
        Err(SeratoError::InvalidLength)
    } else {
        let name_bytes = data.subrange(12, data.len() as int);
        if !valid_utf8(name_bytes) {
            Err(SeratoError::InvalidUtf8)
        } else {
            let name = trim(trim_end_char(decode_utf8(name_bytes), '\0'));
            let position = be_u32_at(data, 2);
            Ok(
                CueView {
                    index: data[1],
                    position,
                    color: Color { r: data[7], g: data[8], b: data[9] },
                    name: if name.len() == 0 {
                        position_timestamp(position)
                    } else {
                        name
                    },
                },
            )
        }
    }
}

/// A loop entry: byte 1 is the index, bytes 2..6 and 6..10 the big-endian start and end
/// positions in ms, bytes 14..18 the ARGB colour, byte 19 the lock flag (locked when 1)
/// and bytes 20.. the null-terminated UTF-8 name.
pub open spec fn spec_loop(data: Seq<u8>) -> Result<LoopView, SeratoError> {
    if data.len() < 15 {
        Err(SeratoError::InvalidLength)
    } else if data.len() < 20 {
        Err(SeratoError::UnexpectedEnd)
    } else {
        let name_bytes = data.subrange(20, data.len() as int);
        if !valid_utf8(name_bytes) {
            Err(SeratoError::InvalidUtf8)
        } else {
            Ok(
                LoopView {
                    index: data[1],
                    start_position: be_u32_at(data, 2),
                    end_position: be_u32_at(data, 6),
                    color: Color { r: data[15], g: data[16], b: data[17] },
                    locked: data[19] == 1,
                    name: trim_end_char(decode_utf8(name_bytes), '\0'),
                },
            )
        }
    }
}

/// A markers entry of the named type.
pub open spec fn spec_entry(name: Seq<char>, data: Seq<u8>) -> Result<MarkerView, SeratoError> {
    if name == "BPMLOCK"@ {
        match spec_bpmlock(data) {
            Ok(v) => Ok(MarkerView::BpmLock(v)),
            Err(e) => Err(e),
        }
    } else if name == "COLOR"@ {
        match spec_color(data) {
            Ok(v) => Ok(MarkerView::Color(v)),
            Err(e) => Err(e),
        }
    } else if name == "CUE"@ {
        match spec_cue(data) {
            Ok(v) => Ok(MarkerView::Cue(v)),
            Err(e) => Err(e),
        }
    } else if name == "LOOP"@ {
        match spec_loop(data) {
            Ok(v) => Ok(MarkerView::Loop(v)),
            Err(e) => Err(e),
        }
    } else {
        Err(SeratoError::UnknownEntry)
    }
}

impl Color {
    /// Colour from an RGB array.
    pub fn new(bytes: [u8; 3]) -> (c: Self)
        ensures
            c.r == bytes[0] && c.g == bytes[1] && c.b == bytes[2],
    {
        Color { r: bytes[0], g: bytes[1], b: bytes[2] }
    }

    /// Colour from an ARGB array; the alpha channel is ignored.
    pub fn new_argb(bytes: [u8; 4]) -> (c: Self)
        ensures
            c.r == bytes[1] && c.g == bytes[2] && c.b == bytes[3],
    {
        Color { r: bytes[1], g: bytes[2], b: bytes[3] }
    }

    /// Colour entry: four bytes, ARGB.
    pub fn load(data: &[u8]) -> (res: Result<Self, SeratoError>)
        ensures
            res == spec_color(data@),
    {
        if data.len() != 4 {
            return Err(SeratoError::InvalidLength);
        }
        Ok(Color { r: data[1], g: data[2], b: data[3] })
    }
}

impl BpmLock {
    /// BPM lock entry: a single byte, nonzero when enabled.
    pub fn load(data: &[u8]) -> (res: Result<Self, SeratoError>)
        ensures
            res == spec_bpmlock(data@),
    {
        if data.len() != 1 {
            return Err(SeratoError::InvalidLength);
        }
        Ok(BpmLock { enabled: data[0] != 0 })
    }
}

impl Cue {
    /// Parse a cue entry.
    pub fn load(data: &[u8]) -> (res: Result<Self, SeratoError>)
        ensures
            match spec_cue(data@) {
                Ok(v) => res matches Ok(c) && c@ == v,
                Err(e) => res matches Err(e2) && e2 == e,
            },
    {
        if data.len() < 13 {
            return Err(SeratoError::InvalidLength);
        }
        let index = data[1];
        let position = read_be_u32(data, 2);
        let color = Color::new([data[7], data[8], data[9]]);
        let name_bytes = copy_range(data, 12, data.len());
        let decoded = match utf8_to_string(&name_bytes) {
            Some(s) => s,
            None => return Err(SeratoError::InvalidUtf8),
        };
        let chars = to_chars(decoded.as_str());
        let trimmed = trim_chars(&trim_end_char_chars(&chars, '\0'));
        let name = if trimmed.len() == 0 {
            format_position_timestamp(position)
        } else {
            from_chars(&trimmed)
        };
        Ok(Cue { index, position, color, name })
    }
}

impl Loop {
    /// Parse a loop entry.
    pub fn load(data: &[u8]) -> (res: Result<Self, SeratoError>)
        ensures
            match spec_loop(data@) {
                Ok(v) => res matches Ok(l) && l@ == v,
                Err(e) => res matches Err(e2) && e2 == e,
            },
    {
        if data.len() < 15 {
            return Err(SeratoError::InvalidLength);
        }
        if data.len() < 20 {
            return Err(SeratoError::UnexpectedEnd);
        }
        let index = data[1];
        let start_position = read_be_u32(data, 2);
        let end_position = read_be_u32(data, 6);
        let color = Color::new_argb([data[14], data[15], data[16], data[17]]);
        let locked = data[19] == 1;
        let name_bytes = copy_range(data, 20, data.len());
        let decoded = match utf8_to_string(&name_bytes) {
            Some(s) => s,
            None => return Err(SeratoError::InvalidUtf8),
        };
        let chars = to_chars(decoded.as_str());
        let name = from_chars(&trim_end_char_chars(&chars, '\0'));
        Ok(Loop { index, start_position, end_position, color, locked, name })
    }
}

impl Markers {
    /// Parse one entry given its type name.
    pub fn load(entry_name: &str, data: &[u8]) -> (res: Result<Self, SeratoError>)
        ensures
            match spec_entry(entry_name@, data@) {
                Ok(v) => res matches Ok(m) && m@ == v,
                Err(e) => res matches Err(e2) && e2 == e,
            },
    {
        if str_eq(entry_name, "BPMLOCK") {
            match BpmLock::load(data) {
                Ok(v) => Ok(Markers::BpmLock(v)),
                Err(e) => Err(e),
            }
        } else if str_eq(entry_name, "COLOR") {
            match Color::load(data) {
                Ok(v) => Ok(Markers::Color(v)),
                Err(e) => Err(e),
            }
        } else if str_eq(entry_name, "CUE") {
            match Cue::load(data) {
                Ok(v) => Ok(Markers::Cue(v)),
                Err(e) => Err(e),
            }
        } else if str_eq(entry_name, "LOOP") {
            match Loop::load(data) {
                Ok(v) => Ok(Markers::Loop(v)),
                Err(e) => Err(e),
            }
        } else {
            Err(SeratoError::UnknownEntry)
        }
    }
}


// ---------------------------------------------------------------------------
// The whole tag
// ---------------------------------------------------------------------------

/// The bytes with every line feed removed.
pub open spec fn strip_newlines(s: Seq<u8>) -> Seq<u8>
    decreases s.len(),
{
    if s.len() == 0 {
        s
    } else {
        strip_newlines(s.drop_last()) + (if s.last() == 10 {
            Seq::<u8>::empty()
        } else {
            seq![s.last()]
        })
    }
}

/// Padding that completes base64 text of length `len` to a multiple of four.
pub open spec fn base64_padding(len: nat) -> Seq<u8> {
    if len % 4 == 1 {
        seq![65u8, 61u8, 61u8]
    } else if len % 4 == 2 {
        seq![61u8, 61u8]
    } else if len % 4 == 3 {
        seq![61u8]
    } else {
        Seq::empty()
    }
}

/// What the `base64` crate's standard engine decodes `input` to, `None` when it rejects it.
pub uninterp spec fn base64_standard_decoded(input: Seq<u8>) -> Option<Seq<u8>>;

/// `base64::engine::general_purpose::STANDARD.decode`, the standard alphabet with padding.
/// Its result is named, not described; an input it rejects gives `None`.
#[verifier::external_body]
fn base64_decode(input: &[u8]) -> (res: Option<Vec<u8>>)
    ensures
        match base64_standard_decoded(input@) {
            Some(v) => res matches Some(r) && r@ == v,
            None => res is None,
        },
{
    match general_purpose::STANDARD.decode(input) {
        Ok(v) => Some(v),
        Err(_) => None,
    }
}

/// End of the null-terminated name that starts at `pos`, and where the next field starts.
pub open spec fn name_end(p: Seq<u8>, pos: int) -> int {
    match first_index_of(p, 0, pos) {
        Some(k) => k,
        None => p.len() as int,
    }
}

pub open spec fn after_name(p: Seq<u8>, pos: int) -> int {
    match first_index_of(p, 0, pos) {
        Some(k) => k + 1,
        None => p.len() as int,
    }
}

/// The entries of a decoded payload from `pos` on. Each entry is a null-terminated UTF-8
/// type name, a big-endian `u32` length and that many bytes of entry data; an empty name
/// at the very end closes the list.
pub open spec fn spec_entries(p: Seq<u8>, pos: int) -> Result<Seq<MarkerView>, SeratoError>
    decreases p.len() - pos,
{
    if pos < 0 || pos > p.len() {
        Err(SeratoError::UnexpectedEnd)
    } else {
        proof {
            lemma_first_index_of(p, 0u8, pos);
        }
        let end = name_end(p, pos);
        let next = after_name(p, pos);
        let name_bytes = p.subrange(pos, end);
        if !valid_utf8(name_bytes) {
            Err(SeratoError::InvalidUtf8)
        } else if trim(decode_utf8(name_bytes)).len() == 0 && next == p.len() {
            Ok(Seq::empty())
        } else if next + 4 > p.len() {
            Err(SeratoError::UnexpectedEnd)
        } else if next + 4 + be_u32_at(p, next) > p.len() {
            Err(SeratoError::UnexpectedEnd)
        } else {
            let stop = next + 4 + be_u32_at(p, next);
            match spec_entry(decode_utf8(name_bytes), p.subrange(next + 4, stop)) {
                Err(e) => Err(e),
                Ok(m) => match spec_entries(p, stop) {
                    Err(e) => Err(e),
                    Ok(rest) => Ok(seq![m] + rest),
                },
            }
        }
    }
}

/// The markers tag: two header bytes, then base64 text up to the first null byte, which
/// decodes to a payload of version `01 01` followed by the entries.
pub open spec fn spec_markers(data: Seq<u8>) -> Result<Seq<MarkerView>, SeratoError> {
    match first_index_of(data, 0, 0) {
        None => Err(SeratoError::NoNullTerminator),
        Some(end) => {
            let text = strip_newlines(data.subrange(2, end));
            match base64_standard_decoded(text + base64_padding(text.len())) {
                None => Err(SeratoError::InvalidBase64),
                Some(payload) => if payload.len() < 2 {
                    Err(SeratoError::UnexpectedEnd)
                } else if payload[0] != 1 || payload[1] != 1 {
                    Err(SeratoError::InvalidVersion)
                } else {
                    spec_entries(payload, 2)
                },
            }
        },
    }
}

/// The first null byte of the markers data, if any, is not inside the two header bytes
/// (the header is skipped by slicing, which would panic there).
pub open spec fn header_free_of_null(data: Seq<u8>) -> bool {
    forall|i: int| 0 <= i < 2 && i < data.len() ==> data[i] != 0
}

pub open spec fn views(v: Seq<Markers>) -> Seq<MarkerView> {
    v.map_values(|m: Markers| m@)
}

fn name_from_bytes(bytes: &[u8]) -> (res: Option<String>)
    ensures
        res is Some <==> valid_utf8(bytes@),
        res matches Some(s) ==> s@ == decode_utf8(bytes@),
{
    utf8_to_string(bytes)
}

fn parse_entries(p: &[u8], pos: usize) -> (res: Result<Vec<Markers>, SeratoError>)
    requires
        pos <= p@.len(),
    ensures
        match spec_entries(p@, pos as int) {
            Ok(v) => res matches Ok(r) && views(r@) == v,
            Err(e) => res matches Err(e2) && e2 == e,
        },
    decreases p@.len() - pos,
{
    proof {
        lemma_first_index_of(p@, 0, pos as int);
    }
    let n = p.len();
    let (end, next) = match position_of(p, 0, pos) {
        Some(k) => {
            assert(k < n);
            (k, k + 1)
        },
        None => (p.len(), p.len()),
    };
    let name_bytes = copy_range(p, pos, end);
    let name = match name_from_bytes(&name_bytes) {
        Some(s) => s,
        None => return Err(SeratoError::InvalidUtf8),
    };
    let name_chars = to_chars(name.as_str());
    let trimmed = trim_chars(&name_chars);
    if trimmed.len() == 0 && next == p.len() {
        let empty: Vec<Markers> = Vec::new();
        assert(views(empty@) =~= Seq::<MarkerView>::empty());
        return Ok(empty);
    }
    if p.len() - next < 4 {
        return Err(SeratoError::UnexpectedEnd);
    }
    let len = read_be_u32(p, next);
    if p.len() - next - 4 < len as usize {
        return Err(SeratoError::UnexpectedEnd);
    }
    let stop = next + 4 + len as usize;
    let entry_data = copy_range(p, next + 4, stop);
    let entry = match Markers::load(name.as_str(), &entry_data) {
        Ok(m) => m,
        Err(e) => return Err(e),
    };
    let mut rest = match parse_entries(p, stop) {
        Ok(r) => r,
        Err(e) => return Err(e),
    };
    let ghost rest_views = views(rest@);
    rest.insert(0, entry);
    assert(views(rest@) =~= seq![entry@] + rest_views);
    Ok(rest)
}

impl Markers {
    /// Parse the `Serato Markers2` tag data into its entries.
    pub fn parse(data: &[u8]) -> (res: Result<Vec<Self>, SeratoError>)
        requires
            header_free_of_null(data@),
        ensures
            match spec_markers(data@) {
                Ok(v) => res matches Ok(r) && views(r@) == v,
                Err(e) => res matches Err(e2) && e2 == e,
            },
    {
        proof {
            lemma_first_index_of(data@, 0, 0);
        }
        let end = match position_of(data, 0, 0) {
            Some(k) => k,
            None => return Err(SeratoError::NoNullTerminator),
        };
        let mut cleaned: Vec<u8> = Vec::new();
        let mut i: usize = 2;
        while i < end
            invariant
                2 <= i <= end,
                end < data@.len(),
                cleaned@ == strip_newlines(data@.subrange(2, i as int)),
            decreases end - i,
        {
            assert(data@.subrange(2, i + 1).drop_last() == data@.subrange(2, i as int));
            if data[i] != 10 {
                cleaned.push(data[i]);
            }
            i += 1;
        }
        let ghost text = cleaned@;
        let rem = cleaned.len() % 4;
        if rem == 1 {
            cleaned.push(65);
            cleaned.push(61);
            cleaned.push(61);
        } else if rem == 2 {
            cleaned.push(61);
            cleaned.push(61);
        } else if rem == 3 {
            cleaned.push(61);
        }
        assert(cleaned@ =~= text + base64_padding(text.len()));
        let payload = match base64_decode(&cleaned) {
            Some(p) => p,
            None => return Err(SeratoError::InvalidBase64),
        };
        if payload.len() < 2 {
            return Err(SeratoError::UnexpectedEnd);
        }
        if payload[0] != 1 || payload[1] != 1 {
            return Err(SeratoError::InvalidVersion);
        }
        parse_entries(&payload, 2)
    }
}

// ---------------------------------------------------------------------------
// Display text
// ---------------------------------------------------------------------------

/// Seconds with three decimals, from milliseconds.
pub open spec fn seconds3(ms: u32) -> Seq<char> {
    decimal((ms / 1000) as nat) + seq!['.'] + pad_left(decimal((ms % 1000) as nat), 3, '0')
}

/// Seconds with two decimals, from milliseconds; the last digit is rounded half up.
pub open spec fn seconds2(ms: u32) -> Seq<char> {
    let cs = (ms as nat + 5) / 10;
    decimal(cs / 100) + seq!['.'] + pad_left(decimal(cs % 100), 2, '0')
}

/// Right-pad `s` with `c` to at least `width` characters, as `{:<width}` does.
pub open spec fn pad_right(s: Seq<char>, width: nat, c: char) -> Seq<char> {
    if s.len() >= width {
        s
    } else {
        s + Seq::new((width - s.len()) as nat, |i: int| c)
    }
}

pub open spec fn bpmlock_text(b: BpmLock) -> Seq<char> {
    "BPM Lock: "@ + (if b.enabled { "true"@ } else { "false"@ })
}

pub open spec fn color_text(c: Color) -> Seq<char> {
    "Color: ["@ + decimal(c.r as nat) + ","@ + decimal(c.g as nat) + ","@ + decimal(c.b as nat)
        + "]"@
}

/// `Cue N: name position`: the cue number counts from one, the name is padded to twelve
/// characters and the position is in seconds.
pub open spec fn cue_text(c: CueView) -> Seq<char> {
    "Cue "@ + decimal(c.index as nat + 1) + ": "@ + pad_right(c.name, 12, ' ') + " "@ + pad_left(
        seconds3(c.position),
        7,
        ' ',
    ) + "s"@
}

/// `Loop N: name [start - end] locked`; a loop without a name shows its start position.
pub open spec fn loop_text(l: LoopView) -> Seq<char> {
    "Loop "@ + decimal(l.index as nat + 1) + ": "@ + (if l.name.len() == 0 {
        position_timestamp(l.start_position)
    } else {
        l.name
    }) + " ["@ + seconds2(l.start_position) + "s - "@ + seconds2(l.end_position) + "s] "@ + (
    if l.locked {
        "locked"@
    } else {
        "unlocked"@
    })
}

pub open spec fn marker_text(m: MarkerView) -> Seq<char> {
    match m {
        MarkerView::BpmLock(b) => bpmlock_text(b),
        MarkerView::Color(c) => color_text(c),
        MarkerView::Cue(c) => cue_text(c),
        MarkerView::Loop(l) => loop_text(l),
    }
}

/// Cue and loop numbers count from one; the index must leave room for that.
pub open spec fn marker_numbered(m: MarkerView) -> bool {
    match m {
        MarkerView::Cue(c) => c.index < 255,
        MarkerView::Loop(l) => l.index < 255,
        _ => true,
    }
}

fn push_str(v: &mut Vec<char>, s: &str)
    ensures
        final(v)@ == old(v)@ + s@,
{
    let c = to_chars(s);
    extend(v, &c);
}

fn seconds3_chars(ms: u32) -> (v: Vec<char>)
    ensures
        v@ == seconds3(ms),
{
    let mut v = decimal_chars((ms / 1000) as u64);
    v.push('.');
    let frac = pad_to(decimal_chars((ms % 1000) as u64), 3, '0');
    extend(&mut v, &frac);
    v
}

fn seconds2_chars(ms: u32) -> (v: Vec<char>)
    ensures
        v@ == seconds2(ms),
{
    let cs: u64 = (ms as u64 + 5) / 10;
    let mut v = decimal_chars(cs / 100);
    v.push('.');
    let frac = pad_to(decimal_chars(cs % 100), 2, '0');
    extend(&mut v, &frac);
    v
}

fn pad_right_chars(s: &[char], width: usize, c: char) -> (v: Vec<char>)
    ensures
        v@ == pad_right(s@, width as nat, c),
{
    let mut v = crate::text::slice_copy(s, 0, s.len());
    assert(s@.subrange(0, s@.len() as int) =~= s@);
    if s.len() >= width {
        return v;
    }
    let ghost s0 = v@;
    let fill = width - s.len();
    let mut i: usize = 0;
    while i < fill
        invariant
            i <= fill,
            v@ == s0 + Seq::new(i as nat, |k: int| c),
        decreases fill - i,
    {
        v.push(c);
        i += 1;
        assert(v@ =~= s0 + Seq::new(i as nat, |k: int| c));
    }
    v
}

impl BpmLock {
    /// `BPM Lock: true` or `BPM Lock: false`.
    pub fn to_string(&self) -> (s: String)
        ensures
            s@ == bpmlock_text(*self),
    {
        let mut v = to_chars("BPM Lock: ");
        if self.enabled {
            push_str(&mut v, "true");
        } else {
            push_str(&mut v, "false");
        }
        from_chars(&v)
    }
}

impl Color {
    /// `Color: [r,g,b]`.
    pub fn to_string(&self) -> (s: String)
        ensures
            s@ == color_text(*self),
    {
        let mut v = to_chars("Color: [");
        extend(&mut v, &decimal_chars(self.r as u64));
        push_str(&mut v, ",");
        extend(&mut v, &decimal_chars(self.g as u64));
        push_str(&mut v, ",");
        extend(&mut v, &decimal_chars(self.b as u64));
        push_str(&mut v, "]");
        from_chars(&v)
    }
}

impl Cue {
    /// `Cue N: name position`.
    pub fn to_string(&self) -> (s: String)
        requires
            self.index < 255,
        ensures
            s@ == cue_text(self@),
    {
        let mut v = to_chars("Cue ");
        extend(&mut v, &decimal_chars(self.index as u64 + 1));
        push_str(&mut v, ": ");
        extend(&mut v, &pad_right_chars(&to_chars(self.name.as_str()), 12, ' '));
        push_str(&mut v, " ");
        extend(&mut v, &pad_to(seconds3_chars(self.position), 7, ' '));
        push_str(&mut v, "s");
        from_chars(&v)
    }
}

impl Loop {
    /// `Loop N: name [start - end] locked`.
    pub fn to_string(&self) -> (s: String)
        requires
            self.index < 255,
        ensures
            s@ == loop_text(self@),
    {
        let mut v = to_chars("Loop ");
        extend(&mut v, &decimal_chars(self.index as u64 + 1));
        push_str(&mut v, ": ");
        let name = to_chars(self.name.as_str());
        if name.len() == 0 {
            extend(&mut v, &to_chars(format_position_timestamp(self.start_position).as_str()));
        } else {
            extend(&mut v, &name);
        }
        push_str(&mut v, " [");
        extend(&mut v, &seconds2_chars(self.start_position));
        push_str(&mut v, "s - ");
        extend(&mut v, &seconds2_chars(self.end_position));
        push_str(&mut v, "s] ");
        if self.locked {
            push_str(&mut v, "locked");
        } else {
            push_str(&mut v, "unlocked");
        }
        from_chars(&v)
    }
}

impl Markers {
    /// The entry's display text.
    pub fn to_string(&self) -> (s: String)
        requires
            marker_numbered(self@),
        ensures
            s@ == marker_text(self@),
    {
        match self {
            Markers::BpmLock(b) => b.to_string(),
            Markers::Color(c) => c.to_string(),
            Markers::Cue(c) => c.to_string(),
            Markers::Loop(l) => l.to_string(),
        }
    }
}

/// The bytes up to the first null byte, without it; all of them where there is none.
pub open spec fn until_null(data: Seq<u8>) -> Seq<u8> {
    match first_index_of(data, 0, 0) {
        Some(k) => data.take(k),
        None => data,
    }
}

/// Read bytes up to a null terminator, which is not included.
pub fn read_bytes(data: &[u8]) -> (r: Vec<u8>)
    ensures
        r@ == until_null(data@),
{
    match position_of(data, 0, 0) {
        Some(k) => {
            proof {
                lemma_first_index_of(data@, 0, 0);
            }
            let r = copy_range(data, 0, k);
            assert(r@ =~= data@.take(k as int));
            r
        },
        None => {
            let r = copy_range(data, 0, data.len());
            assert(r@ =~= data@);
            r
        },
    }
}

} // verus!
