//! Serato custom tag data stored in `GEOB` frames, and Serato `.crate` files.
pub mod analysis;
pub mod autotags;
pub mod beatgrid;
pub mod markers;
pub mod overview;
pub mod serato_crate;

use vstd::prelude::*;

use crate::numfmt::{
    decimal, decimal_chars, decimal_pad2, decimal_pad2_chars, hex_pad2, hex_pad2_chars, hex_pad8,
    hex_pad8_chars,
};
use crate::serato::analysis::AnalysisVersion;
use crate::serato::autotags::{spec_autotags, AutoTags};
use crate::serato::beatgrid::{spec_beatgrid, BeatGrid};
use crate::serato::markers::{header_free_of_null, spec_markers, views, Markers};
use crate::serato::overview::{spec_overview, Overview};
use crate::text::{extend, from_chars, str_eq};

verus! {

/// Serato tag types.
#[derive(Debug, Clone, Copy, PartialEq, Eq, PartialOrd, Ord)]
pub enum SeratoTag {
    /// Serato analysis version number
    Analysis,
    /// BPM, auto gain, and manual gain values
    Autotags,
    /// Beatgrid markers
    BeatGrid,
    /// Cue points, loops, track color, and BPM lock status
    Markers,
    /// Waveform overview data.
    Overview,
}

/// Why Serato data could not be read.
#[derive(Debug, Clone, Copy, PartialEq, Eq)]
pub enum SeratoError {
    /// The tag description is not one of the Serato tags.
    UnknownTag,
    /// The data is shorter than its format needs.
    TooShort,
    /// A length field does not match the data.
    InvalidLength,
    /// The data ends inside a field.
    UnexpectedEnd,
    /// Text that should be UTF-8 is not.
    InvalidUtf8,
    /// Text that should be UTF-16 is not.
    InvalidUtf16,
    /// The markers data has no null terminator.
    NoNullTerminator,
    /// The markers data is not valid base64.
    InvalidBase64,
    /// The markers payload has an unknown version.
    InvalidVersion,
    /// A markers entry has an unknown type.
    UnknownEntry,
    /// A crate file does not start with a version tag.
    MissingVersion,
    /// A crate track entry has no path.
    MissingTrackPath,
    /// A crate file is empty.
    EmptyFile,
    /// A number field holds no number.
    InvalidNumber,
}

pub open spec fn tag_from_description(s: Seq<char>) -> Option<SeratoTag> {
    if s == "Serato Analysis"@ {
        Some(SeratoTag::Analysis)
    } else if s == "Serato Autotags"@ {
        Some(SeratoTag::Autotags)
    } else if s == "Serato BeatGrid"@ {
        Some(SeratoTag::BeatGrid)
    } else if s == "Serato Markers2"@ {
        Some(SeratoTag::Markers)
    } else if s == "Serato Overview"@ {
        Some(SeratoTag::Overview)
    } else {
        None
    }
}

pub open spec fn tag_display(t: SeratoTag) -> Seq<char> {
    match t {
        SeratoTag::Analysis => "SeratoAnalysis"@,
        SeratoTag::Autotags => "SeratoAutotags"@,
        SeratoTag::BeatGrid => "SeratoBeatGrid"@,
        SeratoTag::Markers => "SeratoMarkers"@,
        SeratoTag::Overview => "SeratoOverview"@,
    }
}

impl SeratoTag {
    /// Parse a `GEOB` frame description into the Serato tag it names.
    pub fn from_str(s: &str) -> (res: Result<SeratoTag, SeratoError>)
        ensures
            match tag_from_description(s@) {
                Some(t) => res == Ok::<SeratoTag, SeratoError>(t),
                None => res == Err::<SeratoTag, SeratoError>(SeratoError::UnknownTag),
            },
    {
        if str_eq(s, "Serato Analysis") {
            Ok(SeratoTag::Analysis)
        } else if str_eq(s, "Serato Autotags") {
            Ok(SeratoTag::Autotags)
        } else if str_eq(s, "Serato BeatGrid") {
            Ok(SeratoTag::BeatGrid)
        } else if str_eq(s, "Serato Markers2") {
            Ok(SeratoTag::Markers)
        } else if str_eq(s, "Serato Overview") {
            Ok(SeratoTag::Overview)
        } else {
            Err(SeratoError::UnknownTag)
        }
    }

    /// The display name of the tag.
    pub fn to_string(&self) -> (s: String)
        ensures
            s@ == tag_display(*self),
    {
        match self {
            SeratoTag::Analysis => String::from_str("SeratoAnalysis"),
            SeratoTag::Autotags => String::from_str("SeratoAutotags"),
            SeratoTag::BeatGrid => String::from_str("SeratoBeatGrid"),
            SeratoTag::Markers => String::from_str("SeratoMarkers"),
            SeratoTag::Overview => String::from_str("SeratoOverview"),
        }
    }
}

/// The tenths of a second within the second, rounded half up and kept to one digit: 950 ms
/// and more within a second show as 9, without carrying into the seconds.
pub open spec fn tenths_digit(ms: u32) -> nat {
    let t = (((ms % 1000) + 50) / 100) as nat;
    if t > 9 {
        9
    } else {
        t
    }
}

/// `MM:SS.T` for a position in milliseconds, as Serato shows it: whole minutes, whole
/// seconds within the minute, and one digit of tenths (999 ms shows as `00:00.9`).
pub open spec fn position_timestamp(ms: u32) -> Seq<char> {
    decimal_pad2((ms / 60000) as nat) + seq![':'] + decimal_pad2(((ms % 60000) / 1000) as nat)
        + seq!['.'] + decimal(tenths_digit(ms))
}

/// Format a position in milliseconds as `MM:SS.T` to match Serato.
pub fn format_position_timestamp(position_in_ms: u32) -> (s: String)
    ensures
        s@ == position_timestamp(position_in_ms),
{
    let minutes = (position_in_ms / 60000) as u64;
    let seconds = ((position_in_ms % 60000) / 1000) as u64;
    let rounded = ((position_in_ms % 1000) + 50) / 100;
    let tenths: u64 = if rounded > 9 {
        9
    } else {
        rounded as u64
    };
    let mut v = decimal_pad2_chars(minutes);
    v.push(':');
    let s = decimal_pad2_chars(seconds);
    extend(&mut v, &s);
    v.push('.');
    let d = decimal_chars(tenths);
    extend(&mut v, &d);
    from_chars(&v)
}

/// Bytes as two-digit lowercase hex, separated by single spaces.
pub open spec fn byte_string(data: Seq<u8>) -> Seq<char>
    decreases data.len(),
{
    if data.len() == 0 {
        Seq::empty()
    } else if data.len() == 1 {
        hex_pad2(data[0] as nat)
    } else {
        byte_string(data.drop_last()) + seq![' '] + hex_pad2(data.last() as nat)
    }
}

/// Debug helper: bytes as hexadecimal separated by spaces.
pub fn format_as_byte_string(data: &[u8]) -> (s: String)
    ensures
        s@ == byte_string(data@),
{
    let mut v: Vec<char> = Vec::new();
    let mut i: usize = 0;
    while i < data.len()
        invariant
            i <= data.len(),
            v@ == byte_string(data@.take(i as int)),
        decreases data.len() - i,
    {
        let ghost prev = data@.take(i as int);
        assert(data@.take(i + 1).drop_last() == prev);
        if i > 0 {
            v.push(' ');
        }
        let h = hex_pad2_chars(data[i] as u64);
        extend(&mut v, &h);
        i += 1;
    }
    assert(data@.take(data@.len() as int) == data@);
    from_chars(&v)
}

/// `byte` as `format!` shows it in the ASCII column of a hexdump.
pub open spec fn dump_char(byte: u8) -> char {
    if (0x21 <= byte && byte <= 0x7e) || byte == 0x20 {
        byte as char
    } else {
        '.'
    }
}

/// Two-digit hex of each byte, each followed by a space.
pub open spec fn hex_cells(bytes: Seq<u8>) -> Seq<char>
    decreases bytes.len(),
{
    if bytes.len() == 0 {
        Seq::empty()
    } else {
        hex_cells(bytes.drop_last()) + hex_pad2(bytes.last() as nat) + seq![' ']
    }
}

/// The ASCII column of a hexdump line.
pub open spec fn ascii_cells(bytes: Seq<u8>) -> Seq<char> {
    bytes.map_values(|b: u8| dump_char(b))
}

/// `n` copies of `s`.
pub open spec fn repeat(s: Seq<char>, n: nat) -> Seq<char>
    decreases n,
{
    if n == 0 {
        Seq::empty()
    } else {
        repeat(s, (n - 1) as nat) + s
    }
}

/// One hexdump line for the (at most 16) bytes that start at `offset`.
pub open spec fn dump_line(bytes: Seq<u8>, offset: nat, ascii: bool) -> Seq<char> {
    "    "@ + hex_pad8(offset) + "  "@ + hex_cells(bytes) + repeat("   "@, (16 - bytes.len()) as nat)
        + (if ascii {
        " |"@ + ascii_cells(bytes) + "|"@
    } else {
        Seq::empty()
    }) + "\n"@
}

/// The hexdump lines from `offset` on.
pub open spec fn dump_from(buffer: Seq<u8>, offset: nat, ascii: bool) -> Seq<char>
    decreases buffer.len() - offset,
{
    if offset >= buffer.len() {
        Seq::empty()
    } else if buffer.len() - offset <= 16 {
        dump_line(buffer.subrange(offset as int, buffer.len() as int), offset, ascii)
    } else {
        dump_line(buffer.subrange(offset as int, offset + 16 as int), offset, ascii) + dump_from(
            buffer,
            offset + 16,
            ascii,
        )
    }
}

fn push_str(v: &mut Vec<char>, s: &str)
    ensures
        final(v)@ == old(v)@ + s@,
{
    let w = crate::text::to_chars(s);
    extend(v, &w);
}

fn dump_line_chars(buffer: &[u8], from: usize, to: usize, ascii: bool) -> (v: Vec<char>)
    requires
        from <= to <= buffer@.len(),
        to - from <= 16,
    ensures
        v@ == dump_line(buffer@.subrange(from as int, to as int), from as nat, ascii),
{
    let ghost bytes = buffer@.subrange(from as int, to as int);
    let mut v: Vec<char> = Vec::new();
    push_str(&mut v, "    ");
    let h = hex_pad8_chars(from as u64);
    extend(&mut v, &h);
    push_str(&mut v, "  ");
    let ghost head = v@;
    let mut i = from;
    while i < to
        invariant
            from <= i <= to <= buffer@.len(),
            v@ == head + hex_cells(buffer@.subrange(from as int, i as int)),
        decreases to - i,
    {
        assert(buffer@.subrange(from as int, i + 1).drop_last() == buffer@.subrange(
            from as int,
            i as int,
        ));
        let h = hex_pad2_chars(buffer[i] as u64);
        extend(&mut v, &h);
        v.push(' ');
        i += 1;
    }
    let ghost head2 = v@;
    let pad = 16 - (to - from);
    let mut k: usize = 0;
    while k < pad
        invariant
            k <= pad,
            v@ == head2 + repeat("   "@, k as nat),
        decreases pad - k,
    {
        push_str(&mut v, "   ");
        k += 1;
    }
    if ascii {
        push_str(&mut v, " |");
        let ghost head3 = v@;
        let mut j = from;
        while j < to
            invariant
                from <= j <= to <= buffer@.len(),
                v@ == head3 + ascii_cells(buffer@.subrange(from as int, j as int)),
            decreases to - j,
        {
            let b = buffer[j];
            let c = if (0x21 <= b && b <= 0x7e) || b == 0x20 {
                b as char
            } else {
                '.'
            };
            v.push(c);
            assert(ascii_cells(buffer@.subrange(from as int, j + 1)) == ascii_cells(
                buffer@.subrange(from as int, j as int),
            ).push(c));
            j += 1;
        }
        push_str(&mut v, "|");
    }
    push_str(&mut v, "\n");
    v
}

/// Debug helper: a hexdump of `buffer`, 16 bytes per line, with an optional ASCII column.
pub fn hexdump(buffer: &[u8], ascii: bool) -> (s: String)
    ensures
        s@ == dump_from(buffer@, 0, ascii),
{
    let mut v: Vec<char> = Vec::new();
    let mut offset: usize = 0;
    while offset < buffer.len()
        invariant
            offset <= buffer@.len(),
            v@ + dump_from(buffer@, offset as nat, ascii) == dump_from(buffer@, 0, ascii),
        decreases buffer.len() - offset,
    {
        if buffer.len() - offset <= 16 {
            let line = dump_line_chars(buffer, offset, buffer.len(), ascii);
            extend(&mut v, &line);
            assert(dump_from(buffer@, buffer@.len() as nat, ascii) == Seq::<char>::empty());
            offset = buffer.len();
        } else {
            let line = dump_line_chars(buffer, offset, offset + 16, ascii);
            let ghost old_v = v@;
            extend(&mut v, &line);
            assert(old_v + (line@ + dump_from(buffer@, (offset + 16) as nat, ascii)) == v@
                + dump_from(buffer@, (offset + 16) as nat, ascii));
            offset = offset + 16;
        }
    }
    assert(v@ + Seq::<char>::empty() == v@);
    from_chars(&v)
}


// ---------------------------------------------------------------------------
// All Serato data of a file
// ---------------------------------------------------------------------------

/// An encapsulated object (`GEOB` frame): its description and data.
#[derive(Debug, Clone)]
pub struct EncapsulatedObject {
    pub description: String,
    pub data: Vec<u8>,
}

/// All Serato custom tag data in a file.
#[derive(Debug, Clone, Default)]
pub struct SeratoData {
    pub analysis: Option<AnalysisVersion>,
    pub autotags: Option<AutoTags>,
    pub beatgrid: Option<BeatGrid>,
    pub markers: Vec<Markers>,
    pub overview: Option<Overview>,
}

/// The tag data of `kind` can be read.
pub open spec fn parses(kind: SeratoTag, data: Seq<u8>) -> bool {
    match kind {
        SeratoTag::Analysis => data.len() >= 2,
        SeratoTag::Autotags => spec_autotags(data) is Ok,
        SeratoTag::BeatGrid => spec_beatgrid(data) is Ok,
        SeratoTag::Markers => spec_markers(data) is Ok,
        SeratoTag::Overview => spec_overview(data) is Ok,
    }
}

/// Objects as (description, data) pairs.
pub open spec fn object_views(objs: Seq<EncapsulatedObject>) -> Seq<(Seq<char>, Seq<u8>)> {
    objs.map_values(|o: EncapsulatedObject| (o.description@, o.data@))
}

/// Index of the last object that holds readable data of `kind`.
pub open spec fn last_parsed(objs: Seq<(Seq<char>, Seq<u8>)>, kind: SeratoTag) -> Option<int>
    decreases objs.len(),
{
    if objs.len() == 0 {
        None
    } else if tag_from_description(objs.last().0) == Some(kind) && parses(kind, objs.last().1) {
        Some(objs.len() - 1)
    } else {
        last_parsed(objs.drop_last(), kind)
    }
}

/// What the fields of `d` hold after the first `n` objects: each comes from the last
/// readable object of its kind.
pub open spec fn fields_match(d: SeratoData, objs: Seq<(Seq<char>, Seq<u8>)>, n: int) -> bool {
    &&& match last_parsed(objs.take(n), SeratoTag::Analysis) {
        Some(i) => d.analysis == Some(
            AnalysisVersion { major_version: objs[i].1[0], minor_version: objs[i].1[1] },
        ),
        None => d.analysis is None,
    }
    &&& match last_parsed(objs.take(n), SeratoTag::Autotags) {
        Some(i) => d.autotags matches Some(a) && spec_autotags(objs[i].1) == Ok::<
            (Seq<char>, Seq<char>, Option<Seq<char>>),
            SeratoError,
        >(a.fields()),
        None => d.autotags is None,
    }
    &&& match last_parsed(objs.take(n), SeratoTag::BeatGrid) {
        Some(i) => d.beatgrid matches Some(g) && spec_beatgrid(objs[i].1) == Ok::<
            (u32, Seq<beatgrid::BeatGridMarker>),
            SeratoError,
        >((g.num_markers, g.markers@)),
        None => d.beatgrid is None,
    }
    &&& match last_parsed(objs.take(n), SeratoTag::Markers) {
        Some(i) => spec_markers(objs[i].1) == Ok::<Seq<markers::MarkerView>, SeratoError>(
            views(d.markers@),
        ),
        None => d.markers@.len() == 0,
    }
    &&& match last_parsed(objs.take(n), SeratoTag::Overview) {
        Some(i) => d.overview matches Some(o) && spec_overview(objs[i].1) == Ok::<
            Seq<Seq<u8>>,
            SeratoError,
        >(o.block_views()),
        None => d.overview is None,
    }
}

/// Some object holds readable Serato data.
pub open spec fn parsed_any(objs: Seq<(Seq<char>, Seq<u8>)>) -> bool {
    last_parsed(objs, SeratoTag::Analysis) is Some || last_parsed(objs, SeratoTag::Autotags) is Some
        || last_parsed(objs, SeratoTag::BeatGrid) is Some || last_parsed(objs, SeratoTag::Markers) is Some
        || last_parsed(objs, SeratoTag::Overview) is Some
}

proof fn lemma_last_parsed_step(objs: Seq<(Seq<char>, Seq<u8>)>, i: int, kind: SeratoTag)
    requires
        0 <= i < objs.len(),
    ensures
        last_parsed(objs.take(i + 1), kind) == (if tag_from_description(objs[i].0) == Some(kind)
            && parses(kind, objs[i].1) {
            Some(i)
        } else {
            last_parsed(objs.take(i), kind)
        }),
{
    assert(objs.take(i + 1).drop_last() =~= objs.take(i));
    assert(objs.take(i + 1).last() == objs[i]);
}

/// Markers data whose first null byte lies in the header cannot be sliced.
pub open spec fn markers_sliceable(objs: Seq<(Seq<char>, Seq<u8>)>) -> bool {
    forall|i: int|
        0 <= i < objs.len() && tag_from_description(#[trigger] objs[i].0) == Some(SeratoTag::Markers)
            ==> header_free_of_null(objs[i].1)
}

impl SeratoData {
    /// Parse the Serato tags among the encapsulated objects of a file. A later object of a
    /// kind replaces an earlier one; data that cannot be read is skipped.
    /// `None` when no Serato data could be read.
    pub fn parse(objects: &[EncapsulatedObject]) -> (res: Option<Self>)
        requires
            markers_sliceable(object_views(objects@)),
        ensures
            res is Some <==> parsed_any(object_views(objects@)),
            res matches Some(d) ==> fields_match(d, object_views(objects@), objects@.len() as int),
    {
        let ghost all = object_views(objects@);
        let mut data = SeratoData {
            analysis: None,
            autotags: None,
            beatgrid: None,
            markers: Vec::new(),
            overview: None,
        };
        let mut any = false;
        let mut i: usize = 0;
        assert(all.take(0) =~= Seq::<(Seq<char>, Seq<u8>)>::empty());
        while i < objects.len()
            invariant
                i <= objects@.len(),
                all == object_views(objects@),
                all.len() == objects@.len(),
                markers_sliceable(all),
                fields_match(data, all, i as int),
                any == parsed_any(all.take(i as int)),
            decreases objects.len() - i,
        {
            proof {
                lemma_last_parsed_step(all, i as int, SeratoTag::Analysis);
                lemma_last_parsed_step(all, i as int, SeratoTag::Autotags);
                lemma_last_parsed_step(all, i as int, SeratoTag::BeatGrid);
                lemma_last_parsed_step(all, i as int, SeratoTag::Markers);
                lemma_last_parsed_step(all, i as int, SeratoTag::Overview);
            }
            assert(all[i as int] == (objects@[i as int].description@, objects@[i as int].data@));
            let object = &objects[i];
            match SeratoTag::from_str(object.description.as_str()) {
                Ok(SeratoTag::Analysis) => {
                    if let Ok(v) = AnalysisVersion::parse(&object.data) {
                        data.analysis = Some(v);
                        any = true;
                    }
                },
                Ok(SeratoTag::Autotags) => {
                    if let Ok(v) = AutoTags::parse(&object.data) {
                        data.autotags = Some(v);
                        any = true;
                    }
                },
                Ok(SeratoTag::BeatGrid) => {
                    if let Ok(v) = BeatGrid::parse(&object.data) {
                        data.beatgrid = Some(v);
                        any = true;
                    }
                },
                Ok(SeratoTag::Markers) => {
                    assert(tag_from_description(all[i as int].0) == Some(SeratoTag::Markers));
                    if let Ok(v) = Markers::parse(&object.data) {
                        data.markers = v;
                        any = true;
                    }
                },
                Ok(SeratoTag::Overview) => {
                    if let Ok(v) = Overview::parse(&object.data) {
                        data.overview = Some(v);
                        any = true;
                    }
                },
                Err(_) => {},
            }
            i += 1;
        }
        assert(all.take(objects@.len() as int) =~= all);
        if any {
            Some(data)
        } else {
            None
        }
    }
}

} // verus!
