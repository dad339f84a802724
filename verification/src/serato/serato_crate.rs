//! Serato `.crate` files: tag-length-value entries with UTF-16BE text.
use vstd::prelude::*;

use crate::bytes::{be_u32_at, copy_range, read_be_u32, utf8_to_string};
use crate::serato::SeratoError;
use crate::numfmt::{decimal, decimal_chars};
use crate::paths::{file_stem, file_stem_chars};
use crate::text::{extend, from_chars, replace, replace_all, str_eq, to_chars};
use vstd::utf8::{decode_utf8, encode_utf8, is_ascii_chars, valid_utf8};

verus! {

// ---------------------------------------------------------------------------
// UTF-16BE
// ---------------------------------------------------------------------------

/// The big-endian 16-bit code units of `data` (a trailing odd byte is not a unit).
pub open spec fn utf16_units(data: Seq<u8>) -> Seq<u16> {
    Seq::new(data.len() / 2, |i: int| (data[2 * i] as int * 256 + data[2 * i + 1] as int) as u16)
}

pub open spec fn is_high_surrogate(u: u16) -> bool {
    0xD800 <= u && u <= 0xDBFF
}

pub open spec fn is_low_surrogate(u: u16) -> bool {
    0xDC00 <= u && u <= 0xDFFF
}

/// The code points that UTF-16 code units stand for, `None` for an unpaired surrogate.
pub open spec fn utf16_points(u: Seq<u16>) -> Option<Seq<u32>>
    decreases u.len(),
{
    if u.len() == 0 {
        Some(Seq::empty())
    } else if !is_high_surrogate(u[0]) && !is_low_surrogate(u[0]) {
        match utf16_points(u.drop_first()) {
            Some(r) => Some(seq![u[0] as u32] + r),
            None => None,
        }
    } else if is_high_surrogate(u[0]) && u.len() >= 2 && is_low_surrogate(u[1]) {
        match utf16_points(u.skip(2)) {
            Some(r) => Some(
                seq![(0x10000 + (u[0] - 0xD800) * 1024 + (u[1] - 0xDC00)) as u32] + r,
            ),
            None => None,
        }
    } else {
        None
    }
}

/// UTF-16 code units of one character.
pub open spec fn utf16_encode_char(c: char) -> Seq<u16> {
    let v = c as u32;
    if v < 0x10000 {
        seq![v as u16]
    } else {
        seq![(0xD800 + (v - 0x10000) / 1024) as u16, (0xDC00 + (v - 0x10000) % 1024) as u16]
    }
}

/// `str::encode_utf16`.
pub open spec fn utf16_encode(s: Seq<char>) -> Seq<u16>
    decreases s.len(),
{
    if s.len() == 0 {
        Seq::empty()
    } else {
        utf16_encode_char(s[0]) + utf16_encode(s.drop_first())
    }
}

/// Code units as big-endian bytes.
pub open spec fn be_bytes(u: Seq<u16>) -> Seq<u8> {
    Seq::new(2 * u.len(), |i: int| if i % 2 == 0 { (u[i / 2] / 256) as u8 } else { (u[i / 2] % 256) as u8 })
}

pub open spec fn code_points(s: Seq<char>) -> Seq<u32> {
    s.map_values(|c: char| c as u32)
}

/// UTF-16BE text as code points: an odd length or an unpaired surrogate is an error.
pub open spec fn spec_decode_utf16be(data: Seq<u8>) -> Result<Seq<u32>, SeratoError> {
    if data.len() % 2 == 1 {
        Err(SeratoError::InvalidLength)
    } else {
        match utf16_points(utf16_units(data)) {
            None => Err(SeratoError::InvalidUtf16),
            Some(p) => Ok(p),
        }
    }
}

/// Texts with the same code points are the same text.
proof fn lemma_code_points_injective(s: Seq<char>, t: Seq<char>)
    requires
        code_points(s) == code_points(t),
    ensures
        s == t,
{
    assert(s.len() == code_points(s).len());
    assert(t.len() == code_points(t).len());
    assert forall|i: int| 0 <= i < s.len() implies s[i] == t[i] by {
        assert(code_points(s)[i] == code_points(t)[i]);
        assert(code_points(s)[i] == s[i] as u32);
        assert(code_points(t)[i] == t[i] as u32);
        lemma_char_inj(s[i], t[i]);
    }
    assert(s =~= t);
}

proof fn lemma_char_inj(a: char, b: char)
    requires
        (a as u32) == (b as u32),
    ensures
        a == b,
{
}

/// `char::from_u32`: the character with that code point, `None` for surrogates and values above `0x10FFFF`.
#[verifier::external_body]
pub(crate) fn char_from_u32(u: u32) -> (c: Option<char>)
    ensures
        c is Some <==> (u < 0xD800 || (0xE000 <= u && u <= 0x10FFFF)),
        c matches Some(ch) ==> ch as u32 == u,
{
    char::from_u32(u)
}

proof fn lemma_points_step(u: Seq<u16>, i: int)
    requires
        0 <= i < u.len(),
    ensures
        u.skip(i)[0] == u[i],
        u.skip(i).drop_first() == u.skip(i + 1),
        i + 1 < u.len() ==> u.skip(i)[1] == u[i + 1],
        i + 2 <= u.len() ==> u.skip(i).skip(2) == u.skip(i + 2),
{
    assert(u.skip(i).drop_first() == u.skip(i + 1));
    if i + 2 <= u.len() {
        assert(u.skip(i).skip(2) == u.skip(i + 2));
    }
}

/// Decode UTF-16BE bytes.
pub fn decode_utf16be(data: &[u8]) -> (res: Result<String, SeratoError>)
    ensures
        data@.len() % 2 == 1 ==> res == Err::<String, SeratoError>(SeratoError::InvalidLength),
        data@.len() % 2 == 0 ==> match utf16_points(utf16_units(data@)) {
            None => res == Err::<String, SeratoError>(SeratoError::InvalidUtf16),
            Some(p) => res matches Ok(s) && code_points(s@) == p,
        },
        match spec_decode_utf16be(data@) {
            Ok(p) => res matches Ok(s) && code_points(s@) == p,
            Err(e) => res == Err::<String, SeratoError>(e),
        },
        forall|s: Seq<char>| #[trigger] be_bytes(utf16_encode(s)) == data@ ==> (res matches Ok(t)
            && t@ == s),
{
    proof {
        assert forall|s: Seq<char>| #[trigger] be_bytes(utf16_encode(s)) == data@ implies (
        spec_decode_utf16be(data@) == Ok::<Seq<u32>, SeratoError>(code_points(s))) by {
            law_utf16be_roundtrip(s);
        }
    }
    let res = decode_utf16be_inner(data);
    proof {
        assert forall|s: Seq<char>| #[trigger] be_bytes(utf16_encode(s)) == data@ implies (
        res matches Ok(t) && t@ == s) by {
            if let Ok(t) = res {
                lemma_code_points_injective(t@, s);
            }
        }
    }
    res
}

fn decode_utf16be_inner(data: &[u8]) -> (res: Result<String, SeratoError>)
    ensures
        match spec_decode_utf16be(data@) {
            Ok(p) => res matches Ok(s) && code_points(s@) == p,
            Err(e) => res == Err::<String, SeratoError>(e),
        },
{
    if data.len() % 2 == 1 {
        return Err(SeratoError::InvalidLength);
    }
    let ghost units = utf16_units(data@);
    let len = data.len();
    let n = len / 2;
    let mut out: Vec<char> = Vec::new();
    let mut i: usize = 0;
    assert(units.skip(0) == units);
    while i < n
        invariant
            n == data@.len() / 2,
            n == len / 2,
            len == data@.len(),
            data@.len() % 2 == 0,
            units == utf16_units(data@),
            i <= n,
            match utf16_points(units.skip(i as int)) {
                Some(r) => utf16_points(units) == Some(code_points(out@) + r),
                None => utf16_points(units) is None,
            },
        decreases n - i,
    {
        proof {
            lemma_points_step(units, i as int);
        }
        assert(2 * i + 1 < len) by (nonlinear_arith)
            requires
                i < n,
                n == len / 2,
        ;
        let a = (data[2 * i] as u16) * 256 + data[2 * i + 1] as u16;
        assert(a == units[i as int]);
        if a < 0xD800 || a > 0xDFFF {
            match char_from_u32(a as u32) {
                Some(c) => {
                    let ghost before = code_points(out@);
                    out.push(c);
                    assert(code_points(out@) =~= before + seq![a as u32]);
                    i += 1;
                },
                None => {
                    return Err(SeratoError::InvalidUtf16);
                },
            }
        } else if a <= 0xDBFF && i + 1 < n {
            assert(2 * i + 3 < len) by (nonlinear_arith)
                requires
                    i + 1 < n,
                    n == len / 2,
            ;
            let b = (data[2 * i + 2] as u16) * 256 + data[2 * i + 3] as u16;
            assert(b == units[i + 1]);
            if 0xDC00 <= b && b <= 0xDFFF {
                let cp: u32 = 0x10000 + ((a - 0xD800) as u32) * 1024 + (b - 0xDC00) as u32;
                match char_from_u32(cp) {
                    Some(c) => {
                        let ghost before = code_points(out@);
                        out.push(c);
                        assert(code_points(out@) =~= before + seq![cp]);
                        i += 2;
                    },
                    None => {
                        return Err(SeratoError::InvalidUtf16);
                    },
                }
            } else {
                return Err(SeratoError::InvalidUtf16);
            }
        } else {
            return Err(SeratoError::InvalidUtf16);
        }
    }
    assert(units.skip(i as int).len() == 0);
    assert(code_points(out@) + Seq::<u32>::empty() == code_points(out@));
    Ok(from_chars(&out))
}

proof fn lemma_char_range(c: char)
    ensures
        (c as u32) <= 0x10FFFF,
        !(0xD800 <= (c as u32) && (c as u32) <= 0xDFFF),
{
}

proof fn lemma_units_of_be_bytes(u: Seq<u16>)
    ensures
        utf16_units(be_bytes(u)) == u,
{
    let b = be_bytes(u);
    assert forall|i: int| 0 <= i < u.len() implies #[trigger] utf16_units(b)[i] == u[i] by {
        assert((2 * i) % 2 == 0);
        assert((2 * i + 1) % 2 == 1);
        assert((2 * i) / 2 == i);
        assert((2 * i + 1) / 2 == i);
    }
    assert(utf16_units(b) =~= u);
}

proof fn lemma_points_of_encoding(s: Seq<char>)
    ensures
        utf16_points(utf16_encode(s)) == Some(code_points(s)),
    decreases s.len(),
{
    if s.len() > 0 {
        lemma_points_of_encoding(s.drop_first());
        let e = utf16_encode(s);
        let head = utf16_encode_char(s[0]);
        let c = s[0];
        lemma_char_range(c);
        let v = c as u32;
        assert(e == head + utf16_encode(s.drop_first()));
        if v < 0x10000 {
            assert(e.drop_first() == utf16_encode(s.drop_first()));
        } else {
            let w = v - 0x10000;
            assert(w / 1024 < 1024) by (nonlinear_arith)
                requires
                    0 <= w < 0x100000,
            ;
            assert(e.skip(2) == utf16_encode(s.drop_first()));
            assert(0x10000 + (w / 1024) * 1024 + w % 1024 == v) by (nonlinear_arith)
                requires
                    w == v - 0x10000,
                    w >= 0,
            ;
        }
        assert(code_points(s) == seq![v] + code_points(s.drop_first()));
    } else {
        assert(code_points(s) =~= Seq::<u32>::empty());
    }
}

/// Decoding the UTF-16BE encoding of any text gives the text back.
pub proof fn law_utf16be_roundtrip(s: Seq<char>)
    ensures
        utf16_points(utf16_units(be_bytes(utf16_encode(s)))) == Some(code_points(s)),
        spec_decode_utf16be(be_bytes(utf16_encode(s))) == Ok::<Seq<u32>, SeratoError>(code_points(s)),
{
    lemma_units_of_be_bytes(utf16_encode(s));
    lemma_points_of_encoding(s);
    assert(be_bytes(utf16_encode(s)).len() % 2 == 0) by {
        assert(be_bytes(utf16_encode(s)).len() == 2 * utf16_encode(s).len());
    }
}


// ---------------------------------------------------------------------------
// Tag-length-value entries
// ---------------------------------------------------------------------------

/// Reading one entry at `o`: a four-byte UTF-8 tag name, a big-endian `u32` length and
/// that many value bytes. Gives the entry or the error, and the offset afterwards
/// (advanced past the header even when the value is cut short).
pub open spec fn spec_read_tag(data: Seq<u8>, o: int) -> (
    Result<(Seq<char>, Seq<u8>), SeratoError>,
    int,
) {
    if o < 0 || o + 8 > data.len() {
        (Err(SeratoError::TooShort), o)
    } else if !valid_utf8(data.subrange(o, o + 4)) {
        (Err(SeratoError::InvalidUtf8), o)
    } else if o + 8 + be_u32_at(data, o + 4) > data.len() {
        (Err(SeratoError::InvalidLength), o + 8)
    } else {
        (
            Ok(
                (
                    decode_utf8(data.subrange(o, o + 4)),
                    data.subrange(o + 8, o + 8 + be_u32_at(data, o + 4)),
                ),
            ),
            o + 8 + be_u32_at(data, o + 4),
        )
    }
}

/// Four name bytes, the big-endian length of `value`, then `value`.
pub open spec fn tlv_encode(name: Seq<u8>, value: Seq<u8>) -> Seq<u8> {
    let n = value.len();
    name + seq![
        ((n / 0x1000000) % 256) as u8,
        ((n / 0x10000) % 256) as u8,
        ((n / 0x100) % 256) as u8,
        (n % 256) as u8,
    ] + value
}

/// Read one tag-length-value entry at `offset`, advancing `offset` past it.
pub fn read_tag(data: &[u8], offset: &mut usize) -> (res: Result<(String, Vec<u8>), SeratoError>)
    ensures
        ({
            let (r, next) = spec_read_tag(data@, *old(offset) as int);
            &&& *final(offset) as int == next
            &&& match r {
                Ok((t, v)) => res matches Ok((name, value)) && name@ == t && value@ == v,
                Err(e) => res == Err::<(String, Vec<u8>), SeratoError>(e),
            }
        }),
{
    let o = *offset;
    if data.len() < 8 || o > data.len() - 8 {
        return Err(SeratoError::TooShort);
    }
    let name_bytes = copy_range(data, o, o + 4);
    let name = match utf8_to_string(&name_bytes) {
        Some(s) => s,
        None => return Err(SeratoError::InvalidUtf8),
    };
    let len = read_be_u32(data, o + 4) as usize;
    *offset = o + 8;
    if len > data.len() - (o + 8) {
        return Err(SeratoError::InvalidLength);
    }
    let value = copy_range(data, o + 8, o + 8 + len);
    *offset = o + 8 + len;
    Ok((name, value))
}

/// Reading an entry written as name, length and value gives the name and value back,
/// whatever follows it.
pub proof fn law_read_tag_of_encoding(name: Seq<u8>, value: Seq<u8>, rest: Seq<u8>)
    requires
        name.len() == 4,
        valid_utf8(name),
        value.len() < 0x100000000,
    ensures
        spec_read_tag(tlv_encode(name, value) + rest, 0) == (
            Ok::<(Seq<char>, Seq<u8>), SeratoError>((decode_utf8(name), value)),
            8 + value.len() as int,
        ),
{
    let data = tlv_encode(name, value) + rest;
    let n = value.len();
    assert(data.subrange(0, 4) == name);
    let b0 = ((n / 0x1000000) % 256) as u8;
    let b1 = ((n / 0x10000) % 256) as u8;
    let b2 = ((n / 0x100) % 256) as u8;
    let b3 = (n % 256) as u8;
    assert(data[4] == b0 && data[5] == b1 && data[6] == b2 && data[7] == b3);
    assert(b0 as int * 0x1000000 + b1 as int * 0x10000 + b2 as int * 0x100 + b3 as int == n)
        by (nonlinear_arith)
        requires
            0 <= n < 0x100000000,
            b0 == (n / 0x1000000) % 256,
            b1 == (n / 0x10000) % 256,
            b2 == (n / 0x100) % 256,
            b3 == n % 256,
    ;
    assert(be_u32_at(data, 4) == n);
    assert(data.subrange(8, 8 + n as int) == value);
}

/// Result::ok
pub open spec fn ok_of<T>(r: Result<T, SeratoError>) -> Option<T> {
    match r {
        Ok(v) => Some(v),
        Err(_) => None,
    }
}

/// A column definition block: the last decodable `tvcn` (name) and `tvcw` (width)
/// sub-entries; reading stops at the first entry that cannot be read.
pub open spec fn spec_columns(
    data: Seq<u8>,
    o: int,
    name: Option<Seq<u32>>,
    width: Option<Seq<u32>>,
) -> (Option<Seq<u32>>, Option<Seq<u32>>)
    decreases data.len() - o,
{
    if o < 0 || o + 8 > data.len() {
        (name, width)
    } else {
        let (r, next) = spec_read_tag(data, o);
        match r {
            Err(_) => (name, width),
            Ok((t, v)) => spec_columns(
                data,
                next,
                if t == "tvcn"@ {
                    ok_of(spec_decode_utf16be(v))
                } else {
                    name
                },
                if t == "tvcw"@ {
                    ok_of(spec_decode_utf16be(v))
                } else {
                    width
                },
            ),
        }
    }
}

pub open spec fn or_empty(o: Option<Seq<u32>>) -> Seq<u32> {
    match o {
        Some(v) => v,
        None => Seq::empty(),
    }
}

fn decode_ok(v: &[u8]) -> (res: Option<String>)
    ensures
        match ok_of(spec_decode_utf16be(v@)) {
            Some(p) => res matches Some(s) && code_points(s@) == p,
            None => res is None,
        },
{
    match decode_utf16be(v) {
        Ok(s) => Some(s),
        Err(_) => None,
    }
}

/// Parse a column definition (`ovct`) block into its name and width.
pub fn parse_column_definition(data: &[u8]) -> (res: (String, String))
    ensures
        code_points(res.0@) == or_empty(spec_columns(data@, 0, None, None).0),
        code_points(res.1@) == or_empty(spec_columns(data@, 0, None, None).1),
{
    let mut offset: usize = 0;
    let mut col_name: Option<String> = None;
    let mut col_width: Option<String> = None;
    while data.len() >= 8 && offset <= data.len() - 8
        invariant
            offset <= data@.len(),
            spec_columns(data@, offset as int, opt_points(col_name), opt_points(col_width))
                == spec_columns(data@, 0, None, None),
        decreases data.len() - offset,
    {
        let ghost o = offset as int;
        let ghost before = spec_columns(data@, o, opt_points(col_name), opt_points(col_width));
        match read_tag(data, &mut offset) {
            Ok((tag, value)) => {
                let ghost t = tag@;
                let ghost n0 = opt_points(col_name);
                let ghost w0 = opt_points(col_width);
                proof {
                    reveal_strlit("tvcn");
                    reveal_strlit("tvcw");
                    assert("tvcn"@[3] != "tvcw"@[3]);
                }
                if str_eq(tag.as_str(), "tvcn") {
                    col_name = decode_ok(&value);
                } else if str_eq(tag.as_str(), "tvcw") {
                    col_width = decode_ok(&value);
                }
                assert(opt_points(col_name) == (if t == "tvcn"@ {
                    ok_of(spec_decode_utf16be(value@))
                } else {
                    n0
                }));
                assert(opt_points(col_width) == (if t == "tvcw"@ {
                    ok_of(spec_decode_utf16be(value@))
                } else {
                    w0
                }));
                assert(before == spec_columns(
                    data@,
                    offset as int,
                    opt_points(col_name),
                    opt_points(col_width),
                ));
            },
            Err(_) => {
                offset = data.len();
                assert(before == (opt_points(col_name), opt_points(col_width)));
            },
        }
    }
    assert(spec_columns(data@, offset as int, opt_points(col_name), opt_points(col_width)) == (
        opt_points(col_name),
        opt_points(col_width),
    ));
    let name = match col_name {
        Some(s) => s,
        None => String::new(),
    };
    let width = match col_width {
        Some(s) => s,
        None => String::new(),
    };
    proof {
        assert(code_points(Seq::<char>::empty()) =~= Seq::<u32>::empty());
    }
    (name, width)
}

pub open spec fn opt_points(o: Option<String>) -> Option<Seq<u32>> {
    match o {
        Some(s) => Some(code_points(s@)),
        None => None,
    }
}


/// On macOS crate paths are relative to the volume root and get a leading `/`.
pub open spec fn track_path(p: Seq<u32>, macos: bool) -> Seq<u32> {
    if macos && !(p.len() > 0 && p[0] == 47) {
        seq![47u32] + p
    } else {
        p
    }
}

/// A track entry block: the path in its first `ptrk` sub-entry; unreadable sub-entries
/// and a block without `ptrk` are errors.
pub open spec fn spec_track_entry(data: Seq<u8>, o: int) -> Result<Seq<u32>, SeratoError>
    decreases data.len() - o,
{
    if o < 0 || o + 8 > data.len() {
        Err(SeratoError::MissingTrackPath)
    } else {
        let (r, next) = spec_read_tag(data, o);
        match r {
            Err(e) => Err(e),
            Ok((t, v)) => if t == "ptrk"@ {
                spec_decode_utf16be(v)
            } else {
                spec_track_entry(data, next)
            },
        }
    }
}

/// Parse a track entry (`otrk`) block into the track's path.
pub fn parse_track_entry(data: &[u8], macos: bool) -> (res: Result<Option<String>, SeratoError>)
    ensures
        match spec_track_entry(data@, 0) {
            Ok(p) => res matches Ok(Some(s)) && code_points(s@) == track_path(p, macos),
            Err(e) => res == Err::<Option<String>, SeratoError>(e),
        },
{
    let mut offset: usize = 0;
    while data.len() >= 8 && offset <= data.len() - 8
        invariant
            offset <= data@.len(),
            spec_track_entry(data@, offset as int) == spec_track_entry(data@, 0),
        decreases data.len() - offset,
    {
        let ghost o = offset as int;
        match read_tag(data, &mut offset) {
            Ok((tag, value)) => {
                if str_eq(tag.as_str(), "ptrk") {
                    return match decode_utf16be(&value) {
                        Ok(path) => Ok(Some(with_root_prefix(path, macos))),
                        Err(e) => Err(e),
                    };
                }
            },
            Err(e) => {
                return Err(e);
            },
        }
    }
    Err(SeratoError::MissingTrackPath)
}

fn with_root_prefix(path: String, macos: bool) -> (res: String)
    ensures
        code_points(res@) == track_path(code_points(path@), macos),
{
    let chars = to_chars(path.as_str());
    let ghost p = code_points(chars@);
    proof {
        assert(('/' as u32) == 47);
        assert(p.len() == chars@.len());
        if chars@.len() > 0 {
            assert(p[0] == chars@[0] as u32);
        }
        assert(code_points(path@) == p);
    }
    if macos && !(chars.len() > 0 && chars[0] == '/') {
        let mut v: Vec<char> = Vec::new();
        v.push('/');
        extend(&mut v, &chars);
        assert(code_points(v@) =~= seq![47u32] + code_points(chars@));
        proof {
            if chars@.len() > 0 && p[0] == 47 {
                lemma_char_inj(chars@[0], '/');
            }
        }
        assert(track_path(p, macos) == seq![47u32] + p);
        from_chars(&v)
    } else {
        assert(track_path(p, macos) == p);
        path
    }
}

/// A parsed Serato `.crate` file.
#[derive(Debug, Clone)]
pub struct SeratoCrate {
    /// The crate name (derived from the file name, `%%` hierarchy decoded to ` > `).
    pub name: String,
    /// The version string from the header (e.g. `1.0/Serato ScratchLive Crate`).
    pub version: String,
    /// Column definitions: `(column_name, column_width)`.
    pub columns: Vec<(String, String)>,
    /// Track file paths from `ptrk` tags.
    pub tracks: Vec<String>,
}

/// Columns and track paths, as code points.
pub struct CrateContents {
    pub columns: Seq<(Seq<u32>, Seq<u32>)>,
    pub tracks: Seq<Seq<u32>>,
}

/// The top-level entries from `o` on: `ovct` adds a column, `otrk` a track, others are skipped.
pub open spec fn spec_crate_entries(
    data: Seq<u8>,
    o: int,
    acc: CrateContents,
    macos: bool,
) -> Result<CrateContents, SeratoError>
    decreases data.len() - o,
{
    if o < 0 || o >= data.len() {
        Ok(acc)
    } else {
        let (r, next) = spec_read_tag(data, o);
        match r {
            Err(e) => Err(e),
            Ok((t, v)) => if t == "ovct"@ {
                let c = spec_columns(v, 0, None, None);
                spec_crate_entries(
                    data,
                    next,
                    CrateContents {
                        columns: acc.columns.push((or_empty(c.0), or_empty(c.1))),
                        tracks: acc.tracks,
                    },
                    macos,
                )
            } else if t == "otrk"@ {
                match spec_track_entry(v, 0) {
                    Err(e) => Err(e),
                    Ok(p) => spec_crate_entries(
                        data,
                        next,
                        CrateContents {
                            columns: acc.columns,
                            tracks: acc.tracks.push(track_path(p, macos)),
                        },
                        macos,
                    ),
                }
            } else {
                spec_crate_entries(data, next, acc, macos)
            },
        }
    }
}

/// A crate file: a `vrsn` entry with the UTF-16BE version, then the other entries.
/// Gives the version and the contents.
pub open spec fn spec_crate(data: Seq<u8>, macos: bool) -> Result<
    (Seq<u32>, CrateContents),
    SeratoError,
> {
    if data.len() == 0 {
        Err(SeratoError::EmptyFile)
    } else {
        let (r, next) = spec_read_tag(data, 0);
        match r {
            Err(e) => Err(e),
            Ok((t, v)) => if t != "vrsn"@ {
                Err(SeratoError::MissingVersion)
            } else {
                match spec_decode_utf16be(v) {
                    Err(e) => Err(e),
                    Ok(version) => match spec_crate_entries(
                        data,
                        next,
                        CrateContents { columns: Seq::empty(), tracks: Seq::empty() },
                        macos,
                    ) {
                        Err(e) => Err(e),
                        Ok(c) => Ok((version, c)),
                    },
                }
            },
        }
    }
}

impl SeratoCrate {
    /// The columns and tracks as code points.
    pub open spec fn contents(&self) -> CrateContents {
        CrateContents {
            columns: self.columns@.map_values(
                |c: (String, String)| (code_points(c.0@), code_points(c.1@)),
            ),
            tracks: self.tracks@.map_values(|t: String| code_points(t@)),
        }
    }

    /// Parse the bytes of a `.crate` file; `name` is the crate's display name and `macos`
    /// whether track paths get a leading `/`.
    pub fn from_bytes(name: String, data: &[u8], macos: bool) -> (res: Result<Self, SeratoError>)
        ensures
            match spec_crate(data@, macos) {
                Ok((version, c)) => res matches Ok(cr) && cr.name == name && code_points(cr.version@)
                    == version && cr.contents() == c,
                Err(e) => res matches Err(e2) && e2 == e,
            },
    {
        if data.len() == 0 {
            return Err(SeratoError::EmptyFile);
        }
        let mut offset: usize = 0;
        let (tag, value) = match read_tag(data, &mut offset) {
            Ok(tv) => tv,
            Err(e) => return Err(e),
        };
        if !str_eq(tag.as_str(), "vrsn") {
            return Err(SeratoError::MissingVersion);
        }
        let version = match decode_utf16be(&value) {
            Ok(v) => v,
            Err(e) => return Err(e),
        };
        let mut columns: Vec<(String, String)> = Vec::new();
        let mut tracks: Vec<String> = Vec::new();
        proof {
            reveal_strlit("ovct");
            reveal_strlit("otrk");
            assert("ovct"@[1] != "otrk"@[1]);
        }
        let ghost start = offset as int;
        let ghost empty = CrateContents { columns: Seq::empty(), tracks: Seq::empty() };
        assert(columns@.map_values(|c: (String, String)| (code_points(c.0@), code_points(c.1@)))
            =~= empty.columns);
        assert(tracks@.map_values(|t: String| code_points(t@)) =~= empty.tracks);
        assert(spec_crate(data@, macos) == match spec_crate_entries(data@, start, empty, macos) {
            Err(e) => Err(e),
            Ok(c) => Ok((code_points(version@), c)),
        });
        while offset < data.len()
            invariant
                offset <= data@.len(),
                spec_crate(data@, macos) == match spec_crate_entries(data@, start, empty, macos) {
                    Err(e) => Err(e),
                    Ok(c) => Ok((code_points(version@), c)),
                },
                spec_crate_entries(data@, start, empty, macos) == spec_crate_entries(
                    data@,
                    offset as int,
                    CrateContents {
                        columns: columns@.map_values(
                            |c: (String, String)| (code_points(c.0@), code_points(c.1@)),
                        ),
                        tracks: tracks@.map_values(|t: String| code_points(t@)),
                    },
                    macos,
                ),
            decreases data.len() - offset,
        {
            let ghost o = offset as int;
            let ghost acc = CrateContents {
                columns: columns@.map_values(
                    |c: (String, String)| (code_points(c.0@), code_points(c.1@)),
                ),
                tracks: tracks@.map_values(|t: String| code_points(t@)),
            };
            match read_tag(data, &mut offset) {
                Ok((tag, value)) => {
                    if str_eq(tag.as_str(), "ovct") {
                        let col = parse_column_definition(&value);
                        columns.push(col);
                        assert(columns@.map_values(
                            |c: (String, String)| (code_points(c.0@), code_points(c.1@)),
                        ) =~= acc.columns.push((code_points(col.0@), code_points(col.1@))));
                    } else if str_eq(tag.as_str(), "otrk") {
                        match parse_track_entry(&value, macos) {
                            Ok(Some(path)) => {
                                let ghost pp = code_points(path@);
                                tracks.push(path);
                                assert(tracks@.map_values(|t: String| code_points(t@))
                                    =~= acc.tracks.push(pp));
                            },
                            Ok(None) => {},
                            Err(e) => {
                                assert(spec_crate_entries(data@, o, acc, macos) == Err::<
                                    CrateContents,
                                    SeratoError,
                                >(e));
                                return Err(e);
                            },
                        }
                    }
                },
                Err(e) => {
                    assert(spec_crate_entries(data@, o, acc, macos) == Err::<
                        CrateContents,
                        SeratoError,
                    >(e));
                    return Err(e);
                },
            }
        }
        Ok(SeratoCrate { name, version, columns, tracks })
    }

    /// Return the number of tracks in this crate.
    pub fn track_count(&self) -> (n: usize)
        ensures
            n == self.tracks@.len(),
    {
        self.tracks.len()
    }
}


// ---------------------------------------------------------------------------
// Writing a crate and reading it back
// ---------------------------------------------------------------------------

/// A text as UTF-16BE bytes.
pub open spec fn utf16be_text(s: Seq<char>) -> Seq<u8> {
    be_bytes(utf16_encode(s))
}

/// One track entry: an `otrk` entry whose value is a `ptrk` entry holding the path.
pub open spec fn track_entry_encoding(path: Seq<char>) -> Seq<u8> {
    tlv_encode(encode_utf8("otrk"@), tlv_encode(encode_utf8("ptrk"@), utf16be_text(path)))
}

/// One track entry per path, in order.
pub open spec fn tracks_encoding(paths: Seq<Seq<char>>) -> Seq<u8>
    decreases paths.len(),
{
    if paths.len() == 0 {
        Seq::empty()
    } else {
        track_entry_encoding(paths[0]) + tracks_encoding(paths.drop_first())
    }
}

/// The value of a column definition: a `tvcn` entry with the name, then a `tvcw` entry
/// with the width.
pub open spec fn column_value_encoding(c: (Seq<char>, Seq<char>)) -> Seq<u8> {
    tlv_encode(encode_utf8("tvcn"@), utf16be_text(c.0)) + tlv_encode(
        encode_utf8("tvcw"@),
        utf16be_text(c.1),
    )
}

/// One column definition entry (`ovct`) per `(name, width)`, in order.
pub open spec fn columns_encoding(columns: Seq<(Seq<char>, Seq<char>)>) -> Seq<u8>
    decreases columns.len(),
{
    if columns.len() == 0 {
        Seq::empty()
    } else {
        tlv_encode(encode_utf8("ovct"@), column_value_encoding(columns[0])) + columns_encoding(
            columns.drop_first(),
        )
    }
}

/// A crate file holding a `vrsn` entry with `version`, then one column definition per
/// column, then one track entry per path.
pub open spec fn crate_encoding(
    version: Seq<char>,
    columns: Seq<(Seq<char>, Seq<char>)>,
    paths: Seq<Seq<char>>,
) -> Seq<u8> {
    tlv_encode(encode_utf8("vrsn"@), utf16be_text(version)) + columns_encoding(columns)
        + tracks_encoding(paths)
}

/// The columns as a crate lists them.
pub open spec fn listed_columns(columns: Seq<(Seq<char>, Seq<char>)>) -> Seq<(Seq<u32>, Seq<u32>)> {
    columns.map_values(|c: (Seq<char>, Seq<char>)| (code_points(c.0), code_points(c.1)))
}

/// The column definition's value fits its 32-bit length field.
pub open spec fn column_fits(c: (Seq<char>, Seq<char>)) -> bool {
    utf16be_text(c.0).len() + utf16be_text(c.1).len() + 16 < 0x100000000
}

/// The track entry's value fits its 32-bit length field.
pub open spec fn path_fits(p: Seq<char>) -> bool {
    utf16be_text(p).len() + 8 < 0x100000000
}

/// The paths as a crate lists them.
pub open spec fn listed_paths(paths: Seq<Seq<char>>, macos: bool) -> Seq<Seq<u32>> {
    paths.map_values(|p: Seq<char>| track_path(code_points(p), macos))
}

/// A four-letter ASCII tag name is four UTF-8 bytes that decode to it.
proof fn lemma_tag_name(t: Seq<char>)
    requires
        t.len() == 4,
        is_ascii_chars(t),
    ensures
        encode_utf8(t).len() == 4,
        valid_utf8(encode_utf8(t)),
        decode_utf8(encode_utf8(t)) == t,
{
    vstd::utf8::is_ascii_chars_encode_utf8(t);
    vstd::utf8::encode_utf8_valid_utf8(t);
    vstd::utf8::encode_utf8_decode_utf8(t);
}

proof fn lemma_tag_names()
    ensures
        encode_utf8("otrk"@).len() == 4,
        valid_utf8(encode_utf8("otrk"@)),
        decode_utf8(encode_utf8("otrk"@)) == "otrk"@,
        encode_utf8("ptrk"@).len() == 4,
        valid_utf8(encode_utf8("ptrk"@)),
        decode_utf8(encode_utf8("ptrk"@)) == "ptrk"@,
        encode_utf8("vrsn"@).len() == 4,
        valid_utf8(encode_utf8("vrsn"@)),
        decode_utf8(encode_utf8("vrsn"@)) == "vrsn"@,
        encode_utf8("ovct"@).len() == 4,
        valid_utf8(encode_utf8("ovct"@)),
        decode_utf8(encode_utf8("ovct"@)) == "ovct"@,
        encode_utf8("tvcn"@).len() == 4,
        valid_utf8(encode_utf8("tvcn"@)),
        decode_utf8(encode_utf8("tvcn"@)) == "tvcn"@,
        encode_utf8("tvcw"@).len() == 4,
        valid_utf8(encode_utf8("tvcw"@)),
        decode_utf8(encode_utf8("tvcw"@)) == "tvcw"@,
        "otrk"@ != "ovct"@,
        "tvcn"@ != "tvcw"@,
{
    reveal_strlit("otrk");
    reveal_strlit("ptrk");
    reveal_strlit("vrsn");
    reveal_strlit("ovct");
    reveal_strlit("tvcn");
    reveal_strlit("tvcw");
    assert("otrk"@[1] != "ovct"@[1]);
    assert("tvcn"@[3] != "tvcw"@[3]);
    lemma_tag_name("otrk"@);
    lemma_tag_name("ptrk"@);
    lemma_tag_name("vrsn"@);
    lemma_tag_name("ovct"@);
    lemma_tag_name("tvcn"@);
    lemma_tag_name("tvcw"@);
}

/// Reading at `o` is reading the bytes from `o` on at 0, with the offset moved by `o`.
proof fn lemma_read_tag_shift(data: Seq<u8>, o: int)
    requires
        0 <= o <= data.len(),
    ensures
        spec_read_tag(data, o).0 == spec_read_tag(data.skip(o), 0).0,
        spec_read_tag(data, o).1 == o + spec_read_tag(data.skip(o), 0).1,
{
    let s = data.skip(o);
    if o + 8 <= data.len() {
        assert(s.subrange(0, 4) =~= data.subrange(o, o + 4));
        assert(s[4] == data[o + 4] && s[5] == data[o + 5] && s[6] == data[o + 6] && s[7]
            == data[o + 7]);
        assert(be_u32_at(s, 4) == be_u32_at(data, o + 4));
        let n = be_u32_at(data, o + 4) as int;
        if o + 8 + n <= data.len() {
            assert(s.subrange(8, 8 + n) =~= data.subrange(o + 8, o + 8 + n));
        }
    }
}

/// The track entry of a path reads back as that path.
proof fn lemma_track_entry_of_encoding(path: Seq<char>)
    requires
        utf16be_text(path).len() + 8 < 0x100000000,
    ensures
        spec_track_entry(tlv_encode(encode_utf8("ptrk"@), utf16be_text(path)), 0) == Ok::<
            Seq<u32>,
            SeratoError,
        >(code_points(path)),
{
    let text = utf16be_text(path);
    let inner = tlv_encode(encode_utf8("ptrk"@), text);
    lemma_tag_names();
    law_read_tag_of_encoding(encode_utf8("ptrk"@), text, Seq::empty());
    assert(inner + Seq::<u8>::empty() =~= inner);
    law_utf16be_roundtrip(path);
}

/// One `otrk` entry that reads back as a path adds that path and moves past the entry.
proof fn lemma_entries_track_step(
    data: Seq<u8>,
    o: int,
    inner: Seq<u8>,
    next: int,
    pp: Seq<u32>,
    acc: CrateContents,
    macos: bool,
)
    requires
        0 <= o < data.len(),
        spec_read_tag(data, o) == (
            Ok::<(Seq<char>, Seq<u8>), SeratoError>(("otrk"@, inner)),
            next,
        ),
        spec_track_entry(inner, 0) == Ok::<Seq<u32>, SeratoError>(pp),
        "otrk"@ != "ovct"@,
    ensures
        spec_crate_entries(data, o, acc, macos) == spec_crate_entries(
            data,
            next,
            CrateContents { columns: acc.columns, tracks: acc.tracks.push(track_path(pp, macos)) },
            macos,
        ),
{
}

/// Reading track entries written from `o` on adds every path, in order.
proof fn lemma_entries_of_tracks(
    data: Seq<u8>,
    o: int,
    paths: Seq<Seq<char>>,
    acc: CrateContents,
    macos: bool,
)
    requires
        0 <= o <= data.len(),
        data.skip(o) == tracks_encoding(paths),
        forall|i: int| 0 <= i < paths.len() ==> #[trigger] utf16be_text(paths[i]).len() + 8
            < 0x100000000,
    ensures
        spec_crate_entries(data, o, acc, macos) == Ok::<CrateContents, SeratoError>(
            CrateContents { columns: acc.columns, tracks: acc.tracks + listed_paths(paths, macos) },
        ),
    decreases paths.len(),
{
    if paths.len() == 0 {
        assert(data.skip(o).len() == 0);
        assert(acc.tracks + listed_paths(paths, macos) =~= acc.tracks);
    } else {
        let p = paths[0];
        let tail = paths.drop_first();
        let inner = tlv_encode(encode_utf8("ptrk"@), utf16be_text(p));
        let next = o + 8 + inner.len();
        assert(utf16be_text(paths[0]).len() + 8 < 0x100000000);
        lemma_tag_names();
        lemma_read_entry_at(data, o, encode_utf8("otrk"@), inner, tracks_encoding(tail));
        lemma_track_entry_of_encoding(p);
        let acc2 = CrateContents {
            columns: acc.columns,
            tracks: acc.tracks.push(track_path(code_points(p), macos)),
        };
        lemma_entries_track_step(data, o, inner, next, code_points(p), acc, macos);
        assert forall|i: int| 0 <= i < tail.len() implies #[trigger] utf16be_text(tail[i]).len()
            + 8 < 0x100000000 by {
            assert(tail[i] == paths[i + 1]);
        }
        lemma_entries_of_tracks(data, next, tail, acc2, macos);
        assert(acc2.tracks + listed_paths(tail, macos) =~= acc.tracks + listed_paths(
            paths,
            macos,
        ));
    }
}

/// The bytes after `e` are the bytes that followed it.
proof fn lemma_skip_prefix(data: Seq<u8>, o: int, e: Seq<u8>, r: Seq<u8>)
    requires
        0 <= o <= data.len(),
        data.skip(o) == e + r,
    ensures
        o + e.len() <= data.len(),
        data.skip(o + e.len()) == r,
{
    let n = e.len() as int;
    assert(data.skip(o).len() == data.len() - o);
    assert((e + r).len() == n + r.len());
    assert forall|k: int| 0 <= k < r.len() implies data.skip(o + n)[k] == r[k] by {
        assert(data.skip(o + n)[k] == data[o + n + k]);
        assert(data.skip(o)[n + k] == data[o + n + k]);
        assert((e + r)[n + k] == r[k]);
    }
    assert(data.skip(o + n) =~= r);
}

/// An entry written at `o` reads back as its name and value, and reading goes on with the
/// bytes that followed it.
proof fn lemma_read_entry_at(data: Seq<u8>, o: int, name: Seq<u8>, value: Seq<u8>, r: Seq<u8>)
    requires
        0 <= o <= data.len(),
        data.skip(o) == tlv_encode(name, value) + r,
        name.len() == 4,
        valid_utf8(name),
        value.len() < 0x100000000,
    ensures
        spec_read_tag(data, o) == (
            Ok::<(Seq<char>, Seq<u8>), SeratoError>((decode_utf8(name), value)),
            o + 8 + value.len(),
        ),
        o + 8 + value.len() <= data.len(),
        data.skip(o + 8 + value.len()) == r,
{
    law_read_tag_of_encoding(name, value, r);
    lemma_read_tag_shift(data, o);
    assert(tlv_encode(name, value).len() == 8 + value.len());
    lemma_skip_prefix(data, o, tlv_encode(name, value), r);
}

/// Two readable entries, a `tvcn` and then a `tvcw` entry that ends the value, give the
/// column's name and width.
proof fn lemma_columns_two_entries(
    v: Seq<u8>,
    o1: int,
    a: Seq<u8>,
    b: Seq<u8>,
    na: Seq<u32>,
    nb: Seq<u32>,
)
    requires
        0 < o1,
        o1 + 8 <= v.len(),
        spec_read_tag(v, 0) == (Ok::<(Seq<char>, Seq<u8>), SeratoError>(("tvcn"@, a)), o1),
        spec_read_tag(v, o1) == (
            Ok::<(Seq<char>, Seq<u8>), SeratoError>(("tvcw"@, b)),
            v.len() as int,
        ),
        spec_decode_utf16be(a) == Ok::<Seq<u32>, SeratoError>(na),
        spec_decode_utf16be(b) == Ok::<Seq<u32>, SeratoError>(nb),
        "tvcn"@ != "tvcw"@,
    ensures
        spec_columns(v, 0, None, None) == (Some(na), Some(nb)),
{
    assert(spec_columns(v, v.len() as int, Some(na), Some(nb)) == (Some(na), Some(nb)));
    assert(spec_columns(v, o1, Some(na), None) == spec_columns(
        v,
        v.len() as int,
        Some(na),
        Some(nb),
    ));
    assert(spec_columns(v, 0, None, None) == spec_columns(v, o1, Some(na), None));
}

/// A column definition's value reads back as its name and width.
proof fn lemma_columns_of_encoding(c: (Seq<char>, Seq<char>))
    requires
        column_fits(c),
    ensures
        spec_columns(column_value_encoding(c), 0, None, None) == (
            Some(code_points(c.0)),
            Some(code_points(c.1)),
        ),
{
    let a = utf16be_text(c.0);
    let b = utf16be_text(c.1);
    let ea = tlv_encode(encode_utf8("tvcn"@), a);
    let eb = tlv_encode(encode_utf8("tvcw"@), b);
    let v = ea + eb;
    let o1 = ea.len() as int;
    lemma_tag_names();
    assert(v == column_value_encoding(c));
    assert(ea.len() == 8 + a.len() && eb.len() == 8 + b.len());
    assert(spec_read_tag(v, 0) == (
        Ok::<(Seq<char>, Seq<u8>), SeratoError>(("tvcn"@, a)),
        o1,
    )) by {
        law_read_tag_of_encoding(encode_utf8("tvcn"@), a, eb);
    }
    assert(spec_read_tag(v, o1) == (
        Ok::<(Seq<char>, Seq<u8>), SeratoError>(("tvcw"@, b)),
        v.len() as int,
    )) by {
        assert(v.skip(0) =~= ea + eb);
        lemma_skip_prefix(v, 0, ea, eb);
        assert(eb + Seq::<u8>::empty() =~= eb);
        law_read_tag_of_encoding(encode_utf8("tvcw"@), b, Seq::empty());
        lemma_read_tag_shift(v, o1);
    }
    law_utf16be_roundtrip(c.0);
    law_utf16be_roundtrip(c.1);
    lemma_columns_two_entries(v, o1, a, b, code_points(c.0), code_points(c.1));
}

/// One `ovct` entry adds its column and moves past the entry.
proof fn lemma_entries_column_step(
    data: Seq<u8>,
    o: int,
    value: Seq<u8>,
    next: int,
    name: Seq<u32>,
    width: Seq<u32>,
    acc: CrateContents,
    macos: bool,
)
    requires
        0 <= o < data.len(),
        spec_read_tag(data, o) == (
            Ok::<(Seq<char>, Seq<u8>), SeratoError>(("ovct"@, value)),
            next,
        ),
        spec_columns(value, 0, None, None) == (Some(name), Some(width)),
    ensures
        spec_crate_entries(data, o, acc, macos) == spec_crate_entries(
            data,
            next,
            CrateContents { columns: acc.columns.push((name, width)), tracks: acc.tracks },
            macos,
        ),
{
}

/// The first column definition written at `o` reads back as its name and width, and
/// reading goes on with the entries after it.
proof fn lemma_column_entry_at(
    data: Seq<u8>,
    o: int,
    columns: Seq<(Seq<char>, Seq<char>)>,
    paths: Seq<Seq<char>>,
)
    requires
        0 <= o <= data.len(),
        columns.len() > 0,
        data.skip(o) == columns_encoding(columns) + tracks_encoding(paths),
        column_fits(columns[0]),
    ensures
        ({
            let value = column_value_encoding(columns[0]);
            let next = o + 8 + value.len();
            &&& o < data.len()
            &&& spec_read_tag(data, o) == (
                Ok::<(Seq<char>, Seq<u8>), SeratoError>(("ovct"@, value)),
                next,
            )
            &&& next <= data.len()
            &&& data.skip(next) == columns_encoding(columns.drop_first()) + tracks_encoding(paths)
            &&& spec_columns(value, 0, None, None) == (
                Some(code_points(columns[0].0)),
                Some(code_points(columns[0].1)),
            )
        }),
{
    let c = columns[0];
    let tail = columns.drop_first();
    let value = column_value_encoding(c);
    let e = tlv_encode(encode_utf8("ovct"@), value);
    let r = columns_encoding(tail) + tracks_encoding(paths);
    lemma_tag_names();
    assert(data.skip(o) == e + r) by {
        assert(columns_encoding(columns) == e + columns_encoding(tail));
        assert(e + columns_encoding(tail) + tracks_encoding(paths) =~= e + r);
    }
    assert(value.len() < 0x100000000) by {
        assert(value.len() == 16 + utf16be_text(c.0).len() + utf16be_text(c.1).len());
    }
    lemma_read_entry_at(data, o, encode_utf8("ovct"@), value, r);
    lemma_columns_of_encoding(c);
}

/// Reading column definitions and then track entries written from `o` on adds every
/// column and every path, in order.
proof fn lemma_entries_of_columns(
    data: Seq<u8>,
    o: int,
    columns: Seq<(Seq<char>, Seq<char>)>,
    paths: Seq<Seq<char>>,
    acc: CrateContents,
    macos: bool,
)
    requires
        0 <= o <= data.len(),
        data.skip(o) == columns_encoding(columns) + tracks_encoding(paths),
        forall|i: int| 0 <= i < columns.len() ==> #[trigger] column_fits(columns[i]),
        forall|i: int| 0 <= i < paths.len() ==> #[trigger] utf16be_text(paths[i]).len() + 8
            < 0x100000000,
    ensures
        spec_crate_entries(data, o, acc, macos) == Ok::<CrateContents, SeratoError>(
            CrateContents {
                columns: acc.columns + listed_columns(columns),
                tracks: acc.tracks + listed_paths(paths, macos),
            },
        ),
    decreases columns.len(),
{
    if columns.len() == 0 {
        assert(columns_encoding(columns) + tracks_encoding(paths) =~= tracks_encoding(paths));
        lemma_entries_of_tracks(data, o, paths, acc, macos);
        assert(acc.columns + listed_columns(columns) =~= acc.columns);
    } else {
        let c = columns[0];
        let tail = columns.drop_first();
        let value = column_value_encoding(c);
        let next = o + 8 + value.len();
        lemma_column_entry_at(data, o, columns, paths);
        lemma_entries_column_step(
            data,
            o,
            value,
            next,
            code_points(c.0),
            code_points(c.1),
            acc,
            macos,
        );
        assert forall|i: int| 0 <= i < tail.len() implies #[trigger] column_fits(tail[i]) by {
            assert(tail[i] == columns[i + 1]);
        }
        let acc2 = CrateContents {
            columns: acc.columns.push((code_points(c.0), code_points(c.1))),
            tracks: acc.tracks,
        };
        lemma_entries_of_columns(data, next, tail, paths, acc2, macos);
        assert(acc2.columns + listed_columns(tail) =~= acc.columns + listed_columns(columns));
    }
}

/// Reading a crate written as a `vrsn` entry, one `ovct` entry (a `tvcn` name and a `tvcw`
/// width) per column and one `otrk` entry (holding a `ptrk` path) per track gives back the
/// version, every column and every path, in order: one track per track entry. Each entry's
/// value must fit its 32-bit length field.
pub proof fn law_crate_encoding_roundtrip(
    version: Seq<char>,
    columns: Seq<(Seq<char>, Seq<char>)>,
    paths: Seq<Seq<char>>,
    macos: bool,
)
    requires
        utf16be_text(version).len() < 0x100000000,
        forall|i: int| 0 <= i < columns.len() ==> #[trigger] column_fits(columns[i]),
        forall|i: int| 0 <= i < paths.len() ==> #[trigger] path_fits(paths[i]),
    ensures
        spec_crate(crate_encoding(version, columns, paths), macos) == Ok::<
            (Seq<u32>, CrateContents),
            SeratoError,
        >(
            (
                code_points(version),
                CrateContents {
                    columns: listed_columns(columns),
                    tracks: listed_paths(paths, macos),
                },
            ),
        ),
        listed_columns(columns).len() == columns.len(),
        forall|i: int| 0 <= i < columns.len() ==> #[trigger] listed_columns(columns)[i] == (
            code_points(columns[i].0),
            code_points(columns[i].1),
        ),
        listed_paths(paths, macos).len() == paths.len(),
        forall|i: int| 0 <= i < paths.len() ==> #[trigger] listed_paths(paths, macos)[i]
            == track_path(code_points(paths[i]), macos),
{
    let data = crate_encoding(version, columns, paths);
    let text = utf16be_text(version);
    let head = tlv_encode(encode_utf8("vrsn"@), text);
    let rest = columns_encoding(columns) + tracks_encoding(paths);
    assert(data =~= head + rest);
    lemma_tag_names();
    law_read_tag_of_encoding(encode_utf8("vrsn"@), text, rest);
    law_utf16be_roundtrip(version);
    assert(head.len() == 8 + text.len());
    assert(data.skip(0) =~= head + rest);
    lemma_skip_prefix(data, 0, head, rest);
    assert forall|i: int| 0 <= i < paths.len() implies #[trigger] utf16be_text(paths[i]).len()
        + 8 < 0x100000000 by {
        assert(path_fits(paths[i]));
    }
    let empty = CrateContents { columns: Seq::empty(), tracks: Seq::empty() };
    lemma_entries_of_columns(data, head.len() as int, columns, paths, empty, macos);
    assert(empty.columns + listed_columns(columns) =~= listed_columns(columns));
    assert(empty.tracks + listed_paths(paths, macos) =~= listed_paths(paths, macos));
}


/// The crate name for a `.crate` file path: the file stem with `%%` shown as ` > `.
pub open spec fn crate_name(path: Seq<char>) -> Seq<char> {
    match file_stem(path) {
        Some(stem) => replace(stem, "%%"@, " > "@),
        None => Seq::empty(),
    }
}

/// Derive a display name from a `.crate` file path.
pub fn crate_name_from_path(path: &str) -> (name: String)
    ensures
        name@ == crate_name(path@),
{
    let chars = to_chars(path);
    match file_stem_chars(&chars) {
        Some(stem) => {
            let pat = to_chars("%%");
            let rep = to_chars(" > ");
            from_chars(&replace_all(&stem, &pat, &rep))
        },
        None => String::new(),
    }
}

impl SeratoCrate {
    /// `{name}: {n} track` or `{name}: {n} tracks`.
    pub fn to_string(&self) -> (s: String)
        ensures
            s@ == self.name@ + ": "@ + decimal(self.tracks@.len()) + " track"@ + (if self.tracks@.len()
                == 1 {
                Seq::<char>::empty()
            } else {
                "s"@
            }),
    {
        let mut v = to_chars(self.name.as_str());
        let sep = to_chars(": ");
        extend(&mut v, &sep);
        let n = decimal_chars(self.tracks.len() as u64);
        extend(&mut v, &n);
        let word = to_chars(" track");
        extend(&mut v, &word);
        if self.tracks.len() != 1 {
            v.push('s');
            proof {
                reveal_strlit("s");
            }
        }
        from_chars(&v)
    }
}

} // verus!
