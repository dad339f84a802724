//! The `Serato Autotags` tag: BPM, auto gain and manual gain as zero-terminated ASCII
//! numbers. The library extracts the number text; turning it into a float is left to the caller.
use vstd::prelude::*;
use vstd::utf8::{decode_utf8, valid_utf8};

use crate::bytes::{copy_range, utf8_to_string};
use crate::serato::SeratoError;
use crate::text::{
    from_chars, replace, replace_all, to_chars, trim, trim_chars, trim_end_char,
    trim_end_char_chars,
};

verus! {

/// Whether `char::is_numeric` holds of `c` (the Unicode `Nd`, `Nl` and `No` categories).
pub uninterp spec fn numeric_char(c: char) -> bool;

/// `char::is_numeric`.
#[verifier::external_body]
pub(crate) fn char_is_numeric(c: char) -> (b: bool)
    ensures
        b == numeric_char(c),
{
    c.is_numeric()
}

/// The number text of the three fields.
#[derive(Debug, Clone)]
pub struct AutoTags {
    /// Beats per minute
    pub bpm: String,
    /// Calculated auto gain (dB)
    pub auto_gain: String,
    /// Manually adjusted gain (dB), when the data holds it
    pub gain: Option<String>,
}

/// The characters of `s` that are numeric, a `.`, or (when `minus`) a `-`.
pub open spec fn number_chars(s: Seq<char>, minus: bool) -> Seq<char>
    decreases s.len(),
{
    if s.len() == 0 {
        s
    } else {
        number_chars(s.drop_last(), minus) + (if numeric_char(s.last()) || s.last() == '.' || (minus
            && s.last() == '-') {
            seq![s.last()]
        } else {
            Seq::empty()
        })
    }
}

/// The BPM text in `bytes`: trailing nulls and whitespace dropped, then only numeric characters and `.` kept.
pub open spec fn bpm_text(bytes: Seq<u8>) -> Seq<char> {
    number_chars(trim(trim_end_char(decode_utf8(bytes), '\0')), false)
}

/// A gain text in `bytes`: nulls removed, whitespace trimmed, numeric characters, `.` and `-`
/// kept, and trailing `.` dropped.
pub open spec fn gain_text(bytes: Seq<u8>) -> Seq<char> {
    trim_end_char(number_chars(trim(replace(decode_utf8(bytes), seq!['\0'], Seq::empty())), true), '.')
}

/// The autotags fields as text: bytes 2..9 hold the BPM, 9..16 the auto gain and, when
/// present, 16..22 the gain.
pub open spec fn spec_autotags(data: Seq<u8>) -> Result<(Seq<char>, Seq<char>, Option<Seq<char>>), SeratoError> {
    if data.len() < 16 {
        Err(SeratoError::TooShort)
    } else if !valid_utf8(data.subrange(2, 9)) || !valid_utf8(data.subrange(9, 16)) {
        Err(SeratoError::InvalidUtf8)
    } else if data.len() >= 22 && !valid_utf8(data.subrange(16, 22)) {
        Err(SeratoError::InvalidUtf8)
    } else {
        Ok(
            (
                bpm_text(data.subrange(2, 9)),
                gain_text(data.subrange(9, 16)),
                if data.len() >= 22 {
                    Some(gain_text(data.subrange(16, 22)))
                } else {
                    None
                },
            ),
        )
    }
}

impl AutoTags {
    /// The fields as plain values.
    pub open spec fn fields(&self) -> (Seq<char>, Seq<char>, Option<Seq<char>>) {
        (
            self.bpm@,
            self.auto_gain@,
            match self.gain {
                Some(g) => Some(g@),
                None => None,
            },
        )
    }
}

fn keep_number_chars(s: &[char], minus: bool) -> (r: Vec<char>)
    ensures
        r@ == number_chars(s@, minus),
{
    let mut r: Vec<char> = Vec::new();
    let mut i: usize = 0;
    while i < s.len()
        invariant
            i <= s.len(),
            r@ == number_chars(s@.take(i as int), minus),
        decreases s.len() - i,
    {
        assert(s@.take(i + 1).drop_last() == s@.take(i as int));
        let c = s[i];
        if char_is_numeric(c) || c == '.' || (minus && c == '-') {
            r.push(c);
        }
        i += 1;
    }
    assert(s@.take(s@.len() as int) == s@);
    r
}

fn decode_field(data: &[u8], from: usize, to: usize) -> (res: Option<Vec<char>>)
    requires
        from <= to <= data@.len(),
    ensures
        res is Some <==> valid_utf8(data@.subrange(from as int, to as int)),
        res matches Some(v) ==> v@ == decode_utf8(data@.subrange(from as int, to as int)),
{
    let bytes = copy_range(data, from, to);
    match utf8_to_string(&bytes) {
        Some(s) => Some(to_chars(s.as_str())),
        None => None,
    }
}

fn gain_field(text: &[char]) -> (r: Vec<char>)
    ensures
        r@ == trim_end_char(number_chars(trim(replace(text@, seq!['\0'], Seq::empty())), true), '.'),
{
    let nul: Vec<char> = vec!['\0'];
    let none: Vec<char> = Vec::new();
    assert(nul@ =~= seq!['\0']);
    assert(none@ =~= Seq::<char>::empty());
    let cleaned = replace_all(text, &nul, &none);
    let t = trim_chars(&cleaned);
    let kept = keep_number_chars(&t, true);
    trim_end_char_chars(&kept, '.')
}

impl AutoTags {
    /// Extract the BPM, auto gain and gain texts.
    pub fn parse(data: &[u8]) -> (res: Result<Self, SeratoError>)
        ensures
            match spec_autotags(data@) {
                Ok(f) => res matches Ok(a) && a.fields() == f,
                Err(e) => res matches Err(e2) && e2 == e,
            },
    {
        if data.len() < 16 {
            return Err(SeratoError::TooShort);
        }
        let bpm_chars = match decode_field(data, 2, 9) {
            Some(v) => v,
            None => return Err(SeratoError::InvalidUtf8),
        };
        let auto_chars = match decode_field(data, 9, 16) {
            Some(v) => v,
            None => return Err(SeratoError::InvalidUtf8),
        };
        let gain = if data.len() >= 22 {
            match decode_field(data, 16, 22) {
                Some(v) => Some(from_chars(&gain_field(&v))),
                None => return Err(SeratoError::InvalidUtf8),
            }
        } else {
            None
        };
        let bpm = from_chars(&keep_number_chars(&trim_chars(&trim_end_char_chars(&bpm_chars, '\0')), false));
        let auto_gain = from_chars(&gain_field(&auto_chars));
        Ok(AutoTags { bpm, auto_gain, gain })
    }
}

} // verus!
