//! Audio file formats.
use vstd::prelude::*;

use crate::formatting::{eq_ignore_ascii_case, eq_ignore_ascii_case_exec};
use crate::text::to_chars;

verus! {

/// Supported audio file formats.
#[derive(Debug, Clone, Copy, PartialEq, Eq, PartialOrd, Ord, Hash)]
pub enum FileFormat {
    Mp3,
    Aif,
}

/// A file extension that names no supported format.
#[derive(Debug, Clone, PartialEq, Eq)]
pub struct UnsupportedFormat {
    /// The extension as it was given.
    pub extension: String,
}

/// The format an extension names, in any case: `mp3`, or `aif` and `aiff`.
pub open spec fn spec_format_from_str(s: Seq<char>) -> Option<FileFormat> {
    if eq_ignore_ascii_case(s, "mp3"@) {
        Some(FileFormat::Mp3)
    } else if eq_ignore_ascii_case(s, "aif"@) || eq_ignore_ascii_case(s, "aiff"@) {
        Some(FileFormat::Aif)
    } else {
        None
    }
}

/// The extension written for a format.
pub open spec fn format_text(f: FileFormat) -> Seq<char> {
    match f {
        FileFormat::Mp3 => "mp3"@,
        FileFormat::Aif => "aif"@,
    }
}

impl Default for FileFormat {
    fn default() -> (f: Self)
        ensures
            f == FileFormat::Mp3,
    {
        FileFormat::Mp3
    }
}

impl FileFormat {
    /// Parse a file extension; the comparison ignores ASCII case.
    pub fn from_str(s: &str) -> (res: Result<FileFormat, UnsupportedFormat>)
        ensures
            match spec_format_from_str(s@) {
                Some(f) => res == Ok::<FileFormat, UnsupportedFormat>(f),
                None => res matches Err(e) && e.extension@ == s@,
            },
    {
        let c = to_chars(s);
        if eq_ignore_ascii_case_exec(&c, "mp3") {
            Ok(FileFormat::Mp3)
        } else if eq_ignore_ascii_case_exec(&c, "aif") || eq_ignore_ascii_case_exec(&c, "aiff") {
            Ok(FileFormat::Aif)
        } else {
            Err(UnsupportedFormat { extension: s.to_string() })
        }
    }

    /// The extension for the format: `mp3` or `aif`.
    pub fn to_string(&self) -> (s: String)
        ensures
            s@ == format_text(*self),
    {
        match self {
            FileFormat::Mp3 => String::from_str("mp3"),
            FileFormat::Aif => String::from_str("aif"),
        }
    }
}

/// Case does not matter: two extensions that differ only in ASCII case name the same format.
pub proof fn law_format_ignores_case(s: Seq<char>, t: Seq<char>)
    requires
        eq_ignore_ascii_case(s, t),
    ensures
        spec_format_from_str(s) == spec_format_from_str(t),
{
    assert forall|u: Seq<char>| eq_ignore_ascii_case(s, u) <==> eq_ignore_ascii_case(t, u) by {
        if eq_ignore_ascii_case(s, u) {
            assert forall|i: int| 0 <= i < t.len() implies crate::formatting::ascii_fold(#[trigger] t[i])
                == crate::formatting::ascii_fold(u[i]) by {
                assert(crate::formatting::ascii_fold(s[i]) == crate::formatting::ascii_fold(t[i]));
            }
        }
        if eq_ignore_ascii_case(t, u) {
            assert forall|i: int| 0 <= i < s.len() implies crate::formatting::ascii_fold(#[trigger] s[i])
                == crate::formatting::ascii_fold(u[i]) by {
                assert(crate::formatting::ascii_fold(s[i]) == crate::formatting::ascii_fold(t[i]));
            }
        }
    }
    assert(eq_ignore_ascii_case(s, "mp3"@) == eq_ignore_ascii_case(t, "mp3"@));
    assert(eq_ignore_ascii_case(s, "aif"@) == eq_ignore_ascii_case(t, "aif"@));
    assert(eq_ignore_ascii_case(s, "aiff"@) == eq_ignore_ascii_case(t, "aiff"@));
}

/// Writing a format and reading it back gives the same format.
pub proof fn law_format_roundtrip(f: FileFormat)
    ensures
        spec_format_from_str(format_text(f)) == Some(f),
{
    reveal_strlit("mp3");
    reveal_strlit("aif");
    reveal_strlit("aiff");
    match f {
        FileFormat::Mp3 => {
            assert(eq_ignore_ascii_case("mp3"@, "mp3"@));
        },
        FileFormat::Aif => {
            assert(!eq_ignore_ascii_case("aif"@, "mp3"@)) by {
                assert(crate::formatting::ascii_fold("aif"@[0]) != crate::formatting::ascii_fold("mp3"@[0]));
            }
            assert(eq_ignore_ascii_case("aif"@, "aif"@));
        },
    }
}

} // verus!
