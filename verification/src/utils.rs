//! Helpers for names: Unicode normalization, and artist and title from a filename.
use vstd::prelude::*;

use unicode_normalization::UnicodeNormalization;

use crate::text::{
    contains, find, find_seq, from_chars, lemma_find_from_some, seq_contains, slice_copy,
    to_chars, trim, trim_chars, trim_start_matches, trim_start_matches_chars,
};
use crate::unicode::nfc;

verus! {

/// Normalize a string to Unicode Normalization Form C: `unicode_normalization`'s `nfc`,
/// collected into a string. The contract names the result.
#[verifier::external_body]
pub fn normalize_str(input: &str) -> (r: String)
    ensures
        r@ == nfc(input@),
{
    input.nfc().collect::<String>()
}

/// Artist and title from a filename of the form `artist - title`.
pub open spec fn spec_tags_from_filename(filename: Seq<char>) -> Option<(Seq<char>, Seq<char>)> {
    if !contains(filename, " - "@) {
        if filename.len() == 0 {
            None
        } else {
            Some((Seq::empty(), filename))
        }
    } else {
        let t = trim(trim_start_matches(filename, "Various Artists - "@));
        match find(t, " - "@) {
            Some(i) => Some((nfc(trim(t.take(i))), nfc(trim(t.skip(i + 3))))),
            None => None,
        }
    }
}

/// Parse artist and title from a filename without its extension. A name without `" - "`
/// is all title; an empty name gives nothing.
pub fn get_tags_from_filename(filename: &str) -> (r: Option<(String, String)>)
    ensures
        match spec_tags_from_filename(filename@) {
            Some((a, t)) => r matches Some(p) && p.0@ == a && p.1@ == t,
            None => r is None,
        },
{
    let f = to_chars(filename);
    let dash = to_chars(" - ");
    if !seq_contains(&f, &dash) {
        if f.len() == 0 {
            return None;
        }
        let empty = String::new();
        assert(empty@ =~= Seq::<char>::empty());
        return Some((empty, filename.to_string()));
    }
    let t = trim_chars(&trim_start_matches_chars(&f, &to_chars("Various Artists - ")));
    proof {
        reveal_strlit(" - ");
    }
    match find_seq(&t, &dash) {
        Some(i) => {
            proof {
                lemma_find_from_some(t@, dash@, 0);
            }
            let n = t.len();
            assert(i + 3 <= n);
            let artist = from_chars(&trim_chars(&slice_copy(&t, 0, i)));
            let title = from_chars(&trim_chars(&slice_copy(&t, i + 3, n)));
            assert(t@.subrange(i + 3, n as int) =~= t@.skip(i + 3));
            Some((normalize_str(artist.as_str()), normalize_str(title.as_str())))
        },
        None => None,
    }
}

/// The file name of a path without replacement characters, or `None` where the path has no
/// file name.
pub fn get_filename_from_path(path: &str) -> (r: Option<String>)
    ensures
        match crate::track::spec_directory_name(path@) {
            Some(n) => r matches Some(s) && s@ == n,
            None => r is None,
        },
{
    match crate::paths::file_name_chars(&to_chars(path)) {
        Some(d) => Some(from_chars(&crate::text::replace_all(&d, &to_chars("\u{FFFD}"), &to_chars("")))),
        None => None,
    }
}

} // verus!
