//! Unicode case mapping, title casing and normalization.
//!
//! These depend on Unicode tables; their results are named here and not spelled out.
use vstd::prelude::*;

verus! {

/// The Unicode upper-case mapping of a text, as `str::to_uppercase` gives it.
pub uninterp spec fn uppercase(s: Seq<char>) -> Seq<char>;

/// The Unicode lower-case mapping of a text, as `str::to_lowercase` gives it.
pub uninterp spec fn lowercase(s: Seq<char>) -> Seq<char>;

/// The title-cased text that `titlecase::titlecase` gives.
pub uninterp spec fn title_cased(s: Seq<char>) -> Seq<char>;

/// The Unicode Normalization Form C of a text, as `unicode_normalization`'s `nfc` gives it.
pub uninterp spec fn nfc(s: Seq<char>) -> Seq<char>;

/// `str::to_uppercase`.
#[verifier::external_body]
pub(crate) fn to_uppercase(s: &str) -> (r: String)
    ensures
        r@ == uppercase(s@),
{
    s.to_uppercase()
}

/// `str::to_lowercase`.
#[verifier::external_body]
pub(crate) fn to_lowercase(s: &str) -> (r: String)
    ensures
        r@ == lowercase(s@),
{
    s.to_lowercase()
}

/// `titlecase::titlecase`: capitalizes words, following the New York Times style rules.
#[verifier::external_body]
pub(crate) fn titlecase(s: &str) -> (r: String)
    ensures
        r@ == title_cased(s@),
{
    titlecase::titlecase(s)
}

} // verus!
