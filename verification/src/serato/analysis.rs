//! The `Serato Analysis` tag: the analysis version number.
use vstd::prelude::*;

use crate::numfmt::{decimal, decimal_chars};
use crate::serato::SeratoError;
use crate::text::{extend, from_chars, to_chars};

verus! {

/// Serato analysis version number.
#[derive(Debug, Clone, Copy, Default, PartialEq, Eq)]
pub struct AnalysisVersion {
    pub major_version: u8,
    pub minor_version: u8,
}

impl AnalysisVersion {
    /// Parse the analysis tag: byte 0 is the major and byte 1 the minor version;
    /// further bytes are ignored.
    pub fn parse(data: &[u8]) -> (res: Result<Self, SeratoError>)
        ensures
            data@.len() >= 2 ==> res == Ok::<Self, SeratoError>(
                AnalysisVersion { major_version: data@[0], minor_version: data@[1] },
            ),
            data@.len() < 2 ==> res == Err::<Self, SeratoError>(SeratoError::TooShort),
    {
        if data.len() >= 2 {
            Ok(AnalysisVersion { major_version: data[0], minor_version: data[1] })
        } else {
            Err(SeratoError::TooShort)
        }
    }

    /// `Version {major}.{minor}`.
    pub fn to_string(&self) -> (s: String)
        ensures
            s@ == "Version "@ + decimal(self.major_version as nat) + seq!['.'] + decimal(
                self.minor_version as nat,
            ),
    {
        let mut v = to_chars("Version ");
        let major = decimal_chars(self.major_version as u64);
        extend(&mut v, &major);
        v.push('.');
        let minor = decimal_chars(self.minor_version as u64);
        extend(&mut v, &minor);
        from_chars(&v)
    }
}

} // verus!
