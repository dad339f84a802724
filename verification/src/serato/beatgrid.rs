//! The `Serato BeatGrid` tag. Positions and tempos are IEEE-754 single-precision values;
//! the library keeps their raw bit patterns (`f32::from_bits` turns them into numbers).
use vstd::prelude::*;

use crate::bytes::{be_u32_at, read_be_u32};
use crate::serato::SeratoError;

verus! {

/// One beatgrid marker.
#[derive(Debug, Clone, Copy, PartialEq, Eq)]
pub enum BeatGridMarker {
    /// The last marker: position and tempo, both as `f32` bits.
    Terminal { position_bits: u32, bpm_bits: u32 },
    /// An earlier marker: position as `f32` bits and the beat count to the next marker.
    NonTerminal { position_bits: u32, beats_till_next: u32 },
}

/// The beatgrid: the marker count from the header and the markers.
#[derive(Debug, Clone, Default)]
pub struct BeatGrid {
    pub num_markers: u32,
    pub markers: Vec<BeatGridMarker>,
}

/// The marker whose eight bytes start at `offset`: terminal when they end right before
/// the single footer byte.
pub open spec fn marker_at(data: Seq<u8>, offset: int) -> BeatGridMarker {
    if offset + 8 == data.len() - 1 {
        BeatGridMarker::Terminal {
            position_bits: be_u32_at(data, offset),
            bpm_bits: be_u32_at(data, offset + 4),
        }
    } else {
        BeatGridMarker::NonTerminal {
            position_bits: be_u32_at(data, offset),
            beats_till_next: be_u32_at(data, offset + 4),
        }
    }
}

/// The beatgrid tag: the marker count and the markers, or why it cannot be read.
pub open spec fn spec_beatgrid(data: Seq<u8>) -> Result<(u32, Seq<BeatGridMarker>), SeratoError> {
    if data.len() < 6 {
        Err(SeratoError::TooShort)
    } else if be_u32_at(data, 2) == 0 {
        Ok((0, Seq::empty()))
    } else if data.len() < 11 {
        Err(SeratoError::TooShort)
    } else if 6 + 8 * be_u32_at(data, 2) > data.len() {
        Err(SeratoError::UnexpectedEnd)
    } else {
        Ok(
            (
                be_u32_at(data, 2),
                Seq::new(be_u32_at(data, 2) as nat, |i: int| marker_at(data, 6 + 8 * i)),
            ),
        )
    }
}

impl BeatGrid {
    /// Parse the beatgrid tag: two header bytes, a big-endian marker count,
    /// eight bytes per marker and a footer byte.
    pub fn parse(data: &[u8]) -> (res: Result<Self, SeratoError>)
        ensures
            match spec_beatgrid(data@) {
                Ok((n, ms)) => res matches Ok(g) && g.num_markers == n && g.markers@ == ms,
                Err(e) => res == Err::<Self, SeratoError>(e),
            },
            data@.len() < 6 ==> res == Err::<Self, SeratoError>(SeratoError::TooShort),
            data@.len() >= 6 && be_u32_at(data@, 2) == 0 ==> (res matches Ok(g) && g.num_markers == 0
                && g.markers@.len() == 0),
            data@.len() >= 6 && be_u32_at(data@, 2) != 0 && data@.len() < 11 ==> res == Err::<
                Self,
                SeratoError,
            >(SeratoError::TooShort),
            data@.len() >= 11 && be_u32_at(data@, 2) != 0 && 6 + 8 * be_u32_at(data@, 2) > data@.len()
                ==> res == Err::<Self, SeratoError>(SeratoError::UnexpectedEnd),
            data@.len() >= 11 && be_u32_at(data@, 2) != 0 && 6 + 8 * be_u32_at(data@, 2) <= data@.len()
                ==> (res matches Ok(g) && g.num_markers == be_u32_at(data@, 2) && g.markers@
                == Seq::new(be_u32_at(data@, 2) as nat, |i: int| marker_at(data@, 6 + 8 * i))),
    {
        if data.len() < 6 {
            return Err(SeratoError::TooShort);
        }
        let num_markers = read_be_u32(data, 2);
        if num_markers == 0 {
            return Ok(BeatGrid { num_markers: 0, markers: Vec::new() });
        }
        if data.len() < 11 {
            return Err(SeratoError::TooShort);
        }
        let mut markers: Vec<BeatGridMarker> = Vec::new();
        let mut offset: usize = 6;
        let mut i: u32 = 0;
        while i < num_markers
            invariant
                data@.len() >= 11,
                num_markers == be_u32_at(data@, 2),
                i <= num_markers,
                offset == 6 + 8 * i,
                offset <= data@.len(),
                markers@ == Seq::new(i as nat, |k: int| marker_at(data@, 6 + 8 * k)),
            decreases num_markers - i,
        {
            if data.len() - offset < 8 {
                assert(6 + 8 * num_markers > data@.len());
                return Err(SeratoError::UnexpectedEnd);
            }
            let position_bits = read_be_u32(data, offset);
            let next = read_be_u32(data, offset + 4);
            let marker = if offset + 8 == data.len() - 1 {
                BeatGridMarker::Terminal { position_bits, bpm_bits: next }
            } else {
                BeatGridMarker::NonTerminal { position_bits, beats_till_next: next }
            };
            markers.push(marker);
            assert(markers@ =~= Seq::new((i + 1) as nat, |k: int| marker_at(data@, 6 + 8 * k)));
            offset += 8;
            i += 1;
        }
        Ok(BeatGrid { num_markers, markers })
    }
}

} // verus!
