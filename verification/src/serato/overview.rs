//! The `Serato Overview` tag: the waveform overview.
use vstd::prelude::*;

use crate::serato::SeratoError;

verus! {

/// Waveform overview: one block of 16 frequency-band strengths per time slice.
#[derive(Debug, Clone, Default)]
pub struct Overview {
    pub blocks: Vec<[u8; 16]>,
}

/// Block `i` of the overview data: the 16 bytes after the two header bytes and `i` earlier blocks.
pub open spec fn block_at(data: Seq<u8>, i: int) -> Seq<u8> {
    data.subrange(2 + 16 * i, 2 + 16 * i + 16)
}

/// The overview blocks, or why the data cannot be read.
pub open spec fn spec_overview(data: Seq<u8>) -> Result<Seq<Seq<u8>>, SeratoError> {
    if data.len() < 2 {
        Err(SeratoError::TooShort)
    } else {
        Ok(Seq::new(((data.len() - 2) / 16) as nat, |i: int| block_at(data, i)))
    }
}

impl Overview {
    /// The blocks as byte sequences.
    pub open spec fn block_views(&self) -> Seq<Seq<u8>> {
        self.blocks@.map_values(|b: [u8; 16]| b@)
    }

    /// Parse the overview: two header bytes, then as many whole 16-byte blocks as fit;
    /// trailing bytes short of a block are ignored.
    pub fn parse(data: &[u8]) -> (res: Result<Self, SeratoError>)
        ensures
            match spec_overview(data@) {
                Ok(b) => res matches Ok(o) && o.block_views() == b,
                Err(e) => res == Err::<Self, SeratoError>(e),
            },
            data@.len() < 2 ==> res is Err && res == Err::<Self, SeratoError>(SeratoError::TooShort),
            data@.len() >= 2 ==> (res matches Ok(o) && o.blocks@.len() == (data@.len() - 2) / 16
                && forall|i: int| 0 <= i < o.blocks@.len() ==> #[trigger] o.blocks@[i]@ == block_at(data@, i)),
    {
        if data.len() < 2 {
            return Err(SeratoError::TooShort);
        }
        let mut blocks: Vec<[u8; 16]> = Vec::new();
        let mut offset: usize = 2;
        while data.len() - offset >= 16
            invariant
                2 <= offset <= data@.len(),
                offset == 2 + 16 * blocks@.len(),
                forall|i: int| 0 <= i < blocks@.len() ==> #[trigger] blocks@[i]@ == block_at(data@, i),
            decreases data.len() - offset,
        {
            let o = offset;
            let block: [u8; 16] = [
                data[o], data[o + 1], data[o + 2], data[o + 3], data[o + 4], data[o + 5], data[o + 6],
                data[o + 7], data[o + 8], data[o + 9], data[o + 10], data[o + 11], data[o + 12],
                data[o + 13], data[o + 14], data[o + 15],
            ];
            assert(block@ =~= block_at(data@, blocks@.len() as int));
            blocks.push(block);
            offset += 16;
        }
        assert((data@.len() - 2) / 16 == blocks@.len()) by (nonlinear_arith)
            requires
                offset == 2 + 16 * blocks@.len(),
                data@.len() - offset < 16,
                offset <= data@.len(),
        ;
        let o = Overview { blocks };
        assert(o.block_views() =~= Seq::new(((data@.len() - 2) / 16) as nat, |i: int| block_at(data@, i)));
        Ok(o)
    }
}

// ---------------------------------------------------------------------------
// Waveform
// ---------------------------------------------------------------------------

/// How loud one cell of the waveform is, relative to the loudest cell.
#[derive(Debug, Clone, Copy, PartialEq, Eq)]
pub enum Shade {
    /// At most 6% of the loudest.
    Faint,
    /// At most 20%.
    Low,
    /// At most 42%.
    Mid,
    /// At most 70%.
    High,
    /// Louder, or every cell silent.
    Peak,
}

/// Band pair `y` of a block: the sum of bands `2y` and `2y + 1`, divided by eight.
pub open spec fn band_level(block: Seq<u8>, y: int) -> u8 {
    ((block[2 * y] as int + block[2 * y + 1] as int) / 8) as u8
}

/// The eight levels of a block.
pub open spec fn block_levels(block: Seq<u8>) -> Seq<u8> {
    Seq::new(8, |y: int| band_level(block, y))
}

/// The columns of the waveform: one per block where the terminal is at least 240 wide;
/// pairs of blocks averaged (rounded down) where it is at least 120 wide; triples otherwise.
pub open spec fn waveform_columns(blocks: Seq<Seq<u8>>, terminal_width: u16) -> Seq<Seq<u8>> {
    let levels = blocks.map_values(|b: Seq<u8>| block_levels(b));
    if terminal_width >= 240 {
        levels
    } else if terminal_width >= 120 {
        Seq::new(
            (blocks.len() / 2) as nat,
            |i: int|
                Seq::new(
                    8,
                    |y: int| ((levels[2 * i][y] as int + levels[2 * i + 1][y] as int) / 2) as u8,
                ),
        )
    } else {
        Seq::new(
            (blocks.len() / 3) as nat,
            |i: int|
                Seq::new(
                    8,
                    |y: int|
                        ((levels[3 * i][y] as int + levels[3 * i + 1][y] as int + levels[3 * i
                            + 2][y] as int) / 3) as u8,
                ),
        )
    }
}

/// The largest level of a column.
pub open spec fn column_max(c: Seq<u8>) -> u8
    decreases c.len(),
{
    if c.len() == 0 {
        0
    } else {
        let m = column_max(c.drop_last());
        if c.last() > m {
            c.last()
        } else {
            m
        }
    }
}

/// The largest level of all columns; 1 where there are none.
pub open spec fn levels_max(cols: Seq<Seq<u8>>) -> u8
    decreases cols.len(),
{
    if cols.len() == 0 {
        1
    } else if cols.len() == 1 {
        column_max(cols[0])
    } else {
        let m = levels_max(cols.drop_last());
        let c = column_max(cols.last());
        if c > m {
            c
        } else {
            m
        }
    }
}

/// The shade of a level: its fraction of the loudest level against 6%, 20%, 42% and 70%.
/// With a loudest level of zero every fraction is `0 / 0`, which is below no bound, so a
/// silent waveform is drawn in the loudest shade.
pub open spec fn shade_of(value: u8, max: u8) -> Shade {
    if max == 0 {
        Shade::Peak
    } else if 50 * value <= 3 * max {
        Shade::Faint
    } else if 5 * value <= max {
        Shade::Low
    } else if 50 * value <= 21 * max {
        Shade::Mid
    } else if 10 * value <= 7 * max {
        Shade::High
    } else {
        Shade::Peak
    }
}

/// The rows of the waveform, top to bottom: row `r` shows level `7 - r` of every column.
pub open spec fn waveform_rows(blocks: Seq<Seq<u8>>, terminal_width: u16) -> Seq<Seq<Shade>> {
    let cols = waveform_columns(blocks, terminal_width);
    let m = levels_max(cols);
    Seq::new(8, |r: int| Seq::new(cols.len(), |x: int| shade_of(cols[x][7 - r], m)))
}

fn shade_exec(value: u8, max: u8) -> (s: Shade)
    ensures
        s == shade_of(value, max),
{
    let v = value as u32;
    let m = max as u32;
    if m == 0 {
        Shade::Peak
    } else if 50 * v <= 3 * m {
        Shade::Faint
    } else if 5 * v <= m {
        Shade::Low
    } else if 50 * v <= 21 * m {
        Shade::Mid
    } else if 10 * v <= 7 * m {
        Shade::High
    } else {
        Shade::Peak
    }
}

fn block_levels_exec(block: &[u8; 16]) -> (l: Vec<u8>)
    ensures
        l@ == block_levels(block@),
{
    let mut l: Vec<u8> = Vec::new();
    let mut y: usize = 0;
    while y < 8
        invariant
            y <= 8,
            l@.len() == y,
            forall|k: int| 0 <= k < y ==> #[trigger] l@[k] == band_level(block@, k),
        decreases 8 - y,
    {
        let sum: u16 = block[2 * y] as u16 + block[2 * y + 1] as u16;
        l.push((sum / 8) as u8);
        y += 1;
    }
    assert(l@ =~= block_levels(block@));
    l
}

fn column_max_exec(c: &Vec<u8>) -> (m: u8)
    ensures
        m == column_max(c@),
{
    let mut m: u8 = 0;
    let mut i: usize = 0;
    assert(c@.take(0) =~= Seq::<u8>::empty());
    while i < c.len()
        invariant
            i <= c@.len(),
            m == column_max(c@.take(i as int)),
        decreases c.len() - i,
    {
        assert(c@.take(i + 1).drop_last() =~= c@.take(i as int));
        if c[i] > m {
            m = c[i];
        }
        i += 1;
    }
    assert(c@.take(c@.len() as int) =~= c@);
    m
}

impl Overview {
    /// The waveform as shaded cells, eight rows from top to bottom, fitted to the terminal
    /// width.
    pub fn waveform(&self, terminal_width: u16) -> (rows: Vec<Vec<Shade>>)
        ensures
            rows@.len() == 8,
            forall|r: int| 0 <= r < 8 ==> #[trigger] rows@[r]@ == waveform_rows(self.block_views(), terminal_width)[r],
    {
        let ghost blocks = self.block_views();
        let ghost cols_spec = waveform_columns(blocks, terminal_width);
        let n = self.blocks.len();
        let mut levels: Vec<Vec<u8>> = Vec::new();
        let mut i: usize = 0;
        while i < n
            invariant
                n == self.blocks@.len(),
                blocks == self.block_views(),
                i <= n,
                levels@.len() == i,
                forall|k: int| 0 <= k < i ==> #[trigger] levels@[k]@ == block_levels(blocks[k]),
            decreases n - i,
        {
            levels.push(block_levels_exec(&self.blocks[i]));
            i += 1;
        }
        let mut cols: Vec<Vec<u8>> = Vec::new();
        if terminal_width >= 240 {
            cols = levels;
        } else {
            let k: usize = if terminal_width >= 120 { 2 } else { 3 };
            let count = n / k;
            let mut x: usize = 0;
            while x < count
                invariant
                    n == self.blocks@.len(),
                    blocks == self.block_views(),
                    levels@.len() == n,
                    forall|j: int| 0 <= j < n ==> #[trigger] levels@[j]@ == block_levels(blocks[j]),
                    k == 2 || k == 3,
                    k == 2 <==> terminal_width >= 120,
                    count == n / k,
                    x <= count,
                    cols@.len() == x,
                    terminal_width < 240,
                    cols_spec == waveform_columns(blocks, terminal_width),
                    forall|j: int| 0 <= j < x ==> #[trigger] cols@[j]@ == cols_spec[j],
                decreases count - x,
            {
                assert(k * x + k <= n) by (nonlinear_arith)
                    requires
                        x < count,
                        count == n / k,
                        k > 0,
                ;
                let mut col: Vec<u8> = Vec::new();
                let mut y: usize = 0;
                while y < 8
                    invariant
                        n == self.blocks@.len(),
                        blocks == self.block_views(),
                        levels@.len() == n,
                        forall|j: int| 0 <= j < n ==> #[trigger] levels@[j]@ == block_levels(blocks[j]),
                        k == 2 || k == 3,
                        k * x + k <= n,
                        y <= 8,
                        col@.len() == y,
                        k == 2 ==> forall|yy: int| 0 <= yy < y ==> #[trigger] col@[yy] == ((
                            block_levels(blocks[2 * x])[yy] as int + block_levels(blocks[2 * x + 1])[yy] as int) / 2) as u8,
                        k == 3 ==> forall|yy: int| 0 <= yy < y ==> #[trigger] col@[yy] == ((
                            block_levels(blocks[3 * x])[yy] as int + block_levels(blocks[3 * x + 1])[yy] as int
                            + block_levels(blocks[3 * x + 2])[yy] as int) / 3) as u8,
                    decreases 8 - y,
                {
                    if k == 2 {
                        let a = levels[2 * x][y] as u16;
                        let b = levels[2 * x + 1][y] as u16;
                        col.push(((a + b) / 2) as u8);
                    } else {
                        let a = levels[3 * x][y] as u16;
                        let b = levels[3 * x + 1][y] as u16;
                        let c = levels[3 * x + 2][y] as u16;
                        col.push(((a + b + c) / 3) as u8);
                    }
                    y += 1;
                }
                proof {
                    let levels_spec = blocks.map_values(|b: Seq<u8>| block_levels(b));
                    if k == 2 {
                        assert(col@ =~= cols_spec[x as int]);
                    } else {
                        assert(col@ =~= cols_spec[x as int]);
                    }
                }
                cols.push(col);
                x += 1;
            }
        }
        assert(cols@.len() == cols_spec.len());
        assert forall|j: int| 0 <= j < cols@.len() implies #[trigger] cols@[j]@ == cols_spec[j] by {}
        // The largest level.
        let ncols = cols.len();
        let mut m: u8 = 1;
        let mut c: usize = 0;
        while c < ncols
            invariant
                ncols == cols@.len(),
                c <= ncols,
                cols@.len() == cols_spec.len(),
                forall|j: int| 0 <= j < ncols ==> #[trigger] cols@[j]@ == cols_spec[j],
                c > 0 ==> m == levels_max(cols_spec.take(c as int)),
                c == 0 ==> m == 1,
            decreases ncols - c,
        {
            let cm = column_max_exec(&cols[c]);
            assert(cols_spec.take(c + 1).drop_last() =~= cols_spec.take(c as int));
            if c == 0 || cm > m {
                m = cm;
            }
            c += 1;
        }
        assert(cols_spec.take(ncols as int) =~= cols_spec);
        let ghost mx = levels_max(cols_spec);
        assert(m == mx);
        let mut rows: Vec<Vec<Shade>> = Vec::new();
        let mut r: usize = 0;
        while r < 8
            invariant
                r <= 8,
                rows@.len() == r,
                ncols == cols@.len(),
                cols@.len() == cols_spec.len(),
                forall|j: int| 0 <= j < ncols ==> #[trigger] cols@[j]@ == cols_spec[j],
                forall|j: int| 0 <= j < ncols ==> (#[trigger] cols_spec[j]).len() == 8,
                m == levels_max(cols_spec),
                cols_spec == waveform_columns(blocks, terminal_width),
                forall|rr: int| 0 <= rr < r ==> #[trigger] rows@[rr]@ == waveform_rows(blocks, terminal_width)[rr],
            decreases 8 - r,
        {
            let mut row: Vec<Shade> = Vec::new();
            let mut x: usize = 0;
            while x < ncols
                invariant
                    r < 8,
                    x <= ncols,
                    row@.len() == x,
                    ncols == cols@.len(),
                    forall|j: int| 0 <= j < ncols ==> #[trigger] cols@[j]@ == cols_spec[j],
                    forall|j: int| 0 <= j < ncols ==> (#[trigger] cols_spec[j]).len() == 8,
                    forall|j: int| 0 <= j < x ==> #[trigger] row@[j] == shade_of(cols_spec[j][7 - r as int], m),
                decreases ncols - x,
            {
                assert(cols@[x as int]@.len() == 8);
                row.push(shade_exec(cols[x][7 - r], m));
                x += 1;
            }
            assert(row@ =~= waveform_rows(blocks, terminal_width)[r as int]);
            rows.push(row);
            r += 1;
        }
        rows
    }
}

/// The character drawn for a shade.
pub fn shade_symbol(s: Shade) -> (c: char)
    ensures
        c == (match s {
            Shade::Faint | Shade::Low => '░',
            Shade::Mid | Shade::High => '▒',
            Shade::Peak => '█',
        }),
{
    match s {
        Shade::Faint | Shade::Low => '░',
        Shade::Mid | Shade::High => '▒',
        Shade::Peak => '█',
    }
}

} // verus!
