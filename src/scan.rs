//! What the scanning side computes from the switch states it reads: the
//! position of a matrix switch, the list of pressed positions handed to
//! `KeyStream::push`, and the positions reported by the peer half.
use vstd::prelude::*;

use crate::keymap::Pos;

verus! {

/// Number of positions one half reports per scan.
pub const SCAN_SIZE: usize = 8;

/// Position bit of the peer half.
pub const PEER_OFFSET: u8 = 0x80;

/// A row of the 4x6 matrix.
#[derive(Clone, Copy, Debug, PartialEq, Eq, Structural)]
pub enum Row {
    R1,
    R2,
    R3,
    R4,
}

/// A column of the 4x6 matrix.
#[derive(Clone, Copy, Debug, PartialEq, Eq, Structural)]
pub enum Col {
    C1,
    C2,
    C3,
    C4,
    C5,
    C6,
}

/// Row number, 1 to 4.
pub open spec fn row_number(row: Row) -> int {
    match row {
        Row::R1 => 1,
        Row::R2 => 2,
        Row::R3 => 3,
        Row::R4 => 4,
    }
}

/// Column number, 1 to 6.
pub open spec fn col_number(col: Col) -> int {
    match col {
        Col::C1 => 1,
        Col::C2 => 2,
        Col::C3 => 3,
        Col::C4 => 4,
        Col::C5 => 5,
        Col::C6 => 6,
    }
}

/// Position of the switch at `row` and `col`: row number in the high
/// nibble, column number in the low one.
pub fn encode(row: &Row, col: &Col) -> (r: Pos)
    ensures
        r == row_number(*row) * 16 + col_number(*col),
{
    let r: u8 = match row {
        Row::R1 => 1,
        Row::R2 => 2,
        Row::R3 => 3,
        Row::R4 => 4,
    };
    let c: u8 = match col {
        Col::C1 => 1,
        Col::C2 => 2,
        Col::C3 => 3,
        Col::C4 => 4,
        Col::C5 => 5,
        Col::C6 => 6,
    };
    assert((r << 4u8) | c == r * 16 + c) by (bit_vector)
        requires
            1 <= r <= 4,
            1 <= c <= 6,
    ;
    (r << 4) | c
}

/// The candidates whose switch is pressed, in order.
pub open spec fn pressed_positions(cands: Seq<Pos>, pressed: Seq<bool>) -> Seq<Pos>
    decreases cands.len(),
{
    if cands.len() == 0 {
        Seq::empty()
    } else {
        let r = pressed_positions(cands.drop_last(), pressed);
        if pressed[cands.len() - 1] {
            r.push(cands.last())
        } else {
            r
        }
    }
}

/// `ps` cut or padded with 0 to `SCAN_SIZE` entries.
pub open spec fn scan_list(ps: Seq<Pos>) -> Seq<Pos> {
    Seq::new(SCAN_SIZE as nat, |i: int| if i < ps.len() { ps[i] } else { 0u8 })
}

/// The first `SCAN_SIZE` pressed positions among `cands` (`pressed[i]`
/// tells whether the switch at `cands[i]` is down), then zeros.
pub fn collect_pressed(cands: &[Pos], pressed: &[bool]) -> (r: [Pos; SCAN_SIZE])
    requires
        cands@.len() == pressed@.len(),
    ensures
        r@ == scan_list(pressed_positions(cands@, pressed@)),
{
    let mut vec = [0u8; SCAN_SIZE];
    let mut off: usize = 0;
    let mut i: usize = 0;
    assert(cands@.take(0) =~= Seq::<Pos>::empty());
    while i < cands.len()
        invariant
            0 <= i <= cands@.len(),
            cands@.len() == pressed@.len(),
            off == (if pressed_positions(cands@.take(i as int), pressed@).len() < SCAN_SIZE {
                pressed_positions(cands@.take(i as int), pressed@).len()
            } else {
                SCAN_SIZE as nat
            }),
            vec@ == scan_list(pressed_positions(cands@.take(i as int), pressed@)),
        decreases cands@.len() - i,
    {
        let ghost before = pressed_positions(cands@.take(i as int), pressed@);
        proof {
            let t = cands@.take(i + 1);
            assert(t.drop_last() =~= cands@.take(i as int));
            assert(t.last() == cands@[i as int]);
        }
        if pressed[i] && off < SCAN_SIZE {
            vec[off] = cands[i];
            off += 1;
        }
        proof {
            let after = pressed_positions(cands@.take(i + 1), pressed@);
            assert(vec@ =~= scan_list(after));
        }
        i += 1;
    }
    assert(cands@.take(cands@.len() as int) =~= cands@);
    vec
}

/// The positions of the matrix in scan order: row by row, column by column.
pub open spec fn matrix_order() -> Seq<Pos> {
    Seq::new(24, |i: int| ((i / 6 + 1) * 16 + i % 6 + 1) as u8)
}

/// The pressed positions of a matrix scan (`pressed[r][c]`: the switch of
/// row `r + 1` and column `c + 1` is down), in scan order, cut or padded with
/// 0 to `SCAN_SIZE` entries.
pub fn scan_matrix(pressed: &[[bool; 6]; 4]) -> (r: [Pos; SCAN_SIZE])
    ensures
        r@ == scan_list(
            pressed_positions(
                matrix_order(),
                Seq::new(24, |i: int| pressed@[i / 6]@[i % 6]),
            ),
        ),
{
    let rows = [Row::R1, Row::R2, Row::R3, Row::R4];
    let cols = [Col::C1, Col::C2, Col::C3, Col::C4, Col::C5, Col::C6];
    let mut cands: Vec<Pos> = Vec::new();
    let mut flags: Vec<bool> = Vec::new();
    let mut i: usize = 0;
    while i < 4
        invariant
            0 <= i <= 4,
            rows@ == seq![Row::R1, Row::R2, Row::R3, Row::R4],
            cols@ == seq![Col::C1, Col::C2, Col::C3, Col::C4, Col::C5, Col::C6],
            cands@.len() == 6 * i,
            flags@.len() == 6 * i,
            forall|t: int| 0 <= t < 6 * i ==> cands@[t] == matrix_order()[t],
            forall|t: int| 0 <= t < 6 * i ==> flags@[t] == pressed@[t / 6]@[t % 6],
        decreases 4 - i,
    {
        let mut j: usize = 0;
        while j < 6
            invariant
                0 <= i < 4,
                0 <= j <= 6,
                rows@ == seq![Row::R1, Row::R2, Row::R3, Row::R4],
                cols@ == seq![Col::C1, Col::C2, Col::C3, Col::C4, Col::C5, Col::C6],
                cands@.len() == 6 * i + j,
                flags@.len() == 6 * i + j,
                forall|t: int| 0 <= t < 6 * i + j ==> cands@[t] == matrix_order()[t],
                forall|t: int| 0 <= t < 6 * i + j ==> flags@[t] == pressed@[t / 6]@[t % 6],
            decreases 6 - j,
        {
            let p = encode(&rows[i], &cols[j]);
            cands.push(p);
            flags.push(pressed[i][j]);
            j += 1;
        }
        i += 1;
    }
    let r = collect_pressed(cands.as_slice(), flags.as_slice());
    assert(cands@ =~= matrix_order());
    assert(flags@ =~= Seq::new(24, |i: int| pressed@[i / 6]@[i % 6]));
    r
}

/// Column on this half of column `col` of the peer, its mirror image: the
/// peer's columns 1, 2, 3 become 4, 5, 6 and its columns 4, 5, 6 become
/// 3, 2, 1.
pub open spec fn mirror_col(col: u8) -> u8 {
    if col <= 3 {
        (col + 3) as u8
    } else {
        (7 - col) as u8
    }
}

/// Position of an entry `raw` of the peer's scan: its row, the peer bit,
/// and the mirrored column; 0 for an entry with no column 1 to 6 (such as
/// the zero padding).
pub open spec fn peer_pos(raw: u8) -> Pos {
    let col = (raw % 16) as u8;
    if 1 <= col <= 6 {
        (raw & 0xf0) | PEER_OFFSET | mirror_col(col)
    } else {
        0
    }
}

/// The positions of a scan received from the peer half.
pub fn peer_positions(raw: &[u8; SCAN_SIZE]) -> (r: [Pos; SCAN_SIZE])
    ensures
        forall|i: int| 0 <= i < SCAN_SIZE ==> r@[i] == peer_pos(raw@[i]),
{
    let mut pos = [0u8; SCAN_SIZE];
    let mut i: usize = 0;
    while i < SCAN_SIZE
        invariant
            0 <= i <= SCAN_SIZE,
            forall|t: int| 0 <= t < i ==> pos@[t] == peer_pos(raw@[t]),
        decreases SCAN_SIZE - i,
    {
        let x = raw[i];
        assert(x & 0x0fu8 == x % 16) by (bit_vector);
        let row = x & 0xf0;
        let col = x & 0x0f;
        pos[i] = if 1 <= col && col <= 6 {
            let adj = if col <= 3 {
                col + 3
            } else {
                7 - col
            };
            (row | PEER_OFFSET) | adj
        } else {
            0
        };
        i += 1;
    }
    pos
}

} // verus!
