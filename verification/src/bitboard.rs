//! One player's stones on the 7x6 grid, packed into a `u64`.
//!
//! The layout is column-major: the stone at `(row, column)` sits at bit
//! `column * 7 + row`. Each column carries a seventh "guard" bit (bit
//! index `column * 7 + 6`) that is always clear, so that the shift-based
//! win check can never run a streak across the seam between two columns.

use vstd::prelude::*;

verus! {

/// Mask of the guard rows and of the unused high bits: every bit that is
/// not one of the 42 playable cells. A well-formed bitboard has no bit of
/// this mask set.
pub const GUARD_MASK: u64 = 0xFFFF020408102040;

/// How many of the `n` lowest bits of `b` are set.
pub open spec fn count_bits(b: u64, n: nat) -> nat
    decreases n,
{
    if n == 0 {
        0
    } else {
        count_bits(b, (n - 1) as nat) + (if b & (1u64 << ((n - 1) as u64)) != 0 {
            1nat
        } else {
            0nat
        })
    }
}

/// At most `n` of the lowest `n` bits can be set.
pub proof fn lemma_count_bits_le(b: u64, n: nat)
    ensures
        count_bits(b, n) <= n,
    decreases n,
{
    if n > 0 {
        lemma_count_bits_le(b, (n - 1) as nat);
    }
}

/// The zero word has no set bits.
pub proof fn lemma_count_bits_zero(n: nat)
    requires
        n <= 64,
    ensures
        count_bits(0u64, n) == 0,
    decreases n,
{
    if n > 0 {
        lemma_count_bits_zero((n - 1) as nat);
        let j = (n - 1) as u64;
        assert(0u64 & (1u64 << j) == 0) by (bit_vector);
    }
}

/// Setting one clear bit raises the count of the low `n` bits by one when
/// the bit lies among them, and leaves it unchanged otherwise.
pub proof fn lemma_count_bits_set(b: u64, i: u64, n: nat)
    requires
        i < 64,
        n <= 64,
        b & (1u64 << i) == 0,
    ensures
        count_bits(b | (1u64 << i), n) == count_bits(b, n) + (if i < n {
            1nat
        } else {
            0nat
        }),
    decreases n,
{
    if n > 0 {
        lemma_count_bits_set(b, i, (n - 1) as nat);
        let j = (n - 1) as u64;
        if i == j {
            assert((b | (1u64 << i)) & (1u64 << j) != 0) by (bit_vector)
                requires
                    i == j,
                    i < 64,
            ;
        } else {
            assert(((b | (1u64 << i)) & (1u64 << j) != 0) == (b & (1u64 << j) != 0)) by (bit_vector)
                requires
                    i != j,
            ;
        }
    }
}

/// A bit-field with one bit per cell of the grid, for a single player.
#[derive(Clone, Copy, PartialEq, Eq, Structural, Debug)]
pub struct Bitboard {
    pub bits: u64,
}

impl Bitboard {
    /// The raw bit pattern; exposed for specification purposes.
    pub open spec fn spec_bits(self) -> u64 {
        self.bits
    }

    /// Well-formed: every guard bit and every bit beyond the board is clear.
    pub open spec fn wf(self) -> bool {
        self.bits & GUARD_MASK == 0
    }

    /// The player has a stone at `(row, column)`.
    pub open spec fn occupied(self, row: u64, column: u64) -> bool {
        self.bits & (1u64 << (column * 7 + row)) != 0
    }

    /// The number of stones this player has placed.
    pub open spec fn stones(self) -> nat {
        count_bits(self.bits, 64)
    }

    /// Create an empty bitboard: no stones, all guard bits clear.
    pub fn new() -> (r: Bitboard)
        ensures
            r.wf(),
            r.spec_bits() == 0,
            r.stones() == 0,
            forall|row: u64, column: u64| row < 6 && column < 7 ==> !r.occupied(row, column),
    {
        proof {
            lemma_zero_board_empty();
            lemma_count_bits_zero(64);
            assert(0u64 & GUARD_MASK == 0) by (bit_vector);
        }
        Bitboard { bits: 0 }
    }

    /// True iff the cell at `(row, column)` holds no stone of this player.
    pub fn is_empty(&self, row: u8, column: u8) -> (r: bool)
        requires
            row < 6,
            column < 7,
        ensures
            r == !self.occupied(row as u64, column as u64),
    {
        self.bits & (1u64 << (column as u64 * 7 + row as u64)) == 0
    }

    /// Set the stone at `(row, column)`; every other cell is untouched.
    pub fn place_stone(&mut self, row: u8, column: u8)
        requires
            old(self).wf(),
            row < 6,
            column < 7,
            !old(self).occupied(row as u64, column as u64),
        ensures
            final(self).wf(),
            final(self).spec_bits() == old(self).spec_bits() | (1u64 << (column as u64 * 7
                + row as u64)),
            final(self).occupied(row as u64, column as u64),
            final(self).stones() == old(self).stones() + 1,
            forall|r2: u64, c2: u64|
                r2 < 6 && c2 < 7 && !(r2 == row && c2 == column)
                    ==> final(self).occupied(r2, c2) == old(self).occupied(r2, c2),
    {
        let ghost pre = self.bits;
        let ghost rr = row as u64;
        let ghost cc = column as u64;
        self.bits = self.bits | (1u64 << (column as u64 * 7 + row as u64));
        proof {
            assert((pre | (1u64 << (cc * 7 + rr))) & GUARD_MASK == 0) by (bit_vector)
                requires
                    pre & GUARD_MASK == 0,
                    rr < 6,
                    cc < 7,
            ;
            assert((pre | (1u64 << (cc * 7 + rr))) & (1u64 << (cc * 7 + rr)) != 0) by (bit_vector)
                requires
                    rr < 6,
                    cc < 7,
            ;
            let idx = (cc * 7 + rr) as u64;
            lemma_count_bits_set(pre, idx, 64);
            assert forall|r2: u64, c2: u64|
                r2 < 6 && c2 < 7 && !(r2 == rr && c2 == cc)
                    implies #[trigger] self.occupied(r2, c2) == old(self).occupied(r2, c2) by {
                assert(((pre | (1u64 << (cc * 7 + rr))) & (1u64 << (c2 * 7 + r2)) != 0)
                    == (pre & (1u64 << (c2 * 7 + r2)) != 0)) by (bit_vector)
                    requires
                        r2 < 6,
                        c2 < 7,
                        rr < 6,
                        cc < 7,
                        !(r2 == rr && c2 == cc),
                ;
            }
        }
    }
}

impl Bitboard {
    /// Four stones straight up from `(row, column)`.
    pub open spec fn wins_vertical_at(self, row: u64, column: u64) -> bool {
        row < 3 && column < 7 && self.occupied(row, column) && self.occupied(
            (row + 1) as u64,
            column,
        ) && self.occupied((row + 2) as u64, column) && self.occupied((row + 3) as u64, column)
    }

    /// Four stones in a row to the right of `(row, column)`.
    pub open spec fn wins_horizontal_at(self, row: u64, column: u64) -> bool {
        row < 6 && column < 4 && self.occupied(row, column) && self.occupied(
            row,
            (column + 1) as u64,
        ) && self.occupied(row, (column + 2) as u64) && self.occupied(row, (column + 3) as u64)
    }

    /// Four stones diagonally up and to the right of `(row, column)`.
    pub open spec fn wins_diag_up_at(self, row: u64, column: u64) -> bool {
        row < 3 && column < 4 && self.occupied(row, column) && self.occupied(
            (row + 1) as u64,
            (column + 1) as u64,
        ) && self.occupied((row + 2) as u64, (column + 2) as u64) && self.occupied(
            (row + 3) as u64,
            (column + 3) as u64,
        )
    }

    /// Four stones diagonally down and to the right of `(row, column)`.
    pub open spec fn wins_diag_down_at(self, row: u64, column: u64) -> bool {
        3 <= row < 6 && column < 4 && self.occupied(row, column) && self.occupied(
            (row - 1) as u64,
            (column + 1) as u64,
        ) && self.occupied((row - 2) as u64, (column + 2) as u64) && self.occupied(
            (row - 3) as u64,
            (column + 3) as u64,
        )
    }

    /// Some run of four consecutive stones exists, in a row, a column, or
    /// either diagonal.
    pub open spec fn has_win(self) -> bool {
        (exists|row: u64, column: u64| self.wins_vertical_at(row, column)) || (exists|
            row: u64,
            column: u64,
        | self.wins_horizontal_at(row, column)) || (exists|row: u64, column: u64|
            self.wins_diag_up_at(row, column)) || (exists|row: u64, column: u64|
            self.wins_diag_down_at(row, column))
    }

    /// True iff this player has four in a row, column or diagonal, computed
    /// with a constant number of word-sized shift-and-mask steps.
    pub fn is_win(&self) -> (r: bool)
        requires
            self.wf(),
        ensures
            r == self.has_win(),
    {
        let b = self.bits;
        let v1 = b & (b >> 1);
        let v = v1 & (v1 >> 2);
        let h1 = b & (b >> 7);
        let h = h1 & (h1 >> 14);
        let u1 = b & (b >> 8);
        let u = u1 & (u1 >> 16);
        let d1 = b & (b >> 6);
        let d = d1 & (d1 >> 12);
        let won = (v | h | u | d) != 0;
        proof {
            lemma_is_win_correct(*self, b, won);
        }
        won
    }
}

/// The shift-and-mask test answers exactly the geometric question: the
/// combined mask is non-zero iff some run of four exists on the board.
proof fn lemma_is_win_correct(board: Bitboard, b: u64, won: bool)
    requires
        board.wf(),
        b == board.spec_bits(),
        won == ((b & (b >> 1) & ((b & (b >> 1)) >> 2)) | (b & (b >> 7) & ((b & (b >> 7)) >> 14)) | (
        b & (b >> 8) & ((b & (b >> 8)) >> 16)) | (b & (b >> 6) & ((b & (b >> 6)) >> 12)) != 0),
    ensures
        won == board.has_win(),
{
    let v = b & (b >> 1) & ((b & (b >> 1)) >> 2);
    let h = b & (b >> 7) & ((b & (b >> 7)) >> 14);
    let u = b & (b >> 8) & ((b & (b >> 8)) >> 16);
    let d = b & (b >> 6) & ((b & (b >> 6)) >> 12);
    assert(((v | h | u | d) != 0) == (v != 0 || h != 0 || u != 0 || d != 0)) by (bit_vector);
    if won {
        if v != 0 {
            let i = lemma_nonzero_has_bit(v);
            lemma_vertical_sound(board, b, i);
        } else if h != 0 {
            let i = lemma_nonzero_has_bit(h);
            lemma_horizontal_sound(board, b, i);
        } else if u != 0 {
            let i = lemma_nonzero_has_bit(u);
            lemma_diag_up_sound(board, b, i);
        } else {
            let i = lemma_nonzero_has_bit(d);
            lemma_diag_down_sound(board, b, i);
        }
    } else {
        if board.has_win() {
            if exists|row: u64, column: u64| board.wins_vertical_at(row, column) {
                let (row, column) = choose|row: u64, column: u64|
                    board.wins_vertical_at(row, column);
                lemma_vertical_complete(b, row, column);
            } else if exists|row: u64, column: u64| board.wins_horizontal_at(row, column) {
                let (row, column) = choose|row: u64, column: u64|
                    board.wins_horizontal_at(row, column);
                lemma_horizontal_complete(b, row, column);
            } else if exists|row: u64, column: u64| board.wins_diag_up_at(row, column) {
                let (row, column) = choose|row: u64, column: u64|
                    board.wins_diag_up_at(row, column);
                lemma_diag_up_complete(b, row, column);
            } else {
                let (row, column) = choose|row: u64, column: u64|
                    board.wins_diag_down_at(row, column);
                lemma_diag_down_complete(b, row, column);
            }
            assert(false);
        }
    }
}

/// A non-zero word has at least one set bit; returns the index of one.
proof fn lemma_nonzero_has_bit(m: u64) -> (i: u64)
    requires
        m != 0,
    ensures
        i < 64,
        m & (1u64 << i) != 0,
    decreases m,
{
    if m & 1 != 0 {
        assert(m & (1u64 << 0u64) != 0) by (bit_vector)
            requires
                m & 1 != 0,
        ;
        0
    } else {
        assert(m >> 1 != 0 && m >> 1 < m) by (bit_vector)
            requires
                m != 0 && m & 1 == 0,
        ;
        let j = lemma_nonzero_has_bit(m >> 1);
        assert(j < 63 && m & (1u64 << (j + 1) as u64) != 0) by (bit_vector)
            requires
                j < 64,
                (m >> 1) & (1u64 << j) != 0,
        ;
        (j + 1) as u64
    }
}

proof fn lemma_vertical_sound(board: Bitboard, b: u64, i: u64)
    requires
        board.wf(),
        b == board.spec_bits(),
        i < 64,
        (b & (b >> 1) & ((b & (b >> 1)) >> 2)) & (1u64 << i) != 0,
    ensures
        board.has_win(),
{
    let row = (i % 7) as u64;
    let column = (i / 7) as u64;
    assert(row < 3 && column < 7 && b & (1u64 << (column * 7 + row)) != 0 && b & (1u64 << (column
        * 7 + row + 1)) != 0 && b & (1u64 << (column * 7 + row + 2)) != 0 && b & (1u64 << (column
        * 7 + row + 3)) != 0) by (bit_vector)
        requires
            b & 0xFFFF020408102040u64 == 0,
            i < 64,
            (b & (b >> 1) & ((b & (b >> 1)) >> 2)) & (1u64 << i) != 0,
            row == (i % 7) as u64,
            column == (i / 7) as u64,
    ;
    assert(board.wins_vertical_at(row, column));
}

proof fn lemma_vertical_complete(b: u64, row: u64, column: u64)
    requires
        row < 3,
        column < 7,
        b & (1u64 << (column * 7 + row)) != 0,
        b & (1u64 << (column * 7 + row + 1)) != 0,
        b & (1u64 << (column * 7 + row + 2)) != 0,
        b & (1u64 << (column * 7 + row + 3)) != 0,
    ensures
        b & (b >> 1) & ((b & (b >> 1)) >> 2) != 0,
{
    assert(b & (b >> 1) & ((b & (b >> 1)) >> 2) != 0) by (bit_vector)
        requires
            row < 3,
            column < 7,
            b & (1u64 << (column * 7 + row)) != 0,
            b & (1u64 << (column * 7 + row + 1)) != 0,
            b & (1u64 << (column * 7 + row + 2)) != 0,
            b & (1u64 << (column * 7 + row + 3)) != 0,
    ;
}

proof fn lemma_horizontal_sound(board: Bitboard, b: u64, i: u64)
    requires
        board.wf(),
        b == board.spec_bits(),
        i < 64,
        (b & (b >> 7) & ((b & (b >> 7)) >> 14)) & (1u64 << i) != 0,
    ensures
        board.has_win(),
{
    let row = (i % 7) as u64;
    let column = (i / 7) as u64;
    assert(row < 6 && column < 4 && b & (1u64 << (column * 7 + row)) != 0 && b & (1u64 << ((column
        + 1) * 7 + row)) != 0 && b & (1u64 << ((column + 2) * 7 + row)) != 0 && b & (1u64 << ((
    column + 3) * 7 + row)) != 0) by (bit_vector)
        requires
            b & 0xFFFF020408102040u64 == 0,
            i < 64,
            (b & (b >> 7) & ((b & (b >> 7)) >> 14)) & (1u64 << i) != 0,
            row == (i % 7) as u64,
            column == (i / 7) as u64,
    ;
    assert(board.wins_horizontal_at(row, column));
}

proof fn lemma_horizontal_complete(b: u64, row: u64, column: u64)
    requires
        row < 6,
        column < 4,
        b & (1u64 << (column * 7 + row)) != 0,
        b & (1u64 << ((column + 1) * 7 + row)) != 0,
        b & (1u64 << ((column + 2) * 7 + row)) != 0,
        b & (1u64 << ((column + 3) * 7 + row)) != 0,
    ensures
        b & (b >> 7) & ((b & (b >> 7)) >> 14) != 0,
{
    assert(b & (b >> 7) & ((b & (b >> 7)) >> 14) != 0) by (bit_vector)
        requires
            row < 6,
            column < 4,
            b & (1u64 << (column * 7 + row)) != 0,
            b & (1u64 << ((column + 1) * 7 + row)) != 0,
            b & (1u64 << ((column + 2) * 7 + row)) != 0,
            b & (1u64 << ((column + 3) * 7 + row)) != 0,
    ;
}

proof fn lemma_diag_up_sound(board: Bitboard, b: u64, i: u64)
    requires
        board.wf(),
        b == board.spec_bits(),
        i < 64,
        (b & (b >> 8) & ((b & (b >> 8)) >> 16)) & (1u64 << i) != 0,
    ensures
        board.has_win(),
{
    let row = (i % 7) as u64;
    let column = (i / 7) as u64;
    assert(row < 3 && column < 4 && b & (1u64 << (column * 7 + row)) != 0 && b & (1u64 << ((column
        + 1) * 7 + row + 1)) != 0 && b & (1u64 << ((column + 2) * 7 + row + 2)) != 0 && b & (1u64
        << ((column + 3) * 7 + row + 3)) != 0) by (bit_vector)
        requires
            b & 0xFFFF020408102040u64 == 0,
            i < 64,
            (b & (b >> 8) & ((b & (b >> 8)) >> 16)) & (1u64 << i) != 0,
            row == (i % 7) as u64,
            column == (i / 7) as u64,
    ;
    assert(board.wins_diag_up_at(row, column));
}

proof fn lemma_diag_up_complete(b: u64, row: u64, column: u64)
    requires
        row < 3,
        column < 4,
        b & (1u64 << (column * 7 + row)) != 0,
        b & (1u64 << ((column + 1) * 7 + row + 1)) != 0,
        b & (1u64 << ((column + 2) * 7 + row + 2)) != 0,
        b & (1u64 << ((column + 3) * 7 + row + 3)) != 0,
    ensures
        b & (b >> 8) & ((b & (b >> 8)) >> 16) != 0,
{
    assert(b & (b >> 8) & ((b & (b >> 8)) >> 16) != 0) by (bit_vector)
        requires
            row < 3,
            column < 4,
            b & (1u64 << (column * 7 + row)) != 0,
            b & (1u64 << ((column + 1) * 7 + row + 1)) != 0,
            b & (1u64 << ((column + 2) * 7 + row + 2)) != 0,
            b & (1u64 << ((column + 3) * 7 + row + 3)) != 0,
    ;
}

proof fn lemma_diag_down_sound(board: Bitboard, b: u64, i: u64)
    requires
        board.wf(),
        b == board.spec_bits(),
        i < 64,
        (b & (b >> 6) & ((b & (b >> 6)) >> 12)) & (1u64 << i) != 0,
    ensures
        board.has_win(),
{
    let row = (i % 7) as u64;
    let column = (i / 7) as u64;
    assert(3 <= row && row < 6 && column < 4 && b & (1u64 << (column * 7 + row)) != 0 && b & (1u64
        << (column * 7 + row + 6)) != 0 && b & (1u64 << (column * 7 + row + 12)) != 0
        && b & (1u64 << (column * 7 + row + 18)) != 0) by (bit_vector)
        requires
            b & 0xFFFF020408102040u64 == 0,
            i < 64,
            (b & (b >> 6) & ((b & (b >> 6)) >> 12)) & (1u64 << i) != 0,
            row == (i % 7) as u64,
            column == (i / 7) as u64,
    ;
    assert(board.wins_diag_down_at(row, column));
}

proof fn lemma_diag_down_complete(b: u64, row: u64, column: u64)
    requires
        3 <= row < 6,
        column < 4,
        b & (1u64 << (column * 7 + row)) != 0,
        b & (1u64 << (column * 7 + row + 6)) != 0,
        b & (1u64 << (column * 7 + row + 12)) != 0,
        b & (1u64 << (column * 7 + row + 18)) != 0,
    ensures
        b & (b >> 6) & ((b & (b >> 6)) >> 12) != 0,
{
    assert(b & (b >> 6) & ((b & (b >> 6)) >> 12) != 0) by (bit_vector)
        requires
            3 <= row < 6,
            column < 4,
            b & (1u64 << (column * 7 + row)) != 0,
            b & (1u64 << (column * 7 + row + 6)) != 0,
            b & (1u64 << (column * 7 + row + 12)) != 0,
            b & (1u64 << (column * 7 + row + 18)) != 0,
    ;
}

/// An all-zero bitboard occupies no cell.
pub proof fn lemma_zero_board_empty()
    ensures
        forall|row: u64, column: u64| !(Bitboard { bits: 0u64 }).occupied(row, column),
{
    assert forall|row: u64, column: u64| !(Bitboard { bits: 0u64 }).occupied(row, column) by {
        assert(0u64 & (1u64 << (column * 7 + row)) == 0) by (bit_vector);
    }
}

} // verus!
