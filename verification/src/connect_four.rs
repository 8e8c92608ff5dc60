//! The Connect Four game: two bitboards (one per player) and a turn
//! counter, with move parsing, legal-move enumeration, move application and
//! status reporting.

use vstd::prelude::*;
use vstd::string::StrSliceExecFns;

use crate::bitboard::Bitboard;
use crate::game::{Game, GameState};

verus! {

/// The message returned when move text does not name a column.
pub const PARSE_ERROR: &'static str = "Only digits from 0 to 6 count as valid moves.";

/// An integer ranging from 0 to 6: the column a stone is dropped into.
#[derive(Clone, Copy, PartialEq, Eq, Structural, Debug)]
pub struct Column(pub u8);

impl Column {
    /// A valid column index.
    pub open spec fn wf(self) -> bool {
        self.0 < 7
    }

    /// What parsing move text yields: a column for exactly the single
    /// digits '0' through '6', and nothing for any other text.
    pub open spec fn parse_spec(s: Seq<char>) -> Option<Column> {
        if s.len() == 1 && 48 <= s[0] as u32 && s[0] as u32 <= 54 {
            Some(Column((s[0] as u32 - 48) as u8))
        } else {
            None
        }
    }

    /// The single-digit text encoding of a column.
    pub open spec fn encode_spec(c: Column) -> Seq<char> {
        seq![((c.0 + 48) as u8) as char]
    }

    /// Parse move text: accepts exactly one digit between '0' and '6'.
    pub fn from_text(source: &str) -> (r: Result<Column, &'static str>)
        ensures
            match r {
                Ok(c) => Column::parse_spec(source@) == Some(c),
                Err(_) => Column::parse_spec(source@) is None,
            },
    {
        if source.unicode_len() != 1 {
            return Err(PARSE_ERROR);
        }
        let c = source.get_char(0);
        let v = c as u32;
        if 48 <= v && v <= 54 {
            Ok(Column((v - 48) as u8))
        } else {
            Err(PARSE_ERROR)
        }
    }

    /// The text this column parses back from: its single decimal digit.
    pub fn to_text(&self) -> (r: &'static str)
        requires
            self.wf(),
        ensures
            r@ == Column::encode_spec(*self),
    {
        proof {
            reveal_strlit("0");
            reveal_strlit("1");
            reveal_strlit("2");
            reveal_strlit("3");
            reveal_strlit("4");
            reveal_strlit("5");
            reveal_strlit("6");
        }
        match self.0 {
            0 => "0",
            1 => "1",
            2 => "2",
            3 => "3",
            4 => "4",
            5 => "5",
            _ => "6",
        }
    }
}

impl core::str::FromStr for Column {
    type Err = &'static str;

    fn from_str(source: &str) -> Result<Column, Self::Err> {
        Column::from_text(source)
    }
}

/// Encoding a column and parsing the text back yields the same column.
pub proof fn lemma_column_round_trip(c: Column)
    requires
        c.wf(),
    ensures
        Column::parse_spec(Column::encode_spec(c)) == Some(c),
{
}

/// Applying a legal move advances the turn counter by exactly one and hands
/// the turn to the other player; over any sequence of applied moves the
/// counter therefore equals the number of moves played, and the active
/// player strictly alternates between 0 and 1.
pub proof fn lemma_turn_alternation(pre: ConnectFour, m: Column, post: ConnectFour)
    requires
        pre.wf(),
        post == pre.spec_play(m),
    ensures
        post.turns == pre.turns + 1,
        pre.active_player() == 0 || pre.active_player() == 1,
        post.active_player() == (if pre.active_player() == 0 {
            1usize
        } else {
            0usize
        }),
{
    crate::bitboard::lemma_count_bits_le(pre.first.spec_bits(), 64);
    crate::bitboard::lemma_count_bits_le(pre.second.spec_bits(), 64);
}

/// The row `lowest_empty_from` names in an open column is genuinely empty
/// and lies on the board.
proof fn lemma_lowest_empty_is_empty(g: ConnectFour, column: u64, row: u64)
    requires
        g.col_open(column),
        row <= 5,
    ensures
        g.lowest_empty_from(column, row) < 6,
        g.cell_empty(g.lowest_empty_from(column, row), column),
    decreases 6 - row,
{
    if row < 5 && !g.cell_empty(row, column) {
        lemma_lowest_empty_is_empty(g, column, (row + 1) as u64);
    }
}

/// Playing a legal move yields a well-formed board again, with the turn
/// counter advanced by one.
pub proof fn lemma_play_preserves_wf(g: ConnectFour, m: Column)
    requires
        g.wf(),
        g.is_legal(m),
    ensures
        g.spec_play(m).wf(),
        g.spec_play(m).turns == g.turns + 1,
{
    lemma_lowest_empty_is_empty(g, m.0 as u64, 0);
    let cc = m.0 as u64;
    let rr = g.lowest_empty(cc);
    let b0 = g.first.spec_bits();
    let b1 = g.second.spec_bits();
    crate::bitboard::lemma_count_bits_le(b0, 64);
    crate::bitboard::lemma_count_bits_le(b1, 64);
    let idx = (cc * 7 + rr) as u64;
    if g.turns % 2 == 0 {
        assert((b0 | (1u64 << (cc * 7 + rr))) & crate::bitboard::GUARD_MASK == 0 && (b0 | (1u64 << (
        cc * 7 + rr))) & b1 == 0) by (bit_vector)
            requires
                b0 & crate::bitboard::GUARD_MASK == 0,
                b0 & b1 == 0,
                b1 & (1u64 << (cc * 7 + rr)) == 0,
                rr < 6,
                cc < 7,
        ;
        crate::bitboard::lemma_count_bits_set(b0, idx, 64);
    } else {
        assert((b1 | (1u64 << (cc * 7 + rr))) & crate::bitboard::GUARD_MASK == 0 && b0 & (b1 | (
        1u64 << (cc * 7 + rr))) == 0) by (bit_vector)
            requires
                b1 & crate::bitboard::GUARD_MASK == 0,
                b0 & b1 == 0,
                b0 & (1u64 << (cc * 7 + rr)) == 0,
                rr < 6,
                cc < 7,
        ;
        crate::bitboard::lemma_count_bits_set(b1, idx, 64);
    }
}

/// The board after a sequence of moves has been applied in order.
pub open spec fn apply_moves(g: ConnectFour, moves: Seq<Column>) -> ConnectFour
    decreases moves.len(),
{
    if moves.len() == 0 {
        g
    } else {
        apply_moves(g.spec_play(moves[0]), moves.subrange(1, moves.len() as int))
    }
}

/// Every move of the sequence is legal in the position it is played from.
pub open spec fn all_moves_legal(g: ConnectFour, moves: Seq<Column>) -> bool
    decreases moves.len(),
{
    moves.len() == 0 || (g.is_legal(moves[0]) && all_moves_legal(
        g.spec_play(moves[0]),
        moves.subrange(1, moves.len() as int),
    ))
}

/// For every sequence of legal moves: the board stays well formed and the
/// turn counter after N applied moves has grown by exactly N — so the
/// active player, the counter modulo 2, strictly alternates between 0
/// and 1.
pub proof fn lemma_turns_count_moves(g: ConnectFour, moves: Seq<Column>)
    requires
        g.wf(),
        all_moves_legal(g, moves),
    ensures
        apply_moves(g, moves).wf(),
        apply_moves(g, moves).turns == g.turns + moves.len(),
    decreases moves.len(),
{
    if moves.len() > 0 {
        lemma_play_preserves_wf(g, moves[0]);
        lemma_turns_count_moves(g.spec_play(moves[0]), moves.subrange(1, moves.len() as int));
    }
}

/// A cell the board reports empty is unset in both players' bitboards, and
/// no cell is ever set in both.
pub proof fn lemma_cell_consistency(g: ConnectFour, row: u64, column: u64)
    requires
        g.wf(),
    ensures
        g.spec_field(row, column) == Field::Empty ==> g.cell_empty(row, column),
        !(g.first.occupied(row, column) && g.second.occupied(row, column)),
{
    let b0 = g.first.spec_bits();
    let b1 = g.second.spec_bits();
    assert(!(b0 & (1u64 << (column * 7 + row)) != 0 && b1 & (1u64 << (column * 7 + row)) != 0))
        by (bit_vector)
        requires
            b0 & b1 == 0,
    ;
}

/// State of one cell of the board.
#[derive(Clone, Copy, PartialEq, Eq, Structural, Debug)]
pub enum Field {
    /// The cell is not captured by either player.
    Empty,
    /// The cell holds a stone of the first player.
    PlayerOne,
    /// The cell holds a stone of the second player.
    PlayerTwo,
}

/// A Connect Four board: one bitboard per player and the number of turns
/// played so far.
#[derive(Clone, Copy, PartialEq, Eq, Structural, Debug)]
pub struct ConnectFour {
    /// The first player's stones.
    pub first: Bitboard,
    /// The second player's stones.
    pub second: Bitboard,
    /// Number of turns played.
    pub turns: usize,
}

impl ConnectFour {
    /// Neither player holds the cell at `(row, column)`.
    pub open spec fn cell_empty(self, row: u64, column: u64) -> bool {
        !self.first.occupied(row, column) && !self.second.occupied(row, column)
    }

    /// Who, if anyone, holds the cell at `(row, column)`.
    pub open spec fn spec_field(self, row: u64, column: u64) -> Field {
        if self.first.occupied(row, column) {
            Field::PlayerOne
        } else if self.second.occupied(row, column) {
            Field::PlayerTwo
        } else {
            Field::Empty
        }
    }

    /// The column still has room: its topmost cell is empty.
    pub open spec fn col_open(self, column: u64) -> bool {
        self.cell_empty(5, column)
    }

    /// The index of the player to move.
    pub open spec fn active_player(self) -> usize {
        (self.turns % 2) as usize
    }

    /// The lowest empty row of `column`, scanning upward from `row`.
    pub open spec fn lowest_empty_from(self, column: u64, row: u64) -> u64
        decreases 6 - row,
    {
        if row >= 5 {
            5
        } else if self.cell_empty(row, column) {
            row
        } else {
            self.lowest_empty_from(column, (row + 1) as u64)
        }
    }

    /// The lowest empty row of `column`: where a dropped stone lands.
    pub open spec fn lowest_empty(self, column: u64) -> u64 {
        self.lowest_empty_from(column, 0)
    }

    /// The board that playing `m` produces: the active player's bitboard
    /// gains the stone at the lowest empty row of the column, and the turn
    /// counter advances.
    pub open spec fn spec_play(self, m: Column) -> ConnectFour {
        let row = self.lowest_empty(m.0 as u64);
        let bit = 1u64 << ((m.0 as u64) * 7 + row);
        if self.turns % 2 == 0 {
            ConnectFour {
                first: Bitboard { bits: self.first.spec_bits() | bit },
                second: self.second,
                turns: (self.turns + 1) as usize,
            }
        } else {
            ConnectFour {
                first: self.first,
                second: Bitboard { bits: self.second.spec_bits() | bit },
                turns: (self.turns + 1) as usize,
            }
        }
    }

    /// The status the board reports: wins are checked for the first player,
    /// then the second; a full board with no win is a draw; otherwise the
    /// game continues with the player whose turn it is.
    pub open spec fn spec_state(self) -> GameState {
        if self.first.has_win() {
            GameState::VictoryPlayerOne
        } else if self.second.has_win() {
            GameState::VictoryPlayerTwo
        } else if self.turns == 42 {
            GameState::Draw
        } else {
            GameState::PlayerTurn((self.turns % 2) as usize)
        }
    }

    /// The open columns with index below `n`, in ascending order.
    pub open spec fn open_cols_up_to(self, n: int) -> Seq<Column>
        decreases n,
    {
        if n <= 0 {
            Seq::empty()
        } else {
            self.open_cols_up_to(n - 1) + (if self.col_open((n - 1) as u64) {
                seq![Column((n - 1) as u8)]
            } else {
                Seq::empty()
            })
        }
    }

    /// All open columns, in ascending order: the legal moves.
    pub open spec fn open_cols(self) -> Seq<Column> {
        self.open_cols_up_to(7)
    }

    /// The marker byte a cell is printed as: `X` for the first player, `O`
    /// for the second, a blank for an empty cell.
    pub open spec fn field_byte(f: Field) -> u8 {
        match f {
            Field::PlayerOne => 88u8,
            Field::PlayerTwo => 79u8,
            Field::Empty => 32u8,
        }
    }

    /// The first `n` cells of `row` as text: each cell a `|` bar and its
    /// marker.
    pub open spec fn render_row_cells(self, row: u64, n: int) -> Seq<u8>
        decreases n,
    {
        if n <= 0 {
            Seq::empty()
        } else {
            self.render_row_cells(row, n - 1) + seq![
                124u8,
                ConnectFour::field_byte(self.spec_field(row, (n - 1) as u64)),
            ]
        }
    }

    /// One full printed row: seven cells, the closing bar, a newline.
    pub open spec fn render_full_row(self, row: u64) -> Seq<u8> {
        self.render_row_cells(row, 7) + seq![124u8, 10u8]
    }

    /// The topmost `k` rows of the grid as text, row 5 printed first.
    pub open spec fn render_rows(self, k: int) -> Seq<u8>
        decreases k,
    {
        if k <= 0 {
            Seq::empty()
        } else {
            self.render_rows(k - 1) + self.render_full_row((6 - k) as u64)
        }
    }

    /// The footer: a horizontal rule and the column indices.
    pub open spec fn render_footer() -> Seq<u8> {
        seq![
            45u8, 45u8, 45u8, 45u8, 45u8, 45u8, 45u8, 45u8, 45u8, 45u8, 45u8, 45u8, 45u8, 45u8,
            45u8, 10u8, 32u8, 48u8, 32u8, 49u8, 32u8, 50u8, 32u8, 51u8, 32u8, 52u8, 32u8, 53u8,
            32u8, 54u8, 10u8,
        ]
    }

    /// The full text representation of the board: six rows from the top
    /// down, then the footer.
    pub open spec fn render(self) -> Seq<u8> {
        self.render_rows(6) + ConnectFour::render_footer()
    }

    /// Append the text representation of the board to `out`.
    pub fn print_to(&self, out: &mut Vec<u8>)
        ensures
            final(out)@ == old(out)@ + self.render(),
    {
        let mut k: u8 = 0;
        while k < 6
            invariant
                k <= 6,
                out@ == old(out)@ + self.render_rows(k as int),
            decreases 6 - k,
        {
            let row: u8 = 5 - k;
            let mut c: u8 = 0;
            while c < 7
                invariant
                    c <= 7,
                    k < 6,
                    row == 5 - k,
                    out@ == old(out)@ + self.render_rows(k as int) + self.render_row_cells(
                        row as u64,
                        c as int,
                    ),
                decreases 7 - c,
            {
                out.push(124);
                let b: u8 = match self.field(row, c) {
                    Field::PlayerOne => 88,
                    Field::PlayerTwo => 79,
                    Field::Empty => 32,
                };
                out.push(b);
                proof {
                    assert(out@ =~= old(out)@ + self.render_rows(k as int)
                        + self.render_row_cells(row as u64, c as int + 1));
                }
                c = c + 1;
            }
            out.push(124);
            out.push(10);
            proof {
                assert(out@ =~= old(out)@ + self.render_rows(k as int + 1));
            }
            k = k + 1;
        }
        let mut d: u8 = 0;
        while d < 15
            invariant
                d <= 15,
                out@ == old(out)@ + self.render_rows(6) + ConnectFour::render_footer().subrange(
                    0,
                    d as int,
                ),
            decreases 15 - d,
        {
            out.push(45);
            proof {
                assert(out@ =~= old(out)@ + self.render_rows(6)
                    + ConnectFour::render_footer().subrange(0, d as int + 1));
            }
            d = d + 1;
        }
        out.push(10);
        out.push(32);
        out.push(48);
        out.push(32);
        out.push(49);
        out.push(32);
        out.push(50);
        out.push(32);
        out.push(51);
        out.push(32);
        out.push(52);
        out.push(32);
        out.push(53);
        out.push(32);
        out.push(54);
        out.push(10);
        proof {
            assert(out@ =~= old(out)@ + self.render());
        }
    }

    /// Create an empty board: no stones anywhere, zero turns played.
    pub fn new() -> (r: ConnectFour)
        ensures
            r.wf(),
            r.turns == 0,
            r.first.spec_bits() == 0,
            r.second.spec_bits() == 0,
            forall|row: u64, column: u64| !r.first.occupied(row, column) && !r.second.occupied(
                row,
                column,
            ),
    {
        proof {
            crate::bitboard::lemma_zero_board_empty();
            assert(0u64 & 0u64 == 0) by (bit_vector);
        }
        ConnectFour { first: Bitboard::new(), second: Bitboard::new(), turns: 0 }
    }

    /// Who holds the cell at `(row, column)`.
    pub fn field(&self, row: u8, column: u8) -> (f: Field)
        requires
            row < 6,
            column < 7,
        ensures
            f == self.spec_field(row as u64, column as u64),
    {
        if !self.first.is_empty(row, column) {
            Field::PlayerOne
        } else if !self.second.is_empty(row, column) {
            Field::PlayerTwo
        } else {
            Field::Empty
        }
    }

    /// The row a stone dropped into `column` lands on: the lowest empty one,
    /// found by a linear scan from the bottom.
    fn lowest_empty_row(&self, column: u8) -> (row: u8)
        requires
            column < 7,
            self.col_open(column as u64),
        ensures
            row < 6,
            row as u64 == self.lowest_empty(column as u64),
            self.cell_empty(row as u64, column as u64),
    {
        let mut row: u8 = 0;
        while row < 5
            invariant
                row <= 5,
                column < 7,
                self.col_open(column as u64),
                self.lowest_empty(column as u64) == self.lowest_empty_from(
                    column as u64,
                    row as u64,
                ),
            decreases 5 - row,
        {
            if self.field(row, column) == Field::Empty {
                return row;
            }
            row = row + 1;
        }
        row
    }

    /// Every element of `open_cols_up_to(n)` is a legal move.
    proof fn lemma_open_cols_legal(self, n: int)
        requires
            n <= 7,
        ensures
            forall|j: int|
                0 <= j < self.open_cols_up_to(n).len() ==> (#[trigger] self.open_cols_up_to(n)[j]).0
                    < 7 && self.col_open(self.open_cols_up_to(n)[j].0 as u64),
        decreases n,
    {
        if n > 0 {
            self.lemma_open_cols_legal(n - 1);
            let prefix = self.open_cols_up_to(n - 1);
            let whole = self.open_cols_up_to(n);
            assert forall|j: int| 0 <= j < whole.len() implies (#[trigger] whole[j]).0 < 7
                && self.col_open(whole[j].0 as u64) by {
                if j < prefix.len() {
                    assert(whole[j] == prefix[j]);
                } else {
                    assert(whole[j] == Column((n - 1) as u8));
                }
            }
        }
    }

    /// An open column below `n` shows up in `open_cols_up_to(n)`.
    proof fn lemma_open_cols_complete(self, n: int, k: u64)
        requires
            k < n,
            self.col_open(k),
        ensures
            self.open_cols_up_to(n).len() > 0,
        decreases n,
    {
        if k + 1 < n {
            self.lemma_open_cols_complete(n - 1, k);
        }
    }
}

impl Game for ConnectFour {
    /// Moves are represented by column indices from 0 to 6.
    type Move = Column;

    /// Both bitboards are well formed, no cell is claimed by both players,
    /// and the turn counter equals the total number of stones placed.
    open spec fn wf(&self) -> bool {
        &&& self.first.wf()
        &&& self.second.wf()
        &&& self.first.spec_bits() & self.second.spec_bits() == 0
        &&& self.turns == self.first.stones() + self.second.stones()
    }

    /// A move is legal when its column exists and still has room.
    open spec fn is_legal(&self, m: Column) -> bool {
        m.0 < 7 && self.col_open(m.0 as u64)
    }

    /// `legal_moves` returns exactly the open columns, ascending.
    open spec fn moves_post(&self, r: Seq<Column>) -> bool {
        r == self.open_cols()
    }

    /// `play_move` drops a stone for the active player and advances the turn.
    open spec fn play_post(&self, m: Column, post: ConnectFour) -> bool {
        post == self.spec_play(m)
    }

    /// `state` reports exactly the derived status.
    open spec fn state_post(&self, s: GameState) -> bool {
        s == self.spec_state()
    }

    /// The open columns, in ascending order.
    fn legal_moves(&self) -> (r: Vec<Column>)
    {
        let mut r: Vec<Column> = Vec::new();
        let mut c: u8 = 0;
        while c < 7
            invariant
                c <= 7,
                r@ == self.open_cols_up_to(c as int),
            decreases 7 - c,
        {
            if self.field(5, c) == Field::Empty {
                r.push(Column(c));
                proof {
                    assert(r@ =~= self.open_cols_up_to(c as int) + seq![Column(c)]);
                }
            }
            proof {
                assert(r@ =~= self.open_cols_up_to(c as int + 1));
            }
            c = c + 1;
        }
        proof {
            self.lemma_open_cols_legal(7);
            if exists|m: Column| self.is_legal(m) {
                let m = choose|m: Column| self.is_legal(m);
                self.lemma_open_cols_complete(7, m.0 as u64);
            }
        }
        r
    }

    /// Derive the game status from the board.
    fn state(&self) -> (s: GameState)
    {
        if self.first.is_win() {
            GameState::VictoryPlayerOne
        } else if self.second.is_win() {
            GameState::VictoryPlayerTwo
        } else if self.turns == 7 * 6 {
            GameState::Draw
        } else {
            GameState::PlayerTurn(self.turns % 2)
        }
    }

    /// Insert a stone for the active player at the lowest empty row of the
    /// chosen column, and advance the turn counter.
    fn play_move(&mut self, mov: &Column)
    {
        let column = mov.0;
        let row = self.lowest_empty_row(column);
        proof {
            crate::bitboard::lemma_count_bits_le(self.first.spec_bits(), 64);
            crate::bitboard::lemma_count_bits_le(self.second.spec_bits(), 64);
        }
        let ghost pre = *self;
        let ghost cc: u64 = column as u64;
        let ghost rr: u64 = row as u64;
        if self.turns % 2 == 0 {
            self.first.place_stone(row, column);
            proof {
                let b0 = pre.first.spec_bits();
                let b1 = pre.second.spec_bits();
                assert(b1 & (1u64 << (cc * 7 + rr)) == 0);
                assert((b0 | (1u64 << (cc * 7 + rr))) & b1 == 0) by (bit_vector)
                    requires
                        b0 & b1 == 0,
                        b1 & (1u64 << (cc * 7 + rr)) == 0,
                ;
            }
        } else {
            self.second.place_stone(row, column);
            proof {
                let b0 = pre.first.spec_bits();
                let b1 = pre.second.spec_bits();
                assert(b0 & (1u64 << (cc * 7 + rr)) == 0);
                assert(b0 & (b1 | (1u64 << (cc * 7 + rr))) == 0) by (bit_vector)
                    requires
                        b0 & b1 == 0,
                        b0 & (1u64 << (cc * 7 + rr)) == 0,
                ;
            }
        }
        self.turns = self.turns + 1;
        proof {
            assert(*self == pre.spec_play(*mov));
        }
    }
}

} // verus!

