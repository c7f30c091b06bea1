//! The 3x3 board: cells, play order, and the win/draw/turn derivations.

use vstd::prelude::*;

verus! {

/// The two play symbols. The symbol `X` always opens a round.
#[derive(Clone, Copy, Debug, PartialEq, Eq, Structural)]
pub enum XoSymbol {
    /// The first mover's symbol.
    X,
    /// The second mover's symbol.
    O,
}

impl XoSymbol {
    /// The symbol held by the opponent.
    pub open spec fn spec_other(self) -> XoSymbol {
        match self {
            XoSymbol::X => XoSymbol::O,
            XoSymbol::O => XoSymbol::X,
        }
    }

}

/// The mathematical value of a board: what each of the 9 cells holds, and the
/// indices that were played, in order.
#[verifier::ext_equal]
pub struct BoardView {
    pub cells: Seq<Option<XoSymbol>>,
    pub played: Seq<u8>,
}

impl BoardView {
    /// A cell index is occupied.
    pub open spec fn occupied(self, i: int) -> bool {
        self.cells[i] is Some
    }

    /// How many of the first `n` cells are occupied.
    pub open spec fn occupied_upto(self, n: int) -> int
        decreases n,
    {
        if n <= 0 {
            0
        } else {
            self.occupied_upto(n - 1) + if self.occupied(n - 1) {
                1int
            } else {
                0int
            }
        }
    }

    /// How many cells are occupied.
    pub open spec fn occupied_count(self) -> int {
        self.occupied_upto(9)
    }

    /// Well-formedness: nine cells; every played index is in range, distinct,
    /// and occupied; and the number of plays equals the number of occupied
    /// cells (so the played list enumerates the occupied cells exactly).
    pub open spec fn wf(self) -> bool {
        &&& self.cells.len() == 9
        &&& forall|k: int|
            0 <= k < self.played.len() ==> (#[trigger] self.played[k]) < 9
        &&& forall|k1: int, k2: int|
            0 <= k1 < k2 < self.played.len() ==> self.played[k1] != self.played[k2]
        &&& forall|k: int|
            0 <= k < self.played.len() ==> self.occupied(#[trigger] self.played[k] as int)
        &&& forall|i: int| 0 <= i < 9 && self.occupied(i) ==> self.played.contains(i as u8)
        &&& self.occupied_count() == self.played.len()
    }

    /// The three cells `a`, `b`, `c` all hold `symbol`.
    pub open spec fn line_of(self, symbol: XoSymbol, a: int, b: int, c: int) -> bool {
        &&& self.cells[a] == Some(symbol)
        &&& self.cells[b] == Some(symbol)
        &&& self.cells[c] == Some(symbol)
    }

    /// One of the eight winning triples (three rows, three columns, two
    /// diagonals) is filled with `symbol`.
    pub open spec fn wins(self, symbol: XoSymbol) -> bool {
        ||| self.line_of(symbol, 0, 1, 2)
        ||| self.line_of(symbol, 3, 4, 5)
        ||| self.line_of(symbol, 6, 7, 8)
        ||| self.line_of(symbol, 0, 3, 6)
        ||| self.line_of(symbol, 1, 4, 7)
        ||| self.line_of(symbol, 2, 5, 8)
        ||| self.line_of(symbol, 0, 4, 8)
        ||| self.line_of(symbol, 2, 4, 6)
    }

    /// Every cell is occupied.
    pub open spec fn full(self) -> bool {
        forall|i: int| 0 <= i < 9 ==> self.occupied(i)
    }

    /// The board is full and nobody has won.
    pub open spec fn draw(self) -> bool {
        self.full() && !self.wins(XoSymbol::X) && !self.wins(XoSymbol::O)
    }

    /// The round on this board is over: a draw, or a win for either symbol.
    pub open spec fn ended(self) -> bool {
        self.draw() || self.wins(XoSymbol::X) || self.wins(XoSymbol::O)
    }

    /// Whose turn it is: `X` moves exactly when the count of occupied cells
    /// is even.
    pub open spec fn turn_of(self) -> XoSymbol {
        if self.occupied_count() % 2 == 0 {
            XoSymbol::X
        } else {
            XoSymbol::O
        }
    }
}

/// The XO game board: nine cells and the sequence of played cell indices.
///
/// The play order is kept alongside the cells so that whose turn it is can be
/// derived from the parity of the number of plays instead of a stored flag.
#[derive(Debug)]
pub struct Board {
    /// The board cells, row by row; exactly nine.
    pub cells: Vec<Option<XoSymbol>>,
    /// The played cell indices, in play order.
    pub played_cells: Vec<u8>,
}

impl View for Board {
    type V = BoardView;

    open spec fn view(&self) -> BoardView {
        BoardView { cells: self.cells@, played: self.played_cells@ }
    }
}

impl Default for Board {
    /// An empty board, as a fresh round starts with.
    fn default() -> (r: Board)
        ensures
            r@.wf(),
            r@.played.len() == 0,
            r@.occupied_count() == 0,
    {
        Board::new()
    }
}

proof fn lemma_occupied_upto_update(v: BoardView, w: BoardView, i: int, n: int)
    requires
        0 <= i < v.cells.len(),
        w.cells == v.cells.update(i, Some(XoSymbol::X)) || w.cells == v.cells.update(
            i,
            Some(XoSymbol::O),
        ),
        !v.occupied(i),
        0 <= n <= v.cells.len(),
    ensures
        w.occupied_upto(n) == v.occupied_upto(n) + if i < n {
            1int
        } else {
            0int
        },
    decreases n,
{
    if n > 0 {
        lemma_occupied_upto_update(v, w, i, n - 1);
    }
}

impl Board {
    /// Returns an empty board: nine empty cells and no plays.
    pub fn new() -> (r: Board)
        ensures
            r@.wf(),
            r@.cells =~= Seq::new(9, |i: int| None::<XoSymbol>),
            r@.played.len() == 0,
            r@.occupied_count() == 0,
    {
        let mut cells: Vec<Option<XoSymbol>> = Vec::new();
        let mut i: usize = 0;
        while i < 9
            invariant
                i <= 9,
                cells@.len() == i,
                forall|k: int| 0 <= k < i ==> cells@[k] is None,
            decreases 9 - i,
        {
            cells.push(None);
            i += 1;
        }
        let r = Board { cells, played_cells: Vec::new() };
        proof {
            assert(r@.cells =~= Seq::new(9, |i: int| None::<XoSymbol>));
            lemma_occupied_upto_none(r@, 9);
        }
        r
    }

    /// Marks the cell at `index` with `symbol` and appends `index` to the
    /// play order. Overwriting an occupied cell is a caller contract
    /// violation, so the cell is required to be empty.
    pub fn set_cell(&mut self, index: u8, symbol: XoSymbol)
        requires
            old(self)@.wf(),
            index <= 8,
            !old(self)@.occupied(index as int),
        ensures
            final(self)@.wf(),
            final(self)@.cells == old(self)@.cells.update(index as int, Some(symbol)),
            final(self)@.played == old(self)@.played.push(index),
            final(self)@.occupied_count() == old(self)@.occupied_count() + 1,
    {
        let ghost pre = self@;
        self.cells.set(index as usize, Some(symbol));
        self.played_cells.push(index);
        proof {
            lemma_occupied_upto_update(pre, self@, index as int, 9);
            assert forall|k: int|
                0 <= k < self@.played.len() implies self@.occupied(
                #[trigger] self@.played[k] as int,
            ) by {
                if k < pre.played.len() {
                    assert(pre.occupied(pre.played[k] as int));
                }
            }
            assert forall|i: int|
                0 <= i < 9 && self@.occupied(i) implies self@.played.contains(i as u8) by {
                if i == index as int {
                    assert(self@.played[self@.played.len() - 1] == index);
                } else {
                    assert(pre.occupied(i));
                    let k = choose|k: int| 0 <= k < pre.played.len() && pre.played[k] == i as u8;
                    assert(self@.played[k] == i as u8);
                }
            }
        }
    }

    /// The cell at `index` is empty.
    pub fn is_empty_cell(&self, index: u8) -> (r: bool)
        requires
            self@.cells.len() == 9,
            index <= 8,
        ensures
            r == !self@.occupied(index as int),
    {
        self.cells[index as usize].is_none()
    }

    /// Returns the unoccupied cell indices, in ascending order.
    pub fn empty_cells(&self) -> (r: Vec<u8>)
        requires
            self@.cells.len() == 9,
        ensures
            forall|k: int| 0 <= k < r@.len() ==> (#[trigger] r@[k]) < 9,
            forall|k: int| 0 <= k < r@.len() ==> !self@.occupied(#[trigger] r@[k] as int),
            forall|i: int| 0 <= i < 9 && !self@.occupied(i) ==> r@.contains(i as u8),
            forall|k1: int, k2: int| 0 <= k1 < k2 < r@.len() ==> r@[k1] < r@[k2],
    {
        let mut r: Vec<u8> = Vec::new();
        let mut i: u8 = 0;
        while i < 9
            invariant
                i <= 9,
                self@.cells.len() == 9,
                forall|k: int| 0 <= k < r@.len() ==> (#[trigger] r@[k]) < i,
                forall|k: int| 0 <= k < r@.len() ==> !self@.occupied(#[trigger] r@[k] as int),
                forall|j: int| 0 <= j < i && !self@.occupied(j) ==> r@.contains(j as u8),
                forall|k1: int, k2: int| 0 <= k1 < k2 < r@.len() ==> r@[k1] < r@[k2],
            decreases 9 - i,
        {
            if self.cells[i as usize].is_none() {
                let ghost before = r@;
                r.push(i);
                proof {
                    assert forall|j: int|
                        0 <= j < i + 1 && !self@.occupied(j) implies r@.contains(j as u8) by {
                        if j == i as int {
                            assert(r@[r@.len() - 1] == i);
                        } else {
                            let k = choose|k: int| 0 <= k < before.len() && before[k] == j as u8;
                            assert(r@[k] == j as u8);
                        }
                    }
                }
            }
            i += 1;
        }
        r
    }

    /// Every cell is occupied.
    pub fn is_full(&self) -> (r: bool)
        requires
            self@.cells.len() == 9,
        ensures
            r == self@.full(),
    {
        let mut i: usize = 0;
        while i < 9
            invariant
                i <= 9,
                self@.cells.len() == 9,
                forall|k: int| 0 <= k < i ==> self@.occupied(k),
            decreases 9 - i,
        {
            if self.cells[i].is_none() {
                assert(!self@.occupied(i as int));
                assert(!self@.full());
                return false;
            }
            i += 1;
        }
        true
    }

    /// The three cells `a`, `b`, `c` all hold `symbol`.
    fn line(&self, symbol: XoSymbol, a: usize, b: usize, c: usize) -> (r: bool)
        requires
            self@.cells.len() == 9,
            a < 9,
            b < 9,
            c < 9,
        ensures
            r == self@.line_of(symbol, a as int, b as int, c as int),
    {
        let holds_a = match self.cells[a] {
            Some(s) => s == symbol,
            None => false,
        };
        let holds_b = match self.cells[b] {
            Some(s) => s == symbol,
            None => false,
        };
        let holds_c = match self.cells[c] {
            Some(s) => s == symbol,
            None => false,
        };
        holds_a && holds_b && holds_c
    }

    /// One of the eight winning triples is filled with `symbol`.
    pub fn is_win(&self, symbol: XoSymbol) -> (r: bool)
        requires
            self@.cells.len() == 9,
        ensures
            r == self@.wins(symbol),
    {
        self.line(symbol, 0, 1, 2) || self.line(symbol, 3, 4, 5) || self.line(symbol, 6, 7, 8)
            || self.line(symbol, 0, 3, 6) || self.line(symbol, 1, 4, 7) || self.line(
            symbol,
            2,
            5,
            8,
        ) || self.line(symbol, 0, 4, 8) || self.line(symbol, 2, 4, 6)
    }

    /// The board is full and neither symbol has won.
    pub fn is_draw(&self) -> (r: bool)
        requires
            self@.cells.len() == 9,
        ensures
            r == self@.draw(),
    {
        self.is_full() && !self.is_win(XoSymbol::X) && !self.is_win(XoSymbol::O)
    }

    /// The round on this board is over: a draw, or a win for either symbol.
    pub fn is_end(&self) -> (r: bool)
        requires
            self@.cells.len() == 9,
        ensures
            r == self@.ended(),
    {
        self.is_draw() || self.is_win(XoSymbol::X) || self.is_win(XoSymbol::O)
    }

    /// Whose turn it is. `X` opens, so `X` moves exactly when the count of
    /// occupied cells is even; the count of plays equals that count, so the
    /// parity of the play order decides.
    pub fn turn(&self) -> (r: XoSymbol)
        requires
            self@.wf(),
        ensures
            r == self@.turn_of(),
            r == XoSymbol::X <==> self@.occupied_count() % 2 == 0,
    {
        if self.played_cells.len() % 2 == 0 {
            XoSymbol::X
        } else {
            XoSymbol::O
        }
    }
}

/// The eight winning triples, by index: three rows, three columns, two
/// diagonals.
pub open spec fn winning_triple(t: int) -> (int, int, int) {
    if t == 0 {
        (0int, 1int, 2int)
    } else if t == 1 {
        (3int, 4int, 5int)
    } else if t == 2 {
        (6int, 7int, 8int)
    } else if t == 3 {
        (0int, 3int, 6int)
    } else if t == 4 {
        (1int, 4int, 7int)
    } else if t == 5 {
        (2int, 5int, 8int)
    } else if t == 6 {
        (0int, 4int, 8int)
    } else {
        (2int, 4int, 6int)
    }
}

/// Cell `i` belongs to winning triple `t`.
pub open spec fn triple_contains(t: int, i: int) -> bool {
    i == winning_triple(t).0 || i == winning_triple(t).1 || i == winning_triple(t).2
}

/// Win detection is exhaustive over the eight triples: a board that holds
/// `symbol` in the three cells of any one winning triple and nothing
/// anywhere else is a win for `symbol`, and not a win for the opponent.
pub proof fn lemma_win_triples(v: BoardView, t: int, symbol: XoSymbol)
    requires
        0 <= t < 8,
        v.cells.len() == 9,
        forall|i: int|
            0 <= i < 9 ==> #[trigger] v.cells[i] == (if triple_contains(t, i) {
                Some(symbol)
            } else {
                None::<XoSymbol>
            }),
    ensures
        v.wins(symbol),
        !v.wins(symbol.spec_other()),
{
    let (a, b, c) = winning_triple(t);
    assert(v.cells[a] == Some(symbol));
    assert(v.cells[b] == Some(symbol));
    assert(v.cells[c] == Some(symbol));
    assert(v.line_of(symbol, a, b, c));
}

/// The byte a symbol serializes to: `X` or `O`.
pub open spec fn symbol_byte(s: XoSymbol) -> u8 {
    match s {
        XoSymbol::X => 88,
        XoSymbol::O => 79,
    }
}

/// The byte a cell serializes to: its symbol, or `-` when empty.
pub open spec fn cell_byte(c: Option<XoSymbol>) -> u8 {
    match c {
        Some(s) => symbol_byte(s),
        None => 45,
    }
}

/// The symbol a byte stands for, if any.
pub open spec fn byte_symbol(b: u8) -> Option<XoSymbol> {
    if b == 88 {
        Some(XoSymbol::X)
    } else if b == 79 {
        Some(XoSymbol::O)
    } else {
        None
    }
}

/// The play-order indices rendered as ASCII digits.
pub open spec fn digit_bytes(played: Seq<u8>) -> Seq<u8> {
    played.map_values(|p: u8| ((p + 48) as u8))
}

/// The serialized form of a board: one byte per cell, a colon, then the play
/// order as a run of digits.
pub open spec fn board_encoding(v: BoardView) -> Seq<u8> {
    Seq::new(9, |i: int| cell_byte(v.cells[i])).push(58).add(digit_bytes(v.played))
}

/// The cell index `i` occurs in the digit part of the encoding `s`.
pub open spec fn encoded_play(s: Seq<u8>, i: int) -> bool {
    exists|j: int| 10 <= j < s.len() && #[trigger] s[j] == i + 48
}

/// The byte strings that decode to a board: nine cell bytes that are not a
/// colon, a colon, then at most nine distinct digits `0` to `8`, each naming
/// a cell whose byte is a symbol.
#[verifier::opaque]
pub open spec fn valid_board_encoding(s: Seq<u8>) -> bool {
    &&& 10 <= s.len() <= 19
    &&& s[9] == 58
    &&& forall|i: int| 0 <= i < 9 ==> #[trigger] s[i] != 58
    &&& forall|j: int| 10 <= j < s.len() ==> 48 <= #[trigger] s[j] <= 56
    &&& forall|j1: int, j2: int| 10 <= j1 < j2 < s.len() ==> s[j1] != s[j2]
    &&& forall|j: int|
        10 <= j < s.len() ==> byte_symbol(s[(#[trigger] s[j] - 48) as int]) is Some
}

/// The play order a valid encoding decodes to.
pub open spec fn decoded_played(s: Seq<u8>) -> Seq<u8> {
    s.subrange(10, s.len() as int).map_values(|b: u8| ((b - 48) as u8))
}

/// The cells a valid encoding decodes to: the byte named by each played
/// index, every other cell empty. Cell bytes at unplayed positions are
/// ignored, as the play order alone determines the reconstruction.
pub open spec fn decoded_cells(s: Seq<u8>) -> Seq<Option<XoSymbol>> {
    Seq::new(
        9,
        |i: int|
            if encoded_play(s, i) {
                byte_symbol(s[i])
            } else {
                None
            },
    )
}

/// What `Board::parse` returns on each input: the decoded board for a valid
/// encoding, nothing otherwise.
#[verifier::opaque]
pub open spec fn board_decoding(s: Seq<u8>) -> Option<BoardView> {
    if valid_board_encoding(s) {
        Some(BoardView { cells: decoded_cells(s), played: decoded_played(s) })
    } else {
        None
    }
}

proof fn lemma_occupied_upto_le(v: BoardView, n: int)
    requires
        0 <= n <= v.cells.len(),
    ensures
        0 <= v.occupied_upto(n) <= n,
    decreases n,
{
    if n > 0 {
        lemma_occupied_upto_le(v, n - 1);
    }
}

/// Serializing and then parsing a well-formed board yields the board back.
pub proof fn lemma_board_round_trip(v: BoardView)
    requires
        v.wf(),
    ensures
        board_decoding(board_encoding(v)) == Some(v),
{
    reveal(valid_board_encoding);
    reveal(board_decoding);
    let s = board_encoding(v);
    lemma_occupied_upto_le(v, 9);
    assert(s.len() == 10 + v.played.len());
    assert(forall|i: int| 0 <= i < 9 ==> s[i] == cell_byte(v.cells[i]));
    assert(s[9] == 58);
    assert(forall|k: int|
        0 <= k < v.played.len() ==> s[10 + k] == (#[trigger] v.played[k]) + 48);
    assert(valid_board_encoding(s)) by {
        assert forall|j1: int, j2: int| 10 <= j1 < j2 < s.len() implies s[j1] != s[j2] by {
            assert(v.played[j1 - 10] != v.played[j2 - 10]);
        }
        assert forall|j: int|
            10 <= j < s.len() implies byte_symbol(s[(#[trigger] s[j] - 48) as int]) is Some by {
            let p = v.played[j - 10];
            assert(v.occupied(p as int));
            assert(s[p as int] == cell_byte(v.cells[p as int]));
        }
    }
    assert(decoded_played(s) =~= v.played);
    assert(decoded_cells(s) =~= v.cells) by {
        assert forall|i: int| 0 <= i < 9 implies decoded_cells(s)[i] == v.cells[i] by {
            if v.occupied(i) {
                assert(v.played.contains(i as u8));
                let k = choose|k: int| 0 <= k < v.played.len() && v.played[k] == i as u8;
                assert(s[10 + k] == i + 48);
                assert(encoded_play(s, i));
                assert(s[i] == cell_byte(v.cells[i]));
            } else {
                if encoded_play(s, i) {
                    let j = choose|j: int| 10 <= j < s.len() && s[j] == i + 48;
                    assert(v.played[j - 10] == i as u8);
                    assert(v.occupied(i));
                }
            }
        }
    }
}

impl Board {
    /// Serializes the board: one byte per cell (`X`, `O`, or `-`), a colon,
    /// then the played cell indices as a run of decimal digits.
    pub fn to_bytes(&self) -> (r: Vec<u8>)
        requires
            self@.wf(),
        ensures
            r@ == board_encoding(self@),
    {
        let mut r: Vec<u8> = Vec::new();
        let mut i: usize = 0;
        while i < 9
            invariant
                i <= 9,
                self@.cells.len() == 9,
                r@.len() == i,
                forall|k: int| 0 <= k < i ==> r@[k] == cell_byte(self@.cells[k]),
            decreases 9 - i,
        {
            let b: u8 = match self.cells[i] {
                Some(XoSymbol::X) => 88,
                Some(XoSymbol::O) => 79,
                None => 45,
            };
            r.push(b);
            i += 1;
        }
        r.push(58);
        let mut k: usize = 0;
        while k < self.played_cells.len()
            invariant
                self@.wf(),
                k <= self@.played.len(),
                r@.len() == 10 + k,
                forall|m: int| 0 <= m < 9 ==> r@[m] == cell_byte(self@.cells[m]),
                r@[9] == 58,
                forall|m: int| 0 <= m < k ==> r@[10 + m] == (#[trigger] self@.played[m]) + 48,
            decreases self@.played.len() - k,
        {
            let p = self.played_cells[k];
            assert(p < 9);
            r.push(p + 48);
            k += 1;
        }
        proof {
            assert(r@ =~= board_encoding(self@));
        }
        r
    }

    /// Parses a serialized board. Returns the reconstructed board exactly
    /// when the bytes are a valid encoding; any malformed input (missing
    /// colon, wrong cell count, a non-digit, an out-of-range or repeated
    /// index, or a played cell without a symbol) is rejected.
    pub fn parse(s: &[u8]) -> (r: Option<Board>)
        ensures
            r is Some <==> valid_board_encoding(s@),
            r matches Some(b) ==> b@.wf() && board_decoding(s@) == Some(b@),
            r is None ==> board_decoding(s@) is None,
    {
        if s.len() < 10 || s.len() > 19 {
            proof {
                reveal(valid_board_encoding);
                reveal(board_decoding);
            }
            return None;
        }
        if s[9] != 58 {
            proof {
                reveal(valid_board_encoding);
                reveal(board_decoding);
            }
            return None;
        }
        let mut i: usize = 0;
        while i < 9
            invariant
                i <= 9,
                s@.len() >= 10,
                forall|k: int| 0 <= k < i ==> #[trigger] s@[k] != 58,
            decreases 9 - i,
        {
            if s[i] == 58 {
                proof {
                    reveal(valid_board_encoding);
                    reveal(board_decoding);
                }
                return None;
            }
            i += 1;
        }
        let mut board = Board::new();
        let mut seen: Vec<bool> = Vec::new();
        let mut t: usize = 0;
        while t < 9
            invariant
                t <= 9,
                seen@.len() == t,
                forall|q: int| 0 <= q < t ==> !(#[trigger] seen@[q]),
            decreases 9 - t,
        {
            seen.push(false);
            t += 1;
        }
        let mut j: usize = 10;
        while j < s.len()
            invariant
                10 <= j <= s@.len() <= 19,
                s@[9] == 58,
                forall|k: int| 0 <= k < 9 ==> #[trigger] s@[k] != 58,
                seen@.len() == 9,
                forall|m: int| 10 <= m < j ==> 48 <= #[trigger] s@[m] <= 56,
                forall|m1: int, m2: int| 10 <= m1 < m2 < j ==> s@[m1] != s@[m2],
                forall|m: int|
                    10 <= m < j ==> byte_symbol(s@[(#[trigger] s@[m] - 48) as int]) is Some,
                forall|q: int|
                    0 <= q < 9 ==> ((#[trigger] seen@[q]) <==> exists|m: int|
                        10 <= m < j && #[trigger] s@[m] == q + 48),
                board@.wf(),
                board@.played == s@.subrange(10, j as int).map_values(|b: u8| ((b - 48) as u8)),
                forall|c: int|
                    0 <= c < 9 ==> board@.cells[c] == (if exists|m: int|
                        10 <= m < j && #[trigger] s@[m] == c + 48 {
                        byte_symbol(s@[c])
                    } else {
                        None::<XoSymbol>
                    }),
            decreases s@.len() - j,
        {
            let b = s[j];
            if b < 48 || b > 56 {
                proof {
                    reveal(valid_board_encoding);
                    reveal(board_decoding);
                }
                return None;
            }
            let p = (b - 48) as usize;
            if seen[p] {
                proof {
                    reveal(valid_board_encoding);
                    reveal(board_decoding);
                    let m = choose|m: int| 10 <= m < j && s@[m] == p + 48;
                    assert(s@[m] == s@[j as int]);
                }
                return None;
            }
            let c = s[p];
            let sym: XoSymbol = if c == 88 {
                XoSymbol::X
            } else if c == 79 {
                XoSymbol::O
            } else {
                proof {
                    reveal(valid_board_encoding);
                    reveal(board_decoding);
                    assert(byte_symbol(s@[(s@[j as int] - 48) as int]) is None);
                }
                return None;
            };
            seen.set(p, true);
            board.set_cell(b - 48, sym);
            j += 1;
            proof {
                assert(board@.played =~= s@.subrange(10, j as int).map_values(
                    |b: u8| ((b - 48) as u8),
                ));
                assert forall|q: int|
                    0 <= q < 9 implies ((#[trigger] seen@[q]) <==> exists|m: int|
                        10 <= m < j && #[trigger] s@[m] == q + 48) by {
                    if q == p as int {
                        assert(s@[j - 1] == q + 48);
                    } else {
                        if exists|m: int| 10 <= m < j && s@[m] == q + 48 {
                            let m = choose|m: int| 10 <= m < j && s@[m] == q + 48;
                            assert(m < j - 1);
                        }
                    }
                }
                assert forall|c2: int|
                    0 <= c2 < 9 implies board@.cells[c2] == (if exists|m: int|
                        10 <= m < j && #[trigger] s@[m] == c2 + 48 {
                        byte_symbol(s@[c2])
                    } else {
                        None::<XoSymbol>
                    }) by {
                    if c2 == p as int {
                        assert(s@[j - 1] == c2 + 48);
                        assert(byte_symbol(s@[c2]) == Some(sym));
                    } else {
                        if exists|m: int| 10 <= m < j && s@[m] == c2 + 48 {
                            let m = choose|m: int| 10 <= m < j && s@[m] == c2 + 48;
                            assert(m < j - 1);
                        }
                    }
                }
            }
        }
        proof {
            reveal(valid_board_encoding);
            reveal(board_decoding);
            assert(valid_board_encoding(s@));
            assert(board@.played =~= decoded_played(s@));
            assert(board@.cells =~= decoded_cells(s@));
        }
        Some(board)
    }
}

proof fn lemma_occupied_upto_none(v: BoardView, n: int)
    requires
        0 <= n <= v.cells.len(),
        forall|i: int| 0 <= i < v.cells.len() ==> v.cells[i] is None,
    ensures
        v.occupied_upto(n) == 0,
    decreases n,
{
    if n > 0 {
        lemma_occupied_upto_none(v, n - 1);
    }
}

} // verus!
