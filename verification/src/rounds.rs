//! The per-series round tally: wins per symbol, draws, and the boards of the
//! completed rounds.

use vstd::prelude::*;
use crate::board::{
    Board, BoardView, XoSymbol, board_decoding, board_encoding, cell_byte, lemma_board_round_trip,
};

verus! {

/// The mathematical value of a round tally.
#[verifier::ext_equal]
pub struct RoundsView {
    pub x_player: int,
    pub o_player: int,
    pub draws: int,
    pub boards: Seq<BoardView>,
}

impl RoundsView {
    /// Rounds won so far by `symbol`.
    pub open spec fn spec_wins(self, symbol: XoSymbol) -> int {
        match symbol {
            XoSymbol::X => self.x_player,
            XoSymbol::O => self.o_player,
        }
    }

    /// Well-formedness: the tallies account for the archived boards, one
    /// each; at most three rounds; and only concluded, well-formed boards
    /// are archived.
    pub open spec fn wf(self) -> bool {
        &&& 0 <= self.x_player
        &&& 0 <= self.o_player
        &&& 0 <= self.draws
        &&& self.x_player + self.o_player + self.draws == self.boards.len()
        &&& self.boards.len() <= 3
        &&& forall|k: int|
            0 <= k < self.boards.len() ==> (#[trigger] self.boards[k]).wf()
                && self.boards[k].ended()
    }
}

/// The XO rounds result: the running tally of a best-of-three series.
#[derive(Debug)]
pub struct RoundsResult {
    /// Rounds won by the `X` player.
    pub x_player: usize,
    /// Rounds won by the `O` player.
    pub o_player: usize,
    /// Drawn rounds.
    pub draws: usize,
    /// The boards of the completed rounds, in order.
    pub boards: Vec<Board>,
}

impl View for RoundsResult {
    type V = RoundsView;

    open spec fn view(&self) -> RoundsView {
        RoundsView {
            x_player: self.x_player as int,
            o_player: self.o_player as int,
            draws: self.draws as int,
            boards: self.boards@.map_values(|b: Board| b@),
        }
    }
}

impl RoundsResult {
    /// Returns an empty tally: no wins, no draws, no archived boards.
    pub fn new() -> (r: RoundsResult)
        ensures
            r@.wf(),
            r@.x_player == 0,
            r@.o_player == 0,
            r@.draws == 0,
            r@.boards.len() == 0,
    {
        let r = RoundsResult { x_player: 0, o_player: 0, draws: 0, boards: Vec::new() };
        proof {
            assert(r@.boards =~= Seq::<BoardView>::empty());
        }
        r
    }

    /// Rounds won so far by `symbol`.
    pub fn wins(&self, symbol: XoSymbol) -> (r: usize)
        ensures
            r == self@.spec_wins(symbol),
    {
        match symbol {
            XoSymbol::X => self.x_player,
            XoSymbol::O => self.o_player,
        }
    }

    /// Records one more round win for `symbol`.
    pub fn add_win(&mut self, symbol: XoSymbol)
        requires
            old(self)@.spec_wins(symbol) < usize::MAX,
        ensures
            final(self)@.spec_wins(symbol) == old(self)@.spec_wins(symbol) + 1,
            final(self)@.spec_wins(symbol.spec_other()) == old(self)@.spec_wins(
                symbol.spec_other(),
            ),
            final(self)@.draws == old(self)@.draws,
            final(self)@.boards == old(self)@.boards,
    {
        match symbol {
            XoSymbol::X => self.x_player = self.x_player + 1,
            XoSymbol::O => self.o_player = self.o_player + 1,
        }
    }

    /// Archives the board of a concluded round. A round may only be archived
    /// once it has ended, and a series holds at most three rounds.
    pub fn add_board(&mut self, board: Board)
        requires
            old(self)@.boards.len() < 3,
            board@.wf(),
            board@.ended(),
        ensures
            final(self)@.boards == old(self)@.boards.push(board@),
            final(self)@.x_player == old(self)@.x_player,
            final(self)@.o_player == old(self)@.o_player,
            final(self)@.draws == old(self)@.draws,
    {
        self.boards.push(board);
        proof {
            assert(self@.boards =~= old(self)@.boards.push(self.boards@.last()@));
        }
    }
}

impl Default for RoundsResult {
    /// An empty tally, as a fresh series starts with.
    fn default() -> (r: RoundsResult)
        ensures
            r@.wf(),
            r@.x_player == 0,
            r@.o_player == 0,
            r@.draws == 0,
            r@.boards.len() == 0,
    {
        RoundsResult::new()
    }
}

/// The tally part of the serialized form: one `X` per `X` round win, then
/// one `O` per `O` win, then one `-` per draw.
pub open spec fn tally_bytes(v: RoundsView) -> Seq<u8> {
    Seq::new(v.x_player as nat, |i: int| 88u8) + Seq::new(v.o_player as nat, |i: int| 79u8)
        + Seq::new(v.draws as nat, |i: int| 45u8)
}

/// The serialized board list: the boards' encodings joined by commas.
pub open spec fn boards_bytes(bs: Seq<BoardView>) -> Seq<u8>
    decreases bs.len(),
{
    if bs.len() == 0 {
        Seq::empty()
    } else if bs.len() == 1 {
        board_encoding(bs[0])
    } else {
        board_encoding(bs[0]) + seq![44u8] + boards_bytes(bs.drop_first())
    }
}

/// The serialized form of a tally: the tally characters, a space, then the
/// comma-joined board encodings.
pub open spec fn rounds_encoding(v: RoundsView) -> Seq<u8> {
    tally_bytes(v) + seq![32u8] + boards_bytes(v.boards)
}

/// The index of the first occurrence of `b` in `s` at or after `i`, or
/// `s.len()` when there is none.
pub open spec fn first_at(s: Seq<u8>, b: u8, i: int) -> int
    decreases s.len() - i,
{
    if i < 0 || i >= s.len() {
        s.len() as int
    } else if s[i] == b {
        i
    } else {
        first_at(s, b, i + 1)
    }
}

/// How many bytes of `s` equal `b`.
pub open spec fn count_byte(s: Seq<u8>, b: u8) -> int
    decreases s.len(),
{
    if s.len() == 0 {
        0
    } else {
        count_byte(s.drop_last(), b) + if s.last() == b {
            1int
        } else {
            0int
        }
    }
}

/// What a comma-separated, non-empty board list decodes to, if anything.
#[verifier::opaque]
pub open spec fn boards_decoding(s: Seq<u8>) -> Option<Seq<BoardView>>
    decreases s.len(),
{
    let c = first_at(s, 44, 0);
    if 0 <= c < s.len() {
        match board_decoding(s.subrange(0, c)) {
            Some(b) => if b.ended() {
                match boards_decoding(s.subrange(c + 1, s.len() as int)) {
                    Some(t) => Some(seq![b] + t),
                    None => None,
                }
            } else {
                None
            },
            None => None,
        }
    } else {
        match board_decoding(s) {
            Some(b) => if b.ended() {
                Some(seq![b])
            } else {
                None
            },
            None => None,
        }
    }
}

/// What `RoundsResult::parse` returns on each input: the input splits at its
/// first space into a tally of `X`/`O`/`-` characters and a board list; the
/// tally must account for the listed boards, one each, at most three; and
/// every listed board must decode and be a concluded round.
#[verifier::opaque]
pub open spec fn rounds_decoding(s: Seq<u8>) -> Option<RoundsView> {
    let sp = first_at(s, 32, 0);
    if sp == s.len() {
        None
    } else {
        let left = s.subrange(0, sp);
        let right = s.subrange(sp + 1, s.len() as int);
        if exists|i: int|
            0 <= i < left.len() && #[trigger] left[i] != 88 && left[i] != 79 && left[i] != 45 {
            None
        } else {
            let bs = if right.len() == 0 {
                Some(Seq::<BoardView>::empty())
            } else {
                boards_decoding(right)
            };
            match bs {
                None => None,
                Some(boards) => {
                    if count_byte(left, 88) + count_byte(left, 79) + count_byte(left, 45)
                        == boards.len() && boards.len() <= 3 {
                        Some(
                            RoundsView {
                                x_player: count_byte(left, 88),
                                o_player: count_byte(left, 79),
                                draws: count_byte(left, 45),
                                boards,
                            },
                        )
                    } else {
                        None
                    }
                },
            }
        }
    }
}

proof fn lemma_first_at(s: Seq<u8>, b: u8, i: int, j: int)
    requires
        0 <= i <= j <= s.len(),
        forall|k: int| i <= k < j ==> s[k] != b,
        j == s.len() || s[j] == b,
    ensures
        first_at(s, b, i) == j,
    decreases j - i,
{
    if i < j {
        lemma_first_at(s, b, i + 1, j);
    }
}

proof fn lemma_count_byte_add(s1: Seq<u8>, s2: Seq<u8>, b: u8)
    ensures
        count_byte(s1 + s2, b) == count_byte(s1, b) + count_byte(s2, b),
    decreases s2.len(),
{
    if s2.len() == 0 {
        assert(s1 + s2 =~= s1);
    } else {
        lemma_count_byte_add(s1, s2.drop_last(), b);
        assert((s1 + s2).drop_last() =~= s1 + s2.drop_last());
        assert((s1 + s2).last() == s2.last());
    }
}

proof fn lemma_count_byte_run(n: nat, c: u8, b: u8)
    ensures
        count_byte(Seq::new(n, |i: int| c), b) == if c == b {
            n as int
        } else {
            0int
        },
    decreases n,
{
    if n > 0 {
        lemma_count_byte_run((n - 1) as nat, c, b);
        assert(Seq::new(n, |i: int| c).drop_last() =~= Seq::new((n - 1) as nat, |i: int| c));
    }
}

/// Every byte of a well-formed board's encoding is a symbol, a dash, a
/// colon, or a digit; in particular never a comma or a space.
proof fn lemma_board_encoding_bytes(v: BoardView)
    requires
        v.wf(),
    ensures
        forall|i: int|
            0 <= i < board_encoding(v).len() ==> {
                let b = #[trigger] board_encoding(v)[i];
                b == 45 || b == 58 || b == 79 || b == 88 || (48 <= b <= 56)
            },
{
    let s = board_encoding(v);
    assert forall|i: int|
        0 <= i < s.len() implies {
        let b = #[trigger] s[i];
        b == 45 || b == 58 || b == 79 || b == 88 || (48 <= b <= 56)
    } by {
        if i < 9 {
            assert(s[i] == cell_byte(v.cells[i]));
        } else if i > 9 {
            assert(s[i] == v.played[i - 10] + 48);
            assert(v.played[i - 10] < 9);
        }
    }
}

proof fn lemma_boards_bytes_decode(bs: Seq<BoardView>)
    requires
        bs.len() >= 1,
        forall|k: int| 0 <= k < bs.len() ==> (#[trigger] bs[k]).wf() && bs[k].ended(),
    ensures
        boards_decoding(boards_bytes(bs)) == Some(bs),
        forall|i: int|
            0 <= i < boards_bytes(bs).len() ==> {
                let b = #[trigger] boards_bytes(bs)[i];
                b == 44 || b == 45 || b == 58 || b == 79 || b == 88 || (48 <= b <= 56)
            },
    decreases bs.len(),
{
    reveal(boards_decoding);
    let s = boards_bytes(bs);
    let e = board_encoding(bs[0]);
    lemma_board_encoding_bytes(bs[0]);
    lemma_board_round_trip(bs[0]);
    if bs.len() == 1 {
        lemma_first_at(s, 44, 0, s.len() as int);
        assert(boards_decoding(s) == Some(seq![bs[0]]));
        assert(seq![bs[0]] =~= bs);
    } else {
        let rest = bs.drop_first();
        assert(forall|k: int| 0 <= k < rest.len() ==> (#[trigger] rest[k]).wf()
            && rest[k].ended());
        lemma_boards_bytes_decode(rest);
        let t = boards_bytes(rest);
        assert(s =~= e + seq![44u8] + t);
        assert forall|k: int| 0 <= k < e.len() implies s[k] != 44 by {
            assert(s[k] == e[k]);
        }
        assert(s[e.len() as int] == 44);
        lemma_first_at(s, 44, 0, e.len() as int);
        assert(s.subrange(0, e.len() as int) =~= e);
        assert(s.subrange(e.len() as int + 1, s.len() as int) =~= t);
        assert(boards_decoding(s) == Some(seq![bs[0]] + rest));
        assert(seq![bs[0]] + rest =~= bs);
    }
}

/// Serializing and then parsing a well-formed tally yields the tally back.
pub proof fn lemma_rounds_round_trip(v: RoundsView)
    requires
        v.wf(),
    ensures
        rounds_decoding(rounds_encoding(v)) == Some(v),
{
    reveal(rounds_decoding);
    let s = rounds_encoding(v);
    let tb = tally_bytes(v);
    let bb = boards_bytes(v.boards);
    assert(s =~= tb + seq![32u8] + bb);
    assert forall|k: int| 0 <= k < tb.len() implies s[k] != 32 && (s[k] == 88 || s[k] == 79
        || s[k] == 45) by {
        assert(s[k] == tb[k]);
        if k < v.x_player {
            assert(tb[k] == 88);
        } else if k < v.x_player + v.o_player {
            assert(tb[k] == 79);
        } else {
            assert(tb[k] == 45);
        }
    }
    assert(s[tb.len() as int] == 32);
    lemma_first_at(s, 32, 0, tb.len() as int);
    let left = s.subrange(0, tb.len() as int);
    let right = s.subrange(tb.len() as int + 1, s.len() as int);
    assert(left =~= tb);
    assert(right =~= bb);
    let xs = Seq::new(v.x_player as nat, |i: int| 88u8);
    let os = Seq::new(v.o_player as nat, |i: int| 79u8);
    let ds = Seq::new(v.draws as nat, |i: int| 45u8);
    lemma_count_byte_add(xs + os, ds, 88);
    lemma_count_byte_add(xs, os, 88);
    lemma_count_byte_run(v.x_player as nat, 88, 88);
    lemma_count_byte_run(v.o_player as nat, 79, 88);
    lemma_count_byte_run(v.draws as nat, 45, 88);
    lemma_count_byte_add(xs + os, ds, 79);
    lemma_count_byte_add(xs, os, 79);
    lemma_count_byte_run(v.x_player as nat, 88, 79);
    lemma_count_byte_run(v.o_player as nat, 79, 79);
    lemma_count_byte_run(v.draws as nat, 45, 79);
    lemma_count_byte_add(xs + os, ds, 45);
    lemma_count_byte_add(xs, os, 45);
    lemma_count_byte_run(v.x_player as nat, 88, 45);
    lemma_count_byte_run(v.o_player as nat, 79, 45);
    lemma_count_byte_run(v.draws as nat, 45, 45);
    assert(count_byte(left, 88) == v.x_player);
    assert(count_byte(left, 79) == v.o_player);
    assert(count_byte(left, 45) == v.draws);
    if v.boards.len() == 0 {
        assert(right.len() == 0);
        assert(rounds_decoding(s) matches Some(w) && w =~= v);
    } else {
        lemma_boards_bytes_decode(v.boards);
        assert(right.len() > 0) by {
            assert(board_encoding(v.boards[0]).len() >= 10);
        }
        assert(rounds_decoding(s) matches Some(w) && w =~= v);
    }
}

fn parse_board_list(s: &[u8]) -> (r: Option<Vec<Board>>)
    ensures
        r is Some <==> boards_decoding(s@) is Some,
        r matches Some(v) ==> {
            &&& boards_decoding(s@) == Some(v@.map_values(|b: Board| b@))
            &&& forall|k: int|
                0 <= k < v@.len() ==> (#[trigger] v@[k])@.wf() && v@[k]@.ended()
        },
    decreases s@.len(),
{
    let mut c: usize = 0;
    while c < s.len() && s[c] != 44
        invariant
            c <= s@.len(),
            forall|k: int| 0 <= k < c ==> s@[k] != 44,
        decreases s@.len() - c,
    {
        c += 1;
    }
    proof {
        reveal(boards_decoding);
        lemma_first_at(s@, 44, 0, c as int);
    }
    if c == s.len() {
        match Board::parse(s) {
            Some(b) => {
                if !b.is_end() {
                    return None;
                }
                let mut v: Vec<Board> = Vec::new();
                v.push(b);
                proof {
                    assert(v@.map_values(|b: Board| b@) =~= seq![b@]);
                }
                Some(v)
            },
            None => None,
        }
    } else {
        let head = Board::parse(&s[0..c]);
        proof {
            assert(s@.subrange(0, c as int) == s@.subrange(0, c as int));
        }
        match head {
            Some(b) => {
                if !b.is_end() {
                    return None;
                }
                match parse_board_list(&s[c + 1..s.len()]) {
                    Some(mut v) => {
                        let ghost tail = v@.map_values(|b: Board| b@);
                        v.insert(0, b);
                        proof {
                            assert(v@.map_values(|b: Board| b@) =~= seq![b@] + tail);
                        }
                        Some(v)
                    },
                    None => None,
                }
            },
            None => None,
        }
    }
}

impl RoundsResult {
    /// Serializes the tally: one character per round outcome (`X`, `O`, or
    /// `-`), a space, then the serialized boards joined by commas.
    pub fn to_bytes(&self) -> (r: Vec<u8>)
        requires
            self@.wf(),
        ensures
            r@ == rounds_encoding(self@),
    {
        let mut r: Vec<u8> = Vec::new();
        let mut i: usize = 0;
        while i < self.x_player
            invariant
                i <= self.x_player,
                r@ =~= Seq::new(i as nat, |k: int| 88u8),
            decreases self.x_player - i,
        {
            r.push(88);
            i += 1;
        }
        let mut i: usize = 0;
        while i < self.o_player
            invariant
                i <= self.o_player,
                r@ =~= Seq::new(self.x_player as nat, |k: int| 88u8) + Seq::new(
                    i as nat,
                    |k: int| 79u8,
                ),
            decreases self.o_player - i,
        {
            r.push(79);
            i += 1;
        }
        let mut i: usize = 0;
        while i < self.draws
            invariant
                i <= self.draws,
                r@ =~= Seq::new(self.x_player as nat, |k: int| 88u8) + Seq::new(
                    self.o_player as nat,
                    |k: int| 79u8,
                ) + Seq::new(i as nat, |k: int| 45u8),
            decreases self.draws - i,
        {
            r.push(45);
            i += 1;
        }
        proof {
            assert(r@ =~= tally_bytes(self@));
        }
        r.push(32);
        let ghost header = tally_bytes(self@) + seq![32u8];
        proof {
            assert(r@ =~= header);
        }
        let mut k: usize = 0;
        while k < self.boards.len()
            invariant
                self@.wf(),
                k <= self.boards@.len(),
                self@.boards.len() == self.boards@.len(),
                forall|m: int| 0 <= m < self@.boards.len() ==> (#[trigger] self@.boards[m]).wf(),
                r@ =~= header + boards_bytes(self@.boards.subrange(0, k as int)),
            decreases self.boards@.len() - k,
        {
            if k > 0 {
                r.push(44);
            }
            proof {
                assert(self.boards@[k as int]@ == self@.boards[k as int]);
            }
            let mut bb = self.boards[k].to_bytes();
            r.append(&mut bb);
            proof {
                let pre = self@.boards.subrange(0, k as int);
                let cur = self@.boards.subrange(0, k + 1 as int);
                assert(cur =~= pre.push(self@.boards[k as int]));
                lemma_boards_bytes_push(pre, self@.boards[k as int]);
                assert(r@ =~= header + boards_bytes(cur));
            }
            k += 1;
        }
        proof {
            assert(self@.boards.subrange(0, self@.boards.len() as int) =~= self@.boards);
            assert(r@ =~= rounds_encoding(self@));
        }
        r
    }

    /// Parses a serialized tally. Returns the reconstructed tally exactly
    /// when the bytes are valid: a run of `X`/`O`/`-` characters, a space,
    /// then a comma-joined list of as many concluded boards as the run has
    /// characters, at most three.
    pub fn parse(s: &[u8]) -> (r: Option<RoundsResult>)
        ensures
            r is Some <==> rounds_decoding(s@) is Some,
            r matches Some(rr) ==> rr@.wf() && rounds_decoding(s@) == Some(rr@),
    {
        let mut sp: usize = 0;
        while sp < s.len() && s[sp] != 32
            invariant
                sp <= s@.len(),
                forall|k: int| 0 <= k < sp ==> s@[k] != 32,
            decreases s@.len() - sp,
        {
            sp += 1;
        }
        proof {
            lemma_first_at(s@, 32, 0, sp as int);
        }
        if sp == s.len() {
            proof {
                reveal(rounds_decoding);
            }
            return None;
        }
        let mut cx: usize = 0;
        let mut co: usize = 0;
        let mut cd: usize = 0;
        let mut i: usize = 0;
        while i < sp
            invariant
                i <= sp,
                sp < s@.len(),
                first_at(s@, 32, 0) == sp,
                cx == count_byte(s@.subrange(0, sp as int).subrange(0, i as int), 88),
                co == count_byte(s@.subrange(0, sp as int).subrange(0, i as int), 79),
                cd == count_byte(s@.subrange(0, sp as int).subrange(0, i as int), 45),
                cx + co + cd <= i,
                forall|k: int| 0 <= k < i ==> #[trigger] s@[k] == 88 || s@[k] == 79 || s@[k] == 45,
            decreases sp - i,
        {
            let ghost left = s@.subrange(0, sp as int);
            let b = s[i];
            proof {
                assert(left[i as int] == b);
                assert(left.subrange(0, i + 1 as int).drop_last() =~= left.subrange(0, i as int));
            }
            if b == 88 {
                cx += 1;
            } else if b == 79 {
                co += 1;
            } else if b == 45 {
                cd += 1;
            } else {
                proof {
                    reveal(rounds_decoding);
                    assert(left[i as int] != 88 && left[i as int] != 79 && left[i as int] != 45);
                }
                return None;
            }
            i += 1;
        }
        proof {
            assert(s@.subrange(0, sp as int).subrange(0, sp as int) =~= s@.subrange(0, sp as int));
        }
        let boards: Vec<Board> = if sp + 1 == s.len() {
            proof {
                assert(s@.subrange(sp + 1, s@.len() as int).len() == 0);
            }
            Vec::new()
        } else {
            match parse_board_list(&s[sp + 1..s.len()]) {
                Some(v) => v,
                None => {
                    proof {
                        reveal(rounds_decoding);
                    }
                    return None;
                },
            }
        };
        Self::assemble(s, sp, cx, co, cd, boards)
    }

    /// Final step of parsing: holds the tally counts against the decoded
    /// board list and checks that every listed round has concluded.
    #[verifier::rlimit(100)]
    fn assemble(s: &[u8], sp: usize, cx: usize, co: usize, cd: usize, boards: Vec<Board>) -> (r:
        Option<RoundsResult>)
        requires
            first_at(s@, 32, 0) == sp,
            sp < s@.len(),
            forall|k: int| 0 <= k < sp ==> #[trigger] s@[k] == 88 || s@[k] == 79 || s@[k] == 45,
            cx == count_byte(s@.subrange(0, sp as int), 88),
            co == count_byte(s@.subrange(0, sp as int), 79),
            cd == count_byte(s@.subrange(0, sp as int), 45),
            cx + co + cd <= sp,
            sp + 1 == s@.len() ==> boards@.len() == 0,
            sp as int + 1 < s@.len() ==> boards_decoding(s@.subrange(sp as int + 1, s@.len() as int))
                == Some(boards@.map_values(|b: Board| b@)),
            forall|k: int|
                0 <= k < boards@.len() ==> (#[trigger] boards@[k])@.wf()
                    && boards@[k]@.ended(),
        ensures
            r is Some <==> rounds_decoding(s@) is Some,
            r matches Some(rr) ==> rr@.wf() && rounds_decoding(s@) == Some(rr@),
    {
        let ghost left = s@.subrange(0, sp as int);
        if !(cx + co + cd == boards.len() && boards.len() <= 3) {
            proof {
                reveal(rounds_decoding);
            }
            return None;
        }
        let r = RoundsResult { x_player: cx, o_player: co, draws: cd, boards };
        proof {
            reveal(rounds_decoding);
            let dboards = r@.boards;
            if sp + 1 == s@.len() {
                assert(dboards =~= Seq::<BoardView>::empty());
            }
            assert(!(exists|ii: int|
                0 <= ii < left.len() && #[trigger] left[ii] != 88 && left[ii] != 79
                    && left[ii] != 45)) by {
                assert(forall|k: int| 0 <= k < left.len() ==> left[k] == s@[k]);
            }
            assert(forall|m: int| 0 <= m < dboards.len() ==> (#[trigger] dboards[m]).ended()
                && dboards[m].wf()) by {
                assert(forall|m: int|
                    0 <= m < boards@.len() ==> (#[trigger] dboards[m]) == boards@[m]@);
            }
            let w = RoundsView {
                x_player: cx as int,
                o_player: co as int,
                draws: cd as int,
                boards: dboards,
            };
            assert(rounds_decoding(s@) == Some(w));
            assert(r@ == w);
            assert(r@.wf());
        }
        Some(r)
    }
}

proof fn lemma_boards_bytes_push(bs: Seq<BoardView>, b: BoardView)
    ensures
        boards_bytes(bs.push(b)) == if bs.len() == 0 {
            board_encoding(b)
        } else {
            boards_bytes(bs) + seq![44u8] + board_encoding(b)
        },
    decreases bs.len(),
{
    let p = bs.push(b);
    if bs.len() == 0 {
        assert(p.len() == 1);
        assert(p[0] == b);
    } else {
        lemma_boards_bytes_push(bs.drop_first(), b);
        assert(p.drop_first() =~= bs.drop_first().push(b));
        assert(p[0] == bs[0]);
        if bs.len() == 1 {
            assert(boards_bytes(p) =~= board_encoding(bs[0]) + seq![44u8] + board_encoding(b));
            assert(boards_bytes(bs) + seq![44u8] + board_encoding(b) =~= board_encoding(bs[0])
                + seq![44u8] + board_encoding(b));
        } else {
            assert(boards_bytes(p) == board_encoding(p[0]) + seq![44u8] + boards_bytes(
                p.drop_first(),
            ));
            assert(boards_bytes(p) =~= boards_bytes(bs) + seq![44u8] + board_encoding(b));
        }
    }
}

} // verus!
