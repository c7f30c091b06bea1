//! A game's record: the state the persistence collaborator stores and the
//! engine transitions.

use vstd::prelude::*;
use crate::board::{Board, XoSymbol};
use crate::events::{GameId, GameOverReason, PlayerId};
use crate::rounds::RoundsResult;

verus! {

/// One game of a best-of-three series: the current round and board, the
/// running tally, the two players, and the outcome once the game ends.
///
/// The record mirrors the persisted row; the engine mutates it and the
/// caller writes it through before signalling completion.
#[derive(Debug)]
pub struct GameRecord {
    /// The game's unique id.
    pub uuid: GameId,
    /// The current round, `1` to `3`.
    pub round: i16,
    /// The deadline after which the current turn is auto-played; cleared
    /// once the game ends.
    pub auto_play_after: Option<i64>,
    /// The tally of the completed rounds.
    pub rounds_result: RoundsResult,
    /// The player holding `X`, the first mover.
    pub x_player: PlayerId,
    /// The player holding `O`, the second mover.
    pub o_player: PlayerId,
    /// The board of the round in progress; cleared once the game ends.
    pub board: Board,
    /// The winner; absent while in progress and on a draw.
    pub winner: Option<PlayerId>,
    /// Why the game ended; absent while in progress.
    pub reason: Option<GameOverReason>,
    /// When the game was created.
    pub created_at: i64,
    /// When the game ended; absent while in progress.
    pub ended_at: Option<i64>,
}

impl GameRecord {
    /// The game is still in progress.
    pub open spec fn spec_live(self) -> bool {
        self.ended_at is None
    }

    /// The player is one of the game's two players.
    pub open spec fn spec_has_player(self, p: PlayerId) -> bool {
        p == self.x_player || p == self.o_player
    }

    /// The symbol a player of this game holds.
    pub open spec fn symbol_of(self, p: PlayerId) -> XoSymbol {
        if p == self.x_player {
            XoSymbol::X
        } else {
            XoSymbol::O
        }
    }

    /// The player holding a symbol.
    pub open spec fn player_of(self, s: XoSymbol) -> PlayerId {
        match s {
            XoSymbol::X => self.x_player,
            XoSymbol::O => self.o_player,
        }
    }

    /// Well-formedness: two distinct players, a round in range, a sound
    /// board and tally; and while the game is live, the tally archives
    /// exactly the finished rounds, the board's round is still open, no
    /// outcome is set, a deadline is armed, and no player has taken the two
    /// wins that would have ended the series.
    pub open spec fn wf(self) -> bool {
        &&& self.x_player != self.o_player
        &&& 1 <= self.round <= 3
        &&& self.board@.wf()
        &&& self.rounds_result@.wf()
        &&& self.spec_live() ==> {
            &&& self.rounds_result@.boards.len() == self.round - 1
            &&& !self.board@.ended()
            &&& self.winner is None
            &&& self.reason is None
            &&& self.auto_play_after is Some
            &&& self.rounds_result@.x_player <= 1
            &&& self.rounds_result@.o_player <= 1
        }
    }

    /// Creates the record of a freshly paired game: round one, an empty
    /// board and tally, and the first turn's deadline armed.
    pub fn new(uuid: GameId, x_player: PlayerId, o_player: PlayerId, now: i64, move_period: i64)
        -> (r: GameRecord)
        requires
            x_player != o_player,
            0 <= move_period,
            now + move_period <= i64::MAX,
        ensures
            r.wf(),
            r.spec_live(),
            r.uuid == uuid,
            r.x_player == x_player,
            r.o_player == o_player,
            r.round == 1,
            r.auto_play_after == Some((now + move_period) as i64),
            r.created_at == now,
            r.board@.played.len() == 0,
            r.board@.occupied_count() == 0,
            r.rounds_result@.x_player == 0,
            r.rounds_result@.o_player == 0,
            r.rounds_result@.draws == 0,
            r.rounds_result@.boards.len() == 0,
            r.winner is None,
            r.reason is None,
    {
        GameRecord {
            uuid,
            round: 1,
            auto_play_after: Some(now + move_period),
            rounds_result: RoundsResult::new(),
            x_player,
            o_player,
            board: Board::new(),
            winner: None,
            reason: None,
            created_at: now,
            ended_at: None,
        }
    }
}

} // verus!
