//! The match session state machine: matchmaking, the turn-taking protocol,
//! and disconnect handling. Each transition takes plain values, mutates the
//! registry and the game record, and returns the messages to deliver; the
//! caller persists the record and delivers the messages.

use vstd::prelude::*;
use crate::board::{Board, BoardView, XoSymbol};
use crate::events::{
    ErrorData, GameId, GameOverData, GameOverReason, OutboundMessage, PlayData, PlayerId,
    RoundData, XoServerEventData,
};
use crate::record::GameRecord;
use crate::registry::{GameEntry, Registry};
use crate::rounds::{RoundsResult, RoundsView};

verus! {

/// Why a move is rejected, if it is: playing out of turn, naming a cell
/// that is out of range or taken, or playing on a board whose round is
/// already over. A rejected move changes nothing.
pub open spec fn move_rejection(b: BoardView, sym: XoSymbol, place: u8) -> Option<ErrorData> {
    if b.turn_of() != sym {
        Some(ErrorData::NotYourTurn)
    } else if place > 8 || b.occupied(place as int) {
        Some(ErrorData::InvalidPlace)
    } else if b.ended() {
        Some(ErrorData::NotYourTurn)
    } else {
        None
    }
}

/// The board after `sym` marks `place`.
pub open spec fn board_after(b: BoardView, place: u8, sym: XoSymbol) -> BoardView {
    BoardView { cells: b.cells.update(place as int, Some(sym)), played: b.played.push(place) }
}

/// The tally after a move by `sym` left the board as `b2`: a win or a draw
/// is counted, and a concluded board is archived.
pub open spec fn rounds_after(rr: RoundsView, b2: BoardView, sym: XoSymbol) -> RoundsView {
    RoundsView {
        x_player: rr.x_player + if sym == XoSymbol::X && b2.wins(XoSymbol::X) {
            1int
        } else {
            0int
        },
        o_player: rr.o_player + if sym == XoSymbol::O && b2.wins(XoSymbol::O) {
            1int
        } else {
            0int
        },
        draws: rr.draws + if b2.draw() {
            1int
        } else {
            0int
        },
        boards: if b2.ended() {
            rr.boards.push(b2)
        } else {
            rr.boards
        },
    }
}

/// The series is decided once the round that just concluded was the third,
/// or the second with either symbol owning two round wins.
pub open spec fn series_over(round: i16, rv: RoundsView, b2: BoardView) -> bool {
    b2.ended() && (round == 3 || (round == 2 && (rv.x_player == 2 || rv.o_player == 2)))
}

/// The outcome of a finished series: the player with strictly more round
/// wins; a level tally is a draw.
pub open spec fn spec_series_result(
    x_player: PlayerId,
    o_player: PlayerId,
    rv: RoundsView,
) -> GameOverData {
    if rv.x_player > rv.o_player {
        GameOverData { winner: Some(x_player), reason: GameOverReason::PlayerWon }
    } else if rv.o_player > rv.x_player {
        GameOverData { winner: Some(o_player), reason: GameOverReason::PlayerWon }
    } else {
        GameOverData { winner: None, reason: GameOverReason::Draw }
    }
}

/// The game-over outcome read off a series' tally.
pub fn game_over_data(rounds_result: &RoundsResult, x_player: PlayerId, o_player: PlayerId) -> (r:
    GameOverData)
    ensures
        r == spec_series_result(x_player, o_player, rounds_result@),
{
    if rounds_result.x_player > rounds_result.o_player {
        GameOverData { winner: Some(x_player), reason: GameOverReason::PlayerWon }
    } else if rounds_result.o_player > rounds_result.x_player {
        GameOverData { winner: Some(o_player), reason: GameOverReason::PlayerWon }
    } else {
        GameOverData { winner: None, reason: GameOverReason::Draw }
    }
}

/// Checks a move before it is applied and returns the error to report to
/// the mover, if any.
pub fn check_move_validity(board: &Board, symbol: XoSymbol, place: u8) -> (r: Option<ErrorData>)
    requires
        board@.wf(),
    ensures
        r == move_rejection(board@, symbol, place),
{
    let turn = board.turn();
    if turn != symbol {
        Some(ErrorData::NotYourTurn)
    } else if place > 8 || !board.is_empty_cell(place) {
        Some(ErrorData::InvalidPlace)
    } else if board.is_end() {
        Some(ErrorData::NotYourTurn)
    } else {
        None
    }
}

/// What an accepted move produced: the messages to deliver in order, and
/// the game-over outcome once the series is decided.
#[derive(Debug)]
pub struct MoveReport {
    /// The events to deliver, in order.
    pub messages: Vec<OutboundMessage>,
    /// The decided outcome; the caller must then end the game at the
    /// persistence collaborator.
    pub game_over: Option<GameOverData>,
}

/// The result of a play request.
#[derive(Debug)]
pub enum PlayOutcome {
    /// The move was rejected; the error goes to the mover and nothing
    /// changed.
    Rejected(ErrorData),
    /// The move was applied.
    Moved(MoveReport),
}

/// Everything an accepted move does, relating the record, the registry and
/// the report before and after. The mover's symbol marks the cell and the
/// deadline is re-armed; then, in this order: if the round just concluded
/// the series (third round, or second round with two wins to one symbol),
/// the game ends, is persisted as ended and leaves the registry; else if
/// the round concluded, the next round starts on an empty board and `X` is
/// told to move; else the opponent is told to move.
pub open spec fn accepted_play(
    pre: GameRecord,
    post: GameRecord,
    pre_reg: Registry,
    post_reg: Registry,
    rep: MoveReport,
    player: PlayerId,
    place: u8,
    now: i64,
    move_period: i64,
) -> bool {
    let sym = pre.symbol_of(player);
    let opponent = if player == pre.x_player {
        pre.o_player
    } else {
        pre.x_player
    };
    let b2 = board_after(pre.board@, place, sym);
    let rv2 = rounds_after(pre.rounds_result@, b2, sym);
    let deadline = (now + move_period) as i64;
    let god = spec_series_result(pre.x_player, pre.o_player, rv2);
    let play_msg = OutboundMessage {
        recipient: opponent,
        data: XoServerEventData::Play((PlayData { place, player })),
    };
    &&& post.uuid == pre.uuid
    &&& post.x_player == pre.x_player
    &&& post.o_player == pre.o_player
    &&& post.created_at == pre.created_at
    &&& post.rounds_result@ == rv2
    &&& if series_over(pre.round, rv2, b2) {
        &&& rep.game_over == Some(god)
        &&& post.round == pre.round
        &&& post.board@.played.len() == 0
        &&& post.board@.occupied_count() == 0
        &&& post.auto_play_after is None
        &&& post.winner == god.winner
        &&& post.reason == Some(god.reason)
        &&& post.ended_at == Some(now)
        &&& post_reg.queue == pre_reg.queue
        &&& !post_reg.spec_has_game(pre.uuid)
        &&& forall|p: PlayerId| post_reg.spec_in_game(p) ==> pre_reg.spec_in_game(p)
        &&& rep.messages@ == seq![
            play_msg,
            (OutboundMessage {
                recipient: pre.x_player,
                data: XoServerEventData::GameOver(god),
            }),
            (OutboundMessage {
                recipient: pre.o_player,
                data: XoServerEventData::GameOver(god),
            }),
        ]
    } else if b2.ended() {
        let rd = RoundData {
            round: pre.round,
            winner: if b2.wins(sym) {
                Some(player)
            } else {
                None
            },
        };
        &&& rep.game_over is None
        &&& post.round == pre.round + 1
        &&& post.board@.played.len() == 0
        &&& post.board@.occupied_count() == 0
        &&& post.auto_play_after == Some(deadline)
        &&& post.winner is None
        &&& post.reason is None
        &&& post.ended_at is None
        &&& post_reg == pre_reg
        &&& rep.messages@ == seq![
            play_msg,
            (OutboundMessage { recipient: pre.x_player, data: XoServerEventData::RoundEnd(rd) }),
            (OutboundMessage { recipient: pre.o_player, data: XoServerEventData::RoundEnd(rd) }),
            (OutboundMessage {
                recipient: pre.x_player,
                data: XoServerEventData::RoundStart { round: (pre.round + 1) as i16 },
            }),
            (OutboundMessage {
                recipient: pre.o_player,
                data: XoServerEventData::RoundStart { round: (pre.round + 1) as i16 },
            }),
            (OutboundMessage {
                recipient: pre.x_player,
                data: XoServerEventData::YourTurn { auto_play_after: deadline },
            }),
        ]
    } else {
        &&& rep.game_over is None
        &&& post.round == pre.round
        &&& post.board@ == b2
        &&& post.auto_play_after == Some(deadline)
        &&& post.winner is None
        &&& post.reason is None
        &&& post.ended_at is None
        &&& post_reg == pre_reg
        &&& rep.messages@ == seq![
            play_msg,
            (OutboundMessage {
                recipient: opponent,
                data: XoServerEventData::YourTurn { auto_play_after: deadline },
            }),
        ]
    }
}

/// Applies one move by `player` to its live game: validates it, marks the
/// cell, advances rounds, detects the end of the series, and removes a
/// finished game from the registry. A rejected move changes nothing and
/// reports the error for the mover alone.
pub fn play(
    reg: &mut Registry,
    game: &mut GameRecord,
    player: PlayerId,
    place: u8,
    now: i64,
    move_period: i64,
) -> (r: PlayOutcome)
    requires
        old(reg).wf(),
        old(game).wf(),
        old(game).spec_live(),
        old(game).spec_has_player(player),
        0 <= move_period,
        now + move_period <= i64::MAX,
    ensures
        final(reg).wf(),
        final(game).wf(),
        match move_rejection(old(game).board@, old(game).symbol_of(player), place) {
            Some(e) => r == PlayOutcome::Rejected(e) && *final(game) == *old(game) && *final(reg)
                == *old(reg),
            None => r matches PlayOutcome::Moved(rep) && accepted_play(
                *old(game),
                *final(game),
                *old(reg),
                *final(reg),
                rep,
                player,
                place,
                now,
                move_period,
            ),
        },
{
    let ghost pre = *game;
    let ghost pre_reg = *reg;
    let sym = if game.x_player == player {
        XoSymbol::X
    } else {
        XoSymbol::O
    };
    let opponent = if game.x_player == player {
        game.o_player
    } else {
        game.x_player
    };
    if let Some(e) = check_move_validity(&game.board, sym, place) {
        return PlayOutcome::Rejected(e);
    }
    let deadline = now + move_period;
    game.auto_play_after = Some(deadline);
    let mut messages: Vec<OutboundMessage> = Vec::new();
    messages.push(
        OutboundMessage {
            recipient: opponent,
            data: XoServerEventData::Play(PlayData { place, player }),
        },
    );
    game.board.set_cell(place, sym);
    let ghost b2 = game.board@;
    let won = game.board.is_win(sym);
    if won {
        game.rounds_result.add_win(sym);
    } else if game.board.is_draw() {
        game.rounds_result.draws = game.rounds_result.draws + 1;
    }
    let ghost rv2 = rounds_after(pre.rounds_result@, b2, sym);
    let ended = game.board.is_end();
    proof {
        assert(b2 =~= board_after(pre.board@, place, sym));
        if !ended {
            assert(game.rounds_result@ =~= rv2);
        }
    }
    let over = ended && (game.round == 3 || (game.round == 2 && (game.rounds_result.x_player == 2
        || game.rounds_result.o_player == 2)));
    if ended {
        let mut finished = Board::new();
        core::mem::swap(&mut game.board, &mut finished);
        game.rounds_result.add_board(finished);
        proof {
            assert(game.rounds_result@ =~= rv2);
        }
    }
    if over {
        let god = game_over_data(&game.rounds_result, game.x_player, game.o_player);
        messages.push(
            OutboundMessage { recipient: game.x_player, data: XoServerEventData::GameOver(god) },
        );
        messages.push(
            OutboundMessage { recipient: game.o_player, data: XoServerEventData::GameOver(god) },
        );
        game.winner = god.winner;
        game.reason = Some(god.reason);
        game.ended_at = Some(now);
        game.auto_play_after = None;
        reg.remove_game(game.uuid);
        proof {
            assert(messages@ =~= seq![
                (OutboundMessage {
                    recipient: opponent,
                    data: XoServerEventData::Play((PlayData { place, player })),
                }),
                (OutboundMessage {
                    recipient: pre.x_player,
                    data: XoServerEventData::GameOver(god),
                }),
                (OutboundMessage {
                    recipient: pre.o_player,
                    data: XoServerEventData::GameOver(god),
                }),
            ]);
        }
        PlayOutcome::Moved(MoveReport { messages, game_over: Some(god) })
    } else if ended {
        let rd = RoundData {
            round: game.round,
            winner: if won {
                Some(player)
            } else {
                None
            },
        };
        messages.push(
            OutboundMessage { recipient: game.x_player, data: XoServerEventData::RoundEnd(rd) },
        );
        messages.push(
            OutboundMessage { recipient: game.o_player, data: XoServerEventData::RoundEnd(rd) },
        );
        let next = game.round + 1;
        game.round = next;
        messages.push(
            OutboundMessage {
                recipient: game.x_player,
                data: XoServerEventData::RoundStart { round: next },
            },
        );
        messages.push(
            OutboundMessage {
                recipient: game.o_player,
                data: XoServerEventData::RoundStart { round: next },
            },
        );
        messages.push(
            OutboundMessage {
                recipient: game.x_player,
                data: XoServerEventData::YourTurn { auto_play_after: deadline },
            },
        );
        proof {
            assert(messages@ =~= seq![
                (OutboundMessage {
                    recipient: opponent,
                    data: XoServerEventData::Play((PlayData { place, player })),
                }),
                (OutboundMessage {
                    recipient: pre.x_player,
                    data: XoServerEventData::RoundEnd(rd),
                }),
                (OutboundMessage {
                    recipient: pre.o_player,
                    data: XoServerEventData::RoundEnd(rd),
                }),
                (OutboundMessage {
                    recipient: pre.x_player,
                    data: XoServerEventData::RoundStart { round: (pre.round + 1) as i16 },
                }),
                (OutboundMessage {
                    recipient: pre.o_player,
                    data: XoServerEventData::RoundStart { round: (pre.round + 1) as i16 },
                }),
                (OutboundMessage {
                    recipient: pre.x_player,
                    data: XoServerEventData::YourTurn { auto_play_after: deadline },
                }),
            ]);
        }
        PlayOutcome::Moved(MoveReport { messages, game_over: None })
    } else {
        messages.push(
            OutboundMessage {
                recipient: opponent,
                data: XoServerEventData::YourTurn { auto_play_after: deadline },
            },
        );
        proof {
            assert(messages@ =~= seq![
                (OutboundMessage {
                    recipient: opponent,
                    data: XoServerEventData::Play((PlayData { place, player })),
                }),
                (OutboundMessage {
                    recipient: opponent,
                    data: XoServerEventData::YourTurn { auto_play_after: deadline },
                }),
            ]);
        }
        PlayOutcome::Moved(MoveReport { messages, game_over: None })
    }
}

/// What a search request produced.
#[derive(Debug)]
pub enum SearchOutcome {
    /// The request was rejected; the error goes to the searcher and nothing
    /// changed.
    Rejected(ErrorData),
    /// Nobody was waiting; the searcher joined the queue.
    Queued,
    /// The searcher was paired with the longest-waiting player. The caller
    /// persists the new record and delivers the messages.
    Matched {
        /// The freshly created game; the waiter holds `X`, the searcher `O`.
        game: GameRecord,
        /// The events to deliver, in order.
        messages: Vec<OutboundMessage>,
    },
}

/// Handles a search request by `player`. In this order: a player already in
/// a game, a full server, and a player already queued are rejected; then a
/// non-empty queue pairs the searcher (as `O`) with the queue's front (as
/// `X`), creates the game under the caller-supplied fresh id, announces the
/// pairing and round one to both, and tells the first mover to move; an
/// empty queue enqueues the searcher.
pub fn search_for_game(
    reg: &mut Registry,
    player: PlayerId,
    max_online_games: usize,
    move_period: i64,
    now: i64,
    game_uuid: GameId,
) -> (r: SearchOutcome)
    requires
        old(reg).wf(),
        !old(reg).spec_has_game(game_uuid),
        0 <= move_period,
        now + move_period <= i64::MAX,
    ensures
        final(reg).wf(),
        old(reg).spec_in_game(player) ==> r == SearchOutcome::Rejected(ErrorData::AlreadyInGame)
            && *final(reg) == *old(reg),
        !old(reg).spec_in_game(player) && old(reg).games@.len() >= max_online_games ==> r
            == SearchOutcome::Rejected(ErrorData::MaxGamesReached) && *final(reg) == *old(reg),
        !old(reg).spec_in_game(player) && old(reg).games@.len() < max_online_games && old(
            reg,
        ).spec_in_queue(player) ==> r == SearchOutcome::Rejected(ErrorData::AlreadyInSearch)
            && *final(reg) == *old(reg),
        !old(reg).spec_in_game(player) && old(reg).games@.len() < max_online_games && !old(
            reg,
        ).spec_in_queue(player) && old(reg).queue@.len() == 0 ==> r == SearchOutcome::Queued
            && final(reg).queue@ == old(reg).queue@.push(player) && final(reg).games == old(
            reg,
        ).games,
        !old(reg).spec_in_game(player) && old(reg).games@.len() < max_online_games && !old(
            reg,
        ).spec_in_queue(player) && old(reg).queue@.len() > 0 ==> (r matches SearchOutcome::Matched {
            game,
            messages,
        } && {
            let waiter = old(reg).queue@[0];
            let deadline = (now + move_period) as i64;
            &&& game.wf()
            &&& game.spec_live()
            &&& game.uuid == game_uuid
            &&& game.x_player == waiter
            &&& game.o_player == player
            &&& game.round == 1
            &&& game.auto_play_after == Some(deadline)
            &&& game.created_at == now
            &&& game.board@.played.len() == 0
            &&& game.rounds_result@.boards.len() == 0
            &&& final(reg).queue@ == old(reg).queue@.drop_first()
            &&& final(reg).games@ == old(reg).games@.push(
                (GameEntry { game: game_uuid, x_player: waiter, o_player: player }),
            )
            &&& messages@ == seq![
                (OutboundMessage {
                    recipient: waiter,
                    data: XoServerEventData::GameFound { x_player: waiter, o_player: player },
                }),
                (OutboundMessage {
                    recipient: player,
                    data: XoServerEventData::GameFound { x_player: waiter, o_player: player },
                }),
                (OutboundMessage {
                    recipient: waiter,
                    data: XoServerEventData::RoundStart { round: 1i16 },
                }),
                (OutboundMessage {
                    recipient: player,
                    data: XoServerEventData::RoundStart { round: 1i16 },
                }),
                (OutboundMessage {
                    recipient: waiter,
                    data: XoServerEventData::YourTurn { auto_play_after: deadline },
                }),
            ]
        }),
{
    let ghost pre_reg = *reg;
    if reg.is_user_in_game(player) {
        return SearchOutcome::Rejected(ErrorData::AlreadyInGame);
    }
    if reg.online_games_count() >= max_online_games {
        return SearchOutcome::Rejected(ErrorData::MaxGamesReached);
    }
    if reg.is_user_in_search(player) {
        return SearchOutcome::Rejected(ErrorData::AlreadyInSearch);
    }
    if reg.search_users_count() > 0 {
        let waiter = match reg.pop_front() {
            Some(w) => w,
            None => {
                // The queue was checked non-empty under the same borrow.
                proof {
                    assert(false);
                }
                return SearchOutcome::Rejected(ErrorData::AlreadyInSearch);
            },
        };
        proof {
            assert(pre_reg.queue@.contains(waiter));
            assert(!reg.spec_in_queue(waiter)) by {
                if reg.spec_in_queue(waiter) {
                    let k = choose|k: int| 0 <= k < reg.queue@.len() && reg.queue@[k] == waiter;
                    assert(pre_reg.queue@[k + 1] == waiter);
                }
            }
            assert(!reg.spec_in_queue(player)) by {
                if reg.spec_in_queue(player) {
                    let k = choose|k: int| 0 <= k < reg.queue@.len() && reg.queue@[k] == player;
                    assert(pre_reg.queue@[k + 1] == player);
                }
            }
            assert(!reg.spec_in_game(waiter)) by {
                if reg.spec_in_game(waiter) {
                    let i = choose|i: int|
                        0 <= i < reg.games@.len() && (#[trigger] reg.games@[i]).has_player(waiter);
                    assert(!pre_reg.games@[i].has_player(pre_reg.queue@[0]));
                }
            }
            assert(waiter != player);
        }
        let game = GameRecord::new(game_uuid, waiter, player, now, move_period);
        reg.add_game(game_uuid, waiter, player);
        let mut messages: Vec<OutboundMessage> = Vec::new();
        messages.push(
            OutboundMessage {
                recipient: waiter,
                data: XoServerEventData::GameFound { x_player: waiter, o_player: player },
            },
        );
        messages.push(
            OutboundMessage {
                recipient: player,
                data: XoServerEventData::GameFound { x_player: waiter, o_player: player },
            },
        );
        messages.push(
            OutboundMessage { recipient: waiter, data: XoServerEventData::RoundStart { round: 1 } },
        );
        messages.push(
            OutboundMessage { recipient: player, data: XoServerEventData::RoundStart { round: 1 } },
        );
        let deadline = now + move_period;
        messages.push(
            OutboundMessage {
                recipient: waiter,
                data: XoServerEventData::YourTurn { auto_play_after: deadline },
            },
        );
        proof {
            assert(messages@ =~= seq![
                (OutboundMessage {
                    recipient: pre_reg.queue@[0],
                    data: XoServerEventData::GameFound {
                        x_player: pre_reg.queue@[0],
                        o_player: player,
                    },
                }),
                (OutboundMessage {
                    recipient: player,
                    data: XoServerEventData::GameFound {
                        x_player: pre_reg.queue@[0],
                        o_player: player,
                    },
                }),
                (OutboundMessage {
                    recipient: pre_reg.queue@[0],
                    data: XoServerEventData::RoundStart { round: 1i16 },
                }),
                (OutboundMessage {
                    recipient: player,
                    data: XoServerEventData::RoundStart { round: 1i16 },
                }),
                (OutboundMessage {
                    recipient: pre_reg.queue@[0],
                    data: XoServerEventData::YourTurn { auto_play_after: deadline },
                }),
            ]);
        }
        SearchOutcome::Matched { game, messages }
    } else {
        reg.add_user(player);
        SearchOutcome::Queued
    }
}

/// What a disconnect did.
#[derive(Debug)]
pub enum DisconnectOutcome {
    /// The player was mid-game: the game is forfeited to the opponent and
    /// leaves the registry. The caller persists the outcome and delivers
    /// the messages.
    GameForfeited {
        /// The forfeited game's id.
        game: GameId,
        /// The opponent, who wins by forfeit.
        opponent: PlayerId,
        /// The events to deliver, in order.
        messages: Vec<OutboundMessage>,
    },
    /// The player was waiting and left the queue.
    RemovedFromSearch,
    /// The player was neither playing nor waiting; nothing changed.
    NotPresent,
}

/// Handles a closed connection: a player mid-game forfeits to the opponent,
/// a waiting player leaves the queue, anyone else is ignored. Afterwards
/// the player is neither live nor queued.
pub fn player_disconnected(reg: &mut Registry, player: PlayerId) -> (r: DisconnectOutcome)
    requires
        old(reg).wf(),
    ensures
        final(reg).wf(),
        !final(reg).spec_in_game(player),
        !final(reg).spec_in_queue(player),
        old(reg).spec_in_game(player) ==> (r matches DisconnectOutcome::GameForfeited {
            game,
            opponent,
            messages,
        } && {
            &&& exists|i: int|
                0 <= i < old(reg).games@.len() && #[trigger] old(reg).games@[i].game == game && old(
                    reg,
                ).games@[i].has_player(player) && old(reg).games@[i].has_player(opponent)
                    && final(reg).games@ == old(reg).games@.remove(i)
            &&& opponent != player
            &&& final(reg).queue == old(reg).queue
            &&& messages@ == seq![
                (OutboundMessage {
                    recipient: opponent,
                    data: XoServerEventData::GameOver(
                        (GameOverData {
                            winner: Some(opponent),
                            reason: GameOverReason::PlayerDisconnected,
                        }),
                    ),
                }),
            ]
        }),
        !old(reg).spec_in_game(player) && old(reg).spec_in_queue(player) ==> r
            == DisconnectOutcome::RemovedFromSearch && final(reg).games == old(reg).games && exists|
            k: int,
        |
            0 <= k < old(reg).queue@.len() && old(reg).queue@[k] == player && final(reg).queue@
                == old(reg).queue@.remove(k),
        !old(reg).spec_in_game(player) && !old(reg).spec_in_queue(player) ==> r
            == DisconnectOutcome::NotPresent && *final(reg) == *old(reg),
{
    let ghost pre_reg = *reg;
    match reg.get_user_game(player) {
        Some((game, opponent)) => {
            let mut messages: Vec<OutboundMessage> = Vec::new();
            messages.push(
                OutboundMessage {
                    recipient: opponent,
                    data: XoServerEventData::GameOver(
                        GameOverData {
                            winner: Some(opponent),
                            reason: GameOverReason::PlayerDisconnected,
                        },
                    ),
                },
            );
            reg.remove_game(game);
            proof {
                let i = choose|i: int|
                    0 <= i < pre_reg.games@.len() && (#[trigger] pre_reg.games@[i]).game == game
                        && ((pre_reg.games@[i].x_player == player && pre_reg.games@[i].o_player
                        == opponent) || (pre_reg.games@[i].o_player == player
                        && pre_reg.games@[i].x_player == opponent));
                let j = choose|j: int|
                    0 <= j < pre_reg.games@.len() && (#[trigger] pre_reg.games@[j]).game == game
                        && reg.games@ == pre_reg.games@.remove(j);
                assert(i == j);
                assert(messages@ =~= seq![
                    (OutboundMessage {
                        recipient: opponent,
                        data: XoServerEventData::GameOver(
                            (GameOverData {
                                winner: Some(opponent),
                                reason: GameOverReason::PlayerDisconnected,
                            }),
                        ),
                    }),
                ]);
                assert(!reg.spec_in_game(player)) by {
                    if reg.spec_in_game(player) {
                        let m = choose|m: int|
                            0 <= m < reg.games@.len() && (#[trigger] reg.games@[m]).has_player(
                                player,
                            );
                        if m < i {
                            assert(!pre_reg.games@[m].shares_player(pre_reg.games@[i]));
                        } else {
                            assert(!pre_reg.games@[i].shares_player(pre_reg.games@[m + 1]));
                        }
                    }
                }
                assert(!reg.spec_in_queue(player)) by {
                    if reg.spec_in_queue(player) {
                        let k = choose|k: int|
                            0 <= k < reg.queue@.len() && reg.queue@[k] == player;
                        assert(!pre_reg.games@[i].has_player(pre_reg.queue@[k]));
                    }
                }
            }
            DisconnectOutcome::GameForfeited { game, opponent, messages }
        },
        None => {
            if reg.is_user_in_search(player) {
                reg.remove_user(player);
                DisconnectOutcome::RemovedFromSearch
            } else {
                DisconnectOutcome::NotPresent
            }
        },
    }
}

} // verus!
