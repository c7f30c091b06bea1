//! The timeout scheduler's decisions: when a live game's turn deadline has
//! elapsed, a uniformly random legal move is played on behalf of the player
//! whose turn it is. The scan-and-sleep loop around these decisions belongs
//! to the caller; fetching the live games is the persistence collaborator's
//! work.

use vstd::prelude::*;
use crate::engine::{accepted_play, move_rejection, play, MoveReport, PlayOutcome};
use crate::events::{OutboundMessage, PlayerId, XoServerEventData};
use crate::record::GameRecord;
use crate::registry::Registry;

verus! {

/// Relies on rand::Rng::gen_range over `0..n`: a uniformly random index
/// below `n`; it panics only on an empty range, which `n > 0` rules out.
/// Nothing more is promised of a random value.
#[verifier::external_body]
fn pick_index(n: usize) -> (r: usize)
    requires
        n > 0,
    ensures
        r < n,
{
    rand::Rng::gen_range(&mut rand::thread_rng(), 0..n)
}

/// The per-turn deadline of a live game has passed at time `now`.
pub open spec fn deadline_elapsed(game: GameRecord, now: i64) -> bool {
    game.auto_play_after matches Some(d) && d <= now
}

/// Decides the scheduler's move for one live game at time `now`: nothing
/// while the deadline has not passed; otherwise the player whose turn it is
/// and one cell picked at random among the empty ones. The board of a live
/// game is never full, so an empty cell exists.
pub fn timeout_move(game: &GameRecord, now: i64) -> (r: Option<(PlayerId, u8)>)
    requires
        game.wf(),
        game.spec_live(),
    ensures
        r is Some <==> deadline_elapsed(*game, now),
        r matches Some((player, place)) ==> {
            &&& player == game.player_of(game.board@.turn_of())
            &&& place < 9
            &&& !game.board@.occupied(place as int)
        },
{
    let deadline = match game.auto_play_after {
        Some(d) => d,
        None => {
            return None;
        },
    };
    if now < deadline {
        return None;
    }
    let player = match game.board.turn() {
        crate::board::XoSymbol::X => game.x_player,
        crate::board::XoSymbol::O => game.o_player,
    };
    let cells = game.board.empty_cells();
    proof {
        assert(!game.board@.full());
        let i = choose|i: int| 0 <= i < 9 && !game.board@.occupied(i);
        assert(cells@.contains(i as u8));
        assert(cells@.len() > 0);
    }
    let place = cells[pick_index(cells.len())];
    Some((player, place))
}

/// Runs one scheduler step for one live game: if its deadline has elapsed,
/// picks a random legal move for the player whose turn it is, reports the
/// auto-play to that player, and applies the move through the same `play`
/// transition a human move takes. Returns the chosen cell, the auto-play
/// notice, and the move's outcome; or nothing while the deadline has not
/// passed.
pub fn auto_play(reg: &mut Registry, game: &mut GameRecord, now: i64, move_period: i64) -> (r:
    Option<(u8, OutboundMessage, PlayOutcome)>)
    requires
        old(reg).wf(),
        old(game).wf(),
        old(game).spec_live(),
        0 <= move_period,
        now + move_period <= i64::MAX,
    ensures
        final(reg).wf(),
        final(game).wf(),
        r is Some <==> deadline_elapsed(*old(game), now),
        r is None ==> *final(game) == *old(game) && *final(reg) == *old(reg),
        r matches Some((place, notice, outcome)) ==> {
            let player = old(game).player_of(old(game).board@.turn_of());
            &&& place < 9
            &&& !old(game).board@.occupied(place as int)
            &&& notice == (OutboundMessage {
                recipient: player,
                data: XoServerEventData::AutoPlay { place },
            })
            &&& outcome matches PlayOutcome::Moved(rep) && accepted_play(
                *old(game),
                *final(game),
                *old(reg),
                *final(reg),
                rep,
                player,
                place,
                now,
                move_period,
            )
        },
{
    let (player, place) = match timeout_move(game, now) {
        Some(m) => m,
        None => {
            return None;
        },
    };
    let notice = OutboundMessage {
        recipient: player,
        data: XoServerEventData::AutoPlay { place },
    };
    proof {
        assert(game.spec_has_player(player));
        assert(game.symbol_of(player) == game.board@.turn_of());
        assert(move_rejection(game.board@, game.symbol_of(player), place) is None);
    }
    let outcome = play(reg, game, player, place, now, move_period);
    Some((place, notice, outcome))
}

} // verus!
