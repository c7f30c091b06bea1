//! The session registry: the live games and the matchmaking queue, with the
//! invariant that a player is never in two places at once.
//!
//! The registry is a plain value; the caller owns it and serializes access
//! (one coarse lock around the whole registry in a concurrent server).

use vstd::prelude::*;
use crate::events::{GameId, PlayerId};

verus! {

/// One live game: its id and the two players, tagged by symbol.
#[derive(Clone, Copy, Debug, PartialEq, Eq, Structural)]
pub struct GameEntry {
    /// The game's id.
    pub game: GameId,
    /// The player holding `X`, the first mover.
    pub x_player: PlayerId,
    /// The player holding `O`, the second mover.
    pub o_player: PlayerId,
}

impl GameEntry {
    /// The entry involves player `p`.
    pub open spec fn has_player(self, p: PlayerId) -> bool {
        self.x_player == p || self.o_player == p
    }

    /// The two entries share a player.
    pub open spec fn shares_player(self, other: GameEntry) -> bool {
        ||| other.has_player(self.x_player)
        ||| other.has_player(self.o_player)
    }
}

/// The session registry: the live games, and the players waiting for a
/// match in first-come-first-served order (front at index zero).
#[derive(Debug)]
pub struct Registry {
    /// The live games.
    pub games: Vec<GameEntry>,
    /// The matchmaking queue, front first.
    pub queue: Vec<PlayerId>,
}

impl Registry {
    /// Player `p` is in some live game.
    pub open spec fn spec_in_game(self, p: PlayerId) -> bool {
        exists|i: int| 0 <= i < self.games@.len() && (#[trigger] self.games@[i]).has_player(p)
    }

    /// Player `p` is waiting in the queue.
    pub open spec fn spec_in_queue(self, p: PlayerId) -> bool {
        self.queue@.contains(p)
    }

    /// A live game with id `g` exists.
    pub open spec fn spec_has_game(self, g: GameId) -> bool {
        exists|i: int| 0 <= i < self.games@.len() && (#[trigger] self.games@[i]).game == g
    }

    /// Well-formedness: game ids are distinct; a game's two players differ;
    /// no player is in two games; the queue holds no player twice; and no
    /// queued player is in a game.
    pub open spec fn wf(self) -> bool {
        &&& forall|i: int, j: int|
            0 <= i < j < self.games@.len() ==> (#[trigger] self.games@[i]).game != (
            #[trigger] self.games@[j]).game
        &&& forall|i: int|
            0 <= i < self.games@.len() ==> (#[trigger] self.games@[i]).x_player
                != self.games@[i].o_player
        &&& forall|i: int, j: int|
            0 <= i < j < self.games@.len() ==> !(#[trigger] self.games@[i]).shares_player(
                #[trigger] self.games@[j],
            )
        &&& forall|k1: int, k2: int|
            0 <= k1 < k2 < self.queue@.len() ==> self.queue@[k1] != self.queue@[k2]
        &&& forall|k: int, i: int|
            0 <= k < self.queue@.len() && 0 <= i < self.games@.len() ==> !(
            #[trigger] self.games@[i]).has_player(#[trigger] self.queue@[k])
    }

    /// Returns an empty registry: no live games, nobody waiting.
    pub fn new() -> (r: Registry)
        ensures
            r.wf(),
            r.games@.len() == 0,
            r.queue@.len() == 0,
    {
        Registry { games: Vec::new(), queue: Vec::new() }
    }

    /// Inserts a freshly paired game. The id must be new and neither player
    /// may already be playing or waiting.
    pub fn add_game(&mut self, game: GameId, x_player: PlayerId, o_player: PlayerId)
        requires
            old(self).wf(),
            !old(self).spec_has_game(game),
            !old(self).spec_in_game(x_player),
            !old(self).spec_in_game(o_player),
            !old(self).spec_in_queue(x_player),
            !old(self).spec_in_queue(o_player),
            x_player != o_player,
        ensures
            final(self).wf(),
            final(self).games@ == old(self).games@.push(
                (GameEntry { game, x_player, o_player }),
            ),
            final(self).queue == old(self).queue,
    {
        let ghost pre = *self;
        self.games.push(GameEntry { game, x_player, o_player });
        proof {
            let n = self.games@.len() - 1;
            assert(self.games@[n] == (GameEntry { game, x_player, o_player }));
            assert forall|i: int, j: int|
                0 <= i < j < self.games@.len() implies (#[trigger] self.games@[i]).game != (
            #[trigger] self.games@[j]).game by {
                if j < n {
                    assert(pre.games@[i].game != pre.games@[j].game);
                } else if exists|m: int| 0 <= m < pre.games@.len() && (#[trigger] pre.games@[m]).game
                    == game {
                    assert(false);
                }
            }
            assert forall|i: int, j: int|
                0 <= i < j < self.games@.len() implies !(#[trigger] self.games@[i]).shares_player(
                #[trigger] self.games@[j],
            ) by {
                if j == n {
                    if self.games@[i].shares_player(self.games@[j]) {
                        assert(pre.games@[i].has_player(x_player) || pre.games@[i].has_player(
                            o_player,
                        ));
                    }
                }
            }
            assert forall|k: int, i: int|
                0 <= k < self.queue@.len() && 0 <= i < self.games@.len() implies !(
            #[trigger] self.games@[i]).has_player(#[trigger] self.queue@[k]) by {
                if i == n {
                    assert(!pre.spec_in_queue(x_player) && !pre.spec_in_queue(o_player));
                    assert(pre.queue@.contains(pre.queue@[k]));
                }
            }
        }
    }

    /// Removes the live game with id `game`, if it exists; the queue and the
    /// other games are untouched.
    pub fn remove_game(&mut self, game: GameId)
        requires
            old(self).wf(),
        ensures
            final(self).wf(),
            final(self).queue == old(self).queue,
            old(self).spec_has_game(game) ==> exists|i: int|
                0 <= i < old(self).games@.len() && (#[trigger] old(self).games@[i]).game == game
                    && final(self).games@ == old(self).games@.remove(i),
            !old(self).spec_has_game(game) ==> final(self).games@ == old(self).games@,
            forall|p: PlayerId| final(self).spec_in_game(p) ==> old(self).spec_in_game(p),
            !final(self).spec_has_game(game),
    {
        let ghost pre = *self;
        let mut i: usize = 0;
        while i < self.games.len()
            invariant
                *self == pre,
                pre == *old(self),
                self.wf(),
                i <= self.games@.len(),
                forall|m: int| 0 <= m < i ==> (#[trigger] self.games@[m]).game != game,
            decreases self.games@.len() - i,
        {
            if self.games[i].game == game {
                self.games.remove(i);
                proof {
                    let old_games = pre.games@;
                    let new_games = self.games@;
                    assert(new_games == old_games.remove(i as int));
                    assert forall|m: int|
                        0 <= m < new_games.len() implies #[trigger] new_games[m] == (if m < i {
                        old_games[m]
                    } else {
                        old_games[m + 1]
                    }) by {}
                    assert forall|m: int|
                        0 <= m < new_games.len() implies (#[trigger] new_games[m]).game
                            != game by {}
                    assert(self.wf());
                    assert forall|p: PlayerId|
                        self.spec_in_game(p) implies pre.spec_in_game(p) by {
                        let m = choose|m: int|
                            0 <= m < new_games.len() && (#[trigger] new_games[m]).has_player(p);
                        if m < i {
                            assert(old_games[m].has_player(p));
                        } else {
                            assert(old_games[m + 1].has_player(p));
                        }
                    }
                }
                return ;
            }
            i += 1;
        }
        proof {
            assert(!pre.spec_has_game(game));
        }
    }

    /// Appends a player to the back of the matchmaking queue. The player may
    /// not already be playing or waiting.
    pub fn add_user(&mut self, player: PlayerId)
        requires
            old(self).wf(),
            !old(self).spec_in_queue(player),
            !old(self).spec_in_game(player),
        ensures
            final(self).wf(),
            final(self).queue@ == old(self).queue@.push(player),
            final(self).games == old(self).games,
    {
        let ghost pre = *self;
        self.queue.push(player);
        proof {
            let n = self.queue@.len() - 1;
            assert forall|k1: int, k2: int|
                0 <= k1 < k2 < self.queue@.len() implies self.queue@[k1] != self.queue@[k2] by {
                if k2 == n {
                    assert(pre.queue@.contains(pre.queue@[k1]));
                }
            }
            assert forall|k: int, i: int|
                0 <= k < self.queue@.len() && 0 <= i < self.games@.len() implies !(
            #[trigger] self.games@[i]).has_player(#[trigger] self.queue@[k]) by {
                if k == n {
                    assert(!pre.spec_in_game(player));
                } else {
                    assert(!pre.games@[i].has_player(pre.queue@[k]));
                }
            }
        }
    }

    /// Removes and returns the longest-waiting player, the queue's front.
    pub fn pop_front(&mut self) -> (r: Option<PlayerId>)
        requires
            old(self).wf(),
        ensures
            final(self).wf(),
            final(self).games == old(self).games,
            old(self).queue@.len() == 0 ==> r is None && final(self).queue == old(self).queue,
            old(self).queue@.len() > 0 ==> r == Some(old(self).queue@[0]) && final(self).queue@
                == old(self).queue@.drop_first(),
    {
        if self.queue.len() == 0 {
            return None;
        }
        let p = self.queue.remove(0);
        proof {
            assert(self.queue@ =~= old(self).queue@.drop_first());
        }
        Some(p)
    }

    /// Removes a player from the matchmaking queue, if present; used when a
    /// waiting player disconnects.
    pub fn remove_user(&mut self, player: PlayerId)
        requires
            old(self).wf(),
        ensures
            final(self).wf(),
            final(self).games == old(self).games,
            old(self).spec_in_queue(player) ==> exists|k: int|
                0 <= k < old(self).queue@.len() && old(self).queue@[k] == player
                    && final(self).queue@ == old(self).queue@.remove(k),
            !old(self).spec_in_queue(player) ==> final(self).queue@ == old(self).queue@,
            !final(self).spec_in_queue(player),
    {
        let ghost pre = *self;
        let mut k: usize = 0;
        while k < self.queue.len()
            invariant
                *self == pre,
                pre == *old(self),
                self.wf(),
                k <= self.queue@.len(),
                forall|m: int| 0 <= m < k ==> self.queue@[m] != player,
            decreases self.queue@.len() - k,
        {
            if self.queue[k] == player {
                self.queue.remove(k);
                proof {
                    let old_q = pre.queue@;
                    let new_q = self.queue@;
                    assert(new_q == old_q.remove(k as int));
                    assert forall|m: int|
                        0 <= m < new_q.len() implies #[trigger] new_q[m] == (if m < k {
                        old_q[m]
                    } else {
                        old_q[m + 1]
                    }) by {}
                    assert forall|m: int| 0 <= m < new_q.len() implies new_q[m] != player by {}
                    assert(self.wf());
                    if self.spec_in_queue(player) {
                        let m = choose|m: int| 0 <= m < new_q.len() && new_q[m] == player;
                        assert(false);
                    }
                }
                return ;
            }
            k += 1;
        }
        proof {
            assert(!pre.spec_in_queue(player));
        }
    }

    /// Looks up the live game of a player: the game's id and the opponent.
    pub fn get_user_game(&self, player: PlayerId) -> (r: Option<(GameId, PlayerId)>)
        ensures
            r is Some <==> self.spec_in_game(player),
            r matches Some((g, opp)) ==> exists|i: int|
                0 <= i < self.games@.len() && (#[trigger] self.games@[i]).game == g && ((
                self.games@[i].x_player == player && self.games@[i].o_player == opp) || (
                self.games@[i].o_player == player && self.games@[i].x_player == opp)),
    {
        let mut i: usize = 0;
        while i < self.games.len()
            invariant
                i <= self.games@.len(),
                forall|m: int| 0 <= m < i ==> !(#[trigger] self.games@[m]).has_player(player),
            decreases self.games@.len() - i,
        {
            let e = self.games[i];
            if e.x_player == player {
                return Some((e.game, e.o_player));
            }
            if e.o_player == player {
                return Some((e.game, e.x_player));
            }
            i += 1;
        }
        None
    }

    /// Looks up both players of a live game by its id: the `X` player and
    /// the `O` player.
    pub fn get_game_players(&self, game: GameId) -> (r: Option<(PlayerId, PlayerId)>)
        ensures
            r is Some <==> self.spec_has_game(game),
            r matches Some((x, o)) ==> exists|i: int|
                0 <= i < self.games@.len() && #[trigger] self.games@[i] == (GameEntry {
                    game,
                    x_player: x,
                    o_player: o,
                }),
    {
        let mut i: usize = 0;
        while i < self.games.len()
            invariant
                i <= self.games@.len(),
                forall|m: int| 0 <= m < i ==> (#[trigger] self.games@[m]).game != game,
            decreases self.games@.len() - i,
        {
            let e = self.games[i];
            if e.game == game {
                return Some((e.x_player, e.o_player));
            }
            i += 1;
        }
        None
    }

    /// The player is in some live game.
    pub fn is_user_in_game(&self, player: PlayerId) -> (r: bool)
        ensures
            r == self.spec_in_game(player),
    {
        let mut i: usize = 0;
        while i < self.games.len()
            invariant
                i <= self.games@.len(),
                forall|m: int| 0 <= m < i ==> !(#[trigger] self.games@[m]).has_player(player),
            decreases self.games@.len() - i,
        {
            let e = self.games[i];
            if e.x_player == player || e.o_player == player {
                return true;
            }
            i += 1;
        }
        false
    }

    /// How many games are live.
    pub fn online_games_count(&self) -> (r: usize)
        ensures
            r == self.games@.len(),
    {
        self.games.len()
    }

    /// The player is waiting in the matchmaking queue.
    pub fn is_user_in_search(&self, player: PlayerId) -> (r: bool)
        ensures
            r == self.spec_in_queue(player),
    {
        let mut k: usize = 0;
        while k < self.queue.len()
            invariant
                k <= self.queue@.len(),
                forall|m: int| 0 <= m < k ==> self.queue@[m] != player,
            decreases self.queue@.len() - k,
        {
            if self.queue[k] == player {
                return true;
            }
            k += 1;
        }
        false
    }

    /// How many players are waiting.
    pub fn search_users_count(&self) -> (r: usize)
        ensures
            r == self.queue@.len(),
    {
        self.queue.len()
    }
}

/// In a well-formed registry no player is both live and waiting: being in a
/// game and being in the matchmaking queue exclude each other.
pub proof fn lemma_game_and_search_exclusive(r: Registry, p: PlayerId)
    requires
        r.wf(),
    ensures
        !(r.spec_in_game(p) && r.spec_in_queue(p)),
{
    if r.spec_in_game(p) && r.spec_in_queue(p) {
        let i = choose|i: int| 0 <= i < r.games@.len() && (#[trigger] r.games@[i]).has_player(p);
        let k = choose|k: int| 0 <= k < r.queue@.len() && r.queue@[k] == p;
        assert(!r.games@[i].has_player(r.queue@[k]));
    }
}

} // verus!
