use xors::board::XoSymbol;
use xors::engine::{
    check_move_validity, game_over_data, play, player_disconnected, search_for_game,
    DisconnectOutcome, MoveReport, PlayOutcome, SearchOutcome,
};
use xors::events::{ErrorData, GameOverReason, XoServerEventData};
use xors::record::GameRecord;
use xors::registry::Registry;

const NOW: i64 = 1_000;
const PERIOD: i64 = 30;
const MAX_GAMES: usize = 10;

const ALICE: u128 = 1;
const BOB: u128 = 2;
const CAROL: u128 = 3;
const DAVE: u128 = 4;

fn matched_game(reg: &mut Registry, first: u128, second: u128, game_id: u128) -> GameRecord {
    match search_for_game(reg, first, MAX_GAMES, PERIOD, NOW, game_id + 1_000) {
        SearchOutcome::Queued => {}
        other => panic!("first searcher should queue, got {other:?}"),
    }
    match search_for_game(reg, second, MAX_GAMES, PERIOD, NOW, game_id) {
        SearchOutcome::Matched { game, .. } => game,
        other => panic!("second searcher should match, got {other:?}"),
    }
}

fn expect_moved(outcome: PlayOutcome) -> MoveReport {
    match outcome {
        PlayOutcome::Moved(rep) => rep,
        PlayOutcome::Rejected(e) => panic!("move should be accepted, got {e:?}"),
    }
}

#[test]
fn matchmaking_pairs_waiter_as_first_mover() {
    let mut reg = Registry::new();
    assert!(matches!(
        search_for_game(&mut reg, ALICE, MAX_GAMES, PERIOD, NOW, 7),
        SearchOutcome::Queued
    ));
    assert_eq!(reg.search_users_count(), 1);
    let outcome = search_for_game(&mut reg, BOB, MAX_GAMES, PERIOD, NOW, 7);
    let SearchOutcome::Matched { game, messages } = outcome else {
        panic!("expected a match");
    };
    assert_eq!(game.uuid, 7);
    assert_eq!(game.x_player, ALICE);
    assert_eq!(game.o_player, BOB);
    assert_eq!(game.round, 1);
    assert_eq!(game.auto_play_after, Some(NOW + PERIOD));
    assert_eq!(reg.search_users_count(), 0);
    assert_eq!(reg.online_games_count(), 1);
    assert!(reg.is_user_in_game(ALICE));
    assert!(reg.is_user_in_game(BOB));
    assert_eq!(messages.len(), 5);
    assert!(matches!(
        &messages[0].data,
        XoServerEventData::GameFound { x_player: 1, o_player: 2 }
    ));
    assert_eq!(messages[0].recipient, ALICE);
    assert_eq!(messages[1].recipient, BOB);
    assert!(matches!(&messages[2].data, XoServerEventData::RoundStart { round: 1 }));
    assert!(matches!(&messages[3].data, XoServerEventData::RoundStart { round: 1 }));
    assert_eq!(messages[4].recipient, ALICE);
    assert!(matches!(
        &messages[4].data,
        XoServerEventData::YourTurn { auto_play_after } if *auto_play_after == NOW + PERIOD
    ));
}

#[test]
fn queue_is_first_come_first_served() {
    let mut reg = Registry::new();
    for p in [ALICE, BOB, CAROL] {
        reg.add_user(p);
    }
    let partners = [DAVE, 5, 6];
    let expected = [ALICE, BOB, CAROL];
    for (k, p) in partners.iter().enumerate() {
        let outcome = search_for_game(&mut reg, *p, MAX_GAMES, PERIOD, NOW, 200 + k as u128);
        let SearchOutcome::Matched { game, .. } = outcome else {
            panic!("searcher {p} should match");
        };
        assert_eq!(game.x_player, expected[k], "searchers pair in queue order");
        assert_eq!(game.o_player, *p);
    }
}

#[test]
fn search_rejections_in_order() {
    let mut reg = Registry::new();
    let _game = matched_game(&mut reg, ALICE, BOB, 7);
    assert!(matches!(
        search_for_game(&mut reg, ALICE, MAX_GAMES, PERIOD, NOW, 8),
        SearchOutcome::Rejected(ErrorData::AlreadyInGame)
    ));
    assert!(matches!(
        search_for_game(&mut reg, CAROL, 1, PERIOD, NOW, 8),
        SearchOutcome::Rejected(ErrorData::MaxGamesReached)
    ));
    assert!(matches!(
        search_for_game(&mut reg, CAROL, MAX_GAMES, PERIOD, NOW, 8),
        SearchOutcome::Queued
    ));
    assert!(matches!(
        search_for_game(&mut reg, CAROL, MAX_GAMES, PERIOD, NOW, 8),
        SearchOutcome::Rejected(ErrorData::AlreadyInSearch)
    ));
}

#[test]
fn move_validity_is_checked_in_order() {
    let mut reg = Registry::new();
    let mut game = matched_game(&mut reg, ALICE, BOB, 7);
    assert!(matches!(
        check_move_validity(&game.board, XoSymbol::O, 0),
        Some(ErrorData::NotYourTurn)
    ));
    assert!(matches!(
        check_move_validity(&game.board, XoSymbol::X, 9),
        Some(ErrorData::InvalidPlace)
    ));
    assert!(check_move_validity(&game.board, XoSymbol::X, 0).is_none());
    let rep = expect_moved(play(&mut reg, &mut game, ALICE, 0, NOW, PERIOD));
    assert!(rep.game_over.is_none());
    assert!(matches!(
        check_move_validity(&game.board, XoSymbol::O, 0),
        Some(ErrorData::InvalidPlace)
    ));
    // Playing twice in a row is out of turn.
    assert!(matches!(
        play(&mut reg, &mut game, ALICE, 1, NOW, PERIOD),
        PlayOutcome::Rejected(ErrorData::NotYourTurn)
    ));
}

#[test]
fn accepted_move_notifies_opponent() {
    let mut reg = Registry::new();
    let mut game = matched_game(&mut reg, ALICE, BOB, 7);
    let rep = expect_moved(play(&mut reg, &mut game, ALICE, 4, NOW + 1, PERIOD));
    assert_eq!(rep.messages.len(), 2);
    assert_eq!(rep.messages[0].recipient, BOB);
    assert!(matches!(
        &rep.messages[0].data,
        XoServerEventData::Play(p) if p.place == 4 && p.player == ALICE
    ));
    assert_eq!(rep.messages[1].recipient, BOB);
    assert!(matches!(
        &rep.messages[1].data,
        XoServerEventData::YourTurn { auto_play_after } if *auto_play_after == NOW + 1 + PERIOD
    ));
    assert_eq!(game.auto_play_after, Some(NOW + 1 + PERIOD));
}

/// First mover takes cells 0, 1, 2 while the second mover answers 3 and 4:
/// the round ends 1-0 with a round-end then round-start pair.
#[test]
fn basic_round_win() {
    let mut reg = Registry::new();
    let mut game = matched_game(&mut reg, ALICE, BOB, 7);
    for (p, c) in [(ALICE, 0), (BOB, 3), (ALICE, 1), (BOB, 4)] {
        expect_moved(play(&mut reg, &mut game, p, c, NOW, PERIOD));
    }
    let rep = expect_moved(play(&mut reg, &mut game, ALICE, 2, NOW, PERIOD));
    assert!(rep.game_over.is_none());
    assert_eq!(game.rounds_result.x_player, 1);
    assert_eq!(game.rounds_result.o_player, 0);
    assert_eq!(game.rounds_result.draws, 0);
    assert_eq!(game.round, 2);
    assert_eq!(rep.messages.len(), 6);
    assert!(matches!(
        &rep.messages[1].data,
        XoServerEventData::RoundEnd(rd) if rd.round == 1 && rd.winner == Some(ALICE)
    ));
    assert!(matches!(&rep.messages[2].data, XoServerEventData::RoundEnd(_)));
    assert!(matches!(&rep.messages[3].data, XoServerEventData::RoundStart { round: 2 }));
    assert!(matches!(&rep.messages[4].data, XoServerEventData::RoundStart { round: 2 }));
    // The first mover opens the new round.
    assert_eq!(rep.messages[5].recipient, ALICE);
    assert!(matches!(&rep.messages[5].data, XoServerEventData::YourTurn { .. }));
    // The new round's board is empty again.
    assert_eq!(game.board.empty_cells().len(), 9);
}

/// The classic nine-move draw: the round is a draw for both symbols.
#[test]
fn draw_round() {
    let mut reg = Registry::new();
    let mut game = matched_game(&mut reg, ALICE, BOB, 7);
    let order: [u8; 9] = [0, 1, 2, 4, 3, 5, 7, 6, 8];
    for (k, &c) in order.iter().enumerate() {
        let mover = if k % 2 == 0 { ALICE } else { BOB };
        let rep = expect_moved(play(&mut reg, &mut game, mover, c, NOW, PERIOD));
        if k == 8 {
            assert!(rep.game_over.is_none());
            assert!(matches!(
                &rep.messages[1].data,
                XoServerEventData::RoundEnd(rd) if rd.round == 1 && rd.winner.is_none()
            ));
        }
    }
    assert_eq!(game.rounds_result.draws, 1);
    assert_eq!(game.rounds_result.x_player, 0);
    assert_eq!(game.rounds_result.o_player, 0);
    assert_eq!(game.round, 2);
}

/// Two straight round wins for the first mover end the series after round
/// two, without a third round, with reason "player won".
#[test]
fn series_ends_after_two_straight_wins() {
    let mut reg = Registry::new();
    let mut game = matched_game(&mut reg, ALICE, BOB, 7);
    let two_rounds = [
        [(ALICE, 0u8), (BOB, 3), (ALICE, 1), (BOB, 4), (ALICE, 2)],
        [(ALICE, 0u8), (BOB, 3), (ALICE, 1), (BOB, 4), (ALICE, 2)],
    ];
    let mut last = None;
    for round in two_rounds {
        for (p, c) in round {
            last = Some(expect_moved(play(&mut reg, &mut game, p, c, NOW, PERIOD)));
        }
    }
    let rep = last.expect("moves were played");
    let over = rep.game_over.expect("the series is decided after round two");
    assert_eq!(over.winner, Some(ALICE));
    assert!(matches!(over.reason, GameOverReason::PlayerWon));
    assert_eq!(game.round, 2, "round three is never played");
    assert_eq!(game.rounds_result.x_player, 2);
    assert_eq!(game.ended_at, Some(NOW));
    assert_eq!(game.winner, Some(ALICE));
    assert_eq!(game.auto_play_after, None);
    assert_eq!(reg.online_games_count(), 0, "a finished game leaves the registry");
    assert!(matches!(
        &rep.messages[1].data,
        XoServerEventData::GameOver(g) if g.winner == Some(ALICE)
    ));
    assert!(matches!(&rep.messages[2].data, XoServerEventData::GameOver(_)));
}

/// A split series plays all three rounds and the better tally wins.
#[test]
fn split_series_goes_to_round_three() {
    let mut reg = Registry::new();
    let mut game = matched_game(&mut reg, ALICE, BOB, 7);
    // Round 1: X wins 0,1,2.
    for (p, c) in [(ALICE, 0u8), (BOB, 3), (ALICE, 1), (BOB, 4), (ALICE, 2)] {
        expect_moved(play(&mut reg, &mut game, p, c, NOW, PERIOD));
    }
    // Round 2: O wins 3,4,5 while X wanders.
    for (p, c) in [(ALICE, 0u8), (BOB, 3), (ALICE, 1), (BOB, 4), (ALICE, 8), (BOB, 5)] {
        expect_moved(play(&mut reg, &mut game, p, c, NOW, PERIOD));
    }
    assert_eq!(game.round, 3);
    // Round 3: X wins 2,5,8.
    let mut last = None;
    for (p, c) in [(ALICE, 2u8), (BOB, 0), (ALICE, 5), (BOB, 1), (ALICE, 8)] {
        last = Some(expect_moved(play(&mut reg, &mut game, p, c, NOW, PERIOD)));
    }
    let over = last.unwrap().game_over.expect("round three decides the series");
    assert_eq!(over.winner, Some(ALICE));
    assert_eq!(game.rounds_result.x_player, 2);
    assert_eq!(game.rounds_result.o_player, 1);
    assert_eq!(game.rounds_result.boards.len(), 3);
}

#[test]
fn level_series_is_a_draw() {
    let mut rr = xors::rounds::RoundsResult::new();
    rr.add_win(XoSymbol::X);
    rr.add_win(XoSymbol::O);
    let god = game_over_data(&rr, ALICE, BOB);
    assert_eq!(god.winner, None);
    assert!(matches!(god.reason, GameOverReason::Draw));
    rr.add_win(XoSymbol::O);
    let god = game_over_data(&rr, ALICE, BOB);
    assert_eq!(god.winner, Some(BOB));
    assert!(matches!(god.reason, GameOverReason::PlayerWon));
}

/// Disconnecting mid-game forfeits to the opponent and clears the game
/// from the live registry.
#[test]
fn disconnect_mid_game_forfeits() {
    let mut reg = Registry::new();
    let mut game = matched_game(&mut reg, ALICE, BOB, 7);
    expect_moved(play(&mut reg, &mut game, ALICE, 0, NOW, PERIOD));
    let outcome = player_disconnected(&mut reg, ALICE);
    let DisconnectOutcome::GameForfeited { game: gid, opponent, messages } = outcome else {
        panic!("a live player's disconnect forfeits the game");
    };
    assert_eq!(gid, 7);
    assert_eq!(opponent, BOB);
    assert_eq!(messages.len(), 1);
    assert_eq!(messages[0].recipient, BOB);
    assert!(matches!(
        &messages[0].data,
        XoServerEventData::GameOver(g)
            if g.winner == Some(BOB) && matches!(g.reason, GameOverReason::PlayerDisconnected)
    ));
    assert_eq!(reg.online_games_count(), 0);
    assert!(!reg.is_user_in_game(ALICE));
    assert!(!reg.is_user_in_game(BOB));
}

#[test]
fn disconnect_while_waiting_leaves_queue() {
    let mut reg = Registry::new();
    assert!(matches!(
        search_for_game(&mut reg, ALICE, MAX_GAMES, PERIOD, NOW, 7),
        SearchOutcome::Queued
    ));
    assert!(matches!(
        player_disconnected(&mut reg, ALICE),
        DisconnectOutcome::RemovedFromSearch
    ));
    assert_eq!(reg.search_users_count(), 0);
    assert!(matches!(player_disconnected(&mut reg, ALICE), DisconnectOutcome::NotPresent));
}

#[test]
fn player_never_both_live_and_queued() {
    let mut reg = Registry::new();
    let _game = matched_game(&mut reg, ALICE, BOB, 7);
    assert!(matches!(
        search_for_game(&mut reg, CAROL, MAX_GAMES, PERIOD, NOW, 8),
        SearchOutcome::Queued
    ));
    for p in [ALICE, BOB, CAROL] {
        assert!(
            !(reg.is_user_in_game(p) && reg.is_user_in_search(p)),
            "player {p} must not be both live and queued"
        );
    }
}
