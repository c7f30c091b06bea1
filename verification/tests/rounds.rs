use xors::board::{Board, XoSymbol};
use xors::rounds::RoundsResult;

fn won_board(triple: [u8; 3], winner: XoSymbol) -> Board {
    let mut b = Board::new();
    b.set_cell(triple[0], winner);
    b.set_cell(triple[1], winner);
    b.set_cell(triple[2], winner);
    b
}

#[test]
fn wins_reads_the_tally_per_symbol() {
    let mut rr = RoundsResult::new();
    assert_eq!(rr.wins(XoSymbol::X), 0);
    assert_eq!(rr.wins(XoSymbol::O), 0);
    rr.add_win(XoSymbol::X);
    rr.add_win(XoSymbol::X);
    rr.add_win(XoSymbol::O);
    assert_eq!(rr.wins(XoSymbol::X), 2);
    assert_eq!(rr.wins(XoSymbol::O), 1);
    assert_eq!(rr.draws, 0);
}

#[test]
fn add_board_archives_concluded_rounds() {
    let mut rr = RoundsResult::new();
    rr.add_win(XoSymbol::X);
    rr.add_board(won_board([0, 1, 2], XoSymbol::X));
    assert_eq!(rr.boards.len(), 1);
}

#[test]
fn default_tally_is_empty() {
    let rr = RoundsResult::default();
    assert_eq!(rr.to_bytes(), b" ".to_vec());
}

#[test]
fn serialize_empty_tally() {
    let rr = RoundsResult::new();
    assert_eq!(rr.to_bytes(), b" ".to_vec());
}

#[test]
fn serialize_tally_with_boards() {
    let mut rr = RoundsResult::new();
    rr.add_win(XoSymbol::X);
    rr.add_board(won_board([0, 1, 2], XoSymbol::X));
    rr.add_win(XoSymbol::O);
    rr.add_board(won_board([3, 4, 5], XoSymbol::O));
    assert_eq!(rr.to_bytes(), b"XO XXX------:012,---OOO---:345".to_vec());
}

#[test]
fn parse_round_trips_tally() {
    let mut rr = RoundsResult::new();
    rr.add_win(XoSymbol::X);
    rr.add_board(won_board([0, 4, 8], XoSymbol::X));
    let bytes = rr.to_bytes();
    let back = RoundsResult::parse(&bytes).expect("serialized tally parses");
    assert_eq!(back.to_bytes(), bytes);
    assert_eq!(back.wins(XoSymbol::X), 1);
    assert_eq!(back.wins(XoSymbol::O), 0);
    assert_eq!(back.draws, 0);
    assert_eq!(back.boards.len(), 1);
}

#[test]
fn parse_empty_tally() {
    let rr = RoundsResult::parse(b" ").expect("the empty tally parses");
    assert_eq!(rr.wins(XoSymbol::X), 0);
    assert_eq!(rr.wins(XoSymbol::O), 0);
    assert_eq!(rr.draws, 0);
    assert_eq!(rr.boards.len(), 0);
}

#[test]
fn parse_rejects_malformed_tallies() {
    assert!(RoundsResult::parse(b"").is_none(), "no space");
    assert!(RoundsResult::parse(b"XO").is_none(), "no space after tally");
    assert!(RoundsResult::parse(b"A ").is_none(), "stray tally character");
    assert!(
        RoundsResult::parse(b"X ").is_none(),
        "a counted win must come with its board"
    );
    assert!(
        RoundsResult::parse(b" XXX------:012").is_none(),
        "a listed board must be counted"
    );
    assert!(
        RoundsResult::parse(b"X X--------:0").is_none(),
        "an archived round must have concluded"
    );
    assert!(RoundsResult::parse(b"X bad").is_none(), "board must parse");
    assert!(
        RoundsResult::parse(b"XXXX XXX------:012,XXX------:012,XXX------:012,XXX------:012")
            .is_none(),
        "at most three rounds"
    );
}
