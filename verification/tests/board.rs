use xors::board::{Board, XoSymbol};

fn filled(moves: &[(u8, XoSymbol)]) -> Board {
    let mut b = Board::new();
    for &(i, s) in moves {
        b.set_cell(i, s);
    }
    b
}

#[test]
fn turn_alternates_with_parity() {
    let mut b = Board::new();
    assert!(matches!(b.turn(), XoSymbol::X));
    b.set_cell(4, XoSymbol::X);
    assert!(matches!(b.turn(), XoSymbol::O));
    b.set_cell(0, XoSymbol::O);
    assert!(matches!(b.turn(), XoSymbol::X));
    b.set_cell(8, XoSymbol::X);
    assert!(matches!(b.turn(), XoSymbol::O));
}

#[test]
fn default_board_is_empty() {
    let b = Board::default();
    assert_eq!(b.to_bytes(), b"---------:".to_vec());
}

#[test]
fn empty_board_is_open() {
    let b = Board::new();
    assert!(!b.is_full());
    assert!(!b.is_draw());
    assert!(!b.is_end());
    assert!(!b.is_win(XoSymbol::X));
    assert!(!b.is_win(XoSymbol::O));
    assert_eq!(b.empty_cells(), vec![0, 1, 2, 3, 4, 5, 6, 7, 8]);
}

#[test]
fn win_detection_covers_all_eight_triples() {
    let triples: [[u8; 3]; 8] = [
        [0, 1, 2],
        [3, 4, 5],
        [6, 7, 8],
        [0, 3, 6],
        [1, 4, 7],
        [2, 5, 8],
        [0, 4, 8],
        [2, 4, 6],
    ];
    for t in triples {
        let mut b = Board::new();
        for &i in &t {
            b.set_cell(i, XoSymbol::O);
        }
        assert!(b.is_win(XoSymbol::O), "triple {t:?} should win for O");
        assert!(!b.is_win(XoSymbol::X), "triple {t:?} should not win for X");
        assert!(b.is_end());
        assert!(!b.is_draw());
    }
}

#[test]
fn no_win_on_broken_line() {
    let b = filled(&[(0, XoSymbol::X), (1, XoSymbol::X), (2, XoSymbol::O)]);
    assert!(!b.is_win(XoSymbol::X));
    assert!(!b.is_win(XoSymbol::O));
    assert!(!b.is_end());
}

#[test]
fn classic_draw_sequence() {
    // Moves 0,1,2,4,3,5,7,6,8 alternating X and O end in a draw.
    let order: [u8; 9] = [0, 1, 2, 4, 3, 5, 7, 6, 8];
    let mut b = Board::new();
    for (k, &i) in order.iter().enumerate() {
        let s = if k % 2 == 0 { XoSymbol::X } else { XoSymbol::O };
        b.set_cell(i, s);
    }
    assert!(b.is_full());
    assert!(b.is_draw());
    assert!(!b.is_win(XoSymbol::X));
    assert!(!b.is_win(XoSymbol::O));
    assert!(b.is_end());
    assert!(b.empty_cells().is_empty());
}

#[test]
fn empty_cells_ascending_and_exact() {
    let b = filled(&[(4, XoSymbol::X), (0, XoSymbol::O), (8, XoSymbol::X)]);
    assert_eq!(b.empty_cells(), vec![1, 2, 3, 5, 6, 7]);
    assert!(b.is_empty_cell(1));
    assert!(!b.is_empty_cell(4));
}

#[test]
fn serialize_empty_board() {
    let b = Board::new();
    assert_eq!(b.to_bytes(), b"---------:".to_vec());
}

#[test]
fn serialize_moves_in_order() {
    let b = filled(&[(4, XoSymbol::X), (0, XoSymbol::O), (8, XoSymbol::X)]);
    assert_eq!(b.to_bytes(), b"O---X---X:408".to_vec());
}

#[test]
fn parse_round_trips_board() {
    let b = filled(&[(4, XoSymbol::X), (0, XoSymbol::O), (8, XoSymbol::X), (1, XoSymbol::O)]);
    let bytes = b.to_bytes();
    let back = Board::parse(&bytes).expect("serialized board parses");
    assert_eq!(back.to_bytes(), bytes);
    assert!(!back.is_empty_cell(4));
    assert!(!back.is_empty_cell(0));
    assert!(matches!(back.turn(), XoSymbol::X));
}

#[test]
fn parse_full_example() {
    let b = Board::parse(b"XOXOXOXOX:031246587").expect("example is valid");
    assert!(b.is_full());
    assert_eq!(b.to_bytes(), b"XOXOXOXOX:031246587".to_vec());
}

#[test]
fn parse_rejects_malformed_boards() {
    assert!(Board::parse(b"").is_none());
    assert!(Board::parse(b"---------").is_none(), "missing colon");
    assert!(Board::parse(b"--------:0").is_none(), "eight cells");
    assert!(Board::parse(b"----------:").is_none(), "ten cells");
    assert!(Board::parse(b"X--------:9").is_none(), "index out of range");
    assert!(Board::parse(b"X--------:a").is_none(), "non-digit play");
    assert!(Board::parse(b"X--------:00").is_none(), "repeated play");
    assert!(Board::parse(b"---------:0").is_none(), "played cell empty");
    assert!(Board::parse(b"Z--------:0").is_none(), "played cell not a symbol");
    assert!(Board::parse(b"X--------:0123456780").is_none(), "too many plays");
}

#[test]
fn parse_ignores_unplayed_junk_cells() {
    // Cells that the play order never names are rebuilt as empty.
    let b = Board::parse(b"X-------Z:0").expect("junk in unplayed cell is tolerated");
    assert_eq!(b.to_bytes(), b"X--------:0".to_vec());
}
