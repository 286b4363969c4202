use chess_session::board::{Color, Piece, Tile, to_fen};
use chess_session::coords::{MoveError, from_move_string, make_move_string};

fn initial_grid() -> [[Tile; 8]; 8] {
    let mut g = [[Tile::Empty; 8]; 8];
    let back = [
        Piece::Rook,
        Piece::Knight,
        Piece::Bishop,
        Piece::Queen,
        Piece::King,
        Piece::Bishop,
        Piece::Knight,
        Piece::Rook,
    ];
    for c in 0..8 {
        g[0][c] = Tile::Occupied(Color::Black, back[c]);
        g[1][c] = Tile::Occupied(Color::Black, Piece::Pawn);
        g[6][c] = Tile::Occupied(Color::White, Piece::Pawn);
        g[7][c] = Tile::Occupied(Color::White, back[c]);
    }
    g
}

#[test]
fn fen_of_initial_position() {
    let g = initial_grid();
    assert_eq!(
        to_fen(&g),
        b"rnbqkbnr/pppppppp/8/8/8/8/PPPPPPPP/RNBQKBNR".to_vec()
    );
}

#[test]
fn fen_of_empty_board() {
    let g = [[Tile::Empty; 8]; 8];
    assert_eq!(to_fen(&g), b"8/8/8/8/8/8/8/8".to_vec());
}

#[test]
fn fen_compresses_empty_runs() {
    let mut g = [[Tile::Empty; 8]; 8];
    g[3][2] = Tile::Occupied(Color::White, Piece::Knight);
    g[3][5] = Tile::Occupied(Color::Black, Piece::Queen);
    g[7][7] = Tile::Occupied(Color::White, Piece::King);
    assert_eq!(to_fen(&g), b"8/8/8/2N2q2/8/8/8/7K".to_vec());
}

#[test]
fn fen_renders_ghost_pawn_as_pawn() {
    // A two-square advance leaves a ghost marker on the skipped
    // square; the fingerprint must not distinguish it from a pawn.
    let mut a = [[Tile::Empty; 8]; 8];
    let mut b = [[Tile::Empty; 8]; 8];
    a[5][4] = Tile::Occupied(Color::White, Piece::GhostPawn);
    b[5][4] = Tile::Occupied(Color::White, Piece::Pawn);
    a[2][0] = Tile::Occupied(Color::Black, Piece::GhostPawn);
    b[2][0] = Tile::Occupied(Color::Black, Piece::Pawn);
    assert_eq!(to_fen(&a), to_fen(&b));
    assert_eq!(to_fen(&a), b"8/8/p7/8/8/4P3/8/8".to_vec());
}

#[test]
fn move_string_of_e2_e4() {
    // e2 is column 4, row 6; e4 is column 4, row 4.
    assert_eq!(make_move_string(4, 6, 4, 4, true), b"E2E4Q".to_vec());
    assert_eq!(make_move_string(4, 6, 4, 4, false), b"E2E4q".to_vec());
}

#[test]
fn move_string_round_trip() {
    for (fc, fr, tc, tr) in [(0, 0, 7, 7), (4, 6, 4, 4), (3, 7, 7, 3)] {
        let s = make_move_string(fc, fr, tc, tr, true);
        assert_eq!(from_move_string(&s), Ok((fc, fr, tc, tr, b'Q')));
        let s = make_move_string(fc, fr, tc, tr, false);
        assert_eq!(from_move_string(&s), Ok((fc, fr, tc, tr, b'q')));
    }
}

#[test]
fn move_string_accepts_lower_case_files() {
    assert_eq!(from_move_string(b"e2e4q"), Ok((4, 6, 4, 4, b'q')));
}

#[test]
fn move_string_rejects_bad_input() {
    assert_eq!(from_move_string(b"I2E4Q"), Err(MoveError::BadMoveString));
    assert_eq!(from_move_string(b"E0E4Q"), Err(MoveError::BadMoveString));
    assert_eq!(from_move_string(b"E2E9Q"), Err(MoveError::BadMoveString));
    assert_eq!(from_move_string(b"E2E4"), Err(MoveError::BadMoveString));
    assert_eq!(from_move_string(b""), Err(MoveError::BadMoveString));
}
