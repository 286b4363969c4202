use chess_session::board::{Color, Piece, Tile};
use chess_session::codec::{MSG_SIZE, make_msg, make_quit_msg};
use chess_session::session::{
    EndReason, FrameStep, GameEnd, LegalStep, MoveQuery, Pending, Session, end_message,
};

fn initial_grid() -> [[Tile; 8]; 8] {
    let mut g = [[Tile::Empty; 8]; 8];
    let back = [
        Piece::Rook,
        Piece::Knight,
        Piece::Bishop,
        Piece::Queen,
        Piece::King,
        Piece::Bishop,
        Piece::Knight,
        Piece::Rook,
    ];
    for c in 0..8 {
        g[0][c] = Tile::Occupied(Color::Black, back[c]);
        g[1][c] = Tile::Occupied(Color::Black, Piece::Pawn);
        g[6][c] = Tile::Occupied(Color::White, Piece::Pawn);
        g[7][c] = Tile::Occupied(Color::White, back[c]);
    }
    g
}

fn ongoing() -> GameEnd {
    GameEnd { is_checkmate: false, is_white: false, is_stalemate: false }
}

fn apply_move(g: &mut [[Tile; 8]; 8], q: &MoveQuery) {
    g[q.tr][q.tc] = g[q.fr][q.fc];
    g[q.fr][q.fc] = Tile::Empty;
}

/// Drive one local ply: click the source square `(fr, fc)` and the
/// target `(tr, tc)`, answer the legality query with `true`, apply the
/// move on `g` and report `end`. Returns the emitted frame.
fn play_local(
    s: &mut Session,
    g: &mut [[Tile; 8]; 8],
    fr: usize,
    fc: usize,
    tr: usize,
    tc: usize,
    end: GameEnd,
) -> Vec<u8> {
    assert!(s.handle_click(fr, fc).is_none());
    let q = s.handle_click(tr, tc).expect("second click should query");
    assert_eq!(q, MoveQuery { fc, fr, tc, tr });
    let q = match s.handle_legality(true) {
        LegalStep::Apply(q) => q,
        other => panic!("expected an apply order, got {:?}", other),
    };
    apply_move(g, &q);
    s.handle_applied(end, g).expect("a local move emits a frame")
}

/// Drive one remote ply from a received frame, answering the legality
/// query with `true` and reporting `end` after applying on `g`.
fn recv_remote(
    s: &mut Session,
    g: &mut [[Tile; 8]; 8],
    frame: &[u8],
    end: GameEnd,
) -> Option<Vec<u8>> {
    assert!(s.wants_remote());
    let q = match s.handle_frame(frame) {
        FrameStep::Query(q) => q,
        other => panic!("expected a legality query, got {:?}", other),
    };
    match s.handle_legality(true) {
        LegalStep::Apply(q2) => {
            assert_eq!(q, q2);
            apply_move(g, &q2);
        },
        other => panic!("expected an apply order, got {:?}", other),
    }
    s.handle_applied(end, g)
}

#[test]
fn color_assignment_by_role() {
    let server = Session::new(true);
    let client = Session::new(false);
    assert_eq!(server.my_color, Color::Black);
    assert_eq!(client.my_color, Color::White);
    assert_eq!(server.turn, Color::White);
    assert_eq!(client.turn, Color::White);
    assert!(server.wants_remote());
    assert!(!client.wants_remote());
}

#[test]
fn scholars_mate_both_endpoints_terminal() {
    let mut white = Session::new(false);
    let mut black = Session::new(true);
    let mut wg = initial_grid();
    let mut bg = initial_grid();

    // 1. e4 e5  2. Bc4 Nc6  3. Qh5 Nf6  4. Qxf7#
    let plies: [(usize, usize, usize, usize); 6] = [
        (6, 4, 4, 4), // E2E4
        (1, 4, 3, 4), // e7e5
        (7, 5, 4, 2), // F1C4
        (0, 1, 2, 2), // b8c6
        (7, 3, 3, 7), // D1H5
        (0, 6, 2, 5), // g8f6
    ];
    let mut frames: Vec<Vec<u8>> = Vec::new();
    for (i, &(fr, fc, tr, tc)) in plies.iter().enumerate() {
        let white_moves = i % 2 == 0;
        let frame = if white_moves {
            play_local(&mut white, &mut wg, fr, fc, tr, tc, ongoing())
        } else {
            play_local(&mut black, &mut bg, fr, fc, tr, tc, ongoing())
        };
        assert_eq!(frame.len(), MSG_SIZE);
        let reply = if white_moves {
            recv_remote(&mut black, &mut bg, &frame, ongoing())
        } else {
            recv_remote(&mut white, &mut wg, &frame, ongoing())
        };
        assert!(reply.is_none(), "an accepted ongoing move emits nothing");
        frames.push(frame);
    }
    assert!(frames[0].starts_with(b"ChessMOVE:E2E4Q:0-0:rnbqkbnr/pppppppp/8/8/4P3/8/PPPP1PPP/RNBQKBNR:"));

    // White mates: Black is the side now checkmated.
    let mate = GameEnd { is_checkmate: true, is_white: false, is_stalemate: false };
    let frame = play_local(&mut white, &mut wg, 3, 7, 1, 5, mate);
    let text: Vec<u8> = frame.clone();
    assert!(text.windows(4).any(|w| w == b":1-0"), "mating frame carries 1-0");
    assert!(white.over);
    assert_eq!(white.end, Some(EndReason::CheckmateWhite));
    assert_eq!(end_message(&EndReason::CheckmateWhite), "Checkmate: White wins");

    let reply = recv_remote(&mut black, &mut bg, &frame, mate);
    assert!(reply.is_none());
    assert!(black.over);
    assert_eq!(black.end, Some(EndReason::CheckmateWhite));

    // Wire trace alternated strictly and both boards agree.
    assert_eq!(wg, bg);
}

#[test]
fn illegal_remote_move_is_refused() {
    // The server is ready; the peer hand-crafts a three-square pawn
    // push. The local rule check refuses it.
    let mut server = Session::new(true);
    let frame = make_msg(
        false,
        b"E2E5Q".to_vec(),
        b"0-0".to_vec(),
        b"whatever".to_vec(),
    );
    let q = match server.handle_frame(&frame) {
        FrameStep::Query(q) => q,
        other => panic!("expected a query, got {:?}", other),
    };
    assert_eq!(q, MoveQuery { fc: 4, fr: 6, tc: 4, tr: 3 });
    match server.handle_legality(false) {
        LegalStep::Emit(f) => {
            assert_eq!(f.len(), MSG_SIZE);
            assert!(f.starts_with(b"ChessQUIT:illegal_move:"));
        },
        other => panic!("expected a quit frame, got {:?}", other),
    }
    assert!(server.over);
    assert_eq!(server.end, Some(EndReason::IllegalMove));
    assert_eq!(end_message(&EndReason::IllegalMove), "illegal move");
}

#[test]
fn forged_outcome_is_a_state_mismatch() {
    let mut server = Session::new(true);
    let mut g = initial_grid();
    let frame = make_msg(
        false,
        b"E2E4Q".to_vec(),
        b"1-0".to_vec(),
        b"rnbqkbnr/pppppppp/8/8/4P3/8/PPPP1PPP/RNBQKBNR".to_vec(),
    );
    match recv_remote(&mut server, &mut g, &frame, ongoing()) {
        Some(f) => assert!(f.starts_with(b"ChessQUIT:your_state_is_different:")),
        None => panic!("expected a quit frame"),
    }
    assert!(server.over);
    assert_eq!(server.end, Some(EndReason::StateMismatch));
    assert_eq!(end_message(&EndReason::StateMismatch), "state mismatch");
}

#[test]
fn corrupted_fen_is_a_board_mismatch() {
    let mut server = Session::new(true);
    let mut g = initial_grid();
    let frame = make_msg(
        false,
        b"E2E4Q".to_vec(),
        b"0-0".to_vec(),
        b"rnbqkbnr/pppppppp/8/8/8/8/PPPPPPPP/RNBQKBNR".to_vec(),
    );
    match recv_remote(&mut server, &mut g, &frame, ongoing()) {
        Some(f) => assert!(f.starts_with(b"ChessQUIT:your_board_is_different:")),
        None => panic!("expected a quit frame"),
    }
    assert!(server.over);
    assert_eq!(server.end, Some(EndReason::BoardMismatch));
    assert_eq!(end_message(&EndReason::BoardMismatch), "board mismatch");
}

#[test]
fn illegal_click_moves_the_selection() {
    let mut white = Session::new(false);
    assert!(white.handle_click(6, 4).is_none());
    assert_eq!(white.selected, Some((6, 4)));
    // Clicking another own piece: the engine calls the target illegal
    // and the selection moves there. No frame, game goes on.
    let q = white.handle_click(7, 3).expect("second click should query");
    assert_eq!(q, MoveQuery { fc: 4, fr: 6, tc: 3, tr: 7 });
    match white.handle_legality(false) {
        LegalStep::Ignored => {},
        other => panic!("an illegal local target emits nothing, got {:?}", other),
    }
    assert_eq!(white.selected, Some((7, 3)));
    assert!(!white.over);
    assert!(matches!(white.pending, Pending::Idle));
}

#[test]
fn stalemate_ends_both_endpoints() {
    let mut white = Session::new(false);
    let mut black = Session::new(true);
    let mut wg = initial_grid();
    let mut bg = initial_grid();
    let stale = GameEnd { is_checkmate: false, is_white: false, is_stalemate: true };
    let frame = play_local(&mut white, &mut wg, 6, 4, 4, 4, stale);
    assert!(frame.windows(4).any(|w| w == b":1-1"), "stalemate frame carries 1-1");
    assert!(white.over);
    assert_eq!(white.end, Some(EndReason::Stalemate));
    assert_eq!(end_message(&EndReason::Stalemate), "Stalemate");
    let reply = recv_remote(&mut black, &mut bg, &frame, stale);
    assert!(reply.is_none());
    assert!(black.over);
    assert_eq!(black.end, Some(EndReason::Stalemate));
}

#[test]
fn peer_quit_ends_the_session_silently() {
    let mut server = Session::new(true);
    let frame = make_quit_msg(b"NOOOOO".to_vec());
    match server.handle_frame(&frame) {
        FrameStep::Ignored => {},
        other => panic!("a quit frame is not answered, got {:?}", other),
    }
    assert!(server.over);
    assert_eq!(server.end, Some(EndReason::PeerQuit));
    assert_eq!(server.quit_reason, Some(b"NOOOOO".to_vec()));
    assert_eq!(end_message(&EndReason::PeerQuit), "peer quit: ");
}

#[test]
fn malformed_frame_is_answered_and_terminal() {
    let mut server = Session::new(true);
    let frame = vec![b'x'; MSG_SIZE];
    match server.handle_frame(&frame) {
        FrameStep::Emit(f) => assert!(f.starts_with(b"ChessQUIT:malformed:")),
        other => panic!("expected a quit frame, got {:?}", other),
    }
    assert!(server.over);
    assert_eq!(server.end, Some(EndReason::Malformed));
}

#[test]
fn bad_move_string_in_frame_is_illegal_move() {
    let mut server = Session::new(true);
    let frame = make_msg(false, b"Z9Z9Q".to_vec(), b"0-0".to_vec(), b"x".to_vec());
    match server.handle_frame(&frame) {
        FrameStep::Emit(f) => assert!(f.starts_with(b"ChessQUIT:illegal_move:")),
        other => panic!("expected a quit frame, got {:?}", other),
    }
    assert!(server.over);
    assert_eq!(server.end, Some(EndReason::IllegalMove));
}

#[test]
fn terminal_state_is_monotone() {
    let mut server = Session::new(true);
    let quit = make_quit_msg(b"bye".to_vec());
    assert!(matches!(server.handle_frame(&quit), FrameStep::Ignored));
    assert!(server.over);
    // Nothing moves it afterwards: no click, no frame, no verdict.
    assert!(server.handle_click(6, 4).is_none());
    assert_eq!(server.selected, None);
    assert!(matches!(
        server.handle_frame(&make_quit_msg(b"again".to_vec())),
        FrameStep::Ignored
    ));
    assert!(matches!(server.handle_legality(true), LegalStep::Ignored));
    let g = initial_grid();
    assert!(server.handle_applied(ongoing(), &g).is_none());
    assert!(server.over);
    assert_eq!(server.end, Some(EndReason::PeerQuit));
    assert_eq!(server.turn, Color::White);
}

#[test]
fn transport_failure_is_terminal() {
    let mut server = Session::new(true);
    server.transport_failed();
    assert!(server.over);
    assert_eq!(server.end, Some(EndReason::TransportError));
    assert_eq!(end_message(&EndReason::TransportError), "transport error");
    // Terminal stays terminal with the original reason.
    server.transport_failed();
    let frame = make_quit_msg(b"late".to_vec());
    assert!(matches!(server.handle_frame(&frame), FrameStep::Ignored));
    assert_eq!(server.end, Some(EndReason::TransportError));
}

#[test]
fn off_turn_input_is_ignored() {
    // Alternation, locally: an endpoint off turn neither queries nor
    // emits, and one on turn ignores arriving frames.
    let mut server = Session::new(true);
    assert!(server.handle_click(6, 4).is_none());
    assert_eq!(server.selected, None);

    let mut client = Session::new(false);
    let frame = make_msg(false, b"E2E4Q".to_vec(), b"0-0".to_vec(), b"x".to_vec());
    assert!(matches!(client.handle_frame(&frame), FrameStep::Ignored));
    assert!(!client.over);
}

#[test]
fn no_second_frame_before_the_reply() {
    // After emitting a move the endpoint is off turn until the peer's
    // move is accepted: further clicks produce nothing.
    let mut white = Session::new(false);
    let mut wg = initial_grid();
    let frame = play_local(&mut white, &mut wg, 6, 4, 4, 4, ongoing());
    assert_eq!(frame.len(), MSG_SIZE);
    assert!(white.handle_click(6, 3).is_none());
    assert!(white.handle_click(5, 3).is_none());
    assert!(white.wants_remote());
}
