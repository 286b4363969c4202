//! The session state machine.
//!
//! A session owns one side of a running game: the local color, whose
//! turn it is, the current click selection, and the terminal flag. It
//! makes every protocol decision — what to ask the rules engine, when
//! to apply a move, what frame to put on the wire, and when the game is
//! over — while the callers around it only carry those decisions out:
//! they run the transport, query the engine, and hand the answers back
//! as plain values.
//!
//! A half-move passes through three steps. A click or an arriving
//! frame names a candidate move and yields a legality query for the
//! engine; the legality answer either rejects the candidate or orders
//! it applied; the application report (terminal flags and the new
//! tiles) finishes the ply — emitting a move frame for a local move,
//! or cross-checking the peer's claimed outcome and fingerprint for a
//! remote one. Any disagreement ends the session with a quit frame.

use vstd::prelude::*;
use crate::board::{Color, Grid, fen_spec, grid_view, lemma_fen_len, to_fen};
use crate::codec::{
    Frame, decode_frame, decode_ok, kind_move, kind_quit, make_msg, make_quit_msg, msg_joined,
    pad_spec, quit_joined, split_colon,
};
use crate::coords::{decoded_move, make_move_string, move_bytes, move_ok, from_move_string};

verus! {

/// What the rules engine reports after applying a move, evaluated for
/// the side then to move: whether it is checkmated, whether the
/// checkmated side is White, and whether it is stalemated.
#[derive(Clone, Copy, Debug, PartialEq, Eq, Structural)]
pub struct GameEnd {
    pub is_checkmate: bool,
    pub is_white: bool,
    pub is_stalemate: bool,
}

/// A legality question for the rules engine: may the piece on column
/// `fc`, row `fr` move to column `tc`, row `tr`?
#[derive(Clone, Copy, Debug, PartialEq, Eq, Structural)]
pub struct MoveQuery {
    pub fc: usize,
    pub fr: usize,
    pub tc: usize,
    pub tr: usize,
}

/// Why the session ended.
#[derive(Clone, Copy, Debug, PartialEq, Eq, Structural)]
pub enum EndReason {
    /// Outcome `1-0`: the side to move was checkmated and is Black.
    CheckmateWhite,
    /// Outcome `0-1`: the side to move was checkmated and is White.
    CheckmateBlack,
    /// Outcome `1-1`.
    Stalemate,
    /// A remote move failed to decode or was not legal here.
    IllegalMove,
    /// The peer claimed an outcome the local board disagrees with.
    StateMismatch,
    /// The peer's position fingerprint differs from the local one.
    BoardMismatch,
    /// A received frame could not be parsed at all.
    Malformed,
    /// The transport failed: connect, accept, a peer disconnect or a
    /// partial frame.
    TransportError,
    /// The peer sent a quit frame; its reason is kept alongside.
    PeerQuit,
}

/// The move a session is part-way through handling.
#[derive(Debug)]
pub enum Pending {
    /// No move in flight.
    Idle,
    /// A local click on `(row, col)` with `(fr, fc)` already selected:
    /// the engine has been asked whether that move is legal.
    LocalQuery { row: usize, col: usize, fr: usize, fc: usize },
    /// A legal local move waiting for its application report.
    LocalApply { fc: usize, fr: usize, tc: usize, tr: usize },
    /// A decoded remote move, with the peer's claimed outcome and
    /// fingerprint: the engine has been asked whether it is legal.
    RemoteQuery { fc: usize, fr: usize, tc: usize, tr: usize, outcome: Vec<u8>, fen: Vec<u8> },
    /// A legal remote move waiting for its application report.
    RemoteApply { fc: usize, fr: usize, tc: usize, tr: usize, outcome: Vec<u8>, fen: Vec<u8> },
}

/// The outcome code the session computes from an application report:
/// `0-1` or `1-0` on checkmate (the checkmated side loses), `1-1` on
/// stalemate, `0-0` while the game goes on.
pub open spec fn outcome_bytes(end: GameEnd) -> Seq<u8> {
    if end.is_checkmate {
        if end.is_white {
            seq![48u8, 45u8, 49u8]
        } else {
            seq![49u8, 45u8, 48u8]
        }
    } else if end.is_stalemate {
        seq![49u8, 45u8, 49u8]
    } else {
        seq![48u8, 45u8, 48u8]
    }
}

/// The outcome code of a game still going on.
pub open spec fn ongoing_bytes() -> Seq<u8> {
    seq![48u8, 45u8, 48u8]
}

/// Compute the outcome code from an application report.
pub fn outcome_of(end: &GameEnd) -> (r: Vec<u8>)
    ensures
        r@ == outcome_bytes(*end),
{
    let mut v: Vec<u8> = Vec::new();
    if end.is_checkmate {
        if end.is_white {
            v.push(48);
            v.push(45);
            v.push(49);
        } else {
            v.push(49);
            v.push(45);
            v.push(48);
        }
    } else if end.is_stalemate {
        v.push(49);
        v.push(45);
        v.push(49);
    } else {
        v.push(48);
        v.push(45);
        v.push(48);
    }
    proof {
        assert(v@ =~= outcome_bytes(*end));
    }
    v
}

/// The terminal reason a non-ongoing outcome maps to.
pub open spec fn reason_of_outcome(end: GameEnd) -> EndReason {
    if end.is_checkmate {
        if end.is_white {
            EndReason::CheckmateBlack
        } else {
            EndReason::CheckmateWhite
        }
    } else {
        EndReason::Stalemate
    }
}

/// The bytes of the `illegal_move` quit reason.
pub open spec fn reason_illegal_move() -> Seq<u8> {
    seq![105u8, 108u8, 108u8, 101u8, 103u8, 97u8, 108u8, 95u8, 109u8, 111u8, 118u8, 101u8]
}

/// Build the `illegal_move` quit reason.
fn reason_illegal_move_vec() -> (r: Vec<u8>)
    ensures
        r@ == reason_illegal_move(),
{
    let mut v: Vec<u8> = Vec::new();
    v.push(105);
    v.push(108);
    v.push(108);
    v.push(101);
    v.push(103);
    v.push(97);
    v.push(108);
    v.push(95);
    v.push(109);
    v.push(111);
    v.push(118);
    v.push(101);
    proof {
        assert(v@ =~= reason_illegal_move());
    }
    v
}

/// The bytes of the `your_state_is_different` quit reason.
pub open spec fn reason_state_mismatch() -> Seq<u8> {
    seq![121u8, 111u8, 117u8, 114u8, 95u8, 115u8, 116u8, 97u8, 116u8, 101u8, 95u8, 105u8, 115u8, 95u8, 100u8, 105u8, 102u8, 102u8, 101u8, 114u8, 101u8, 110u8, 116u8]
}

/// Build the `your_state_is_different` quit reason.
fn reason_state_mismatch_vec() -> (r: Vec<u8>)
    ensures
        r@ == reason_state_mismatch(),
{
    let mut v: Vec<u8> = Vec::new();
    v.push(121);
    v.push(111);
    v.push(117);
    v.push(114);
    v.push(95);
    v.push(115);
    v.push(116);
    v.push(97);
    v.push(116);
    v.push(101);
    v.push(95);
    v.push(105);
    v.push(115);
    v.push(95);
    v.push(100);
    v.push(105);
    v.push(102);
    v.push(102);
    v.push(101);
    v.push(114);
    v.push(101);
    v.push(110);
    v.push(116);
    proof {
        assert(v@ =~= reason_state_mismatch());
    }
    v
}

/// The bytes of the `your_board_is_different` quit reason.
pub open spec fn reason_board_mismatch() -> Seq<u8> {
    seq![121u8, 111u8, 117u8, 114u8, 95u8, 98u8, 111u8, 97u8, 114u8, 100u8, 95u8, 105u8, 115u8, 95u8, 100u8, 105u8, 102u8, 102u8, 101u8, 114u8, 101u8, 110u8, 116u8]
}

/// Build the `your_board_is_different` quit reason.
fn reason_board_mismatch_vec() -> (r: Vec<u8>)
    ensures
        r@ == reason_board_mismatch(),
{
    let mut v: Vec<u8> = Vec::new();
    v.push(121);
    v.push(111);
    v.push(117);
    v.push(114);
    v.push(95);
    v.push(98);
    v.push(111);
    v.push(97);
    v.push(114);
    v.push(100);
    v.push(95);
    v.push(105);
    v.push(115);
    v.push(95);
    v.push(100);
    v.push(105);
    v.push(102);
    v.push(102);
    v.push(101);
    v.push(114);
    v.push(101);
    v.push(110);
    v.push(116);
    proof {
        assert(v@ =~= reason_board_mismatch());
    }
    v
}

/// The bytes of the `malformed` quit reason.
pub open spec fn reason_malformed() -> Seq<u8> {
    seq![109u8, 97u8, 108u8, 102u8, 111u8, 114u8, 109u8, 101u8, 100u8]
}

/// Build the `malformed` quit reason.
fn reason_malformed_vec() -> (r: Vec<u8>)
    ensures
        r@ == reason_malformed(),
{
    let mut v: Vec<u8> = Vec::new();
    v.push(109);
    v.push(97);
    v.push(108);
    v.push(102);
    v.push(111);
    v.push(114);
    v.push(109);
    v.push(101);
    v.push(100);
    proof {
        assert(v@ =~= reason_malformed());
    }
    v
}

/// Are two byte vectors equal?
fn vec_eq(a: &Vec<u8>, b: &Vec<u8>) -> (r: bool)
    ensures
        r == (a@ == b@),
{
    if a.len() != b.len() {
        proof {
            assert(a@ != b@);
        }
        return false;
    }
    let mut i: usize = 0;
    while i < a.len()
        invariant
            a@.len() == b@.len(),
            i <= a@.len(),
            forall|j: int| 0 <= j < i ==> a@[j] == b@[j],
        decreases a@.len() - i,
    {
        if a[i] != b[i] {
            proof {
                assert(a@ != b@);
            }
            return false;
        }
        i = i + 1;
    }
    proof {
        assert(a@ =~= b@);
    }
    true
}

/// The user-visible text for an end reason. For `PeerQuit` the wire
/// reason kept by the session follows this text.
pub fn end_message(r: &EndReason) -> (m: &'static str)
    ensures
        m@ == end_message_spec(*r),
{
    match r {
        EndReason::CheckmateWhite => "Checkmate: White wins",
        EndReason::CheckmateBlack => "Checkmate: Black wins",
        EndReason::Stalemate => "Stalemate",
        EndReason::IllegalMove => "illegal move",
        EndReason::StateMismatch => "state mismatch",
        EndReason::BoardMismatch => "board mismatch",
        EndReason::Malformed => "malformed frame",
        EndReason::TransportError => "transport error",
        EndReason::PeerQuit => "peer quit: ",
    }
}

/// The text `end_message` returns for each reason.
pub open spec fn end_message_spec(r: EndReason) -> Seq<char> {
    match r {
        EndReason::CheckmateWhite => "Checkmate: White wins"@,
        EndReason::CheckmateBlack => "Checkmate: Black wins"@,
        EndReason::Stalemate => "Stalemate"@,
        EndReason::IllegalMove => "illegal move"@,
        EndReason::StateMismatch => "state mismatch"@,
        EndReason::BoardMismatch => "board mismatch"@,
        EndReason::Malformed => "malformed frame"@,
        EndReason::TransportError => "transport error"@,
        EndReason::PeerQuit => "peer quit: "@,
    }
}

/// What `handle_frame` asks of its caller.
#[derive(Debug)]
pub enum FrameStep {
    /// Nothing to do: the frame was ignored, or the session ended
    /// without a reply (peer quit).
    Ignored,
    /// Send this frame to the peer; the session is over.
    Emit(Vec<u8>),
    /// Ask the rules engine whether this move is legal, then call
    /// `handle_legality` with the answer.
    Query(MoveQuery),
}

/// What `handle_legality` asks of its caller.
#[derive(Debug)]
pub enum LegalStep {
    /// Nothing to do.
    Ignored,
    /// Send this frame to the peer; the session is over.
    Emit(Vec<u8>),
    /// Apply this move on the board, then call `handle_applied` with
    /// the engine's report and the new tiles.
    Apply(MoveQuery),
}

/// One endpoint of a networked game.
pub struct Session {
    /// The color this endpoint plays; fixed at construction.
    pub my_color: Color,
    /// Whose move is next. Mirrors the board: it flips exactly when a
    /// move is applied.
    pub turn: Color,
    /// The square `(row, col)` a first click selected, if any.
    pub selected: Option<(usize, usize)>,
    /// The move in flight between its query and its application.
    pub pending: Pending,
    /// Whether the session is terminal.
    pub over: bool,
    /// Why it ended, once terminal.
    pub end: Option<EndReason>,
    /// The reason bytes of a received quit frame.
    pub quit_reason: Option<Vec<u8>>,
}

impl Session {
    /// Session well-formedness: in-flight coordinates are on the
    /// board, a local move is only in flight on the local turn and a
    /// remote one only on the remote turn, nothing is in flight once
    /// terminal, and the end reason is present exactly when terminal.
    pub open spec fn wf(self) -> bool {
        &&& match self.pending {
            Pending::Idle => true,
            Pending::LocalQuery { row, col, fr, fc } => row < 8 && col < 8 && fr < 8 && fc < 8
                && !self.over && self.turn == self.my_color,
            Pending::LocalApply { fc, fr, tc, tr } => fc < 8 && fr < 8 && tc < 8 && tr < 8
                && !self.over && self.turn == self.my_color,
            Pending::RemoteQuery { fc, fr, tc, tr, .. } => fc < 8 && fr < 8 && tc < 8 && tr < 8
                && !self.over && self.turn != self.my_color,
            Pending::RemoteApply { fc, fr, tc, tr, .. } => fc < 8 && fr < 8 && tc < 8 && tr < 8
                && !self.over && self.turn != self.my_color,
        }
        &&& (self.over <==> self.end is Some)
        &&& match self.selected {
            Some(sq) => sq.0 < 8 && sq.1 < 8,
            None => true,
        }
    }

    /// May this endpoint act on a click: the game runs, it is the
    /// local side's move, and no move is in flight.
    pub open spec fn ready_local(self) -> bool {
        !self.over && self.turn == self.my_color && self.pending is Idle
    }

    /// May this endpoint consume a frame: the game runs, it is the
    /// remote side's move, and no move is in flight.
    pub open spec fn ready_remote(self) -> bool {
        !self.over && self.turn != self.my_color && self.pending is Idle
    }

    /// Open a session. The listening endpoint plays Black, the
    /// connecting one White; White moves first.
    pub fn new(is_server: bool) -> (s: Session)
        ensures
            s.wf(),
            s.my_color == if is_server {
                Color::Black
            } else {
                Color::White
            },
            s.turn == Color::White,
            s.selected is None,
            s.pending is Idle,
            !s.over,
            s.end is None,
            s.quit_reason is None,
    {
        Session {
            my_color: if is_server {
                Color::Black
            } else {
                Color::White
            },
            turn: Color::White,
            selected: None,
            pending: Pending::Idle,
            over: false,
            end: None,
            quit_reason: None,
        }
    }

    /// Should the caller try one non-blocking frame read this tick?
    pub fn wants_remote(&self) -> (r: bool)
        ensures
            r == self.ready_remote(),
    {
        !self.over && !(self.turn == self.my_color) && matches!(self.pending, Pending::Idle)
    }

    /// Record a fatal transport failure: the session becomes terminal
    /// and neither emits nor consumes anything further.
    pub fn transport_failed(&mut self)
        requires
            old(self).wf(),
        ensures
            final(self).wf(),
            final(self).my_color == old(self).my_color,
            final(self).turn == old(self).turn,
            final(self).selected == old(self).selected,
            final(self).quit_reason == old(self).quit_reason,
            wire_step(*old(self), *final(self), false, false),
            old(self).over ==> *final(self) == *old(self),
            !old(self).over ==> final(self).over && final(self).end == Some(
                EndReason::TransportError,
            ) && final(self).pending is Idle,
    {
        if self.over {
            return ;
        }
        self.over = true;
        self.end = Some(EndReason::TransportError);
        self.pending = Pending::Idle;
    }

    /// A click on square `(row, col)`. The first click of a turn
    /// selects; a second click names a candidate move and yields a
    /// legality query for the rules engine. Clicks while the game is
    /// over, off-turn, or mid-move change nothing.
    pub fn handle_click(&mut self, row: usize, col: usize) -> (q: Option<MoveQuery>)
        requires
            old(self).wf(),
            row < 8,
            col < 8,
        ensures
            final(self).wf(),
            final(self).my_color == old(self).my_color,
            final(self).turn == old(self).turn,
            final(self).over == old(self).over,
            final(self).end == old(self).end,
            final(self).quit_reason == old(self).quit_reason,
            wire_step(*old(self), *final(self), false, false),
            !old(self).ready_local() ==> *final(self) == *old(self) && q is None,
            old(self).ready_local() && old(self).selected is None ==> q is None
                && final(self).selected == Some((row, col)) && final(self).pending is Idle,
            old(self).ready_local() ==> (old(self).selected matches Some(sel) ==> (q == Some(
                MoveQuery { fc: sel.1, fr: sel.0, tc: col, tr: row },
            ) && final(self).pending == (Pending::LocalQuery { row, col, fr: sel.0, fc: sel.1 })
                && final(self).selected == old(self).selected)),
    {
        if self.over {
            return None;
        }
        if !(self.turn == self.my_color) {
            return None;
        }
        if !matches!(self.pending, Pending::Idle) {
            return None;
        }
        match self.selected {
            None => {
                self.selected = Some((row, col));
                None
            },
            Some((fr, fc)) => {
                self.pending = Pending::LocalQuery { row, col, fr, fc };
                Some(MoveQuery { fc, fr, tc: col, tr: row })
            },
        }
    }

    /// Consume one received frame. An unparseable frame answers with a
    /// `malformed` quit and ends the session; a quit frame ends it
    /// silently; a move frame whose move string does not parse answers
    /// with an `illegal_move` quit and ends it; a well-formed move
    /// yields a legality query for the rules engine. Frames while the
    /// game is over, on the local turn, or mid-move are ignored.
    pub fn handle_frame(&mut self, frame: &[u8]) -> (step: FrameStep)
        requires
            old(self).wf(),
        ensures
            final(self).wf(),
            final(self).my_color == old(self).my_color,
            final(self).turn == old(self).turn,
            final(self).selected == old(self).selected,
            wire_step(*old(self), *final(self), false, false),
            !old(self).ready_remote() ==> *final(self) == *old(self) && step is Ignored,
            old(self).ready_remote() && !decode_ok(frame@) ==> ({
                &&& step matches FrameStep::Emit(f) && f@ == pad_spec(
                    quit_joined(reason_malformed()),
                ) && f@.len() == 128
                &&& final(self).over
                &&& final(self).end == Some(EndReason::Malformed)
                &&& final(self).pending is Idle
            }),
            old(self).ready_remote() && decode_ok(frame@) && split_colon(frame@)[0] == kind_quit()
                ==> ({
                &&& step is Ignored
                &&& final(self).over
                &&& final(self).end == Some(EndReason::PeerQuit)
                &&& final(self).pending is Idle
                &&& (final(self).quit_reason matches Some(q) && q@ == split_colon(frame@)[1])
            }),
            old(self).ready_remote() && decode_ok(frame@) && split_colon(frame@)[0] == kind_move()
                && !move_ok(split_colon(frame@)[1]) ==> ({
                &&& step matches FrameStep::Emit(f) && f@ == pad_spec(
                    quit_joined(reason_illegal_move()),
                ) && f@.len() == 128
                &&& final(self).over
                &&& final(self).end == Some(EndReason::IllegalMove)
                &&& final(self).pending is Idle
            }),
            old(self).ready_remote() && decode_ok(frame@) && split_colon(frame@)[0] == kind_move()
                && move_ok(split_colon(frame@)[1]) ==> ({
                let parts = split_colon(frame@);
                let m = decoded_move(parts[1]);
                &&& (step matches FrameStep::Query(q) && q.fc == m.0 && q.fr == m.1 && q.tc == m.2
                    && q.tr == m.3)
                &&& (final(self).pending matches Pending::RemoteQuery {
                    fc,
                    fr,
                    tc,
                    tr,
                    outcome,
                    fen,
                } && fc == m.0 && fr == m.1 && tc == m.2 && tr == m.3 && outcome@ == parts[2]
                    && fen@ == parts[3])
                &&& !final(self).over
                &&& final(self).end is None
                &&& final(self).quit_reason == old(self).quit_reason
            }),
    {
        if self.over {
            return FrameStep::Ignored;
        }
        if self.turn == self.my_color {
            return FrameStep::Ignored;
        }
        if !matches!(self.pending, Pending::Idle) {
            return FrameStep::Ignored;
        }
        match decode_frame(frame) {
            Err(_) => {
                let f = make_quit_msg(reason_malformed_vec());
                self.over = true;
                self.end = Some(EndReason::Malformed);
                FrameStep::Emit(f)
            },
            Ok(Frame::Quit { reason }) => {
                self.over = true;
                self.end = Some(EndReason::PeerQuit);
                self.quit_reason = Some(reason);
                FrameStep::Ignored
            },
            Ok(Frame::Move { mv, outcome, fen }) => {
                match from_move_string(mv.as_slice()) {
                    Err(_) => {
                        let f = make_quit_msg(reason_illegal_move_vec());
                        self.over = true;
                        self.end = Some(EndReason::IllegalMove);
                        FrameStep::Emit(f)
                    },
                    Ok((fc, fr, tc, tr, _promotion)) => {
                        self.pending = Pending::RemoteQuery { fc, fr, tc, tr, outcome, fen };
                        FrameStep::Query(MoveQuery { fc, fr, tc, tr })
                    },
                }
            },
        }
    }

    /// Consume the engine's legality answer for the move in flight. A
    /// legal move is ordered applied. An illegal local candidate just
    /// moves the selection to the clicked square; an illegal remote
    /// move answers with an `illegal_move` quit and ends the session —
    /// each endpoint is fully authoritative over its own rule check.
    pub fn handle_legality(&mut self, legal: bool) -> (step: LegalStep)
        requires
            old(self).wf(),
        ensures
            final(self).wf(),
            final(self).my_color == old(self).my_color,
            final(self).turn == old(self).turn,
            final(self).quit_reason == old(self).quit_reason,
            wire_step(*old(self), *final(self), false, false),
            // Mutual authority: a move is ordered applied only when the
            // local rule check passed for exactly the move in flight,
            // wherever it came from.
            step matches LegalStep::Apply(q) ==> legal && match old(self).pending {
                Pending::LocalQuery { row, col, fr, fc } => q == (MoveQuery {
                    fc,
                    fr,
                    tc: col,
                    tr: row,
                }),
                Pending::RemoteQuery { fc, fr, tc, tr, .. } => q == (MoveQuery { fc, fr, tc, tr }),
                _ => false,
            },
            !(old(self).pending is LocalQuery || old(self).pending is RemoteQuery) ==> *final(self)
                == *old(self) && step is Ignored,
            old(self).pending matches Pending::LocalQuery { row, col, fr, fc } ==> if legal {
                step == LegalStep::Apply(MoveQuery { fc, fr, tc: col, tr: row }) && final(self).pending == (Pending::LocalApply { fc, fr, tc: col, tr: row }) && final(self).selected == old(self).selected && !final(self).over && final(self).end is None
            } else {
                step is Ignored && final(self).pending is Idle && final(self).selected == Some(
                    (row, col),
                ) && !final(self).over && final(self).end is None
            },
            old(self).pending matches Pending::RemoteQuery { fc, fr, tc, tr, outcome, fen } ==> if legal {
                step == LegalStep::Apply(MoveQuery { fc, fr, tc, tr }) && final(self).pending == (
                Pending::RemoteApply { fc, fr, tc, tr, outcome, fen }) && final(self).selected
                    == old(self).selected && !final(self).over && final(self).end is None
            } else {
                (step matches LegalStep::Emit(f) && f@ == pad_spec(
                    quit_joined(reason_illegal_move()),
                ) && f@.len() == 128) && final(self).over && final(self).end == Some(EndReason::IllegalMove) && final(self).pending is Idle && final(self).selected == old(self).selected
            },
    {
        let mut prev = Pending::Idle;
        core::mem::swap(&mut prev, &mut self.pending);
        match prev {
            Pending::LocalQuery { row, col, fr, fc } => {
                if legal {
                    self.pending = Pending::LocalApply { fc, fr, tc: col, tr: row };
                    LegalStep::Apply(MoveQuery { fc, fr, tc: col, tr: row })
                } else {
                    self.selected = Some((row, col));
                    LegalStep::Ignored
                }
            },
            Pending::RemoteQuery { fc, fr, tc, tr, outcome, fen } => {
                if legal {
                    self.pending = Pending::RemoteApply { fc, fr, tc, tr, outcome, fen };
                    LegalStep::Apply(MoveQuery { fc, fr, tc, tr })
                } else {
                    let f = make_quit_msg(reason_illegal_move_vec());
                    self.over = true;
                    self.end = Some(EndReason::IllegalMove);
                    LegalStep::Emit(f)
                }
            },
            other => {
                self.pending = other;
                LegalStep::Ignored
            },
        }
    }

    /// Consume the engine's application report — the terminal flags
    /// and the tiles after the move. A local move is framed and put on
    /// the wire, with its outcome code and the new fingerprint; a
    /// remote move is cross-checked against the peer's claims: a
    /// differing outcome answers with a `your_state_is_different`
    /// quit, a differing fingerprint (only checked while the game goes
    /// on) with a `your_board_is_different` quit. Either way the turn
    /// flips; a non-ongoing outcome ends the session.
    pub fn handle_applied(&mut self, end: GameEnd, tiles: &Grid) -> (r: Option<Vec<u8>>)
        requires
            old(self).wf(),
        ensures
            final(self).wf(),
            final(self).my_color == old(self).my_color,
            final(self).quit_reason == old(self).quit_reason,
            wire_step(
                *old(self),
                *final(self),
                old(self).pending is LocalApply,
                old(self).pending is RemoteApply,
            ),
            !(old(self).pending is LocalApply || old(self).pending is RemoteApply) ==> *final(self)
                == *old(self) && r is None,
            old(self).pending matches Pending::LocalApply { fc, fr, tc, tr } ==> ({
                let mv = move_bytes(
                    fc as int,
                    fr as int,
                    tc as int,
                    tr as int,
                    old(self).my_color == Color::White,
                );
                &&& (r matches Some(f) && f@ == pad_spec(
                    msg_joined(false, mv, outcome_bytes(end), fen_spec(grid_view(*tiles))),
                ) && f@.len() == 128)
                &&& final(self).turn == old(self).turn.spec_other()
                &&& final(self).selected is None
                &&& final(self).pending is Idle
                &&& final(self).over == (outcome_bytes(end) != ongoing_bytes())
                &&& (outcome_bytes(end) != ongoing_bytes() ==> final(self).end == Some(
                    reason_of_outcome(end),
                ))
                &&& (outcome_bytes(end) == ongoing_bytes() ==> final(self).end is None)
            }),
            old(self).pending matches Pending::RemoteApply { fc, fr, tc, tr, outcome, fen } ==> ({
                let my = outcome_bytes(end);
                &&& final(self).turn == old(self).turn.spec_other()
                &&& final(self).pending is Idle
                &&& final(self).selected == old(self).selected
                &&& (my != outcome@ ==> (r matches Some(f) && f@ == pad_spec(
                    quit_joined(reason_state_mismatch()),
                ) && f@.len() == 128) && final(self).over && final(self).end == Some(EndReason::StateMismatch))
                &&& (my == outcome@ && my != ongoing_bytes() ==> r is None && final(self).over
                    && final(self).end == Some(reason_of_outcome(end)))
                &&& (my == outcome@ && my == ongoing_bytes() && fen_spec(grid_view(*tiles))
                    != fen@ ==> (r matches Some(f) && f@ == pad_spec(
                    quit_joined(reason_board_mismatch()),
                ) && f@.len() == 128) && final(self).over && final(self).end == Some(EndReason::BoardMismatch))
                &&& (my == outcome@ && my == ongoing_bytes() && fen_spec(grid_view(*tiles))
                    == fen@ ==> r is None && !final(self).over && final(self).end is None)
            }),
    {
        let mut prev = Pending::Idle;
        core::mem::swap(&mut prev, &mut self.pending);
        match prev {
            Pending::LocalApply { fc, fr, tc, tr } => {
                let white = self.my_color == Color::White;
                let mv = make_move_string(fc, fr, tc, tr, white);
                let my_outcome = outcome_of(&end);
                let fen = to_fen(tiles);
                proof {
                    lemma_fen_len(grid_view(*tiles));
                    lemma_outcome_ongoing(end);
                }
                let f = make_msg(false, mv, my_outcome, fen);
                self.turn = self.turn.other();
                self.selected = None;
                if end.is_checkmate {
                    self.over = true;
                    self.end = Some(
                        if end.is_white {
                            EndReason::CheckmateBlack
                        } else {
                            EndReason::CheckmateWhite
                        },
                    );
                } else if end.is_stalemate {
                    self.over = true;
                    self.end = Some(EndReason::Stalemate);
                }
                Some(f)
            },
            Pending::RemoteApply { fc: _, fr: _, tc: _, tr: _, outcome, fen } => {
                self.turn = self.turn.other();
                let my_outcome = outcome_of(&end);
                proof {
                    lemma_outcome_ongoing(end);
                }
                if !vec_eq(&my_outcome, &outcome) {
                    let f = make_quit_msg(reason_state_mismatch_vec());
                    self.over = true;
                    self.end = Some(EndReason::StateMismatch);
                    Some(f)
                } else if end.is_checkmate || end.is_stalemate {
                    self.over = true;
                    self.end = Some(
                        if end.is_checkmate {
                            if end.is_white {
                                EndReason::CheckmateBlack
                            } else {
                                EndReason::CheckmateWhite
                            }
                        } else {
                            EndReason::Stalemate
                        },
                    );
                    None
                } else {
                    let my_fen = to_fen(tiles);
                    if !vec_eq(&my_fen, &fen) {
                        let f = make_quit_msg(reason_board_mismatch_vec());
                        self.over = true;
                        self.end = Some(EndReason::BoardMismatch);
                        Some(f)
                    } else {
                        None
                    }
                }
            },
            other => {
                self.pending = other;
                None
            },
        }
    }
}

/// A non-ongoing outcome code is exactly one reporting checkmate or
/// stalemate.
pub proof fn lemma_outcome_ongoing(end: GameEnd)
    ensures
        (outcome_bytes(end) == ongoing_bytes()) <==> (!end.is_checkmate && !end.is_stalemate),
{
    if end.is_checkmate {
        assert(outcome_bytes(end)[0] != ongoing_bytes()[0] || outcome_bytes(end)[2]
            != ongoing_bytes()[2]);
    } else if end.is_stalemate {
        assert(outcome_bytes(end)[0] != ongoing_bytes()[0]);
    }
}

/// Turn ownership. A move frame is built only while a local move is
/// in flight (`handle_applied` on `LocalApply`), and a received move
/// is consumed only through a remote pending state; this lemma pins
/// both to the turn: a local move can only be in flight on the local
/// color's turn, a remote one only on the opposite turn, and neither
/// once the session is terminal.
pub proof fn lemma_turn_ownership(s: Session)
    requires
        s.wf(),
    ensures
        s.pending is LocalQuery || s.pending is LocalApply ==> s.turn == s.my_color,
        s.pending is RemoteQuery || s.pending is RemoteApply ==> s.turn != s.my_color,
        s.pending is LocalQuery || s.pending is LocalApply || s.pending is RemoteQuery
            || s.pending is RemoteApply ==> !s.over,
{
}

/// One session step, abstracted to what the wire discipline needs:
/// `sent` says a move frame went out, `accepted` that a remote move
/// was applied locally. A move frame goes out only on the local
/// color's turn and leaves the turn with the opponent; a remote move
/// is accepted only on the opponent's turn and hands the turn back;
/// every other step leaves the turn alone.
pub open spec fn wire_step(pre: Session, post: Session, sent: bool, accepted: bool) -> bool {
    &&& post.my_color == pre.my_color
    &&& !(sent && accepted)
    &&& (sent ==> pre.turn == pre.my_color && post.turn != post.my_color)
    &&& (accepted ==> pre.turn != pre.my_color && post.turn == post.my_color)
    &&& (!sent && !accepted ==> post.turn == pre.turn)
}

/// A run of a session: `steps[i]` relates `states[i]` to
/// `states[i + 1]`, with `sent[i]` and `accepted[i]` marking the move
/// frames that went out and the remote moves that were accepted.
pub open spec fn wire_trace(states: Seq<Session>, sent: Seq<bool>, accepted: Seq<bool>) -> bool {
    &&& states.len() == sent.len() + 1
    &&& accepted.len() == sent.len()
    &&& forall|i: int|
        0 <= i < sent.len() ==> wire_step(states[i], states[i + 1], sent[i], accepted[i])
}

/// While the turn sits with the opponent and no remote move is
/// accepted, no move frame goes out.
proof fn lemma_off_turn_sends_nothing(
    states: Seq<Session>,
    sent: Seq<bool>,
    accepted: Seq<bool>,
    i: int,
    j: int,
)
    requires
        wire_trace(states, sent, accepted),
        0 <= i <= j < sent.len(),
        states[i].turn != states[i].my_color,
        forall|k: int| i <= k < j ==> !accepted[k],
    ensures
        states[j].turn != states[j].my_color,
        !sent[j] || accepted[j],
    decreases j - i,
{
    if i < j {
        assert(wire_step(states[i], states[i + 1], sent[i], accepted[i]));
        assert(!accepted[i]);
        assert(!sent[i]);
        lemma_off_turn_sends_nothing(states, sent, accepted, i + 1, j);
    } else {
        assert(wire_step(states[j], states[j + 1], sent[j], accepted[j]));
    }
}

/// While the turn sits with the local color and no move frame goes
/// out, no remote move is accepted.
proof fn lemma_on_turn_accepts_nothing(
    states: Seq<Session>,
    sent: Seq<bool>,
    accepted: Seq<bool>,
    i: int,
    j: int,
)
    requires
        wire_trace(states, sent, accepted),
        0 <= i <= j < sent.len(),
        states[i].turn == states[i].my_color,
        forall|k: int| i <= k < j ==> !sent[k],
    ensures
        states[j].turn == states[j].my_color,
        !accepted[j] || sent[j],
    decreases j - i,
{
    if i < j {
        assert(wire_step(states[i], states[i + 1], sent[i], accepted[i]));
        assert(!sent[i]);
        assert(!accepted[i]);
        lemma_on_turn_accepts_nothing(states, sent, accepted, i + 1, j);
    } else {
        assert(wire_step(states[j], states[j + 1], sent[j], accepted[j]));
    }
}

/// Alternation, outgoing half: between any two move frames an
/// endpoint puts on the wire it accepts a move of its peer.
pub proof fn lemma_alternation_sends(
    states: Seq<Session>,
    sent: Seq<bool>,
    accepted: Seq<bool>,
    i: int,
    j: int,
)
    requires
        wire_trace(states, sent, accepted),
        0 <= i < j < sent.len(),
        sent[i],
        sent[j],
    ensures
        exists|k: int| i < k < j && accepted[k],
{
    if forall|k: int| i < k < j ==> !#[trigger] accepted[k] {
        assert(wire_step(states[i], states[i + 1], sent[i], accepted[i]));
        assert(states[i + 1].turn != states[i + 1].my_color);
        lemma_off_turn_sends_nothing(states, sent, accepted, i + 1, j);
        assert(!sent[j] || accepted[j]);
        assert(wire_step(states[j], states[j + 1], sent[j], accepted[j]));
        assert(false);
    }
}

/// Alternation, incoming half: between any two remote moves an
/// endpoint accepts it puts a move frame of its own on the wire.
pub proof fn lemma_alternation_accepts(
    states: Seq<Session>,
    sent: Seq<bool>,
    accepted: Seq<bool>,
    i: int,
    j: int,
)
    requires
        wire_trace(states, sent, accepted),
        0 <= i < j < sent.len(),
        accepted[i],
        accepted[j],
    ensures
        exists|k: int| i < k < j && sent[k],
{
    if forall|k: int| i < k < j ==> !#[trigger] sent[k] {
        assert(wire_step(states[i], states[i + 1], sent[i], accepted[i]));
        assert(states[i + 1].turn == states[i + 1].my_color);
        lemma_on_turn_accepts_nothing(states, sent, accepted, i + 1, j);
        assert(!accepted[j] || sent[j]);
        assert(wire_step(states[j], states[j + 1], sent[j], accepted[j]));
        assert(false);
    }
}

/// Alternation, opening: White moves first. A session that starts
/// with the turn away from it — the White endpoint's peer, by
/// construction of `new` — sends nothing before its first accept, and
/// one that starts on turn accepts nothing before its first send.
pub proof fn lemma_alternation_start(
    states: Seq<Session>,
    sent: Seq<bool>,
    accepted: Seq<bool>,
    j: int,
)
    requires
        wire_trace(states, sent, accepted),
        0 <= j < sent.len(),
    ensures
        states[0].turn != states[0].my_color && (forall|k: int| 0 <= k < j ==> !accepted[k])
            ==> !sent[j],
        states[0].turn == states[0].my_color && (forall|k: int| 0 <= k < j ==> !sent[k])
            ==> !accepted[j],
{
    if states[0].turn != states[0].my_color && (forall|k: int| 0 <= k < j ==> !accepted[k]) {
        lemma_off_turn_sends_nothing(states, sent, accepted, 0, j);
    }
    if states[0].turn == states[0].my_color && (forall|k: int| 0 <= k < j ==> !sent[k]) {
        lemma_on_turn_accepts_nothing(states, sent, accepted, 0, j);
    }
}
} // verus!
