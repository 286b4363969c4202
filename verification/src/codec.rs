//! Wire codec.
//!
//! Every frame is exactly 128 bytes of 7-bit ASCII: colon-separated
//! fields, then — if the joined fields fall short of 128 bytes — a `:`
//! and enough `'0'` bytes to fill the frame. A move frame is
//! `ChessMOVE:<move>:<outcome>:<fen>`; a quit frame is
//! `ChessQUIT:<reason>`. A decoder splits on `:` and reads the fields
//! left to right, ignoring the padding after the last one.

use vstd::prelude::*;

verus! {

/// Wire frame length in bytes.
pub const MSG_SIZE: usize = 128;

/// A decoded frame.
#[derive(Debug, PartialEq, Eq)]
pub enum Frame {
    Move { mv: Vec<u8>, outcome: Vec<u8>, fen: Vec<u8> },
    Quit { reason: Vec<u8> },
}

/// Why a received frame was rejected.
#[derive(Clone, Copy, Debug, PartialEq, Eq, Structural)]
pub enum CodecError {
    MalformedFrame,
}

/// No byte of `s` is a colon.
pub open spec fn colon_free(s: Seq<u8>) -> bool {
    forall|i: int| 0 <= i < s.len() ==> s[i] != 58
}

/// Every byte of `s` is 7-bit ASCII.
pub open spec fn is_ascii_seq(s: Seq<u8>) -> bool {
    forall|i: int| 0 <= i < s.len() ==> s[i] < 128
}

/// The bytes of `ChessMOVE`.
pub open spec fn kind_move() -> Seq<u8> {
    seq![67u8, 104u8, 101u8, 115u8, 115u8, 77u8, 79u8, 86u8, 69u8]
}

/// The bytes of `ChessQUIT`.
pub open spec fn kind_quit() -> Seq<u8> {
    seq![67u8, 104u8, 101u8, 115u8, 115u8, 81u8, 85u8, 73u8, 84u8]
}

/// The fields of `s`, split on colons. An empty input is one empty
/// field; a trailing colon yields a trailing empty field.
pub open spec fn split_colon(s: Seq<u8>) -> Seq<Seq<u8>>
    decreases s.len(),
{
    if s.len() == 0 {
        seq![Seq::<u8>::empty()]
    } else if s[0] == 58 {
        seq![Seq::<u8>::empty()] + split_colon(s.skip(1))
    } else {
        let rest = split_colon(s.skip(1));
        seq![seq![s[0]] + rest[0]] + rest.skip(1)
    }
}

/// Splitting always yields at least one field.
pub proof fn lemma_split_nonempty(s: Seq<u8>)
    ensures
        split_colon(s).len() >= 1,
    decreases s.len(),
{
    if s.len() > 0 {
        lemma_split_nonempty(s.skip(1));
    }
}

/// A colon-free sequence is a single field.
pub proof fn lemma_split_colon_free(a: Seq<u8>)
    requires
        colon_free(a),
    ensures
        split_colon(a) == seq![a],
    decreases a.len(),
{
    if a.len() > 0 {
        assert(a[0] != 58);
        assert(colon_free(a.skip(1)));
        lemma_split_colon_free(a.skip(1));
        assert(seq![a[0]] + a.skip(1) =~= a);
        assert(seq![a.skip(1)].skip(1) =~= Seq::<Seq<u8>>::empty());
        assert(split_colon(a) =~~= seq![a]);
    } else {
        assert(a =~= Seq::<u8>::empty());
        assert(split_colon(a) =~~= seq![a]);
    }
}

/// A colon-free field before a colon splits off whole.
pub proof fn lemma_split_prefix(a: Seq<u8>, rest: Seq<u8>)
    requires
        colon_free(a),
    ensures
        split_colon(a + seq![58u8] + rest) == seq![a] + split_colon(rest),
    decreases a.len(),
{
    let s = a + seq![58u8] + rest;
    if a.len() == 0 {
        assert(s =~= seq![58u8] + rest);
        assert(s[0] == 58);
        assert(s.skip(1) =~= rest);
        assert(a =~= Seq::<u8>::empty());
        assert(split_colon(s) =~~= seq![a] + split_colon(rest));
    } else {
        assert(s[0] == a[0]);
        assert(a[0] != 58);
        assert(colon_free(a.skip(1)));
        lemma_split_prefix(a.skip(1), rest);
        assert(s.skip(1) =~= a.skip(1) + seq![58u8] + rest);
        let r = split_colon(s.skip(1));
        assert(r == seq![a.skip(1)] + split_colon(rest));
        assert(r[0] == a.skip(1));
        assert(seq![s[0]] + r[0] =~= a);
        assert(r.skip(1) =~= split_colon(rest));
        assert(split_colon(s) =~~= seq![a] + split_colon(rest));
    }
}

/// `parts` with the field under construction merged onto its front.
spec fn merge_front(cur: Seq<u8>, parts: Seq<Seq<u8>>) -> Seq<Seq<u8>> {
    seq![cur + parts[0]] + parts.skip(1)
}

/// Split a byte sequence on colons.
pub fn split_fields(s: &[u8]) -> (parts: Vec<Vec<u8>>)
    ensures
        parts.deep_view() == split_colon(s@),
        parts@.len() >= 1,
{
    let mut parts: Vec<Vec<u8>> = Vec::new();
    let mut cur: Vec<u8> = Vec::new();
    let mut i: usize = 0;
    proof {
        assert(s@.skip(0) =~= s@);
        assert(parts.deep_view() =~~= Seq::<Seq<u8>>::empty());
        assert(parts.deep_view() + merge_front(cur@, split_colon(s@)) =~~= merge_front(
            cur@,
            split_colon(s@),
        ));
    }
    while i < s.len()
        invariant
            i <= s@.len(),
            parts.deep_view() + merge_front(cur@, split_colon(s@.skip(i as int))) == split_colon(
                s@,
            ),
        decreases s@.len() - i,
    {
        let ghost tail = s@.skip(i as int);
        proof {
            assert(tail.len() > 0);
            assert(tail[0] == s@[i as int]);
            assert(tail.skip(1) =~= s@.skip(i as int + 1));
            lemma_split_nonempty(s@.skip(i as int + 1));
        }
        let b = s[i];
        if b == 58 {
            let ghost old_parts = parts.deep_view();
            let done = cur;
            cur = Vec::new();
            parts.push(done);
            proof {
                let rest = split_colon(s@.skip(i as int + 1));
                assert(split_colon(tail) == seq![Seq::<u8>::empty()] + rest);
                assert(merge_front(done@, split_colon(tail)) =~~= seq![done@] + rest);
                assert(parts.deep_view() =~~= old_parts + seq![done@]);
                assert(parts.deep_view() + merge_front(cur@, rest) =~~= old_parts + merge_front(
                    done@,
                    split_colon(tail),
                ));
                assert(parts.deep_view() + merge_front(
                    cur@,
                    split_colon(s@.skip(i as int + 1)),
                ) == split_colon(s@));
            }
        } else {
            let ghost cur0 = cur@;
            cur.push(b);
            proof {
                let rest = split_colon(s@.skip(i as int + 1));
                assert(cur@.drop_last() =~= cur0);
                assert(split_colon(tail) == seq![seq![tail[0]] + rest[0]] + rest.skip(1));
                assert(cur@ + rest[0] =~= cur@.drop_last() + (seq![tail[0]] + rest[0]));
                assert(merge_front(cur@, rest) =~~= merge_front(
                    cur@.drop_last(),
                    split_colon(tail),
                ));
                assert(parts.deep_view() + merge_front(
                    cur@,
                    split_colon(s@.skip(i as int + 1)),
                ) == split_colon(s@));
            }
        }
        i = i + 1;
    }
    proof {
        assert(s@.skip(i as int) =~= Seq::<u8>::empty());
        assert(merge_front(cur@, split_colon(Seq::<u8>::empty())) =~~= seq![cur@]);
    }
    let ghost old_parts = parts.deep_view();
    let ghost curv = cur@;
    parts.push(cur);
    proof {
        assert(parts.deep_view() =~~= old_parts + seq![curv]);
        assert(parts.deep_view() =~~= split_colon(s@));
    }
    parts
}

/// `s` padded to 128 bytes: unchanged if already full, else `s`, a
/// colon, and `'0'` bytes up to the frame length.
pub open spec fn pad_spec(s: Seq<u8>) -> Seq<u8> {
    if s.len() == 128 {
        s
    } else {
        s + seq![58u8] + Seq::new((127 - s.len()) as nat, |i: int| 48u8)
    }
}

/// Pad a joined message out to the fixed frame length.
pub fn add_padding(msg: Vec<u8>) -> (r: Vec<u8>)
    requires
        msg@.len() <= 128,
    ensures
        r@ == pad_spec(msg@),
        r@.len() == 128,
{
    let mut r = msg;
    if r.len() == MSG_SIZE {
        return r;
    }
    let ghost orig = r@;
    r.push(58);
    while r.len() < MSG_SIZE
        invariant
            orig.len() < 128,
            r@.len() <= 128,
            r@ == orig + seq![58u8] + Seq::new((r@.len() - orig.len() - 1) as nat, |i: int| 48u8),
        decreases 128 - r@.len(),
    {
        r.push(48);
        proof {
            assert(r@ =~= orig + seq![58u8] + Seq::new((r@.len() - orig.len() - 1) as nat, |i: int| 48u8));
        }
    }
    proof {
        assert(r@ =~= pad_spec(orig));
    }
    r
}

/// The colon-joined fields of a frame before padding.
pub open spec fn msg_joined(quit: bool, mv: Seq<u8>, state: Seq<u8>, board: Seq<u8>) -> Seq<u8> {
    (if quit {
        kind_quit()
    } else {
        kind_move()
    }) + seq![58u8] + mv + seq![58u8] + state + seq![58u8] + board
}

/// The joined form of a quit frame before padding.
pub open spec fn quit_joined(reason: Seq<u8>) -> Seq<u8> {
    kind_quit() + seq![58u8] + reason
}

/// Append the kind token to `v`.
fn push_kind(v: &mut Vec<u8>, quit: bool)
    ensures
        final(v)@ == old(v)@ + if quit {
            kind_quit()
        } else {
            kind_move()
        },
{
    v.push(67);
    v.push(104);
    v.push(101);
    v.push(115);
    v.push(115);
    if quit {
        v.push(81);
        v.push(85);
        v.push(73);
        v.push(84);
        proof {
            assert(v@ =~= old(v)@ + kind_quit());
        }
    } else {
        v.push(77);
        v.push(79);
        v.push(86);
        v.push(69);
        proof {
            assert(v@ =~= old(v)@ + kind_move());
        }
    }
}

/// Build a full frame from a kind selector and three fields, joined by
/// colons and padded to the frame length.
pub fn make_msg(quit: bool, mv: Vec<u8>, state: Vec<u8>, board: Vec<u8>) -> (r: Vec<u8>)
    requires
        mv@.len() + state@.len() + board@.len() <= 116,
    ensures
        r@ == pad_spec(msg_joined(quit, mv@, state@, board@)),
        r@.len() == 128,
{
    let mut v: Vec<u8> = Vec::new();
    let mut mv = mv;
    let mut state = state;
    let mut board = board;
    let ghost mv0 = mv@;
    let ghost state0 = state@;
    let ghost board0 = board@;
    push_kind(&mut v, quit);
    v.push(58);
    v.append(&mut mv);
    v.push(58);
    v.append(&mut state);
    v.push(58);
    v.append(&mut board);
    proof {
        assert(v@ =~= msg_joined(quit, mv0, state0, board0));
    }
    add_padding(v)
}

/// Build a full quit frame carrying a reason token.
pub fn make_quit_msg(reason: Vec<u8>) -> (r: Vec<u8>)
    requires
        reason@.len() <= 118,
    ensures
        r@ == pad_spec(quit_joined(reason@)),
        r@.len() == 128,
{
    let mut v: Vec<u8> = Vec::new();
    let mut reason = reason;
    let ghost reason0 = reason@;
    push_kind(&mut v, true);
    v.push(58);
    v.append(&mut reason);
    proof {
        assert(v@ =~= quit_joined(reason0));
    }
    add_padding(v)
}

/// Does `s` decode: full length, 7-bit ASCII, a known kind token and
/// enough fields for that kind?
pub open spec fn decode_ok(s: Seq<u8>) -> bool {
    let parts = split_colon(s);
    s.len() == 128 && is_ascii_seq(s) && ((parts[0] == kind_move() && parts.len() >= 4) || (
    parts[0] == kind_quit() && parts.len() >= 2))
}

/// Is every byte of `s` 7-bit ASCII?
fn all_ascii(s: &[u8]) -> (r: bool)
    ensures
        r == is_ascii_seq(s@),
{
    let mut i: usize = 0;
    while i < s.len()
        invariant
            i <= s@.len(),
            forall|j: int| 0 <= j < i ==> s@[j] < 128,
        decreases s@.len() - i,
    {
        if s[i] >= 128 {
            return false;
        }
        i = i + 1;
    }
    true
}

/// Does `a` spell `ChessMOVE`?
fn is_kind_move(a: &Vec<u8>) -> (r: bool)
    ensures
        r == (a@ == kind_move()),
{
    let r = a.len() == 9 && a[0] == 67 && a[1] == 104 && a[2] == 101 && a[3] == 115 && a[4] == 115
        && a[5] == 77 && a[6] == 79 && a[7] == 86 && a[8] == 69;
    proof {
        if r {
            assert(a@ =~= kind_move());
        }
    }
    r
}

/// Does `a` spell `ChessQUIT`?
fn is_kind_quit(a: &Vec<u8>) -> (r: bool)
    ensures
        r == (a@ == kind_quit()),
{
    let r = a.len() == 9 && a[0] == 67 && a[1] == 104 && a[2] == 101 && a[3] == 115 && a[4] == 115
        && a[5] == 81 && a[6] == 85 && a[7] == 73 && a[8] == 84;
    proof {
        if r {
            assert(a@ =~= kind_quit());
        }
    }
    r
}

/// Decode a received frame. Fails on anything but a 128-byte ASCII
/// frame whose first field is a known kind with enough fields after it;
/// the padding after the last semantic field is dropped.
pub fn decode_frame(frame: &[u8]) -> (r: Result<Frame, CodecError>)
    ensures
        r is Ok <==> decode_ok(frame@),
        r is Ok ==> ({
            let parts = split_colon(frame@);
            match r->Ok_0 {
                Frame::Move { mv, outcome, fen } => parts[0] == kind_move() && mv@ == parts[1]
                    && outcome@ == parts[2] && fen@ == parts[3],
                Frame::Quit { reason } => parts[0] == kind_quit() && reason@ == parts[1],
            }
        }),
        r is Err ==> r->Err_0 == CodecError::MalformedFrame,
{
    if frame.len() != MSG_SIZE {
        return Err(CodecError::MalformedFrame);
    }
    if !all_ascii(frame) {
        return Err(CodecError::MalformedFrame);
    }
    let mut parts = split_fields(frame);
    let ghost sparts = split_colon(frame@);
    proof {
        assert(forall|j: int|
            0 <= j < parts@.len() ==> parts.deep_view()[j] == #[trigger] parts@[j]@);
    }
    if is_kind_move(&parts[0]) {
        if parts.len() < 4 {
            return Err(CodecError::MalformedFrame);
        }
        let fen = parts.remove(3);
        let outcome = parts.remove(2);
        let mv = parts.remove(1);
        Ok(Frame::Move { mv, outcome, fen })
    } else if is_kind_quit(&parts[0]) {
        if parts.len() < 2 {
            return Err(CodecError::MalformedFrame);
        }
        let reason = parts.remove(1);
        Ok(Frame::Quit { reason })
    } else {
        proof {
            assert(parts.deep_view()[0] == sparts[0]);
        }
        Err(CodecError::MalformedFrame)
    }
}


/// Joining two ASCII sequences yields an ASCII sequence.
proof fn lemma_ascii_concat(a: Seq<u8>, b: Seq<u8>)
    requires
        is_ascii_seq(a),
        is_ascii_seq(b),
    ensures
        is_ascii_seq(a + b),
{
    assert forall|i: int| 0 <= i < (a + b).len() implies (a + b)[i] < 128 by {
        if i < a.len() {
            assert(a[i] < 128);
        } else {
            assert(b[i - a.len()] < 128);
        }
    }
}

/// Round-trip for move frames: a frame built from colon-free ASCII
/// fields splits back into exactly the kind token and those fields,
/// and decodes.
pub proof fn lemma_round_trip_move(mv: Seq<u8>, outcome: Seq<u8>, fen: Seq<u8>)
    requires
        colon_free(mv),
        colon_free(outcome),
        colon_free(fen),
        is_ascii_seq(mv),
        is_ascii_seq(outcome),
        is_ascii_seq(fen),
        mv.len() + outcome.len() + fen.len() <= 116,
    ensures
        ({
            let f = pad_spec(msg_joined(false, mv, outcome, fen));
            let parts = split_colon(f);
            f.len() == 128 && decode_ok(f) && parts.len() >= 4 && parts[0] == kind_move()
                && parts[1] == mv && parts[2] == outcome && parts[3] == fen
        }),
{
    let j = msg_joined(false, mv, outcome, fen);
    let f = pad_spec(j);
    assert(colon_free(kind_move()));
    assert(is_ascii_seq(kind_move()));
    assert(is_ascii_seq(seq![58u8]));
    lemma_ascii_concat(kind_move(), seq![58u8]);
    lemma_ascii_concat(kind_move() + seq![58u8], mv);
    lemma_ascii_concat(kind_move() + seq![58u8] + mv, seq![58u8]);
    lemma_ascii_concat(kind_move() + seq![58u8] + mv + seq![58u8], outcome);
    lemma_ascii_concat(kind_move() + seq![58u8] + mv + seq![58u8] + outcome, seq![58u8]);
    lemma_ascii_concat(kind_move() + seq![58u8] + mv + seq![58u8] + outcome + seq![58u8], fen);
    assert(is_ascii_seq(j));
    if j.len() == 128 {
        let r2 = outcome + seq![58u8] + fen;
        let r1 = mv + seq![58u8] + r2;
        assert(f =~= kind_move() + seq![58u8] + r1);
        lemma_split_prefix(kind_move(), r1);
        lemma_split_prefix(mv, r2);
        lemma_split_prefix(outcome, fen);
        lemma_split_colon_free(fen);
        assert(split_colon(f) == seq![kind_move()] + (seq![mv] + (seq![outcome] + seq![fen])));
    } else {
        let zeros = Seq::new((127 - j.len()) as nat, |i: int| 48u8);
        assert(is_ascii_seq(zeros));
        assert(colon_free(zeros));
        lemma_ascii_concat(j, seq![58u8]);
        lemma_ascii_concat(j + seq![58u8], zeros);
        assert(f == j + seq![58u8] + zeros);
        assert(is_ascii_seq(f));
        let r3 = fen + seq![58u8] + zeros;
        let r2 = outcome + seq![58u8] + r3;
        let r1 = mv + seq![58u8] + r2;
        assert(f =~= kind_move() + seq![58u8] + r1);
        lemma_split_prefix(kind_move(), r1);
        lemma_split_prefix(mv, r2);
        lemma_split_prefix(outcome, r3);
        lemma_split_prefix(fen, zeros);
        lemma_split_colon_free(zeros);
        assert(split_colon(f) == seq![kind_move()] + (seq![mv] + (seq![outcome] + (seq![fen]
            + seq![zeros]))));
    }
}

/// Round-trip for quit frames: a frame built from a colon-free ASCII
/// reason splits back into the kind token and that reason, and decodes.
pub proof fn lemma_round_trip_quit(reason: Seq<u8>)
    requires
        colon_free(reason),
        is_ascii_seq(reason),
        reason.len() <= 118,
    ensures
        ({
            let f = pad_spec(quit_joined(reason));
            let parts = split_colon(f);
            f.len() == 128 && decode_ok(f) && parts.len() >= 2 && parts[0] == kind_quit()
                && parts[1] == reason
        }),
{
    let j = quit_joined(reason);
    let f = pad_spec(j);
    assert(colon_free(kind_quit()));
    assert(is_ascii_seq(kind_quit()));
    lemma_ascii_concat(kind_quit(), seq![58u8]);
    lemma_ascii_concat(kind_quit() + seq![58u8], reason);
    assert(is_ascii_seq(j));
    if j.len() == 128 {
        assert(f =~= kind_quit() + seq![58u8] + reason);
        lemma_split_prefix(kind_quit(), reason);
        lemma_split_colon_free(reason);
        assert(split_colon(f) == seq![kind_quit()] + seq![reason]);
    } else {
        let zeros = Seq::new((127 - j.len()) as nat, |i: int| 48u8);
        assert(is_ascii_seq(zeros));
        assert(colon_free(zeros));
        lemma_ascii_concat(j, seq![58u8]);
        lemma_ascii_concat(j + seq![58u8], zeros);
        assert(f == j + seq![58u8] + zeros);
        assert(is_ascii_seq(f));
        let r1 = reason + seq![58u8] + zeros;
        assert(f =~= kind_quit() + seq![58u8] + r1);
        lemma_split_prefix(kind_quit(), r1);
        lemma_split_prefix(reason, zeros);
        lemma_split_colon_free(zeros);
        assert(split_colon(f) == seq![kind_quit()] + (seq![reason] + seq![zeros]));
    }
}
} // verus!
