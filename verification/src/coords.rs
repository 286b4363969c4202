//! Move strings.
//!
//! A move travels as five ASCII bytes `F R T r P`: source file `A`-`H`,
//! source rank digit `1`-`8`, destination file and rank likewise, and a
//! promotion letter (`Q` for White, `q` for Black; the receiver accepts
//! any byte there). Ranks count from White's home row, so internal row
//! index `row` encodes as the digit `8 - row`.

use vstd::prelude::*;

verus! {

/// Why a move string was rejected.
#[derive(Clone, Copy, Debug, PartialEq, Eq, Structural)]
pub enum MoveError {
    BadMoveString,
}

/// Does the byte name a file, `A`-`H` or `a`-`h`?
pub open spec fn is_file_byte(b: u8) -> bool {
    (65 <= b && b <= 72) || (97 <= b && b <= 104)
}

/// The column index a file byte names.
pub open spec fn file_index(b: u8) -> int {
    if 97 <= b && b <= 104 {
        b - 97
    } else {
        b - 65
    }
}

/// Does the byte name a rank, `1`-`8`?
pub open spec fn is_rank_byte(b: u8) -> bool {
    49 <= b && b <= 56
}

/// The row index a rank byte names: rank 1 is row 7.
pub open spec fn rank_row(b: u8) -> int {
    56 - b
}

/// Is `mv` a well-formed move string: at least five bytes, files and
/// ranks in range? The fifth byte is free.
pub open spec fn move_ok(mv: Seq<u8>) -> bool {
    mv.len() >= 5 && is_file_byte(mv[0]) && is_rank_byte(mv[1]) && is_file_byte(mv[2])
        && is_rank_byte(mv[3])
}

/// The five bytes of the move from `(fc, fr)` to `(tc, tr)` with the
/// promotion letter of `white`.
pub open spec fn move_bytes(fc: int, fr: int, tc: int, tr: int, white: bool) -> Seq<u8> {
    seq![
        (65 + fc) as u8,
        (56 - fr) as u8,
        (65 + tc) as u8,
        (56 - tr) as u8,
        if white {
            81u8
        } else {
            113u8
        },
    ]
}

/// Build the wire form of a move: source square, destination square and
/// the mover's promotion letter.
pub fn make_move_string(fc: usize, fr: usize, tc: usize, tr: usize, white: bool) -> (r: Vec<u8>)
    requires
        fc < 8,
        fr < 8,
        tc < 8,
        tr < 8,
    ensures
        r@ == move_bytes(fc as int, fr as int, tc as int, tr as int, white),
{
    let mut v: Vec<u8> = Vec::new();
    v.push(65 + fc as u8);
    v.push(56 - fr as u8);
    v.push(65 + tc as u8);
    v.push(56 - tr as u8);
    v.push(if white {
        81
    } else {
        113
    });
    assert(v@ =~= move_bytes(fc as int, fr as int, tc as int, tr as int, white));
    v
}

/// What a well-formed move string decodes to: source column and row,
/// destination column and row, and the promotion byte as received.
pub open spec fn decoded_move(mv: Seq<u8>) -> (int, int, int, int, u8) {
    (file_index(mv[0]), rank_row(mv[1]), file_index(mv[2]), rank_row(mv[3]), mv[4])
}

/// The column a file byte names, or `None` for any other byte.
fn parse_file(b: u8) -> (r: Option<usize>)
    ensures
        r is Some <==> is_file_byte(b),
        r is Some ==> r->0 == file_index(b) && r->0 < 8,
{
    if 65 <= b && b <= 72 {
        Some((b - 65) as usize)
    } else if 97 <= b && b <= 104 {
        Some((b - 97) as usize)
    } else {
        None
    }
}

/// The row a rank byte names, or `None` for any other byte.
fn parse_rank(b: u8) -> (r: Option<usize>)
    ensures
        r is Some <==> is_rank_byte(b),
        r is Some ==> r->0 == rank_row(b) && r->0 < 8,
{
    if 49 <= b && b <= 56 {
        Some((56 - b) as usize)
    } else {
        None
    }
}

/// Decode a move string into `(fc, fr, tc, tr, promotion)`. Rejects a
/// string shorter than five bytes, a byte outside `A`-`H` / `a`-`h` in a
/// file position, or one outside `1`-`8` in a rank position; bytes past
/// the fifth are ignored.
pub fn from_move_string(mv: &[u8]) -> (r: Result<(usize, usize, usize, usize, u8), MoveError>)
    ensures
        r is Ok <==> move_ok(mv@),
        r is Ok ==> ({
            let (fc, fr, tc, tr, p) = r->Ok_0;
            fc < 8 && fr < 8 && tc < 8 && tr < 8 && (fc as int, fr as int, tc as int, tr as int, p)
                == decoded_move(mv@)
        }),
        r is Err ==> r->Err_0 == MoveError::BadMoveString,
{
    if mv.len() < 5 {
        return Err(MoveError::BadMoveString);
    }
    let fc = match parse_file(mv[0]) {
        Some(c) => c,
        None => {
            return Err(MoveError::BadMoveString);
        },
    };
    let fr = match parse_rank(mv[1]) {
        Some(r) => r,
        None => {
            return Err(MoveError::BadMoveString);
        },
    };
    let tc = match parse_file(mv[2]) {
        Some(c) => c,
        None => {
            return Err(MoveError::BadMoveString);
        },
    };
    let tr = match parse_rank(mv[3]) {
        Some(r) => r,
        None => {
            return Err(MoveError::BadMoveString);
        },
    };
    Ok((fc, fr, tc, tr, mv[4]))
}

/// Coordinate round-trip: decoding the move string built from in-range
/// coordinates gives the same coordinates back, with promotion byte `Q`
/// for White and `q` for Black.
pub proof fn lemma_move_string_round_trip(fc: int, fr: int, tc: int, tr: int, white: bool)
    requires
        0 <= fc < 8,
        0 <= fr < 8,
        0 <= tc < 8,
        0 <= tr < 8,
    ensures
        move_ok(move_bytes(fc, fr, tc, tr, white)),
        decoded_move(move_bytes(fc, fr, tc, tr, white)) == (fc, fr, tc, tr, if white {
            81u8
        } else {
            113u8
        }),
{
}

} // verus!
