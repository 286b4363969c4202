//! Board tiles and the position fingerprint.
//!
//! The session transmits a compact piece-placement string after every
//! half-move so that both endpoints can cross-check their boards. Each of
//! the 8 rows is scanned file A to H; a maximal run of empty squares is
//! emitted as a single digit and an occupied square as a piece letter
//! (upper case for White, lower case for Black). Rows are joined by `/`.

use vstd::prelude::*;

verus! {

/// The color of a piece or of the side to move.
#[derive(Clone, Copy, Debug, PartialEq, Eq, Structural)]
pub enum Color {
    White,
    Black,
}

impl Color {
    /// The opposite color.
    pub open spec fn spec_other(self) -> Color {
        match self {
            Color::White => Color::Black,
            Color::Black => Color::White,
        }
    }

    /// The opposite color.
    #[verifier::when_used_as_spec(spec_other)]
    pub fn other(self) -> (c: Color)
        ensures
            c == self.spec_other(),
    {
        match self {
            Color::White => Color::Black,
            Color::Black => Color::White,
        }
    }
}

/// A piece kind. `GhostPawn` is the transient marker the rules engine
/// leaves on the square a pawn skipped in a two-square advance; the
/// fingerprint renders it as a pawn.
#[derive(Clone, Copy, Debug, PartialEq, Eq, Structural)]
pub enum Piece {
    Pawn,
    Knight,
    Bishop,
    Rook,
    Queen,
    King,
    GhostPawn,
}

/// One square of the board.
#[derive(Clone, Copy, Debug, PartialEq, Eq, Structural)]
pub enum Tile {
    Empty,
    Occupied(Color, Piece),
}

/// An 8 by 8 grid of tiles, row 0 at the top (Black's home row).
pub type Grid = [[Tile; 8]; 8];

/// The grid as a sequence of 8 rows of 8 tiles.
pub open spec fn grid_view(g: Grid) -> Seq<Seq<Tile>> {
    Seq::new(8, |r: int| g@[r]@)
}

/// The fingerprint letter for an occupied square.
pub open spec fn tile_byte(c: Color, p: Piece) -> u8 {
    let lower: u8 = match p {
        Piece::Pawn => 112,
        Piece::GhostPawn => 112,
        Piece::Knight => 110,
        Piece::Bishop => 98,
        Piece::Rook => 114,
        Piece::Queen => 113,
        Piece::King => 107,
    };
    match c {
        Color::White => (lower - 32) as u8,
        Color::Black => lower,
    }
}

/// The digit run for `e` preceding empty squares: one digit if `e > 0`,
/// nothing otherwise. Runs never exceed 8, so one digit always suffices.
pub open spec fn run_bytes(e: int) -> Seq<u8> {
    if e > 0 {
        seq![(48 + e) as u8]
    } else {
        Seq::<u8>::empty()
    }
}

/// The fingerprint of one row from file `i` on, with `e` empty squares
/// pending immediately before `i`.
pub open spec fn row_fen(row: Seq<Tile>, i: int, e: int) -> Seq<u8>
    decreases 8 - i,
{
    if i < 0 || i >= 8 {
        run_bytes(e)
    } else {
        match row[i] {
            Tile::Empty => row_fen(row, i + 1, e + 1),
            Tile::Occupied(c, p) => run_bytes(e) + seq![tile_byte(c, p)] + row_fen(row, i + 1, 0),
        }
    }
}

/// The fingerprint from row `r` on, rows joined by `/`.
pub open spec fn fen_rows(g: Seq<Seq<Tile>>, r: int) -> Seq<u8>
    decreases 8 - r,
{
    if r < 0 || r >= 8 {
        Seq::<u8>::empty()
    } else if r == 7 {
        row_fen(g[7], 0, 0)
    } else {
        row_fen(g[r], 0, 0) + seq![47u8] + fen_rows(g, r + 1)
    }
}

/// The full position fingerprint of a grid.
pub open spec fn fen_spec(g: Seq<Seq<Tile>>) -> Seq<u8> {
    fen_rows(g, 0)
}

/// What stands after row `r`'s own fingerprint in the full string.
pub open spec fn row_tail(g: Seq<Seq<Tile>>, r: int) -> Seq<u8> {
    if r == 7 {
        Seq::<u8>::empty()
    } else {
        seq![47u8] + fen_rows(g, r + 1)
    }
}

/// The fingerprint letter, executable form.
fn tile_byte_x(c: Color, p: Piece) -> (b: u8)
    ensures
        b == tile_byte(c, p),
{
    let lower: u8 = match p {
        Piece::Pawn => 112,
        Piece::GhostPawn => 112,
        Piece::Knight => 110,
        Piece::Bishop => 98,
        Piece::Rook => 114,
        Piece::Queen => 113,
        Piece::King => 107,
    };
    match c {
        Color::White => lower - 32,
        Color::Black => lower,
    }
}

/// Compute the position fingerprint of a grid.
pub fn to_fen(tiles: &Grid) -> (r: Vec<u8>)
    ensures
        r@ == fen_spec(grid_view(*tiles)),
{
    let ghost g = grid_view(*tiles);
    let mut fen: Vec<u8> = Vec::new();
    let mut r: usize = 0;
    while r < 8
        invariant
            r <= 8,
            fen@ + fen_rows(g, r as int) == fen_spec(g),
            g == grid_view(*tiles),
        decreases 8 - r,
    {
        let ghost row = g[r as int];
        assert(fen_rows(g, r as int) == row_fen(row, 0, 0) + row_tail(g, r as int));
        let mut e: usize = 0;
        let mut c: usize = 0;
        while c < 8
            invariant
                r < 8,
                c <= 8,
                e <= c,
                row == g[r as int],
                g == grid_view(*tiles),
                fen@ + row_fen(row, c as int, e as int) + row_tail(g, r as int) == fen_spec(g),
            decreases 8 - c,
        {
            match tiles[r][c] {
                Tile::Empty => {
                    e = e + 1;
                },
                Tile::Occupied(col, p) => {
                    if e > 0 {
                        fen.push(48 + e as u8);
                    }
                    let b = tile_byte_x(col, p);
                    fen.push(b);
                    assert(fen@ + row_fen(row, c as int + 1, 0) + row_tail(g, r as int) == fen_spec(
                        g,
                    ));
                    e = 0;
                },
            }
            c = c + 1;
        }
        if e > 0 {
            fen.push(48 + e as u8);
        }
        assert(fen@ + row_tail(g, r as int) == fen_spec(g));
        if r != 7 {
            fen.push(47);
        }
        r = r + 1;
    }
    fen
}

/// A row's fingerprint holds at most one byte per square left of it.
proof fn lemma_row_fen_len(row: Seq<Tile>, i: int, e: int)
    requires
        0 <= i <= 8,
        e >= 0,
    ensures
        row_fen(row, i, e).len() <= 8 - i + if e > 0 {
            1int
        } else {
            0int
        },
    decreases 8 - i,
{
    if i < 8 {
        match row[i] {
            Tile::Empty => {
                lemma_row_fen_len(row, i + 1, e + 1);
            },
            Tile::Occupied(c, p) => {
                lemma_row_fen_len(row, i + 1, 0);
            },
        }
    }
}

/// The whole fingerprint from row `r` on holds at most `(8 - r) * 9 - 1`
/// bytes: 8 per row plus a `/` between rows.
proof fn lemma_fen_rows_len(g: Seq<Seq<Tile>>, r: int)
    requires
        0 <= r <= 7,
    ensures
        fen_rows(g, r).len() <= (8 - r) * 9 - 1,
    decreases 8 - r,
{
    lemma_row_fen_len(g[r], 0, 0);
    if r < 7 {
        lemma_fen_rows_len(g, r + 1);
    }
}

/// A position fingerprint is never longer than 71 bytes.
pub proof fn lemma_fen_len(g: Seq<Seq<Tile>>)
    ensures
        fen_spec(g).len() <= 71,
{
    lemma_fen_rows_len(g, 0);
}

/// A tile with the en-passant marker read as an ordinary pawn.
pub open spec fn canon_tile(t: Tile) -> Tile {
    match t {
        Tile::Occupied(c, Piece::GhostPawn) => Tile::Occupied(c, Piece::Pawn),
        _ => t,
    }
}

/// Rows that agree on piece placement (ghost markers read as pawns)
/// fingerprint identically.
proof fn lemma_row_fen_canon(a: Seq<Tile>, b: Seq<Tile>, i: int, e: int)
    requires
        forall|c: int| 0 <= c < 8 ==> canon_tile(a[c]) == canon_tile(b[c]),
    ensures
        row_fen(a, i, e) == row_fen(b, i, e),
    decreases 8 - i,
{
    if 0 <= i < 8 {
        lemma_row_fen_canon(a, b, i + 1, e + 1);
        lemma_row_fen_canon(a, b, i + 1, 0);
        assert(canon_tile(a[i]) == canon_tile(b[i]));
    }
}

/// Fingerprint determinism: two grids with identical piece placement —
/// the en-passant ghost marker counting as a pawn — produce the same
/// fingerprint, whatever castling or move-count state the boards carry
/// besides their tiles.
pub proof fn lemma_fen_deterministic(a: Seq<Seq<Tile>>, b: Seq<Seq<Tile>>)
    requires
        forall|r: int, c: int|
            0 <= r < 8 && 0 <= c < 8 ==> canon_tile(a[r][c]) == canon_tile(b[r][c]),
    ensures
        fen_spec(a) == fen_spec(b),
{
    lemma_fen_rows_canon(a, b, 0);
}

/// Row-wise induction for `lemma_fen_deterministic`.
proof fn lemma_fen_rows_canon(a: Seq<Seq<Tile>>, b: Seq<Seq<Tile>>, r: int)
    requires
        forall|r0: int, c: int|
            0 <= r0 < 8 && 0 <= c < 8 ==> canon_tile(a[r0][c]) == canon_tile(b[r0][c]),
    ensures
        fen_rows(a, r) == fen_rows(b, r),
    decreases 8 - r,
{
    if 0 <= r < 8 {
        lemma_row_fen_canon(a[r], b[r], 0, 0);
        if r < 7 {
            lemma_fen_rows_canon(a, b, r + 1);
        }
    }
}

} // verus!
