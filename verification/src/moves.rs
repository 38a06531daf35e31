//! Pseudo-legal move generation, the attack detector, the make/unmake
//! legality filter, and the castling path validator.

use vstd::prelude::*;

use crate::board::{
    SIZE, Side, Square, Point, Piece, PieceType, Move, CastleDirection, grid, in_bounds, empty_at,
    full_at, friendly_at, enemy_at, gset, gmove, set_square,
};

verus! {

broadcast use vstd::seq_lib::group_seq_properties, vstd::array::group_array_axioms;

// Attack detector model.
//
// A ray is walked square by square away from the defended square; `fuel`
// bounds the walk, and 8 steps always suffice to leave an 8 x 8 board.

/// An enemy piece of the given type stands at (r, c).
pub open spec fn enemy_typ_at(
    g: Seq<Seq<Square>>,
    side: Side,
    typ: PieceType,
    r: int,
    c: int,
) -> bool {
    in_bounds(r, c) && match g[r][c] {
        Square::Full(p) => p.side != side && p.typ == typ,
        Square::Empty => false,
    }
}

/// Walking from (r, c) in direction (dr, dc), the first occupied square
/// holds an enemy piece of type t1 or t2.
pub open spec fn ray_threat_from(
    g: Seq<Seq<Square>>,
    side: Side,
    r: int,
    c: int,
    dr: int,
    dc: int,
    t1: PieceType,
    t2: PieceType,
    fuel: nat,
) -> bool
    decreases fuel,
{
    if fuel == 0 || !in_bounds(r, c) {
        false
    } else {
        match g[r][c] {
            Square::Full(p) => p.side != side && (p.typ == t1 || p.typ == t2),
            Square::Empty => ray_threat_from(
                g,
                side,
                r + dr,
                c + dc,
                dr,
                dc,
                t1,
                t2,
                (fuel - 1) as nat,
            ),
        }
    }
}

/// The first occupied square on the ray leaving (r0, c0) in direction
/// (dr, dc) holds an enemy piece of type t1 or t2.
pub open spec fn ray_threat(
    g: Seq<Seq<Square>>,
    side: Side,
    r0: int,
    c0: int,
    dr: int,
    dc: int,
    t1: PieceType,
    t2: PieceType,
) -> bool {
    ray_threat_from(g, side, r0 + dr, c0 + dc, dr, dc, t1, t2, 8)
}

/// An enemy knight attacks (r0, c0).
pub open spec fn knight_threat(g: Seq<Seq<Square>>, side: Side, r0: int, c0: int) -> bool {
    ||| enemy_typ_at(g, side, PieceType::Knight, r0 + 2, c0 + 1)
    ||| enemy_typ_at(g, side, PieceType::Knight, r0 - 2, c0 + 1)
    ||| enemy_typ_at(g, side, PieceType::Knight, r0 + 2, c0 - 1)
    ||| enemy_typ_at(g, side, PieceType::Knight, r0 - 2, c0 - 1)
    ||| enemy_typ_at(g, side, PieceType::Knight, r0 + 1, c0 + 2)
    ||| enemy_typ_at(g, side, PieceType::Knight, r0 - 1, c0 + 2)
    ||| enemy_typ_at(g, side, PieceType::Knight, r0 + 1, c0 - 2)
    ||| enemy_typ_at(g, side, PieceType::Knight, r0 - 1, c0 - 2)
}

/// An enemy pawn attacks (r0, c0), from the row it captures toward the
/// defending side from.
pub open spec fn pawn_threat(g: Seq<Seq<Square>>, side: Side, r0: int, c0: int) -> bool {
    let dr = if side == Side::White {
        1int
    } else {
        -1int
    };
    ||| enemy_typ_at(g, side, PieceType::Pawn, r0 + dr, c0 - 1)
    ||| enemy_typ_at(g, side, PieceType::Pawn, r0 + dr, c0 + 1)
}

/// The square (r0, c0) is attacked by the side opposing `side`:
/// by a rook or queen on an orthogonal ray, a bishop or queen on a
/// diagonal ray, a knight on one of its offsets, or a pawn one capture
/// step away.  (An adjacent enemy king is deliberately not counted.)
pub open spec fn attacked(g: Seq<Seq<Square>>, side: Side, r0: int, c0: int) -> bool {
    ||| ray_threat(g, side, r0, c0, 1, 0, PieceType::Rook, PieceType::Queen)
    ||| ray_threat(g, side, r0, c0, -1, 0, PieceType::Rook, PieceType::Queen)
    ||| ray_threat(g, side, r0, c0, 0, 1, PieceType::Rook, PieceType::Queen)
    ||| ray_threat(g, side, r0, c0, 0, -1, PieceType::Rook, PieceType::Queen)
    ||| ray_threat(g, side, r0, c0, 1, 1, PieceType::Bishop, PieceType::Queen)
    ||| ray_threat(g, side, r0, c0, -1, 1, PieceType::Bishop, PieceType::Queen)
    ||| ray_threat(g, side, r0, c0, 1, -1, PieceType::Bishop, PieceType::Queen)
    ||| ray_threat(g, side, r0, c0, -1, -1, PieceType::Bishop, PieceType::Queen)
    ||| knight_threat(g, side, r0, c0)
    ||| pawn_threat(g, side, r0, c0)
}

// Attack detector implementation.

/// Whether an enemy piece of the given type stands at (r, c); false off the board.
fn enemy_typ_check(
    board: &[[Square; SIZE]; SIZE],
    side: Side,
    typ: PieceType,
    r: i16,
    c: i16,
) -> (res: bool)
    ensures
        res == enemy_typ_at(grid(*board), side, typ, r as int, c as int),
{
    if r < 0 || r >= 8 || c < 0 || c >= 8 {
        return false;
    }
    match board[r as usize][c as usize] {
        Square::Full(p) => p.side != side && p.typ == typ,
        Square::Empty => false,
    }
}

/// Walk one ray and report whether its first occupied square holds an
/// enemy piece of type t1 or t2.
fn scan_ray(
    board: &[[Square; SIZE]; SIZE],
    side: Side,
    r: i16,
    c: i16,
    dr: i16,
    dc: i16,
    t1: PieceType,
    t2: PieceType,
    fuel: u8,
) -> (res: bool)
    requires
        -9 <= r <= 9,
        -9 <= c <= 9,
        -1 <= dr <= 1,
        -1 <= dc <= 1,
    ensures
        res == ray_threat_from(
            grid(*board),
            side,
            r as int,
            c as int,
            dr as int,
            dc as int,
            t1,
            t2,
            fuel as nat,
        ),
    decreases fuel,
{
    if fuel == 0 {
        return false;
    }
    if r < 0 || r >= 8 || c < 0 || c >= 8 {
        return false;
    }
    match board[r as usize][c as usize] {
        Square::Full(p) => (p.typ == t1 || p.typ == t2) && p.side != side,
        Square::Empty => scan_ray(board, side, r + dr, c + dc, dr, dc, t1, t2, fuel - 1),
    }
}

// Check if king at position is in check

pub fn in_check(side: Side, pos: Point, board: &[[Square; SIZE]; SIZE]) -> (res: bool)
    requires
        pos.0 < 8,
        pos.1 < 8,
    ensures
        res == attacked(grid(*board), side, pos.0 as int, pos.1 as int),
{
    let r = pos.0 as i16;
    let c = pos.1 as i16;

    // Check rook and queen horizontal attacks

    if scan_ray(board, side, r + 1, c, 1, 0, PieceType::Rook, PieceType::Queen, 8) {
        return true;
    }
    if scan_ray(board, side, r - 1, c, -1, 0, PieceType::Rook, PieceType::Queen, 8) {
        return true;
    }
    if scan_ray(board, side, r, c + 1, 0, 1, PieceType::Rook, PieceType::Queen, 8) {
        return true;
    }
    if scan_ray(board, side, r, c - 1, 0, -1, PieceType::Rook, PieceType::Queen, 8) {
        return true;
    }

    // Check bishop and queen diagonal attacks

    if scan_ray(board, side, r + 1, c + 1, 1, 1, PieceType::Bishop, PieceType::Queen, 8) {
        return true;
    }
    if scan_ray(board, side, r - 1, c + 1, -1, 1, PieceType::Bishop, PieceType::Queen, 8) {
        return true;
    }
    if scan_ray(board, side, r + 1, c - 1, 1, -1, PieceType::Bishop, PieceType::Queen, 8) {
        return true;
    }
    if scan_ray(board, side, r - 1, c - 1, -1, -1, PieceType::Bishop, PieceType::Queen, 8) {
        return true;
    }

    // Check knight attacks

    if enemy_typ_check(board, side, PieceType::Knight, r + 2, c + 1) {
        return true;
    }
    if enemy_typ_check(board, side, PieceType::Knight, r - 2, c + 1) {
        return true;
    }
    if enemy_typ_check(board, side, PieceType::Knight, r + 2, c - 1) {
        return true;
    }
    if enemy_typ_check(board, side, PieceType::Knight, r - 2, c - 1) {
        return true;
    }
    if enemy_typ_check(board, side, PieceType::Knight, r + 1, c + 2) {
        return true;
    }
    if enemy_typ_check(board, side, PieceType::Knight, r - 1, c + 2) {
        return true;
    }
    if enemy_typ_check(board, side, PieceType::Knight, r + 1, c - 2) {
        return true;
    }
    if enemy_typ_check(board, side, PieceType::Knight, r - 1, c - 2) {
        return true;
    }

    // Check pawn attacks

    let dr: i16 = match side {
        Side::White => 1,
        Side::Black => -1,
    };
    if enemy_typ_check(board, side, PieceType::Pawn, r + dr, c - 1) {
        return true;
    }
    if enemy_typ_check(board, side, PieceType::Pawn, r + dr, c + 1) {
        return true;
    }

    // Not in check

    false
}

// Pseudo-legal destination model.

/// `p` is exactly (r, c), written with spec-level coordinates.
pub open spec fn pt_is(p: Point, r: int, c: int) -> bool {
    p.0 as int == r && p.1 as int == c
}

/// `p` is the in-bounds square (r, c) and no friendly piece stands there.
pub open spec fn offset_dest(g: Seq<Seq<Square>>, side: Side, r: int, c: int, p: Point) -> bool {
    in_bounds(r, c) && !friendly_at(g, side, r, c) && pt_is(p, r, c)
}

/// A knight on (r0, c0) may land on `p`.
pub open spec fn knight_dest(g: Seq<Seq<Square>>, side: Side, r0: int, c0: int, p: Point) -> bool {
    ||| offset_dest(g, side, r0 + 2, c0 + 1, p)
    ||| offset_dest(g, side, r0 - 2, c0 + 1, p)
    ||| offset_dest(g, side, r0 + 2, c0 - 1, p)
    ||| offset_dest(g, side, r0 - 2, c0 - 1, p)
    ||| offset_dest(g, side, r0 + 1, c0 + 2, p)
    ||| offset_dest(g, side, r0 - 1, c0 + 2, p)
    ||| offset_dest(g, side, r0 + 1, c0 - 2, p)
    ||| offset_dest(g, side, r0 - 1, c0 - 2, p)
}

/// A king on (r0, c0) may step to `p` (king safety is not this model's concern).
pub open spec fn king_dest(g: Seq<Seq<Square>>, side: Side, r0: int, c0: int, p: Point) -> bool {
    ||| offset_dest(g, side, r0 + 1, c0, p)
    ||| offset_dest(g, side, r0 - 1, c0, p)
    ||| offset_dest(g, side, r0, c0 + 1, p)
    ||| offset_dest(g, side, r0, c0 - 1, p)
    ||| offset_dest(g, side, r0 + 1, c0 + 1, p)
    ||| offset_dest(g, side, r0 - 1, c0 + 1, p)
    ||| offset_dest(g, side, r0 + 1, c0 - 1, p)
    ||| offset_dest(g, side, r0 - 1, c0 - 1, p)
}

/// Walking from (r, c) away from a slider's origin, `p` is reachable:
/// every square before it is empty, and `p` itself is empty or enemy-held.
pub open spec fn slide_dest_from(
    g: Seq<Seq<Square>>,
    side: Side,
    r: int,
    c: int,
    dr: int,
    dc: int,
    p: Point,
    fuel: nat,
) -> bool
    decreases fuel,
{
    if fuel == 0 || !in_bounds(r, c) {
        false
    } else {
        match g[r][c] {
            Square::Full(q) => q.side != side && pt_is(p, r, c),
            Square::Empty => pt_is(p, r, c) || slide_dest_from(
                g,
                side,
                r + dr,
                c + dc,
                dr,
                dc,
                p,
                (fuel - 1) as nat,
            ),
        }
    }
}

/// A slider on (r0, c0) may move along (dr, dc) to `p`.
pub open spec fn slide_dest(
    g: Seq<Seq<Square>>,
    side: Side,
    r0: int,
    c0: int,
    dr: int,
    dc: int,
    p: Point,
) -> bool {
    slide_dest_from(g, side, r0 + dr, c0 + dc, dr, dc, p, 8)
}

/// A bishop on (r0, c0) may move to `p`.
pub open spec fn bishop_dest(g: Seq<Seq<Square>>, side: Side, r0: int, c0: int, p: Point) -> bool {
    ||| slide_dest(g, side, r0, c0, 1, 1, p)
    ||| slide_dest(g, side, r0, c0, -1, 1, p)
    ||| slide_dest(g, side, r0, c0, 1, -1, p)
    ||| slide_dest(g, side, r0, c0, -1, -1, p)
}

/// A rook on (r0, c0) may move to `p`.
pub open spec fn rook_dest(g: Seq<Seq<Square>>, side: Side, r0: int, c0: int, p: Point) -> bool {
    ||| slide_dest(g, side, r0, c0, 1, 0, p)
    ||| slide_dest(g, side, r0, c0, -1, 0, p)
    ||| slide_dest(g, side, r0, c0, 0, 1, p)
    ||| slide_dest(g, side, r0, c0, 0, -1, p)
}

/// A queen on (r0, c0) may move to `p`.
pub open spec fn queen_dest(g: Seq<Seq<Square>>, side: Side, r0: int, c0: int, p: Point) -> bool {
    bishop_dest(g, side, r0, c0, p) || rook_dest(g, side, r0, c0, p)
}

/// The row step a pawn of this side advances by.
pub open spec fn fwd(side: Side) -> int {
    if side == Side::White {
        1int
    } else {
        -1int
    }
}

/// The rank a pawn of this side double-steps from.
pub open spec fn start_row(side: Side) -> int {
    if side == Side::White {
        1int
    } else {
        6int
    }
}

/// A pawn on (r0, c0) may capture en passant onto `p`: the tracked
/// double-stepped pawn sits beside it on the same row and the square
/// diagonally forward over that pawn is empty.
pub open spec fn ep_dest(
    g: Seq<Seq<Square>>,
    side: Side,
    r0: int,
    c0: int,
    ep: Option<Point>,
    p: Point,
) -> bool {
    match ep {
        Some(q) => {
            &&& q.0 as int == r0
            &&& (q.1 as int == c0 + 1 || q.1 as int == c0 - 1)
            &&& empty_at(g, r0 + fwd(side), q.1 as int)
            &&& pt_is(p, r0 + fwd(side), q.1 as int)
        },
        None => false,
    }
}

/// A pawn on (r0, c0) may move to `p`: one step forward onto an empty
/// square, two steps from its starting rank over empty squares, a
/// diagonal capture onto an enemy piece, or an en-passant capture.
pub open spec fn pawn_dest(
    g: Seq<Seq<Square>>,
    side: Side,
    r0: int,
    c0: int,
    ep: Option<Point>,
    p: Point,
) -> bool {
    ||| (empty_at(g, r0 + fwd(side), c0) && pt_is(p, r0 + fwd(side), c0))
    ||| (r0 == start_row(side) && empty_at(g, r0 + fwd(side), c0) && empty_at(
        g,
        r0 + 2 * fwd(side),
        c0,
    ) && pt_is(p, r0 + 2 * fwd(side), c0))
    ||| (enemy_at(g, side, r0 + fwd(side), c0 - 1) && pt_is(p, r0 + fwd(side), c0 - 1))
    ||| (enemy_at(g, side, r0 + fwd(side), c0 + 1) && pt_is(p, r0 + fwd(side), c0 + 1))
    ||| ep_dest(g, side, r0, c0, ep, p)
}

/// The pseudo-legal destination relation of one piece type.
pub open spec fn piece_dest(
    g: Seq<Seq<Square>>,
    side: Side,
    typ: PieceType,
    r0: int,
    c0: int,
    ep: Option<Point>,
    p: Point,
) -> bool {
    match typ {
        PieceType::Pawn => pawn_dest(g, side, r0, c0, ep, p),
        PieceType::Knight => knight_dest(g, side, r0, c0, p),
        PieceType::Bishop => bishop_dest(g, side, r0, c0, p),
        PieceType::Rook => rook_dest(g, side, r0, c0, p),
        PieceType::Queen => queen_dest(g, side, r0, c0, p),
        PieceType::King => king_dest(g, side, r0, c0, p),
    }
}

/// A destination a slider can reach lies on the board.
proof fn lemma_slide_dest_bounds(
    g: Seq<Seq<Square>>,
    side: Side,
    r: int,
    c: int,
    dr: int,
    dc: int,
    p: Point,
    fuel: nat,
)
    requires
        slide_dest_from(g, side, r, c, dr, dc, p, fuel),
    ensures
        p.0 < 8 && p.1 < 8,
    decreases fuel,
{
    if fuel > 0 && in_bounds(r, c) {
        match g[r][c] {
            Square::Full(q) => {},
            Square::Empty => {
                if !(p.0 as int == r && p.1 as int == c) {
                    lemma_slide_dest_bounds(g, side, r + dr, c + dc, dr, dc, p, (fuel - 1) as nat);
                }
            },
        }
    }
}

/// Every pseudo-legal destination lies on the board.
pub proof fn lemma_piece_dest_bounds(
    g: Seq<Seq<Square>>,
    side: Side,
    typ: PieceType,
    r0: int,
    c0: int,
    ep: Option<Point>,
    p: Point,
)
    requires
        piece_dest(g, side, typ, r0, c0, ep, p),
    ensures
        p.0 < 8 && p.1 < 8,
    decreases (if typ == PieceType::Queen {
        1int
    } else {
        0int
    }),
{
    match typ {
        PieceType::Pawn => {},
        PieceType::Knight => {},
        PieceType::King => {},
        PieceType::Bishop => {
            if slide_dest(g, side, r0, c0, 1, 1, p) {
                lemma_slide_dest_bounds(g, side, r0 + 1, c0 + 1, 1, 1, p, 8);
            } else if slide_dest(g, side, r0, c0, -1, 1, p) {
                lemma_slide_dest_bounds(g, side, r0 - 1, c0 + 1, -1, 1, p, 8);
            } else if slide_dest(g, side, r0, c0, 1, -1, p) {
                lemma_slide_dest_bounds(g, side, r0 + 1, c0 - 1, 1, -1, p, 8);
            } else {
                lemma_slide_dest_bounds(g, side, r0 - 1, c0 - 1, -1, -1, p, 8);
            }
        },
        PieceType::Rook => {
            if slide_dest(g, side, r0, c0, 1, 0, p) {
                lemma_slide_dest_bounds(g, side, r0 + 1, c0, 1, 0, p, 8);
            } else if slide_dest(g, side, r0, c0, -1, 0, p) {
                lemma_slide_dest_bounds(g, side, r0 - 1, c0, -1, 0, p, 8);
            } else if slide_dest(g, side, r0, c0, 0, 1, p) {
                lemma_slide_dest_bounds(g, side, r0, c0 + 1, 0, 1, p, 8);
            } else {
                lemma_slide_dest_bounds(g, side, r0, c0 - 1, 0, -1, p, 8);
            }
        },
        PieceType::Queen => {
            if bishop_dest(g, side, r0, c0, p) {
                lemma_piece_dest_bounds(g, side, PieceType::Bishop, r0, c0, ep, p);
            } else {
                lemma_piece_dest_bounds(g, side, PieceType::Rook, r0, c0, ep, p);
            }
        },
    }
}

/// A slider's walk never returns to a square strictly behind its start.
proof fn lemma_slide_dest_ne(
    g: Seq<Seq<Square>>,
    side: Side,
    r: int,
    c: int,
    dr: int,
    dc: int,
    p: Point,
    fuel: nat,
    qr: int,
    qc: int,
)
    requires
        slide_dest_from(g, side, r, c, dr, dc, p, fuel),
        dr == -1 || dr == 0 || dr == 1,
        dc == -1 || dc == 0 || dc == 1,
        dr != 0 || dc != 0,
        dr == 1 ==> qr < r,
        dr == -1 ==> qr > r,
        dr == 0 ==> qr == r,
        dc == 1 ==> qc < c,
        dc == -1 ==> qc > c,
        dc == 0 ==> qc == c,
    ensures
        !(p.0 as int == qr && p.1 as int == qc),
    decreases fuel,
{
    if fuel > 0 && in_bounds(r, c) {
        match g[r][c] {
            Square::Full(q) => {},
            Square::Empty => {
                if !(p.0 as int == r && p.1 as int == c) {
                    lemma_slide_dest_ne(
                        g,
                        side,
                        r + dr,
                        c + dc,
                        dr,
                        dc,
                        p,
                        (fuel - 1) as nat,
                        qr,
                        qc,
                    );
                }
            },
        }
    }
}

/// No piece's pseudo-legal destination is its own origin.
pub proof fn lemma_piece_dest_ne(
    g: Seq<Seq<Square>>,
    side: Side,
    typ: PieceType,
    r0: int,
    c0: int,
    ep: Option<Point>,
    p: Point,
)
    requires
        piece_dest(g, side, typ, r0, c0, ep, p),
    ensures
        !(p.0 as int == r0 && p.1 as int == c0),
    decreases (if typ == PieceType::Queen {
        1int
    } else {
        0int
    }),
{
    match typ {
        PieceType::Pawn => {},
        PieceType::Knight => {},
        PieceType::King => {},
        PieceType::Bishop => {
            if slide_dest(g, side, r0, c0, 1, 1, p) {
                lemma_slide_dest_ne(g, side, r0 + 1, c0 + 1, 1, 1, p, 8, r0, c0);
            } else if slide_dest(g, side, r0, c0, -1, 1, p) {
                lemma_slide_dest_ne(g, side, r0 - 1, c0 + 1, -1, 1, p, 8, r0, c0);
            } else if slide_dest(g, side, r0, c0, 1, -1, p) {
                lemma_slide_dest_ne(g, side, r0 + 1, c0 - 1, 1, -1, p, 8, r0, c0);
            } else {
                lemma_slide_dest_ne(g, side, r0 - 1, c0 - 1, -1, -1, p, 8, r0, c0);
            }
        },
        PieceType::Rook => {
            if slide_dest(g, side, r0, c0, 1, 0, p) {
                lemma_slide_dest_ne(g, side, r0 + 1, c0, 1, 0, p, 8, r0, c0);
            } else if slide_dest(g, side, r0, c0, -1, 0, p) {
                lemma_slide_dest_ne(g, side, r0 - 1, c0, -1, 0, p, 8, r0, c0);
            } else if slide_dest(g, side, r0, c0, 0, 1, p) {
                lemma_slide_dest_ne(g, side, r0, c0 + 1, 0, 1, p, 8, r0, c0);
            } else {
                lemma_slide_dest_ne(g, side, r0, c0 - 1, 0, -1, p, 8, r0, c0);
            }
        },
        PieceType::Queen => {
            if bishop_dest(g, side, r0, c0, p) {
                lemma_piece_dest_ne(g, side, PieceType::Bishop, r0, c0, ep, p);
            } else {
                lemma_piece_dest_ne(g, side, PieceType::Rook, r0, c0, ep, p);
            }
        },
    }
}

/// Appending an element a sequence does not hold keeps it duplicate-free.
proof fn lemma_push_distinct<A>(s: Seq<A>, x: A)
    requires
        s.no_duplicates(),
        !s.contains(x),
    ensures
        s.push(x).no_duplicates(),
{
    assert forall|a: int, b: int|
        0 <= a < b < s.push(x).len() implies s.push(x)[a] != s.push(x)[b] by {
        if b == s.len() {
            assert(s.contains(s[a]));
        }
    }
}

/// A slider's walk stays on its side of the start square: each
/// coordinate moves only with its direction component.
proof fn lemma_slide_dest_quadrant(
    g: Seq<Seq<Square>>,
    side: Side,
    r: int,
    c: int,
    dr: int,
    dc: int,
    p: Point,
    fuel: nat,
)
    requires
        slide_dest_from(g, side, r, c, dr, dc, p, fuel),
        -1 <= dr <= 1,
        -1 <= dc <= 1,
    ensures
        dr == 1 ==> p.0 as int >= r,
        dr == -1 ==> p.0 as int <= r,
        dr == 0 ==> p.0 as int == r,
        dc == 1 ==> p.1 as int >= c,
        dc == -1 ==> p.1 as int <= c,
        dc == 0 ==> p.1 as int == c,
    decreases fuel,
{
    if fuel > 0 && in_bounds(r, c) {
        match g[r][c] {
            Square::Full(q) => {},
            Square::Empty => {
                if !(p.0 as int == r && p.1 as int == c) {
                    lemma_slide_dest_quadrant(
                        g,
                        side,
                        r + dr,
                        c + dc,
                        dr,
                        dc,
                        p,
                        (fuel - 1) as nat,
                    );
                }
            },
        }
    }
}

/// Two distinct rays leaving one origin reach disjoint squares.
proof fn lemma_rays_disjoint(
    g: Seq<Seq<Square>>,
    side: Side,
    r0: int,
    c0: int,
    dr1: int,
    dc1: int,
    dr2: int,
    dc2: int,
    p: Point,
)
    requires
        -1 <= dr1 <= 1,
        -1 <= dc1 <= 1,
        -1 <= dr2 <= 1,
        -1 <= dc2 <= 1,
        dr1 != 0 || dc1 != 0,
        dr2 != 0 || dc2 != 0,
        dr1 != dr2 || dc1 != dc2,
        slide_dest(g, side, r0, c0, dr1, dc1, p),
    ensures
        !slide_dest(g, side, r0, c0, dr2, dc2, p),
{
    lemma_slide_dest_quadrant(g, side, r0 + dr1, c0 + dc1, dr1, dc1, p, 8);
    if slide_dest_from(g, side, r0 + dr2, c0 + dc2, dr2, dc2, p, 8) {
        lemma_slide_dest_quadrant(g, side, r0 + dr2, c0 + dc2, dr2, dc2, p, 8);
    }
}

// Generator implementation.

/// Push (r, c) when it is on the board and not friendly-held.
fn push_offset(
    board: &[[Square; SIZE]; SIZE],
    side: Side,
    r: i16,
    c: i16,
    moves: &mut Vec<Point>,
)
    ensures
        forall|p: Point| #[trigger]
            final(moves)@.contains(p) <==> old(moves)@.contains(p) || offset_dest(
                grid(*board),
                side,
                r as int,
                c as int,
                p,
            ),
        old(moves)@.no_duplicates() && (forall|p: Point|
            old(moves)@.contains(p) ==> !offset_dest(grid(*board), side, r as int, c as int, p))
            ==> final(moves)@.no_duplicates(),
{
    if r < 0 || r >= 8 || c < 0 || c >= 8 {
        return ;
    }
    let pt = Point(r as usize, c as usize);
    match board[r as usize][c as usize] {
        Square::Full(q) => {
            if q.side != side {
                moves.push(pt);
                proof {
                    if old(moves)@.no_duplicates() && !old(moves)@.contains(pt) {
                        lemma_push_distinct(old(moves)@, pt);
                    }
                }
            }
        },
        Square::Empty => {
            moves.push(pt);
            proof {
                if old(moves)@.no_duplicates() && !old(moves)@.contains(pt) {
                    lemma_push_distinct(old(moves)@, pt);
                }
            }
        },
    }
}

/// Walk one slider ray and push every reachable square.
fn ray_moves(
    board: &[[Square; SIZE]; SIZE],
    side: Side,
    r: i16,
    c: i16,
    dr: i16,
    dc: i16,
    fuel: u8,
    moves: &mut Vec<Point>,
)
    requires
        -9 <= r <= 9,
        -9 <= c <= 9,
        -1 <= dr <= 1,
        -1 <= dc <= 1,
        dr != 0 || dc != 0,
    ensures
        forall|p: Point| #[trigger]
            final(moves)@.contains(p) <==> old(moves)@.contains(p) || slide_dest_from(
                grid(*board),
                side,
                r as int,
                c as int,
                dr as int,
                dc as int,
                p,
                fuel as nat,
            ),
        old(moves)@.no_duplicates() && (forall|p: Point|
            old(moves)@.contains(p) ==> !slide_dest_from(
                grid(*board),
                side,
                r as int,
                c as int,
                dr as int,
                dc as int,
                p,
                fuel as nat,
            )) ==> final(moves)@.no_duplicates(),
    decreases fuel,
{
    let ghost g = grid(*board);
    if fuel == 0 {
        return ;
    }
    if r < 0 || r >= 8 || c < 0 || c >= 8 {
        return ;
    }
    let pt = Point(r as usize, c as usize);
    match board[r as usize][c as usize] {
        Square::Full(q) => {
            if q.side != side {
                moves.push(pt);
                proof {
                    if old(moves)@.no_duplicates() && !old(moves)@.contains(pt) {
                        lemma_push_distinct(old(moves)@, pt);
                    }
                }
            }
        },
        Square::Empty => {
            moves.push(pt);
            proof {
                if old(moves)@.no_duplicates() && (forall|p: Point|
                    old(moves)@.contains(p) ==> !slide_dest_from(
                        g,
                        side,
                        r as int,
                        c as int,
                        dr as int,
                        dc as int,
                        p,
                        fuel as nat,
                    )) {
                    lemma_push_distinct(old(moves)@, pt);
                    assert(moves@.no_duplicates());
                    assert forall|p: Point|
                        moves@.contains(p) implies !slide_dest_from(
                        g,
                        side,
                        r as int + dr as int,
                        c as int + dc as int,
                        dr as int,
                        dc as int,
                        p,
                        (fuel - 1) as nat,
                    ) by {
                        if slide_dest_from(
                            g,
                            side,
                            r as int + dr as int,
                            c as int + dc as int,
                            dr as int,
                            dc as int,
                            p,
                            (fuel - 1) as nat,
                        ) {
                            if p == pt {
                                lemma_slide_dest_ne(
                                    g,
                                    side,
                                    r as int + dr as int,
                                    c as int + dc as int,
                                    dr as int,
                                    dc as int,
                                    p,
                                    (fuel - 1) as nat,
                                    r as int,
                                    c as int,
                                );
                            }
                        }
                    }
                }
            }
            ray_moves(board, side, r + dr, c + dc, dr, dc, fuel - 1, moves);
        },
    }
}

// Get pseudolegal pawn moves for pawn on board

pub fn get_pawn_moves(
    side: Side,
    row: usize,
    col: usize,
    board: &[[Square; SIZE]; SIZE],
    pawn_double_moved: Option<Point>,
) -> (moves: Vec<Point>)
    requires
        col < 8,
        side == Side::White ==> row < 7,
        side == Side::Black ==> 1 <= row < 8,
        pawn_double_moved matches Some(q) ==> q.0 < 8 && q.1 < 8,
    ensures
        forall|p: Point| #[trigger]
            moves@.contains(p) <==> pawn_dest(
                grid(*board),
                side,
                row as int,
                col as int,
                pawn_double_moved,
                p,
            ),
        moves@.no_duplicates(),
{
    let mut moves: Vec<Point> = Vec::new();
    let fr: usize = match side {
        Side::White => row + 1,
        Side::Black => row - 1,
    };

    // Check forward moves

    if matches!(board[fr][col], Square::Empty) {
        moves.push(Point(fr, col));
        if side == Side::White && row == 1 && matches!(board[3][col], Square::Empty) {
            moves.push(Point(3, col));
        }
        if side == Side::Black && row == 6 && matches!(board[4][col], Square::Empty) {
            moves.push(Point(4, col));
        }
    }

    // Check diagonal captures

    if col > 0 {
        if match board[fr][col - 1] {
            Square::Full(q) => q.side != side,
            Square::Empty => false,
        } {
            moves.push(Point(fr, col - 1));
        }
    }
    if col < 7 {
        if match board[fr][col + 1] {
            Square::Full(q) => q.side != side,
            Square::Empty => false,
        } {
            moves.push(Point(fr, col + 1));
        }
    }

    // Check en passant moves

    if let Some(q) = pawn_double_moved {
        if q.0 == row && (q.1 == col + 1 || q.1 + 1 == col) {
            if matches!(board[fr][q.1], Square::Empty) {
                moves.push(Point(fr, q.1));
            }
        }
    }

    moves
}

// Get pseudolegal knight moves for knight on board

pub fn get_knight_moves(
    side: Side,
    row: usize,
    col: usize,
    board: &[[Square; SIZE]; SIZE],
) -> (moves: Vec<Point>)
    requires
        row < 8,
        col < 8,
    ensures
        forall|p: Point| #[trigger]
            moves@.contains(p) <==> knight_dest(grid(*board), side, row as int, col as int, p),
        moves@.no_duplicates(),
{
    let mut moves: Vec<Point> = Vec::new();
    let r = row as i16;
    let c = col as i16;
    push_offset(board, side, r + 2, c + 1, &mut moves);
    push_offset(board, side, r - 2, c + 1, &mut moves);
    push_offset(board, side, r + 2, c - 1, &mut moves);
    push_offset(board, side, r - 2, c - 1, &mut moves);
    push_offset(board, side, r + 1, c + 2, &mut moves);
    push_offset(board, side, r - 1, c + 2, &mut moves);
    push_offset(board, side, r + 1, c - 2, &mut moves);
    push_offset(board, side, r - 1, c - 2, &mut moves);
    moves
}

// Get pseudolegal king moves for king on board

pub fn get_king_moves(
    side: Side,
    row: usize,
    col: usize,
    board: &[[Square; SIZE]; SIZE],
) -> (moves: Vec<Point>)
    requires
        row < 8,
        col < 8,
    ensures
        forall|p: Point| #[trigger]
            moves@.contains(p) <==> king_dest(grid(*board), side, row as int, col as int, p),
        moves@.no_duplicates(),
{
    let mut moves: Vec<Point> = Vec::new();
    let r = row as i16;
    let c = col as i16;
    push_offset(board, side, r + 1, c, &mut moves);
    push_offset(board, side, r - 1, c, &mut moves);
    push_offset(board, side, r, c + 1, &mut moves);
    push_offset(board, side, r, c - 1, &mut moves);
    push_offset(board, side, r + 1, c + 1, &mut moves);
    push_offset(board, side, r - 1, c + 1, &mut moves);
    push_offset(board, side, r + 1, c - 1, &mut moves);
    push_offset(board, side, r - 1, c - 1, &mut moves);
    moves
}

// Get pseudolegal bishop moves for bishop on board

pub fn get_bishop_moves(
    side: Side,
    row: usize,
    col: usize,
    board: &[[Square; SIZE]; SIZE],
) -> (moves: Vec<Point>)
    requires
        row < 8,
        col < 8,
    ensures
        forall|p: Point| #[trigger]
            moves@.contains(p) <==> bishop_dest(grid(*board), side, row as int, col as int, p),
        moves@.no_duplicates(),
{
    let ghost g = grid(*board);
    let ghost r0 = row as int;
    let ghost c0 = col as int;
    let mut moves: Vec<Point> = Vec::new();
    let r = row as i16;
    let c = col as i16;
    ray_moves(board, side, r + 1, c + 1, 1, 1, 8, &mut moves);
    proof {
        assert forall|p: Point|
            moves@.contains(p) implies !slide_dest(g, side, r0, c0, -1, 1, p) by {
            lemma_rays_disjoint(g, side, r0, c0, 1, 1, -1, 1, p);
        }
    }
    ray_moves(board, side, r - 1, c + 1, -1, 1, 8, &mut moves);
    proof {
        assert forall|p: Point|
            moves@.contains(p) implies !slide_dest(g, side, r0, c0, 1, -1, p) by {
            if slide_dest(g, side, r0, c0, 1, 1, p) {
                lemma_rays_disjoint(g, side, r0, c0, 1, 1, 1, -1, p);
            }
            if slide_dest(g, side, r0, c0, -1, 1, p) {
                lemma_rays_disjoint(g, side, r0, c0, -1, 1, 1, -1, p);
            }
        }
    }
    ray_moves(board, side, r + 1, c - 1, 1, -1, 8, &mut moves);
    proof {
        assert forall|p: Point|
            moves@.contains(p) implies !slide_dest(g, side, r0, c0, -1, -1, p) by {
            if slide_dest(g, side, r0, c0, 1, 1, p) {
                lemma_rays_disjoint(g, side, r0, c0, 1, 1, -1, -1, p);
            }
            if slide_dest(g, side, r0, c0, -1, 1, p) {
                lemma_rays_disjoint(g, side, r0, c0, -1, 1, -1, -1, p);
            }
            if slide_dest(g, side, r0, c0, 1, -1, p) {
                lemma_rays_disjoint(g, side, r0, c0, 1, -1, -1, -1, p);
            }
        }
    }
    ray_moves(board, side, r - 1, c - 1, -1, -1, 8, &mut moves);
    moves
}

// Get pseudolegal rook moves for rook on board

pub fn get_rook_moves(
    side: Side,
    row: usize,
    col: usize,
    board: &[[Square; SIZE]; SIZE],
) -> (moves: Vec<Point>)
    requires
        row < 8,
        col < 8,
    ensures
        forall|p: Point| #[trigger]
            moves@.contains(p) <==> rook_dest(grid(*board), side, row as int, col as int, p),
        moves@.no_duplicates(),
{
    let ghost g = grid(*board);
    let ghost r0 = row as int;
    let ghost c0 = col as int;
    let mut moves: Vec<Point> = Vec::new();
    let r = row as i16;
    let c = col as i16;
    ray_moves(board, side, r + 1, c, 1, 0, 8, &mut moves);
    proof {
        assert forall|p: Point|
            moves@.contains(p) implies !slide_dest(g, side, r0, c0, -1, 0, p) by {
            lemma_rays_disjoint(g, side, r0, c0, 1, 0, -1, 0, p);
        }
    }
    ray_moves(board, side, r - 1, c, -1, 0, 8, &mut moves);
    proof {
        assert forall|p: Point|
            moves@.contains(p) implies !slide_dest(g, side, r0, c0, 0, 1, p) by {
            if slide_dest(g, side, r0, c0, 1, 0, p) {
                lemma_rays_disjoint(g, side, r0, c0, 1, 0, 0, 1, p);
            }
            if slide_dest(g, side, r0, c0, -1, 0, p) {
                lemma_rays_disjoint(g, side, r0, c0, -1, 0, 0, 1, p);
            }
        }
    }
    ray_moves(board, side, r, c + 1, 0, 1, 8, &mut moves);
    proof {
        assert forall|p: Point|
            moves@.contains(p) implies !slide_dest(g, side, r0, c0, 0, -1, p) by {
            if slide_dest(g, side, r0, c0, 1, 0, p) {
                lemma_rays_disjoint(g, side, r0, c0, 1, 0, 0, -1, p);
            }
            if slide_dest(g, side, r0, c0, -1, 0, p) {
                lemma_rays_disjoint(g, side, r0, c0, -1, 0, 0, -1, p);
            }
            if slide_dest(g, side, r0, c0, 0, 1, p) {
                lemma_rays_disjoint(g, side, r0, c0, 0, 1, 0, -1, p);
            }
        }
    }
    ray_moves(board, side, r, c - 1, 0, -1, 8, &mut moves);
    moves
}

// Get pseudolegal queen moves for queen on board

pub fn get_queen_moves(
    side: Side,
    row: usize,
    col: usize,
    board: &[[Square; SIZE]; SIZE],
) -> (moves: Vec<Point>)
    requires
        row < 8,
        col < 8,
    ensures
        forall|p: Point| #[trigger]
            moves@.contains(p) <==> queen_dest(grid(*board), side, row as int, col as int, p),
        moves@.no_duplicates(),
{
    let ghost g = grid(*board);
    let ghost r0 = row as int;
    let ghost c0 = col as int;
    let mut moves: Vec<Point> = Vec::new();
    let r = row as i16;
    let c = col as i16;
    ray_moves(board, side, r + 1, c + 1, 1, 1, 8, &mut moves);
    proof {
        ray_clear_among(g, side, r0, c0, moves@, -1, 1);
    }
    ray_moves(board, side, r - 1, c + 1, -1, 1, 8, &mut moves);
    proof {
        ray_clear_among(g, side, r0, c0, moves@, 1, -1);
    }
    ray_moves(board, side, r + 1, c - 1, 1, -1, 8, &mut moves);
    proof {
        ray_clear_among(g, side, r0, c0, moves@, -1, -1);
    }
    ray_moves(board, side, r - 1, c - 1, -1, -1, 8, &mut moves);
    proof {
        ray_clear_among(g, side, r0, c0, moves@, 1, 0);
    }
    ray_moves(board, side, r + 1, c, 1, 0, 8, &mut moves);
    proof {
        ray_clear_among(g, side, r0, c0, moves@, -1, 0);
    }
    ray_moves(board, side, r - 1, c, -1, 0, 8, &mut moves);
    proof {
        ray_clear_among(g, side, r0, c0, moves@, 0, 1);
    }
    ray_moves(board, side, r, c + 1, 0, 1, 8, &mut moves);
    proof {
        ray_clear_among(g, side, r0, c0, moves@, 0, -1);
    }
    ray_moves(board, side, r, c - 1, 0, -1, 8, &mut moves);
    moves
}

/// Points lying on any ray other than (dr, dc) do not lie on (dr, dc):
/// applied to what a queen's sweep has gathered before that ray.
proof fn ray_clear_among(
    g: Seq<Seq<Square>>,
    side: Side,
    r0: int,
    c0: int,
    gathered: Seq<Point>,
    dr: int,
    dc: int,
)
    requires
        -1 <= dr <= 1,
        -1 <= dc <= 1,
        dr != 0 || dc != 0,
        forall|p: Point| #[trigger]
            gathered.contains(p) ==> {
                ||| (!(dr == 1 && dc == 1) && slide_dest(g, side, r0, c0, 1, 1, p))
                ||| (!(dr == -1 && dc == 1) && slide_dest(g, side, r0, c0, -1, 1, p))
                ||| (!(dr == 1 && dc == -1) && slide_dest(g, side, r0, c0, 1, -1, p))
                ||| (!(dr == -1 && dc == -1) && slide_dest(g, side, r0, c0, -1, -1, p))
                ||| (!(dr == 1 && dc == 0) && slide_dest(g, side, r0, c0, 1, 0, p))
                ||| (!(dr == -1 && dc == 0) && slide_dest(g, side, r0, c0, -1, 0, p))
                ||| (!(dr == 0 && dc == 1) && slide_dest(g, side, r0, c0, 0, 1, p))
                ||| (!(dr == 0 && dc == -1) && slide_dest(g, side, r0, c0, 0, -1, p))
            },
    ensures
        forall|p: Point| #[trigger]
            gathered.contains(p) ==> !slide_dest(g, side, r0, c0, dr, dc, p),
{
    assert forall|p: Point| #[trigger]
        gathered.contains(p) implies !slide_dest(g, side, r0, c0, dr, dc, p) by {
        if !(dr == 1 && dc == 1) && slide_dest(g, side, r0, c0, 1, 1, p) {
            lemma_rays_disjoint(g, side, r0, c0, 1, 1, dr, dc, p);
        } else if !(dr == -1 && dc == 1) && slide_dest(g, side, r0, c0, -1, 1, p) {
            lemma_rays_disjoint(g, side, r0, c0, -1, 1, dr, dc, p);
        } else if !(dr == 1 && dc == -1) && slide_dest(g, side, r0, c0, 1, -1, p) {
            lemma_rays_disjoint(g, side, r0, c0, 1, -1, dr, dc, p);
        } else if !(dr == -1 && dc == -1) && slide_dest(g, side, r0, c0, -1, -1, p) {
            lemma_rays_disjoint(g, side, r0, c0, -1, -1, dr, dc, p);
        } else if !(dr == 1 && dc == 0) && slide_dest(g, side, r0, c0, 1, 0, p) {
            lemma_rays_disjoint(g, side, r0, c0, 1, 0, dr, dc, p);
        } else if !(dr == -1 && dc == 0) && slide_dest(g, side, r0, c0, -1, 0, p) {
            lemma_rays_disjoint(g, side, r0, c0, -1, 0, dr, dc, p);
        } else if !(dr == 0 && dc == 1) && slide_dest(g, side, r0, c0, 0, 1, p) {
            lemma_rays_disjoint(g, side, r0, c0, 0, 1, dr, dc, p);
        } else if !(dr == 0 && dc == -1) && slide_dest(g, side, r0, c0, 0, -1, p) {
            lemma_rays_disjoint(g, side, r0, c0, 0, -1, dr, dc, p);
        }
    }
}

// Legality filter.

/// Making the move on the board leaves the mover's king unattacked;
/// the king square follows the move when the king itself is the mover.
pub open spec fn move_is_safe(g: Seq<Seq<Square>>, side: Side, king_pos: Point, m: Move) -> bool {
    let kp = if m.from == king_pos {
        m.to
    } else {
        king_pos
    };
    !attacked(gmove(g, m.from, m.to), side, kp.0 as int, kp.1 as int)
}

/// Every square of the move lies on the board.
pub open spec fn move_in_bounds(m: Move) -> bool {
    m.from.0 < 8 && m.from.1 < 8 && m.to.0 < 8 && m.to.1 < 8
}

/// Probe one candidate: make the move, ask the detector, and restore the
/// two touched squares exactly, whatever the answer was.
fn probe_move(board: &mut [[Square; SIZE]; SIZE], side: Side, king_pos: Point, m: Move) -> (safe:
    bool)
    requires
        king_pos.0 < 8,
        king_pos.1 < 8,
        move_in_bounds(m),
    ensures
        *final(board) == *old(board),
        safe == move_is_safe(grid(*old(board)), side, king_pos, m),
{
    let ghost g0 = grid(*board);
    let ghost fr = m.from.0 as int;
    let ghost fc = m.from.1 as int;
    let ghost tr = m.to.0 as int;
    let ghost tc = m.to.1 as int;

    // Make move on board

    let from_sq = board[m.from.0][m.from.1];
    let replaced = board[m.to.0][m.to.1];
    proof {
        assert(from_sq == g0[fr][fc]);
        assert(replaced == g0[tr][tc]);
    }
    set_square(board, m.to.0, m.to.1, from_sq);
    set_square(board, m.from.0, m.from.1, Square::Empty);
    let ghost g2 = grid(*board);
    proof {
        assert(g2 =~~= gmove(g0, m.from, m.to));
    }

    let kp = if m.from == king_pos {
        m.to
    } else {
        king_pos
    };
    let safe = !in_check(side, kp, board);

    // Unmake move on board

    let cur = board[m.to.0][m.to.1];
    proof {
        assert(cur == g2[tr][tc]);
    }
    set_square(board, m.from.0, m.from.1, cur);
    set_square(board, m.to.0, m.to.1, replaced);
    proof {
        assert(grid(*board) == gset(gset(g2, fr, fc, cur), tr, tc, replaced));
        assert(grid(*board) =~~= g0);
        assert forall|i: int, j: int|
            0 <= i < 8 && 0 <= j < 8 implies (*board)@[i]@[j] == (*old(board))@[i]@[j] by {
            assert(grid(*board)[i][j] == (*board)@[i]@[j]);
            assert(grid(*old(board))[i][j] == (*old(board))@[i]@[j]);
        }
        assert forall|i: int| 0 <= i < 8 implies (*board)@[i] =~= (*old(board))@[i] by {
            assert(forall|j: int| 0 <= j < 8 ==> (*board)@[i]@[j] == (*old(board))@[i]@[j]);
        }
        assert(*board =~= *old(board));
    }
    safe
}

// Filter legal moves from possible moves

pub fn filter_legal_moves(
    side: Side,
    possible: Vec<Move>,
    board: &mut [[Square; SIZE]; SIZE],
    king_pos: Point,
) -> (legal: Vec<Move>)
    requires
        king_pos.0 < 8,
        king_pos.1 < 8,
        forall|i: int| 0 <= i < possible@.len() ==> move_in_bounds(#[trigger] possible@[i]),
    ensures
        *final(board) == *old(board),
        legal@ == possible@.filter(
            |m: Move| move_is_safe(grid(*old(board)), side, king_pos, m),
        ),
        forall|m: Move| #[trigger]
            legal@.contains(m) <==> possible@.contains(m) && move_is_safe(
                grid(*old(board)),
                side,
                king_pos,
                m,
            ),
        possible@.no_duplicates() ==> legal@.no_duplicates(),
{
    let ghost b0 = *board;
    let mut legal: Vec<Move> = Vec::new();
    let mut i: usize = 0;
    while i < possible.len()
        invariant
            i <= possible@.len(),
            king_pos.0 < 8,
            king_pos.1 < 8,
            forall|k: int| 0 <= k < possible@.len() ==> move_in_bounds(#[trigger] possible@[k]),
            *board == b0,
            b0 == *old(board),
            legal@ == possible@.take(i as int).filter(
                |m: Move| move_is_safe(grid(*old(board)), side, king_pos, m),
            ),
            forall|m: Move| #[trigger]
                legal@.contains(m) <==> possible@.take(i as int).contains(m) && move_is_safe(
                    grid(b0),
                    side,
                    king_pos,
                    m,
                ),
            possible@.no_duplicates() ==> legal@.no_duplicates(),
        decreases possible@.len() - i,
    {
        let m = possible[i];
        let safe = probe_move(board, side, king_pos, m);
        proof {
            assert(possible@.take(i + 1) =~= possible@.take(i as int).push(m));
            assert(forall|x: Move| #[trigger]
                possible@.take(i + 1).contains(x) <==> possible@.take(i as int).contains(x) || x
                    == m);
            if possible@.no_duplicates() && possible@.take(i as int).contains(m) {
                let k = choose|k: int|
                    0 <= k < i && #[trigger] possible@.take(i as int)[k] == m;
                assert(possible@[k] == possible@[i as int]);
                assert(false);
            }
            let s1 = possible@.take(i + 1);
            assert(s1.drop_last() == possible@.take(i as int));
            assert(s1.last() == m);
            reveal_with_fuel(Seq::filter, 2);
            assert(s1.filter(|x: Move| move_is_safe(grid(*old(board)), side, king_pos, x))
                == if move_is_safe(grid(*old(board)), side, king_pos, m) {
                possible@.take(i as int).filter(
                    |x: Move| move_is_safe(grid(*old(board)), side, king_pos, x),
                ).push(m)
            } else {
                possible@.take(i as int).filter(
                    |x: Move| move_is_safe(grid(*old(board)), side, king_pos, x),
                )
            });
        }
        if safe {
            let ghost oldl = legal@;
            legal.push(m);
            proof {
                if possible@.no_duplicates() {
                    assert(!oldl.contains(m));
                    assert forall|a: int, b: int|
                        0 <= a < b < legal@.len() implies legal@[a] != legal@[b] by {
                        if b + 1 == legal@.len() {
                            assert(legal@[b] == m);
                            assert(oldl[a] == legal@[a]);
                            assert(oldl.contains(oldl[a]));
                        } else {
                            assert(oldl[a] == legal@[a] && oldl[b] == legal@[b]);
                        }
                    }
                    assert(legal@.no_duplicates());
                }
            }
        }
        i += 1;
    }
    proof {
        assert(possible@.take(possible@.len() as int) =~= possible@);
    }
    legal
}

// Check if king can castle in specified direction given castling right

/// The castling path rule for one direction: every column the span
/// covers is empty apart from the king's own (the rook's home column is
/// the rook's), and no column the king starts on, passes through, or
/// lands on is attacked.
pub open spec fn castle_path_ok(
    g: Seq<Seq<Square>>,
    side: Side,
    dir: CastleDirection,
    kp: Point,
) -> bool {
    match dir {
        CastleDirection::A => {
            &&& (forall|col: int|
                1 <= col <= 4 && col != kp.1 as int ==> !full_at(g, kp.0 as int, col))
            &&& (forall|col: int| 2 <= col <= 4 ==> !attacked(g, side, kp.0 as int, col))
        },
        CastleDirection::H => {
            &&& (forall|col: int|
                4 <= col <= 6 && col != kp.1 as int ==> !full_at(g, kp.0 as int, col))
            &&& (forall|col: int| 4 <= col <= 6 ==> !attacked(g, side, kp.0 as int, col))
        },
    }
}

/// Whether the column blocks castling: occupied and not the king's own.
fn castle_col_blocked(board: &[[Square; SIZE]; SIZE], kp: Point, col: usize) -> (res: bool)
    requires
        kp.0 < 8,
        col < 8,
    ensures
        res == (col as int != kp.1 as int && full_at(grid(*board), kp.0 as int, col as int)),
{
    col != kp.1 && matches!(board[kp.0][col], Square::Full(_))
}

pub fn can_castle(
    side: Side,
    dir: CastleDirection,
    board: &[[Square; SIZE]; SIZE],
    king_pos: Point,
) -> (res: bool)
    requires
        king_pos.0 < 8,
        king_pos.1 < 8,
    ensures
        res == castle_path_ok(grid(*board), side, dir, king_pos),
{
    let r = king_pos.0;
    match dir {
        CastleDirection::A => {
            if castle_col_blocked(board, king_pos, 1) || castle_col_blocked(board, king_pos, 2)
                || castle_col_blocked(board, king_pos, 3) || castle_col_blocked(
                board,
                king_pos,
                4,
            ) {
                return false;
            }
            if in_check(side, Point(r, 2), board) || in_check(side, Point(r, 3), board)
                || in_check(side, Point(r, 4), board) {
                return false;
            }
            assert forall|col: int| 1 <= col <= 4 && col != king_pos.1 as int implies !full_at(
                grid(*board),
                r as int,
                col,
            ) by {
                assert(col == 1 || col == 2 || col == 3 || col == 4);
            }
            assert forall|col: int| 2 <= col <= 4 implies !attacked(
                grid(*board),
                side,
                r as int,
                col,
            ) by {
                assert(col == 2 || col == 3 || col == 4);
            }
            true
        },
        CastleDirection::H => {
            if castle_col_blocked(board, king_pos, 4) || castle_col_blocked(board, king_pos, 5)
                || castle_col_blocked(board, king_pos, 6) {
                return false;
            }
            if in_check(side, Point(r, 4), board) || in_check(side, Point(r, 5), board)
                || in_check(side, Point(r, 6), board) {
                return false;
            }
            assert forall|col: int| 4 <= col <= 6 && col != king_pos.1 as int implies !full_at(
                grid(*board),
                r as int,
                col,
            ) by {
                assert(col == 4 || col == 5 || col == 6);
            }
            assert forall|col: int| 4 <= col <= 6 implies !attacked(
                grid(*board),
                side,
                r as int,
                col,
            ) by {
                assert(col == 4 || col == 5 || col == 6);
            }
            true
        },
    }
}

} // verus!
