//! Committing moves and evaluating the terminal state of a game.

use vstd::prelude::*;

use crate::board::{
    Side, Square, Point, Piece, PieceType, Move, KingPositions, CastleRights, CastleDirection,
    Game, grid, in_bounds, gset, set_square, home_row, rook_home_col,
};
use crate::moves::{
    self, attacked, piece_dest, move_is_safe, move_in_bounds, filter_legal_moves,
};
use crate::move_input::{PlayerMove, File, MoveType, MoveError, spec_validate, validate_move};

verus! {

broadcast use vstd::seq_lib::group_seq_properties, vstd::array::group_array_axioms;

// Result of game (win, draw, or ongoing)

#[derive(Clone, Copy, PartialEq, Eq, Structural, Debug)]
pub enum GameResult {
    Win(Side),
    Draw(DrawType),
    Ongoing,
}

#[derive(Clone, Copy, PartialEq, Eq, Structural, Debug)]
pub enum DrawType {
    Repetition,
    Stalemate,
    Material,
    FiftyMove,
}

// Candidate model: which origins can make a requested move.

/// The origin disambiguation filter admits (r, c).
pub open spec fn origin_matches(f: File, r: int, c: int) -> bool {
    match f {
        File::Row(row) => row as int == r,
        File::Column(col) => col as int == c,
        File::Any => true,
    }
}

/// A piece of the requested kind belonging to the side to move stands on
/// `from`, the origin filter admits it, and the requested destination is
/// among its pseudo-legal destinations.
pub open spec fn candidate(gm: Game, md: PlayerMove, from: Point) -> bool {
    &&& from.0 < 8 && from.1 < 8
    &&& origin_matches(md.from, from.0 as int, from.1 as int)
    &&& grid(gm.board)[from.0 as int][from.1 as int] == Square::Full(
        Piece { side: gm.turn, typ: md.piece },
    )
    &&& piece_dest(
        grid(gm.board),
        gm.turn,
        md.piece,
        from.0 as int,
        from.1 as int,
        gm.pawn_double_moved,
        md.to,
    )
}

/// A candidate that also passes the king-safety probe.
pub open spec fn legal_candidate(gm: Game, md: PlayerMove, from: Point) -> bool {
    candidate(gm, md, from) && move_is_safe(
        grid(gm.board),
        gm.turn,
        gm.king_positions.spec_pos(gm.turn),
        Move { from, to: md.to },
    )
}

/// At most one origin can legally make the requested move.
pub open spec fn unique_legal(gm: Game, md: PlayerMove) -> bool {
    forall|f1: Point, f2: Point|
        legal_candidate(gm, md, f1) && legal_candidate(gm, md, f2) ==> f1 == f2
}

// Commit model: how one disambiguated move transforms the state.

/// The committed move is an en-passant capture: a pawn moved diagonally
/// onto an empty square.
pub open spec fn is_ep_commit(g: Seq<Seq<Square>>, md: PlayerMove, from: Point) -> bool {
    md.piece == PieceType::Pawn && md.to.1 != from.1 && g[md.to.0 as int][md.to.1 as int] is Empty
}

/// The board after the commit: the moved (or chosen promotion) piece on
/// the destination, the origin cleared, and for an en-passant capture
/// the passed pawn's square cleared as well.
pub open spec fn committed_grid(
    g: Seq<Seq<Square>>,
    turn: Side,
    md: PlayerMove,
    from: Point,
) -> Seq<Seq<Square>> {
    let placed = match md.typ {
        MoveType::Promotion(t) => Square::Full(Piece { side: turn, typ: t }),
        MoveType::CapturePromotion(t) => Square::Full(Piece { side: turn, typ: t }),
        _ => g[from.0 as int][from.1 as int],
    };
    let g1 = gset(g, md.to.0 as int, md.to.1 as int, placed);
    let g2 = gset(g1, from.0 as int, from.1 as int, Square::Empty);
    if is_ep_commit(g, md, from) {
        gset(g2, from.0 as int, md.to.1 as int, Square::Empty)
    } else {
        g2
    }
}

/// The cached king positions after the commit.
pub open spec fn committed_kings(k: KingPositions, turn: Side, md: PlayerMove) -> KingPositions {
    if md.piece == PieceType::King {
        match turn {
            Side::White => KingPositions { white: md.to, black: k.black },
            Side::Black => KingPositions { white: k.white, black: md.to },
        }
    } else {
        k
    }
}

/// The castle rights after the commit: a king move revokes both of its
/// side's rights, a rook moving off its home square revokes that right,
/// and a move landing on any rook home square revokes the matching right
/// (capturing the rook that held it).
pub open spec fn committed_rights(
    rt: CastleRights,
    turn: Side,
    md: PlayerMove,
    from: Point,
    to: Point,
) -> CastleRights {
    let rt1 = if md.piece == PieceType::King {
        match turn {
            Side::White => CastleRights { white: (false, false), black: rt.black },
            Side::Black => CastleRights { white: rt.white, black: (false, false) },
        }
    } else if md.piece == PieceType::Rook {
        match turn {
            Side::White => {
                if from == Point(0, 0) {
                    CastleRights { white: (false, rt.white.1), black: rt.black }
                } else if from == Point(0, 7) {
                    CastleRights { white: (rt.white.0, false), black: rt.black }
                } else {
                    rt
                }
            },
            Side::Black => {
                if from == Point(7, 0) {
                    CastleRights { white: rt.white, black: (false, rt.black.1) }
                } else if from == Point(7, 7) {
                    CastleRights { white: rt.white, black: (rt.black.0, false) }
                } else {
                    rt
                }
            },
        }
    } else {
        rt
    };
    let w0 = rt1.white.0 && to != Point(0, 0);
    let w1 = rt1.white.1 && to != Point(0, 7);
    let b0 = rt1.black.0 && to != Point(7, 0);
    let b1 = rt1.black.1 && to != Point(7, 7);
    CastleRights { white: (w0, w1), black: (b0, b1) }
}

/// The double-step slot after the commit: set to the destination of a
/// pawn that just moved two rows, cleared otherwise.
pub open spec fn committed_slot(md: PlayerMove, from: Point) -> Option<Point> {
    if md.piece == PieceType::Pawn && (from.0 as int - md.to.0 as int == 2 || md.to.0 as int
        - from.0 as int == 2) {
        Some(md.to)
    } else {
        None
    }
}

/// The half-move clock after the commit: reset by any pawn move, capture
/// or promotion, incremented otherwise.
pub open spec fn committed_clock(clock: u32, md: PlayerMove) -> int {
    match md.typ {
        MoveType::Move => if md.piece == PieceType::Pawn {
            0int
        } else {
            clock + 1
        },
        MoveType::Capture => 0int,
        MoveType::Promotion(_) => 0int,
        MoveType::CapturePromotion(_) => 0int,
        MoveType::Castle(_) => clock + 1,
    }
}

/// The stored Zobrist key names the position now on the board: the
/// fingerprint is brought up to date after every committed move.
pub open spec fn rekeyed(post: Game) -> bool {
    &&& post.zobrist_table.inv()
    &&& post.zobrist_table.spec_key() == crate::zobrist::position_key(
        post.turn,
        grid(post.board),
        post.castle_rights,
        crate::zobrist::ep_file(grid(post.board), post.turn, post.pawn_double_moved),
    )
}

/// The full effect of committing one disambiguated non-castle move.
pub open spec fn committed_ok(pre: Game, md: PlayerMove, from: Point, post: Game) -> bool {
    &&& grid(post.board) == committed_grid(grid(pre.board), pre.turn, md, from)
    &&& post.turn == pre.turn.spec_opposite()
    &&& post.king_positions == committed_kings(pre.king_positions, pre.turn, md)
    &&& post.castle_rights == committed_rights(pre.castle_rights, pre.turn, md, from, md.to)
    &&& post.pawn_double_moved == committed_slot(md, from)
    &&& post.last_active_ply as int == committed_clock(pre.last_active_ply, md)
    &&& rekeyed(post)
}

// Castle commit model.

/// The column the king lands on when castling.
pub open spec fn castle_king_col(dir: CastleDirection) -> int {
    match dir {
        CastleDirection::A => 2int,
        CastleDirection::H => 6int,
    }
}

/// The column the rook lands on when castling.
pub open spec fn castle_rook_col(dir: CastleDirection) -> int {
    match dir {
        CastleDirection::A => 3int,
        CastleDirection::H => 5int,
    }
}

/// Where the king stands after castling.
pub open spec fn castled_king_pos(turn: Side, dir: CastleDirection) -> Point {
    match turn {
        Side::White => match dir {
            CastleDirection::A => Point(0, 2),
            CastleDirection::H => Point(0, 6),
        },
        Side::Black => match dir {
            CastleDirection::A => Point(7, 2),
            CastleDirection::H => Point(7, 6),
        },
    }
}

/// The board after castling: king and rook moved to their castled
/// squares, their home squares cleared.
pub open spec fn castled_grid(g: Seq<Seq<Square>>, turn: Side, dir: CastleDirection) -> Seq<
    Seq<Square>,
> {
    let row = home_row(turn);
    let kc = castle_king_col(dir);
    let rc = rook_home_col(dir);
    let rc2 = castle_rook_col(dir);
    let g1 = gset(g, row, kc, g[row][4]);
    let g2 = gset(g1, row, rc2, g1[row][rc]);
    let g3 = gset(g2, row, 4, Square::Empty);
    gset(g3, row, rc, Square::Empty)
}

/// The full effect of committing a castle.
pub open spec fn castled_ok(pre: Game, dir: CastleDirection, post: Game) -> bool {
    &&& grid(post.board) == castled_grid(grid(pre.board), pre.turn, dir)
    &&& post.turn == pre.turn.spec_opposite()
    &&& post.king_positions == (match pre.turn {
        Side::White => KingPositions {
            white: castled_king_pos(Side::White, dir),
            black: pre.king_positions.black,
        },
        Side::Black => KingPositions {
            white: pre.king_positions.white,
            black: castled_king_pos(Side::Black, dir),
        },
    })
    &&& post.castle_rights == (match pre.turn {
        Side::White => CastleRights { white: (false, false), black: pre.castle_rights.black },
        Side::Black => CastleRights { white: pre.castle_rights.white, black: (false, false) },
    })
    &&& post.pawn_double_moved is None
    &&& post.last_active_ply as int == pre.last_active_ply + 1
    &&& rekeyed(post)
}

// Generate moves for piece

fn get_moves(piece: Piece, row: usize, col: usize, game: &Game) -> (moves: Vec<Point>)
    requires
        row < 8,
        col < 8,
        game.wf(),
        piece.typ == PieceType::Pawn && piece.side == Side::White ==> row < 7,
        piece.typ == PieceType::Pawn && piece.side == Side::Black ==> row >= 1,
    ensures
        forall|p: Point| #[trigger]
            moves@.contains(p) <==> piece_dest(
                grid(game.board),
                piece.side,
                piece.typ,
                row as int,
                col as int,
                game.pawn_double_moved,
                p,
            ),
{
    match piece.typ {
        PieceType::Pawn => moves::get_pawn_moves(
            piece.side,
            row,
            col,
            &game.board,
            game.pawn_double_moved,
        ),
        PieceType::Knight => moves::get_knight_moves(piece.side, row, col, &game.board),
        PieceType::Bishop => moves::get_bishop_moves(piece.side, row, col, &game.board),
        PieceType::Rook => moves::get_rook_moves(piece.side, row, col, &game.board),
        PieceType::Queen => moves::get_queen_moves(piece.side, row, col, &game.board),
        PieceType::King => moves::get_king_moves(piece.side, row, col, &game.board),
    }
}

/// Pair one origin with each destination of a generated list.
fn moves_from(from: Point, dests: &Vec<Point>) -> (ms: Vec<Move>)
    ensures
        ms@.len() == dests@.len(),
        forall|i: int| 0 <= i < ms@.len() ==> ms@[i] == (Move { from, to: dests@[i] }),
{
    let mut ms: Vec<Move> = Vec::new();
    let mut j: usize = 0;
    while j < dests.len()
        invariant
            j <= dests@.len(),
            ms@.len() == j,
            forall|i: int| 0 <= i < j ==> ms@[i] == (Move { from, to: dests@[i] }),
        decreases dests@.len() - j,
    {
        ms.push(Move { from, to: dests[j] });
        j += 1;
    }
    ms
}

// Generate possible moves given move input

fn get_possible_moves(move_data: PlayerMove, game: &Game) -> (possible: Vec<Move>)
    requires
        game.wf(),
        move_data.to.0 < 8,
        move_data.to.1 < 8,
    ensures
        forall|m: Move| #[trigger]
            possible@.contains(m) <==> m.to == move_data.to && candidate(*game, move_data, m.from),
        possible@.no_duplicates(),
        forall|i: int| 0 <= i < possible@.len() ==> move_in_bounds(#[trigger] possible@[i]),
{
    let mut possible: Vec<Move> = Vec::new();
    let mut n: usize = 0;
    while n < 64
        invariant
            n <= 64,
            game.wf(),
            move_data.to.0 < 8,
            move_data.to.1 < 8,
            forall|m: Move| #[trigger]
                possible@.contains(m) <==> m.to == move_data.to && candidate(
                    *game,
                    move_data,
                    m.from,
                ) && m.from.0 * 8 + m.from.1 < n,
            possible@.no_duplicates(),
            forall|i: int| 0 <= i < possible@.len() ==> move_in_bounds(#[trigger] possible@[i]),
        decreases 64 - n,
    {
        let r = n / 8;
        let c = n % 8;

        // Check row and column

        let origin_ok = match move_data.from {
            File::Row(row) => row == r,
            File::Column(col) => col == c,
            File::Any => true,
        };

        let mut found = false;
        if origin_ok {
            if let Square::Full(piece) = game.board[r][c] {
                if piece.side == game.turn && piece.typ == move_data.piece {
                    // Filter moves by to square

                    proof {
                        assert(grid(game.board)[r as int][c as int] == Square::Full(piece));
                    }
                    let mvs = get_moves(piece, r, c, game);
                    let mut j: usize = 0;
                    while j < mvs.len()
                        invariant
                            j <= mvs@.len(),
                            found <==> exists|jj: int|
                                0 <= jj < j && mvs@[jj] == move_data.to,
                        decreases mvs@.len() - j,
                    {
                        if mvs[j] == move_data.to {
                            found = true;
                        }
                        j += 1;
                    }
                    proof {
                        assert(found <==> mvs@.contains(move_data.to));
                    }
                }
            }
        }
        let ghost oldp = possible@;
        if found {
            possible.push(Move { from: Point(r, c), to: move_data.to });
        }
        proof {
            if found {
                assert(!oldp.contains(Move { from: Point(r, c), to: move_data.to }));
                assert forall|a: int, b: int|
                    0 <= a < b < possible@.len() implies possible@[a] != possible@[b] by {
                    if b + 1 == possible@.len() {
                        assert(oldp.contains(oldp[a]));
                    } else {
                        assert(oldp[a] == possible@[a] && oldp[b] == possible@[b]);
                    }
                }
                assert(possible@.no_duplicates());
            }
            assert forall|m: Move| #[trigger]
                possible@.contains(m) <==> m.to == move_data.to && candidate(
                    *game,
                    move_data,
                    m.from,
                ) && m.from.0 * 8 + m.from.1 < n + 1 by {
                if m.to == move_data.to && candidate(*game, move_data, m.from) && m.from.0 * 8
                    + m.from.1 == n {
                    assert(m.from.0 == n / 8 && m.from.1 == n % 8);
                }
            }
        }
        n += 1;
    }
    possible
}

// Terminal-state model.

/// The side to move has a piece on `from` that can move to `to` without
/// leaving its own king attacked.
pub open spec fn is_legal_move(gm: Game, from: Point, to: Point) -> bool {
    &&& from.0 < 8 && from.1 < 8 && to.0 < 8 && to.1 < 8
    &&& match grid(gm.board)[from.0 as int][from.1 as int] {
        Square::Full(p) => p.side == gm.turn && piece_dest(
            grid(gm.board),
            gm.turn,
            p.typ,
            from.0 as int,
            from.1 as int,
            gm.pawn_double_moved,
            to,
        ),
        Square::Empty => false,
    }
    &&& move_is_safe(
        grid(gm.board),
        gm.turn,
        gm.king_positions.spec_pos(gm.turn),
        Move { from, to },
    )
}

/// The side to move has some legal move.
pub open spec fn has_legal_move(gm: Game) -> bool {
    exists|from: Point, to: Point| is_legal_move(gm, from, to)
}

/// The decision table of the terminal-state evaluator, in priority
/// order: the fifty-move rule first, then mate or stalemate when no
/// legal move remains, else the game goes on.
pub open spec fn spec_game_result(gm: Game) -> GameResult {
    let kp = gm.king_positions.spec_pos(gm.turn);
    if gm.last_active_ply == 100 {
        GameResult::Draw(DrawType::FiftyMove)
    } else if !has_legal_move(gm) {
        if attacked(grid(gm.board), gm.turn, kp.0 as int, kp.1 as int) {
            GameResult::Win(gm.turn.spec_opposite())
        } else {
            GameResult::Draw(DrawType::Stalemate)
        }
    } else {
        GameResult::Ongoing
    }
}

impl Game {
    // Get game result (win, draw, or ongoing)

    pub fn get_game_result(&mut self) -> (res: GameResult)
        requires
            old(self).wf(),
        ensures
            *final(self) == *old(self),
            res == spec_game_result(*old(self)),
    {
        // Check for 50 move rule (100 plies)

        if self.last_active_ply == 100 {
            return GameResult::Draw(DrawType::FiftyMove);
        }

        // Look for a legal move of the side to move, excluding castling

        let ghost pre = *self;
        let kp = self.king_positions.get_pos(self.turn);
        let mut any_move = false;
        let mut n: usize = 0;
        while n < 64
            invariant
                n <= 64,
                pre.wf(),
                *self == pre,
                kp == pre.king_positions.spec_pos(pre.turn),
                any_move <==> exists|from: Point, to: Point|
                    is_legal_move(pre, from, to) && from.0 * 8 + from.1 < n,
            decreases 64 - n,
        {
            let r = n / 8;
            let c = n % 8;
            if let Square::Full(piece) = self.board[r][c] {
                if piece.side == self.turn {
                    // Check for legal moves

                    proof {
                        assert(grid(self.board)[r as int][c as int] == Square::Full(piece));
                    }
                    let dests = get_moves(piece, r, c, &*self);
                    let possible = moves_from(Point(r, c), &dests);
                    proof {
                        assert forall|i: int|
                            0 <= i < possible@.len() implies move_in_bounds(
                            #[trigger] possible@[i],
                        ) by {
                            assert(dests@.contains(dests@[i]));
                            moves::lemma_piece_dest_bounds(
                                grid(pre.board),
                                pre.turn,
                                piece.typ,
                                r as int,
                                c as int,
                                pre.pawn_double_moved,
                                dests@[i],
                            );
                        }
                    }
                    let legal = filter_legal_moves(self.turn, possible, &mut self.board, kp);
                    proof {
                        assert(*self == pre);
                        if legal@.len() > 0 {
                            let m = legal@[0];
                            assert(legal@.contains(m));
                            let i = choose|i: int|
                                0 <= i < possible@.len() && #[trigger] possible@[i] == m;
                            assert(dests@.contains(dests@[i]));
                            assert(is_legal_move(pre, Point(r, c), m.to));
                        } else {
                            assert forall|to: Point|
                                !is_legal_move(pre, Point(r, c), to) by {
                                if is_legal_move(pre, Point(r, c), to) {
                                    assert(grid(pre.board)[r as int][c as int] == Square::Full(
                                        piece,
                                    ));
                                    assert(piece_dest(
                                        grid(pre.board),
                                        pre.turn,
                                        piece.typ,
                                        r as int,
                                        c as int,
                                        pre.pawn_double_moved,
                                        to,
                                    ));
                                    assert(dests@.contains(to));
                                    let i = choose|i: int|
                                        0 <= i < dests@.len() && #[trigger] dests@[i] == to;
                                    assert(possible@[i] == (Move { from: Point(r, c), to }));
                                    assert(possible@.contains(Move { from: Point(r, c), to }));
                                    assert(legal@.contains(Move { from: Point(r, c), to }));
                                }
                            }
                        }
                    }
                    if legal.len() > 0 {
                        any_move = true;
                    }
                }
            }
            proof {
                assert forall|from: Point, to: Point|
                    is_legal_move(pre, from, to) && from.0 * 8 + from.1 < n + 1 implies (any_move
                    || exists|f: Point, t: Point|
                    is_legal_move(pre, f, t) && f.0 * 8 + f.1 < n) by {
                    if from.0 * 8 + from.1 == n {
                        assert(from.0 == n / 8 && from.1 == n % 8);
                    }
                }
            }
            n += 1;
        }

        // Checkmate or stalemate with no moves left

        if !any_move {
            if moves::in_check(self.turn, kp, &self.board) {
                return GameResult::Win(self.turn.get_opposite());
            }
            return GameResult::Draw(DrawType::Stalemate);
        }

        // No result yet

        GameResult::Ongoing
    }
}

/// A pawn that double-steps is en-passant-capturable for exactly the
/// following ply: the committed double step fills the double-step slot
/// with its landing square, every other committed move leaves the slot
/// empty, and no pawn has an en-passant destination while the slot is
/// empty.
pub proof fn lemma_en_passant_window(pre: Game, md: PlayerMove, from: Point, post: Game)
    requires
        committed_ok(pre, md, from, post),
    ensures
        (md.piece == PieceType::Pawn && (from.0 as int - md.to.0 as int == 2 || md.to.0 as int
            - from.0 as int == 2)) <==> post.pawn_double_moved == Some(md.to),
        !(md.piece == PieceType::Pawn && (from.0 as int - md.to.0 as int == 2 || md.to.0 as int
            - from.0 as int == 2)) ==> post.pawn_double_moved is None,
        post.pawn_double_moved is None ==> forall|side: Side, r0: int, c0: int, p: Point|
            !moves::ep_dest(grid(post.board), side, r0, c0, post.pawn_double_moved, p),
{
}

/// Each of a king move, a rook move off its home square, and a capture
/// landing on a rook home square permanently revokes the corresponding
/// castle right; no committed move ever restores one, and a right that
/// none of those three causes touches keeps its prior value.
pub proof fn lemma_rights_revocation(pre: Game, md: PlayerMove, from: Point, post: Game)
    requires
        committed_ok(pre, md, from, post),
    ensures
        forall|s: Side, d: CastleDirection| #[trigger]
            post.castle_rights.spec_right(s, d) ==> pre.castle_rights.spec_right(s, d),
        md.piece == PieceType::King ==> !post.castle_rights.spec_right(
            pre.turn,
            CastleDirection::A,
        ) && !post.castle_rights.spec_right(pre.turn, CastleDirection::H),
        forall|d: CastleDirection|
            md.piece == PieceType::Rook && from.0 as int == home_row(pre.turn) && from.1 as int
                == rook_home_col(d) ==> !(#[trigger] post.castle_rights.spec_right(pre.turn, d)),
        forall|s: Side, d: CastleDirection|
            md.to.0 as int == home_row(s) && md.to.1 as int == rook_home_col(d) ==> !(
            #[trigger] post.castle_rights.spec_right(s, d)),
        forall|s: Side, d: CastleDirection|
            pre.castle_rights.spec_right(s, d) && !(md.piece == PieceType::King && s == pre.turn)
                && !(md.piece == PieceType::Rook && s == pre.turn && from.0 as int == home_row(s)
                && from.1 as int == rook_home_col(d)) && !(md.to.0 as int == home_row(s)
                && md.to.1 as int == rook_home_col(d)) ==> #[trigger] post.castle_rights.spec_right(
                s,
                d,
            ),
{
    assert forall|s: Side, d: CastleDirection| #[trigger]
        post.castle_rights.spec_right(s, d) implies pre.castle_rights.spec_right(s, d) by {
        assert(post.castle_rights == committed_rights(
            pre.castle_rights,
            pre.turn,
            md,
            from,
            md.to,
        ));
    }
    assert forall|s: Side, d: CastleDirection|
        md.to.0 as int == home_row(s) && md.to.1 as int == rook_home_col(d) implies !(
    #[trigger] post.castle_rights.spec_right(s, d)) by {
        assert(md.to == (match (s, d) {
            (Side::White, CastleDirection::A) => Point(0, 0),
            (Side::White, CastleDirection::H) => Point(0, 7),
            (Side::Black, CastleDirection::A) => Point(7, 0),
            (Side::Black, CastleDirection::H) => Point(7, 7),
        }));
    }
}

/// Castling revokes both of the castling side's rights and leaves the
/// opponent's untouched.
pub proof fn lemma_castle_revokes_rights(pre: Game, dir: CastleDirection, post: Game)
    requires
        castled_ok(pre, dir, post),
    ensures
        !post.castle_rights.spec_right(pre.turn, CastleDirection::A),
        !post.castle_rights.spec_right(pre.turn, CastleDirection::H),
        forall|d: CastleDirection| #[trigger]
            post.castle_rights.spec_right(pre.turn.spec_opposite(), d)
                == pre.castle_rights.spec_right(pre.turn.spec_opposite(), d),
{
}

/// Committing a validated, legal non-castle move preserves the game
/// invariant.
proof fn lemma_commit_wf(pre: Game, md: PlayerMove, from: Point, post: Game)
    requires
        pre.wf(),
        spec_validate(pre, md) is Ok,
        !(md.typ is Castle),
        legal_candidate(pre, md, from),
        committed_ok(pre, md, from, post),
    ensures
        post.wf(),
{
    let g = grid(pre.board);
    let gp = grid(post.board);
    let turn = pre.turn;
    let to = md.to;
    let fr = from.0 as int;
    let fc = from.1 as int;
    let tr = to.0 as int;
    let tc = to.1 as int;
    let ep = is_ep_commit(g, md, from);

    assert(g[fr][fc] == Square::Full(Piece { side: turn, typ: md.piece }));
    moves::lemma_piece_dest_ne(g, turn, md.piece, fr, fc, pre.pawn_double_moved, to);
    moves::lemma_piece_dest_bounds(g, turn, md.piece, fr, fc, pre.pawn_double_moved, to);
    assert(!(tr == fr && tc == fc));

    // What the destination held before the commit: empty, or an enemy
    // piece other than the king.
    let dest_ok = g[tr][tc] is Empty || (match g[tr][tc] {
        Square::Full(p) => p.side != turn && p.typ != PieceType::King,
        Square::Empty => false,
    });
    assert(dest_ok);

    // What lands on the destination: always the mover's side, never a
    // king unless the king itself moved, never a pawn on a final rank.
    let placed = match md.typ {
        MoveType::Promotion(t) => Square::Full(Piece { side: turn, typ: t }),
        MoveType::CapturePromotion(t) => Square::Full(Piece { side: turn, typ: t }),
        _ => g[fr][fc],
    };
    assert(gp[tr][tc] == placed);
    assert(gp[fr][fc] == Square::Empty);

    // The en-passant clear square held the tracked enemy pawn.
    if ep {
        assert(moves::ep_dest(g, turn, fr, fc, pre.pawn_double_moved, to));
        assert(pre.pawn_double_moved matches Some(q) && q.0 as int == fr && q.1 as int == tc);
        assert(g[fr][tc] == Square::Full(
            Piece { side: turn.spec_opposite(), typ: PieceType::Pawn },
        ));
    }

    // Every square other than the touched ones is unchanged.
    assert(forall|r: int, c: int|
        in_bounds(r, c) && !(r == tr && c == tc) && !(r == fr && c == fc) && !(ep && r == fr && c
            == tc) ==> gp[r][c] == g[r][c]);

    let wking = Square::Full(Piece { side: Side::White, typ: PieceType::King });
    let bking = Square::Full(Piece { side: Side::Black, typ: PieceType::King });
    let wk = pre.king_positions.white;
    let bk = pre.king_positions.black;
    let wk2 = post.king_positions.white;
    let bk2 = post.king_positions.black;

    if md.piece == PieceType::King {
        // The mover's king itself moved: its origin was the cached square.
        assert(in_bounds(fr, fc));
        if turn == Side::White {
            assert(grid(pre.board)[fr][fc] == Square::Full(
                Piece { side: Side::White, typ: PieceType::King },
            ));
            assert(fr == pre.king_positions.white.0 as int && fc
                == pre.king_positions.white.1 as int);
        } else {
            assert(grid(pre.board)[fr][fc] == Square::Full(
                Piece { side: Side::Black, typ: PieceType::King },
            ));
            assert(fr == pre.king_positions.black.0 as int && fc
                == pre.king_positions.black.1 as int);
        }
        assert(from == pre.king_positions.spec_pos(turn));
        assert(placed == Square::Full(Piece { side: turn, typ: PieceType::King }));
        assert(!ep);
    } else {
        // The kings stand where they stood: neither touched square held one.
        assert(g[wk.0 as int][wk.1 as int] == wking);
        assert(g[bk.0 as int][bk.1 as int] == bking);
        assert(!(fr == wk.0 as int && fc == wk.1 as int));
        assert(!(fr == bk.0 as int && fc == bk.1 as int));
        assert(!(tr == wk.0 as int && tc == wk.1 as int));
        assert(!(tr == bk.0 as int && tc == bk.1 as int));
        if ep {
            assert(!(fr == wk.0 as int && tc == wk.1 as int));
            assert(!(fr == bk.0 as int && tc == bk.1 as int));
        }
        assert(match placed {
            Square::Full(p) => p.typ != PieceType::King,
            Square::Empty => false,
        });
    }
    assert(gp[wk2.0 as int][wk2.1 as int] == wking);
    assert(gp[bk2.0 as int][bk2.1 as int] == bking);
    assert forall|r: int, c: int|
        in_bounds(r, c) && gp[r][c] == wking implies r == wk2.0 as int && c == wk2.1 as int by {
        if !(r == tr && c == tc) && !(r == fr && c == fc) && !(ep && r == fr && c == tc) {
            assert(g[r][c] == wking);
        }
    }
    assert forall|r: int, c: int|
        in_bounds(r, c) && gp[r][c] == bking implies r == bk2.0 as int && c == bk2.1 as int by {
        if !(r == tr && c == tc) && !(r == fr && c == fc) && !(ep && r == fr && c == tc) {
            assert(g[r][c] == bking);
        }
    }
    assert(post.kings_ok());
    assert(post.pawns_ok());

    assert forall|s: Side, d: CastleDirection|
        post.castle_rights.spec_right(s, d) implies (
        post.king_positions.spec_pos(s).0 as int == home_row(s)
            && post.king_positions.spec_pos(s).1 == 4 && gp[home_row(s)][rook_home_col(d)]
            == Square::Full(Piece { side: s, typ: PieceType::Rook })) by {
        assert(pre.castle_rights.spec_right(s, d));
        let hr = home_row(s);
        let hc = rook_home_col(d);
        assert(g[hr][hc] == Square::Full(Piece { side: s, typ: PieceType::Rook }));
        assert(!(tr == hr && tc == hc));
        assert(!(fr == hr && fc == hc));
        if ep {
            assert(!(fr == hr && tc == hc));
        }
    }
    assert(post.rights_ok());
    assert(post.slot_ok());
}

/// Committing a validated castle preserves the game invariant.
proof fn lemma_castle_wf(pre: Game, dir: CastleDirection, post: Game)
    requires
        pre.wf(),
        pre.castle_rights.spec_right(pre.turn, dir),
        moves::castle_path_ok(
            grid(pre.board),
            pre.turn,
            dir,
            pre.king_positions.spec_pos(pre.turn),
        ),
        castled_ok(pre, dir, post),
    ensures
        post.wf(),
{
    let g = grid(pre.board);
    let gp = grid(post.board);
    let turn = pre.turn;
    let row = home_row(turn);
    let kc = castle_king_col(dir);
    let rc = rook_home_col(dir);
    let rc2 = castle_rook_col(dir);

    assert(pre.king_positions.spec_pos(turn).0 as int == row);
    assert(pre.king_positions.spec_pos(turn).1 == 4);
    assert(g[row][4] == Square::Full(Piece { side: turn, typ: PieceType::King }));
    assert(g[row][rc] == Square::Full(Piece { side: turn, typ: PieceType::Rook }));

    // The squares the king and rook land on were empty.
    let kp = pre.king_positions.spec_pos(turn);
    assert(!crate::board::full_at(g, kp.0 as int, kc));
    assert(!crate::board::full_at(g, kp.0 as int, rc2));
    assert(g[row][kc] is Empty);
    assert(g[row][rc2] is Empty);

    assert(gp[row][kc] == Square::Full(Piece { side: turn, typ: PieceType::King }));
    assert(gp[row][rc2] == Square::Full(Piece { side: turn, typ: PieceType::Rook }));
    assert(gp[row][4] == Square::Empty);
    assert(gp[row][rc] == Square::Empty);
    assert(forall|r: int, c: int|
        in_bounds(r, c) && !(r == row && (c == kc || c == rc2 || c == 4 || c == rc)) ==> gp[r][c]
            == g[r][c]);

    assert(post.kings_ok());
    assert(post.pawns_ok());
    assert forall|s: Side, d: CastleDirection|
        post.castle_rights.spec_right(s, d) implies (
        post.king_positions.spec_pos(s).0 as int == home_row(s)
            && post.king_positions.spec_pos(s).1 == 4 && gp[home_row(s)][rook_home_col(d)]
            == Square::Full(Piece { side: s, typ: PieceType::Rook })) by {
        assert(s != turn);
        assert(home_row(s) != row);
    }
    assert(post.rights_ok());
    assert(post.slot_ok());
}

impl Game {
    // Make one fully disambiguated move for the side to move

    #[verifier::rlimit(100)]
    pub fn player_move(&mut self, move_data: PlayerMove) -> (r: Result<(), MoveError>)
        requires
            old(self).wf(),
            move_data.to.0 < 8,
            move_data.to.1 < 8,
            old(self).last_active_ply < u32::MAX,
        ensures
            final(self).wf(),
            match r {
                Ok(()) => {
                    &&& spec_validate(*old(self), move_data) is Ok
                    &&& match move_data.typ {
                        MoveType::Castle(dir) => castled_ok(*old(self), dir, *final(self)),
                        _ => {
                            &&& exists|f: Point| legal_candidate(*old(self), move_data, f)
                            &&& unique_legal(*old(self), move_data)
                            &&& committed_ok(
                                *old(self),
                                move_data,
                                choose|f: Point| legal_candidate(*old(self), move_data, f),
                                *final(self),
                            )
                        },
                    }
                },
                Err(e) => {
                    &&& *final(self) == *old(self)
                    &&& match spec_validate(*old(self), move_data) {
                        Err(e0) => e == e0,
                        Ok(()) => {
                            &&& !(move_data.typ is Castle)
                            &&& if forall|f: Point| !candidate(*old(self), move_data, f) {
                                e == MoveError::NotAMove
                            } else if forall|f: Point|
                                !legal_candidate(*old(self), move_data, f) {
                                e == MoveError::IntoCheck
                            } else {
                                e == MoveError::Ambiguous && !unique_legal(*old(self), move_data)
                            }
                        },
                    }
                },
            },
    {
        let ghost pre = *old(self);

        if let Err(e) = validate_move(move_data, &*self) {
            return Err(e);
        }

        // Handle castle moves

        if let MoveType::Castle(dir) = move_data.typ {
            let row: usize = match self.turn {
                Side::White => 0,
                Side::Black => 7,
            };
            let (kc, rc, rc2): (usize, usize, usize) = match dir {
                CastleDirection::A => (2, 0, 3),
                CastleDirection::H => (6, 7, 5),
            };

            // Move pieces

            let king_sq = self.board[row][4];
            let rook_sq = self.board[row][rc];
            set_square(&mut self.board, row, kc, king_sq);
            set_square(&mut self.board, row, rc2, rook_sq);
            set_square(&mut self.board, row, 4, Square::Empty);
            set_square(&mut self.board, row, rc, Square::Empty);
            proof {
                assert(grid(self.board) == castled_grid(grid(pre.board), pre.turn, dir));
            }

            // Update king position and castle rights

            match self.turn {
                Side::White => {
                    self.king_positions.white = Point(row, kc);
                    self.castle_rights.white = (false, false);
                },
                Side::Black => {
                    self.king_positions.black = Point(row, kc);
                    self.castle_rights.black = (false, false);
                },
            }

            // Clear the double-step slot and count the quiet ply

            self.pawn_double_moved = None;
            self.last_active_ply = self.last_active_ply + 1;

            // Switch active turn and refresh the position fingerprint

            self.turn = self.turn.get_opposite();
            let board_copy = self.board;
            self.zobrist_table.rekey(
                self.turn,
                &board_copy,
                self.castle_rights,
                self.pawn_double_moved,
            );
            proof {
                assert(castled_ok(pre, dir, *self));
                lemma_castle_wf(pre, dir, *self);
            }
            return Ok(());
        }

        // Collect candidates and keep the king-safe ones

        let possible = get_possible_moves(move_data, &*self);
        if possible.is_empty() {
            proof {
                assert forall|f: Point| !candidate(pre, move_data, f) by {
                    if candidate(pre, move_data, f) {
                        assert(possible@.contains(Move { from: f, to: move_data.to }));
                    }
                }
            }
            return Err(MoveError::NotAMove);
        }

        let kp = self.king_positions.get_pos(self.turn);
        let legal = filter_legal_moves(self.turn, possible, &mut self.board, kp);
        proof {
            assert(*self == pre);
        }
        if legal.is_empty() {
            proof {
                assert forall|f: Point| !legal_candidate(pre, move_data, f) by {
                    if legal_candidate(pre, move_data, f) {
                        assert(possible@.contains(Move { from: f, to: move_data.to }));
                        assert(legal@.contains(Move { from: f, to: move_data.to }));
                    }
                }
                assert(possible@.contains(possible@[0]));
            }
            return Err(MoveError::IntoCheck);
        }
        if legal.len() > 1 {
            proof {
                let m0 = legal@[0];
                let m1 = legal@[1];
                assert(legal@.contains(m0) && legal@.contains(m1));
                assert(m0 != m1);
                assert(legal_candidate(pre, move_data, m0.from));
                assert(legal_candidate(pre, move_data, m1.from));
                assert(m0.from != m1.from);
            }
            return Err(MoveError::Ambiguous);
        }

        // Make single legal move

        let mov = legal[0];
        proof {
            assert(legal@.contains(mov));
            assert(legal_candidate(pre, move_data, mov.from));
            assert forall|f: Point|
                legal_candidate(pre, move_data, f) implies f == mov.from by {
                assert(possible@.contains(Move { from: f, to: move_data.to }));
                assert(legal@.contains(Move { from: f, to: move_data.to }));
                assert(legal@[0] == (Move { from: f, to: move_data.to }));
            }
        }

        let placed = match move_data.typ {
            MoveType::Promotion(t) => Square::full(self.turn, t),
            MoveType::CapturePromotion(t) => Square::full(self.turn, t),
            _ => self.board[mov.from.0][mov.from.1],
        };
        let dest_before = self.board[mov.to.0][mov.to.1];
        set_square(&mut self.board, mov.to.0, mov.to.1, placed);
        set_square(&mut self.board, mov.from.0, mov.from.1, Square::Empty);
        let took_en_passant = move_data.piece == PieceType::Pawn && mov.to.1 != mov.from.1
            && matches!(dest_before, Square::Empty);
        if took_en_passant {
            set_square(&mut self.board, mov.from.0, mov.to.1, Square::Empty);
        }
        proof {
            assert(grid(self.board) == committed_grid(
                grid(pre.board),
                pre.turn,
                move_data,
                mov.from,
            ));
        }

        // Update king position and castle rights

        if move_data.piece == PieceType::King {
            match self.turn {
                Side::White => {
                    self.king_positions.white = mov.to;
                    self.castle_rights.white = (false, false);
                },
                Side::Black => {
                    self.king_positions.black = mov.to;
                    self.castle_rights.black = (false, false);
                },
            }
        } else if move_data.piece == PieceType::Rook {
            match self.turn {
                Side::White => {
                    if mov.from == Point(0, 0) {
                        self.castle_rights.white = (false, self.castle_rights.white.1);
                    } else if mov.from == Point(0, 7) {
                        self.castle_rights.white = (self.castle_rights.white.0, false);
                    }
                },
                Side::Black => {
                    if mov.from == Point(7, 0) {
                        self.castle_rights.black = (false, self.castle_rights.black.1);
                    } else if mov.from == Point(7, 7) {
                        self.castle_rights.black = (self.castle_rights.black.0, false);
                    }
                },
            }
        }

        // A move onto a rook home square revokes the right the captured
        // rook carried

        if mov.to == Point(0, 0) {
            self.castle_rights.white = (false, self.castle_rights.white.1);
        }
        if mov.to == Point(0, 7) {
            self.castle_rights.white = (self.castle_rights.white.0, false);
        }
        if mov.to == Point(7, 0) {
            self.castle_rights.black = (false, self.castle_rights.black.1);
        }
        if mov.to == Point(7, 7) {
            self.castle_rights.black = (self.castle_rights.black.0, false);
        }

        // Track a fresh double step for en passant, clear otherwise

        self.pawn_double_moved = if move_data.piece == PieceType::Pawn && (mov.to.0 + 2
            == mov.from.0 || mov.from.0 + 2 == mov.to.0) {
            Some(mov.to)
        } else {
            None
        };

        // Update last active ply counter

        match move_data.typ {
            MoveType::Move => {
                if move_data.piece == PieceType::Pawn {
                    self.last_active_ply = 0;
                } else {
                    self.last_active_ply = self.last_active_ply + 1;
                }
            },
            MoveType::Capture => {
                self.last_active_ply = 0;
            },
            MoveType::Promotion(_) => {
                self.last_active_ply = 0;
            },
            MoveType::CapturePromotion(_) => {
                self.last_active_ply = 0;
            },
            MoveType::Castle(_) => {
                self.last_active_ply = self.last_active_ply + 1;
            },
        }

        // Switch active turn and refresh the position fingerprint

        self.turn = self.turn.get_opposite();
        proof {
            if self.pawn_double_moved is Some {
                assert(move_data.piece == PieceType::Pawn);
                assert(piece_dest(
                    grid(pre.board),
                    pre.turn,
                    PieceType::Pawn,
                    mov.from.0 as int,
                    mov.from.1 as int,
                    pre.pawn_double_moved,
                    mov.to,
                ));
                assert(mov.to.0 as int == (if pre.turn == Side::White {
                    3int
                } else {
                    4int
                }));
            }
        }
        let board_copy = self.board;
        self.zobrist_table.rekey(
            self.turn,
            &board_copy,
            self.castle_rights,
            self.pawn_double_moved,
        );
        proof {
            assert(committed_ok(pre, move_data, mov.from, *self));
            lemma_commit_wf(pre, move_data, mov.from, *self);
            let f0 = choose|f: Point| legal_candidate(pre, move_data, f);
            assert(f0 == mov.from);
        }
        Ok(())
    }
}

} // verus!
