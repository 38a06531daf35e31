//! Board and game-state model: squares, pieces, points, castle rights,
//! cached king positions, and the spec-level grid view that the rest of
//! the crate states its contracts over.

use vstd::prelude::*;

use crate::zobrist::{ZobristTable, position_key, ep_file};

verus! {

pub const SIZE: usize = 8;

pub const PIECE_TYPES: usize = 12;

// Player side

#[derive(Clone, Copy, PartialEq, Eq, Structural, Debug)]
pub enum Side {
    White,
    Black,
}

impl Side {
    /// The side that moves after `self`.
    pub open spec fn spec_opposite(self) -> Side {
        match self {
            Side::White => Side::Black,
            Side::Black => Side::White,
        }
    }

    // Get opposite side

    pub fn get_opposite(&self) -> (r: Side)
        ensures
            r == self.spec_opposite(),
    {
        match self {
            Side::White => Side::Black,
            Side::Black => Side::White,
        }
    }
}

// Square on chess board

#[derive(Clone, Copy, PartialEq, Eq, Structural, Debug)]
pub enum Square {
    Full(Piece),
    Empty,
}

#[derive(Clone, Copy, PartialEq, Eq, Structural, Debug)]
pub struct Point(pub usize, pub usize);

// Chess piece

#[derive(Clone, Copy, PartialEq, Eq, Structural, Debug)]
pub struct Piece {
    pub side: Side,
    pub typ: PieceType,
}

#[derive(Clone, Copy, PartialEq, Eq, Structural, Debug)]
pub enum PieceType {
    Pawn,
    Knight,
    Bishop,
    Rook,
    Queen,
    King,
}

impl Square {
    // Get full square with piece

    pub fn full(side: Side, typ: PieceType) -> (r: Square)
        ensures
            r == Square::Full(Piece { side, typ }),
    {
        Square::Full(Piece { side, typ })
    }

    /// The character shown for this square.
    pub open spec fn spec_char(self) -> Seq<char> {
        match self {
            Square::Full(piece) => piece.typ.spec_char(),
            Square::Empty => " "@,
        }
    }

    // Get character for square

    pub fn get_char(&self) -> (r: &'static str)
        ensures
            r@ == self.spec_char(),
    {
        match self {
            Square::Full(piece) => piece.get_char(),
            Square::Empty => " ",
        }
    }
}

impl Piece {
    // Get character for piece

    pub fn get_char(&self) -> (r: &'static str)
        ensures
            r@ == self.typ.spec_char(),
    {
        match self.typ {
            PieceType::Pawn => "\u{265f}\u{fe0e}",
            PieceType::Knight => "\u{265e}",
            PieceType::Bishop => "\u{265d}",
            PieceType::Rook => "\u{265c}",
            PieceType::Queen => "\u{265b}",
            PieceType::King => "\u{265a}",
        }
    }
}

impl PieceType {
    /// The letter naming a piece type in move notation.
    pub open spec fn spec_of_char(c: char) -> Option<PieceType> {
        match c {
            'P' => Some(PieceType::Pawn),
            'N' => Some(PieceType::Knight),
            'B' => Some(PieceType::Bishop),
            'R' => Some(PieceType::Rook),
            'Q' => Some(PieceType::Queen),
            'K' => Some(PieceType::King),
            _ => None,
        }
    }

    // Get piece type from character

    pub fn get_type(c: char) -> (r: Option<PieceType>)
        ensures
            r == PieceType::spec_of_char(c),
    {
        match c {
            'P' => Some(PieceType::Pawn),
            'N' => Some(PieceType::Knight),
            'B' => Some(PieceType::Bishop),
            'R' => Some(PieceType::Rook),
            'Q' => Some(PieceType::Queen),
            'K' => Some(PieceType::King),
            _ => None,
        }
    }

    /// The drawn figure for a piece of this type.
    pub open spec fn spec_char(self) -> Seq<char> {
        match self {
            PieceType::Pawn => "\u{265f}\u{fe0e}"@,
            PieceType::Knight => "\u{265e}"@,
            PieceType::Bishop => "\u{265d}"@,
            PieceType::Rook => "\u{265c}"@,
            PieceType::Queen => "\u{265b}"@,
            PieceType::King => "\u{265a}"@,
        }
    }

    /// The English name of a piece type.
    pub open spec fn spec_name(self) -> Seq<char> {
        match self {
            PieceType::Pawn => "pawn"@,
            PieceType::Knight => "knight"@,
            PieceType::Bishop => "bishop"@,
            PieceType::Rook => "rook"@,
            PieceType::Queen => "queen"@,
            PieceType::King => "king"@,
        }
    }

    // Get piece name for piece type

    pub fn get_name(&self) -> (r: &'static str)
        ensures
            r@ == self.spec_name(),
    {
        match self {
            PieceType::Pawn => "pawn",
            PieceType::Knight => "knight",
            PieceType::Bishop => "bishop",
            PieceType::Rook => "rook",
            PieceType::Queen => "queen",
            PieceType::King => "king",
        }
    }
}

// Move between two squares

#[derive(Clone, Copy, PartialEq, Eq, Structural, Debug)]
pub struct Move {
    pub from: Point,
    pub to: Point,
}

// King coordinates on board for black and white

#[derive(Clone, Copy, PartialEq, Eq, Structural, Debug)]
pub struct KingPositions {
    pub white: Point,
    pub black: Point,
}

impl KingPositions {
    /// The cached king position of a side.
    pub open spec fn spec_pos(self, side: Side) -> Point {
        match side {
            Side::White => self.white,
            Side::Black => self.black,
        }
    }

    // Get king position for side

    pub fn get_pos(&self, side: Side) -> (r: Point)
        ensures
            r == self.spec_pos(side),
    {
        match side {
            Side::White => self.white,
            Side::Black => self.black,
        }
    }
}

// King castling rights (a file, h file)

#[derive(Clone, Copy, Debug)]
pub struct CastleRights {
    pub white: (bool, bool),
    pub black: (bool, bool),
}

#[derive(Clone, Copy, PartialEq, Eq, Structural, Debug)]
pub enum CastleDirection {
    A,
    H,
}

impl CastleRights {
    /// The right of a side to castle toward one rook file.
    pub open spec fn spec_right(self, side: Side, dir: CastleDirection) -> bool {
        match side {
            Side::White => match dir {
                CastleDirection::A => self.white.0,
                CastleDirection::H => self.white.1,
            },
            Side::Black => match dir {
                CastleDirection::A => self.black.0,
                CastleDirection::H => self.black.1,
            },
        }
    }

    // Get castle right for side and direction

    pub fn has_right(&self, side: Side, dir: CastleDirection) -> (r: bool)
        ensures
            r == self.spec_right(side, dir),
    {
        match side {
            Side::White => match dir {
                CastleDirection::A => self.white.0,
                CastleDirection::H => self.white.1,
            },
            Side::Black => match dir {
                CastleDirection::A => self.black.0,
                CastleDirection::H => self.black.1,
            },
        }
    }
}

// Spec-level view of the board: an 8 x 8 grid of squares.

/// The grid of squares a board holds, as a sequence of rows.
pub open spec fn grid(b: [[Square; SIZE]; SIZE]) -> Seq<Seq<Square>> {
    Seq::new(8, |r: int| Seq::new(8, |c: int| b@[r]@[c]))
}

/// Both coordinates lie on the board.
pub open spec fn in_bounds(r: int, c: int) -> bool {
    0 <= r < 8 && 0 <= c < 8
}

/// The square at (r, c) is on the board and empty.
pub open spec fn empty_at(g: Seq<Seq<Square>>, r: int, c: int) -> bool {
    in_bounds(r, c) && g[r][c] == Square::Empty
}

/// The square at (r, c) is on the board and occupied.
pub open spec fn full_at(g: Seq<Seq<Square>>, r: int, c: int) -> bool {
    in_bounds(r, c) && g[r][c] is Full
}

/// The square at (r, c) holds exactly the given piece.
pub open spec fn piece_at(g: Seq<Seq<Square>>, side: Side, typ: PieceType, r: int, c: int) -> bool {
    in_bounds(r, c) && g[r][c] == Square::Full(Piece { side, typ })
}

/// The square at (r, c) holds a piece of the given side.
pub open spec fn friendly_at(g: Seq<Seq<Square>>, side: Side, r: int, c: int) -> bool {
    in_bounds(r, c) && match g[r][c] {
        Square::Full(p) => p.side == side,
        Square::Empty => false,
    }
}

/// The square at (r, c) holds a piece of the opposing side.
pub open spec fn enemy_at(g: Seq<Seq<Square>>, side: Side, r: int, c: int) -> bool {
    in_bounds(r, c) && match g[r][c] {
        Square::Full(p) => p.side != side,
        Square::Empty => false,
    }
}

/// The grid with the square at (r, c) replaced by s.
pub open spec fn gset(g: Seq<Seq<Square>>, r: int, c: int, s: Square) -> Seq<Seq<Square>> {
    g.update(r, g[r].update(c, s))
}

/// The grid after relocating the piece on `from` to `to` (the origin is cleared).
pub open spec fn gmove(g: Seq<Seq<Square>>, from: Point, to: Point) -> Seq<Seq<Square>> {
    gset(gset(g, to.0 as int, to.1 as int, g[from.0 as int][from.1 as int]), from.0 as int, from.1 as int, Square::Empty)
}

/// Replace one square of the board in place.
pub fn set_square(board: &mut [[Square; SIZE]; SIZE], r: usize, c: usize, s: Square)
    requires
        r < 8,
        c < 8,
    ensures
        grid(*final(board)) == gset(grid(*old(board)), r as int, c as int, s),
{
    let mut row: [Square; SIZE] = board[r];
    row[c] = s;
    board[r] = row;
    proof {
        assert(grid(*board) =~~= gset(grid(*old(board)), r as int, c as int, s));
    }
}

// Game parameters

#[allow(non_snake_case)]
pub struct Positions {
    pub WHITE_KING: Point,
    pub BLACK_KING: Point,
    pub WHITE_ROOKS: (Point, Point),
    pub BLACK_ROOKS: (Point, Point),
}

#[allow(non_snake_case)]
pub struct CastledPositions {
    pub WHITE_KING: (Point, Point),
    pub BLACK_KING: (Point, Point),
    pub WHITE_ROOKS: (Point, Point),
    pub BLACK_ROOKS: (Point, Point),
}

pub struct CastleColumns(pub core::ops::Range<usize>, pub core::ops::Range<usize>);

/// The home positions of the kings and rooks.
pub fn initial_positions() -> (p: Positions)
    ensures
        p.WHITE_KING == Point(0, 4),
        p.BLACK_KING == Point(7, 4),
        p.WHITE_ROOKS == (Point(0, 0), Point(0, 7)),
        p.BLACK_ROOKS == (Point(7, 0), Point(7, 7)),
{
    Positions {
        WHITE_KING: Point(0, 4),
        BLACK_KING: Point(7, 4),
        WHITE_ROOKS: (Point(0, 0), Point(0, 7)),
        BLACK_ROOKS: (Point(7, 0), Point(7, 7)),
    }
}

/// Where the king and rook land after castling toward the a file or the
/// h file.
pub fn castled_positions() -> (p: CastledPositions)
    ensures
        p.WHITE_KING == (Point(0, 2), Point(0, 6)),
        p.BLACK_KING == (Point(7, 2), Point(7, 6)),
        p.WHITE_ROOKS == (Point(0, 3), Point(0, 5)),
        p.BLACK_ROOKS == (Point(7, 3), Point(7, 5)),
{
    CastledPositions {
        WHITE_KING: (Point(0, 2), Point(0, 6)),
        BLACK_KING: (Point(7, 2), Point(7, 6)),
        WHITE_ROOKS: (Point(0, 3), Point(0, 5)),
        BLACK_ROOKS: (Point(7, 3), Point(7, 5)),
    }
}

/// The columns the king starts on, passes through, or lands on when
/// castling toward the a file and the h file.
pub fn castle_columns() -> (p: CastleColumns)
    ensures
        p.0.start == 2 && p.0.end == 5,
        p.1.start == 4 && p.1.end == 7,
{
    CastleColumns(2..5, 4..7)
}

// Chess game state

pub struct Game {
    pub turn: Side,  // Current active player up to move
    pub board: [[Square; SIZE]; SIZE],  // 8x8 chess board of squares
    pub king_positions: KingPositions,  // Position of kings on board
    pub castle_rights: CastleRights,  // Option to castle for both sides
    pub pawn_double_moved: Option<Point>,  // Track last double pawn move for en passant
    pub last_active_ply: u32,  // Track distance from last active ply for 50 move rule
    pub zobrist_table: ZobristTable<u32>,
}

/// The back rank a side's pieces start on.
pub open spec fn home_row(side: Side) -> int {
    if side == Side::White {
        0int
    } else {
        7int
    }
}

/// The column a rook starts on for a castle direction.
pub open spec fn rook_home_col(dir: CastleDirection) -> int {
    match dir {
        CastleDirection::A => 0int,
        CastleDirection::H => 7int,
    }
}

impl Game {
    /// Each side has exactly one king on the board, standing where the
    /// cached king position says.
    pub open spec fn kings_ok(self) -> bool {
        let g = grid(self.board);
        let wk = self.king_positions.white;
        let bk = self.king_positions.black;
        &&& wk.0 < 8 && wk.1 < 8 && bk.0 < 8 && bk.1 < 8
        &&& g[wk.0 as int][wk.1 as int] == Square::Full(
            Piece { side: Side::White, typ: PieceType::King },
        )
        &&& g[bk.0 as int][bk.1 as int] == Square::Full(
            Piece { side: Side::Black, typ: PieceType::King },
        )
        &&& forall|r: int, c: int|
            in_bounds(r, c) && grid(self.board)[r][c] == Square::Full(
                Piece { side: Side::White, typ: PieceType::King },
            ) ==> r == wk.0 as int && c == wk.1 as int
        &&& forall|r: int, c: int|
            in_bounds(r, c) && grid(self.board)[r][c] == Square::Full(
                Piece { side: Side::Black, typ: PieceType::King },
            ) ==> r == bk.0 as int && c == bk.1 as int
    }

    /// No pawn stands on the rank it would have promoted on.
    pub open spec fn pawns_ok(self) -> bool {
        &&& forall|c: int|
            0 <= c < 8 ==> grid(self.board)[7][c] != Square::Full(
                Piece { side: Side::White, typ: PieceType::Pawn },
            )
        &&& forall|c: int|
            0 <= c < 8 ==> grid(self.board)[0][c] != Square::Full(
                Piece { side: Side::Black, typ: PieceType::Pawn },
            )
    }

    /// A castle right still held guarantees its king and rook stand on
    /// their home squares.
    pub open spec fn right_ok(self, side: Side, dir: CastleDirection) -> bool {
        self.castle_rights.spec_right(side, dir) ==> {
            &&& self.king_positions.spec_pos(side).0 as int == home_row(side)
            &&& self.king_positions.spec_pos(side).1 == 4
            &&& grid(self.board)[home_row(side)][rook_home_col(dir)] == Square::Full(
                Piece { side, typ: PieceType::Rook },
            )
        }
    }

    pub open spec fn rights_ok(self) -> bool {
        &&& self.right_ok(Side::White, CastleDirection::A)
        &&& self.right_ok(Side::White, CastleDirection::H)
        &&& self.right_ok(Side::Black, CastleDirection::A)
        &&& self.right_ok(Side::Black, CastleDirection::H)
    }

    /// The double-step slot, when set, names an enemy pawn that just
    /// double-stepped onto its fourth rank.
    pub open spec fn slot_ok(self) -> bool {
        match self.pawn_double_moved {
            Some(q) => {
                &&& q.0 < 8 && q.1 < 8
                &&& q.0 as int == (if self.turn == Side::White {
                    4int
                } else {
                    3int
                })
                &&& grid(self.board)[q.0 as int][q.1 as int] == Square::Full(
                    Piece { side: self.turn.spec_opposite(), typ: PieceType::Pawn },
                )
            },
            None => true,
        }
    }

    /// The inductive well-formedness of a game state: established by
    /// `new` and preserved by every committed move.
    pub open spec fn wf(self) -> bool {
        self.kings_ok() && self.pawns_ok() && self.rights_ok() && self.slot_ok()
            && self.zobrist_table.inv()
    }
}

/// The square each piece occupies at the start of a game.
pub open spec fn initial_square(r: int, c: int) -> Square {
    if r == 1 {
        Square::Full(Piece { side: Side::White, typ: PieceType::Pawn })
    } else if r == 6 {
        Square::Full(Piece { side: Side::Black, typ: PieceType::Pawn })
    } else if r == 0 || r == 7 {
        let side = if r == 0 {
            Side::White
        } else {
            Side::Black
        };
        let typ = if c == 0 || c == 7 {
            PieceType::Rook
        } else if c == 1 || c == 6 {
            PieceType::Knight
        } else if c == 2 || c == 5 {
            PieceType::Bishop
        } else if c == 3 {
            PieceType::Queen
        } else {
            PieceType::King
        };
        Square::Full(Piece { side, typ })
    } else {
        Square::Empty
    }
}

/// The standard initial placement.
pub open spec fn initial_grid() -> Seq<Seq<Square>> {
    Seq::new(8, |r: int| Seq::new(8, |c: int| initial_square(r, c)))
}

impl Game {
    // Create new game in starting position

    pub fn new() -> (game: Game)
        ensures
            game.wf(),
            game.turn == Side::White,
            grid(game.board) == initial_grid(),
            game.king_positions == (KingPositions { white: Point(0, 4), black: Point(7, 4) }),
            game.castle_rights.white == (true, true),
            game.castle_rights.black == (true, true),
            game.pawn_double_moved is None,
            game.last_active_ply == 0,
            game.zobrist_table.spec_key() == position_key(
                Side::White,
                initial_grid(),
                game.castle_rights,
                ep_file(initial_grid(), Side::White, None),
            ),
    {
        let board = [
            [
                Square::full(Side::White, PieceType::Rook),
                Square::full(Side::White, PieceType::Knight),
                Square::full(Side::White, PieceType::Bishop),
                Square::full(Side::White, PieceType::Queen),
                Square::full(Side::White, PieceType::King),
                Square::full(Side::White, PieceType::Bishop),
                Square::full(Side::White, PieceType::Knight),
                Square::full(Side::White, PieceType::Rook),
            ],
            [
                Square::full(Side::White, PieceType::Pawn),
                Square::full(Side::White, PieceType::Pawn),
                Square::full(Side::White, PieceType::Pawn),
                Square::full(Side::White, PieceType::Pawn),
                Square::full(Side::White, PieceType::Pawn),
                Square::full(Side::White, PieceType::Pawn),
                Square::full(Side::White, PieceType::Pawn),
                Square::full(Side::White, PieceType::Pawn),
            ],
            [
                Square::Empty,
                Square::Empty,
                Square::Empty,
                Square::Empty,
                Square::Empty,
                Square::Empty,
                Square::Empty,
                Square::Empty,
            ],
            [
                Square::Empty,
                Square::Empty,
                Square::Empty,
                Square::Empty,
                Square::Empty,
                Square::Empty,
                Square::Empty,
                Square::Empty,
            ],
            [
                Square::Empty,
                Square::Empty,
                Square::Empty,
                Square::Empty,
                Square::Empty,
                Square::Empty,
                Square::Empty,
                Square::Empty,
            ],
            [
                Square::Empty,
                Square::Empty,
                Square::Empty,
                Square::Empty,
                Square::Empty,
                Square::Empty,
                Square::Empty,
                Square::Empty,
            ],
            [
                Square::full(Side::Black, PieceType::Pawn),
                Square::full(Side::Black, PieceType::Pawn),
                Square::full(Side::Black, PieceType::Pawn),
                Square::full(Side::Black, PieceType::Pawn),
                Square::full(Side::Black, PieceType::Pawn),
                Square::full(Side::Black, PieceType::Pawn),
                Square::full(Side::Black, PieceType::Pawn),
                Square::full(Side::Black, PieceType::Pawn),
            ],
            [
                Square::full(Side::Black, PieceType::Rook),
                Square::full(Side::Black, PieceType::Knight),
                Square::full(Side::Black, PieceType::Bishop),
                Square::full(Side::Black, PieceType::Queen),
                Square::full(Side::Black, PieceType::King),
                Square::full(Side::Black, PieceType::Bishop),
                Square::full(Side::Black, PieceType::Knight),
                Square::full(Side::Black, PieceType::Rook),
            ],
        ];
        proof {
            assert(grid(board) =~~= initial_grid());
        }
        let castle_rights = CastleRights { white: (true, true), black: (true, true) };

        let game = Game {
            turn: Side::White,
            board,
            king_positions: KingPositions { white: Point(0, 4), black: Point(7, 4) },
            castle_rights,
            pawn_double_moved: None,
            last_active_ply: 0,
            zobrist_table: ZobristTable::new(16, Side::White, &board, castle_rights, None),
        };
        proof {
            assert(game.kings_ok());
            assert(game.pawns_ok());
            assert(game.rights_ok());
        }
        game
    }
}

} // verus!
