//! Structured move requests, their validation against the current game
//! state, and parsing of algebraic move notation into requests.

use vstd::prelude::*;

use crate::board::{Side, Square, Point, PieceType, CastleDirection, Game, grid, empty_at};
use crate::moves::{fwd, castle_path_ok, can_castle};

verus! {

// Parsed player move

#[derive(Clone, Copy, PartialEq, Eq, Structural, Debug)]
pub struct PlayerMove {
    pub piece: PieceType,
    pub from: File,
    pub to: Point,
    pub typ: MoveType,
}

#[derive(Clone, Copy, PartialEq, Eq, Structural, Debug)]
pub enum File {
    Row(usize),
    Column(usize),
    Any,
}

#[derive(Clone, Copy, PartialEq, Eq, Structural, Debug)]
pub enum MoveType {
    Move,
    Capture,
    Promotion(PieceType),
    CapturePromotion(PieceType),
    Castle(CastleDirection),
}

// Why a move request was turned down

#[derive(Clone, Copy, PartialEq, Eq, Structural, Debug)]
pub enum MoveError {
    /// No piece of the requested kind can make the requested move.
    NotAMove,
    /// A pawn reaching its last rank must name a promotion piece.
    PromotionRequired,
    /// A capture must land on an enemy piece other than the king, or be
    /// a pawn's en-passant capture.
    NotACapture,
    /// A promotion must move a pawn onto its last rank and name a
    /// promotable piece.
    NotAPromotion,
    /// The castle right for that side and direction is no longer held.
    NotACastle,
    /// The castling path is obstructed or passes through an attacked square.
    CastleBlocked,
    /// Every matching move would leave the mover's king attacked.
    IntoCheck,
    /// Several distinct origins could make the requested move.
    Ambiguous,
}

impl MoveError {
    /// The diagnostic wording of each refusal.
    pub open spec fn spec_message(self) -> Seq<char> {
        match self {
            MoveError::NotAMove => "isn't a valid move, please try again"@,
            MoveError::PromotionRequired => "must be a pawn promotion, please try again"@,
            MoveError::NotACapture => "isn't a valid capture, please try again"@,
            MoveError::NotAPromotion => "isn't a valid pawn promotion, please try again"@,
            MoveError::NotACastle => "isn't a valid castle move, please try again"@,
            MoveError::CastleBlocked => "castles through pieces or check, please try again"@,
            MoveError::IntoCheck => "leaves the king in check, please try again"@,
            MoveError::Ambiguous => "is an ambiguous move, please try again"@,
        }
    }

    /// The message shown for this refusal, to follow the echoed input.
    pub fn message(&self) -> (r: &'static str)
        ensures
            r@ == self.spec_message(),
    {
        match self {
            MoveError::NotAMove => "isn't a valid move, please try again",
            MoveError::PromotionRequired => "must be a pawn promotion, please try again",
            MoveError::NotACapture => "isn't a valid capture, please try again",
            MoveError::NotAPromotion => "isn't a valid pawn promotion, please try again",
            MoveError::NotACastle => "isn't a valid castle move, please try again",
            MoveError::CastleBlocked => "castles through pieces or check, please try again",
            MoveError::IntoCheck => "leaves the king in check, please try again",
            MoveError::Ambiguous => "is an ambiguous move, please try again",
        }
    }
}

// Why notated input could not be read as a move request

#[derive(Clone, Copy, PartialEq, Eq, Structural, Debug)]
pub enum ParseError {
    /// The input has no recognisable move shape.
    NotAMove,
    /// The input starts like a pawn move but continues wrongly.
    NotAPawnMove,
    /// The input starts like a pawn capture but continues wrongly.
    NotAPawnCapture,
    /// The named promotion piece is missing or not promotable.
    NotAPromotion,
    /// The input starts with this piece's letter but continues wrongly.
    NotAPieceMove(PieceType),
}

// Notation model.

/// The character names a board column, a through h.
pub open spec fn is_col_char(ch: char) -> bool {
    'a' as int <= ch as int <= 'h' as int
}

/// The column a letter names.
pub open spec fn col_of(ch: char) -> int {
    ch as int - 'a' as int
}

/// The character names a board row, 1 through 8.
pub open spec fn is_row_char(ch: char) -> bool {
    '1' as int <= ch as int <= '8' as int
}

/// The row a digit names.
pub open spec fn row_of(ch: char) -> int {
    ch as int - '1' as int
}

/// What `parse_move` reads out of a line of algebraic notation.
pub open spec fn spec_parse(s: Seq<char>) -> Result<PlayerMove, ParseError> {
    if s.len() < 2 {
        Err(ParseError::NotAMove)
    } else if s =~= "O-O"@ {
        Ok(
            PlayerMove {
                piece: PieceType::King,
                from: File::Any,
                to: Point(0, 0),
                typ: MoveType::Castle(CastleDirection::H),
            },
        )
    } else if s =~= "O-O-O"@ {
        Ok(
            PlayerMove {
                piece: PieceType::King,
                from: File::Any,
                to: Point(0, 0),
                typ: MoveType::Castle(CastleDirection::A),
            },
        )
    } else if is_col_char(s[0]) {
        if s.len() == 2 && is_row_char(s[1]) {
            Ok(
                PlayerMove {
                    piece: PieceType::Pawn,
                    from: File::Column(col_of(s[0]) as usize),
                    to: Point(row_of(s[1]) as usize, col_of(s[0]) as usize),
                    typ: MoveType::Move,
                },
            )
        } else if s.len() == 4 {
            if s[1] == 'x' && is_col_char(s[2]) && is_row_char(s[3]) {
                Ok(
                    PlayerMove {
                        piece: PieceType::Pawn,
                        from: File::Column(col_of(s[0]) as usize),
                        to: Point(row_of(s[3]) as usize, col_of(s[2]) as usize),
                        typ: MoveType::Capture,
                    },
                )
            } else if (s[1] == '8' || s[1] == '1') && s[2] == '=' {
                match PieceType::spec_of_char(s[3]) {
                    Some(promote) => if promotable(promote) {
                        Ok(
                            PlayerMove {
                                piece: PieceType::Pawn,
                                from: File::Column(col_of(s[0]) as usize),
                                to: Point(row_of(s[1]) as usize, col_of(s[0]) as usize),
                                typ: MoveType::Promotion(promote),
                            },
                        )
                    } else {
                        Err(ParseError::NotAPromotion)
                    },
                    None => Err(ParseError::NotAPromotion),
                }
            } else {
                Err(ParseError::NotAPawnCapture)
            }
        } else if s.len() == 6 && s[1] == 'x' && is_col_char(s[2]) && is_row_char(s[3]) && s[4]
            == '=' {
            match PieceType::spec_of_char(s[5]) {
                Some(promote) => if promotable(promote) {
                    Ok(
                        PlayerMove {
                            piece: PieceType::Pawn,
                            from: File::Column(col_of(s[0]) as usize),
                            to: Point(row_of(s[3]) as usize, col_of(s[2]) as usize),
                            typ: MoveType::CapturePromotion(promote),
                        },
                    )
                } else {
                    Err(ParseError::NotAPromotion)
                },
                None => Err(ParseError::NotAPromotion),
            }
        } else {
            Err(ParseError::NotAPawnMove)
        }
    } else {
        match PieceType::spec_of_char(s[0]) {
            Some(piece) => {
                if s.len() == 3 && is_col_char(s[1]) && is_row_char(s[2]) {
                    Ok(
                        PlayerMove {
                            piece,
                            from: File::Any,
                            to: Point(row_of(s[2]) as usize, col_of(s[1]) as usize),
                            typ: MoveType::Move,
                        },
                    )
                } else if s.len() == 4 && is_col_char(s[2]) && is_row_char(s[3]) {
                    if s[1] == 'x' {
                        Ok(
                            PlayerMove {
                                piece,
                                from: File::Any,
                                to: Point(row_of(s[3]) as usize, col_of(s[2]) as usize),
                                typ: MoveType::Capture,
                            },
                        )
                    } else if is_row_char(s[1]) {
                        Ok(
                            PlayerMove {
                                piece,
                                from: File::Row(row_of(s[1]) as usize),
                                to: Point(row_of(s[3]) as usize, col_of(s[2]) as usize),
                                typ: MoveType::Move,
                            },
                        )
                    } else if is_col_char(s[1]) {
                        Ok(
                            PlayerMove {
                                piece,
                                from: File::Column(col_of(s[1]) as usize),
                                to: Point(row_of(s[3]) as usize, col_of(s[2]) as usize),
                                typ: MoveType::Move,
                            },
                        )
                    } else {
                        Err(ParseError::NotAPieceMove(piece))
                    }
                } else if s.len() == 5 && s[2] == 'x' && is_col_char(s[3]) && is_row_char(s[4]) {
                    if is_row_char(s[1]) {
                        Ok(
                            PlayerMove {
                                piece,
                                from: File::Row(row_of(s[1]) as usize),
                                to: Point(row_of(s[4]) as usize, col_of(s[3]) as usize),
                                typ: MoveType::Capture,
                            },
                        )
                    } else if is_col_char(s[1]) {
                        Ok(
                            PlayerMove {
                                piece,
                                from: File::Column(col_of(s[1]) as usize),
                                to: Point(row_of(s[4]) as usize, col_of(s[3]) as usize),
                                typ: MoveType::Capture,
                            },
                        )
                    } else {
                        Err(ParseError::NotAPieceMove(piece))
                    }
                } else {
                    Err(ParseError::NotAPieceMove(piece))
                }
            },
            None => Err(ParseError::NotAMove),
        }
    }
}

/// Collect the characters of a line of input.
fn chars_vec(s: &str) -> (r: Vec<char>)
    ensures
        r@ == s@,
{
    let mut r: Vec<char> = Vec::new();
    for ch in it: s.chars()
        invariant
            it.seq() == s@,
            r@ == it.seq().take(it.index() as int),
    {
        r.push(ch);
    }
    proof {
        assert(r@ =~= s@);
    }
    r
}

/// Read a column letter as a column number.
fn col_index(ch: char) -> (r: usize)
    requires
        is_col_char(ch),
    ensures
        r == col_of(ch),
        r < 8,
{
    (ch as u32 as usize) - ('a' as u32 as usize)
}

/// Read a row digit as a row number.
fn row_index(ch: char) -> (r: usize)
    requires
        is_row_char(ch),
    ensures
        r == row_of(ch),
        r < 8,
{
    (ch as u32 as usize) - ('1' as u32 as usize)
}

/// Whether the character names a column.
fn is_col(ch: char) -> (r: bool)
    ensures
        r == is_col_char(ch),
{
    'a' <= ch && ch <= 'h'
}

/// Whether the character names a row.
fn is_row(ch: char) -> (r: bool)
    ensures
        r == is_row_char(ch),
{
    '1' <= ch && ch <= '8'
}

// Parse player input into move data

pub fn parse_move(input: &str) -> (r: Result<PlayerMove, ParseError>)
    ensures
        r == spec_parse(input@),
        r matches Ok(md) ==> md.to.0 < 8 && md.to.1 < 8,
{
    // Check input characters

    let chars: Vec<char> = chars_vec(input);
    if chars.len() < 2 {
        return Err(ParseError::NotAMove);
    }

    // Check castle moves

    proof {
        reveal_strlit("O-O");
        reveal_strlit("O-O-O");
    }
    if chars.len() == 3 && chars[0] == 'O' && chars[1] == '-' && chars[2] == 'O' {
        proof {
            assert(input@ =~= "O-O"@);
        }
        return Ok(
            PlayerMove {
                piece: PieceType::King,
                from: File::Any,
                to: Point(0, 0),
                typ: MoveType::Castle(CastleDirection::H),
            },
        );
    }
    proof {
        if input@ =~= "O-O"@ {
            assert(chars@.len() == 3 && chars@[0] == 'O' && chars@[1] == '-' && chars@[2] == 'O');
        }
    }
    if chars.len() == 5 && chars[0] == 'O' && chars[1] == '-' && chars[2] == 'O' && chars[3] == '-'
        && chars[4] == 'O' {
        proof {
            assert(input@ =~= "O-O-O"@);
        }
        return Ok(
            PlayerMove {
                piece: PieceType::King,
                from: File::Any,
                to: Point(0, 0),
                typ: MoveType::Castle(CastleDirection::A),
            },
        );
    }
    proof {
        if input@ =~= "O-O-O"@ {
            assert(chars@.len() == 5 && chars@[0] == 'O' && chars@[1] == '-' && chars@[2] == 'O'
                && chars@[3] == '-' && chars@[4] == 'O');
        }
    }

    // Check pawn moves

    if is_col(chars[0]) {
        let col = col_index(chars[0]);
        if chars.len() == 2 && is_row(chars[1]) {
            // Pawn forward move

            return Ok(
                PlayerMove {
                    piece: PieceType::Pawn,
                    from: File::Column(col),
                    to: Point(row_index(chars[1]), col),
                    typ: MoveType::Move,
                },
            );
        } else if chars.len() == 4 {
            if chars[1] == 'x' && is_col(chars[2]) && is_row(chars[3]) {
                // Pawn diagonal capture

                return Ok(
                    PlayerMove {
                        piece: PieceType::Pawn,
                        from: File::Column(col),
                        to: Point(row_index(chars[3]), col_index(chars[2])),
                        typ: MoveType::Capture,
                    },
                );
            } else if (chars[1] == '8' || chars[1] == '1') && chars[2] == '=' {
                // Pawn promotion

                if let Some(promote) = PieceType::get_type(chars[3]) {
                    if is_promotion_piece(promote) {
                        return Ok(
                            PlayerMove {
                                piece: PieceType::Pawn,
                                from: File::Column(col),
                                to: Point(row_index(chars[1]), col),
                                typ: MoveType::Promotion(promote),
                            },
                        );
                    }
                    return Err(ParseError::NotAPromotion);
                }
                return Err(ParseError::NotAPromotion);
            }
            return Err(ParseError::NotAPawnCapture);
        } else if chars.len() == 6 && chars[1] == 'x' && is_col(chars[2]) && is_row(chars[3])
            && chars[4] == '=' {
            // Pawn capture promotion

            if let Some(promote) = PieceType::get_type(chars[5]) {
                if is_promotion_piece(promote) {
                    return Ok(
                        PlayerMove {
                            piece: PieceType::Pawn,
                            from: File::Column(col),
                            to: Point(row_index(chars[3]), col_index(chars[2])),
                            typ: MoveType::CapturePromotion(promote),
                        },
                    );
                }
                return Err(ParseError::NotAPromotion);
            }
            return Err(ParseError::NotAPromotion);
        }
        return Err(ParseError::NotAPawnMove);
    }

    // Check piece moves

    if let Some(piece) = PieceType::get_type(chars[0]) {
        if chars.len() == 3 && is_col(chars[1]) && is_row(chars[2]) {
            // Regular piece move

            return Ok(
                PlayerMove {
                    piece,
                    from: File::Any,
                    to: Point(row_index(chars[2]), col_index(chars[1])),
                    typ: MoveType::Move,
                },
            );
        } else if chars.len() == 4 && is_col(chars[2]) && is_row(chars[3]) {
            // Capture or disambiguating piece move

            let to = Point(row_index(chars[3]), col_index(chars[2]));

            if chars[1] == 'x' {
                // Piece capture

                return Ok(PlayerMove { piece, from: File::Any, to, typ: MoveType::Capture });
            } else if is_row(chars[1]) {
                return Ok(
                    PlayerMove {
                        piece,
                        from: File::Row(row_index(chars[1])),
                        to,
                        typ: MoveType::Move,
                    },
                );
            } else if is_col(chars[1]) {
                return Ok(
                    PlayerMove {
                        piece,
                        from: File::Column(col_index(chars[1])),
                        to,
                        typ: MoveType::Move,
                    },
                );
            }
            return Err(ParseError::NotAPieceMove(piece));
        } else if chars.len() == 5 && chars[2] == 'x' && is_col(chars[3]) && is_row(chars[4]) {
            // Disambiguating piece capture

            let to = Point(row_index(chars[4]), col_index(chars[3]));

            if is_row(chars[1]) {
                return Ok(
                    PlayerMove {
                        piece,
                        from: File::Row(row_index(chars[1])),
                        to,
                        typ: MoveType::Capture,
                    },
                );
            } else if is_col(chars[1]) {
                return Ok(
                    PlayerMove {
                        piece,
                        from: File::Column(col_index(chars[1])),
                        to,
                        typ: MoveType::Capture,
                    },
                );
            }
            return Err(ParseError::NotAPieceMove(piece));
        }
        return Err(ParseError::NotAPieceMove(piece));
    }

    // Invalid piece specified

    Err(ParseError::NotAMove)
}

// Validation model.

/// The rank a pawn of this side promotes on.
pub open spec fn last_rank(side: Side) -> int {
    if side == Side::White {
        7int
    } else {
        0int
    }
}

/// A pawn may promote to this piece type.
pub open spec fn promotable(t: PieceType) -> bool {
    t == PieceType::Knight || t == PieceType::Bishop || t == PieceType::Rook || t
        == PieceType::Queen
}

pub fn is_promotion_piece(t: PieceType) -> (r: bool)
    ensures
        r == promotable(t),
{
    matches!(t, PieceType::Knight | PieceType::Bishop | PieceType::Rook | PieceType::Queen)
}

/// `to` is the empty square behind the tracked double-stepped pawn, as
/// seen by the side to move: its en-passant capture square.
pub open spec fn ep_capture_square(gm: Game, to: Point) -> bool {
    match gm.pawn_double_moved {
        Some(q) => to.1 == q.1 && to.0 as int == q.0 as int + fwd(gm.turn) && empty_at(
            grid(gm.board),
            to.0 as int,
            to.1 as int,
        ),
        None => false,
    }
}

/// The destination suits a plain capture: an enemy piece other than the
/// king stands there, or a pawn takes en passant.
pub open spec fn capture_target_ok(gm: Game, piece: PieceType, to: Point) -> bool {
    ||| match grid(gm.board)[to.0 as int][to.1 as int] {
        Square::Full(p) => p.side != gm.turn && p.typ != PieceType::King,
        Square::Empty => false,
    }
    ||| (piece == PieceType::Pawn && ep_capture_square(gm, to))
}

/// What `validate_move` decides: the stateless checks a move request
/// must pass before candidate generation, in order.
pub open spec fn spec_validate(gm: Game, md: PlayerMove) -> Result<(), MoveError> {
    let g = grid(gm.board);
    let to_r = md.to.0 as int;
    match md.typ {
        MoveType::Move => {
            if g[to_r][md.to.1 as int] is Full {
                Err(MoveError::NotAMove)
            } else if md.piece == PieceType::Pawn && (md.to.0 == 0 || md.to.0 == 7) {
                Err(MoveError::PromotionRequired)
            } else {
                Ok(())
            }
        },
        MoveType::Capture => {
            if !capture_target_ok(gm, md.piece, md.to) {
                Err(MoveError::NotACapture)
            } else if md.piece == PieceType::Pawn && to_r == last_rank(gm.turn) {
                Err(MoveError::PromotionRequired)
            } else {
                Ok(())
            }
        },
        MoveType::Promotion(t) => {
            if g[to_r][md.to.1 as int] is Full {
                Err(MoveError::NotAPromotion)
            } else if md.piece != PieceType::Pawn || !promotable(t) {
                Err(MoveError::NotAPromotion)
            } else if to_r != last_rank(gm.turn) {
                Err(MoveError::NotAPromotion)
            } else {
                Ok(())
            }
        },
        MoveType::CapturePromotion(t) => {
            if !(match g[to_r][md.to.1 as int] {
                Square::Full(p) => p.side != gm.turn && p.typ != PieceType::King,
                Square::Empty => false,
            }) {
                Err(MoveError::NotACapture)
            } else if md.piece != PieceType::Pawn || !promotable(t) {
                Err(MoveError::NotAPromotion)
            } else if to_r != last_rank(gm.turn) {
                Err(MoveError::NotAPromotion)
            } else {
                Ok(())
            }
        },
        MoveType::Castle(dir) => {
            if !gm.castle_rights.spec_right(gm.turn, dir) {
                Err(MoveError::NotACastle)
            } else if !castle_path_ok(g, gm.turn, dir, gm.king_positions.spec_pos(gm.turn)) {
                Err(MoveError::CastleBlocked)
            } else {
                Ok(())
            }
        },
    }
}

// Validate move input with basic checks

pub fn validate_move(move_data: PlayerMove, game: &Game) -> (r: Result<(), MoveError>)
    requires
        game.wf(),
        move_data.to.0 < 8,
        move_data.to.1 < 8,
    ensures
        r == spec_validate(*game, move_data),
{
    match move_data.typ {
        MoveType::Move => {
            if matches!(game.board[move_data.to.0][move_data.to.1], Square::Full(_)) {
                return Err(MoveError::NotAMove);
            }
            if move_data.piece == PieceType::Pawn && (move_data.to.0 == 0 || move_data.to.0 == 7) {
                return Err(MoveError::PromotionRequired);
            }
            Ok(())
        },
        MoveType::Capture => {
            let full_target = match game.board[move_data.to.0][move_data.to.1] {
                Square::Full(p) => p.side != game.turn && p.typ != PieceType::King,
                Square::Empty => false,
            };
            let ep_target = move_data.piece == PieceType::Pawn && is_ep_capture_square(
                game,
                move_data.to,
            );
            if !(full_target || ep_target) {
                return Err(MoveError::NotACapture);
            }
            let lr: usize = match game.turn {
                Side::White => 7,
                Side::Black => 0,
            };
            if move_data.piece == PieceType::Pawn && move_data.to.0 == lr {
                return Err(MoveError::PromotionRequired);
            }
            Ok(())
        },
        MoveType::Promotion(t) => {
            if matches!(game.board[move_data.to.0][move_data.to.1], Square::Full(_)) {
                return Err(MoveError::NotAPromotion);
            }
            if !(move_data.piece == PieceType::Pawn) || !is_promotion_piece(t) {
                return Err(MoveError::NotAPromotion);
            }
            let lr: usize = match game.turn {
                Side::White => 7,
                Side::Black => 0,
            };
            if move_data.to.0 != lr {
                return Err(MoveError::NotAPromotion);
            }
            Ok(())
        },
        MoveType::CapturePromotion(t) => {
            let full_target = match game.board[move_data.to.0][move_data.to.1] {
                Square::Full(p) => p.side != game.turn && p.typ != PieceType::King,
                Square::Empty => false,
            };
            if !full_target {
                return Err(MoveError::NotACapture);
            }
            if !(move_data.piece == PieceType::Pawn) || !is_promotion_piece(t) {
                return Err(MoveError::NotAPromotion);
            }
            let lr: usize = match game.turn {
                Side::White => 7,
                Side::Black => 0,
            };
            if move_data.to.0 != lr {
                return Err(MoveError::NotAPromotion);
            }
            Ok(())
        },
        MoveType::Castle(dir) => {
            if !game.castle_rights.has_right(game.turn, dir) {
                return Err(MoveError::NotACastle);
            }
            if !can_castle(game.turn, dir, &game.board, game.king_positions.get_pos(game.turn)) {
                return Err(MoveError::CastleBlocked);
            }
            Ok(())
        },
    }
}

/// Whether `to` is the en-passant capture square of the tracked pawn.
fn is_ep_capture_square(game: &Game, to: Point) -> (r: bool)
    requires
        game.wf(),
        to.0 < 8,
        to.1 < 8,
    ensures
        r == ep_capture_square(*game, to),
{
    match game.pawn_double_moved {
        Some(q) => {
            let target_row: usize = match game.turn {
                Side::White => q.0 + 1,
                Side::Black => q.0 - 1,
            };
            to.1 == q.1 && to.0 == target_row && matches!(game.board[to.0][to.1], Square::Empty)
        },
        None => false,
    }
}

} // verus!
