use chess_core::board::{
    CastleDirection, CastleRights, Game, KingPositions, Move, Piece, PieceType, Point, Side,
    Square,
};
use chess_core::moves::{can_castle, filter_legal_moves, get_knight_moves, get_pawn_moves,
    get_rook_moves, in_check};
use chess_core::zobrist::ZobristTable;

fn empty_board() -> [[Square; 8]; 8] {
    [[Square::Empty; 8]; 8]
}

fn place(board: &mut [[Square; 8]; 8], r: usize, c: usize, side: Side, typ: PieceType) {
    board[r][c] = Square::Full(Piece { side, typ });
}

fn game_from(
    turn: Side,
    board: [[Square; 8]; 8],
    kings: KingPositions,
    rights: CastleRights,
) -> Game {
    Game {
        turn,
        board,
        king_positions: kings,
        castle_rights: rights,
        pawn_double_moved: None,
        last_active_ply: 0,
        zobrist_table: ZobristTable::new(16, turn, &board, rights, None),
    }
}

const NO_RIGHTS: CastleRights = CastleRights { white: (false, false), black: (false, false) };

#[test]
fn initial_board_has_one_king_per_side() {
    let game = Game::new();
    let mut white_kings = 0;
    let mut black_kings = 0;
    for r in 0..8 {
        for c in 0..8 {
            if let Square::Full(p) = game.board[r][c] {
                if p.typ == PieceType::King {
                    match p.side {
                        Side::White => white_kings += 1,
                        Side::Black => black_kings += 1,
                    }
                }
            }
        }
    }
    assert_eq!(white_kings, 1);
    assert_eq!(black_kings, 1);
    assert_eq!(game.king_positions.get_pos(Side::White), Point(0, 4));
    assert_eq!(game.king_positions.get_pos(Side::Black), Point(7, 4));
}

#[test]
fn kings_stay_single_after_moves() {
    let mut game = Game::new();
    for mv in ["e4", "e5", "Ke2", "Ke7"] {
        let md = chess_core::move_input::parse_move(mv).unwrap();
        game.player_move(md).unwrap();
    }
    let mut kings = 0;
    for r in 0..8 {
        for c in 0..8 {
            if let Square::Full(p) = game.board[r][c] {
                if p.typ == PieceType::King {
                    kings += 1;
                }
            }
        }
    }
    assert_eq!(kings, 2);
    assert_eq!(game.king_positions.get_pos(Side::White), Point(1, 4));
    assert_eq!(game.king_positions.get_pos(Side::Black), Point(6, 4));
}

#[test]
fn probe_restores_board_for_accepted_and_rejected_candidates() {
    // A pinned knight: every candidate probe is rejected; a rook move is
    // accepted.  Either way the board must come back untouched.
    let mut board = empty_board();
    place(&mut board, 0, 4, Side::White, PieceType::King);
    place(&mut board, 2, 4, Side::White, PieceType::Knight);
    place(&mut board, 7, 4, Side::Black, PieceType::Rook);
    place(&mut board, 7, 7, Side::Black, PieceType::King);
    place(&mut board, 0, 0, Side::White, PieceType::Rook);
    let snapshot = board;

    let knight_moves = get_knight_moves(Side::White, 2, 4, &board);
    let candidates: Vec<Move> = knight_moves
        .iter()
        .map(|p| Move { from: Point(2, 4), to: *p })
        .collect();
    let legal = filter_legal_moves(Side::White, candidates, &mut board, Point(0, 4));
    assert!(legal.is_empty());
    assert_eq!(board, snapshot);

    let rook_moves = get_rook_moves(Side::White, 0, 0, &board);
    let candidates: Vec<Move> = rook_moves
        .iter()
        .map(|p| Move { from: Point(0, 0), to: *p })
        .collect();
    let legal = filter_legal_moves(Side::White, candidates, &mut board, Point(0, 4));
    assert!(!legal.is_empty());
    assert_eq!(board, snapshot);
}

#[test]
fn back_rank_mate_is_win_for_black() {
    let mut board = empty_board();
    place(&mut board, 0, 7, Side::White, PieceType::King);
    place(&mut board, 1, 6, Side::White, PieceType::Pawn);
    place(&mut board, 1, 7, Side::White, PieceType::Pawn);
    place(&mut board, 0, 0, Side::Black, PieceType::Rook);
    place(&mut board, 7, 4, Side::Black, PieceType::King);
    let mut game = game_from(
        Side::White,
        board,
        KingPositions { white: Point(0, 7), black: Point(7, 4) },
        NO_RIGHTS,
    );
    assert_eq!(
        game.get_game_result(),
        chess_core::game::GameResult::Win(Side::Black)
    );
}

#[test]
fn king_only_stalemate_is_draw() {
    let mut board = empty_board();
    place(&mut board, 0, 0, Side::White, PieceType::King);
    place(&mut board, 2, 1, Side::Black, PieceType::Queen);
    place(&mut board, 7, 7, Side::Black, PieceType::King);
    let mut game = game_from(
        Side::White,
        board,
        KingPositions { white: Point(0, 0), black: Point(7, 7) },
        NO_RIGHTS,
    );
    assert!(!in_check(Side::White, Point(0, 0), &game.board));
    assert_eq!(
        game.get_game_result(),
        chess_core::game::GameResult::Draw(chess_core::game::DrawType::Stalemate)
    );
}

#[test]
fn half_move_clock_at_hundred_is_fifty_move_draw() {
    // Independent of material or mobility: the full initial position.
    let mut game = Game::new();
    game.last_active_ply = 100;
    assert_eq!(
        game.get_game_result(),
        chess_core::game::GameResult::Draw(chess_core::game::DrawType::FiftyMove)
    );
}

#[test]
fn fresh_game_is_ongoing() {
    let mut game = Game::new();
    assert_eq!(game.get_game_result(), chess_core::game::GameResult::Ongoing);
}

#[test]
fn double_step_is_capturable_exactly_one_ply() {
    // e4 a6 e5 d5: the d-pawn just double-stepped, so exd6 works.
    let mut game = Game::new();
    for mv in ["e4", "a6", "e5", "d5"] {
        let md = chess_core::move_input::parse_move(mv).unwrap();
        game.player_move(md).unwrap();
    }
    assert_eq!(game.pawn_double_moved, Some(Point(4, 3)));
    let md = chess_core::move_input::parse_move("exd6").unwrap();
    game.player_move(md).unwrap();
    // The captured pawn leaves its own square, not the destination.
    assert_eq!(game.board[4][3], Square::Empty);
    assert_eq!(
        game.board[5][3],
        Square::Full(Piece { side: Side::White, typ: PieceType::Pawn })
    );
    assert_eq!(game.pawn_double_moved, None);
}

#[test]
fn double_step_is_not_capturable_later() {
    // e4 a6 e5 d5, then a waiting move on each side: exd6 is refused.
    let mut game = Game::new();
    for mv in ["e4", "a6", "e5", "d5", "a3", "a5"] {
        let md = chess_core::move_input::parse_move(mv).unwrap();
        game.player_move(md).unwrap();
    }
    let md = chess_core::move_input::parse_move("exd6").unwrap();
    assert_eq!(
        game.player_move(md),
        Err(chess_core::move_input::MoveError::NotACapture)
    );
}

#[test]
fn king_move_revokes_both_rights_permanently() {
    let mut game = Game::new();
    for mv in ["e4", "e5", "Ke2", "a6", "Ke1", "a5"] {
        let md = chess_core::move_input::parse_move(mv).unwrap();
        game.player_move(md).unwrap();
    }
    // The king went out and came back: the rights stay revoked.
    assert!(!game.castle_rights.has_right(Side::White, CastleDirection::A));
    assert!(!game.castle_rights.has_right(Side::White, CastleDirection::H));
    assert!(game.castle_rights.has_right(Side::Black, CastleDirection::A));
    assert!(game.castle_rights.has_right(Side::Black, CastleDirection::H));
}

#[test]
fn rook_move_revokes_single_right() {
    let mut game = Game::new();
    for mv in ["a4", "a5", "Ra3", "e5"] {
        let md = chess_core::move_input::parse_move(mv).unwrap();
        game.player_move(md).unwrap();
    }
    assert!(!game.castle_rights.has_right(Side::White, CastleDirection::A));
    assert!(game.castle_rights.has_right(Side::White, CastleDirection::H));
}

#[test]
fn rook_capture_revokes_single_right() {
    // A knight eats the h8 rook on its home square.
    let mut game = Game::new();
    for mv in ["Nf3", "a6", "Ne5", "a5", "Ng6", "a4", "Nxh8"] {
        let md = chess_core::move_input::parse_move(mv).unwrap();
        let r = game.player_move(md);
        assert!(r.is_ok(), "move {mv} failed: {r:?}");
    }
    assert!(!game.castle_rights.has_right(Side::Black, CastleDirection::H));
    assert!(game.castle_rights.has_right(Side::Black, CastleDirection::A));
}

#[test]
fn obstructed_castle_is_blocked_but_right_kept() {
    let mut game = Game::new();
    let md = chess_core::move_input::parse_move("O-O").unwrap();
    assert_eq!(
        game.player_move(md),
        Err(chess_core::move_input::MoveError::CastleBlocked)
    );
    assert!(game.castle_rights.has_right(Side::White, CastleDirection::H));
}

#[test]
fn castle_through_attacked_square_is_blocked() {
    let mut board = empty_board();
    place(&mut board, 0, 4, Side::White, PieceType::King);
    place(&mut board, 0, 7, Side::White, PieceType::Rook);
    place(&mut board, 7, 5, Side::Black, PieceType::Rook);
    place(&mut board, 7, 4, Side::Black, PieceType::King);
    // f1 is attacked along the f file.
    assert!(!can_castle(Side::White, CastleDirection::H, &board, Point(0, 4)));
    let rights = CastleRights { white: (false, true), black: (false, false) };
    let mut game = game_from(
        Side::White,
        board,
        KingPositions { white: Point(0, 4), black: Point(7, 4) },
        rights,
    );
    let md = chess_core::move_input::parse_move("O-O").unwrap();
    assert_eq!(
        game.player_move(md),
        Err(chess_core::move_input::MoveError::CastleBlocked)
    );
    assert!(game.castle_rights.has_right(Side::White, CastleDirection::H));
}

#[test]
fn castle_commit_moves_king_and_rook() {
    let mut board = empty_board();
    place(&mut board, 0, 4, Side::White, PieceType::King);
    place(&mut board, 0, 7, Side::White, PieceType::Rook);
    place(&mut board, 7, 4, Side::Black, PieceType::King);
    let rights = CastleRights { white: (false, true), black: (false, false) };
    let mut game = game_from(
        Side::White,
        board,
        KingPositions { white: Point(0, 4), black: Point(7, 4) },
        rights,
    );
    let md = chess_core::move_input::parse_move("O-O").unwrap();
    game.player_move(md).unwrap();
    assert_eq!(
        game.board[0][6],
        Square::Full(Piece { side: Side::White, typ: PieceType::King })
    );
    assert_eq!(
        game.board[0][5],
        Square::Full(Piece { side: Side::White, typ: PieceType::Rook })
    );
    assert_eq!(game.board[0][4], Square::Empty);
    assert_eq!(game.board[0][7], Square::Empty);
    assert_eq!(game.king_positions.get_pos(Side::White), Point(0, 6));
    assert!(!game.castle_rights.has_right(Side::White, CastleDirection::H));
    assert_eq!(game.turn, Side::Black);
    assert_eq!(game.last_active_ply, 1);
}

#[test]
fn scholars_mate_ends_in_win_for_white() {
    let mut game = Game::new();
    for mv in ["e4", "e5", "Bc4", "Nc6", "Qh5", "Nf6", "Qxf7"] {
        let md = chess_core::move_input::parse_move(mv).unwrap();
        let r = game.player_move(md);
        assert!(r.is_ok(), "move {mv} failed: {r:?}");
        match game.get_game_result() {
            chess_core::game::GameResult::Ongoing => assert_ne!(mv, "Qxf7"),
            chess_core::game::GameResult::Win(side) => {
                assert_eq!(mv, "Qxf7");
                assert_eq!(side, Side::White);
            }
            other => panic!("unexpected result {other:?}"),
        }
    }
}

#[test]
fn pawn_generator_from_start() {
    let game = Game::new();
    let moves = get_pawn_moves(Side::White, 1, 4, &game.board, None);
    assert_eq!(moves.len(), 2);
    assert!(moves.contains(&Point(2, 4)));
    assert!(moves.contains(&Point(3, 4)));
}

#[test]
fn knight_generator_from_start() {
    let game = Game::new();
    let moves = get_knight_moves(Side::White, 0, 1, &game.board);
    assert_eq!(moves.len(), 2);
    assert!(moves.contains(&Point(2, 0)));
    assert!(moves.contains(&Point(2, 2)));
}

#[test]
fn rook_generator_open_file() {
    let mut board = empty_board();
    place(&mut board, 0, 0, Side::White, PieceType::Rook);
    place(&mut board, 0, 3, Side::White, PieceType::King);
    place(&mut board, 5, 0, Side::Black, PieceType::Pawn);
    let moves = get_rook_moves(Side::White, 0, 0, &board);
    // Up to and including the enemy pawn, and right up to the own king.
    assert_eq!(moves.len(), 7);
    assert!(moves.contains(&Point(5, 0)));
    assert!(!moves.contains(&Point(6, 0)));
    assert!(!moves.contains(&Point(0, 3)));
}

#[test]
fn in_check_detects_each_attacker() {
    let mut board = empty_board();
    place(&mut board, 7, 4, Side::Black, PieceType::Rook);
    assert!(in_check(Side::White, Point(0, 4), &board));
    let mut board = empty_board();
    place(&mut board, 3, 3, Side::Black, PieceType::Bishop);
    assert!(in_check(Side::White, Point(0, 0), &board));
    let mut board = empty_board();
    place(&mut board, 2, 1, Side::Black, PieceType::Knight);
    assert!(in_check(Side::White, Point(0, 0), &board));
    let mut board = empty_board();
    place(&mut board, 1, 1, Side::Black, PieceType::Pawn);
    assert!(in_check(Side::White, Point(0, 0), &board));
    let mut board = empty_board();
    place(&mut board, 7, 4, Side::Black, PieceType::Rook);
    place(&mut board, 3, 4, Side::White, PieceType::Pawn);
    // The own pawn blocks the file.
    assert!(!in_check(Side::White, Point(0, 4), &board));
}

#[test]
fn quiet_move_and_capture_update_clock() {
    let mut game = Game::new();
    let md = chess_core::move_input::parse_move("Nf3").unwrap();
    game.player_move(md).unwrap();
    assert_eq!(game.last_active_ply, 1);
    let md = chess_core::move_input::parse_move("d5").unwrap();
    game.player_move(md).unwrap();
    assert_eq!(game.last_active_ply, 0);
}

#[test]
fn promotion_places_chosen_piece() {
    let mut board = empty_board();
    place(&mut board, 6, 0, Side::White, PieceType::Pawn);
    place(&mut board, 0, 4, Side::White, PieceType::King);
    place(&mut board, 7, 7, Side::Black, PieceType::King);
    let mut game = game_from(
        Side::White,
        board,
        KingPositions { white: Point(0, 4), black: Point(7, 7) },
        NO_RIGHTS,
    );
    let md = chess_core::move_input::parse_move("a8=Q").unwrap();
    game.player_move(md).unwrap();
    assert_eq!(
        game.board[7][0],
        Square::Full(Piece { side: Side::White, typ: PieceType::Queen })
    );
    assert_eq!(game.board[6][0], Square::Empty);
    assert_eq!(game.last_active_ply, 0);
}
