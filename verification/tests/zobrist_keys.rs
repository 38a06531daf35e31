use chess_core::board::{CastleRights, Game, Piece, PieceType, Point, Side, Square};
use chess_core::move_input::MoveError;
use chess_core::zobrist::ZobristTable;

fn empty_board() -> [[Square; 8]; 8] {
    [[Square::Empty; 8]; 8]
}

fn place(board: &mut [[Square; 8]; 8], r: usize, c: usize, side: Side, typ: PieceType) {
    board[r][c] = Square::Full(Piece { side, typ });
}

const FULL_RIGHTS: CastleRights = CastleRights { white: (true, true), black: (true, true) };

#[test]
fn identical_states_hash_identically() {
    let a = Game::new();
    let b = Game::new();
    assert_eq!(a.zobrist_table.key(), b.zobrist_table.key());

    let mut board = empty_board();
    place(&mut board, 0, 4, Side::White, PieceType::King);
    place(&mut board, 7, 4, Side::Black, PieceType::King);
    let t1: ZobristTable<u32> = ZobristTable::new(4, Side::Black, &board, FULL_RIGHTS, None);
    let t2: ZobristTable<u32> = ZobristTable::new(64, Side::Black, &board, FULL_RIGHTS, None);
    assert_eq!(t1.key(), t2.key());
}

#[test]
fn changing_side_to_move_changes_key() {
    let board = Game::new().board;
    let white: ZobristTable<u32> = ZobristTable::new(4, Side::White, &board, FULL_RIGHTS, None);
    let black: ZobristTable<u32> = ZobristTable::new(4, Side::Black, &board, FULL_RIGHTS, None);
    assert_ne!(white.key(), black.key());
}

#[test]
fn changing_castle_rights_changes_key() {
    let board = Game::new().board;
    let all: ZobristTable<u32> = ZobristTable::new(4, Side::White, &board, FULL_RIGHTS, None);
    let none: ZobristTable<u32> = ZobristTable::new(
        4,
        Side::White,
        &board,
        CastleRights { white: (false, false), black: (false, false) },
        None,
    );
    let one: ZobristTable<u32> = ZobristTable::new(
        4,
        Side::White,
        &board,
        CastleRights { white: (true, true), black: (true, false) },
        None,
    );
    assert_ne!(all.key(), none.key());
    assert_ne!(all.key(), one.key());
    assert_ne!(none.key(), one.key());
}

#[test]
fn changing_board_contents_changes_key() {
    let board = Game::new().board;
    let mut other = board;
    other[1][4] = Square::Empty;
    let a: ZobristTable<u32> = ZobristTable::new(4, Side::White, &board, FULL_RIGHTS, None);
    let b: ZobristTable<u32> = ZobristTable::new(4, Side::White, &other, FULL_RIGHTS, None);
    assert_ne!(a.key(), b.key());
}

#[test]
fn en_passant_file_enters_key_only_when_capturable() {
    // A black pawn just double-stepped to d5 beside a white pawn on e5.
    let mut board = empty_board();
    place(&mut board, 0, 4, Side::White, PieceType::King);
    place(&mut board, 7, 4, Side::Black, PieceType::King);
    place(&mut board, 4, 3, Side::Black, PieceType::Pawn);
    place(&mut board, 4, 4, Side::White, PieceType::Pawn);
    let no_rights = CastleRights { white: (false, false), black: (false, false) };
    let with_slot: ZobristTable<u32> =
        ZobristTable::new(4, Side::White, &board, no_rights, Some(Point(4, 3)));
    let without: ZobristTable<u32> = ZobristTable::new(4, Side::White, &board, no_rights, None);
    assert_ne!(with_slot.key(), without.key());

    // Without the adjacent white pawn the capture is unavailable, and the
    // slot leaves no trace in the key.
    let mut lone = empty_board();
    place(&mut lone, 0, 4, Side::White, PieceType::King);
    place(&mut lone, 7, 4, Side::Black, PieceType::King);
    place(&mut lone, 4, 3, Side::Black, PieceType::Pawn);
    let with_slot: ZobristTable<u32> =
        ZobristTable::new(4, Side::White, &lone, no_rights, Some(Point(4, 3)));
    let without: ZobristTable<u32> = ZobristTable::new(4, Side::White, &lone, no_rights, None);
    assert_eq!(with_slot.key(), without.key());
}

#[test]
fn key_follows_committed_moves() {
    // After every commit, castling included, the stored key equals the
    // key computed afresh from the position now on the board.
    let mut game = Game::new();
    let initial_key = game.zobrist_table.key();
    for mv in ["e4", "e5", "Nf3", "Nc6", "Bc4", "Bc5", "O-O", "d5"] {
        let md = chess_core::move_input::parse_move(mv).unwrap();
        let r = game.player_move(md);
        assert!(r.is_ok(), "move {mv} failed: {r:?}");
        let recomputed: ZobristTable<u32> = ZobristTable::new(
            16,
            game.turn,
            &game.board,
            game.castle_rights,
            game.pawn_double_moved,
        );
        assert_eq!(game.zobrist_table.key(), recomputed.key(), "stale key after {mv}");
    }
    assert_ne!(game.zobrist_table.key(), initial_key);
}

#[test]
fn piece_keys_differ_per_square_and_piece() {
    let zobrist = chess_core::zobrist::Zobrist::new();
    let pawn = Piece { side: Side::White, typ: PieceType::Pawn };
    let k1 = zobrist.get_piece_key(pawn, Point(0, 0));
    let k2 = zobrist.get_piece_key(pawn, Point(0, 1));
    let k3 = zobrist.get_piece_key(Piece { side: Side::Black, typ: PieceType::Pawn }, Point(0, 0));
    assert_ne!(k1, k2);
    assert_ne!(k1, k3);
}

#[test]
fn errors_cover_each_refusal() {
    let mut game = Game::new();
    let parse = chess_core::move_input::parse_move;

    // No piece can reach the square.
    assert_eq!(game.player_move(parse("e5").unwrap()), Err(MoveError::NotAMove));
    // A quiet move onto an occupied square.
    assert_eq!(game.player_move(parse("Nd2").unwrap()), Err(MoveError::NotAMove));
    // A capture onto an empty square.
    assert_eq!(game.player_move(parse("exd3").unwrap()), Err(MoveError::NotACapture));
    // A promotion onto an occupied last-rank square.
    assert_eq!(game.player_move(parse("e8=Q").unwrap()), Err(MoveError::NotAPromotion));
    // Castling with the path obstructed.
    assert_eq!(game.player_move(parse("O-O").unwrap()), Err(MoveError::CastleBlocked));
    // Castling without the right.
    game.castle_rights.white = (false, false);
    assert_eq!(game.player_move(parse("O-O").unwrap()), Err(MoveError::NotACastle));
    assert_eq!(MoveError::NotAMove.message(), "isn't a valid move, please try again");
}

#[test]
fn moving_into_check_is_refused() {
    let mut board = empty_board();
    place(&mut board, 0, 4, Side::White, PieceType::King);
    place(&mut board, 7, 4, Side::Black, PieceType::Rook);
    place(&mut board, 7, 0, Side::Black, PieceType::King);
    let no_rights = CastleRights { white: (false, false), black: (false, false) };
    let mut game = Game {
        turn: Side::White,
        board,
        king_positions: chess_core::board::KingPositions { white: Point(0, 4), black: Point(7, 0) },
        castle_rights: no_rights,
        pawn_double_moved: None,
        last_active_ply: 0,
        zobrist_table: ZobristTable::new(4, Side::White, &board, no_rights, None),
    };
    let md = chess_core::move_input::parse_move("Ke2").unwrap();
    assert_eq!(game.player_move(md), Err(MoveError::IntoCheck));
}

#[test]
fn underspecified_move_is_ambiguous() {
    let mut board = empty_board();
    place(&mut board, 0, 4, Side::White, PieceType::King);
    place(&mut board, 0, 1, Side::White, PieceType::Knight);
    place(&mut board, 0, 5, Side::White, PieceType::Knight);
    place(&mut board, 7, 4, Side::Black, PieceType::King);
    let no_rights = CastleRights { white: (false, false), black: (false, false) };
    let mut game = Game {
        turn: Side::White,
        board,
        king_positions: chess_core::board::KingPositions { white: Point(0, 4), black: Point(7, 4) },
        castle_rights: no_rights,
        pawn_double_moved: None,
        last_active_ply: 0,
        zobrist_table: ZobristTable::new(4, Side::White, &board, no_rights, None),
    };
    let md = chess_core::move_input::parse_move("Nd2").unwrap();
    assert_eq!(game.player_move(md), Err(MoveError::Ambiguous));
    // A column disambiguation resolves it.
    let md = chess_core::move_input::parse_move("Nbd2").unwrap();
    assert!(game.player_move(md).is_ok());
}
