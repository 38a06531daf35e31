use chess_core::board::{
    castle_columns, castled_positions, initial_positions, CastleDirection, Game, PieceType, Point,
    Side,
};
use chess_core::move_input::{parse_move, validate_move, File, MoveError, MoveType, ParseError};

#[test]
fn parse_pawn_forward() {
    let md = parse_move("e4").unwrap();
    assert_eq!(md.piece, PieceType::Pawn);
    assert_eq!(md.from, File::Column(4));
    assert_eq!(md.to, Point(3, 4));
    assert_eq!(md.typ, MoveType::Move);
}

#[test]
fn parse_pawn_capture() {
    let md = parse_move("exd5").unwrap();
    assert_eq!(md.piece, PieceType::Pawn);
    assert_eq!(md.from, File::Column(4));
    assert_eq!(md.to, Point(4, 3));
    assert_eq!(md.typ, MoveType::Capture);
}

#[test]
fn parse_pawn_promotion() {
    let md = parse_move("e8=Q").unwrap();
    assert_eq!(md.piece, PieceType::Pawn);
    assert_eq!(md.from, File::Column(4));
    assert_eq!(md.to, Point(7, 4));
    assert_eq!(md.typ, MoveType::Promotion(PieceType::Queen));
}

#[test]
fn parse_pawn_capture_promotion() {
    let md = parse_move("exd8=N").unwrap();
    assert_eq!(md.piece, PieceType::Pawn);
    assert_eq!(md.from, File::Column(4));
    assert_eq!(md.to, Point(7, 3));
    assert_eq!(md.typ, MoveType::CapturePromotion(PieceType::Knight));
}

#[test]
fn parse_piece_move() {
    let md = parse_move("Nf3").unwrap();
    assert_eq!(md.piece, PieceType::Knight);
    assert_eq!(md.from, File::Any);
    assert_eq!(md.to, Point(2, 5));
    assert_eq!(md.typ, MoveType::Move);
}

#[test]
fn parse_piece_capture() {
    let md = parse_move("Qxh7").unwrap();
    assert_eq!(md.piece, PieceType::Queen);
    assert_eq!(md.from, File::Any);
    assert_eq!(md.to, Point(6, 7));
    assert_eq!(md.typ, MoveType::Capture);
}

#[test]
fn parse_disambiguating_column_move() {
    let md = parse_move("Rab1").unwrap();
    assert_eq!(md.piece, PieceType::Rook);
    assert_eq!(md.from, File::Column(0));
    assert_eq!(md.to, Point(0, 1));
    assert_eq!(md.typ, MoveType::Move);
}

#[test]
fn parse_disambiguating_row_capture() {
    let md = parse_move("R1xa3").unwrap();
    assert_eq!(md.piece, PieceType::Rook);
    assert_eq!(md.from, File::Row(0));
    assert_eq!(md.to, Point(2, 0));
    assert_eq!(md.typ, MoveType::Capture);
}

#[test]
fn parse_castles() {
    let short = parse_move("O-O").unwrap();
    assert_eq!(short.piece, PieceType::King);
    assert_eq!(short.typ, MoveType::Castle(CastleDirection::H));
    let long = parse_move("O-O-O").unwrap();
    assert_eq!(long.typ, MoveType::Castle(CastleDirection::A));
}

#[test]
fn parse_rejects_short_input() {
    assert_eq!(parse_move("e"), Err(ParseError::NotAMove));
    assert_eq!(parse_move(""), Err(ParseError::NotAMove));
}

#[test]
fn parse_rejects_unknown_piece() {
    assert_eq!(parse_move("Zf3"), Err(ParseError::NotAMove));
}

#[test]
fn parse_rejects_bad_pawn_shapes() {
    assert_eq!(parse_move("e4x"), Err(ParseError::NotAPawnMove));
    assert_eq!(parse_move("exz5"), Err(ParseError::NotAPawnCapture));
}

#[test]
fn parse_rejects_bad_promotions() {
    assert_eq!(parse_move("a8=P"), Err(ParseError::NotAPromotion));
    assert_eq!(parse_move("a8=K"), Err(ParseError::NotAPromotion));
    assert_eq!(parse_move("a8=Z"), Err(ParseError::NotAPromotion));
    assert_eq!(parse_move("axb8=K"), Err(ParseError::NotAPromotion));
}

#[test]
fn parse_rejects_bad_piece_shapes() {
    assert_eq!(parse_move("Nxx4"), Err(ParseError::NotAPieceMove(PieceType::Knight)));
    assert_eq!(parse_move("Nf3g5"), Err(ParseError::NotAPieceMove(PieceType::Knight)));
}

#[test]
fn piece_type_letters() {
    assert_eq!(PieceType::get_type('P'), Some(PieceType::Pawn));
    assert_eq!(PieceType::get_type('N'), Some(PieceType::Knight));
    assert_eq!(PieceType::get_type('B'), Some(PieceType::Bishop));
    assert_eq!(PieceType::get_type('R'), Some(PieceType::Rook));
    assert_eq!(PieceType::get_type('Q'), Some(PieceType::Queen));
    assert_eq!(PieceType::get_type('K'), Some(PieceType::King));
    assert_eq!(PieceType::get_type('X'), None);
    assert_eq!(PieceType::get_type('p'), None);
}

#[test]
fn fixed_game_parameters() {
    let home = initial_positions();
    assert_eq!(home.WHITE_KING, Point(0, 4));
    assert_eq!(home.BLACK_ROOKS, (Point(7, 0), Point(7, 7)));
    let castled = castled_positions();
    assert_eq!(castled.WHITE_KING, (Point(0, 2), Point(0, 6)));
    assert_eq!(castled.BLACK_ROOKS, (Point(7, 3), Point(7, 5)));
    let cols = castle_columns();
    assert_eq!((cols.0.start, cols.0.end), (2, 5));
    assert_eq!((cols.1.start, cols.1.end), (4, 7));
    assert_eq!(Side::White.get_opposite(), Side::Black);
    assert_eq!(Side::Black.get_opposite(), Side::White);
}

#[test]
fn validate_checks_stateless_rules() {
    let game = Game::new();
    // A quiet move onto an empty square passes.
    assert_eq!(validate_move(parse_move("e4").unwrap(), &game), Ok(()));
    // A quiet move onto an occupied square does not.
    assert_eq!(
        validate_move(parse_move("Nd2").unwrap(), &game),
        Err(MoveError::NotAMove)
    );
    // A capture needs a target.
    assert_eq!(
        validate_move(parse_move("exd3").unwrap(), &game),
        Err(MoveError::NotACapture)
    );
}

#[test]
fn piece_names_and_chars() {
    assert_eq!(PieceType::Pawn.get_name(), "pawn");
    assert_eq!(PieceType::Queen.get_name(), "queen");
    assert_eq!(chess_core::board::Square::Empty.get_char(), " ");
}
