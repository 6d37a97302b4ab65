use marlinflow::board::{Color, Piece, Position};
use marlinflow::fen::parse_fen;
use marlinflow::marlinformat::PackedBoard;

fn start_position() -> Position {
    let back = [
        Piece::Rook,
        Piece::Knight,
        Piece::Bishop,
        Piece::Queen,
        Piece::King,
        Piece::Bishop,
        Piece::Knight,
        Piece::Rook,
    ];
    let mut squares: Vec<Option<(Color, Piece)>> = vec![None; 64];
    for f in 0..8 {
        squares[f] = Some((Color::White, back[f]));
        squares[8 + f] = Some((Color::White, Piece::Pawn));
        squares[48 + f] = Some((Color::Black, Piece::Pawn));
        squares[56 + f] = Some((Color::Black, back[f]));
    }
    Position {
        squares,
        side_to_move: Color::White,
        white_short: Some(7),
        white_long: Some(0),
        black_short: Some(7),
        black_long: Some(0),
        ep_file: None,
        halfmove_clock: 0,
        fullmove_number: 1,
    }
}

fn positions_equal(a: &Position, b: &Position) -> bool {
    a.squares == b.squares
        && a.side_to_move == b.side_to_move
        && a.white_short == b.white_short
        && a.white_long == b.white_long
        && a.black_short == b.black_short
        && a.black_long == b.black_long
        && a.ep_file == b.ep_file
        && a.halfmove_clock == b.halfmove_clock
        && a.fullmove_number == b.fullmove_number
}

#[test]
fn roundtrip_start_position() {
    let board = start_position();
    let packed = PackedBoard::pack(&board, 0, 1, 0);
    let (unpacked, eval, wdl, extra) = packed.unpack().expect("start position must unpack");
    assert!(positions_equal(&board, &unpacked));
    assert_eq!(eval, 0);
    assert_eq!(wdl, 1);
    assert_eq!(extra, 0);
}

#[test]
fn roundtrip_annotations() {
    let board = start_position();
    let packed = PackedBoard::pack(&board, -1234, 2, 7);
    let (_, eval, wdl, extra) = packed.unpack().expect("must unpack");
    assert_eq!(eval, -1234);
    assert_eq!(wdl, 2);
    assert_eq!(extra, 7);
}

#[test]
fn byte_stability_start_position() {
    let board = start_position();
    let packed = PackedBoard::pack(&board, 0, 0, 0);
    let bytes = packed.to_bytes();
    assert_eq!(bytes.len(), 32);
    let occupancy = u64::from_le_bytes(bytes[0..8].try_into().unwrap());
    assert_eq!(occupancy, 0xFFFF00000000FFFF);
    // the nibble array holds exactly four unmoved-rook sentinels
    let mut rook_sentinels = 0;
    for i in 0..32 {
        let byte = bytes[8 + i / 2];
        let nibble = if i % 2 == 0 { byte & 0xF } else { byte >> 4 };
        if nibble & 0x7 == 6 {
            rook_sentinels += 1;
        }
    }
    assert_eq!(rook_sentinels, 4);
}

#[test]
fn bytes_roundtrip() {
    let board = start_position();
    let packed = PackedBoard::pack(&board, 321, 2, 5);
    let bytes = packed.to_bytes();
    let reread = PackedBoard::from_bytes(&bytes);
    assert_eq!(bytes, reread.to_bytes());
    let (unpacked, eval, wdl, extra) = reread.unpack().expect("must unpack");
    assert!(positions_equal(&board, &unpacked));
    assert_eq!((eval, wdl, extra), (321, 2, 5));
}

#[test]
fn parse_fen_start_position() {
    let board = parse_fen("rnbqkbnr/pppppppp/8/8/8/8/PPPPPPPP/RNBQKBNR w KQkq - 0 1")
        .expect("the start position must parse");
    assert!(positions_equal(&board, &start_position()));
}

#[test]
fn parse_fen_rejects_garbage() {
    assert!(parse_fen("not a fen").is_none());
    assert!(parse_fen("8/8/8/8/8/8/8/8 w - - 0 1").is_none());
}

#[test]
fn parse_fen_black_to_move() {
    let board = parse_fen("rnbqkbnr/pppppppp/8/8/4P3/8/PPPP1PPP/RNBQKBNR b KQkq e3 0 1")
        .expect("the position after one pawn push must parse");
    assert_eq!(board.side_to_move, Color::Black);
    assert_eq!(board.ep_file, Some(4));
    assert_eq!(board.squares[28], Some((Color::White, Piece::Pawn)));
    assert_eq!(board.squares[12], None);
}

#[test]
fn en_passant_roundtrip() {
    let mut board = start_position();
    // after 1. e4: the pawn stands on e4 and the en-passant file is e
    board.squares[12] = None;
    board.squares[28] = Some((Color::White, Piece::Pawn));
    board.side_to_move = Color::Black;
    board.ep_file = Some(4);
    let packed = PackedBoard::pack(&board, 30, 1, 0);
    let (unpacked, _, _, _) = packed.unpack().expect("must unpack");
    assert!(positions_equal(&board, &unpacked));
}

#[test]
fn unpack_rejects_zero_fullmove() {
    let board = start_position();
    let packed = PackedBoard::pack(&board, 0, 1, 0);
    let mut bytes = packed.to_bytes();
    bytes[26] = 0;
    bytes[27] = 0;
    assert!(PackedBoard::from_bytes(&bytes).unpack().is_none());
}

#[test]
fn unpack_rejects_invalid_piece_code() {
    let board = start_position();
    let packed = PackedBoard::pack(&board, 0, 1, 0);
    let mut bytes = packed.to_bytes();
    // overwrite the first nibble (the a1 rook) with the invalid code 7
    bytes[8] = (bytes[8] & 0xF0) | 0x7;
    assert!(PackedBoard::from_bytes(&bytes).unpack().is_none());
}

#[test]
fn unpack_rejects_misplaced_en_passant() {
    let mut board = start_position();
    board.squares[12] = None;
    board.squares[28] = Some((Color::White, Piece::Pawn));
    board.side_to_move = Color::Black;
    board.ep_file = Some(4);
    let packed = PackedBoard::pack(&board, 0, 1, 0);
    let mut bytes = packed.to_bytes();
    // rewrite the en-passant square onto the wrong rank (e6 instead of e3)
    bytes[24] = 0x80 | 44;
    assert!(PackedBoard::from_bytes(&bytes).unpack_structural().is_none());
}

#[test]
fn unpack_rejects_illegal_position() {
    // structurally sound, but the side not to move is in check: the
    // chess library's validation refuses it
    let mut squares: Vec<Option<(Color, Piece)>> = vec![None; 64];
    squares[4] = Some((Color::White, Piece::King));
    squares[12] = Some((Color::White, Piece::Rook));
    squares[60] = Some((Color::Black, Piece::King));
    squares[44] = None;
    squares[52] = None;
    // white rook on e2 checks the black king while white is to move:
    // the side not to move may not be in check
    let board = Position {
        squares,
        side_to_move: Color::White,
        white_short: None,
        white_long: None,
        black_short: None,
        black_long: None,
        ep_file: None,
        halfmove_clock: 0,
        fullmove_number: 1,
    };
    let packed = PackedBoard::pack(&board, 0, 1, 0);
    // the structural decode accepts it either way; the full unpack asks
    // the chess library, which accepts checks only against the mover
    let structural = packed.unpack_structural();
    assert!(structural.is_some());
    assert!(packed.unpack().is_none());
}

#[test]
fn chess960_rights_roundtrip() {
    // a chess-960 flavored setup: rooks on b and g files with matching rights
    let mut squares: Vec<Option<(Color, Piece)>> = vec![None; 64];
    squares[1] = Some((Color::White, Piece::Rook));
    squares[6] = Some((Color::White, Piece::Rook));
    squares[4] = Some((Color::White, Piece::King));
    squares[57] = Some((Color::Black, Piece::Rook));
    squares[62] = Some((Color::Black, Piece::Rook));
    squares[60] = Some((Color::Black, Piece::King));
    let board = Position {
        squares,
        side_to_move: Color::White,
        white_short: Some(6),
        white_long: Some(1),
        black_short: Some(6),
        black_long: Some(1),
        ep_file: None,
        halfmove_clock: 3,
        fullmove_number: 17,
    };
    let packed = PackedBoard::pack(&board, -5, 0, 1);
    let (unpacked, _, _, _) = packed.unpack_structural().expect("must unpack");
    assert!(positions_equal(&board, &unpacked));
}
