//! The bridge to the chess move-generation library: FEN text is parsed
//! into the board model, and decoded positions are checked against the
//! library's full legality rules. Each outside verdict is a function of
//! the plain values handed over, so it carries a name that the callers'
//! contracts are exact over; the well-formedness gate around the parse is
//! verified, and the trusted bodies only convert and call.
use vstd::prelude::*;

use crate::board::Color;
use crate::board::Occupant;
use crate::board::Piece;
use crate::board::Position;
use crate::board::state_wf;

verus! {

#[verifier::external_type_specification]
#[verifier::external_body]
pub struct ExBoard(cozy_chess::Board);

#[verifier::external_type_specification]
#[verifier::external_body]
pub struct ExBoardBuilder(cozy_chess::BoardBuilder);

/// What the chess library parses a FEN text to, as the board model's
/// plain fields (placement, side to move, short/long rook files for white
/// and black, en-passant file, halfmove clock, fullmove number); None
/// where the library rejects the text. A function of the text alone.
pub uninterp spec fn fen_position(fen: Seq<char>) -> Option<
    (Seq<Occupant>, Color, Option<u8>, Option<u8>, Option<u8>, Option<u8>, Option<u8>, u8, u16),
>;

/// Relies on cozy_chess::Board::color_on and piece_on, with the variant
/// orders white, black and pawn..king; the body only converts one square.
#[verifier::external_body]
fn read_square(cb: &cozy_chess::Board, sq: u8) -> Occupant
    requires
        sq < 64,
{
    let square = cozy_chess::Square::index(sq as usize);
    let colors = [Color::White, Color::Black];
    let pieces = [Piece::Pawn, Piece::Knight, Piece::Bishop, Piece::Rook, Piece::Queen, Piece::King];
    match (cb.color_on(square), cb.piece_on(square)) {
        (Some(c), Some(p)) => Some((colors[c as usize], pieces[p as usize])),
        _ => None,
    }
}

/// Relies on cozy_chess::Board's accessors side_to_move, castle_rights,
/// en_passant, halfmove_clock and fullmove_number; the body only converts
/// the parsed position's fields into the board model.
#[verifier::external_body]
fn read_position(cb: &cozy_chess::Board) -> Position {
    let mut squares: Vec<Occupant> = Vec::new();
    for i in 0..64u8 {
        squares.push(read_square(cb, i));
    }
    let w = cb.castle_rights(cozy_chess::Color::White);
    let b = cb.castle_rights(cozy_chess::Color::Black);
    Position {
        squares,
        side_to_move: [Color::White, Color::Black][cb.side_to_move() as usize],
        white_short: w.short.map(|f| f as u8), white_long: w.long.map(|f| f as u8),
        black_short: b.short.map(|f| f as u8), black_long: b.long.map(|f| f as u8),
        ep_file: cb.en_passant().map(|f| f as u8),
        halfmove_clock: cb.halfmove_clock(), fullmove_number: cb.fullmove_number(),
    }
}

/// Relies on cozy_chess::Board's FromStr: parse FEN text, retrying as
/// Shredder-FEN on castling-rights failures, then read the fields out
/// through the conversions above.
#[verifier::external_body]
fn parse_fen_fields(fen: &str) -> (r: Option<Position>)
    ensures
        r is Some <==> fen_position(fen@) is Some,
        r matches Some(b) ==> (fen_position(fen@) matches Some(t) && b.squares@ == t.0
            && b.squares@.len() == 64 && b.side_to_move == t.1 && b.white_short == t.2
            && b.white_long == t.3 && b.black_short == t.4 && b.black_long == t.5 && b.ep_file
            == t.6 && b.halfmove_clock == t.7 && b.fullmove_number == t.8),
{
    let parsed: Option<cozy_chess::Board> = fen.parse().ok();
    match parsed {
        Some(cb) => Some(read_position(&cb)),
        None => None,
    }
}

/// Parse FEN text into the board model: the text must parse, and the
/// parsed position must be structurally well formed.
pub fn parse_fen(fen: &str) -> (r: Option<Position>)
    ensures
        r is Some <==> (fen_position(fen@) matches Some(t) && state_wf(
            t.0,
            t.2,
            t.3,
            t.4,
            t.5,
            t.6,
            t.8,
        )),
        r matches Some(b) ==> (fen_position(fen@) matches Some(t) && b.wf() && b.squares@ == t.0
            && b.side_to_move == t.1 && b.white_short == t.2 && b.white_long == t.3
            && b.black_short == t.4 && b.black_long == t.5 && b.ep_file == t.6 && b.halfmove_clock
            == t.7 && b.fullmove_number == t.8),
{
    match parse_fen_fields(fen) {
        Some(board) => {
            if board.check_wf() {
                Some(board)
            } else {
                None
            }
        },
        None => None,
    }
}

/// Whether the chess library's position validation accepts a position
/// with these plain fields; the en-passant target is given as a square.
/// A function of the fields alone.
pub uninterp spec fn cozy_accepts(
    squares: Seq<Occupant>,
    stm: Color,
    white_short: Option<u8>,
    white_long: Option<u8>,
    black_short: Option<u8>,
    black_long: Option<u8>,
    ep_square: Option<u8>,
    halfmove_clock: u8,
    fullmove_number: u16,
) -> bool;

/// Relies on cozy_chess::BoardBuilder::empty, its public board field, and
/// the variant orders pawn..king and white, black; the body only places
/// the model's pieces, one per slot of the 64-square builder.
#[verifier::external_body]
fn builder_with_pieces(board: &Position) -> cozy_chess::BoardBuilder
    requires
        board.squares@.len() == 64,
{
    let mut builder = cozy_chess::BoardBuilder::empty();
    for (i, occ) in board.squares.iter().enumerate() {
        if let Some((c, p)) = occ {
            let piece = cozy_chess::Piece::index(*p as usize);
            builder.board[i] = Some((piece, cozy_chess::Color::index(*c as usize)));
        }
    }
    builder
}

/// Relies on cozy_chess::BoardBuilder::build, whose verdict depends on
/// the position alone, and on the builder's castle-rights and state
/// fields; the body only converts the remaining model fields and calls
/// the check.
#[verifier::external_body]
pub(crate) fn position_buildable(board: &Position, ep_square: Option<u8>) -> (r: bool)
    requires
        board.wf(),
        ep_square matches Some(s) ==> s < 64,
    ensures
        r == cozy_accepts(
            board.squares@,
            board.side_to_move,
            board.white_short,
            board.white_long,
            board.black_short,
            board.black_long,
            ep_square,
            board.halfmove_clock,
            board.fullmove_number,
        ),
{
    let mut b = builder_with_pieces(board);
    let file = |x: Option<u8>| x.and_then(|v| cozy_chess::File::try_index(v as usize));
    let w = b.castle_rights_mut(cozy_chess::Color::White);
    *w = cozy_chess::CastleRights { short: file(board.white_short), long: file(board.white_long) };
    let bl = b.castle_rights_mut(cozy_chess::Color::Black);
    *bl = cozy_chess::CastleRights { short: file(board.black_short), long: file(board.black_long) };
    b.side_to_move = cozy_chess::Color::index(board.side_to_move as usize);
    b.en_passant = ep_square.and_then(|s| cozy_chess::Square::try_index(s as usize));
    b.halfmove_clock = board.halfmove_clock;
    b.fullmove_number = board.fullmove_number;
    b.build().is_ok()
}

} // verus!
