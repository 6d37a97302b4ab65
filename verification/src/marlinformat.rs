//! The 32-byte packed position record: occupancy bitboard, one nibble per
//! occupied square (with an unmoved-rook sentinel re-establishing castling
//! rights), side to move and en-passant square, clocks, evaluation, game
//! outcome and a user byte. Packing a well-formed board and unpacking the
//! record gives the board back; malformed records are rejected.
use vstd::prelude::*;

use crate::board::Position;
use crate::board::Color;
use crate::board::Occupant;
use crate::board::Piece;
use crate::board::count_occupied;
use crate::board::lemma_count_piece_exists;
use crate::board::count_occupied_below;
use crate::board::spec_back_rank_of;
use crate::board::spec_king_square_of;
use crate::codec::I16Le;
use crate::codec::U16Le;
use crate::codec::U4Array32;
use crate::codec::U64Le;

verus! {

/// The nibble code that marks a rook whose castling right is intact.
pub const UNMOVED_ROOK: u8 = 6;

/// Bit `i` of the occupancy bitboard.
pub open spec fn bit64(x: u64, i: int) -> bool {
    (x >> (i as u64)) & 1 == 1
}

/// The occupancy bitboard of the first `n` squares.
pub open spec fn occ_prefix(s: Seq<Occupant>, n: int) -> u64
    decreases n,
{
    if n <= 0 {
        0
    } else if s[n - 1] is Some {
        occ_prefix(s, n - 1) | (1u64 << ((n - 1) as u64))
    } else {
        occ_prefix(s, n - 1)
    }
}

pub open spec fn occupancy_of(s: Seq<Occupant>) -> u64 {
    occ_prefix(s, 64)
}

/// How many bits of `x` below position `n` are set.
pub open spec fn ones_below(x: u64, n: int) -> int
    decreases n,
{
    if n <= 0 {
        0
    } else {
        ones_below(x, n - 1) + if bit64(x, n - 1) {
            1int
        } else {
            0int
        }
    }
}

proof fn lemma_bit_or_shift(o: u64, k: u64, i: u64)
    by (bit_vector)
    requires
        k < 64,
        i < 64,
    ensures
        (((o | (1u64 << k)) >> i) & 1 == 1) <==> (((o >> i) & 1 == 1) || i == k),
{
}

proof fn lemma_bit_of_zero(i: u64)
    by (bit_vector)
    requires
        i < 64,
    ensures
        (0u64 >> i) & 1 != 1,
{
}

/// Bit `i` of the occupancy prefix is set exactly on the occupied squares
/// below `n`.
pub proof fn lemma_occ_prefix_bit(s: Seq<Occupant>, n: int, i: int)
    requires
        0 <= n <= 64,
        0 <= i < 64,
    ensures
        bit64(occ_prefix(s, n), i) <==> (i < n && s[i] is Some),
    decreases n,
{
    if n == 0 {
        lemma_bit_of_zero(i as u64);
    } else {
        lemma_occ_prefix_bit(s, n - 1, i);
        if s[n - 1] is Some {
            lemma_bit_or_shift(occ_prefix(s, n - 1), (n - 1) as u64, i as u64);
        }
    }
}

/// On the occupancy of a placement, counting set bits is counting occupied
/// squares.
pub proof fn lemma_ones_below_count(s: Seq<Occupant>, n: int)
    requires
        0 <= n <= 64,
    ensures
        ones_below(occupancy_of(s), n) == count_occupied_below(s, n),
    decreases n,
{
    if n > 0 {
        lemma_ones_below_count(s, n - 1);
        lemma_occ_prefix_bit(s, 64, n - 1);
    }
}

pub proof fn lemma_count_occupied_monotonic(s: Seq<Occupant>, m: int, n: int)
    requires
        m <= n,
    ensures
        count_occupied_below(s, m) <= count_occupied_below(s, n),
    decreases n - m,
{
    if m < n {
        lemma_count_occupied_monotonic(s, m, n - 1);
    }
}

/// An occupied square contributes strictly to every count beyond it.
pub proof fn lemma_count_occupied_strict(s: Seq<Occupant>, sq: int, n: int)
    requires
        0 <= sq < n,
        s[sq] is Some,
    ensures
        count_occupied_below(s, sq) < count_occupied_below(s, n),
{
    lemma_count_occupied_monotonic(s, sq + 1, n);
}

pub proof fn lemma_ones_below_monotonic(x: u64, m: int, n: int)
    requires
        m <= n,
    ensures
        ones_below(x, m) <= ones_below(x, n),
    decreases n - m,
{
    if m < n {
        lemma_ones_below_monotonic(x, m, n - 1);
    }
}

/// Whether the rook on `sq` carries its color's castling right, so that
/// packing writes the sentinel code for it.
pub open spec fn spec_unmoved_rook(b: Position, c: Color, sq: int) -> bool {
    &&& sq / 8 == spec_back_rank_of(c)
    &&& if spec_king_square_of(b.squares@, c) < sq {
        b.spec_castle_short(c) == Some((sq % 8) as u8)
    } else {
        b.spec_castle_long(c) == Some((sq % 8) as u8)
    }
}

/// The nibble written for a square: piece code (or the unmoved-rook
/// sentinel) in the low three bits, color in bit three.
pub open spec fn spec_nibble(b: Position, sq: int) -> u8 {
    match b.squares@[sq] {
        Some((c, p)) => {
            let code = if p == Piece::Rook && spec_unmoved_rook(b, c, sq) {
                UNMOVED_ROOK
            } else {
                p.spec_code()
            };
            (code + 8 * c.spec_code()) as u8
        },
        None => 0,
    }
}

/// The side-to-move / en-passant byte: bit seven holds the side to move,
/// the rest the en-passant square, with 64 standing for none.
pub open spec fn spec_stm_ep(b: Position) -> u8 {
    let ep = match b.ep_file {
        Some(f) => (if b.side_to_move is White {
            40int
        } else {
            16int
        }) + f,
        None => 64int,
    };
    (128 * b.side_to_move.spec_code() + ep) as u8
}

/// The occupant a nibble decodes to; meaningful when the piece code is
/// not seven.
pub open spec fn decode_occupant(nib: u8) -> Occupant {
    let code = nib % 8;
    let c = if nib >= 8 {
        Color::Black
    } else {
        Color::White
    };
    if code == 6 {
        Some((c, Piece::Rook))
    } else {
        match Piece::spec_from_code(code) {
            Some(p) => Some((c, p)),
            None => None,
        }
    }
}

/// The placement a record decodes to: nibble `i` describes the `i`-th set
/// bit of the occupancy, lowest first.
pub open spec fn decode_squares(occ: u64, nibs: Seq<u8>) -> Seq<Occupant> {
    Seq::new(
        64,
        |sq: int|
            if bit64(occ, sq) {
                decode_occupant(nibs[ones_below(occ, sq)])
            } else {
                None
            },
    )
}

/// Structural validity of the occupancy and nibble fields: at most 32
/// occupied squares, and no nibble with the invalid piece code seven.
pub open spec fn codes_ok(occ: u64, nibs: Seq<u8>) -> bool {
    &&& ones_below(occ, 64) <= 32
    &&& forall|sq: int|
        0 <= sq < 64 && bit64(occ, sq) ==> nibs[ones_below(occ, sq)] % 8 != 7
}

/// Castling-right recovery for one color: scanning the squares below `n`
/// in order, an unmoved-rook sentinel fills the long right until the
/// color's king has been seen, the short right after. The components are
/// (king seen, long file, short file).
pub open spec fn decode_rights_acc(occ: u64, nibs: Seq<u8>, c: Color, n: int) -> (
    bool,
    Option<u8>,
    Option<u8>,
)
    decreases n,
{
    if n <= 0 {
        (false, None, None)
    } else {
        let prev = decode_rights_acc(occ, nibs, c, n - 1);
        let sq = n - 1;
        if bit64(occ, sq) {
            let nib = nibs[ones_below(occ, sq)];
            let nc = if nib >= 8 {
                Color::Black
            } else {
                Color::White
            };
            let code = nib % 8;
            if nc == c {
                if code == 6 {
                    if prev.0 {
                        (prev.0, prev.1, Some((sq % 8) as u8))
                    } else {
                        (prev.0, Some((sq % 8) as u8), prev.2)
                    }
                } else if code == 5 {
                    (true, prev.1, prev.2)
                } else {
                    prev
                }
            } else {
                prev
            }
        } else {
            prev
        }
    }
}

pub open spec fn decode_stm(b: u8) -> Color {
    if b >= 128 {
        Color::Black
    } else {
        Color::White
    }
}

pub open spec fn decode_ep(b: u8) -> Option<u8> {
    if b % 128 < 64 {
        Some(((b % 128) % 8) as u8)
    } else {
        None
    }
}

/// The conventional en-passant target square of a record, from its file
/// and side to move.
pub open spec fn decode_ep_square(b: u8) -> Option<u8> {
    match decode_ep(b) {
        Some(f) => Some(
            ((if decode_stm(b) is White {
                40int
            } else {
                16int
            }) + f) as u8,
        ),
        None => None,
    }
}

/// When the side-to-move byte names an en-passant square, that square
/// sits on the conventional target rank for the side to move.
pub open spec fn ep_byte_ok(b: u8) -> bool {
    b % 128 < 64 ==> (b % 128) / 8 == (if decode_stm(b) is White {
        5int
    } else {
        2int
    })
}

/// A set bit contributes strictly to every ones count beyond it.
pub proof fn lemma_ones_below_strict(x: u64, sq: int, n: int)
    requires
        0 <= sq < n,
        bit64(x, sq),
    ensures
        ones_below(x, sq) < ones_below(x, n),
{
    lemma_ones_below_monotonic(x, sq + 1, n);
}

pub proof fn lemma_ones_below_nonneg(x: u64, n: int)
    ensures
        ones_below(x, n) >= 0,
{
    if n >= 0 {
        lemma_ones_below_monotonic(x, 0, n);
    }
}

/// A position packed into 32 bytes, little-endian throughout.
#[derive(Clone, Debug)]
pub struct PackedBoard {
    pub occupancy: U64Le,
    pub pieces: U4Array32,
    pub stm_ep_square: u8,
    pub halfmove_clock: u8,
    pub fullmove_number: U16Le,
    pub eval: I16Le,
    pub wdl: u8,
    pub extra: u8,
}

impl PackedBoard {
    /// The packed nibble array is well formed and the written slots are
    /// those of the occupied squares.
    pub open spec fn packs(self, b: Position) -> bool {
        &&& self.occupancy.spec_get() == occupancy_of(b.squares@)
        &&& self.pieces.wf()
        &&& forall|sq: int|
            0 <= sq < 64 && b.squares@[sq] is Some ==> self.pieces@[count_occupied_below(
                b.squares@,
                sq,
            )] == spec_nibble(b, sq)
        &&& forall|i: int|
            count_occupied(b.squares@) <= i < 32 ==> self.pieces@[i] == 0
        &&& self.stm_ep_square == spec_stm_ep(b)
        &&& self.halfmove_clock == b.halfmove_clock
        &&& self.fullmove_number.spec_get() == b.fullmove_number
    }

    /// The castling scan result for white, over the whole record.
    pub open spec fn spec_rights_white(self) -> (bool, Option<u8>, Option<u8>) {
        decode_rights_acc(self.occupancy.spec_get(), self.pieces@, Color::White, 64)
    }

    /// The castling scan result for black, over the whole record.
    pub open spec fn spec_rights_black(self) -> (bool, Option<u8>, Option<u8>) {
        decode_rights_acc(self.occupancy.spec_get(), self.pieces@, Color::Black, 64)
    }

    /// The record decodes to a structurally legal position: valid piece
    /// codes, a non-zero fullmove number, and a well-formed board.
    pub open spec fn spec_structural_ok(self) -> bool {
        &&& codes_ok(self.occupancy.spec_get(), self.pieces@)
        &&& self.fullmove_number.spec_get() != 0
        &&& ep_byte_ok(self.stm_ep_square)
        &&& crate::board::state_wf(
            decode_squares(self.occupancy.spec_get(), self.pieces@),
            self.spec_rights_white().2,
            self.spec_rights_white().1,
            self.spec_rights_black().2,
            self.spec_rights_black().1,
            decode_ep(self.stm_ep_square),
            self.fullmove_number.spec_get(),
        )
    }

    /// The board is the one this record decodes to.
    pub open spec fn spec_decodes(self, b: Position) -> bool {
        &&& b.squares@ == decode_squares(self.occupancy.spec_get(), self.pieces@)
        &&& b.side_to_move == decode_stm(self.stm_ep_square)
        &&& b.white_short == self.spec_rights_white().2
        &&& b.white_long == self.spec_rights_white().1
        &&& b.black_short == self.spec_rights_black().2
        &&& b.black_long == self.spec_rights_black().1
        &&& b.ep_file == decode_ep(self.stm_ep_square)
        &&& b.halfmove_clock == self.halfmove_clock
        &&& b.fullmove_number == self.fullmove_number.spec_get()
    }

    /// The chess library's validation accepts the decoded position.
    pub open spec fn spec_accepted(self) -> bool {
        crate::fen::cozy_accepts(
            decode_squares(self.occupancy.spec_get(), self.pieces@),
            decode_stm(self.stm_ep_square),
            self.spec_rights_white().2,
            self.spec_rights_white().1,
            self.spec_rights_black().2,
            self.spec_rights_black().1,
            decode_ep_square(self.stm_ep_square),
            self.halfmove_clock,
            self.fullmove_number.spec_get(),
        )
    }

    /// Decode the record, rejecting structural violations: an invalid
    /// piece code, more than 32 occupied squares, a zero fullmove number,
    /// an en-passant square off its conventional rank, or a board that is
    /// not well formed.
    pub fn unpack_structural(&self) -> (r: Option<(Position, i16, u8, u8)>)
        requires
            self.pieces.wf(),
        ensures
            r is Some <==> self.spec_structural_ok(),
            r matches Some((b, e, w, x)) ==> self.spec_decodes(b) && b.wf() && e
                == self.eval.spec_get() && w == self.wdl && x == self.extra,
    {
        let occ: u64 = self.occupancy.get();
        let ghost nibs = self.pieces@;
        let mut squares: Vec<Occupant> = Vec::new();
        let mut k: usize = 0;
        let mut seen_w = false;
        let mut seen_b = false;
        let mut ws: Option<u8> = None;
        let mut wl: Option<u8> = None;
        let mut bs: Option<u8> = None;
        let mut bl: Option<u8> = None;
        let mut sq: usize = 0;
        while sq < 64
            invariant
                self.pieces.wf(),
                occ == self.occupancy.spec_get(),
                nibs == self.pieces@,
                sq <= 64,
                squares@.len() == sq,
                k == ones_below(occ, sq as int),
                k <= 32,
                forall|i: int|
                    0 <= i < sq ==> squares@[i] == decode_squares(occ, nibs)[i],
                forall|i: int|
                    0 <= i < sq && bit64(occ, i) ==> nibs[ones_below(occ, i)] % 8 != 7,
                (seen_w, wl, ws) == decode_rights_acc(occ, nibs, Color::White, sq as int),
                (seen_b, bl, bs) == decode_rights_acc(occ, nibs, Color::Black, sq as int),
            decreases 64 - sq,
        {
            if (occ >> (sq as u64)) & 1 == 1 {
                if k >= 32 {
                    proof {
                        lemma_ones_below_strict(occ, sq as int, 64);
                    }
                    return None;
                }
                let nib = self.pieces.get(k);
                let code = nib % 8;
                let c2 = if nib >= 8 {
                    Color::Black
                } else {
                    Color::White
                };
                let piece = if code == 6 {
                    match c2 {
                        Color::White => {
                            if seen_w {
                                ws = Some((sq % 8) as u8);
                            } else {
                                wl = Some((sq % 8) as u8);
                            }
                        },
                        Color::Black => {
                            if seen_b {
                                bs = Some((sq % 8) as u8);
                            } else {
                                bl = Some((sq % 8) as u8);
                            }
                        },
                    }
                    Piece::Rook
                } else {
                    match Piece::from_code(code) {
                        Some(p) => p,
                        None => {
                            proof {
                                assert(bit64(occ, sq as int));
                                assert(nibs[ones_below(occ, sq as int)] % 8 == 7);
                                assert(!codes_ok(occ, nibs));
                            }
                            return None;
                        },
                    }
                };
                if matches!(piece, Piece::King) {
                    match c2 {
                        Color::White => seen_w = true,
                        Color::Black => seen_b = true,
                    }
                }
                squares.push(Some((c2, piece)));
                k += 1;
            } else {
                squares.push(None);
            }
            sq += 1;
        }
        if self.fullmove_number.get() == 0 {
            return None;
        }
        let ep_part = self.stm_ep_square % 128;
        if ep_part < 64 {
            let expected: u8 = if self.stm_ep_square >= 128 {
                2
            } else {
                5
            };
            if ep_part / 8 != expected {
                return None;
            }
        }
        let board = Position {
            squares,
            side_to_move: if self.stm_ep_square >= 128 {
                Color::Black
            } else {
                Color::White
            },
            white_short: ws,
            white_long: wl,
            black_short: bs,
            black_long: bl,
            ep_file: if ep_part < 64 {
                Some(ep_part % 8)
            } else {
                None
            },
            halfmove_clock: self.halfmove_clock,
            fullmove_number: self.fullmove_number.get(),
        };
        proof {
            assert(board.squares@ =~= decode_squares(occ, nibs));
        }
        if !board.check_wf() {
            return None;
        }
        Some((board, self.eval.get(), self.wdl, self.extra))
    }

    /// Decode the record as `unpack_structural` does, then hold the
    /// position to the chess library's full legality rules, dropping it
    /// if they refuse it. A record is returned exactly when it is
    /// structurally valid and the library accepts its position; the
    /// result is then the structural decode.
    pub fn unpack(&self) -> (r: Option<(Position, i16, u8, u8)>)
        requires
            self.pieces.wf(),
        ensures
            r is Some <==> self.spec_structural_ok() && self.spec_accepted(),
            r matches Some((b, e, w, x)) ==> self.spec_decodes(b) && b.wf() && e
                == self.eval.spec_get() && w == self.wdl && x == self.extra,
    {
        match self.unpack_structural() {
            Some((board, eval, wdl, extra)) => {
                let ep_square: Option<u8> = match board.ep_file {
                    Some(f) => {
                        let rank: u8 = match board.side_to_move {
                            Color::White => 5,
                            Color::Black => 2,
                        };
                        Some(rank * 8 + f)
                    },
                    None => None,
                };
                proof {
                    assert(ep_square == decode_ep_square(self.stm_ep_square));
                }
                if crate::fen::position_buildable(&board, ep_square) {
                    Some((board, eval, wdl, extra))
                } else {
                    None
                }
            },
            None => None,
        }
    }

    /// Pack a position with its annotations.
    pub fn pack(board: &Position, eval: i16, wdl: u8, extra: u8) -> (r: PackedBoard)
        requires
            board.wf(),
        ensures
            r.packs(*board),
            r.eval.spec_get() == eval,
            r.wdl == wdl,
            r.extra == extra,
    {
        let mut occ: u64 = 0;
        let mut pieces = U4Array32::zeroed();
        let mut k: usize = 0;
        let mut sq: usize = 0;
        while sq < 64
            invariant
                board.wf(),
                sq <= 64,
                occ == occ_prefix(board.squares@, sq as int),
                k == count_occupied_below(board.squares@, sq as int),
                k <= sq,
                pieces.wf(),
                forall|sq2: int|
                    0 <= sq2 < sq && board.squares@[sq2] is Some ==> pieces@[count_occupied_below(
                        board.squares@,
                        sq2,
                    )] == spec_nibble(*board, sq2),
                forall|i: int| k <= i < 32 ==> pieces@[i] == 0,
            decreases 64 - sq,
        {
            match board.squares[sq] {
                Some((c, p)) => {
                    proof {
                        lemma_count_occupied_strict(board.squares@, sq as int, 64);
                        assert(count_occupied_below(board.squares@, 64) <= 32);
                    }
                    let mut code = p.code();
                    if matches!(p, Piece::Rook) {
                        let back: usize = match c {
                            Color::White => 0,
                            Color::Black => 7,
                        };
                        if sq / 8 == back {
                            let king_sq = board.king(c);
                            let right = if (king_sq as usize) < sq {
                                board.castle_short(c)
                            } else {
                                board.castle_long(c)
                            };
                            let file = (sq % 8) as u8;
                            match right {
                                Some(f) => {
                                    if f == file {
                                        code = UNMOVED_ROOK;
                                    }
                                },
                                None => {},
                            }
                        }
                    }
                    let nib = code + 8 * c.code();
                    pieces.set(k, nib);
                    occ = occ | (1u64 << (sq as u64));
                    proof {
                        assert(nib == spec_nibble(*board, sq as int));
                        assert forall|sq2: int|
                            0 <= sq2 < sq as int + 1 && board.squares@[sq2] is Some implies pieces@[count_occupied_below(
                            board.squares@,
                            sq2,
                        )] == spec_nibble(*board, sq2) by {
                            if sq2 < sq as int {
                                lemma_count_occupied_monotonic(board.squares@, 0, sq2);
                                lemma_count_occupied_strict(board.squares@, sq2, sq as int);
                            }
                        }
                    }
                    k += 1;
                },
                None => {},
            }
            sq += 1;
        }
        let stm_ep = 128 * board.side_to_move.code() + (match board.ep_file {
            Some(f) => (if matches!(board.side_to_move, Color::White) {
                40u8
            } else {
                16u8
            }) + f,
            None => 64u8,
        });
        PackedBoard {
            occupancy: U64Le::new(occ),
            pieces,
            stm_ep_square: stm_ep,
            halfmove_clock: board.halfmove_clock,
            fullmove_number: U16Le::new(board.fullmove_number),
            eval: I16Le::new(eval),
            wdl,
            extra,
        }
    }
}

impl PackedBoard {
    /// The 32 bytes of the record, in file order.
    pub open spec fn spec_bytes(self) -> Seq<u8> {
        self.occupancy.spec_bytes() + self.pieces.spec_bytes() + seq![
            self.stm_ep_square,
            self.halfmove_clock,
        ] + self.fullmove_number.spec_bytes() + self.eval.spec_bytes() + seq![self.wdl, self.extra]
    }

    pub fn to_bytes(&self) -> (r: Vec<u8>)
        requires
            self.pieces.wf(),
        ensures
            r@ == self.spec_bytes(),
            r@.len() == 32,
    {
        let mut r = self.occupancy.to_bytes();
        let mut rest = self.pieces.to_bytes();
        r.append(&mut rest);
        r.push(self.stm_ep_square);
        r.push(self.halfmove_clock);
        let mut rest = self.fullmove_number.to_bytes();
        r.append(&mut rest);
        let mut rest = self.eval.to_bytes();
        r.append(&mut rest);
        r.push(self.wdl);
        r.push(self.extra);
        proof {
            assert(r@ =~= self.spec_bytes());
        }
        r
    }

    /// Read a record from 32 bytes.
    pub fn from_bytes(b: &[u8]) -> (r: PackedBoard)
        requires
            b@.len() == 32,
        ensures
            r.pieces.wf(),
            r.occupancy.spec_get() == crate::codec::le_value(b@.subrange(0, 8)),
            forall|i: int|
                0 <= i < 32 ==> r.pieces@[i] == crate::codec::nibble_of_bytes(
                    b@.subrange(8, 24),
                    i,
                ),
            r.stm_ep_square == b@[24],
            r.halfmove_clock == b@[25],
            r.fullmove_number.spec_get() == crate::codec::le_value(b@.subrange(26, 28)),
            r.eval.spec_get() == crate::codec::i16_of_image(
                crate::codec::le_value(b@.subrange(28, 30)),
            ),
            r.wdl == b@[30],
            r.extra == b@[31],
    {
        let occupancy = U64Le::from_bytes(vstd::slice::slice_subrange(b, 0, 8));
        let pieces = U4Array32::from_bytes(vstd::slice::slice_subrange(b, 8, 24));
        let fullmove_number = U16Le::from_bytes(vstd::slice::slice_subrange(b, 26, 28));
        let eval = I16Le::from_bytes(vstd::slice::slice_subrange(b, 28, 30));
        PackedBoard {
            occupancy,
            pieces,
            stm_ep_square: *vstd::slice::slice_index_get(b, 24),
            halfmove_clock: *vstd::slice::slice_index_get(b, 25),
            fullmove_number,
            eval,
            wdl: *vstd::slice::slice_index_get(b, 30),
            extra: *vstd::slice::slice_index_get(b, 31),
        }
    }
}

/// Byte-for-byte stability: reading back a record's 32 bytes recovers
/// every field, so the file image determines the record and conversely.
pub proof fn lemma_packed_bytes_roundtrip(p: PackedBoard, b: Seq<u8>)
    requires
        p.pieces.wf(),
        b == p.spec_bytes(),
    ensures
        b.len() == 32,
        crate::codec::le_value(b.subrange(0, 8)) == p.occupancy.spec_get(),
        forall|i: int|
            0 <= i < 32 ==> crate::codec::nibble_of_bytes(b.subrange(8, 24), i) == p.pieces@[i],
        b[24] == p.stm_ep_square,
        b[25] == p.halfmove_clock,
        crate::codec::le_value(b.subrange(26, 28)) == p.fullmove_number.spec_get(),
        crate::codec::i16_of_image(crate::codec::le_value(b.subrange(28, 30)))
            == p.eval.spec_get(),
        b[30] == p.wdl,
        b[31] == p.extra,
{
    crate::codec::lemma_le_bytes_len(p.occupancy.spec_get() as int, 8);
    crate::codec::lemma_le_bytes_len(p.fullmove_number.spec_get() as int, 2);
    crate::codec::lemma_le_bytes_len(crate::codec::u16_image(p.eval.spec_get()), 2);
    assert(b.subrange(0, 8) =~= p.occupancy.spec_bytes());
    assert(b.subrange(8, 24) =~= p.pieces.spec_bytes());
    assert(b.subrange(26, 28) =~= p.fullmove_number.spec_bytes());
    assert(b.subrange(28, 30) =~= p.eval.spec_bytes());
    assert(crate::codec::pow256(8) == 0x1_0000_0000_0000_0000) by {
        reveal_with_fuel(crate::codec::pow256, 9);
    }
    assert(crate::codec::pow256(2) == 0x1_0000) by {
        reveal_with_fuel(crate::codec::pow256, 3);
    }
    crate::codec::lemma_le_roundtrip(p.occupancy.spec_get() as int, 8);
    crate::codec::lemma_le_roundtrip(p.fullmove_number.spec_get() as int, 2);
    crate::codec::lemma_le_roundtrip(crate::codec::u16_image(p.eval.spec_get()), 2);
    assert forall|i: int| 0 <= i < 32 implies crate::codec::nibble_of_bytes(
        b.subrange(8, 24),
        i,
    ) == p.pieces@[i] by {
        crate::codec::lemma_nibble_bytes_roundtrip(p.pieces, i);
    }
}

/// Byte stability: a packed record's occupancy field is the board's
/// occupancy bitboard, and exactly as many nibble slots are written as the
/// board has occupied squares, the rest staying zero.
pub proof fn lemma_pack_byte_stability(b: Position, p: PackedBoard)
    requires
        b.wf(),
        p.packs(b),
    ensures
        p.occupancy.spec_get() == occupancy_of(b.squares@),
        ones_below(p.occupancy.spec_get(), 64) == count_occupied(b.squares@),
        forall|i: int| count_occupied(b.squares@) <= i < 32 ==> p.pieces@[i] == 0,
{
    lemma_ones_below_count(b.squares@, 64);
}

/// The castling right of a board restricted to rook squares below `n`.
pub open spec fn rights_prefix(b: Position, c: Color, short: bool, n: int) -> Option<u8> {
    let right = if short {
        b.spec_castle_short(c)
    } else {
        b.spec_castle_long(c)
    };
    match right {
        Some(f) => if spec_back_rank_of(c) * 8 + f < n {
            Some(f)
        } else {
            None
        },
        None => None,
    }
}

/// On a record packed from a well-formed board, the nibble of an occupied
/// square decodes back to its occupant.
proof fn lemma_nibble_decode(b: Position, p: PackedBoard, sq: int)
    requires
        b.wf(),
        p.packs(b),
        0 <= sq < 64,
        b.squares@[sq] is Some,
    ensures
        p.pieces@[ones_below(p.occupancy.spec_get(), sq)] == spec_nibble(b, sq),
        spec_nibble(b, sq) % 8 != 7,
        decode_occupant(spec_nibble(b, sq)) == b.squares@[sq],
    decreases sq,
{
    lemma_ones_below_count(b.squares@, sq);
    let nib = spec_nibble(b, sq);
    match b.squares@[sq] {
        Some((c, pc)) => {
            let code = if pc == Piece::Rook && spec_unmoved_rook(b, c, sq) {
                UNMOVED_ROOK
            } else {
                pc.spec_code()
            };
            assert(code <= 6);
            assert(nib == code + 8 * c.spec_code());
            assert(nib % 8 == code && (nib >= 8 <==> c is Black)) by {
                assert(c.spec_code() == 0 || c.spec_code() == 1);
            }
        },
        None => {},
    }
}

/// Scanning a packed record recovers exactly the board's castling rights:
/// the king is seen once its square is passed, and each sentinel fills the
/// right its rook carries.
proof fn lemma_decode_rights(b: Position, p: PackedBoard, c: Color, n: int)
    requires
        b.wf(),
        p.packs(b),
        0 <= n <= 64,
    ensures
        decode_rights_acc(p.occupancy.spec_get(), p.pieces@, c, n) == (
            (spec_king_square_of(b.squares@, c) < n),
            rights_prefix(b, c, false, n),
            rights_prefix(b, c, true, n),
        ),
    decreases n,
{
    let s = b.squares@;
    let occ = p.occupancy.spec_get();
    let nibs = p.pieces@;
    lemma_count_piece_exists(s, c, Piece::King, 64);
    let k = spec_king_square_of(s, c);
    assert(0 <= k < 64 && s[k] == Some((c, Piece::King)));
    if n == 0 {
    } else {
        let sq = n - 1;
        lemma_decode_rights(b, p, c, n - 1);
        lemma_occ_prefix_bit(s, 64, sq);
        if s[sq] is Some {
            lemma_nibble_decode(b, p, sq);
            let nib = nibs[ones_below(occ, sq)];
            match s[sq] {
                Some((c3, p3)) => {
                    if c3 == c {
                        if nib % 8 == 6 {
                            assert(p3 == Piece::Rook && spec_unmoved_rook(b, c, sq));
                            let back = spec_back_rank_of(c);
                            assert(sq == back * 8 + sq % 8) by {
                                assert(sq / 8 == back);
                                vstd::arithmetic::div_mod::lemma_fundamental_div_mod(sq, 8);
                            }
                            if k < sq {
                                assert(b.spec_castle_short(c) == Some((sq % 8) as u8));
                            } else {
                                assert(k != sq);
                                assert(b.spec_castle_long(c) == Some((sq % 8) as u8));
                                // the short rook, if any, stands beyond the king
                                match b.spec_castle_short(c) {
                                    Some(fs) => {
                                        assert(k / 8 == back && fs > k % 8);
                                        assert(back * 8 + fs > k) by {
                                            vstd::arithmetic::div_mod::lemma_fundamental_div_mod(
                                                k,
                                                8,
                                            );
                                        }
                                    },
                                    None => {},
                                }
                            }
                        } else if nib % 8 == 5 {
                            assert(p3 == Piece::King);
                            b.lemma_king_square_unique(c, sq);
                        } else {
                            // not the king, and not a rights rook: a rights
                            // rook on this square would have the sentinel
                            assert(p3 != Piece::King);
                            if k != sq {
                            }
                            match b.spec_castle_long(c) {
                                Some(fl) => {
                                    if sq == spec_back_rank_of(c) * 8 + fl {
                                        assert(s[sq] == Some((c, Piece::Rook)));
                                        assert(k / 8 == spec_back_rank_of(c) && fl < k % 8);
                                        assert(k > sq) by {
                                            vstd::arithmetic::div_mod::lemma_fundamental_div_mod(
                                                k,
                                                8,
                                            );
                                            vstd::arithmetic::div_mod::lemma_fundamental_div_mod(
                                                sq,
                                                8,
                                            );
                                        }
                                        assert(spec_unmoved_rook(b, c, sq));
                                        assert(false);
                                    }
                                },
                                None => {},
                            }
                            match b.spec_castle_short(c) {
                                Some(fs) => {
                                    if sq == spec_back_rank_of(c) * 8 + fs {
                                        assert(s[sq] == Some((c, Piece::Rook)));
                                        assert(k / 8 == spec_back_rank_of(c) && fs > k % 8);
                                        assert(k < sq) by {
                                            vstd::arithmetic::div_mod::lemma_fundamental_div_mod(
                                                k,
                                                8,
                                            );
                                            vstd::arithmetic::div_mod::lemma_fundamental_div_mod(
                                                sq,
                                                8,
                                            );
                                        }
                                        assert(spec_unmoved_rook(b, c, sq));
                                        assert(false);
                                    }
                                },
                                None => {},
                            }
                        }
                    } else {
                        // a piece of the other color: neither this king nor
                        // a rights rook of `c`
                        assert(sq != k);
                    }
                },
                None => {},
            }
        } else {
            // empty square: the king square and rights rook squares are
            // occupied
            assert(sq != k);
        }
    }
}

/// Round trip: a record packed from a well-formed board is structurally
/// valid and decodes to the same board.
/// On a record packed from a well-formed board, the piece codes are valid
/// and the placement decodes back to the board's.
proof fn lemma_decode_squares_roundtrip(b: Position, p: PackedBoard)
    requires
        b.wf(),
        p.packs(b),
    ensures
        codes_ok(p.occupancy.spec_get(), p.pieces@),
        decode_squares(p.occupancy.spec_get(), p.pieces@) == b.squares@,
{
    let s = b.squares@;
    let occ = p.occupancy.spec_get();
    let nibs = p.pieces@;
    lemma_ones_below_count(s, 64);
    assert forall|sq: int| 0 <= sq < 64 && bit64(occ, sq) implies s[sq] is Some && nibs[ones_below(
        occ,
        sq,
    )] % 8 != 7 by {
        lemma_occ_prefix_bit(s, 64, sq);
        lemma_nibble_decode(b, p, sq);
    }
    assert(codes_ok(occ, nibs));
    assert forall|sq: int| 0 <= sq < 64 implies decode_squares(occ, nibs)[sq] == s[sq] by {
        lemma_occ_prefix_bit(s, 64, sq);
        if s[sq] is Some {
            lemma_nibble_decode(b, p, sq);
        }
    }
    assert(decode_squares(occ, nibs) =~= s);
}

/// The side-to-move and en-passant byte decodes back to the board's fields.
proof fn lemma_decode_stm_ep_roundtrip(b: Position, p: PackedBoard)
    requires
        b.wf(),
        p.packs(b),
    ensures
        decode_stm(p.stm_ep_square) == b.side_to_move,
        decode_ep(p.stm_ep_square) == b.ep_file,
        ep_byte_ok(p.stm_ep_square),
{
    assert(p.stm_ep_square == spec_stm_ep(b));
}

#[verifier::rlimit(100)]
pub proof fn lemma_pack_roundtrip(b: Position, p: PackedBoard)
    requires
        b.wf(),
        p.packs(b),
    ensures
        p.spec_structural_ok(),
        decode_squares(p.occupancy.spec_get(), p.pieces@) == b.squares@,
        decode_stm(p.stm_ep_square) == b.side_to_move,
        p.spec_rights_white() == (true, b.white_long, b.white_short),
        p.spec_rights_black() == (true, b.black_long, b.black_short),
        decode_ep(p.stm_ep_square) == b.ep_file,
{
    let s = b.squares@;
    let occ = p.occupancy.spec_get();
    let nibs = p.pieces@;
    lemma_decode_squares_roundtrip(b, p);
    lemma_decode_stm_ep_roundtrip(b, p);
    lemma_decode_rights(b, p, Color::White, 64);
    lemma_decode_rights(b, p, Color::Black, 64);
    lemma_count_piece_exists(s, Color::White, Piece::King, 64);
    lemma_count_piece_exists(s, Color::Black, Piece::King, 64);
    assert(rights_prefix(b, Color::White, false, 64) == b.white_long);
    assert(rights_prefix(b, Color::White, true, 64) == b.white_short);
    assert(rights_prefix(b, Color::Black, false, 64) == b.black_long);
    assert(rights_prefix(b, Color::Black, true, 64) == b.black_short);
    assert(crate::board::state_wf(
        decode_squares(occ, nibs),
        p.spec_rights_white().2,
        p.spec_rights_white().1,
        p.spec_rights_black().2,
        p.spec_rights_black().1,
        decode_ep(p.stm_ep_square),
        p.fullmove_number.spec_get(),
    ));
}

} // verus!
