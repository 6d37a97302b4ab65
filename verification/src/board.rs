//! The board model: piece placement as a 64-entry mailbox, side to move,
//! castling rights as rook files (chess-960 style), en-passant file and
//! move clocks, together with the well-formedness predicate that the codec
//! and the feature projections rely on.
use vstd::prelude::*;

verus! {

#[derive(Clone, Copy, PartialEq, Eq, Structural, Debug)]
pub enum Color {
    White,
    Black,
}

#[derive(Clone, Copy, PartialEq, Eq, Structural, Debug)]
pub enum Piece {
    Pawn,
    Knight,
    Bishop,
    Rook,
    Queen,
    King,
}

/// What a square holds: nothing, or a colored piece.
pub type Occupant = Option<(Color, Piece)>;

impl Color {
    pub open spec fn spec_code(self) -> u8 {
        match self {
            Color::White => 0,
            Color::Black => 1,
        }
    }

    pub fn code(self) -> (r: u8)
        ensures
            r == self.spec_code(),
    {
        match self {
            Color::White => 0,
            Color::Black => 1,
        }
    }

    pub open spec fn spec_opposite(self) -> Color {
        match self {
            Color::White => Color::Black,
            Color::Black => Color::White,
        }
    }

    pub fn opposite(self) -> (r: Color)
        ensures
            r == self.spec_opposite(),
    {
        match self {
            Color::White => Color::Black,
            Color::Black => Color::White,
        }
    }

    pub fn from_code(code: u8) -> (r: Option<Color>)
        ensures
            code == 0 ==> r == Some(Color::White),
            code == 1 ==> r == Some(Color::Black),
            code >= 2 ==> r is None,
    {
        match code {
            0 => Some(Color::White),
            1 => Some(Color::Black),
            _ => None,
        }
    }
}

impl Piece {
    pub open spec fn spec_code(self) -> u8 {
        match self {
            Piece::Pawn => 0,
            Piece::Knight => 1,
            Piece::Bishop => 2,
            Piece::Rook => 3,
            Piece::Queen => 4,
            Piece::King => 5,
        }
    }

    pub fn code(self) -> (r: u8)
        ensures
            r == self.spec_code(),
    {
        match self {
            Piece::Pawn => 0,
            Piece::Knight => 1,
            Piece::Bishop => 2,
            Piece::Rook => 3,
            Piece::Queen => 4,
            Piece::King => 5,
        }
    }

    pub open spec fn spec_from_code(code: u8) -> Option<Piece> {
        match code {
            0u8 => Some(Piece::Pawn),
            1u8 => Some(Piece::Knight),
            2u8 => Some(Piece::Bishop),
            3u8 => Some(Piece::Rook),
            4u8 => Some(Piece::Queen),
            5u8 => Some(Piece::King),
            _ => None,
        }
    }

    pub fn from_code(code: u8) -> (r: Option<Piece>)
        ensures
            r == Piece::spec_from_code(code),
    {
        match code {
            0 => Some(Piece::Pawn),
            1 => Some(Piece::Knight),
            2 => Some(Piece::Bishop),
            3 => Some(Piece::Rook),
            4 => Some(Piece::Queen),
            5 => Some(Piece::King),
            _ => None,
        }
    }
}

/// Square index layout: `sq = 8 * rank + file`, a1 = 0, h8 = 63.
/// The same square seen from the other side: the rank axis is flipped.
pub open spec fn spec_flip_rank(sq: int) -> int {
    (7 - sq / 8) * 8 + sq % 8
}

pub fn flip_rank(sq: u8) -> (r: u8)
    requires
        sq < 64,
    ensures
        r == spec_flip_rank(sq as int),
        r < 64,
{
    (7 - sq / 8) * 8 + sq % 8
}

/// How many of the squares below `n` are occupied.
pub open spec fn count_occupied_below(s: Seq<Occupant>, n: int) -> int
    decreases n,
{
    if n <= 0 {
        0
    } else {
        count_occupied_below(s, n - 1) + if s[n - 1] is Some {
            1int
        } else {
            0int
        }
    }
}

pub open spec fn count_occupied(s: Seq<Occupant>) -> int {
    count_occupied_below(s, s.len() as int)
}

/// How many of the squares below `n` hold this exact colored piece.
pub open spec fn count_piece_below(s: Seq<Occupant>, c: Color, p: Piece, n: int) -> int
    decreases n,
{
    if n <= 0 {
        0
    } else {
        count_piece_below(s, c, p, n - 1) + if s[n - 1] == Some((c, p)) {
            1int
        } else {
            0int
        }
    }
}

pub open spec fn count_piece(s: Seq<Occupant>, c: Color, p: Piece) -> int {
    count_piece_below(s, c, p, s.len() as int)
}

/// How many of the squares below `n` hold a piece of this color.
pub open spec fn count_color_below(s: Seq<Occupant>, c: Color, n: int) -> int
    decreases n,
{
    if n <= 0 {
        0
    } else {
        count_color_below(s, c, n - 1) + match s[n - 1] {
            Some((c2, _)) => if c2 == c {
                1int
            } else {
                0int
            },
            None => 0int,
        }
    }
}

pub open spec fn count_color(s: Seq<Occupant>, c: Color) -> int {
    count_color_below(s, c, s.len() as int)
}

pub proof fn lemma_count_piece_le_color(s: Seq<Occupant>, c: Color, p: Piece, n: int)
    ensures
        count_piece_below(s, c, p, n) <= count_color_below(s, c, n),
    decreases n,
{
    if n > 0 {
        lemma_count_piece_le_color(s, c, p, n - 1);
    }
}

pub proof fn lemma_count_color_le_occupied(s: Seq<Occupant>, c: Color, n: int)
    ensures
        count_color_below(s, c, n) <= count_occupied_below(s, n),
    decreases n,
{
    if n > 0 {
        lemma_count_color_le_occupied(s, c, n - 1);
    }
}

pub proof fn lemma_count_color_monotonic(s: Seq<Occupant>, c: Color, m: int, n: int)
    requires
        m <= n,
    ensures
        count_color_below(s, c, m) <= count_color_below(s, c, n),
    decreases n - m,
{
    if m < n {
        lemma_count_color_monotonic(s, c, m, n - 1);
    }
}

/// A square holding the color contributes strictly to every count beyond it.
pub proof fn lemma_count_color_strict(s: Seq<Occupant>, c: Color, sq: int, n: int)
    requires
        0 <= sq < n,
        occupant_color(s[sq]) == c,
        s[sq] is Some,
    ensures
        count_color_below(s, c, sq) < count_color_below(s, c, n),
{
    lemma_count_color_monotonic(s, c, sq + 1, n);
}

pub proof fn lemma_count_piece_nonneg(s: Seq<Occupant>, c: Color, p: Piece, n: int)
    ensures
        count_piece_below(s, c, p, n) >= 0,
    decreases n,
{
    if n > 0 {
        lemma_count_piece_nonneg(s, c, p, n - 1);
    }
}

/// A square holding the piece makes the count over any wider prefix positive.
pub proof fn lemma_count_piece_at_least_one(s: Seq<Occupant>, c: Color, p: Piece, sq: int, n: int)
    requires
        0 <= sq < n,
        s[sq] == Some((c, p)),
    ensures
        count_piece_below(s, c, p, n) >= 1,
    decreases n,
{
    if sq < n - 1 {
        lemma_count_piece_at_least_one(s, c, p, sq, n - 1);
    } else {
        lemma_count_piece_nonneg(s, c, p, n - 1);
    }
}

/// Two distinct squares holding the same colored piece make the count at least two.
pub proof fn lemma_count_piece_at_least_two(
    s: Seq<Occupant>,
    c: Color,
    p: Piece,
    sq1: int,
    sq2: int,
    n: int,
)
    requires
        0 <= sq1 < sq2 < n,
        s[sq1] == Some((c, p)),
        s[sq2] == Some((c, p)),
    ensures
        count_piece_below(s, c, p, n) >= 2,
    decreases n,
{
    if sq2 < n - 1 {
        lemma_count_piece_at_least_two(s, c, p, sq1, sq2, n - 1);
    } else {
        lemma_count_piece_at_least_one(s, c, p, sq1, n - 1);
    }
}

/// A positive count names an occupied square.
pub proof fn lemma_count_piece_exists(s: Seq<Occupant>, c: Color, p: Piece, n: int)
    requires
        count_piece_below(s, c, p, n) >= 1,
        n <= s.len(),
    ensures
        exists|sq: int| 0 <= sq < n && s[sq] == Some((c, p)),
    decreases n,
{
    if n > 0 {
        if s[n - 1] == Some((c, p)) {
            assert(s[n - 1] == Some((c, p)));
        } else {
            lemma_count_piece_exists(s, c, p, n - 1);
        }
    }
}

/// The square holding the king of this color; meaningful when the
/// placement holds exactly one such king.
pub open spec fn spec_king_square_of(s: Seq<Occupant>, c: Color) -> int {
    choose|sq: int| 0 <= sq < 64 && s[sq] == Some((c, Piece::King))
}

pub proof fn lemma_king_square_of_unique(s: Seq<Occupant>, c: Color, sq: int)
    requires
        count_piece(s, c, Piece::King) == 1,
        s.len() == 64,
        0 <= sq < 64,
        s[sq] == Some((c, Piece::King)),
    ensures
        spec_king_square_of(s, c) == sq,
{
    let k = spec_king_square_of(s, c);
    assert(0 <= k < 64 && s[k] == Some((c, Piece::King)));
    if k != sq {
        if k < sq {
            lemma_count_piece_at_least_two(s, c, Piece::King, k, sq, 64);
        } else {
            lemma_count_piece_at_least_two(s, c, Piece::King, sq, k, 64);
        }
    }
}

pub open spec fn spec_back_rank_of(c: Color) -> int {
    match c {
        Color::White => 0,
        Color::Black => 7,
    }
}

/// One castling right, checked against the placement: the named file holds
/// a rook of the color on its back rank, on the stated side of a back-rank
/// king.
pub open spec fn right_ok_of(s: Seq<Occupant>, right: Option<u8>, c: Color, short: bool) -> bool {
    match right {
        None => true,
        Some(f) => {
            let back = spec_back_rank_of(c);
            let k = spec_king_square_of(s, c);
            &&& f < 8
            &&& s[back * 8 + f] == Some((c, Piece::Rook))
            &&& k / 8 == back
            &&& if short {
                f > k % 8
            } else {
                f < k % 8
            }
        },
    }
}

/// Structural legality of a position given as its plain components.
pub open spec fn state_wf(
    s: Seq<Occupant>,
    white_short: Option<u8>,
    white_long: Option<u8>,
    black_short: Option<u8>,
    black_long: Option<u8>,
    ep_file: Option<u8>,
    fullmove_number: u16,
) -> bool {
    &&& s.len() == 64
    &&& count_occupied(s) <= 32
    &&& count_color(s, Color::White) <= 16
    &&& count_color(s, Color::Black) <= 16
    &&& count_piece(s, Color::White, Piece::King) == 1
    &&& count_piece(s, Color::Black, Piece::King) == 1
    &&& right_ok_of(s, white_short, Color::White, true)
    &&& right_ok_of(s, white_long, Color::White, false)
    &&& right_ok_of(s, black_short, Color::Black, true)
    &&& right_ok_of(s, black_long, Color::Black, false)
    &&& match ep_file {
        Some(f) => f < 8,
        None => true,
    }
    &&& fullmove_number >= 1
}

/// A chess position, modelled with plain values.
pub struct Position {
    /// 64 entries, square `8 * rank + file`.
    pub squares: Vec<Occupant>,
    pub side_to_move: Color,
    /// Castling rights, as the file of the unmoved rook on each wing.
    pub white_short: Option<u8>,
    pub white_long: Option<u8>,
    pub black_short: Option<u8>,
    pub black_long: Option<u8>,
    /// En-passant target file, if a double pawn push just happened.
    pub ep_file: Option<u8>,
    pub halfmove_clock: u8,
    pub fullmove_number: u16,
}

impl Position {
    pub open spec fn spec_back_rank(c: Color) -> int {
        spec_back_rank_of(c)
    }

    pub open spec fn spec_castle_short(self, c: Color) -> Option<u8> {
        match c {
            Color::White => self.white_short,
            Color::Black => self.black_short,
        }
    }

    pub open spec fn spec_castle_long(self, c: Color) -> Option<u8> {
        match c {
            Color::White => self.white_long,
            Color::Black => self.black_long,
        }
    }

    pub fn castle_short(&self, c: Color) -> (r: Option<u8>)
        ensures
            r == self.spec_castle_short(c),
    {
        match c {
            Color::White => self.white_short,
            Color::Black => self.black_short,
        }
    }

    pub fn castle_long(&self, c: Color) -> (r: Option<u8>)
        ensures
            r == self.spec_castle_long(c),
    {
        match c {
            Color::White => self.white_long,
            Color::Black => self.black_long,
        }
    }

    /// The square of the king of this color; meaningful when the board
    /// holds exactly one such king.
    pub open spec fn spec_king_square(self, c: Color) -> int {
        spec_king_square_of(self.squares@, c)
    }

    /// One castling right, checked against the placement.
    pub open spec fn spec_right_ok(self, c: Color, short: bool) -> bool {
        right_ok_of(
            self.squares@,
            if short {
                self.spec_castle_short(c)
            } else {
                self.spec_castle_long(c)
            },
            c,
            short,
        )
    }

    /// Structural legality: what the codec and the projections require of
    /// a position.
    pub open spec fn wf(self) -> bool {
        state_wf(
            self.squares@,
            self.white_short,
            self.white_long,
            self.black_short,
            self.black_long,
            self.ep_file,
            self.fullmove_number,
        )
    }

    /// With exactly one king of the color on the board, any square holding
    /// it is the king square.
    pub proof fn lemma_king_square_unique(self, c: Color, sq: int)
        requires
            count_piece(self.squares@, c, Piece::King) == 1,
            self.squares@.len() == 64,
            0 <= sq < 64,
            self.squares@[sq] == Some((c, Piece::King)),
        ensures
            self.spec_king_square(c) == sq,
    {
        lemma_king_square_of_unique(self.squares@, c, sq);
    }

    /// Find the king of this color.
    pub fn king(&self, c: Color) -> (r: u8)
        requires
            self.wf(),
        ensures
            r < 64,
            self.squares@[r as int] == Some((c, Piece::King)),
            r == self.spec_king_square(c),
    {
        self.find_king(c)
    }

    /// Swap piece colors and flip ranks, castling rights following their
    /// rooks; the remaining fields are kept.
    pub fn mirror(&self) -> (r: Position)
        requires
            self.squares@.len() == 64,
        ensures
            r.squares@.len() == 64,
            forall|sq: int|
                0 <= sq < 64 ==> r.squares@[sq] == mirror_occupant(
                    self.squares@[spec_flip_rank(sq)],
                ),
            r.side_to_move == self.side_to_move,
            r.white_short == self.black_short,
            r.white_long == self.black_long,
            r.black_short == self.white_short,
            r.black_long == self.white_long,
            r.ep_file == self.ep_file,
            r.halfmove_clock == self.halfmove_clock,
            r.fullmove_number == self.fullmove_number,
    {
        let mut squares: Vec<Occupant> = Vec::new();
        let mut sq: usize = 0;
        while sq < 64
            invariant
                self.squares@.len() == 64,
                sq <= 64,
                squares@.len() == sq,
                forall|i: int|
                    0 <= i < sq ==> squares@[i] == mirror_occupant(
                        self.squares@[spec_flip_rank(i)],
                    ),
            decreases 64 - sq,
        {
            let from = flip_rank(sq as u8) as usize;
            let occ = match self.squares[from] {
                Some((c, p)) => Some((c.opposite(), p)),
                None => None,
            };
            squares.push(occ);
            sq += 1;
        }
        Position {
            squares,
            side_to_move: self.side_to_move,
            white_short: self.black_short,
            white_long: self.black_long,
            black_short: self.white_short,
            black_long: self.white_long,
            ep_file: self.ep_file,
            halfmove_clock: self.halfmove_clock,
            fullmove_number: self.fullmove_number,
        }
    }
}

/// The color of an occupant; meaningful when the square is occupied.
pub open spec fn occupant_color(o: Occupant) -> Color {
    match o {
        Some((c, _)) => c,
        None => Color::White,
    }
}

/// The piece of an occupant; meaningful when the square is occupied.
pub open spec fn occupant_piece(o: Occupant) -> Piece {
    match o {
        Some((_, p)) => p,
        None => Piece::Pawn,
    }
}

/// The occupant with its color swapped.
pub open spec fn mirror_occupant(o: Occupant) -> Occupant {
    match o {
        Some((c, p)) => Some((c.spec_opposite(), p)),
        None => None,
    }
}

pub fn count_occupied_exec(s: &Vec<Occupant>) -> (r: usize)
    requires
        s@.len() == 64,
    ensures
        r == count_occupied(s@),
{
    let mut r: usize = 0;
    let mut sq: usize = 0;
    while sq < 64
        invariant
            s@.len() == 64,
            sq <= 64,
            r == count_occupied_below(s@, sq as int),
            r <= sq,
        decreases 64 - sq,
    {
        if s[sq].is_some() {
            r += 1;
        }
        sq += 1;
    }
    r
}

pub fn count_piece_exec(s: &Vec<Occupant>, c: Color, p: Piece) -> (r: usize)
    requires
        s@.len() == 64,
    ensures
        r == count_piece(s@, c, p),
{
    let mut r: usize = 0;
    let mut sq: usize = 0;
    while sq < 64
        invariant
            s@.len() == 64,
            sq <= 64,
            r == count_piece_below(s@, c, p, sq as int),
            r <= sq,
        decreases 64 - sq,
    {
        match s[sq] {
            Some((c2, p2)) => {
                if c2 == c && p2 == p {
                    r += 1;
                }
            },
            None => {},
        }
        sq += 1;
    }
    r
}

pub fn count_color_exec(s: &Vec<Occupant>, c: Color) -> (r: usize)
    requires
        s@.len() == 64,
    ensures
        r == count_color(s@, c),
{
    let mut r: usize = 0;
    let mut sq: usize = 0;
    while sq < 64
        invariant
            s@.len() == 64,
            sq <= 64,
            r == count_color_below(s@, c, sq as int),
            r <= sq,
        decreases 64 - sq,
    {
        match s[sq] {
            Some((c2, _)) => {
                if c2 == c {
                    r += 1;
                }
            },
            None => {},
        }
        sq += 1;
    }
    r
}

impl Position {
    /// Check one castling right against the placement; meaningful once the
    /// board is known to hold exactly one king of the color.
    fn check_right(&self, right: Option<u8>, c: Color, short: bool) -> (r: bool)
        requires
            self.squares@.len() == 64,
            count_piece(self.squares@, c, Piece::King) == 1,
        ensures
            r == right_ok_of(self.squares@, right, c, short),
    {
        match right {
            None => true,
            Some(f) => {
                if f >= 8 {
                    return false;
                }
                let back: usize = match c {
                    Color::White => 0,
                    Color::Black => 7,
                };
                let rook_ok = match self.squares[back * 8 + f as usize] {
                    Some((c2, Piece::Rook)) => c2 == c,
                    _ => false,
                };
                if !rook_ok {
                    return false;
                }
                let k = self.find_king(c);
                (k as usize) / 8 == back && (if short {
                    f > k % 8
                } else {
                    f < k % 8
                })
            },
        }
    }

    /// Find the king of this color, requiring only that exactly one is on
    /// the board.
    fn find_king(&self, c: Color) -> (r: u8)
        requires
            self.squares@.len() == 64,
            count_piece(self.squares@, c, Piece::King) == 1,
        ensures
            r < 64,
            self.squares@[r as int] == Some((c, Piece::King)),
            r == self.spec_king_square(c),
    {
        let mut sq: usize = 0;
        while sq < 64
            invariant
                self.squares@.len() == 64,
                count_piece(self.squares@, c, Piece::King) == 1,
                sq <= 64,
                forall|i: int| 0 <= i < sq ==> self.squares@[i] != Some((c, Piece::King)),
            decreases 64 - sq,
        {
            match self.squares[sq] {
                Some((c2, Piece::King)) => {
                    if c2 == c {
                        proof {
                            self.lemma_king_square_unique(c, sq as int);
                        }
                        return sq as u8;
                    }
                },
                _ => {},
            }
            sq += 1;
        }
        proof {
            lemma_count_piece_exists(self.squares@, c, Piece::King, 64);
            let w = choose|i: int| 0 <= i < 64 && self.squares@[i] == Some((c, Piece::King));
            assert(self.squares@[w] != Some((c, Piece::King)));
        }
        unreached()
    }

    /// Decide structural legality.
    pub fn check_wf(&self) -> (r: bool)
        requires
            self.squares@.len() == 64,
        ensures
            r == self.wf(),
    {
        if count_occupied_exec(&self.squares) > 32 {
            return false;
        }
        if count_color_exec(&self.squares, Color::White) > 16 {
            return false;
        }
        if count_color_exec(&self.squares, Color::Black) > 16 {
            return false;
        }
        if count_piece_exec(&self.squares, Color::White, Piece::King) != 1 {
            return false;
        }
        if count_piece_exec(&self.squares, Color::Black, Piece::King) != 1 {
            return false;
        }
        if !self.check_right(self.white_short, Color::White, true) {
            return false;
        }
        if !self.check_right(self.white_long, Color::White, false) {
            return false;
        }
        if !self.check_right(self.black_short, Color::Black, true) {
            return false;
        }
        if !self.check_right(self.black_long, Color::Black, false) {
            return false;
        }
        match self.ep_file {
            Some(f) => {
                if f >= 8 {
                    return false;
                }
            },
            None => {},
        }
        self.fullmove_number >= 1
    }
}

} // verus!
