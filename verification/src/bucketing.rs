//! Bucketing schemes: deterministic maps from a position to a small
//! integer tag that conditions the trained output head.
use vstd::prelude::*;

use crate::board::Position;
use crate::board::Color;
use crate::board::Occupant;
use crate::board::Piece;
use crate::board::count_occupied;
use crate::board::count_occupied_below;

verus! {

/// How many of the squares below `n` hold this piece type, either color.
pub open spec fn count_piece_type_below(s: Seq<Occupant>, p: Piece, n: int) -> int
    decreases n,
{
    if n <= 0 {
        0
    } else {
        count_piece_type_below(s, p, n - 1) + match s[n - 1] {
            Some((_, p2)) => if p2 == p {
                1int
            } else {
                0int
            },
            None => 0int,
        }
    }
}

pub open spec fn count_piece_type(s: Seq<Occupant>, p: Piece) -> int {
    count_piece_type_below(s, p, s.len() as int)
}

pub proof fn lemma_count_piece_type_bounds(s: Seq<Occupant>, p: Piece, n: int)
    ensures
        0 <= count_piece_type_below(s, p, n) <= count_occupied_below(s, n),
    decreases n,
{
    if n > 0 {
        lemma_count_piece_type_bounds(s, p, n - 1);
    }
}

/// Count the pieces of one type, either color.
pub fn count_piece_type_exec(s: &Vec<Occupant>, p: Piece) -> (r: usize)
    requires
        s@.len() == 64,
    ensures
        r == count_piece_type(s@, p),
{
    let mut r: usize = 0;
    let mut sq: usize = 0;
    while sq < 64
        invariant
            s@.len() == 64,
            sq <= 64,
            r == count_piece_type_below(s@, p, sq as int),
            r <= sq,
        decreases 64 - sq,
    {
        match s[sq] {
            Some((_, p2)) => {
                if p2 == p {
                    r += 1;
                }
            },
            None => {},
        }
        sq += 1;
    }
    r
}

#[derive(Clone, Copy, Debug)]
pub enum BucketingSchemeType {
    NoBucketing,
    ModifiedMaterial,
    PieceCount,
}

impl BucketingSchemeType {
    /// How many buckets the scheme can produce.
    pub fn bucket_count(self) -> (r: usize)
        ensures
            r == self.spec_bucket_count(),
    {
        match self {
            BucketingSchemeType::NoBucketing => 1,
            BucketingSchemeType::ModifiedMaterial => 16,
            BucketingSchemeType::PieceCount => 8,
        }
    }

    pub open spec fn spec_bucket_count(self) -> int {
        match self {
            BucketingSchemeType::NoBucketing => 1,
            BucketingSchemeType::ModifiedMaterial => 16,
            BucketingSchemeType::PieceCount => 8,
        }
    }

    /// The bucket of a board under this scheme.
    pub open spec fn spec_bucket(self, s: Seq<Occupant>) -> int {
        match self {
            BucketingSchemeType::NoBucketing => 0,
            BucketingSchemeType::ModifiedMaterial => {
                let material = count_piece_type(s, Piece::Pawn) + 3 * count_piece_type(
                    s,
                    Piece::Knight,
                ) + 3 * count_piece_type(s, Piece::Bishop) + 5 * count_piece_type(s, Piece::Rook)
                    + 8 * count_piece_type(s, Piece::Queen);
                if material * 16 / 76 < 15 {
                    material * 16 / 76
                } else {
                    15
                }
            },
            BucketingSchemeType::PieceCount => {
                let occupied = count_occupied(s);
                if (occupied - 1) / 4 < 7 {
                    (occupied - 1) / 4
                } else {
                    7
                }
            },
        }
    }

    /// Compute the bucket; always in `[0, bucket_count)`.
    pub fn bucket(self, board: &Position) -> (r: i32)
        requires
            board.wf(),
        ensures
            r == self.spec_bucket(board.squares@),
            0 <= r < self.spec_bucket_count(),
    {
        match self {
            BucketingSchemeType::NoBucketing => 0,
            BucketingSchemeType::ModifiedMaterial => {
                proof {
                    lemma_count_piece_type_bounds(board.squares@, Piece::Pawn, 64);
                    lemma_count_piece_type_bounds(board.squares@, Piece::Knight, 64);
                    lemma_count_piece_type_bounds(board.squares@, Piece::Bishop, 64);
                    lemma_count_piece_type_bounds(board.squares@, Piece::Rook, 64);
                    lemma_count_piece_type_bounds(board.squares@, Piece::Queen, 64);
                }
                let material: i32 = count_piece_type_exec(&board.squares, Piece::Pawn) as i32 + 3
                    * count_piece_type_exec(&board.squares, Piece::Knight) as i32 + 3
                    * count_piece_type_exec(&board.squares, Piece::Bishop) as i32 + 5
                    * count_piece_type_exec(&board.squares, Piece::Rook) as i32 + 8
                    * count_piece_type_exec(&board.squares, Piece::Queen) as i32;
                let b = material * 16 / 76;
                if b < 15 {
                    b
                } else {
                    15
                }
            },
            BucketingSchemeType::PieceCount => {
                let occupied = count_occupied_exec_board(board);
                let b = (occupied as i32 - 1) / 4;
                if b < 7 {
                    b
                } else {
                    7
                }
            },
        }
    }
}

/// The trivial scheme: every position falls in the single bucket.
pub struct NoBucketing;

impl NoBucketing {
    pub const BUCKET_COUNT: usize = 1;

    pub fn bucket(board: &Position) -> (r: i32)
        requires
            board.wf(),
        ensures
            r == BucketingSchemeType::NoBucketing.spec_bucket(board.squares@),
    {
        BucketingSchemeType::NoBucketing.bucket(board)
    }
}

/// Bucket by weighted material, 16 buckets.
pub struct ModifiedMaterial;

impl ModifiedMaterial {
    pub const BUCKET_COUNT: usize = 16;

    pub fn bucket(board: &Position) -> (r: i32)
        requires
            board.wf(),
        ensures
            r == BucketingSchemeType::ModifiedMaterial.spec_bucket(board.squares@),
    {
        BucketingSchemeType::ModifiedMaterial.bucket(board)
    }
}

/// Bucket by the number of occupied squares, 8 buckets.
pub struct PieceCount;

impl PieceCount {
    pub const BUCKET_COUNT: usize = 8;

    pub fn bucket(board: &Position) -> (r: i32)
        requires
            board.wf(),
        ensures
            r == BucketingSchemeType::PieceCount.spec_bucket(board.squares@),
    {
        BucketingSchemeType::PieceCount.bucket(board)
    }
}

/// The occupied-square count of a well-formed board; at least two, for the
/// two kings.
fn count_occupied_exec_board(board: &Position) -> (r: usize)
    requires
        board.wf(),
    ensures
        r == count_occupied(board.squares@),
        1 <= r <= 32,
{
    proof {
        crate::board::lemma_count_piece_le_color(board.squares@, Color::White, Piece::King, 64);
        crate::board::lemma_count_color_le_occupied(board.squares@, Color::White, 64);
    }
    crate::board::count_occupied_exec(&board.squares)
}

} // verus!
