//! Conversion of the legacy annotated-text dataset into packed records:
//! centipawn values arrive as fixed-point numbers and are truncated and
//! saturated to the packed field's width, outcomes are quantized to the
//! three-valued code, and the position is packed. The line splitting and
//! number parsing stay with the embedding program; every decision is
//! here.
use vstd::prelude::*;

use crate::board::Position;
use crate::marlinformat::PackedBoard;

verus! {

/// The whole centipawns of a fixed-point value, truncated toward zero.
pub open spec fn spec_whole_cp(cp: i64) -> int {
    if cp >= 0 {
        cp / 0x1_0000_0000
    } else {
        -((-cp) / 0x1_0000_0000)
    }
}

/// The packed centipawn field: truncated toward zero, saturated to the
/// 16-bit range.
pub open spec fn spec_cp_to_i16(cp: i64) -> int {
    let whole = spec_whole_cp(cp);
    if whole > 32767 {
        32767
    } else if whole < -32768 {
        -32768
    } else {
        whole
    }
}

/// Truncate and saturate a fixed-point centipawn value.
pub fn cp_to_i16(cp: i64) -> (r: i16)
    ensures
        r == spec_cp_to_i16(cp),
{
    let neg = cp < 0;
    let mag: u64 = if neg {
        if cp == i64::MIN {
            return -32768;
        }
        (-cp) as u64
    } else {
        cp as u64
    };
    let whole = mag / 0x1_0000_0000;
    if neg {
        if whole > 32768 {
            -32768
        } else {
            -(whole as i64) as i16
        }
    } else {
        if whole > 32767 {
            32767
        } else {
            whole as i16
        }
    }
}

/// The three-valued outcome code of a fixed-point result in roughly
/// `[0, 1]`: below a quarter is a loss, below three quarters a draw, the
/// rest a win.
pub open spec fn spec_wdl_code(wdl: i64) -> u8 {
    if wdl < 0x4000_0000 {
        0
    } else if wdl < 0xC000_0000 {
        1
    } else {
        2
    }
}

/// Quantize a fixed-point outcome to the packed code.
pub fn wdl_code(wdl: i64) -> (r: u8)
    ensures
        r == spec_wdl_code(wdl),
{
    if wdl < 0x4000_0000 {
        0
    } else if wdl < 0xC000_0000 {
        1
    } else {
        2
    }
}

/// Pack one legacy text record: a parsed position with its fixed-point
/// centipawn and outcome annotations.
pub fn txt_record(board: &Position, cp: i64, wdl: i64) -> (r: PackedBoard)
    requires
        board.wf(),
    ensures
        r.packs(*board),
        r.eval.spec_get() == spec_cp_to_i16(cp),
        r.wdl == spec_wdl_code(wdl),
        r.extra == 0,
{
    PackedBoard::pack(board, cp_to_i16(cp), wdl_code(wdl), 0)
}

/// The feature formats of the legacy text loaders.
#[derive(Clone, Copy, Debug)]
pub enum InputFeatures {
    Board768,
    HalfKp,
    HalfKa,
}

impl InputFeatures {
    /// Decode the loader's format tag.
    pub fn from(ty: u8) -> (r: Self)
        requires
            ty <= 2,
        ensures
            ty == 0 ==> r is Board768,
            ty == 1 ==> r is HalfKp,
            ty == 2 ==> r is HalfKa,
    {
        match ty {
            0 => Self::Board768,
            1 => Self::HalfKp,
            _ => Self::HalfKa,
        }
    }

    /// The widest per-position index count of the format.
    pub fn max_indices(self) -> (r: usize)
        ensures
            self is Board768 ==> r == 32,
            self is HalfKp ==> r == 30,
            self is HalfKa ==> r == 32,
    {
        match self {
            Self::Board768 => 32,
            Self::HalfKp => 30,
            Self::HalfKa => 32,
        }
    }
}

/// An earlier spelling of the same loader format tags, kept for the
/// loaders that still name it.
#[derive(Clone, Copy, Debug)]
pub enum InputFeatureType {
    Board768,
    HalfKp,
    HalfKa,
}

impl InputFeatureType {
    /// Decode the loader's format tag.
    pub fn from(ty: u8) -> (r: Self)
        requires
            ty <= 2,
        ensures
            ty == 0 ==> r is Board768,
            ty == 1 ==> r is HalfKp,
            ty == 2 ==> r is HalfKa,
    {
        match ty {
            0 => Self::Board768,
            1 => Self::HalfKp,
            _ => Self::HalfKa,
        }
    }

    /// The widest per-position index count of the format.
    pub fn max_indices(self) -> (r: usize)
        ensures
            self is Board768 ==> r == 32,
            self is HalfKp ==> r == 30,
            self is HalfKa ==> r == 32,
    {
        match self {
            Self::Board768 => 32,
            Self::HalfKp => 30,
            Self::HalfKa => 32,
        }
    }
}

} // verus!
