//! The weights quantizer: fixed-point conversion of trained weights into
//! a little-endian binary blob. Weights arrive as two's-complement
//! fixed-point values with a 32-bit fraction (so 0.5 is `1 << 31`);
//! quantizing multiplies by an integer scale, truncates toward zero, and
//! clamps to the target integer range.
use vstd::prelude::*;

use crate::codec::le_bytes;
use crate::codec::u16_image;

verus! {

/// The fraction bits of a fixed-point weight: a weight value `w` stands
/// for the real number `w / 2^32`.
pub const FIXED_ONE: i64 = 0x1_0000_0000;

/// The widest weight magnitude the quantizer accepts, 2^45 fraction
/// units (8192.0); sums of two such weights still scale without
/// overflow.
pub const WEIGHT_LIMIT: i64 = 0x2000_0000_0000;

pub open spec fn clamp(x: int, lo: int, hi: int) -> int {
    if x < lo {
        lo
    } else if x > hi {
        hi
    } else {
        x
    }
}

/// Multiply a fixed-point weight by an integer scale and truncate toward
/// zero.
pub open spec fn scaled(w: int, scale: int) -> int {
    let p = w * scale;
    if p >= 0 {
        p / 0x1_0000_0000
    } else {
        -((-p) / 0x1_0000_0000)
    }
}

/// The quantized integer of one weight for one scale and range.
pub open spec fn quantized(w: int, scale: int, lo: int, hi: int) -> int {
    clamp(scaled(w, scale), lo, hi)
}

/// The byte of a value in `[-128, 128)`, as two's complement.
pub open spec fn u8_image(v: int) -> u8 {
    if v >= 0 {
        v as u8
    } else {
        (v + 256) as u8
    }
}

/// An acceptable scale: positive, at most 2^16 (the feature-transformer
/// product 255 * 64 and the residual 64 * 64 both fit).
pub open spec fn scale_ok(scale: int) -> bool {
    0 < scale <= 0x1_0000
}

/// Scale a weight and truncate toward zero.
fn scale_trunc(w: i64, scale: i64) -> (r: i64)
    requires
        scale_ok(scale as int),
        -2 * WEIGHT_LIMIT <= w <= 2 * WEIGHT_LIMIT,
    ensures
        r == scaled(w as int, scale as int),
{
    let neg = w < 0;
    let mag: u64 = if neg {
        (-w) as u64
    } else {
        w as u64
    };
    proof {
        assert(mag * scale <= 0x4000_0000_0000 * 0x1_0000) by (nonlinear_arith)
            requires
                mag <= 0x4000_0000_0000,
                0 < scale <= 0x1_0000,
        ;
    }
    let p: u64 = mag * (scale as u64);
    let q: u64 = p / 0x1_0000_0000;
    if neg {
        proof {
            assert((w as int) * (scale as int) == -((mag as int) * (scale as int)))
                by (nonlinear_arith)
                requires
                    w < 0,
                    mag == -(w as int),
            ;
        }
        -(q as i64)
    } else {
        q as i64
    }
}

/// Quantize one weight to a signed byte.
pub fn quantize_i8(w: i64, scale: i64) -> (r: i8)
    requires
        scale_ok(scale as int),
        -2 * WEIGHT_LIMIT <= w <= 2 * WEIGHT_LIMIT,
    ensures
        r == quantized(w as int, scale as int, -128, 127),
{
    let q = scale_trunc(w, scale);
    if q < -128 {
        -128
    } else if q > 127 {
        127
    } else {
        q as i8
    }
}

/// Quantize one weight to a signed 16-bit integer.
pub fn quantize_i16(w: i64, scale: i64) -> (r: i16)
    requires
        scale_ok(scale as int),
        -2 * WEIGHT_LIMIT <= w <= 2 * WEIGHT_LIMIT,
    ensures
        r == quantized(w as int, scale as int, -32768, 32767),
{
    let q = scale_trunc(w, scale);
    if q < -32768 {
        -32768
    } else if q > 32767 {
        32767
    } else {
        q as i16
    }
}

/// Quantize one weight to a signed 32-bit integer.
pub fn quantize_i32(w: i64, scale: i64) -> (r: i32)
    requires
        scale_ok(scale as int),
        -2 * WEIGHT_LIMIT <= w <= 2 * WEIGHT_LIMIT,
    ensures
        r == quantized(w as int, scale as int, -0x8000_0000, 0x7fff_ffff),
{
    let q = scale_trunc(w, scale);
    if q < -0x8000_0000 {
        -0x8000_0000
    } else if q > 0x7fff_ffff {
        0x7fff_ffff
    } else {
        q as i32
    }
}

/// The two's-complement `u32` image of a value in the 32-bit range.
pub open spec fn u32_image(v: int) -> int {
    if v >= 0 {
        v
    } else {
        v + 0x1_0000_0000
    }
}

/// Every weight in range for the quantizer.
pub open spec fn weights_ok(ws: Seq<i64>) -> bool {
    forall|i: int| 0 <= i < ws.len() ==> -2 * WEIGHT_LIMIT <= #[trigger] ws[i] <= 2 * WEIGHT_LIMIT
}

pub open spec fn rows_ok(rows: Seq<Seq<i64>>) -> bool {
    forall|r: int| 0 <= r < rows.len() ==> weights_ok(#[trigger] rows[r])
}

/// The bytes of a weight vector quantized to signed bytes.
pub open spec fn flat_i8_bytes(ws: Seq<i64>, scale: int) -> Seq<u8>
    decreases ws.len(),
{
    if ws.len() == 0 {
        Seq::empty()
    } else {
        flat_i8_bytes(ws.drop_last(), scale).push(
            u8_image(quantized(ws.last() as int, scale, -128, 127)),
        )
    }
}

/// The bytes of a weight vector quantized to little-endian 16-bit
/// integers.
pub open spec fn flat_i16_bytes(ws: Seq<i64>, scale: int) -> Seq<u8>
    decreases ws.len(),
{
    if ws.len() == 0 {
        Seq::empty()
    } else {
        flat_i16_bytes(ws.drop_last(), scale) + le_bytes(
            u16_image(quantized(ws.last() as int, scale, -32768, 32767) as i16),
            2,
        )
    }
}

/// The bytes of a weight vector quantized to little-endian 32-bit
/// integers.
pub open spec fn flat_i32_bytes(ws: Seq<i64>, scale: int) -> Seq<u8>
    decreases ws.len(),
{
    if ws.len() == 0 {
        Seq::empty()
    } else {
        flat_i32_bytes(ws.drop_last(), scale) + le_bytes(
            u32_image(quantized(ws.last() as int, scale, -0x8000_0000, 0x7fff_ffff)),
            4,
        )
    }
}

/// The bytes of a row-major matrix quantized to signed bytes.
pub open spec fn dense_i8_bytes(rows: Seq<Seq<i64>>, scale: int) -> Seq<u8>
    decreases rows.len(),
{
    if rows.len() == 0 {
        Seq::empty()
    } else {
        dense_i8_bytes(rows.drop_last(), scale) + flat_i8_bytes(rows.last(), scale)
    }
}

/// The bytes of a row-major matrix quantized to little-endian 16-bit
/// integers.
pub open spec fn dense_i16_bytes(rows: Seq<Seq<i64>>, scale: int) -> Seq<u8>
    decreases rows.len(),
{
    if rows.len() == 0 {
        Seq::empty()
    } else {
        dense_i16_bytes(rows.drop_last(), scale) + flat_i16_bytes(rows.last(), scale)
    }
}

/// The bytes of a row-major matrix quantized to little-endian 32-bit
/// integers.
pub open spec fn dense_i32_bytes(rows: Seq<Seq<i64>>, scale: int) -> Seq<u8>
    decreases rows.len(),
{
    if rows.len() == 0 {
        Seq::empty()
    } else {
        dense_i32_bytes(rows.drop_last(), scale) + flat_i32_bytes(rows.last(), scale)
    }
}

/// Quantize a weight vector to bytes, appending to the output.
pub fn serialize_flat_i8(weights: &Vec<i64>, bin: &mut Vec<u8>, scale: i64)
    requires
        scale_ok(scale as int),
        weights_ok(weights@),
    ensures
        final(bin)@ == old(bin)@ + flat_i8_bytes(weights@, scale as int),
{
    let n = weights.len();
    let mut i: usize = 0;
    proof {
        assert(bin@ + flat_i8_bytes(weights@.subrange(0, 0), scale as int) =~= bin@);
    }
    while i < n
        invariant
            n == weights@.len(),
            i <= n,
            scale_ok(scale as int),
            weights_ok(weights@),
            bin@ == old(bin)@ + flat_i8_bytes(weights@.subrange(0, i as int), scale as int),
        decreases n - i,
    {
        let q = quantize_i8(weights[i], scale);
        let byte: u8 = if q >= 0 {
            q as u8
        } else {
            (q as i16 + 256) as u8
        };
        bin.push(byte);
        proof {
            let pre = weights@.subrange(0, i as int);
            let cur = weights@.subrange(0, i as int + 1);
            assert(cur.drop_last() =~= pre);
            assert(cur.last() == weights@[i as int]);
            assert((old(bin)@ + flat_i8_bytes(pre, scale as int)).push(byte) =~= old(bin)@
                + flat_i8_bytes(cur, scale as int));
        }
        i += 1;
    }
    proof {
        assert(weights@.subrange(0, n as int) =~= weights@);
    }
}

/// Quantize a weight vector to little-endian 16-bit integers, appending
/// to the output.
pub fn serialize_flat_i16(weights: &Vec<i64>, bin: &mut Vec<u8>, scale: i64)
    requires
        scale_ok(scale as int),
        weights_ok(weights@),
    ensures
        final(bin)@ == old(bin)@ + flat_i16_bytes(weights@, scale as int),
{
    let n = weights.len();
    let mut i: usize = 0;
    proof {
        assert(bin@ + flat_i16_bytes(weights@.subrange(0, 0), scale as int) =~= bin@);
    }
    while i < n
        invariant
            n == weights@.len(),
            i <= n,
            scale_ok(scale as int),
            weights_ok(weights@),
            bin@ == old(bin)@ + flat_i16_bytes(weights@.subrange(0, i as int), scale as int),
        decreases n - i,
    {
        let q = quantize_i16(weights[i], scale);
        let u: u16 = if q >= 0 {
            q as u16
        } else {
            (q as i32 + 0x10000) as u16
        };
        bin.push((u % 256) as u8);
        bin.push(((u / 256) % 256) as u8);
        proof {
            let pre = weights@.subrange(0, i as int);
            let cur = weights@.subrange(0, i as int + 1);
            assert(cur.drop_last() =~= pre);
            assert(cur.last() == weights@[i as int]);
            reveal_with_fuel(le_bytes, 3);
            assert(bin@ =~= old(bin)@ + flat_i16_bytes(cur, scale as int));
        }
        i += 1;
    }
    proof {
        assert(weights@.subrange(0, n as int) =~= weights@);
    }
}

/// Quantize a row-major matrix to bytes, appending to the output.
pub fn serialize_dense_i8(weights: &Vec<Vec<i64>>, bin: &mut Vec<u8>, scale: i64)
    requires
        scale_ok(scale as int),
        rows_ok(weights@.map_values(|row: Vec<i64>| row@)),
    ensures
        final(bin)@ == old(bin)@ + dense_i8_bytes(
            weights@.map_values(|row: Vec<i64>| row@),
            scale as int,
        ),
{
    let ghost rows = weights@.map_values(|row: Vec<i64>| row@);
    let n = weights.len();
    let mut i: usize = 0;
    proof {
        assert(bin@ + dense_i8_bytes(rows.subrange(0, 0), scale as int) =~= bin@);
    }
    while i < n
        invariant
            n == weights@.len(),
            rows == weights@.map_values(|row: Vec<i64>| row@),
            i <= n,
            scale_ok(scale as int),
            rows_ok(rows),
            bin@ == old(bin)@ + dense_i8_bytes(rows.subrange(0, i as int), scale as int),
        decreases n - i,
    {
        proof {
            assert(rows[i as int] == weights@[i as int]@);
        }
        serialize_flat_i8(&weights[i], bin, scale);
        proof {
            let pre = rows.subrange(0, i as int);
            let cur = rows.subrange(0, i as int + 1);
            assert(cur.drop_last() =~= pre);
            assert(cur.last() == rows[i as int]);
            assert(bin@ =~= old(bin)@ + dense_i8_bytes(cur, scale as int));
        }
        i += 1;
    }
    proof {
        assert(rows.subrange(0, n as int) =~= rows);
    }
}

/// Quantize a row-major matrix to little-endian 16-bit integers,
/// appending to the output.
pub fn serialize_dense_i16(weights: &Vec<Vec<i64>>, bin: &mut Vec<u8>, scale: i64)
    requires
        scale_ok(scale as int),
        rows_ok(weights@.map_values(|row: Vec<i64>| row@)),
    ensures
        final(bin)@ == old(bin)@ + dense_i16_bytes(
            weights@.map_values(|row: Vec<i64>| row@),
            scale as int,
        ),
{
    let ghost rows = weights@.map_values(|row: Vec<i64>| row@);
    let n = weights.len();
    let mut i: usize = 0;
    proof {
        assert(bin@ + dense_i16_bytes(rows.subrange(0, 0), scale as int) =~= bin@);
    }
    while i < n
        invariant
            n == weights@.len(),
            rows == weights@.map_values(|row: Vec<i64>| row@),
            i <= n,
            scale_ok(scale as int),
            rows_ok(rows),
            bin@ == old(bin)@ + dense_i16_bytes(rows.subrange(0, i as int), scale as int),
        decreases n - i,
    {
        proof {
            assert(rows[i as int] == weights@[i as int]@);
        }
        serialize_flat_i16(&weights[i], bin, scale);
        proof {
            let pre = rows.subrange(0, i as int);
            let cur = rows.subrange(0, i as int + 1);
            assert(cur.drop_last() =~= pre);
            assert(cur.last() == rows[i as int]);
            assert(bin@ =~= old(bin)@ + dense_i16_bytes(cur, scale as int));
        }
        i += 1;
    }
    proof {
        assert(rows.subrange(0, n as int) =~= rows);
    }
}

/// Quantize a weight vector to little-endian 32-bit integers, appending
/// to the output.
pub fn serialize_flat_i32(weights: &Vec<i64>, bin: &mut Vec<u8>, scale: i64)
    requires
        scale_ok(scale as int),
        weights_ok(weights@),
    ensures
        final(bin)@ == old(bin)@ + flat_i32_bytes(weights@, scale as int),
{
    let n = weights.len();
    let mut i: usize = 0;
    proof {
        assert(bin@ + flat_i32_bytes(weights@.subrange(0, 0), scale as int) =~= bin@);
    }
    while i < n
        invariant
            n == weights@.len(),
            i <= n,
            scale_ok(scale as int),
            weights_ok(weights@),
            bin@ == old(bin)@ + flat_i32_bytes(weights@.subrange(0, i as int), scale as int),
        decreases n - i,
    {
        let q = quantize_i32(weights[i], scale);
        let u: u32 = if q >= 0 {
            q as u32
        } else {
            (q as i64 + 0x1_0000_0000) as u32
        };
        bin.push((u % 256) as u8);
        bin.push(((u / 256) % 256) as u8);
        bin.push(((u / 0x10000) % 256) as u8);
        bin.push(((u / 0x1000000) % 256) as u8);
        proof {
            let pre = weights@.subrange(0, i as int);
            let cur = weights@.subrange(0, i as int + 1);
            assert(cur.drop_last() =~= pre);
            assert(cur.last() == weights@[i as int]);
            reveal_with_fuel(le_bytes, 5);
            assert(bin@ =~= old(bin)@ + flat_i32_bytes(cur, scale as int));
        }
        i += 1;
    }
    proof {
        assert(weights@.subrange(0, n as int) =~= weights@);
    }
}

/// Quantize a row-major matrix to little-endian 32-bit integers,
/// appending to the output.
pub fn serialize_dense_i32(weights: &Vec<Vec<i64>>, bin: &mut Vec<u8>, scale: i64)
    requires
        scale_ok(scale as int),
        rows_ok(weights@.map_values(|row: Vec<i64>| row@)),
    ensures
        final(bin)@ == old(bin)@ + dense_i32_bytes(
            weights@.map_values(|row: Vec<i64>| row@),
            scale as int,
        ),
{
    let ghost rows = weights@.map_values(|row: Vec<i64>| row@);
    let n = weights.len();
    let mut i: usize = 0;
    proof {
        assert(bin@ + dense_i32_bytes(rows.subrange(0, 0), scale as int) =~= bin@);
    }
    while i < n
        invariant
            n == weights@.len(),
            rows == weights@.map_values(|row: Vec<i64>| row@),
            i <= n,
            scale_ok(scale as int),
            rows_ok(rows),
            bin@ == old(bin)@ + dense_i32_bytes(rows.subrange(0, i as int), scale as int),
        decreases n - i,
    {
        proof {
            assert(rows[i as int] == weights@[i as int]@);
        }
        serialize_flat_i32(&weights[i], bin, scale);
        proof {
            let pre = rows.subrange(0, i as int);
            let cur = rows.subrange(0, i as int + 1);
            assert(cur.drop_last() =~= pre);
            assert(cur.last() == rows[i as int]);
            assert(bin@ =~= old(bin)@ + dense_i32_bytes(cur, scale as int));
        }
        i += 1;
    }
    proof {
        assert(rows.subrange(0, n as int) =~= rows);
    }
}

} // verus!
