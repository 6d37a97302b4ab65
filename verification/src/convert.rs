//! Trained-network serializers: each architecture writes a header of
//! `u32` dimensions and its layers in fixed order through the quantizer.
//! The king-piece architecture first folds its factorized secondary
//! feature table into the primary one.
use vstd::prelude::*;

use crate::codec::le_bytes;
use crate::quantize::WEIGHT_LIMIT;
use crate::quantize::dense_i16_bytes;
use crate::quantize::dense_i32_bytes;
use crate::quantize::dense_i8_bytes;
use crate::quantize::flat_i16_bytes;
use crate::quantize::flat_i8_bytes;
use crate::quantize::rows_ok;
use crate::quantize::scale_ok;
use crate::quantize::serialize_dense_i16;
use crate::quantize::serialize_dense_i32;
use crate::quantize::serialize_dense_i8;
use crate::quantize::serialize_flat_i16;
use crate::quantize::serialize_flat_i8;
use crate::quantize::weights_ok;

verus! {

/// The sequence view of a row-major weight matrix.
pub open spec fn rows_view(rows: Seq<Vec<i64>>) -> Seq<Seq<i64>> {
    rows.map_values(|row: Vec<i64>| row@)
}

/// Every row exactly `cols` wide.
pub open spec fn rectangular(rows: Seq<Seq<i64>>, cols: int) -> bool {
    forall|r: int| 0 <= r < rows.len() ==> (#[trigger] rows[r]).len() == cols
}

/// Weights no wider than half the quantizer's input range, so that a
/// fused sum still quantizes.
pub open spec fn narrow_weights(ws: Seq<i64>) -> bool {
    forall|i: int| 0 <= i < ws.len() ==> -WEIGHT_LIMIT <= #[trigger] ws[i] <= WEIGHT_LIMIT
}

pub open spec fn narrow_rows(rows: Seq<Seq<i64>>) -> bool {
    forall|r: int| 0 <= r < rows.len() ==> narrow_weights(#[trigger] rows[r])
}

/// One primary row with the matching secondary row folded in.
pub open spec fn fuse_row(a: Seq<i64>, b: Seq<i64>) -> Seq<i64> {
    Seq::new(a.len(), |k: int| (a[k] + b[k]) as i64)
}

/// The primary table with the secondary broadcast-added: the secondary's
/// rows repeat over `primary.len() / secondary.len()` planes; any
/// remainder rows stay as they are.
pub open spec fn fused_rows(primary: Seq<Seq<i64>>, secondary: Seq<Seq<i64>>) -> Seq<Seq<i64>> {
    let planes = primary.len() / secondary.len();
    Seq::new(
        primary.len() as nat,
        |r: int|
            if r < planes * secondary.len() {
                fuse_row(primary[r], secondary[r % secondary.len() as int])
            } else {
                primary[r]
            },
    )
}

/// The primary bias with the secondary added elementwise over their
/// common prefix.
pub open spec fn fused_bias(primary: Seq<i64>, secondary: Seq<i64>) -> Seq<i64> {
    Seq::new(
        primary.len(),
        |i: int|
            if i < secondary.len() {
                (primary[i] + secondary[i]) as i64
            } else {
                primary[i]
            },
    )
}

/// A `u32` dimension written little-endian.
fn push_u32(bin: &mut Vec<u8>, v: u32)
    ensures
        final(bin)@ == old(bin)@ + le_bytes(v as int, 4),
{
    bin.push((v % 256) as u8);
    bin.push(((v / 256) % 256) as u8);
    bin.push(((v / 0x10000) % 256) as u8);
    bin.push(((v / 0x1000000) % 256) as u8);
    proof {
        reveal_with_fuel(le_bytes, 5);
        assert(bin@ =~= old(bin)@ + le_bytes(v as int, 4));
    }
}

/// Fold the secondary feature table into the primary.
fn fuse_weights(primary: &Vec<Vec<i64>>, secondary: &Vec<Vec<i64>>, cols: usize) -> (r: Vec<
    Vec<i64>,
>)
    requires
        secondary@.len() > 0,
        rectangular(rows_view(primary@), cols as int),
        rectangular(rows_view(secondary@), cols as int),
        narrow_rows(rows_view(primary@)),
        narrow_rows(rows_view(secondary@)),
    ensures
        rows_view(r@) == fused_rows(rows_view(primary@), rows_view(secondary@)),
        rows_ok(rows_view(r@)),
        rectangular(rows_view(r@), cols as int),
        r@.len() == primary@.len(),
{
    let ghost pv = rows_view(primary@);
    let ghost sv = rows_view(secondary@);
    let vlen = secondary.len();
    let n = primary.len();
    let planes = n / vlen;
    proof {
        assert(planes * vlen <= n && planes == pv.len() / sv.len()) by (nonlinear_arith)
            requires
                planes == n / vlen,
                vlen > 0,
                n == pv.len(),
                vlen == sv.len(),
        ;
    }
    let fused_count = planes * vlen;
    let mut out: Vec<Vec<i64>> = Vec::new();
    let mut r: usize = 0;
    while r < n
        invariant
            n == primary@.len(),
            vlen == secondary@.len(),
            vlen > 0,
            pv == rows_view(primary@),
            sv == rows_view(secondary@),
            fused_count == (pv.len() / sv.len()) * sv.len(),
            fused_count <= n,
            rectangular(pv, cols as int),
            rectangular(sv, cols as int),
            narrow_rows(pv),
            narrow_rows(sv),
            r <= n,
            out@.len() == r,
            forall|j: int| 0 <= j < r ==> (#[trigger] rows_view(out@)[j]) == fused_rows(pv, sv)[j],
        decreases n - r,
    {
        proof {
            assert(pv[r as int] == primary@[r as int]@);
        }
        let mut row: Vec<i64> = Vec::new();
        if r < fused_count {
            let j = r % vlen;
            proof {
                assert(j < vlen) by (nonlinear_arith)
                    requires
                        j == r % vlen,
                        vlen > 0,
                ;
                assert(sv[j as int] == secondary@[j as int]@);
            }
            let mut k: usize = 0;
            while k < cols
                invariant
                    n == primary@.len(),
                    vlen == secondary@.len(),
                    pv == rows_view(primary@),
                    sv == rows_view(secondary@),
                    rectangular(pv, cols as int),
                    rectangular(sv, cols as int),
                    narrow_rows(pv),
                    narrow_rows(sv),
                    r < n,
                    j < vlen,
                    j == r as int % vlen as int,
                    k <= cols,
                    row@.len() == k,
                    forall|x: int|
                        0 <= x < k ==> #[trigger] row@[x] == fuse_row(pv[r as int], sv[j as int])[x],
                decreases cols - k,
            {
                proof {
                    assert(pv[r as int] == primary@[r as int]@);
                    assert(sv[j as int] == secondary@[j as int]@);
                }
                row.push(primary[r][k] + secondary[j][k]);
                k += 1;
            }
            proof {
                assert(row@ =~= fuse_row(pv[r as int], sv[j as int]));
            }
        } else {
            let mut k: usize = 0;
            while k < cols
                invariant
                    n == primary@.len(),
                    pv == rows_view(primary@),
                    rectangular(pv, cols as int),
                    r < n,
                    k <= cols,
                    row@.len() == k,
                    forall|x: int| 0 <= x < k ==> #[trigger] row@[x] == pv[r as int][x],
                decreases cols - k,
            {
                proof {
                    assert(pv[r as int] == primary@[r as int]@);
                }
                row.push(primary[r][k]);
                k += 1;
            }
            proof {
                assert(row@ =~= pv[r as int]);
            }
        }
        let ghost prev_out = out@;
        out.push(row);
        proof {
            assert forall|j2: int| 0 <= j2 < r + 1 implies (#[trigger] rows_view(out@)[j2])
                == fused_rows(pv, sv)[j2] by {
                assert(rows_view(out@)[j2] == out@[j2]@);
                if j2 < r {
                    assert(rows_view(prev_out)[j2] == prev_out[j2]@);
                    assert(out@[j2] == prev_out[j2]);
                } else {
                    assert(out@[j2]@ == fused_rows(pv, sv)[r as int]);
                }
            }
        }
        r += 1;
    }
    proof {
        assert(rows_view(out@) =~= fused_rows(pv, sv));
    }
    out
}

/// Fold the secondary bias into the primary over their common prefix.
fn fuse_bias(primary: &Vec<i64>, secondary: &Vec<i64>) -> (r: Vec<i64>)
    requires
        narrow_weights(primary@),
        narrow_weights(secondary@),
    ensures
        r@ == fused_bias(primary@, secondary@),
        weights_ok(r@),
{
    let n = primary.len();
    let m = secondary.len();
    let mut out: Vec<i64> = Vec::new();
    let mut i: usize = 0;
    while i < n
        invariant
            n == primary@.len(),
            m == secondary@.len(),
            narrow_weights(primary@),
            narrow_weights(secondary@),
            i <= n,
            out@.len() == i,
            forall|x: int| 0 <= x < i ==> #[trigger] out@[x] == fused_bias(primary@, secondary@)[x],
        decreases n - i,
    {
        if i < m {
            out.push(primary[i] + secondary[i]);
        } else {
            out.push(primary[i]);
        }
        i += 1;
    }
    proof {
        assert(out@ =~= fused_bias(primary@, secondary@));
    }
    out
}

/// The king-piece network: a factorized feature transformer, fused before
/// quantization, and a single output layer.
pub struct HalfKp {
    pub feature_weights: Vec<Vec<i64>>,
    pub feature_bias: Vec<i64>,
    pub v_weights: Vec<Vec<i64>>,
    pub v_bias: Vec<i64>,
    pub out_weights: Vec<Vec<i64>>,
    pub out_bias: Vec<i64>,
}

impl HalfKp {
    /// The whole binary artifact this network serializes to.
    pub open spec fn spec_bin(self, ft_scale: int, scale: int) -> Seq<u8> {
        let fw = rows_view(self.feature_weights@);
        let vw = rows_view(self.v_weights@);
        let ow = rows_view(self.out_weights@);
        le_bytes(fw.len() as int, 4) + le_bytes(fw[0].len() as int, 4) + le_bytes(
            ow[0].len() as int,
            4,
        ) + dense_i16_bytes(fused_rows(fw, vw), ft_scale) + flat_i16_bytes(
            fused_bias(self.feature_bias@, self.v_bias@),
            ft_scale,
        ) + dense_i8_bytes(ow, scale) + flat_i16_bytes(self.out_bias@, ft_scale * scale)
    }

    /// Serialize: a three-dimension header, the fused feature transformer
    /// as 16-bit integers, the output weights as bytes, and the output
    /// bias as 16-bit integers at the product of the two scales.
    pub fn to_bin(&self, ft_scale: i64, scale: i64) -> (bin: Vec<u8>)
        requires
            scale_ok(ft_scale as int),
            scale_ok(scale as int),
            scale_ok(ft_scale as int * scale as int),
            self.feature_weights@.len() > 0,
            self.feature_weights@.len() <= 0xffff_ffff,
            self.v_weights@.len() > 0,
            self.out_weights@.len() > 0,
            rows_view(self.feature_weights@)[0].len() <= 0xffff_ffff,
            rows_view(self.out_weights@)[0].len() <= 0xffff_ffff,
            rectangular(
                rows_view(self.feature_weights@),
                rows_view(self.feature_weights@)[0].len() as int,
            ),
            rectangular(
                rows_view(self.v_weights@),
                rows_view(self.feature_weights@)[0].len() as int,
            ),
            narrow_rows(rows_view(self.feature_weights@)),
            narrow_rows(rows_view(self.v_weights@)),
            narrow_weights(self.feature_bias@),
            narrow_weights(self.v_bias@),
            rows_ok(rows_view(self.out_weights@)),
            weights_ok(self.out_bias@),
        ensures
            bin@ == self.spec_bin(ft_scale as int, scale as int),
    {
        let mut bin: Vec<u8> = Vec::new();
        let cols = self.feature_weights[0].len();
        proof {
            assert(rows_view(self.feature_weights@)[0] == self.feature_weights@[0]@);
            assert(rows_view(self.out_weights@)[0] == self.out_weights@[0]@);
        }
        push_u32(&mut bin, self.feature_weights.len() as u32);
        push_u32(&mut bin, cols as u32);
        push_u32(&mut bin, self.out_weights[0].len() as u32);
        let summed_weights = fuse_weights(&self.feature_weights, &self.v_weights, cols);
        let summed_bias = fuse_bias(&self.feature_bias, &self.v_bias);
        serialize_dense_i16(&summed_weights, &mut bin, ft_scale);
        serialize_flat_i16(&summed_bias, &mut bin, ft_scale);
        serialize_dense_i8(&self.out_weights, &mut bin, scale);
        serialize_flat_i16(&self.out_bias, &mut bin, ft_scale * scale);
        proof {
            assert(bin@ =~= self.spec_bin(ft_scale as int, scale as int));
        }
        bin
    }
}

/// The plain side-to-move network: one feature layer and one output
/// layer, all quantized to bytes at one scale.
pub struct StmArch {
    pub feature_weights: Vec<Vec<i64>>,
    pub feature_bias: Vec<i64>,
    pub out_weights: Vec<Vec<i64>>,
    pub out_bias: Vec<i64>,
}

impl StmArch {
    /// The whole binary artifact this network serializes to.
    pub open spec fn spec_bin(self, scale: int) -> Seq<u8> {
        let fw = rows_view(self.feature_weights@);
        let ow = rows_view(self.out_weights@);
        le_bytes(fw.len() as int, 4) + le_bytes(fw[0].len() as int, 4) + le_bytes(
            ow[0].len() as int,
            4,
        ) + dense_i8_bytes(fw, scale) + flat_i8_bytes(self.feature_bias@, scale) + dense_i8_bytes(
            ow,
            scale,
        ) + flat_i8_bytes(self.out_bias@, scale)
    }

    /// Serialize: a three-dimension header, then both layers as bytes.
    pub fn to_bin(&self, scale: i64) -> (bin: Vec<u8>)
        requires
            scale_ok(scale as int),
            self.feature_weights@.len() > 0,
            self.feature_weights@.len() <= 0xffff_ffff,
            self.out_weights@.len() > 0,
            rows_view(self.feature_weights@)[0].len() <= 0xffff_ffff,
            rows_view(self.out_weights@)[0].len() <= 0xffff_ffff,
            rows_ok(rows_view(self.feature_weights@)),
            weights_ok(self.feature_bias@),
            rows_ok(rows_view(self.out_weights@)),
            weights_ok(self.out_bias@),
        ensures
            bin@ == self.spec_bin(scale as int),
    {
        let mut bin: Vec<u8> = Vec::new();
        proof {
            assert(rows_view(self.feature_weights@)[0] == self.feature_weights@[0]@);
            assert(rows_view(self.out_weights@)[0] == self.out_weights@[0]@);
        }
        push_u32(&mut bin, self.feature_weights.len() as u32);
        push_u32(&mut bin, self.feature_weights[0].len() as u32);
        push_u32(&mut bin, self.out_weights[0].len() as u32);
        serialize_dense_i8(&self.feature_weights, &mut bin, scale);
        serialize_flat_i8(&self.feature_bias, &mut bin, scale);
        serialize_dense_i8(&self.out_weights, &mut bin, scale);
        serialize_flat_i8(&self.out_bias, &mut bin, scale);
        proof {
            assert(bin@ =~= self.spec_bin(scale as int));
        }
        bin
    }
}

/// The pair-multiply network's first revision: two elementwise byte
/// layers, a byte output layer, and a residual layer quantized to 32-bit
/// integers at sixty-four times the evaluation scale.
pub struct BmArchV1 {
    pub pair_mul_a: Vec<Vec<i64>>,
    pub pair_mul_a_bias: Vec<i64>,
    pub pair_mul_b: Vec<Vec<i64>>,
    pub pair_mul_b_bias: Vec<i64>,
    pub out_weights: Vec<Vec<i64>>,
    pub out_bias: Vec<i64>,
    pub res_weights: Vec<Vec<i64>>,
}

impl BmArchV1 {
    /// The whole binary artifact this network serializes to.
    pub open spec fn spec_bin(self, scale: int) -> Seq<u8> {
        let pa = rows_view(self.pair_mul_a@);
        let ow = rows_view(self.out_weights@);
        le_bytes(pa[0].len() as int, 4) + le_bytes(ow[0].len() as int, 4) + le_bytes(
            ow.len() as int,
            4,
        ) + dense_i8_bytes(pa, 64) + flat_i8_bytes(self.pair_mul_a_bias@, 64) + dense_i8_bytes(
            rows_view(self.pair_mul_b@),
            64,
        ) + flat_i8_bytes(self.pair_mul_b_bias@, 64) + dense_i8_bytes(ow, 64) + flat_i8_bytes(
            self.out_bias@,
            64,
        ) + dense_i32_bytes(rows_view(self.res_weights@), 64 * scale)
    }

    /// Serialize: a three-dimension header, the byte layers at the fixed
    /// scale, and the residual layer as 32-bit integers.
    pub fn to_bin(&self, scale: i64) -> (bin: Vec<u8>)
        requires
            scale_ok(64 * scale as int),
            self.pair_mul_a@.len() > 0,
            self.out_weights@.len() > 0,
            self.out_weights@.len() <= 0xffff_ffff,
            rows_view(self.pair_mul_a@)[0].len() <= 0xffff_ffff,
            rows_view(self.out_weights@)[0].len() <= 0xffff_ffff,
            rows_ok(rows_view(self.pair_mul_a@)),
            weights_ok(self.pair_mul_a_bias@),
            rows_ok(rows_view(self.pair_mul_b@)),
            weights_ok(self.pair_mul_b_bias@),
            rows_ok(rows_view(self.out_weights@)),
            weights_ok(self.out_bias@),
            rows_ok(rows_view(self.res_weights@)),
        ensures
            bin@ == self.spec_bin(scale as int),
    {
        let mut bin: Vec<u8> = Vec::new();
        proof {
            assert(rows_view(self.pair_mul_a@)[0] == self.pair_mul_a@[0]@);
            assert(rows_view(self.out_weights@)[0] == self.out_weights@[0]@);
        }
        push_u32(&mut bin, self.pair_mul_a[0].len() as u32);
        push_u32(&mut bin, self.out_weights[0].len() as u32);
        push_u32(&mut bin, self.out_weights.len() as u32);
        serialize_dense_i8(&self.pair_mul_a, &mut bin, 64);
        serialize_flat_i8(&self.pair_mul_a_bias, &mut bin, 64);
        serialize_dense_i8(&self.pair_mul_b, &mut bin, 64);
        serialize_flat_i8(&self.pair_mul_b_bias, &mut bin, 64);
        serialize_dense_i8(&self.out_weights, &mut bin, 64);
        serialize_flat_i8(&self.out_bias, &mut bin, 64);
        serialize_dense_i32(&self.res_weights, &mut bin, 64 * scale);
        proof {
            assert(bin@ =~= self.spec_bin(scale as int));
        }
        bin
    }
}

/// The pair-multiply network's second revision: a feature transformer and
/// two output heads as byte layers, with two residual layers quantized to
/// 32-bit integers at sixty-four times the evaluation scale.
pub struct BmArchV2 {
    pub feature_t_weights: Vec<Vec<i64>>,
    pub feature_t_bias: Vec<i64>,
    pub out_weights: Vec<Vec<i64>>,
    pub out_bias: Vec<i64>,
    pub s_out_weights: Vec<Vec<i64>>,
    pub s_out_bias: Vec<i64>,
    pub res_weights: Vec<Vec<i64>>,
    pub s_res_weights: Vec<Vec<i64>>,
}

impl BmArchV2 {
    /// The whole binary artifact this network serializes to.
    pub open spec fn spec_bin(self, scale: int) -> Seq<u8> {
        let ft = rows_view(self.feature_t_weights@);
        let ow = rows_view(self.out_weights@);
        le_bytes(ft[0].len() as int, 4) + le_bytes(ow[0].len() as int, 4) + le_bytes(
            ow.len() as int,
            4,
        ) + dense_i8_bytes(ft, 64) + flat_i8_bytes(self.feature_t_bias@, 64) + dense_i8_bytes(
            ow,
            64,
        ) + flat_i8_bytes(self.out_bias@, 64) + dense_i8_bytes(rows_view(self.s_out_weights@), 64)
            + flat_i8_bytes(self.s_out_bias@, 64) + dense_i32_bytes(
            rows_view(self.res_weights@),
            64 * scale,
        ) + dense_i32_bytes(rows_view(self.s_res_weights@), 64 * scale)
    }

    /// Serialize: a three-dimension header, the byte layers at the fixed
    /// scale, and both residual layers as 32-bit integers.
    pub fn to_bin(&self, scale: i64) -> (bin: Vec<u8>)
        requires
            scale_ok(64 * scale as int),
            self.feature_t_weights@.len() > 0,
            self.out_weights@.len() > 0,
            self.out_weights@.len() <= 0xffff_ffff,
            rows_view(self.feature_t_weights@)[0].len() <= 0xffff_ffff,
            rows_view(self.out_weights@)[0].len() <= 0xffff_ffff,
            rows_ok(rows_view(self.feature_t_weights@)),
            weights_ok(self.feature_t_bias@),
            rows_ok(rows_view(self.out_weights@)),
            weights_ok(self.out_bias@),
            rows_ok(rows_view(self.s_out_weights@)),
            weights_ok(self.s_out_bias@),
            rows_ok(rows_view(self.res_weights@)),
            rows_ok(rows_view(self.s_res_weights@)),
        ensures
            bin@ == self.spec_bin(scale as int),
    {
        let mut bin: Vec<u8> = Vec::new();
        proof {
            assert(rows_view(self.feature_t_weights@)[0] == self.feature_t_weights@[0]@);
            assert(rows_view(self.out_weights@)[0] == self.out_weights@[0]@);
        }
        push_u32(&mut bin, self.feature_t_weights[0].len() as u32);
        push_u32(&mut bin, self.out_weights[0].len() as u32);
        push_u32(&mut bin, self.out_weights.len() as u32);
        serialize_dense_i8(&self.feature_t_weights, &mut bin, 64);
        serialize_flat_i8(&self.feature_t_bias, &mut bin, 64);
        serialize_dense_i8(&self.out_weights, &mut bin, 64);
        serialize_flat_i8(&self.out_bias, &mut bin, 64);
        serialize_dense_i8(&self.s_out_weights, &mut bin, 64);
        serialize_flat_i8(&self.s_out_bias, &mut bin, 64);
        serialize_dense_i32(&self.res_weights, &mut bin, 64 * scale);
        serialize_dense_i32(&self.s_res_weights, &mut bin, 64 * scale);
        proof {
            assert(bin@ =~= self.spec_bin(scale as int));
        }
        bin
    }
}

} // verus!
