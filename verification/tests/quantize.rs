use marlinflow::convert::{BmArchV1, HalfKp, StmArch};
use marlinflow::quantize::{
    quantize_i16, quantize_i8, serialize_dense_i8, serialize_flat_i16, serialize_flat_i32,
    serialize_flat_i8, FIXED_ONE,
};

fn fixed(x: f64) -> i64 {
    (x * FIXED_ONE as f64) as i64
}

#[test]
fn quantizer_half_weight_scale_64() {
    // 0.5 at scale 64 quantizes to the byte 32
    assert_eq!(quantize_i8(fixed(0.5), 64), 32);
}

#[test]
fn quantizer_truncates_and_clamps() {
    assert_eq!(quantize_i8(fixed(0.26), 64), 16);
    assert_eq!(quantize_i8(fixed(-0.26), 64), -16);
    assert_eq!(quantize_i8(fixed(10.0), 64), 127);
    assert_eq!(quantize_i8(fixed(-10.0), 64), -128);
    assert_eq!(quantize_i16(fixed(1.0), 255), 255);
    assert_eq!(quantize_i16(fixed(-600.0), 255), -32768);
}

#[test]
fn flat_i8_bytes_match_formula() {
    let weights = vec![fixed(0.5), fixed(-0.5), fixed(3.0)];
    let mut bin = Vec::new();
    serialize_flat_i8(&weights, &mut bin, 64);
    // each byte is clamp(trunc(scale * w)) in two's complement
    assert_eq!(bin, vec![32, (256 - 32) as u8, 127]);
}

#[test]
fn flat_i16_bytes_are_little_endian() {
    let weights = vec![fixed(1.0), fixed(-1.0)];
    let mut bin = Vec::new();
    serialize_flat_i16(&weights, &mut bin, 255);
    assert_eq!(bin, vec![255, 0, 1, 0xFF]);
}

#[test]
fn dense_serialization_walks_rows() {
    let weights = vec![vec![fixed(0.5)], vec![fixed(0.25)]];
    let mut bin = vec![9u8];
    serialize_dense_i8(&weights, &mut bin, 64);
    assert_eq!(bin, vec![9, 32, 16]);
}

#[test]
fn stm_arch_layout() {
    let net = StmArch {
        feature_weights: vec![vec![fixed(0.5)], vec![fixed(0.25)]],
        feature_bias: vec![fixed(1.0)],
        out_weights: vec![vec![fixed(-0.5)]],
        out_bias: vec![fixed(0.0)],
    };
    let bin = net.to_bin(64);
    let mut expected: Vec<u8> = Vec::new();
    expected.extend(2u32.to_le_bytes()); // feature rows
    expected.extend(1u32.to_le_bytes()); // feature columns
    expected.extend(1u32.to_le_bytes()); // outputs
    expected.extend([32, 16]); // feature weights
    expected.extend([64]); // feature bias
    expected.extend([(256 - 32) as u8]); // output weights
    expected.extend([0]); // output bias
    assert_eq!(bin, expected);
}

#[test]
fn halfkp_fuses_factorized_table() {
    // two king planes over one secondary row: both primary rows gain it
    let net = HalfKp {
        feature_weights: vec![vec![fixed(0.25)], vec![fixed(0.5)]],
        feature_bias: vec![fixed(0.25)],
        v_weights: vec![vec![fixed(0.25)]],
        v_bias: vec![fixed(0.25)],
        out_weights: vec![vec![fixed(0.5)]],
        out_bias: vec![fixed(1.0)],
    };
    let bin = net.to_bin(255, 64);
    let mut expected: Vec<u8> = Vec::new();
    expected.extend(2u32.to_le_bytes());
    expected.extend(1u32.to_le_bytes());
    expected.extend(1u32.to_le_bytes());
    // fused feature weights 0.5 and 0.75 at scale 255, 16-bit
    expected.extend(127i16.to_le_bytes());
    expected.extend(191i16.to_le_bytes());
    // fused bias 0.5 at scale 255
    expected.extend(127i16.to_le_bytes());
    // output weights at scale 64, bytes; output bias as a 16-bit
    // integer at the combined scale 255 * 64
    expected.extend([32]);
    expected.extend(16320i16.to_le_bytes());
    assert_eq!(bin, expected);
}

#[test]
fn flat_i32_bytes_are_little_endian() {
    let weights = vec![fixed(1.5), fixed(-1.0)];
    let mut bin = Vec::new();
    serialize_flat_i32(&weights, &mut bin, 4096);
    let mut expected: Vec<u8> = Vec::new();
    expected.extend(6144i32.to_le_bytes());
    expected.extend((-4096i32).to_le_bytes());
    assert_eq!(bin, expected);
}

#[test]
fn bm_arch_v1_layout() {
    let net = BmArchV1 {
        pair_mul_a: vec![vec![fixed(0.5)]],
        pair_mul_a_bias: vec![fixed(0.25)],
        pair_mul_b: vec![vec![fixed(-0.5)]],
        pair_mul_b_bias: vec![fixed(0.0)],
        out_weights: vec![vec![fixed(1.0)]],
        out_bias: vec![fixed(-0.25)],
        res_weights: vec![vec![fixed(2.0)]],
    };
    let bin = net.to_bin(64);
    let mut expected: Vec<u8> = Vec::new();
    expected.extend(1u32.to_le_bytes());
    expected.extend(1u32.to_le_bytes());
    expected.extend(1u32.to_le_bytes());
    expected.extend([32, 16, (256 - 32) as u8, 0, 64, (256 - 16) as u8]);
    // the residual layer quantizes at 64 * 64
    expected.extend(8192i32.to_le_bytes());
    assert_eq!(bin, expected);
}
