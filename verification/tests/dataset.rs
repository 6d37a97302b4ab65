use marlinflow::board::{Color, Piece, Position};
use marlinflow::interleave::interleave_records;
use marlinflow::marlinformat::PackedBoard;
use marlinflow::shuffle::shuffle_blocks;
use marlinflow::txt::{cp_to_i16, txt_record, wdl_code, InputFeatures};

fn start_position() -> Position {
    let back = [
        Piece::Rook,
        Piece::Knight,
        Piece::Bishop,
        Piece::Queen,
        Piece::King,
        Piece::Bishop,
        Piece::Knight,
        Piece::Rook,
    ];
    let mut squares: Vec<Option<(Color, Piece)>> = vec![None; 64];
    for f in 0..8 {
        squares[f] = Some((Color::White, back[f]));
        squares[8 + f] = Some((Color::White, Piece::Pawn));
        squares[48 + f] = Some((Color::Black, Piece::Pawn));
        squares[56 + f] = Some((Color::Black, back[f]));
    }
    Position {
        squares,
        side_to_move: Color::White,
        white_short: Some(7),
        white_long: Some(0),
        black_short: Some(7),
        black_long: Some(0),
        ep_file: None,
        halfmove_clock: 0,
        fullmove_number: 1,
    }
}

fn tagged(tag: i16) -> PackedBoard {
    PackedBoard::pack(&start_position(), tag, 1, 0)
}

fn tags(records: &[PackedBoard]) -> Vec<i16> {
    records
        .iter()
        .map(|r| {
            let (_, eval, _, _) = r.unpack().expect("must unpack");
            eval
        })
        .collect()
}

#[test]
fn interleave_emits_each_record_once() {
    let a = vec![tagged(1), tagged(2), tagged(3)];
    let b = vec![tagged(100)];
    let out = interleave_records(vec![a, b]);
    assert_eq!(out.len(), 4);
    let seen = tags(&out);
    let mut sorted = seen.clone();
    sorted.sort();
    assert_eq!(sorted, vec![1, 2, 3, 100]);
    assert_eq!(seen.iter().filter(|&&t| t == 100).count(), 1);
    // the first file's records keep their relative order
    let first: Vec<i16> = seen.iter().copied().filter(|&t| t != 100).collect();
    assert_eq!(first, vec![1, 2, 3]);
}

#[test]
fn interleave_keeps_multiset_with_duplicates() {
    let a = vec![tagged(7), tagged(7)];
    let b = vec![tagged(7), tagged(9)];
    let c: Vec<PackedBoard> = Vec::new();
    let out = interleave_records(vec![a, b, c]);
    let mut seen = tags(&out);
    seen.sort();
    assert_eq!(seen, vec![7, 7, 7, 9]);
}

#[test]
fn shuffle_keeps_the_records() {
    let mut records: Vec<PackedBoard> = (0..20).map(|i| tagged(i as i16)).collect();
    shuffle_blocks(&mut records, 6);
    assert_eq!(records.len(), 20);
    let mut seen = tags(&records);
    seen.sort();
    assert_eq!(seen, (0..20).collect::<Vec<i16>>());
}

#[test]
fn txt_cp_truncates_and_saturates() {
    let unit: i64 = 1 << 32;
    assert_eq!(cp_to_i16(unit * 123 + unit / 2), 123);
    assert_eq!(cp_to_i16(-(unit * 123 + unit / 2)), -123);
    assert_eq!(cp_to_i16(unit * 100000), 32767);
    assert_eq!(cp_to_i16(-unit * 100000), -32768);
}

#[test]
fn txt_wdl_thresholds() {
    let unit: i64 = 1 << 32;
    assert_eq!(wdl_code(0), 0);
    assert_eq!(wdl_code(unit / 5), 0);
    assert_eq!(wdl_code(unit / 2), 1);
    assert_eq!(wdl_code(unit * 3 / 4), 2);
    assert_eq!(wdl_code(unit), 2);
}

#[test]
fn txt_record_packs_the_annotations() {
    let unit: i64 = 1 << 32;
    let board = start_position();
    let record = txt_record(&board, unit * 55, unit / 2);
    let (_, eval, wdl, extra) = record.unpack().expect("must unpack");
    assert_eq!(eval, 55);
    assert_eq!(wdl, 1);
    assert_eq!(extra, 0);
}

#[test]
fn legacy_format_tags() {
    assert_eq!(InputFeatures::from(0).max_indices(), 32);
    assert_eq!(InputFeatures::from(1).max_indices(), 30);
    assert_eq!(InputFeatures::from(2).max_indices(), 32);
}
