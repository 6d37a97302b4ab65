use marlinflow::batch::Batch;
use marlinflow::board::{Color, Piece, Position};
use marlinflow::bucketing::BucketingSchemeType;
use marlinflow::features::InputFeatureSetType;
use marlinflow::marlinformat::PackedBoard;
use marlinflow::pipeline::{batch_buffer, next_nonempty, process, AnnotatedBoard, BUFFERED_BATCHES};

fn start_position() -> Position {
    let back = [
        Piece::Rook,
        Piece::Knight,
        Piece::Bishop,
        Piece::Queen,
        Piece::King,
        Piece::Bishop,
        Piece::Knight,
        Piece::Rook,
    ];
    let mut squares: Vec<Option<(Color, Piece)>> = vec![None; 64];
    for f in 0..8 {
        squares[f] = Some((Color::White, back[f]));
        squares[8 + f] = Some((Color::White, Piece::Pawn));
        squares[48 + f] = Some((Color::Black, Piece::Pawn));
        squares[56 + f] = Some((Color::Black, back[f]));
    }
    Position {
        squares,
        side_to_move: Color::White,
        white_short: Some(7),
        white_long: Some(0),
        black_short: Some(7),
        black_long: Some(0),
        ep_file: None,
        halfmove_clock: 0,
        fullmove_number: 1,
    }
}

fn black_to_move() -> Position {
    let mut board = start_position();
    board.squares[12] = None;
    board.squares[28] = Some((Color::White, Piece::Pawn));
    board.side_to_move = Color::Black;
    board.ep_file = Some(4);
    board
}

fn records(cps: &[i16]) -> Vec<PackedBoard> {
    cps.iter()
        .map(|&cp| PackedBoard::pack(&start_position(), cp, 2, 0))
        .collect()
}

#[test]
fn pipeline_preserves_annotations() {
    let mut batch = Batch::new(4, 32, 2, 2);
    let boards = records(&[10, -20, 3000, 0]);
    process(
        &mut batch,
        &boards,
        InputFeatureSetType::Board768,
        BucketingSchemeType::NoBucketing,
    );
    assert_eq!(batch.entries, 4);
    assert_eq!(batch.cp, vec![10, -20, 3000, 0]);
    // white to move everywhere: the outcome code 2 stays 2
    assert_eq!(batch.wdl, vec![2, 2, 2, 2]);
    assert_eq!(batch.buckets, vec![0, 0, 0, 0]);
}

#[test]
fn pipeline_adjusts_for_side_to_move() {
    let mut batch = Batch::new(2, 32, 2, 2);
    let boards = vec![PackedBoard::pack(&black_to_move(), 150, 0, 0)];
    process(
        &mut batch,
        &boards,
        InputFeatureSetType::Board768,
        BucketingSchemeType::NoBucketing,
    );
    assert_eq!(batch.entries, 1);
    // black to move: the centipawns negate, the outcome complements
    assert_eq!(batch.cp, vec![-150]);
    assert_eq!(batch.wdl, vec![2]);
}

#[test]
fn cp_filter_drops_out_of_range() {
    let mut batch = Batch::new(4, 32, 2, 2);
    let boards = records(&[3500, 2999]);
    process(
        &mut batch,
        &boards,
        InputFeatureSetType::Board768,
        BucketingSchemeType::NoBucketing,
    );
    assert_eq!(batch.entries, 1);
    assert_eq!(batch.cp, vec![2999]);
}

#[test]
fn malformed_records_are_skipped() {
    let good = PackedBoard::pack(&start_position(), 5, 1, 0);
    let mut bytes = good.to_bytes();
    bytes[26] = 0;
    bytes[27] = 0;
    let bad = PackedBoard::from_bytes(&bytes);
    let mut batch = Batch::new(4, 32, 2, 2);
    let boards = vec![bad, PackedBoard::pack(&start_position(), 7, 1, 0)];
    process(
        &mut batch,
        &boards,
        InputFeatureSetType::Board768,
        BucketingSchemeType::NoBucketing,
    );
    assert_eq!(batch.entries, 1);
    assert_eq!(batch.cp, vec![7]);
}

#[test]
fn batch_invariants_at_capacity() {
    let mut batch = Batch::new(3, 32, 2, 2);
    let boards = records(&[1, 2, 3]);
    process(
        &mut batch,
        &boards,
        InputFeatureSetType::Board768,
        BucketingSchemeType::PieceCount,
    );
    assert_eq!(batch.entries, batch.capacity);
    for t in 0..2 {
        assert!(batch.feature_count(t) <= batch.capacity * batch.max_features);
        for pair in batch.features[t].feature_buffer.chunks(2) {
            let row = pair[0];
            assert!(0 <= row && (row as usize) < batch.entries);
            assert!(pair[1] >= 0);
        }
    }
    // clearing resets the counters and keeps the shape
    batch.clear();
    assert_eq!(batch.entries, 0);
    assert_eq!(batch.feature_count(0), 0);
    assert_eq!(batch.capacity, 3);
}

#[test]
fn feature_rows_follow_entries() {
    let mut batch = Batch::new(2, 32, 2, 2);
    let boards = records(&[1, 2]);
    process(
        &mut batch,
        &boards,
        InputFeatureSetType::Board768,
        BucketingSchemeType::NoBucketing,
    );
    assert_eq!(batch.entries, 2);
    for t in 0..2 {
        let rows: Vec<i64> = batch.features[t].feature_buffer.chunks(2).map(|c| c[0]).collect();
        assert_eq!(rows.len(), 64);
        assert!(rows[..32].iter().all(|&r| r == 0));
        assert!(rows[32..].iter().all(|&r| r == 1));
    }
}

#[test]
fn piece_count_bucket_start_position() {
    let board = start_position();
    assert_eq!(BucketingSchemeType::PieceCount.bucket(&board), 7);
    assert_eq!(BucketingSchemeType::NoBucketing.bucket(&board), 0);
    // start material: 16 + 3*4 + 3*4 + 5*4 + 8*2 = 76, so 76*16/76 = 16, clamped
    assert_eq!(BucketingSchemeType::ModifiedMaterial.bucket(&board), 15);
}

#[test]
fn annotated_board_carries_fields() {
    let record = AnnotatedBoard {
        board: start_position(),
        cp: 42,
        wdl: 1,
    };
    assert_eq!(record.cp, 42);
    assert_eq!(record.wdl, 1);
}

#[test]
fn batch_buffer_shapes_the_generation() {
    let pool = batch_buffer(InputFeatureSetType::HmStmBoard192, 16);
    assert_eq!(pool.len(), BUFFERED_BATCHES);
    for b in &pool {
        assert_eq!(b.capacity, 16);
        assert_eq!(b.tensors_per_board(), 4);
        assert_eq!(b.indices_per_feature(), 2);
        assert_eq!(b.entries, 0);
    }
}

#[test]
fn next_nonempty_skips_empties() {
    let mut pool = batch_buffer(InputFeatureSetType::Board768, 2);
    let boards = records(&[1]);
    process(
        &mut pool[2],
        &boards,
        InputFeatureSetType::Board768,
        BucketingSchemeType::NoBucketing,
    );
    assert_eq!(next_nonempty(&pool, 0), Some(2));
    assert_eq!(next_nonempty(&pool, 3), None);
}
