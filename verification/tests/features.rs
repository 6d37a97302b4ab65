use marlinflow::batch::{Batch, VALUE_UNIT};
use marlinflow::board::{Color, Piece, Position};
use marlinflow::features::InputFeatureSetType;

fn start_position() -> Position {
    let back = [
        Piece::Rook,
        Piece::Knight,
        Piece::Bishop,
        Piece::Queen,
        Piece::King,
        Piece::Bishop,
        Piece::Knight,
        Piece::Rook,
    ];
    let mut squares: Vec<Option<(Color, Piece)>> = vec![None; 64];
    for f in 0..8 {
        squares[f] = Some((Color::White, back[f]));
        squares[8 + f] = Some((Color::White, Piece::Pawn));
        squares[48 + f] = Some((Color::Black, Piece::Pawn));
        squares[56 + f] = Some((Color::Black, back[f]));
    }
    Position {
        squares,
        side_to_move: Color::White,
        white_short: Some(7),
        white_long: Some(0),
        black_short: Some(7),
        black_long: Some(0),
        ep_file: None,
        halfmove_clock: 0,
        fullmove_number: 1,
    }
}

fn all_sets() -> Vec<InputFeatureSetType> {
    vec![
        InputFeatureSetType::Board768,
        InputFeatureSetType::HalfKp,
        InputFeatureSetType::HalfKa,
        InputFeatureSetType::HalfKaCuda,
        InputFeatureSetType::HmStmBoard192,
        InputFeatureSetType::PhasedHmStmBoard192,
        InputFeatureSetType::PhasedStmBoard384,
    ]
}

fn project(set: InputFeatureSetType, board: &Position) -> Batch {
    let mut batch = Batch::new(
        4,
        set.max_features(),
        set.indices_per_feature(),
        set.tensors_per_board(),
    );
    let entry = batch.make_entry(0, 1, 0);
    set.add_features(board, &mut batch, entry);
    batch
}

#[test]
fn projection_deterministic() {
    let board = start_position();
    for set in all_sets() {
        let b1 = project(set, &board);
        let b2 = project(set, &board);
        for t in 0..set.tensors_per_board() {
            assert_eq!(b1.features[t].feature_buffer, b2.features[t].feature_buffer);
            assert_eq!(b1.features[t].values, b2.features[t].values);
        }
    }
}

#[test]
fn feature_counts_within_bounds() {
    let board = start_position();
    for set in all_sets() {
        let batch = project(set, &board);
        for t in 0..set.tensors_per_board() {
            assert!(batch.feature_count(t) <= set.max_features());
        }
    }
}

#[test]
fn board768_start_position_features() {
    let board = start_position();
    let batch = project(InputFeatureSetType::Board768, &board);
    // exactly 32 features per perspective, all with the unit value
    assert_eq!(batch.feature_count(0), 32);
    assert_eq!(batch.feature_count(1), 32);
    assert!(batch.features[0].values.iter().all(|&v| v == VALUE_UNIT));
    // the sparse pairs: (row, feature), row 0 throughout
    let stm: Vec<(i64, i64)> = batch.features[0]
        .feature_buffer
        .chunks(2)
        .map(|c| (c[0], c[1]))
        .collect();
    let nstm: Vec<(i64, i64)> = batch.features[1]
        .feature_buffer
        .chunks(2)
        .map(|c| (c[0], c[1]))
        .collect();
    assert!(stm.iter().all(|&(row, _)| row == 0));
    // each white pawn on square s appears as s in the side-to-move lane
    // and as 384 + (s ^ 56) in the other lane
    for s in 8..16i64 {
        assert!(stm.iter().any(|&(_, f)| f == s));
        assert!(nstm.iter().any(|&(_, f)| f == 384 + (s ^ 56)));
    }
}

#[test]
fn board768_perspective_symmetry() {
    let board = start_position();
    let mirrored = board.mirror();
    let lanes = project(InputFeatureSetType::Board768, &board);
    let mirrored_lanes = project(InputFeatureSetType::Board768, &mirrored);
    // the other-side lane of the board equals the side-to-move lane of
    // its color-swapped rank-flip, as index multisets
    let mut nstm: Vec<i64> = lanes.features[1]
        .feature_buffer
        .chunks(2)
        .map(|c| c[1])
        .collect();
    let mut mirrored_stm: Vec<i64> = mirrored_lanes.features[0]
        .feature_buffer
        .chunks(2)
        .map(|c| c[1])
        .collect();
    nstm.sort();
    mirrored_stm.sort();
    assert_eq!(nstm, mirrored_stm);
}

#[test]
fn halfkp_excludes_kings() {
    let board = start_position();
    let batch = project(InputFeatureSetType::HalfKp, &board);
    assert_eq!(batch.feature_count(0), 30);
    assert_eq!(batch.feature_count(1), 30);
}

#[test]
fn halfka_cuda_pads_to_max() {
    let mut board = start_position();
    // clear the white queen so padding is visible: 31 real features
    board.squares[3] = None;
    let batch = project(InputFeatureSetType::HalfKaCuda, &board);
    for t in 0..2 {
        assert_eq!(batch.features[t].feature_buffer.len(), 32);
        assert_eq!(batch.features[t].feature_buffer[31], -1);
        assert_ne!(batch.features[t].feature_buffer[30], -1);
    }
}

#[test]
fn phased_values_split_phase() {
    let board = start_position();
    let batch = project(InputFeatureSetType::PhasedStmBoard384, &board);
    // start position phase: 4 knights + 4 bishops + 2*4 rooks + 4*2 queens = 24
    let values = &batch.features[1].values;
    assert!(!values.is_empty());
    for pair in values.chunks(2) {
        assert_eq!(pair[0], 24);
        assert_eq!(pair[1], VALUE_UNIT - 24);
    }
    // features come in base/base+384 pairs
    let ids: Vec<i64> = batch.features[1]
        .feature_buffer
        .chunks(2)
        .map(|c| c[1])
        .collect();
    for pair in ids.chunks(2) {
        assert_eq!(pair[1], pair[0] + 384);
    }
}

#[test]
fn hm192_lanes_split_by_half_and_side() {
    let board = start_position();
    let batch = project(InputFeatureSetType::HmStmBoard192, &board);
    // sixteen pieces per side split evenly across the two board halves
    for t in 0..4 {
        assert_eq!(batch.feature_count(t), 8);
    }
    for t in 0..4 {
        for chunk in batch.features[t].feature_buffer.chunks(2) {
            assert!(chunk[1] >= 0 && chunk[1] < 192);
        }
    }
}
