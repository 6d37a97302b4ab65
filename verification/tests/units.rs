use marlinflow::board::{Color, Piece, Position};
use marlinflow::bucketing::{BucketingSchemeType, ModifiedMaterial, NoBucketing, PieceCount};
use marlinflow::codec::{I16Le, U16Le, U4Array32, U64Le};

fn start_position() -> Position {
    let back = [
        Piece::Rook,
        Piece::Knight,
        Piece::Bishop,
        Piece::Queen,
        Piece::King,
        Piece::Bishop,
        Piece::Knight,
        Piece::Rook,
    ];
    let mut squares: Vec<Option<(Color, Piece)>> = vec![None; 64];
    for f in 0..8 {
        squares[f] = Some((Color::White, back[f]));
        squares[8 + f] = Some((Color::White, Piece::Pawn));
        squares[48 + f] = Some((Color::Black, Piece::Pawn));
        squares[56 + f] = Some((Color::Black, back[f]));
    }
    Position {
        squares,
        side_to_move: Color::White,
        white_short: Some(7),
        white_long: Some(0),
        black_short: Some(7),
        black_long: Some(0),
        ep_file: None,
        halfmove_clock: 0,
        fullmove_number: 1,
    }
}

#[test]
fn u64le_roundtrip() {
    let v = U64Le::new(0x0123_4567_89AB_CDEF);
    assert_eq!(v.get(), 0x0123_4567_89AB_CDEF);
    assert_eq!(v.to_bytes(), 0x0123_4567_89AB_CDEFu64.to_le_bytes());
    let reread = U64Le::from_bytes(&v.to_bytes());
    assert_eq!(reread.get(), v.get());
}

#[test]
fn u16le_roundtrip() {
    let v = U16Le::new(0xBEEF);
    assert_eq!(v.get(), 0xBEEF);
    assert_eq!(v.to_bytes(), vec![0xEF, 0xBE]);
    assert_eq!(U16Le::from_bytes(&v.to_bytes()).get(), 0xBEEF);
}

#[test]
fn i16le_roundtrip() {
    for value in [-32768i16, -1, 0, 1, 32767] {
        let v = I16Le::new(value);
        assert_eq!(v.get(), value);
        assert_eq!(v.to_bytes(), value.to_le_bytes());
        assert_eq!(I16Le::from_bytes(&v.to_bytes()).get(), value);
    }
}

#[test]
fn nibble_array_get_set() {
    let mut nibbles = U4Array32::zeroed();
    for i in 0..32 {
        assert_eq!(nibbles.get(i), 0);
    }
    nibbles.set(0, 0x6);
    nibbles.set(1, 0xE);
    nibbles.set(31, 0x9);
    assert_eq!(nibbles.get(0), 0x6);
    assert_eq!(nibbles.get(1), 0xE);
    assert_eq!(nibbles.get(31), 0x9);
    // the byte layout pairs adjacent slots, low nibble first
    let bytes = nibbles.to_bytes();
    assert_eq!(bytes.len(), 16);
    assert_eq!(bytes[0], 0xE6);
    assert_eq!(bytes[15], 0x90);
}

#[test]
fn bucketing_schemes_agree_with_tags() {
    let board = start_position();
    assert_eq!(
        NoBucketing::bucket(&board),
        BucketingSchemeType::NoBucketing.bucket(&board)
    );
    assert_eq!(
        ModifiedMaterial::bucket(&board),
        BucketingSchemeType::ModifiedMaterial.bucket(&board)
    );
    assert_eq!(
        PieceCount::bucket(&board),
        BucketingSchemeType::PieceCount.bucket(&board)
    );
    assert_eq!(BucketingSchemeType::NoBucketing.bucket_count(), 1);
    assert_eq!(BucketingSchemeType::ModifiedMaterial.bucket_count(), 16);
    assert_eq!(BucketingSchemeType::PieceCount.bucket_count(), 8);
}

#[test]
fn bucket_tracks_material() {
    let mut board = start_position();
    // strip both queens: material falls from 76 to 60, 60 * 16 / 76 = 12
    board.squares[3] = None;
    board.squares[59] = None;
    assert_eq!(BucketingSchemeType::ModifiedMaterial.bucket(&board), 12);
    // thirty occupied squares: (30 - 1) / 4 = 7
    assert_eq!(BucketingSchemeType::PieceCount.bucket(&board), 7);
}
