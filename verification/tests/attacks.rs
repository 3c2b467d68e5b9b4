use thermite::bitboard::{BoardMask, Direction};
use thermite::piece_type::{NonPawnPieceType, SlidingPieceType};
use thermite::player::Player;
use thermite::square::Square;

#[test]
fn south_sliding_attacks_works() {
    let cases: [(BoardMask, BoardMask, BoardMask); 4] = [
        (BoardMask::new(0x0020_0000_0000), BoardMask::new(0x0020_0000_0000), BoardMask::new(0x2020_2020)),
        (BoardMask::new(0x0400_2000_0000), BoardMask::new(0x0400_2000_0000), BoardMask::new(0x0004_0424_2424)),
        (BoardMask::new(0x0002_0004_0020_0000), BoardMask::new(0x0002_0204_0020_0420), BoardMask::new(0x0200_0404_2420)),
        (BoardMask::new(0x0002_0004_0020_0000), BoardMask::new(0x0006_0004_0421_0020), BoardMask::new(0x0202_0602_2222)),
    ];
    for (sliders, occupied, expected) in cases {
        assert_eq!(sliders.sliding_attacks(occupied, Direction::South), expected);
    }
}

#[test]
fn north_sliding_attacks_works() {
    let cases: [(BoardMask, BoardMask, BoardMask); 3] = [
        (BoardMask::new(0x400), BoardMask::new(0x400), BoardMask::new(0x0404_0404_0404_0000)),
        (BoardMask::new(0x42000), BoardMask::new(0x42000), BoardMask::new(0x2424_2424_2420_0000)),
        (BoardMask::new(0x0420_0100), BoardMask::new(0x0400_2000_0421_0100), BoardMask::new(0x0404_2424_2001_0000)),
    ];
    for (sliders, occupied, expected) in cases {
        assert_eq!(sliders.sliding_attacks(occupied, Direction::North), expected);
    }
}

#[test]
fn east_sliding_attacks_works() {
    let cases: [(BoardMask, BoardMask, BoardMask); 4] = [
        (BoardMask::new(0x0010_0000_0000_0000), BoardMask::new(0x0010_0000_0000_0000), BoardMask::new(0x00E0_0000_0000_0000)),
        (BoardMask::new(0x0004_0000_0008_0000), BoardMask::new(0x0004_0000_0008_0000), BoardMask::new(0x00F8_0000_00F0_0000)),
        (BoardMask::new(0x0010_0800_0010_0000), BoardMask::new(0x0010_1800_0090_0000), BoardMask::new(0x00E0_1000_00E0_0000)),
        (BoardMask::new(0x0020_0008_0000_0400), BoardMask::new(0x2020_0048_0000_1404), BoardMask::new(0x00C0_0070_0000_1800)),
    ];
    for (sliders, occupied, expected) in cases {
        assert_eq!(sliders.sliding_attacks(occupied, Direction::East), expected);
    }
}

#[test]
fn west_sliding_attacks_works() {
    let cases: [(BoardMask, BoardMask, BoardMask); 4] = [
        (BoardMask::new(0x2000_0000_0000), BoardMask::new(0x2000_0000_0000), BoardMask::new(0x1F00_0000_0000)),
        (BoardMask::new(0x0008_0000_0040_0000), BoardMask::new(0x0008_0000_0040_0000), BoardMask::new(0x0007_0000_003F_0000)),
        (BoardMask::new(0x0800_0000_0020_2000), BoardMask::new(0x0900_0000_0030_2400), BoardMask::new(0x0700_0000_0010_1C00)),
        (BoardMask::new(0x0020_0004_0020_0000), BoardMask::new(0x0020_1005_0028_0000), BoardMask::new(0x001F_0003_0018_0000)),
    ];
    for (sliders, occupied, expected) in cases {
        assert_eq!(sliders.sliding_attacks(occupied, Direction::West), expected);
    }
}

#[test]
fn north_east_sliding_attacks_works() {
    let cases: [(BoardMask, BoardMask, BoardMask); 4] = [
        (BoardMask::new(0x1000_0000), BoardMask::new(0x1000_0000), BoardMask::new(0x0080_4020_0000_0000)),
        (BoardMask::new(0x0002_0020_0000), BoardMask::new(0x0002_0020_0000), BoardMask::new(0x1008_0480_4000_0000)),
        (BoardMask::new(0x0400_0004_2000), BoardMask::new(0x1000_0410_0004_2000), BoardMask::new(0x1008_0010_8840_0000)),
        (BoardMask::new(0x0200_0800_0010), BoardMask::new(0x2600_0840_0030), BoardMask::new(0x0804_2010_0040_2000)),
    ];
    for (sliders, occupied, expected) in cases {
        assert_eq!(sliders.sliding_attacks(occupied, Direction::NorthEast), expected);
    }
}

#[test]
fn south_west_sliding_attacks_works() {
    let cases: [(BoardMask, BoardMask, BoardMask); 4] = [
        (BoardMask::new(0x0010_0000_0000), BoardMask::new(0x0010_0000_0000), BoardMask::new(0x0804_0201)),
        (BoardMask::new(0x0008_0000_0010_0000), BoardMask::new(0x0008_0000_0010_0000), BoardMask::new(0x0402_0100_0804)),
        (BoardMask::new(0x0004_0020_0000_2000), BoardMask::new(0x0004_0020_0008_2010), BoardMask::new(0x0201_1008_0010)),
        (BoardMask::new(0x0004_0000_8800_0000), BoardMask::new(0x0004_0400_8880_2200), BoardMask::new(0x0201_0044_2200)),
    ];
    for (sliders, occupied, expected) in cases {
        assert_eq!(sliders.sliding_attacks(occupied, Direction::SouthWest), expected);
    }
}

#[test]
fn south_east_sliding_attacks_works() {
    let cases: [(BoardMask, BoardMask, BoardMask); 4] = [
        (BoardMask::new(0x0010_0000_0000), BoardMask::new(0x0010_0000_0000), BoardMask::new(0x2040_8000)),
        (BoardMask::new(0x1002_0000_0000), BoardMask::new(0x1002_0000_0000), BoardMask::new(0x0020_4488_1020)),
        (BoardMask::new(0x0020_0400_0400_0000), BoardMask::new(0x0020_0480_0420_0000), BoardMask::new(0x4088_1028_1020)),
        (BoardMask::new(0x2200_0002_0000), BoardMask::new(0x2220_0026_2000), BoardMask::new(0x0044_8810_2408)),
    ];
    for (sliders, occupied, expected) in cases {
        assert_eq!(sliders.sliding_attacks(occupied, Direction::SouthEast), expected);
    }
}

#[test]
fn cardinal_sliding_attacks_works() {
    let cases: [(BoardMask, BoardMask, BoardMask); 6] = [
        (BoardMask::new(0x1), BoardMask::new(0x1), BoardMask::new(0x0101_0101_0101_01FE)),
        (BoardMask::new(0x80), BoardMask::new(0x80), BoardMask::new(0x8080_8080_8080_807F)),
        (BoardMask::new(0x2000_0000_0000), BoardMask::new(0x2000_0000_0000), BoardMask::new(0x2020_DF20_2020_2020)),
        (BoardMask::new(0x2000_0004_0000), BoardMask::new(0x2000_0004_0000), BoardMask::new(0x2424_DF24_24FB_2424)),
        (BoardMask::new(0x2002_0400_0000), BoardMask::new(0x0022_200a_1400_0400), BoardMask::new(0x0426_DF2D_3B26_2622)),
        (BoardMask::new(0x0040_0002_0010_0000), BoardMask::new(0x0048_400a_0130_0000), BoardMask::new(0x52BA_521D_122F_1212)),
    ];
    for (sliders, occupied, expected) in cases {
        assert_eq!(sliders.cardinal_sliding_attacks(occupied), expected);
    }
}

#[test]
fn ordinal_sliding_attacks() {
    let cases: [(BoardMask, BoardMask, BoardMask); 4] = [
        (BoardMask::new(0x0800_0000_0000), BoardMask::new(0x0800_0000_0000), BoardMask::new(0x2214_0014_2241_8000)),
        (BoardMask::new(0x0800_0040_0000), BoardMask::new(0x0800_0040_0000), BoardMask::new(0x2214_0814_A241_A010)),
        (BoardMask::new(0x0420_0000_2000), BoardMask::new(0x0010_0420_1100_2020), BoardMask::new(0x158B_520E_D9D0_0050)),
        (BoardMask::new(0x0010_0002_0000_0080), BoardMask::new(0x2010_0c06_01a8_0080), BoardMask::new(0x2800_2D40_8528_4000)),
    ];
    for (sliders, occupied, expected) in cases {
        assert_eq!(sliders.ordinal_sliding_attacks(occupied), expected);
    }
}

#[test]
fn king_attacks_works() {
    let cases: [(BoardMask, BoardMask); 3] = [
        (BoardMask(1), BoardMask(0x302u64)),
        (BoardMask(0x0020_0000_0000_u64), BoardMask(0x7050_7000_0000_u64)),
        (BoardMask(0x0080_0000_0000_0000_u64), BoardMask(0xC040_C000_0000_0000_u64)),
    ];
    for (kings, expected) in cases {
        assert_eq!(kings.king_attacks(), expected);
    }
}

#[test]
fn knight_attacks_works() {
    let cases: [(BoardMask, BoardMask); 3] = [
        (BoardMask(0x0400_0000_0000_u64), BoardMask(0x0A11_0011_0A00_0000_u64)),
        (BoardMask(0x0020_0000_0000_u64), BoardMask(0x0050_8800_8850_0000_u64)),
        (BoardMask(0x80u64), BoardMask(0x0040_2000_u64)),
    ];
    for (knights, expected) in cases {
        assert_eq!(knights.knight_attacks(), expected);
    }
}

#[test]
fn pawn_west_attacks_works() {
    let cases: [(BoardMask, Player, BoardMask); 10] = [
        (BoardMask::empty(), Player::White, BoardMask::empty()),
        (BoardMask::empty(), Player::Black, BoardMask::empty()),
        (BoardMask::new(0x0010_0000), Player::White, BoardMask::new(0x0800_0000)),
        (BoardMask::new(0x20000), Player::White, BoardMask::new(0x0100_0000)),
        (BoardMask::new(0x0100_0000), Player::White, BoardMask::empty()),
        (BoardMask::new(0x0010_0000), Player::Black, BoardMask::new(0x800)),
        (BoardMask::new(0x20000), Player::Black, BoardMask::new(0x100)),
        (BoardMask::new(0x0100_0000), Player::Black, BoardMask::empty()),
        (BoardMask::new(0xFF00), Player::White, BoardMask::new(0x007F_0000)),
        (BoardMask::new(0x00FF_0000_0000_0000), Player::Black, BoardMask::new(0x7F00_0000_0000)),
    ];
    for (pawns, player, expected) in cases {
        assert_eq!(pawns.pawn_west_attacks(player), expected);
    }
}

#[test]
fn pawn_east_attacks_works() {
    let cases: [(BoardMask, Player, BoardMask); 8] = [
        (BoardMask::empty(), Player::White, BoardMask::empty()),
        (BoardMask::empty(), Player::Black, BoardMask::empty()),
        (BoardMask::new(0x0010_0000), Player::White, BoardMask::new(0x2000_0000)),
        (BoardMask::new(0x2000_0000), Player::White, BoardMask::new(0x0040_0000_0000)),
        (BoardMask::new(0x8000_0000_0000), Player::White, BoardMask::empty()),
        (BoardMask::new(0x0010_0000), Player::Black, BoardMask::new(0x2000)),
        (BoardMask::new(0x2000_0000), Player::Black, BoardMask::new(0x0040_0000)),
        (BoardMask::new(0x8000_0000_0000), Player::Black, BoardMask::empty()),
    ];
    for (pawns, player, expected) in cases {
        assert_eq!(pawns.pawn_east_attacks(player), expected);
    }
}

#[test]
fn pawn_attacks_works() {
    let cases: [(BoardMask, Player, BoardMask); 7] = [
        (BoardMask::empty(), Player::White, BoardMask::empty()),
        (BoardMask::empty(), Player::Black, BoardMask::empty()),
        (BoardMask::new(0x0800_0000), Player::White, BoardMask::new(0x0014_0000_0000)),
        (BoardMask::new(0x0800_0000), Player::Black, BoardMask::new(0x0014_0000)),
        (BoardMask::new(0x2010_0440_0000), Player::White, BoardMask::new(0x0050_280A_A000_0000)),
        (BoardMask::new(0x2010_0440_0000), Player::Black, BoardMask::new(0x0050_280A_A000)),
        (BoardMask::new(0xFF00), Player::White, BoardMask::new(0x00FF_0000)),
    ];
    for (pawns, player, expected) in cases {
        assert_eq!(pawns.pawn_attacks(player), expected);
    }
}

#[test]
fn pawn_pushes_works() {
    let cases: [(BoardMask, Player, BoardMask); 7] = [
        (BoardMask::new(0x00FF_0000_0000_0000), Player::Black, BoardMask::new(0xFF00_0000_0000)),
        (BoardMask::empty(), Player::White, BoardMask::empty()),
        (BoardMask::empty(), Player::Black, BoardMask::empty()),
        (BoardMask::new(0x0800_0000), Player::White, BoardMask::new(0x0008_0000_0000)),
        (BoardMask::new(0x0800_0000), Player::Black, BoardMask::new(0x80000)),
        (BoardMask::new(0x2010_0440_0000), Player::White, BoardMask::new(0x0020_1004_4000_0000)),
        (BoardMask::new(0x2010_0440_0000), Player::Black, BoardMask::new(0x0020_1004_4000)),
    ];
    for (pawns, player, expected) in cases {
        assert_eq!(pawns.pawn_push(player), expected);
    }
}

#[test]
fn sliding_attacks_works() {
    let cases: [(BoardMask, BoardMask, Direction, BoardMask); 11] = [
        (Square::A1.to_mask(), BoardMask::empty(), Direction::NorthEast, BoardMask::new(0x8040_2010_0804_0200)),
        (Square::A1.to_mask(), BoardMask::new(0xffff), Direction::North, BoardMask::new(0x100)),
        (Square::H1.to_mask(), BoardMask::new(0xffff), Direction::North, BoardMask::new(0x8000)),
        (Square::E4.to_mask(), Square::E4.to_mask(), Direction::North, BoardMask::new(0x1010_1010_0000_0000)),
        (Square::E4.to_mask(), Square::E4.to_mask(), Direction::South, BoardMask::new(0x0010_1010)),
        (Square::E4.to_mask(), Square::E4.to_mask(), Direction::East, BoardMask::new(0xE000_0000)),
        (Square::E4.to_mask(), Square::E4.to_mask(), Direction::West, BoardMask::new(0x0F00_0000)),
        (Square::E4.to_mask(), Square::E4.to_mask(), Direction::NorthEast, BoardMask::new(0x0080_4020_0000_0000)),
        (Square::E4.to_mask(), Square::E4.to_mask(), Direction::SouthWest, BoardMask::new(0x80402)),
        (Square::E4.to_mask(), Square::E4.to_mask(), Direction::NorthWest, BoardMask::new(0x0102_0408_0000_0000)),
        (Square::E4.to_mask(), Square::E4.to_mask(), Direction::SouthEast, BoardMask::new(0x0020_4080)),
    ];
    for (mask, occluded, direction, expected) in cases {
        assert_eq!(mask.sliding_attacks(occluded, direction), expected);
    }
}

#[test]
fn occluded_attacks_mask_works() {
    let cases: [(SlidingPieceType, Square, BoardMask, BoardMask); 21] = [
        (SlidingPieceType::Rook, Square::A1, BoardMask::empty(), BoardMask::new(0x0101_0101_0101_01FE)),
        (SlidingPieceType::Rook, Square::H1, BoardMask::empty(), BoardMask::new(0x8080_8080_8080_807F)),
        (SlidingPieceType::Rook, Square::A1, BoardMask::new(0xFFFF), BoardMask::new(0x102)),
        (SlidingPieceType::Rook, Square::H1, BoardMask::new(0xFFFF), BoardMask::new(0x8040)),
        (SlidingPieceType::Bishop, Square::A1, BoardMask::empty(), BoardMask::new(0x8040_2010_0804_0200)),
        (SlidingPieceType::Rook, Square::B4, BoardMask::new(0x2200_3300_0802), BoardMask::new(0x0202_1D02_0202)),
        (SlidingPieceType::Bishop, Square::D4, BoardMask::full(), BoardMask::new(0x0014_0014_0000)),
        (SlidingPieceType::Bishop, Square::F6, BoardMask::new(0x2000_0000_0000), BoardMask::new(0x8850_0050_8804_0201)),
        (SlidingPieceType::Bishop, Square::H1, BoardMask::new(0x80), BoardMask::new(0x0102_0408_1020_4000)),
        (SlidingPieceType::Bishop, Square::C4, BoardMask::new(0x0020_0140_0402_4004), BoardMask::new(0x0020_110A_000A_1020)),
        (SlidingPieceType::Bishop, Square::G6, BoardMask::new(0x4000_F800_0000), BoardMask::new(0x10A0_00A0_1000_0000)),
        (SlidingPieceType::Rook, Square::D4, BoardMask::full(), BoardMask::new(0x0008_1408_0000)),
        (SlidingPieceType::Rook, Square::F6, BoardMask::new(0x2000_0000_0000), BoardMask::new(0x2020_DF20_2020_2020)),
        (SlidingPieceType::Rook, Square::H1, BoardMask::new(0x80), BoardMask::new(0x8080_8080_8080_807F)),
        (SlidingPieceType::Rook, Square::C4, BoardMask::new(0x0004_2500_1000), BoardMask::new(0x0004_3B04_0404)),
        (SlidingPieceType::Rook, Square::G6, BoardMask::new(0x4000_F800_0000), BoardMask::new(0x4040_BF40_4000_0000)),
        (SlidingPieceType::Queen, Square::D4, BoardMask::full(), BoardMask::new(0x001C_141C_0000)),
        (SlidingPieceType::Queen, Square::D4, BoardMask::new(0x2000_0000_0000), BoardMask::new(0x0809_2A1C_F71C_2A49)),
        (SlidingPieceType::Queen, Square::H1, BoardMask::new(0x80), BoardMask::new(0x8182_8488_90A0_C07F)),
        (SlidingPieceType::Queen, Square::F3, BoardMask::new(0x0038_0062_2000), BoardMask::new(0x00A8_705E_7088)),
        (SlidingPieceType::Queen, Square::G6, BoardMask::new(0x4000_F800_0000), BoardMask::new(0x50E0_BFE0_5000_0000)),
    ];
    for (piece, square, occupied, expected) in cases {
        assert_eq!(BoardMask::sliding_attacks_for(piece, square, occupied), expected);
    }
}

#[test]
fn pieces_never_attack_their_own_square() {
    let pieces = [
        NonPawnPieceType::Knight,
        NonPawnPieceType::Bishop,
        NonPawnPieceType::Rook,
        NonPawnPieceType::Queen,
        NonPawnPieceType::King,
    ];
    for piece in pieces {
        for square in Square::SQUARES {
            assert!((BoardMask::pseudo_attacks_for(piece, square) & square.to_mask()).is_empty());
        }
    }
    let queen = BoardMask::pseudo_attacks_for(NonPawnPieceType::Queen, Square::D4);
    let rook = BoardMask::pseudo_attacks_for(NonPawnPieceType::Rook, Square::D4);
    let bishop = BoardMask::pseudo_attacks_for(NonPawnPieceType::Bishop, Square::D4);
    assert_eq!(queen, rook | bishop);
}
