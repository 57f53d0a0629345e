use std::collections::HashSet;
use std::mem::size_of;

use mahjong::riichi::{
    Honor, Rank, RedFives, RiichiVariant, Suit, Tile, TileFace, TileId, TileKind, TileSet,
    TileSetError,
};

#[test]
fn all_kinds_round_trip_through_index_and_code() {
    for index in 0..TileKind::COUNT as u8 {
        let kind = TileKind::from_index(index).expect("valid index");
        let reparsed: TileKind = kind.to_string().parse().expect("valid code");

        assert_eq!(kind.index(), index as usize);
        assert_eq!(reparsed, kind);
    }
}

#[test]
fn suited_kind_exposes_suit_and_rank() {
    let kind = TileKind::suited(Suit::Pin, Rank::new(7).expect("valid rank"));

    assert_eq!(kind.suit(), Some(Suit::Pin));
    assert_eq!(kind.rank().map(Rank::value), Some(7));
    assert!(!kind.is_honor());
}

#[test]
fn honor_kind_has_no_suit_or_rank() {
    let kind = TileKind::honor(Honor::Green);

    assert_eq!(kind.to_string(), "6z");
    assert_eq!(kind.honor_value(), Some(Honor::Green));
    assert_eq!(kind.suit(), None);
    assert_eq!(kind.rank(), None);
    assert!(kind.is_honor());
}

#[test]
fn parses_red_five_as_tile_face() {
    let face: TileFace = "0s".parse().expect("valid red five");

    assert!(face.is_red());
    assert_eq!(face.kind().suit(), Some(Suit::Sou));
    assert_eq!(face.kind().rank(), Some(Rank::five()));
    assert_eq!(face.to_string(), "0s");
}

#[test]
fn rejects_invalid_codes() {
    for code in ["", "10m", "0z", "8z", "5x", "０m", "M5"] {
        assert!(
            code.parse::<TileFace>().is_err(),
            "{code} should be rejected"
        );
    }
}

#[test]
fn rejects_red_non_five() {
    let result = TileFace::new(
        TileKind::suited(Suit::Man, Rank::new(4).expect("valid rank")),
        true,
    );

    assert!(result.is_err());
}

#[test]
fn tile_keeps_physical_identity_separate_from_face() {
    let kind = TileKind::suited(Suit::Man, Rank::five());
    let tile = Tile::new(TileId::new(42), kind, true).expect("valid red tile");

    assert_eq!(tile.id().value(), 42);
    assert_eq!(tile.kind(), kind);
    assert!(tile.is_red());
    assert_eq!(tile.to_string(), "0m");
}

#[test]
fn hot_path_types_remain_compact() {
    assert_eq!(size_of::<TileKind>(), 1);
    assert_eq!(size_of::<Tile>(), 4);
}

#[test]
fn red_kind_code_is_not_a_tile_kind() {
    assert!("0p".parse::<TileKind>().is_err());
    assert_eq!("7z".parse::<TileKind>(), Ok(TileKind::honor(Honor::Red)));
    assert_eq!(TileKind::from_index(34).is_err(), true);
    assert_eq!(Honor::White.code(), 5);
}

#[test]
fn yonma_standard_set_has_136_tiles_and_three_red_fives() {
    let set = TileSet::standard(RiichiVariant::Yonma);

    assert_eq!(set.len(), 136);
    assert_eq!(set.red_fives().total(), 3);
    assert_eq!(set.red_count(Suit::Man), 1);
    assert_eq!(set.red_count(Suit::Pin), 1);
    assert_eq!(set.red_count(Suit::Sou), 1);

    for index in 0..TileKind::COUNT as u8 {
        let kind = TileKind::from_index(index).expect("valid kind");
        assert_eq!(set.kind_count(kind), 4, "{} should have four copies", kind.to_string());
    }
}

#[test]
fn sanma_standard_set_removes_two_through_eight_man() {
    let set = TileSet::standard(RiichiVariant::Sanma);

    assert_eq!(set.len(), 108);
    assert_eq!(set.red_fives().total(), 2);
    for rank_value in 1..=9 {
        let kind = TileKind::suited(Suit::Man, Rank::new(rank_value).expect("rank in range"));
        let expected = if rank_value == 1 || rank_value == 9 {
            4
        } else {
            0
        };
        assert_eq!(
            set.kind_count(kind),
            expected,
            "unexpected count for {}",
            kind.to_string()
        );
    }
}

#[test]
fn custom_red_fives_replace_normal_fives() {
    let red_fives = RedFives::new(2, 0, 4).expect("valid red configuration");
    let set = TileSet::new(RiichiVariant::Yonma, red_fives).expect("valid tile set");

    assert_eq!(set.red_count(Suit::Man), 2);
    assert_eq!(set.red_count(Suit::Pin), 0);
    assert_eq!(set.red_count(Suit::Sou), 4);
    for suit in [Suit::Man, Suit::Pin, Suit::Sou] {
        assert_eq!(
            set.kind_count(TileKind::suited(suit, Rank::five())),
            4,
            "red tiles still count as the same five kind"
        );
    }
}

#[test]
fn every_physical_tile_id_is_unique() {
    for variant in [RiichiVariant::Yonma, RiichiVariant::Sanma] {
        let set = TileSet::standard(variant);
        let ids: HashSet<_> = set.tiles().iter().map(|tile| tile.id()).collect();

        assert_eq!(ids.len(), set.len());
    }
}

#[test]
fn rejects_more_than_four_red_fives() {
    let error = RedFives::new(0, 5, 0).expect_err("five red copies are impossible");

    assert_eq!(
        error,
        TileSetError::TooManyRedFives {
            suit: Suit::Pin,
            count: 5,
        }
    );
}

#[test]
fn rejects_red_man_five_in_sanma() {
    let red_fives = RedFives::new(1, 1, 1).expect("valid copy counts");
    let error = TileSet::new(RiichiVariant::Sanma, red_fives).expect_err("five-man is removed");

    assert_eq!(error, TileSetError::SanmaCannotContainRedManFive);
}
