use std::collections::HashSet;

use mahjong::riichi::{RiichiVariant, TileId, TileSet, Wall, WallError, WallSeed};

fn fixed_seed(value: u8) -> WallSeed {
    WallSeed::from_bytes([value; 32])
}

#[test]
fn wall_seed_debug_output_never_reveals_secret_bytes() {
    let seed = fixed_seed(0xab);
    let output = seed.redacted();

    assert_eq!(output, "WallSeed([REDACTED])");
    assert!(!output.contains("ab"));
}

#[test]
fn production_seed_comes_from_operating_system() {
    let seed = WallSeed::generate().expect("operating-system random source is available");

    assert_eq!(seed.expose_bytes().len(), 32);
}

#[test]
fn same_seed_reproduces_identical_wall() {
    let seed = fixed_seed(7);
    let first = Wall::new(TileSet::standard(RiichiVariant::Yonma), &seed);
    let second = Wall::new(TileSet::standard(RiichiVariant::Yonma), &seed);

    assert_eq!(first.ordered_tiles(), second.ordered_tiles());
}

#[test]
fn different_seed_changes_wall_order() {
    let first = Wall::new(TileSet::standard(RiichiVariant::Yonma), &fixed_seed(1));
    let second = Wall::new(TileSet::standard(RiichiVariant::Yonma), &fixed_seed(2));

    assert_ne!(first.ordered_tiles(), second.ordered_tiles());
}

#[test]
fn fixed_seed_has_stable_shuffle_fixture() {
    let wall = Wall::new(TileSet::standard(RiichiVariant::Yonma), &fixed_seed(0));
    let first_ids: Vec<_> = wall
        .ordered_tiles()
        .iter()
        .take(12)
        .map(|tile| tile.id().value())
        .collect();

    assert_eq!(first_ids, [84, 8, 6, 17, 15, 33, 50, 80, 135, 76, 52, 108]);
}

#[test]
fn variants_reserve_fourteen_tile_dead_wall() {
    for variant in [RiichiVariant::Yonma, RiichiVariant::Sanma] {
        let wall = Wall::new(TileSet::standard(variant), &fixed_seed(3));

        assert_eq!(wall.tile_count(), variant.tile_count());
        assert_eq!(wall.remaining_live_draws(), variant.tile_count() - 14);
        assert_eq!(wall.current_dora_indicators().len(), 1);
        assert_eq!(wall.matching_ura_dora_indicators().len(), 1);
    }
}

#[test]
fn live_wall_draws_each_tile_at_most_once() {
    let mut wall = Wall::new(TileSet::standard(RiichiVariant::Yonma), &fixed_seed(4));
    let mut ids = HashSet::new();

    while let Some(tile) = wall.draw_live() {
        assert!(ids.insert(tile.id()));
    }

    assert_eq!(ids.len(), 122);
    assert_eq!(wall.remaining_live_draws(), 0);
    assert_eq!(wall.draw_live(), None);
}

#[test]
fn each_rinshan_draw_reduces_live_draw_capacity() {
    let mut wall = Wall::new(TileSet::standard(RiichiVariant::Yonma), &fixed_seed(5));
    let initial = wall.remaining_live_draws();
    let mut rinshan_ids = HashSet::new();

    for expected_count in 1..=4 {
        let tile = wall.draw_rinshan().expect("rinshan tile available");
        assert!(rinshan_ids.insert(tile.id()));
        assert_eq!(wall.rinshan_draw_count(), expected_count);
        assert_eq!(
            wall.remaining_live_draws(),
            initial - usize::from(expected_count)
        );
    }

    assert_eq!(wall.draw_rinshan(), Err(WallError::RinshanExhausted));
}

#[test]
fn dora_and_ura_indicators_are_paired_and_bounded() {
    let mut wall = Wall::new(TileSet::standard(RiichiVariant::Yonma), &fixed_seed(6));
    let mut indicator_ids: HashSet<TileId> = wall
        .current_dora_indicators()
        .into_iter()
        .map(|tile| tile.id())
        .collect();

    for expected_count in 2..=5 {
        let tile = wall.reveal_next_dora().expect("indicator available");
        assert!(indicator_ids.insert(tile.id()));
        assert_eq!(wall.revealed_dora_count(), expected_count);
        assert_eq!(
            wall.matching_ura_dora_indicators().len(),
            usize::from(expected_count)
        );
    }

    assert_eq!(
        wall.reveal_next_dora(),
        Err(WallError::DoraIndicatorsExhausted)
    );
    let ura_ids: HashSet<_> = wall
        .matching_ura_dora_indicators()
        .into_iter()
        .map(|tile| tile.id())
        .collect();
    assert!(indicator_ids.is_disjoint(&ura_ids));
}

#[test]
fn dead_wall_partitions_do_not_overlap() {
    let seed = fixed_seed(9);
    let mut wall = Wall::new(TileSet::standard(RiichiVariant::Yonma), &seed);
    for _ in 1..5 {
        wall.reveal_next_dora().expect("indicator available");
    }
    let indicators: HashSet<_> = wall
        .current_dora_indicators()
        .into_iter()
        .chain(wall.matching_ura_dora_indicators())
        .map(|tile| tile.id())
        .collect();
    let rinshan: HashSet<_> = (0..4)
        .map(|_| wall.draw_rinshan().expect("rinshan available").id())
        .collect();

    assert_eq!(indicators.len(), 10);
    assert_eq!(rinshan.len(), 4);
    assert!(indicators.is_disjoint(&rinshan));

    let mut live_wall = Wall::new(TileSet::standard(RiichiVariant::Yonma), &seed);
    let live_ids: HashSet<_> = std::iter::from_fn(|| live_wall.draw_live())
        .map(|tile| tile.id())
        .collect();
    assert!(indicators.is_disjoint(&live_ids));
    assert!(rinshan.is_disjoint(&live_ids));
}

#[test]
fn live_wall_is_exhausted_with_rinshan_draws_outstanding() {
    let mut wall = Wall::new(TileSet::standard(RiichiVariant::Sanma), &fixed_seed(11));
    while wall.draw_live().is_some() {}
    assert_eq!(wall.draw_rinshan(), Err(WallError::LiveWallExhausted));
    let found = wall.ordered_tiles()[0];
    assert_eq!(wall.tile_by_id(found.id()), Some(found));
    assert_eq!(wall.tile_by_id(TileId::new(5000)), None);
}

#[test]
fn a_seed_reproduces_the_shuffle() {
    let first = Wall::new(TileSet::standard(RiichiVariant::Yonma), &fixed_seed(5));
    let second = Wall::new(TileSet::standard(RiichiVariant::Yonma), &fixed_seed(5));
    let other = Wall::new(TileSet::standard(RiichiVariant::Yonma), &fixed_seed(6));
    assert_eq!(first.ordered_tiles(), second.ordered_tiles());
    assert_ne!(first.ordered_tiles(), other.ordered_tiles());
}
