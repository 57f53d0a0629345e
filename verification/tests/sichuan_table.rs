use std::collections::HashSet;

use mahjong::sichuan::{
    full_tile_set, Dice, Discard, ExchangeDirection, MeldKind, ProgressError, Rank, Seat,
    SichuanRules, Suit, TableProgress, Tile, TileId, TileKind, Wall, WallError, WallSeed,
    WALL_TILE_COUNT,
};

fn kind(code: &str) -> TileKind {
    code.parse().expect("valid tile code")
}

fn seat(index: u8) -> Seat {
    Seat::new(index).expect("valid seat")
}

fn fixed_seed(value: u8) -> WallSeed {
    WallSeed::from_bytes([value; 32])
}

fn ordered_wall(dealer: Seat, dice: Dice) -> Wall {
    Wall::with_dice(dealer, full_tile_set(), dice)
}

#[test]
fn tile_codes_round_trip() {
    for tile in full_tile_set() {
        let code = tile.to_string();
        assert_eq!(code.parse::<TileKind>().expect("valid code"), tile.kind());
    }
}

#[test]
fn full_tile_set_holds_four_of_each_suited_kind_only() {
    let tiles = full_tile_set();
    assert_eq!(tiles.len(), 108);
    let mut counts = [0_u8; 34];
    for tile in &tiles {
        counts[tile.kind().index()] += 1;
        assert!(!tile.kind().is_honor());
    }
    assert!(counts[..27].iter().all(|count| *count == 4));
    assert!(counts[27..].iter().all(|count| *count == 0));
}

#[test]
fn tile_ids_are_unique() {
    let mut ids: Vec<u16> = full_tile_set()
        .iter()
        .map(|tile| tile.id().value())
        .collect();
    ids.sort_unstable();
    ids.dedup();
    assert_eq!(ids.len(), 108);
}

#[test]
fn suited_kinds_expose_suit_and_rank() {
    let five_pin = TileKind::suited(Suit::Pin, Rank::new(5).expect("valid rank"));
    assert_eq!(five_pin.suit(), Some(Suit::Pin));
    assert_eq!(five_pin.rank().map(Rank::value), Some(5));
    assert!(!five_pin.is_honor());
    assert_eq!(kind("1m").index(), 0);
    assert_eq!(kind("9s").index(), 26);
}

#[test]
fn seats_are_bounded_to_four_players() {
    assert!(Seat::new(3).is_ok());
    assert_eq!(Seat::new(4), Err(ProgressError::InvalidSeat { index: 4 }));
}

#[test]
fn seats_walk_counter_clockwise_and_wrap() {
    assert_eq!(seat(3).next(), seat(0));
    assert_eq!(seat(1).offset_by(3), seat(0));
    assert_eq!(seat(2).offset_by(0), seat(2));
    assert_eq!(seat(3).distance_to(seat(1)), 2);
    assert_eq!(seat(1).distance_to(seat(1)), 0);
}

#[test]
fn the_opening_table_starts_at_hand_zero_with_east_dealing() {
    let progress = TableProgress::opening();
    assert_eq!(progress.hand_index(), 0);
    assert_eq!(progress.dealer(), seat(0));
    assert!(!progress.is_final_hand());
}

#[test]
fn the_next_dealer_is_the_first_winner_of_the_previous_hand() {
    let mut progress = TableProgress::opening();
    progress.advance(Some(seat(2))).expect("hand advances");
    assert_eq!(progress.hand_index(), 1);
    assert_eq!(progress.dealer(), seat(2));
}

#[test]
fn progress_a_void_hand_keeps_the_same_dealer() {
    let mut progress = TableProgress::opening();
    progress.advance(None).expect("hand advances");
    assert_eq!(progress.hand_index(), 1);
    assert_eq!(progress.dealer(), seat(0));
}

#[test]
fn the_fourth_hand_is_final() {
    let mut progress = TableProgress::opening();
    for _ in 0..3 {
        progress.advance(Some(seat(1))).expect("hand advances");
    }
    assert_eq!(progress.hand_index(), 3);
    assert!(progress.is_final_hand());
}

#[test]
fn progress_errors_explain_themselves() {
    assert_eq!(
        ProgressError::InvalidSeat { index: 7 }.message(),
        "seat index 7 is outside a 4-player table"
    );
    assert_eq!(
        ProgressError::CounterOverflow { counter: "hand index" }.message(),
        "hand index counter overflow"
    );
}

#[test]
fn standard_matches_the_documented_defaults() {
    let rules = SichuanRules::standard();
    assert_eq!(rules.match_rules.thinking_time.base_seconds, 5);
    assert_eq!(rules.match_rules.thinking_time.reserve_seconds, 20);
    assert_eq!(rules.match_rules.thinking_time.base_ms(), 5_000);
    assert_eq!(rules.match_rules.thinking_time.reserve_ms(), 20_000);
}

#[test]
fn standard_rules_validate() {
    SichuanRules::standard().validate().expect("standard rules");
}

#[test]
fn sichuan_thinking_time_rejects_other_presets() {
    let mut rules = SichuanRules::standard();
    rules.match_rules.thinking_time.base_seconds = 10;
    let errors = rules.validate().expect_err("unsupported thinking time");
    assert_eq!(errors.len(), 1);
    assert!(errors.violations().iter().any(|violation| {
        violation.code() == "rules.thinking_time.unsupported"
            && violation.field() == "match_rules.thinking_time"
    }));
}

#[test]
fn every_supported_thinking_time_validates() {
    for (base, reserve) in [(5, 0), (5, 20), (5, 60), (15, 60)] {
        let mut rules = SichuanRules::standard();
        rules.match_rules.thinking_time.base_seconds = base;
        rules.match_rules.thinking_time.reserve_seconds = reserve;
        rules
            .validate()
            .unwrap_or_else(|_| panic!("{base}+{reserve} should be accepted"));
    }
}

#[test]
fn only_kans_draw_a_replacement_tile() {
    assert!(MeldKind::OpenKan.is_kan());
    assert!(MeldKind::ConcealedKan.is_kan());
    assert!(MeldKind::AddedKan.is_kan());
    assert!(!MeldKind::Pon.is_kan());
    assert_eq!(MeldKind::Pon.tile_count(), 3);
    assert_eq!(MeldKind::ConcealedKan.tile_count(), 4);
}

#[test]
fn discards_remember_whether_they_were_called() {
    let mut discard = Discard::new(Tile::new(TileId::new(0), kind("1m")));
    assert!(!discard.called());
    discard.mark_called();
    assert!(discard.called());
}

#[test]
fn same_seed_reproduces_identical_wall_and_dice() {
    let seed = fixed_seed(7);
    let first = Wall::new(seat(0), &seed);
    let second = Wall::new(seat(0), &seed);

    assert_eq!(first.ordered_tiles(), second.ordered_tiles());
    assert_eq!(first.dice(), second.dice());
}

#[test]
fn dice_stay_within_one_to_six() {
    for value in 0..32_u8 {
        let wall = Wall::new(seat(0), &fixed_seed(value));
        let dice = wall.dice();

        assert!((1..=6).contains(&dice.first()));
        assert!((1..=6).contains(&dice.second()));
    }
}

#[test]
fn break_seat_counts_the_dealer_as_one_counter_clockwise() {
    assert_eq!(ordered_wall(seat(0), Dice::new(1, 1)).break_seat(), seat(1));
    assert_eq!(ordered_wall(seat(0), Dice::new(2, 3)).break_seat(), seat(0));
    assert_eq!(ordered_wall(seat(2), Dice::new(3, 4)).break_seat(), seat(0));
    assert_eq!(ordered_wall(seat(3), Dice::new(6, 6)).break_seat(), seat(2));
}

#[test]
fn exchange_direction_follows_the_dice_sum() {
    for sum in [2, 6, 10] {
        assert_eq!(ExchangeDirection::from_dice_sum(sum), ExchangeDirection::CounterClockwise);
    }
    for sum in [4, 8, 12] {
        assert_eq!(ExchangeDirection::from_dice_sum(sum), ExchangeDirection::Clockwise);
    }
    for sum in [3, 5, 7, 9, 11] {
        assert_eq!(ExchangeDirection::from_dice_sum(sum), ExchangeDirection::Opposite);
    }
}

#[test]
fn exchange_direction_has_half_opposite_and_quarter_each_side() {
    let mut counter_clockwise = 0;
    let mut clockwise = 0;
    let mut opposite = 0;
    for first in 1..=6 {
        for second in 1..=6 {
            match ExchangeDirection::from_dice_sum(first + second) {
                ExchangeDirection::CounterClockwise => counter_clockwise += 1,
                ExchangeDirection::Clockwise => clockwise += 1,
                ExchangeDirection::Opposite => opposite += 1,
            }
        }
    }
    assert_eq!(counter_clockwise, 9);
    assert_eq!(clockwise, 9);
    assert_eq!(opposite, 18);
}

#[test]
fn exchange_direction_routes_every_seat_to_one_recipient() {
    for direction in [
        ExchangeDirection::CounterClockwise,
        ExchangeDirection::Clockwise,
        ExchangeDirection::Opposite,
    ] {
        let mut recipients: Vec<Seat> = Seat::all()
            .into_iter()
            .map(|seat| direction.recipient_of(seat))
            .collect();
        for seat in Seat::all() {
            assert_ne!(direction.recipient_of(seat), seat);
        }
        recipients.sort_by_key(|seat| seat.index());
        assert_eq!(recipients, Seat::all());
    }
    assert_eq!(ExchangeDirection::CounterClockwise.recipient_of(seat(1)), seat(2));
    assert_eq!(ExchangeDirection::Clockwise.recipient_of(seat(3)), seat(2));
}

#[test]
fn draw_order_is_plain_sequential() {
    let mut wall = ordered_wall(seat(0), Dice::new(2, 5));

    let drawn: Vec<_> = (0..3)
        .map(|_| wall.draw().expect("wall is not empty"))
        .collect();
    let expected: Vec<_> = (0..3).map(|index| wall.ordered_tiles()[index]).collect();
    assert_eq!(drawn, expected);
}

#[test]
fn every_tile_is_drawable() {
    let mut wall = Wall::new(seat(1), &fixed_seed(11));
    let mut drawn = HashSet::new();

    assert_eq!(wall.remaining_draws(), WALL_TILE_COUNT);
    while let Some(tile) = wall.draw() {
        assert!(drawn.insert(tile.id()));
    }

    assert_eq!(drawn.len(), WALL_TILE_COUNT);
    assert_eq!(wall.remaining_draws(), 0);
    assert_eq!(wall.draw(), None);
}

#[test]
fn kan_tiles_take_the_upper_tile_of_the_last_stack_first() {
    let mut wall = Wall::new(seat(0), &fixed_seed(12));
    let total = wall.remaining_draws();
    let (upper, lower) = {
        let mut probe = Wall::new(seat(0), &fixed_seed(12));
        let mut tiles = Vec::new();
        while let Some(tile) = probe.draw() {
            tiles.push(tile);
        }
        (tiles[tiles.len() - 2], tiles[tiles.len() - 1])
    };

    let first = wall.draw_from_back().expect("kan tile available");
    assert_eq!(wall.completed_rinshan_draws(), 1);
    let second = wall.draw_from_back().expect("kan tile available");

    assert_eq!(first, upper);
    assert_eq!(second, lower);
    assert_eq!(wall.completed_rinshan_draws(), 2);
    assert_eq!(wall.remaining_draws(), total - 2);
}

#[test]
fn front_and_back_draws_never_hand_out_the_same_tile() {
    let mut wall = Wall::new(seat(3), &fixed_seed(13));
    let mut seen = HashSet::new();
    let mut from_back = true;

    loop {
        let tile = if from_back {
            match wall.draw_from_back() {
                Ok(tile) => tile,
                Err(WallError::Exhausted) => break,
            }
        } else {
            match wall.draw() {
                Some(tile) => tile,
                None => break,
            }
        };
        assert!(seen.insert(tile.id()));
        from_back = !from_back;
    }

    assert_eq!(seen.len(), WALL_TILE_COUNT);
    assert_eq!(wall.draw_from_back(), Err(WallError::Exhausted));
}

#[test]
fn tile_lookup_by_identity_finds_the_tile() {
    let wall = ordered_wall(seat(0), Dice::new(3, 3));
    let tile = wall.tile_by_id(TileId::new(9)).expect("present");
    assert_eq!(tile.kind(), kind("3m"));
    assert_eq!(wall.tile_by_id(TileId::new(500)), None);
    assert_eq!(wall.exchange_direction(), ExchangeDirection::CounterClockwise);
}

#[test]
fn thinking_time_accepts_only_the_room_presets() {
    let mut rules = SichuanRules::standard();
    rules.match_rules.thinking_time.base_seconds = 10;

    let errors = rules.validate().expect_err("unsupported thinking time");

    assert!(errors.violations().iter().any(|violation| {
        violation.code() == "rules.thinking_time.unsupported"
            && violation.field() == "match_rules.thinking_time"
    }));
}

#[test]
fn seed_debug_output_never_reveals_secret_bytes() {
    let output = WallSeed::from_bytes([0xab; 32]).redacted().to_string();

    assert_eq!(output, "WallSeed([REDACTED])");
    assert!(!output.contains("ab"));
}

#[test]
fn advancing_after_the_fourth_hand_is_refused() {
    let mut progress = TableProgress::opening();
    for _ in 0..4 {
        progress.advance(None).expect("hand advances");
    }
    assert_eq!(progress.hand_index(), 4);
    let before = progress;
    assert!(progress.advance(Some(seat(2))).is_err());
    assert_eq!(progress, before);
}

#[test]
fn a_seed_reproduces_the_wall_and_the_dice() {
    let first = Wall::new(seat(0), &fixed_seed(9));
    let second = Wall::new(seat(0), &fixed_seed(9));
    assert_eq!(first.ordered_tiles(), second.ordered_tiles());
    assert_eq!(first.dice(), second.dice());
}
