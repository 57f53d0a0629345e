use mahjong::riichi::{
    AbortiveDrawRuleOverrides, BonusRuleOverrides, MatchRuleOverrides, RedFiveOverrides, RiichiRuleOverrides, ScoringRuleOverrides,
    DealerContinuation, Honba, KuikaeRule, PlacementUma, ProgressError, RiichiPreset,
    RiichiRules, RiichiSticks, RiichiVariant, RoundNumber, SanmaNorthRule, Seat, Suit,
    TableProgress, Wind,
};

#[test]
fn yonma_default_expands_every_rule() {
    let rules = RiichiRules::default();

    assert_eq!(rules.variant, RiichiVariant::Yonma);
    assert_eq!(rules.match_rules.initial_points, 25_000);
    assert_eq!(rules.match_rules.return_points, 25_000);
    assert_eq!(rules.match_rules.first_place_required_points, 30_000);
    assert_eq!(rules.match_rules.thinking_time.base_seconds, 5);
    assert_eq!(rules.match_rules.thinking_time.reserve_seconds, 20);
    assert!(rules.match_rules.tobi);
    assert!(rules.scoring.kokushi_ankan_chankan);
    assert_eq!(rules.match_rules.north, SanmaNorthRule::NukiDora);
    assert_eq!(rules.settlement.noten_payment, 3_000);
    assert_eq!(
        rules.match_rules.dealer_continuation,
        DealerContinuation::WinOrTenpai
    );
    assert_eq!(rules.bonuses.red_fives.total(), 3);
    assert!(!rules.abortive_draws.four_winds);
    assert!(!rules.abortive_draws.four_riichi);
    assert!(rules.calls.kuitan);
    assert_eq!(rules.calls.kuikae, KuikaeRule::Forbidden);
    assert_eq!(
        rules.settlement.uma,
        PlacementUma::Fixed {
            values: vec![30, 10, -10, -30]
        }
    );
}

#[test]
fn sanma_default_removes_impossible_options() {
    let rules = RiichiRules::standard(RiichiVariant::Sanma);

    assert_eq!(rules.bonuses.red_fives.for_suit(Suit::Man), 0);
    assert_eq!(rules.match_rules.north, SanmaNorthRule::NukiDora);
    assert_eq!(rules.settlement.noten_payment, 2_000);
    assert!(rules.scoring.kokushi_ankan_chankan);
    assert_eq!(rules.bonuses.red_fives.total(), 2);
    assert!(!rules.abortive_draws.four_winds);
    assert!(!rules.abortive_draws.four_riichi);
    assert_eq!(
        rules.settlement.uma,
        PlacementUma::Fixed {
            values: vec![30, 0, -30]
        }
    );
}

#[test]
fn thinking_time_converts_to_milliseconds() {
    let rules = RiichiRules::default();
    assert_eq!(rules.match_rules.thinking_time.base_ms(), 5_000);
    assert_eq!(rules.match_rules.thinking_time.reserve_ms(), 20_000);
}

#[test]
fn validates_seats_for_each_variant() {
    assert!(Seat::new(RiichiVariant::Yonma, 3).is_ok());
    assert!(Seat::new(RiichiVariant::Sanma, 2).is_ok());
    assert_eq!(
        Seat::new(RiichiVariant::Sanma, 3),
        Err(ProgressError::InvalidSeat {
            index: 3,
            seat_count: 3,
        })
    );
}

#[test]
fn validates_round_number_for_each_variant() {
    assert!(RoundNumber::new(RiichiVariant::Yonma, 4).is_ok());
    assert!(RoundNumber::new(RiichiVariant::Sanma, 3).is_ok());
    assert!(RoundNumber::new(RiichiVariant::Sanma, 0).is_err());
    assert!(RoundNumber::new(RiichiVariant::Sanma, 4).is_err());
}

#[test]
fn yonma_winds_rotate_from_dealer() {
    let dealer = Seat::new(RiichiVariant::Yonma, 2).expect("valid dealer");
    let progress = TableProgress::east_one(RiichiVariant::Yonma, dealer).expect("valid progress");

    assert_eq!(progress.seat_wind(dealer), Ok(Wind::East));
    assert_eq!(
        progress.seat_wind(Seat::new(RiichiVariant::Yonma, 3).expect("valid seat")),
        Ok(Wind::South)
    );
    assert_eq!(
        progress.seat_wind(Seat::new(RiichiVariant::Yonma, 0).expect("valid seat")),
        Ok(Wind::West)
    );
    assert_eq!(
        progress.seat_wind(Seat::new(RiichiVariant::Yonma, 1).expect("valid seat")),
        Ok(Wind::North)
    );
}

#[test]
fn sanma_has_east_south_and_west_seats() {
    let dealer = Seat::new(RiichiVariant::Sanma, 1).expect("valid dealer");
    let progress = TableProgress::east_one(RiichiVariant::Sanma, dealer).expect("valid progress");

    assert_eq!(progress.seat_wind(dealer), Ok(Wind::East));
    assert_eq!(
        progress.seat_wind(Seat::new(RiichiVariant::Sanma, 2).expect("valid seat")),
        Ok(Wind::South)
    );
    assert_eq!(
        progress.seat_wind(Seat::new(RiichiVariant::Sanma, 0).expect("valid seat")),
        Ok(Wind::West)
    );
}

#[test]
fn table_progress_revalidates_variant_bound_values() {
    let yonma_four = Seat::new(RiichiVariant::Yonma, 3).expect("valid yonma seat");
    let yonma_round_four = RoundNumber::new(RiichiVariant::Yonma, 4).expect("valid yonma round");

    assert!(TableProgress::east_one(RiichiVariant::Sanma, yonma_four).is_err());
    assert!(
        TableProgress::new(
            RiichiVariant::Sanma,
            Wind::East,
            yonma_round_four,
            Seat::new(RiichiVariant::Sanma, 0).expect("valid sanma seat"),
            Honba::zero(),
            RiichiSticks::zero(),
        )
        .is_err()
    );
}

#[test]
fn counters_detect_overflow() {
    assert_eq!(
        Honba::new(u32::MAX).checked_increment(),
        Err(ProgressError::CounterOverflow { counter: "honba" })
    );
    assert_eq!(
        RiichiSticks::new(u32::MAX).checked_deposit(),
        Err(ProgressError::CounterOverflow {
            counter: "riichi sticks",
        })
    );
}

#[test]
fn east_one_starts_without_honba_or_riichi_sticks() {
    let dealer = Seat::new(RiichiVariant::Yonma, 0).expect("valid dealer");
    let progress = TableProgress::east_one(RiichiVariant::Yonma, dealer).expect("valid progress");

    assert_eq!(progress.round_wind(), Wind::East);
    assert_eq!(progress.round_number().value(), 1);
    assert_eq!(progress.dealer(), dealer);
    assert_eq!(progress.honba(), Honba::zero());
    assert_eq!(progress.riichi_sticks(), RiichiSticks::zero());
}

#[test]
fn counters_step_by_one_and_sticks_clear() {
    assert_eq!(Honba::new(2).checked_increment().map(Honba::value), Ok(3));
    let sticks = RiichiSticks::new(4).checked_deposit().expect("deposit");
    assert_eq!(sticks.value(), 5);
    assert_eq!(sticks.cleared().value(), 0);
    assert_eq!(Wind::North.next(), Wind::East);
}

#[test]
fn built_in_defaults_are_valid() {
    RiichiRules::standard(RiichiVariant::Yonma)
        .validate()
        .expect("yonma defaults");
    RiichiRules::standard(RiichiVariant::Sanma)
        .validate()
        .expect("sanma defaults");
}

#[test]
fn validation_thinking_time_accepts_only_the_room_presets() {
    let mut rules = RiichiRules::default();
    rules.match_rules.thinking_time.base_seconds = 10;
    let errors = rules.validate().expect_err("unsupported thinking time");
    assert!(errors.violations().iter().any(|violation| {
        violation.code() == "rules.thinking_time.unsupported"
            && violation.field() == "match_rules.thinking_time"
    }));
}

#[test]
fn noten_payment_must_split_without_seat_order_remainders() {
    let mut yonma = RiichiRules::default();
    yonma.settlement.noten_payment = 1_000;
    let errors = yonma.validate().expect_err("indivisible for one tenpai");
    assert!(
        errors
            .violations()
            .iter()
            .any(|violation| violation.code() == "rules.noten_payment.indivisible")
    );

    let mut sanma = RiichiRules::standard(RiichiVariant::Sanma);
    sanma.settlement.noten_payment = 1_000;
    sanma
        .validate()
        .expect("sanma only divides between one and two");
}

#[test]
fn validates_fixed_uma_shape_and_sum_separately() {
    let mut rules = RiichiRules::default();
    rules.settlement.uma = PlacementUma::Fixed {
        values: vec![30, 10, -10],
    };

    let errors = rules.validate().expect_err("missing placement");
    let codes: Vec<_> = errors
        .violations()
        .iter()
        .map(mahjong::riichi::RuleViolation::code)
        .collect();

    assert!(codes.contains(&"rules.uma.player_count"));
    assert!(codes.contains(&"rules.uma.not_zero_sum"));
}

#[test]
fn rejects_jpml_a_uma_for_sanma() {
    let mut rules = RiichiRules::standard(RiichiVariant::Sanma);
    rules.settlement.uma = PlacementUma::JpmlA;

    let errors = rules.validate().expect_err("unsupported uma");

    assert_eq!(errors.len(), 1);
    assert_eq!(
        errors.violations()[0].code(),
        "rules.uma.unsupported_variant"
    );
}

#[test]
fn violation_messages_name_the_offending_values() {
    let mut rules = RiichiRules::default();
    rules.match_rules.initial_points = 501;
    rules.settlement.uma = PlacementUma::Fixed {
        values: vec![30, 10, -10],
    };
    let errors = rules.validate().expect_err("invalid");
    assert_eq!(errors.len(), 4);
    assert_eq!(
        errors.violations()[0].message(),
        "must be between 1000 and 1000000, got 501"
    );
    assert_eq!(errors.violations()[1].message(), "must be a multiple of 1000, got 501");
    assert_eq!(errors.violations()[2].message(), "must contain 4 entries, got 3");
    assert_eq!(errors.summary(), "rule configuration contains 4 violation(s)");
}

#[test]
fn catalog_ids_and_revisions_are_stable() {
    let metadata: Vec<_> = RiichiPreset::all()
        .into_iter()
        .map(|preset| (preset.id(), preset.revision()))
        .collect();

    assert_eq!(
        metadata,
        vec![("jpml-a", 1), ("saikouisen", 1), ("m-league", 1)]
    );
    assert_eq!(RiichiPreset::find("m-league"), Some(RiichiPreset::MLeague));
    assert_eq!(RiichiPreset::find("unknown"), None);
}

#[test]
fn jpml_a_revision_one_is_locked() {
    let rules = RiichiPreset::JpmlA.rules();

    assert_eq!(rules.match_rules.initial_points, 30_000);
    assert_eq!(rules.match_rules.return_points, 30_000);
    assert!(!rules.match_rules.tobi);
    assert!(!rules.scoring.kiriage_mangan);
    assert!(!rules.scoring.kazoe_yakuman);
    assert_eq!(rules.bonuses.red_fives.total(), 0);
    assert!(!rules.bonuses.ippatsu);
    assert!(!rules.bonuses.ura_dora);
    assert!(!rules.bonuses.kan_dora);
    assert_eq!(rules.settlement.uma, PlacementUma::JpmlA);
}

#[test]
fn saikouisen_revision_one_is_locked() {
    let rules = RiichiPreset::Saikouisen.rules();

    assert_eq!(rules.match_rules.initial_points, 30_000);
    assert_eq!(rules.match_rules.return_points, 30_000);
    assert_eq!(rules.bonuses.red_fives.total(), 0);
    assert!(rules.bonuses.ippatsu);
    assert!(rules.bonuses.ura_dora);
    assert!(rules.bonuses.kan_dora);
    assert_eq!(
        rules.settlement.uma,
        PlacementUma::Fixed {
            values: vec![30, 10, -10, -30]
        }
    );
}

#[test]
fn m_league_revision_one_is_locked() {
    let rules = RiichiPreset::MLeague.rules();

    assert_eq!(rules.match_rules.initial_points, 25_000);
    assert_eq!(rules.match_rules.return_points, 30_000);
    assert_eq!(rules.bonuses.red_fives.for_suit(Suit::Man), 1);
    assert_eq!(rules.bonuses.red_fives.for_suit(Suit::Pin), 1);
    assert_eq!(rules.bonuses.red_fives.for_suit(Suit::Sou), 1);
    assert!(rules.bonuses.ippatsu);
    assert!(rules.bonuses.ura_dora);
    assert!(rules.bonuses.kan_dora);
}

#[test]
fn official_presets_validate() {
    for preset in RiichiPreset::all() {
        assert!(preset.rules().validate().is_ok());
        assert!(!preset.display_name().is_empty());
    }
}

#[test]
fn overrides_replace_only_the_values_they_give() {
    let mut rules = RiichiRules::standard(RiichiVariant::Yonma);
    let before = rules.clone();
    let overrides = RiichiRuleOverrides {
        match_rules: Some(MatchRuleOverrides { tobi: Some(true), ..MatchRuleOverrides::default() }),
        scoring: Some(ScoringRuleOverrides { old_yaku: Some(true), ..ScoringRuleOverrides::default() }),
        bonuses: Some(BonusRuleOverrides {
            red_fives: Some(RedFiveOverrides { pin: Some(0), ..RedFiveOverrides::default() }),
            ..BonusRuleOverrides::default()
        }),
        ..RiichiRuleOverrides::default()
    };
    overrides.apply_to(&mut rules);
    assert!(rules.match_rules.tobi);
    assert!(rules.scoring.old_yaku);
    assert_eq!(rules.bonuses.red_fives.for_suit(Suit::Man), before.bonuses.red_fives.for_suit(Suit::Man));
    assert_eq!(rules.bonuses.red_fives.for_suit(Suit::Pin), 0);
    assert_eq!(rules.match_rules.initial_points, before.match_rules.initial_points);
    assert_eq!(rules.calls, before.calls);
}

#[test]
fn overrides_are_applied_before_validation_reports_them() {
    let mut rules = RiichiRules::standard(RiichiVariant::Sanma);
    let overrides = RiichiRuleOverrides {
        bonuses: Some(BonusRuleOverrides {
            red_fives: Some(RedFiveOverrides { man: Some(5), ..RedFiveOverrides::default() }),
            ..BonusRuleOverrides::default()
        }),
        abortive_draws: Some(AbortiveDrawRuleOverrides { four_winds: Some(true), ..AbortiveDrawRuleOverrides::default() }),
        ..RiichiRuleOverrides::default()
    };
    overrides.apply_to(&mut rules);
    assert_eq!(rules.bonuses.red_fives.for_suit(Suit::Man), 5);
    assert!(rules.abortive_draws.four_winds);
    let errors = rules.validate().expect_err("invalid sanma options");
    assert_eq!(errors.violations().len(), 3);
    let codes: Vec<&str> = errors.violations().iter().map(|violation| violation.code()).collect();
    assert!(codes.contains(&"rules.red_fives.too_many"));
    assert!(codes.contains(&"rules.sanma.red_man_five"));
    assert!(codes.contains(&"rules.sanma.four_winds"));
}
