use mahjong::riichi::scoring::fu::round_up;
use mahjong::riichi::scoring::match_result::{placement_uma, ranking_order};
use mahjong::riichi::scoring::points::base_points;
use mahjong::riichi::scoring::counts::TileCounts;
use mahjong::riichi::scoring::shape::{waiting_tiles, winning_shapes, WinningShape};
use mahjong::riichi::scoring::{
    BonusHan, HandOutcome, HandSettlement, HandShape, Limit, MatchEndReason, Payment,
    RiichiMatch, RiichiScorer, ScoredWinner, SettlementError, WaitKind, WinEvaluation, Yaku,
    YakuValue,
};
use mahjong::riichi::{
    DealerContinuation, EndReason, HandJudge, Honba, MatchLength, PlayerHand, RiichiPreset,
    RiichiRules, RiichiSticks, RiichiVariant, RoundNumber, Seat, TableProgress, Tile, TileId,
    TileKind, TileSet, Wall, WallSeed, WinQuery, WinSource, Wind, YakumanValue,
};

fn tiles(codes: &str) -> Vec<Tile> {
    codes
        .split_whitespace()
        .enumerate()
        .map(|(index, code)| {
            Tile::new(
                TileId::new(u16::try_from(index).expect("tile id")),
                code.parse::<TileKind>().expect("tile kind"),
                false,
            )
            .expect("tile")
        })
        .collect()
}

fn kind(code: &str) -> TileKind {
    code.parse().expect("kind")
}

struct Fixture {
    rules: RiichiRules,
    progress: TableProgress,
    player: PlayerHand,
    wall: Wall,
    winner: Seat,
    winning_tile: Tile,
    calls_occurred: bool,
}

impl Fixture {
    fn ron(codes: &str, winning_code: &str) -> Self {
        let rules = RiichiRules::default();
        let dealer = Seat::new(RiichiVariant::Yonma, 0).expect("dealer");
        let winner = Seat::new(RiichiVariant::Yonma, 2).expect("winner");
        let progress = TableProgress::east_one(RiichiVariant::Yonma, dealer).expect("progress");
        let winning_tile =
            Tile::new(TileId::new(200), kind(winning_code), false).expect("winning tile");
        Self {
            rules,
            progress,
            player: PlayerHand::scoring_fixture(tiles(codes)),
            wall: Wall::new(
                TileSet::standard(RiichiVariant::Yonma),
                &WallSeed::from_bytes([51; 32]),
            ),
            winner,
            winning_tile,
            calls_occurred: false,
        }
    }

    fn query(&self) -> WinQuery<'_> {
        self.query_with_source(WinSource::Discard {
            from: Seat::new(RiichiVariant::Yonma, 1).expect("discarder"),
        })
    }

    fn query_with_source(&self, source: WinSource) -> WinQuery<'_> {
        WinQuery::new(
            &self.rules,
            self.progress,
            self.winner,
            &self.player,
            self.winning_tile,
            source,
            &self.wall,
            self.calls_occurred,
        )
    }
}

fn has_yaku(result: &WinEvaluation, yaku: Yaku) -> bool {
    result.yaku().iter().any(|value| value.yaku() == yaku)
}

fn evaluation(payment: Payment) -> WinEvaluation {
    WinEvaluation::new(
        HandShape::Standard,
        WaitKind::TwoSided,
        Vec::<YakuValue>::new(),
        BonusHan::default(),
        1,
        30,
        0,
        240,
        Limit::NoLimit,
        payment,
    )
}

fn progress(variant: RiichiVariant, dealer: Seat, honba: u32, riichi_sticks: u32) -> TableProgress {
    TableProgress::new(
        variant,
        Wind::East,
        RoundNumber::new(variant, 1).expect("round"),
        dealer,
        Honba::new(honba),
        RiichiSticks::new(riichi_sticks),
    )
    .expect("progress")
}

#[test]
fn finds_all_waits_without_counting_a_fifth_tile() {
    let hand = tiles("1m 1m 1m 2m 3m 4m 5m 6m 7m 8m 9m 9m 9m");
    let waits = RiichiScorer.waiting_tiles(&PlayerHand::scoring_fixture(hand));

    let expected: Vec<TileKind> = ["1m", "2m", "3m", "4m", "5m", "6m", "7m", "8m", "9m"]
        .into_iter()
        .map(kind)
        .collect();
    assert_eq!(waits.kinds(), expected);
}

#[test]
fn rounds_fu_to_next_ten() {
    assert_eq!(round_up(22, 10), 30);
    assert_eq!(round_up(30, 10), 30);
}

#[test]
fn applies_normal_and_kiriage_mangan_boundaries() {
    let mut rules = RiichiRules::default();
    rules.scoring.kiriage_mangan = false;
    assert_eq!(base_points(&rules, 4, 30, 0), (1_920, Limit::NoLimit));
    assert_eq!(base_points(&rules, 3, 60, 0), (1_920, Limit::NoLimit));

    rules.scoring.kiriage_mangan = true;
    assert_eq!(base_points(&rules, 4, 30, 0), (2_000, Limit::Mangan));
    assert_eq!(base_points(&rules, 3, 60, 0), (2_000, Limit::Mangan));
}

#[test]
fn counted_yakuman_respects_configuration() {
    let mut rules = RiichiRules::default();
    rules.scoring.kazoe_yakuman = true;
    assert_eq!(base_points(&rules, 13, 30, 0), (8_000, Limit::KazoeYakuman));
    rules.scoring.kazoe_yakuman = false;
    assert_eq!(base_points(&rules, 13, 30, 0), (6_000, Limit::Sanbaiman));
}

#[test]
fn selects_pinfu_sanshoku_interpretation_and_calculates_ron() {
    let fixture = Fixture::ron("1m 2m 3m 1p 2p 3p 1s 2s 3s 4s 5s 7p 7p", "6s");

    let result = RiichiScorer.evaluate(fixture.query()).expect("valid win");

    assert_eq!(result.shape(), HandShape::Standard);
    assert_eq!(result.wait(), WaitKind::TwoSided);
    assert_eq!(result.fu(), 30);
    assert!(has_yaku(&result, Yaku::Pinfu));
    assert!(has_yaku(&result, Yaku::SanshokuDoujun));
    assert!(matches!(result.payment(), Payment::Ron { .. }));
}

#[test]
fn seven_pairs_has_fixed_twenty_five_fu() {
    let fixture = Fixture::ron("1m 1m 2m 2m 3p 3p 4p 4p 5s 5s 6s 6s 7z", "7z");

    let result = RiichiScorer.evaluate(fixture.query()).expect("seven pairs");

    assert_eq!(result.shape(), HandShape::SevenPairs);
    assert_eq!(result.fu(), 25);
    assert!(has_yaku(&result, Yaku::SevenPairs));
}

#[test]
fn own_discard_on_any_current_wait_prevents_ron() {
    let mut fixture = Fixture::ron("1m 2m 3m 1p 2p 3p 1s 2s 3s 4s 5s 7p 7p", "6s");
    let discarded_wait = Tile::new(TileId::new(201), kind("3s"), false).expect("tile");
    fixture.player.add_scoring_fixture_discard(discarded_wait);

    assert!(RiichiScorer.evaluate(fixture.query()).is_some());
    assert!(!RiichiScorer.can_win(fixture.query()));
}

#[test]
fn only_thirteen_orphans_can_rob_a_concealed_kan() {
    let from = Seat::new(RiichiVariant::Yonma, 1).expect("kan declarer");
    let ordinary = Fixture::ron("1m 2m 3m 1p 2p 3p 1s 2s 3s 4s 5s 7p 7p", "6s");
    let ordinary_query = ordinary.query_with_source(WinSource::ConcealedKan { from });
    assert!(RiichiScorer.evaluate(ordinary_query).is_some());
    assert!(!RiichiScorer.can_win(ordinary_query));

    let orphans = Fixture::ron("1m 9m 1p 9p 1s 9s 1z 2z 3z 4z 5z 6z 7z", "1m");
    let orphans_query = orphans.query_with_source(WinSource::ConcealedKan { from });
    assert!(RiichiScorer.can_win(orphans_query));

    let mut disabled = Fixture::ron("1m 9m 1p 9p 1s 9s 1z 2z 3z 4z 5z 6z 7z", "1m");
    disabled.rules.scoring.kokushi_ankan_chankan = false;
    let disabled_query = disabled.query_with_source(WinSource::ConcealedKan { from });
    assert!(!RiichiScorer.can_win(disabled_query));
}

#[test]
fn thirteen_sided_orphans_uses_configured_double_yakuman() {
    let mut fixture = Fixture::ron("1m 9m 1p 9p 1s 9s 1z 2z 3z 4z 5z 6z 7z", "1m");

    let result = RiichiScorer.evaluate(fixture.query()).expect("orphans");

    assert_eq!(result.shape(), HandShape::ThirteenOrphans);
    assert_eq!(result.wait(), WaitKind::ThirteenSided);
    assert_eq!(result.yakuman_multiplier(), 2);
    assert!(has_yaku(&result, Yaku::ThirteenWaitOrphans));

    fixture.rules.scoring.yakuman_value = YakumanValue::StackedOnly;
    let single = RiichiScorer
        .evaluate(fixture.query())
        .expect("configured single yakuman");
    assert_eq!(single.yakuman_multiplier(), 1);
}

#[test]
fn bonus_only_complete_shape_cannot_win() {
    let fixture = Fixture::ron("1m 2m 3m 4m 5m 6m 7p 8p 9p 2s 2s 5p 5p", "2s");

    assert!(RiichiScorer.evaluate(fixture.query()).is_none());
}

#[test]
fn pure_yakuman_can_stack_without_special_double_rule() {
    let mut fixture = Fixture::ron("1z 1z 1z 2z 2z 2z 3z 3z 3z 4z 4z 4z 5z", "5z");
    fixture.rules.scoring.yakuman_value = YakumanValue::StackedOnly;

    let result = RiichiScorer
        .evaluate(fixture.query())
        .expect("stacked yakuman");

    assert_eq!(result.yakuman_multiplier(), 3);
    assert!(has_yaku(&result, Yaku::Daisuushi));
    assert!(has_yaku(&result, Yaku::Tsuuiisou));
}

#[test]
fn old_wheel_yaku_is_isolated_behind_rule_toggle() {
    let mut fixture = Fixture::ron("2p 2p 3p 3p 4p 4p 5p 5p 6p 6p 7p 7p 8p", "8p");
    fixture.calls_occurred = true;
    let normal = RiichiScorer
        .evaluate(fixture.query())
        .expect("ordinary seven pairs");
    assert_eq!(normal.yakuman_multiplier(), 0);

    fixture.rules.scoring.old_yaku = true;
    let old_yaku = RiichiScorer.evaluate(fixture.query()).expect("old yaku");
    assert_eq!(old_yaku.yakuman_multiplier(), 1);
    assert!(has_yaku(&old_yaku, Yaku::Daisharin));
}

#[test]
fn multiple_ron_charges_each_winner_and_awards_sticks_to_first() {
    let rules = RiichiRules::default();
    let dealer = Seat::new(RiichiVariant::Yonma, 0).expect("dealer");
    let from = Seat::new(RiichiVariant::Yonma, 1).expect("from");
    let first = Seat::new(RiichiVariant::Yonma, 2).expect("first");
    let second = Seat::new(RiichiVariant::Yonma, 3).expect("second");

    let result = HandSettlement
        .settle(
            &rules,
            progress(RiichiVariant::Yonma, dealer, 1, 2),
            vec![25_000; 4],
            HandOutcome::Ron {
                from,
                winners: vec![
                    ScoredWinner::new(first, evaluation(Payment::Ron { points: 3_900 })),
                    ScoredWinner::new(second, evaluation(Payment::Ron { points: 8_000 })),
                ],
            },
        )
        .expect("settlement");

    assert_eq!(result.point_deltas(), [0, -12_500, 6_200, 8_300]);
    assert_eq!(result.awarded_riichi_sticks(), 2);
    assert!(!result.dealer_continues());
    assert_eq!(result.next_progress().round_number().value(), 2);
    assert_eq!(result.next_progress().honba().value(), 0);
    assert_eq!(result.next_progress().riichi_sticks().value(), 0);
}

#[test]
fn sanma_tsumo_uses_only_two_actual_payers() {
    let rules = RiichiRules::standard(RiichiVariant::Sanma);
    let dealer = Seat::new(RiichiVariant::Sanma, 0).expect("dealer");
    let winner = Seat::new(RiichiVariant::Sanma, 1).expect("winner");

    let result = HandSettlement
        .settle(
            &rules,
            progress(RiichiVariant::Sanma, dealer, 1, 0),
            vec![25_000; 3],
            HandOutcome::Tsumo {
                winner: ScoredWinner::new(
                    winner,
                    evaluation(Payment::Tsumo {
                        dealer_payment: 2_000,
                        other_payment: 1_000,
                    }),
                ),
            },
        )
        .expect("settlement");

    assert_eq!(result.point_deltas(), [-2_100, 3_200, -1_100]);
    assert_eq!(result.next_progress().dealer(), winner);
    assert_eq!(result.next_progress().honba().value(), 0);
}

#[test]
fn exhaustive_draw_splits_noten_and_applies_continuation_rule() {
    let mut rules = RiichiRules::default();
    let dealer = Seat::new(RiichiVariant::Yonma, 0).expect("dealer");
    let other = Seat::new(RiichiVariant::Yonma, 2).expect("other");
    let outcome = || HandOutcome::ExhaustiveDraw {
        tenpai: vec![dealer, other],
        nagashi_winners: Vec::new(),
    };

    let continued = HandSettlement
        .settle(
            &rules,
            progress(RiichiVariant::Yonma, dealer, 0, 1),
            vec![25_000; 4],
            outcome(),
        )
        .expect("continued");
    assert_eq!(continued.point_deltas(), [1_500, -1_500, 1_500, -1_500]);
    assert!(continued.dealer_continues());
    assert_eq!(continued.next_progress().honba().value(), 1);
    assert_eq!(continued.next_progress().riichi_sticks().value(), 1);

    rules.match_rules.dealer_continuation = DealerContinuation::WinOnly;
    let advanced = HandSettlement
        .settle(
            &rules,
            progress(RiichiVariant::Yonma, dealer, 0, 1),
            vec![25_000; 4],
            outcome(),
        )
        .expect("advanced");
    assert!(!advanced.dealer_continues());
    assert_eq!(advanced.next_progress().round_number().value(), 2);
    assert_eq!(advanced.next_progress().honba().value(), 1);
}

#[test]
fn disabled_nagashi_mangan_is_rejected_by_settlement_boundary() {
    let mut rules = RiichiRules::default();
    rules.scoring.nagashi_mangan = false;
    let dealer = Seat::new(RiichiVariant::Yonma, 0).expect("dealer");

    let error = HandSettlement
        .settle(
            &rules,
            progress(RiichiVariant::Yonma, dealer, 0, 0),
            vec![25_000; 4],
            HandOutcome::ExhaustiveDraw {
                tenpai: Vec::new(),
                nagashi_winners: vec![dealer],
            },
        )
        .expect_err("disabled nagashi");

    assert_eq!(error, SettlementError::NagashiManganDisabled);
}

#[test]
fn abortive_draw_repeats_dealer_without_moving_points() {
    let rules = RiichiRules::default();
    let dealer = Seat::new(RiichiVariant::Yonma, 1).expect("dealer");
    let current = progress(RiichiVariant::Yonma, dealer, 2, 1);

    let result = HandSettlement
        .settle(
            &rules,
            current,
            vec![25_000; 4],
            HandOutcome::AbortiveDraw {
                reason: EndReason::FourKans,
            },
        )
        .expect("abortive draw");

    assert_eq!(result.point_deltas(), [0; 4]);
    assert_eq!(result.next_progress().dealer(), dealer);
    assert_eq!(result.next_progress().honba().value(), 3);
    assert_eq!(result.next_progress().riichi_sticks().value(), 1);
}

fn set_hand(
    game: &mut RiichiMatch,
    wind: Wind,
    number: u8,
    dealer: Seat,
    points: &[i32],
    riichi_sticks: u32,
) {
    let variant = game.rules().variant;
    let progress = TableProgress::new(
        variant,
        wind,
        RoundNumber::new(variant, number).expect("round"),
        dealer,
        Honba::zero(),
        RiichiSticks::new(riichi_sticks),
    )
    .expect("progress");
    game.resume_at(progress, points.to_vec()).expect("resume");
}

fn ron_hand(rules: &RiichiRules, game: &RiichiMatch, from: Seat, winner: Seat, points: u32) -> mahjong::riichi::scoring::HandResult {
    HandSettlement
        .settle(
            rules,
            game.progress(),
            game.points().to_vec(),
            HandOutcome::Ron {
                from,
                winners: vec![ScoredWinner::new(winner, evaluation(Payment::Ron { points }))],
            },
        )
        .expect("hand")
}

#[test]
fn scheduled_end_keeps_hand_history_and_calculates_oka_uma() {
    let rules = RiichiRules::default();
    let starting_dealer = Seat::new(RiichiVariant::Yonma, 0).expect("dealer");
    let mut game = RiichiMatch::start(rules.clone(), starting_dealer).expect("match");
    set_hand(&mut game, Wind::South, 4, starting_dealer, &[25_000; 4], 0);
    let winner = Seat::new(RiichiVariant::Yonma, 1).expect("winner");
    let from = Seat::new(RiichiVariant::Yonma, 2).expect("from");
    let hand = ron_hand(&rules, &game, from, winner, 7_700);

    let result = game
        .apply_hand(hand)
        .expect("apply")
        .expect("finished match");

    assert_eq!(result.end_reason(), MatchEndReason::ScheduledEnd);
    assert_eq!(result.hand_count(), 1);
    assert_eq!(result.final_points(), [25_000, 32_700, 17_300, 25_000]);
    assert_eq!(
        result
            .placements()
            .iter()
            .map(|placement| placement.seat())
            .collect::<Vec<_>>(),
        [
            winner,
            starting_dealer,
            Seat::new(RiichiVariant::Yonma, 3).expect("seat"),
            from,
        ]
    );
    assert_eq!(result.placements()[0].oka_tenths(), 200);
    assert_eq!(result.placements()[0].uma_tenths(), 300);
    assert_eq!(result.placements()[0].score_tenths(), 527);
    assert_eq!(game.hands().len(), 1);
}

#[test]
fn last_dealer_win_ends_only_when_agari_yame_conditions_hold() {
    let rules = RiichiRules::default();
    let dealer = Seat::new(RiichiVariant::Yonma, 0).expect("dealer");
    let from = Seat::new(RiichiVariant::Yonma, 1).expect("from");
    let mut leader = RiichiMatch::start(rules.clone(), dealer).expect("match");
    set_hand(&mut leader, Wind::South, 4, dealer, &[40_000, 20_000, 20_000, 20_000], 0);
    let hand = ron_hand(&rules, &leader, from, dealer, 1_500);
    assert_eq!(
        leader
            .apply_hand(hand)
            .expect("apply")
            .expect("agari yame")
            .end_reason(),
        MatchEndReason::AgariYame
    );

    let mut trailing = RiichiMatch::start(rules.clone(), dealer).expect("match");
    set_hand(&mut trailing, Wind::South, 4, dealer, &[20_000, 40_000, 20_000, 20_000], 0);
    let hand = ron_hand(&rules, &trailing, from, dealer, 1_500);
    assert!(trailing.apply_hand(hand).expect("apply").is_none());
    assert_eq!(trailing.progress().round_wind(), Wind::South);
    assert_eq!(trailing.progress().round_number().value(), 4);
    assert_eq!(trailing.progress().honba().value(), 1);
}

#[test]
fn tobi_ends_before_scheduled_round() {
    let rules = RiichiRules::default();
    let dealer = Seat::new(RiichiVariant::Yonma, 0).expect("dealer");
    let winner = Seat::new(RiichiVariant::Yonma, 1).expect("winner");
    let from = Seat::new(RiichiVariant::Yonma, 2).expect("from");
    let mut game = RiichiMatch::start(rules.clone(), dealer).expect("match");
    set_hand(&mut game, Wind::East, 1, dealer, &[33_300, 33_300, 100, 33_300], 0);
    let hand = ron_hand(&rules, &game, from, winner, 1_000);

    assert_eq!(
        game.apply_hand(hand)
            .expect("apply")
            .expect("tobi")
            .end_reason(),
        MatchEndReason::Tobi
    );
}

#[test]
fn terminal_draw_awards_unclaimed_sticks_to_deterministic_leader() {
    let mut rules = RiichiRules::default();
    rules.match_rules.length = MatchLength::EastOnly;
    let dealer = Seat::new(RiichiVariant::Yonma, 0).expect("dealer");
    let mut game = RiichiMatch::start(rules.clone(), dealer).expect("match");
    set_hand(&mut game, Wind::East, 4, dealer, &[24_000, 25_000, 25_000, 25_000], 1);
    let hand = HandSettlement
        .settle(
            &rules,
            game.progress(),
            game.points().to_vec(),
            HandOutcome::ExhaustiveDraw {
                tenpai: Vec::new(),
                nagashi_winners: Vec::new(),
            },
        )
        .expect("hand");

    let result = game
        .apply_hand(hand)
        .expect("apply")
        .expect("scheduled end");

    assert_eq!(result.unclaimed_riichi_sticks_awarded(), 1);
    assert_eq!(result.final_points(), [24_000, 26_000, 25_000, 25_000]);
    assert_eq!(result.placements()[0].seat().index(), 1);
}

#[test]
fn mismatched_hand_is_rejected_without_mutating_match() {
    let rules = RiichiRules::default();
    let dealer = Seat::new(RiichiVariant::Yonma, 0).expect("dealer");
    let mut game = RiichiMatch::start(rules.clone(), dealer).expect("match");
    let before = game.clone();
    let hand = HandSettlement
        .settle(
            &rules,
            game.progress(),
            vec![30_000; 4],
            HandOutcome::AbortiveDraw {
                reason: EndReason::NineTerminals,
            },
        )
        .expect("hand");

    assert!(game.apply_hand(hand).is_err());
    assert_eq!(game, before);
}

#[test]
fn jpml_a_floating_uma_covers_every_valid_floating_count() {
    let rules = RiichiPreset::JpmlA.rules();
    let dealer = Seat::new(RiichiVariant::Yonma, 0).expect("dealer");
    let cases = [
        ([30_000, 30_000, 30_000, 30_000], [0, 0, 0, 0]),
        ([40_000, 28_000, 27_000, 25_000], [12, -1, -3, -8]),
        ([35_000, 31_000, 29_000, 25_000], [8, 4, -4, -8]),
        ([31_000, 31_000, 31_000, 27_000], [8, 3, 1, -12]),
    ];

    for (points, expected) in cases {
        let order = ranking_order(&points, dealer, RiichiVariant::Yonma);
        assert_eq!(
            placement_uma(&rules, &points, &order).expect("valid floating state"),
            expected
        );
    }
}

#[test]
fn settlement_moves_only_the_awarded_sticks_into_the_table() {
    let rules = RiichiRules::default();
    let dealer = Seat::new(RiichiVariant::Yonma, 0).expect("dealer");
    let winner = Seat::new(RiichiVariant::Yonma, 2).expect("winner");
    let from = Seat::new(RiichiVariant::Yonma, 3).expect("from");
    let result = HandSettlement
        .settle(
            &rules,
            progress(RiichiVariant::Yonma, dealer, 0, 3),
            vec![25_000; 4],
            HandOutcome::Ron {
                from,
                winners: vec![ScoredWinner::new(winner, evaluation(Payment::Ron { points: 2_000 }))],
            },
        )
        .expect("settlement");
    let total: i32 = result.point_deltas().iter().sum();
    assert_eq!(total, 3 * 1_000);
}

#[test]
fn variant_mismatch_is_refused() {
    let rules = RiichiRules::standard(RiichiVariant::Sanma);
    let dealer = Seat::new(RiichiVariant::Yonma, 0).expect("dealer");
    let error = HandSettlement
        .settle(
            &rules,
            progress(RiichiVariant::Yonma, dealer, 0, 0),
            vec![25_000; 4],
            HandOutcome::AbortiveDraw { reason: EndReason::FourKans },
        )
        .expect_err("mismatch");
    assert_eq!(error, SettlementError::VariantMismatch);
}

#[test]
fn rejects_a_fifth_copy_without_mutating_count() {
    let one_man = kind("1m");
    let copies: Vec<Tile> = (0..4)
        .map(|id| Tile::new(TileId::new(id), one_man, false).expect("tile"))
        .collect();
    let mut counts = TileCounts::from_tiles(&copies).expect("four copies");

    assert!(counts.add(one_man).is_err());
    assert_eq!(counts.get(one_man), 4);
    assert_eq!(counts.total(), 4);
}

#[test]
fn enumerates_multiple_standard_decompositions() {
    let hand = tiles("1m 1m 1m 2m 2m 2m 3m 3m 3m 4m 4m 4m 5m 5m");
    let counts = TileCounts::from_tiles(&hand).expect("counts");
    let shapes = winning_shapes(&counts, 0);

    assert!(shapes.len() >= 3);
    assert!(shapes.iter().all(|shape| matches!(shape, WinningShape::Standard(_))));
}

#[test]
fn recognizes_seven_pairs_and_thirteen_orphans() {
    let pairs = tiles("1m 1m 2m 2m 3p 3p 4p 4p 5s 5s 6s 6s 1z 1z");
    let pair_counts = TileCounts::from_tiles(&pairs).expect("counts");
    assert!(winning_shapes(&pair_counts, 0).contains(&WinningShape::SevenPairs));

    let orphans = tiles("1m 1m 9m 1p 9p 1s 9s 1z 2z 3z 4z 5z 6z 7z");
    let orphan_counts = TileCounts::from_tiles(&orphans).expect("counts");
    assert!(winning_shapes(&orphan_counts, 0).contains(&WinningShape::ThirteenOrphans));
}

#[test]
fn rejects_special_shapes_with_declared_groups() {
    let pairs = tiles("1m 1m 2m 2m 3p 3p 4p 4p 5s 5s 6s");
    let counts = TileCounts::from_tiles(&pairs).expect("counts");

    assert!(winning_shapes(&counts, 1).is_empty());
}

#[test]
fn meld_count_reduces_required_concealed_groups() {
    let hand = tiles("2p 3p 4p 5s");
    let waits = waiting_tiles(&hand, 3);

    assert!(waits.contains(kind("5s")));
}
