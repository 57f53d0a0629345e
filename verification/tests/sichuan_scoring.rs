use mahjong::sichuan::scoring::shape::{pairs_shape, standard};
use mahjong::sichuan::{evaluate, score_for, MeldKind, MeldSummary, TileKind, WinContext, Yaku, YakuValue};

fn kinds(spec: &str) -> Vec<TileKind> {
    spec.split_whitespace()
        .map(|code| code.parse().expect("valid tile code"))
        .collect()
}

fn hand(spec: &str) -> [u8; 34] {
    let mut counts = [0_u8; 34];
    for kind in kinds(spec) {
        counts[kind.index()] += 1;
    }
    counts
}

fn context<'a>(concealed: &'a [TileKind], melds: &'a [MeldSummary], tsumo: bool) -> WinContext<'a> {
    WinContext {
        concealed,
        melds,
        is_tsumo: tsumo,
        rinshan: false,
        gang_pao: false,
        chankan: false,
        is_last_tile: false,
        blessing: false,
    }
}

#[test]
fn fan_table_matches_the_rule_book() {
    assert_eq!(Yaku::PingHu.fan(), 1);
    assert_eq!(Yaku::DuiDuiHu.fan(), 2);
    assert_eq!(Yaku::QingYiSe.fan(), 3);
    assert_eq!(Yaku::QiDui.fan(), 3);
    assert_eq!(Yaku::QingDui.fan(), 4);
    assert_eq!(Yaku::LongQiDui.fan(), 5);
    assert_eq!(Yaku::QingQiDui.fan(), 5);
    assert_eq!(Yaku::TianHuDiHu.fan(), 6);
    assert_eq!(Yaku::ZiMo.fan(), 1);
    assert_eq!(Yaku::Gen.fan(), 1);
}

#[test]
fn gen_multiplies_by_the_kan_count() {
    assert_eq!(YakuValue::new(Yaku::Gen, 3).fan(), 3);
    assert_eq!(YakuValue::single(Yaku::PingHu).fan(), 1);
}

#[test]
fn standard_shape_accepts_runs_and_triplets() {
    let tiles = hand("1m 2m 3m 4p 5p 6p 7s 8s 9s 1m 1m 1m 2p 2p");

    assert!(standard(&tiles, 0, 4, true, true));
    assert!(!standard(&tiles, 0, 4, true, false));
}

#[test]
fn all_triplet_shape_rejects_runs() {
    let tiles = hand("1m 1m 1m 4p 4p 4p 7s 7s 7s 2m 2m 2m 3p 3p");

    assert!(standard(&tiles, 0, 4, true, false));
}

#[test]
fn standard_shape_needs_the_exact_tile_count() {
    let tiles = hand("1m 2m 3m 4p 5p 6p 7s 8s 9s 1m 1m 1m 2p");

    assert!(!standard(&tiles, 0, 4, true, true));
}

#[test]
fn standard_shape_counts_melds_through_sets_needed() {
    let tiles = hand("1m 2m 3m 4p 5p 6p 9s 9s");

    assert!(standard(&tiles, 0, 2, true, true));
}

#[test]
fn seven_pairs_needs_seven_pairs() {
    let plain = hand("1m 1m 3m 3m 5p 5p 7p 7p 2s 2s 4s 4s 6s 6s");
    assert!(pairs_shape(&plain, 0, 7, 0));

    let six = hand("1m 1m 3m 3m 5p 5p 7p 7p 2s 2s 4s 4s 6s");
    assert!(!pairs_shape(&six, 0, 7, 0));
}

#[test]
fn seven_pairs_accepts_four_identical_as_two_pairs() {
    let case = hand("1m 1m 1m 1m 3m 3m 5p 5p 7p 7p 2s 2s 4s 4s");

    assert!(pairs_shape(&case, 0, 7, 0));
}

#[test]
fn wild_tiles_fill_a_run_and_the_pair() {
    let tiles = hand("1m 3m 4p 4p 4p 7s 8s 9s 1p 2p 3p 5s");
    assert!(standard(&tiles, 2, 4, true, true));
    assert!(!standard(&tiles, 2, 4, true, false));
}

#[test]
fn a_plain_mixed_hand_is_ping_hu_at_one_fan() {
    let concealed = kinds("1m 2m 3m 4p 5p 6p 7s 8s 9s 1m 1m 1m 2p 2p");
    let result = evaluate(&context(&concealed, &[], false)).expect("winning hand");

    assert_eq!(result.fan(), 1);
    assert_eq!(result.score(), 1000);
    assert_eq!(result.yaku().first().map(|y| y.yaku()), Some(Yaku::PingHu));
}

#[test]
fn tsumo_adds_one_fan() {
    let concealed = kinds("1m 2m 3m 4p 5p 6p 7s 8s 9s 1m 1m 1m 2p 2p");
    let result = evaluate(&context(&concealed, &[], true)).expect("winning hand");

    assert_eq!(result.fan(), 2);
    assert_eq!(result.score(), 2000);
    assert!(result.yaku().iter().any(|y| y.yaku() == Yaku::ZiMo));
}

#[test]
fn a_flush_is_qing_yi_se_at_three_fan() {
    let concealed = kinds("1m 2m 3m 4m 5m 6m 7m 8m 9m 1m 1m 1m 2m 2m");
    let result = evaluate(&context(&concealed, &[], false)).expect("winning hand");

    assert_eq!(result.fan(), 3);
    assert_eq!(result.yaku().first().map(|y| y.yaku()), Some(Yaku::QingYiSe));
}

#[test]
fn all_triplets_is_dui_dui_hu() {
    let concealed = kinds("1m 1m 1m 4p 4p 4p 7s 7s 7s 2m 2m 2m 3p 3p");
    let result = evaluate(&context(&concealed, &[], false)).expect("winning hand");

    assert_eq!(result.fan(), 2);
    assert_eq!(result.yaku().first().map(|y| y.yaku()), Some(Yaku::DuiDuiHu));
}

#[test]
fn flush_all_triplets_is_qing_dui() {
    let concealed = kinds("1m 1m 1m 2m 2m 2m 3m 3m 3m 4m 4m 4m 5m 5m");
    let result = evaluate(&context(&concealed, &[], false)).expect("winning hand");

    assert_eq!(result.fan(), 4);
    assert_eq!(result.yaku().first().map(|y| y.yaku()), Some(Yaku::QingDui));
}

#[test]
fn seven_pairs_is_qi_dui() {
    let concealed = kinds("1m 1m 3m 3m 5p 5p 7p 7p 2s 2s 4s 4s 6s 6s");
    let result = evaluate(&context(&concealed, &[], false)).expect("winning hand");

    assert_eq!(result.fan(), 3);
    assert_eq!(result.yaku().first().map(|y| y.yaku()), Some(Yaku::QiDui));
}

#[test]
fn seven_pairs_with_a_quad_is_long_qi_dui() {
    let concealed = kinds("1m 1m 1m 1m 3m 3m 5p 5p 7p 7p 2s 2s 4s 4s");
    let result = evaluate(&context(&concealed, &[], false)).expect("winning hand");

    assert_eq!(result.fan(), 5);
    assert_eq!(result.yaku().first().map(|y| y.yaku()), Some(Yaku::LongQiDui));
}

#[test]
fn a_concealed_kan_counts_as_one_gen() {
    let melds = vec![MeldSummary::new(MeldKind::ConcealedKan, kinds("9s 9s 9s 9s"))];
    let concealed = kinds("1m 2m 3m 4p 5p 6p 1s 2s 3s 2m 2m");
    let result = evaluate(&context(&concealed, &melds, false)).expect("winning hand");

    assert_eq!(result.fan(), 2);
    assert!(result.yaku().iter().any(|y| y.yaku() == Yaku::Gen));
}

#[test]
fn a_blessing_hand_is_tian_hu_di_hu() {
    let concealed = kinds("1m 2m 3m 4p 5p 6p 7s 8s 9s 1m 1m 1m 2p 2p");
    let mut context = context(&concealed, &[], false);
    context.blessing = true;
    let result = evaluate(&context).expect("winning hand");

    assert_eq!(result.fan(), 6);
    assert_eq!(result.yaku().first().map(|y| y.yaku()), Some(Yaku::TianHuDiHu));
}

#[test]
fn the_score_caps_at_six_fan() {
    assert_eq!(score_for(1), 1000);
    assert_eq!(score_for(2), 2000);
    assert_eq!(score_for(3), 4000);
    assert_eq!(score_for(6), 32000);
    assert_eq!(score_for(7), 32000);
    assert_eq!(score_for(20), 32000);
}

#[test]
fn too_many_melds_is_not_a_winning_hand() {
    let melds: Vec<MeldSummary> = (0..5)
        .map(|_| MeldSummary::new(MeldKind::Pon, kinds("1m 1m 1m")))
        .collect();
    let concealed = kinds("2p 2p");

    assert!(evaluate(&context(&concealed, &melds, false)).is_none());
}

#[test]
fn golden_hook_and_extras_stack_on_a_flush() {
    let melds = vec![
        MeldSummary::new(MeldKind::Pon, kinds("1p 1p 1p")),
        MeldSummary::new(MeldKind::OpenKan, kinds("3p 3p 3p 3p")),
        MeldSummary::new(MeldKind::Pon, kinds("5p 5p 5p")),
        MeldSummary::new(MeldKind::Pon, kinds("7p 7p 7p")),
    ];
    let concealed = kinds("9p 9p");
    let mut context = context(&concealed, &melds, true);
    context.is_last_tile = true;
    let result = evaluate(&context).expect("winning hand");

    let names: Vec<Yaku> = result.yaku().iter().map(|y| y.yaku()).collect();
    assert_eq!(names, vec![Yaku::QingDui, Yaku::ZiMo, Yaku::Gen, Yaku::JinGouDiao, Yaku::HaiDi]);
    assert_eq!(result.fan(), 8);
    assert_eq!(result.score(), 32000);
    assert!(result.shapes().all_triplets());
}
