use std::collections::HashSet;

use mahjong::riichi::hand::state::{forbidden_after_call, validate_chi};

use mahjong::riichi::{
    EndReason, HandError, HandEvent, HandJudge, HandPhase, HandTransition, PlayerHand, Reaction,
    MeldKind, RejectAllHandJudge, RiichiHand, RiichiQuery, RiichiRules, RiichiStatus, RiichiVariant,
    RonResolution, Seat, TableProgress, Tile, TileId, WallSeed, WinQuery, KuikaeRule, Meld, MeldId,
    TileKind, HandCheckpointError, HAND_CHECKPOINT_SCHEMA_VERSION, Suit, DrawSource,
};

fn start_hand(variant: RiichiVariant, dealer_index: u8) -> RiichiHand {
    let dealer = Seat::new(variant, dealer_index).expect("dealer");
    let progress = TableProgress::east_one(variant, dealer).expect("progress");
    let points = vec![25_000; usize::from(variant.seat_count().value())];
    RiichiHand::start(
        RiichiRules::standard(variant),
        progress,
        points,
        &WallSeed::from_bytes([7; 32]),
    )
    .expect("start hand")
    .0
}

fn seat_after(variant: RiichiVariant, seat: Seat, offset: u8) -> Seat {
    let count = variant.seat_count().value();
    Seat::new(variant, (seat.index() + offset) % count).expect("seat")
}

fn pass_all(hand: &mut RiichiHand, discarder: Seat) -> HandTransition {
    pass_all_with(hand, discarder, &RejectAllHandJudge)
}

fn pass_all_with<J: HandJudge>(hand: &mut RiichiHand, discarder: Seat, judge: &J) -> HandTransition {
    let variant = hand.rules().variant;
    let mut last = None;
    for offset in 1..variant.seat_count().value() {
        let seat = seat_after(variant, discarder, offset);
        last = Some(hand.pass(seat, judge).expect("pass"));
    }
    last.expect("a riichi hand always has opponents")
}

struct SeatOneTenpai;

impl HandJudge for SeatOneTenpai {
    fn is_tenpai(&self, _rules: &RiichiRules, _player: &PlayerHand, seat: Seat) -> bool {
        seat.index() == 1
    }
}

#[test]
fn yonma_deal_assigns_every_tile_once_and_draws_for_dealer() {
    let dealer = Seat::new(RiichiVariant::Yonma, 2).expect("dealer");
    let progress = TableProgress::east_one(RiichiVariant::Yonma, dealer).expect("progress");
    let (hand, transition) = RiichiHand::start(
        RiichiRules::default(),
        progress,
        vec![25_000; 4],
        &WallSeed::from_bytes([3; 32]),
    )
    .expect("start");

    assert_eq!(hand.phase(), HandPhase::AwaitingTurnAction { seat: dealer });
    assert_eq!(hand.remaining_live_draws(), 69);
    assert_eq!(transition.events().len(), 6);
    assert!(matches!(transition.events()[0], HandEvent::HandStarted { .. }));

    let mut ids = HashSet::new();
    for index in 0..4 {
        let seat = Seat::new(RiichiVariant::Yonma, index).expect("seat");
        let player = hand.player(seat).expect("player");
        let expected = if seat == dealer { 14 } else { 13 };
        assert_eq!(player.concealed().len(), expected);
        for tile in player.concealed() {
            assert!(ids.insert(tile.id()));
        }
    }
    assert_eq!(ids.len(), 53);
}

#[test]
fn sanma_deal_has_expected_live_wall_capacity() {
    let hand = start_hand(RiichiVariant::Sanma, 1);

    assert_eq!(hand.remaining_live_draws(), 54);
    for index in 0..3 {
        let seat = Seat::new(RiichiVariant::Sanma, index).expect("seat");
        let expected = if index == 1 { 14 } else { 13 };
        assert_eq!(hand.player(seat).expect("player").concealed().len(), expected);
    }
}

#[test]
fn discard_then_unclaimed_resolution_draws_for_next_seat() {
    let mut hand = start_hand(RiichiVariant::Yonma, 3);
    let dealer = Seat::new(RiichiVariant::Yonma, 3).expect("dealer");
    let drawn = hand
        .player(dealer)
        .expect("dealer")
        .drawn_tile_id()
        .expect("drawn tile");

    let discarded = hand.discard(dealer, drawn).expect("discard");

    assert!(matches!(
        discarded.events(),
        [HandEvent::TileDiscarded {
            seat,
            tsumogiri: true,
            ..
        }] if *seat == dealer
    ));
    assert_eq!(hand.phase(), HandPhase::AwaitingResponses { trigger_seat: dealer });

    let next = Seat::new(RiichiVariant::Yonma, 0).expect("next");
    let drawn = pass_all(&mut hand, dealer);
    assert!(matches!(
        drawn.events().last(),
        Some(HandEvent::TileDrawn { seat, .. }) if *seat == next
    ));
    assert_eq!(hand.phase(), HandPhase::AwaitingTurnAction { seat: next });
    assert_eq!(hand.player(dealer).expect("dealer").concealed().len(), 13);
    assert_eq!(hand.player(next).expect("next").concealed().len(), 14);
}

#[test]
fn invalid_discard_does_not_mutate_hand() {
    let mut hand = start_hand(RiichiVariant::Yonma, 0);
    let dealer = Seat::new(RiichiVariant::Yonma, 0).expect("dealer");
    let other = Seat::new(RiichiVariant::Yonma, 1).expect("other");
    let before = hand.clone();

    assert!(hand.discard(other, TileId::new(u16::MAX)).is_err());
    assert_eq!(hand, before);

    assert!(hand.discard(dealer, TileId::new(u16::MAX)).is_err());
    assert_eq!(hand, before);
}

#[test]
fn duplicate_or_self_pass_does_not_mutate_response_window() {
    let mut hand = start_hand(RiichiVariant::Yonma, 0);
    let dealer = Seat::new(RiichiVariant::Yonma, 0).expect("dealer");
    let responder = Seat::new(RiichiVariant::Yonma, 1).expect("responder");
    let drawn = hand
        .player(dealer)
        .expect("dealer")
        .drawn_tile_id()
        .expect("draw");
    hand.discard(dealer, drawn).expect("discard");

    let before_self_pass = hand.clone();
    assert!(hand.pass(dealer, &RejectAllHandJudge).is_err());
    assert_eq!(hand, before_self_pass);

    hand.pass(responder, &RejectAllHandJudge).expect("first pass");
    let after_first_pass = hand.clone();
    assert!(hand.pass(responder, &RejectAllHandJudge).is_err());
    assert_eq!(hand, after_first_pass);
}

#[test]
fn setup_rejects_variant_or_point_count_mismatch() {
    let yonma_dealer = Seat::new(RiichiVariant::Yonma, 0).expect("dealer");
    let yonma_progress =
        TableProgress::east_one(RiichiVariant::Yonma, yonma_dealer).expect("progress");
    let seed = WallSeed::from_bytes([8; 32]);

    assert!(RiichiHand::start(
        RiichiRules::standard(RiichiVariant::Sanma),
        yonma_progress,
        vec![25_000; 3],
        &seed,
    )
    .is_err());
    assert!(RiichiHand::start(RiichiRules::default(), yonma_progress, vec![25_000; 3], &seed).is_err());
}

#[test]
fn exhausting_live_wall_ends_after_last_discard() {
    let mut hand = start_hand(RiichiVariant::Sanma, 0);

    loop {
        let HandPhase::AwaitingTurnAction { seat } = hand.phase() else {
            panic!("expected turn");
        };
        let drawn = hand
            .player(seat)
            .expect("player")
            .drawn_tile_id()
            .expect("draw");
        hand.discard(seat, drawn).expect("discard");
        let transition = pass_all(&mut hand, seat);
        if matches!(
            transition.events().last(),
            Some(HandEvent::ExhaustiveDrawDeclared {
                reason: EndReason::ExhaustiveDraw,
                ..
            })
        ) {
            break;
        }
    }

    assert_eq!(
        hand.phase(),
        HandPhase::Ended {
            reason: EndReason::ExhaustiveDraw
        }
    );
    assert_eq!(hand.remaining_live_draws(), 0);
}

#[test]
fn exhaustive_draw_records_judge_tenpai_seats() {
    let mut hand = start_hand(RiichiVariant::Sanma, 0);
    let final_transition = loop {
        let HandPhase::AwaitingTurnAction { seat } = hand.phase() else {
            panic!("expected turn");
        };
        let drawn = hand
            .player(seat)
            .expect("player")
            .drawn_tile_id()
            .expect("draw");
        hand.discard(seat, drawn).expect("discard");
        let transition = pass_all_with(&mut hand, seat, &SeatOneTenpai);
        if matches!(
            transition.events().last(),
            Some(HandEvent::ExhaustiveDrawDeclared { .. })
        ) {
            break transition;
        }
    };

    assert!(matches!(
        final_transition.events().last(),
        Some(HandEvent::ExhaustiveDrawDeclared {
            reason: EndReason::ExhaustiveDraw,
            tenpai,
        }) if tenpai.as_slice() == [Seat::new(RiichiVariant::Sanma, 1).expect("seat")]
    ));
}

#[test]
fn deal_hands_out_the_front_of_the_wall_dealer_first() {
    let hand = start_hand(RiichiVariant::Yonma, 1);
    let (tiles, live_end) = hand.wall_order();
    assert_eq!(live_end, 122);
    for offset in 0..4u8 {
        let seat = seat_after(RiichiVariant::Yonma, Seat::new(RiichiVariant::Yonma, 1).expect("dealer"), offset);
        let concealed = hand.player(seat).expect("player").concealed();
        for round in 0..13 {
            assert_eq!(concealed[round], tiles[round * 4 + usize::from(offset)]);
        }
    }
    let dealer = hand.player(Seat::new(RiichiVariant::Yonma, 1).expect("dealer")).expect("dealer");
    assert_eq!(dealer.concealed()[13], tiles[52]);
    assert_eq!(dealer.drawn_tile_id(), Some(tiles[52].id()));
}

#[test]
fn discard_errors_name_the_refusal() {
    let mut hand = start_hand(RiichiVariant::Sanma, 0);
    let outside = Seat::new(RiichiVariant::Yonma, 3).expect("fourth seat");
    let error = hand.discard(outside, TileId::new(0)).expect_err("no fourth seat in sanma");
    assert_eq!(error, HandError::InvalidSeat { index: 3, seat_count: 3 });
    assert_eq!(error.message(), "seat index 3 is outside a 3-player hand");

    let other = Seat::new(RiichiVariant::Sanma, 2).expect("seat");
    let dealer = Seat::new(RiichiVariant::Sanma, 0).expect("dealer");
    assert_eq!(
        hand.discard(other, TileId::new(0)),
        Err(HandError::NotActiveSeat { expected: dealer, actual: other })
    );
    let missing = hand.discard(dealer, TileId::new(9_999)).expect_err("not in hand");
    assert_eq!(missing.message(), "tile 9999 is not in the actor's hand");
    assert_eq!(
        hand.pass(other, &RejectAllHandJudge).expect_err("no discard yet"),
        HandError::WrongPhase
    );
}

struct WinningJudge;

impl HandJudge for WinningJudge {
    fn can_win(&self, _query: WinQuery<'_>) -> bool {
        true
    }

    fn can_riichi(&self, _query: RiichiQuery<'_>) -> bool {
        true
    }
}

struct AcceptWins;

impl HandJudge for AcceptWins {
    fn can_win(&self, _query: WinQuery<'_>) -> bool {
        true
    }
}

fn start_win_hand() -> RiichiHand {
    let dealer = Seat::new(RiichiVariant::Yonma, 0).expect("dealer");
    let progress = TableProgress::east_one(RiichiVariant::Yonma, dealer).expect("progress");
    RiichiHand::start(
        RiichiRules::default(),
        progress,
        vec![25_000; 4],
        &WallSeed::from_bytes([21; 32]),
    )
    .expect("start")
    .0
}

fn start_yonma_with(rules: RiichiRules, seed_number: u32) -> RiichiHand {
    let dealer = Seat::new(RiichiVariant::Yonma, 0).expect("dealer");
    let progress = TableProgress::east_one(RiichiVariant::Yonma, dealer).expect("progress");
    let mut seed = [0_u8; 32];
    seed[..4].copy_from_slice(&seed_number.to_le_bytes());
    RiichiHand::start(rules, progress, vec![25_000; 4], &WallSeed::from_bytes(seed))
        .expect("start")
        .0
}

fn start_yonma(seed_number: u32) -> RiichiHand {
    start_yonma_with(RiichiRules::default(), seed_number)
}

#[test]
fn tsumo_ends_hand_only_when_judge_accepts() {
    let mut rejected = start_win_hand();
    let dealer = Seat::new(RiichiVariant::Yonma, 0).expect("dealer");
    let before = rejected.clone();
    assert!(rejected.declare_tsumo(dealer, &RejectAllHandJudge).is_err());
    assert_eq!(rejected, before);

    let transition = rejected.declare_tsumo(dealer, &WinningJudge).expect("tsumo");
    assert_eq!(rejected.phase(), HandPhase::Ended { reason: EndReason::Tsumo });
    assert!(matches!(
        transition.events(),
        [HandEvent::TsumoDeclared { winner, .. }] if *winner == dealer
    ));
}

#[test]
fn riichi_establishes_only_after_declaration_tile_survives() {
    let mut hand = start_win_hand();
    let dealer = Seat::new(RiichiVariant::Yonma, 0).expect("dealer");
    let tile_id = hand.player(dealer).expect("dealer").concealed()[0].id();

    let declaration = hand
        .declare_riichi_and_discard(dealer, tile_id, &WinningJudge)
        .expect("declare riichi");

    assert!(matches!(
        declaration.events(),
        [HandEvent::TileDiscarded { riichi_declared: true, .. }]
    ));
    assert_eq!(hand.player(dealer).expect("dealer").riichi_status(), RiichiStatus::Pending);
    assert_eq!(hand.player(dealer).expect("dealer").points(), 25_000);

    let mut final_transition = None;
    for index in 1..4 {
        let seat = Seat::new(RiichiVariant::Yonma, index).expect("seat");
        final_transition = Some(hand.pass(seat, &WinningJudge).expect("pass"));
    }

    assert_eq!(hand.player(dealer).expect("dealer").riichi_status(), RiichiStatus::Established);
    assert_eq!(hand.player(dealer).expect("dealer").points(), 24_000);
    assert_eq!(hand.progress().riichi_sticks().value(), 1);
    assert!(hand.player(dealer).expect("dealer").is_ippatsu_eligible());
    assert!(final_transition
        .expect("final response")
        .events()
        .iter()
        .any(|event| matches!(event, HandEvent::RiichiEstablished { seat, .. } if *seat == dealer)));
}

#[test]
fn rejected_riichi_is_atomic() {
    let mut hand = start_win_hand();
    let dealer = Seat::new(RiichiVariant::Yonma, 0).expect("dealer");
    let tile_id = hand.player(dealer).expect("dealer").concealed()[0].id();
    let before = hand.clone();

    assert!(hand.declare_riichi_and_discard(dealer, tile_id, &RejectAllHandJudge).is_err());
    assert_eq!(hand, before);
}

#[test]
fn ron_on_declaration_tile_cancels_pending_riichi() {
    let mut hand = start_win_hand();
    let dealer = Seat::new(RiichiVariant::Yonma, 0).expect("dealer");
    let winner = Seat::new(RiichiVariant::Yonma, 1).expect("winner");
    let tile_id = hand.player(dealer).expect("dealer").concealed()[0].id();
    hand.declare_riichi_and_discard(dealer, tile_id, &WinningJudge).expect("declare");
    hand.respond(winner, Reaction::Ron, &WinningJudge).expect("ron");
    for index in 2..4 {
        hand.pass(Seat::new(RiichiVariant::Yonma, index).expect("seat"), &WinningJudge)
            .expect("pass");
    }

    assert_eq!(hand.player(dealer).expect("dealer").riichi_status(), RiichiStatus::NotDeclared);
    assert_eq!(hand.player(dealer).expect("dealer").points(), 25_000);
    assert_eq!(hand.progress().riichi_sticks().value(), 0);
    assert_eq!(hand.phase(), HandPhase::Ended { reason: EndReason::Ron });
}

#[test]
fn established_riichi_rejects_tedashi_atomically() {
    let mut hand = start_win_hand();
    let dealer = Seat::new(RiichiVariant::Yonma, 0).expect("dealer");
    let tile_id = hand.player(dealer).expect("dealer").concealed()[0].id();
    hand.declare_riichi_and_discard(dealer, tile_id, &WinningJudge).expect("declare");
    let mut discarder = dealer;
    loop {
        pass_all(&mut hand, discarder);
        let HandPhase::AwaitingTurnAction { seat } = hand.phase() else {
            panic!("expected turn");
        };
        if seat == dealer {
            break;
        }
        let drawn = hand.player(seat).expect("player").drawn_tile_id().expect("drawn");
        hand.discard(seat, drawn).expect("discard");
        discarder = seat;
    }
    assert_eq!(hand.player(dealer).expect("dealer").riichi_status(), RiichiStatus::Established);
    let drawn = hand
        .player(dealer)
        .expect("dealer")
        .drawn_tile_id()
        .expect("drawn");
    let tedashi = hand
        .player(dealer)
        .expect("dealer")
        .concealed()
        .iter()
        .find(|tile| tile.id() != drawn)
        .expect("another tile")
        .id();
    let before = hand.clone();

    assert!(hand.discard(dealer, tedashi).is_err());
    assert_eq!(hand, before);
}

#[test]
fn ron_priority_is_rule_driven_not_arrival_order() {
    let dealer = Seat::new(RiichiVariant::Yonma, 0).expect("dealer");
    let seat_one = Seat::new(RiichiVariant::Yonma, 1).expect("seat one");
    let seat_two = Seat::new(RiichiVariant::Yonma, 2).expect("seat two");
    let seat_three = Seat::new(RiichiVariant::Yonma, 3).expect("seat three");

    let mut multiple = start_yonma(77);
    let discard = multiple.player(dealer).expect("dealer").drawn_tile_id().expect("draw");
    multiple.discard(dealer, discard).expect("discard");
    multiple
        .respond(seat_two, Reaction::Ron, &AcceptWins)
        .expect("second seat ron arrives first");
    multiple
        .respond(seat_one, Reaction::Ron, &AcceptWins)
        .expect("nearest ron arrives second");
    let transition = multiple.pass(seat_three, &AcceptWins).expect("last response");
    assert_eq!(multiple.phase(), HandPhase::Ended { reason: EndReason::Ron });
    assert!(matches!(
        transition.events().last(),
        Some(HandEvent::RonDeclared { winners, .. })
            if winners.as_slice() == [seat_one, seat_two]
    ));

    let mut rules = RiichiRules::default();
    rules.settlement.ron_resolution = RonResolution::HeadBump;
    let mut head_bump = start_yonma_with(rules, 77);
    let discard = head_bump.player(dealer).expect("dealer").drawn_tile_id().expect("draw");
    head_bump.discard(dealer, discard).expect("discard");
    head_bump.respond(seat_two, Reaction::Ron, &AcceptWins).expect("ron");
    head_bump.respond(seat_one, Reaction::Ron, &AcceptWins).expect("ron");
    let transition = head_bump.pass(seat_three, &AcceptWins).expect("last response");
    assert!(matches!(
        transition.events().last(),
        Some(HandEvent::RonDeclared { winners, .. })
            if winners.as_slice() == [seat_one]
    ));
}

#[test]
fn declining_ron_sets_temporary_furiten_without_affecting_other_responses() {
    let mut hand = start_yonma(91);
    let dealer = Seat::new(RiichiVariant::Yonma, 0).expect("dealer");
    let actor = Seat::new(RiichiVariant::Yonma, 2).expect("actor");
    let discard = hand.player(dealer).expect("dealer").drawn_tile_id().expect("draw");
    hand.discard(dealer, discard).expect("discard");

    let transition = hand.pass(actor, &AcceptWins).expect("decline ron");

    assert!(hand.player(actor).expect("actor").is_temporary_furiten());
    assert!(transition.events().iter().any(|event| matches!(
        event,
        HandEvent::FuritenChanged { seat, temporary: true, .. } if *seat == actor
    )));
    assert_eq!(hand.phase(), HandPhase::AwaitingResponses { trigger_seat: dealer });
}

#[test]
fn next_draw_clears_temporary_furiten() {
    let mut hand = start_yonma(93);
    let dealer = Seat::new(RiichiVariant::Yonma, 0).expect("dealer");
    let next = Seat::new(RiichiVariant::Yonma, 1).expect("next");
    let discard = hand.player(dealer).expect("dealer").drawn_tile_id().expect("draw");
    hand.discard(dealer, discard).expect("discard");
    hand.pass(next, &AcceptWins).expect("decline ron");
    hand.pass(Seat::new(RiichiVariant::Yonma, 2).expect("seat"), &RejectAllHandJudge)
        .expect("pass");
    let transition = hand
        .pass(Seat::new(RiichiVariant::Yonma, 3).expect("seat"), &RejectAllHandJudge)
        .expect("last pass");

    assert!(!hand.player(next).expect("next").is_temporary_furiten());
    assert!(transition.events().iter().any(|event| matches!(
        event,
        HandEvent::FuritenChanged { seat, temporary: false, .. } if *seat == next
    )));
}

#[test]
fn invalid_claims_are_refused_without_change() {
    let mut hand = start_yonma(5);
    let dealer = Seat::new(RiichiVariant::Yonma, 0).expect("dealer");
    let caller = Seat::new(RiichiVariant::Yonma, 2).expect("caller");
    let discard = hand.player(dealer).expect("dealer").drawn_tile_id().expect("draw");
    hand.discard(dealer, discard).expect("discard");
    let before = hand.clone();
    let ids = [TileId::new(0), TileId::new(1)];
    assert_eq!(
        hand.respond(dealer, Reaction::Pon { hand_tiles: ids }, &RejectAllHandJudge),
        Err(HandError::DiscarderCannotReact)
    );
    assert!(hand
        .respond(caller, Reaction::OpenKan { hand_tiles: [ids[0], ids[1], ids[0]] }, &RejectAllHandJudge)
        .is_err());
    assert_eq!(
        hand.respond(caller, Reaction::Pon { hand_tiles: [ids[0], ids[0]] }, &RejectAllHandJudge),
        Err(HandError::DuplicateTileSelection)
    );
    assert_eq!(
        hand.respond(caller, Reaction::Ron, &RejectAllHandJudge),
        Err(HandError::WinNotAllowed)
    );
    assert_eq!(hand, before);
}

fn start_standard_hand() -> RiichiHand {
    let variant = RiichiVariant::Yonma;
    let dealer = Seat::new(variant, 0).expect("dealer");
    let progress = TableProgress::east_one(variant, dealer).expect("progress");
    RiichiHand::start(RiichiRules::standard(variant), progress, vec![25_000; 4], &WallSeed::from_bytes([31; 32]))
    .expect("start")
    .0
}

#[test]
fn nine_terminals_requires_first_turn_and_nine_distinct_kinds() {
    let mut hand = start_standard_hand();
    let dealer = Seat::new(RiichiVariant::Yonma, 0).expect("dealer");
    let kinds = ["1m", "9m", "1p", "9p", "1s", "9s", "1z", "2z", "3z"];
    let mut codes: Vec<String> = hand
        .player(dealer)
        .expect("dealer")
        .concealed()
        .iter()
        .map(|tile| tile.to_string())
        .collect();
    for (code, kind) in codes.iter_mut().zip(kinds) {
        *code = kind.to_string();
    }
    hand.set_concealed_tiles(dealer, &codes).expect("tile kind");

    let transition = hand.declare_nine_terminals(dealer).expect("nine terminals");

    assert_eq!(hand.phase(), HandPhase::Ended { reason: EndReason::NineTerminals });
    assert!(matches!(
        transition.events(),
        [HandEvent::AbortiveDrawDeclared {
            reason: EndReason::NineTerminals,
            declarer: Some(seat),
        }] if *seat == dealer
    ));
}

#[test]
fn rejected_nine_terminals_is_atomic() {
    let mut hand = start_standard_hand();
    let dealer = Seat::new(RiichiVariant::Yonma, 0).expect("dealer");
    let before = hand.clone();

    assert!(hand.declare_nine_terminals(dealer).is_err());
    assert_eq!(hand, before);
}

#[test]
fn set_concealed_tiles_checks_count_and_codes() {
    let mut hand = start_standard_hand();
    let seat = Seat::new(RiichiVariant::Yonma, 1).expect("seat");
    let before = hand.clone();
    assert_eq!(
        hand.set_concealed_tiles(seat, &["1m".to_string()]),
        Err(HandError::WrongConcealedTileCount { expected: 13, actual: 1 })
    );
    let mut codes = vec!["5p".to_string(); 13];
    codes[4] = "9q".to_string();
    assert_eq!(
        hand.set_concealed_tiles(seat, &codes),
        Err(HandError::InvalidTileCode("9q".to_string()))
    );
    assert_eq!(hand, before);
    codes[4] = "0p".to_string();
    hand.set_concealed_tiles(seat, &codes).expect("valid codes");
    let player = hand.player(seat).expect("player");
    assert_eq!(player.concealed()[4].to_string(), "0p");
    assert_eq!(player.concealed()[0].to_string(), "5p");
    for (after, prior) in player.concealed().iter().zip(before.player(seat).expect("player").concealed()) {
        assert_eq!(after.id(), prior.id());
    }
}

fn find_matching_scenario(required: usize) -> (RiichiHand, Seat, TileId, Vec<TileId>) {
    let dealer = Seat::new(RiichiVariant::Yonma, 0).expect("dealer");
    for seed in 0..10_000 {
        let hand = start_yonma(seed);
        let dealer_tiles = hand.player(dealer).expect("dealer").concealed().to_vec();
        for discard in dealer_tiles {
            for caller_index in 1..4 {
                let caller = Seat::new(RiichiVariant::Yonma, caller_index).expect("caller");
                let matching: Vec<_> = hand
                    .player(caller)
                    .expect("caller hand")
                    .concealed()
                    .iter()
                    .filter(|tile| tile.kind() == discard.kind())
                    .map(|tile| tile.id())
                    .collect();
                if matching.len() >= required {
                    return (hand, caller, discard.id(), matching);
                }
            }
        }
    }
    panic!("deterministic seed search did not find a matching call");
}

#[test]
fn invalid_call_is_atomic() {
    let (mut hand, caller, discard_id, _) = find_matching_scenario(2);
    let dealer = Seat::new(RiichiVariant::Yonma, 0).expect("dealer");
    hand.discard(dealer, discard_id).expect("discard");
    let before = hand.clone();

    assert!(hand
        .respond(
            caller,
            Reaction::Pon { hand_tiles: [TileId::new(u16::MAX), TileId::new(u16::MAX - 1)] },
            &RejectAllHandJudge,
        )
        .is_err());
    assert_eq!(hand, before);
}

#[test]
fn declining_ron_after_riichi_sets_persistent_riichi_furiten() {
    let mut hand = start_yonma(92);
    let dealer = Seat::new(RiichiVariant::Yonma, 0).expect("dealer");
    let actor = Seat::new(RiichiVariant::Yonma, 2).expect("actor");
    let mut seat = dealer;
    loop {
        let drawn = hand.player(seat).expect("player").drawn_tile_id().expect("draw");
        if seat == actor {
            hand.declare_riichi_and_discard(seat, drawn, &WinningJudge).expect("declare riichi");
        } else {
            hand.discard(seat, drawn).expect("discard");
        }
        pass_all(&mut hand, seat);
        let HandPhase::AwaitingTurnAction { seat: next } = hand.phase() else {
            panic!("expected turn");
        };
        seat = next;
        if seat == dealer {
            break;
        }
    }
    assert_eq!(hand.player(actor).expect("actor").riichi_status(), RiichiStatus::Established);
    let discard = hand.player(dealer).expect("dealer").drawn_tile_id().expect("draw");
    hand.discard(dealer, discard).expect("discard");

    hand.pass(actor, &AcceptWins).expect("decline ron");

    assert!(!hand.player(actor).expect("actor").is_temporary_furiten());
    assert!(hand.player(actor).expect("actor").is_riichi_furiten());
}

fn chi_fits(tiles: &[Tile], selected: [TileId; 2], called: Tile) -> bool {
    let c = called.kind().index();
    if c >= 27 || selected[0] == selected[1] {
        return false;
    }
    let pick = |id: TileId| tiles.iter().find(|tile| tile.id() == id).map(|tile| tile.kind().index());
    let (Some(a), Some(b)) = (pick(selected[0]), pick(selected[1])) else {
        return false;
    };
    if a >= 27 || b >= 27 || a / 9 != c / 9 || b / 9 != c / 9 {
        return false;
    }
    let mut ranks = [a, b, c];
    ranks.sort_unstable();
    ranks[1] == ranks[0] + 1 && ranks[2] == ranks[1] + 1
}

fn strict_chi_forbidden(called: usize, low: usize, high: usize) -> Vec<usize> {
    let mut forbidden = vec![called];
    if called == low && called % 9 <= 5 {
        forbidden.push(called + 3);
    } else if called == high && called % 9 >= 3 {
        forbidden.push(called - 3);
    }
    forbidden
}

fn find_chi_scenario() -> (RiichiHand, Seat, TileId, [TileId; 2], TileId) {
    let dealer = Seat::new(RiichiVariant::Yonma, 0).expect("dealer");
    let caller = Seat::new(RiichiVariant::Yonma, 1).expect("next seat");
    for seed in 0..10_000 {
        let hand = start_yonma(seed);
        let dealer_tiles = hand.player(dealer).expect("dealer").concealed().to_vec();
        let caller_tiles = hand.player(caller).expect("caller").concealed().to_vec();
        for discard in dealer_tiles {
            for left in 0..caller_tiles.len() {
                for right in left + 1..caller_tiles.len() {
                    let selected = [caller_tiles[left].id(), caller_tiles[right].id()];
                    if !chi_fits(&caller_tiles, selected, discard) {
                        continue;
                    }
                    let mut kinds = [
                        caller_tiles[left].kind().index(),
                        caller_tiles[right].kind().index(),
                        discard.kind().index(),
                    ];
                    kinds.sort_unstable();
                    let forbidden = strict_chi_forbidden(discard.kind().index(), kinds[0], kinds[2]);
                    if let Some(forbidden_tile) = caller_tiles.iter().find(|tile| {
                        tile.id() != selected[0]
                            && tile.id() != selected[1]
                            && forbidden.contains(&tile.kind().index())
                    }) {
                        return (hand, caller, discard.id(), selected, forbidden_tile.id());
                    }
                }
            }
        }
    }
    panic!("deterministic seed search did not find a chi with replacement restriction");
}

fn find_priority_scenario() -> (RiichiHand, TileId, [TileId; 2], Seat, [TileId; 2]) {
    let dealer = Seat::new(RiichiVariant::Yonma, 0).expect("dealer");
    let chi_seat = Seat::new(RiichiVariant::Yonma, 1).expect("next seat");
    for seed in 0..20_000 {
        let hand = start_yonma(seed);
        let dealer_tiles = hand.player(dealer).expect("dealer").concealed().to_vec();
        let chi_tiles = hand.player(chi_seat).expect("chi player").concealed().to_vec();
        for discard in dealer_tiles {
            let chi_selection = (0..chi_tiles.len()).find_map(|left| {
                (left + 1..chi_tiles.len()).find_map(|right| {
                    let selection = [chi_tiles[left].id(), chi_tiles[right].id()];
                    chi_fits(&chi_tiles, selection, discard).then_some(selection)
                })
            });
            let Some(chi_selection) = chi_selection else {
                continue;
            };
            for pon_index in 2..4 {
                let pon_seat = Seat::new(RiichiVariant::Yonma, pon_index).expect("pon seat");
                let matching: Vec<_> = hand
                    .player(pon_seat)
                    .expect("pon player")
                    .concealed()
                    .iter()
                    .filter(|tile| tile.kind() == discard.kind())
                    .map(|tile| tile.id())
                    .collect();
                if matching.len() >= 2 {
                    return (hand, discard.id(), chi_selection, pon_seat, [matching[0], matching[1]]);
                }
            }
        }
    }
    panic!("deterministic seed search did not find a chi/pon priority case");
}

fn pass_remaining(hand: &mut RiichiHand, trigger: Seat, already_responded: &[Seat]) -> HandTransition {
    let mut last = None;
    let variant = hand.rules().variant;
    for offset in 1..variant.seat_count().value() {
        let seat = seat_after(variant, trigger, offset);
        if !already_responded.contains(&seat) {
            last = Some(hand.pass(seat, &RejectAllHandJudge).expect("pass"));
        }
    }
    last.expect("at least one response remains")
}

#[test]
fn pon_claims_discard_and_transfers_turn_without_draw() {
    let (mut hand, caller, discard_id, matching) = find_matching_scenario(2);
    let dealer = Seat::new(RiichiVariant::Yonma, 0).expect("dealer");
    hand.discard(dealer, discard_id).expect("discard");
    hand.respond(caller, Reaction::Pon { hand_tiles: [matching[0], matching[1]] }, &RejectAllHandJudge)
        .expect("pon");

    let transition = pass_remaining(&mut hand, dealer, &[caller]);

    assert_eq!(hand.phase(), HandPhase::AwaitingDiscard { seat: caller });
    assert_eq!(hand.player(caller).expect("caller").melds().len(), 1);
    assert_eq!(hand.player(caller).expect("caller").melds()[0].kind(), MeldKind::Pon);
    assert!(transition
        .events()
        .iter()
        .any(|event| matches!(event, HandEvent::MeldDeclared { seat, .. } if *seat == caller)));
}

#[test]
fn chi_is_next_seat_only_and_enforces_replacement_restriction() {
    let (mut hand, caller, discard_id, selected, forbidden_discard) = find_chi_scenario();
    let dealer = Seat::new(RiichiVariant::Yonma, 0).expect("dealer");
    hand.discard(dealer, discard_id).expect("discard");
    hand.respond(caller, Reaction::Chi { hand_tiles: selected }, &RejectAllHandJudge)
        .expect("chi");
    pass_remaining(&mut hand, dealer, &[caller]);

    assert_eq!(hand.player(caller).expect("caller").melds()[0].kind(), MeldKind::Chi);
    let before = hand.clone();
    assert!(hand.discard(caller, forbidden_discard).is_err());
    assert_eq!(hand, before);
}

#[test]
fn pon_beats_chi_regardless_of_response_arrival_order() {
    let (mut hand, discard_id, chi_tiles, pon_seat, pon_tiles) = find_priority_scenario();
    let dealer = Seat::new(RiichiVariant::Yonma, 0).expect("dealer");
    let chi_seat = Seat::new(RiichiVariant::Yonma, 1).expect("chi seat");
    hand.discard(dealer, discard_id).expect("discard");
    hand.respond(chi_seat, Reaction::Chi { hand_tiles: chi_tiles }, &RejectAllHandJudge)
        .expect("chi response arrives first");
    hand.respond(pon_seat, Reaction::Pon { hand_tiles: pon_tiles }, &RejectAllHandJudge)
        .expect("pon response arrives second");
    pass_remaining(&mut hand, dealer, &[chi_seat, pon_seat]);

    assert!(hand.player(chi_seat).expect("chi player").melds().is_empty());
    assert_eq!(hand.player(pon_seat).expect("pon player").melds()[0].kind(), MeldKind::Pon);
    assert_eq!(hand.phase(), HandPhase::AwaitingDiscard { seat: pon_seat });
}

fn code_tile(id: u16, code: &str) -> Tile {
    Tile::new(TileId::new(id), code.parse::<TileKind>().expect("tile kind"), false).expect("tile")
}

/// Builds the meld a call would produce; `codes` are the meld tiles in order.
fn meld_of(kind: MeldKind, codes: &[&str], called: Tile) -> Meld {
    Meld::new(
        MeldId::new(0),
        kind,
        codes
            .iter()
            .enumerate()
            .map(|(index, code)| code_tile(u16::try_from(index).expect("tile id"), code))
            .collect::<Vec<_>>(),
        Some(Seat::new(RiichiVariant::Yonma, 0).expect("seat")),
        Some(called.id()),
    )
}

fn kind_list(codes: &[&str]) -> Vec<TileKind> {
    codes.iter().map(|code| code.parse::<TileKind>().expect("tile kind")).collect()
}

#[test]
fn kuikae_rule_selects_which_discards_a_call_forbids() {
    let called = code_tile(99, "3p");
    let meld = meld_of(MeldKind::Chi, &["3p", "4p", "5p"], called);

    assert_eq!(forbidden_after_call(KuikaeRule::Forbidden, MeldKind::Chi, called, &meld), kind_list(&["3p", "6p"]));
    assert_eq!(forbidden_after_call(KuikaeRule::SameTileOnly, MeldKind::Chi, called, &meld), kind_list(&["3p"]));
    assert!(forbidden_after_call(KuikaeRule::Allowed, MeldKind::Chi, called, &meld).is_empty());
}

#[test]
fn suji_kuikae_needs_a_chi_that_extends_a_sequence_end() {
    let upper = code_tile(99, "6p");
    let upper_meld = meld_of(MeldKind::Chi, &["4p", "5p", "6p"], upper);
    assert_eq!(forbidden_after_call(KuikaeRule::Forbidden, MeldKind::Chi, upper, &upper_meld), kind_list(&["3p", "6p"]));

    let middle = code_tile(99, "3p");
    let middle_meld = meld_of(MeldKind::Chi, &["2p", "3p", "4p"], middle);
    assert_eq!(forbidden_after_call(KuikaeRule::Forbidden, MeldKind::Chi, middle, &middle_meld), kind_list(&["3p"]));

    let edge = code_tile(99, "3p");
    let edge_meld = meld_of(MeldKind::Chi, &["1p", "2p", "3p"], edge);
    assert_eq!(forbidden_after_call(KuikaeRule::Forbidden, MeldKind::Chi, edge, &edge_meld), kind_list(&["3p"]));

    let ponned = code_tile(99, "3p");
    let pon_meld = meld_of(MeldKind::Pon, &["3p", "3p", "3p"], ponned);
    assert_eq!(forbidden_after_call(KuikaeRule::Forbidden, MeldKind::Pon, ponned, &pon_meld), kind_list(&["3p"]));
}

#[test]
fn automatic_reactions_do_nothing_outside_a_discard_window() {
    let mut hand = start_hand(RiichiVariant::Yonma, 0);
    let before = hand.clone();
    let transition = hand.advance_automatic_reactions(&RejectAllHandJudge).expect("advance");
    assert!(transition.events().is_empty());
    assert_eq!(hand, before);
}

#[test]
fn the_discarder_has_no_reaction_to_its_own_tile() {
    let mut hand = start_hand(RiichiVariant::Yonma, 0);
    let dealer = Seat::new(RiichiVariant::Yonma, 0).expect("dealer");
    let drawn = hand.player(dealer).expect("dealer").drawn_tile_id().expect("drawn tile");
    hand.discard(dealer, drawn).expect("discard");
    let options = hand.available_reactions(dealer, &RejectAllHandJudge).expect("options");
    assert!(options.is_empty());
}

fn find_uncallable_discard() -> (RiichiHand, Seat, TileId) {
    let dealer = Seat::new(RiichiVariant::Yonma, 0).expect("dealer");
    for seed in 0..10_000 {
        let hand = start_yonma(seed);
        let discards = hand.player(dealer).expect("dealer").concealed().to_vec();
        for discard in discards {
            let mut candidate = hand.clone();
            candidate.discard(dealer, discard.id()).expect("candidate discard");
            let no_reactions = (1..4).all(|index| {
                let seat = Seat::new(RiichiVariant::Yonma, index).expect("opponent");
                candidate
                    .available_reactions(seat, &RejectAllHandJudge)
                    .expect("reaction options")
                    .is_empty()
            });
            if no_reactions {
                return (hand, dealer, discard.id());
            }
        }
    }
    panic!("deterministic seed search did not find an uncallable discard");
}

#[test]
fn unavailable_reactions_are_skipped_and_next_player_draws_immediately() {
    let (mut hand, dealer, discard_id) = find_uncallable_discard();
    let next = Seat::new(RiichiVariant::Yonma, 1).expect("next seat");
    hand.discard(dealer, discard_id).expect("discard");

    let transition = hand.advance_automatic_reactions(&RejectAllHandJudge).expect("automatic reactions");

    assert_eq!(hand.phase(), HandPhase::AwaitingTurnAction { seat: next });
    assert!(transition
        .events()
        .iter()
        .any(|event| matches!(event, HandEvent::TileDrawn { seat, .. } if *seat == next)));
}

#[test]
fn reaction_options_include_exact_pon_tile_ids() {
    let (mut hand, caller, discard_id, matching) = find_matching_scenario(2);
    let dealer = Seat::new(RiichiVariant::Yonma, 0).expect("dealer");
    hand.discard(dealer, discard_id).expect("discard");

    let options = hand.available_reactions(caller, &RejectAllHandJudge).expect("reaction options");

    assert!(options.iter().any(|reaction| {
        matches!(
            reaction,
            Reaction::Pon { hand_tiles }
                if hand_tiles.contains(&matching[0]) && hand_tiles.contains(&matching[1])
        )
    }));
}

#[test]
fn a_possible_pon_keeps_the_window_open() {
    let (mut hand, _caller, discard_id, _matching) = find_matching_scenario(2);
    let dealer = Seat::new(RiichiVariant::Yonma, 0).expect("dealer");
    hand.discard(dealer, discard_id).expect("discard");
    let transition = hand.advance_automatic_reactions(&RejectAllHandJudge).expect("advance");
    assert!(transition.events().is_empty());
    assert_eq!(hand.phase(), HandPhase::AwaitingResponses { trigger_seat: dealer });
}

fn yonma_rules_with_abortive_draw(four_winds: bool, four_riichi: bool) -> RiichiRules {
    let mut rules = RiichiRules::standard(RiichiVariant::Yonma);
    rules.abortive_draws.four_winds = four_winds;
    rules.abortive_draws.four_riichi = four_riichi;
    rules
}

#[test]
fn identical_first_wind_discards_abort_yonma() {
    for seed in 0..20_000 {
        for code in ["1z", "2z", "3z", "4z"] {
            let wind: TileKind = code.parse().expect("wind tile kind");
            let mut hand = start_yonma_with(yonma_rules_with_abortive_draw(true, false), seed);
            let mut last = None;
            for index in 0..4 {
                let seat = Seat::new(RiichiVariant::Yonma, index).expect("seat");
                let held = hand
                    .player(seat)
                    .expect("player")
                    .concealed()
                    .iter()
                    .find(|tile| tile.kind() == wind)
                    .map(|tile| tile.id());
                match held {
                    Some(id) => {
                        hand.discard(seat, id).expect("discard");
                        last = Some(pass_all(&mut hand, seat));
                    },
                    None => {
                        last = None;
                        break;
                    },
                }
            }
            let Some(transition) = last else {
                continue;
            };
            assert_eq!(hand.phase(), HandPhase::Ended { reason: EndReason::FourWinds });
            assert!(matches!(
                transition.events().last(),
                Some(HandEvent::AbortiveDrawDeclared { reason: EndReason::FourWinds, declarer: None })
            ));
            return;
        }
    }
    panic!("deterministic seed search did not find four identical first wind discards");
}

struct AcceptRiichi;

impl HandJudge for AcceptRiichi {
    fn can_riichi(&self, _query: RiichiQuery<'_>) -> bool {
        true
    }
}

#[test]
fn four_established_riichi_abort_after_ron_window() {
    let mut hand = start_yonma_with(yonma_rules_with_abortive_draw(false, true), 5);
    let mut last = None;
    for index in 0..4 {
        let seat = Seat::new(RiichiVariant::Yonma, index).expect("seat");
        let drawn = hand.player(seat).expect("player").drawn_tile_id().expect("drawn tile");
        hand.declare_riichi_and_discard(seat, drawn, &AcceptRiichi).expect("riichi");
        last = Some(pass_all(&mut hand, seat));
    }
    let transition = last.expect("four discards");
    assert_eq!(hand.phase(), HandPhase::Ended { reason: EndReason::FourRiichi });
    assert!(matches!(
        transition.events().last(),
        Some(HandEvent::AbortiveDrawDeclared { reason: EndReason::FourRiichi, declarer: None })
    ));
}

fn start_checkpoint_hand(seed: u8) -> RiichiHand {
    let variant = RiichiVariant::Yonma;
    let dealer = Seat::new(variant, 0).expect("dealer");
    let progress = TableProgress::east_one(variant, dealer).expect("progress");
    RiichiHand::start(RiichiRules::standard(variant), progress, vec![25_000; 4], &WallSeed::from_bytes([seed; 32]))
        .expect("start")
        .0
}

#[test]
fn checkpoint_round_trip_preserves_state_and_event_sequence() {
    let mut hand = start_checkpoint_hand(41);
    let dealer = Seat::new(RiichiVariant::Yonma, 0).expect("dealer");
    let discard = hand.player(dealer).expect("dealer").drawn_tile_id().expect("drawn tile");
    hand.discard(dealer, discard).expect("discard");

    let checkpoint = hand.checkpoint(18).expect("valid checkpoint");
    assert_eq!(checkpoint.schema_version(), HAND_CHECKPOINT_SCHEMA_VERSION);
    assert_eq!(checkpoint.last_event_sequence(), 18);

    let (restored, last_event_sequence) = checkpoint.restore().expect("restore");

    assert_eq!(restored, hand);
    assert_eq!(last_event_sequence, 18);
}

#[test]
fn checkpoint_validates_called_tile_history() {
    let (mut hand, caller, discard_id, matching) = find_matching_scenario(2);
    let dealer = Seat::new(RiichiVariant::Yonma, 0).expect("dealer");
    hand.discard(dealer, discard_id).expect("discard");
    hand.respond(caller, Reaction::Pon { hand_tiles: [matching[0], matching[1]] }, &RejectAllHandJudge)
        .expect("pon");
    for index in 1..4 {
        let seat = Seat::new(RiichiVariant::Yonma, index).expect("seat");
        if seat != caller {
            hand.pass(seat, &RejectAllHandJudge).expect("pass");
        }
    }

    assert_eq!(hand.phase(), HandPhase::AwaitingDiscard { seat: caller });
    hand.checkpoint(22).expect("called state is valid");
}

#[test]
fn a_fresh_hand_keeps_its_invariant_and_restores_unchanged() {
    let hand = start_checkpoint_hand(43);
    assert_eq!(hand.validate_invariants(), Ok(()));
    let restored: Result<(RiichiHand, u64), HandCheckpointError> =
        hand.checkpoint(7).expect("checkpoint").restore();
    assert_eq!(restored, Ok((hand, 7)));
}

#[test]
fn call_helpers_reject_impossible_empty_inputs() {
    let called = Tile::new(TileId::new(99), "3p".parse::<TileKind>().expect("tile kind"), false).expect("tile");

    assert!(validate_chi(&[], &[TileId::new(1), TileId::new(2)], called).is_err());
}

#[test]
fn validate_chi_accepts_a_run_and_names_each_refusal() {
    let tile = |id: u16, code: &str| {
        Tile::new(TileId::new(id), code.parse::<TileKind>().expect("tile kind"), false).expect("tile")
    };
    let concealed = vec![tile(1, "2p"), tile(2, "4p"), tile(3, "4s"), tile(4, "1z")];
    assert_eq!(validate_chi(&concealed, &[TileId::new(1), TileId::new(2)], tile(9, "3p")), Ok(()));
    assert_eq!(
        validate_chi(&concealed, &[TileId::new(1), TileId::new(1)], tile(9, "3p")),
        Err(HandError::DuplicateTileSelection)
    );
    assert_eq!(
        validate_chi(&concealed, &[TileId::new(1), TileId::new(3)], tile(9, "3p")),
        Err(HandError::InvalidReaction { reason: "chi tiles must have the same suit" })
    );
    assert_eq!(
        validate_chi(&concealed, &[TileId::new(1), TileId::new(2)], tile(9, "5p")),
        Err(HandError::InvalidReaction { reason: "chi tiles must form a consecutive sequence" })
    );
    assert_eq!(
        validate_chi(&concealed, &[TileId::new(1), TileId::new(2)], tile(9, "2z")),
        Err(HandError::InvalidReaction { reason: "honor tiles cannot be used in chi" })
    );
}

#[test]
fn a_wait_among_own_discards_is_furiten() {
    let mut hand = start_standard_hand();
    let dealer = Seat::new(RiichiVariant::Yonma, 0).expect("dealer");
    let other = Seat::new(RiichiVariant::Yonma, 1).expect("other");
    assert_eq!(hand.is_furiten(dealer), Ok(false));
    let codes: Vec<String> = ["1m", "2m", "3m", "4p", "5p", "6p", "7s", "8s", "9s", "1z", "1z", "1z", "2z", "2z"]
        .iter()
        .map(|code| code.to_string())
        .collect();
    hand.set_concealed_tiles(dealer, &codes).expect("codes");
    let drawn = hand.player(dealer).expect("dealer").drawn_tile_id().expect("drawn tile");
    assert_eq!(hand.player(dealer).expect("dealer").concealed()[13].id(), drawn);
    hand.discard(dealer, drawn).expect("discard");
    assert_eq!(hand.is_furiten(dealer), Ok(true));
    assert_eq!(hand.is_furiten(other), Ok(false));
}

#[test]
fn suits_have_names_and_code_letters() {
    assert_eq!(Suit::Man.as_str(), "man");
    assert_eq!(Suit::Pin.as_str(), "pin");
    assert_eq!(Suit::Sou.as_str(), "sou");
    assert_eq!(Suit::Man.code(), 'm');
    assert_eq!(Suit::Pin.code(), 'p');
    assert_eq!(Suit::Sou.code(), 's');
}

#[test]
fn open_kan_reveals_dora_and_draws_rinshan() {
    let (mut hand, caller, discard_id, matching) = find_matching_scenario(3);
    let dealer = Seat::new(RiichiVariant::Yonma, 0).expect("dealer");
    let before = hand.remaining_live_draws();
    hand.discard(dealer, discard_id).expect("discard");
    hand.respond(
        caller,
        Reaction::OpenKan { hand_tiles: [matching[0], matching[1], matching[2]] },
        &RejectAllHandJudge,
    )
    .expect("kan");

    let transition = pass_remaining(&mut hand, dealer, &[caller]);

    assert_eq!(hand.phase(), HandPhase::AwaitingTurnAction { seat: caller });
    assert_eq!(hand.remaining_live_draws(), before - 1);
    assert!(transition
        .events()
        .iter()
        .any(|event| matches!(event, HandEvent::DoraIndicatorRevealed { revealed_count: 2, .. })));
    assert!(transition.events().iter().any(|event| matches!(
        event,
        HandEvent::TileDrawn { seat, source: DrawSource::Rinshan, .. } if *seat == caller
    )));
    let caller_hand = hand.player(caller).expect("caller");
    assert_eq!(caller_hand.melds().len(), 1);
    assert_eq!(caller_hand.melds()[0].kind(), MeldKind::OpenKan);
    assert_eq!(caller_hand.melds()[0].tiles().len(), 4);
    assert_eq!(hand.completed_rinshan_draws(), 1);
}

#[test]
fn checkpoint_validates_completed_kan_counters() {
    let (mut hand, caller, discard_id, matching) = find_matching_scenario(3);
    let dealer = Seat::new(RiichiVariant::Yonma, 0).expect("dealer");
    hand.discard(dealer, discard_id).expect("discard");
    hand.respond(
        caller,
        Reaction::OpenKan { hand_tiles: [matching[0], matching[1], matching[2]] },
        &RejectAllHandJudge,
    )
    .expect("open kan");
    for index in 1..4 {
        let seat = Seat::new(RiichiVariant::Yonma, index).expect("seat");
        if seat != caller {
            hand.pass(seat, &RejectAllHandJudge).expect("pass");
        }
    }

    assert_eq!(hand.phase(), HandPhase::AwaitingTurnAction { seat: caller });
    hand.checkpoint(26).expect("kan state is valid");
}

#[test]
fn open_kan_needs_three_held_tiles_of_the_called_kind() {
    let (mut hand, caller, discard_id, matching) = find_matching_scenario(3);
    let dealer = Seat::new(RiichiVariant::Yonma, 0).expect("dealer");
    hand.discard(dealer, discard_id).expect("discard");
    let before = hand.clone();
    assert_eq!(
        hand.respond(
            caller,
            Reaction::OpenKan { hand_tiles: [matching[0], matching[0], matching[2]] },
            &RejectAllHandJudge,
        ),
        Err(HandError::DuplicateTileSelection)
    );
    assert_eq!(
        hand.respond(
            caller,
            Reaction::OpenKan { hand_tiles: [matching[0], matching[1], TileId::new(u16::MAX)] },
            &RejectAllHandJudge,
        ),
        Err(HandError::TileNotInHand { tile_id: TileId::new(u16::MAX) })
    );
    assert_eq!(hand, before);
}

#[test]
fn reaction_options_include_an_open_kan_on_three_held_copies() {
    let (mut hand, caller, discard_id, matching) = find_matching_scenario(3);
    let dealer = Seat::new(RiichiVariant::Yonma, 0).expect("dealer");
    hand.discard(dealer, discard_id).expect("discard");

    let options = hand.available_reactions(caller, &RejectAllHandJudge).expect("reaction options");

    assert!(options.contains(&Reaction::OpenKan { hand_tiles: [matching[0], matching[1], matching[2]] }));
    let pon_position = options
        .iter()
        .position(|reaction| matches!(reaction, Reaction::Pon { .. }))
        .expect("a pon is open too");
    let kan_position = options
        .iter()
        .position(|reaction| matches!(reaction, Reaction::OpenKan { .. }))
        .expect("an open kan");
    assert!(pon_position < kan_position);
}

fn codes_of(list: &[&str]) -> Vec<String> {
    list.iter().map(|code| code.to_string()).collect()
}

#[test]
fn waiting_tile_hints_list_each_wait_with_whether_it_scores() {
    let mut hand = start_standard_hand();
    let seat = Seat::new(RiichiVariant::Yonma, 1).expect("seat");
    let codes = codes_of(&["1m", "2m", "3m", "4p", "5p", "6p", "7s", "8s", "9s", "1z", "1z", "1z", "2z"]);
    hand.set_concealed_tiles(seat, &codes).expect("codes");
    let hints = hand.waiting_tile_hints(seat).expect("hints");
    let south: TileKind = "2z".parse().expect("kind");
    assert_eq!(hints, vec![(south, true)]);
    let bad = Seat::new(RiichiVariant::Yonma, 3).expect("seat");
    assert!(hand.waiting_tile_hints(bad).is_ok());
}

#[test]
fn a_pending_ron_is_evaluated_only_in_a_discard_window() {
    let mut hand = start_standard_hand();
    let dealer = Seat::new(RiichiVariant::Yonma, 0).expect("dealer");
    let seat = Seat::new(RiichiVariant::Yonma, 1).expect("seat");
    assert_eq!(hand.evaluate_pending_ron(seat), Err(HandError::WinNotAllowed));
    let codes = codes_of(&["1m", "2m", "3m", "4p", "5p", "6p", "7s", "8s", "9s", "1z", "1z", "1z", "2z"]);
    hand.set_concealed_tiles(seat, &codes).expect("codes");
    let mut dealer_codes: Vec<String> = hand
        .player(dealer)
        .expect("dealer")
        .concealed()
        .iter()
        .map(|tile| tile.to_string())
        .collect();
    dealer_codes[13] = "2z".to_string();
    hand.set_concealed_tiles(dealer, &dealer_codes).expect("dealer codes");
    let drawn = hand.player(dealer).expect("dealer").drawn_tile_id().expect("drawn");
    hand.discard(dealer, drawn).expect("discard");
    assert!(hand.evaluate_pending_ron(seat).is_ok());
    let other = Seat::new(RiichiVariant::Yonma, 2).expect("other");
    assert!(hand.evaluate_pending_ron(other).is_err());
}

#[test]
fn messages_write_numbers_in_plain_decimal() {
    let error = HandError::InvalidSeat { index: 0, seat_count: 255 };
    assert_eq!(error.message(), "seat index 0 is outside a 255-player hand");
    let error = HandError::InvalidSeat { index: 10, seat_count: 100 };
    assert_eq!(error.message(), "seat index 10 is outside a 100-player hand");
}
