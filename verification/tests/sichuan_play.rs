use mahjong::sichuan::{
    EndReason, HandPhase, MatchError, MeldKind, Seat, SichuanHand, SichuanMatch, SichuanRules,
    Suit, TileId, TurnAction, WallSeed, Yaku, FLOWER_PIG_POINTS, HAND_COUNT, INITIAL_POINTS,
};

fn seat(index: u8) -> Seat {
    Seat::new(index).expect("valid seat")
}

fn seed(byte: u8) -> WallSeed {
    WallSeed::from_bytes([byte; 32])
}

fn opening() -> SichuanHand {
    SichuanHand::new(SichuanRules::standard(), seat(0), &seed(7))
}

fn que_play() -> SichuanHand {
    let mut hand = opening();
    hand.force_start_play([Suit::Man, Suit::Pin, Suit::Sou, Suit::Man]);
    hand
}

fn kinds(spec: &str) -> Vec<String> {
    spec.split_whitespace().map(str::to_owned).collect()
}

fn table() -> SichuanMatch {
    SichuanMatch::new(SichuanRules::standard())
}

fn start_play(table: &mut SichuanMatch) {
    table.start_hand(&seed(11)).expect("hand starts");
    table
        .hand_mut()
        .expect("hand in progress")
        .force_start_play([Suit::Man, Suit::Pin, Suit::Sou, Suit::Man]);
}

#[test]
fn opening_deals_the_dealer_a_fourteenth_tile_and_awaits_exchange() {
    let hand = opening();
    assert_eq!(hand.player(seat(0)).concealed().len(), 14);
    assert!(hand.player(seat(0)).drawn().is_none());
    for index in 1..4 {
        assert_eq!(hand.player(seat(index)).concealed().len(), 13);
    }
    assert_eq!(hand.phase(), HandPhase::AwaitingExchange);
    assert_eq!(hand.pending_exchange().len(), 4);
}

#[test]
fn exchange_passes_the_three_tiles_in_the_dice_direction() {
    let mut hand = opening();
    let direction = hand.exchange_direction();
    let suits = [Suit::Man, Suit::Pin, Suit::Sou, Suit::Man];
    let filler_suits = [Suit::Pin, Suit::Sou, Suit::Man, Suit::Pin];
    for index in 0..4 {
        let base = match suits[index] {
            Suit::Man => kinds("1m 2m 3m"),
            Suit::Pin => kinds("1p 2p 3p"),
            Suit::Sou => kinds("1s 2s 3s"),
        };
        let filler = match filler_suits[index] {
            Suit::Man => kinds("1m 1m 2m 2m 3m 3m 4m 4m 5m 5m"),
            Suit::Pin => kinds("1p 1p 2p 2p 3p 3p 4p 4p 5p 5p"),
            Suit::Sou => kinds("1s 1s 2s 2s 3s 3s 4s 4s 5s 5s"),
        };
        let mut codes = base;
        codes.extend(filler);
        if hand.dealer() == seat(index as u8) {
            codes.push(
                match filler_suits[index] {
                    Suit::Man => "6m",
                    Suit::Pin => "6p",
                    Suit::Sou => "6s",
                }
                .to_owned(),
            );
        }
        hand.set_concealed_tiles(seat(index as u8), &codes)
            .expect("plant hand");
    }
    let mut picks = [[None::<TileId>; 3]; 4];
    for index in 0..4 {
        let suit = suits[index];
        let ids: Vec<_> = hand
            .player(seat(index as u8))
            .concealed()
            .iter()
            .filter(|t| t.kind().suit() == Some(suit))
            .map(|t| t.id())
            .collect();
        assert_eq!(ids.len(), 3);
        let ids = [ids[0], ids[1], ids[2]];
        picks[index] = ids.map(Some);
        hand.submit_exchange(seat(index as u8), ids)
            .expect("exchange valid");
    }
    assert_eq!(hand.phase(), HandPhase::AwaitingExchangeAnimation);
    hand.advance_from_exchange_animation()
        .expect("exchange animation complete");
    assert_eq!(hand.phase(), HandPhase::AwaitingDingQue);
    for index in 0..4 {
        let recipient = direction.recipient_of(seat(index as u8));
        let mine = picks[index].map(Option::unwrap);
        let recipient_ids: Vec<_> = hand
            .player(recipient)
            .concealed()
            .iter()
            .map(|t| t.id())
            .collect();
        for id in mine {
            assert!(recipient_ids.contains(&id));
        }
    }
}

#[test]
fn exchange_rejects_mixed_suits() {
    let mut hand = opening();
    let codes = kinds("1p 2p 1m 1m 2m 2m 3m 3m 4m 4m 5m 5m 6m 6m");
    hand.set_concealed_tiles(seat(0), &codes)
        .expect("plant hand");
    let concealed = hand.player(seat(0)).concealed();
    let pin: Vec<_> = concealed
        .iter()
        .filter(|t| t.kind().suit() == Some(Suit::Pin))
        .map(|t| t.id())
        .collect();
    let man = concealed
        .iter()
        .find(|t| t.kind().suit() == Some(Suit::Man))
        .expect("has man")
        .id();
    let ids = [pin[0], pin[1], man];
    assert!(hand.submit_exchange(seat(0), ids).is_err());
}

#[test]
fn dingque_then_the_dealer_opens_the_turn() {
    let mut hand = opening();
    for index in 0..4 {
        let codes = if hand.dealer() == seat(index) {
            kinds("1m 1m 1m 2m 2m 2m 3m 3m 3m 4m 4m 4m 5m 5m")
        } else {
            kinds("1m 1m 1m 2m 2m 2m 3m 3m 3m 4m 4m 4m 5m")
        };
        hand.set_concealed_tiles(seat(index), &codes)
            .expect("plant hand");
        let ids = [
            hand.player(seat(index)).concealed()[0].id(),
            hand.player(seat(index)).concealed()[1].id(),
            hand.player(seat(index)).concealed()[2].id(),
        ];
        hand.submit_exchange(seat(index), ids)
            .expect("exchange valid");
    }
    assert_eq!(hand.phase(), HandPhase::AwaitingExchangeAnimation);
    hand.advance_from_exchange_animation()
        .expect("exchange animation complete");
    for index in 0..4 {
        hand.submit_dingque(seat(index), Suit::Man)
            .expect("dingque valid");
    }
    assert_eq!(hand.phase(), HandPhase::AwaitingTurnAction { seat: seat(0) });
    assert_eq!(hand.player(seat(0)).concealed().len(), 14);
    assert!(hand.player(seat(0)).drawn().is_some());
}

#[test]
fn discards_must_clear_the_que_suit_first() {
    let mut hand = que_play();
    hand.set_concealed_tiles(seat(0), &kinds("1m 1m 1p 2p 3p 4p 5p 6p 7p 8p 9p 2m 3m 4m"))
        .expect("plant hand");
    let pin = hand
        .player(seat(0))
        .concealed()
        .iter()
        .find(|t| t.kind().suit() == Some(Suit::Pin))
        .expect("has pin")
        .id();
    assert!(hand
        .apply_turn_action(seat(0), TurnAction::Discard { tile: pin })
        .is_err());
    let man = hand
        .player(seat(0))
        .concealed()
        .iter()
        .find(|t| t.kind().suit() == Some(Suit::Man))
        .expect("has man")
        .id();
    hand.apply_turn_action(seat(0), TurnAction::Discard { tile: man })
        .expect("discarding que suit is legal");
}

#[test]
fn a_tsumo_win_marks_the_winner_and_play_continues() {
    let mut hand = que_play();
    let winning = kinds("1p 2p 3p 4p 5p 6p 7p 8p 9p 1p 1p 1p 2p 2p");
    hand.set_concealed_tiles(seat(0), &winning)
        .expect("plant hand");
    let actions = hand.turn_actions(seat(0));
    assert!(actions.can_tsumo);
    hand.apply_turn_action(seat(0), TurnAction::Tsumo)
        .expect("tsumo is legal");
    assert!(hand.won(seat(0)));
    assert_eq!(hand.winners().len(), 1);
    let winner = &hand.winners()[0];
    assert!(winner.is_tsumo());
    assert_eq!(winner.evaluation().fan(), 4);
    assert!(winner
        .evaluation()
        .yaku()
        .iter()
        .any(|y| y.yaku() == Yaku::QingYiSe));
    assert_eq!(hand.point_deltas(), &[24000, -8000, -8000, -8000]);
    assert_eq!(hand.phase(), HandPhase::AwaitingWinAnimation { seat: seat(0) });
    hand.advance_from_win_animation(seat(0))
        .expect("win animation complete");
    assert_eq!(hand.phase(), HandPhase::AwaitingTurnAction { seat: seat(1) });
}

#[test]
fn a_concealed_kan_charges_the_other_active_players_two_each() {
    let mut hand = que_play();
    hand.set_concealed_tiles(seat(0), &kinds("1m 1m 1m 1m 2m 2m 3m 3m 4m 4m 5m 5m 6m 6m"))
        .expect("plant hand");
    hand.apply_turn_action(
        seat(0),
        TurnAction::ConcealedKan {
            tile: "1m".parse().unwrap(),
        },
    )
    .expect("concealed kan legal");
    assert_eq!(hand.point_deltas(), &[6000, -2000, -2000, -2000]);
    assert_eq!(hand.kan_events().len(), 1);
    assert_eq!(hand.kan_events()[0].kind(), MeldKind::ConcealedKan);
    assert_eq!(hand.phase(), HandPhase::AwaitingKanAnimation { seat: seat(0) });
    hand.advance_from_kan_animation(seat(0)).expect("replacement draw");
    assert_eq!(hand.phase(), HandPhase::AwaitingTurnAction { seat: seat(0) });
    assert_eq!(hand.completed_rinshan_draws(), 1);
    assert_eq!(hand.player(seat(0)).kan_count(), 1);
}

#[test]
fn ending_with_three_winners_reports_three_winners() {
    let mut hand = que_play();
    hand.force_end(EndReason::ThreeWinners);
    assert_eq!(hand.reason(), Some(EndReason::ThreeWinners));
}

#[test]
fn every_seat_starts_at_zero_points_with_east_dealing() {
    let table = table();

    assert_eq!(table.points(), &[INITIAL_POINTS; 4]);
    assert_eq!(table.progress().dealer(), seat(0));
    assert_eq!(table.progress().hand_index(), 0);
    assert!(!table.is_finished());
}

#[test]
fn a_hand_must_be_settled_before_the_next_one_starts() {
    let mut table = table();

    table.start_hand(&seed(3)).expect("the first hand starts");

    assert_eq!(table.start_hand(&seed(3)), Err(MatchError::HandInProgress));
}

#[test]
fn an_unfinished_hand_cannot_be_settled() {
    let mut table = table();
    assert_eq!(table.settle_hand(), Err(MatchError::NoHandInProgress));

    table.start_hand(&seed(5)).expect("the first hand starts");

    assert_eq!(table.settle_hand(), Err(MatchError::HandNotFinished));
}

#[test]
fn a_tsumo_win_settles_into_the_winner_and_points() {
    let mut table = table();
    start_play(&mut table);
    {
        let hand = table.hand_mut().expect("hand in progress");
        hand.set_concealed_tiles(seat(0), &kinds("1p 2p 3p 4p 5p 6p 7p 8p 9p 1p 1p 1p 2p 2p"))
            .expect("plant hand");
        hand.apply_turn_action(seat(0), TurnAction::Tsumo)
            .expect("tsumo");
        hand.force_end(EndReason::ThreeWinners);
    }

    let settlement = table.settle_hand().expect("the hand settles");

    assert_eq!(settlement.reason(), EndReason::ThreeWinners);
    assert_eq!(settlement.winners().len(), 1);
    assert_eq!(settlement.winners()[0].seat(), seat(0));
    assert_eq!(settlement.point_deltas(), &[24000, -8000, -8000, -8000]);
    assert_eq!(table.points(), &[24000, -8000, -8000, -8000]);
}

#[test]
fn match_state_a_void_hand_keeps_the_same_dealer() {
    let mut table = table();
    start_play(&mut table);
    table
        .hand_mut()
        .expect("hand in progress")
        .force_end(EndReason::ExhaustiveDraw);

    let settlement = table.settle_hand().expect("the hand settles");

    assert_eq!(settlement.reason(), EndReason::ExhaustiveDraw);
    assert!(settlement.winners().is_empty());
    assert_eq!(table.progress().dealer(), seat(0));
    assert_eq!(table.progress().hand_index(), 1);
    assert!(!table.is_finished());
}

#[test]
fn flower_pigs_pay_each_other_non_winner_eight() {
    let mut table = table();
    start_play(&mut table);
    {
        let hand = table.hand_mut().expect("hand in progress");
        hand.set_concealed_tiles(seat(0), &kinds("1m 2m 3m 1p 2p 3p 1s 2s 3s 4m 5m 4p 5p 4s"))
            .expect("plant hand");
        hand.set_concealed_tiles(seat(1), &kinds("1p 2p 3p 4p 5p 6p 7p 8p 9p 1m 2m 3m 1m"))
            .expect("plant hand");
        hand.set_concealed_tiles(seat(2), &kinds("1s 2s 3s 4s 5s 6s 7s 8s 9s 1m 2m 3m 1m"))
            .expect("plant hand");
        hand.set_concealed_tiles(seat(3), &kinds("1m 2m 3m 4m 5m 6m 7m 8m 9m 1p 2p 3p 1p"))
            .expect("plant hand");
        hand.force_end(EndReason::ExhaustiveDraw);
    }

    let settlement = table.settle_hand().expect("the hand settles");

    let que = settlement.que().expect("a void hand runs the que check");
    assert_eq!(que.flower_pigs(), &[seat(0)]);
    assert!(que.tenpai().is_empty());
    assert_eq!(que.noten().len(), 4);
    assert_eq!(
        que.deltas(),
        &[-3 * FLOWER_PIG_POINTS, FLOWER_PIG_POINTS, FLOWER_PIG_POINTS, FLOWER_PIG_POINTS]
    );
    assert_eq!(settlement.point_deltas(), &[-24000, 8000, 8000, 8000]);
}

#[test]
fn the_match_finishes_after_four_hands() {
    let mut table = table();
    for _ in 0..HAND_COUNT {
        start_play(&mut table);
        table
            .hand_mut()
            .expect("hand in progress")
            .force_end(EndReason::ExhaustiveDraw);
        table.settle_hand().expect("the hand settles");
    }

    assert!(table.is_finished());
    assert_eq!(table.start_hand(&seed(9)), Err(MatchError::MatchFinished));
}

#[test]
fn final_results_report_the_delta_against_zero() {
    let mut table = table();
    table.set_points([24, -8, -8, -8]);

    let results = table.results();

    assert_eq!(results[0].point_delta, 24);
    assert_eq!(results[1].points, -8);
}

#[test]
fn tenpai_seats_collect_from_noten_seats_at_an_exhaustive_draw() {
    let mut table = table();
    start_play(&mut table);
    {
        let hand = table.hand_mut().expect("hand in progress");
        hand.set_concealed_tiles(seat(0), &kinds("1p 1p 1p 2p 2p 2p 3p 3p 3p 4p 4p 5p 5p 9p"))
            .expect("plant hand");
        hand.set_concealed_tiles(seat(1), &kinds("1s 2s 3s 4s 5s 6s 7s 8s 9s 1m 2m 3m 4m"))
            .expect("plant hand");
        hand.set_concealed_tiles(seat(2), &kinds("1m 2m 3m 4m 5m 6m 7m 8m 9m 1p 1p 2p 2p"))
            .expect("plant hand");
        hand.set_concealed_tiles(seat(3), &kinds("1p 2p 3p 4p 5p 6p 7p 8p 9p 1s 2s 3s 5s"))
            .expect("plant hand");
        hand.force_end(EndReason::ExhaustiveDraw);
    }
    let settlement = table.settle_hand().expect("the hand settles");
    let que = settlement.que().expect("checks run");
    assert!(que.flower_pigs().is_empty());
    let total: i32 = settlement.point_deltas().iter().sum();
    assert_eq!(total, 0);
    let points_total: i32 = table.points().iter().sum();
    assert_eq!(points_total, 0);
}

#[test]
fn an_ended_hand_must_be_settled_before_the_next_one_starts() {
    let mut table = table();
    start_play(&mut table);
    table.hand_mut().expect("hand").force_end(EndReason::ExhaustiveDraw);
    assert_eq!(table.start_hand(&seed(4)), Err(MatchError::HandInProgress));
    table.settle_hand().expect("the hand settles");
    table.start_hand(&seed(4)).expect("the next hand starts");
    assert_eq!(table.hand().expect("hand").phase(), HandPhase::AwaitingExchange);
}

#[test]
fn a_settled_hand_cannot_be_settled_again() {
    let mut table = table();
    start_play(&mut table);
    table.hand_mut().expect("hand").force_end(EndReason::ExhaustiveDraw);
    table.settle_hand().expect("the hand settles");
    let points = table.points().to_vec();
    let progress = table.progress();
    assert_eq!(table.settle_hand(), Err(MatchError::NoHandInProgress));
    assert_eq!(table.points().to_vec(), points);
    assert_eq!(table.progress(), progress);
}
