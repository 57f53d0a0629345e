use vstd::prelude::*;
use vstd::arithmetic::power2::{lemma2_to64, pow2};

use crate::riichi::config::RiichiRules;
use crate::riichi::hand::WinSource;

use super::result::{Limit, Payment};

verus! {

/// Two to the power `han + 2`, for the han below five where points are still counted.
pub open spec fn han_factor(han: int) -> int {
    if han == 0 {
        4
    } else if han == 1 {
        8
    } else if han == 2 {
        16
    } else if han == 3 {
        32
    } else {
        64
    }
}

/// The base points of a hand and the limit that capped them.
pub open spec fn base_points_of(kazoe: bool, kiriage: bool, han: int, fu: int, multiplier: int) -> (int, Limit) {
    if multiplier > 0 {
        (8000 * multiplier, Limit::Yakuman(multiplier as u8))
    } else if han >= 13 {
        if kazoe {
            (8000, Limit::KazoeYakuman)
        } else {
            (6000, Limit::Sanbaiman)
        }
    } else if han >= 11 {
        (6000, Limit::Sanbaiman)
    } else if han >= 8 {
        (4000, Limit::Baiman)
    } else if han >= 6 {
        (3000, Limit::Haneman)
    } else if han >= 5 || (kiriage && ((han == 4 && fu == 30) || (han == 3 && fu == 60))) {
        (2000, Limit::Mangan)
    } else if fu * han_factor(han) >= 2000 {
        (2000, Limit::Mangan)
    } else {
        (fu * han_factor(han), Limit::NoLimit)
    }
}

/// The limit table: with no yakuman, five han is a mangan (2000), six and seven han a
/// haneman (3000), eight to ten han a baiman (4000), eleven and twelve han a sanbaiman (6000),
/// and thirteen han or more a counted yakuman (8000) where the rules allow it, else a
/// sanbaiman. Below five han the base is fu times two to the power han + 2, at most a mangan.
/// A yakuman multiple of `m` is worth 8000 times `m`. More han never lowers the base.
pub proof fn law_limit_table(kazoe: bool, kiriage: bool, han: int, fu: int, multiplier: int)
    requires
        0 <= han,
        0 <= fu,
    ensures
        multiplier > 0 ==> base_points_of(kazoe, kiriage, han, fu, multiplier) == (
            8000 * multiplier,
            Limit::Yakuman(multiplier as u8),
        ),
        han == 5 ==> base_points_of(kazoe, kiriage, han, fu, 0) == (2000int, Limit::Mangan),
        6 <= han <= 7 ==> base_points_of(kazoe, kiriage, han, fu, 0) == (3000int, Limit::Haneman),
        8 <= han <= 10 ==> base_points_of(kazoe, kiriage, han, fu, 0) == (4000int, Limit::Baiman),
        11 <= han <= 12 ==> base_points_of(kazoe, kiriage, han, fu, 0) == (6000int, Limit::Sanbaiman),
        han >= 13 && kazoe ==> base_points_of(kazoe, kiriage, han, fu, 0) == (8000int, Limit::KazoeYakuman),
        han >= 13 && !kazoe ==> base_points_of(kazoe, kiriage, han, fu, 0) == (6000int, Limit::Sanbaiman),
        han <= 4 && !(kiriage && ((han == 4 && fu == 30) || (han == 3 && fu == 60))) ==> {
            let raw = fu * pow2(han as nat + 2);
            base_points_of(kazoe, kiriage, han, fu, 0) == (if raw >= 2000 {
                (2000int, Limit::Mangan)
            } else {
                (raw, Limit::NoLimit)
            })
        },
        base_points_of(kazoe, kiriage, han, fu, 0).0 <= base_points_of(kazoe, kiriage, han + 1, fu, 0).0,
{
    lemma2_to64();
    if han <= 4 {
        assert(han_factor(han) == pow2(han as nat + 2));
    }
    if han <= 3 {
        assert(han_factor(han) <= han_factor(han + 1));
        assert(fu * han_factor(han) <= fu * han_factor(han + 1)) by (nonlinear_arith)
            requires
                han_factor(han) <= han_factor(han + 1),
                0 <= fu,
        ;
    }
}

/// Base points from han and fu: a yakuman multiple, the limits from mangan up (a counted
/// yakuman only where the rules allow it, and kiriage mangan where they round up), or fu
/// times two to the power han + 2, capped at mangan.
pub fn base_points(rules: &RiichiRules, han: u8, fu: u16, yakuman_multiplier: u8) -> (r: (u32, Limit))
    ensures
        r.0 == base_points_of(
            rules.scoring.kazoe_yakuman,
            rules.scoring.kiriage_mangan,
            han as int,
            fu as int,
            yakuman_multiplier as int,
        ).0,
        r.1 == base_points_of(
            rules.scoring.kazoe_yakuman,
            rules.scoring.kiriage_mangan,
            han as int,
            fu as int,
            yakuman_multiplier as int,
        ).1,
{
    if yakuman_multiplier > 0 {
        return (8000 * yakuman_multiplier as u32, Limit::Yakuman(yakuman_multiplier));
    }
    if han >= 13 {
        return if rules.scoring.kazoe_yakuman {
            (8000, Limit::KazoeYakuman)
        } else {
            (6000, Limit::Sanbaiman)
        };
    }
    if han >= 11 {
        return (6000, Limit::Sanbaiman);
    }
    if han >= 8 {
        return (4000, Limit::Baiman);
    }
    if han >= 6 {
        return (3000, Limit::Haneman);
    }
    if han >= 5 || (rules.scoring.kiriage_mangan && ((han == 4 && fu == 30) || (han == 3 && fu == 60))) {
        return (2000, Limit::Mangan);
    }
    let factor: u32 = if han == 0 {
        4
    } else if han == 1 {
        8
    } else if han == 2 {
        16
    } else if han == 3 {
        32
    } else {
        64
    };
    let calculated = fu as u32 * factor;
    if calculated >= 2000 {
        (2000, Limit::Mangan)
    } else {
        (calculated, Limit::NoLimit)
    }
}

/// `points` rounded up to a multiple of one hundred.
pub open spec fn round_hundred_spec(points: int) -> int {
    (if points % 100 == 0 {
        points / 100
    } else {
        points / 100 + 1
    }) * 100
}

fn round_hundred(points: u32) -> (r: u32)
    requires
        round_hundred_spec(points as int) <= u32::MAX,
    ensures
        r == round_hundred_spec(points as int),
{
    let quotient = if points % 100 == 0 {
        points / 100
    } else {
        points / 100 + 1
    };
    assert(quotient * 100 == round_hundred_spec(points as int));
    quotient * 100
}

/// The largest multiple of the base that `payment` computes: twice the base on tsumo, six or
/// four times on ron.
pub open spec fn payment_factor(winner_is_dealer: bool, source: WinSource) -> int {
    if source is Tsumo {
        2
    } else if winner_is_dealer {
        6
    } else {
        4
    }
}

/// What the other players pay: on tsumo a dealer is paid twice the base by each player, a
/// non-dealer twice by the dealer and once by the others; on ron the discarder pays six
/// times the base to a dealer and four times to anyone else; each rounded up to a hundred.
pub open spec fn payment_of(base: int, winner_is_dealer: bool, source: WinSource) -> Payment {
    if source is Tsumo {
        if winner_is_dealer {
            Payment::Tsumo { dealer_payment: 0, other_payment: round_hundred_spec(base * 2) as u32 }
        } else {
            Payment::Tsumo {
                dealer_payment: round_hundred_spec(base * 2) as u32,
                other_payment: round_hundred_spec(base) as u32,
            }
        }
    } else {
        Payment::Ron {
            points: round_hundred_spec(
                base * if winner_is_dealer {
                    6int
                } else {
                    4int
                },
            ) as u32,
        }
    }
}

pub fn payment(base_points: u32, winner_is_dealer: bool, source: WinSource) -> (r: Payment)
    requires
        round_hundred_spec(base_points * payment_factor(winner_is_dealer, source)) <= u32::MAX,
    ensures
        r == payment_of(base_points as int, winner_is_dealer, source),
{
    proof {
        assert(round_hundred_spec(base_points as int) <= round_hundred_spec(base_points * 2)) by (nonlinear_arith)
            requires
                base_points >= 0,
        ;
    }
    if matches!(source, WinSource::Tsumo(_)) {
        if winner_is_dealer {
            Payment::Tsumo { dealer_payment: 0, other_payment: round_hundred(base_points * 2) }
        } else {
            Payment::Tsumo {
                dealer_payment: round_hundred(base_points * 2),
                other_payment: round_hundred(base_points),
            }
        }
    } else {
        let factor: u32 = if winner_is_dealer {
            6
        } else {
            4
        };
        Payment::Ron { points: round_hundred(base_points * factor) }
    }
}

} // verus!
