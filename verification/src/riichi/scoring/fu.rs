use vstd::prelude::*;

use crate::riichi::hand::WinQuery;

use super::analysis::{CompleteGroup, CompleteGroupKind, Interpretation};
use super::result::{HandShape, WaitKind, Yaku, YakuValue};
use super::yaku::{closed_hand, is_terminal_or_honor_index, is_tsumo, is_value_pair, is_closed, is_value_pair_exec};

verus! {

/// The fu of one group: triplets 2, kans 8, doubled when concealed and again for terminals
/// and honors; sequences none.
pub(crate) open spec fn group_fu(g: CompleteGroup) -> int {
    match g.kind {
        CompleteGroupKind::Sequence(_) => 0,
        CompleteGroupKind::Triplet(k) => (if is_terminal_or_honor_index(k@ as int) {
            4int
        } else {
            2int
        }) * (if g.open {
            1int
        } else {
            2int
        }),
        CompleteGroupKind::Kan(k) => (if is_terminal_or_honor_index(k@ as int) {
            16int
        } else {
            8int
        }) * (if g.open {
            1int
        } else {
            2int
        }),
    }
}

pub(crate) open spec fn groups_fu(gs: Seq<CompleteGroup>) -> int
    decreases gs.len(),
{
    if gs.len() == 0 {
        0
    } else {
        groups_fu(gs.drop_last()) + group_fu(gs.last())
    }
}

/// `value` rounded up to a multiple of `unit`.
pub open spec fn round_up_spec(value: int, unit: int) -> int {
    (if value % unit == 0 {
        value / unit
    } else {
        value / unit + 1
    }) * unit
}

pub(crate) open spec fn has_pinfu(yaku: Seq<YakuValue>) -> bool {
    exists|i: int| 0 <= i < yaku.len() && #[trigger] yaku[i].yaku == Yaku::Pinfu
}

/// The fu of a reading: seven pairs 25, a pinfu tsumo 20; otherwise 20, plus 10 for a closed
/// ron, 2 for tsumo, 2 for a value pair, 2 for an edge, closed or pair wait, and the groups'
/// fu, rounded up to ten, with an open hand of no fu at 30.
pub(crate) open spec fn fu_of(q: WinQuery, it: Interpretation, yaku: Seq<YakuValue>) -> int {
    let tsumo = is_tsumo(q);
    let closed = closed_hand(q);
    if it.shape == HandShape::SevenPairs {
        25
    } else if has_pinfu(yaku) && tsumo {
        20
    } else {
        let fu = 20 + (if closed && !tsumo {
            10int
        } else {
            0int
        }) + (if tsumo {
            2int
        } else {
            0int
        }) + (if (it.pair matches Some(p) && is_value_pair(q, p@ as int)) {
            2int
        } else {
            0int
        }) + (if it.wait == WaitKind::Edge || it.wait == WaitKind::Closed || it.wait == WaitKind::Pair {
            2int
        } else {
            0int
        }) + groups_fu(it.groups@);
        if fu == 20 && !closed {
            30
        } else {
            round_up_spec(fu, 10)
        }
    }
}

/// Rounds `value` up to the next multiple of `unit`.
pub fn round_up(value: u16, unit: u16) -> (r: u16)
    requires
        unit > 0,
        round_up_spec(value as int, unit as int) <= u16::MAX,
    ensures
        r == round_up_spec(value as int, unit as int),
{
    let quotient: u32 = if value % unit == 0 {
        (value / unit) as u32
    } else {
        (value / unit) as u32 + 1
    };
    let wide_unit = unit as u32;
    assert(quotient * wide_unit <= 65536 * 65535) by (nonlinear_arith)
        requires
            quotient <= 65536,
            wide_unit <= 65535,
    ;
    (quotient * wide_unit) as u16
}

fn group_fu_exec(g: CompleteGroup) -> (r: u16)
    ensures
        r == group_fu(g),
        r <= 32,
{
    let (kind, kan) = match g.kind {
        CompleteGroupKind::Sequence(_) => {
            return 0;
        },
        CompleteGroupKind::Triplet(kind) => (kind, false),
        CompleteGroupKind::Kan(kind) => (kind, true),
    };
    let base: u16 = if kind.is_terminal_or_honor() {
        if kan {
            16
        } else {
            4
        }
    } else {
        if kan {
            8
        } else {
            2
        }
    };
    if g.open {
        base
    } else {
        base * 2
    }
}

/// The fu of a reading with the given patterns.
pub(crate) fn calculate_fu(q: WinQuery, it: &Interpretation, yaku: &Vec<YakuValue>) -> (r: u16)
    requires
        it.groups@.len() <= 8,
    ensures
        r == fu_of(q, *it, yaku@),
{
    let tsumo = match q.source() {
        crate::riichi::hand::WinSource::Tsumo(_) => true,
        _ => false,
    };
    if matches!(it.shape, HandShape::SevenPairs) {
        return 25;
    }
    let mut pinfu = false;
    let mut i: usize = 0;
    while i < yaku.len()
        invariant
            i <= yaku@.len(),
            pinfu == (exists|j: int| 0 <= j < i && #[trigger] yaku@[j].yaku == Yaku::Pinfu),
        decreases yaku@.len() - i,
    {
        if yaku[i].yaku == Yaku::Pinfu {
            pinfu = true;
        }
        i = i + 1;
    }
    if pinfu && tsumo {
        return 20;
    }
    let closed = is_closed(q);
    let mut fu: u16 = 20;
    if closed && !tsumo {
        fu = fu + 10;
    }
    if tsumo {
        fu = fu + 2;
    }
    let value_pair = match it.pair {
        Some(p) => is_value_pair_exec(q, p),
        None => false,
    };
    if value_pair {
        fu = fu + 2;
    }
    if matches!(it.wait, WaitKind::Edge) || matches!(it.wait, WaitKind::Closed) || matches!(it.wait, WaitKind::Pair) {
        fu = fu + 2;
    }
    let ghost head = fu;
    let mut g: usize = 0;
    let mut groups: u16 = 0;
    while g < it.groups.len()
        invariant
            g <= it.groups@.len(),
            it.groups@.len() <= 8,
            groups == groups_fu(it.groups@.take(g as int)),
            groups <= 32 * g,
        decreases it.groups@.len() - g,
    {
        assert(it.groups@.take(g + 1).drop_last() =~= it.groups@.take(g as int));
        groups = groups + group_fu_exec(it.groups[g]);
        g = g + 1;
    }
    assert(it.groups@.take(g as int) =~= it.groups@);
    fu = fu + groups;
    if fu == 20 && !closed {
        return 30;
    }
    round_up(fu, 10)
}

} // verus!
