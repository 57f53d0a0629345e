//! The Sichuan wall: all 108 tiles are drawable, from the front in shuffled order; kan
//! replacements come from the back, the upper tile of each stack first. Two dice, rolled from
//! the same seed, give the break seat (for display) and the direction of the three-tile
//! exchange.

use vstd::prelude::*;

use crate::random::{draw_below, fisher_yates_shuffle, seeded_random, shuffled, uniform_below};

pub use crate::riichi::wall::{SeedGenerationError, WallSeed};

use super::progress::Seat;
use super::tile::{full_tile_set, set_tile_at, Tile, TileId};

verus! {

/// Tiles in a wall: 27 kinds, four copies each.
pub const WALL_TILE_COUNT: usize = 108;

/// Stacks of two in the whole wall (14 each for East and West, 13 each for South and North).
pub const TOTAL_STACKS: usize = 54;

/// Stacks in front of each seat.
pub const STACKS_BY_SEAT: [usize; 4] = [14, 13, 14, 13];

/// Two dice; their sum picks the break seat and the exchange direction.
#[derive(Clone, Copy, Debug, PartialEq, Eq, Structural)]
pub struct Dice {
    first: u8,
    second: u8,
}

impl Dice {
    pub closed spec fn spec_first(self) -> u8 {
        self.first
    }

    pub closed spec fn spec_second(self) -> u8 {
        self.second
    }

    /// Both dice show one to six.
    pub open spec fn valid(self) -> bool {
        1 <= self.spec_first() <= 6 && 1 <= self.spec_second() <= 6
    }

    #[must_use]
    pub fn new(first: u8, second: u8) -> (r: Dice)
        requires
            1 <= first <= 6,
            1 <= second <= 6,
        ensures
            r.spec_first() == first,
            r.spec_second() == second,
    {
        Dice { first, second }
    }

    #[must_use]
    pub fn first(self) -> (r: u8)
        ensures
            r == self.spec_first(),
    {
        self.first
    }

    #[must_use]
    pub fn second(self) -> (r: u8)
        ensures
            r == self.spec_second(),
    {
        self.second
    }

    /// The sum of the two dice, two to twelve.
    #[must_use]
    pub fn sum(self) -> (r: u8)
        requires
            self.valid(),
        ensures
            r == self.spec_first() + self.spec_second(),
    {
        self.first + self.second
    }
}

/// Where each player's three tiles go in the exchange.
#[derive(Clone, Copy, Debug, PartialEq, Eq, Structural)]
pub enum ExchangeDirection {
    /// To the next seat: 0 to 1 to 2 to 3 to 0.
    CounterClockwise,
    /// To the previous seat: 0 to 3 to 2 to 1 to 0.
    Clockwise,
    /// Across the table: 0 with 2, 1 with 3.
    Opposite,
}

/// The direction a dice sum gives: 2, 6 and 10 counter-clockwise; 4, 8 and 12 clockwise;
/// any other sum across the table.
pub open spec fn direction_for(sum: u8) -> ExchangeDirection {
    if sum == 2 || sum == 6 || sum == 10 {
        ExchangeDirection::CounterClockwise
    } else if sum == 4 || sum == 8 || sum == 12 {
        ExchangeDirection::Clockwise
    } else {
        ExchangeDirection::Opposite
    }
}

/// The seat index that receives the tiles of seat `index`.
pub open spec fn recipient_index(direction: ExchangeDirection, index: int) -> int {
    match direction {
        ExchangeDirection::CounterClockwise => (index + 1) % 4,
        ExchangeDirection::Clockwise => (index + 3) % 4,
        ExchangeDirection::Opposite => (index + 2) % 4,
    }
}

/// In every direction each seat passes to another seat, and no two seats pass to the same
/// one: the exchange is a permutation of the table without fixed points.
pub proof fn exchange_is_a_derangement(direction: ExchangeDirection, a: int, b: int)
    requires
        0 <= a < 4,
        0 <= b < 4,
    ensures
        0 <= recipient_index(direction, a) < 4,
        recipient_index(direction, a) != a,
        a != b ==> recipient_index(direction, a) != recipient_index(direction, b),
{
}

impl ExchangeDirection {
    #[must_use]
    pub fn from_dice_sum(sum: u8) -> (r: ExchangeDirection)
        ensures
            r == direction_for(sum),
    {
        if sum == 2 || sum == 6 || sum == 10 {
            ExchangeDirection::CounterClockwise
        } else if sum == 4 || sum == 8 || sum == 12 {
            ExchangeDirection::Clockwise
        } else {
            ExchangeDirection::Opposite
        }
    }

    /// The seat that receives the tiles `seat` hands over.
    #[must_use]
    pub fn recipient_of(self, seat: Seat) -> (r: Seat)
        ensures
            r@ == recipient_index(self, seat@ as int),
    {
        let steps: u8 = match self {
            ExchangeDirection::CounterClockwise => 1,
            ExchangeDirection::Clockwise => 3,
            ExchangeDirection::Opposite => 2,
        };
        seat.offset_by(steps)
    }

    #[must_use]
    pub fn as_str(self) -> (r: &'static str)
        ensures
            self == ExchangeDirection::CounterClockwise ==> r@ == "counter_clockwise"@,
            self == ExchangeDirection::Clockwise ==> r@ == "clockwise"@,
            self == ExchangeDirection::Opposite ==> r@ == "opposite"@,
    {
        match self {
            ExchangeDirection::CounterClockwise => "counter_clockwise",
            ExchangeDirection::Clockwise => "clockwise",
            ExchangeDirection::Opposite => "opposite",
        }
    }
}

/// The wall cannot hand out another tile.
#[derive(Clone, Copy, Debug, PartialEq, Eq, Structural)]
pub enum WallError {
    Exhausted,
}

impl WallError {
    #[must_use]
    pub fn message(&self) -> (r: &'static str)
        ensures
            r@ == "the wall has no drawable tiles left"@,
    {
        "the wall has no drawable tiles left"
    }
}

/// The wall: 108 tiles in shuffled order, never moved; `order` lists positions in drawing
/// order, the front is drawn forwards and the back backwards.
#[derive(Debug, PartialEq, Eq)]
pub struct Wall {
    tiles: Vec<Tile>,
    order: Vec<usize>,
    front: usize,
    back: usize,
    dice: Dice,
    break_seat: Seat,
}

/// `order` lists each of the 108 positions exactly once.
pub open spec fn is_position_order(order: Seq<usize>) -> bool {
    &&& order.len() == 108
    &&& forall|k: int| 0 <= k < 108 ==> #[trigger] order[k] < 108
    &&& forall|k: int, l: int| 0 <= k < l < 108 ==> #[trigger] order[k] != #[trigger] order[l]
}

/// The tiles and dice are what the seed gives: the full set shuffled by the seed's stream,
/// then each die the next draw below six from the same stream, plus one.
pub open spec fn seeded_layout(tiles: Seq<Tile>, dice: Dice, seed: Seq<u8>) -> bool {
    exists|full: Seq<Tile>|
        #![trigger shuffled(full, seed, 0, 107)]
        {
            let (order, after_shuffle) = shuffled(full, seed, 0, 107);
            let (first, after_first) = draw_below(seed, after_shuffle, 6, u64::MAX as nat);
            let (second, _) = draw_below(seed, after_first, 6, u64::MAX as nat);
            &&& full.len() == 108
            &&& forall|i: int| 0 <= i < 108 ==> #[trigger] set_tile_at(full, i)
            &&& tiles == order
            &&& dice.spec_first() == first + 1
            &&& dice.spec_second() == second + 1
        }
}

impl Wall {
    #[verifier::type_invariant]
    spec fn inv(self) -> bool {
        &&& self.tiles@.len() == 108
        &&& is_position_order(self.order@)
        &&& self.front <= self.back <= 108
        &&& self.dice.valid()
    }

    pub closed spec fn spec_tiles(&self) -> Seq<Tile> {
        self.tiles@
    }

    /// Positions in drawing order.
    pub closed spec fn spec_order(&self) -> Seq<usize> {
        self.order@
    }

    /// How many tiles have been drawn from the front.
    pub closed spec fn spec_front(&self) -> nat {
        self.front as nat
    }

    /// Where the drawable part ends; positions after it went to kans.
    pub closed spec fn spec_back(&self) -> nat {
        self.back as nat
    }

    pub closed spec fn spec_dice(&self) -> Dice {
        self.dice
    }

    pub closed spec fn spec_break_seat(&self) -> Seat {
        self.break_seat
    }

    /// Position `p` has already been handed out, from the front or from the back.
    pub open spec fn handed_out(&self, p: int) -> bool {
        exists|k: int|
            (0 <= k < self.spec_front() || self.spec_back() <= k < 108) && #[trigger] self.spec_order()[k] == p
    }

    /// Shuffles the full set with the seed's generator, then rolls the two dice from the same
    /// generator, so a seed reproduces both.
    #[must_use]
    pub fn new(dealer: Seat, seed: &WallSeed) -> (r: Wall)
        ensures
            exists|full: Seq<Tile>|
                full.len() == 108 && (forall|i: int| 0 <= i < 108 ==> #[trigger] set_tile_at(full, i))
                    && r.spec_tiles().to_multiset() == full.to_multiset(),
            r.spec_dice().valid(),
            r.spec_break_seat()@ == (dealer@ + r.spec_dice().spec_first() + r.spec_dice().spec_second() - 1) % 4,
            r.spec_front() == 0,
            r.spec_back() == 108,
            forall|k: int| 0 <= k < 108 ==> #[trigger] r.spec_order()[k] == k,
            seeded_layout(r.spec_tiles(), r.spec_dice(), seed@),
    {
        let mut tiles = full_tile_set();
        let ghost full = tiles@;
        let bytes = seed.expose_bytes();
        let mut random = seeded_random(*bytes);
        fisher_yates_shuffle(&mut tiles, &mut random);
        let first = uniform_below(&mut random, 6) as u8 + 1;
        let second = uniform_below(&mut random, 6) as u8 + 1;
        let dice = Dice::new(first, second);
        Self::with_dice(dealer, tiles, dice)
    }

    /// Lays out the given tiles with given dice, as a recorded hand does.
    #[must_use]
    pub fn with_dice(dealer: Seat, tiles: Vec<Tile>, dice: Dice) -> (r: Wall)
        requires
            tiles@.len() == 108,
            dice.valid(),
        ensures
            r.spec_tiles() == tiles@,
            r.spec_dice() == dice,
            r.spec_break_seat()@ == (dealer@ + dice.spec_first() + dice.spec_second() - 1) % 4,
            r.spec_front() == 0,
            r.spec_back() == 108,
            forall|k: int| 0 <= k < 108 ==> #[trigger] r.spec_order()[k] == k,
    {
        let break_seat = dealer.offset_by(dice.sum() - 1);
        let mut order: Vec<usize> = Vec::new();
        let mut k: usize = 0;
        while k < 108
            invariant
                k <= 108,
                order@.len() == k,
                forall|j: int| 0 <= j < k ==> #[trigger] order@[j] == j,
            decreases 108 - k,
        {
            order.push(k);
            k = k + 1;
        }
        Wall { tiles, order, front: 0, back: 108, dice, break_seat }
    }

    #[must_use]
    pub fn dice(&self) -> (r: Dice)
        ensures
            r == self.spec_dice(),
    {
        self.dice
    }

    /// The exchange direction the dice sum gives.
    #[must_use]
    pub fn exchange_direction(&self) -> (r: ExchangeDirection)
        ensures
            r == direction_for((self.spec_dice().spec_first() + self.spec_dice().spec_second()) as u8),
    {
        proof {
            use_type_invariant(self);
        }
        ExchangeDirection::from_dice_sum(self.dice.sum())
    }

    /// The seat the dice count to, starting from the dealer as one.
    #[must_use]
    pub fn break_seat(&self) -> (r: Seat)
        ensures
            r == self.spec_break_seat(),
    {
        self.break_seat
    }

    /// Tiles still drawable, from either end.
    #[must_use]
    pub fn remaining_draws(&self) -> (r: usize)
        ensures
            r == self.spec_back() - self.spec_front(),
    {
        proof {
            use_type_invariant(self);
        }
        self.back - self.front
    }

    /// Tiles already taken from the back for kans.
    #[must_use]
    pub fn completed_rinshan_draws(&self) -> (r: usize)
        ensures
            r == 108 - self.spec_back(),
    {
        proof {
            use_type_invariant(self);
        }
        self.order.len() - self.back
    }

    /// Draws the next tile from the front. The position drawn has not been handed out
    /// before, and is handed out afterwards.
    pub fn draw(&mut self) -> (r: Option<Tile>)
        ensures
            old(self).spec_front() == old(self).spec_back() ==> r is None && *final(self) == *old(self),
            old(self).spec_front() < old(self).spec_back() ==> {
                let p = old(self).spec_order()[old(self).spec_front() as int] as int;
                &&& r == Some(old(self).spec_tiles()[p])
                &&& !old(self).handed_out(p)
                &&& final(self).spec_front() == old(self).spec_front() + 1
                &&& final(self).spec_back() == old(self).spec_back()
                &&& final(self).spec_order() == old(self).spec_order()
                &&& final(self).spec_tiles() == old(self).spec_tiles()
                &&& final(self).spec_dice() == old(self).spec_dice()
                &&& final(self).spec_break_seat() == old(self).spec_break_seat()
                &&& forall|q: int| #[trigger] final(self).handed_out(q) <==> old(self).handed_out(q) || q == p
            },
    {
        proof {
            use_type_invariant(&*self);
        }
        if self.front == self.back {
            return None;
        }
        let position = self.order[self.front];
        let tile = self.tiles[position];
        proof {
            let p = position as int;
            let w = *old(self);
            if w.handed_out(p) {
                let k = choose|k: int| (0 <= k < w.spec_front() || w.spec_back() <= k < 108) && #[trigger] w.spec_order()[k] == p;
                assert(w.spec_order()[k] == w.spec_order()[w.spec_front() as int]);
            }
        }
        self.front = self.front + 1;
        proof {
            let p = position as int;
            let w = *old(self);
            assert forall|q: int| #[trigger] self.handed_out(q) <==> w.handed_out(q) || q == p by {
                if self.handed_out(q) {
                    let k = choose|k: int| (0 <= k < self.spec_front() || self.spec_back() <= k < 108) && #[trigger] self.spec_order()[k] == q;
                    if k < w.spec_front() || w.spec_back() <= k {
                        assert(w.spec_order()[k] == q);
                    }
                }
                if w.handed_out(q) {
                    let k = choose|k: int| (0 <= k < w.spec_front() || w.spec_back() <= k < 108) && #[trigger] w.spec_order()[k] == q;
                    assert(self.spec_order()[k] == q);
                }
                if q == p {
                    assert(self.spec_order()[w.spec_front() as int] == q);
                }
            }
        }
        Some(tile)
    }

    /// Draws a kan replacement from the back: the upper tile of the last stack first, then
    /// the lower one. The position drawn has not been handed out before.
    pub fn draw_from_back(&mut self) -> (r: Result<Tile, WallError>)
        ensures
            old(self).spec_front() == old(self).spec_back() ==> r == Err::<Tile, WallError>(WallError::Exhausted)
                && *final(self) == *old(self),
            old(self).spec_front() < old(self).spec_back() ==> {
                let back = old(self).spec_back() as int;
                let swapped = (108 - back) % 2 == 0 && back - old(self).spec_front() >= 2;
                let order = if swapped {
                    old(self).spec_order().update(back - 2, old(self).spec_order()[back - 1]).update(
                        back - 1,
                        old(self).spec_order()[back - 2],
                    )
                } else {
                    old(self).spec_order()
                };
                let p = order[back - 1] as int;
                &&& r == Ok::<Tile, WallError>(old(self).spec_tiles()[p])
                &&& !old(self).handed_out(p)
                &&& final(self).spec_order() == order
                &&& final(self).spec_back() == back - 1
                &&& final(self).spec_front() == old(self).spec_front()
                &&& final(self).spec_tiles() == old(self).spec_tiles()
                &&& final(self).spec_dice() == old(self).spec_dice()
                &&& final(self).spec_break_seat() == old(self).spec_break_seat()
                &&& forall|q: int| #[trigger] final(self).handed_out(q) <==> old(self).handed_out(q) || q == p
            },
    {
        proof {
            use_type_invariant(&*self);
        }
        if self.front == self.back {
            return Err(WallError::Exhausted);
        }
        let taken = self.order.len() - self.back;
        let ghost w = *old(self);
        if taken % 2 == 0 && self.back - self.front >= 2 {
            let upper = self.order[self.back - 2];
            let lower = self.order[self.back - 1];
            let mut order = self.order.clone();
            assert(order@ == self.order@);
            order.set(self.back - 2, lower);
            order.set(self.back - 1, upper);
            proof {
                let o = order@;
                let b = self.back as int;
                assert forall|k: int, l: int| 0 <= k < l < 108 implies #[trigger] o[k] != #[trigger] o[l] by {
                    let ok = if k == b - 2 { b - 1 } else if k == b - 1 { b - 2 } else { k };
                    let ol = if l == b - 2 { b - 1 } else if l == b - 1 { b - 2 } else { l };
                    assert(o[k] == w.spec_order()[ok]);
                    assert(o[l] == w.spec_order()[ol]);
                    if ok < ol {
                        assert(w.spec_order()[ok] != w.spec_order()[ol]);
                    } else {
                        assert(w.spec_order()[ol] != w.spec_order()[ok]);
                    }
                }
                assert forall|k: int| 0 <= k < 108 implies #[trigger] o[k] < 108 by {
                    let ok = if k == b - 2 { b - 1 } else if k == b - 1 { b - 2 } else { k };
                    assert(o[k] == w.spec_order()[ok]);
                }
            }
            self.order = order;
        }
        let ghost mid = self.order@;
        self.back = self.back - 1;
        let position = self.order[self.back];
        let tile = self.tiles[position];
        proof {
            let p = position as int;
            assert(is_position_order(mid));
            // Positions outside the drawable part are where they were.
            assert forall|k: int| (0 <= k < w.spec_front() || w.spec_back() <= k < 108) implies mid[k] == #[trigger] w.spec_order()[k] by {
            }
            if w.handed_out(p) {
                let k = choose|k: int| (0 <= k < w.spec_front() || w.spec_back() <= k < 108) && #[trigger] w.spec_order()[k] == p;
                assert(mid[k] == p);
                assert(mid[self.back as int] == p);
                if k < self.back {
                    assert(mid[k] != mid[self.back as int]);
                } else {
                    assert(mid[self.back as int] != mid[k]);
                }
            }
            assert forall|q: int| #[trigger] self.handed_out(q) <==> w.handed_out(q) || q == p by {
                if self.handed_out(q) {
                    let k = choose|k: int| (0 <= k < self.spec_front() || self.spec_back() <= k < 108) && #[trigger] self.spec_order()[k] == q;
                    if k < w.spec_front() || w.spec_back() <= k {
                        assert(mid[k] == w.spec_order()[k]);
                    }
                }
                if w.handed_out(q) {
                    let k = choose|k: int| (0 <= k < w.spec_front() || w.spec_back() <= k < 108) && #[trigger] w.spec_order()[k] == q;
                    assert(mid[k] == w.spec_order()[k]);
                    assert(self.spec_order()[k] == q);
                }
                if q == p {
                    assert(self.spec_order()[self.back as int] == q);
                }
            }
        }
        Ok(tile)
    }

    /// The first tile of the wall with the given identity.
    #[must_use]
    pub fn tile_by_id(&self, tile_id: TileId) -> (r: Option<Tile>)
        ensures
            r matches Some(t) ==> exists|i: int|
                0 <= i < self.spec_tiles().len() && self.spec_tiles()[i] == t && t.spec_id() == tile_id,
            r is None ==> forall|i: int| 0 <= i < self.spec_tiles().len() ==> (#[trigger] self.spec_tiles()[i]).spec_id() != tile_id,
    {
        let mut i: usize = 0;
        while i < self.tiles.len()
            invariant
                i <= self.tiles@.len(),
                forall|j: int| 0 <= j < i ==> (#[trigger] self.tiles@[j]).spec_id() != tile_id,
            decreases self.tiles@.len() - i,
        {
            let tile = self.tiles[i];
            if tile.id() == tile_id {
                assert(self.spec_tiles()[i as int] == tile && tile.spec_id() == tile_id);
                return Some(tile);
            }
            i = i + 1;
        }
        None
    }

    /// The whole wall in shuffled order, for the record of a finished hand; never to be
    /// shown while the hand is running.
    #[must_use]
    pub fn ordered_tiles(&self) -> (r: &[Tile])
        ensures
            r@ == self.spec_tiles(),
    {
        self.tiles.as_slice()
    }
}

impl Clone for Wall {
    fn clone(&self) -> (r: Wall)
        ensures
            r.spec_tiles() == self.spec_tiles(),
            r.spec_order() == self.spec_order(),
            r.spec_front() == self.spec_front(),
            r.spec_back() == self.spec_back(),
            r.spec_dice() == self.spec_dice(),
            r.spec_break_seat() == self.spec_break_seat(),
    {
        proof {
            use_type_invariant(self);
        }
        let tiles = self.tiles.clone();
        let order = self.order.clone();
        assert(tiles@ == self.tiles@);
        assert(order@ == self.order@);
        Wall { tiles, order, front: self.front, back: self.back, dice: self.dice, break_seat: self.break_seat }
    }
}

} // verus!
