use vstd::prelude::*;
use vstd::string::StringSliceAdditionalSpecFns;
use crate::text::digit_str;

verus! {

/// Number of distinct tile kinds: 27 suited kinds followed by 7 honors.
pub const KIND_COUNT: usize = 34;

/// Number of suited tile kinds (three suits of nine ranks).
pub const SUITED_KIND_COUNT: u8 = 27;

#[derive(Clone, Copy, Debug, PartialEq, Eq, Structural, Hash, PartialOrd, Ord)]
pub enum Suit {
    Man,
    Pin,
    Sou,
}

/// The position of a suit among the three suits.
pub open spec fn suit_index(suit: Suit) -> nat {
    match suit {
        Suit::Man => 0,
        Suit::Pin => 1,
        Suit::Sou => 2,
    }
}

/// The suit whose kinds start at `9 * index`.
pub open spec fn suit_at(index: int) -> Suit {
    if index == 0 {
        Suit::Man
    } else if index == 1 {
        Suit::Pin
    } else {
        Suit::Sou
    }
}

/// The ASCII letter that names a suit in tile codes.
pub open spec fn suit_letter(suit: Suit) -> u8 {
    match suit {
        Suit::Man => 109u8,
        Suit::Pin => 112u8,
        Suit::Sou => 115u8,
    }
}

impl Suit {
    #[must_use]
    pub fn index(self) -> (r: usize)
        ensures
            r == suit_index(self),
    {
        match self {
            Suit::Man => 0,
            Suit::Pin => 1,
            Suit::Sou => 2,
        }
    }

    pub(crate) fn letter(self) -> (r: u8)
        ensures
            r == suit_letter(self),
    {
        match self {
            Suit::Man => 109,
            Suit::Pin => 112,
            Suit::Sou => 115,
        }
    }

    /// The suit's name in lower case.
    #[must_use]
    pub fn as_str(self) -> (r: &'static str)
        ensures
            self == Suit::Man ==> r@ == "man"@,
            self == Suit::Pin ==> r@ == "pin"@,
            self == Suit::Sou ==> r@ == "sou"@,
    {
        match self {
            Suit::Man => "man",
            Suit::Pin => "pin",
            Suit::Sou => "sou",
        }
    }

    /// The letter that names the suit in tile codes.
    #[must_use]
    pub fn code(self) -> (r: char)
        ensures
            r as u8 == suit_letter(self),
    {
        match self {
            Suit::Man => 'm',
            Suit::Pin => 'p',
            Suit::Sou => 's',
        }
    }

    pub(crate) fn from_code(code: u8) -> (r: Option<Suit>)
        ensures
            r matches Some(s) ==> suit_letter(s) == code,
            r is None ==> code != 109 && code != 112 && code != 115,
    {
        if code == 109 {
            Some(Suit::Man)
        } else if code == 112 {
            Some(Suit::Pin)
        } else if code == 115 {
            Some(Suit::Sou)
        } else {
            None
        }
    }
}

/// A numbered tile's rank, always between 1 and 9.
#[derive(Clone, Copy, Debug, PartialEq, Eq, Structural, Hash, PartialOrd, Ord)]
pub struct Rank(u8);

impl View for Rank {
    type V = u8;

    closed spec fn view(&self) -> u8 {
        self.0
    }
}

impl Rank {
    pub const MIN: u8 = 1;
    pub const MAX: u8 = 9;

    #[verifier::type_invariant]
    spec fn inv(self) -> bool {
        1 <= self.0 <= 9
    }

    /// The rank five, the only rank that may be red.
    #[must_use]
    pub fn five() -> (r: Rank)
        ensures
            r@ == 5,
    {
        Rank(5)
    }

    pub fn new(value: u8) -> (r: Result<Rank, TileError>)
        ensures
            1 <= value <= 9 ==> (r matches Ok(rank) && rank@ == value),
            !(1 <= value <= 9) ==> r == Err::<Rank, TileError>(TileError::InvalidRank),
    {
        if value >= Self::MIN && value <= Self::MAX {
            Ok(Rank(value))
        } else {
            Err(TileError::InvalidRank)
        }
    }

    #[must_use]
    pub fn value(self) -> (r: u8)
        ensures
            r == self@,
            1 <= r <= 9,
    {
        proof {
            use_type_invariant(&self);
        }
        self.0
    }

    #[must_use]
    pub fn is_terminal(self) -> (r: bool)
        ensures
            r == (self@ == 1 || self@ == 9),
    {
        self.0 == Self::MIN || self.0 == Self::MAX
    }
}

#[derive(Clone, Copy, Debug, PartialEq, Eq, Structural, Hash, PartialOrd, Ord)]
pub enum Honor {
    East,
    South,
    West,
    North,
    White,
    Green,
    Red,
}

/// The position of an honor: winds first, then dragons.
pub open spec fn honor_index(honor: Honor) -> nat {
    match honor {
        Honor::East => 0,
        Honor::South => 1,
        Honor::West => 2,
        Honor::North => 3,
        Honor::White => 4,
        Honor::Green => 5,
        Honor::Red => 6,
    }
}

/// The honor at a given position (positions above six name the red dragon).
pub open spec fn honor_at(index: int) -> Honor {
    if index == 0 {
        Honor::East
    } else if index == 1 {
        Honor::South
    } else if index == 2 {
        Honor::West
    } else if index == 3 {
        Honor::North
    } else if index == 4 {
        Honor::White
    } else if index == 5 {
        Honor::Green
    } else {
        Honor::Red
    }
}

impl Honor {
    pub(crate) fn from_index(index: u8) -> (r: Option<Honor>)
        ensures
            index < 7 ==> r == Some(honor_at(index as int)),
            index >= 7 ==> r is None,
    {
        match index {
            0 => Some(Honor::East),
            1 => Some(Honor::South),
            2 => Some(Honor::West),
            3 => Some(Honor::North),
            4 => Some(Honor::White),
            5 => Some(Honor::Green),
            6 => Some(Honor::Red),
            _ => None,
        }
    }

    pub(crate) fn position(self) -> (r: u8)
        ensures
            r == honor_index(self),
    {
        match self {
            Honor::East => 0,
            Honor::South => 1,
            Honor::West => 2,
            Honor::North => 3,
            Honor::White => 4,
            Honor::Green => 5,
            Honor::Red => 6,
        }
    }

    /// The digit of the honor in tile codes (`1z` is east, `7z` is red).
    #[must_use]
    pub fn code(self) -> (r: u8)
        ensures
            r == honor_index(self) + 1,
    {
        self.position() + 1
    }
}

/// The index of the suited kind of the given suit and rank.
pub open spec fn suited_index(suit: Suit, rank: int) -> int {
    suit_index(suit) * 9 + rank - 1
}

/// The suit of the kind at `index`, if it is suited.
pub open spec fn kind_suit(index: int) -> Option<Suit> {
    if 0 <= index < 27 {
        Some(suit_at(index / 9))
    } else {
        None
    }
}

/// The rank value of the kind at `index`, if it is suited.
pub open spec fn kind_rank(index: int) -> Option<int> {
    if 0 <= index < 27 {
        Some(index % 9 + 1)
    } else {
        None
    }
}

/// Whether the kind at `index` is an honor.
pub open spec fn kind_is_honor(index: int) -> bool {
    index >= 27
}

/// Whether the kind at `index` is a suited one or nine.
pub open spec fn kind_is_terminal(index: int) -> bool {
    0 <= index < 27 && (index % 9 == 0 || index % 9 == 8)
}

/// Whether the kind at `index` is a suited five.
pub open spec fn kind_is_five(index: int) -> bool {
    index == 4 || index == 13 || index == 22
}

/// One of the 34 kinds of tile: `9 * suit + rank - 1` for suited kinds, `27 + honor` for honors.
#[derive(Clone, Copy, Debug, PartialEq, Eq, Structural, Hash, PartialOrd, Ord)]
pub struct TileKind(u8);

impl View for TileKind {
    type V = u8;

    closed spec fn view(&self) -> u8 {
        self.0
    }
}

impl TileKind {
    pub const COUNT: usize = 34;

    #[verifier::type_invariant]
    spec fn inv(self) -> bool {
        self.0 < 34
    }

    /// Two kinds with the same index are the same kind.
    pub broadcast proof fn lemma_view_injective(a: TileKind, b: TileKind)
        ensures
            #[trigger] a@ == #[trigger] b@ ==> a == b,
    {
    }

    /// The kind with the given index.
    pub closed spec fn spec_at(index: int) -> TileKind {
        TileKind(index as u8)
    }

    /// `spec_at` gives back the index it was given.
    pub broadcast proof fn lemma_spec_at(index: int)
        requires
            0 <= index < 256,
        ensures
            #[trigger] TileKind::spec_at(index)@ == index,
    {
    }

    #[must_use]
    pub fn suited(suit: Suit, rank: Rank) -> (r: TileKind)
        ensures
            r@ == suited_index(suit, rank@ as int),
    {
        let value = rank.value();
        TileKind((suit.index() as u8) * 9 + value - 1)
    }

    #[must_use]
    pub fn honor(honor: Honor) -> (r: TileKind)
        ensures
            r@ == 27 + honor_index(honor),
    {
        TileKind(SUITED_KIND_COUNT + honor.position())
    }

    pub fn from_index(index: u8) -> (r: Result<TileKind, TileKindIndexError>)
        ensures
            index < 34 ==> (r matches Ok(kind) && kind@ == index),
            index >= 34 ==> r is Err,
    {
        if (index as usize) < KIND_COUNT {
            Ok(TileKind(index))
        } else {
            Err(TileKindIndexError)
        }
    }

    #[must_use]
    pub fn index(self) -> (r: usize)
        ensures
            r == self@,
            r < 34,
    {
        proof {
            use_type_invariant(&self);
        }
        self.0 as usize
    }

    #[must_use]
    pub fn suit(self) -> (r: Option<Suit>)
        ensures
            r == kind_suit(self@ as int),
    {
        proof {
            use_type_invariant(&self);
        }
        if self.0 < 9 {
            Some(Suit::Man)
        } else if self.0 < 18 {
            Some(Suit::Pin)
        } else if self.0 < SUITED_KIND_COUNT {
            Some(Suit::Sou)
        } else {
            None
        }
    }

    #[must_use]
    pub fn rank(self) -> (r: Option<Rank>)
        ensures
            (r is Some) == (self@ < 27),
            r matches Some(rank) ==> rank@ == self@ % 9 + 1,
    {
        if self.0 < SUITED_KIND_COUNT {
            Some(Rank(self.0 % 9 + 1))
        } else {
            None
        }
    }

    #[must_use]
    pub fn honor_value(self) -> (r: Option<Honor>)
        ensures
            self@ < 27 ==> r is None,
            self@ >= 27 ==> r == Some(honor_at(self@ - 27)),
    {
        proof {
            use_type_invariant(&self);
        }
        if self.0 < SUITED_KIND_COUNT {
            None
        } else {
            Honor::from_index(self.0 - SUITED_KIND_COUNT)
        }
    }

    #[must_use]
    pub fn is_honor(self) -> (r: bool)
        ensures
            r == kind_is_honor(self@ as int),
    {
        self.0 >= SUITED_KIND_COUNT
    }

    #[must_use]
    pub fn is_terminal(self) -> (r: bool)
        ensures
            r == kind_is_terminal(self@ as int),
    {
        match self.rank() {
            Some(rank) => rank.is_terminal(),
            None => false,
        }
    }

    #[must_use]
    pub fn is_terminal_or_honor(self) -> (r: bool)
        ensures
            r == (kind_is_honor(self@ as int) || kind_is_terminal(self@ as int)),
    {
        self.is_honor() || self.is_terminal()
    }

    /// The two-character code of the kind, such as `7p` or `6z`.
    #[must_use]
    pub fn to_string(&self) -> (r: String)
        ensures
            r@.len() == 2,
            r@[0] as int == kind_code_digit(self@ as int),
            r@[1] as int == kind_code_family(self@ as int),
    {
        proof {
            use_type_invariant(self);
        }
        let digit = if self.0 < SUITED_KIND_COUNT {
            self.0 % 9 + 1
        } else {
            self.0 - SUITED_KIND_COUNT + 1
        };
        let family = match self.suit() {
            Some(suit) => suit.letter(),
            None => 122,
        };
        two_char_code(digit, family)
    }
}

/// The leading character of a kind's code, as a character value.
pub open spec fn kind_code_digit(index: int) -> int {
    if index < 27 {
        48 + index % 9 + 1
    } else {
        48 + index - 27 + 1
    }
}

/// The family letter of a kind's code (`m`, `p`, `s` or `z`), as a character value.
pub open spec fn kind_code_family(index: int) -> int {
    match kind_suit(index) {
        Some(suit) => suit_letter(suit) as int,
        None => 122,
    }
}

/// The one-character string of a family letter.
fn family_str(letter: u8) -> (r: &'static str)
    requires
        letter == 109 || letter == 112 || letter == 115 || letter == 122,
    ensures
        r@.len() == 1,
        r@[0] as int == letter,
{
    proof {
        reveal_strlit("m");
        reveal_strlit("p");
        reveal_strlit("s");
        reveal_strlit("z");
    }
    if letter == 109 {
        "m"
    } else if letter == 112 {
        "p"
    } else if letter == 115 {
        "s"
    } else {
        "z"
    }
}

/// Builds the two-character code of a digit followed by a family letter.
pub(crate) fn two_char_code(digit: u8, family: u8) -> (r: String)
    requires
        digit <= 9,
        family == 109 || family == 112 || family == 115 || family == 122,
    ensures
        r@.len() == 2,
        r@[0] as int == 48 + digit,
        r@[1] as int == family,
{
    let mut code = String::from_str(digit_str(digit));
    code.append(family_str(family));
    code
}

#[derive(Clone, Copy, Debug, PartialEq, Eq, Structural)]
pub struct TileKindIndexError;

impl TileKindIndexError {
    /// A human-readable description of the error.
    pub fn message(&self) -> (r: &'static str)
        ensures
            r@ == "tile kind index must be between 0 and 33"@,
    {
        "tile kind index must be between 0 and 33"
    }
}

/// A printed tile face: a kind, and whether it is a red five.
#[derive(Clone, Copy, Debug, PartialEq, Eq, Structural, Hash, PartialOrd, Ord)]
pub struct TileFace {
    kind: TileKind,
    red: bool,
}

impl TileFace {
    #[verifier::type_invariant]
    spec fn inv(self) -> bool {
        self.red ==> kind_is_five(self.kind@ as int)
    }

    pub closed spec fn spec_kind(self) -> TileKind {
        self.kind
    }

    pub closed spec fn spec_red(self) -> bool {
        self.red
    }

    /// The face of the given kind and redness.
    pub closed spec fn spec_new(kind: TileKind, red: bool) -> TileFace {
        TileFace { kind, red }
    }

    /// A face is determined by its kind and redness.
    pub broadcast proof fn lemma_spec_new(kind: TileKind, red: bool)
        ensures
            #[trigger] TileFace::spec_new(kind, red).spec_kind() == kind,
            TileFace::spec_new(kind, red).spec_red() == red,
    {
    }

    pub fn new(kind: TileKind, red: bool) -> (r: Result<TileFace, TileError>)
        ensures
            (red && !kind_is_five(kind@ as int)) ==> r == Err::<TileFace, TileError>(
                TileError::RedOnlyFive,
            ),
            !(red && !kind_is_five(kind@ as int)) ==> (r matches Ok(face) && face.spec_kind()
                == kind && face.spec_red() == red),
    {
        if red {
            match kind.rank() {
                Some(rank) => {
                    if rank.value() != 5 {
                        return Err(TileError::RedOnlyFive);
                    }
                },
                None => {
                    return Err(TileError::RedOnlyFive);
                },
            }
        }
        Ok(TileFace { kind, red })
    }

    #[must_use]
    pub fn kind(self) -> (r: TileKind)
        ensures
            r == self.spec_kind(),
    {
        self.kind
    }

    #[must_use]
    pub fn is_red(self) -> (r: bool)
        ensures
            r == self.spec_red(),
            r ==> kind_is_five(self.spec_kind()@ as int),
    {
        proof {
            use_type_invariant(&self);
        }
        self.red
    }

    /// The two-character code of the face; a red five is written with the digit zero.
    #[must_use]
    pub fn to_string(&self) -> (r: String)
        ensures
            r@.len() == 2,
            r@[0] as int == (if self.spec_red() {
                48
            } else {
                kind_code_digit(self.spec_kind()@ as int)
            }),
            r@[1] as int == kind_code_family(self.spec_kind()@ as int),
    {
        proof {
            use_type_invariant(self);
        }
        if self.red {
            let suit = self.kind.suit();
            match suit {
                Some(suit) => two_char_code(0, suit.letter()),
                None => two_char_code(0, 122),
            }
        } else {
            self.kind.to_string()
        }
    }

    /// Parses a two-character face code such as `3m`, `0p` (red five) or `7z`.
    pub fn parse_code(value: &str) -> (r: Result<TileFace, TileError>)
        ensures
            r == parse_face_bytes(value.spec_bytes()),
    {
        let bytes = value.as_bytes();
        if bytes.len() != 2 {
            return Err(TileError::InvalidCode);
        }
        Self::parse_pair(bytes[0], bytes[1])
    }

    /// Parses a face from its digit byte and family byte.
    pub fn parse_pair(number: u8, family: u8) -> (r: Result<TileFace, TileError>)
        ensures
            r == parse_face_pair(number, family),
    {
        if let Some(suit) = Suit::from_code(family) {
            if number == 48 {
                let kind = TileKind::suited(suit, Rank::five());
                return Ok(TileFace { kind, red: true });
            }
            if number < 48 {
                return Err(TileError::InvalidCode);
            }
            let rank = match Rank::new(number - 48) {
                Ok(rank) => rank,
                Err(error) => return Err(error),
            };
            return Ok(TileFace { kind: TileKind::suited(suit, rank), red: false });
        }
        if family == 122 {
            if number < 49 {
                return Err(TileError::InvalidCode);
            }
            return match Honor::from_index(number - 49) {
                Some(honor) => Ok(TileFace { kind: TileKind::honor(honor), red: false }),
                None => Err(TileError::InvalidCode),
            };
        }
        Err(TileError::InvalidCode)
    }
}

/// The result of parsing a face code given as bytes.
pub open spec fn parse_face_bytes(bytes: Seq<u8>) -> Result<TileFace, TileError> {
    if bytes.len() != 2 {
        Err(TileError::InvalidCode)
    } else {
        parse_face_pair(bytes[0], bytes[1])
    }
}

/// The face of the kind at `index` with the given redness.
pub open spec fn face_at(index: int, red: bool) -> TileFace {
    TileFace::spec_new(TileKind::spec_at(index), red)
}

/// The result of parsing a face from its digit and family bytes.
pub open spec fn parse_face_pair(number: u8, family: u8) -> Result<TileFace, TileError> {
    let suit = if family == 109 {
        Some(Suit::Man)
    } else if family == 112 {
        Some(Suit::Pin)
    } else if family == 115 {
        Some(Suit::Sou)
    } else {
        None
    };
    match suit {
        Some(suit) => {
            if number == 48 {
                Ok(face_at(suited_index(suit, 5), true))
            } else if 49 <= number <= 57 {
                Ok(face_at(suited_index(suit, number - 48), false))
            } else if number < 48 {
                Err(TileError::InvalidCode)
            } else {
                Err(TileError::InvalidRank)
            }
        },
        None => {
            if family == 122 && 49 <= number <= 55 {
                Ok(face_at(27 + number - 49, false))
            } else {
                Err(TileError::InvalidCode)
            }
        },
    }
}

/// Every kind's code reads back as that kind: parsing the digit and family letter that
/// `to_string` writes for the kind at `index` gives the plain (not red) face of that kind.
pub proof fn lemma_kind_code_round_trip(index: int)
    requires
        0 <= index < 34,
    ensures
        parse_face_pair(kind_code_digit(index) as u8, kind_code_family(index) as u8) == Ok::<TileFace, TileError>(
            face_at(index, false),
        ),
{
    if index < 27 {
        let suit = suit_at(index / 9);
        assert(kind_suit(index) == Some(suit));
        assert(suit_index(suit) == index / 9);
        assert(suited_index(suit, index % 9 + 1) == index);
    }
}

/// A physical tile's identity, unique within a tile set.
#[derive(Clone, Copy, Debug, PartialEq, Eq, Structural, Hash, PartialOrd, Ord)]
pub struct TileId(u16);

impl View for TileId {
    type V = u16;

    closed spec fn view(&self) -> u16 {
        self.0
    }
}

impl TileId {
    /// Two ids with the same value are the same id.
    pub broadcast proof fn lemma_view_injective(a: TileId, b: TileId)
        ensures
            #[trigger] a@ == #[trigger] b@ ==> a == b,
    {
    }

    #[must_use]
    pub fn new(value: u16) -> (r: TileId)
        ensures
            r@ == value,
    {
        TileId(value)
    }

    #[must_use]
    pub fn value(self) -> (r: u16)
        ensures
            r == self@,
    {
        self.0
    }
}

/// A physical tile: its identity and its printed face.
#[derive(Clone, Copy, Debug, PartialEq, Eq, Structural, Hash, PartialOrd, Ord)]
pub struct Tile {
    id: TileId,
    face: TileFace,
}

impl Tile {
    pub closed spec fn spec_id(self) -> TileId {
        self.id
    }

    pub closed spec fn spec_face(self) -> TileFace {
        self.face
    }

    /// The kind printed on the tile.
    pub open spec fn spec_kind(self) -> TileKind {
        self.spec_face().spec_kind()
    }

    /// Whether the tile is a red five.
    pub open spec fn spec_red(self) -> bool {
        self.spec_face().spec_red()
    }

    pub fn new(id: TileId, kind: TileKind, red: bool) -> (r: Result<Tile, TileError>)
        ensures
            (red && !kind_is_five(kind@ as int)) ==> r == Err::<Tile, TileError>(
                TileError::RedOnlyFive,
            ),
            !(red && !kind_is_five(kind@ as int)) ==> (r matches Ok(tile) && tile.spec_id() == id
                && tile.spec_kind() == kind && tile.spec_red() == red),
    {
        let face = match TileFace::new(kind, red) {
            Ok(face) => face,
            Err(error) => return Err(error),
        };
        Ok(Tile { id, face })
    }

    /// A tile with the given identity and face.
    pub fn with_face(id: TileId, face: TileFace) -> (r: Tile)
        ensures
            r.spec_id() == id,
            r.spec_face() == face,
    {
        Tile { id, face }
    }

    #[must_use]
    pub fn id(self) -> (r: TileId)
        ensures
            r == self.spec_id(),
    {
        self.id
    }

    #[must_use]
    pub fn face(self) -> (r: TileFace)
        ensures
            r == self.spec_face(),
    {
        self.face
    }

    #[must_use]
    pub fn kind(self) -> (r: TileKind)
        ensures
            r == self.spec_kind(),
    {
        self.face.kind()
    }

    #[must_use]
    pub fn is_red(self) -> (r: bool)
        ensures
            r == self.spec_red(),
            r ==> kind_is_five(self.spec_kind()@ as int),
    {
        self.face.is_red()
    }

    /// The code of the tile's face.
    #[must_use]
    pub fn to_string(&self) -> (r: String)
        ensures
            r@.len() == 2,
            r@[0] as int == (if self.spec_red() {
                48
            } else {
                kind_code_digit(self.spec_kind()@ as int)
            }),
            r@[1] as int == kind_code_family(self.spec_kind()@ as int),
    {
        self.face.to_string()
    }
}

#[derive(Clone, Copy, Debug, PartialEq, Eq, Structural)]
pub enum TileError {
    InvalidRank,
    InvalidCode,
    RedOnlyFive,
    RedCodeIsNotTileKind,
}

impl TileError {
    /// A human-readable description of the error.
    pub fn message(&self) -> (r: &'static str)
        ensures
            *self == TileError::InvalidRank ==> r@ == "numbered tile rank must be between 1 and 9"@,
            *self == TileError::InvalidCode ==> r@ == "invalid tile code"@,
            *self == TileError::RedOnlyFive ==> r@ == "only a suited five can be red"@,
            *self == TileError::RedCodeIsNotTileKind ==> r@
                == "a red tile code describes a tile face, not a tile kind"@,
    {
        match self {
            TileError::InvalidRank => "numbered tile rank must be between 1 and 9",
            TileError::InvalidCode => "invalid tile code",
            TileError::RedOnlyFive => "only a suited five can be red",
            TileError::RedCodeIsNotTileKind => "a red tile code describes a tile face, not a tile kind",
        }
    }
}

impl TileKind {
    /// Parses a kind code such as `3m` or `7z`; a red five code is rejected.
    pub fn parse_code(value: &str) -> (r: Result<TileKind, TileError>)
        ensures
            r == (match parse_face_bytes(value.spec_bytes()) {
                Ok(face) => if face.spec_red() {
                    Err(TileError::RedCodeIsNotTileKind)
                } else {
                    Ok(face.spec_kind())
                },
                Err(error) => Err(error),
            }),
    {
        let face = match TileFace::parse_code(value) {
            Ok(face) => face,
            Err(error) => return Err(error),
        };
        if face.is_red() {
            return Err(TileError::RedCodeIsNotTileKind);
        }
        Ok(face.kind())
    }
}

impl std::str::FromStr for TileKind {
    type Err = TileError;

    fn from_str(value: &str) -> Result<TileKind, TileError> {
        TileKind::parse_code(value)
    }
}

impl std::str::FromStr for TileFace {
    type Err = TileError;

    fn from_str(value: &str) -> Result<TileFace, TileError> {
        TileFace::parse_code(value)
    }
}

} // verus!
