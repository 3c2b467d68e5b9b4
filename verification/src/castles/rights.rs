use vstd::prelude::*;

use core::convert::TryFrom;
use vstd::std_specs::convert::TryFromSpecImpl;

use crate::player::Player;
use crate::text::{chars_eq, str_chars};
use core::ops::{BitAnd, BitOr, Not};
use vstd::std_specs::ops::{BitAndSpecImpl, BitOrSpecImpl, NotSpecImpl};

verus! {

/// Keeps track of available castle abilities (king-side or queen-side castle) for both sides.
///
/// The variants are declared in the order of their four bit flag value: white king side is bit 0,
/// white queen side bit 1, black king side bit 2 and black queen side bit 3.
#[derive(Copy, Clone, Debug, PartialEq, Eq, Structural, PartialOrd, Ord, Hash)]
pub enum CastleRights {
    /// No castle abilities for either side
    NoRights,
    /// White's king-side castle ability
    WhiteKing,
    /// White's queen-side castle ability
    WhiteQueen,
    /// White can castle on both king and queen side
    WhiteBoth,
    /// Black's king-side castle ability
    BlackKing,
    /// Both sides' king-side castle abilities
    BothKings,
    /// White queen-side and black king-side castle abilities
    WhiteQueenBlackKing,
    /// White queen & king-side as well as black's king-side castle abilities
    WhiteBothBlackKing,
    /// Black's queen-side castle ability
    BlackQueen,
    /// White's king-side and black's queen-side castle abilities
    WhiteKingBlackQueen,
    /// Both sides' queen-side castle abilities
    BothQueens,
    /// White's king & queen-side as well as black's queen-side castle abilities
    WhiteBothBlackQueen,
    /// Black can castle on both king and queen side
    BlackBoth,
    /// White's king-side and both black's king & queen-side castle abilities
    WhiteKingBlackBoth,
    /// White's queen-side and both black's king & queen-side castle abilities
    WhiteQueenBlackBoth,
    /// If both players can castle in all directions
    All,
}

/// Invalid flag input value or string for castle rights:
/// it wasn't a valid combination of the 4 castle abilities or none.
#[derive(Copy, Clone, Debug, PartialEq, Eq, Structural)]
pub struct IllegalCastleRights;

/// The four bit flag value of castle rights
pub open spec fn rights_bits(rights: CastleRights) -> u8 {
    rights as u8
}

/// The castle rights with a four bit flag value
pub open spec fn rights_from_bits(bits: int) -> CastleRights
    recommends
        0 <= bits < 16,
{
    CastleRights::ALL_CASTLES[bits]
}

/// Both castle abilities of one side
pub open spec fn spec_side_rights(side: Player) -> CastleRights {
    match side {
        Player::White => CastleRights::WhiteBoth,
        Player::Black => CastleRights::BlackBoth,
    }
}

/// The flag bit of one castle ability (for a side, king side or queen side)
pub open spec fn right_flag(side: Player, king_side: bool) -> u8 {
    match (side, king_side) {
        (Player::White, true) => 1,
        (Player::White, false) => 2,
        (Player::Black, true) => 4,
        (Player::Black, false) => 8,
    }
}

/// If the flag value holds the ability for a side to castle in a direction
pub open spec fn has_flag(bits: u8, side: Player, king_side: bool) -> bool {
    match (side, king_side) {
        (Player::White, true) => bits % 2 == 1,
        (Player::White, false) => (bits / 2) % 2 == 1,
        (Player::Black, true) => (bits / 4) % 2 == 1,
        (Player::Black, false) => (bits / 8) % 2 == 1,
    }
}

/// The UCI/FEN name of castle rights: `-` for none, else the held abilities in the order `K`, `Q`, `k`, `q`
pub open spec fn spec_rights_name(rights: CastleRights) -> Seq<char> {
    let bits = rights_bits(rights);
    if bits == 0 {
        seq!['-']
    } else {
        (if has_flag(bits, Player::White, true) { seq!['K'] } else { Seq::<char>::empty() })
            + (if has_flag(bits, Player::White, false) { seq!['Q'] } else { Seq::<char>::empty() })
            + (if has_flag(bits, Player::Black, true) { seq!['k'] } else { Seq::<char>::empty() })
            + (if has_flag(bits, Player::Black, false) { seq!['q'] } else { Seq::<char>::empty() })
    }
}

/// The castle rights a UCI/FEN string names, if any
pub open spec fn spec_parse_rights(s: Seq<char>) -> Option<CastleRights> {
    if exists|r: CastleRights| spec_rights_name(r) == s {
        Some(choose|r: CastleRights| spec_rights_name(r) == s)
    } else {
        None
    }
}

/// The name of castle rights has characters, none of them whitespace
pub proof fn lemma_rights_name_chars(rights: CastleRights)
    ensures
        spec_rights_name(rights).len() > 0,
        crate::text::no_whitespace(spec_rights_name(rights)),
{
    let bits = rights_bits(rights);
    lemma_rights_bits(rights, 0);
    if bits != 0 {
        assert(has_flag(bits, Player::White, true) || has_flag(bits, Player::White, false) || has_flag(bits, Player::Black, true)
            || has_flag(bits, Player::Black, false));
    }
}

/// Every flag value below 16 names castle rights, and castle rights have flag values below 16
pub proof fn lemma_rights_bits(rights: CastleRights, bits: int)
    ensures
        rights_bits(rights) < 16,
        rights_from_bits(rights_bits(rights) as int) == rights,
        0 <= bits < 16 ==> rights_bits(rights_from_bits(bits)) == bits,
{
    if 0 <= bits < 16 {
        assert(rights_bits(CastleRights::ALL_CASTLES@[bits]) == bits);
    }
    assert(CastleRights::ALL_CASTLES@[rights_bits(rights) as int] == rights);
}

/// Different castle rights have different names
pub proof fn lemma_rights_name_injective(a: CastleRights, b: CastleRights)
    ensures
        spec_rights_name(a) == spec_rights_name(b) ==> a == b,
{
    if spec_rights_name(a) == spec_rights_name(b) {
        lemma_rights_bits(a, 0);
        lemma_rights_bits(b, 0);
        lemma_name_flags(a);
        lemma_name_flags(b);
        lemma_flags_determine_bits(rights_bits(a), rights_bits(b));
    }
}

/// A flag value below 16 is determined by its four flags
proof fn lemma_flags_determine_bits(x: u8, y: u8)
    requires
        x < 16,
        y < 16,
        has_flag(x, Player::White, true) == has_flag(y, Player::White, true),
        has_flag(x, Player::White, false) == has_flag(y, Player::White, false),
        has_flag(x, Player::Black, true) == has_flag(y, Player::Black, true),
        has_flag(x, Player::Black, false) == has_flag(y, Player::Black, false),
    ensures
        x == y,
{
    assert(x == x % 2 + 2 * ((x / 2) % 2) + 4 * ((x / 4) % 2) + 8 * ((x / 8) % 2));
    assert(y == y % 2 + 2 * ((y / 2) % 2) + 4 * ((y / 4) % 2) + 8 * ((y / 8) % 2));
}

/// The name of castle rights lists each held ability, and no other
proof fn lemma_name_flags(rights: CastleRights)
    ensures
        ({
            let bits = rights_bits(rights);
            let name = spec_rights_name(rights);
            &&& name.contains('K') == has_flag(bits, Player::White, true)
            &&& name.contains('Q') == has_flag(bits, Player::White, false)
            &&& name.contains('k') == has_flag(bits, Player::Black, true)
            &&& name.contains('q') == has_flag(bits, Player::Black, false)
        }),
{
    let bits = rights_bits(rights);
    let name = spec_rights_name(rights);
    if bits == 0 {
        assert(name[0] == '-');
        return;
    }
    let k = if has_flag(bits, Player::White, true) { seq!['K'] } else { Seq::<char>::empty() };
    let q = if has_flag(bits, Player::White, false) { seq!['Q'] } else { Seq::<char>::empty() };
    let bk = if has_flag(bits, Player::Black, true) { seq!['k'] } else { Seq::<char>::empty() };
    let bq = if has_flag(bits, Player::Black, false) { seq!['q'] } else { Seq::<char>::empty() };
    assert(name == k + q + bk + bq);
    assert forall|c: char| name.contains(c) implies (c == 'K' && has_flag(bits, Player::White, true))
        || (c == 'Q' && has_flag(bits, Player::White, false)) || (c == 'k' && has_flag(bits, Player::Black, true))
        || (c == 'q' && has_flag(bits, Player::Black, false)) by {
        let idx = choose|idx: int| 0 <= idx < name.len() && name[idx] == c;
        if idx < k.len() {
            assert(name[idx] == k[idx]);
        } else if idx < k.len() + q.len() {
            assert(name[idx] == q[idx - k.len()]);
        } else if idx < k.len() + q.len() + bk.len() {
            assert(name[idx] == bk[idx - k.len() - q.len()]);
        } else {
            assert(name[idx] == bq[idx - k.len() - q.len() - bk.len()]);
        }
    }
    if has_flag(bits, Player::White, true) {
        assert(name[0] == 'K');
    }
    if has_flag(bits, Player::White, false) {
        assert(name[k.len() as int] == 'Q');
    }
    if has_flag(bits, Player::Black, true) {
        assert(name[(k.len() + q.len()) as int] == 'k');
    }
    if has_flag(bits, Player::Black, false) {
        assert(name[(k.len() + q.len() + bk.len()) as int] == 'q');
    }
}

impl CastleRights {
    /// Array of the four castle options starting with white, king then queen, then black king and queen.
    pub const CASTLES: [CastleRights; 4] = [CastleRights::WhiteKing, CastleRights::WhiteQueen, CastleRights::BlackKing, CastleRights::BlackQueen];

    /// Array of all possible castle combinations in their bit-flag order
    pub const ALL_CASTLES: [CastleRights; 16] = [
        CastleRights::NoRights,
        CastleRights::WhiteKing,
        CastleRights::WhiteQueen,
        CastleRights::WhiteBoth,
        CastleRights::BlackKing,
        CastleRights::BothKings,
        CastleRights::WhiteQueenBlackKing,
        CastleRights::WhiteBothBlackKing,
        CastleRights::BlackQueen,
        CastleRights::WhiteKingBlackQueen,
        CastleRights::BothQueens,
        CastleRights::WhiteBothBlackQueen,
        CastleRights::BlackBoth,
        CastleRights::WhiteKingBlackBoth,
        CastleRights::WhiteQueenBlackBoth,
        CastleRights::All,
    ];

    /// The four bit flag value of the rights
    pub fn bits(self) -> (res: u8)
        ensures
            res == rights_bits(self),
            res < 16,
    {
        self as u8
    }

    /// Convert a four bit flag value into castle rights
    ///
    /// # Errors
    /// Errors with [`IllegalCastleRights`] when the value is not below 16
    pub fn try_from_bits(value: u8) -> (res: Result<Self, IllegalCastleRights>)
        ensures
            res is Ok <==> value < 16,
            res matches Ok(r) ==> rights_bits(r) == value,
    {
        if value < 16 {
            proof {
                lemma_rights_bits(CastleRights::NoRights, value as int);
            }
            Ok(Self::ALL_CASTLES[value as usize])
        } else {
            Err(IllegalCastleRights)
        }
    }

    /// The castle rights with a flag value below 16
    fn from_bits(value: u8) -> (res: Self)
        requires
            value < 16,
        ensures
            rights_bits(res) == value,
    {
        proof {
            lemma_rights_bits(CastleRights::NoRights, value as int);
        }
        Self::ALL_CASTLES[value as usize]
    }

    /// Get the rights for a specific side
    pub fn for_side(side: Player) -> (res: Self)
        ensures
            res == spec_side_rights(side),
    {
        match side {
            Player::White => Self::WhiteBoth,
            Player::Black => Self::BlackBoth,
        }
    }

    /// If the castle rights specify the ability for a side to castle in a given direction.
    pub fn can_castle(&self, side: Player, king_side: bool) -> (res: bool)
        ensures
            res == has_flag(rights_bits(*self), side, king_side),
            res == (right_flag(side, king_side) & rights_bits(*self) != 0),
    {
        let truthy_mask: u8 = match (side, king_side) {
            (Player::White, true) => 1,
            (Player::White, false) => 2,
            (Player::Black, true) => 4,
            (Player::Black, false) => 8,
        };
        let bits = self.bits();
        proof {
            assert(bits < 16 ==> ((1u8 & bits != 0) == (bits % 2 == 1) && (2u8 & bits != 0) == ((bits / 2) % 2 == 1)
                && (4u8 & bits != 0) == ((bits / 4) % 2 == 1) && (8u8 & bits != 0) == ((bits / 8) % 2 == 1))) by (bit_vector);
        }
        truthy_mask & bits != 0u8
    }

    /// Remove a mask of rights from a set of castle rights
    pub fn filter(&self, other: Self) -> (res: Self)
        ensures
            rights_bits(res) == rights_bits(*self) & !rights_bits(other),
    {
        let complement = other.not();
        let res = *self & complement;
        proof {
            let (a, b) = (rights_bits(*self), rights_bits(other));
            let c = rights_bits(complement);
            assert((!b) & 15u8 < 16) by (bit_vector);
            lemma_rights_bits(*self, ((!b) & 15u8) as int);
            assert(c == (!b) & 15u8);
            assert(a < 16 ==> a & c < 16) by (bit_vector);
            lemma_rights_bits(complement, (a & c) as int);
            assert(a < 16 ==> (a & ((!b) & 15u8)) == (a & !b)) by (bit_vector);
        }
        res
    }

    /// Attempt to parse a UCI string into castle rights: `-` for none, else each held ability
    /// (`K`, `Q`, `k`, `q`) once, in that order
    ///
    /// # Errors
    /// Will error if input is not a valid UCI castle right.
    pub fn parse(input: &str) -> (res: Result<Self, IllegalCastleRights>)
        ensures
            res is Ok <==> spec_parse_rights(input@) is Some,
            res matches Ok(r) ==> spec_parse_rights(input@) == Some(r),
            res matches Ok(r) ==> spec_rights_name(r) == input@,
    {
        let chars = str_chars(input);
        let mut i: usize = 0;
        while i < 16
            invariant
                i <= 16,
                chars@ == input@,
                forall|j: int| 0 <= j < i ==> spec_rights_name(#[trigger] rights_from_bits(j)) != input@,
            decreases 16 - i,
        {
            let rights = Self::ALL_CASTLES[i];
            let name = rights.name_chars();
            if chars_eq(chars.as_slice(), name.as_slice()) {
                proof {
                    assert(spec_rights_name(rights) == input@);
                    lemma_parse_rights_name(rights);
                }
                return Ok(rights);
            }
            i = i + 1;
        }
        proof {
            assert forall|r: CastleRights| spec_rights_name(r) != input@ by {
                lemma_rights_bits(r, 0);
                assert(spec_rights_name(rights_from_bits(rights_bits(r) as int)) != input@);
            }
        }
        Err(IllegalCastleRights)
    }

    /// The UCI/FEN name of the rights as characters
    fn name_chars(self) -> (res: Vec<char>)
        ensures
            res@ == spec_rights_name(self),
    {
        let mut name: Vec<char> = Vec::new();
        if self.bits() == 0 {
            name.push('-');
            return name;
        }
        if self.can_castle(Player::White, true) {
            name.push('K');
        }
        if self.can_castle(Player::White, false) {
            name.push('Q');
        }
        if self.can_castle(Player::Black, true) {
            name.push('k');
        }
        if self.can_castle(Player::Black, false) {
            name.push('q');
        }
        proof {
            assert(name@ =~= spec_rights_name(self));
        }
        name
    }

    /// The UCI/FEN name of the rights: `-` for none, else the held abilities in the order `K`, `Q`, `k`, `q`
    pub fn to_uci_string(self) -> (res: String)
        ensures
            res@ == spec_rights_name(self),
    {
        if self.bits() == 0 {
            proof {
                reveal_strlit("-");
            }
            return String::from_str("-");
        }
        let mut name = String::new();
        if self.can_castle(Player::White, true) {
            proof {
                reveal_strlit("K");
            }
            name.append("K");
        }
        if self.can_castle(Player::White, false) {
            proof {
                reveal_strlit("Q");
            }
            name.append("Q");
        }
        if self.can_castle(Player::Black, true) {
            proof {
                reveal_strlit("k");
            }
            name.append("k");
        }
        if self.can_castle(Player::Black, false) {
            proof {
                reveal_strlit("q");
            }
            name.append("q");
        }
        proof {
            assert(name@ =~= spec_rights_name(self));
        }
        name
    }
}

/// Parsing the name of any castle rights gives the rights back
pub proof fn lemma_parse_rights_name(rights: CastleRights)
    ensures
        spec_parse_rights(spec_rights_name(rights)) == Some(rights),
{
    let s = spec_rights_name(rights);
    assert(exists|r: CastleRights| spec_rights_name(r) == s);
    let c = choose|r: CastleRights| spec_rights_name(r) == s;
    lemma_rights_name_injective(c, rights);
}

impl BitAnd for CastleRights {
    type Output = CastleRights;

    fn bitand(self, rhs: CastleRights) -> (res: CastleRights) {
        let (a, b) = (self.bits(), rhs.bits());
        proof {
            assert(a < 16 ==> a & b < 16) by (bit_vector);
        }
        Self::from_bits(a & b)
    }
}

impl BitAndSpecImpl for CastleRights {
    open spec fn obeys_bitand_spec() -> bool {
        true
    }

    open spec fn bitand_req(self, rhs: CastleRights) -> bool {
        true
    }

    open spec fn bitand_spec(self, rhs: CastleRights) -> CastleRights {
        rights_from_bits((rights_bits(self) & rights_bits(rhs)) as int)
    }
}

impl BitOr for CastleRights {
    type Output = CastleRights;

    fn bitor(self, rhs: CastleRights) -> (res: CastleRights) {
        let (a, b) = (self.bits(), rhs.bits());
        proof {
            assert(a < 16 && b < 16 ==> a | b < 16) by (bit_vector);
        }
        Self::from_bits(a | b)
    }
}

impl BitOrSpecImpl for CastleRights {
    open spec fn obeys_bitor_spec() -> bool {
        true
    }

    open spec fn bitor_req(self, rhs: CastleRights) -> bool {
        true
    }

    open spec fn bitor_spec(self, rhs: CastleRights) -> CastleRights {
        rights_from_bits((rights_bits(self) | rights_bits(rhs)) as int)
    }
}

impl Not for CastleRights {
    type Output = CastleRights;

    fn not(self) -> (res: CastleRights) {
        let a = self.bits();
        proof {
            assert((!a) & 15u8 < 16) by (bit_vector);
        }
        Self::from_bits((!a) & 15u8)
    }
}

impl NotSpecImpl for CastleRights {
    open spec fn obeys_not_spec() -> bool {
        true
    }

    open spec fn not_req(self) -> bool {
        true
    }

    open spec fn not_spec(self) -> CastleRights {
        rights_from_bits(((!rights_bits(self)) & 15u8) as int)
    }
}

impl TryFrom<u8> for CastleRights {
    type Error = IllegalCastleRights;

    fn try_from(value: u8) -> (res: Result<CastleRights, IllegalCastleRights>) {
        match Self::try_from_bits(value) {
            Ok(rights) => {
                proof {
                    lemma_rights_bits(rights, 0);
                    assert(rights_from_bits(value as int) == rights);
                }
                Ok(rights)
            },
            Err(e) => Err(e),
        }
    }
}

impl TryFromSpecImpl<u8> for CastleRights {
    open spec fn obeys_try_from_spec() -> bool {
        true
    }

    open spec fn try_from_spec(value: u8) -> Result<CastleRights, IllegalCastleRights> {
        if value < 16 {
            Ok(rights_from_bits(value as int))
        } else {
            Err(IllegalCastleRights)
        }
    }
}

} // verus!
