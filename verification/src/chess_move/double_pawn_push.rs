use vstd::prelude::*;

use crate::chess_move::quiet::Quiet;
use crate::piece_type::PieceType;
use crate::player::Player;
use crate::sided_piece::SidedPiece;
use crate::square::{sq_index, square_on, Square};
use core::convert::From;
use vstd::std_specs::convert::FromSpecImpl;

verus! {

/// A valid double-pawn push, or a special starting rank unobstructed two square pawn push
#[derive(Copy, Clone, Debug, PartialEq, Eq, Structural)]
pub struct DoublePawnPush {
    /// The player doing the pawn pushing, the owner of the piece
    player: Player,
    /// The file (0 for A .. 7 for H) the pawn is pushing along
    file: u8,
}

impl DoublePawnPush {
    /// A push is along a file of the board
    #[verifier::type_invariant]
    spec fn on_board(self) -> bool {
        self.file < 8
    }

    /// The player pushing
    pub closed spec fn spec_player(&self) -> Player {
        self.player
    }

    /// The file pushed along (0 for A .. 7 for H)
    pub closed spec fn spec_file(&self) -> int {
        self.file as int
    }

    /// The square on a rank of the pushed file, the rank depending on the player
    pub open spec fn spec_square(&self, white_rank: int, black_rank: int) -> Square {
        square_on(if self.spec_player() == Player::White { white_rank } else { black_rank }, self.spec_file())
    }

    /// Create a new [`DoublePawnPush`] for a given player moving a pawn on a file (0 for A .. 7 for H)
    pub fn new(player: Player, file: u8) -> (res: Self)
        requires
            file < 8,
        ensures
            res.spec_player() == player,
            res.spec_file() == file,
    {
        Self { player, file }
    }

    /// The square on a rank of the file pushed along, the rank depending on the player
    fn square_on_rank(&self, white_rank: u8, black_rank: u8) -> (res: Square)
        requires
            white_rank < 8,
            black_rank < 8,
        ensures
            res == self.spec_square(white_rank as int, black_rank as int),
            sq_index(res) == (if self.spec_player() == Player::White { white_rank as int } else { black_rank as int }) * 8 + self.spec_file(),
    {
        proof {
            use_type_invariant(self);
        }
        let rank = match self.player {
            Player::White => white_rank,
            Player::Black => black_rank,
        };
        Square::on_rank_file(rank, self.file)
    }

    /// The starting square the pawn is moving `from`: on its second rank
    pub fn from(&self) -> (res: Square)
        ensures
            res == self.spec_square(1, 6),
    {
        self.square_on_rank(1, 6)
    }

    /// The ending square the pawn jumped `to`: two ranks further
    pub fn to(&self) -> (res: Square)
        ensures
            res == self.spec_square(3, 4),
    {
        self.square_on_rank(3, 4)
    }

    /// The square being jumped over
    pub fn en_passant_square(&self) -> (res: Square)
        ensures
            res == self.spec_square(2, 5),
    {
        self.square_on_rank(2, 5)
    }
}

impl From<DoublePawnPush> for Quiet {
    fn from(value: DoublePawnPush) -> (res: Quiet) {
        let from = value.square_on_rank(1, 6);
        let to = value.square_on_rank(3, 4);
        Quiet::new(from, to, SidedPiece::new(PieceType::Pawn, value.player)).unwrap()
    }
}

impl FromSpecImpl<DoublePawnPush> for Quiet {
    open spec fn obeys_from_spec() -> bool {
        true
    }

    open spec fn from_spec(value: DoublePawnPush) -> Quiet {
        Quiet::spec_new(value.spec_square(1, 6), value.spec_square(3, 4), SidedPiece { piece_type: PieceType::Pawn, player: value.spec_player() })
    }
}

} // verus!
