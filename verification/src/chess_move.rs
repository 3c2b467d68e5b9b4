//! A chess move: its type and from/to squares
use vstd::prelude::*;

use crate::move_type::MoveType;
use crate::piece_type::spec_lower_char;
use crate::promotion_piece_type::{spec_promoted_piece, PromotionPieceType};
use crate::square::{spec_square_name, Square};

pub mod double_pawn_push;
pub mod en_passant_capture;
pub mod quiet;

verus! {

/// The move type and from/to squares for a chess move
#[derive(Copy, Clone, Debug, PartialEq, Eq, Structural)]
pub struct ChessMove {
    /// Move metadata for each type of chess move
    pub move_type: MoveType,
    /// The starting square for the piece being moved
    pub from: Square,
    /// The ending square for the piece being moved
    pub to: Square,
}

/// The UCI text of a move: the from and to squares, then the promoted piece's lower case letter for promotions
pub open spec fn spec_move_name(chess_move: ChessMove) -> Seq<char> {
    let squares = spec_square_name(chess_move.from) + spec_square_name(chess_move.to);
    match chess_move.move_type {
        MoveType::Promotion { promotion } => squares.push(spec_lower_char(spec_promoted_piece(promotion))),
        MoveType::PromotingCapture { promotion, .. } => squares.push(spec_lower_char(spec_promoted_piece(promotion))),
        _ => squares,
    }
}

/// The letter UCI writes after the squares of a move promoting to a piece
pub open spec fn uci_promotion_letter(promotion: PromotionPieceType) -> char {
    match promotion {
        PromotionPieceType::Queen => 'q',
        PromotionPieceType::Rook => 'r',
        PromotionPieceType::Bishop => 'b',
        PromotionPieceType::Knight => 'n',
    }
}

/// The piece a move promotes to, if it promotes (with or without a capture)
pub open spec fn promotion_of(move_type: MoveType) -> Option<PromotionPieceType> {
    match move_type {
        MoveType::Promotion { promotion } => Some(promotion),
        MoveType::PromotingCapture { promotion, .. } => Some(promotion),
        _ => None,
    }
}

/// A move is written in UCI as its starting square's name and its ending square's name, followed, when it promotes
/// (capturing or not), by exactly one more character: the lower case letter of the piece it promotes to
pub proof fn lemma_move_name_shape(chess_move: ChessMove)
    ensures
        spec_move_name(chess_move) == match promotion_of(chess_move.move_type) {
            Some(promotion) => spec_square_name(chess_move.from) + spec_square_name(chess_move.to) + seq![
                uci_promotion_letter(promotion),
            ],
            None => spec_square_name(chess_move.from) + spec_square_name(chess_move.to),
        },
        spec_move_name(chess_move).len() == if promotion_of(chess_move.move_type) is Some { 5int } else { 4int },
{
    let squares = spec_square_name(chess_move.from) + spec_square_name(chess_move.to);
    if let Some(promotion) = promotion_of(chess_move.move_type) {
        assert(squares.push(spec_lower_char(spec_promoted_piece(promotion))) =~= squares + seq![uci_promotion_letter(promotion)]);
    }
}

/// The lower case letter of the piece a pawn promotes to
fn promotion_letter(promotion: PromotionPieceType) -> (res: &'static str)
    ensures
        res@ == seq![spec_lower_char(spec_promoted_piece(promotion))],
{
    match promotion {
        PromotionPieceType::Queen => {
            proof {
                reveal_strlit("q");
            }
            "q"
        },
        PromotionPieceType::Rook => {
            proof {
                reveal_strlit("r");
            }
            "r"
        },
        PromotionPieceType::Bishop => {
            proof {
                reveal_strlit("b");
            }
            "b"
        },
        PromotionPieceType::Knight => {
            proof {
                reveal_strlit("n");
            }
            "n"
        },
    }
}

impl ChessMove {
    /// The move in UCI notation, such as `e2e4` or `e7e8q`
    pub fn to_uci_string(&self) -> (res: String)
        ensures
            res@ == spec_move_name(*self),
            res@ == match promotion_of(self.move_type) {
                Some(promotion) => spec_square_name(self.from) + spec_square_name(self.to) + seq![uci_promotion_letter(promotion)],
                None => spec_square_name(self.from) + spec_square_name(self.to),
            },
    {
        proof {
            lemma_move_name_shape(*self);
        }
        let mut text = self.from.to_uci_string();
        let to = self.to.to_uci_string();
        text.append(to.as_str());
        match self.move_type {
            MoveType::Promotion { promotion } | MoveType::PromotingCapture { promotion, .. } => {
                text.append(promotion_letter(promotion));
            },
            _ => {},
        }
        text
    }
}

} // verus!
