//! Thermite: chess board representation, move making and evaluation primitives.
use vstd::prelude::*;

pub mod bitboard;
pub mod board;
pub mod castles;
pub mod chess_move;
pub mod piece_type;
pub mod position;
pub mod player;
pub mod move_type;
pub mod promotion_piece_type;
pub mod score;
pub mod side;
pub mod sided_piece;
pub mod square;
pub mod text;
pub mod uci;
pub mod zobrist;

verus! {

} // verus!
