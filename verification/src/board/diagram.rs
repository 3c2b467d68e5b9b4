//! A printable diagram of a board: the pieces by rank and file, with the FEN string, the first checker and the hash beside
use vstd::prelude::*;

use crate::board::fen::spec_fen_string;
use crate::board::{lowest_square, Board};
use crate::player::Player;
use crate::sided_piece::{spec_piece_char, SidedPiece};
use crate::square::{lemma_index_square_at, spec_square_name, Square};
use crate::text::{digit_str, spec_digit_char, spec_hex, u64_to_hex_string};

verus! {

/// The diagram character of a square: the piece's FEN letter, or `-` when empty
pub open spec fn diagram_char(piece: Option<SidedPiece>) -> char {
    match piece {
        Some(piece) => spec_piece_char(piece),
        None => '-',
    }
}

/// The squares of a rank from `file` on, each character followed by a space
pub open spec fn diagram_squares(pieces: Seq<Option<SidedPiece>>, rank: int, file: int) -> Seq<char>
    decreases 8 - file,
{
    if file >= 8 {
        Seq::empty()
    } else {
        seq![diagram_char(pieces[rank * 8 + file]), ' '] + diagram_squares(pieces, rank, file + 1)
    }
}

/// What is written beside a rank: the FEN string beside the seventh rank, the first checker beside the fifth and the
/// Zobrist hash in upper case hexadecimal beside the fourth
pub open spec fn diagram_note(board: Board, rank: int) -> Seq<char> {
    if rank == 6 {
        "\t\tFEN: "@ + spec_fen_string(board)
    } else if rank == 4 {
        "\t\tCheckers: "@ + match lowest_square(board.state.checkers) {
            Some(square) => spec_square_name(square),
            None => "-"@,
        }
    } else if rank == 3 {
        "\t\tHash: 0x"@ + spec_hex(board.hasher.value() as nat)
    } else {
        Seq::empty()
    }
}

/// One line of the diagram: the rank's number, its squares, its number again and its note
pub open spec fn diagram_line(board: Board, rank: int) -> Seq<char> {
    seq![spec_digit_char(rank + 1), ' '] + diagram_squares(board.pieces(), rank, 0) + seq![spec_digit_char(rank + 1)]
        + diagram_note(board, rank) + seq!['\n']
}

/// The lines of the diagram from `rank` down to the first rank
pub open spec fn diagram_lines(board: Board, rank: int) -> Seq<char>
    decreases rank,
{
    if rank <= 0 {
        diagram_line(board, 0)
    } else {
        diagram_line(board, rank) + diagram_lines(board, rank - 1)
    }
}

/// The whole diagram: an empty line, the file letters, the ranks from the eighth down, and the file letters
pub open spec fn spec_diagram(board: Board) -> Seq<char> {
    "\n"@ + "  A B C D E F G H  \n"@ + diagram_lines(board, 7) + "  A B C D E F G H  \n"@
}

/// The diagram text of one square
fn square_text(piece: Option<SidedPiece>) -> (res: &'static str)
    ensures
        res@ == seq![diagram_char(piece)],
{
    match piece {
        Some(piece) => crate::board::fen::piece_text(piece),
        None => {
            proof {
                reveal_strlit("-");
            }
            "-"
        },
    }
}

impl Board {
    /// The piece on a square of a well formed board
    fn sided_piece_on(&self, square: Square) -> (res: Option<SidedPiece>)
        requires
            self.wf(),
        ensures
            res == self.pieces()[crate::square::sq_index(square)],
    {
        proof {
            crate::square::lemma_square_index_range(square);
            self.lemma_wf_encodes(crate::square::sq_index(square));
        }
        match self.piece_on(square) {
            Some(piece_type) => {
                let player = match self.side_on(square) {
                    Some(player) => player,
                    None => Player::Black,
                };
                Some(SidedPiece::new(piece_type, player))
            },
            None => None,
        }
    }

    /// The note written beside a rank of the diagram
    fn diagram_note(&self, rank: usize) -> (res: String)
        requires
            self.wf(),
            rank < 8,
        ensures
            res@ == diagram_note(*self, rank as int),
    {
        if rank == 6 {
            let mut note = String::from_str("\t\tFEN: ");
            note.append(self.get_fen_string().as_str());
            note
        } else if rank == 4 {
            let mut note = String::from_str("\t\tCheckers: ");
            let mut checkers = self.checkers();
            let ghost mask = checkers;
            let first = checkers.pop_square();
            proof {
                crate::board::lemma_lowest_square(mask, first);
            }
            match first {
                Some(square) => note.append(square.to_uci_string().as_str()),
                None => note.append("-"),
            }
            note
        } else if rank == 3 {
            let mut note = String::from_str("\t\tHash: 0x");
            note.append(u64_to_hex_string(self.zobrist_key()).as_str());
            note
        } else {
            String::new()
        }
    }

    /// A diagram of the board, ranks from the eighth down: each square's piece letter (upper case for white,
    /// lower case for black, `-` when empty), with the FEN string, the first piece giving check and the hash beside
    #[verifier::spinoff_prover]
    pub fn diagram(&self) -> (res: String)
        requires
            self.wf(),
        ensures
            res@ == spec_diagram(*self),
    {
        let ghost pieces = self.pieces();
        let mut text = String::from_str("\n");
        text.append("  A B C D E F G H  \n");
        let ghost header = text@;
        let mut rank: usize = 8;
        while rank > 0
            invariant
                rank <= 8,
                self.wf(),
                pieces == self.pieces(),
                text@ + (if rank == 0 { Seq::<char>::empty() } else { diagram_lines(*self, rank - 1) }) == header
                    + diagram_lines(*self, 7),
            decreases rank,
        {
            rank -= 1;
            let ghost line_start = text@;
            text.append(digit_str(rank as u64 + 1));
            proof {
                reveal_strlit(" ");
            }
            text.append(" ");
            let ghost squares_start = text@;
            let mut file: usize = 0;
            while file < 8
                invariant
                    rank < 8,
                    file <= 8,
                    self.wf(),
                    pieces == self.pieces(),
                    text@ + diagram_squares(pieces, rank as int, file as int) == squares_start + diagram_squares(
                        pieces,
                        rank as int,
                        0,
                    ),
                decreases 8 - file,
            {
                proof {
                    lemma_index_square_at((rank * 8 + file) as int);
                    reveal_strlit(" ");
                }
                let square = Square::SQUARES[rank * 8 + file];
                let ghost before = text@;
                text.append(square_text(self.sided_piece_on(square)));
                text.append(" ");
                proof {
                    assert(text@ =~= before + seq![diagram_char(pieces[rank * 8 + file]), ' ']);
                }
                file += 1;
            }
            text.append(digit_str(rank as u64 + 1));
            text.append(self.diagram_note(rank).as_str());
            proof {
                reveal_strlit("\n");
            }
            text.append("\n");
            proof {
                assert(text@ =~= line_start + diagram_line(*self, rank as int));
                if rank > 0 {
                    assert(diagram_lines(*self, rank as int) == diagram_line(*self, rank as int) + diagram_lines(
                        *self,
                        rank - 1,
                    ));
                    assert(text@ + diagram_lines(*self, rank - 1) =~= line_start + diagram_lines(*self, rank as int));
                } else {
                    assert(text@ =~= line_start + diagram_lines(*self, 0));
                }
            }
        }
        text.append("  A B C D E F G H  \n");
        proof {
            assert(text@ =~= spec_diagram(*self));
        }
        text
    }
}

} // verus!
