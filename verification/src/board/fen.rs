use vstd::prelude::*;

use crate::board::checks::{lemma_masks_frame, move_gen_masks_match, spec_checker};
use crate::board::position_hash::{
    lemma_initial_state_keys, lemma_place_keeps_hash, lemma_state_keys_complete_hash, lemma_switch_keeps_hash, placement_hash,
};
use crate::board::zobrist::lemma_toggle_zero;
use crate::board::{lemma_same_pieces, Board};
use crate::castles::{spec_parse_rights, spec_rights_name, CastleRights, Castles};
use crate::piece_type::PieceType;
use crate::player::{spec_player_char, Player};
use crate::score::PlyCount;
use crate::sided_piece::{spec_piece_char, spec_piece_from_char, SidedPiece};
use crate::square::{lemma_index_square_at, lemma_square_index_range, sq_index, spec_parse_square, spec_square_name, square_at, Square};
use crate::text::{digit_str, parse_u16, span_texts, spec_decimal, spec_digit_char, spec_parse_u16, spec_words, str_chars, u64_to_string, word_spans};

verus! {

/// The half-move clock at which a game is drawn by the fifty move rule: a FEN clock must be below it
pub const STANDARD_MOVE_CLOCK: PlyCount = 100;

/// Errors that can occur while parsing a FEN string.  Typically if unable to parse or it represents an invalid chess position.
#[derive(Copy, Clone, Debug, PartialEq, Eq, Structural)]
pub enum FenParseError {
    /// If the FEN string is missing the position (an empty string)
    MissingPosition,
    /// Missing the side to move, 'w' or 'b' after the position.
    MissingSide,
    /// Missing castle rights, 'KQkq', 'Kq', etc, '-' after side to move.
    MissingCastleRights,
    /// Missing the en-passant square after the castle rights
    MissingEnPassant,
    /// Position segment contained more rows or columns than expected
    InvalidBoardDimensions,
    /// Side to move segment wasn't a valid side to move 'w' or 'b'
    IllegalSideChar(char),
    /// If the en-passant square is not a valid en-passant square (ranks 3 and 6) or cannot be parsed.
    IllegalEnPassant,
    /// If the castle rights are not a valid UCI representation (`-`, `KQkq`, `KQk`, `k`, etc)
    IllegalCastleRights,
    /// If the halfmove clock isn't a valid number or is out of bounds
    IllegalHalfmoveClock,
    /// If the full move counter isn't a valid number or is out of bounds
    IllegalFullmoveCounter,
}

/// Reading the piece placement: the rank and file of the next square, and the pieces placed so far
pub type PlacementState = (int, int, Seq<Option<SidedPiece>>);

/// Read one character of a piece placement: a digit skips that many squares, `/` moves down to the start of the
/// next rank once a rank is full, a piece letter places the piece on the next square, and other characters are
/// skipped over; reading fails when a rank overflows or a rank ends early
pub open spec fn placement_step(state: Option<PlacementState>, c: char) -> Option<PlacementState> {
    match state {
        None => None,
        Some((rank, file, pieces)) => if '0' <= c <= '9' {
            let skip = c as int - '0' as int;
            if file + skip > 8 {
                None
            } else {
                Some((rank, file + skip, pieces))
            }
        } else if c == '/' {
            if file == 8 && rank > 0 {
                Some((rank - 1, 0, pieces))
            } else {
                None
            }
        } else {
            match spec_piece_from_char(c) {
                Some(piece) => if file < 8 {
                    Some((rank, file + 1, pieces.update(rank * 8 + file, Some(piece))))
                } else {
                    None
                },
                None => Some((rank, file, pieces)),
            }
        },
    }
}

/// The placement read from the first `n` characters, starting on the eighth rank on an empty board
pub open spec fn placement_upto(word: Seq<char>, n: int) -> Option<PlacementState>
    decreases n,
{
    if n <= 0 {
        Some((7, 0, Seq::new(64, |i: int| None::<SidedPiece>)))
    } else {
        placement_step(placement_upto(word, n - 1), word[n - 1])
    }
}

/// The pieces a FEN piece placement describes, when it describes all eight full ranks
pub open spec fn spec_parse_placement(word: Seq<char>) -> Option<Seq<Option<SidedPiece>>> {
    match placement_upto(word, word.len() as int) {
        Some((rank, file, pieces)) => if rank == 0 && file == 8 {
            Some(pieces)
        } else {
            None
        },
        None => None,
    }
}

/// The fields a FEN string describes: pieces, side to move, castle rights, en-passant square,
/// half-move clock and the number of half moves played
pub type FenFields = (Seq<Option<SidedPiece>>, Player, CastleRights, Option<Square>, u16, u16);

/// Parse the fields of a FEN string, or the first error met reading its parts in order
pub open spec fn spec_parse_fen(fen: Seq<char>) -> Result<FenFields, FenParseError> {
    let words = spec_words(fen);
    if words.len() < 1 {
        Err(FenParseError::MissingPosition)
    } else {
        match spec_parse_placement(words[0]) {
            None => Err(FenParseError::InvalidBoardDimensions),
            Some(pieces) => if words.len() < 2 {
                Err(FenParseError::MissingSide)
            } else {
                let side_char = words[1][0];
                if side_char != 'w' && side_char != 'W' && side_char != 'b' && side_char != 'B' {
                    Err(FenParseError::IllegalSideChar(side_char))
                } else {
                    let side = if side_char == 'b' || side_char == 'B' { Player::Black } else { Player::White };
                    if words.len() < 3 {
                        Err(FenParseError::MissingCastleRights)
                    } else {
                        match spec_parse_rights(words[2]) {
                            None => Err(FenParseError::IllegalCastleRights),
                            Some(rights) => if words.len() < 4 {
                                Err(FenParseError::MissingEnPassant)
                            } else {
                                let en_passant = if words[3] == seq!['-'] {
                                    Some(None)
                                } else {
                                    match spec_parse_square(words[3]) {
                                        Some(square) => if sq_index(square) / 8 == 2 || sq_index(square) / 8 == 5 {
                                            Some(Some(square))
                                        } else {
                                            None
                                        },
                                        None => None,
                                    }
                                };
                                match en_passant {
                                    None => Err(FenParseError::IllegalEnPassant),
                                    Some(en_passant) => {
                                        let clock = if words.len() < 5 {
                                            Some(0u16)
                                        } else {
                                            match spec_parse_u16(words[4]) {
                                                Some(clock) => if clock < STANDARD_MOVE_CLOCK { Some(clock) } else { None },
                                                None => None,
                                            }
                                        };
                                        match clock {
                                            None => Err(FenParseError::IllegalHalfmoveClock),
                                            Some(clock) => {
                                                let moves = if words.len() < 6 {
                                                    Some(0u16)
                                                } else {
                                                    match spec_parse_u16(words[5]) {
                                                        Some(full_moves) => {
                                                            let count = full_moves * 2 + if side == Player::Black { 1int } else { 0int };
                                                            if count <= u16::MAX { Some(count as u16) } else { None }
                                                        },
                                                        None => None,
                                                    }
                                                };
                                                match moves {
                                                    None => Err(FenParseError::IllegalFullmoveCounter),
                                                    Some(moves) => Ok((pieces, side, rights, en_passant, clock, moves)),
                                                }
                                            },
                                        }
                                    },
                                }
                            },
                        }
                    }
                }
            },
        }
    }
}

/// Once reading a placement fails it stays failed
proof fn lemma_placement_fails(word: Seq<char>, n: int, m: int)
    requires
        0 <= n <= m,
        placement_upto(word, n) is None,
    ensures
        placement_upto(word, m) is None,
    decreases m - n,
{
    if n < m {
        lemma_placement_fails(word, n, m - 1);
    }
}

impl Board {
    /// Read a FEN piece placement in `chars[from..to]` onto an empty board
    fn parse_placement(chars: &[char], from: usize, to: usize) -> (res: Option<Board>)
        requires
            from <= to <= chars@.len(),
        ensures
            res is Some <==> spec_parse_placement(chars@.subrange(from as int, to as int)) is Some,
            res matches Some(board) ==> {
                &&& board.wf()
                &&& spec_parse_placement(chars@.subrange(from as int, to as int)) == Some(board.pieces())
                &&& board.side_to_move == Player::White
                &&& board.halfmove_count == 0
                &&& board.state.is_initial()
                &&& board.hash_matches()
            },
    {
        let ghost word = chars@.subrange(from as int, to as int);
        let mut board = Board::empty_position();
        let mut rank: u8 = 7;
        let mut file: u8 = 0;
        let mut k: usize = from;
        proof {
            assert(board.pieces() =~= Seq::new(64, |i: int| None::<SidedPiece>));
        }
        while k < to
            invariant
                from <= k <= to <= chars@.len(),
                word == chars@.subrange(from as int, to as int),
                board.wf(),
                board.side_to_move == Player::White,
                board.halfmove_count == 0,
                board.state.is_initial(),
                board.hash_matches(),
                rank <= 7,
                file <= 8,
                placement_upto(word, k - from) == Some((rank as int, file as int, board.pieces())),
                forall|i: int| 0 <= i < 64 && (i / 8 < rank || (i / 8 == rank && i % 8 >= file)) ==> board.pieces()[i] is None,
            decreases to - k,
        {
            let c = chars[k];
            proof {
                assert(word[k - from] == c);
            }
            if '0' <= c && c <= '9' {
                let skip = (c as u32 - '0' as u32) as u8;
                if file + skip > 8 {
                    proof {
                        lemma_placement_fails(word, k - from + 1, word.len() as int);
                    }
                    return None;
                }
                file = file + skip;
            } else if c == '/' {
                if file != 8 || rank == 0 {
                    proof {
                        lemma_placement_fails(word, k - from + 1, word.len() as int);
                    }
                    return None;
                }
                rank = rank - 1;
                file = 0;
            } else {
                match SidedPiece::try_from_char(c) {
                    Ok(piece) => {
                        if file >= 8 {
                            proof {
                                lemma_placement_fails(word, k - from + 1, word.len() as int);
                            }
                            return None;
                        }
                        let index = rank * 8 + file;
                        proof {
                            lemma_index_square_at(index as int);
                        }
                        let square = Square::SQUARES[index as usize];
                        let ghost before = board;
                        board.add_piece(square, piece);
                        proof {
                            lemma_place_keeps_hash(before, board, square, piece);
                        }
                        file = file + 1;
                    },
                    Err(_) => {},
                }
            }
            k += 1;
        }
        proof {
            assert(word.len() == k - from);
        }
        if rank != 0 || file != 8 {
            return None;
        }
        Some(board)
    }
}

/// A board holds exactly the fields a FEN string describes, with the state computed from its pieces: no capture,
/// standard castling squares, the checkers of the side to move, and the blockers, pinners and check squares
pub open spec fn board_from_fields(board: Board, fields: FenFields) -> bool {
    let (pieces, side, rights, en_passant, clock, moves) = fields;
    &&& board.wf()
    &&& board.pieces() == pieces
    &&& board.side_to_move == side
    &&& board.state.castles.spec_rights() == rights
    &&& board.state.castles.has_standard_squares()
    &&& !board.state.castles.spec_is_chess_960()
    &&& board.state.en_passant_square == en_passant
    &&& board.state.halfmove_clock == clock
    &&& board.halfmove_count == moves
    &&& board.state.captured_piece is None
    &&& forall|i: int| 0 <= i < 64 ==> #[trigger] board.state.checkers.has(i) == spec_checker(board, side.other(), i)
    &&& move_gen_masks_match(board)
    &&& board.state.check_squares.at(PieceType::King).0 == 0
    &&& board.hash_matches()
}

impl Board {
    /// Attempt to parse a [Board] from a [FEN](https://www.chessprogramming.org/Forsyth-Edwards_Notation) string:
    /// whitespace separated piece placement, side to move, castle rights, en-passant square (`-` for none), and
    /// optionally the half-move clock and the full move counter
    ///
    /// # Errors
    /// The first part that is missing or malformed, see [`FenParseError`]
    #[verifier::spinoff_prover]
    pub fn from_fen(fen: &str) -> (res: Result<Board, FenParseError>)
        ensures
            match res {
                Ok(board) => spec_parse_fen(fen@) is Ok && board_from_fields(board, spec_parse_fen(fen@)->Ok_0),
                Err(e) => spec_parse_fen(fen@) == Err::<FenFields, FenParseError>(e),
            },
    {
        let chars = str_chars(fen);
        let spans = word_spans(chars.as_slice());
        let ghost words = spec_words(fen@);
        proof {
            assert(span_texts(chars@, spans@) == words);
        }
        if spans.len() < 1 {
            return Err(FenParseError::MissingPosition);
        }
        let (start, end) = spans[0];
        proof {
            assert(words[0] == chars@.subrange(start as int, end as int));
        }
        let mut board = match Self::parse_placement(chars.as_slice(), start, end) {
            Some(board) => board,
            None => return Err(FenParseError::InvalidBoardDimensions),
        };
        let ghost pieces = board.pieces();

        // Switch sides if not white starting
        if spans.len() < 2 {
            return Err(FenParseError::MissingSide);
        }
        let (start, end) = spans[1];
        proof {
            assert(words[1] == chars@.subrange(start as int, end as int));
            assert(words[1][0] == chars@[start as int]);
        }
        let side_char = chars[start];
        let ghost placed = board;
        match side_char {
            'w' | 'W' => {},
            'b' | 'B' => {
                board.switch_sides();
                proof {
                    lemma_same_pieces(placed, board);
                    lemma_switch_keeps_hash(placed, board);
                }
            },
            _ => return Err(FenParseError::IllegalSideChar(side_char)),
        }
        let ghost side = board.side_to_move;
        let ghost sided = board;

        // Update castle rights
        if spans.len() < 3 {
            return Err(FenParseError::MissingCastleRights);
        }
        let (start, end) = spans[2];
        proof {
            assert(words[2] == chars@.subrange(start as int, end as int));
        }
        let rights = match CastleRights::parse(fen.substring_char(start, end)) {
            Ok(rights) => rights,
            Err(_) => return Err(FenParseError::IllegalCastleRights),
        };
        board.state.set_castle_rights(rights);

        // Set en-passant square
        if spans.len() < 4 {
            return Err(FenParseError::MissingEnPassant);
        }
        let (start, end) = spans[3];
        proof {
            assert(words[3] == chars@.subrange(start as int, end as int));
        }
        if end - start == 1 && chars[start] == '-' {
            proof {
                assert(words[3] =~= seq!['-']);
            }
        } else {
            proof {
                assert(words[3] != seq!['-']) by {
                    if words[3] == seq!['-'] {
                        assert(words[3][0] == chars@[start as int]);
                    }
                }
            }
            match Square::parse(fen.substring_char(start, end)) {
                Ok(square) => {
                    proof {
                        lemma_square_index_range(square);
                    }
                    if square.rank() == 2 || square.rank() == 5 {
                        board.state.set_en_passant(square);
                    } else {
                        return Err(FenParseError::IllegalEnPassant);
                    }
                },
                Err(_) => return Err(FenParseError::IllegalEnPassant),
            }
        }

        // Set half-move clock if possible
        if spans.len() >= 5 {
            let (start, end) = spans[4];
            proof {
                assert(words[4] == chars@.subrange(start as int, end as int));
            }
            match parse_u16(chars.as_slice(), start, end) {
                Some(clock) => {
                    if clock < STANDARD_MOVE_CLOCK {
                        board.state.set_halfmove_clock(clock);
                    } else {
                        return Err(FenParseError::IllegalHalfmoveClock);
                    }
                },
                None => return Err(FenParseError::IllegalHalfmoveClock),
            }
        }

        // Set the full-move counter if possible
        if spans.len() >= 6 {
            let (start, end) = spans[5];
            proof {
                assert(words[5] == chars@.subrange(start as int, end as int));
            }
            match parse_u16(chars.as_slice(), start, end) {
                Some(full_moves) => {
                    let extra: u32 = if board.side_to_move == Player::Black { 1 } else { 0 };
                    let count: u32 = full_moves as u32 * 2 + extra;
                    if count > 65535 {
                        return Err(FenParseError::IllegalFullmoveCounter);
                    }
                    board.halfmove_count = count as u16;
                },
                None => return Err(FenParseError::IllegalFullmoveCounter),
            }
        }
        let ghost unhashed = board;

        // Toggle the keys of the en-passant square and castle rights into the hash
        board.toggle_state_keys();
        let ghost filled = board;
        proof {
            lemma_initial_state_keys(sided.state);
            lemma_toggle_zero(placement_hash(sided.pieces(), sided.side_to_move));
            lemma_same_pieces(placed, sided);
            lemma_same_pieces(sided, unhashed);
            lemma_same_pieces(unhashed, filled);
            lemma_state_keys_complete_hash(unhashed, filled);
        }

        // Update check masks
        board.switch_sides();
        let ghost switched = board;
        board.update_checkers(true);
        let ghost checkers_set = board;
        board.switch_sides();
        let ghost checked = board;
        proof {
            lemma_same_pieces(placed, filled);
            lemma_same_pieces(filled, switched);
            lemma_switch_keeps_hash(filled, switched);
            lemma_same_pieces(switched, checkers_set);
            lemma_same_pieces(checkers_set, checked);
            lemma_switch_keeps_hash(checkers_set, checked);
        }

        // Update checkers, pinners, pinned, and other move gen state
        board.update_move_gen_masks();

        // Check if rooks are in unconventional location (indicating chess 960, if so enable chess 960)
        if !board.state.castles.eq_starting_squares(Castles::empty()) {
            board.state.castles.set_chess_960(true);
        }
        proof {
            lemma_same_pieces(placed, filled);
            lemma_same_pieces(filled, board);
            lemma_masks_frame(checked, board);
            lemma_masks_frame(filled, board);
        }
        Ok(board)
    }
}

/// The FEN text of one piece
pub(crate) fn piece_text(piece: SidedPiece) -> (res: &'static str)
    ensures
        res@ == seq![spec_piece_char(piece)],
{
    match (piece.piece_type, piece.player) {
        (PieceType::Pawn, Player::White) => {
            proof {
                reveal_strlit("P");
            }
            "P"
        },
        (PieceType::Pawn, Player::Black) => {
            proof {
                reveal_strlit("p");
            }
            "p"
        },
        (PieceType::Knight, Player::White) => {
            proof {
                reveal_strlit("N");
            }
            "N"
        },
        (PieceType::Knight, Player::Black) => {
            proof {
                reveal_strlit("n");
            }
            "n"
        },
        (PieceType::Bishop, Player::White) => {
            proof {
                reveal_strlit("B");
            }
            "B"
        },
        (PieceType::Bishop, Player::Black) => {
            proof {
                reveal_strlit("b");
            }
            "b"
        },
        (PieceType::Rook, Player::White) => {
            proof {
                reveal_strlit("R");
            }
            "R"
        },
        (PieceType::Rook, Player::Black) => {
            proof {
                reveal_strlit("r");
            }
            "r"
        },
        (PieceType::Queen, Player::White) => {
            proof {
                reveal_strlit("Q");
            }
            "Q"
        },
        (PieceType::Queen, Player::Black) => {
            proof {
                reveal_strlit("q");
            }
            "q"
        },
        (PieceType::King, Player::White) => {
            proof {
                reveal_strlit("K");
            }
            "K"
        },
        (PieceType::King, Player::Black) => {
            proof {
                reveal_strlit("k");
            }
            "k"
        },
    }
}

/// The FEN text of a rank from `file` on, with `run` empty squares already passed: each piece's letter, and the
/// count of each run of empty squares
pub open spec fn rank_text(pieces: Seq<Option<SidedPiece>>, rank: int, file: int, run: int) -> Seq<char>
    decreases 8 - file,
{
    if file >= 8 {
        if run > 0 {
            seq![spec_digit_char(run)]
        } else {
            Seq::empty()
        }
    } else {
        match pieces[rank * 8 + file] {
            Some(piece) => (if run > 0 {
                seq![spec_digit_char(run)]
            } else {
                Seq::empty()
            }) + seq![spec_piece_char(piece)] + rank_text(pieces, rank, file + 1, 0),
            None => rank_text(pieces, rank, file + 1, run + 1),
        }
    }
}

/// The FEN piece placement from the rank `rank` down to the first rank, ranks separated by `/`
pub open spec fn placement_text(pieces: Seq<Option<SidedPiece>>, rank: int) -> Seq<char>
    decreases rank,
{
    if rank <= 0 {
        rank_text(pieces, 0, 0, 0)
    } else {
        rank_text(pieces, rank, 0, 0) + seq!['/'] + placement_text(pieces, rank - 1)
    }
}

/// The FEN string of a board: placement, side to move, castle rights, en-passant square, half-move clock and
/// full move count (half moves played, halved)
pub open spec fn spec_fen_string(board: Board) -> Seq<char> {
    placement_text(board.pieces(), 7) + seq![' ', spec_player_char(board.side_to_move), ' ']
        + spec_rights_name(board.state.castles.spec_rights()) + seq![' '] + match board.state.en_passant_square {
        Some(square) => spec_square_name(square),
        None => seq!['-'],
    } + seq![' '] + spec_decimal(board.state.halfmove_clock as nat) + seq![' '] + spec_decimal((board.halfmove_count / 2) as nat)
}

impl Board {
    /// The [FEN](https://www.chessprogramming.org/Forsyth-Edwards_Notation) string of the board
    #[verifier::spinoff_prover]
    pub fn get_fen_string(&self) -> (res: String)
        requires
            self.wf(),
        ensures
            res@ == spec_fen_string(*self),
    {
        let ghost pieces = self.pieces();
        proof {
            reveal_strlit("/");
            reveal_strlit(" ");
            reveal_strlit("-");
        }
        let mut fen = String::new();
        let mut rank: usize = 8;
        while rank > 0
            invariant
                rank <= 8,
                self.wf(),
                pieces == self.pieces(),
                fen@ + (if rank == 0 { Seq::<char>::empty() } else { placement_text(pieces, rank - 1) }) == placement_text(pieces, 7),
            decreases rank,
        {
            rank -= 1;
            let ghost line_start = fen@;
            let mut row_offset: u8 = 0;
            let mut file: usize = 0;
            while file < 8
                invariant
                    rank < 8,
                    file <= 8,
                    row_offset <= file,
                    self.wf(),
                    pieces == self.pieces(),
                    fen@ + rank_text(pieces, rank as int, file as int, row_offset as int)
                        == line_start + rank_text(pieces, rank as int, 0, 0),
                decreases 8 - file,
            {
                let index = rank * 8 + file;
                proof {
                    lemma_index_square_at(index as int);
                    self.lemma_wf_encodes(index as int);
                }
                let square = Square::SQUARES[index];
                match self.piece_on(square) {
                    Some(piece_type) => {
                        let ghost before = fen@;
                        if row_offset > 0 {
                            fen.append(digit_str(row_offset as u64));
                        }
                        let player = match self.side_on(square) {
                            Some(player) => player,
                            None => Player::Black,
                        };
                        fen.append(piece_text(SidedPiece::new(piece_type, player)));
                        proof {
                            let digits = if row_offset > 0 { seq![spec_digit_char(row_offset as int)] } else { Seq::<char>::empty() };
                            assert(fen@ =~= before + digits + seq![spec_piece_char(SidedPiece { piece_type, player })]);
                        }
                        row_offset = 0;
                    },
                    None => {
                        row_offset += 1;
                    },
                }
                file += 1;
            }
            if row_offset > 0 {
                fen.append(digit_str(row_offset as u64));
            }
            proof {
                assert(fen@ =~= line_start + rank_text(pieces, rank as int, 0, 0));
            }
            let ghost after_rank = fen@;
            proof {
                reveal_strlit("/");
            }
            if rank > 0 {
                fen.append("/");
            }
            proof {
                if rank > 0 {
                    assert(fen@ =~= line_start + rank_text(pieces, rank as int, 0, 0) + seq!['/']);
                    assert(placement_text(pieces, rank as int) == rank_text(pieces, rank as int, 0, 0) + seq!['/'] + placement_text(pieces, rank - 1));
                    assert(fen@ + placement_text(pieces, rank - 1) =~= line_start + placement_text(pieces, rank as int));
                } else {
                    assert(fen@ =~= line_start + placement_text(pieces, 0));
                }
                assert(line_start == after_rank.subrange(0, line_start.len() as int));
            }
        }

        fen.append(" ");
        fen.append(player_text(self.side_to_move));
        fen.append(" ");
        fen.append(self.state.castles.as_ref().to_uci_string().as_str());
        fen.append(" ");
        match self.state.en_passant_square {
            Some(en_passant_square) => fen.append(en_passant_square.to_uci_string().as_str()),
            None => fen.append("-"),
        }
        fen.append(" ");
        fen.append(u64_to_string(self.state.halfmove_clock as u64).as_str());
        fen.append(" ");
        fen.append(u64_to_string(self.fullmove_count() as u64).as_str());
        proof {
            assert(fen@ =~= spec_fen_string(*self));
        }
        fen
    }
}

/// The FEN letter of the side to move
fn player_text(player: Player) -> (res: &'static str)
    ensures
        res@ == seq![spec_player_char(player)],
{
    match player {
        Player::White => {
            proof {
                reveal_strlit("w");
            }
            "w"
        },
        Player::Black => {
            proof {
                reveal_strlit("b");
            }
            "b"
        },
    }
}

impl core::str::FromStr for Board {
    type Err = FenParseError;

    /// Parse a board from a FEN string, as [`Board::from_fen`] does
    fn from_str(s: &str) -> (res: Result<Self, Self::Err>)
        ensures
            match res {
                Ok(board) => spec_parse_fen(s@) is Ok && board_from_fields(board, spec_parse_fen(s@)->Ok_0),
                Err(e) => spec_parse_fen(s@) == Err::<FenFields, FenParseError>(e),
            },
    {
        Self::from_fen(s)
    }
}

} // verus!
