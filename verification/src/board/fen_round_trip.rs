//! Reading the FEN string of a board gives back the board's fields
use vstd::prelude::*;

use crate::board::fen::{
    placement_step, placement_text, placement_upto, rank_text, spec_fen_string, spec_parse_fen, spec_parse_placement,
    FenFields, PlacementState, STANDARD_MOVE_CLOCK,
};
use crate::board::Board;
use crate::castles::{lemma_parse_rights_name, spec_rights_name};
use crate::player::{spec_player_char, Player};
use crate::sided_piece::{lemma_piece_char_roundtrip, spec_piece_char, SidedPiece};
use crate::square::{lemma_parse_square_name, sq_index, spec_square_name};
use crate::text::{
    is_ascii_whitespace, lemma_parse_decimal, lemma_words_of_spaced, no_whitespace, spaced, spec_decimal,
    spec_digit_char,
};

verus! {

/// Reading a placement from a given state over the first `n` characters of a text
spec fn placement_from(state: Option<PlacementState>, s: Seq<char>, n: int) -> Option<PlacementState>
    decreases n,
{
    if n <= 0 {
        state
    } else {
        placement_step(placement_from(state, s, n - 1), s[n - 1])
    }
}

/// Reading all of a text from a given state
spec fn placement_run(state: Option<PlacementState>, s: Seq<char>) -> Option<PlacementState> {
    placement_from(state, s, s.len() as int)
}

/// Reading a placement from the start is reading it from the empty eighth rank
proof fn lemma_placement_upto_from(word: Seq<char>, n: int)
    requires
        0 <= n,
    ensures
        placement_upto(word, n) == placement_from(Some((7, 0, Seq::new(64, |i: int| None::<SidedPiece>))), word, n),
    decreases n,
{
    if n > 0 {
        lemma_placement_upto_from(word, n - 1);
    }
}

/// Reading the first characters of two texts that share them gives the same state
proof fn lemma_placement_from_prefix(state: Option<PlacementState>, s: Seq<char>, t: Seq<char>, n: int)
    requires
        0 <= n <= s.len(),
        n <= t.len(),
        forall|i: int| 0 <= i < n ==> s[i] == t[i],
    ensures
        placement_from(state, s, n) == placement_from(state, t, n),
    decreases n,
{
    if n > 0 {
        lemma_placement_from_prefix(state, s, t, n - 1);
    }
}

/// Reading into the second of two joined texts continues from the state the first one left
proof fn lemma_placement_from_concat(state: Option<PlacementState>, a: Seq<char>, b: Seq<char>, j: int)
    requires
        0 <= j <= b.len(),
    ensures
        placement_from(state, a + b, a.len() + j) == placement_from(placement_run(state, a), b, j),
    decreases j,
{
    if j == 0 {
        lemma_placement_from_prefix(state, a + b, a, a.len() as int);
    } else {
        lemma_placement_from_concat(state, a, b, j - 1);
        assert((a + b)[a.len() + j - 1] == b[j - 1]);
    }
}

/// Reading two joined texts reads the first, then the second
proof fn lemma_placement_run_concat(state: Option<PlacementState>, a: Seq<char>, b: Seq<char>)
    ensures
        placement_run(state, a + b) == placement_run(placement_run(state, a), b),
{
    lemma_placement_from_concat(state, a, b, b.len() as int);
}

/// A placement read so far holds the given pieces on the ranks above `rank` and before `file` on `rank`, and is
/// empty elsewhere
spec fn placed_through(placed: Seq<Option<SidedPiece>>, pieces: Seq<Option<SidedPiece>>, rank: int, file: int) -> bool {
    &&& placed.len() == 64
    &&& forall|i: int|
        0 <= i < 64 ==> #[trigger] placed[i] == (if i / 8 > rank || (i / 8 == rank && i % 8 < file) {
            pieces[i]
        } else {
            None
        })
}

/// A piece letter is neither a digit, a `/` nor whitespace, and it reads back as the piece
proof fn lemma_piece_letter(piece: SidedPiece)
    ensures
        !('0' <= spec_piece_char(piece) <= '9'),
        spec_piece_char(piece) != '/',
        !is_ascii_whitespace(spec_piece_char(piece)),
        crate::sided_piece::spec_piece_from_char(spec_piece_char(piece)) == Some(piece),
{
    lemma_piece_char_roundtrip(piece);
}

/// Joining two texts without whitespace gives a text without whitespace
proof fn lemma_no_whitespace_concat(a: Seq<char>, b: Seq<char>)
    requires
        no_whitespace(a),
        no_whitespace(b),
    ensures
        no_whitespace(a + b),
{
    assert forall|i: int| 0 <= i < (a + b).len() implies !is_ascii_whitespace(#[trigger] (a + b)[i]) by {
        if i < a.len() {
            assert((a + b)[i] == a[i]);
        } else {
            assert((a + b)[i] == b[i - a.len()]);
        }
    }
}

/// The count of a run of one to eight empty squares
proof fn lemma_run_digit(run: int)
    requires
        1 <= run <= 8,
    ensures
        '0' <= spec_digit_char(run) <= '9',
        spec_digit_char(run) as int - '0' as int == run,
        !is_ascii_whitespace(spec_digit_char(run)),
        no_whitespace(seq![spec_digit_char(run)]),
{
}

/// Reading the FEN text of a rank from `file` on, with a run of `run` empty squares just passed, fills the rest of
/// the rank; the text has no whitespace, and has characters when any square is left or a run is pending
#[verifier::spinoff_prover]
proof fn lemma_read_rank(
    pieces: Seq<Option<SidedPiece>>,
    rank: int,
    file: int,
    run: int,
    placed: Seq<Option<SidedPiece>>,
)
    requires
        pieces.len() == 64,
        0 <= rank < 8,
        0 <= run <= file <= 8,
        placed_through(placed, pieces, rank, file),
    ensures
        placement_run(Some((rank, file - run, placed)), rank_text(pieces, rank, file, run)) matches Some(
            (r, f, p),
        ) && r == rank && f == 8 && placed_through(p, pieces, rank, 8),
        no_whitespace(rank_text(pieces, rank, file, run)),
        run > 0 || file < 8 ==> rank_text(pieces, rank, file, run).len() > 0,
    decreases 8 - file,
{
    let state = Some((rank, file - run, placed));
    let digits = if run > 0 {
        seq![spec_digit_char(run)]
    } else {
        Seq::<char>::empty()
    };
    if run > 0 {
        lemma_run_digit(run);
    }
    assert(placement_run(state, digits) == Some((rank, file, placed))) by {
        if run > 0 {
            assert(placement_from(state, digits, 0) == state);
        }
    }
    if file >= 8 {
        assert(rank_text(pieces, rank, file, run) == digits);
    } else {
        let idx = rank * 8 + file;
        match pieces[idx] {
            Some(piece) => {
                let c = spec_piece_char(piece);
                let rest = rank_text(pieces, rank, file + 1, 0);
                let next = placed.update(idx, Some(piece));
                lemma_piece_letter(piece);
                assert(rank_text(pieces, rank, file, run) == digits + seq![c] + rest);
                assert(placement_run(Some((rank, file, placed)), seq![c]) == Some((rank, file + 1, next))) by {
                    assert(placement_from(Some((rank, file, placed)), seq![c], 0) == Some((rank, file, placed)));
                }
                assert(placed_through(next, pieces, rank, file + 1)) by {
                    assert forall|i: int| 0 <= i < 64 implies #[trigger] next[i] == (if i / 8 > rank || (i / 8
                        == rank && i % 8 < file + 1) {
                        pieces[i]
                    } else {
                        None
                    }) by {
                        if i == idx {
                            assert(i / 8 == rank && i % 8 == file);
                        } else {
                            assert(next[i] == placed[i]);
                            assert(!(i / 8 == rank && i % 8 == file));
                        }
                    }
                }
                lemma_read_rank(pieces, rank, file + 1, 0, next);
                lemma_placement_run_concat(state, digits, seq![c]);
                lemma_placement_run_concat(state, digits + seq![c], rest);
                assert(no_whitespace(seq![c]));
                if run > 0 {
                    lemma_no_whitespace_concat(digits, seq![c]);
                } else {
                    assert(digits + seq![c] =~= seq![c]);
                }
                lemma_no_whitespace_concat(digits + seq![c], rest);
            },
            None => {
                assert(rank_text(pieces, rank, file, run) == rank_text(pieces, rank, file + 1, run + 1));
                assert(placed_through(placed, pieces, rank, file + 1)) by {
                    assert forall|i: int| 0 <= i < 64 implies #[trigger] placed[i] == (if i / 8 > rank || (i / 8
                        == rank && i % 8 < file + 1) {
                        pieces[i]
                    } else {
                        None
                    }) by {
                        if i == idx {
                            assert(i / 8 == rank && i % 8 == file);
                        } else {
                            assert(!(i / 8 == rank && i % 8 == file));
                        }
                    }
                }
                lemma_read_rank(pieces, rank, file + 1, run + 1, placed);
            },
        }
    }
}

/// Reading the FEN placement from rank `rank` down, with the ranks above already read, reads every piece; the
/// text has characters and no whitespace
#[verifier::spinoff_prover]
proof fn lemma_read_placement(pieces: Seq<Option<SidedPiece>>, rank: int, placed: Seq<Option<SidedPiece>>)
    requires
        pieces.len() == 64,
        0 <= rank < 8,
        placed_through(placed, pieces, rank, 0),
    ensures
        placement_run(Some((rank, 0, placed)), placement_text(pieces, rank)) == Some((0int, 8int, pieces)),
        no_whitespace(placement_text(pieces, rank)),
        placement_text(pieces, rank).len() > 0,
    decreases rank,
{
    let line = rank_text(pieces, rank, 0, 0);
    lemma_read_rank(pieces, rank, 0, 0, placed);
    let after = placement_run(Some((rank, 0, placed)), line)->Some_0.2;
    if rank == 0 {
        assert(after =~= pieces);
    } else {
        let below = placement_text(pieces, rank - 1);
        assert(placed_through(after, pieces, rank - 1, 0));
        lemma_read_placement(pieces, rank - 1, after);
        assert(placement_run(Some((rank, 8, after)), seq!['/']) == Some((rank - 1, 0int, after))) by {
            assert(placement_from(Some((rank, 8, after)), seq!['/'], 0) == Some((rank, 8int, after)));
        }
        lemma_placement_run_concat(Some((rank, 0, placed)), line, seq!['/']);
        lemma_placement_run_concat(Some((rank, 0, placed)), line + seq!['/'], below);
        assert(no_whitespace(seq!['/']));
        lemma_no_whitespace_concat(line, seq!['/']);
        lemma_no_whitespace_concat(line + seq!['/'], below);
    }
}

/// Reading the FEN placement of 64 squares gives the squares back
pub proof fn lemma_parse_placement_text(pieces: Seq<Option<SidedPiece>>)
    requires
        pieces.len() == 64,
    ensures
        spec_parse_placement(placement_text(pieces, 7)) == Some(pieces),
        no_whitespace(placement_text(pieces, 7)),
        placement_text(pieces, 7).len() > 0,
{
    let text = placement_text(pieces, 7);
    let empty = Seq::new(64, |i: int| None::<SidedPiece>);
    assert(placed_through(empty, pieces, 7, 0));
    lemma_read_placement(pieces, 7, empty);
    lemma_placement_upto_from(text, text.len() as int);
}

/// The number of half moves a FEN string gives back for a board: its full moves doubled, plus one when black is
/// to move
pub open spec fn spec_fen_half_moves(board: Board) -> u16 {
    ((board.halfmove_count / 2) * 2 + if board.side_to_move == Player::Black { 1int } else { 0int }) as u16
}

/// The en-passant text of a FEN string
spec fn en_passant_text(board: Board) -> Seq<char> {
    match board.state.en_passant_square {
        Some(square) => spec_square_name(square),
        None => seq!['-'],
    }
}

/// Reading the FEN string of a board gives back the board's pieces, side to move, castle rights, en-passant
/// square and half-move clock, and its move count rounded to the side to move, when the clock is below the
/// fifty move limit and any en-passant square is on the third or sixth rank
#[verifier::spinoff_prover]
#[verifier::rlimit(30)]
pub proof fn lemma_fen_round_trip(board: Board)
    requires
        board.state.halfmove_clock < STANDARD_MOVE_CLOCK,
        board.state.en_passant_square matches Some(square) ==> sq_index(square) / 8 == 2 || sq_index(square) / 8
            == 5,
    ensures
        spec_parse_fen(spec_fen_string(board)) == Ok::<FenFields, crate::board::fen::FenParseError>(
            (
                board.pieces(),
                board.side_to_move,
                board.state.castles.spec_rights(),
                board.state.en_passant_square,
                board.state.halfmove_clock,
                spec_fen_half_moves(board),
            ),
        ),
{
    let placement = placement_text(board.pieces(), 7);
    let side = seq![spec_player_char(board.side_to_move)];
    let rights = spec_rights_name(board.state.castles.spec_rights());
    let en_passant = en_passant_text(board);
    let clock = spec_decimal(board.state.halfmove_clock as nat);
    let full = board.halfmove_count / 2;
    let moves = spec_decimal(full as nat);
    let words = seq![placement, side, rights, en_passant, clock, moves];
    lemma_parse_placement_text(board.pieces());
    lemma_parse_rights_name(board.state.castles.spec_rights());
    lemma_parse_decimal(board.state.halfmove_clock);
    lemma_parse_decimal(full);
    match board.state.en_passant_square {
        Some(square) => lemma_parse_square_name(square),
        None => {},
    }
    assert(no_whitespace(rights) && rights.len() > 0) by {
        crate::castles::lemma_rights_name_chars(board.state.castles.spec_rights());
    }
    assert(no_whitespace(en_passant) && en_passant.len() > 0) by {
        match board.state.en_passant_square {
            Some(square) => crate::square::lemma_square_name_chars(square),
            None => {},
        }
    }
    assert(no_whitespace(side));
    assert(forall|k: int| 0 <= k < words.len() ==> #[trigger] words[k].len() > 0 && no_whitespace(words[k])) by {
        assert(words[0] == placement && words[1] == side && words[2] == rights);
        assert(words[3] == en_passant && words[4] == clock && words[5] == moves);
    }
    assert(spaced(words) =~= spec_fen_string(board)) by {
        reveal_with_fuel(spaced, 6);
        assert(words.drop_last() =~= seq![placement, side, rights, en_passant, clock]);
        assert(words.drop_last().drop_last() =~= seq![placement, side, rights, en_passant]);
        assert(words.drop_last().drop_last().drop_last() =~= seq![placement, side, rights]);
        assert(words.drop_last().drop_last().drop_last().drop_last() =~= seq![placement, side]);
        assert(words.drop_last().drop_last().drop_last().drop_last().drop_last() =~= seq![placement]);
    }
    lemma_words_of_spaced(words);
    assert(en_passant != seq!['-'] <==> board.state.en_passant_square is Some) by {
        if board.state.en_passant_square is Some {
            assert(en_passant.len() == 2);
        }
    }
}

} // verus!
