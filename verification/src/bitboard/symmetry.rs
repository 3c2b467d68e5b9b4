//! Attacks are symmetric: a piece on one square attacks another exactly when the same kind of piece on the
//! other square would attack the first (with pawns, one of the other side)
use vstd::prelude::*;

use crate::bitboard::attacks::{
    cardinal_attacked, knight_attacked, lemma_offset_square, ordinal_attacked, pawn_attacked, pawn_forward, pseudo_attacked,
    slide_attacked, slide_reach, slide_reach_below,
};
use crate::bitboard::direction::Direction;
use crate::bitboard::{king_distance, lemma_single_bit, line_step, offset_square, on_line, strictly_between, BoardMask};
use crate::piece_type::NonPawnPieceType;
use crate::player::Player;
use crate::square::{index_file, index_rank, lemma_square_index_range, sq_index, Square};

verus! {

/// The square `k` steps from board index `a` along `direction`, if it is on the board
pub open spec fn ray_square(a: int, direction: Direction, k: int) -> Option<int> {
    offset_square(a, k * direction.file_delta(), k * direction.rank_delta())
}

/// A square that is on the board and unoccupied
pub open spec fn free_square(occupied: BoardMask, square: Option<int>) -> bool {
    match square {
        Some(s) => !occupied.has(s),
        None => false,
    }
}

/// Every square one to `n` steps from `a` along `direction` is on the board and unoccupied
pub open spec fn clear_through(a: int, direction: Direction, occupied: BoardMask, n: int) -> bool {
    forall|k: int| 1 <= k <= n ==> free_square(occupied, #[trigger] ray_square(a, direction, k))
}

/// Steps along a direction move each coordinate by a multiple of -1, 0 or 1
proof fn lemma_unit_steps(k: int, direction: Direction)
    ensures
        k * direction.file_delta() == (if direction.file_delta() == 1 {
            k
        } else if direction.file_delta() == -1 {
            -k
        } else {
            0
        }),
        k * direction.rank_delta() == (if direction.rank_delta() == 1 {
            k
        } else if direction.rank_delta() == -1 {
            -k
        } else {
            0
        }),
        -1 <= direction.file_delta() <= 1,
        -1 <= direction.rank_delta() <= 1,
        direction.spec_opposite().file_delta() == -direction.file_delta(),
        direction.spec_opposite().rank_delta() == -direction.rank_delta(),
{
    let (f, r) = (direction.file_delta(), direction.rank_delta());
    assert(k * f == (if f == 1 { k } else if f == -1 { -k } else { 0 })) by (nonlinear_arith)
        requires
            f == -1 || f == 0 || f == 1,
    ;
    assert(k * r == (if r == 1 { k } else if r == -1 { -k } else { 0 })) by (nonlinear_arith)
        requires
            r == -1 || r == 0 || r == 1,
    ;
}

/// Stepping from one square to another and stepping back are the same move
proof fn lemma_offset_back(x: int, df: int, dr: int)
    requires
        0 <= x < 64,
    ensures
        offset_square(x, df, dr) matches Some(y) ==> offset_square(y, -df, -dr) == Some(x),
{
    lemma_offset_square(x, df, dr);
    if let Some(y) = offset_square(x, df, dr) {
        lemma_offset_square(y, -df, -dr);
    }
}

/// Reaching a square from a lone slider on `a` after `n` steps means it lies `n` steps from `a` along the direction,
/// with every square passed over and the square itself unoccupied
proof fn lemma_reach_closed(a: int, occupied: BoardMask, t: int, direction: Direction, n: nat)
    requires
        0 <= a < 64,
        0 <= t < 64,
    ensures
        slide_reach(BoardMask::single(a), occupied, t, direction, n) <==> (ray_square(a, direction, n as int) == Some(t)
            && clear_through(a, direction, occupied, n as int)),
    decreases n,
{
    lemma_offset_square(a, 0, 0);
    lemma_offset_square(t, -direction.file_delta(), -direction.rank_delta());
    lemma_unit_steps(n as int, direction);
    lemma_unit_steps(n - 1, direction);
    lemma_offset_square(a, n * direction.file_delta(), n * direction.rank_delta());
    lemma_offset_square(a, (n - 1) * direction.file_delta(), (n - 1) * direction.rank_delta());
    if n == 0 {
        lemma_single_bit(a, t);
    } else {
        match offset_square(t, -direction.file_delta(), -direction.rank_delta()) {
            Some(u) => {
                lemma_reach_closed(a, occupied, u, direction, (n - 1) as nat);
                if ray_square(a, direction, n as int) == Some(t) && clear_through(a, direction, occupied, n as int) {
                    assert(free_square(occupied, ray_square(a, direction, n as int)));
                    if n > 1 {
                        assert(free_square(occupied, ray_square(a, direction, n - 1)));
                    }
                    assert(ray_square(a, direction, n - 1) == Some(u));
                    assert(clear_through(a, direction, occupied, n - 1));
                }
                if slide_reach(BoardMask::single(a), occupied, t, direction, n) {
                    assert(ray_square(a, direction, n as int) == Some(t));
                    assert forall|k: int| 1 <= k <= n implies free_square(occupied, #[trigger] ray_square(a, direction, k)) by {
                        if k < n {
                            assert(free_square(occupied, ray_square(a, direction, k)));
                        }
                    }
                }
            },
            None => {
                if ray_square(a, direction, n as int) == Some(t) {
                    if n > 1 {
                        assert(clear_through(a, direction, occupied, n as int) ==> free_square(occupied, ray_square(a, direction, n - 1)));
                    }
                }
            },
        }
    }
}

/// Some step below a bound reaches a square that is reached below the bound
proof fn lemma_reach_below_witness(sliders: BoardMask, occupied: BoardMask, t: int, direction: Direction, m: nat) -> (j: nat)
    requires
        slide_reach_below(sliders, occupied, t, direction, m),
    ensures
        j < m,
        slide_reach(sliders, occupied, t, direction, j),
    decreases m,
{
    if slide_reach_below(sliders, occupied, t, direction, (m - 1) as nat) {
        lemma_reach_below_witness(sliders, occupied, t, direction, (m - 1) as nat)
    } else {
        (m - 1) as nat
    }
}

/// A square reached at some step is reached below any bound past it
proof fn lemma_reach_below_from(sliders: BoardMask, occupied: BoardMask, t: int, direction: Direction, j: nat, m: nat)
    requires
        j < m,
        slide_reach(sliders, occupied, t, direction, j),
    ensures
        slide_reach_below(sliders, occupied, t, direction, m),
    decreases m,
{
    if j < m - 1 {
        lemma_reach_below_from(sliders, occupied, t, direction, j, (m - 1) as nat);
    }
}

/// A lone slider on `a` attacking `b` along a direction means a lone slider on `b` attacks `a` the other way
proof fn lemma_slide_symmetric(a: int, b: int, occupied: BoardMask, direction: Direction)
    requires
        0 <= a < 64,
        0 <= b < 64,
        slide_attacked(BoardMask::single(a), occupied, b, direction),
    ensures
        slide_attacked(BoardMask::single(b), occupied, a, direction.spec_opposite()),
{
    let back = direction.spec_opposite();
    lemma_unit_steps(1, direction);
    lemma_offset_square(b, -direction.file_delta(), -direction.rank_delta());
    let u = offset_square(b, -direction.file_delta(), -direction.rank_delta())->Some_0;
    let j = lemma_reach_below_witness(BoardMask::single(a), occupied, u, direction, 8);
    lemma_reach_closed(a, occupied, u, direction, j);
    lemma_unit_steps(j as int, direction);
    lemma_unit_steps(j + 1int, direction);
    lemma_offset_square(a, j * direction.file_delta(), j * direction.rank_delta());
    lemma_offset_square(a, direction.file_delta(), direction.rank_delta());
    let v = offset_square(a, -back.file_delta(), -back.rank_delta())->Some_0;
    assert(offset_square(a, -back.file_delta(), -back.rank_delta()) == Some(v));
    lemma_offset_square(v, 0, 0);
    assert forall|k: int| 1 <= k <= j implies #[trigger] ray_square(b, back, k) == ray_square(a, direction, j + 1 - k) by {
        lemma_unit_steps(k, back);
        lemma_unit_steps(j + 1 - k, direction);
        lemma_offset_square(a, (j + 1 - k) * direction.file_delta(), (j + 1 - k) * direction.rank_delta());
        lemma_offset_square(b, k * back.file_delta(), k * back.rank_delta());
    }
    assert(clear_through(b, back, occupied, j as int)) by {
        assert forall|k: int| 1 <= k <= j implies free_square(occupied, #[trigger] ray_square(b, back, k)) by {
            assert(ray_square(b, back, k) == ray_square(a, direction, j + 1 - k));
            assert(free_square(occupied, ray_square(a, direction, j + 1 - k)));
        }
    }
    assert(ray_square(b, back, j as int) == Some(v)) by {
        lemma_unit_steps(j as int, back);
        lemma_offset_square(b, j * back.file_delta(), j * back.rank_delta());
    }
    lemma_reach_closed(b, occupied, v, back, j);
    lemma_reach_below_from(BoardMask::single(b), occupied, v, back, j, 8);
}

/// A lone rook-like slider on `a` attacks `b` exactly when one on `b` attacks `a`
pub proof fn lemma_cardinal_symmetric(a: int, b: int, occupied: BoardMask)
    requires
        0 <= a < 64,
        0 <= b < 64,
    ensures
        cardinal_attacked(BoardMask::single(a), occupied, b) == cardinal_attacked(BoardMask::single(b), occupied, a),
{
    let directions = seq![Direction::North, Direction::South, Direction::East, Direction::West];
    assert forall|k: int| 0 <= k < 4 implies (#[trigger] slide_attacked(BoardMask::single(a), occupied, b, directions[k])
        ==> slide_attacked(BoardMask::single(b), occupied, a, directions[k].spec_opposite()))
        && (slide_attacked(BoardMask::single(b), occupied, a, directions[k]) ==> slide_attacked(
        BoardMask::single(a),
        occupied,
        b,
        directions[k].spec_opposite(),
    )) by {
        if slide_attacked(BoardMask::single(a), occupied, b, directions[k]) {
            lemma_slide_symmetric(a, b, occupied, directions[k]);
        }
        if slide_attacked(BoardMask::single(b), occupied, a, directions[k]) {
            lemma_slide_symmetric(b, a, occupied, directions[k]);
        }
    }
    assert(directions[0] == Direction::North && directions[1] == Direction::South);
    assert(directions[2] == Direction::East && directions[3] == Direction::West);
}

/// A lone bishop-like slider on `a` attacks `b` exactly when one on `b` attacks `a`
pub proof fn lemma_ordinal_symmetric(a: int, b: int, occupied: BoardMask)
    requires
        0 <= a < 64,
        0 <= b < 64,
    ensures
        ordinal_attacked(BoardMask::single(a), occupied, b) == ordinal_attacked(BoardMask::single(b), occupied, a),
{
    let directions = seq![Direction::NorthEast, Direction::NorthWest, Direction::SouthEast, Direction::SouthWest];
    assert forall|k: int| 0 <= k < 4 implies (#[trigger] slide_attacked(BoardMask::single(a), occupied, b, directions[k])
        ==> slide_attacked(BoardMask::single(b), occupied, a, directions[k].spec_opposite()))
        && (slide_attacked(BoardMask::single(b), occupied, a, directions[k]) ==> slide_attacked(
        BoardMask::single(a),
        occupied,
        b,
        directions[k].spec_opposite(),
    )) by {
        if slide_attacked(BoardMask::single(a), occupied, b, directions[k]) {
            lemma_slide_symmetric(a, b, occupied, directions[k]);
        }
        if slide_attacked(BoardMask::single(b), occupied, a, directions[k]) {
            lemma_slide_symmetric(b, a, occupied, directions[k]);
        }
    }
    assert(directions[0] == Direction::NorthEast && directions[1] == Direction::NorthWest);
    assert(directions[2] == Direction::SouthEast && directions[3] == Direction::SouthWest);
}

/// A piece on `a` comes from one step `(df, dr)` before `b` exactly when a piece on `b` comes from one step
/// `(-df, -dr)` before `a`
proof fn lemma_came_from_symmetric(a: int, b: int, df: int, dr: int)
    requires
        0 <= a < 64,
        0 <= b < 64,
    ensures
        BoardMask::single(a).came_from(b, df, dr) == BoardMask::single(b).came_from(a, -df, -dr),
{
    lemma_offset_back(b, -df, -dr);
    lemma_offset_back(a, df, dr);
    lemma_offset_square(b, -df, -dr);
    lemma_offset_square(a, df, dr);
    if let Some(s) = offset_square(b, -df, -dr) {
        lemma_single_bit(a, s);
    }
    if let Some(s) = offset_square(a, df, dr) {
        lemma_single_bit(b, s);
    }
}

/// A knight on `a` attacks `b` exactly when a knight on `b` attacks `a`
pub proof fn lemma_knight_symmetric(a: int, b: int)
    requires
        0 <= a < 64,
        0 <= b < 64,
    ensures
        knight_attacked(BoardMask::single(a), b) == knight_attacked(BoardMask::single(b), a),
{
    lemma_came_from_symmetric(a, b, 1, 2);
    lemma_came_from_symmetric(a, b, -1, 2);
    lemma_came_from_symmetric(a, b, 1, -2);
    lemma_came_from_symmetric(a, b, -1, -2);
    lemma_came_from_symmetric(a, b, 2, 1);
    lemma_came_from_symmetric(a, b, -2, 1);
    lemma_came_from_symmetric(a, b, 2, -1);
    lemma_came_from_symmetric(a, b, -2, -1);
}

/// A pawn of one player on `a` attacks `b` exactly when a pawn of the other player on `b` attacks `a`
pub proof fn lemma_pawn_symmetric(a: int, b: int, player: Player)
    requires
        0 <= a < 64,
        0 <= b < 64,
    ensures
        pawn_attacked(BoardMask::single(a), player, b) == pawn_attacked(BoardMask::single(b), player.other(), a),
{
    let forward = pawn_forward(player);
    assert(pawn_forward(player.other()) == -forward);
    lemma_came_from_symmetric(a, b, 1, forward);
    lemma_came_from_symmetric(a, b, -1, forward);
}

/// A lone piece's step that moves it somewhere never comes back to its own square
proof fn lemma_step_leaves_square(a: int, df: int, dr: int)
    requires
        0 <= a < 64,
        df != 0 || dr != 0,
    ensures
        !BoardMask::single(a).came_from(a, df, dr),
{
    lemma_offset_square(a, -df, -dr);
    if let Some(s) = offset_square(a, -df, -dr) {
        lemma_single_bit(a, s);
    }
}

/// A lone slider never attacks its own square along a direction
proof fn lemma_slide_misses_own_square(a: int, direction: Direction)
    requires
        0 <= a < 64,
    ensures
        !slide_attacked(BoardMask::single(a), BoardMask::single(a), a, direction),
{
    let (df, dr) = (direction.file_delta(), direction.rank_delta());
    let lone = BoardMask::single(a);
    lemma_offset_square(a, -df, -dr);
    if let Some(u) = offset_square(a, -df, -dr) {
        if slide_reach_below(lone, lone, u, direction, 8) {
            let n = lemma_reach_below_witness(lone, lone, u, direction, 8);
            lemma_reach_closed(a, lone, u, direction, n);
            lemma_unit_steps(n as int, direction);
            lemma_offset_square(a, n * df, n * dr);
            assert(df != 0 || dr != 0);
        }
    }
}

/// A piece on an otherwise empty board never attacks its own square
pub proof fn lemma_pseudo_attacks_miss_own_square(piece: NonPawnPieceType, square: Square)
    ensures
        !pseudo_attacked(piece, square, sq_index(square)),
{
    let a = sq_index(square);
    lemma_square_index_range(square);
    lemma_slide_misses_own_square(a, Direction::North);
    lemma_slide_misses_own_square(a, Direction::South);
    lemma_slide_misses_own_square(a, Direction::East);
    lemma_slide_misses_own_square(a, Direction::West);
    lemma_slide_misses_own_square(a, Direction::NorthEast);
    lemma_slide_misses_own_square(a, Direction::NorthWest);
    lemma_slide_misses_own_square(a, Direction::SouthEast);
    lemma_slide_misses_own_square(a, Direction::SouthWest);
    lemma_step_leaves_square(a, 1, 2);
    lemma_step_leaves_square(a, -1, 2);
    lemma_step_leaves_square(a, 1, -2);
    lemma_step_leaves_square(a, -1, -2);
    lemma_step_leaves_square(a, 2, 1);
    lemma_step_leaves_square(a, -2, 1);
    lemma_step_leaves_square(a, 2, -1);
    lemma_step_leaves_square(a, -2, -1);
    lemma_step_leaves_square(a, 1, 0);
    lemma_step_leaves_square(a, -1, 0);
    lemma_step_leaves_square(a, 0, 1);
    lemma_step_leaves_square(a, 0, -1);
    lemma_step_leaves_square(a, 1, 1);
    lemma_step_leaves_square(a, -1, 1);
    lemma_step_leaves_square(a, 1, -1);
    lemma_step_leaves_square(a, -1, -1);
}

/// A queen on an otherwise empty board attacks exactly what a rook or a bishop on its square attacks
pub proof fn lemma_queen_attacks_as_rook_or_bishop(square: Square, t: int)
    ensures
        pseudo_attacked(NonPawnPieceType::Queen, square, t) == (pseudo_attacked(NonPawnPieceType::Rook, square, t)
            || pseudo_attacked(NonPawnPieceType::Bishop, square, t)),
{
}

/// A lone slider still attacks a square along a direction when squares other than its own leave the occupied set
proof fn lemma_slide_fewer_blockers(a: int, t: int, more: BoardMask, fewer: BoardMask, direction: Direction)
    requires
        0 <= a < 64,
        0 <= t < 64,
        forall|x: int| 0 <= x < 64 && #[trigger] fewer.has(x) ==> more.has(x) || x == a,
        slide_attacked(BoardMask::single(a), more, t, direction),
    ensures
        slide_attacked(BoardMask::single(a), fewer, t, direction),
{
    let (df, dr) = (direction.file_delta(), direction.rank_delta());
    let lone = BoardMask::single(a);
    lemma_offset_square(t, -df, -dr);
    if let Some(u) = offset_square(t, -df, -dr) {
        let n = lemma_reach_below_witness(lone, more, u, direction, 8);
        lemma_reach_closed(a, more, u, direction, n);
        lemma_reach_closed(a, fewer, u, direction, n);
        assert forall|k: int| 1 <= k <= n implies free_square(fewer, #[trigger] ray_square(a, direction, k)) by {
            assert(free_square(more, ray_square(a, direction, k)));
            lemma_unit_steps(k, direction);
            lemma_offset_square(a, k * df, k * dr);
            assert(df != 0 || dr != 0);
        }
        lemma_reach_below_from(lone, fewer, u, direction, n, 8);
    }
}

/// A lone slider still attacks a square when squares other than its own leave the occupied set
pub proof fn lemma_sliding_fewer_blockers(a: int, t: int, more: BoardMask, fewer: BoardMask)
    requires
        0 <= a < 64,
        0 <= t < 64,
        forall|x: int| 0 <= x < 64 && #[trigger] fewer.has(x) ==> more.has(x) || x == a,
    ensures
        cardinal_attacked(BoardMask::single(a), more, t) ==> cardinal_attacked(BoardMask::single(a), fewer, t),
        ordinal_attacked(BoardMask::single(a), more, t) ==> ordinal_attacked(BoardMask::single(a), fewer, t),
{
    let lone = BoardMask::single(a);
    let directions = seq![
        Direction::North,
        Direction::South,
        Direction::East,
        Direction::West,
        Direction::NorthEast,
        Direction::NorthWest,
        Direction::SouthEast,
        Direction::SouthWest,
    ];
    assert forall|k: int| 0 <= k < 8 && #[trigger] slide_attacked(lone, more, t, directions[k]) implies slide_attacked(
        lone,
        fewer,
        t,
        directions[k],
    ) by {
        lemma_slide_fewer_blockers(a, t, more, fewer, directions[k]);
    }
    assert(slide_attacked(lone, more, t, directions[0]) ==> slide_attacked(lone, fewer, t, directions[0]));
    assert(slide_attacked(lone, more, t, directions[1]) ==> slide_attacked(lone, fewer, t, directions[1]));
    assert(slide_attacked(lone, more, t, directions[2]) ==> slide_attacked(lone, fewer, t, directions[2]));
    assert(slide_attacked(lone, more, t, directions[3]) ==> slide_attacked(lone, fewer, t, directions[3]));
    assert(slide_attacked(lone, more, t, directions[4]) ==> slide_attacked(lone, fewer, t, directions[4]));
    assert(slide_attacked(lone, more, t, directions[5]) ==> slide_attacked(lone, fewer, t, directions[5]));
    assert(slide_attacked(lone, more, t, directions[6]) ==> slide_attacked(lone, fewer, t, directions[6]));
    assert(slide_attacked(lone, more, t, directions[7]) ==> slide_attacked(lone, fewer, t, directions[7]));
}

/// Two squares on the same ray from `a` at different distances are different, and a square on the ray has the square
/// one step nearer `a` on the board
proof fn lemma_ray_steps(a: int, direction: Direction, j: int, m: int)
    requires
        0 <= a < 64,
        0 <= j,
        1 <= m,
        ray_square(a, direction, m) is Some,
    ensures
        j != m ==> ray_square(a, direction, j) != ray_square(a, direction, m),
        ray_square(a, direction, m - 1) is Some,
        offset_square(ray_square(a, direction, m)->Some_0, -direction.file_delta(), -direction.rank_delta())
            == ray_square(a, direction, m - 1),
{
    let (df, dr) = (direction.file_delta(), direction.rank_delta());
    lemma_unit_steps(j, direction);
    lemma_unit_steps(m, direction);
    lemma_unit_steps(m - 1, direction);
    lemma_offset_square(a, j * df, j * dr);
    lemma_offset_square(a, m * df, m * dr);
    lemma_offset_square(a, (m - 1) * df, (m - 1) * dr);
    assert(df != 0 || dr != 0);
    let y = ray_square(a, direction, m)->Some_0;
    lemma_offset_square(y, -df, -dr);
}

/// A lone slider on `a` attacking `t` along a direction, once a square `f` is added to the occupied squares, still
/// attacks `t` or else attacks `f`, the square that now stands in the way
pub proof fn lemma_slide_extra_blocker(a: int, t: int, fewer: BoardMask, more: BoardMask, f: int, direction: Direction)
    requires
        0 <= a < 64,
        0 <= t < 64,
        0 <= f < 64,
        forall|x: int| 0 <= x < 64 && #[trigger] more.has(x) ==> fewer.has(x) || x == f,
        slide_attacked(BoardMask::single(a), fewer, t, direction),
    ensures
        slide_attacked(BoardMask::single(a), more, t, direction) || slide_attacked(BoardMask::single(a), more, f, direction),
{
    let (df, dr) = (direction.file_delta(), direction.rank_delta());
    let lone = BoardMask::single(a);
    lemma_offset_square(t, -df, -dr);
    let u = offset_square(t, -df, -dr)->Some_0;
    let n = lemma_reach_below_witness(lone, fewer, u, direction, 8);
    lemma_reach_closed(a, fewer, u, direction, n);
    if exists|m: int| 1 <= m <= n && #[trigger] ray_square(a, direction, m) == Some(f) {
        let m = choose|m: int| 1 <= m <= n && #[trigger] ray_square(a, direction, m) == Some(f);
        lemma_ray_steps(a, direction, 0, m);
        let v = ray_square(a, direction, m - 1)->Some_0;
        lemma_unit_steps(m - 1, direction);
        lemma_offset_square(a, (m - 1) * df, (m - 1) * dr);
        assert forall|k: int| 1 <= k <= m - 1 implies free_square(more, #[trigger] ray_square(a, direction, k)) by {
            assert(free_square(fewer, ray_square(a, direction, k)));
            lemma_ray_steps(a, direction, k, m);
        }
        lemma_reach_closed(a, more, v, direction, (m - 1) as nat);
        lemma_reach_below_from(lone, more, v, direction, (m - 1) as nat, 8);
    } else {
        assert forall|k: int| 1 <= k <= n implies free_square(more, #[trigger] ray_square(a, direction, k)) by {
            assert(free_square(fewer, ray_square(a, direction, k)));
        }
        lemma_reach_closed(a, more, u, direction, n);
        lemma_reach_below_from(lone, more, u, direction, n, 8);
    }
}

/// A lone slider attacking `t`, once a square `f` is added to the occupied squares, still attacks `t` along ranks and
/// files (diagonals), or else attacks `f` that way
pub proof fn lemma_sliding_extra_blocker(a: int, t: int, fewer: BoardMask, more: BoardMask, f: int)
    requires
        0 <= a < 64,
        0 <= t < 64,
        0 <= f < 64,
        forall|x: int| 0 <= x < 64 && #[trigger] more.has(x) ==> fewer.has(x) || x == f,
    ensures
        cardinal_attacked(BoardMask::single(a), fewer, t) ==> cardinal_attacked(BoardMask::single(a), more, t)
            || cardinal_attacked(BoardMask::single(a), more, f),
        ordinal_attacked(BoardMask::single(a), fewer, t) ==> ordinal_attacked(BoardMask::single(a), more, t)
            || ordinal_attacked(BoardMask::single(a), more, f),
{
    let lone = BoardMask::single(a);
    if slide_attacked(lone, fewer, t, Direction::North) {
        lemma_slide_extra_blocker(a, t, fewer, more, f, Direction::North);
    }
    if slide_attacked(lone, fewer, t, Direction::South) {
        lemma_slide_extra_blocker(a, t, fewer, more, f, Direction::South);
    }
    if slide_attacked(lone, fewer, t, Direction::East) {
        lemma_slide_extra_blocker(a, t, fewer, more, f, Direction::East);
    }
    if slide_attacked(lone, fewer, t, Direction::West) {
        lemma_slide_extra_blocker(a, t, fewer, more, f, Direction::West);
    }
    if slide_attacked(lone, fewer, t, Direction::NorthEast) {
        lemma_slide_extra_blocker(a, t, fewer, more, f, Direction::NorthEast);
    }
    if slide_attacked(lone, fewer, t, Direction::NorthWest) {
        lemma_slide_extra_blocker(a, t, fewer, more, f, Direction::NorthWest);
    }
    if slide_attacked(lone, fewer, t, Direction::SouthEast) {
        lemma_slide_extra_blocker(a, t, fewer, more, f, Direction::SouthEast);
    }
    if slide_attacked(lone, fewer, t, Direction::SouthWest) {
        lemma_slide_extra_blocker(a, t, fewer, more, f, Direction::SouthWest);
    }
}

/// The square `j >= 1` steps along a ray from `a` lies that direction's unit step away from `a` and `j` king steps away
pub proof fn lemma_ray_geometry(a: int, direction: Direction, j: int)
    requires
        0 <= a < 64,
        1 <= j,
        ray_square(a, direction, j) is Some,
    ensures
        ray_square(a, direction, j)->Some_0 != a,
        0 <= ray_square(a, direction, j)->Some_0 < 64,
        line_step(a, ray_square(a, direction, j)->Some_0) == Some((direction.file_delta(), direction.rank_delta())),
        king_distance(a, ray_square(a, direction, j)->Some_0) == j,
        j <= 7,
{
    let (df, dr) = (direction.file_delta(), direction.rank_delta());
    lemma_unit_steps(j, direction);
    lemma_offset_square(a, j * df, j * dr);
    assert(df != 0 || dr != 0);
}

/// A board index strictly between `a` and the square `n` steps along a ray from it is one of the squares fewer steps
/// along that ray
pub proof fn lemma_between_on_ray(a: int, direction: Direction, n: int, i: int)
    requires
        0 <= a < 64,
        0 <= i < 64,
        1 <= n,
        ray_square(a, direction, n) is Some,
        strictly_between(a, ray_square(a, direction, n)->Some_0, i),
    ensures
        1 <= king_distance(a, i) < n,
        ray_square(a, direction, king_distance(a, i)) == Some(i),
{
    let (df, dr) = (direction.file_delta(), direction.rank_delta());
    lemma_ray_geometry(a, direction, n);
    let j = king_distance(a, i);
    let (fa, ra, fi, ri) = (index_file(a), index_rank(a), index_file(i), index_rank(i));
    assert(0 <= fi < 8 && 0 <= ri < 8 && i == ri * 8 + fi);
    lemma_unit_steps(j, direction);
    assert(fi - fa == j * df && ri - ra == j * dr);
    lemma_offset_square(a, j * df, j * dr);
}

/// A square on the ray from `a` strictly before the square `n` steps along it lies strictly between them
pub proof fn lemma_on_ray_between(a: int, direction: Direction, j: int, n: int)
    requires
        0 <= a < 64,
        1 <= j < n,
        ray_square(a, direction, n) is Some,
    ensures
        ray_square(a, direction, j) is Some,
        strictly_between(a, ray_square(a, direction, n)->Some_0, ray_square(a, direction, j)->Some_0),
{
    lemma_ray_steps(a, direction, j, n);
    lemma_ray_on_board(a, direction, j, n);
    lemma_ray_geometry(a, direction, n);
    lemma_ray_geometry(a, direction, j);
}

/// Squares nearer along a ray than one on the board are on the board
proof fn lemma_ray_on_board(a: int, direction: Direction, j: int, n: int)
    requires
        0 <= a < 64,
        0 <= j <= n,
        ray_square(a, direction, n) is Some,
    ensures
        ray_square(a, direction, j) is Some,
{
    let (df, dr) = (direction.file_delta(), direction.rank_delta());
    lemma_unit_steps(j, direction);
    lemma_unit_steps(n, direction);
    lemma_offset_square(a, n * df, n * dr);
}

/// A square attacked along a direction by a lone slider on an otherwise empty board lies some steps along that ray
pub proof fn lemma_empty_board_attack_on_ray(a: int, t: int, direction: Direction) -> (n: int)
    requires
        0 <= a < 64,
        0 <= t < 64,
        slide_attacked(BoardMask::single(a), BoardMask::single(a), t, direction),
    ensures
        1 <= n,
        ray_square(a, direction, n) == Some(t),
{
    let (df, dr) = (direction.file_delta(), direction.rank_delta());
    let lone = BoardMask::single(a);
    lemma_offset_square(t, -df, -dr);
    let u = offset_square(t, -df, -dr)->Some_0;
    let m = lemma_reach_below_witness(lone, lone, u, direction, 8);
    lemma_reach_closed(a, lone, u, direction, m);
    lemma_unit_steps(m as int, direction);
    lemma_unit_steps(m as int + 1, direction);
    lemma_offset_square(a, m * df, m * dr);
    lemma_offset_square(a, (m + 1) * df, (m + 1) * dr);
    assert(index_file(t) == index_file(u) + df && index_rank(t) == index_rank(u) + dr);
    assert(t == index_rank(t) * 8 + index_file(t));
    (m + 1) as int
}

/// A lone slider on `a` attacks the square `j >= 1` steps along a ray when the squares before it on the ray are
/// unoccupied
pub proof fn lemma_clear_ray_attack(a: int, direction: Direction, j: int, occupied: BoardMask)
    requires
        0 <= a < 64,
        1 <= j,
        ray_square(a, direction, j) is Some,
        forall|m: int| 1 <= m < j ==> free_square(occupied, #[trigger] ray_square(a, direction, m)),
    ensures
        slide_attacked(BoardMask::single(a), occupied, ray_square(a, direction, j)->Some_0, direction),
{
    lemma_ray_steps(a, direction, 0, j);
    lemma_ray_geometry(a, direction, j);
    let u = ray_square(a, direction, j - 1)->Some_0;
    lemma_unit_steps(j - 1, direction);
    lemma_offset_square(a, (j - 1) * direction.file_delta(), (j - 1) * direction.rank_delta());
    lemma_reach_closed(a, occupied, u, direction, (j - 1) as nat);
    lemma_reach_below_from(BoardMask::single(a), occupied, u, direction, (j - 1) as nat, 8);
}

/// A rank or file ray and a diagonal ray from the same square share no square
pub proof fn lemma_rays_apart(a: int, straight: Direction, diagonal: Direction, j: int, m: int)
    requires
        0 <= a < 64,
        1 <= j,
        1 <= m,
        straight.is_cardinal(),
        !diagonal.is_cardinal(),
    ensures
        ray_square(a, straight, j) is Some ==> ray_square(a, straight, j) != ray_square(a, diagonal, m),
{
    lemma_unit_steps(j, straight);
    lemma_unit_steps(m, diagonal);
    lemma_offset_square(a, j * straight.file_delta(), j * straight.rank_delta());
    lemma_offset_square(a, m * diagonal.file_delta(), m * diagonal.rank_delta());
    assert(straight.file_delta() != 0 || straight.rank_delta() != 0);
}

/// Two squares on one ray from `c` (other than `c`) and `c` itself are on one line
pub proof fn lemma_ray_on_line(c: int, direction: Direction, jf: int, jt: int)
    requires
        0 <= c < 64,
        1 <= jf,
        1 <= jt,
        jf != jt,
        ray_square(c, direction, jf) is Some,
        ray_square(c, direction, jt) is Some,
    ensures
        on_line(ray_square(c, direction, jf)->Some_0, ray_square(c, direction, jt)->Some_0, c),
{
    let (df, dr) = (direction.file_delta(), direction.rank_delta());
    lemma_unit_steps(jf, direction);
    lemma_unit_steps(jt, direction);
    lemma_offset_square(c, jf * df, jf * dr);
    lemma_offset_square(c, jt * df, jt * dr);
    assert(df != 0 || dr != 0);
}

/// A square a lone slider attacks on an otherwise empty board along ranks and files (along diagonals) lies some steps
/// along one of the rank and file rays (one of the diagonal rays)
pub proof fn lemma_empty_board_ray(a: int, t: int, straight: bool) -> (res: (Direction, int))
    requires
        0 <= a < 64,
        0 <= t < 64,
        straight ==> cardinal_attacked(BoardMask::single(a), BoardMask::single(a), t),
        !straight ==> ordinal_attacked(BoardMask::single(a), BoardMask::single(a), t),
    ensures
        res.0.is_cardinal() == straight,
        1 <= res.1,
        ray_square(a, res.0, res.1) == Some(t),
{
    let lone = BoardMask::single(a);
    let direction = if straight {
        if slide_attacked(lone, lone, t, Direction::North) {
            Direction::North
        } else if slide_attacked(lone, lone, t, Direction::South) {
            Direction::South
        } else if slide_attacked(lone, lone, t, Direction::East) {
            Direction::East
        } else {
            Direction::West
        }
    } else {
        if slide_attacked(lone, lone, t, Direction::NorthEast) {
            Direction::NorthEast
        } else if slide_attacked(lone, lone, t, Direction::NorthWest) {
            Direction::NorthWest
        } else if slide_attacked(lone, lone, t, Direction::SouthEast) {
            Direction::SouthEast
        } else {
            Direction::SouthWest
        }
    };
    let n = lemma_empty_board_attack_on_ray(a, t, direction);
    (direction, n)
}

/// The first occupied square along a ray, searching from `m` steps on up to an occupied square `n` steps along it
pub proof fn lemma_first_occupied(a: int, direction: Direction, m: int, n: int, occupied: BoardMask) -> (j: int)
    requires
        0 <= a < 64,
        1 <= m <= n,
        ray_square(a, direction, n) is Some,
        occupied.has(ray_square(a, direction, n)->Some_0),
        forall|l: int| 1 <= l < m ==> free_square(occupied, #[trigger] ray_square(a, direction, l)),
    ensures
        m <= j <= n,
        ray_square(a, direction, j) is Some,
        occupied.has(ray_square(a, direction, j)->Some_0),
        forall|l: int| 1 <= l < j ==> free_square(occupied, #[trigger] ray_square(a, direction, l)),
    decreases n - m,
{
    lemma_ray_on_board(a, direction, m, n);
    if occupied.has(ray_square(a, direction, m)->Some_0) {
        m
    } else {
        assert forall|l: int| 1 <= l < m + 1 implies free_square(occupied, #[trigger] ray_square(a, direction, l)) by {
            if l < m {
                assert(free_square(occupied, ray_square(a, direction, l)));
            }
        }
        lemma_first_occupied(a, direction, m + 1, n, occupied)
    }
}

/// A square a lone slider attacks along a direction lies some steps along that ray, with the squares before it
/// unoccupied
pub proof fn lemma_attack_on_ray(a: int, t: int, occupied: BoardMask, direction: Direction) -> (n: int)
    requires
        0 <= a < 64,
        0 <= t < 64,
        slide_attacked(BoardMask::single(a), occupied, t, direction),
    ensures
        1 <= n,
        ray_square(a, direction, n) == Some(t),
        forall|m: int| 1 <= m < n ==> free_square(occupied, #[trigger] ray_square(a, direction, m)),
{
    let (df, dr) = (direction.file_delta(), direction.rank_delta());
    let lone = BoardMask::single(a);
    lemma_offset_square(t, -df, -dr);
    let u = offset_square(t, -df, -dr)->Some_0;
    let m = lemma_reach_below_witness(lone, occupied, u, direction, 8);
    lemma_reach_closed(a, occupied, u, direction, m);
    lemma_unit_steps(m as int, direction);
    lemma_unit_steps(m as int + 1, direction);
    lemma_offset_square(a, m * df, m * dr);
    lemma_offset_square(a, (m + 1) * df, (m + 1) * dr);
    assert(index_file(t) == index_file(u) + df && index_rank(t) == index_rank(u) + dr);
    assert(t == index_rank(t) * 8 + index_file(t));
    (m + 1) as int
}

/// The squares one or more steps along a ray from `a` are not `a`, so an otherwise empty board leaves the ray clear
pub proof fn lemma_ray_clear_of_own_square(a: int, direction: Direction, n: int)
    requires
        0 <= a < 64,
        1 <= n,
        ray_square(a, direction, n) is Some,
    ensures
        forall|m: int| 1 <= m < n ==> free_square(BoardMask::single(a), #[trigger] ray_square(a, direction, m)),
{
    assert forall|m: int| 1 <= m < n implies free_square(BoardMask::single(a), #[trigger] ray_square(a, direction, m)) by {
        lemma_ray_on_board(a, direction, m, n);
        lemma_ray_geometry(a, direction, m);
        lemma_single_bit(a, ray_square(a, direction, m)->Some_0);
    }
}

} // verus!
