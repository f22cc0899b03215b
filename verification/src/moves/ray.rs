use vstd::prelude::*;
use crate::board::Board;
use crate::moves::{friendly, hostile, landing, offer, vacant};
use crate::pieces::{Color, MoveStatus, Piece};
use crate::square::Square;

verus! {

/// `k` applied to one coordinate of a direction: `k`, `-k` or 0 as `sign` is
/// positive, negative or zero.
pub open spec fn signed(k: int, sign: int) -> int {
    if sign > 0 {
        k
    } else if sign < 0 {
        -k
    } else {
        0
    }
}

/// The square `k` steps away from `from` in the direction `(files, ranks)`;
/// `Unset` once the ray has left the board.
pub open spec fn ray_at(from: Square, files: int, ranks: int, k: int) -> Square {
    if from == Square::Unset {
        Square::Unset
    } else {
        Square::at(from.file() + signed(k, files), from.rank() + signed(k, ranks))
    }
}

/// Every square of the ray at a distance in `lo..hi` is empty.
pub open spec fn clear(
    pieces: Map<Square, Piece>,
    from: Square,
    files: int,
    ranks: int,
    lo: int,
    hi: int,
) -> bool {
    forall|j: int| lo <= j < hi ==> vacant(pieces, #[trigger] ray_at(from, files, ranks, j))
}

/// Exactly one piece, an opposing one, stands on the ray strictly before distance `k`.
pub open spec fn pierces(
    pieces: Map<Square, Piece>,
    color: Color,
    from: Square,
    files: int,
    ranks: int,
    k: int,
) -> bool {
    exists|b: int|
        {
            &&& 1 <= b < k
            &&& hostile(pieces, #[trigger] ray_at(from, files, ranks, b), color)
            &&& clear(pieces, from, files, ranks, 1, b)
            &&& clear(pieces, from, files, ranks, b + 1, k)
        }
}

/// Whether a sliding piece of `color` on `from` is offered the square at
/// distance `k` along the ray with `status`.
///
/// - With nothing in between, an empty square is a quiet move and an opposing
///   piece a capture.
/// - With exactly one piece in between, an opposing one, the square is pierced,
///   unless a piece of the slider's own side stands on it.
/// - Otherwise the square is not offered: the ray ends at a piece of the
///   slider's own side and at the second piece it meets.
pub open spec fn ray_reach(
    pieces: Map<Square, Piece>,
    color: Color,
    from: Square,
    files: int,
    ranks: int,
    k: int,
    status: MoveStatus,
) -> bool {
    let to = ray_at(from, files, ranks, k);
    ||| clear(pieces, from, files, ranks, 1, k) && landing(pieces, color, to, status)
    ||| {
        &&& status == MoveStatus::pierced(color)
        &&& to != Square::Unset
        &&& !friendly(pieces, to, color)
        &&& pierces(pieces, color, from, files, ranks, k)
    }
}

/// Whether the ray offers `to` with `status` at some distance from 1 up to, but
/// not including, `bound`.
pub open spec fn ray_destination_within(
    pieces: Map<Square, Piece>,
    color: Color,
    from: Square,
    files: int,
    ranks: int,
    bound: int,
    to: Square,
    status: MoveStatus,
) -> bool {
    exists|k: int|
        {
            &&& 1 <= k < bound
            &&& to == #[trigger] ray_at(from, files, ranks, k)
            &&& to != Square::Unset
            &&& ray_reach(pieces, color, from, files, ranks, k, status)
        }
}

/// Whether a sliding piece of `color` on `from` is offered `to` with `status`
/// along the ray in the direction `(files, ranks)`.
pub open spec fn ray_destination(
    pieces: Map<Square, Piece>,
    color: Color,
    from: Square,
    files: int,
    ranks: int,
    to: Square,
    status: MoveStatus,
) -> bool {
    ray_destination_within(pieces, color, from, files, ranks, 8, to, status)
}

/// `(files, ranks)` is one of the eight directions of the board.
pub open spec fn direction(files: int, ranks: int) -> bool {
    -1 <= files <= 1 && -1 <= ranks <= 1 && (files != 0 || ranks != 0)
}

/// A square on a ray fixes both the direction of the ray and the distance.
pub proof fn lemma_ray_injective(
    from: Square,
    files: int,
    ranks: int,
    k: int,
    files2: int,
    ranks2: int,
    k2: int,
)
    requires
        direction(files, ranks),
        direction(files2, ranks2),
        1 <= k,
        1 <= k2,
        ray_at(from, files, ranks, k) != Square::Unset,
        ray_at(from, files, ranks, k) == ray_at(from, files2, ranks2, k2),
    ensures
        files == files2,
        ranks == ranks2,
        k == k2,
{
    from.lemma_coordinates();
    Square::lemma_at(from.file() + signed(k, files), from.rank() + signed(k, ranks));
    Square::lemma_at(from.file() + signed(k2, files2), from.rank() + signed(k2, ranks2));
}

/// Once a ray has left the board it does not come back.
pub proof fn lemma_ray_leaves(from: Square, files: int, ranks: int, k: int, further: int)
    requires
        direction(files, ranks),
        1 <= k <= further,
        ray_at(from, files, ranks, k) == Square::Unset,
    ensures
        ray_at(from, files, ranks, further) == Square::Unset,
{
    from.lemma_coordinates();
    Square::lemma_at(from.file() + signed(k, files), from.rank() + signed(k, ranks));
    Square::lemma_at(from.file() + signed(further, files), from.rank() + signed(further, ranks));
}

/// Moving the bound of `ray_destination_within` up by one adds what the ray
/// offers at the old bound.
pub proof fn lemma_within_step(
    pieces: Map<Square, Piece>,
    color: Color,
    from: Square,
    files: int,
    ranks: int,
    k: int,
    to: Square,
    status: MoveStatus,
)
    requires
        1 <= k,
    ensures
        ray_destination_within(pieces, color, from, files, ranks, k + 1, to, status) <==> {
            ||| ray_destination_within(pieces, color, from, files, ranks, k, to, status)
            ||| {
                &&& to != Square::Unset
                &&& to == ray_at(from, files, ranks, k)
                &&& ray_reach(pieces, color, from, files, ranks, k, status)
            }
        },
{
    if ray_destination_within(pieces, color, from, files, ranks, k + 1, to, status) {
        let j = choose|j: int|
            {
                &&& 1 <= j < k + 1
                &&& to == #[trigger] ray_at(from, files, ranks, j)
                &&& to != Square::Unset
                &&& ray_reach(pieces, color, from, files, ranks, j, status)
            };
        if j < k {
            assert(ray_destination_within(pieces, color, from, files, ranks, k, to, status));
        }
    }
}

/// The square at distance `k` is not offered at any smaller distance.
pub proof fn lemma_ray_fresh(
    pieces: Map<Square, Piece>,
    color: Color,
    from: Square,
    files: int,
    ranks: int,
    k: int,
    status: MoveStatus,
)
    requires
        direction(files, ranks),
        1 <= k,
        ray_at(from, files, ranks, k) != Square::Unset,
    ensures
        !ray_destination_within(
            pieces,
            color,
            from,
            files,
            ranks,
            k,
            ray_at(from, files, ranks, k),
            status,
        ),
{
    let to = ray_at(from, files, ranks, k);
    if ray_destination_within(pieces, color, from, files, ranks, k, to, status) {
        let j = choose|j: int|
            {
                &&& 1 <= j < k
                &&& to == #[trigger] ray_at(from, files, ranks, j)
                &&& to != Square::Unset
                &&& ray_reach(pieces, color, from, files, ranks, j, status)
            };
        lemma_ray_injective(from, files, ranks, k, files, ranks, j);
    }
}

/// With nothing before distance `k`, the square there is offered as a landing
/// square and in no other way.
pub proof fn lemma_reach_open(
    pieces: Map<Square, Piece>,
    color: Color,
    from: Square,
    files: int,
    ranks: int,
    k: int,
    status: MoveStatus,
)
    requires
        clear(pieces, from, files, ranks, 1, k),
    ensures
        ray_reach(pieces, color, from, files, ranks, k, status) <==> landing(
            pieces,
            color,
            ray_at(from, files, ranks, k),
            status,
        ),
{
}

/// With one opposing piece before distance `k` and nothing else, the square
/// there is offered as pierced, unless the slider's own side holds it, and in no
/// other way.
pub proof fn lemma_reach_behind(
    pieces: Map<Square, Piece>,
    color: Color,
    from: Square,
    files: int,
    ranks: int,
    k: int,
    blocker: int,
    status: MoveStatus,
)
    requires
        1 <= blocker < k,
        hostile(pieces, ray_at(from, files, ranks, blocker), color),
        clear(pieces, from, files, ranks, 1, blocker),
        clear(pieces, from, files, ranks, blocker + 1, k),
    ensures
        ray_reach(pieces, color, from, files, ranks, k, status) <==> {
            &&& status == MoveStatus::pierced(color)
            &&& ray_at(from, files, ranks, k) != Square::Unset
            &&& !friendly(pieces, ray_at(from, files, ranks, k), color)
        },
{
    assert(pierces(pieces, color, from, files, ranks, k));
    assert(!vacant(pieces, ray_at(from, files, ranks, blocker)));
}

/// Nothing is offered beyond a piece of the slider's own side that is the first
/// piece on the ray.
pub proof fn lemma_reach_blocked(
    pieces: Map<Square, Piece>,
    color: Color,
    from: Square,
    files: int,
    ranks: int,
    k: int,
    further: int,
    status: MoveStatus,
)
    requires
        1 <= k < further,
        friendly(pieces, ray_at(from, files, ranks, k), color),
        clear(pieces, from, files, ranks, 1, k),
    ensures
        !ray_reach(pieces, color, from, files, ranks, further, status),
{
    assert(!vacant(pieces, ray_at(from, files, ranks, k)));
    if pierces(pieces, color, from, files, ranks, further) {
        let b = choose|b: int|
            {
                &&& 1 <= b < further
                &&& hostile(pieces, #[trigger] ray_at(from, files, ranks, b), color)
                &&& clear(pieces, from, files, ranks, 1, b)
                &&& clear(pieces, from, files, ranks, b + 1, further)
            };
        assert(!vacant(pieces, ray_at(from, files, ranks, b)));
    }
}

/// Nothing is offered beyond the second piece on the ray.
pub proof fn lemma_reach_spent(
    pieces: Map<Square, Piece>,
    color: Color,
    from: Square,
    files: int,
    ranks: int,
    blocker: int,
    k: int,
    further: int,
    status: MoveStatus,
)
    requires
        1 <= blocker < k < further,
        hostile(pieces, ray_at(from, files, ranks, blocker), color),
        clear(pieces, from, files, ranks, 1, blocker),
        !vacant(pieces, ray_at(from, files, ranks, k)),
    ensures
        !ray_reach(pieces, color, from, files, ranks, further, status),
{
    assert(!vacant(pieces, ray_at(from, files, ranks, blocker)));
    if pierces(pieces, color, from, files, ranks, further) {
        let b = choose|b: int|
            {
                &&& 1 <= b < further
                &&& hostile(pieces, #[trigger] ray_at(from, files, ranks, b), color)
                &&& clear(pieces, from, files, ranks, 1, b)
                &&& clear(pieces, from, files, ranks, b + 1, further)
            };
        assert(!vacant(pieces, ray_at(from, files, ranks, b)));
    }
}

/// Two different rays from one square offer no square in common.
pub proof fn lemma_rays_apart(pieces: Map<Square, Piece>, color: Color, from: Square)
    ensures
        forall|
            files: int,
            ranks: int,
            files2: int,
            ranks2: int,
            to: Square,
            status: MoveStatus,
            status2: MoveStatus,
        |
            {
                &&& direction(files, ranks)
                &&& direction(files2, ranks2)
                &&& #[trigger] ray_destination(pieces, color, from, files, ranks, to, status)
                &&& #[trigger] ray_destination(pieces, color, from, files2, ranks2, to, status2)
            } ==> files == files2 && ranks == ranks2,
{
    assert forall|
        files: int,
        ranks: int,
        files2: int,
        ranks2: int,
        to: Square,
        status: MoveStatus,
        status2: MoveStatus,
    |
        {
            &&& direction(files, ranks)
            &&& direction(files2, ranks2)
            &&& #[trigger] ray_destination(pieces, color, from, files, ranks, to, status)
            &&& #[trigger] ray_destination(pieces, color, from, files2, ranks2, to, status2)
        } implies files == files2 && ranks == ranks2 by {
        let k = choose|k: int|
            {
                &&& 1 <= k < 8
                &&& to == #[trigger] ray_at(from, files, ranks, k)
                &&& to != Square::Unset
                &&& ray_reach(pieces, color, from, files, ranks, k, status)
            };
        let k2 = choose|k2: int|
            {
                &&& 1 <= k2 < 8
                &&& to == #[trigger] ray_at(from, files2, ranks2, k2)
                &&& to != Square::Unset
                &&& ray_reach(pieces, color, from, files2, ranks2, k2, status2)
            };
        lemma_ray_injective(from, files, ranks, k, files2, ranks2, k2);
    }
}

/// The destinations that one ray offers to a sliding piece of `color` standing
/// on `from`: exactly those that `ray_destination` allows, each once.
pub fn ray_moves(board: &Board, color: Color, from: Square, files: i32, ranks: i32) -> (moves: Vec<
    (Square, MoveStatus),
>)
    requires
        board.wf(),
        direction(files as int, ranks as int),
    ensures
        forall|to: Square, status: MoveStatus| #[trigger]
            moves@.contains((to, status)) <==> ray_destination(
                board@.pieces,
                color,
                from,
                files as int,
                ranks as int,
                to,
                status,
            ),
        moves@.no_duplicates(),
{
    let mut moves: Vec<(Square, MoveStatus)> = Vec::new();
    if from.is_none() {
        return moves;
    }
    let ghost pieces = board@.pieces;
    let ghost df = files as int;
    let ghost dr = ranks as int;
    let mut file: i32 = from.get_file();
    let mut rank: i32 = from.get_rank();
    proof {
        from.lemma_coordinates();
    }
    let mut k: i32 = 1;
    let mut met: bool = false;
    let mut closed: bool = false;
    let ghost mut blocker: int = 0;
    while k < 8 && !closed
        invariant
            board.wf(),
            pieces == board@.pieces,
            df == files as int,
            dr == ranks as int,
            direction(df, dr),
            from != Square::Unset,
            0 <= from.file() < 8,
            0 <= from.rank() < 8,
            1 <= k <= 8,
            file == from.file() + signed(k - 1, df),
            rank == from.rank() + signed(k - 1, dr),
            forall|to: Square, status: MoveStatus| #[trigger]
                moves@.contains((to, status)) <==> ray_destination_within(
                    pieces,
                    color,
                    from,
                    df,
                    dr,
                    k as int,
                    to,
                    status,
                ),
            moves@.no_duplicates(),
            !closed && !met ==> clear(pieces, from, df, dr, 1, k as int),
            !closed && met ==> {
                &&& 1 <= blocker < k
                &&& hostile(pieces, ray_at(from, df, dr, blocker), color)
                &&& clear(pieces, from, df, dr, 1, blocker)
                &&& clear(pieces, from, df, dr, blocker + 1, k as int)
            },
            closed ==> forall|j: int, status: MoveStatus|
                k <= j < 8 && ray_at(from, df, dr, j) != Square::Unset ==> !#[trigger] ray_reach(
                    pieces,
                    color,
                    from,
                    df,
                    dr,
                    j,
                    status,
                ),
        decreases 8 - k,
    {
        file = file + files;
        rank = rank + ranks;
        let to = Square::from_position((file, rank));
        let ghost before = moves@;
        let ghost reached: Option<MoveStatus> = None;
        proof {
            assert(to == ray_at(from, df, dr, k as int));
            assert forall|status: MoveStatus|
                to != Square::Unset implies !#[trigger] before.contains((to, status)) by {
                lemma_ray_fresh(pieces, color, from, df, dr, k as int, status);
            }
            if !met {
                assert forall|status: MoveStatus| #[trigger]
                    ray_reach(pieces, color, from, df, dr, k as int, status) <==> landing(
                        pieces,
                        color,
                        to,
                        status,
                    ) by {
                    lemma_reach_open(pieces, color, from, df, dr, k as int, status);
                }
            } else {
                assert forall|status: MoveStatus| #[trigger]
                    ray_reach(pieces, color, from, df, dr, k as int, status) <==> {
                        &&& status == MoveStatus::pierced(color)
                        &&& to != Square::Unset
                        &&& !friendly(pieces, to, color)
                    } by {
                    lemma_reach_behind(pieces, color, from, df, dr, k as int, blocker, status);
                }
            }
        }
        if to.is_none() {
            closed = true;
            proof {
                assert forall|j: int| k <= j < 8 implies ray_at(from, df, dr, j)
                    == Square::Unset by {
                    lemma_ray_leaves(from, df, dr, k as int, j);
                }
            }
        } else {
            match board.get_piece(to) {
                None => {
                    if met {
                        offer(
                            &mut moves,
                            to,
                            MoveStatus::Pierced { by_color: color, activated: false },
                        );
                        proof {
                            reached = Some(MoveStatus::pierced(color));
                        }
                    } else {
                        offer(
                            &mut moves,
                            to,
                            MoveStatus::Movable { by_color: color, activated: false },
                        );
                        proof {
                            reached = Some(MoveStatus::movable(color));
                        }
                    }
                },
                Some(piece) => {
                    if piece.get_color() != color {
                        if met {
                            offer(
                                &mut moves,
                                to,
                                MoveStatus::Pierced { by_color: color, activated: false },
                            );
                            proof {
                                reached = Some(MoveStatus::pierced(color));
                                assert forall|j: int, status: MoveStatus|
                                    k + 1 <= j < 8 implies !#[trigger] ray_reach(
                                    pieces,
                                    color,
                                    from,
                                    df,
                                    dr,
                                    j,
                                    status,
                                ) by {
                                    lemma_reach_spent(
                                        pieces,
                                        color,
                                        from,
                                        df,
                                        dr,
                                        blocker,
                                        k as int,
                                        j,
                                        status,
                                    );
                                }
                            }
                            closed = true;
                        } else {
                            offer(
                                &mut moves,
                                to,
                                MoveStatus::Capturable { by_color: color, activated: false },
                            );
                            proof {
                                reached = Some(MoveStatus::capturable(color));
                                blocker = k as int;
                            }
                            met = true;
                        }
                    } else {
                        proof {
                            assert forall|j: int, status: MoveStatus|
                                k + 1 <= j < 8 implies !#[trigger] ray_reach(
                                pieces,
                                color,
                                from,
                                df,
                                dr,
                                j,
                                status,
                            ) by {
                                if met {
                                    lemma_reach_spent(
                                        pieces,
                                        color,
                                        from,
                                        df,
                                        dr,
                                        blocker,
                                        k as int,
                                        j,
                                        status,
                                    );
                                } else {
                                    lemma_reach_blocked(
                                        pieces,
                                        color,
                                        from,
                                        df,
                                        dr,
                                        k as int,
                                        j,
                                        status,
                                    );
                                }
                            }
                        }
                        closed = true;
                    }
                },
            }
        }
        proof {
            assert forall|status: MoveStatus|
                (to != Square::Unset && #[trigger] ray_reach(
                    pieces,
                    color,
                    from,
                    df,
                    dr,
                    k as int,
                    status,
                )) <==> reached == Some(status) by {}
            assert forall|square: Square, status: MoveStatus| #[trigger]
                moves@.contains((square, status)) <==> ray_destination_within(
                    pieces,
                    color,
                    from,
                    df,
                    dr,
                    k + 1,
                    square,
                    status,
                ) by {
                lemma_within_step(pieces, color, from, df, dr, k as int, square, status);
            }
        }
        k = k + 1;
    }
    proof {
        assert forall|to: Square, status: MoveStatus|
            ray_destination(
                pieces,
                color,
                from,
                df,
                dr,
                to,
                status,
            ) implies ray_destination_within(pieces, color, from, df, dr, k as int, to, status) by {
            let j = choose|j: int|
                {
                    &&& 1 <= j < 8
                    &&& to == #[trigger] ray_at(from, df, dr, j)
                    &&& to != Square::Unset
                    &&& ray_reach(pieces, color, from, df, dr, j, status)
                };
            assert(j < k);
        }
    }
    moves
}

} // verus!
