use vstd::prelude::*;

use crate::state::board::Board;
use crate::state::mark::Mark;
use crate::state::ply::Ply;
use crate::state::position::{on_board, target_file, target_rank, Position};

verus! {

/// What a candidate square means for the moving piece.
#[derive(Clone, Copy, PartialEq, Eq, Structural, Debug)]
pub enum SquareClass {
    /// The candidate lies outside the board.
    OffBoard,
    /// The candidate square is empty: a quiet move is possible.
    Empty,
    /// The candidate holds a piece of the mover's own mark: no ply, and a
    /// ray stops here.
    Blocked,
    /// The candidate holds an opposing piece: a capture, after which a ray
    /// stops.
    Capturable,
}

/// A step that actually moves: at least one component is non-zero.
pub open spec fn nonzero_step(step: (i8, i8)) -> bool {
    step.0 != 0 || step.1 != 0
}

/// The mark whose pieces block the generator: the mark of the occupant at
/// the origin square, if any.
pub open spec fn mover_of(board: Board, from: Position) -> Option<Mark> {
    match board.at(from.rank as int, from.file as int) {
        Option::None => Option::None,
        Option::Some(sq) => Option::Some(sq.mark),
    }
}

/// Classify the square at (rank, file) for a mover of mark `mover`.
///
/// With no mover mark (empty origin), every occupant counts as capturable.
pub open spec fn class_of(board: Board, mover: Option<Mark>, rank: int, file: int) -> SquareClass {
    if !on_board(rank, file) {
        SquareClass::OffBoard
    } else {
        match board.at(rank, file) {
            Option::None => SquareClass::Empty,
            Option::Some(sq) => if mover == Option::Some(sq.mark) {
                SquareClass::Blocked
            } else {
                SquareClass::Capturable
            },
        }
    }
}

/// The ply generated from `from` to the square at (rank, file).
pub open spec fn ply_at(from: Position, rank: int, file: int, capture: bool) -> Ply {
    Ply { from, to: Position { rank: rank as u8, file: file as u8 }, capture }
}

/// The plies one direction contributes, starting at multiple `k` of `step`.
///
/// A non-repeating (leap) direction is consulted at multiple 1 only; a
/// repeating (ray) direction continues through empty squares until it leaves
/// the board, is blocked by a friendly piece, or captures an enemy one. No
/// multiple beyond 8 can lie on the board for a non-zero step.
pub open spec fn dir_plies(
    board: Board,
    mover: Option<Mark>,
    from: Position,
    step: (i8, i8),
    k: int,
    repeating: bool,
) -> Seq<Ply>
    decreases 9 - k,
{
    if k < 1 || k > 8 {
        Seq::empty()
    } else {
        let r = target_rank(from, step, k);
        let f = target_file(from, step, k);
        match class_of(board, mover, r, f) {
            SquareClass::OffBoard => Seq::empty(),
            SquareClass::Blocked => Seq::empty(),
            SquareClass::Empty => if repeating {
                seq![ply_at(from, r, f, false)] + dir_plies(board, mover, from, step, k + 1, true)
            } else {
                seq![ply_at(from, r, f, false)]
            },
            SquareClass::Capturable => seq![ply_at(from, r, f, true)],
        }
    }
}

/// The full generated sequence: each table entry's contribution, in table
/// order.
pub open spec fn table_plies(
    board: Board,
    mover: Option<Mark>,
    from: Position,
    steps: Seq<(i8, i8)>,
    repeating: bool,
) -> Seq<Ply>
    decreases steps.len(),
{
    if steps.len() == 0 {
        Seq::empty()
    } else {
        dir_plies(board, mover, from, steps[0], 1, repeating)
            + table_plies(board, mover, from, steps.drop_first(), repeating)
    }
}

/// A step applied at an on-board multiple cannot have been scaled past 7.
proof fn lemma_dist_bound(from: Position, step: (i8, i8), k: int)
    requires
        from.wf(),
        nonzero_step(step),
        1 <= k,
        on_board(target_rank(from, step, k), target_file(from, step, k)),
    ensures
        k <= 7,
{
    if step.0 as int >= 1 {
        assert(k * step.0 >= k) by (nonlinear_arith)
            requires
                1 <= k,
                step.0 as int >= 1,
        ;
    } else if step.0 as int <= -1 {
        assert(k * step.0 <= -k) by (nonlinear_arith)
            requires
                1 <= k,
                step.0 as int <= -1,
        ;
    } else if step.1 as int >= 1 {
        assert(k * step.1 >= k) by (nonlinear_arith)
            requires
                1 <= k,
                step.1 as int >= 1,
        ;
    } else {
        assert(step.1 as int <= -1);
        assert(k * step.1 <= -k) by (nonlinear_arith)
            requires
                1 <= k,
                step.1 as int <= -1,
        ;
    }
}

/// Peeling one entry off the untraversed tail of the table.
proof fn lemma_table_plies_skip(
    board: Board,
    mover: Option<Mark>,
    from: Position,
    steps: Seq<(i8, i8)>,
    c: int,
    repeating: bool,
)
    requires
        0 <= c <= steps.len(),
    ensures
        c < steps.len() ==> table_plies(board, mover, from, steps.skip(c), repeating)
            == dir_plies(board, mover, from, steps[c], 1, repeating)
                + table_plies(board, mover, from, steps.skip(c + 1), repeating),
        c == steps.len() ==> table_plies(board, mover, from, steps.skip(c), repeating)
            == Seq::<Ply>::empty(),
{
    if c < steps.len() {
        assert(steps.skip(c).len() == steps.len() - c);
        assert(steps.skip(c)[0] == steps[c]);
        assert(steps.skip(c).drop_first() =~= steps.skip(c + 1));
    } else {
        assert(steps.skip(c) =~= Seq::<(i8, i8)>::empty());
    }
}

/// Law: generation is deterministic. The sequence an iterator stands to
/// yield is a function of its inputs and cursor state alone: two iterators
/// that agree on board, origin, step table, repetition flag, mover mark and
/// cursor agree on every yielded ply, in the same order.
pub proof fn lemma_deterministic_generation(a: StepPlyIterator, b: StepPlyIterator)
    requires
        a.board == b.board,
        a.from == b.from,
        a.steps@ == b.steps@,
        a.repeating == b.repeating,
        a.mover == b.mover,
        a.cursor == b.cursor,
        a.dist == b.dist,
    ensures
        a.remaining() == b.remaining(),
{
}

/// Law: boundary exclusion. A step whose application at multiple `k` leaves
/// the board contributes no element: the direction's contribution from that
/// multiple on is empty.
pub proof fn lemma_boundary_exclusion(
    board: Board,
    mover: Option<Mark>,
    from: Position,
    step: (i8, i8),
    k: int,
    repeating: bool,
)
    requires
        1 <= k <= 8,
        !on_board(target_rank(from, step, k), target_file(from, step, k)),
    ensures
        dir_plies(board, mover, from, step, k, repeating) == Seq::<Ply>::empty(),
{
}

/// Law: occupancy classification. At an on-board candidate square, an empty
/// square yields a quiet move, an opposing occupant yields a capture that
/// ends the direction, and a same-mark occupant yields nothing: this
/// generator filters friendly-occupied destinations itself.
pub proof fn lemma_occupancy_classification(
    board: Board,
    mover: Option<Mark>,
    from: Position,
    step: (i8, i8),
    k: int,
    repeating: bool,
)
    requires
        1 <= k <= 8,
        on_board(target_rank(from, step, k), target_file(from, step, k)),
    ensures
        ({
            let r = target_rank(from, step, k);
            let f = target_file(from, step, k);
            let s = dir_plies(board, mover, from, step, k, repeating);
            match board.at(r, f) {
                Option::None => s.len() >= 1 && s[0] == ply_at(from, r, f, false),
                Option::Some(sq) => if mover == Option::Some(sq.mark) {
                    s == Seq::<Ply>::empty()
                } else {
                    s == seq![ply_at(from, r, f, true)]
                },
            }
        }),
{
    let r: int = target_rank(from, step, k);
    let f: int = target_file(from, step, k);
    match board.at(r, f) {
        Option::None => {
            if repeating {
                assert((seq![ply_at(from, r, f, false)]
                    + dir_plies(board, mover, from, step, k + 1, true))[0]
                    == ply_at(from, r, f, false));
            } else {
                assert(seq![ply_at(from, r, f, false)][0] == ply_at(from, r, f, false));
            }
        },
        Option::Some(sq) => {
        },
    }
}

/// Law: cardinality bound for leaps. A non-repeating table yields at most
/// one ply per entry, so at most the table's length in all.
pub proof fn lemma_leap_cardinality(
    board: Board,
    mover: Option<Mark>,
    from: Position,
    steps: Seq<(i8, i8)>,
)
    ensures
        table_plies(board, mover, from, steps, false).len() <= steps.len(),
    decreases steps.len(),
{
    if steps.len() > 0 {
        lemma_leap_cardinality(board, mover, from, steps.drop_first());
        assert(dir_plies(board, mover, from, steps[0], 1, false).len() <= 1);
    }
}

/// Law: cardinality bound for rays. One repeating direction, taken from
/// multiple `k`, yields at most `8 - k` plies: at most board size minus one
/// in all.
pub proof fn lemma_ray_cardinality(
    board: Board,
    mover: Option<Mark>,
    from: Position,
    step: (i8, i8),
    k: int,
)
    requires
        from.wf(),
        nonzero_step(step),
        1 <= k <= 8,
    ensures
        dir_plies(board, mover, from, step, k, true).len() <= 8 - k,
    decreases 9 - k,
{
    let r: int = target_rank(from, step, k);
    let f: int = target_file(from, step, k);
    if on_board(r, f) {
        lemma_dist_bound(from, step, k);
        if board.at(r, f) is None {
            lemma_ray_cardinality(board, mover, from, step, k + 1);
        }
    }
}

/// Law: capture then stop. When a ray's first square is empty and its
/// second holds an opposing piece, the direction yields exactly the quiet
/// move and the capture, and nothing beyond the captured piece.
pub proof fn lemma_capture_then_stop(
    board: Board,
    mover: Option<Mark>,
    from: Position,
    step: (i8, i8),
)
    requires
        class_of(board, mover, target_rank(from, step, 1), target_file(from, step, 1))
            == SquareClass::Empty,
        class_of(board, mover, target_rank(from, step, 2), target_file(from, step, 2))
            == SquareClass::Capturable,
    ensures
        dir_plies(board, mover, from, step, 1, true) == seq![
            ply_at(from, target_rank(from, step, 1), target_file(from, step, 1), false),
            ply_at(from, target_rank(from, step, 2), target_file(from, step, 2), true),
        ],
{
    assert(dir_plies(board, mover, from, step, 2, true) == seq![
        ply_at(from, target_rank(from, step, 2), target_file(from, step, 2), true),
    ]);
    assert(dir_plies(board, mover, from, step, 1, true) =~= seq![
        ply_at(from, target_rank(from, step, 1), target_file(from, step, 1), false),
        ply_at(from, target_rank(from, step, 2), target_file(from, step, 2), true),
    ]);
}

/// Classify the square `dist` steps of `step` away from `from`, and hand the
/// on-board target position back, when there is one.
pub fn classify_target(
    board: &Board,
    mover: Option<Mark>,
    from: Position,
    step: (i8, i8),
    dist: u8,
) -> (res: (SquareClass, Option<Position>))
    requires
        board.wf(),
        from.wf(),
        1 <= dist <= 8,
    ensures
        ({
            let r = target_rank(from, step, dist as int);
            let f = target_file(from, step, dist as int);
            &&& res.0 == class_of(*board, mover, r, f)
            &&& match res.1 {
                Option::Some(p) => p.wf() && p.rank as int == r && p.file as int == f,
                Option::None => !on_board(r, f),
            }
        }),
{
    match from.offset(step, dist) {
        Option::None => (SquareClass::OffBoard, Option::None),
        Option::Some(to) => match board.get_piece(&to) {
            Option::None => (SquareClass::Empty, Option::Some(to)),
            Option::Some(occ) => {
                let friendly = match mover {
                    Option::Some(m) => m == occ.mark,
                    Option::None => false,
                };
                if friendly {
                    (SquareClass::Blocked, Option::Some(to))
                } else {
                    (SquareClass::Capturable, Option::Some(to))
                }
            },
        },
    }
}

/// The pull-based generator of pseudo-legal plies.
///
/// It borrows the board for its lifetime and never mutates it; the cursor
/// walks the step table in order. With `repeating` false every entry is a
/// single leap; with `repeating` true each entry is a ray, followed through
/// successive multiples until it leaves the board, is blocked, or captures.
pub struct StepPlyIterator<'a> {
    pub steps: Vec<(i8, i8)>,
    pub board: &'a Board,
    pub from: Position,
    pub repeating: bool,
    pub mover: Option<Mark>,
    pub cursor: usize,
    pub dist: u8,
}

impl<'a> StepPlyIterator<'a> {
    pub open spec fn wf(self) -> bool {
        &&& self.board.wf()
        &&& self.from.wf()
        &&& self.cursor <= self.steps@.len()
        &&& 1 <= self.dist <= 8
        &&& (!self.repeating ==> self.dist == 1)
        &&& forall|i: int| 0 <= i < self.steps@.len() ==> nonzero_step(#[trigger] self.steps@[i])
    }

    /// The plies this iterator has yet to yield, in order.
    pub open spec fn remaining(self) -> Seq<Ply> {
        if self.cursor < self.steps@.len() {
            dir_plies(
                *self.board,
                self.mover,
                self.from,
                self.steps@[self.cursor as int],
                self.dist as int,
                self.repeating,
            ) + table_plies(
                *self.board,
                self.mover,
                self.from,
                self.steps@.skip(self.cursor as int + 1),
                self.repeating,
            )
        } else {
            Seq::empty()
        }
    }

    /// Store the inputs and set the cursor to the first table entry; nothing
    /// is precomputed. The freshly built iterator stands to yield exactly
    /// `table_plies` of its inputs: repeated construction from equal inputs
    /// yields the identical ordered sequence.
    pub fn new(steps: Vec<(i8, i8)>, board: &'a Board, from: Position, repeating: bool) -> (it:
        StepPlyIterator<'a>)
        requires
            board.wf(),
            from.wf(),
            forall|i: int| 0 <= i < steps@.len() ==> nonzero_step(#[trigger] steps@[i]),
        ensures
            it.wf(),
            it.board == board,
            it.from == from,
            it.steps@ == steps@,
            it.repeating == repeating,
            it.mover == mover_of(*board, from),
            it.cursor == 0,
            it.dist == 1,
            it.remaining() == table_plies(*board, mover_of(*board, from), from, steps@, repeating),
    {
        let mover: Option<Mark> = match board.get_piece(&from) {
            Option::None => Option::None,
            Option::Some(sq) => Option::Some(sq.mark),
        };
        let it = StepPlyIterator { steps, board, from, repeating, mover, cursor: 0, dist: 1 };
        proof {
            lemma_table_plies_skip(*board, mover, from, it.steps@, 0, repeating);
            assert(it.steps@.skip(0) =~= it.steps@);
        }
        it
    }

    /// Produce the next ply, or `None` once the table is exhausted.
    ///
    /// `None` comes exactly when nothing remains, and once it has come the
    /// iterator keeps answering `None`: the remaining sequence stays empty.
    pub fn next(&mut self) -> (r: Option<Ply>)
        requires
            old(self).wf(),
        ensures
            final(self).wf(),
            final(self).board == old(self).board,
            final(self).from == old(self).from,
            final(self).steps@ == old(self).steps@,
            final(self).repeating == old(self).repeating,
            final(self).mover == old(self).mover,
            match r {
                Option::None => {
                    &&& old(self).remaining() == Seq::<Ply>::empty()
                    &&& final(self).remaining() == Seq::<Ply>::empty()
                },
                Option::Some(p) => {
                    &&& old(self).remaining().len() > 0
                    &&& p == old(self).remaining()[0]
                    &&& final(self).remaining() == old(self).remaining().drop_first()
                },
            },
    {
        loop
            invariant
                self.wf(),
                self.board == old(self).board,
                self.from == old(self).from,
                self.steps@ == old(self).steps@,
                self.repeating == old(self).repeating,
                self.mover == old(self).mover,
                self.remaining() == old(self).remaining(),
            decreases self.steps@.len() - self.cursor,
        {
            if self.cursor >= self.steps.len() {
                return Option::None;
            }
            let step = self.steps[self.cursor];
            let ghost pre = *self;
            let ghost c = self.cursor as int;
            let ghost tr = target_rank(self.from, step, self.dist as int);
            let ghost tf = target_file(self.from, step, self.dist as int);
            let (class, target) = classify_target(self.board, self.mover, self.from, step, self.dist);
            match class {
                SquareClass::OffBoard | SquareClass::Blocked => {
                    proof {
                        assert(dir_plies(*pre.board, pre.mover, pre.from, step, pre.dist as int, pre.repeating)
                            == Seq::<Ply>::empty());
                        assert(pre.remaining() =~= table_plies(
                            *pre.board, pre.mover, pre.from, pre.steps@.skip(c + 1), pre.repeating));
                    }
                    self.cursor = self.cursor + 1;
                    self.dist = 1;
                    proof {
                        lemma_table_plies_skip(
                            *self.board, self.mover, self.from, self.steps@, c + 1, self.repeating);
                        assert(self.remaining() =~= pre.remaining());
                    }
                },
                SquareClass::Empty => {
                    let to = match target {
                        Option::Some(t) => t,
                        Option::None => unreached(),
                    };
                    let p = Ply::new_move(self.from, to);
                    proof {
                        assert(to == Position { rank: tr as u8, file: tf as u8 });
                        assert(p == ply_at(pre.from, tr, tf, false));
                    }
                    if self.repeating {
                        proof {
                            lemma_dist_bound(self.from, step, self.dist as int);
                        }
                        self.dist = self.dist + 1;
                        proof {
                            let rest = dir_plies(
                                *pre.board, pre.mover, pre.from, step, pre.dist as int + 1, true);
                            let tail = table_plies(
                                *pre.board, pre.mover, pre.from, pre.steps@.skip(c + 1), true);
                            assert(dir_plies(*pre.board, pre.mover, pre.from, step, pre.dist as int, true)
                                == seq![p] + rest);
                            assert(pre.remaining() =~= seq![p] + (rest + tail));
                            assert(pre.remaining()[0] == p);
                            assert(pre.remaining().drop_first() =~= self.remaining());
                        }
                    } else {
                        self.cursor = self.cursor + 1;
                        proof {
                            let tail = table_plies(
                                *pre.board, pre.mover, pre.from, pre.steps@.skip(c + 1), false);
                            assert(dir_plies(*pre.board, pre.mover, pre.from, step, pre.dist as int, false)
                                == seq![p]);
                            assert(pre.remaining() =~= seq![p] + tail);
                            assert(pre.remaining()[0] == p);
                            lemma_table_plies_skip(
                                *self.board, self.mover, self.from, self.steps@, c + 1, false);
                            assert(pre.remaining().drop_first() =~= self.remaining());
                        }
                    }
                    return Option::Some(p);
                },
                SquareClass::Capturable => {
                    let to = match target {
                        Option::Some(t) => t,
                        Option::None => unreached(),
                    };
                    let p = Ply::new_capture(self.from, to);
                    proof {
                        assert(to == Position { rank: tr as u8, file: tf as u8 });
                        assert(p == ply_at(pre.from, tr, tf, true));
                    }
                    self.cursor = self.cursor + 1;
                    self.dist = 1;
                    proof {
                        let tail = table_plies(
                            *pre.board, pre.mover, pre.from, pre.steps@.skip(c + 1), pre.repeating);
                        assert(dir_plies(*pre.board, pre.mover, pre.from, step, pre.dist as int, pre.repeating)
                            == seq![p]);
                        assert(pre.remaining() =~= seq![p] + tail);
                        assert(pre.remaining()[0] == p);
                        lemma_table_plies_skip(
                            *self.board, self.mover, self.from, self.steps@, c + 1, self.repeating);
                        assert(pre.remaining().drop_first() =~= self.remaining());
                    }
                    return Option::Some(p);
                },
            }
        }
    }
}

} // verus!
