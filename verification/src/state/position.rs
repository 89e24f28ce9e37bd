use vstd::prelude::*;

verus! {

/// Whether the coordinate pair (rank, file) lies on the 8x8 board.
pub open spec fn on_board(rank: int, file: int) -> bool {
    0 <= rank < 8 && 0 <= file < 8
}

/// The rank reached from `from` by applying `step` scaled by `k`.
pub open spec fn target_rank(from: Position, step: (i8, i8), k: int) -> int {
    from.rank + k * step.0
}

/// The file reached from `from` by applying `step` scaled by `k`.
pub open spec fn target_file(from: Position, step: (i8, i8), k: int) -> int {
    from.file + k * step.1
}

/// An immutable (rank, file) coordinate, compared by value.
///
/// A well-formed `Position` always lies on the board; an offset that would
/// leave the board yields no `Position` at all rather than an out-of-range
/// one.
#[derive(Clone, Copy, PartialEq, Eq, Structural, Debug)]
pub struct Position {
    pub rank: u8,
    pub file: u8,
}

impl Position {
    /// Both coordinates lie in 0..8.
    pub open spec fn wf(self) -> bool {
        on_board(self.rank as int, self.file as int)
    }

    pub fn new(rank: u8, file: u8) -> (p: Position)
        requires
            on_board(rank as int, file as int),
        ensures
            p.wf(),
            p.rank == rank,
            p.file == file,
    {
        Position { rank, file }
    }

    /// Apply `step` scaled by `dist`; `None` when the target leaves the board.
    pub fn offset(self, step: (i8, i8), dist: u8) -> (r: Option<Position>)
        requires
            self.wf(),
            1 <= dist <= 8,
        ensures
            match r {
                Option::Some(p) => {
                    &&& p.wf()
                    &&& p.rank as int == target_rank(self, step, dist as int)
                    &&& p.file as int == target_file(self, step, dist as int)
                },
                Option::None => !on_board(
                    target_rank(self, step, dist as int),
                    target_file(self, step, dist as int),
                ),
            },
    {
        proof {
            assert(-1024 <= (dist as int) * (step.0 as int) <= 1016) by (nonlinear_arith)
                requires
                    1 <= dist as int <= 8,
                    -128 <= step.0 as int <= 127,
            ;
            assert(-1024 <= (dist as int) * (step.1 as int) <= 1016) by (nonlinear_arith)
                requires
                    1 <= dist as int <= 8,
                    -128 <= step.1 as int <= 127,
            ;
        }
        let dr: i16 = (dist as i16) * (step.0 as i16);
        let df: i16 = (dist as i16) * (step.1 as i16);
        let nr: i16 = (self.rank as i16) + dr;
        let nf: i16 = (self.file as i16) + df;
        if 0 <= nr && nr < 8 && 0 <= nf && nf < 8 {
            Option::Some(Position { rank: nr as u8, file: nf as u8 })
        } else {
            Option::None
        }
    }
}

} // verus!
