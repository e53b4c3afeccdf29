use vstd::prelude::*;
use crate::grid::{grid_view, in_bounds, set_cell, set_grid_cell};
use crate::neighbours::{as_int_pairs, neighbours_fit, grid_neighbours, neighbours_on_grid};

verus! {

/// A cell of the game of life, run as a reactive thread: whether it is
/// alive, where it stands, its neighbours, and the signals it waits on (the
/// one that the scheduler emits and the one that the display emits) named
/// by their handles.
#[derive(Clone, Copy, Debug)]
pub struct Cell {
    pub id_thread: usize,
    pub signal_1: usize,
    pub alive: bool,
    pub coords: [i32; 2],
    pub neighbours: [(i32, i32); 8],
    pub signal_2: usize,
}

/// The cells alive at the start.
pub open spec fn starts_alive(x: int, y: int) -> bool {
    seq![
        (9int, 6int), (10, 7), (11, 7), (11, 8), (9, 8), (6, 6), (5, 7), (3, 7), (4, 9), (3, 11),
        (6, 9), (7, 9), (5, 10), (6, 11), (5, 12), (7, 12), (6, 13), (7, 14), (9, 13), (9, 11),
    ].contains((x, y))
}

/// The game of life's rule: a dead cell with three living neighbours comes
/// to life; a living cell stays alive with two or three living neighbours.
pub open spec fn life_rule(alive: bool, count: int) -> bool {
    count == 3 || (alive && count == 2)
}

/// How many of `nbrs` are alive in `g`.
pub open spec fn count_alive(nbrs: Seq<(int, int)>, g: Seq<Seq<bool>>) -> int
    decreases nbrs.len(),
{
    if nbrs.len() == 0 {
        0
    } else {
        count_alive(nbrs.drop_last(), g) + if g[nbrs.last().0][nbrs.last().1] { 1int } else { 0int }
    }
}

impl Cell {
    pub open spec fn nbrs(&self) -> Seq<(int, int)> {
        as_int_pairs(self.neighbours@)
    }

    pub open spec fn at(&self) -> (int, int) {
        (self.coords[0] as int, self.coords[1] as int)
    }

    /// Makes the cell at `(x, y)`, alive when it belongs to the starting
    /// pattern. `old_thread_count` is the number of threads made before;
    /// the new thread's id is one more.
    pub fn new(old_thread_count: usize, signal1: usize, signal2: usize, x: i32, y: i32) -> (c: Cell)
        requires
            old_thread_count < usize::MAX,
        ensures
            c.id_thread == old_thread_count + 1,
            c.signal_1 == signal1,
            c.signal_2 == signal2,
            c.alive == starts_alive(x as int, y as int),
            c.coords@ == seq![x, y],
            c.neighbours@ == seq![(0i32, 0i32); 8],
    {
        let alive = (x == 9 && y == 6) || (x == 10 && y == 7) || (x == 11 && y == 7) || (x == 11 && y == 8)
            || (x == 9 && y == 8) || (x == 6 && y == 6) || (x == 5 && y == 7) || (x == 3 && y == 7)
            || (x == 4 && y == 9) || (x == 3 && y == 11) || (x == 6 && y == 9) || (x == 7 && y == 9)
            || (x == 5 && y == 10) || (x == 6 && y == 11) || (x == 5 && y == 12) || (x == 7 && y == 12)
            || (x == 6 && y == 13) || (x == 7 && y == 14) || (x == 9 && y == 13) || (x == 9 && y == 11);
        proof {
            let s = seq![
                (9int, 6int), (10, 7), (11, 7), (11, 8), (9, 8), (6, 6), (5, 7), (3, 7), (4, 9), (3, 11),
                (6, 9), (7, 9), (5, 10), (6, 11), (5, 12), (7, 12), (6, 13), (7, 14), (9, 13), (9, 11),
            ];
            if alive {
                assert(s.contains((x as int, y as int))) by {
                    if x == 9 && y == 6 { assert(s[0] == (x as int, y as int)); }
                    else if x == 10 && y == 7 { assert(s[1] == (x as int, y as int)); }
                    else if x == 11 && y == 7 { assert(s[2] == (x as int, y as int)); }
                    else if x == 11 && y == 8 { assert(s[3] == (x as int, y as int)); }
                    else if x == 9 && y == 8 { assert(s[4] == (x as int, y as int)); }
                    else if x == 6 && y == 6 { assert(s[5] == (x as int, y as int)); }
                    else if x == 5 && y == 7 { assert(s[6] == (x as int, y as int)); }
                    else if x == 3 && y == 7 { assert(s[7] == (x as int, y as int)); }
                    else if x == 4 && y == 9 { assert(s[8] == (x as int, y as int)); }
                    else if x == 3 && y == 11 { assert(s[9] == (x as int, y as int)); }
                    else if x == 6 && y == 9 { assert(s[10] == (x as int, y as int)); }
                    else if x == 7 && y == 9 { assert(s[11] == (x as int, y as int)); }
                    else if x == 5 && y == 10 { assert(s[12] == (x as int, y as int)); }
                    else if x == 6 && y == 11 { assert(s[13] == (x as int, y as int)); }
                    else if x == 5 && y == 12 { assert(s[14] == (x as int, y as int)); }
                    else if x == 7 && y == 12 { assert(s[15] == (x as int, y as int)); }
                    else if x == 6 && y == 13 { assert(s[16] == (x as int, y as int)); }
                    else if x == 7 && y == 14 { assert(s[17] == (x as int, y as int)); }
                    else if x == 9 && y == 13 { assert(s[18] == (x as int, y as int)); }
                    else { assert(s[19] == (x as int, y as int)); }
                }
            } else {
                assert(!s.contains((x as int, y as int)));
            }
        }
        let c = Cell {
            id_thread: old_thread_count + 1,
            signal_1: signal1,
            alive,
            coords: [x, y],
            neighbours: [(0, 0); 8],
            signal_2: signal2,
        };
        assert(c.neighbours@ =~= seq![(0i32, 0i32); 8]);
        assert(c.coords@ =~= seq![x, y]);
        c
    }

    /// Applies the game of life's rule to the cell, which has `count`
    /// living neighbours.
    pub fn if_alive(&mut self, count: i32)
        ensures
            *final(self) == (Cell { alive: life_rule(old(self).alive, count as int), ..*old(self) }),
    {
        if self.alive == false && count == 3 {
            self.alive = true;
        } else if self.alive == true && (count < 2 || count > 3) {
            self.alive = false;
        }
    }

    /// Computes the cell's eight neighbours on a `width` by `height` grid
    /// whose edges wrap around.
    pub fn get_neighbours(&mut self, width: i32, height: i32)
        requires
            neighbours_fit(old(self).coords[0] as int, old(self).coords[1] as int, width as int, height as int),
        ensures
            *final(self) == (Cell { neighbours: final(self).neighbours, ..*old(self) }),
            final(self).nbrs() == grid_neighbours(old(self).coords[0] as int, old(self).coords[1] as int, width as int, height as int),
    {
        self.neighbours = neighbours_on_grid(self.coords[0], self.coords[1], width, height);
    }

    /// Counts the cell's living neighbours in `matrix_after` and applies
    /// the game of life's rule.
    pub fn update_etat(&mut self, matrix_after: &Vec<Vec<bool>>)
        requires
            forall|k: int| 0 <= k < 8 ==> in_bounds(grid_view(matrix_after), #[trigger] old(self).nbrs()[k]),
        ensures
            *final(self) == (Cell {
                alive: life_rule(old(self).alive, count_alive(old(self).nbrs(), grid_view(matrix_after))),
                ..*old(self)
            }),
    {
        let mut count: i32 = 0;
        let mut k: usize = 0;
        while k < 8
            invariant
                k <= 8,
                forall|k: int| 0 <= k < 8 ==> in_bounds(grid_view(matrix_after), #[trigger] self.nbrs()[k]),
                count == count_alive(self.nbrs().take(k as int), grid_view(matrix_after)),
                0 <= count <= k,
            decreases 8 - k,
        {
            let (i, j) = self.neighbours[k];
            assert(in_bounds(grid_view(matrix_after), self.nbrs()[k as int]));
            assert(self.nbrs().take(k + 1).drop_last() =~= self.nbrs().take(k as int));
            if matrix_after[i as usize][j as usize] == true {
                count = count + 1;
            }
            k = k + 1;
        }
        assert(self.nbrs().take(8) =~= self.nbrs());
        self.if_alive(count);
    }

    /// Shows whether the cell is alive at its place.
    pub fn write_state(&self, matrix_before: &mut Vec<Vec<bool>>)
        requires
            in_bounds(grid_view(old(matrix_before)), self.at()),
        ensures
            grid_view(final(matrix_before)) == set_cell(grid_view(old(matrix_before)), self.at().0, self.at().1, self.alive),
    {
        set_grid_cell(matrix_before, self.coords[0] as usize, self.coords[1] as usize, self.alive);
    }

    /// What the cell does when its signal is here.
    pub fn is_here() {
    }

    /// What the cell does when its signal is not here.
    pub fn is_not_here() {
    }
}

} // verus!
