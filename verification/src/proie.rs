use vstd::prelude::*;
use crate::grid::{grid_view, in_bounds, set_cell, set_grid_cell};
use crate::neighbours::{as_int_pairs, neighbours_fit, grid_neighbours, neighbours_on_grid};
use rand::Rng;

verus! {

/// Age from which a prey gives birth.
pub const AGE_REPRODUCTION_PROIES: i32 = 4;
/// Age from which a predator gives birth.
pub const AGE_REPRODUCTION_PREDATEURS: i32 = 7;
/// Hunger at which a predator starves.
pub const AGE_FAMIN: i32 = 10;
/// A predator next to a prey catches it when a draw in `0..21` is at most
/// this.
pub const CAPACITE: i32 = 20;

/// What a cell of the grid holds: its kind (0 empty, 1 prey, 2 predator),
/// its reproduction age and its hunger.
pub type Case = (i32, i32, i32);

/// A creature to start as a reactive thread of its own: where it stands,
/// its kind, its reproduction age and its hunger.
#[derive(Clone, Copy, Debug, PartialEq, Eq, Structural)]
pub struct Birth {
    pub x: i32,
    pub y: i32,
    pub proie_pred: i32,
    pub reprod: i32,
    pub faim: i32,
}

/// A cell of the prey-predator grid, run as a reactive thread: a prey, a
/// predator, or nothing, at `coords`, with the signals it waits on (the one
/// that the scheduler emits and the one that the display emits) named by
/// their handles.
#[derive(Clone, Copy, Debug)]
pub struct ProiePredateur {
    pub id_thread: usize,
    pub signal_1: usize,
    pub is_alive: bool,
    pub proie_pred: i32,
    pub reprod: i32,
    pub faim: i32,
    pub coords: [i32; 2],
    pub neighbours: [(i32, i32); 8],
    pub signal_2: usize,
}

/// The neighbours among `nbrs` whose cell in `g` holds `kind`, in order.
pub open spec fn keep_kind(nbrs: Seq<(int, int)>, g: Seq<Seq<Case>>, kind: i32) -> Seq<(int, int)>
    decreases nbrs.len(),
{
    if nbrs.len() == 0 {
        Seq::empty()
    } else {
        let rest = keep_kind(nbrs.drop_last(), g, kind);
        let q = nbrs.last();
        if g[q.0][q.1].0 == kind {
            rest.push(q)
        } else {
            rest
        }
    }
}

/// Whether `p` is the creature that `new_drawn` makes.
pub open spec fn is_new_drawn(
    p: ProiePredateur,
    old_thread_count: usize,
    signal1: usize,
    signal2: usize,
    x: i32,
    y: i32,
    proie_pred: i32,
    reprod_draw: i32,
) -> bool {
    let living = proie_pred == 1 || proie_pred == 2;
    &&& p.id_thread == old_thread_count + 1
    &&& p.signal_1 == signal1
    &&& p.signal_2 == signal2
    &&& p.is_alive == living
    &&& p.proie_pred == proie_pred
    &&& p.reprod == if living { reprod_draw } else { 0 }
    &&& p.faim == 0
    &&& p.coords@ == seq![x, y]
    &&& p.neighbours@ == seq![(0i32, 0i32); 8]
}

pub open spec fn birth(x: int, y: int, proie_pred: i32, reprod: int, faim: int) -> Birth {
    Birth { x: x as i32, y: y as i32, proie_pred, reprod: reprod as i32, faim: faim as i32 }
}

pub open spec fn case(proie_pred: i32, reprod: int, faim: int) -> Case {
    (proie_pred, reprod as i32, faim as i32)
}

impl ProiePredateur {
    pub open spec fn nbrs(&self) -> Seq<(int, int)> {
        as_int_pairs(self.neighbours@)
    }

    pub open spec fn at(&self) -> (int, int) {
        (self.coords[0] as int, self.coords[1] as int)
    }

    /// Every neighbour names a cell of `g`.
    pub open spec fn neighbours_in(&self, g: Seq<Seq<Case>>) -> bool {
        forall|k: int| 0 <= k < 8 ==> in_bounds(g, #[trigger] self.nbrs()[k])
    }

    /// This creature, dead: its cell empty and its thread over.
    pub open spec fn dead(self) -> ProiePredateur {
        ProiePredateur { proie_pred: 0, reprod: 0, faim: 0, is_alive: false, ..self }
    }

    /// This creature, now of `kind` with the given ages.
    pub open spec fn became(self, kind: i32, reprod: int, faim: int) -> ProiePredateur {
        ProiePredateur { proie_pred: kind, reprod: reprod as i32, faim: faim as i32, ..self }
    }

    pub open spec fn moved(self, p: (int, int)) -> ProiePredateur {
        ProiePredateur { coords: [p.0 as i32, p.1 as i32], ..self }
    }

    /// The cells to which the creature moves, when it moves: for a prey the
    /// empty neighbours; for a predator that is not starving the neighbouring
    /// preys when it catches one (a draw `catch_roll` at most `CAPACITE`) or
    /// when no neighbour is empty, else the empty neighbours.
    pub open spec fn move_list(&self, after: Seq<Seq<Case>>, catch_roll: int) -> Option<Seq<(int, int)>> {
        let vide = keep_kind(self.nbrs(), after, 0);
        let proies = keep_kind(self.nbrs(), after, 1);
        if self.proie_pred == 1 {
            if vide.len() == 0 { None } else { Some(vide) }
        } else if self.proie_pred == 2 && self.faim < AGE_FAMIN {
            if (proies.len() != 0 && catch_roll <= CAPACITE) || vide.len() == 0 {
                Some(proies)
            } else {
                Some(vide)
            }
        } else {
            None
        }
    }

    /// What `update_status` reads and writes is there whatever is drawn,
    /// and a creature that moves always has somewhere to go. (Every catch
    /// draw in `0..21` is at most `CAPACITE`, so the list of cells to move
    /// to is the same as with the draw 0.)
    pub open spec fn update_ready(&self, before: Seq<Seq<Case>>, after: Seq<Seq<Case>>) -> bool {
        &&& (self.proie_pred == 1 || (self.proie_pred == 2 && self.faim < AGE_FAMIN)) ==> self.neighbours_in(after)
        &&& (self.proie_pred == 2 || self.move_list(after, 0) is Some) ==> in_bounds(before, self.at())
        &&& self.move_list(after, 0) matches Some(l) ==> l.len() > 0
            && forall|i: int| 0 <= i < l.len() ==> in_bounds(before, #[trigger] l[i])
    }

    /// Whether a predator that is not starving eats a neighbouring prey.
    pub open spec fn eats(&self, after: Seq<Seq<Case>>, catch_roll: int) -> bool {
        (keep_kind(self.nbrs(), after, 1).len() != 0 && catch_roll <= CAPACITE) || keep_kind(self.nbrs(), after, 0).len() == 0
    }

    /// Whether the creature leaves its cell for another one (rather than
    /// giving birth, starving, or staying).
    pub open spec fn moves(&self, after: Seq<Seq<Case>>, catch_roll: int) -> bool {
        &&& self.move_list(after, catch_roll) is Some
        &&& if self.proie_pred == 1 {
            self.reprod < AGE_REPRODUCTION_PROIES
        } else {
            self.eats(after, catch_roll) || self.reprod < AGE_REPRODUCTION_PREDATEURS
        }
    }

    /// What `update_status_with` reads and writes is there, and the move,
    /// if any, goes to a neighbour that exists.
    pub open spec fn update_ok(&self, before: Seq<Seq<Case>>, after: Seq<Seq<Case>>, catch_roll: int, choice: int) -> bool {
        &&& (self.proie_pred == 1 || (self.proie_pred == 2 && self.faim < AGE_FAMIN)) ==> self.neighbours_in(after)
        &&& (self.proie_pred == 2 || self.move_list(after, catch_roll) is Some) ==> in_bounds(before, self.at())
        &&& self.move_list(after, catch_roll) matches Some(l) ==> 0 <= choice < l.len() && in_bounds(before, l[choice])
    }

    /// One update of the creature, with `catch_roll` the predator's catch
    /// draw and `choice` the position, in the list of cells it may move to,
    /// of the cell it moves to: the creature's new state, the new grid of
    /// states, and the creatures to start.
    ///
    /// A prey with an empty neighbour gives birth there when old enough
    /// (and starts again at reproduction age 1), or else moves there one
    /// age older and not hungry (its thread ends and a new one starts at the
    /// new cell). A predator starves when too hungry; otherwise it eats a
    /// neighbouring prey (taking its cell, with its ages back to 0), or gives birth on an empty neighbour when old enough, or else
    /// moves there one age older and hungrier. An empty cell's thread ends.
    pub open spec fn update_spec(self, before: Seq<Seq<Case>>, after: Seq<Seq<Case>>, catch_roll: int, choice: int)
        -> (ProiePredateur, Seq<Seq<Case>>, Seq<Birth>)
    {
        let (cx, cy) = self.at();
        if self.proie_pred == 1 {
            match self.move_list(after, catch_roll) {
                None => (self, before, Seq::empty()),
                Some(l) => {
                    let (x, y) = l[choice];
                    if self.reprod >= AGE_REPRODUCTION_PROIES {
                        (self.became(1, 1, 0), set_cell(set_cell(before, x, y, case(1, 1, 0)), cx, cy, case(1, 1, 0)),
                         seq![birth(x, y, 1, 1, 0)])
                    } else {
                        (self.dead().moved((x, y)).became(1, self.reprod + 1, 0),
                         set_cell(set_cell(before, cx, cy, case(0, 0, 0)), x, y, case(1, self.reprod + 1, 0)),
                         seq![birth(x, y, 1, self.reprod + 1, 0)])
                    }
                },
            }
        } else if self.proie_pred == 2 {
            if self.faim >= AGE_FAMIN {
                (self.dead(), set_cell(before, cx, cy, case(0, 0, 0)), Seq::empty())
            } else {
                let vide = keep_kind(self.nbrs(), after, 0);
                let proies = keep_kind(self.nbrs(), after, 1);
                if (proies.len() != 0 && catch_roll <= CAPACITE) || vide.len() == 0 {
                    let (x, y) = proies[choice];
                    (self.dead().moved((x, y)).became(2, 0, 0),
                     set_cell(set_cell(before, cx, cy, case(0, 0, 0)), x, y, case(2, 0, 0)),
                     seq![birth(x, y, 2, 0, 0)])
                } else {
                    let (x, y) = vide[choice];
                    if self.reprod >= AGE_REPRODUCTION_PREDATEURS {
                        (self.became(2, 1, self.faim + 2),
                         set_cell(set_cell(before, x, y, case(2, 1, self.faim + 1)), cx, cy, case(2, 1, self.faim + 2)),
                         seq![birth(x, y, 2, 1, self.faim + 1)])
                    } else {
                        (self.dead().moved((x, y)).became(2, self.reprod + 1, self.faim + 1),
                         set_cell(set_cell(before, cx, cy, case(0, 0, 0)), x, y, case(2, self.reprod + 1, self.faim + 1)),
                         seq![birth(x, y, 2, self.reprod + 1, self.faim + 1)])
                    }
                }
            }
        } else if self.proie_pred == 0 {
            (ProiePredateur { is_alive: false, ..self }, before, Seq::empty())
        } else {
            (self, before, Seq::empty())
        }
    }
}


/// A number drawn at random in `low..high`.
#[verifier::external_body]
fn gen_range(low: i32, high: i32) -> (r: i32)
    requires
        low < high,
    ensures
        low <= r < high,
{
    rand::thread_rng().gen_range(low, high)
}

impl ProiePredateur {
    /// Makes a creature at `(x, y)` whose kind, and reproduction age for a
    /// prey or a predator, are drawn at random: the kind in `0..3`, the age
    /// in `0..5` for a prey and in `0..7` for a predator. Its thread runs
    /// when it is a prey or a predator. `old_thread_count` is the number of
    /// threads made before; the new thread's id is one more.
    pub fn new(old_thread_count: usize, signal1: usize, signal2: usize, x: i32, y: i32) -> (p: ProiePredateur)
        requires
            old_thread_count < usize::MAX,
        ensures
            exists|kind: i32, age: i32| 0 <= kind < 3 && (kind == 1 ==> 0 <= age < 5) && (kind == 2 ==> 0 <= age < 7)
                && #[trigger] is_new_drawn(p, old_thread_count, signal1, signal2, x, y, kind, age),
            0 <= p.proie_pred < 3,
            p.proie_pred == 0 ==> p.reprod == 0,
            p.proie_pred == 1 ==> 0 <= p.reprod < 5,
            p.proie_pred == 2 ==> 0 <= p.reprod < 7,
    {
        let proie_pred = gen_range(0, 3);
        let mut reprod_draw: i32 = 0;
        if proie_pred == 1 {
            reprod_draw = gen_range(0, 5);
        } else if proie_pred == 2 {
            reprod_draw = gen_range(0, 7);
        }
        ProiePredateur::new_drawn(old_thread_count, signal1, signal2, x, y, proie_pred, reprod_draw)
    }

    /// Makes the creature at `(x, y)` of kind `proie_pred` (0 empty, 1
    /// prey, 2 predator); a prey or a predator takes the reproduction age
    /// `reprod_draw` and its thread runs, an empty cell has age 0 and no
    /// running thread. Hunger starts at 0.
    pub fn new_drawn(
        old_thread_count: usize,
        signal1: usize,
        signal2: usize,
        x: i32,
        y: i32,
        proie_pred: i32,
        reprod_draw: i32,
    ) -> (p: ProiePredateur)
        requires
            old_thread_count < usize::MAX,
        ensures
            is_new_drawn(p, old_thread_count, signal1, signal2, x, y, proie_pred, reprod_draw),
    {
        let mut reprod: i32 = 0;
        let faim: i32 = 0;
        let mut is_alive = false;
        if proie_pred == 1 {
            reprod = reprod_draw;
            is_alive = true;
        } else if proie_pred == 2 {
            reprod = reprod_draw;
            is_alive = true;
        }
        let p = ProiePredateur {
            id_thread: old_thread_count + 1,
            signal_1: signal1,
            is_alive,
            proie_pred,
            reprod,
            faim,
            coords: [x, y],
            neighbours: [(0, 0); 8],
            signal_2: signal2,
        };
        assert(p.neighbours@ =~= seq![(0i32, 0i32); 8]);
        assert(p.coords@ =~= seq![x, y]);
        p
    }

    /// Makes a living creature of kind `proie_pred` at `(x, y)` with the
    /// given ages. `old_thread_count` is the number of threads made before;
    /// the new thread's id is one more.
    pub fn new_1(
        old_thread_count: usize,
        signal1: usize,
        signal2: usize,
        x: i32,
        y: i32,
        proie_pred: i32,
        reprod: i32,
        faim: i32,
    ) -> (p: ProiePredateur)
        requires
            old_thread_count < usize::MAX,
        ensures
            p.id_thread == old_thread_count + 1,
            p.signal_1 == signal1,
            p.signal_2 == signal2,
            p.coords@ == seq![x, y],
            p.neighbours@ == seq![(0i32, 0i32); 8],
            p.proie_pred == proie_pred,
            p.reprod == reprod,
            p.faim == faim,
            p.is_alive,
    {
        let p = ProiePredateur {
            id_thread: old_thread_count + 1,
            signal_1: signal1,
            is_alive: true,
            proie_pred,
            reprod,
            faim,
            coords: [x, y],
            neighbours: [(0, 0); 8],
            signal_2: signal2,
        };
        assert(p.neighbours@ =~= seq![(0i32, 0i32); 8]);
        assert(p.coords@ =~= seq![x, y]);
        p
    }

    /// Computes the creature's eight neighbours on a `width` by `height`
    /// grid whose edges wrap around.
    pub fn get_neighbours(&mut self, width: i32, height: i32)
        requires
            neighbours_fit(old(self).coords[0] as int, old(self).coords[1] as int, width as int, height as int),
        ensures
            *final(self) == (ProiePredateur { neighbours: final(self).neighbours, ..*old(self) }),
            final(self).nbrs() == grid_neighbours(old(self).coords[0] as int, old(self).coords[1] as int, width as int, height as int),
    {
        self.neighbours = neighbours_on_grid(self.coords[0], self.coords[1], width, height);
    }

    fn neighbours_of_kind(&self, matrix: &Vec<Vec<Case>>, kind: i32) -> (cells: Vec<(i32, i32)>)
        requires
            self.neighbours_in(grid_view(matrix)),
        ensures
            as_int_pairs(cells@) == keep_kind(self.nbrs(), grid_view(matrix), kind),
    {
        let mut cells: Vec<(i32, i32)> = Vec::new();
        let mut k: usize = 0;
        while k < 8
            invariant
                k <= 8,
                self.neighbours_in(grid_view(matrix)),
                as_int_pairs(cells@) == keep_kind(self.nbrs().take(k as int), grid_view(matrix), kind),
            decreases 8 - k,
        {
            let (i, j) = self.neighbours[k];
            assert(in_bounds(grid_view(matrix), self.nbrs()[k as int]));
            let x = i as usize;
            let y = j as usize;
            let (proie_pred, _reprod, _faim) = matrix[x][y];
            assert(self.nbrs().take(k + 1).drop_last() =~= self.nbrs().take(k as int));
            if proie_pred == kind {
                cells.push((x as i32, y as i32));
            }
            assert(as_int_pairs(cells@) =~= keep_kind(self.nbrs().take(k + 1), grid_view(matrix), kind));
            k = k + 1;
        }
        assert(self.nbrs().take(8) =~= self.nbrs());
        cells
    }

    /// The empty neighbours, in the order of the neighbours.
    pub fn cell_neighbours_vide(&self, matrix_after: &Vec<Vec<Case>>) -> (cells: Vec<(i32, i32)>)
        requires
            self.neighbours_in(grid_view(matrix_after)),
        ensures
            as_int_pairs(cells@) == keep_kind(self.nbrs(), grid_view(matrix_after), 0),
    {
        self.neighbours_of_kind(matrix_after, 0)
    }

    /// The neighbours that hold a prey, in the order of the neighbours.
    pub fn cell_neighbours_proies(&self, matrix_after: &Vec<Vec<Case>>) -> (cells: Vec<(i32, i32)>)
        requires
            self.neighbours_in(grid_view(matrix_after)),
        ensures
            as_int_pairs(cells@) == keep_kind(self.nbrs(), grid_view(matrix_after), 1),
    {
        self.neighbours_of_kind(matrix_after, 1)
    }

    /// The prey dies: its cell becomes empty and its thread ends.
    pub fn proie_dead(&mut self, matrix_before: &mut Vec<Vec<Case>>)
        requires
            in_bounds(grid_view(old(matrix_before)), old(self).at()),
        ensures
            *final(self) == old(self).dead(),
            grid_view(final(matrix_before)) == set_cell(grid_view(old(matrix_before)), old(self).at().0, old(self).at().1, case(0, 0, 0)),
    {
        self.proie_pred = 0;
        self.reprod = 0;
        self.faim = 0;
        self.is_alive = false;
        let x = self.coords[0] as usize;
        let y = self.coords[1] as usize;
        set_grid_cell(matrix_before, x, y, (0, 0, 0));
    }

    /// The predator dies: its cell becomes empty and its thread ends.
    pub fn predateur_dead(&mut self, matrix_before: &mut Vec<Vec<Case>>)
        requires
            in_bounds(grid_view(old(matrix_before)), old(self).at()),
        ensures
            *final(self) == old(self).dead(),
            grid_view(final(matrix_before)) == set_cell(grid_view(old(matrix_before)), old(self).at().0, old(self).at().1, case(0, 0, 0)),
    {
        self.proie_pred = 0;
        self.reprod = 0;
        self.faim = 0;
        self.is_alive = false;
        let x = self.coords[0] as usize;
        let y = self.coords[1] as usize;
        set_grid_cell(matrix_before, x, y, (0, 0, 0));
    }

    /// A prey is born at `(x, y)` with the given ages; this creature takes
    /// the same kind and ages. The result is the newborn to start.
    pub fn proie_vie(&mut self, matrix_before: &mut Vec<Vec<Case>>, x: i32, y: i32, reprod: i32, faim: i32) -> (b: Birth)
        requires
            in_bounds(grid_view(old(matrix_before)), (x as int, y as int)),
        ensures
            *final(self) == old(self).became(1, reprod as int, faim as int),
            grid_view(final(matrix_before)) == set_cell(grid_view(old(matrix_before)), x as int, y as int, (1i32, reprod, faim)),
            b == birth(x as int, y as int, 1, reprod as int, faim as int),
    {
        self.proie_pred = 1;
        self.reprod = reprod;
        self.faim = faim;
        set_grid_cell(matrix_before, x as usize, y as usize, (1, reprod, faim));
        Birth { x, y, proie_pred: 1, reprod, faim }
    }

    /// A predator is born at `(x, y)` with the given ages; this creature
    /// takes the same kind and ages. The result is the newborn to start.
    pub fn predateur_vie(&mut self, matrix_before: &mut Vec<Vec<Case>>, x: i32, y: i32, reprod: i32, faim: i32) -> (b: Birth)
        requires
            in_bounds(grid_view(old(matrix_before)), (x as int, y as int)),
        ensures
            *final(self) == old(self).became(2, reprod as int, faim as int),
            grid_view(final(matrix_before)) == set_cell(grid_view(old(matrix_before)), x as int, y as int, (2i32, reprod, faim)),
            b == birth(x as int, y as int, 2, reprod as int, faim as int),
    {
        self.proie_pred = 2;
        self.reprod = reprod;
        self.faim = faim;
        set_grid_cell(matrix_before, x as usize, y as usize, (2, reprod, faim));
        Birth { x, y, proie_pred: 2, reprod, faim }
    }

    /// This creature is a prey with the given ages, shown at `(x, y)`.
    pub fn update_status_proie(&mut self, matrix_before: &mut Vec<Vec<Case>>, x: i32, y: i32, reprod: i32, faim: i32)
        requires
            in_bounds(grid_view(old(matrix_before)), (x as int, y as int)),
        ensures
            *final(self) == old(self).became(1, reprod as int, faim as int),
            grid_view(final(matrix_before)) == set_cell(grid_view(old(matrix_before)), x as int, y as int, (1i32, reprod, faim)),
    {
        self.proie_pred = 1;
        self.reprod = reprod;
        self.faim = faim;
        set_grid_cell(matrix_before, x as usize, y as usize, (1, reprod, faim));
    }

    /// This creature is a predator with the given ages, shown at `(x, y)`.
    pub fn update_status_predateur(&mut self, matrix_before: &mut Vec<Vec<Case>>, x: i32, y: i32, reprod: i32, faim: i32)
        requires
            in_bounds(grid_view(old(matrix_before)), (x as int, y as int)),
        ensures
            *final(self) == old(self).became(2, reprod as int, faim as int),
            grid_view(final(matrix_before)) == set_cell(grid_view(old(matrix_before)), x as int, y as int, (2i32, reprod, faim)),
    {
        self.proie_pred = 2;
        self.reprod = reprod;
        self.faim = faim;
        set_grid_cell(matrix_before, x as usize, y as usize, (2, reprod, faim));
    }

    /// The creature's thread ends when the grid, after the display has
    /// taken account of the last updates, no longer shows its kind at its
    /// cell.
    pub fn check_status(&mut self, matrix_after: &Vec<Vec<Case>>)
        requires
            in_bounds(grid_view(matrix_after), old(self).at()),
        ensures
            *final(self) == if old(self).proie_pred != grid_view(matrix_after)[old(self).at().0][old(self).at().1].0 {
                ProiePredateur { is_alive: false, ..*old(self) }
            } else {
                *old(self)
            },
    {
        let x = self.coords[0] as usize;
        let y = self.coords[1] as usize;
        if self.proie_pred != matrix_after[x][y].0 {
            self.is_alive = false;
        }
    }

    /// Shows the creature's state at its cell.
    pub fn write_state(&self, matrix_before: &mut Vec<Vec<Case>>)
        requires
            in_bounds(grid_view(old(matrix_before)), self.at()),
        ensures
            grid_view(final(matrix_before)) == set_cell(grid_view(old(matrix_before)), self.at().0, self.at().1,
                (self.proie_pred, self.reprod, self.faim)),
    {
        let x = self.coords[0] as usize;
        let y = self.coords[1] as usize;
        set_grid_cell(matrix_before, x, y, (self.proie_pred, self.reprod, self.faim));
    }

    /// What the creature does when its cell's signal is here.
    pub fn is_here() {
    }

    /// What the creature does when its cell's signal is not here.
    pub fn is_not_here() {
    }
}


pub proof fn lemma_keep_kind_len(nbrs: Seq<(int, int)>, g: Seq<Seq<Case>>, kind: i32)
    ensures
        keep_kind(nbrs, g, kind).len() <= nbrs.len(),
    decreases nbrs.len(),
{
    if nbrs.len() > 0 {
        lemma_keep_kind_len(nbrs.drop_last(), g, kind);
    }
}

impl ProiePredateur {
    /// One update of the creature (see `update_spec`), given the catch draw
    /// and the position of the cell it moves to. The result is the list of
    /// creatures to start.
    pub fn update_status_with(
        &mut self,
        matrix_before: &mut Vec<Vec<Case>>,
        matrix_after: &Vec<Vec<Case>>,
        catch_roll: i32,
        choice: usize,
    ) -> (births: Vec<Birth>)
        requires
            old(self).update_ok(grid_view(old(matrix_before)), grid_view(matrix_after), catch_roll as int, choice as int),
        ensures
            (*final(self), grid_view(final(matrix_before)), births@)
                == old(self).update_spec(grid_view(old(matrix_before)), grid_view(matrix_after), catch_roll as int, choice as int),
    {
        let ghost p0 = *self;
        let ghost b0 = grid_view(matrix_before);
        let ghost a0 = grid_view(matrix_after);
        let mut births: Vec<Birth> = Vec::new();
        if self.proie_pred == 1 {
            let cell_vide = self.cell_neighbours_vide(matrix_after);
            if cell_vide.len() != 0 {
                let (x, y) = cell_vide[choice];
                if self.reprod >= AGE_REPRODUCTION_PROIES {
                    let b = self.proie_vie(matrix_before, x, y, 1, 0);
                    births.push(b);
                    let cx = self.coords[0];
                    let cy = self.coords[1];
                    self.update_status_proie(matrix_before, cx, cy, 1, 0);
                } else {
                    let r = self.reprod + 1;
                    let f: i32 = 0;
                    self.proie_dead(matrix_before);
                    self.coords = [x, y];
                    self.update_status_proie(matrix_before, x, y, r, f);
                    births.push(Birth { x, y, proie_pred: 1, reprod: r, faim: f });
                }
            }
        } else if self.proie_pred == 2 {
            if self.faim >= AGE_FAMIN {
                self.predateur_dead(matrix_before);
            } else {
                let cell_proie = self.cell_neighbours_proies(matrix_after);
                let cell_vide = self.cell_neighbours_vide(matrix_after);
                if (cell_proie.len() != 0 && catch_roll <= CAPACITE) || cell_vide.len() == 0 {
                    let (x, y) = cell_proie[choice];
                    self.predateur_dead(matrix_before);
                    self.coords = [x, y];
                    let r = self.reprod;
                    self.update_status_predateur(matrix_before, x, y, r, 0);
                    births.push(Birth { x, y, proie_pred: 2, reprod: r, faim: 0 });
                } else {
                    let (x, y) = cell_vide[choice];
                    if self.reprod >= AGE_REPRODUCTION_PREDATEURS {
                        let f = self.faim + 1;
                        let b = self.predateur_vie(matrix_before, x, y, 1, f);
                        births.push(b);
                        self.reprod = 1;
                        self.faim = self.faim + 1;
                        let cx = self.coords[0];
                        let cy = self.coords[1];
                        let (r, f2) = (self.reprod, self.faim);
                        self.update_status_predateur(matrix_before, cx, cy, r, f2);
                    } else {
                        let r = self.reprod + 1;
                        let f = self.faim + 1;
                        self.predateur_dead(matrix_before);
                        self.coords = [x, y];
                        self.update_status_predateur(matrix_before, x, y, r, f);
                        births.push(Birth { x, y, proie_pred: 2, reprod: r, faim: f });
                    }
                }
            }
        } else if self.proie_pred == 0 {
            self.is_alive = false;
        }
        assert(births@ =~= p0.update_spec(b0, a0, catch_roll as int, choice as int).2);
        births
    }

    /// One update of the creature, with the catch draw and the cell to move
    /// to drawn at random: the result is `update_spec` for some draw in
    /// `0..21` and some cell of the list of cells to move to.
    pub fn update_status(&mut self, matrix_before: &mut Vec<Vec<Case>>, matrix_after: &Vec<Vec<Case>>) -> (births: Vec<Birth>)
        requires
            old(self).update_ready(grid_view(old(matrix_before)), grid_view(matrix_after)),
        ensures
            exists|catch_roll: int, choice: int|
                0 <= catch_roll < 21 && old(self).update_ok(grid_view(old(matrix_before)), grid_view(matrix_after), catch_roll, choice)
                    && (*final(self), grid_view(final(matrix_before)), births@)
                        == #[trigger] old(self).update_spec(grid_view(old(matrix_before)), grid_view(matrix_after), catch_roll, choice),
    {
        let ghost a0 = grid_view(matrix_after);
        proof {
            lemma_keep_kind_len(self.nbrs(), a0, 0);
            lemma_keep_kind_len(self.nbrs(), a0, 1);
        }
        let mut catch_roll: i32 = 0;
        let mut choice: usize = 0;
        if self.proie_pred == 1 {
            let cell_vide = self.cell_neighbours_vide(matrix_after);
            if cell_vide.len() != 0 {
                choice = draw_index(cell_vide.len());
            }
        } else if self.proie_pred == 2 && self.faim < AGE_FAMIN {
            let cell_proie = self.cell_neighbours_proies(matrix_after);
            let cell_vide = self.cell_neighbours_vide(matrix_after);
            if cell_proie.len() != 0 {
                catch_roll = gen_range(0, CAPACITE + 1);
            }
            if (cell_proie.len() != 0 && catch_roll <= CAPACITE) || cell_vide.len() == 0 {
                choice = draw_index(cell_proie.len());
            } else {
                choice = draw_index(cell_vide.len());
            }
        }
        assert(self.move_list(a0, catch_roll as int) == self.move_list(a0, 0));
        self.update_status_with(matrix_before, matrix_after, catch_roll, choice)
    }
}

/// A position drawn at random in a list of `len` items (`len` being at
/// most 8).
fn draw_index(len: usize) -> (i: usize)
    requires
        0 < len <= 8,
    ensures
        i < len,
{
    gen_range(0, len as i32) as usize
}

} // verus!

verus! {

/// The neighbours kept for a kind are neighbours whose cell holds that
/// kind.
pub proof fn lemma_keep_kind_sound(nbrs: Seq<(int, int)>, g: Seq<Seq<Case>>, kind: i32)
    ensures
        forall|i: int| 0 <= i < keep_kind(nbrs, g, kind).len() ==> {
            let q = #[trigger] keep_kind(nbrs, g, kind)[i];
            nbrs.contains(q) && g[q.0][q.1].0 == kind
        },
    decreases nbrs.len(),
{
    if nbrs.len() > 0 {
        lemma_keep_kind_sound(nbrs.drop_last(), g, kind);
        let rest = keep_kind(nbrs.drop_last(), g, kind);
        assert forall|i: int| 0 <= i < keep_kind(nbrs, g, kind).len() implies {
            let q = #[trigger] keep_kind(nbrs, g, kind)[i];
            nbrs.contains(q) && g[q.0][q.1].0 == kind
        } by {
            let q = keep_kind(nbrs, g, kind)[i];
            if i < rest.len() {
                assert(q == rest[i]);
                let w = choose|w: int| 0 <= w < nbrs.drop_last().len() && nbrs.drop_last()[w] == q;
                assert(nbrs[w] == q);
            } else {
                assert(q == nbrs.last());
                assert(nbrs[nbrs.len() - 1] == q);
            }
        }
    }
}

/// An update starts at most one creature: of the kind of its parent, on a
/// neighbouring cell that was empty (or, for a predator that eats, that
/// held a prey).
pub proof fn lemma_update_births(p: ProiePredateur, before: Seq<Seq<Case>>, after: Seq<Seq<Case>>, catch_roll: int, choice: int)
    requires
        p.update_ok(before, after, catch_roll, choice),
    ensures
        ({
            let births = p.update_spec(before, after, catch_roll, choice).2;
            &&& births.len() <= 1
            &&& births.len() == 1 ==> {
                let b = births[0];
                &&& b.proie_pred == p.proie_pred
                &&& p.nbrs().contains((b.x as int, b.y as int))
                &&& (after[b.x as int][b.y as int].0 == 0 || (p.proie_pred == 2 && after[b.x as int][b.y as int].0 == 1))
            }
        }),
{
    lemma_keep_kind_sound(p.nbrs(), after, 0);
    lemma_keep_kind_sound(p.nbrs(), after, 1);
    let births = p.update_spec(before, after, catch_roll, choice).2;
    if births.len() == 1 {
        if let Some(l) = p.move_list(after, catch_roll) {
            let q = l[choice];
            assert(p.nbrs().contains(q));
            assert(q.0 as i32 as int == q.0 && q.1 as i32 as int == q.1) by {
                let w = choose|w: int| 0 <= w < p.nbrs().len() && p.nbrs()[w] == q;
                assert(p.nbrs()[w] == (p.neighbours@[w].0 as int, p.neighbours@[w].1 as int));
            }
        }
    }
}

/// A predator too hungry starves: its cell becomes empty, its thread ends
/// and nothing is born.
pub proof fn lemma_predator_starves(p: ProiePredateur, before: Seq<Seq<Case>>, after: Seq<Seq<Case>>, catch_roll: int, choice: int)
    requires
        p.proie_pred == 2,
        p.faim >= AGE_FAMIN,
    ensures
        ({
            let (q, b, births) = p.update_spec(before, after, catch_roll, choice);
            &&& q == p.dead()
            &&& !q.is_alive
            &&& b == set_cell(before, p.at().0, p.at().1, case(0, 0, 0))
            &&& births.len() == 0
        }),
{
}

/// A creature that moves leaves its old cell empty and stands at its new
/// one, as a new thread: the creature's own thread ends. A predator that
/// ate starts there again at age 0 and not hungry; otherwise the creature
/// is one age older there, a prey not hungry and a predator hungrier.
pub proof fn lemma_move_leaves_old_cell(p: ProiePredateur, before: Seq<Seq<Case>>, after: Seq<Seq<Case>>, catch_roll: int, choice: int)
    requires
        p.update_ok(before, after, catch_roll, choice),
        p.moves(after, catch_roll),
        p.move_list(after, catch_roll)->0[choice] != p.at(),
    ensures
        ({
            let (q, b, births) = p.update_spec(before, after, catch_roll, choice);
            let target = p.move_list(after, catch_roll)->0[choice];
            &&& !q.is_alive
            &&& b[p.at().0][p.at().1] == case(0, 0, 0)
            &&& b[target.0][target.1].0 == p.proie_pred
            &&& births.len() == 1 && births[0].proie_pred == p.proie_pred
            &&& births[0].reprod == if p.proie_pred == 2 && p.eats(after, catch_roll) { 0 } else { p.reprod + 1 }
            &&& births[0].faim == if p.proie_pred == 2 && !p.eats(after, catch_roll) { p.faim + 1 } else { 0 }
            &&& q.reprod == births[0].reprod && q.faim == births[0].faim
            &&& b[target.0][target.1] == (p.proie_pred, births[0].reprod, births[0].faim)
        }),
{
    lemma_keep_kind_sound(p.nbrs(), after, 0);
    lemma_keep_kind_sound(p.nbrs(), after, 1);
}

} // verus!

verus! {

/// The cell that a creature moves to or gives birth on is the one the draw
/// picks in its list of cells: every cell of the list can be picked, and
/// different picks give different cells.
pub proof fn lemma_choice_picks_the_cell(p: ProiePredateur, before: Seq<Seq<Case>>, after: Seq<Seq<Case>>, catch_roll: int, i: int, j: int)
    requires
        p.move_list(after, catch_roll) is Some,
        p.update_ok(before, after, catch_roll, i),
        p.update_ok(before, after, catch_roll, j),
        !(p.proie_pred == 2 && p.faim >= AGE_FAMIN),
    ensures
        ({
            let l = p.move_list(after, catch_roll)->0;
            let b = p.update_spec(before, after, catch_roll, i).2;
            &&& b.len() == 1
            &&& (b[0].x as int, b[0].y as int) == l[i]
            &&& l[i] != l[j] ==> p.update_spec(before, after, catch_roll, j).2[0] != b[0]
        }),
{
    lemma_keep_kind_sound(p.nbrs(), after, 0);
    lemma_keep_kind_sound(p.nbrs(), after, 1);
    let l = p.move_list(after, catch_roll)->0;
    assert(p.nbrs().contains(l[i]) && p.nbrs().contains(l[j]));
    let wi = choose|w: int| 0 <= w < p.nbrs().len() && p.nbrs()[w] == l[i];
    let wj = choose|w: int| 0 <= w < p.nbrs().len() && p.nbrs()[w] == l[j];
    assert(p.nbrs()[wi] == (p.neighbours@[wi].0 as int, p.neighbours@[wi].1 as int));
    assert(p.nbrs()[wj] == (p.neighbours@[wj].0 as int, p.neighbours@[wj].1 as int));
}

} // verus!
