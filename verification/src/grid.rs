use vstd::prelude::*;

verus! {

/// A grid of cells, row by row, as a mathematical value.
pub open spec fn grid_view<T>(m: &Vec<Vec<T>>) -> Seq<Seq<T>> {
    m@.map_values(|r: Vec<T>| r@)
}

/// Whether `p` names a cell of `g`.
pub open spec fn in_bounds<T>(g: Seq<Seq<T>>, p: (int, int)) -> bool {
    0 <= p.0 < g.len() && 0 <= p.1 < g[p.0].len()
}

/// `g` with the cell at `(x, y)` replaced by `c`.
pub open spec fn set_cell<T>(g: Seq<Seq<T>>, x: int, y: int, c: T) -> Seq<Seq<T>> {
    g.update(x, g[x].update(y, c))
}

/// Replaces the cell at `(x, y)` of `m` by `c`.
pub fn set_grid_cell<T>(m: &mut Vec<Vec<T>>, x: usize, y: usize, c: T)
    requires
        in_bounds(grid_view(old(m)), (x as int, y as int)),
    ensures
        grid_view(final(m)) == set_cell(grid_view(old(m)), x as int, y as int, c),
{
    m[x].set(y, c);
    assert(grid_view(m) =~= set_cell(grid_view(old(m)), x as int, y as int, c));
}

} // verus!
