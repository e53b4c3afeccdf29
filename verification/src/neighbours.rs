use vstd::prelude::*;

verus! {

/// The eight neighbours of a cell, in the order north, south, east, west,
/// north-east, north-west, south-east, south-west: "north" and "south" move
/// along the first coordinate, "west" and "east" along the second.
pub open spec fn eight(
    n: (int, int), s: (int, int), e: (int, int), w: (int, int),
    ne: (int, int), nw: (int, int), se: (int, int), sw: (int, int),
) -> Seq<(int, int)> {
    seq![n, s, e, w, ne, nw, se, sw]
}

/// The neighbours of `(x, y)` on a `width` by `height` grid whose edges
/// wrap around (a torus).
pub open spec fn torus_neighbours(x: int, y: int, width: int, height: int) -> Seq<(int, int)> {
    let up = (x - 1) % width;
    let down = (x + 1) % width;
    let right = (y + 1) % height;
    let left = (y - 1) % height;
    eight((up, y), (down, y), (x, right), (x, left), (up, right), (up, left), (down, right), (down, left))
}

/// The neighbours that `neighbours_on_grid` computes, for any coordinates:
/// inside the grid they are the torus neighbours (see
/// `lemma_neighbours_on_torus`); outside it they follow the same case
/// analysis on the edges, and a point that meets no case gets eight times
/// `(0, 0)`.
pub open spec fn grid_neighbours(x: int, y: int, width: int, height: int) -> Seq<(int, int)> {
    if x > 0 && x < width - 1 && y > 0 && y < height - 1 {
        eight((x - 1, y), (x + 1, y), (x, y + 1), (x, y - 1), (x - 1, y + 1), (x - 1, y - 1), (x + 1, y + 1), (x + 1, y - 1))
    } else if x == 0 && y == 0 {
        eight((width - 1, y), (x + 1, y), (x, y + 1), (x, height - 1), (width - 1, y + 1), (width - 1, height - 1), (x + 1, y + 1), (x + 1, height - 1))
    } else if x == 0 && y < height - 1 {
        eight((width - 1, y), (x + 1, y), (x, y + 1), (x, y - 1), (width - 1, y + 1), (width - 1, y - 1), (x + 1, y + 1), (x + 1, y - 1))
    } else if x == width - 1 && y == 0 {
        eight((x - 1, y), (0, y), (x, y + 1), (x, height - 1), (x - 1, y + 1), (x - 1, height - 1), (0, y + 1), (0, height - 1))
    } else if x == width - 1 && y == height - 1 {
        eight((x - 1, y), (0, y), (x, 0), (x, y - 1), (x - 1, 0), (x - 1, y - 1), (0, 0), (0, y - 1))
    } else if y == 0 {
        eight((x - 1, y), (x + 1, y), (x, y + 1), (x, height - 1), (x - 1, y + 1), (x - 1, height - 1), (x + 1, y + 1), (x + 1, height - 1))
    } else if x == 0 && y == height - 1 {
        eight((width - 1, y), (x + 1, y), (x, 0), (x, y - 1), (width - 1, 0), (width - 1, y - 1), (x + 1, 0), (x + 1, y - 1))
    } else if y == height - 1 {
        eight((x - 1, y), (x + 1, y), (x, 0), (x, y - 1), (x - 1, 0), (x - 1, y - 1), (x + 1, 0), (x + 1, y - 1))
    } else if x == width - 1 {
        eight((x - 1, y), (0, y), (x, y + 1), (x, y - 1), (x - 1, y + 1), (x - 1, y - 1), (0, y + 1), (0, y - 1))
    } else {
        eight((0, 0), (0, 0), (0, 0), (0, 0), (0, 0), (0, 0), (0, 0), (0, 0))
    }
}

/// The pairs of `a`, read as mathematical integers.
pub open spec fn as_int_pairs(a: Seq<(i32, i32)>) -> Seq<(int, int)> {
    a.map_values(|p: (i32, i32)| (p.0 as int, p.1 as int))
}

/// The inputs on which the neighbour computation stays within `i32`: the
/// grid's sizes are always taken one from, and each case of the edge
/// analysis steps one away from the coordinates it moves along.
pub open spec fn neighbours_fit(x: int, y: int, width: int, height: int) -> bool {
    &&& i32::MIN < width
    &&& i32::MIN < height
    &&& if x > 0 && x < width - 1 && y > 0 && y < height - 1 {
        true
    } else if x == 0 && y == 0 {
        true
    } else if x == 0 && y < height - 1 {
        i32::MIN < y
    } else if x == width - 1 && y == 0 {
        i32::MIN < x
    } else if x == width - 1 && y == height - 1 {
        i32::MIN < x && i32::MIN < y
    } else if y == 0 {
        i32::MIN < x < i32::MAX
    } else if x == 0 && y == height - 1 {
        i32::MIN < y
    } else if y == height - 1 {
        i32::MIN < x < i32::MAX && i32::MIN < y
    } else if x == width - 1 {
        i32::MIN < x && i32::MIN < y < i32::MAX
    } else {
        true
    }
}

/// Whether `(x, y)` lies on a `width` by `height` grid.
pub open spec fn on_grid(x: int, y: int, width: int, height: int) -> bool {
    0 <= x < width && 0 <= y < height
}

/// The eight neighbours of `(x, y)` on a `width` by `height` grid whose
/// edges wrap around.
pub fn neighbours_on_grid(x: i32, y: i32, width: i32, height: i32) -> (nbrs: [(i32, i32); 8])
    requires
        neighbours_fit(x as int, y as int, width as int, height as int),
    ensures
        as_int_pairs(nbrs@) == grid_neighbours(x as int, y as int, width as int, height as int),
        2 <= width && 2 <= height && on_grid(x as int, y as int, width as int, height as int)
            ==> as_int_pairs(nbrs@) == torus_neighbours(x as int, y as int, width as int, height as int),
{
    let mut north = (0, 0);
    let mut south = (0, 0);
    let mut east = (0, 0);
    let mut west = (0, 0);
    let mut north_east = (0, 0);
    let mut north_west = (0, 0);
    let mut south_east = (0, 0);
    let mut south_west = (0, 0);
    if x > 0 && x < (width - 1) && y > 0 && y < (height - 1) {
        north = (x - 1, y);
        south = (x + 1, y);
        east = (x, y + 1);
        west = (x, y - 1);
        north_east = (x - 1, y + 1);
        north_west = (x - 1, y - 1);
        south_east = (x + 1, y + 1);
        south_west = (x + 1, y - 1);
    } else if x == 0 && y == 0 {
        north = (width - 1, y);
        south = (x + 1, y);
        east = (x, y + 1);
        west = (x, height - 1);
        south_east = (x + 1, y + 1);
        north_east = (width - 1, y + 1);
        north_west = (width - 1, height - 1);
        south_west = (x + 1, height - 1);
    } else if x == 0 && y < (height - 1) {
        north = (width - 1, y);
        south = (x + 1, y);
        east = (x, y + 1);
        west = (x, y - 1);
        south_east = (x + 1, y + 1);
        north_west = (width - 1, y - 1);
        north_east = (width - 1, y + 1);
        south_west = (x + 1, y - 1);
    } else if x == (width - 1) && y == 0 {
        north = (x - 1, y);
        south = (0, y);
        east = (x, y + 1);
        west = (x, height - 1);
        north_east = (x - 1, y + 1);
        north_west = (x - 1, height - 1);
        south_east = (0, y + 1);
        south_west = (0, height - 1);
    } else if x == (width - 1) && y == (height - 1) {
        north = (x - 1, y);
        west = (x, y - 1);
        north_west = (x - 1, y - 1);
        south = (0, y);
        east = (x, 0);
        north_east = (x - 1, 0);
        south_east = (0, 0);
        south_west = (0, y - 1);
    } else if y == 0 {
        north = (x - 1, y);
        south = (x + 1, y);
        east = (x, y + 1);
        north_east = (x - 1, y + 1);
        south_east = (x + 1, y + 1);
        west = (x, height - 1);
        north_west = (x - 1, height - 1);
        south_west = (x + 1, height - 1);
    } else if x == 0 && y == (height - 1) {
        north = (width - 1, y);
        south = (x + 1, y);
        east = (x, 0);
        west = (x, y - 1);
        north_east = (width - 1, 0);
        north_west = (width - 1, y - 1);
        south_east = (x + 1, 0);
        south_west = (x + 1, y - 1);
    } else if y == (height - 1) {
        north = (x - 1, y);
        south = (x + 1, y);
        east = (x, 0);
        west = (x, y - 1);
        north_east = (x - 1, 0);
        north_west = (x - 1, y - 1);
        south_east = (x + 1, 0);
        south_west = (x + 1, y - 1);
    } else if x == (width - 1) {
        north = (x - 1, y);
        south = (0, y);
        east = (x, y + 1);
        west = (x, y - 1);
        north_east = (x - 1, y + 1);
        north_west = (x - 1, y - 1);
        south_east = (0, y + 1);
        south_west = (0, y - 1);
    }
    let nbrs = [north, south, east, west, north_east, north_west, south_east, south_west];
    assert(as_int_pairs(nbrs@) =~= grid_neighbours(x as int, y as int, width as int, height as int));
    proof {
        if 2 <= width && 2 <= height && on_grid(x as int, y as int, width as int, height as int) {
            lemma_neighbours_on_torus(x as int, y as int, width as int, height as int);
        }
    }
    nbrs
}

proof fn lemma_wrap(v: int, m: int)
    requires
        2 <= m,
        0 <= v < m,
    ensures
        (v - 1) % m == if v == 0 { m - 1 } else { v - 1 },
        (v + 1) % m == if v == m - 1 { 0 } else { v + 1 },
{
    if v == 0 {
        assert((-1int) % m == m - 1) by (nonlinear_arith)
            requires
                2 <= m,
        ;
    } else {
        assert((v - 1) % m == v - 1) by (nonlinear_arith)
            requires
                1 <= v < m,
        ;
    }
    if v == m - 1 {
        assert((v + 1) % m == 0) by (nonlinear_arith)
            requires
                v + 1 == m,
                2 <= m,
        ;
    } else {
        assert((v + 1) % m == v + 1) by (nonlinear_arith)
            requires
                0 <= v + 1 < m,
        ;
    }
}

/// On a grid of at least two rows and two columns, the neighbours of a cell
/// of the grid are its eight neighbours on the torus.
pub proof fn lemma_neighbours_on_torus(x: int, y: int, width: int, height: int)
    requires
        2 <= width,
        2 <= height,
        on_grid(x, y, width, height),
    ensures
        grid_neighbours(x, y, width, height) == torus_neighbours(x, y, width, height),
{
    lemma_wrap(x, width);
    lemma_wrap(y, height);
    assert(grid_neighbours(x, y, width, height) =~= torus_neighbours(x, y, width, height));
}

} // verus!
