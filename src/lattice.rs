//! The spin lattice: a grid of spins on a torus, with a table of each
//! cell's four neighbours computed once at construction.

use crate::grid::{grid_cells, grid_dim, grid_from_cells, grid_get, grid_set, SpinGrid};
use crate::random::{choose_one, draw_below, try_entropy_rng};
use rand::rngs::SmallRng;
use vstd::arithmetic::div_mod::{
    lemma_div_pos_is_pos, lemma_fundamental_div_mod, lemma_fundamental_div_mod_converse,
    lemma_mod_add_multiples_vanish, lemma_mod_pos_bound, lemma_mod_self_0,
    lemma_multiply_divide_lt, lemma_small_mod,
};
use vstd::prelude::*;

verus! {

/// The largest number of spins a lattice holds, so that twice the count fits
/// in an `i64` energy. No vector of `i32` spins can be longer.
pub const MAX_SPINS: usize = usize::MAX / 4;

/// Index of the right neighbour `[i + 1, j]` in a neighbour table entry.
pub const RIGHT: usize = 0;

/// Index of the bottom neighbour `[i, j + 1]` in a neighbour table entry.
pub const BOTTOM: usize = 1;

/// Index of the left neighbour `[i - 1, j]` in a neighbour table entry.
pub const LEFT: usize = 2;

/// Index of the top neighbour `[i, j - 1]` in a neighbour table entry.
pub const TOP: usize = 3;

/// Why a lattice operation was refused.
#[derive(Clone, Copy, Debug, PartialEq, Eq, Structural)]
pub enum LatticeError {
    /// A dimension is zero, the spins outnumber `MAX_SPINS`, or the number of
    /// cells given is not width times height.
    InvalidShape,
    /// A cell holds a value other than `-1` or `1`.
    InvalidSpinValue,
    /// A coordinate is not below its dimension.
    IndexOutOfBounds,
    /// The operating system could not seed a random generator.
    EntropyUnavailable,
}

/// A spin is `-1` or `1`.
pub open spec fn is_spin(s: i32) -> bool {
    s == 1 || s == -1
}

/// Every cell holds a spin.
pub open spec fn all_spins(s: Seq<i32>) -> bool {
    forall|k: int| 0 <= k < s.len() ==> is_spin(#[trigger] s[k])
}

/// A `width` by `height` lattice can be built.
pub open spec fn valid_shape(width: int, height: int) -> bool {
    0 < width && 0 < height && width * height <= MAX_SPINS
}

/// The coordinate after `x` on a ring of `n` places.
pub open spec fn wrap_forward(x: int, n: int) -> int {
    (x + 1) % n
}

/// The coordinate before `x` on a ring of `n` places.
pub open spec fn wrap_back(x: int, n: int) -> int {
    (x + n - 1) % n
}

/// The neighbour of cell `[i, j]` in direction `d` (`RIGHT`, `BOTTOM`, `LEFT`
/// or `TOP`) on a `w` by `h` torus.
pub open spec fn torus_neighbor(i: int, j: int, w: int, h: int, d: int) -> (int, int) {
    if d == RIGHT {
        (wrap_forward(i, w), j)
    } else if d == BOTTOM {
        (i, wrap_forward(j, h))
    } else if d == LEFT {
        (wrap_back(i, w), j)
    } else {
        (i, wrap_back(j, h))
    }
}

/// The spins `s` with the one at position `k` negated.
pub open spec fn flip_at(s: Seq<i32>, k: int) -> Seq<i32> {
    s.update(k, (-s[k]) as i32)
}

/// The sum of the values of `s`.
pub open spec fn seq_sum(s: Seq<i32>) -> int
    decreases s.len(),
{
    if s.len() == 0 {
        0
    } else {
        seq_sum(s.drop_last()) + s.last()
    }
}

/// The absolute value of `x`.
pub open spec fn abs(x: int) -> int {
    if x < 0 {
        -x
    } else {
        x
    }
}

/// A grid of spins on a torus: cells on opposite edges are neighbours.
///
/// Cell `[i, j]` has `i` below the width and `j` below the height; its
/// right neighbour is `[i + 1, j]` and its bottom neighbour `[i, j + 1]`.
pub struct Lattice {
    dims: [usize; 2],
    n_of_spins: usize,
    inner: SpinGrid,
    // one entry per cell in row-major order; a `Vec` keeps the table in
    // verified code, where the spins need the opaque `SpinGrid`
    neighbors: Vec<[[usize; 2]; 4]>,
}

impl Lattice {
    /// The first dimension.
    pub closed spec fn width(&self) -> int {
        self.dims[0] as int
    }

    /// The second dimension.
    pub closed spec fn height(&self) -> int {
        self.dims[1] as int
    }

    /// The spins in row-major order.
    pub closed spec fn spins(&self) -> Seq<i32> {
        grid_cells(self.inner)
    }

    /// The entry of the neighbour table for cell `[i, j]` in direction `d`.
    pub closed spec fn neighbor(&self, i: int, j: int, d: int) -> (int, int) {
        let e = self.neighbors@[i * self.height() + j][d];
        (e[0] as int, e[1] as int)
    }

    /// The lattice's invariant: a valid shape, only spins in the grid, and a
    /// neighbour table that agrees with the torus.
    pub closed spec fn wf(&self) -> bool {
        let w = self.width();
        let h = self.height();
        &&& valid_shape(w, h)
        &&& self.n_of_spins as int == w * h
        &&& grid_dim(self.inner) == (self.dims[0], self.dims[1])
        &&& grid_cells(self.inner).len() == w * h
        &&& all_spins(grid_cells(self.inner))
        &&& self.neighbors@.len() == w * h
        &&& forall|k: int, d: int|
            0 <= k < w * h && 0 <= d < 4 ==> {
                let e = #[trigger] self.neighbors@[k][d];
                (e[0] as int, e[1] as int) == torus_neighbor(k / h, k % h, w, h, d)
            }
    }

    /// The position of cell `[i, j]` in `spins()`.
    pub open spec fn cell(&self, i: int, j: int) -> int {
        i * self.height() + j
    }

    /// `ix` names a cell of the lattice.
    pub open spec fn in_bounds(&self, ix: [usize; 2]) -> bool {
        ix[0] < self.width() && ix[1] < self.height()
    }

    /// The spin at cell `[i, j]`.
    pub open spec fn spin(&self, i: int, j: int) -> int {
        self.spins()[self.cell(i, j)] as int
    }

    /// The spin of the neighbour of `[i, j]` in direction `d`.
    pub open spec fn spin_toward(&self, i: int, j: int, d: int) -> int {
        let n = torus_neighbor(i, j, self.width(), self.height(), d);
        self.spin(n.0, n.1)
    }

    /// The spin at `[i, j]` times the sum of its four neighbours' spins.
    pub open spec fn local_term(&self, i: int, j: int) -> int {
        self.spin(i, j) * (self.spin_toward(i, j, RIGHT as int) + self.spin_toward(
            i,
            j,
            BOTTOM as int,
        ) + self.spin_toward(i, j, LEFT as int) + self.spin_toward(i, j, TOP as int))
    }

    /// The spin at `[i, j]` times the sum of its right and bottom neighbours'
    /// spins: the two bonds that this cell owns.
    pub open spec fn forward_term(&self, i: int, j: int) -> int {
        self.spin(i, j) * (self.spin_toward(i, j, RIGHT as int) + self.spin_toward(
            i,
            j,
            BOTTOM as int,
        ))
    }

    /// The sum of `forward_term` over the first `n` cells in row-major order.
    pub open spec fn bond_sum(&self, n: int) -> int
        decreases n,
    {
        if n <= 0 {
            0
        } else {
            self.bond_sum(n - 1) + self.forward_term((n - 1) / self.height(), (n - 1) % self.height())
        }
    }

    /// The energy of the lattice: minus the sum over every bond of the product
    /// of its two spins, each bond counted once.
    pub open spec fn total_energy(&self) -> int {
        -self.bond_sum(self.width() * self.height())
    }

    /// The sum of all spins.
    pub open spec fn spin_sum(&self) -> int {
        seq_sum(self.spins())
    }
}

/// Cell `[i, j]` of a `w` by `h` grid stands at `i * h + j` in row-major order.
proof fn lemma_cell_index(i: int, j: int, w: int, h: int)
    requires
        0 <= i < w,
        0 <= j < h,
    ensures
        0 <= i * h + j < w * h,
        (i * h + j) / h == i,
        (i * h + j) % h == j,
{
    assert(0 <= i * h + j < w * h) by (nonlinear_arith)
        requires
            0 <= i < w,
            0 <= j < h,
    ;
    lemma_fundamental_div_mod_converse(i * h + j, h, i, j);
}

/// Position `k` of a `w` by `h` grid in row-major order is cell `[k / h, k % h]`.
proof fn lemma_cell_coords(k: int, w: int, h: int)
    requires
        0 <= k < w * h,
        0 < h,
    ensures
        0 <= k / h < w,
        0 <= k % h < h,
        (k / h) * h + k % h == k,
{
    lemma_fundamental_div_mod(k, h);
    lemma_mod_pos_bound(k, h);
    lemma_div_pos_is_pos(k, h);
    assert(k < h * w) by (nonlinear_arith)
        requires
            k < w * h,
    ;
    lemma_multiply_divide_lt(k, h, w);
    assert((k / h) * h == h * (k / h)) by (nonlinear_arith);
}

/// The exec form of `wrap_forward`.
fn next_on_ring(x: usize, n: usize) -> (r: usize)
    requires
        x < n,
    ensures
        r == wrap_forward(x as int, n as int),
        r < n,
{
    if x + 1 == n {
        proof {
            lemma_mod_self_0(n as int);
        }
        0
    } else {
        proof {
            lemma_small_mod((x + 1) as nat, n as nat);
        }
        x + 1
    }
}

/// The exec form of `wrap_back`.
fn prev_on_ring(x: usize, n: usize) -> (r: usize)
    requires
        x < n,
    ensures
        r == wrap_back(x as int, n as int),
        r < n,
{
    if x == 0 {
        proof {
            lemma_small_mod((n - 1) as nat, n as nat);
        }
        n - 1
    } else {
        proof {
            lemma_mod_add_multiples_vanish(x - 1, n as int);
            lemma_small_mod((x - 1) as nat, n as nat);
        }
        x - 1
    }
}

/// The four neighbours of `[i, j]` on a `w` by `h` torus, in the order right,
/// bottom, left, top.
fn neighbors_at(i: usize, j: usize, w: usize, h: usize) -> (r: [[usize; 2]; 4])
    requires
        i < w,
        j < h,
    ensures
        forall|d: int|
            0 <= d < 4 ==> (#[trigger] r[d][0] as int, r[d][1] as int) == torus_neighbor(
                i as int,
                j as int,
                w as int,
                h as int,
                d,
            ),
        forall|d: int| 0 <= d < 4 ==> #[trigger] r[d][0] < w && r[d][1] < h,
{
    [
        [next_on_ring(i, w), j],
        [i, next_on_ring(j, h)],
        [prev_on_ring(i, w), j],
        [i, prev_on_ring(j, h)],
    ]
}

/// The neighbour table of a `w` by `h` torus, one entry per cell in
/// row-major order.
fn build_neighbors(w: usize, h: usize) -> (r: Vec<[[usize; 2]; 4]>)
    requires
        valid_shape(w as int, h as int),
    ensures
        r@.len() == w * h,
        forall|k: int, d: int|
            0 <= k < w * h && 0 <= d < 4 ==> {
                let e = #[trigger] r@[k][d];
                (e[0] as int, e[1] as int) == torus_neighbor(
                    k / h as int,
                    k % h as int,
                    w as int,
                    h as int,
                    d,
                )
            },
{
    let n: usize = w * h;
    let mut table: Vec<[[usize; 2]; 4]> = Vec::new();
    let mut k: usize = 0;
    while k < n
        invariant
            n == w * h,
            valid_shape(w as int, h as int),
            k <= n,
            table@.len() == k,
            forall|m: int, d: int|
                0 <= m < k && 0 <= d < 4 ==> {
                    let e = #[trigger] table@[m][d];
                    (e[0] as int, e[1] as int) == torus_neighbor(
                        m / h as int,
                        m % h as int,
                        w as int,
                        h as int,
                        d,
                    )
                },
        decreases n - k,
    {
        proof {
            lemma_cell_coords(k as int, w as int, h as int);
        }
        let entry = neighbors_at(k / h, k % h, w, h);
        table.push(entry);
        k += 1;
    }
    table
}

/// The number of cells of a `width` by `height` lattice, or `None` when no
/// such lattice can be built.
fn spin_count(width: usize, height: usize) -> (r: Option<usize>)
    ensures
        r is Some <==> valid_shape(width as int, height as int),
        r matches Some(n) ==> n == width * height,
{
    if width == 0 || height == 0 {
        return None;
    }
    match width.checked_mul(height) {
        Some(n) => if n > MAX_SPINS {
            None
        } else {
            Some(n)
        },
        None => None,
    }
}

/// The shape `width` by `height` with `len` cells can hold a lattice.
pub open spec fn shape_fits(width: int, height: int, len: int) -> bool {
    valid_shape(width, height) && len == width * height
}

impl Lattice {
    /// Builds a lattice from the spins of a `shape.0` by `shape.1` grid given
    /// in row-major order (cell `[i, j]` at `i * shape.1 + j`).
    ///
    /// Fails with `InvalidShape` when a dimension is zero, the spins would
    /// outnumber `MAX_SPINS`, or `cells` does not hold one value per cell;
    /// otherwise with `InvalidSpinValue` when a cell is neither `-1` nor `1`.
    pub fn from_array(shape: (usize, usize), cells: Vec<i32>) -> (r: Result<Lattice, LatticeError>)
        ensures
            r is Ok <==> shape_fits(shape.0 as int, shape.1 as int, cells@.len() as int)
                && all_spins(cells@),
            r == Err::<Lattice, LatticeError>(LatticeError::InvalidShape) <==> !shape_fits(
                shape.0 as int,
                shape.1 as int,
                cells@.len() as int,
            ),
            r == Err::<Lattice, LatticeError>(LatticeError::InvalidSpinValue) <==> shape_fits(
                shape.0 as int,
                shape.1 as int,
                cells@.len() as int,
            ) && !all_spins(cells@),
            r matches Ok(l) ==> {
                &&& l.wf()
                &&& l.width() == shape.0
                &&& l.height() == shape.1
                &&& l.spins() == cells@
            },
    {
        let (width, height) = shape;
        let n: usize = match spin_count(width, height) {
            Some(n) => n,
            None => {
                return Err(LatticeError::InvalidShape);
            },
        };
        if cells.len() != n {
            return Err(LatticeError::InvalidShape);
        }
        let mut k: usize = 0;
        while k < n
            invariant
                k <= n,
                shape == (width, height),
                n == width * height,
                n <= MAX_SPINS,
                0 < width,
                0 < height,
                cells@.len() == n,
                forall|m: int| 0 <= m < k ==> is_spin(#[trigger] cells@[m]),
            decreases n - k,
        {
            if cells[k] != 1 && cells[k] != -1 {
                assert(!is_spin(cells@[k as int]));
                return Err(LatticeError::InvalidSpinValue);
            }
            k += 1;
        }
        let neighbors = build_neighbors(width, height);
        let inner = grid_from_cells(width, height, cells);
        Ok(Lattice { dims: [width, height], n_of_spins: n, inner, neighbors })
    }

    /// Builds a `dims[0]` by `dims[1]` lattice whose spins are drawn uniformly
    /// from `-1` and `1` with `rng`.
    ///
    /// Fails with `InvalidShape` when a dimension is zero or the spins would
    /// outnumber `MAX_SPINS`.
    pub fn new_with_rng(dims: [usize; 2], rng: &mut SmallRng) -> (r: Result<Lattice, LatticeError>)
        ensures
            r is Ok <==> valid_shape(dims[0] as int, dims[1] as int),
            r matches Err(e) ==> e == LatticeError::InvalidShape,
            r matches Ok(l) ==> l.wf() && l.width() == dims[0] && l.height() == dims[1],
    {
        let width = dims[0];
        let height = dims[1];
        let n: usize = match spin_count(width, height) {
            Some(n) => n,
            None => {
                return Err(LatticeError::InvalidShape);
            },
        };
        let choices: [i32; 2] = [-1, 1];
        let mut cells: Vec<i32> = Vec::new();
        let mut k: usize = 0;
        while k < n
            invariant
                k <= n,
                choices@ == seq![-1i32, 1i32],
                cells@.len() == k,
                all_spins(cells@),
            decreases n - k,
        {
            let s = choose_one(rng, &choices);
            cells.push(s);
            k += 1;
        }
        Lattice::from_array((width, height), cells)
    }

    /// Builds a `dims[0]` by `dims[1]` lattice of random spins, with a
    /// generator seeded by the operating system.
    ///
    /// Fails with `InvalidShape` when a dimension is zero or the spins would
    /// outnumber `MAX_SPINS`; otherwise with `EntropyUnavailable` when the
    /// system cannot supply a seed.
    pub fn new(dims: [usize; 2]) -> (r: Result<Lattice, LatticeError>)
        ensures
            !valid_shape(dims[0] as int, dims[1] as int) ==> r == Err::<Lattice, LatticeError>(
                LatticeError::InvalidShape,
            ),
            valid_shape(dims[0] as int, dims[1] as int) ==> r is Ok || r == Err::<
                Lattice,
                LatticeError,
            >(LatticeError::EntropyUnavailable),
            r matches Ok(l) ==> l.wf() && l.width() == dims[0] && l.height() == dims[1],
    {
        if spin_count(dims[0], dims[1]).is_none() {
            return Err(LatticeError::InvalidShape);
        }
        match try_entropy_rng() {
            Some(mut rng) => Lattice::new_with_rng(dims, &mut rng),
            None => Err(LatticeError::EntropyUnavailable),
        }
    }

    /// The dimensions `[width, height]`.
    pub fn dims(&self) -> (r: [usize; 2])
        ensures
            r[0] == self.width(),
            r[1] == self.height(),
    {
        self.dims
    }
}

/// Each neighbour of a cell of a `w` by `h` torus lies on the torus.
proof fn lemma_torus_neighbor_in_range(i: int, j: int, w: int, h: int)
    requires
        0 <= i < w,
        0 <= j < h,
    ensures
        forall|d: int|
            0 <= d < 4 ==> {
                let n = #[trigger] torus_neighbor(i, j, w, h, d);
                0 <= n.0 < w && 0 <= n.1 < h
            },
{
    lemma_mod_pos_bound(i + 1, w);
    lemma_mod_pos_bound(i + w - 1, w);
    lemma_mod_pos_bound(j + 1, h);
    lemma_mod_pos_bound(j + h - 1, h);
}

/// A sequence of spins sums to at most its length in absolute value.
proof fn lemma_seq_sum_bounded(s: Seq<i32>)
    requires
        all_spins(s),
    ensures
        abs(seq_sum(s)) <= s.len(),
    decreases s.len(),
{
    if s.len() > 0 {
        assert(all_spins(s.drop_last())) by {
            assert forall|k: int| 0 <= k < s.drop_last().len() implies is_spin(
                #[trigger] s.drop_last()[k],
            ) by {
                assert(s.drop_last()[k] == s[k]);
            }
        }
        assert(is_spin(s[s.len() - 1]));
        lemma_seq_sum_bounded(s.drop_last());
    }
}

/// Summing one more element of `s` adds that element.
proof fn lemma_seq_sum_take(s: Seq<i32>, k: int)
    requires
        0 <= k < s.len(),
    ensures
        seq_sum(s.take(k + 1)) == seq_sum(s.take(k)) + s[k],
{
    assert(s.take(k + 1).drop_last() =~= s.take(k));
}

impl Lattice {
    /// The neighbour table entry of each cell is its neighbour on the torus.
    pub proof fn lemma_neighbor_table(&self, i: int, j: int)
        requires
            self.wf(),
            0 <= i < self.width(),
            0 <= j < self.height(),
        ensures
            forall|d: int|
                0 <= d < 4 ==> #[trigger] self.neighbor(i, j, d) == torus_neighbor(
                    i,
                    j,
                    self.width(),
                    self.height(),
                    d,
                ),
            forall|d: int|
                0 <= d < 4 ==> 0 <= (#[trigger] self.neighbor(i, j, d)).0 < self.width() && 0
                    <= self.neighbor(i, j, d).1 < self.height(),
    {
        let w = self.width();
        let h = self.height();
        lemma_cell_index(i, j, w, h);
        lemma_torus_neighbor_in_range(i, j, w, h);
        assert forall|d: int| 0 <= d < 4 implies #[trigger] self.neighbor(i, j, d) == torus_neighbor(
            i,
            j,
            w,
            h,
            d,
        ) by {
            let e = self.neighbors@[i * h + j][d];
        }
    }

    /// A well-formed lattice has a valid shape and holds one spin, `-1` or
    /// `1`, per cell.
    pub proof fn lemma_wf_spins(&self)
        requires
            self.wf(),
        ensures
            valid_shape(self.width(), self.height()),
            self.spins().len() == self.width() * self.height(),
            all_spins(self.spins()),
    {
    }

    /// Every spin of a well-formed lattice is `-1` or `1`.
    proof fn lemma_spin_value(&self, i: int, j: int)
        requires
            self.wf(),
            0 <= i < self.width(),
            0 <= j < self.height(),
        ensures
            self.spin(i, j) == 1 || self.spin(i, j) == -1,
            0 <= self.cell(i, j) < self.spins().len(),
    {
        lemma_cell_index(i, j, self.width(), self.height());
        assert(is_spin(self.spins()[i * self.height() + j]));
    }

    /// The spin at `[i, j]`, for a cell known to exist.
    fn spin_unchecked(&self, i: usize, j: usize) -> (r: i32)
        requires
            self.wf(),
            i < self.width(),
            j < self.height(),
        ensures
            r == self.spin(i as int, j as int),
            r == 1 || r == -1,
    {
        proof {
            lemma_cell_index(i as int, j as int, self.width(), self.height());
            self.lemma_spin_value(i as int, j as int);
        }
        grid_get(&self.inner, i, j)
    }

    /// The spin of the neighbour of `[i, j]` in direction `d`, read through
    /// the neighbour table.
    fn neighbor_spin(&self, i: usize, j: usize, d: usize) -> (r: i32)
        requires
            self.wf(),
            i < self.width(),
            j < self.height(),
            d < 4,
        ensures
            r == self.spin_toward(i as int, j as int, d as int),
            r == 1 || r == -1,
    {
        proof {
            lemma_cell_index(i as int, j as int, self.width(), self.height());
            self.lemma_neighbor_table(i as int, j as int);
        }
        let k: usize = i * self.dims[1] + j;
        let entry: [[usize; 2]; 4] = self.neighbors[k];
        let n: [usize; 2] = entry[d];
        proof {
            assert(self.neighbor(i as int, j as int, d as int) == (n[0] as int, n[1] as int));
        }
        self.spin_unchecked(n[0], n[1])
    }

    /// The spin at `[i, j]` times the sum of its four neighbours' spins.
    pub(crate) fn local_term_at(&self, i: usize, j: usize) -> (r: i32)
        requires
            self.wf(),
            i < self.width(),
            j < self.height(),
        ensures
            r == self.local_term(i as int, j as int),
            -4 <= r <= 4,
    {
        let s = self.spin_unchecked(i, j);
        let sum = self.neighbor_spin(i, j, RIGHT) + self.neighbor_spin(i, j, BOTTOM)
            + self.neighbor_spin(i, j, LEFT) + self.neighbor_spin(i, j, TOP);
        assert(-4 <= s * sum <= 4) by (nonlinear_arith)
            requires
                s == 1 || s == -1,
                -4 <= sum <= 4,
        ;
        s * sum
    }

    /// The spin at `[i, j]` times the sum of its right and bottom neighbours'
    /// spins.
    fn spin_times_two_neighbors(&self, i: usize, j: usize) -> (r: i32)
        requires
            self.wf(),
            i < self.width(),
            j < self.height(),
        ensures
            r == self.forward_term(i as int, j as int),
            -2 <= r <= 2,
    {
        let s = self.spin_unchecked(i, j);
        let sum = self.neighbor_spin(i, j, RIGHT) + self.neighbor_spin(i, j, BOTTOM);
        assert(-2 <= s * sum <= 2) by (nonlinear_arith)
            requires
                s == 1 || s == -1,
                -2 <= sum <= 2,
        ;
        s * sum
    }

    /// The spins in row-major order: cell `[i, j]` at `i * height + j`.
    pub fn inner(&self) -> (r: Vec<i32>)
        requires
            self.wf(),
        ensures
            r@ == self.spins(),
    {
        let w = self.dims[0];
        let h = self.dims[1];
        let n: usize = w * h;
        let mut cells: Vec<i32> = Vec::new();
        let mut k: usize = 0;
        while k < n
            invariant
                self.wf(),
                w == self.width(),
                h == self.height(),
                n == w * h,
                k <= n,
                cells@ == self.spins().take(k as int),
            decreases n - k,
        {
            proof {
                lemma_cell_coords(k as int, w as int, h as int);
            }
            let s = self.spin_unchecked(k / h, k % h);
            cells.push(s);
            k += 1;
            proof {
                assert(cells@ =~= self.spins().take(k as int));
            }
        }
        proof {
            assert(self.spins().take(n as int) =~= self.spins());
        }
        cells
    }

    /// The spin at cell `ix`.
    pub fn spin_at(&self, ix: [usize; 2]) -> (r: Result<i32, LatticeError>)
        requires
            self.wf(),
        ensures
            match r {
                Ok(s) => self.in_bounds(ix) && s == self.spin(ix[0] as int, ix[1] as int),
                Err(e) => !self.in_bounds(ix) && e == LatticeError::IndexOutOfBounds,
            },
    {
        if ix[0] >= self.dims[0] || ix[1] >= self.dims[1] {
            return Err(LatticeError::IndexOutOfBounds);
        }
        Ok(self.spin_unchecked(ix[0], ix[1]))
    }

    /// The neighbour table entry of cell `ix`: its right, bottom, left and top
    /// neighbours, in that order.
    pub fn neighbors_of(&self, ix: [usize; 2]) -> (r: Result<[[usize; 2]; 4], LatticeError>)
        requires
            self.wf(),
        ensures
            match r {
                Ok(t) => {
                    &&& self.in_bounds(ix)
                    &&& forall|d: int|
                        0 <= d < 4 ==> {
                            let n = (#[trigger] t[d][0] as int, t[d][1] as int);
                            &&& n == self.neighbor(ix[0] as int, ix[1] as int, d)
                            &&& n == torus_neighbor(
                                ix[0] as int,
                                ix[1] as int,
                                self.width(),
                                self.height(),
                                d,
                            )
                        }
                },
                Err(e) => !self.in_bounds(ix) && e == LatticeError::IndexOutOfBounds,
            },
    {
        if ix[0] >= self.dims[0] || ix[1] >= self.dims[1] {
            return Err(LatticeError::IndexOutOfBounds);
        }
        proof {
            lemma_cell_index(ix[0] as int, ix[1] as int, self.width(), self.height());
            self.lemma_neighbor_table(ix[0] as int, ix[1] as int);
        }
        let k: usize = ix[0] * self.dims[1] + ix[1];
        Ok(self.neighbors[k])
    }

    /// The spin at `ix` times the sum of its four neighbours' spins.
    pub fn spin_times_all_neighbors(&self, ix: [usize; 2]) -> (r: Result<i32, LatticeError>)
        requires
            self.wf(),
        ensures
            match r {
                Ok(v) => self.in_bounds(ix) && v == self.local_term(ix[0] as int, ix[1] as int),
                Err(e) => !self.in_bounds(ix) && e == LatticeError::IndexOutOfBounds,
            },
    {
        if ix[0] >= self.dims[0] || ix[1] >= self.dims[1] {
            return Err(LatticeError::IndexOutOfBounds);
        }
        Ok(self.local_term_at(ix[0], ix[1]))
    }

    /// The change of energy that flipping the spin at `ix` would cause,
    /// without flipping it: twice the spin times the sum of its neighbours.
    pub fn measure_E_diff(&self, ix: [usize; 2]) -> (r: Result<i32, LatticeError>)
        requires
            self.wf(),
        ensures
            match r {
                Ok(v) => self.in_bounds(ix) && v == 2 * self.local_term(ix[0] as int, ix[1] as int),
                Err(e) => !self.in_bounds(ix) && e == LatticeError::IndexOutOfBounds,
            },
    {
        if ix[0] >= self.dims[0] || ix[1] >= self.dims[1] {
            return Err(LatticeError::IndexOutOfBounds);
        }
        Ok(2 * self.local_term_at(ix[0], ix[1]))
    }

    /// The energy of the lattice: minus the sum, over every cell, of its spin
    /// times the spins of its right and bottom neighbours.
    pub fn measure_E(&self) -> (r: i64)
        requires
            self.wf(),
        ensures
            r == self.total_energy(),
    {
        let w = self.dims[0];
        let h = self.dims[1];
        let n: usize = w * h;
        let mut sum: i64 = 0;
        let mut k: usize = 0;
        while k < n
            invariant
                self.wf(),
                w == self.width(),
                h == self.height(),
                n == w * h,
                n <= MAX_SPINS,
                k <= n,
                sum == self.bond_sum(k as int),
                -2 * k <= sum <= 2 * k,
            decreases n - k,
        {
            proof {
                lemma_cell_coords(k as int, w as int, h as int);
            }
            let t = self.spin_times_two_neighbors(k / h, k % h);
            sum = sum + t as i64;
            k += 1;
        }
        -sum
    }

    /// The magnetization as the fraction `(|sum of spins|, number of spins)`,
    /// which lies in `[0, 1]`.
    pub fn magnetization_ratio(&self) -> (r: (u64, u64))
        requires
            self.wf(),
        ensures
            r.0 == abs(self.spin_sum()),
            r.1 == self.width() * self.height(),
            0 <= r.0 <= r.1,
            0 < r.1,
    {
        let w = self.dims[0];
        let h = self.dims[1];
        let n: usize = w * h;
        let mut sum: i64 = 0;
        let mut k: usize = 0;
        while k < n
            invariant
                self.wf(),
                w == self.width(),
                h == self.height(),
                n == w * h,
                n <= MAX_SPINS,
                k <= n,
                sum == seq_sum(self.spins().take(k as int)),
                -k <= sum <= k,
            decreases n - k,
        {
            proof {
                lemma_cell_coords(k as int, w as int, h as int);
                lemma_seq_sum_take(self.spins(), k as int);
            }
            let s = self.spin_unchecked(k / h, k % h);
            sum = sum + s as i64;
            k += 1;
        }
        proof {
            assert(self.spins().take(n as int) =~= self.spins());
            lemma_seq_sum_bounded(self.spins());
            assert(0 < w * h) by (nonlinear_arith)
                requires
                    0 < w,
                    0 < h,
            ;
        }
        let a: i64 = if sum < 0 {
            -sum
        } else {
            sum
        };
        (a as u64, self.n_of_spins as u64)
    }

    /// Negates the spin at `ix`; the neighbour table is left as it is.
    pub fn flip_spin(&mut self, ix: [usize; 2]) -> (r: Result<(), LatticeError>)
        requires
            old(self).wf(),
        ensures
            final(self).wf(),
            final(self).width() == old(self).width(),
            final(self).height() == old(self).height(),
            match r {
                Ok(_) => old(self).in_bounds(ix) && final(self).spins() == flip_at(
                    old(self).spins(),
                    old(self).cell(ix[0] as int, ix[1] as int),
                ),
                Err(e) => !old(self).in_bounds(ix) && e == LatticeError::IndexOutOfBounds
                    && *final(self) == *old(self),
            },
    {
        if ix[0] >= self.dims[0] || ix[1] >= self.dims[1] {
            return Err(LatticeError::IndexOutOfBounds);
        }
        let s = self.spin_unchecked(ix[0], ix[1]);
        proof {
            lemma_cell_index(ix[0] as int, ix[1] as int, self.width(), self.height());
        }
        grid_set(&mut self.inner, ix[0], ix[1], -s);
        proof {
            let k = ix[0] * self.height() + ix[1];
            assert forall|m: int| 0 <= m < grid_cells(self.inner).len() implies is_spin(
                #[trigger] grid_cells(self.inner)[m],
            ) by {
                if m != k {
                    assert(grid_cells(self.inner)[m] == old(self).spins()[m]);
                }
            }
        }
        Ok(())
    }

    /// A cell drawn uniformly with `rng`.
    pub fn gen_random_index(&mut self, rng: &mut SmallRng) -> (r: [usize; 2])
        requires
            old(self).wf(),
        ensures
            *final(self) == *old(self),
            final(self).in_bounds(r),
    {
        [draw_below(rng, self.dims[0]), draw_below(rng, self.dims[1])]
    }
}

/// Stepping forward and then back on a ring, or back and then forward,
/// returns to the start.
proof fn lemma_wrap_inverse(x: int, n: int)
    requires
        0 <= x < n,
    ensures
        wrap_forward(wrap_back(x, n), n) == x,
        wrap_back(wrap_forward(x, n), n) == x,
{
    if x == 0 {
        lemma_small_mod((n - 1) as nat, n as nat);
        lemma_mod_self_0(n);
    } else {
        lemma_mod_add_multiples_vanish(x - 1, n);
        lemma_small_mod((x - 1) as nat, n as nat);
        lemma_small_mod(x as nat, n as nat);
    }
    if x + 1 == n {
        lemma_mod_self_0(n);
        lemma_small_mod((n - 1) as nat, n as nat);
    } else {
        lemma_small_mod((x + 1) as nat, n as nat);
        lemma_mod_add_multiples_vanish(x, n);
        lemma_small_mod(x as nat, n as nat);
    }
}

/// The neighbour table is symmetric on the torus: from any cell, the right
/// neighbour of its left neighbour, the left neighbour of its right
/// neighbour, the bottom neighbour of its top neighbour and the top neighbour
/// of its bottom neighbour are the cell itself.
pub proof fn lemma_toroidal_symmetry(l: &Lattice, i: int, j: int)
    requires
        l.wf(),
        0 <= i < l.width(),
        0 <= j < l.height(),
    ensures
        ({
            let n = l.neighbor(i, j, LEFT as int);
            l.neighbor(n.0, n.1, RIGHT as int)
        }) == (i, j),
        ({
            let n = l.neighbor(i, j, RIGHT as int);
            l.neighbor(n.0, n.1, LEFT as int)
        }) == (i, j),
        ({
            let n = l.neighbor(i, j, TOP as int);
            l.neighbor(n.0, n.1, BOTTOM as int)
        }) == (i, j),
        ({
            let n = l.neighbor(i, j, BOTTOM as int);
            l.neighbor(n.0, n.1, TOP as int)
        }) == (i, j),
{
    let w = l.width();
    let h = l.height();
    l.lemma_neighbor_table(i, j);
    lemma_wrap_inverse(i, w);
    lemma_wrap_inverse(j, h);
    let left = l.neighbor(i, j, LEFT as int);
    let right = l.neighbor(i, j, RIGHT as int);
    let top = l.neighbor(i, j, TOP as int);
    let bottom = l.neighbor(i, j, BOTTOM as int);
    l.lemma_neighbor_table(left.0, left.1);
    l.lemma_neighbor_table(right.0, right.1);
    l.lemma_neighbor_table(top.0, top.1);
    l.lemma_neighbor_table(bottom.0, bottom.1);
}

/// Flipping the same cell twice gives back the spins the lattice started
/// with.
pub proof fn lemma_flip_involution(l: &Lattice, ix: [usize; 2])
    requires
        l.wf(),
        l.in_bounds(ix),
    ensures
        flip_at(
            flip_at(l.spins(), l.cell(ix[0] as int, ix[1] as int)),
            l.cell(ix[0] as int, ix[1] as int),
        ) == l.spins(),
{
    let k = l.cell(ix[0] as int, ix[1] as int);
    l.lemma_spin_value(ix[0] as int, ix[1] as int);
    assert(flip_at(flip_at(l.spins(), k), k) =~= l.spins());
}

/// The magnetization lies in `[0, 1]`: the sum of the spins is at most their
/// number in absolute value.
pub proof fn lemma_magnetization_in_unit_range(l: &Lattice)
    requires
        l.wf(),
    ensures
        0 <= abs(l.spin_sum()) <= l.width() * l.height(),
{
    lemma_seq_sum_bounded(l.spins());
}

/// On a ring of at least two places, a step forward or back leaves `x`.
proof fn lemma_wrap_moves(x: int, n: int)
    requires
        0 <= x < n,
        2 <= n,
    ensures
        wrap_forward(x, n) != x,
        wrap_back(x, n) != x,
        wrap_forward(x, n) != wrap_back(x, n) || n == 2,
{
    lemma_wrap_inverse(x, n);
    if x + 1 == n {
        lemma_mod_self_0(n);
    } else {
        lemma_small_mod((x + 1) as nat, n as nat);
    }
    if x == 0 {
        lemma_small_mod((n - 1) as nat, n as nat);
    } else {
        lemma_mod_add_multiples_vanish(x - 1, n);
        lemma_small_mod((x - 1) as nat, n as nat);
    }
}

/// After flipping cell `[i, j]`, each cell keeps its spin but that one, which
/// is negated.
proof fn lemma_spin_after_flip(l: &Lattice, m: &Lattice, i: int, j: int, a: int, b: int)
    requires
        l.wf(),
        m.wf(),
        m.width() == l.width(),
        m.height() == l.height(),
        0 <= i < l.width(),
        0 <= j < l.height(),
        0 <= a < l.width(),
        0 <= b < l.height(),
        m.spins() == flip_at(l.spins(), l.cell(i, j)),
    ensures
        m.spin(a, b) == if a == i && b == j {
            -l.spin(i, j)
        } else {
            l.spin(a, b)
        },
{
    let h = l.height();
    lemma_cell_index(i, j, l.width(), h);
    lemma_cell_index(a, b, l.width(), h);
    l.lemma_spin_value(i, j);
    if a * h + b == i * h + j {
        assert(a == i && b == j);
    }
}

/// The change that flipping `[i, j]` makes to the forward term of `[a, b]`:
/// only the cell itself and its left and top neighbours own a bond to it.
proof fn lemma_forward_term_change(l: &Lattice, m: &Lattice, i: int, j: int, a: int, b: int)
    requires
        l.wf(),
        m.wf(),
        m.width() == l.width(),
        m.height() == l.height(),
        2 <= l.width(),
        2 <= l.height(),
        0 <= i < l.width(),
        0 <= j < l.height(),
        0 <= a < l.width(),
        0 <= b < l.height(),
        m.spins() == flip_at(l.spins(), l.cell(i, j)),
    ensures
        m.forward_term(a, b) - l.forward_term(a, b) == if a == i && b == j {
            -2 * l.spin(i, j) * (l.spin_toward(i, j, RIGHT as int) + l.spin_toward(
                i,
                j,
                BOTTOM as int,
            ))
        } else if (a, b) == torus_neighbor(i, j, l.width(), l.height(), LEFT as int) {
            -2 * l.spin(i, j) * l.spin_toward(i, j, LEFT as int)
        } else if (a, b) == torus_neighbor(i, j, l.width(), l.height(), TOP as int) {
            -2 * l.spin(i, j) * l.spin_toward(i, j, TOP as int)
        } else {
            0
        },
{
    let w = l.width();
    let h = l.height();
    lemma_wrap_moves(i, w);
    lemma_wrap_moves(j, h);
    lemma_wrap_inverse(i, w);
    lemma_wrap_inverse(j, h);
    lemma_wrap_inverse(a, w);
    lemma_wrap_inverse(b, h);
    lemma_torus_neighbor_in_range(i, j, w, h);
    lemma_torus_neighbor_in_range(a, b, w, h);
    let r = torus_neighbor(a, b, w, h, RIGHT as int);
    let d = torus_neighbor(a, b, w, h, BOTTOM as int);
    lemma_spin_after_flip(l, m, i, j, a, b);
    lemma_spin_after_flip(l, m, i, j, r.0, r.1);
    lemma_spin_after_flip(l, m, i, j, d.0, d.1);
    let s = l.spin(a, b);
    let x = l.spin(r.0, r.1);
    let y = l.spin(d.0, d.1);
    let s2 = m.spin(a, b);
    let x2 = m.spin(r.0, r.1);
    let y2 = m.spin(d.0, d.1);
    assert(m.forward_term(a, b) == s2 * (x2 + y2));
    assert(l.forward_term(a, b) == s * (x + y));
    if a == i && b == j {
        assert(s2 * (x2 + y2) - s * (x + y) == -2 * s * (x + y)) by (nonlinear_arith)
            requires
                s2 == -s,
                x2 == x,
                y2 == y,
        ;
    } else if (a, b) == torus_neighbor(i, j, w, h, LEFT as int) {
        assert(r == (i, j));
        assert(s2 * (x2 + y2) - s * (x + y) == -2 * x * s) by (nonlinear_arith)
            requires
                s2 == s,
                x2 == -x,
                y2 == y,
        ;
    } else if (a, b) == torus_neighbor(i, j, w, h, TOP as int) {
        assert(d == (i, j));
        assert(s2 * (x2 + y2) - s * (x + y) == -2 * y * s) by (nonlinear_arith)
            requires
                s2 == s,
                x2 == x,
                y2 == -y,
        ;
    } else {
        assert(r != (i, j));
        assert(d != (i, j));
    }
}

/// The change that flipping `[i, j]` makes to the sum of the forward terms
/// of the first `n` cells.
proof fn lemma_bond_sum_change(l: &Lattice, m: &Lattice, i: int, j: int, n: int)
    requires
        l.wf(),
        m.wf(),
        m.width() == l.width(),
        m.height() == l.height(),
        2 <= l.width(),
        2 <= l.height(),
        0 <= i < l.width(),
        0 <= j < l.height(),
        0 <= n <= l.width() * l.height(),
        m.spins() == flip_at(l.spins(), l.cell(i, j)),
    ensures
        ({
            let left = torus_neighbor(i, j, l.width(), l.height(), LEFT as int);
            let top = torus_neighbor(i, j, l.width(), l.height(), TOP as int);
            m.bond_sum(n) - l.bond_sum(n) == (if l.cell(i, j) < n {
                -2 * l.spin(i, j) * (l.spin_toward(i, j, RIGHT as int) + l.spin_toward(
                    i,
                    j,
                    BOTTOM as int,
                ))
            } else {
                0
            }) + (if l.cell(left.0, left.1) < n {
                -2 * l.spin(i, j) * l.spin_toward(i, j, LEFT as int)
            } else {
                0
            }) + (if l.cell(top.0, top.1) < n {
                -2 * l.spin(i, j) * l.spin_toward(i, j, TOP as int)
            } else {
                0
            })
        }),
    decreases n,
{
    if n > 0 {
        let w = l.width();
        let h = l.height();
        lemma_bond_sum_change(l, m, i, j, n - 1);
        let k = n - 1;
        lemma_cell_coords(k, w, h);
        let a = k / h;
        let b = k % h;
        lemma_forward_term_change(l, m, i, j, a, b);
        lemma_torus_neighbor_in_range(i, j, w, h);
        let left = torus_neighbor(i, j, w, h, LEFT as int);
        let top = torus_neighbor(i, j, w, h, TOP as int);
        lemma_cell_index(i, j, w, h);
        lemma_cell_index(left.0, left.1, w, h);
        lemma_cell_index(top.0, top.1, w, h);
        assert(k == l.cell(i, j) <==> (a == i && b == j));
        assert(k == l.cell(left.0, left.1) <==> (a, b) == left);
        assert(k == l.cell(top.0, top.1) <==> (a, b) == top);
        lemma_wrap_moves(i, w);
        lemma_wrap_moves(j, h);
    }
}

/// Flipping a spin changes the energy by exactly the energy difference
/// measured before the flip, on any lattice whose sides are at least two
/// cells long.
pub proof fn lemma_flip_energy_change(before: &Lattice, after: &Lattice, ix: [usize; 2])
    requires
        before.wf(),
        after.wf(),
        after.width() == before.width(),
        after.height() == before.height(),
        2 <= before.width(),
        2 <= before.height(),
        before.in_bounds(ix),
        after.spins() == flip_at(before.spins(), before.cell(ix[0] as int, ix[1] as int)),
    ensures
        after.total_energy() - before.total_energy() == 2 * before.local_term(
            ix[0] as int,
            ix[1] as int,
        ),
{
    let w = before.width();
    let h = before.height();
    let i = ix[0] as int;
    let j = ix[1] as int;
    lemma_bond_sum_change(before, after, i, j, w * h);
    lemma_torus_neighbor_in_range(i, j, w, h);
    let left = torus_neighbor(i, j, w, h, LEFT as int);
    let top = torus_neighbor(i, j, w, h, TOP as int);
    lemma_cell_index(i, j, w, h);
    lemma_cell_index(left.0, left.1, w, h);
    lemma_cell_index(top.0, top.1, w, h);
    let s = before.spin(i, j);
    let r = before.spin_toward(i, j, RIGHT as int);
    let d = before.spin_toward(i, j, BOTTOM as int);
    let lf = before.spin_toward(i, j, LEFT as int);
    let t = before.spin_toward(i, j, TOP as int);
    assert(-(-2 * s * (r + d) + -2 * s * lf + -2 * s * t) == 2 * (s * (r + d + lf + t)))
        by (nonlinear_arith);
}

} // verus!
