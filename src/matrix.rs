use vstd::prelude::*;

use crate::fault::{check_dimensions, check_index, Fault};
use crate::vector::Vector;

verus! {

/// Where cell `(i, j)` of a matrix with `ncols` columns is stored.
pub open spec fn offset_of(i: int, j: int, ncols: int) -> int {
    i * ncols + j
}

/// Distinct cells of a row-major layout are stored at distinct offsets, all
/// below `nrows * ncols`.
pub proof fn lemma_offset(nrows: int, ncols: int, i: int, j: int, a: int, b: int)
    requires
        0 <= i < nrows,
        0 <= j < ncols,
        0 <= a < nrows,
        0 <= b < ncols,
    ensures
        0 <= offset_of(i, j, ncols) < nrows * ncols,
        offset_of(i, j, ncols) == offset_of(a, b, ncols) ==> i == a && j == b,
{
    assert(0 <= i * ncols + j < nrows * ncols) by (nonlinear_arith)
        requires
            0 <= i < nrows,
            0 <= j < ncols,
    {
        assert(i * ncols + j < (i + 1) * ncols);
        assert((i + 1) * ncols <= nrows * ncols);
    }
    if a < i {
        assert(a * ncols + b < i * ncols + j) by (nonlinear_arith)
            requires
                0 <= a < i,
                0 <= b < ncols,
                0 <= j,
        {
            assert(a * ncols + b < (a + 1) * ncols);
            assert((a + 1) * ncols <= i * ncols);
        }
    } else if i < a {
        assert(i * ncols + j < a * ncols + b) by (nonlinear_arith)
            requires
                0 <= i < a,
                0 <= j < ncols,
                0 <= b,
        {
            assert(i * ncols + j < (i + 1) * ncols);
            assert((i + 1) * ncols <= a * ncols);
        }
    }
}

/// A fixed-shape, owned, mutable grid of scalars, stored row by row in one
/// contiguous buffer: cell `(i, j)` sits at offset `i * ncols + j`.
pub struct Matrix<T> {
    nrows: usize,
    ncols: usize,
    data: Vec<T>,
}

impl<T> Matrix<T> {
    /// The buffer holds exactly one value per cell.
    pub closed spec fn well_formed(&self) -> bool {
        &&& self.nrows * self.ncols <= usize::MAX
        &&& self.data@.len() == self.nrows * self.ncols
    }

    /// The number of rows.
    pub closed spec fn rows(&self) -> nat {
        self.nrows as nat
    }

    /// The number of columns.
    pub closed spec fn cols(&self) -> nat {
        self.ncols as nat
    }

    /// The value stored for cell `(i, j)`.
    pub closed spec fn cell(&self, i: int, j: int) -> T {
        self.data@[offset_of(i, j, self.ncols as int)]
    }
}

impl<T> View for Matrix<T> {
    type V = Seq<Seq<T>>;

    /// The matrix as a sequence of rows.
    closed spec fn view(&self) -> Seq<Seq<T>> {
        Seq::new(self.rows(), |i: int| Seq::new(self.cols(), |j: int| self.cell(i, j)))
    }
}

impl<T: Copy> Matrix<T> {
    /// The view has `rows()` rows, each of `cols()` cells.
    pub proof fn lemma_shape(&self)
        ensures
            self@.len() == self.rows(),
            forall|i: int| 0 <= i < self.rows() ==> #[trigger] self@[i].len() == self.cols(),
    {
    }

    /// A matrix of `nrows` rows and `ncols` columns, every cell equal to `zero`.
    pub fn new(nrows: usize, ncols: usize, zero: T) -> (r: Matrix<T>)
        requires
            nrows * ncols <= usize::MAX,
        ensures
            r.well_formed(),
            r.rows() == nrows,
            r.cols() == ncols,
            r@ == Seq::new(nrows as nat, |i: int| Seq::new(ncols as nat, |j: int| zero)),
    {
        let size = nrows * ncols;
        let mut data: Vec<T> = Vec::with_capacity(size);
        let mut k: usize = 0;
        while k < size
            invariant
                k <= size,
                data@ == Seq::new(k as nat, |t: int| zero),
            decreases size - k,
        {
            data.push(zero);
            k = k + 1;
        }
        let r = Matrix { nrows, ncols, data };
        assert forall|i: int, j: int| 0 <= i < nrows && 0 <= j < ncols implies r.cell(i, j)
            == zero by {
            lemma_offset(nrows as int, ncols as int, i, j, i, j);
        }
        assert(r@ =~~= Seq::new(nrows as nat, |i: int| Seq::new(ncols as nat, |j: int| zero)));
        r
    }

    /// The number of rows.
    pub fn nrows(&self) -> (r: usize)
        ensures
            r == self.rows(),
    {
        self.nrows
    }

    /// The number of columns.
    pub fn ncols(&self) -> (r: usize)
        ensures
            r == self.cols(),
    {
        self.ncols
    }

    /// The offset of cell `(i, j)` in the backing buffer.
    pub fn offset(&self, i: usize, j: usize) -> (r: Result<usize, Fault>)
        requires
            self.well_formed(),
        ensures
            r == (if i < self.rows() && j < self.cols() {
                Ok::<usize, Fault>(offset_of(i as int, j as int, self.cols() as int) as usize)
            } else {
                Err(Fault::OutOfBounds)
            }),
    {
        if i < self.nrows && j < self.ncols {
            proof {
                lemma_offset(self.nrows as int, self.ncols as int, i as int, j as int, i as int, j as int);
            }
            Ok(i * self.ncols + j)
        } else {
            Err(Fault::OutOfBounds)
        }
    }

    /// The value of cell `(i, j)`.
    pub fn get(&self, i: usize, j: usize) -> (r: Result<T, Fault>)
        requires
            self.well_formed(),
        ensures
            r == (if i < self.rows() && j < self.cols() {
                Ok::<T, Fault>(self@[i as int][j as int])
            } else {
                Err(Fault::OutOfBounds)
            }),
    {
        match self.offset(i, j) {
            Ok(k) => {
                proof {
                    lemma_offset(self.nrows as int, self.ncols as int, i as int, j as int, i as int, j as int);
                }
                assert(self@[i as int][j as int] == self.cell(i as int, j as int));
                Ok(self.data[k])
            },
            Err(f) => Err(f),
        }
    }

    /// Replaces cell `(i, j)` by `x`; nothing changes on a fault.
    pub fn set(&mut self, i: usize, j: usize, x: T) -> (r: Result<(), Fault>)
        requires
            old(self).well_formed(),
        ensures
            final(self).well_formed(),
            final(self).rows() == old(self).rows(),
            final(self).cols() == old(self).cols(),
            r == (if i < old(self).rows() && j < old(self).cols() {
                Ok::<(), Fault>(())
            } else {
                Err(Fault::OutOfBounds)
            }),
            final(self)@ == (if i < old(self).rows() && j < old(self).cols() {
                old(self)@.update(i as int, old(self)@[i as int].update(j as int, x))
            } else {
                old(self)@
            }),
    {
        match self.offset(i, j) {
            Ok(k) => {
                let ghost before = *self;
                proof {
                    lemma_offset(self.nrows as int, self.ncols as int, i as int, j as int, i as int, j as int);
                }
                self.data.set(k, x);
                proof {
                    assert(k as int == offset_of(i as int, j as int, self.ncols as int));
                    assert(self.data@ == before.data@.update(k as int, x));
                    let nr = self.nrows as int;
                    let nc = self.ncols as int;
                    assert forall|a: int, b: int| 0 <= a < nr && 0 <= b < nc implies
                        self.cell(a, b) == (if a == i && b == j { x } else { before.cell(a, b) })
                        by {
                        lemma_offset(nr, nc, i as int, j as int, a, b);
                        lemma_offset(nr, nc, a, b, a, b);
                    }
                    assert(self@ =~~= before@.update(i as int, before@[i as int].update(j as int, x)));
                }
                Ok(())
            },
            Err(f) => Err(f),
        }
    }

    /// Checks that row `i` exists and that `v` has one element per column,
    /// the row first: the preconditions of the row operations.
    pub fn check_row_operand(&self, v: &Vector<T>, i: usize) -> (r: Result<(), Fault>)
        ensures
            r == (if i >= self.rows() {
                Err(Fault::OutOfBounds)
            } else if v@.len() != self.cols() {
                Err(Fault::DimensionMismatch)
            } else {
                Ok::<(), Fault>(())
            }),
    {
        match check_index(i, self.nrows) {
            Ok(()) => check_dimensions(v.len(), self.ncols),
            Err(f) => Err(f),
        }
    }

    /// Writing `x` at an in-range cell `(i, j)` and reading that cell back
    /// yields `x`.
    pub proof fn lemma_write_then_read(m: Matrix<T>, i: int, j: int, x: T)
        requires
            0 <= i < m.rows(),
            0 <= j < m.cols(),
        ensures
            m@.update(i, m@[i].update(j, x))[i][j] == x,
    {
        m.lemma_shape();
    }
}

} // verus!
