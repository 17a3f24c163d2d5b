use vstd::prelude::*;

use crate::address::{neighbor_cells, Address, MatrixAddress};
use crate::coordinate::{Coordinate, Integral};
use crate::iter::MatrixForwardIterator;
use crate::tensor::{within, Tensor};

verus! {

/// Matrix is a two-dimensional store addressed by row and column, with the
/// origin at the upper left.
pub trait Matrix<T, I: Coordinate>: Tensor<T, I, MatrixAddress<I>, 2> {
    /// A well-formed matrix starts at the origin, and has as many rows and
    /// columns as its upper bound says, both zero or both positive.
    proof fn lemma_shape(&self)
        requires
            self.wf(),
        ensures
            self.lower().cell() == (0int, 0int),
            0 <= self.upper().row.int_value(),
            0 <= self.upper().column.int_value(),
            (self.upper().row.int_value() == 0) == (self.upper().column.int_value() == 0),
    ;

    /// row_count returns the number of horizontal rows in the matrix.
    fn row_count(&self) -> (r: I)
        requires
            self.wf(),
        ensures
            r == self.upper().row,
    ;

    /// column_count returns the number of vertical columns in the matrix.
    fn column_count(&self) -> (r: I)
        requires
            self.wf(),
        ensures
            r == self.upper().column,
    ;

    /// addresses yields every address of the matrix in row-major order.
    fn addresses(&self) -> (r: MatrixForwardIterator<I>)
        requires
            self.wf(),
        ensures
            r.wf(),
            r.row_bound() == self.upper().row.int_value(),
            r.column_bound() == self.upper().column.int_value(),
            r.position() == 0,
    {
        proof {
            self.lemma_shape();
        }
        MatrixForwardIterator::new(MatrixAddress { row: self.row_count(), column: self.column_count() })
    }
}

impl<I: Coordinate> MatrixAddress<I> {
    /// neighbors returns the addresses of the up to eight cells adjacent to
    /// this one, diagonals included, that lie in the matrix, in row-major
    /// order. The address itself is never among them.
    pub fn neighbors<T, M: Matrix<T, I>>(&self, matrix: &M) -> (r: Vec<MatrixAddress<I>>)
        requires
            matrix.wf(),
        ensures
            r@.map_values(|a: MatrixAddress<I>| a.cell()) == neighbor_cells(
                self.row.int_value(),
                self.column.int_value(),
                row_total::<T, I, M>(matrix),
                column_total::<T, I, M>(matrix),
            ),
    {
        self.neighbors_within(matrix.row_count(), matrix.column_count())
    }
}

/// An address lies within a matrix's bounds exactly when its row and its column
/// each lie within theirs.
pub proof fn lemma_within<I: Coordinate>(
    lower: MatrixAddress<I>,
    upper: MatrixAddress<I>,
    address: MatrixAddress<I>,
)
    ensures
        within::<I, MatrixAddress<I>, 2>(lower, upper, address) <==> {
            &&& lower.row.int_value() <= address.row.int_value() < upper.row.int_value()
            &&& lower.column.int_value() <= address.column.int_value() < upper.column.int_value()
        },
{
    assert(address.coordinate_spec(0) == address.column);
    assert(address.coordinate_spec(1) == address.row);
}

/// The number of rows of a matrix, as an integer.
pub open spec fn row_total<T, I: Coordinate, M: Matrix<T, I>>(m: &M) -> int {
    m.upper().row.int_value()
}

/// The number of columns of a matrix, as an integer.
pub open spec fn column_total<T, I: Coordinate, M: Matrix<T, I>>(m: &M) -> int {
    m.upper().column.int_value()
}

/// The address of row `r` and column `c`, given as integers.
pub open spec fn address_of<I: Coordinate>(r: int, c: int) -> MatrixAddress<I> {
    MatrixAddress { row: I::from_int(r), column: I::from_int(c) }
}

/// Every address is the one named by its row and column integers.
pub proof fn lemma_address_of<I: Coordinate>(a: MatrixAddress<I>)
    ensures
        address_of::<I>(a.row.int_value(), a.column.int_value()) == a,
{
    I::lemma_bounds(a.row);
    I::lemma_bounds(a.column);
    I::lemma_from_int(a.row.int_value());
    I::lemma_from_int(a.column.int_value());
    I::lemma_injective(a.row, I::from_int(a.row.int_value()));
    I::lemma_injective(a.column, I::from_int(a.column.int_value()));
}

/// The value at row `r` and column `c` of a matrix.
pub open spec fn value_at<T, I: Coordinate, M: Matrix<T, I>>(m: &M, r: int, c: int) -> T {
    m.cell(address_of::<I>(r, c))
}

} // verus!
