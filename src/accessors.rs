use vstd::prelude::*;

use crate::address::MatrixAddress;
use crate::coordinate::{Coordinate, Integral};
use crate::iter::{MatrixColumnIterator, MatrixRowIterator};
use crate::matrix::{column_total, lemma_address_of, lemma_within, row_total, value_at, Matrix};
use crate::tensor::Tensor;
use core::marker::PhantomData;

verus! {

/// The values of row `r` of a matrix, left to right.
pub open spec fn row_values<T, I: Coordinate, M: Matrix<T, I>>(m: &M, r: int) -> Seq<T> {
    Seq::new(column_total::<T, I, M>(m) as nat, |c: int| value_at::<T, I, M>(m, r, c))
}

/// The values of column `c` of a matrix, top to bottom.
pub open spec fn column_values<T, I: Coordinate, M: Matrix<T, I>>(m: &M, c: int) -> Seq<T> {
    Seq::new(row_total::<T, I, M>(m) as nat, |r: int| value_at::<T, I, M>(m, r, c))
}

/// Reads the cell at row `r` and column `c` through the matrix's checked read.
pub(crate) fn read_cell<'a, T, I: Coordinate, M: Matrix<T, I>>(m: &'a M, r: I, c: I) -> (out:
    Option<&'a T>)
    requires
        m.wf(),
    ensures
        out is Some <==> 0 <= r.int_value() < row_total::<T, I, M>(m) && 0 <= c.int_value()
            < column_total::<T, I, M>(m),
        out is Some ==> *out->0 == value_at::<T, I, M>(m, r.int_value(), c.int_value()),
{
    let address = MatrixAddress { row: r, column: c };
    proof {
        m.lemma_shape();
        lemma_within(m.lower(), m.upper(), address);
        lemma_address_of(address);
    }
    m.get(address)
}

/// Row is a view of one row of a borrowed matrix. It holds no values: every
/// read goes through the matrix.
pub struct Row<'a, T, I, M> {
    matrix: &'a M,
    row: I,
    cells: PhantomData<T>,
}

impl<'a, T, I: Coordinate, M: Matrix<T, I>> Row<'a, T, I, M> {
    /// The matrix viewed.
    pub closed spec fn source(&self) -> M {
        *self.matrix
    }

    /// The row viewed.
    pub closed spec fn row_index(&self) -> int {
        self.row.int_value()
    }

    /// Whether the value is well formed: the invariant its operations keep.
    pub open spec fn wf(&self) -> bool {
        &&& self.source().wf()
        &&& 0 <= self.row_index() < row_total::<T, I, M>(&self.source())
    }

    /// Builds the value from its parts.
    pub(crate) fn new(matrix: &'a M, row: I) -> (r: Row<'a, T, I, M>)
        requires
            matrix.wf(),
            0 <= row.int_value() < row_total::<T, I, M>(matrix),
        ensures
            r.wf(),
            r.source() == *matrix,
            r.row_index() == row.int_value(),
    {
        Row { matrix, row, cells: PhantomData }
    }

    /// row returns the number of the row viewed, counted from zero.
    pub fn row(&self) -> (r: I)
        ensures
            r.int_value() == self.row_index(),
    {
        self.row
    }

    /// iter returns a bidirectional iterator over the row's values.
    pub fn iter(&self) -> (r: MatrixRowIterator<'a, T, I, M>)
        requires
            self.wf(),
        ensures
            r.wf(),
            r.remaining() == row_values::<T, I, M>(&self.source(), self.row_index()),
            r.source() == self.source(),
            r.line() == self.row_index(),
            r.taken_front() == 0,
            r.taken_back() == 0,
    {
        MatrixRowIterator::new(self.matrix, self.row)
    }

    /// get reads the cell of this row in the given column, if it exists.
    pub fn get(&self, column: I) -> (r: Option<&'a T>)
        requires
            self.wf(),
        ensures
            r is Some <==> 0 <= column.int_value() < column_total::<T, I, M>(&self.source()),
            r is Some ==> *r->0 == value_at::<T, I, M>(
                &self.source(),
                self.row_index(),
                column.int_value(),
            ),
    {
        read_cell(self.matrix, self.row, column)
    }
}

/// Column is a view of one column of a borrowed matrix. It holds no values:
/// every read goes through the matrix.
pub struct Column<'a, T, I, M> {
    matrix: &'a M,
    column: I,
    cells: PhantomData<T>,
}

impl<'a, T, I: Coordinate, M: Matrix<T, I>> Column<'a, T, I, M> {
    /// The matrix viewed.
    pub closed spec fn source(&self) -> M {
        *self.matrix
    }

    /// The column viewed.
    pub closed spec fn column_index(&self) -> int {
        self.column.int_value()
    }

    /// Whether the value is well formed: the invariant its operations keep.
    pub open spec fn wf(&self) -> bool {
        &&& self.source().wf()
        &&& 0 <= self.column_index() < column_total::<T, I, M>(&self.source())
    }

    /// Builds the value from its parts.
    pub(crate) fn new(matrix: &'a M, column: I) -> (r: Column<'a, T, I, M>)
        requires
            matrix.wf(),
            0 <= column.int_value() < column_total::<T, I, M>(matrix),
        ensures
            r.wf(),
            r.source() == *matrix,
            r.column_index() == column.int_value(),
    {
        Column { matrix, column, cells: PhantomData }
    }

    /// column returns the number of the column viewed, counted from zero.
    pub fn column(&self) -> (r: I)
        ensures
            r.int_value() == self.column_index(),
    {
        self.column
    }

    /// iter returns a bidirectional iterator over the column's values.
    pub fn iter(&self) -> (r: MatrixColumnIterator<'a, T, I, M>)
        requires
            self.wf(),
        ensures
            r.wf(),
            r.remaining() == column_values::<T, I, M>(&self.source(), self.column_index()),
            r.source() == self.source(),
            r.line() == self.column_index(),
            r.taken_front() == 0,
            r.taken_back() == 0,
    {
        MatrixColumnIterator::new(self.matrix, self.column)
    }

    /// get reads the cell of this column in the given row, if it exists.
    pub fn get(&self, row: I) -> (r: Option<&'a T>)
        requires
            self.wf(),
        ensures
            r is Some <==> 0 <= row.int_value() < row_total::<T, I, M>(&self.source()),
            r is Some ==> *r->0 == value_at::<T, I, M>(
                &self.source(),
                row.int_value(),
                self.column_index(),
            ),
    {
        read_cell(self.matrix, row, self.column)
    }
}

} // verus!
