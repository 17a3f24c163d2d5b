use vstd::prelude::*;

use crate::accessors::{Column, Row};
use crate::address::{transposed, MatrixAddress};
use crate::coordinate::{Coordinate, Integral};
use crate::iter::{
    MatrixColumnsIterator, MatrixForwardIndexedIterator, MatrixRowsIterator, MatrixValueIterator,
};
use crate::matrix::{column_total, lemma_within, row_total, value_at, Matrix};
use crate::tensor::{within, Tensor};
use core::marker::PhantomData;
use core::ops::Range;

verus! {

/// TransposedMatrix is a view of a borrowed matrix with rows and columns
/// swapped. It holds no cells: every address is transposed on its way to the
/// underlying matrix, and writes through the view land there. The borrow is
/// exclusive because the view writes through.
pub struct TransposedMatrix<'a, T, I, M> {
    /// The matrix viewed, borrowed for as long as the view lives.
    pub underlay: &'a mut M,
    /// Marks the cell and coordinate types; holds nothing.
    pub cells: PhantomData<(T, I)>,
}

impl<'a, T, I: Coordinate, M: Matrix<T, I>> TransposedMatrix<'a, T, I, M> {
    /// The matrix underneath the view, as it stands.
    pub open spec fn underlying(&self) -> M {
        *self.underlay
    }
}

impl<'a, T, I: Coordinate, M: Matrix<T, I>> Tensor<T, I, MatrixAddress<I>, 2> for TransposedMatrix<
    'a,
    T,
    I,
    M,
> {
    closed spec fn wf(&self) -> bool {
        self.underlying().wf()
    }

    closed spec fn lower(&self) -> MatrixAddress<I> {
        self.underlying().lower()
    }

    closed spec fn upper(&self) -> MatrixAddress<I> {
        MatrixAddress {
            row: self.underlying().upper().column,
            column: self.underlying().upper().row,
        }
    }

    closed spec fn cell(&self, address: MatrixAddress<I>) -> T {
        self.underlying().cell(MatrixAddress { row: address.column, column: address.row })
    }

    fn range(&self) -> (r: Range<MatrixAddress<I>>) {
        let under = self.underlay.range();
        Range { start: under.start, end: under.end.transpose() }
    }

    fn get(&self, address: MatrixAddress<I>) -> (r: Option<&T>) {
        proof {
            self.lemma_transposed_within(address);
        }
        self.underlay.get(address.transpose())
    }

    fn get_mut(&mut self, address: MatrixAddress<I>) -> (r: Option<&mut T>)
        ensures
            *final(final(self).underlay) == *final(old(self).underlay),
    {
        proof {
            self.lemma_transposed_within(address);
            assert forall|b: MatrixAddress<I>|
                within::<I, MatrixAddress<I>, 2>(self.lower(), self.upper(), b) implies #[trigger] within::<
                    I,
                    MatrixAddress<I>,
                    2,
                >(
                    self.underlying().lower(),
                    self.underlying().upper(),
                    MatrixAddress { row: b.column, column: b.row },
                ) by {
                self.lemma_transposed_within(b);
            }
        }
        let t = address.transpose();
        self.underlay.get_mut(t)
    }
}

impl<'a, T, I: Coordinate, M: Matrix<T, I>> TransposedMatrix<'a, T, I, M> {
    /// An address lies within the view exactly when its transpose lies within
    /// the underlying matrix.
    proof fn lemma_transposed_within(&self, address: MatrixAddress<I>)
        requires
            self.wf(),
        ensures
            within::<I, MatrixAddress<I>, 2>(self.lower(), self.upper(), address)
                <==> within::<I, MatrixAddress<I>, 2>(
                self.underlying().lower(),
                self.underlying().upper(),
                MatrixAddress { row: address.column, column: address.row },
            ),
    {
        self.underlying().lemma_shape();
        lemma_within(self.lower(), self.upper(), address);
        lemma_within(
            self.underlying().lower(),
            self.underlying().upper(),
            MatrixAddress { row: address.column, column: address.row },
        );
    }
}

impl<'a, T, I: Coordinate, M: Matrix<T, I>> TransposedMatrix<'a, T, I, M> {
    /// iter yields every value of the matrix in row-major order.
    pub fn iter(&self) -> (r: MatrixValueIterator<'_, T, I, TransposedMatrix<'a, T, I, M>>)
        requires
            self.wf(),
        ensures
            r.wf(),
            r.source() == *self,
            r.position() == 0,
    {
        MatrixValueIterator::new(self)
    }

    /// indexed_iter yields every address of the matrix with its value, in
    /// row-major order.
    pub fn indexed_iter(&self) -> (r: MatrixForwardIndexedIterator<'_, T, I, TransposedMatrix<'a, T, I, M>>)
        requires
            self.wf(),
        ensures
            r.wf(),
            r.source() == *self,
            r.position() == 0,
    {
        MatrixForwardIndexedIterator::new(self)
    }

    /// row returns a view of the given row, if the matrix has it.
    pub fn row(&self, row_num: I) -> (r: Option<Row<'_, T, I, TransposedMatrix<'a, T, I, M>>>)
        requires
            self.wf(),
        ensures
            r is Some <==> 0 <= row_num.int_value() < self.upper().row.int_value(),
            r is Some ==> r->0.wf() && r->0.source() == *self && r->0.row_index()
                == row_num.int_value(),
    {
        if row_num.precedes(&I::zero()) || !row_num.precedes(&self.row_count()) {
            None
        } else {
            Some(Row::new(self, row_num))
        }
    }

    /// column returns a view of the given column, if the matrix has it.
    pub fn column(&self, column_num: I) -> (r: Option<Column<'_, T, I, TransposedMatrix<'a, T, I, M>>>)
        requires
            self.wf(),
        ensures
            r is Some <==> 0 <= column_num.int_value() < self.upper().column.int_value(),
            r is Some ==> r->0.wf() && r->0.source() == *self && r->0.column_index()
                == column_num.int_value(),
    {
        if column_num.precedes(&I::zero()) || !column_num.precedes(&self.column_count()) {
            None
        } else {
            Some(Column::new(self, column_num))
        }
    }

    /// rows yields a view of each row, top to bottom or from either end.
    pub fn rows(&self) -> (r: MatrixRowsIterator<'_, T, I, TransposedMatrix<'a, T, I, M>>)
        requires
            self.wf(),
        ensures
            r.wf(),
            r.source() == *self,
            r.remaining() == Seq::new(self.upper().row.int_value() as nat, |i: int| i),
    {
        MatrixRowsIterator::new(self)
    }

    /// columns yields a view of each column, left to right or from either end.
    pub fn columns(&self) -> (r: MatrixColumnsIterator<'_, T, I, TransposedMatrix<'a, T, I, M>>)
        requires
            self.wf(),
        ensures
            r.wf(),
            r.source() == *self,
            r.remaining() == Seq::new(self.upper().column.int_value() as nat, |i: int| i),
    {
        MatrixColumnsIterator::new(self)
    }
}

impl<'a, T, I: Coordinate, M: Matrix<T, I>> Matrix<T, I> for TransposedMatrix<'a, T, I, M> {
    proof fn lemma_shape(&self) {
        self.underlying().lemma_shape();
    }

    fn row_count(&self) -> (r: I) {
        self.underlay.column_count()
    }

    fn column_count(&self) -> (r: I) {
        self.underlay.row_count()
    }
}

/// A transposed view over a matrix of R rows and C columns has C rows and R
/// columns, and holds at row `r` and column `c` what the matrix holds at row
/// `c` and column `r`. As `get_mut` writes the view's cell, a write through
/// the view at `(r, c)` is a write of the matrix at `(c, r)`; and as
/// `new_transposed_matrix` and `get_mut` keep the borrow's final value, the
/// borrowed matrix holds that write once the view is done.
pub proof fn lemma_transposed_view<'a, T, I: Coordinate, M: Matrix<T, I>>(
    view: &TransposedMatrix<'a, T, I, M>,
)
    requires
        view.wf(),
    ensures
        row_total::<T, I, TransposedMatrix<'a, T, I, M>>(view) == column_total::<T, I, M>(
            &view.underlying(),
        ),
        column_total::<T, I, TransposedMatrix<'a, T, I, M>>(view) == row_total::<T, I, M>(
            &view.underlying(),
        ),
        forall|a: MatrixAddress<I>| #[trigger] view.cell(a) == view.underlying().cell(transposed(a)),
        forall|r: int, c: int|
            #[trigger] value_at::<T, I, TransposedMatrix<'a, T, I, M>>(view, r, c) == value_at::<
                T,
                I,
                M,
            >(&view.underlying(), c, r),
{
}

/// new_transposed_matrix builds a transposed view over `underlay`.
pub fn new_transposed_matrix<'a, T, I: Coordinate, M: Matrix<T, I>>(underlay: &'a mut M) -> (r:
    TransposedMatrix<'a, T, I, M>)
    requires
        old(underlay).wf(),
    ensures
        r.wf(),
        r.underlying() == *old(underlay),
        *final(underlay) == *final(r.underlay),
{
    TransposedMatrix { underlay, cells: PhantomData }
}

} // verus!
