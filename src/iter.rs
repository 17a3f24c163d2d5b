use vstd::prelude::*;

use crate::accessors::{column_values, read_cell, row_values, Column, Row};
use crate::address::MatrixAddress;
use crate::coordinate::{Coordinate, Integral};
use crate::dense::{lemma_offset, offset};
use crate::matrix::{column_total, row_total, value_at, Matrix};
use crate::span::Span;
use crate::tensor::Tensor;
use core::marker::PhantomData;
use vstd::arithmetic::div_mod::{lemma_fundamental_div_mod, lemma_fundamental_div_mod_converse};

verus! {

/// The cell at row-major position `k` of a matrix of `columns` columns.
pub open spec fn row_major_cell(k: int, columns: int) -> (int, int) {
    (k / columns, k % columns)
}

/// Position `k` of a matrix of `columns` columns holds exactly the cell whose
/// row-major offset is `k`.
pub proof fn lemma_row_major_cell(k: int, r: int, c: int, columns: int)
    requires
        0 <= c < columns,
        0 <= k,
    ensures
        (offset(r, c, columns) == k) <==> (row_major_cell(k, columns) == (r, c)),
{
    lemma_fundamental_div_mod(k, columns);
    if offset(r, c, columns) == k {
        lemma_fundamental_div_mod_converse(k, columns, r, c);
    }
    if row_major_cell(k, columns) == (r, c) {
        assert(k == columns * r + c);
        assert(k == r * columns + c) by (nonlinear_arith)
            requires
                k == columns * r + c,
        ;
    }
}

/// Row-major order: the cell at row `r` and column `c` of a matrix of `rows`
/// rows and `columns` columns is visited at position `r * columns + c`, which
/// comes strictly before the position of the cell to its right and before the
/// position of the first cell of the next row.
pub proof fn lemma_row_major_order(rows: int, columns: int, r: int, c: int)
    requires
        0 <= r < rows,
        0 <= c < columns,
    ensures
        0 <= offset(r, c, columns) < rows * columns,
        row_major_cell(offset(r, c, columns), columns) == (r, c),
        c + 1 < columns ==> row_major_cell(offset(r, c, columns) + 1, columns) == (r, c + 1),
        r + 1 < rows ==> {
            &&& offset(r, c, columns) < offset(r + 1, 0, columns)
            &&& row_major_cell(offset(r + 1, 0, columns), columns) == (r + 1, 0int)
        },
{
    lemma_offset(r, c, rows, columns);
    lemma_row_major_cell(offset(r, c, columns), r, c, columns);
    if c + 1 < columns {
        lemma_row_major_cell(offset(r, c, columns) + 1, r, c + 1, columns);
    }
    if r + 1 < rows {
        lemma_row_major_cell(offset(r + 1, 0, columns), r + 1, 0, columns);
        assert(offset(r + 1, 0, columns) == offset(r, 0, columns) + columns) by (nonlinear_arith);
    }
}

/// What a two-ended consumption of `s` yields: one step per entry of
/// `from_front`, taking from the front where it is true and from the back
/// where it is false, until `s` is used up. The items taken from the front
/// come first in the pair, those taken from the back second, each in the
/// order taken.
pub open spec fn two_ended_takes<T>(s: Seq<T>, from_front: Seq<bool>) -> (Seq<T>, Seq<T>)
    decreases from_front.len(),
{
    if from_front.len() == 0 || s.len() == 0 {
        (seq![], seq![])
    } else if from_front[0] {
        let rest = two_ended_takes(s.drop_first(), from_front.drop_first());
        (seq![s[0]] + rest.0, rest.1)
    } else {
        let rest = two_ended_takes(s.drop_last(), from_front.drop_first());
        (rest.0, seq![s.last()] + rest.1)
    }
}

/// What is left of `s` after the same steps.
pub open spec fn two_ended_rest<T>(s: Seq<T>, from_front: Seq<bool>) -> Seq<T>
    decreases from_front.len(),
{
    if from_front.len() == 0 || s.len() == 0 {
        s
    } else if from_front[0] {
        two_ended_rest(s.drop_first(), from_front.drop_first())
    } else {
        two_ended_rest(s.drop_last(), from_front.drop_first())
    }
}

/// Consuming a two-ended iterator from both ends, in any interleaving, for as
/// many steps as it has items: the items from the front followed by the items
/// from the back in reverse are all the items in order, each once; as many
/// are yielded as there are items; and nothing is left, so both ends report
/// exhaustion. The row, column, rows and columns iterators each take the
/// first remaining item in `next` and the last in `next_back`.
pub proof fn lemma_two_ended<T>(s: Seq<T>, from_front: Seq<bool>)
    requires
        s.len() <= from_front.len(),
    ensures
        two_ended_takes(s, from_front).0 + two_ended_takes(s, from_front).1.reverse() == s,
        two_ended_takes(s, from_front).0.len() + two_ended_takes(s, from_front).1.len() == s.len(),
        two_ended_rest(s, from_front).len() == 0,
    decreases from_front.len(),
{
    if from_front.len() == 0 || s.len() == 0 {
        assert(s =~= seq![]);
    } else if from_front[0] {
        let rest = two_ended_takes(s.drop_first(), from_front.drop_first());
        lemma_two_ended(s.drop_first(), from_front.drop_first());
        let mid = rest.0 + rest.1.reverse();
        assert(mid == s.drop_first());
        assert(seq![s[0]] + rest.0 + rest.1.reverse() =~= seq![s[0]] + mid);
        assert(seq![s[0]] + s.drop_first() =~= s);
    } else {
        let rest = two_ended_takes(s.drop_last(), from_front.drop_first());
        lemma_two_ended(s.drop_last(), from_front.drop_first());
        assert((seq![s.last()] + rest.1).reverse() =~= rest.1.reverse() + seq![s.last()]);
        let mid = rest.0 + rest.1.reverse();
        assert(mid == s.drop_last());
        assert(rest.0 + (rest.1.reverse() + seq![s.last()]) =~= mid + seq![s.last()]);
        assert(s.drop_last() + seq![s.last()] =~= s);
    }
}

/// MatrixForwardIterator yields the addresses of a matrix in row-major order,
/// starting at the origin.
pub struct MatrixForwardIterator<I> {
    end_exclusive: MatrixAddress<I>,
    cursor: Option<MatrixAddress<I>>,
}

impl<I: Coordinate> MatrixForwardIterator<I> {
    /// The number of rows covered.
    pub closed spec fn row_bound(&self) -> int {
        self.end_exclusive.row.int_value()
    }

    /// The number of columns covered.
    pub closed spec fn column_bound(&self) -> int {
        self.end_exclusive.column.int_value()
    }

    /// The number of addresses covered.
    pub open spec fn total(&self) -> int {
        self.row_bound() * self.column_bound()
    }

    /// How many addresses have been yielded.
    pub closed spec fn position(&self) -> int {
        match self.cursor {
            Some(a) => offset(a.row.int_value(), a.column.int_value(), self.column_bound()),
            None => self.total(),
        }
    }

    /// Whether the value is well formed: the invariant its operations keep.
    pub closed spec fn wf(&self) -> bool {
        &&& 0 <= self.row_bound() <= I::max_int()
        &&& 0 <= self.column_bound() <= I::max_int()
        &&& (self.row_bound() == 0) == (self.column_bound() == 0)
        &&& match self.cursor {
            Some(a) => 0 <= a.row.int_value() < self.row_bound() && 0 <= a.column.int_value()
                < self.column_bound(),
            None => true,
        }
    }

    /// An iterator over the addresses of a matrix whose row and column counts
    /// are those of `end_exclusive`: both zero, or both positive.
    pub fn new(end_exclusive: MatrixAddress<I>) -> (r: MatrixForwardIterator<I>)
        requires
            0 <= end_exclusive.row.int_value(),
            0 <= end_exclusive.column.int_value(),
            (end_exclusive.row.int_value() == 0) == (end_exclusive.column.int_value() == 0),
        ensures
            r.wf(),
            r.row_bound() == end_exclusive.row.int_value(),
            r.column_bound() == end_exclusive.column.int_value(),
            r.position() == 0,
    {
        proof {
            I::lemma_bounds(end_exclusive.row);
            I::lemma_bounds(end_exclusive.column);
        }
        let origin = MatrixAddress::origin();
        if end_exclusive.row.equals(&origin.row) {
            MatrixForwardIterator { end_exclusive, cursor: None }
        } else {
            MatrixForwardIterator { end_exclusive, cursor: Some(origin) }
        }
    }

    /// Yields the next address in row-major order: position `k` holds row
    /// `k / columns` and column `k % columns`.
    pub fn next(&mut self) -> (r: Option<MatrixAddress<I>>)
        requires
            old(self).wf(),
        ensures
            final(self).wf(),
            final(self).row_bound() == old(self).row_bound(),
            final(self).column_bound() == old(self).column_bound(),
            r is Some <==> old(self).position() < old(self).total(),
            r is Some ==> {
                &&& r->0.cell() == row_major_cell(old(self).position(), old(self).column_bound())
                &&& final(self).position() == old(self).position() + 1
            },
            r is None ==> final(self).position() == old(self).position(),
    {
        let result = self.cursor;
        match self.cursor {
            None => {},
            Some(v) => {
                let ghost (r, c, nr, nc) = (
                    v.row.int_value(),
                    v.column.int_value(),
                    self.row_bound(),
                    self.column_bound(),
                );
                proof {
                    I::lemma_bounds(v.row);
                    lemma_offset(r, c, nr, nc);
                    lemma_row_major_cell(offset(r, c, nc), r, c, nc);
                }
                let one = I::unit();
                let column = v.column.plus(one);
                if column.equals(&self.end_exclusive.column) {
                    let row = v.row.plus(one);
                    if row.equals(&self.end_exclusive.row) {
                        self.cursor = None;
                        proof {
                            assert(offset(r, c, nc) + 1 == nr * nc) by (nonlinear_arith)
                                requires
                                    r + 1 == nr,
                                    c + 1 == nc,
                            ;
                        }
                    } else {
                        self.cursor = Some(MatrixAddress { row, column: I::zero() });
                        proof {
                            assert(offset(r + 1, 0, nc) == offset(r, c, nc) + 1) by (nonlinear_arith)
                                requires
                                    c + 1 == nc,
                            ;
                        }
                    }
                } else {
                    self.cursor = Some(MatrixAddress { row: v.row, column });
                }
            },
        }
        result
    }

    /// The addresses not yet yielded, in row-major order.
    pub fn collect(self) -> (r: Vec<MatrixAddress<I>>)
        requires
            self.wf(),
        ensures
            r@.len() == self.total() - self.position(),
            forall|j: int|
                0 <= j < r@.len() ==> #[trigger] r@[j].cell() == row_major_cell(
                    self.position() + j,
                    self.column_bound(),
                ),
    {
        let mut it = self;
        let mut out: Vec<MatrixAddress<I>> = Vec::new();
        proof {
            it.lemma_position();
        }
        loop
            invariant
                it.wf(),
                it.column_bound() == self.column_bound(),
                it.row_bound() == self.row_bound(),
                0 <= it.position() <= it.total(),
                it.position() == self.position() + out@.len(),
                forall|j: int|
                    0 <= j < out@.len() ==> #[trigger] out@[j].cell() == row_major_cell(
                        self.position() + j,
                        self.column_bound(),
                    ),
            decreases it.total() - it.position(),
        {
            match it.next() {
                Some(a) => {
                    proof {
                        it.lemma_position();
                    }
                    out.push(a);
                },
                None => {
                    return out;
                },
            }
        }
    }

    /// The position never passes the number of addresses covered.
    pub proof fn lemma_position(&self)
        requires
            self.wf(),
        ensures
            0 <= self.position() <= self.total(),
    {
        match self.cursor {
            Some(a) => lemma_offset(
                a.row.int_value(),
                a.column.int_value(),
                self.row_bound(),
                self.column_bound(),
            ),
            None => {
                assert(0 <= self.row_bound() * self.column_bound()) by (nonlinear_arith)
                    requires
                        0 <= self.row_bound(),
                        0 <= self.column_bound(),
                ;
            },
        }
    }
}

/// MatrixRowIterator yields the values of one row, from either end.
pub struct MatrixRowIterator<'a, T, I, M> {
    matrix: &'a M,
    row: I,
    span: Span<I>,
    cells: PhantomData<T>,
}

impl<'a, T, I: Coordinate, M: Matrix<T, I>> MatrixRowIterator<'a, T, I, M> {
    /// The values not yet yielded, front to back.
    pub closed spec fn remaining(&self) -> Seq<T> {
        self.span.indices().map_values(|c: int| value_at::<T, I, M>(self.matrix, self.row.int_value(), c))
    }

    /// The matrix read.
    pub closed spec fn source(&self) -> M {
        *self.matrix
    }

    /// The row read.
    pub closed spec fn line(&self) -> int {
        self.row.int_value()
    }

    /// How many values have been yielded from the front.
    pub closed spec fn taken_front(&self) -> int {
        self.span.front()
    }

    /// How many values have been yielded from the back.
    pub closed spec fn taken_back(&self) -> int {
        column_total::<T, I, M>(self.matrix) - self.span.end()
    }

    /// After `f` values from the front and `b` from the back, the values left
    /// are those of the row from position `f` up to `len - b`.
    pub proof fn lemma_remaining(&self)
        requires
            self.wf(),
        ensures
            0 <= self.taken_front(),
            0 <= self.taken_back(),
            self.taken_front() + self.taken_back() <= column_total::<T, I, M>(&self.source()),
            self.remaining() == row_values::<T, I, M>(&self.source(), self.line()).subrange(
                self.taken_front(),
                column_total::<T, I, M>(&self.source()) - self.taken_back(),
            ),
    {
        assert(self.remaining() =~= row_values::<T, I, M>(&self.source(), self.line()).subrange(
            self.taken_front(),
            column_total::<T, I, M>(&self.source()) - self.taken_back(),
        ));
    }

    /// Whether the value is well formed: the invariant its operations keep.
    pub closed spec fn wf(&self) -> bool {
        &&& self.matrix.wf()
        &&& 0 <= self.row.int_value() < row_total::<T, I, M>(self.matrix)
        &&& self.span.wf()
        &&& 0 <= self.span.front() <= self.span.end() <= column_total::<T, I, M>(self.matrix)
    }

    /// Builds the value from its parts.
    pub(crate) fn new(matrix: &'a M, row: I) -> (r: MatrixRowIterator<'a, T, I, M>)
        requires
            matrix.wf(),
            0 <= row.int_value() < row_total::<T, I, M>(matrix),
        ensures
            r.wf(),
            r.remaining() == row_values::<T, I, M>(matrix, row.int_value()),
            r.source() == *matrix,
            r.line() == row.int_value(),
            r.taken_front() == 0,
            r.taken_back() == 0,
    {
        proof {
            matrix.lemma_shape();
        }
        let r = MatrixRowIterator {
            matrix,
            row,
            span: Span::new(matrix.column_count()),
            cells: PhantomData,
        };
        assert(r.remaining() =~= row_values::<T, I, M>(matrix, row.int_value()));
        r
    }

    /// Yields the next value from the front.
    pub fn next(&mut self) -> (r: Option<&'a T>)
        requires
            old(self).wf(),
        ensures
            final(self).wf(),
            r is Some <==> old(self).remaining().len() > 0,
            final(self).source() == old(self).source(),
            final(self).line() == old(self).line(),
            r is Some <==> old(self).taken_front() + old(self).taken_back() < column_total::<T, I, M>(&old(self).source()),
            r is Some ==> *r->0 == old(self).remaining()[0],
            r is Some ==> *r->0 == value_at::<T, I, M>(&old(self).source(), old(self).line(), old(self).taken_front()),
            r is Some ==> final(self).taken_front() == old(self).taken_front() + 1
                && final(self).taken_back() == old(self).taken_back(),
            r is None ==> final(self).taken_front() == old(self).taken_front()
                && final(self).taken_back() == old(self).taken_back(),
            r is Some ==> final(self).remaining() == old(self).remaining().drop_first(),
            r is None ==> final(self).remaining() == old(self).remaining(),
    {
        let ghost before = self.remaining();
        match self.span.take_front() {
            Some(column) => {
                assert(self.remaining() =~= before.drop_first());
                read_cell(self.matrix, self.row, column)
            },
            None => {
                assert(self.remaining() =~= before);
                None
            },
        }
    }

    /// Yields the next value from the back.
    pub fn next_back(&mut self) -> (r: Option<&'a T>)
        requires
            old(self).wf(),
        ensures
            final(self).wf(),
            r is Some <==> old(self).remaining().len() > 0,
            final(self).source() == old(self).source(),
            final(self).line() == old(self).line(),
            r is Some <==> old(self).taken_front() + old(self).taken_back() < column_total::<T, I, M>(&old(self).source()),
            r is Some ==> *r->0 == old(self).remaining().last(),
            r is Some ==> *r->0 == value_at::<T, I, M>(&old(self).source(), old(self).line(), column_total::<T, I, M>(&old(self).source()) - 1 - old(self).taken_back()),
            r is Some ==> final(self).taken_back() == old(self).taken_back() + 1
                && final(self).taken_front() == old(self).taken_front(),
            r is None ==> final(self).taken_front() == old(self).taken_front()
                && final(self).taken_back() == old(self).taken_back(),
            r is Some ==> final(self).remaining() == old(self).remaining().drop_last(),
            r is None ==> final(self).remaining() == old(self).remaining(),
    {
        let ghost before = self.remaining();
        match self.span.take_back() {
            Some(column) => {
                assert(self.remaining() =~= before.drop_last());
                read_cell(self.matrix, self.row, column)
            },
            None => {
                assert(self.remaining() =~= before);
                None
            },
        }
    }

    /// The values not yet yielded, front to back.
    pub fn collect(self) -> (r: Vec<&'a T>)
        requires
            self.wf(),
        ensures
            r@.len() == self.remaining().len(),
            forall|j: int| 0 <= j < r@.len() ==> *#[trigger] r@[j] == self.remaining()[j],
    {
        let mut it = self;
        let mut out: Vec<&'a T> = Vec::new();
        loop
            invariant
                it.wf(),
                out@.len() + it.remaining().len() == self.remaining().len(),
                forall|j: int| 0 <= j < out@.len() ==> *#[trigger] out@[j] == self.remaining()[j],
                it.remaining() == self.remaining().subrange(out@.len() as int, self.remaining().len() as int),
            decreases it.remaining().len(),
        {
            match it.next() {
                Some(v) => {
                    out.push(v);
                },
                None => {
                    return out;
                },
            }
        }
    }
}

/// MatrixColumnIterator yields the values of one column, from either end.
pub struct MatrixColumnIterator<'a, T, I, M> {
    matrix: &'a M,
    column: I,
    span: Span<I>,
    cells: PhantomData<T>,
}

impl<'a, T, I: Coordinate, M: Matrix<T, I>> MatrixColumnIterator<'a, T, I, M> {
    /// The values not yet yielded, front to back.
    pub closed spec fn remaining(&self) -> Seq<T> {
        self.span.indices().map_values(|r: int| value_at::<T, I, M>(self.matrix, r, self.column.int_value()))
    }

    /// The matrix read.
    pub closed spec fn source(&self) -> M {
        *self.matrix
    }

    /// The column read.
    pub closed spec fn line(&self) -> int {
        self.column.int_value()
    }

    /// How many values have been yielded from the front.
    pub closed spec fn taken_front(&self) -> int {
        self.span.front()
    }

    /// How many values have been yielded from the back.
    pub closed spec fn taken_back(&self) -> int {
        row_total::<T, I, M>(self.matrix) - self.span.end()
    }

    /// After `f` values from the front and `b` from the back, the values left
    /// are those of the column from position `f` up to `len - b`.
    pub proof fn lemma_remaining(&self)
        requires
            self.wf(),
        ensures
            0 <= self.taken_front(),
            0 <= self.taken_back(),
            self.taken_front() + self.taken_back() <= row_total::<T, I, M>(&self.source()),
            self.remaining() == column_values::<T, I, M>(&self.source(), self.line()).subrange(
                self.taken_front(),
                row_total::<T, I, M>(&self.source()) - self.taken_back(),
            ),
    {
        assert(self.remaining() =~= column_values::<T, I, M>(&self.source(), self.line()).subrange(
            self.taken_front(),
            row_total::<T, I, M>(&self.source()) - self.taken_back(),
        ));
    }

    /// Whether the value is well formed: the invariant its operations keep.
    pub closed spec fn wf(&self) -> bool {
        &&& self.matrix.wf()
        &&& 0 <= self.column.int_value() < column_total::<T, I, M>(self.matrix)
        &&& self.span.wf()
        &&& 0 <= self.span.front() <= self.span.end() <= row_total::<T, I, M>(self.matrix)
    }

    /// Builds the value from its parts.
    pub(crate) fn new(matrix: &'a M, column: I) -> (r: MatrixColumnIterator<'a, T, I, M>)
        requires
            matrix.wf(),
            0 <= column.int_value() < column_total::<T, I, M>(matrix),
        ensures
            r.wf(),
            r.remaining() == column_values::<T, I, M>(matrix, column.int_value()),
            r.source() == *matrix,
            r.line() == column.int_value(),
            r.taken_front() == 0,
            r.taken_back() == 0,
    {
        proof {
            matrix.lemma_shape();
        }
        let r = MatrixColumnIterator {
            matrix,
            column,
            span: Span::new(matrix.row_count()),
            cells: PhantomData,
        };
        assert(r.remaining() =~= column_values::<T, I, M>(matrix, column.int_value()));
        r
    }

    /// Yields the next value from the front.
    pub fn next(&mut self) -> (r: Option<&'a T>)
        requires
            old(self).wf(),
        ensures
            final(self).wf(),
            r is Some <==> old(self).remaining().len() > 0,
            final(self).source() == old(self).source(),
            final(self).line() == old(self).line(),
            r is Some <==> old(self).taken_front() + old(self).taken_back() < row_total::<T, I, M>(&old(self).source()),
            r is Some ==> *r->0 == old(self).remaining()[0],
            r is Some ==> *r->0 == value_at::<T, I, M>(&old(self).source(), old(self).taken_front(), old(self).line()),
            r is Some ==> final(self).taken_front() == old(self).taken_front() + 1
                && final(self).taken_back() == old(self).taken_back(),
            r is None ==> final(self).taken_front() == old(self).taken_front()
                && final(self).taken_back() == old(self).taken_back(),
            r is Some ==> final(self).remaining() == old(self).remaining().drop_first(),
            r is None ==> final(self).remaining() == old(self).remaining(),
    {
        let ghost before = self.remaining();
        match self.span.take_front() {
            Some(row) => {
                assert(self.remaining() =~= before.drop_first());
                read_cell(self.matrix, row, self.column)
            },
            None => {
                assert(self.remaining() =~= before);
                None
            },
        }
    }

    /// Yields the next value from the back.
    pub fn next_back(&mut self) -> (r: Option<&'a T>)
        requires
            old(self).wf(),
        ensures
            final(self).wf(),
            r is Some <==> old(self).remaining().len() > 0,
            final(self).source() == old(self).source(),
            final(self).line() == old(self).line(),
            r is Some <==> old(self).taken_front() + old(self).taken_back() < row_total::<T, I, M>(&old(self).source()),
            r is Some ==> *r->0 == old(self).remaining().last(),
            r is Some ==> *r->0 == value_at::<T, I, M>(&old(self).source(), row_total::<T, I, M>(&old(self).source()) - 1 - old(self).taken_back(), old(self).line()),
            r is Some ==> final(self).taken_back() == old(self).taken_back() + 1
                && final(self).taken_front() == old(self).taken_front(),
            r is None ==> final(self).taken_front() == old(self).taken_front()
                && final(self).taken_back() == old(self).taken_back(),
            r is Some ==> final(self).remaining() == old(self).remaining().drop_last(),
            r is None ==> final(self).remaining() == old(self).remaining(),
    {
        let ghost before = self.remaining();
        match self.span.take_back() {
            Some(row) => {
                assert(self.remaining() =~= before.drop_last());
                read_cell(self.matrix, row, self.column)
            },
            None => {
                assert(self.remaining() =~= before);
                None
            },
        }
    }

    /// The values not yet yielded, front to back.
    pub fn collect(self) -> (r: Vec<&'a T>)
        requires
            self.wf(),
        ensures
            r@.len() == self.remaining().len(),
            forall|j: int| 0 <= j < r@.len() ==> *#[trigger] r@[j] == self.remaining()[j],
    {
        let mut it = self;
        let mut out: Vec<&'a T> = Vec::new();
        loop
            invariant
                it.wf(),
                out@.len() + it.remaining().len() == self.remaining().len(),
                forall|j: int| 0 <= j < out@.len() ==> *#[trigger] out@[j] == self.remaining()[j],
                it.remaining() == self.remaining().subrange(out@.len() as int, self.remaining().len() as int),
            decreases it.remaining().len(),
        {
            match it.next() {
                Some(v) => {
                    out.push(v);
                },
                None => {
                    return out;
                },
            }
        }
    }
}


/// MatrixRowsIterator yields a view of each row of a matrix, from either end.
pub struct MatrixRowsIterator<'a, T, I, M> {
    matrix: &'a M,
    span: Span<I>,
    cells: PhantomData<T>,
}

impl<'a, T, I: Coordinate, M: Matrix<T, I>> MatrixRowsIterator<'a, T, I, M> {
    /// The matrix whose rows are yielded.
    pub closed spec fn source(&self) -> M {
        *self.matrix
    }

    /// The numbers of the rows not yet yielded, front to back.
    pub closed spec fn remaining(&self) -> Seq<int> {
        self.span.indices()
    }

    /// Whether the value is well formed: the invariant its operations keep.
    pub closed spec fn wf(&self) -> bool {
        &&& self.matrix.wf()
        &&& self.span.wf()
        &&& 0 <= self.span.front() <= self.span.end() <= row_total::<T, I, M>(self.matrix)
    }

    /// Builds the value from its parts.
    pub(crate) fn new(matrix: &'a M) -> (r: MatrixRowsIterator<'a, T, I, M>)
        requires
            matrix.wf(),
        ensures
            r.wf(),
            r.source() == *matrix,
            r.remaining() == Seq::new(row_total::<T, I, M>(matrix) as nat, |i: int| i),
    {
        proof {
            matrix.lemma_shape();
        }
        let r = MatrixRowsIterator { matrix, span: Span::new(matrix.row_count()), cells: PhantomData };
        assert(r.remaining() =~= Seq::new(row_total::<T, I, M>(matrix) as nat, |i: int| i));
        r
    }

    /// Yields a view of the next row from the front.
    pub fn next(&mut self) -> (r: Option<Row<'a, T, I, M>>)
        requires
            old(self).wf(),
        ensures
            final(self).wf(),
            final(self).source() == old(self).source(),
            r is Some <==> old(self).remaining().len() > 0,
            r is Some ==> {
                &&& r->0.wf()
                &&& r->0.source() == old(self).source()
                &&& r->0.row_index() == old(self).remaining()[0]
                &&& final(self).remaining() == old(self).remaining().drop_first()
            },
            r is None ==> final(self).remaining() == old(self).remaining(),
    {
        let ghost before = self.remaining();
        match self.span.take_front() {
            Some(row) => {
                assert(self.remaining() =~= before.drop_first());
                Some(Row::new(self.matrix, row))
            },
            None => {
                assert(self.remaining() =~= before);
                None
            },
        }
    }

    /// Yields a view of the next row from the back.
    pub fn next_back(&mut self) -> (r: Option<Row<'a, T, I, M>>)
        requires
            old(self).wf(),
        ensures
            final(self).wf(),
            final(self).source() == old(self).source(),
            r is Some <==> old(self).remaining().len() > 0,
            r is Some ==> {
                &&& r->0.wf()
                &&& r->0.source() == old(self).source()
                &&& r->0.row_index() == old(self).remaining().last()
                &&& final(self).remaining() == old(self).remaining().drop_last()
            },
            r is None ==> final(self).remaining() == old(self).remaining(),
    {
        let ghost before = self.remaining();
        match self.span.take_back() {
            Some(row) => {
                assert(self.remaining() =~= before.drop_last());
                Some(Row::new(self.matrix, row))
            },
            None => {
                assert(self.remaining() =~= before);
                None
            },
        }
    }
}

/// MatrixColumnsIterator yields a view of each column of a matrix, from either end.
pub struct MatrixColumnsIterator<'a, T, I, M> {
    matrix: &'a M,
    span: Span<I>,
    cells: PhantomData<T>,
}

impl<'a, T, I: Coordinate, M: Matrix<T, I>> MatrixColumnsIterator<'a, T, I, M> {
    /// The matrix whose columns are yielded.
    pub closed spec fn source(&self) -> M {
        *self.matrix
    }

    /// The numbers of the columns not yet yielded, front to back.
    pub closed spec fn remaining(&self) -> Seq<int> {
        self.span.indices()
    }

    /// Whether the value is well formed: the invariant its operations keep.
    pub closed spec fn wf(&self) -> bool {
        &&& self.matrix.wf()
        &&& self.span.wf()
        &&& 0 <= self.span.front() <= self.span.end() <= column_total::<T, I, M>(self.matrix)
    }

    /// Builds the value from its parts.
    pub(crate) fn new(matrix: &'a M) -> (r: MatrixColumnsIterator<'a, T, I, M>)
        requires
            matrix.wf(),
        ensures
            r.wf(),
            r.source() == *matrix,
            r.remaining() == Seq::new(column_total::<T, I, M>(matrix) as nat, |i: int| i),
    {
        proof {
            matrix.lemma_shape();
        }
        let r = MatrixColumnsIterator { matrix, span: Span::new(matrix.column_count()), cells: PhantomData };
        assert(r.remaining() =~= Seq::new(column_total::<T, I, M>(matrix) as nat, |i: int| i));
        r
    }

    /// Yields a view of the next column from the front.
    pub fn next(&mut self) -> (r: Option<Column<'a, T, I, M>>)
        requires
            old(self).wf(),
        ensures
            final(self).wf(),
            final(self).source() == old(self).source(),
            r is Some <==> old(self).remaining().len() > 0,
            r is Some ==> {
                &&& r->0.wf()
                &&& r->0.source() == old(self).source()
                &&& r->0.column_index() == old(self).remaining()[0]
                &&& final(self).remaining() == old(self).remaining().drop_first()
            },
            r is None ==> final(self).remaining() == old(self).remaining(),
    {
        let ghost before = self.remaining();
        match self.span.take_front() {
            Some(column) => {
                assert(self.remaining() =~= before.drop_first());
                Some(Column::new(self.matrix, column))
            },
            None => {
                assert(self.remaining() =~= before);
                None
            },
        }
    }

    /// Yields a view of the next column from the back.
    pub fn next_back(&mut self) -> (r: Option<Column<'a, T, I, M>>)
        requires
            old(self).wf(),
        ensures
            final(self).wf(),
            final(self).source() == old(self).source(),
            r is Some <==> old(self).remaining().len() > 0,
            r is Some ==> {
                &&& r->0.wf()
                &&& r->0.source() == old(self).source()
                &&& r->0.column_index() == old(self).remaining().last()
                &&& final(self).remaining() == old(self).remaining().drop_last()
            },
            r is None ==> final(self).remaining() == old(self).remaining(),
    {
        let ghost before = self.remaining();
        match self.span.take_back() {
            Some(column) => {
                assert(self.remaining() =~= before.drop_last());
                Some(Column::new(self.matrix, column))
            },
            None => {
                assert(self.remaining() =~= before);
                None
            },
        }
    }
}

/// MatrixValueIterator yields the values of a matrix in row-major order,
/// starting at the origin.
pub struct MatrixValueIterator<'a, T, I, M> {
    matrix: &'a M,
    addrs: MatrixForwardIterator<I>,
    cells: PhantomData<T>,
}

impl<'a, T, I: Coordinate, M: Matrix<T, I>> MatrixValueIterator<'a, T, I, M> {
    /// The matrix whose values are yielded.
    pub closed spec fn source(&self) -> M {
        *self.matrix
    }

    /// How many values have been yielded.
    pub closed spec fn position(&self) -> int {
        self.addrs.position()
    }

    /// Whether the value is well formed: the invariant its operations keep.
    pub closed spec fn wf(&self) -> bool {
        &&& self.matrix.wf()
        &&& self.addrs.wf()
        &&& self.addrs.row_bound() == row_total::<T, I, M>(self.matrix)
        &&& self.addrs.column_bound() == column_total::<T, I, M>(self.matrix)
    }

    /// Builds the value from its parts.
    pub(crate) fn new(matrix: &'a M) -> (r: MatrixValueIterator<'a, T, I, M>)
        requires
            matrix.wf(),
        ensures
            r.wf(),
            r.source() == *matrix,
            r.position() == 0,
    {
        MatrixValueIterator { matrix, addrs: matrix.addresses(), cells: PhantomData }
    }

    /// Yields the next value in row-major order: position `k` holds the value
    /// at row `k / columns` and column `k % columns`.
    pub fn next(&mut self) -> (r: Option<&'a T>)
        requires
            old(self).wf(),
        ensures
            final(self).wf(),
            final(self).source() == old(self).source(),
            r is Some <==> old(self).position() < row_total::<T, I, M>(&old(self).source())
                * column_total::<T, I, M>(&old(self).source()),
            r is Some ==> {
                let cell = row_major_cell(
                    old(self).position(),
                    column_total::<T, I, M>(&old(self).source()),
                );
                &&& *r->0 == value_at::<T, I, M>(&old(self).source(), cell.0, cell.1)
                &&& final(self).position() == old(self).position() + 1
            },
            r is None ==> final(self).position() == old(self).position(),
    {
        match self.addrs.next() {
            None => None,
            Some(a) => {
                proof {
                    self.addrs.lemma_position();
                    lemma_offset_inside(a, self.addrs);
                }
                read_cell(self.matrix, a.row, a.column)
            },
        }
    }
}

impl<'a, T, I: Coordinate, M: Matrix<T, I>> MatrixValueIterator<'a, T, I, M> {
    /// The values not yet yielded, in row-major order.
    pub fn collect(self) -> (r: Vec<&'a T>)
        requires
            self.wf(),
        ensures
            r@.len() == row_total::<T, I, M>(&self.source()) * column_total::<T, I, M>(
                &self.source(),
            ) - self.position(),
            forall|j: int|
                0 <= j < r@.len() ==> {
                    let cell = row_major_cell(
                        self.position() + j,
                        column_total::<T, I, M>(&self.source()),
                    );
                    *#[trigger] r@[j] == value_at::<T, I, M>(&self.source(), cell.0, cell.1)
                },
    {
        let mut it = self;
        let mut out: Vec<&'a T> = Vec::new();
        proof {
            it.addrs.lemma_position();
        }
        loop
            invariant
                it.wf(),
                it.source() == self.source(),
                0 <= it.position() <= row_total::<T, I, M>(&self.source()) * column_total::<
                    T,
                    I,
                    M,
                >(&self.source()),
                it.position() == self.position() + out@.len(),
                forall|j: int|
                    0 <= j < out@.len() ==> {
                        let cell = row_major_cell(
                            self.position() + j,
                            column_total::<T, I, M>(&self.source()),
                        );
                        *#[trigger] out@[j] == value_at::<T, I, M>(&self.source(), cell.0, cell.1)
                    },
            decreases row_total::<T, I, M>(&self.source()) * column_total::<T, I, M>(
                &self.source(),
            ) - it.position(),
        {
            match it.next() {
                Some(v) => {
                    out.push(v);
                },
                None => {
                    return out;
                },
            }
        }
    }
}

/// MatrixForwardIndexedIterator yields each address of a matrix with its
/// value, in row-major order, starting at the origin.
pub struct MatrixForwardIndexedIterator<'a, T, I, M> {
    matrix: &'a M,
    addrs: MatrixForwardIterator<I>,
    cells: PhantomData<T>,
}

impl<'a, T, I: Coordinate, M: Matrix<T, I>> MatrixForwardIndexedIterator<'a, T, I, M> {
    /// The matrix whose values are yielded.
    pub closed spec fn source(&self) -> M {
        *self.matrix
    }

    /// How many values have been yielded.
    pub closed spec fn position(&self) -> int {
        self.addrs.position()
    }

    /// Whether the value is well formed: the invariant its operations keep.
    pub closed spec fn wf(&self) -> bool {
        &&& self.matrix.wf()
        &&& self.addrs.wf()
        &&& self.addrs.row_bound() == row_total::<T, I, M>(self.matrix)
        &&& self.addrs.column_bound() == column_total::<T, I, M>(self.matrix)
    }

    /// Builds the value from its parts.
    pub(crate) fn new(matrix: &'a M) -> (r: MatrixForwardIndexedIterator<'a, T, I, M>)
        requires
            matrix.wf(),
        ensures
            r.wf(),
            r.source() == *matrix,
            r.position() == 0,
    {
        MatrixForwardIndexedIterator { matrix, addrs: matrix.addresses(), cells: PhantomData }
    }

    /// Yields the next address and its value in row-major order: position `k`
    /// holds row `k / columns` and column `k % columns`.
    pub fn next(&mut self) -> (r: Option<(MatrixAddress<I>, &'a T)>)
        requires
            old(self).wf(),
        ensures
            final(self).wf(),
            final(self).source() == old(self).source(),
            r is Some <==> old(self).position() < row_total::<T, I, M>(&old(self).source())
                * column_total::<T, I, M>(&old(self).source()),
            r is Some ==> {
                let cell = row_major_cell(
                    old(self).position(),
                    column_total::<T, I, M>(&old(self).source()),
                );
                &&& (r->0).0.cell() == cell
                &&& *(r->0).1 == value_at::<T, I, M>(&old(self).source(), cell.0, cell.1)
                &&& final(self).position() == old(self).position() + 1
            },
            r is None ==> final(self).position() == old(self).position(),
    {
        match self.addrs.next() {
            None => None,
            Some(a) => {
                proof {
                    self.addrs.lemma_position();
                    lemma_offset_inside(a, self.addrs);
                }
                match read_cell(self.matrix, a.row, a.column) {
                    Some(v) => Some((a, v)),
                    None => None,
                }
            },
        }
    }
}

/// The address at a position before the end of the iteration lies inside.
pub(crate) proof fn lemma_offset_inside<I: Coordinate>(a: MatrixAddress<I>, it: MatrixForwardIterator<I>)
    requires
        it.wf(),
        1 <= it.position() <= it.total(),
        a.cell() == row_major_cell(it.position() - 1, it.column_bound()),
    ensures
        0 <= a.row.int_value() < it.row_bound(),
        0 <= a.column.int_value() < it.column_bound(),
{
    let k = it.position() - 1;
    let nc = it.column_bound();
    let nr = it.row_bound();
    assert(nc > 0) by (nonlinear_arith)
        requires
            1 <= nr * nc,
            0 <= nr,
            0 <= nc,
    ;
    lemma_fundamental_div_mod(k, nc);
    assert(0 <= k / nc < nr) by (nonlinear_arith)
        requires
            0 <= k < nr * nc,
            0 < nc,
            k == nc * (k / nc) + k % nc,
            0 <= k % nc < nc,
    ;
}

} // verus!
