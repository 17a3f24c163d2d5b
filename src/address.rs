use vstd::prelude::*;
use vstd::string::StringExecFns;

use crate::coordinate::{Coordinate, Integral};
use crate::text::{append_decimal, decimal};

verus! {

/// Dimension is an axis of a store, numbered from zero.
pub type Dimension = usize;

/// An address names one cell of a store by one coordinate per dimension, and
/// converts to and from an array of those coordinates.
pub trait Address<V, const DIMENSION: usize>: Sized {
    /// The coordinate of the address along dimension `d`.
    spec fn coordinate_spec(&self, d: int) -> V;

    fn coordinate(&self, d: Dimension) -> (r: V)
        requires
            d < DIMENSION,
        ensures
            r == self.coordinate_spec(d as int),
    ;

    fn from_coordinates(values: [V; DIMENSION]) -> (r: Self)
        ensures
            forall|d: int| 0 <= d < DIMENSION ==> #[trigger] r.coordinate_spec(d) == values@[d],
    ;

    fn to_coordinates(&self) -> (r: [V; DIMENSION])
        ensures
            forall|d: int| 0 <= d < DIMENSION ==> #[trigger] r@[d] == self.coordinate_spec(d),
    ;
}

/// MatrixAddress references a cell of a matrix by its row and column. Rows are
/// numbered from zero at the top and columns from zero at the left, so the
/// origin is the upper-left cell. Addresses order row-major: row first, then
/// column.
#[derive(Copy, Clone, Debug, Default, Eq, Hash, PartialEq, PartialOrd, Ord)]
pub struct MatrixAddress<I> {
    pub row: I,
    pub column: I,
}

/// LogicalDimension names the dimensions of a matrix address.
#[derive(Copy, Clone, Debug, PartialEq, Eq)]
pub enum LogicalDimension {
    Column,
    Row,
}

impl LogicalDimension {
    /// The dimension number: columns are dimension 0, rows dimension 1.
    pub open spec fn index_spec(self) -> int {
        match self {
            LogicalDimension::Column => 0,
            LogicalDimension::Row => 1,
        }
    }

    pub fn index(self) -> (r: Dimension)
        ensures
            r == self.index_spec(),
    {
        match self {
            LogicalDimension::Column => 0,
            LogicalDimension::Row => 1,
        }
    }
}

/// The row-major order of two cells given by their integer row and column.
pub open spec fn cell_before(a: (int, int), b: (int, int)) -> bool {
    a.0 < b.0 || (a.0 == b.0 && a.1 < b.1)
}

/// Whether a cell lies in a matrix of `rows` rows and `columns` columns.
pub open spec fn cell_inside(cell: (int, int), rows: int, columns: int) -> bool {
    0 <= cell.0 < rows && 0 <= cell.1 < columns
}

/// The cell itself if it lies in the matrix, else nothing.
pub open spec fn keep_inside(cell: (int, int), rows: int, columns: int) -> Seq<(int, int)> {
    if cell_inside(cell, rows, columns) {
        seq![cell]
    } else {
        seq![]
    }
}

/// The 8-connected neighbours of cell `(r, c)` that lie in a matrix of `rows`
/// rows and `columns` columns, in row-major order.
pub open spec fn neighbor_cells(r: int, c: int, rows: int, columns: int) -> Seq<(int, int)> {
    keep_inside((r - 1, c - 1), rows, columns) + keep_inside((r - 1, c), rows, columns)
        + keep_inside((r - 1, c + 1), rows, columns) + keep_inside((r, c - 1), rows, columns)
        + keep_inside((r, c + 1), rows, columns) + keep_inside((r + 1, c - 1), rows, columns)
        + keep_inside((r + 1, c), rows, columns) + keep_inside((r + 1, c + 1), rows, columns)
}

/// The address with its row and column swapped.
pub open spec fn transposed<I>(a: MatrixAddress<I>) -> MatrixAddress<I> {
    MatrixAddress { row: a.column, column: a.row }
}

/// Transposing an address twice gives the address back.
pub proof fn lemma_transpose_involutive<I>(a: MatrixAddress<I>)
    ensures
        transposed(transposed(a)) == a,
{
}

impl<I: Coordinate> MatrixAddress<I> {
    /// The address as a pair of integers, row first.
    pub open spec fn cell(self) -> (int, int) {
        (self.row.int_value(), self.column.int_value())
    }

    /// transpose swaps the row and the column of the address.
    pub fn transpose(&self) -> (r: MatrixAddress<I>)
        ensures
            r == transposed(*self),
    {
        MatrixAddress { row: self.column, column: self.row }
    }

    /// The address as text, `(row=R,col=C)`.
    pub fn to_string(&self) -> (r: String)
        requires
            -usize::MAX <= self.row.int_value() <= usize::MAX,
            -usize::MAX <= self.column.int_value() <= usize::MAX,
        ensures
            r@ == address_text(self.row.int_value(), self.column.int_value()),
    {
        let mut out = "(row=".to_owned();
        append_coordinate(&mut out, self.row);
        out.append(",col=");
        append_coordinate(&mut out, self.column);
        out.append(")");
        assert(out@ =~= address_text(self.row.int_value(), self.column.int_value()));
        out
    }

    /// The coordinate named by a logical dimension.
    pub fn at(&self, dimension: LogicalDimension) -> (r: I)
        ensures
            r == self.coordinate_spec(dimension.index_spec()),
    {
        match dimension {
            LogicalDimension::Row => self.row,
            LogicalDimension::Column => self.column,
        }
    }

    /// Componentwise sum. The result is not checked against any matrix.
    pub fn plus(&self, rhs: &MatrixAddress<I>) -> (r: MatrixAddress<I>)
        requires
            I::min_int() <= self.row.int_value() + rhs.row.int_value() <= I::max_int(),
            I::min_int() <= self.column.int_value() + rhs.column.int_value() <= I::max_int(),
        ensures
            r.row.int_value() == self.row.int_value() + rhs.row.int_value(),
            r.column.int_value() == self.column.int_value() + rhs.column.int_value(),
    {
        MatrixAddress { row: self.row.plus(rhs.row), column: self.column.plus(rhs.column) }
    }

    /// Componentwise difference. The result is not checked against any matrix.
    pub fn minus(&self, rhs: &MatrixAddress<I>) -> (r: MatrixAddress<I>)
        requires
            I::min_int() <= self.row.int_value() - rhs.row.int_value() <= I::max_int(),
            I::min_int() <= self.column.int_value() - rhs.column.int_value() <= I::max_int(),
        ensures
            r.row.int_value() == self.row.int_value() - rhs.row.int_value(),
            r.column.int_value() == self.column.int_value() - rhs.column.int_value(),
    {
        MatrixAddress { row: self.row.minus(rhs.row), column: self.column.minus(rhs.column) }
    }

    /// The origin address, row zero and column zero.
    pub fn origin() -> (r: MatrixAddress<I>)
        ensures
            r.cell() == (0int, 0int),
    {
        MatrixAddress { row: I::zero(), column: I::zero() }
    }

    /// neighbors returns the 8-connected neighbours of this address that lie in
    /// a matrix of `rows` rows and `columns` columns, in row-major order. The
    /// address itself need not lie in the matrix.
    pub fn neighbors_within(&self, rows: I, columns: I) -> (r: Vec<MatrixAddress<I>>)
        ensures
            r@.map_values(|a: MatrixAddress<I>| a.cell()) == neighbor_cells(
                self.row.int_value(),
                self.column.int_value(),
                rows.int_value(),
                columns.int_value(),
            ),
    {
        let up = step_within(self.row, -1, rows);
        let down = step_within(self.row, 1, rows);
        let same_row = step_within(self.row, 0, rows);
        let left = step_within(self.column, -1, columns);
        let right = step_within(self.column, 1, columns);
        let same_column = step_within(self.column, 0, columns);
        let mut out: Vec<MatrixAddress<I>> = Vec::new();
        push_pair(&mut out, up, left);
        push_pair(&mut out, up, same_column);
        push_pair(&mut out, up, right);
        push_pair(&mut out, same_row, left);
        push_pair(&mut out, same_row, right);
        push_pair(&mut out, down, left);
        push_pair(&mut out, down, same_column);
        push_pair(&mut out, down, right);
        let ghost (r, c, nr, nc) = (
            self.row.int_value(),
            self.column.int_value(),
            rows.int_value(),
            columns.int_value(),
        );
        assert(out@.map_values(|a: MatrixAddress<I>| a.cell()) =~= neighbor_cells(r, c, nr, nc));
        out
    }
}

/// The decimal text of an integer, with a leading minus sign when negative.
pub open spec fn signed_decimal(v: int) -> Seq<char> {
    if v < 0 {
        seq!['-'] + decimal((-v) as nat)
    } else {
        decimal(v as nat)
    }
}

/// The text of an address: `(row=R,col=C)`.
pub open spec fn address_text(row: int, column: int) -> Seq<char> {
    "(row="@ + signed_decimal(row) + ",col="@ + signed_decimal(column) + ")"@
}

/// Appends the decimal text of a coordinate whose magnitude is a size.
fn append_coordinate<I: Coordinate>(s: &mut String, v: I)
    requires
        -usize::MAX <= v.int_value() <= usize::MAX,
    ensures
        final(s)@ == old(s)@ + signed_decimal(v.int_value()),
{
    proof {
        I::lemma_bounds(v);
    }
    let zero = I::zero();
    let ghost before = s@;
    if v.precedes(&zero) {
        let below = zero.minus(v.plus(I::unit()));
        let magnitude = below.to_usize().unwrap() + 1;
        s.append("-");
        append_decimal(s, magnitude as u128);
        proof {
            reveal_strlit("-");
            assert("-"@ =~= seq!['-']);
        }
        assert(s@ =~= before + signed_decimal(v.int_value()));
    } else {
        append_decimal(s, v.to_usize().unwrap() as u128);
    }
}

/// `x + delta` when it lies in `[0, bound)`.
fn step_within<I: Coordinate>(x: I, delta: i8, bound: I) -> (r: Option<I>)
    requires
        -1 <= delta <= 1,
    ensures
        r is Some <==> 0 <= x.int_value() + delta < bound.int_value(),
        r is Some ==> r->0.int_value() == x.int_value() + delta,
{
    proof {
        I::lemma_bounds(x);
        I::lemma_bounds(bound);
    }
    let zero = I::zero();
    let one = I::unit();
    if delta < 0 {
        if zero.precedes(&x) && !bound.precedes(&x) {
            Some(x.minus(one))
        } else {
            None
        }
    } else if delta == 0 {
        if !x.precedes(&zero) && x.precedes(&bound) {
            Some(x)
        } else {
            None
        }
    } else {
        if x.precedes(&bound) {
            let next = x.plus(one);
            if !next.precedes(&zero) && next.precedes(&bound) {
                Some(next)
            } else {
                None
            }
        } else {
            None
        }
    }
}

/// Appends the address of a row and a column when both exist.
fn push_pair<I: Coordinate>(out: &mut Vec<MatrixAddress<I>>, row: Option<I>, column: Option<I>)
    ensures
        final(out)@.map_values(|a: MatrixAddress<I>| a.cell()) == old(out)@.map_values(
            |a: MatrixAddress<I>| a.cell(),
        ) + if row is Some && column is Some {
            seq![(row->0.int_value(), column->0.int_value())]
        } else {
            Seq::<(int, int)>::empty()
        },
{
    match (row, column) {
        (Some(r), Some(c)) => {
            out.push(MatrixAddress { row: r, column: c });
            assert(final(out)@.map_values(|a: MatrixAddress<I>| a.cell()) =~= old(out)@.map_values(
                |a: MatrixAddress<I>| a.cell(),
            ) + seq![(r.int_value(), c.int_value())]);
        },
        _ => {},
    }
}

impl<I: Coordinate> Address<I, 2> for MatrixAddress<I> {
    open spec fn coordinate_spec(&self, d: int) -> I {
        if d == 0 {
            self.column
        } else {
            self.row
        }
    }

    fn coordinate(&self, d: Dimension) -> (r: I) {
        if d == 0 {
            self.column
        } else {
            self.row
        }
    }

    fn from_coordinates(values: [I; 2]) -> (r: Self) {
        MatrixAddress { column: values[0], row: values[1] }
    }

    fn to_coordinates(&self) -> (r: [I; 2]) {
        [self.column, self.row]
    }
}

} // verus!
