use vstd::prelude::*;
use vstd::string::StringExecFns;

use crate::accessors::{Column, Row};
use crate::address::{Address, MatrixAddress};
use crate::coordinate::{Coordinate, Integral};
use crate::error::{Error, Result};
use crate::iter::{
    lemma_offset_inside, lemma_row_major_cell, MatrixColumnsIterator, MatrixForwardIndexedIterator,
    MatrixRowsIterator, MatrixValueIterator,
};
use crate::matrix::{address_of, lemma_address_of, lemma_within, Matrix};
use crate::tensor::{within, Tensor};
use crate::text::{append_decimal, decimal};
use core::ops::Range;
use vstd::arithmetic::div_mod::lemma_fundamental_div_mod;
use vstd::layout::size_of;
use vstd::std_specs::cmp::{PartialEqSpec, PartialEqSpecImpl};

verus! {

/// The offset of cell `(r, c)` in row-major storage of `columns` columns.
pub open spec fn offset(r: int, c: int, columns: int) -> int {
    r * columns + c
}

/// Distinct cells of a matrix have distinct offsets, all below the cell count.
pub proof fn lemma_offset(r: int, c: int, rows: int, columns: int)
    requires
        0 <= r < rows,
        0 <= c < columns,
    ensures
        0 <= offset(r, c, columns) < rows * columns,
        forall|r2: int, c2: int|
            0 <= r2 < rows && 0 <= c2 < columns && #[trigger] offset(r2, c2, columns) == offset(
                r,
                c,
                columns,
            ) ==> r2 == r && c2 == c,
{
    assert(0 <= r * columns + c < rows * columns) by (nonlinear_arith)
        requires
            0 <= r < rows,
            0 <= c < columns,
    ;
    assert forall|r2: int, c2: int|
        0 <= r2 < rows && 0 <= c2 < columns && #[trigger] offset(r2, c2, columns) == offset(
            r,
            c,
            columns,
        ) implies r2 == r && c2 == c by {
        assert(r2 == r) by (nonlinear_arith)
            requires
                0 <= c < columns,
                0 <= c2 < columns,
                r2 * columns + c2 == r * columns + c,
        ;
    }
}

/// DenseMatrix is a matrix that owns one contiguous row-major sequence of
/// cells: the cell at row `r` and column `c` sits at offset `r * columns + c`.
#[derive(Clone, Debug)]
pub struct DenseMatrix<T, I> {
    columns: I,
    rows: I,
    data: Vec<T>,
}

impl<T, I: Coordinate> DenseMatrix<T, I> {
    /// The number of rows.
    pub closed spec fn rows_spec(&self) -> int {
        self.rows.int_value()
    }

    /// The number of columns.
    pub closed spec fn columns_spec(&self) -> int {
        self.columns.int_value()
    }

    /// The cells in row-major order.
    pub closed spec fn cells(&self) -> Seq<T> {
        self.data@
    }

    /// The cell count is the product of the counts, which are both zero or
    /// both positive.
    pub closed spec fn well_formed(&self) -> bool {
        &&& 0 <= self.rows.int_value()
        &&& 0 <= self.columns.int_value()
        &&& (self.rows.int_value() == 0) == (self.columns.int_value() == 0)
        &&& self.data@.len() == self.rows.int_value() * self.columns.int_value()
    }

    /// What the trait's views are, in terms of the counts and the cells.
    pub proof fn lemma_view(&self)
        ensures
            self.wf() == self.well_formed(),
            self.upper().row.int_value() == self.rows_spec(),
            self.upper().column.int_value() == self.columns_spec(),
            forall|a: MatrixAddress<I>|
                #[trigger] self.cell(a) == self.cells()[offset(
                    a.row.int_value(),
                    a.column.int_value(),
                    self.columns_spec(),
                )],
    {
    }

    fn index_address(&self, address: &MatrixAddress<I>) -> (r: usize)
        requires
            self.well_formed(),
            0 <= address.row.int_value() < self.rows.int_value(),
            0 <= address.column.int_value() < self.columns.int_value(),
        ensures
            r == offset(address.row.int_value(), address.column.int_value(), self.columns.int_value()),
            r < self.data@.len(),
    {
        let ghost (r, c, nr, nc) = (
            address.row.int_value(),
            address.column.int_value(),
            self.rows.int_value(),
            self.columns.int_value(),
        );
        proof {
            lemma_offset(r, c, nr, nc);
            assert(nc <= nr * nc) by (nonlinear_arith)
                requires
                    1 <= nr,
                    0 <= nc,
            ;
            assert(r * nc <= nr * nc) by (nonlinear_arith)
                requires
                    0 <= r < nr,
                    0 <= nc,
            ;
        }
        let total = self.data.len();
        proof {
            assert(nr <= nr * nc) by (nonlinear_arith)
                requires
                    1 <= nc,
                    0 <= nr,
            ;
        }
        let row = address.row.to_usize().unwrap();
        let column = address.column.to_usize().unwrap();
        let columns = self.columns.to_usize().unwrap();
        row * columns + column
    }
}

impl<T, I: Coordinate> Tensor<T, I, MatrixAddress<I>, 2> for DenseMatrix<T, I> {
    closed spec fn wf(&self) -> bool {
        self.well_formed()
    }

    closed spec fn lower(&self) -> MatrixAddress<I> {
        MatrixAddress { row: I::from_int(0), column: I::from_int(0) }
    }

    closed spec fn upper(&self) -> MatrixAddress<I> {
        MatrixAddress { row: self.rows, column: self.columns }
    }

    closed spec fn cell(&self, address: MatrixAddress<I>) -> T {
        self.data@[offset(address.row.int_value(), address.column.int_value(), self.columns.int_value())]
    }

    fn range(&self) -> (r: Range<MatrixAddress<I>>) {
        let start = MatrixAddress::origin();
        proof {
            I::lemma_bounds(start.row);
            I::lemma_from_int(0);
            I::lemma_injective(start.row, I::from_int(0));
            I::lemma_injective(start.column, I::from_int(0));
        }
        Range { start, end: MatrixAddress { row: self.rows, column: self.columns } }
    }

    fn get(&self, address: MatrixAddress<I>) -> (r: Option<&T>) {
        proof {
            self.lemma_zero();
            lemma_within(self.lower(), self.upper(), address);
        }
        if !self.contains(&address) {
            None
        } else {
            let position = self.index_address(&address);
            Some(&self.data[position])
        }
    }

    fn get_mut(&mut self, address: MatrixAddress<I>) -> (r: Option<&mut T>) {
        proof {
            self.lemma_zero();
            lemma_within(self.lower(), self.upper(), address);
        }
        if !self.contains(&address) {
            None
        } else {
            let ghost old_self = *self;
            let position = self.index_address(&address);
            let r = &mut self.data[position];
            proof {
                let nr = old_self.rows.int_value();
                let nc = old_self.columns.int_value();
                lemma_offset(address.row.int_value(), address.column.int_value(), nr, nc);
                assert forall|b: MatrixAddress<I>|
                    within::<I, MatrixAddress<I>, 2>(old_self.lower(), old_self.upper(), b) && b
                        != address implies #[trigger] old_self.cell(b) == old_self.data@[offset(
                        b.row.int_value(),
                        b.column.int_value(),
                        nc,
                    )] && offset(b.row.int_value(), b.column.int_value(), nc) != position as int && 0
                        <= offset(b.row.int_value(), b.column.int_value(), nc) < old_self.data@.len() by {
                    lemma_within(old_self.lower(), old_self.upper(), b);
                    lemma_offset(b.row.int_value(), b.column.int_value(), nr, nc);
                    if offset(b.row.int_value(), b.column.int_value(), nc) == position as int {
                        I::lemma_injective(b.row, address.row);
                        I::lemma_injective(b.column, address.column);
                    }
                }
            }
            Some(r)
        }
    }
}

impl<T, I: Coordinate> DenseMatrix<T, I> {
    proof fn lemma_zero(&self)
        ensures
            self.lower().row.int_value() == 0,
            self.lower().column.int_value() == 0,
    {
        I::lemma_bounds(self.rows);
        I::lemma_from_int(0);
    }
}

impl<T, I: Coordinate> DenseMatrix<T, I> {
    /// iter yields every value of the matrix in row-major order.
    pub fn iter(&self) -> (r: MatrixValueIterator<'_, T, I, DenseMatrix<T, I>>)
        requires
            self.wf(),
        ensures
            r.wf(),
            r.source() == *self,
            r.position() == 0,
    {
        MatrixValueIterator::new(self)
    }

    /// indexed_iter yields every address of the matrix with its value, in
    /// row-major order.
    pub fn indexed_iter(&self) -> (r: MatrixForwardIndexedIterator<'_, T, I, DenseMatrix<T, I>>)
        requires
            self.wf(),
        ensures
            r.wf(),
            r.source() == *self,
            r.position() == 0,
    {
        MatrixForwardIndexedIterator::new(self)
    }

    /// row returns a view of the given row, if the matrix has it.
    pub fn row(&self, row_num: I) -> (r: Option<Row<'_, T, I, DenseMatrix<T, I>>>)
        requires
            self.wf(),
        ensures
            r is Some <==> 0 <= row_num.int_value() < self.upper().row.int_value(),
            r is Some ==> r->0.wf() && r->0.source() == *self && r->0.row_index()
                == row_num.int_value(),
    {
        if row_num.precedes(&I::zero()) || !row_num.precedes(&self.row_count()) {
            None
        } else {
            Some(Row::new(self, row_num))
        }
    }

    /// column returns a view of the given column, if the matrix has it.
    pub fn column(&self, column_num: I) -> (r: Option<Column<'_, T, I, DenseMatrix<T, I>>>)
        requires
            self.wf(),
        ensures
            r is Some <==> 0 <= column_num.int_value() < self.upper().column.int_value(),
            r is Some ==> r->0.wf() && r->0.source() == *self && r->0.column_index()
                == column_num.int_value(),
    {
        if column_num.precedes(&I::zero()) || !column_num.precedes(&self.column_count()) {
            None
        } else {
            Some(Column::new(self, column_num))
        }
    }

    /// rows yields a view of each row, top to bottom or from either end.
    pub fn rows(&self) -> (r: MatrixRowsIterator<'_, T, I, DenseMatrix<T, I>>)
        requires
            self.wf(),
        ensures
            r.wf(),
            r.source() == *self,
            r.remaining() == Seq::new(self.upper().row.int_value() as nat, |i: int| i),
    {
        MatrixRowsIterator::new(self)
    }

    /// columns yields a view of each column, left to right or from either end.
    pub fn columns(&self) -> (r: MatrixColumnsIterator<'_, T, I, DenseMatrix<T, I>>)
        requires
            self.wf(),
        ensures
            r.wf(),
            r.source() == *self,
            r.remaining() == Seq::new(self.upper().column.int_value() as nat, |i: int| i),
    {
        MatrixColumnsIterator::new(self)
    }
}

impl<T, I: Coordinate> Matrix<T, I> for DenseMatrix<T, I> {
    proof fn lemma_shape(&self) {
        self.lemma_zero();
    }

    fn row_count(&self) -> (r: I) {
        self.rows
    }

    fn column_count(&self) -> (r: I) {
        self.columns
    }
}

/// The message for a value count that rows do not divide.
pub open spec fn uneven_message(len: nat, rows: nat) -> Seq<char> {
    "data length "@ + decimal(len) + " is not a multiple of rows ("@ + decimal(rows) + ")"@
}

/// Why `new_matrix` refuses `rows` rows over `len` values for a coordinate type
/// whose greatest value is `max`; nothing when it accepts them.
pub open spec fn new_matrix_refusal(rows: int, len: nat, max: int) -> Option<Seq<char>> {
    if rows < 0 {
        Some("negative row count not supported"@)
    } else if rows > usize::MAX {
        Some("row count cannot be coerced to usize"@)
    } else if len == 0 && rows == 0 {
        None
    } else if len == 0 {
        Some("missing row data"@)
    } else if rows == 0 || len % (rows as nat) != 0 {
        Some(uneven_message(len, rows as nat))
    } else if len / (rows as nat) > max {
        Some("cannot convert columns back to I"@)
    } else {
        None
    }
}

/// The column count that `new_matrix` derives from `rows` rows over `len` values.
pub open spec fn derived_columns(rows: int, len: nat) -> int {
    if rows <= 0 {
        0
    } else {
        len as int / rows
    }
}

/// The message for counts whose product is no size.
pub open spec fn overflow_message(rows: nat, columns: nat) -> Seq<char> {
    "rows "@ + decimal(rows) + " * columns "@ + decimal(columns) + " overflows vector max capacity"@
}

/// Why a matrix of `rows` rows and `columns` columns of cells of `size` bytes
/// cannot be made; nothing when it can.
pub open spec fn shape_refusal(rows: int, columns: int, size: nat) -> Option<Seq<char>> {
    if rows < 0 || columns < 0 {
        Some("negative Matrix dimensions are not supported"@)
    } else if (rows == 0) != (columns == 0) {
        Some("zero x non-zero Matrix dimensions are not supported"@)
    } else if rows > usize::MAX || columns > usize::MAX || rows * columns > usize::MAX {
        Some(overflow_message(rows as nat, columns as nat))
    } else if rows * columns * size > isize::MAX {
        Some("requested Matrix exceeds allocatable vector size"@)
    } else {
        None
    }
}

/// Two matrices are equal when their counts are equal and their cells are
/// equal in row-major order.
impl<T: PartialEq + PartialEqSpec, I: Coordinate> PartialEq for DenseMatrix<T, I> {
    fn eq(&self, other: &DenseMatrix<T, I>) -> (r: bool) {
        if !self.rows.equals(&other.rows) || !self.columns.equals(&other.columns) {
            return false;
        }
        if self.data.len() != other.data.len() {
            return false;
        }
        let mut i: usize = 0;
        while i < self.data.len()
            invariant
                i <= self.data@.len(),
                self.data@.len() == other.data@.len(),
                T::obeys_eq_spec() ==> forall|j: int|
                    0 <= j < i ==> #[trigger] self.data@[j].eq_spec(&other.data@[j]),
            decreases self.data@.len() - i,
        {
            if !(self.data[i] == other.data[i]) {
                return false;
            }
            i += 1;
        }
        true
    }
}

impl<T: PartialEq + PartialEqSpec, I: Coordinate> PartialEqSpecImpl for DenseMatrix<T, I> {
    open spec fn obeys_eq_spec() -> bool {
        T::obeys_eq_spec()
    }

    open spec fn eq_spec(&self, other: &DenseMatrix<T, I>) -> bool {
        &&& self.rows_spec() == other.rows_spec()
        &&& self.columns_spec() == other.columns_spec()
        &&& self.cells().len() == other.cells().len()
        &&& forall|k: int|
            0 <= k < self.cells().len() ==> #[trigger] self.cells()[k].eq_spec(&other.cells()[k])
    }
}

impl<T: Eq + PartialEqSpec, I: Coordinate> Eq for DenseMatrix<T, I> {

}

/// A default value, whatever the address.
fn default_cell<T: Default, I>(_address: MatrixAddress<I>) -> (v: T)
    ensures
        call_ensures(T::default, (), v),
{
    T::default()
}

impl<T, I: Coordinate> DenseMatrix<T, I> {
    /// new builds a matrix of `columns` columns and `rows` rows whose cell at
    /// each address is what `factory_fn` gives for that address.
    pub fn new<F: Fn(MatrixAddress<I>) -> T>(columns: I, rows: I, factory_fn: F) -> (r: Result<
        DenseMatrix<T, I>,
    >)
        requires
            forall|a: MatrixAddress<I>| #[trigger] factory_fn.requires((a,)),
        ensures
            match shape_refusal(rows.int_value(), columns.int_value(), size_of::<T>()) {
                Some(msg) => r is Err && r->Err_0@ == msg,
                None => r is Ok,
            },
            r is Ok ==> {
                let m = r->Ok_0;
                &&& m.wf()
                &&& m.rows_spec() == rows.int_value()
                &&& m.columns_spec() == columns.int_value()
                &&& forall|a: MatrixAddress<I>|
                    0 <= a.row.int_value() < rows.int_value() && 0 <= a.column.int_value()
                        < columns.int_value() ==> factory_fn.ensures((a,), #[trigger] m.cell(a))
            },
    {
        let zero = I::zero();
        if columns.precedes(&zero) || rows.precedes(&zero) {
            return Err(Error::new("negative Matrix dimensions are not supported".to_owned()));
        }
        if (columns.equals(&zero) || rows.equals(&zero)) && !(columns.equals(&zero) && rows.equals(
            &zero,
        )) {
            return Err(Error::new("zero x non-zero Matrix dimensions are not supported".to_owned()));
        }
        let capacity = match rows.checked_multiply(columns) {
            Some(v) => v,
            None => {
                proof {
                    I::lemma_bounds(rows);
                }
                let nr = rows.to_u128().unwrap();
                let nc = columns.to_u128().unwrap();
                let mut msg = "rows ".to_owned();
                append_decimal(&mut msg, nr);
                msg.append(" * columns ");
                append_decimal(&mut msg, nc);
                msg.append(" overflows vector max capacity");
                assert(msg@ =~= overflow_message(nr as nat, nc as nat));
                return Err(Error::new(msg));
            },
        };
        let size = core::mem::size_of::<T>();
        match capacity.checked_mul(size) {
            Some(bytes) => {
                if bytes > isize::MAX as usize {
                    return Err(
                        Error::new("requested Matrix exceeds allocatable vector size".to_owned()),
                    );
                }
            },
            None => {
                return Err(
                    Error::new("requested Matrix exceeds allocatable vector size".to_owned()),
                );
            },
        }
        let mut data: Vec<T> = Vec::with_capacity(capacity);
        let one = I::unit();
        let ghost nr = rows.int_value();
        let ghost nc = columns.int_value();
        proof {
            I::lemma_bounds(rows);
            I::lemma_bounds(columns);
        }
        let mut row = zero;
        while row.precedes(&rows)
            invariant
                0 <= row.int_value() <= nr,
                nr == rows.int_value(),
                nc == columns.int_value(),
                zero.int_value() == 0,
                one.int_value() == 1,
                0 <= nc <= I::max_int(),
                nr <= I::max_int(),
                I::min_int() <= 0,
                (nr == 0) == (nc == 0),
                0 < nr ==> data@.len() == row.int_value() * nc,
                nr == 0 ==> data@.len() == 0,
                nr * nc == capacity,
                forall|a: MatrixAddress<I>|
                    0 <= a.row.int_value() < row.int_value() && 0 <= a.column.int_value() < nc
                        ==> factory_fn.ensures(
                        (a,),
                        #[trigger] data@[offset(a.row.int_value(), a.column.int_value(), nc)],
                    ),
                forall|a: MatrixAddress<I>| #[trigger] factory_fn.requires((a,)),
            decreases nr - row.int_value(),
        {
            let mut column = zero;
            let ghost base = data@.len();
            while column.precedes(&columns)
                invariant
                    0 <= row.int_value() < nr,
                    0 <= column.int_value() <= nc,
                    nr == rows.int_value(),
                    nc == columns.int_value(),
                    zero.int_value() == 0,
                    one.int_value() == 1,
                    0 <= nc <= I::max_int(),
                    nr <= I::max_int(),
                    I::min_int() <= 0,
                    base == row.int_value() * nc,
                    data@.len() == base + column.int_value(),
                    nr * nc == capacity,
                    forall|a: MatrixAddress<I>|
                        0 <= a.row.int_value() < row.int_value() && 0 <= a.column.int_value() < nc
                            ==> factory_fn.ensures(
                            (a,),
                            #[trigger] data@[offset(a.row.int_value(), a.column.int_value(), nc)],
                        ),
                    forall|a: MatrixAddress<I>|
                        a.row.int_value() == row.int_value() && 0 <= a.column.int_value()
                            < column.int_value() ==> factory_fn.ensures(
                            (a,),
                            #[trigger] data@[offset(a.row.int_value(), a.column.int_value(), nc)],
                        ),
                    forall|a: MatrixAddress<I>| #[trigger] factory_fn.requires((a,)),
                decreases nc - column.int_value(),
            {
                let address = MatrixAddress { row, column };
                let value = factory_fn(address);
                proof {
                    lemma_offset(row.int_value(), column.int_value(), nr, nc);
                }
                data.push(value);
                proof {
                    assert forall|a: MatrixAddress<I>|
                        0 <= a.row.int_value() < row.int_value() && 0 <= a.column.int_value() < nc
                            implies factory_fn.ensures(
                        (a,),
                        #[trigger] data@[offset(a.row.int_value(), a.column.int_value(), nc)],
                    ) by {
                        lemma_offset(a.row.int_value(), a.column.int_value(), row.int_value(), nc);
                    }
                    assert forall|a: MatrixAddress<I>|
                        a.row.int_value() == row.int_value() && 0 <= a.column.int_value()
                            <= column.int_value() implies factory_fn.ensures(
                        (a,),
                        #[trigger] data@[offset(a.row.int_value(), a.column.int_value(), nc)],
                    ) by {
                        if a.column.int_value() == column.int_value() {
                            I::lemma_injective(a.row, row);
                            I::lemma_injective(a.column, column);
                        }
                    }
                }
                column = column.plus(one);
            }
            proof {
                assert(data@.len() == (row.int_value() + 1) * nc) by (nonlinear_arith)
                    requires
                        data@.len() == row.int_value() * nc + nc,
                ;
            }
            row = row.plus(one);
        }
        Ok(DenseMatrix { columns, rows, data })
    }

    /// new_default builds a matrix of `columns` columns and `rows` rows whose
    /// cells all hold the default value.
    pub fn new_default(columns: I, rows: I) -> (r: Result<DenseMatrix<T, I>>) where T: Default
        ensures
            match shape_refusal(rows.int_value(), columns.int_value(), size_of::<T>()) {
                Some(msg) => r is Err && r->Err_0@ == msg,
                None => r is Ok,
            },
            r is Ok ==> {
                &&& r->Ok_0.wf()
                &&& r->Ok_0.rows_spec() == rows.int_value()
                &&& r->Ok_0.columns_spec() == columns.int_value()
                &&& forall|a: MatrixAddress<I>|
                    0 <= a.row.int_value() < rows.int_value() && 0 <= a.column.int_value()
                        < columns.int_value() ==> #[trigger] call_ensures(
                        T::default,
                        (),
                        r->Ok_0.cell(a),
                    )
            },
    {
        Self::new(columns, rows, default_cell::<T, I>)
    }

    /// map_matrix builds a matrix of the same shape whose every cell is what
    /// `mapper` gives for the corresponding cell of this one.
    pub fn map_matrix<U>(&self, mapper: impl Fn(&T) -> U) -> (r: DenseMatrix<U, I>)
        requires
            self.wf(),
            forall|v: &T| #[trigger] mapper.requires((v,)),
        ensures
            r.wf(),
            r.rows_spec() == self.rows_spec(),
            r.columns_spec() == self.columns_spec(),
            r.cells().len() == self.cells().len(),
            forall|k: int|
                0 <= k < self.cells().len() ==> #[trigger] mapper.ensures(
                    (&self.cells()[k],),
                    r.cells()[k],
                ),
    {
        let mut data: Vec<U> = Vec::with_capacity(self.data.len());
        let mut k: usize = 0;
        while k < self.data.len()
            invariant
                k <= self.data@.len(),
                data@.len() == k,
                forall|j: int| 0 <= j < k ==> #[trigger] mapper.ensures((&self.data@[j],), data@[j]),
                forall|v: &T| #[trigger] mapper.requires((v,)),
            decreases self.data@.len() - k,
        {
            let value = mapper(&self.data[k]);
            data.push(value);
            k += 1;
        }
        DenseMatrix { columns: self.columns, rows: self.rows, data }
    }

    /// map_indexed_matrix builds a matrix of the same shape whose every cell is
    /// what `mapper` gives for the address and the value of the corresponding
    /// cell of this one.
    pub fn map_indexed_matrix<U>(&self, mapper: impl Fn(MatrixAddress<I>, &T) -> U) -> (r:
        DenseMatrix<U, I>)
        requires
            self.wf(),
            forall|a: MatrixAddress<I>, v: &T| #[trigger] mapper.requires((a, v)),
        ensures
            r.wf(),
            r.rows_spec() == self.rows_spec(),
            r.columns_spec() == self.columns_spec(),
            r.cells().len() == self.cells().len(),
            forall|k: int|
                #![trigger r.cells()[k]]
                0 <= k < self.cells().len() ==> mapper.ensures(
                    (address_of::<I>(k / self.columns_spec(), k % self.columns_spec()), &self.cells()[k]),
                    r.cells()[k],
                ),
    {
        let mut data: Vec<U> = Vec::with_capacity(self.data.len());
        let mut addresses = self.addresses();
        proof {
            addresses.lemma_position();
        }
        loop
            invariant
                self.wf(),
                addresses.wf(),
                addresses.row_bound() == self.rows_spec(),
                addresses.column_bound() == self.columns_spec(),
                0 <= addresses.position() <= addresses.total(),
                data@.len() == addresses.position(),
                forall|j: int|
                    #![trigger data@[j]]
                    0 <= j < data@.len() ==> mapper.ensures(
                        (address_of::<I>(j / self.columns_spec(), j % self.columns_spec()), &self.data@[j]),
                        data@[j],
                    ),
                forall|a: MatrixAddress<I>, v: &T| #[trigger] mapper.requires((a, v)),
            decreases addresses.total() - addresses.position(),
        {
            let ghost k = addresses.position();
            match addresses.next() {
                None => {
                    return DenseMatrix { columns: self.columns, rows: self.rows, data };
                },
                Some(a) => {
                    proof {
                        addresses.lemma_position();
                        lemma_offset_inside(a, addresses);
                        lemma_address_of(a);
                        lemma_offset(a.row.int_value(), a.column.int_value(), self.rows_spec(), self.columns_spec());
                        lemma_row_major_cell(k, a.row.int_value(), a.column.int_value(), self.columns_spec());
                    }
                    let position = self.index_address(&a);
                    let value = mapper(a, &self.data[position]);
                    data.push(value);
                },
            }
        }
    }

    /// Assembles a matrix from its counts and its row-major cells.
    pub(crate) fn assemble(columns: I, rows: I, data: Vec<T>) -> (r: DenseMatrix<T, I>)
        requires
            0 <= rows.int_value(),
            0 <= columns.int_value(),
            (rows.int_value() == 0) == (columns.int_value() == 0),
            data@.len() == rows.int_value() * columns.int_value(),
        ensures
            r.wf(),
            r.rows_spec() == rows.int_value(),
            r.columns_spec() == columns.int_value(),
            r.cells() == data@,
    {
        DenseMatrix { columns, rows, data }
    }
}

} // verus!
