use vstd::prelude::*;
use vstd::string::StringExecFns;

use crate::coordinate::{checked_product, Coordinate, Integral};
use crate::dense::{derived_columns, new_matrix_refusal, uneven_message, DenseMatrix};
use crate::error::{Error, Result};
use crate::tensor::Tensor;
use crate::text::append_decimal;
use vstd::arithmetic::div_mod::lemma_fundamental_div_mod;
use vstd::layout::size_of;

verus! {

/// new_matrix builds a matrix from `rows` and its values in row-major order.
/// The number of values must be a multiple of `rows`, and that multiple
/// becomes the column count; no values and no rows make an empty matrix.
pub fn new_matrix<T, I: Coordinate>(rows: I, data: Vec<T>) -> (r: Result<DenseMatrix<T, I>>)
    ensures
        match new_matrix_refusal(rows.int_value(), data@.len(), I::max_int()) {
            Some(msg) => r is Err && r->Err_0@ == msg,
            None => r is Ok,
        },
        r is Ok ==> {
            &&& r->Ok_0.wf()
            &&& r->Ok_0.rows_spec() == rows.int_value()
            &&& r->Ok_0.columns_spec() == derived_columns(rows.int_value(), data@.len())
            &&& r->Ok_0.cells() == data@
        },
{
    let zero = I::zero();
    if rows.precedes(&zero) {
        return Err(Error::new("negative row count not supported".to_owned()));
    }
    let row_count = match rows.to_usize() {
        Some(v) => v,
        None => return Err(Error::new("row count cannot be coerced to usize".to_owned())),
    };
    let len = data.len();
    if len == 0 && row_count == 0 {
        return Ok(DenseMatrix::assemble(rows, rows, data));
    }
    if len == 0 {
        return Err(Error::new("missing row data".to_owned()));
    }
    if row_count == 0 || len % row_count != 0 {
        let mut msg = "data length ".to_owned();
        append_decimal(&mut msg, len as u128);
        msg.append(" is not a multiple of rows (");
        append_decimal(&mut msg, row_count as u128);
        msg.append(")");
        assert(msg@ =~= uneven_message(len as nat, row_count as nat));
        return Err(Error::new(msg));
    }
    let column_count = len / row_count;
    let columns = match I::from_usize(column_count) {
        Some(v) => v,
        None => return Err(Error::new("cannot convert columns back to I".to_owned())),
    };
    proof {
        lemma_fundamental_div_mod(len as int, row_count as int);
        assert(column_count > 0) by (nonlinear_arith)
            requires
                len as int == row_count as int * (column_count as int),
                len > 0,
        ;
    }
    Ok(DenseMatrix::assemble(columns, rows, data))
}

/// Why `new_default_matrix` refuses `columns` columns and `rows` rows of cells
/// of `size` bytes, for a coordinate type whose greatest value is `max`;
/// nothing when it accepts them.
pub open spec fn default_matrix_refusal(rows: int, columns: int, size: nat, max: int) -> Option<
    Seq<char>,
> {
    match checked_product(rows, columns) {
        None => Some("matrix dimensions exceed chosen index size"@),
        Some(len) => if (rows == 0) != (columns == 0) {
            Some("zero x non-zero Matrix dimensions are not supported"@)
        } else if len * size > isize::MAX {
            Some("requested Matrix exceeds allocatable vector size"@)
        } else {
            new_matrix_refusal(rows, len as nat, max)
        },
    }
}

/// new_default_matrix builds a matrix of `columns` columns and `rows` rows
/// whose cells all hold the default value. The counts must be both zero or
/// both positive.
pub fn new_default_matrix<T: Default, I: Coordinate>(columns: I, rows: I) -> (r: Result<
    DenseMatrix<T, I>,
>)
    ensures
        match default_matrix_refusal(
            rows.int_value(),
            columns.int_value(),
            size_of::<T>(),
            I::max_int(),
        ) {
            Some(msg) => r is Err && r->Err_0@ == msg,
            None => r is Ok,
        },
        r is Ok ==> {
            let len = checked_product(rows.int_value(), columns.int_value())->0;
            &&& r->Ok_0.wf()
            &&& r->Ok_0.rows_spec() == rows.int_value()
            &&& r->Ok_0.columns_spec() == derived_columns(rows.int_value(), len as nat)
            &&& r->Ok_0.cells().len() == len
            &&& forall|k: int|
                0 <= k < len ==> #[trigger] call_ensures(T::default, (), r->Ok_0.cells()[k])
        },
{
    let len = match rows.checked_multiply(columns) {
        Some(v) => v,
        None => return Err(Error::new("matrix dimensions exceed chosen index size".to_owned())),
    };
    let zero = I::zero();
    if rows.equals(&zero) != columns.equals(&zero) {
        return Err(
            Error::new("zero x non-zero Matrix dimensions are not supported".to_owned()),
        );
    }
    let size = core::mem::size_of::<T>();
    let fits = match len.checked_mul(size) {
        Some(bytes) => bytes <= isize::MAX as usize,
        None => false,
    };
    if !fits {
        return Err(Error::new("requested Matrix exceeds allocatable vector size".to_owned()));
    }
    let mut data: Vec<T> = Vec::with_capacity(len);
    let mut i: usize = 0;
    while i < len
        invariant
            i <= len,
            data@.len() == i,
            forall|k: int| 0 <= k < i ==> #[trigger] call_ensures(T::default, (), data@[k]),
        decreases len - i,
    {
        data.push(T::default());
        i += 1;
    }
    new_matrix(rows, data)
}

} // verus!
