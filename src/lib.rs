//! A generic, addressable two-dimensional store: a dense row-major matrix,
//! its row and column accessors, bidirectional iterators over them, and a
//! transposed view that reinterprets a matrix without copying it.
pub mod accessors;
pub mod address;
pub mod coordinate;
pub mod dense;
pub mod error;
pub mod factories;
pub mod format;
pub mod iter;
pub mod matrix;
pub mod span;
pub mod tensor;
pub mod text;
pub mod transpose;

pub use accessors::{Column, Row};
pub use address::{Address, Dimension, LogicalDimension, MatrixAddress};
pub use coordinate::{CheckedMul, Coordinate, Integral, Unit};
pub use dense::DenseMatrix;
pub use error::{Error, Result};
pub use factories::{new_default_matrix, new_matrix};
pub use format::{FormatOptions, MatrixDisplayOptions, MatrixParseOptions};
pub use iter::{
    MatrixColumnIterator, MatrixColumnsIterator, MatrixForwardIndexedIterator,
    MatrixForwardIterator, MatrixRowIterator, MatrixRowsIterator, MatrixValueIterator,
};
pub use matrix::Matrix;
pub use tensor::Tensor;
pub use transpose::{new_transposed_matrix, TransposedMatrix};
