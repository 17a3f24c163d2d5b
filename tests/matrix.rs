use matrix::{
    DenseMatrix, Error, FormatOptions, Matrix, MatrixAddress, MatrixDisplayOptions,
    MatrixParseOptions, Result, Tensor,
};

fn ascii_formatting_options() -> FormatOptions {
    FormatOptions { row_delimiter: "\n".to_string(), column_delimiter: "".to_string() }
}

fn u8addr(row: u8, column: u8) -> MatrixAddress<u8> {
    MatrixAddress { row, column }
}

#[test]
fn matrix_parse_matrix() {
    let opts = MatrixParseOptions {
        opts: ascii_formatting_options(),
        element_parser: |x: &str| x.to_string(),
    };
    let matrix = opts.parse::<String, u8>("ABC\nDEF\nGHI").unwrap();
    assert_eq!(matrix.row_count(), 3);
    assert_eq!(matrix.column_count(), 3);
    assert_eq!(*matrix.index(u8addr(0, 0)), "A");
    assert_eq!(*matrix.index(u8addr(0, 1)), "B");
    assert_eq!(*matrix.index(u8addr(0, 2)), "C");
    assert_eq!(*matrix.index(u8addr(1, 0)), "D");
    assert_eq!(*matrix.index(u8addr(1, 1)), "E");
    assert_eq!(*matrix.index(u8addr(1, 2)), "F");
    assert_eq!(*matrix.index(u8addr(2, 0)), "G");
    assert_eq!(*matrix.index(u8addr(2, 1)), "H");
    assert_eq!(*matrix.index(u8addr(2, 2)), "I");
}

#[test]
fn matrix_format_matrix() {
    let parse_opts = MatrixParseOptions {
        opts: ascii_formatting_options(),
        element_parser: |x: &str| x.to_string(),
    };
    let format_opts = MatrixDisplayOptions {
        opts: ascii_formatting_options(),
        element_formatter: |x: &String| x.to_string(),
    };
    let matrix = parse_opts.parse::<String, u16>("ABC\nDEF\nGHI").unwrap();
    let got = format_opts.to_string(&matrix);
    assert_eq!(got, "ABC\nDEF\nGHI");
}

#[test]
fn matrix_fancy_format_matrix() {
    let parse_opts = MatrixParseOptions {
        opts: ascii_formatting_options(),
        element_parser: |x: &str| x.to_string(),
    };
    let format_opts = MatrixDisplayOptions {
        opts: FormatOptions { row_delimiter: "&&".to_string(), column_delimiter: "|".to_string() },
        element_formatter: |x: &String| format!("{}_", x),
    };
    let matrix = parse_opts.parse::<String, u16>("ABC\nDEF\nGHI").unwrap();
    let got = format_opts.to_string(&matrix);
    assert_eq!(got, "A_|B_|C_&&D_|E_|F_&&G_|H_|I_");
}

#[test]
fn matrix_parse_mismatched_lengths() {
    let parse_opts = MatrixParseOptions {
        opts: ascii_formatting_options(),
        element_parser: |x: &str| x.to_string(),
    };
    let got = parse_opts.parse::<String, u16>("ABC\nD\nEFG");
    assert!(got.is_err());
    let err = got.err().unwrap();
    assert_eq!(err, Error::new("Row lengths are mismatched".to_string()));
}

#[test]
fn matrix_parse_too_many_rows() {
    let parse_opts = MatrixParseOptions {
        opts: ascii_formatting_options(),
        element_parser: |x: &str| x.to_string(),
    };
    let input = "A\n".repeat(128);
    let got = parse_opts.parse::<String, i8>(input.as_str());
    assert!(got.is_err());
    let err = got.err().unwrap();
    assert_eq!(err, Error::new("text input row count overflows index type".to_string()));
}

#[test]
fn matrix_parse_too_many_columns() {
    let parse_opts = MatrixParseOptions {
        opts: ascii_formatting_options(),
        element_parser: |x: &str| x.to_string(),
    };
    let input = "A".repeat(128);
    let got = parse_opts.parse::<String, i8>(input.as_str());
    assert!(got.is_err());
    let err = got.err().unwrap();
    assert_eq!(err, Error::new("text input column count overflows index type".to_string()));
}

#[test]
fn matrix_parse_empty_input() {
    let parse_opts = MatrixParseOptions {
        opts: ascii_formatting_options(),
        element_parser: |x: &str| x.len(),
    };
    let got = parse_opts.parse::<usize, u8>("");
    assert_eq!(got.err().unwrap(), Error::new("empty input cannot be parsed".to_string()));
}

#[test]
fn matrix_negative_row_count() {
    let got = DenseMatrix::new(1, -1, |x| x);
    assert!(got.is_err());
    let err = got.err().unwrap();
    assert_eq!(err, Error::new("negative Matrix dimensions are not supported".to_string()))
}

#[test]
fn negative_column_count() {
    let got = DenseMatrix::new(-1, 0, |x| x);
    assert!(got.is_err());
    let err = got.err().unwrap();
    assert_eq!(err, Error::new("negative Matrix dimensions are not supported".to_string()))
}

#[test]
fn matrix_empty_matrix() {
    let got = DenseMatrix::new(0, 0, |x| x).unwrap();
    assert_eq!(got.row_count(), 0);
    assert_eq!(got.column_count(), 0);
}

#[test]
fn matrix_empty_column_non_empty_row_matrix() {
    let got = DenseMatrix::new(0, 1, |x| x);
    assert!(got.is_err());
    let err = got.err().unwrap();
    assert_eq!(err, Error::new("zero x non-zero Matrix dimensions are not supported".to_string()));
}

#[test]
fn empty_row_non_empty_column_matrix() {
    let got = DenseMatrix::new(0, 1, |x| x);
    assert!(got.is_err());
    let err = got.err().unwrap();
    assert_eq!(err, Error::new("zero x non-zero Matrix dimensions are not supported".to_string()));
}

#[test]
fn matrix_dimensions_exceed_memory() {
    let got: Result<DenseMatrix<u32, u32>> = DenseMatrix::new_default(u32::MAX, u32::MAX);
    assert!(got.is_err());
    let err = got.err().unwrap();
    assert_eq!(err, Error::new("requested Matrix exceeds allocatable vector size".to_string()));
}

#[test]
fn matrix_dimensions_overflow_capacity() {
    let got: Result<DenseMatrix<u8, u64>> = DenseMatrix::new_default(u64::MAX, 2);
    assert_eq!(
        got.err().unwrap(),
        Error::new(format!("rows 2 * columns {} overflows vector max capacity", u64::MAX))
    );
}

#[test]
fn new_default_matrix() {
    let matrix: DenseMatrix<u8, u8> = DenseMatrix::new_default(1, 1).unwrap();
    assert_eq!(matrix.row_count(), 1);
    assert_eq!(matrix.column_count(), 1);
    assert_eq!(*matrix.index(u8addr(0, 0)), 0);
}

#[test]
fn generator_fills_every_cell() {
    let m = DenseMatrix::new(4u16, 3u16, |a: MatrixAddress<u16>| a.row * 10 + a.column).unwrap();
    assert_eq!(m.row_count(), 3);
    assert_eq!(m.column_count(), 4);
    for r in 0..3u16 {
        for c in 0..4u16 {
            assert_eq!(*m.index(MatrixAddress { row: r, column: c }), r * 10 + c);
        }
    }
}

#[test]
fn matrix_row_column_access() {
    let matrix: DenseMatrix<u8, u8> = DenseMatrix::new_default(1, 1).unwrap();
    let row = matrix.row(0).unwrap();
    assert_eq!(row.row(), 0u8);
    let contents: Vec<&u8> = row.iter().collect();
    assert_eq!(contents, vec![&0u8]);
    let value = row.get(0).unwrap();
    assert_eq!(*value, 0u8);
    let missing = row.get(1);
    assert_eq!(missing, None);
}

#[test]
fn column_access() {
    let matrix = DenseMatrix::new(2u8, 3u8, |a: MatrixAddress<u8>| a.row + 10 * a.column).unwrap();
    let column = matrix.column(1).unwrap();
    assert_eq!(column.column(), 1u8);
    assert_eq!(column.iter().collect(), vec![&10u8, &11u8, &12u8]);
    assert_eq!(column.get(2), Some(&12u8));
    assert_eq!(column.get(3), None);
    assert!(matrix.column(2).is_none());
    assert!(matrix.row(3).is_none());
}
