use matrix::{
    new_default_matrix, new_matrix, Error, FormatOptions, Matrix, MatrixAddress,
    Tensor,
};

fn ascii_formatting_options() -> FormatOptions {
    FormatOptions { row_delimiter: "\n".to_string(), column_delimiter: "".to_string() }
}

fn u8addr(row: u8, column: u8) -> MatrixAddress<u8> {
    MatrixAddress { row, column }
}

fn row_strings(values: Vec<&String>) -> Vec<String> {
    values.into_iter().map(|v| v.to_string()).collect()
}

#[test]
fn dense_matrix_parse_matrix() {
    let opts = ascii_formatting_options();
    let matrix = Box::new(opts.parse_matrix("ABC\nDEF\nGHI", |x| x.to_string()).unwrap());
    assert_eq!(matrix.row_count(), 3);
    assert_eq!(matrix.column_count(), 3);
    assert_eq!(*matrix.index(u8addr(0, 0)), "A");
    assert_eq!(*matrix.index(u8addr(0, 1)), "B");
    assert_eq!(*matrix.index(u8addr(0, 2)), "C");
    assert_eq!(*matrix.index(u8addr(1, 0)), "D");
    assert_eq!(*matrix.index(u8addr(1, 1)), "E");
    assert_eq!(*matrix.index(u8addr(1, 2)), "F");
    assert_eq!(*matrix.index(u8addr(2, 0)), "G");
    assert_eq!(*matrix.index(u8addr(2, 1)), "H");
    assert_eq!(*matrix.index(u8addr(2, 2)), "I");
}

#[test]
fn dense_matrix_format_matrix() {
    let opts = ascii_formatting_options();
    let matrix = opts.parse_matrix::<String, u8>("ABC\nDEF\nGHI", |x| x.to_string()).unwrap();
    let got = opts.format(&matrix, |x: &String| x.to_string());
    assert_eq!(got, "ABC\nDEF\nGHI");
}

#[test]
fn dense_matrix_fancy_format_matrix() {
    let opts = ascii_formatting_options();
    let matrix = opts.parse_matrix::<String, u16>("ABC\nDEF\nGHI", |x| x.to_string()).unwrap();
    let opts2 =
        FormatOptions { column_delimiter: "|".to_string(), row_delimiter: "&&".to_string() };
    let got = opts2.format(&matrix, |x: &String| format!("{}_", x));
    assert_eq!(got, "A_|B_|C_&&D_|E_|F_&&G_|H_|I_");
}

#[test]
fn parse_without_terminal_line_termination() {
    let opts = ascii_formatting_options();
    let got = opts.parse_matrix::<String, u16>("ABC\nEFG", |x| x.to_string()).unwrap();
    assert_eq!(got.row_count(), 2);
    assert_eq!(got.column_count(), 3);
    let row0 = got.row(0).unwrap();
    let row0v: Vec<String> = row_strings(row0.iter().collect());
    assert_eq!(row0v, vec!["A", "B", "C"]);
    let row1v: Vec<String> =
        row_strings(got.row(1).unwrap().iter().collect());
    assert_eq!(row1v, vec!["E", "F", "G"]);
}

#[test]
fn parse_with_terminal_line_termination() {
    let opts = ascii_formatting_options();
    let got = opts.parse_matrix::<String, u16>("ABC\nEFG\n", |x| x.to_string()).unwrap();
    assert_eq!(got.row_count(), 2);
    assert_eq!(got.column_count(), 3);
    let row0 = got.row(0).unwrap();
    let row0v: Vec<String> = row_strings(row0.iter().collect());
    assert_eq!(row0v, vec!["A", "B", "C"]);
    let row1v: Vec<String> =
        row_strings(got.row(1).unwrap().iter().collect());
    assert_eq!(row1v, vec!["E", "F", "G"]);
}

#[test]
fn dense_matrix_parse_mismatched_lengths() {
    let opts = ascii_formatting_options();
    let got = opts.parse_matrix::<String, u16>("ABC\nD\nEFG", |x| x.to_string());
    assert!(got.is_err());
    let err = got.err().unwrap();
    assert_eq!(err, Error::new("Row lengths are mismatched".to_string()));
}

#[test]
fn dense_matrix_parse_too_many_rows() {
    let opts = ascii_formatting_options();
    let input = "A\n".repeat(128);
    let got = opts.parse_matrix::<String, i8>(input.as_str(), |x| x.to_string());
    assert!(got.is_err());
    let err = got.err().unwrap();
    assert_eq!(err, Error::new("text input row count overflows index type".to_string()));
}

#[test]
fn dense_matrix_parse_too_many_columns() {
    let opts = ascii_formatting_options();
    let input = "A".repeat(128);
    let got = opts.parse_matrix::<String, i8>(input.as_str(), |x| x.to_string());
    assert!(got.is_err());
    let err = got.err().unwrap();
    assert_eq!(err, Error::new("cannot convert columns back to I".to_string()));
}

#[test]
fn parse_empty_input() {
    let opts = ascii_formatting_options();
    let got = opts.parse_matrix::<String, u8>("\n\n", |x| x.to_string());
    assert_eq!(got.err().unwrap(), Error::new("empty input cannot be parsed".to_string()));
}

#[test]
fn dense_matrix_negative_row_count() {
    let got = new_matrix(-1, vec![23, 5, 2]);
    assert!(got.is_err());
    let err = got.err().unwrap();
    assert_eq!(err, Error::new("negative row count not supported".to_string()))
}

#[test]
fn uneven_data_vector_size() {
    let got = new_matrix(2, vec![23, 5, 2]);
    assert!(got.is_err());
    let err = got.err().unwrap();
    assert_eq!(err, Error::new("data length 3 is not a multiple of rows (2)".to_string()))
}

#[test]
fn uneven_data_with_zero_rows() {
    let got = new_matrix(0u8, vec![1u8, 2u8]);
    assert_eq!(
        got.err().unwrap(),
        Error::new("data length 2 is not a multiple of rows (0)".to_string())
    );
}

#[test]
fn dense_matrix_empty_matrix() {
    let data: Vec<u8> = Vec::new();
    let got = new_matrix(0, data).unwrap();
    assert_eq!(got.row_count(), 0);
    assert_eq!(got.column_count(), 0);
}

#[test]
fn dense_matrix_empty_column_non_empty_row_matrix() {
    let empty: Vec<u8> = Vec::new();
    let got = new_matrix(1, empty);
    assert!(got.is_err());
    let err = got.err().unwrap();
    assert_eq!(err, Error::new("missing row data".to_string()));
}

#[test]
fn columns_overflowing_the_coordinate_type() {
    let got = new_matrix(1i8, vec![0u8; 200]);
    assert_eq!(got.err().unwrap(), Error::new("cannot convert columns back to I".to_string()));
}

#[test]
fn new_matrix_from_rows() {
    let m = new_matrix(2u8, vec![1, 2, 3, 4, 5, 6]).unwrap();
    assert_eq!(m.row_count(), 2);
    assert_eq!(m.column_count(), 3);
    assert_eq!(*m.index(u8addr(0, 0)), 1);
    assert_eq!(*m.index(u8addr(1, 2)), 6);
    assert_eq!(*m.index(u8addr(0, 2)), 3);
    assert_eq!(*m.index(u8addr(1, 0)), 4);
}

#[test]
fn new_default_matrix_test() {
    let matrix = match new_default_matrix::<u8, u8>(1, 1) {
        Ok(g) => Box::new(g),
        Err(e) => panic!("{}", e.to_string()),
    };
    assert_eq!(matrix.row_count(), 1);
    assert_eq!(matrix.column_count(), 1);
    assert_eq!(*matrix.index(u8addr(0, 0)), 0);
}

#[test]
fn new_default_matrix_refusals() {
    let got = new_default_matrix::<u8, i8>(-1, 2);
    assert_eq!(
        got.err().unwrap(),
        Error::new("matrix dimensions exceed chosen index size".to_string())
    );
    let got = new_default_matrix::<u32, u32>(u32::MAX, u32::MAX);
    assert_eq!(
        got.err().unwrap(),
        Error::new("requested Matrix exceeds allocatable vector size".to_string())
    );
    let got = new_default_matrix::<u8, u8>(0, 4);
    assert_eq!(
        got.err().unwrap(),
        Error::new("zero x non-zero Matrix dimensions are not supported".to_string())
    );
    let got = new_default_matrix::<u8, u8>(5, 0);
    assert_eq!(
        got.err().unwrap(),
        Error::new("zero x non-zero Matrix dimensions are not supported".to_string())
    );
    let empty = new_default_matrix::<u8, u8>(0, 0).unwrap();
    assert_eq!(empty.row_count(), 0);
    assert_eq!(empty.column_count(), 0);
}

#[test]
fn dense_matrix_row_column_access() {
    let g = match new_default_matrix::<u8, u8>(1, 1) {
        Ok(res) => res,
        Err(e) => unreachable!("{}", e.to_string()),
    };
    let row = g.row(0).unwrap();
    assert_eq!(row.row(), 0u8);
    let contents: Vec<&u8> = row.iter().collect();
    assert_eq!(contents, vec![&0u8]);
    let value = row.get(0).unwrap();
    assert_eq!(*value, 0u8);
    let missing = row.get(1);
    assert_eq!(missing, None);
}

#[test]
fn test_map_matrix() {
    let m = FormatOptions::default()
        .parse_matrix::<String, u8>("123\n456", |v| v.to_string())
        .unwrap();
    let mapper = |v: &String| v.parse::<u8>().unwrap();
    let t = Box::new(m.map_matrix(&mapper));
    let row0_values = t.row(0u8).unwrap().iter().collect().into_iter().map(|v| *v).collect::<Vec<u8>>();
    assert_eq!(row0_values, vec!(1u8, 2u8, 3u8));
}

#[test]
fn test_indexed_map_matrix() {
    let m = FormatOptions::default()
        .parse_matrix::<String, u8>("123\n456", |v| v.to_string())
        .unwrap();
    let x = |addr: MatrixAddress<u8>, v: &String| {
        let n: u64 = v.parse().unwrap();
        let coord = 10 * addr.column + addr.row;
        n + coord as u64
    };
    let t = m.map_indexed_matrix(&x);
    let row0_values = t.row(0u8).unwrap().iter().collect().into_iter().map(|v| *v).collect::<Vec<u64>>();
    assert_eq!(row0_values, vec!(1u64, 12u64, 23u64));
    let row1_values = t.row(1u8).unwrap().iter().collect().into_iter().map(|v| *v).collect::<Vec<u64>>();
    assert_eq!(row1_values, vec!(5u64, 16u64, 27u64));
}

#[test]
fn get_mut_writes_one_cell() {
    let mut m = new_matrix(2u8, vec![1, 2, 3, 4]).unwrap();
    *m.get_mut(u8addr(1, 0)).unwrap() = 9;
    assert!(m.get_mut(u8addr(2, 0)).is_none());
    assert!(m.get(u8addr(0, 2)).is_none());
    assert_eq!(m.iter().collect(), vec![&1, &2, &9, &4]);
    *m.index_mut(u8addr(0, 1)) = 7;
    assert_eq!(*m.index(u8addr(0, 1)), 7);
    assert!(m.contains(&u8addr(1, 1)));
    assert!(!m.contains(&u8addr(1, 2)));
}

#[test]
fn error_to_string() {
    let e = Error::new("hi there".to_string());
    assert_eq!(e.to_string(), "hi there");
    assert_eq!(e.message(), "hi there");
}

#[test]
fn test_fmt() {
    let e = Error::new("hi there".to_string());
    assert_eq!(format!("{}", e.to_string()), "hi there");
}

#[test]
fn parser_does_not_have_to_outlive_matrix() {
    let _ = {
        let opts = FormatOptions::default();
        let matrix = opts.parse_matrix::<String, u8>("ABC\nDEF", |x| x.to_string()).unwrap();
        matrix
    };
}

#[test]
fn default_cells_hold_default_values() {
    let m = new_default_matrix::<i32, u8>(3, 2).unwrap();
    assert_eq!(m.row_count(), 2);
    assert_eq!(m.column_count(), 3);
    assert_eq!(m.iter().collect(), vec![&0; 6]);
}

#[test]
fn equality_compares_counts_and_cells() {
    let a = new_matrix(2u8, vec![1, 2, 3, 4]).unwrap();
    let b = new_matrix(2u8, vec![1, 2, 3, 4]).unwrap();
    let c = new_matrix(2u8, vec![1, 2, 3, 5]).unwrap();
    let d = new_matrix(1u8, vec![1, 2, 3, 4]).unwrap();
    assert!(a == b);
    assert!(a != c);
    assert!(a != d);
    let mut e = a.clone();
    assert!(e == a);
    *e.get_mut(u8addr(0, 0)).unwrap() = 7;
    assert!(e != a);
    assert_eq!(*a.index(u8addr(0, 0)), 1);
}
