use matrix::{new_transposed_matrix, FormatOptions, Matrix, MatrixAddress, Tensor};

fn u8addr(row: u8, column: u8) -> MatrixAddress<u8> {
    MatrixAddress { row, column }
}

#[test]
fn transpose_format() {
    let mut base =
        FormatOptions::default().parse_matrix::<String, u8>("123\n456", |x| x.to_string()).unwrap();
    let transposed = new_transposed_matrix(&mut base);
    let got = FormatOptions::default().format(&transposed, |x: &String| x.to_string());
    assert_eq!(got, "14\n25\n36");
}

#[test]
fn transpose_accessors() {
    let mut base =
        FormatOptions::default().parse_matrix::<String, u8>("123\n456", |x| x.to_string()).unwrap();
    let transposed = new_transposed_matrix(&mut base);
    assert_eq!(transposed.row_count(), 3);
    assert_eq!(transposed.column_count(), 2);
}

#[test]
fn transpose_addresses() {
    let mut base =
        FormatOptions::default().parse_matrix::<String, u8>("123\n456", |x| x.to_string()).unwrap();
    let transposed = new_transposed_matrix(&mut base);
    assert_eq!(
        transposed.addresses().collect(),
        vec![u8addr(0, 0), u8addr(0, 1), u8addr(1, 0), u8addr(1, 1), u8addr(2, 0), u8addr(2, 1)]
    );
}

#[test]
fn transpose_get() {
    let mut base =
        FormatOptions::default().parse_matrix::<String, u8>("123\n456", |x| x.to_string()).unwrap();
    let mut transposed = new_transposed_matrix(&mut base);
    let addr = u8addr(1, 1);
    assert_eq!(*transposed.index(addr), "5");
    assert_eq!(transposed.get(addr).unwrap(), "5");
    *transposed.index_mut(addr) = "3, sir!".to_string();
    assert_eq!(*transposed.index(addr), "3, sir!");
    assert_eq!(transposed.get(addr).unwrap(), "3, sir!");
    *transposed.get_mut(addr).unwrap() = "V".to_string();
    assert_eq!(*transposed.index(addr), "V");
    assert_eq!(transposed.get(addr).unwrap(), "V");
}

#[test]
fn transpose_write_reaches_underlying() {
    let mut base =
        FormatOptions::default().parse_matrix::<String, u8>("123\n456", |x| x.to_string()).unwrap();
    {
        let mut transposed = new_transposed_matrix(&mut base);
        *transposed.get_mut(u8addr(2, 0)).unwrap() = "x".to_string();
        assert!(transposed.get(u8addr(0, 2)).is_none());
        assert!(transposed.get_mut(u8addr(3, 0)).is_none());
    }
    assert_eq!(*base.index(u8addr(0, 2)), "x");
    assert_eq!(*base.index(u8addr(0, 0)), "1");
}

#[test]
fn transpose_indexed_iter() {
    let mut base =
        FormatOptions::default().parse_matrix::<String, u8>("123\n456", |x| x.to_string()).unwrap();
    let transposed = new_transposed_matrix(&mut base);
    let mut iter = transposed.indexed_iter();
    let mut got: Vec<String> = Vec::new();
    while let Some((addr, value)) = iter.next() {
        got.push(format!("a={},v={}", addr.to_string(), value));
    }
    assert_eq!(
        got,
        vec![
            "a=(row=0,col=0),v=1",
            "a=(row=0,col=1),v=4",
            "a=(row=1,col=0),v=2",
            "a=(row=1,col=1),v=5",
            "a=(row=2,col=0),v=3",
            "a=(row=2,col=1),v=6",
        ]
    );
}

#[test]
fn transpose_row() {
    let mut base =
        FormatOptions::default().parse_matrix::<String, u8>("123\n456", |x| x.to_string()).unwrap();
    let transposed = new_transposed_matrix(&mut base);
    assert!(transposed.row(3).is_none());
    let row = transposed.row(1).unwrap();
    let got: Vec<&String> = row.iter().collect();
    assert_eq!(got, vec!["2", "5"]);
}

#[test]
fn transpose_column() {
    let mut base =
        FormatOptions::default().parse_matrix::<String, u8>("123\n456", |x| x.to_string()).unwrap();
    let transposed = new_transposed_matrix(&mut base);
    assert!(transposed.column(2).is_none());
    let column = transposed.column(1).unwrap();
    let got: Vec<&String> = column.iter().collect();
    assert_eq!(got, vec!["4", "5", "6"]);
}

#[test]
fn transpose_rows() {
    let mut base =
        FormatOptions::default().parse_matrix::<String, u8>("123\n456", |x| x.to_string()).unwrap();
    let transposed = new_transposed_matrix(&mut base);
    let mut rows = transposed.rows();
    let row0 = rows.next().unwrap();
    let got: Vec<&String> = row0.iter().collect();
    assert_eq!(got, vec!["1", "4"]);
    let row1 = rows.next().unwrap();
    let got1: Vec<&String> = row1.iter().collect();
    assert_eq!(got1, vec!["2", "5"]);
    let row2 = rows.next().unwrap();
    let got2: Vec<&String> = row2.iter().collect();
    assert_eq!(got2, vec!["3", "6"]);
    assert!(rows.next().is_none());
}

#[test]
fn transpose_columns() {
    let mut base =
        FormatOptions::default().parse_matrix::<String, u8>("123\n456", |x| x.to_string()).unwrap();
    let transposed = new_transposed_matrix(&mut base);
    let mut columns = transposed.columns();
    let col0 = columns.next().unwrap();
    let got0: Vec<&String> = col0.iter().collect();
    assert_eq!(got0, vec!["1", "2", "3"]);
    let col1 = columns.next().unwrap();
    let got1: Vec<&String> = col1.iter().collect();
    assert_eq!(got1, vec!["4", "5", "6"]);
    assert!(columns.next().is_none());
}
