use matrix::{new_default_matrix, Address, LogicalDimension, MatrixAddress};

fn u8addr(row: u8, column: u8) -> MatrixAddress<u8> {
    MatrixAddress { row, column }
}

#[test]
fn test_display() {
    let got = u8addr(5, 23).to_string();
    assert_eq!(got, "(row=5,col=23)")
}

#[test]
fn test_display_negative() {
    let got = MatrixAddress { row: -3i8, column: -128i8 }.to_string();
    assert_eq!(got, "(row=-3,col=-128)")
}

#[test]
fn test_dimensions() {
    let addr = u8addr(5, 23);
    assert_eq!(addr.row, 5u8);
    assert_eq!(addr.column, 23u8);
    assert_eq!(addr.at(LogicalDimension::Row), 5u8);
    assert_eq!(addr.at(LogicalDimension::Column), 23u8);
    assert_eq!(addr.coordinate(0), 23u8);
    assert_eq!(addr.coordinate(1), 5u8);
    let index = LogicalDimension::Row.index();
    assert_eq!(index, 1usize);
    let index2 = LogicalDimension::Column.index();
    assert_eq!(index2, 0usize);
}

#[test]
fn test_into_u8_2() {
    let addr = u8addr(5, 23);
    let want: [u8; 2] = [23, 5];
    let got: [u8; 2] = addr.to_coordinates();
    assert_eq!(want, got);
}

#[test]
fn test_into_matrix_address() {
    let rep: [u8; 2] = [5, 23];
    let got: MatrixAddress<u8> = MatrixAddress::from_coordinates(rep);
    let want = u8addr(23, 5);
    assert_eq!(got, want);
}

#[test]
fn test_add() {
    let a = u8addr(1, 2);
    let b = u8addr(3, 4);
    let c = a.plus(&b);
    assert_eq!(c, u8addr(4, 6))
}

#[test]
fn test_transpose() {
    let a = u8addr(1, 2);
    let transposed = a.transpose();
    assert_eq!(transposed, u8addr(2, 1));
}

#[test]
fn transpose_twice_is_identity() {
    for (r, c) in [(0u8, 0u8), (1, 2), (255, 7), (9, 9)] {
        let a = u8addr(r, c);
        assert_eq!(a.transpose().transpose(), a);
    }
}

#[test]
fn test_sub() {
    let a = u8addr(3, 4);
    let b = u8addr(1, 3);
    let c = a.minus(&b);
    assert_eq!(c, u8addr(2, 1));
}

#[test]
fn test_default() {
    let def: MatrixAddress<u8> = MatrixAddress::default();
    assert_eq!(def, u8addr(0, 0));
    let origin: MatrixAddress<u8> = MatrixAddress::origin();
    assert_eq!(origin, u8addr(0, 0));
}

#[test]
fn test_neighbors() {
    let m = new_default_matrix::<u8, u8>(3, 3).unwrap();
    let upper_left = u8addr(0, 0);
    let uln = upper_left.neighbors(&m);
    let want_uln = vec![u8addr(0, 1), u8addr(1, 0), u8addr(1, 1)];
    assert_eq!(uln, want_uln);

    let ucn = u8addr(0, 1).neighbors(&m);
    let want_ucn = vec![u8addr(0, 0), u8addr(0, 2), u8addr(1, 0), u8addr(1, 1), u8addr(1, 2)];
    assert_eq!(ucn, want_ucn);

    let urn = u8addr(0, 2).neighbors(&m);
    let want_urn = vec![u8addr(0, 1), u8addr(1, 1), u8addr(1, 2)];
    assert_eq!(urn, want_urn);

    let cln = u8addr(1, 0).neighbors(&m);
    let want_cln = vec![u8addr(0, 0), u8addr(0, 1), u8addr(1, 1), u8addr(2, 0), u8addr(2, 1)];
    assert_eq!(cln, want_cln);

    let cn = u8addr(1, 1).neighbors(&m);
    let want_cn = vec![
        u8addr(0, 0),
        u8addr(0, 1),
        u8addr(0, 2),
        u8addr(1, 0),
        u8addr(1, 2),
        u8addr(2, 0),
        u8addr(2, 1),
        u8addr(2, 2),
    ];
    assert_eq!(cn, want_cn);

    let crn = u8addr(1, 2).neighbors(&m);
    let want_crn = vec![u8addr(0, 1), u8addr(0, 2), u8addr(1, 1), u8addr(2, 1), u8addr(2, 2)];
    assert_eq!(crn, want_crn);

    let lln = u8addr(2, 0).neighbors(&m);
    let want_lln = vec![u8addr(1, 0), u8addr(1, 1), u8addr(2, 1)];
    assert_eq!(lln, want_lln);

    let lcn = u8addr(2, 1).neighbors(&m);
    let want_lcn = vec![u8addr(1, 0), u8addr(1, 1), u8addr(1, 2), u8addr(2, 0), u8addr(2, 2)];
    assert_eq!(lcn, want_lcn);

    let lrn = u8addr(2, 2).neighbors(&m);
    let want_lrn = vec![u8addr(1, 1), u8addr(1, 2), u8addr(2, 1)];
    assert_eq!(lrn, want_lrn);
}

#[test]
fn neighbors_in_single_cell_and_signed_matrices() {
    let single = new_default_matrix::<u8, u8>(1, 1).unwrap();
    assert!(u8addr(0, 0).neighbors(&single).is_empty());
    let m = new_default_matrix::<u8, i16>(2, 2).unwrap();
    let got = MatrixAddress { row: 1i16, column: 1i16 }.neighbors(&m);
    assert_eq!(
        got,
        vec![
            MatrixAddress { row: 0, column: 0 },
            MatrixAddress { row: 0, column: 1 },
            MatrixAddress { row: 1, column: 0 },
        ]
    );
}
