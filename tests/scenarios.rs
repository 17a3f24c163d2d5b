use matrix::{
    new_default_matrix, new_matrix, new_transposed_matrix, Matrix, MatrixAddress, Tensor,
};

fn addr(row: u8, column: u8) -> MatrixAddress<u8> {
    MatrixAddress { row, column }
}

#[test]
fn two_by_three_from_rows() {
    let mut m = new_matrix(2u8, vec![1, 2, 3, 4, 5, 6]).unwrap();
    assert_eq!(m.row_count(), 2);
    assert_eq!(m.column_count(), 3);
    assert_eq!(*m.index(addr(0, 0)), 1);
    assert_eq!(*m.index(addr(1, 2)), 6);
    assert_eq!(
        m.addresses().collect(),
        vec![addr(0, 0), addr(0, 1), addr(0, 2), addr(1, 0), addr(1, 1), addr(1, 2)]
    );
    let t = new_transposed_matrix(&mut m);
    assert_eq!(t.row_count(), 3);
    assert_eq!(t.column_count(), 2);
    assert_eq!(*t.index(addr(2, 0)), 3);
    assert_eq!(*t.index(addr(0, 1)), 4);
}

#[test]
fn transposed_view_reads_swapped_cells() {
    let mut m = new_matrix(3u8, (0..12u32).collect()).unwrap();
    let under = m.clone();
    let t = new_transposed_matrix(&mut m);
    assert_eq!(t.row_count(), under.column_count());
    assert_eq!(t.column_count(), under.row_count());
    for r in 0..4u8 {
        for c in 0..3u8 {
            assert_eq!(t.get(addr(r, c)), under.get(addr(c, r)));
        }
    }
}

#[test]
fn corner_and_centre_neighbours() {
    let m = new_default_matrix::<u8, u8>(3, 3).unwrap();
    assert_eq!(addr(0, 0).neighbors(&m), vec![addr(0, 1), addr(1, 0), addr(1, 1)]);
    assert_eq!(addr(1, 1).neighbors(&m).len(), 8);
}

#[test]
fn empty_matrix_yields_nothing() {
    let m = new_default_matrix::<u8, u8>(0, 0).unwrap();
    assert!(m.addresses().collect().is_empty());
    assert!(m.iter().collect().is_empty());
    let mut rows = m.rows();
    assert!(rows.next().is_none());
    assert!(rows.next_back().is_none());
    let mut columns = m.columns();
    assert!(columns.next().is_none());
    assert!(columns.next_back().is_none());
}

#[test]
fn row_major_order_of_values() {
    let m = new_matrix(3u8, (1..=6u32).collect()).unwrap();
    assert_eq!(m.iter().collect(), vec![&1, &2, &3, &4, &5, &6]);
    let addresses = m.addresses().collect();
    for (k, a) in addresses.iter().enumerate() {
        assert_eq!(a.row as usize, k / 2);
        assert_eq!(a.column as usize, k % 2);
    }
}

#[test]
fn alternating_ends_meet_in_the_middle() {
    let m = new_matrix(1u8, (0..7u32).collect()).unwrap();
    for pattern in 0u32..128 {
        let mut it = m.row(0).unwrap().iter();
        let mut front = Vec::new();
        let mut back = Vec::new();
        for step in 0..7 {
            if pattern & (1 << step) != 0 {
                front.push(*it.next().unwrap());
            } else {
                back.push(*it.next_back().unwrap());
            }
        }
        assert!(it.next().is_none());
        assert!(it.next_back().is_none());
        back.reverse();
        front.extend(back);
        assert_eq!(front, (0..7u32).collect::<Vec<u32>>());
    }
}

#[test]
fn alternating_ends_of_a_column_with_signed_coordinates() {
    let m = new_matrix(4i8, vec![1, 2, 3, 4]).unwrap();
    let mut it = m.column(0).unwrap().iter();
    assert_eq!(it.next_back(), Some(&4));
    assert_eq!(it.next(), Some(&1));
    assert_eq!(it.next_back(), Some(&3));
    assert_eq!(it.next(), Some(&2));
    assert_eq!(it.next(), None);
    assert_eq!(it.next_back(), None);
}
