use iris_pipeline::table::{Column, Table};

#[test]
fn equal_columns_build_a_table() {
    let t = Table::new(vec![
        Column { name: "A".to_string(), cells: vec![1, 2, 3] },
        Column { name: "B".to_string(), cells: vec![4, 5, 6] },
    ]);
    match t {
        Some(t) => {
            assert_eq!(t.rows(), 3);
            assert_eq!(t.width(), 2);
            assert_eq!(t.name_at(0), "A");
            assert_eq!(t.name_at(1), "B");
            assert_eq!(t.cell_at(1, 2), 6);
        }
        None => panic!("equal columns with distinct names must build"),
    }
}

#[test]
fn unequal_column_lengths_are_rejected() {
    let t = Table::new(vec![
        Column { name: "A".to_string(), cells: vec![1, 2, 3] },
        Column { name: "B".to_string(), cells: vec![4, 5] },
    ]);
    assert!(t.is_none());
}

#[test]
fn duplicate_column_names_are_rejected() {
    let t = Table::new(vec![
        Column { name: "A".to_string(), cells: vec![1, 2] },
        Column { name: "A".to_string(), cells: vec![3, 4] },
    ]);
    assert!(t.is_none());
}

#[test]
fn a_table_of_no_columns_builds_empty() {
    let t = Table::new(vec![]);
    match t {
        Some(t) => {
            assert_eq!(t.rows(), 0);
            assert_eq!(t.width(), 0);
        }
        None => panic!("a table of no columns is trivially well formed"),
    }
}
