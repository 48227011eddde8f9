use iris_pipeline::sampler::{sample, sample_indices};
use iris_pipeline::table::{Column, Table};

fn numbered_table(rows: usize) -> Table {
    let mut vals: Vec<u64> = Vec::new();
    let mut keys: Vec<u64> = Vec::new();
    for i in 0..rows {
        vals.push((i as f64).to_bits());
        keys.push(i as u64);
    }
    Table::new(vec![
        Column { name: "Value".to_string(), cells: vals },
        Column { name: "Key".to_string(), cells: keys },
    ])
    .expect("columns are well formed")
}

#[test]
fn sampling_is_deterministic_for_fixed_seed() {
    let t = numbered_table(25);
    let a = sample(&t, 4, 5, 1337);
    let b = sample(&t, 4, 5, 1337);
    assert_eq!(a.rows(), b.rows());
    assert_eq!(a.width(), b.width());
    for c in 0..a.width() {
        assert_eq!(a.name_at(c), b.name_at(c));
        for r in 0..a.rows() {
            assert_eq!(a.cell_at(c, r), b.cell_at(c, r));
        }
    }
}

#[test]
fn sample_size_is_floor_of_four_fifths() {
    assert_eq!(sample(&numbered_table(10), 4, 5, 1337).rows(), 8);
    assert_eq!(sample(&numbered_table(5), 4, 5, 1337).rows(), 4);
    assert_eq!(sample(&numbered_table(4), 4, 5, 1337).rows(), 3);
    assert_eq!(sample(&numbered_table(3), 4, 5, 1337).rows(), 2);
    assert_eq!(sample(&numbered_table(2), 4, 5, 1337).rows(), 1);
}

#[test]
fn tiny_table_samples_to_zero_rows() {
    assert_eq!(sample(&numbered_table(1), 4, 5, 1337).rows(), 0);
}

#[test]
fn sampled_rows_come_from_the_table_without_replacement() {
    let rows = 20;
    let t = numbered_table(rows);
    let s = sample(&t, 4, 5, 1337);
    assert_eq!(s.rows(), 16);
    let mut seen = vec![false; rows];
    for r in 0..s.rows() {
        let key = s.cell_at(1, r) as usize;
        assert!(key < rows, "sampled key must come from the table");
        assert!(!seen[key], "a row may be selected at most once");
        seen[key] = true;
        // the whole row travels together
        assert_eq!(s.cell_at(0, r), (key as f64).to_bits());
    }
}

#[test]
fn sample_indices_are_distinct_and_in_range() {
    let idx = sample_indices(100, 80, 1337);
    assert_eq!(idx.len(), 80);
    let mut seen = vec![false; 100];
    for &i in &idx {
        assert!(i < 100);
        assert!(!seen[i]);
        seen[i] = true;
    }
}

#[test]
fn sample_indices_reproducible_across_calls() {
    assert_eq!(sample_indices(50, 40, 1337), sample_indices(50, 40, 1337));
}
