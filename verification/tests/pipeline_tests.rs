use iris_pipeline::codec::decode;
use iris_pipeline::error::PipelineError;
use iris_pipeline::pipeline::{check_observation, prepare};
use iris_pipeline::table::{Column, Table};

/// A small all-setosa dataset: four feature columns and a `Species` column
/// whose every value is the class code `0.0`.
fn all_setosa_table(rows: usize) -> Table {
    let feature = |base: f64| -> Vec<u64> {
        (0..rows).map(|i| (base + i as f64 * 0.1).to_bits()).collect()
    };
    Table::new(vec![
        Column { name: "SepalLength".to_string(), cells: feature(5.0) },
        Column { name: "SepalWidth".to_string(), cells: feature(3.0) },
        Column { name: "PetalLength".to_string(), cells: feature(1.2) },
        Column { name: "PetalWidth".to_string(), cells: feature(0.1) },
        Column { name: "Species".to_string(), cells: vec![0.0f64.to_bits(); rows] },
    ])
    .expect("columns are well formed")
}

#[test]
fn all_setosa_run_prepares_and_decodes_to_setosa() {
    let t = all_setosa_table(10);
    match prepare(&t) {
        Ok(d) => {
            assert_eq!(d.labels.len(), 8);
            assert_eq!(d.width, 4);
            for &l in &d.labels {
                assert_eq!(f64::from_bits(l), 0.0);
            }
            // a model fit on all-zero labels predicts a value that truncates
            // to 0; the decoded report is then the setosa name
            let truncated = 0.0f64.trunc() as u64;
            assert_eq!(decode(truncated), Some("Iris-setosa".to_string()));
        }
        Err(_) => panic!("a well-formed labeled table must prepare"),
    }
}

#[test]
fn missing_species_column_aborts_with_schema_error() {
    let t = Table::new(vec![
        Column { name: "SepalLength".to_string(), cells: vec![5.1f64.to_bits(); 10] },
        Column { name: "PetalLength".to_string(), cells: vec![1.4f64.to_bits(); 10] },
    ])
    .expect("columns are well formed");
    match prepare(&t) {
        Ok(_) => panic!("a table without the label column must not prepare"),
        Err(e) => assert_eq!(e, PipelineError::Schema),
    }
}

#[test]
fn empty_training_sample_aborts_with_training_error() {
    let t = all_setosa_table(1);
    match prepare(&t) {
        Ok(_) => panic!("a sample of no rows cannot be fitted"),
        Err(e) => assert_eq!(e, PipelineError::Training),
    }
}

#[test]
fn observation_with_wrong_feature_count_is_a_shape_error() {
    let t = all_setosa_table(10);
    let d = match prepare(&t) {
        Ok(d) => d,
        Err(_) => panic!("a well-formed labeled table must prepare"),
    };
    let short_obs = vec![5.1f64.to_bits(), 3.4f64.to_bits(), 1.4f64.to_bits()];
    match check_observation(&d, &short_obs) {
        Ok(()) => panic!("three features against four trained columns must be rejected"),
        Err(e) => assert_eq!(e, PipelineError::Shape),
    }
}

#[test]
fn observation_with_matching_feature_count_is_accepted() {
    let t = all_setosa_table(10);
    let d = match prepare(&t) {
        Ok(d) => d,
        Err(_) => panic!("a well-formed labeled table must prepare"),
    };
    let obs = vec![
        5.1f64.to_bits(),
        3.4f64.to_bits(),
        1.4f64.to_bits(),
        0.2f64.to_bits(),
    ];
    assert!(check_observation(&d, &obs).is_ok());
}

#[test]
fn unknown_truncated_prediction_reports_no_species() {
    // a prediction that truncates to 5 has no entry in the label map; the
    // run still completes, reporting the absence instead of a name
    let truncated = 5.7f64.trunc() as u64;
    assert_eq!(decode(truncated), None);
}

#[test]
fn prepare_is_deterministic() {
    let t1 = all_setosa_table(10);
    let t2 = all_setosa_table(10);
    match (prepare(&t1), prepare(&t2)) {
        (Ok(a), Ok(b)) => {
            assert_eq!(a.labels, b.labels);
            assert_eq!(a.features, b.features);
            assert_eq!(a.width, b.width);
        }
        _ => panic!("a well-formed labeled table must prepare"),
    }
}
