use iris_pipeline::codec::decode;

#[test]
fn decode_known_codes() {
    assert_eq!(decode(0), Some("Iris-setosa".to_string()));
    assert_eq!(decode(1), Some("Iris-versicolor".to_string()));
    assert_eq!(decode(2), Some("Iris-virginica".to_string()));
}

#[test]
fn decode_unknown_code_is_absent() {
    assert_eq!(decode(99), None);
}

#[test]
fn decode_first_code_past_the_map_is_absent() {
    assert_eq!(decode(3), None);
}

#[test]
fn decode_truncated_prediction_of_five_is_absent() {
    assert_eq!(decode(5), None);
}
