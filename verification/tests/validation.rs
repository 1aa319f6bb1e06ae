use stroke_engine::validate::validate_input;

#[test]
fn rejects_null_pointer() {
    assert!(!validate_input(true, 9));
}

#[test]
fn rejects_zero_length() {
    assert!(!validate_input(false, 0));
}

#[test]
fn rejects_length_not_multiple_of_three() {
    assert!(!validate_input(false, 7));
    assert!(!validate_input(false, 1));
    assert!(!validate_input(false, 8));
}

#[test]
fn accepts_whole_triplets() {
    assert!(validate_input(false, 3));
    assert!(validate_input(false, 6));
    assert!(validate_input(false, 9));
}
