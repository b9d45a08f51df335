use ow_replay_renderer::range::{parse_replay_range, RangeError};

#[test]
fn replay_range_expands_sorted() {
    assert_eq!(
        parse_replay_range("1-4, 6-7, 9"),
        Ok(vec![1, 2, 3, 4, 6, 7, 9])
    );
}

#[test]
fn replay_range_single_number() {
    assert_eq!(parse_replay_range("7"), Ok(vec![7]));
    assert_eq!(parse_replay_range(" 10 "), Ok(vec![10]));
}

#[test]
fn replay_range_keeps_duplicates_sorted() {
    assert_eq!(parse_replay_range("1-3,2"), Ok(vec![1, 2, 2, 3]));
    assert_eq!(parse_replay_range("9,1"), Ok(vec![1, 9]));
}

#[test]
fn replay_range_rejects_zero_endpoint() {
    assert_eq!(parse_replay_range("0-2"), Err(RangeError::OutOfBounds));
}

#[test]
fn replay_range_rejects_endpoints_over_ten() {
    assert_eq!(parse_replay_range("11"), Err(RangeError::OutOfBounds));
    assert_eq!(parse_replay_range("5-11"), Err(RangeError::OutOfBounds));
    assert_eq!(parse_replay_range("1-4, 6-12"), Err(RangeError::OutOfBounds));
}

#[test]
fn replay_range_rejects_inverted_spans() {
    assert_eq!(parse_replay_range("4-2"), Err(RangeError::Inverted));
}

#[test]
fn replay_range_rejects_non_numbers() {
    assert_eq!(parse_replay_range("abc"), Err(RangeError::Malformed));
    assert_eq!(parse_replay_range(""), Err(RangeError::Malformed));
    assert_eq!(parse_replay_range("1-"), Err(RangeError::Malformed));
    assert_eq!(parse_replay_range("3 - 4"), Err(RangeError::Malformed));
    assert_eq!(parse_replay_range("1,,2"), Err(RangeError::Malformed));
}

#[test]
fn replay_range_first_bad_piece_decides_the_error() {
    assert_eq!(parse_replay_range("4-2, 0"), Err(RangeError::Inverted));
    assert_eq!(parse_replay_range("0, 4-2"), Err(RangeError::OutOfBounds));
    assert_eq!(parse_replay_range("x, 4-2"), Err(RangeError::Malformed));
}

#[test]
fn replay_range_accepts_plus_prefix_like_integer_parsing() {
    assert_eq!(parse_replay_range("+5"), Ok(vec![5]));
}
