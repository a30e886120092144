//! The input packager on concrete inputs: empty and absent inputs,
//! skipped empty tokens, kept ordering, and the invalid-literal
//! failure with token and position.

use acc::error::Error;
use acc::inputs::{FIELD_ORDER, pack};

#[test]
fn absent_input_is_an_empty_sequence() {
    assert_eq!(pack(&None).unwrap(), Vec::<u64>::new());
}

#[test]
fn empty_string_is_an_empty_sequence() {
    assert_eq!(pack(&Some(b"".to_vec())).unwrap(), Vec::<u64>::new());
}

#[test]
fn only_commas_is_an_empty_sequence() {
    assert_eq!(pack(&Some(b",,,".to_vec())).unwrap(), Vec::<u64>::new());
}

#[test]
fn ordering_is_preserved() {
    assert_eq!(pack(&Some(b"3,5,7".to_vec())).unwrap(), vec![3, 5, 7]);
}

#[test]
fn empty_tokens_are_skipped() {
    assert_eq!(pack(&Some(b"3,,5".to_vec())).unwrap(), vec![3, 5]);
}

#[test]
fn trailing_comma_is_tolerated() {
    assert_eq!(pack(&Some(b"1,2,".to_vec())).unwrap(), vec![1, 2]);
}

#[test]
fn invalid_literal_names_token_and_position() {
    let err = pack(&Some(b"3,abc,5".to_vec())).unwrap_err();
    assert_eq!(err, Error::InvalidInputLiteral { token: b"abc".to_vec(), position: 1 });
}

#[test]
fn position_counts_empty_segments() {
    let err = pack(&Some(b",,x".to_vec())).unwrap_err();
    assert_eq!(err, Error::InvalidInputLiteral { token: b"x".to_vec(), position: 2 });
}

#[test]
fn largest_canonical_value_is_accepted() {
    let top = FIELD_ORDER - 1;
    let text = format!("{top}").into_bytes();
    assert_eq!(pack(&Some(text)).unwrap(), vec![top]);
}

#[test]
fn value_at_the_field_order_is_rejected() {
    let text = format!("{FIELD_ORDER}").into_bytes();
    let err = pack(&Some(text)).unwrap_err();
    assert_eq!(
        err,
        Error::InvalidInputLiteral { token: format!("{FIELD_ORDER}").into_bytes(), position: 0 }
    );
}

#[test]
fn wildly_long_literal_is_rejected_not_wrapped() {
    let err = pack(&Some(b"999999999999999999999999999999999".to_vec())).unwrap_err();
    assert!(matches!(err, Error::InvalidInputLiteral { position: 0, .. }));
}
