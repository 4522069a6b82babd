use pass_mng::generator::{EXTENDED_CHARSET, MIN_PASSWORD_LEN};
use pass_mng::{generate, StoreError};

#[test]
fn generate_too_short_is_refused() {
    assert_eq!(generate(4, false), Err(StoreError::LengthTooSmall));
    assert_eq!(generate(5, true), Err(StoreError::LengthTooSmall));
    assert_eq!(generate(0, false), Err(StoreError::LengthTooSmall));
}

#[test]
fn generate_minimum_length() {
    assert_eq!(MIN_PASSWORD_LEN, 6);
    let p = generate(6, false).ok().unwrap();
    assert_eq!(p.chars().count(), 6);
}

#[test]
fn generate_alphanumeric() {
    let p = generate(64, false).ok().unwrap();
    assert_eq!(p.chars().count(), 64);
    assert!(p.chars().all(|c| c.is_ascii_alphanumeric()));
}

#[test]
fn generate_extended_sixteen() {
    let p = generate(16, true).ok().unwrap();
    assert_eq!(p.chars().count(), 16);
    assert!(p.chars().all(|c| EXTENDED_CHARSET.contains(c)));
}

#[test]
fn generate_is_random() {
    let a = generate(16, true).ok().unwrap();
    let b = generate(16, true).ok().unwrap();
    let c = generate(16, false).ok().unwrap();
    let d = generate(16, false).ok().unwrap();
    assert!(a != b || c != d);
}
