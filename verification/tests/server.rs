use ipwned::filter::insert;
use ipwned::server::{check_hash, STATUS_ABSENT, STATUS_BAD_REQUEST, STATUS_PRESENT};

#[test]
fn status_codes() {
    assert_eq!(STATUS_ABSENT, 204);
    assert_eq!(STATUS_PRESENT, 205);
    assert_eq!(STATUS_BAD_REQUEST, 400);
}

#[test]
fn body_that_is_no_hash_is_a_bad_request() {
    let filter = qfilter::Filter::new(1000, 0.000001);
    assert_eq!(check_hash(&[], &filter), 400);
    assert_eq!(check_hash(&[0u8; 19], &filter), 400);
    assert_eq!(check_hash(&[0u8; 21], &filter), 400);
    assert_eq!(check_hash(&[0u8; 40], &filter), 400);
}

#[test]
fn present_and_absent_hashes() {
    let mut filter = qfilter::Filter::new(1000, 0.000001);
    let known = [0x5Au8; 20];
    let unknown = [0xA5u8; 20];
    assert_eq!(check_hash(&known, &filter), 204);
    insert(&mut filter, &known);
    assert_eq!(check_hash(&known, &filter), 205);
    assert_eq!(check_hash(&unknown, &filter), 204);
}
