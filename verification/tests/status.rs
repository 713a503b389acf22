use arma_rs::status::{
    conversion_status, is_reportable_count, mismatch_status, MAX_REPORTABLE_COUNT,
    MAX_REPORTABLE_POSITION, STATUS_COUNT_UNREPORTABLE, STATUS_INVALID_NAME,
    STATUS_OUTPUT_OVERFLOW, STATUS_SUCCESS,
};

#[test]
fn fixed_statuses() {
    assert_eq!(STATUS_SUCCESS, 0);
    assert_eq!(STATUS_INVALID_NAME, 1);
    assert_eq!(STATUS_OUTPUT_OVERFLOW, 4);
    assert_eq!(STATUS_COUNT_UNREPORTABLE, 2);
}

#[test]
fn mismatch_status_of_a_count_that_cannot_be_written() {
    assert_eq!(mismatch_status(-1), 2);
    assert_eq!(mismatch_status(libc::c_int::MIN), 2);
    assert_eq!(mismatch_status(147_483_648), 2);
    assert_eq!(mismatch_status(libc::c_int::MAX), 2);
}

#[test]
fn mismatch_status_is_two_then_count() {
    assert_eq!(mismatch_status(0), 20);
    assert_eq!(mismatch_status(5), 25);
    assert_eq!(mismatch_status(9), 29);
    assert_eq!(mismatch_status(10), 210);
    assert_eq!(mismatch_status(12), 212);
    assert_eq!(mismatch_status(100), 2100);
    assert_eq!(mismatch_status(99_999_999), 299_999_999);
    assert_eq!(mismatch_status(100_000_000), 2_100_000_000);
    assert_eq!(mismatch_status(MAX_REPORTABLE_COUNT), libc::c_int::MAX);
}

#[test]
fn mismatch_status_agrees_with_formatting() {
    for count in [0, 1, 7, 13, 99, 100, 101, 4096, 65535, 1_000_000, 147_483_647] {
        let expected = format!("2{}", count).parse::<libc::c_int>().unwrap();
        assert_eq!(mismatch_status(count), expected);
    }
}

#[test]
fn conversion_status_is_three_then_position() {
    assert_eq!(conversion_status(0), 30);
    assert_eq!(conversion_status(1), 31);
    assert_eq!(conversion_status(9), 39);
    assert_eq!(conversion_status(10), 310);
    assert_eq!(conversion_status(11), 311);
    assert_eq!(conversion_status(MAX_REPORTABLE_POSITION), 399_999_999);
}

#[test]
fn reportable_counts() {
    assert!(is_reportable_count(0));
    assert!(is_reportable_count(147_483_647));
    assert!(!is_reportable_count(147_483_648));
    assert!(!is_reportable_count(-1));
    assert!(!is_reportable_count(libc::c_int::MAX));
    assert!(!is_reportable_count(libc::c_int::MIN));
}
