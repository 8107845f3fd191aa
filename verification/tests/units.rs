use host_monitor::units::{bytes_to_megabytes, BYTES_PER_MEGABYTE};

#[test]
fn one_byte_short_of_a_megabyte_is_zero() {
    assert_eq!(bytes_to_megabytes(1_048_575), 0);
}

#[test]
fn two_megabytes_exactly() {
    assert_eq!(bytes_to_megabytes(2_097_152), 2);
}

#[test]
fn megabyte_is_two_to_the_twentieth() {
    assert_eq!(BYTES_PER_MEGABYTE, 1024 * 1024);
    assert_eq!(bytes_to_megabytes(BYTES_PER_MEGABYTE), 1);
}

#[test]
fn zero_and_largest_byte_counts() {
    assert_eq!(bytes_to_megabytes(0), 0);
    assert_eq!(bytes_to_megabytes(u64::MAX), 17_592_186_044_415);
}

#[test]
fn conversion_equals_two_divisions_by_1024() {
    for bytes in [0u64, 1, 1023, 1024, 1_048_576, 3_500_000, 987_654_321_012] {
        assert_eq!(bytes_to_megabytes(bytes), bytes / 1024 / 1024);
    }
}
