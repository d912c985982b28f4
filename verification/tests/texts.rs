use engine_core::text::decimal_string;

#[test]
fn decimal_string_matches_std() {
    for n in [0usize, 1, 9, 10, 11, 99, 100, 101, 65_535, 65_536, 1_000_000, usize::MAX - 1, usize::MAX] {
        assert_eq!(decimal_string(n), n.to_string());
    }
}

#[test]
fn decimal_string_has_no_leading_zeros() {
    assert_eq!(decimal_string(0), "0");
    assert_eq!(decimal_string(7), "7");
    assert_eq!(decimal_string(1000), "1000");
    assert_eq!(decimal_string(10_203), "10203");
}
