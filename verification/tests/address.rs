use edgemail::address::{decimal_bytes, temp_address};

#[test]
fn decimal_rendering() {
    assert_eq!(decimal_bytes(0), b"0".to_vec());
    assert_eq!(decimal_bytes(7), b"7".to_vec());
    assert_eq!(decimal_bytes(10), b"10".to_vec());
    assert_eq!(decimal_bytes(1700000000), b"1700000000".to_vec());
    assert_eq!(decimal_bytes(u64::MAX), b"18446744073709551615".to_vec());
}

#[test]
fn temp_address_composes_prefix_timestamp_and_domain() {
    assert_eq!(
        temp_address(b"agent", 1700000000, b"idont.date"),
        b"agent_1700000000@idont.date".to_vec()
    );
    assert_eq!(temp_address(b"", 0, b"x"), b"_0@x".to_vec());
}
