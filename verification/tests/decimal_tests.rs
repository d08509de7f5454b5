use appshell::decimal::{fmt_i32, fmt_u32, parse_i32_at, parse_u32_at};

#[test]
fn unsigned_rendering_is_fixed_width() {
    assert_eq!(fmt_u32(0), b"0000000000".to_vec());
    assert_eq!(fmt_u32(800), b"0000000800".to_vec());
    assert_eq!(fmt_u32(u32::MAX), b"4294967295".to_vec());
}

#[test]
fn signed_rendering_carries_a_sign() {
    assert_eq!(fmt_i32(0), b"+0000000000".to_vec());
    assert_eq!(fmt_i32(-45), b"-0000000045".to_vec());
    assert_eq!(fmt_i32(i32::MIN), b"-2147483648".to_vec());
    assert_eq!(fmt_i32(i32::MAX), b"+2147483647".to_vec());
}

#[test]
fn numeric_round_trips() {
    for v in [0u32, 1, 999, 1080, u32::MAX] {
        assert_eq!(parse_u32_at(&fmt_u32(v), 0), Some(v));
    }
    for v in [0i32, 120, -45, i32::MIN, i32::MAX] {
        assert_eq!(parse_i32_at(&fmt_i32(v), 0), Some(v));
    }
}

#[test]
fn rejects_what_no_value_renders_to() {
    assert_eq!(parse_u32_at(b"00000x0800", 0), None);
    assert_eq!(parse_u32_at(b"9999999999", 0), None); // above u32::MAX
    assert_eq!(parse_i32_at(b"00000000000", 0), None); // no sign byte
    assert_eq!(parse_i32_at(b"-0000000000", 0), None); // negative zero
    assert_eq!(parse_i32_at(b"+2147483648", 0), None); // above i32::MAX
    assert_eq!(parse_i32_at(b"-2147483649", 0), None); // below i32::MIN
}
