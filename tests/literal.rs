use rwlinux::literal::{typed_value_bytes, JumpAddress, WriteValue};

#[test]
fn jump_relative_forward() {
    assert_eq!(JumpAddress::new("+10").parse(0x20), Some(0x30));
}

#[test]
fn jump_relative_backward() {
    assert_eq!(JumpAddress::new("-5").parse(0x10), Some(0xb));
    assert_eq!(JumpAddress::new("-10").parse(0x10), Some(0));
}

#[test]
fn jump_backward_below_zero_fails() {
    assert_eq!(JumpAddress::new("-100").parse(0x5), None);
}

#[test]
fn jump_absolute() {
    assert_eq!(JumpAddress::new("ff").parse(0x1234), Some(0xff));
    assert_eq!(JumpAddress::new("DeadBeef").parse(0), Some(0xdead_beef));
    assert_eq!(JumpAddress::new("ffffffffffffffff").parse(0), Some(u64::MAX));
}

#[test]
fn jump_malformed_fails() {
    assert_eq!(JumpAddress::new("").parse(0x10), None);
    assert_eq!(JumpAddress::new("+").parse(0x10), None);
    assert_eq!(JumpAddress::new("-").parse(0x10), None);
    assert_eq!(JumpAddress::new("0x10").parse(0x10), None);
    assert_eq!(JumpAddress::new("++5").parse(0x10), None);
    assert_eq!(JumpAddress::new("-+5").parse(0x10), None);
    assert_eq!(JumpAddress::new("1 0").parse(0x10), None);
}

#[test]
fn jump_outside_address_space_fails() {
    assert_eq!(JumpAddress::new("10000000000000000").parse(0), None);
    assert_eq!(JumpAddress::new("+1").parse(u64::MAX), None);
    assert_eq!(JumpAddress::new("+f").parse(u64::MAX - 0xf), Some(u64::MAX));
}

#[test]
fn write_raw_bytes_in_given_order() {
    assert_eq!(WriteValue::new("deadbeef").parse(), Some(vec![0xde, 0xad, 0xbe, 0xef]));
    assert_eq!(WriteValue::new("DEADbeef").parse(), Some(vec![0xde, 0xad, 0xbe, 0xef]));
    assert_eq!(WriteValue::new("").parse(), Some(vec![]));
}

#[test]
fn write_raw_bytes_malformed() {
    assert_eq!(WriteValue::new("abc").parse(), None);
    assert_eq!(WriteValue::new("zz").parse(), None);
    assert_eq!(WriteValue::new("0x12").parse(), None);
}

#[test]
fn write_byte_literal() {
    assert_eq!(WriteValue::new("B:7f").parse(), Some(vec![0x7f]));
    assert_eq!(WriteValue::new("B:100").parse(), None);
}

#[test]
fn write_word_literal_native_order() {
    let bytes = WriteValue::new("W:1234").parse().unwrap();
    assert_eq!(bytes, 0x1234u16.to_ne_bytes().to_vec());
    if u16::from_ne_bytes([1, 0]) == 1 {
        assert_eq!(bytes, vec![0x34, 0x12]);
    } else {
        assert_eq!(bytes, vec![0x12, 0x34]);
    }
    assert_eq!(WriteValue::new("W:10000").parse(), None);
}

#[test]
fn write_wider_literals_native_order() {
    assert_eq!(
        WriteValue::new("DW:12345678").parse(),
        Some(0x1234_5678u32.to_ne_bytes().to_vec())
    );
    assert_eq!(
        WriteValue::new("QW:0102030405060708").parse(),
        Some(0x0102_0304_0506_0708u64.to_ne_bytes().to_vec())
    );
    assert_eq!(
        WriteValue::new("DQW:0102030405060708090a0b0c0d0e0f10").parse(),
        Some(0x0102_0304_0506_0708_090a_0b0c_0d0e_0f10u128.to_ne_bytes().to_vec())
    );
    assert_eq!(WriteValue::new("DW:100000000").parse(), None);
    assert_eq!(WriteValue::new("QW:10000000000000000").parse(), None);
}

#[test]
fn write_dqw_with_33_digits_is_rejected() {
    let digits = format!("1{}", "0".repeat(32));
    assert_eq!(digits.len(), 33);
    assert_eq!(WriteValue::new(&format!("DQW:{}", digits)).parse(), None);
}

#[test]
fn write_leading_zeros_within_width_accepted() {
    assert_eq!(WriteValue::new("B:000ff").parse(), Some(vec![0xff]));
}

#[test]
fn write_unknown_prefix_or_bad_digits() {
    assert_eq!(WriteValue::new("X:12").parse(), None);
    assert_eq!(WriteValue::new("b:12").parse(), None);
    assert_eq!(WriteValue::new(":12").parse(), None);
    assert_eq!(WriteValue::new("W:").parse(), None);
    assert_eq!(WriteValue::new("W:12:34").parse(), None);
    assert_eq!(WriteValue::new("W:+12").parse(), None);
}

#[test]
fn typed_values_by_type_name() {
    assert_eq!(typed_value_bytes("byte", "7f"), Some(vec![0x7f]));
    assert_eq!(typed_value_bytes("word", "1234"), Some(0x1234u16.to_ne_bytes().to_vec()));
    assert_eq!(typed_value_bytes("dword", "1"), Some(1u32.to_ne_bytes().to_vec()));
    assert_eq!(typed_value_bytes("qword", "ff"), Some(0xffu64.to_ne_bytes().to_vec()));
    assert_eq!(typed_value_bytes("dqword", "ab"), Some(0xabu128.to_ne_bytes().to_vec()));
    assert_eq!(typed_value_bytes("byte", "100"), None);
    assert_eq!(typed_value_bytes("BYTE", "1"), None);
    assert_eq!(typed_value_bytes("word", ""), None);
    assert_eq!(typed_value_bytes("qword", "zz"), None);
}

#[test]
fn typed_values_take_a_leading_plus() {
    assert_eq!(typed_value_bytes("byte", "+ff"), Some(vec![0xff]));
    assert_eq!(typed_value_bytes("word", "+1234"), Some(0x1234u16.to_ne_bytes().to_vec()));
    assert_eq!(typed_value_bytes("byte", "+"), None);
    assert_eq!(typed_value_bytes("byte", "++1"), None);
    assert_eq!(typed_value_bytes("byte", "-1"), None);
    assert_eq!(typed_value_bytes("byte", "+100"), None);
}
