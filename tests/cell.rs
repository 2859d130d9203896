use rwlinux::cell::Cell;

#[test]
fn hex_of_known_byte_is_upper_case() {
    assert_eq!(Cell { inner: Some(0xab) }.hex(), "AB");
    assert_eq!(Cell { inner: Some(0x0f) }.hex(), "0F");
    assert_eq!(Cell { inner: Some(0x00) }.hex(), "00");
    assert_eq!(Cell { inner: Some(0xff) }.hex(), "FF");
}

#[test]
fn hex_of_unknown_byte_is_sentinel() {
    assert_eq!(Cell { inner: None }.hex(), "XX");
}

#[test]
fn hex_str_is_lower_case() {
    assert_eq!(Cell { inner: Some(0xab) }.hex_str(), "ab");
    assert_eq!(Cell { inner: Some(0x09) }.hex_str(), "09");
    assert_eq!(Cell { inner: None }.hex_str(), "xx");
}

#[test]
fn ascii_of_printable_and_other_bytes() {
    assert_eq!(Cell { inner: Some(b'A') }.ascii(), "A");
    assert_eq!(Cell { inner: Some(b' ') }.ascii(), " ");
    assert_eq!(Cell { inner: Some(b'~') }.ascii(), "~");
    assert_eq!(Cell { inner: Some(0x0a) }.ascii(), ".");
    assert_eq!(Cell { inner: Some(0x7f) }.ascii(), ".");
    assert_eq!(Cell { inner: Some(0xc3) }.ascii(), ".");
    assert_eq!(Cell { inner: None }.ascii(), ".");
}
