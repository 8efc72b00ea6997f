use dynamin::text::{c_string_bytes, wide_string_units};

#[test]
fn c_strings_are_copied_unless_already_terminated() {
    assert_eq!(c_string_bytes(b"Tester\0"), None);
    assert_eq!(c_string_bytes(b"Tester"), Some(b"Tester\0".to_vec()));
    assert_eq!(c_string_bytes(b"a\0b"), Some(b"a?b\0".to_vec()));
    assert_eq!(c_string_bytes(b"a\0b\0"), Some(b"a?b?\0".to_vec()));
    assert_eq!(c_string_bytes(b""), Some(vec![0]));
    assert_eq!(c_string_bytes(b"\0"), None);
}

#[test]
fn wide_strings_get_one_terminator() {
    assert_eq!(wide_string_units(&[0x41, 0, 0x42]), vec![0x41, 63, 0x42, 0]);
    assert_eq!(wide_string_units(&[]), vec![0]);
}
