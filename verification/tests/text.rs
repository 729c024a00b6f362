use slogger::text::{value_is_text_exec, value_text};

#[test]
fn plain_ascii_value_is_its_own_text() {
    assert_eq!(value_text(&b"hello".to_vec()), "hello");
}

#[test]
fn empty_value_is_empty_text() {
    assert!(value_is_text_exec(&Vec::new()));
    assert_eq!(value_text(&Vec::new()), "");
}

#[test]
fn tab_and_space_are_text() {
    assert!(value_is_text_exec(&vec![b'\t', b' ', b'a']));
    assert_eq!(value_text(&vec![b'\t', b' ', b'a']), "\t a");
}

#[test]
fn boundary_bytes() {
    // 31 (unit separator) and 127 (DEL) are not text; 32 and 126 are.
    assert!(!value_is_text_exec(&vec![31u8]));
    assert!(!value_is_text_exec(&vec![127u8]));
    assert!(value_is_text_exec(&vec![32u8]));
    assert!(value_is_text_exec(&vec![126u8]));
}

#[test]
fn non_text_value_becomes_sentinel() {
    assert_eq!(value_text(&vec![0xFFu8]), "[INVALID UTF-8]");
    assert_eq!(value_text(&vec![b'o', b'k', 0u8]), "[INVALID UTF-8]");
}
