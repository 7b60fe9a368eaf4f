use discard_server::line::{byte_is_space, find_newline, take_line, trimmed_len, NEWLINE};

#[test]
fn newline_is_line_feed() {
    assert_eq!(NEWLINE, b'\n');
}

#[test]
fn find_newline_gives_the_first() {
    assert_eq!(find_newline(&b"ab\ncd\n".to_vec()), Some(2));
    assert_eq!(find_newline(&b"\n".to_vec()), Some(0));
    assert_eq!(find_newline(&b"abcd".to_vec()), None);
    assert_eq!(find_newline(&Vec::new()), None);
}

#[test]
fn whitespace_bytes() {
    for b in [b' ', b'\t', b'\n', 0x0b, 0x0c, b'\r'] {
        assert!(byte_is_space(b));
    }
    for b in [0u8, 8, 14, 31, 33, b'a', 0x85, 0xa0, 255] {
        assert!(!byte_is_space(b));
    }
}

#[test]
fn trimmed_len_counts_up_to_the_last_visible_byte() {
    assert_eq!(trimmed_len(&b"QUIT\r\n".to_vec()), 4);
    assert_eq!(trimmed_len(&b"a b \t ".to_vec()), 3);
    assert_eq!(trimmed_len(&b" \n\r".to_vec()), 0);
    assert_eq!(trimmed_len(&Vec::new()), 0);
    assert_eq!(trimmed_len(&b"abc".to_vec()), 3);
}

#[test]
fn take_line_splits_behind_the_first_newline() {
    let mut buf = b"HELO server\nQUIT\n".to_vec();
    assert_eq!(take_line(&mut buf), Some((b"HELO server".to_vec(), 12)));
    assert_eq!(buf, b"QUIT\n".to_vec());
    assert_eq!(take_line(&mut buf), Some((b"QUIT".to_vec(), 5)));
    assert_eq!(buf, Vec::<u8>::new());
    assert_eq!(take_line(&mut buf), None);
}

#[test]
fn take_line_leaves_a_partial_line_alone() {
    let mut buf = b"partial".to_vec();
    assert_eq!(take_line(&mut buf), None);
    assert_eq!(buf, b"partial".to_vec());
}

#[test]
fn take_line_trims_the_end_only() {
    let mut buf = b"  hello \t\r\nnext".to_vec();
    assert_eq!(take_line(&mut buf), Some((b"  hello".to_vec(), 11)));
    assert_eq!(buf, b"next".to_vec());
}

#[test]
fn take_line_of_a_blank_line_is_empty() {
    let mut buf = b" \r\n\n".to_vec();
    assert_eq!(take_line(&mut buf), Some((Vec::new(), 3)));
    assert_eq!(take_line(&mut buf), Some((Vec::new(), 1)));
    assert_eq!(take_line(&mut buf), None);
}
