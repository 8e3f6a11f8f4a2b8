use chat_core::framer::{FrameError, LineFramer};
use chat_core::message::{
    bytes_eq, closing_notice_line, copy_bytes, is_close_line, is_closing_notice, Addr, Message,
};

#[test]
fn close_line_plain() {
    assert!(is_close_line(&b"close\n".to_vec()));
}

#[test]
fn close_line_without_terminator() {
    assert!(is_close_line(&b"close".to_vec()));
}

#[test]
fn close_line_surrounded_by_whitespace() {
    assert!(is_close_line(&b"  \tclose \r\n".to_vec()));
}

#[test]
fn close_line_is_exact() {
    assert!(!is_close_line(&b"closex\n".to_vec()));
    assert!(!is_close_line(&b"xclose\n".to_vec()));
    assert!(!is_close_line(&b"CLOSE\n".to_vec()));
    assert!(!is_close_line(&b"clo se\n".to_vec()));
    assert!(!is_close_line(&b"\n".to_vec()));
    assert!(!is_close_line(&b"".to_vec()));
}

#[test]
fn closing_notice_exact_bytes() {
    assert_eq!(closing_notice_line(), b"Closing the TCP chat.\n".to_vec());
    assert!(is_closing_notice(&b"Closing the TCP chat.\n".to_vec()));
    assert!(!is_closing_notice(&b"Closing the TCP chat.".to_vec()));
    assert!(!is_closing_notice(&b"close\n".to_vec()));
}

#[test]
fn byte_helpers() {
    let a = b"abc".to_vec();
    assert!(bytes_eq(&a, &b"abc".to_vec()));
    assert!(!bytes_eq(&a, &b"abd".to_vec()));
    assert!(!bytes_eq(&a, &b"ab".to_vec()));
    assert_eq!(copy_bytes(&a), a);
    let m = Message { text: a.clone(), origin: Addr { ip: 1, port: 2 } };
    let d = m.duplicate();
    assert_eq!(d.text, a);
    assert_eq!(d.origin, m.origin);
}

#[test]
fn framer_emits_complete_lines() {
    let mut f = LineFramer::new(64);
    assert_eq!(f.feed_byte(b'h'), Ok(None));
    assert_eq!(f.feed_byte(b'i'), Ok(None));
    assert_eq!(f.feed_byte(b'\n'), Ok(Some(b"hi\n".to_vec())));
    assert_eq!(f.feed_byte(b'\n'), Ok(Some(b"\n".to_vec())));
}

#[test]
fn framer_bounds_line_length() {
    let mut f = LineFramer::new(4);
    assert_eq!(f.feed_byte(b'a'), Ok(None));
    assert_eq!(f.feed_byte(b'b'), Ok(None));
    assert_eq!(f.feed_byte(b'c'), Ok(None));
    assert_eq!(f.feed_byte(b'd'), Err(FrameError::LineTooLong));
    assert_eq!(f.feed_byte(b'e'), Err(FrameError::LineTooLong));
    assert_eq!(f.feed_byte(b'\n'), Ok(Some(b"abc\n".to_vec())));
}

#[test]
fn chunk_feeding_splits_lines() {
    let mut f = LineFramer::new(64);
    let (lines, too_long) = f.feed_chunk(&b"one\ntwo\nthr".to_vec());
    assert!(!too_long);
    assert_eq!(lines, vec![b"one\n".to_vec(), b"two\n".to_vec()]);
    let (lines, too_long) = f.feed_chunk(&b"ee\n".to_vec());
    assert!(!too_long);
    assert_eq!(lines, vec![b"three\n".to_vec()]);
}

#[test]
fn chunk_feeding_keeps_lines_before_an_oversized_one() {
    let mut f = LineFramer::new(4);
    let (lines, too_long) = f.feed_chunk(&b"ok\nwaytoolong\n".to_vec());
    assert!(too_long);
    assert_eq!(lines, vec![b"ok\n".to_vec()]);
}

#[test]
fn framer_discards_partial_line_at_end_of_stream() {
    let mut f = LineFramer::new(16);
    assert_eq!(f.feed_byte(b'p'), Ok(None));
    f.discard_partial();
    assert_eq!(f.feed_byte(b'\n'), Ok(Some(b"\n".to_vec())));
}
