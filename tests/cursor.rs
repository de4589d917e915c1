use demus::cursor::{ByteCursor, FormatError};

#[test]
fn cursor_reads_in_declared_order() {
    let mut c = ByteCursor::new(vec![0x4d, 0x75, 0x73, 0x21, 0x01, 0x02, 0x03, 0x04, 0xff, 9]);
    assert_eq!(c.next_i32_be(), Ok(0x4d75_7321));
    assert_eq!(c.next_u32_le(), Ok(0x0403_0201));
    assert_eq!(c.next_byte(), Ok(0xff));
    assert_eq!(c.remaining(), 1);
    assert_eq!(c.next_i32_le(), Err(FormatError::UnexpectedEof));
    assert_eq!(c.remaining(), 1);
    assert_eq!(c.take(1), Ok(vec![9]));
    assert_eq!(c.next_byte(), Err(FormatError::UnexpectedEof));
}

#[test]
fn cursor_signed_and_skip() {
    let mut c = ByteCursor::new(vec![0xff, 0xff, 0xff, 0xff, 1, 2, 3]);
    assert_eq!(c.next_i32_le(), Ok(-1));
    assert_eq!(c.skip(2), Ok(()));
    assert_eq!(c.skip(2), Err(FormatError::UnexpectedEof));
    assert_eq!(c.take(1), Ok(vec![3]));
}
