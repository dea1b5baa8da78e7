use verilink::codec::Buffer;
use verilink::codec::CodecError;
use verilink::codec::BUFFER_SIZE;

#[test]
fn u8_u32_roundtrip() {
    let mut b = Buffer::new();
    b.put_u8(7).unwrap();
    b.put_u32(0xDEADBEEF).unwrap();
    assert_eq!(b.next_u8().unwrap(), 7);
    assert_eq!(b.next_u32().unwrap(), 0xDEADBEEF);
}

#[test]
fn big_endian_layout() {
    let mut b = Buffer::new();
    b.put_u32(0x01020304).unwrap();
    assert_eq!(b.next_u8().unwrap(), 1);
    assert_eq!(b.next_u8().unwrap(), 2);
    assert_eq!(b.next_u8().unwrap(), 3);
    assert_eq!(b.next_u8().unwrap(), 4);
}

#[test]
fn string_roundtrip() {
    let mut b = Buffer::new();
    b.put_string("hello, world".to_string()).unwrap();
    assert_eq!(b.next_string().unwrap(), "hello, world");
}

#[test]
fn read_past_write_cursor_underruns() {
    let mut b = Buffer::new();
    assert_eq!(b.next_u8(), Err(CodecError::BufferUnderrun));
    b.put_u8(1).unwrap();
    assert_eq!(b.next_u8(), Ok(1));
    assert_eq!(b.next_u32(), Err(CodecError::BufferUnderrun));
}

#[test]
fn write_past_capacity_overflows() {
    let mut b = Buffer::new();
    for _ in 0..BUFFER_SIZE {
        b.put_u8(0).unwrap();
    }
    assert_eq!(b.put_u8(0), Err(CodecError::BufferOverflow));
    assert_eq!(b.put_u32(0), Err(CodecError::BufferOverflow));
}

#[test]
fn oversized_string_overflows() {
    let mut b = Buffer::new();
    let long = "x".repeat(BUFFER_SIZE);
    assert_eq!(b.put_string(long), Err(CodecError::BufferOverflow));
}

#[test]
fn invalid_utf8_is_malformed() {
    let mut b = Buffer::new();
    b.put_u32(1).unwrap();
    b.put_u8(0xFF).unwrap();
    assert_eq!(b.next_string(), Err(CodecError::Malformed));
}

#[test]
fn string_length_prefix_truncation_underruns() {
    let mut b = Buffer::new();
    b.put_u32(10).unwrap();
    b.put_u8(b'a').unwrap();
    assert_eq!(b.next_string(), Err(CodecError::BufferUnderrun));
}

#[test]
fn reset_rewinds_cursors() {
    let mut b = Buffer::new();
    b.put_u8(9).unwrap();
    assert_eq!(b.next_u8(), Ok(9));
    b.reset();
    assert_eq!(b.next_u8(), Err(CodecError::BufferUnderrun));
    b.put_u8(4).unwrap();
    assert_eq!(b.next_u8(), Ok(4));
}

#[test]
fn frame_wraps_written_bytes() {
    let mut b = Buffer::new();
    b.put_u8(0).unwrap();
    b.put_u8(42).unwrap();
    let f = b.frame();
    assert_eq!(f, vec![0, 0, 0, 2, 0, 42]);
}

#[test]
fn load_frame_reads_back() {
    let mut b = Buffer::new();
    b.load_frame(&vec![5, 0, 0, 0, 7]).unwrap();
    assert_eq!(b.next_u8(), Ok(5));
    assert_eq!(b.next_u32(), Ok(7));
    assert_eq!(b.next_u8(), Err(CodecError::BufferUnderrun));
}

#[test]
fn oversized_frame_is_rejected() {
    let mut b = Buffer::new();
    let payload = vec![0u8; BUFFER_SIZE + 1];
    assert_eq!(b.load_frame(&payload), Err(CodecError::FrameTooLarge));
}

#[test]
fn empty_string_roundtrip() {
    let mut b = Buffer::new();
    b.put_string(String::new()).unwrap();
    assert_eq!(b.next_string().unwrap(), "");
}

#[test]
fn largest_string_that_fits() {
    let mut b = Buffer::new();
    let s = "z".repeat(BUFFER_SIZE - 4);
    b.put_string(s.clone()).unwrap();
    assert_eq!(b.next_string().unwrap(), s);
}
