use bytes_ext::ByteCursor;
use bytes_ext::BytesReadExt;
use bytes_ext::BytesWriteExt;
use bytes_ext::Error;

#[test]
fn short_read_is_io_error() {
    let mut buffer = ByteCursor::from_vec(vec![1, 2, 3]);
    assert_eq!(buffer.read_u32(), Err(Error::IO));
    let mut empty = ByteCursor::new();
    assert_eq!(empty.read_u8(), Err(Error::IO));
}

#[test]
fn exact_read_leaves_nothing() {
    let mut buffer = ByteCursor::from_vec(vec![0x78, 0x56, 0x34, 0x12]);
    assert_eq!(buffer.read_u32().expect("Error when reading"), 0x12345678);
    assert_eq!(buffer.remaining(), 0);
    assert_eq!(buffer.read_to_vec().expect("Error when reading"), Vec::<u8>::new());
}

#[test]
fn zero_byte_read_succeeds_on_empty_stream() {
    let mut empty = ByteCursor::new();
    assert_eq!(empty.read_n_bytes_vec(0).expect("Error when reading"), Vec::<u8>::new());
}

#[test]
fn read_to_vec_succeeds_on_exhausted_stream() {
    let mut buffer = ByteCursor::from_vec(vec![9, 9]);
    assert_eq!(buffer.read_u16().expect("Error when reading"), 0x0909);
    assert_eq!(buffer.read_to_vec().expect("Error when reading"), Vec::<u8>::new());
}

#[test]
fn read_to_vec_returns_all_remaining() {
    let mut buffer = ByteCursor::from_vec(vec![1, 2, 3, 4, 5]);
    assert_eq!(buffer.read_u8().expect("Error when reading"), 1);
    assert_eq!(buffer.read_to_vec().expect("Error when reading"), vec![2, 3, 4, 5]);
}

#[test]
fn invalid_utf8_is_utf8_error() {
    let mut buffer = ByteCursor::new();
    buffer.write_u64(2).expect("Error when writing");
    buffer.write_u8(0xFF).expect("Error when writing");
    buffer.write_u8(0xFE).expect("Error when writing");
    buffer.set_position(0).expect("Error when seeking");
    let err = buffer.read_string().expect_err("expected a failure");
    assert_eq!(err, Error::FromUtf8);
    assert_ne!(err, Error::IO);
}

#[test]
fn truncated_string_body_is_io_error() {
    let mut buffer = ByteCursor::new();
    buffer.write_u64(5).expect("Error when writing");
    buffer.write_u8(b'h').expect("Error when writing");
    buffer.write_u8(b'i').expect("Error when writing");
    buffer.set_position(0).expect("Error when seeking");
    assert_eq!(buffer.read_string(), Err(Error::IO));
}

#[test]
fn truncated_length_prefix_is_io_error() {
    let mut buffer = ByteCursor::from_vec(vec![1, 2, 3]);
    assert_eq!(buffer.read_string(), Err(Error::IO));
}

#[test]
fn little_endian_layout() {
    let mut buffer = ByteCursor::new();
    buffer.write_u32(0x01020304).expect("Error when writing");
    assert_eq!(buffer.into_vec(), vec![0x04, 0x03, 0x02, 0x01]);

    let mut buffer = ByteCursor::new();
    buffer.write_u16(0xABCD).expect("Error when writing");
    assert_eq!(buffer.into_vec(), vec![0xCD, 0xAB]);

    let mut buffer = ByteCursor::new();
    buffer.write_i16(-2).expect("Error when writing");
    assert_eq!(buffer.into_vec(), vec![0xFE, 0xFF]);

    let mut buffer = ByteCursor::new();
    buffer.write_i64(-1).expect("Error when writing");
    assert_eq!(buffer.into_vec(), vec![0xFF; 8]);
}

#[test]
fn read_n_bytes_fixed_array() {
    let mut buffer = ByteCursor::from_vec(vec![10, 20, 30, 40, 50]);
    let head: [u8; 4] = buffer.read_n_bytes().expect("Error when reading");
    assert_eq!(head, [10, 20, 30, 40]);
    assert_eq!(buffer.read_n_bytes::<2>(), Err(Error::IO));
}

#[test]
fn writes_overwrite_at_position() {
    let mut buffer = ByteCursor::from_vec(vec![b'A', b'B', b'C', b'D']);
    buffer.set_position(1).expect("Error when seeking");
    buffer.write_u8(b'x').expect("Error when writing");
    buffer.write_u8(b'y').expect("Error when writing");
    assert_eq!(buffer.into_vec(), vec![b'A', b'x', b'y', b'D']);
}

#[test]
fn position_advances_by_bytes_consumed() {
    let mut buffer = ByteCursor::new();
    buffer.write_u16(7).expect("Error when writing");
    buffer.write_u32(7).expect("Error when writing");
    assert_eq!(buffer.position(), 6);
    buffer.set_position(2).expect("Error when seeking");
    assert_eq!(buffer.position(), 2);
    buffer.read_u32().expect("Error when reading");
    assert_eq!(buffer.position(), 6);
}

#[test]
fn error_kinds_describe_themselves() {
    assert_eq!(Error::IO.describe(), "IO Error");
    assert_eq!(Error::FromUtf8.describe(), "Utf8");
}
