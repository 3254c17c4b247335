use bytes_ext::ByteCursor;
use bytes_ext::BytesReadExt;
use bytes_ext::BytesWriteExt;

#[test]
fn string() {
    const CONTENTS: &str = "Hello World. Trans Rights 🏳️‍⚧️ 🏳️‍⚧️ 🏳️‍⚧️ 🦀 🦀 🦀";
    let mut buffer = ByteCursor::new();
    buffer.write_string(&CONTENTS.to_string()).expect("Error when writing");
    buffer.set_position(0).expect("Error when seeking");
    assert_eq!(CONTENTS, buffer.read_string().expect("Error when reading"));
}

#[test]
fn string_empty() {
    let mut buffer = ByteCursor::new();
    buffer.write_string("").expect("Error when writing");
    buffer.set_position(0).expect("Error when seeking");
    assert_eq!("", buffer.read_string().expect("Error when reading"));
    buffer.set_position(0).expect("Error when seeking");
    let encoded = buffer.read_to_vec().expect("Error when reading");
    assert_eq!(encoded, vec![0u8; 8]);
}

#[test]
fn string_length_prefix_counts_bytes() {
    let text = "🏳️‍⚧️";
    let mut buffer = ByteCursor::new();
    buffer.write_string(text).expect("Error when writing");
    let encoded = buffer.into_vec();
    let byte_len = text.len() as u64;
    assert_ne!(byte_len, text.chars().count() as u64);
    assert_eq!(encoded.len() as u64, 8 + byte_len);
    let mut prefix = ByteCursor::from_vec(encoded);
    assert_eq!(prefix.read_u64().expect("Error when reading"), byte_len);
}

#[test]
fn roundtrip_u8() {
    for v in [u8::MIN, u8::MAX, 0x7F] {
        let mut buffer = ByteCursor::new();
        buffer.write_u8(v).expect("Error when writing");
        buffer.set_position(0).expect("Error when seeking");
        assert_eq!(v, buffer.read_u8().expect("Error when reading"));
    }
}

#[test]
fn roundtrip_i8() {
    for v in [i8::MIN, i8::MAX, -1] {
        let mut buffer = ByteCursor::new();
        buffer.write_i8(v).expect("Error when writing");
        buffer.set_position(0).expect("Error when seeking");
        assert_eq!(v, buffer.read_i8().expect("Error when reading"));
    }
}

#[test]
fn roundtrip_u16() {
    for v in [u16::MIN, u16::MAX, 0x1234] {
        let mut buffer = ByteCursor::new();
        buffer.write_u16(v).expect("Error when writing");
        buffer.set_position(0).expect("Error when seeking");
        assert_eq!(v, buffer.read_u16().expect("Error when reading"));
    }
}

#[test]
fn roundtrip_i16() {
    for v in [i16::MIN, i16::MAX, -2] {
        let mut buffer = ByteCursor::new();
        buffer.write_i16(v).expect("Error when writing");
        buffer.set_position(0).expect("Error when seeking");
        assert_eq!(v, buffer.read_i16().expect("Error when reading"));
    }
}

#[test]
fn roundtrip_u32() {
    for v in [u32::MIN, u32::MAX, 0xDEADBEEF] {
        let mut buffer = ByteCursor::new();
        buffer.write_u32(v).expect("Error when writing");
        buffer.set_position(0).expect("Error when seeking");
        assert_eq!(v, buffer.read_u32().expect("Error when reading"));
    }
}

#[test]
fn roundtrip_i32() {
    for v in [i32::MIN, i32::MAX, -123456789] {
        let mut buffer = ByteCursor::new();
        buffer.write_i32(v).expect("Error when writing");
        buffer.set_position(0).expect("Error when seeking");
        assert_eq!(v, buffer.read_i32().expect("Error when reading"));
    }
}

#[test]
fn roundtrip_u64() {
    for v in [u64::MIN, u64::MAX, 0x0123456789ABCDEF] {
        let mut buffer = ByteCursor::new();
        buffer.write_u64(v).expect("Error when writing");
        buffer.set_position(0).expect("Error when seeking");
        assert_eq!(v, buffer.read_u64().expect("Error when reading"));
    }
}

#[test]
fn roundtrip_i64() {
    for v in [i64::MIN, i64::MAX, -1] {
        let mut buffer = ByteCursor::new();
        buffer.write_i64(v).expect("Error when writing");
        buffer.set_position(0).expect("Error when seeking");
        assert_eq!(v, buffer.read_i64().expect("Error when reading"));
    }
}

#[test]
fn roundtrip_f32_bits() {
    let values: [f32; 8] = [
        0.0,
        -0.0,
        f32::INFINITY,
        f32::NEG_INFINITY,
        f32::NAN,
        f32::MIN,
        f32::MAX,
        f32::from_bits(1),
    ];
    for v in values {
        let mut buffer = ByteCursor::new();
        buffer.write_u32(v.to_bits()).expect("Error when writing");
        buffer.set_position(0).expect("Error when seeking");
        let back = f32::from_bits(buffer.read_u32().expect("Error when reading"));
        assert_eq!(v.to_bits(), back.to_bits());
    }
}

#[test]
fn roundtrip_f64_bits() {
    let values: [f64; 8] = [
        0.0,
        -0.0,
        f64::INFINITY,
        f64::NEG_INFINITY,
        f64::NAN,
        f64::MIN,
        f64::MAX,
        f64::from_bits(1),
    ];
    for v in values {
        let mut buffer = ByteCursor::new();
        buffer.write_u64(v.to_bits()).expect("Error when writing");
        buffer.set_position(0).expect("Error when seeking");
        let back = f64::from_bits(buffer.read_u64().expect("Error when reading"));
        assert_eq!(v.to_bits(), back.to_bits());
    }
}

#[test]
fn scenario_u32_max() {
    let mut buffer = ByteCursor::new();
    buffer.write_u32(4294967295).expect("Error when writing");
    buffer.set_position(0).expect("Error when seeking");
    assert_eq!(4294967295u32, buffer.read_u32().expect("Error when reading"));
}

#[test]
fn scenario_i64_min() {
    let mut buffer = ByteCursor::new();
    buffer.write_i64(-9223372036854775808).expect("Error when writing");
    buffer.set_position(0).expect("Error when seeking");
    assert_eq!(-9223372036854775808i64, buffer.read_i64().expect("Error when reading"));
}

#[test]
fn scenario_string_byte_identical() {
    let text = "Hello World. Trans Rights 🏳️‍⚧️ 🦀";
    let mut buffer = ByteCursor::new();
    buffer.write_string(text).expect("Error when writing");
    buffer.set_position(0).expect("Error when seeking");
    let back = buffer.read_string().expect("Error when reading");
    assert_eq!(text.as_bytes(), back.as_bytes());
}
