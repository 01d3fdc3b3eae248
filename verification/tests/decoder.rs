use blewis::data_type::{BoopArray, BoopBool, BoopError, BoopString, DataType, Int};
use blewis::decoder::handle_decode;
use blewis::errors::{DecodeError, Region};
use bytes::{Buf, BufMut, Bytes, BytesMut};

fn _run_test(buf: &mut bytes::BytesMut, expected: DataType, ctxt: &'static str) {
    let received = handle_decode(buf).expect(ctxt);
    assert_eq!(expected, received);
}

fn fill_with_numbers(buf: &mut BytesMut) {
    buf.put_u8(0); // tiny
    buf.put_u8(0xFF);

    buf.put_u8(0b_00_001_000); // small
    buf.put_u16(0xFF00);

    buf.put_u8(0b_00_010_000); // medium
    buf.put_u32(0xDEADBEEF);

    buf.put_u8(0b_00_100_000); // large
    buf.put_u64(0xFEEDFACEDEADBEEF);

    buf.put_u8(0b_00_110_000); // floatingS
    buf.put_f32(-0.1234);
    buf.put_u8(0b_00_110_000);
    buf.put_f32(0.1234);

    buf.put_u8(0b_00_111_000); // floatingL
    buf.put_f64(-0.1234);
    buf.put_u8(0b_00_111_000);
    buf.put_f64(0.1234);
}

#[test]
fn integer_data_types_decode() {
    let mut buf = bytes::BytesMut::new();
    fill_with_numbers(&mut buf);

    _run_test(&mut buf, Int::new_u8(255), "decode u8");
    _run_test(&mut buf, Int::new_u16(0xFF00), "decode u16");
    _run_test(&mut buf, Int::new_u32(0xDEADBEEF), "decode u32");
    _run_test(&mut buf, Int::new_u64(0xFEEDFACEDEADBEEF), "decode u64");
    _run_test(&mut buf, Int::new_f32((-0.1234_f32).to_bits()), "decode negative f32");
    _run_test(&mut buf, Int::new_f32(0.1234_f32.to_bits()), "decode positive f32");
    _run_test(&mut buf, Int::new_f64((-0.1234_f64).to_bits()), "decode negative f64");
    _run_test(&mut buf, Int::new_f64(0.1234_f64.to_bits()), "decode positive f64");
    assert!(buf.is_empty());
}

#[test]
fn decoder_integer_data_types_decode() {
    let mut buf = bytes::BytesMut::new();
    fill_with_numbers(&mut buf);

    _run_test(&mut buf, DataType::Num(Int::Tiny(255)), "decode u8");
    _run_test(&mut buf, DataType::Num(Int::Small(0xFF00)), "decode u16");
    _run_test(&mut buf, DataType::Num(Int::Medium(0xDEADBEEF)), "decode u32");
    _run_test(&mut buf, DataType::Num(Int::Large(0xFEEDFACEDEADBEEF)), "decode u64");
    _run_test(
        &mut buf,
        DataType::Num(Int::FloatS((-0.1234_f32).to_bits())),
        "decode negative f32",
    );
    _run_test(
        &mut buf,
        DataType::Num(Int::FloatS(0.1234_f32.to_bits())),
        "decode positive f32",
    );
    _run_test(
        &mut buf,
        DataType::Num(Int::FloatL((-0.1234_f64).to_bits())),
        "decode negative f64",
    );
    _run_test(
        &mut buf,
        DataType::Num(Int::FloatL(0.1234_f64.to_bits())),
        "decode positive f64",
    );
}

#[test]
fn bool_decode() {
    let mut buf = bytes::BytesMut::new();
    buf.put_u8(0b_1_0000_100); // true
    buf.put_u8(0b_0_0000_100); // false

    _run_test(&mut buf, BoopBool::new_wrapped(true), "decode a TRUE");
    _run_test(&mut buf, BoopBool::new_wrapped(false), "decode a FALSE");
}

#[test]
fn decoder_bool_decode() {
    let mut buf = bytes::BytesMut::new();
    buf.put_u8(0b_1_0000_100); // true
    buf.put_u8(0b_0_0000_100); // false

    _run_test(&mut buf, DataType::Bool(BoopBool(true)), "decode a TRUE");
    _run_test(&mut buf, DataType::Bool(BoopBool(false)), "decode a FALSE");
}

#[test]
fn string_decode() {
    let mut buf = bytes::BytesMut::new();
    let to_encode = b"multiple\r\nlines\r\nsupported\0null bytes too";

    buf.put_u8(0b_00000_010); // string type
    buf.put_u16(to_encode.len() as u16); // length
    buf.put_slice(to_encode);

    _run_test(
        &mut buf,
        BoopString::new_wrapped(Bytes::from_static(to_encode)),
        "decode a string",
    );
}

#[test]
fn decoder_string_decode() {
    let mut buf = bytes::BytesMut::new();
    let to_encode = b"multiple\r\nlines\r\nsupported\0null bytes too";

    buf.put_u8(0b_00000_010); // string type
    buf.put_u16(to_encode.len() as u16); // length
    buf.put_slice(to_encode);

    _run_test(
        &mut buf,
        DataType::String(BoopString(bytes::Bytes::from_static(to_encode))),
        "decode a string",
    );
}

#[test]
fn error_decode() {
    let err = BoopError {
        is_server_err: false,
        err_code: 0xFF,
        err_msg: bytes::Bytes::from_static(b"err"),
    };
    let mut buf = err.encode().unwrap();
    _run_test(&mut buf, DataType::Error(err), "decode an error");
}

#[test]
fn decoder_error_decode() {
    let err = BoopError {
        is_server_err: false,
        err_code: 0xFF,
        err_msg: bytes::Bytes::from_static(b"err"),
    };
    let mut buf = err.encode().unwrap();
    assert_eq!(&buf[..], &[0x06, 0x00, 0xFF, 0x00, 0x03, b'e', b'r', b'r'][..]);
    _run_test(&mut buf, DataType::Error(err), "decode an error");
}

fn fill_with_simple_types(buf: &mut BytesMut, string_to_encode: &[u8], err_to_encode: &BoopError) {
    buf.put_u8(0b_0_0000_011); // HEADER = ARRAY
    buf.put_u16(12); // ARRAY ELEMENT LEN

    // TINY
    buf.put_u8(0);
    buf.put_u8(0xFF);
    // SMALL
    buf.put_u8(0b_00_001_000);
    buf.put_u16(0xFF00);
    // MEDIUM
    buf.put_u8(0b_00_010_000);
    buf.put_u32(0xDEADBEEF);
    // LARGE
    buf.put_u8(0b_00_100_000);
    buf.put_u64(0xFEEDFACEDEADBEEF);
    // FLOATING_S
    buf.put_u8(0b_00_110_000);
    buf.put_f32(-0.1234);
    buf.put_u8(0b_00_110_000);
    buf.put_f32(0.1234);
    // FLOATING_L
    buf.put_u8(0b_00_111_000);
    buf.put_f64(-0.1234);
    buf.put_u8(0b_00_111_000);
    buf.put_f64(0.1234);

    // BOOL=TRUE
    buf.put_u8(0b_1_0000_100);
    // BOOL=FALSE
    buf.put_u8(0b_0_0000_100);

    buf.put_u8(0b_00000_010);
    buf.put_u16(string_to_encode.len() as u16);
    buf.put_slice(string_to_encode);

    buf.put(err_to_encode.encode().unwrap());
}

#[test]
fn array_decode_simple_types() {
    let mut buf = bytes::BytesMut::new();
    let string_to_encode = b"multiple\r\nlines\r\nsupported\0null bytes too";
    let err_to_encode =
        BoopError::new_unwrapped(false, 0x00, Bytes::from_static(b"some message"));
    fill_with_simple_types(&mut buf, string_to_encode, &err_to_encode);

    let expected: Vec<DataType> = vec![
        Int::new_u8(255_u8),
        Int::new_u16(0xFF00_u16),
        Int::new_u32(0xDEADBEEF_u32),
        Int::new_u64(0xFEEDFACEDEADBEEF_u64),
        Int::new_f32((-0.1234_f32).to_bits()),
        Int::new_f32(0.1234_f32.to_bits()),
        Int::new_f64((-0.1234_f64).to_bits()),
        Int::new_f64(0.1234_f64.to_bits()),
        BoopBool::new_wrapped(true),
        BoopBool::new_wrapped(false),
        BoopString::new_wrapped(Bytes::from_static(string_to_encode)),
        BoopError::wrap(err_to_encode),
    ];

    _run_test(&mut buf, BoopArray::new_wrapped(expected), "array decode");
}

#[test]
fn decoder_array_decode_simple_types() {
    let mut buf = bytes::BytesMut::new();
    let string_to_encode = b"multiple\r\nlines\r\nsupported\0null bytes too";
    let err_to_encode = BoopError {
        is_server_err: false,
        err_code: 0x00,
        err_msg: bytes::Bytes::from_static(b"some message"),
    };
    fill_with_simple_types(&mut buf, string_to_encode, &err_to_encode);

    let expected: Vec<DataType> = vec![
        DataType::Num(Int::Tiny(255)),
        DataType::Num(Int::Small(0xFF00)),
        DataType::Num(Int::Medium(0xDEADBEEF)),
        DataType::Num(Int::Large(0xFEEDFACEDEADBEEF)),
        DataType::Num(Int::FloatS((-0.1234_f32).to_bits())),
        DataType::Num(Int::FloatS(0.1234_f32.to_bits())),
        DataType::Num(Int::FloatL((-0.1234_f64).to_bits())),
        DataType::Num(Int::FloatL(0.1234_f64.to_bits())),
        DataType::Bool(BoopBool(true)),
        DataType::Bool(BoopBool(false)),
        DataType::String(BoopString(bytes::Bytes::from_static(string_to_encode))),
        DataType::Error(err_to_encode),
    ];

    _run_test(&mut buf, DataType::Array(BoopArray(expected)), "array decode");
}

fn fill_with_nested_array(buf: &mut BytesMut) {
    buf.put_u8(0b_0_0000_011); // HEADER = ARRAY
    buf.put_u16(2); // ARRAY ELEMENT LEN
    {
        {
            buf.put_u8(0b_0_0000_011); // HEADER = ARRAY
            buf.put_u16(2); // ARRAY ELEMENT LEN
            {
                // BOOL=TRUE
                buf.put_u8(0b_1_0000_100);
            }
            {
                // BOOL=FALSE
                buf.put_u8(0b_0_0000_100);
            }
        }
        {
            // BOOL=TRUE
            buf.put_u8(0b_1_0000_100);
        }
    }
}

#[test]
fn array_decode_nested_array() {
    let mut buf = bytes::BytesMut::new();
    fill_with_nested_array(&mut buf);

    let expected = BoopArray::new_wrapped(vec![
        BoopArray::new_wrapped(vec![
            BoopBool::new_wrapped(true),
            BoopBool::new_wrapped(false),
        ]),
        BoopBool::new_wrapped(true),
    ]);

    _run_test(&mut buf, expected, "array decode nested array");
}

#[test]
fn decoder_array_decode_nested_array() {
    let mut buf = bytes::BytesMut::new();
    fill_with_nested_array(&mut buf);

    let expected = DataType::Array(BoopArray(vec![
        DataType::Array(BoopArray(vec![
            DataType::Bool(BoopBool(true)),
            DataType::Bool(BoopBool(false)),
        ])),
        DataType::Bool(BoopBool(true)),
    ]));

    _run_test(&mut buf, expected, "array decode nested array");
}

#[test]
fn missing_meta_byte() {
    let mut buf = BytesMut::new();
    assert!(handle_decode(&mut buf).is_err());
    let err = handle_decode(&mut buf).unwrap_err();
    assert_eq!(
        err.to_string(),
        DecodeError::BufTooShort(Region::Tag).to_string()
    );
    assert_eq!(
        err.to_string(),
        "Unable to decode meta data byte from buffer as buffer's length is too small"
    );
}

/// The insufficient_bytes_for_N tests each validate that the length validation function works,
/// and that it leaves any unprocessed bytes on the FIFO stack to be popped off later.
#[test]
fn insufficient_bytes_for_uint8() {
    let mut buf = BytesMut::new();
    buf.put_u8(0x00); // u8
    let err = handle_decode(&mut buf);
    assert!(err.is_err());
    assert_eq!(
        err.unwrap_err().to_string(),
        DecodeError::BufTooShort(Region::U8).to_string()
    );
    assert!(buf.get_u8() == 0x00);
}

#[test]
fn insufficient_bytes_for_uint16() {
    let mut buf = BytesMut::new();
    buf.put_u8(0x8); // u16
    buf.put_u8(0x00);
    let err = handle_decode(&mut buf);
    assert!(err.is_err());
    assert_eq!(
        err.unwrap_err().to_string(),
        DecodeError::BufTooShort(Region::U16).to_string()
    );
    assert!(buf.get_u8() == 0x8);
    assert!(buf.get_u8() == 0x00);
}

#[test]
fn insufficient_bytes_for_uint32() {
    let mut buf = BytesMut::new();
    buf.put_u8(0x10); // u32
    buf.put_u8(0x00);
    buf.put_u8(0x01);
    buf.put_u8(0x02);
    let err = handle_decode(&mut buf);
    assert!(err.is_err());
    assert_eq!(
        err.unwrap_err().to_string(),
        DecodeError::BufTooShort(Region::U32).to_string()
    );
    assert!(buf.get_u8() == 0x10);
    assert!(buf.get_u8() == 0x00);
    assert!(buf.get_u8() == 0x01);
    assert!(buf.get_u8() == 0x02);
}

#[test]
fn insufficient_bytes_for_uint64() {
    let mut buf = BytesMut::new();
    buf.put_u8(0x20); // u64
    buf.put_u8(0x00);
    buf.put_u8(0x01);
    buf.put_u8(0x02);
    buf.put_u8(0x03);
    buf.put_u8(0x04);
    buf.put_u8(0x05);
    buf.put_u8(0x06);

    let err = handle_decode(&mut buf);
    assert!(err.is_err());
    assert_eq!(
        err.unwrap_err().to_string(),
        DecodeError::BufTooShort(Region::U64).to_string()
    );

    assert_eq!(buf.get_u8(), 0x20);
    assert_eq!(buf.get_u8(), 0x00);
    assert_eq!(buf.get_u8(), 0x01);
    assert_eq!(buf.get_u8(), 0x02);
    assert_eq!(buf.get_u8(), 0x03);
    assert_eq!(buf.get_u8(), 0x04);
    assert_eq!(buf.get_u8(), 0x05);
    assert_eq!(buf.get_u8(), 0x06);
}

#[test]
fn insufficient_bytes_for_float32() {
    let mut buf = BytesMut::new();
    buf.put_u8(0x30); // f32
    buf.put_u8(0x00);
    buf.put_u8(0x01);
    buf.put_u8(0x02);
    let err = handle_decode(&mut buf);
    assert!(err.is_err());
    assert_eq!(
        err.unwrap_err().to_string(),
        DecodeError::BufTooShort(Region::F32).to_string()
    );
    assert!(buf.get_u8() == 0x30);
    assert!(buf.get_u8() == 0x00);
    assert!(buf.get_u8() == 0x01);
    assert!(buf.get_u8() == 0x02);
}

#[test]
fn insufficient_bytes_for_float64() {
    let mut buf = BytesMut::new();
    buf.put_u8(0x38); // f64
    buf.put_u8(0x00);
    buf.put_u8(0x01);
    buf.put_u8(0x02);
    buf.put_u8(0x03);
    buf.put_u8(0x04);
    buf.put_u8(0x05);
    buf.put_u8(0x06);

    let err = handle_decode(&mut buf);
    assert!(err.is_err());
    assert_eq!(
        err.unwrap_err().to_string(),
        DecodeError::BufTooShort(Region::F64).to_string()
    );

    assert_eq!(buf.get_u8(), 0x38);
    assert_eq!(buf.get_u8(), 0x00);
    assert_eq!(buf.get_u8(), 0x01);
    assert_eq!(buf.get_u8(), 0x02);
    assert_eq!(buf.get_u8(), 0x03);
    assert_eq!(buf.get_u8(), 0x04);
    assert_eq!(buf.get_u8(), 0x05);
    assert_eq!(buf.get_u8(), 0x06);
}

#[test]
fn insufficient_bytes_for_string_header() {
    let mut buf = BytesMut::new();
    buf.put_u8(0x02); // string header
    buf.put_u8(0x00);
    let err = handle_decode(&mut buf);
    assert!(err.is_err());
    assert_eq!(
        err.unwrap_err().to_string(),
        DecodeError::BufTooShort(Region::StringHeader).to_string()
    );
    assert!(buf.get_u8() == 0x02);
    assert!(buf.get_u8() == 0x00);
}

#[test]
fn insufficient_bytes_for_string_body() {
    let mut buf = BytesMut::new();
    buf.put_u8(0x02);
    buf.put_u16(0x04); // string header
    buf.put_slice(b"tes"); // string body (missing the "t")

    let cloned = buf.clone();
    let err = handle_decode(&mut buf);
    assert!(err.is_err());
    assert_eq!(
        err.unwrap_err().to_string(),
        DecodeError::BufTooShort(Region::StringBody).to_string()
    );

    // The buffer should remain untouched
    assert_eq!(cloned, buf);
}

#[test]
fn insufficient_bytes_for_error_header() {
    let mut buf = BytesMut::new();
    buf.put_u8(0x06); // Error type
    buf.put_u8(0x00); //    is_server_err,

    let err = handle_decode(&mut buf);
    assert!(err.is_err());
    assert_eq!(
        err.unwrap_err().to_string(),
        DecodeError::BufTooShort(Region::ErrorHeader).to_string()
    );
    assert_eq!(buf.get_u8(), 0x06);
    assert_eq!(buf.get_u8(), 0x00);
}

#[test]
fn insufficient_bytes_for_error_value() {
    let mut buf = BytesMut::new();
    buf.put_u8(0x06); // Error type
    buf.put_u8(0x00); //    is_server_err,
    buf.put_u8(0x01); //    err_code,
    buf.put_u16(0x02); //    err_len,
    buf.put_u8(0x00); // <Incomplete error data>

    let cloned = buf.clone();
    let err = handle_decode(&mut buf);

    assert!(err.is_err());
    assert_eq!(
        err.unwrap_err().to_string(),
        DecodeError::BufTooShort(Region::ErrorValue).to_string()
    );
    assert_eq!(cloned, buf);
}

#[test]
fn insufficient_bytes_for_array_header() {
    let mut buf = BytesMut::new();
    buf.put_u8(0x03);
    buf.put_u8(0x00);
    let err = handle_decode(&mut buf);
    assert!(err.is_err());
    assert_eq!(
        err.unwrap_err().to_string(),
        DecodeError::BufTooShort(Region::ArrayHeader).to_string()
    );
    assert_eq!(buf.get_u8(), 0x03);
    assert_eq!(buf.get_u8(), 0x00);
}

#[test]
fn insufficient_bytes_for_array_small_value() {
    let mut buf = BytesMut::new();
    buf.put_u8(0x03);
    buf.put_u16(0x01);

    let cloned = buf.clone();

    let err = handle_decode(&mut buf);
    assert!(err.is_err());
    assert_eq!(
        err.unwrap_err().to_string(),
        "array decode failed on element: 0"
    );

    assert_eq!(buf, cloned);
}

#[test]
fn insufficient_bytes_for_array_large_value() {
    let mut buf = BytesMut::new();
    buf.put_u8(0x03);
    buf.put_u16(u16::MAX);

    // All just boolean TRUE values
    for _ in 0..u16::MAX - 1 {
        buf.put_u8(0b_1_0000_100);
    }

    let cloned = buf.clone();
    println!("{}", buf.len());

    let err = handle_decode(&mut buf);
    assert!(err.is_err());
    assert_eq!(
        err.unwrap_err().to_string(),
        "array decode failed on element: 65534"
    );

    assert_eq!(buf, cloned);
}

#[test]
fn zero_entry_in_array() {
    let mut buf = BytesMut::new();
    buf.put_u8(0x03);
    buf.put_u16(0);
    let decoded = handle_decode(&mut buf);
    assert_eq!(decoded.unwrap(), BoopArray::new_wrapped(vec![]));
}
