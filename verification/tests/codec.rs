use mex::MxClassID;
use mex::le::{decode_le, to_i8, to_i16, to_i32, to_i64};

fn all_classes() -> Vec<MxClassID> {
    vec![
        MxClassID::Unknown,
        MxClassID::Cell,
        MxClassID::Struct,
        MxClassID::Bool,
        MxClassID::Char,
        MxClassID::Unused,
        MxClassID::F64,
        MxClassID::F32,
        MxClassID::I8,
        MxClassID::U8,
        MxClassID::I16,
        MxClassID::U16,
        MxClassID::I32,
        MxClassID::U32,
        MxClassID::I64,
        MxClassID::U64,
        MxClassID::Function,
    ]
}

#[test]
fn class_code_round_trip_every_code() {
    for code in 0..=16i32 {
        let decoded = MxClassID::from(code);
        let encoded: i32 = i32::from(decoded);
        assert_eq!(encoded, code);
    }
}

#[test]
fn class_code_round_trip_every_class() {
    for c in all_classes() {
        let code: i32 = i32::from(c);
        assert_eq!(MxClassID::from(code), c);
    }
}

#[test]
fn class_codes_are_dense_and_in_order() {
    let classes = all_classes();
    for (i, c) in classes.iter().enumerate() {
        assert_eq!(i32::from(*c), i as i32);
    }
}

#[test]
fn unknown_codes_decode_to_unknown() {
    for code in [-1, -5, 17, 18, 100, 4096, i32::MIN, i32::MAX] {
        assert_eq!(MxClassID::from(code), MxClassID::Unknown);
    }
}

#[test]
fn element_sizes_match_widths() {
    assert_eq!(MxClassID::F64.element_size(), 8);
    assert_eq!(MxClassID::F32.element_size(), 4);
    assert_eq!(MxClassID::I8.element_size(), 1);
    assert_eq!(MxClassID::U8.element_size(), 1);
    assert_eq!(MxClassID::I16.element_size(), 2);
    assert_eq!(MxClassID::U16.element_size(), 2);
    assert_eq!(MxClassID::I32.element_size(), 4);
    assert_eq!(MxClassID::U32.element_size(), 4);
    assert_eq!(MxClassID::I64.element_size(), 8);
    assert_eq!(MxClassID::U64.element_size(), 8);
    assert_eq!(MxClassID::Bool.element_size(), 1);
    assert_eq!(MxClassID::Char.element_size(), 1);
    assert_eq!(MxClassID::Cell.element_size(), 0);
    assert_eq!(MxClassID::Struct.element_size(), 0);
    assert_eq!(MxClassID::Function.element_size(), 0);
    assert_eq!(MxClassID::Unknown.element_size(), 0);
    assert_eq!(MxClassID::Unused.element_size(), 0);
}

#[test]
fn numeric_classes_are_exactly_the_flat_buffer_ones() {
    for c in all_classes() {
        let expected = !matches!(
            c,
            MxClassID::Unknown
                | MxClassID::Cell
                | MxClassID::Struct
                | MxClassID::Char
                | MxClassID::Unused
                | MxClassID::Function
        );
        assert_eq!(c.is_numeric(), expected);
    }
}

#[test]
fn little_endian_chunks_decode_in_byte_order() {
    let bytes = vec![0x34u8, 0x12, 0x78, 0x56];
    assert_eq!(decode_le(&bytes, 0, 2), 0x1234);
    assert_eq!(decode_le(&bytes, 2, 2), 0x5678);
    assert_eq!(decode_le(&bytes, 0, 4), 0x5678_1234);
    assert_eq!(decode_le(&bytes, 0, 1), 0x34);
    let wide = vec![0x01u8, 0x02, 0x03, 0x04, 0x05, 0x06, 0x07, 0x08];
    assert_eq!(decode_le(&wide, 0, 8), 0x0807_0605_0403_0201);
}

#[test]
fn signed_reinterpretation_wraps_at_the_width() {
    assert_eq!(to_i8(0x7f), 127);
    assert_eq!(to_i8(0x80), -128);
    assert_eq!(to_i8(0xff), -1);
    assert_eq!(to_i16(0x7fff), 32767);
    assert_eq!(to_i16(0x8000), -32768);
    assert_eq!(to_i16(0xffff), -1);
    assert_eq!(to_i32(0xffff_ffff), -1);
    assert_eq!(to_i32(0x8000_0000), i32::MIN);
    assert_eq!(to_i64(0xffff_ffff_ffff_ffff), -1);
    assert_eq!(to_i64(0x8000_0000_0000_0000), i64::MIN);
    assert_eq!(to_i64(42), 42);
}
