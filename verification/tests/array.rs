use mex::MxClassID;
use mex::array::Array;
use mex::data::{Data, DataMut};

#[test]
fn dimensions_round_trip_one_two_three_d() {
    let a = Array::new(vec![5], MxClassID::F64, false);
    assert_eq!(a.get_dimensions(), vec![5]);
    let b = Array::new(vec![3, 4], MxClassID::F64, false);
    assert_eq!(b.get_dimensions(), vec![3, 4]);
    let c = Array::new(vec![2, 2, 2], MxClassID::U8, false);
    assert_eq!(c.get_dimensions(), vec![2, 2, 2]);
}

#[test]
fn new_array_reports_its_class_and_complexity() {
    let a = Array::new(vec![2, 3], MxClassID::I32, false);
    assert_eq!(a.get_class(), MxClassID::I32);
    assert!(!a.is_complex());
    let b = Array::new(vec![2, 3], MxClassID::F32, true);
    assert_eq!(b.get_class(), MxClassID::F32);
    assert!(b.is_complex());
}

#[test]
fn view_length_is_the_product_of_the_dimensions() {
    let a = Array::new(vec![3, 4], MxClassID::F64, false);
    match a.real_data() {
        Data::F64(v) => {
            assert_eq!(v.len(), 12);
            for bits in v {
                assert_eq!(f64::from_bits(bits), 0.0);
            }
        },
        _ => panic!("expected a 64-bit float view"),
    }
    let b = Array::new(vec![2, 3, 4], MxClassID::U16, false);
    match b.real_data() {
        Data::U16(v) => assert_eq!(v.len(), 24),
        _ => panic!("expected a 16-bit view"),
    }
}

#[test]
fn empty_extent_gives_an_empty_view() {
    let a = Array::new(vec![0, 7], MxClassID::I64, false);
    match a.real_data() {
        Data::I64(v) => assert_eq!(v.len(), 0),
        _ => panic!("expected a 64-bit integer view"),
    }
}

#[test]
fn reshaping_updates_dimensions_and_view_length() {
    let mut a = Array::new(vec![2, 3], MxClassID::F64, false);
    match a.real_data() {
        Data::F64(v) => assert_eq!(v.len(), 6),
        _ => panic!("expected a 64-bit float view"),
    }
    a.set_dimensions(vec![4, 4]);
    assert_eq!(a.get_dimensions(), vec![4, 4]);
    match a.real_data() {
        Data::F64(v) => assert_eq!(v.len(), 16),
        _ => panic!("expected a 64-bit float view"),
    }
}

#[test]
fn reshaping_keeps_old_bytes_and_zero_fills_growth() {
    let mut a = Array::from_bytes(
        vec![2, 1],
        MxClassID::U8,
        false,
        vec![0xAA, 0xBB],
        Vec::new(),
    )
    .unwrap();
    a.set_dimensions(vec![4, 1]);
    match a.real_data() {
        Data::U8(v) => assert_eq!(v, vec![0xAA, 0xBB, 0, 0]),
        _ => panic!("expected an 8-bit view"),
    }
    a.set_dimensions(vec![1, 1]);
    match a.real_data() {
        Data::U8(v) => assert_eq!(v, vec![0xAA]),
        _ => panic!("expected an 8-bit view"),
    }
}

#[test]
fn non_numeric_classes_yield_not_numeric_views() {
    for class in [
        MxClassID::Char,
        MxClassID::Cell,
        MxClassID::Struct,
        MxClassID::Function,
        MxClassID::Unknown,
        MxClassID::Unused,
    ] {
        let mut a = Array::new(vec![2, 2], class, false);
        assert!(matches!(a.real_data(), Data::NotNumeric));
        assert!(matches!(a.real_data_mut(), DataMut::NotNumeric));
    }
}

#[test]
fn adopted_bytes_decode_as_typed_elements() {
    let a = Array::from_bytes(
        vec![2, 1],
        MxClassID::I16,
        false,
        vec![0x34, 0x12, 0xFF, 0xFF],
        Vec::new(),
    )
    .unwrap();
    match a.real_data() {
        Data::I16(v) => assert_eq!(v, vec![0x1234, -1]),
        _ => panic!("expected a 16-bit integer view"),
    }
}

#[test]
fn float_views_carry_the_exact_bit_patterns() {
    let x = 1.5f64;
    let bytes = x.to_bits().to_le_bytes().to_vec();
    let a = Array::from_bytes(vec![1, 1], MxClassID::F64, false, bytes, Vec::new()).unwrap();
    match a.real_data() {
        Data::F64(v) => {
            assert_eq!(v.len(), 1);
            assert_eq!(f64::from_bits(v[0]), 1.5);
        },
        _ => panic!("expected a 64-bit float view"),
    }
    let y = -2.25f32;
    let bytes32 = y.to_bits().to_le_bytes().to_vec();
    let b = Array::from_bytes(vec![1, 1], MxClassID::F32, false, bytes32, Vec::new()).unwrap();
    match b.real_data() {
        Data::F32(v) => assert_eq!(f32::from_bits(v[0]), -2.25),
        _ => panic!("expected a 32-bit float view"),
    }
}

#[test]
fn complex_arrays_expose_an_imaginary_plane() {
    let a = Array::from_bytes(
        vec![2, 1],
        MxClassID::U8,
        true,
        vec![1, 2],
        vec![3, 4],
    )
    .unwrap();
    match a.real_data() {
        Data::U8(v) => assert_eq!(v, vec![1, 2]),
        _ => panic!("expected an 8-bit view"),
    }
    match a.imag_data() {
        Data::U8(v) => assert_eq!(v, vec![3, 4]),
        _ => panic!("expected an 8-bit view"),
    }
}

#[test]
fn adoption_rejects_mismatched_plane_lengths() {
    assert!(Array::from_bytes(vec![2, 1], MxClassID::I16, false, vec![0; 3], Vec::new()).is_none());
    assert!(Array::from_bytes(vec![2, 1], MxClassID::I16, false, vec![0; 4], vec![0; 4]).is_none());
    assert!(Array::from_bytes(vec![2, 1], MxClassID::I16, true, vec![0; 4], Vec::new()).is_none());
    assert!(Array::from_bytes(vec![2, 1], MxClassID::I16, true, vec![0; 4], vec![0; 4]).is_some());
}

#[test]
fn bool_views_read_nonzero_bytes_as_true() {
    let a = Array::from_bytes(
        vec![3, 1],
        MxClassID::Bool,
        false,
        vec![0, 1, 2],
        Vec::new(),
    )
    .unwrap();
    match a.real_data() {
        Data::Bool(v) => assert_eq!(v, vec![false, true, true]),
        _ => panic!("expected a logical view"),
    }
}

#[test]
fn string_extraction_returns_the_text_unchanged() {
    let a = Array::new_string("hello");
    assert_eq!(a.get_class(), MxClassID::Char);
    assert_eq!(a.get_dimensions(), vec![1, 5]);
    assert_eq!(a.as_string(), "hello");
}

#[test]
fn string_extraction_of_empty_text() {
    let a = Array::new_string("");
    assert_eq!(a.get_dimensions(), vec![1, 0]);
    assert_eq!(a.as_string(), "");
}

#[test]
fn written_views_read_back_element_for_element() {
    let mut a = Array::new(vec![2, 2], MxClassID::I16, false);
    let ok = a.write_real_data(&DataMut::I16(vec![-1, 0, 32767, -32768]));
    assert!(ok);
    match a.real_data() {
        Data::I16(v) => assert_eq!(v, vec![-1, 0, 32767, -32768]),
        _ => panic!("expected a 16-bit integer view"),
    }
    let mut b = Array::new(vec![3], MxClassID::F64, true);
    let bits: Vec<u64> = vec![1.0f64, -0.5, 3.25].into_iter().map(f64::to_bits).collect();
    assert!(b.write_real_data(&DataMut::F64(bits.clone())));
    assert!(b.write_imag_data(&DataMut::F64(bits)));
    match b.imag_data() {
        Data::F64(v) => {
            let back: Vec<f64> = v.into_iter().map(f64::from_bits).collect();
            assert_eq!(back, vec![1.0, -0.5, 3.25]);
        },
        _ => panic!("expected a 64-bit float view"),
    }
}

#[test]
fn writing_a_mismatched_view_changes_nothing() {
    let mut a = Array::new(vec![2, 2], MxClassID::I16, false);
    assert!(!a.write_real_data(&DataMut::I16(vec![1, 2, 3])));
    assert!(!a.write_real_data(&DataMut::U16(vec![1, 2, 3, 4])));
    assert!(!a.write_real_data(&DataMut::NotNumeric));
    match a.real_data() {
        Data::I16(v) => assert_eq!(v, vec![0, 0, 0, 0]),
        _ => panic!("expected a 16-bit integer view"),
    }
    let mut c = Array::new(vec![2], MxClassID::Cell, false);
    assert!(!c.write_real_data(&DataMut::U8(vec![1, 2])));
}

#[test]
fn bool_views_write_back_as_zero_and_one() {
    let mut a = Array::new(vec![3], MxClassID::Bool, false);
    assert!(a.write_real_data(&DataMut::Bool(vec![true, false, true])));
    match a.real_data() {
        Data::Bool(v) => assert_eq!(v, vec![true, false, true]),
        _ => panic!("expected a logical view"),
    }
}

#[test]
fn mutable_views_match_the_read_views() {
    let mut a = Array::from_bytes(
        vec![2, 1],
        MxClassID::U16,
        false,
        vec![0x10, 0x00, 0xFF, 0x00],
        Vec::new(),
    )
    .unwrap();
    match a.real_data_mut() {
        DataMut::U16(v) => assert_eq!(v, vec![0x10, 0xFF]),
        _ => panic!("expected a 16-bit view"),
    }
}
