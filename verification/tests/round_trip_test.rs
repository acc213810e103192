use core::fmt::Debug;
use elrond_codec::test_struct::{Test, E};
use elrond_codec::top_en::dep_encode_to_vec;
use elrond_codec::{
    top_encode_to_vec, DecodeError, NestedDecode, NestedEncode, NonZeroUsize, TopDecode, TopEncode,
};

fn top_round_trip<V: TopEncode + TopDecode + PartialEq + Debug>(value: V) {
    let bytes = top_encode_to_vec(&value).unwrap();
    assert_eq!(V::top_decode(bytes.as_slice()), Ok(value));
}

fn dep_round_trip<V: NestedEncode + NestedDecode + PartialEq + Debug>(value: V) {
    let mut bytes = dep_encode_to_vec(&value).unwrap();
    let used = bytes.len();
    bytes.extend_from_slice(&[0xAA, 0xBB]);
    let mut cursor = bytes.as_slice();
    assert_eq!(V::dep_decode(&mut cursor), Ok(value));
    assert_eq!(cursor, &bytes[used..]);
}

fn both<V: TopEncode + TopDecode + NestedEncode + NestedDecode + PartialEq + Debug + Clone>(
    value: V,
) {
    top_round_trip(value.clone());
    dep_round_trip(value);
}

#[test]
fn numbers_round_trip() {
    for v in [0u8, 1, 127, 128, 255] {
        both(v);
    }
    for v in [0u16, 1, 255, 256, u16::MAX] {
        both(v);
    }
    for v in [0u32, 1, 65535, 65536, u32::MAX] {
        both(v);
    }
    for v in [0u64, 1, u32::MAX as u64, u32::MAX as u64 + 1, u64::MAX] {
        both(v);
    }
    for v in [0usize, 1, 65536, u32::MAX as usize] {
        both(v);
    }
    for v in [0i8, 1, -1, i8::MIN, i8::MAX] {
        both(v);
    }
    for v in [0i16, 127, 128, -128, -129, i16::MIN, i16::MAX] {
        both(v);
    }
    for v in [0i32, 32767, 32768, -32768, -32769, i32::MIN, i32::MAX] {
        both(v);
    }
    for v in [0i64, -1, i32::MIN as i64 - 1, i32::MAX as i64 + 1, i64::MIN, i64::MAX] {
        both(v);
    }
    for v in [0isize, -1, i32::MIN as isize, i32::MAX as isize] {
        both(v);
    }
}

#[test]
fn simple_values_round_trip() {
    both(());
    both(true);
    both(false);
    both(None::<u32>);
    both(Some(5u32));
    both(Some(Some(false)));
    both(Box::new(-7i16));
    both(NonZeroUsize::new(77).unwrap());
}

#[test]
fn sequences_round_trip() {
    both(Vec::<u8>::new());
    both(vec![1u8, 2, 3]);
    both(vec![-1i32, 2, i32::MIN]);
    both(vec![vec![1u16], vec![], vec![2, 3]]);
    both(vec![Some(1u8), None]);
    both([1u8, 2, 3]);
    both([[1u16, 2], [3, 4]]);
    both(Box::new([9u8; 4]));
    dep_round_trip(vec![(), ()]);
    top_round_trip(vec![1u16, 2].into_boxed_slice());
}

#[test]
fn composites_round_trip() {
    both((1u8,));
    both((1u8, -2i64, true));
    both((vec![1u8], Some(2u16), (3u8, 4u8)));
    both((1u8, 2u16, 3u32, 4u64, 5i8, 6i16, 7i32, 8i64, true, (), Some(9u8), vec![10u8]));
    both(E::Unit);
    both(E::Newtype(7));
    both(E::Tuple(7, 8));
    both(E::Struct { a: 9 });
    top_round_trip(Test {
        int: -3i32,
        seq: vec![1u8, 2],
        another_byte: 4,
    });
    dep_round_trip(Test {
        int: 3u64,
        seq: vec![],
        another_byte: 0,
    });
}

#[test]
fn a_row_of_values_without_bytes_does_not_round_trip_at_top_level() {
    let bytes = top_encode_to_vec(&vec![(), ()]).unwrap();
    assert_eq!(bytes, Vec::<u8>::new());
    assert_eq!(Vec::<()>::top_decode(bytes.as_slice()), Ok(vec![]));
}

#[test]
fn trailing_bytes_after_a_composite_are_too_long() {
    let mut bytes = top_encode_to_vec(&(1u8, vec![2u16])).unwrap();
    bytes.push(0);
    assert_eq!(
        <(u8, Vec<u16>)>::top_decode(bytes.as_slice()),
        Err(DecodeError::INPUT_TOO_LONG)
    );
    let mut bytes = top_encode_to_vec(&E::Newtype(1)).unwrap();
    bytes.push(0);
    assert_eq!(E::top_decode(bytes.as_slice()), Err(DecodeError::INPUT_TOO_LONG));
    let mut bytes = top_encode_to_vec(&[1u32, 2]).unwrap();
    bytes.push(0);
    assert_eq!(
        <[u32; 2]>::top_decode(bytes.as_slice()),
        Err(DecodeError::INPUT_TOO_LONG)
    );
}

#[test]
fn bytes_decode_alike_on_both_paths() {
    // a vector of bytes is taken over as it stands; a vector of signed bytes is
    // decoded value by value
    let payload: &[u8] = &[0, 1, 127, 128, 255];
    let fast = Vec::<u8>::top_decode(payload).unwrap();
    let slow = Vec::<i8>::top_decode(payload).unwrap();
    assert_eq!(fast, payload.to_vec());
    assert_eq!(
        slow.iter().map(|v| v.to_be_bytes()[0]).collect::<Vec<u8>>(),
        fast
    );
    let boxed = Box::<[u8; 5]>::top_decode(payload).unwrap();
    let plain = <[u8; 5]>::top_decode(payload).unwrap();
    assert_eq!(*boxed, plain);
}

#[test]
fn error_messages() {
    assert_eq!(DecodeError::INPUT_TOO_SHORT.message(), "input too short");
    assert_eq!(DecodeError::INPUT_TOO_LONG.message(), "input too long");
    assert_eq!(DecodeError::INPUT_OUT_OF_RANGE.message(), "input out of range");
    assert_eq!(DecodeError::INVALID_VALUE.message(), "invalid value");
    assert_eq!(DecodeError::ARRAY_DECODE_ERROR.message(), "array decode error");
    assert_eq!(
        elrond_codec::EncodeError::UNSUPPORTED_OPERATION.message(),
        "unsupported operation"
    );
}
