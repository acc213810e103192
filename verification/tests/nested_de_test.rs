use elrond_codec::nested_de::{
    dep_decode_from_byte_slice, dep_decode_sequence, dep_decode_signed, dep_decode_unsigned,
    read_slice,
};
use elrond_codec::test_struct::{Test, E};
use elrond_codec::{DecodeError, NestedDecode, NonZeroUsize};

fn dep_ok<V: NestedDecode + PartialEq + core::fmt::Debug>(element: V, bytes: &[u8], left: &[u8]) {
    let mut cursor = bytes;
    assert_eq!(V::dep_decode(&mut cursor), Ok(element));
    assert_eq!(cursor, left);
}

fn dep_err<V: NestedDecode + PartialEq + core::fmt::Debug>(
    error: DecodeError,
    bytes: &[u8],
    left: &[u8],
) {
    let mut cursor = bytes;
    assert_eq!(V::dep_decode(&mut cursor), Err(error));
    assert_eq!(cursor, left);
}

#[test]
fn nested_numbers_have_their_full_width() {
    dep_ok(5u8, &[5, 9], &[9]);
    dep_ok(0x0102u16, &[1, 2, 9], &[9]);
    dep_ok(0x01020304u32, &[1, 2, 3, 4, 9], &[9]);
    dep_ok(0x01020304usize, &[1, 2, 3, 4, 9], &[9]);
    dep_ok(0x0102030405060708u64, &[1, 2, 3, 4, 5, 6, 7, 8, 9], &[9]);
    dep_ok(-5i8, &[251, 9], &[9]);
    dep_ok(-5i16, &[255, 251, 9], &[9]);
    dep_ok(-5i32, &[255, 255, 255, 251, 9], &[9]);
    dep_ok(-5isize, &[255, 255, 255, 251, 9], &[9]);
    dep_ok(-5i64, &[255, 255, 255, 255, 255, 255, 255, 251, 9], &[9]);
    dep_ok(i64::MIN, &[128, 0, 0, 0, 0, 0, 0, 0], &[]);
    dep_ok(u64::MAX, &[255; 8], &[]);
}

#[test]
fn nested_numbers_need_all_their_bytes() {
    dep_err::<u8>(DecodeError::INPUT_TOO_SHORT, &[], &[]);
    dep_err::<u16>(DecodeError::INPUT_TOO_SHORT, &[1], &[1]);
    dep_err::<u32>(DecodeError::INPUT_TOO_SHORT, &[1, 2, 3], &[1, 2, 3]);
    dep_err::<i64>(DecodeError::INPUT_TOO_SHORT, &[1, 2, 3, 4, 5, 6, 7], &[1, 2, 3, 4, 5, 6, 7]);
}

#[test]
fn nested_unit_takes_no_bytes() {
    dep_ok((), &[1, 2], &[1, 2]);
    dep_ok((), &[], &[]);
}

#[test]
fn nested_bool_is_one_byte() {
    dep_ok(false, &[0, 9], &[9]);
    dep_ok(true, &[1, 9], &[9]);
    dep_err::<bool>(DecodeError::INVALID_VALUE, &[2, 9], &[2, 9]);
    dep_err::<bool>(DecodeError::INPUT_TOO_SHORT, &[], &[]);
}

#[test]
fn nested_option_has_a_byte_of_presence() {
    dep_ok(None::<u16>, &[0, 9], &[9]);
    dep_ok(Some(7u16), &[1, 0, 7, 9], &[9]);
    dep_err::<Option<u16>>(DecodeError::INVALID_VALUE, &[2, 0, 7], &[2, 0, 7]);
    dep_err::<Option<u16>>(DecodeError::INPUT_TOO_SHORT, &[], &[]);
    // the byte of presence stays consumed when the value behind it fails
    dep_err::<Option<u16>>(DecodeError::INPUT_TOO_SHORT, &[1, 7], &[7]);
}

#[test]
fn nested_vec_has_a_count() {
    dep_ok(Vec::<u8>::new(), &[0, 0, 0, 0, 9], &[9]);
    dep_ok(vec![5u8, 6], &[0, 0, 0, 2, 5, 6, 9], &[9]);
    dep_ok(vec![1u16, 2], &[0, 0, 0, 2, 0, 1, 0, 2, 9], &[9]);
    dep_ok(vec![(), (), ()], &[0, 0, 0, 3, 9], &[9]);
    dep_err::<Vec<u8>>(DecodeError::INPUT_TOO_SHORT, &[0, 0, 2], &[0, 0, 2]);
    // the count and the elements that were decoded stay consumed
    dep_err::<Vec<u16>>(DecodeError::INPUT_TOO_SHORT, &[0, 0, 0, 2, 0, 1, 0], &[0]);
    dep_err::<Vec<bool>>(DecodeError::INVALID_VALUE, &[0, 0, 0, 2, 1, 2], &[2]);
}

#[test]
fn nested_tuples_and_arrays_have_no_count() {
    dep_ok((1u8, 2u16), &[1, 0, 2, 9], &[9]);
    dep_ok((1u8,), &[1, 9], &[9]);
    dep_ok([1u16, 2], &[0, 1, 0, 2, 9], &[9]);
    dep_ok([0u8; 0], &[9], &[9]);
    dep_ok(Box::new(5u16), &[0, 5, 9], &[9]);
    // the fields that were decoded stay consumed
    dep_err::<(u8, u16)>(DecodeError::INPUT_TOO_SHORT, &[1, 0], &[0]);
    dep_err::<(u8, bool, u8)>(DecodeError::INVALID_VALUE, &[1, 2, 3], &[2, 3]);
    dep_err::<[u16; 2]>(DecodeError::INPUT_TOO_SHORT, &[0, 1, 0], &[0]);
}

#[test]
fn nested_non_zero_refuses_zero() {
    dep_ok(NonZeroUsize::new(5).unwrap(), &[0, 0, 0, 5, 9], &[9]);
    dep_err::<NonZeroUsize>(DecodeError::INVALID_VALUE, &[0, 0, 0, 0, 9], &[0, 0, 0, 0, 9]);
    dep_err::<NonZeroUsize>(DecodeError::INPUT_TOO_SHORT, &[0, 0, 5], &[0, 0, 5]);
}

#[test]
fn nested_record_is_the_row_of_its_fields() {
    let test = Test {
        int: 1i32,
        seq: vec![5u8, 6],
        another_byte: 7,
    };
    dep_ok(test, &[0, 0, 0, 1, 0, 0, 0, 2, 5, 6, 7], &[]);
    // the fields and the elements that were decoded stay consumed
    dep_err::<Test<i32>>(DecodeError::INPUT_TOO_SHORT, &[0, 0, 0, 1, 0, 0, 0, 2, 5], &[]);
    dep_err::<Test<i32>>(DecodeError::INPUT_TOO_SHORT, &[0, 0, 0, 1, 0, 0, 2], &[0, 0, 2]);
}

#[test]
fn nested_variant_starts_with_its_index() {
    dep_ok(E::Unit, &[0, 0, 0, 0, 9], &[9]);
    dep_ok(E::Newtype(1), &[0, 0, 0, 1, 0, 0, 0, 1], &[]);
    dep_ok(E::Tuple(1, 2), &[0, 0, 0, 2, 0, 0, 0, 1, 0, 0, 0, 2], &[]);
    dep_ok(E::Struct { a: 1 }, &[0, 0, 0, 3, 0, 0, 0, 1], &[]);
    dep_err::<E>(DecodeError::INVALID_VALUE, &[0, 0, 0, 4, 9], &[0, 0, 0, 4, 9]);
    dep_err::<E>(DecodeError::INPUT_TOO_SHORT, &[0, 0, 0, 2, 0, 0, 0, 1, 0], &[0]);
    dep_err::<E>(DecodeError::INPUT_TOO_SHORT, &[0, 0, 0], &[0, 0, 0]);
}

#[test]
fn exact_decoding_refuses_bytes_that_are_left() {
    assert_eq!(dep_decode_from_byte_slice::<u16>(&[0, 5]), Ok(5));
    assert_eq!(
        dep_decode_from_byte_slice::<u16>(&[0, 5, 0]),
        Err(DecodeError::INPUT_TOO_LONG)
    );
    assert_eq!(
        dep_decode_from_byte_slice::<u16>(&[0]),
        Err(DecodeError::INPUT_TOO_SHORT)
    );
    assert_eq!(
        dep_decode_from_byte_slice::<bool>(&[2, 0]),
        Err(DecodeError::INVALID_VALUE)
    );
}

#[test]
fn cursor_helpers() {
    let bytes: &[u8] = &[1, 2, 3];
    let mut cursor = bytes;
    assert_eq!(read_slice(&mut cursor, 2), Ok(&[1u8, 2][..]));
    assert_eq!(cursor, &[3u8][..]);
    assert_eq!(read_slice(&mut cursor, 2), Err(DecodeError::INPUT_TOO_SHORT));
    assert_eq!(cursor, &[3u8][..]);
    assert_eq!(read_slice(&mut cursor, 0), Ok(&[][..]));

    let mut cursor = bytes;
    assert_eq!(dep_decode_unsigned(&mut cursor, 3), Ok(0x010203));
    assert_eq!(cursor, &[][..]);
    let negative: &[u8] = &[255, 254, 9];
    let mut cursor = negative;
    assert_eq!(dep_decode_signed(&mut cursor, 2), Ok(-2));
    assert_eq!(cursor, &[9u8][..]);

    let mut cursor = bytes;
    assert_eq!(dep_decode_sequence::<u8>(&mut cursor, 2), Ok(vec![1u8, 2]));
    assert_eq!(cursor, &[3u8][..]);
    assert_eq!(
        dep_decode_sequence::<u8>(&mut cursor, 2),
        Err(DecodeError::INPUT_TOO_SHORT)
    );
    assert_eq!(cursor, &[][..]);
}

#[test]
fn bytes_are_taken_over_only_by_bytes() {
    assert_eq!(u8::bytes_into_vec(vec![1, 2]), Ok(vec![1u8, 2]));
    assert_eq!(u16::bytes_into_vec(vec![1, 2]), Err(vec![1u8, 2]));
    assert_eq!(i8::bytes_into_vec(vec![1, 2]), Err(vec![1u8, 2]));
}
