use core::fmt::Debug;
use elrond_codec::test_struct::{Test, E};
use elrond_codec::{DecodeError, NonZeroUsize, TopDecode, TopDecodeInput};

fn deser_ok<V>(element: V, bytes: &[u8])
where
    V: TopDecode + PartialEq + Debug + 'static,
{
    let deserialized: V = V::top_decode(bytes).unwrap();
    assert_eq!(deserialized, element);
}

fn deser_err<V>(error: DecodeError, bytes: &[u8])
where
    V: TopDecode + PartialEq + Debug + 'static,
{
    assert_eq!(V::top_decode(bytes), Err(error));
}

#[test]
fn test_top_numbers_decompacted() {
    // unsigned positive
    deser_ok(5u8, &[5]);
    deser_ok(5u16, &[5]);
    deser_ok(5u32, &[5]);
    deser_ok(5u64, &[5]);
    deser_ok(5usize, &[5]);
    // signed positive
    deser_ok(5i8, &[5]);
    deser_ok(5i16, &[5]);
    deser_ok(5i32, &[5]);
    deser_ok(5i64, &[5]);
    deser_ok(5isize, &[5]);
    // signed negative
    deser_ok(-5i8, &[251]);
    deser_ok(-5i16, &[251]);
    deser_ok(-5i32, &[251]);
    deser_ok(-5i64, &[251]);
    deser_ok(-5isize, &[251]);
    // non zero usize
    deser_ok(NonZeroUsize::new(5).unwrap(), &[5]);
}

#[test]
fn test_top_numbers_decompacted_2() {
    deser_ok(-1i32, &[255]);
    deser_ok(-1i32, &[255, 255]);
    deser_ok(-1i32, &[255, 255, 255, 255]);
    deser_ok(-1i64, &[255, 255, 255, 255, 255, 255, 255, 255]);
}

#[test]
fn test_struct() {
    let test = Test {
        int: 1u16,
        seq: [5, 6].to_vec(),
        another_byte: 7,
    };
    deser_ok(test, &[0, 1, 0, 0, 0, 2, 5, 6, 7]);
}

#[test]
fn test_enum() {
    let u = E::Unit;
    let expected: &[u8] = &[/*variant index*/ 0, 0, 0, 0];
    deser_ok(u, expected);

    let n = E::Newtype(1);
    let expected: &[u8] = &[/*variant index*/ 0, 0, 0, 1, /*data*/ 0, 0, 0, 1];
    deser_ok(n, expected);

    let t = E::Tuple(1, 2);
    let expected: &[u8] = &[
        /*variant index*/ 0, 0, 0, 2, /*(*/ 0, 0, 0, 1, /*,*/ 0, 0, 0, 2, /*)*/
    ];
    deser_ok(t, expected);

    let s = E::Struct { a: 1 };
    let expected: &[u8] = &[/*variant index*/ 0, 0, 0, 3, /*data*/ 0, 0, 0, 1];
    deser_ok(s, expected);
}

#[test]
fn top_unit_ignores_the_payload() {
    deser_ok((), &[]);
    deser_ok((), &[1, 2, 3]);
}

#[test]
fn top_numbers_from_the_empty_payload_are_zero() {
    deser_ok(0u8, &[]);
    deser_ok(0u64, &[]);
    deser_ok(0usize, &[]);
    deser_ok(0i8, &[]);
    deser_ok(0i64, &[]);
    deser_ok(false, &[]);
}

#[test]
fn top_unsigned_accepts_leading_zeros() {
    deser_ok(5u8, &[0, 0, 5]);
    deser_ok(0x0102u16, &[0, 0, 0, 1, 2]);
    deser_ok(u64::MAX, &[0, 255, 255, 255, 255, 255, 255, 255, 255]);
}

#[test]
fn top_unsigned_beyond_the_width_is_too_long() {
    deser_ok(255u8, &[255]);
    deser_err::<u8>(DecodeError::INPUT_TOO_LONG, &[1, 0]);
    deser_ok(65535u16, &[255, 255]);
    deser_err::<u16>(DecodeError::INPUT_TOO_LONG, &[1, 0, 0]);
    deser_ok(u32::MAX, &[255, 255, 255, 255]);
    deser_err::<u32>(DecodeError::INPUT_TOO_LONG, &[1, 0, 0, 0, 0]);
    deser_ok(u32::MAX as usize, &[255, 255, 255, 255]);
    deser_err::<usize>(DecodeError::INPUT_TOO_LONG, &[1, 0, 0, 0, 0]);
    deser_ok(u64::MAX, &[255; 8]);
}

#[test]
fn top_numbers_from_payloads_of_more_than_eight_bytes() {
    deser_ok(5u8, &[0, 0, 0, 0, 0, 0, 0, 0, 0, 5]);
    deser_ok(u64::MAX, &[0, 0, 255, 255, 255, 255, 255, 255, 255, 255]);
    deser_err::<u64>(DecodeError::INPUT_TOO_LONG, &[1, 0, 0, 0, 0, 0, 0, 0, 0]);
    deser_err::<u8>(DecodeError::INPUT_TOO_LONG, &[1, 0, 0, 0, 0, 0, 0, 0, 1]);
    deser_err::<u8>(DecodeError::INPUT_TOO_LONG, &[1, 0, 0, 0, 0, 0, 0, 1, 0]);
    deser_err::<usize>(DecodeError::INPUT_TOO_LONG, &[0, 1, 0, 0, 0, 0, 0, 0, 0, 0, 0]);
    deser_ok(-2i8, &[255, 255, 255, 255, 255, 255, 255, 255, 255, 254]);
    deser_ok(i64::MIN, &[255, 255, 128, 0, 0, 0, 0, 0, 0, 0]);
    deser_ok(i64::MAX, &[0, 0, 127, 255, 255, 255, 255, 255, 255, 255]);
    deser_err::<i64>(DecodeError::INPUT_OUT_OF_RANGE, &[1, 0, 0, 0, 0, 0, 0, 0, 0]);
    deser_err::<i64>(DecodeError::INPUT_OUT_OF_RANGE, &[0, 128, 0, 0, 0, 0, 0, 0, 0]);
    deser_err::<i64>(DecodeError::INPUT_OUT_OF_RANGE, &[255, 127, 255, 255, 255, 255, 255, 255, 255]);
    deser_err::<i64>(DecodeError::INPUT_OUT_OF_RANGE, &[254, 0, 0, 0, 0, 0, 0, 0, 0]);
    deser_err::<i8>(DecodeError::INPUT_OUT_OF_RANGE, &[255, 0, 0, 0, 0, 0, 0, 0, 1]);
    deser_ok(true, &[0, 0, 0, 0, 0, 0, 0, 0, 0, 1]);
    deser_err::<bool>(DecodeError::INPUT_OUT_OF_RANGE, &[1, 0, 0, 0, 0, 0, 0, 0, 1]);
    deser_err::<NonZeroUsize>(DecodeError::INVALID_VALUE, &[0; 12]);
}

#[test]
fn top_signed_outside_the_width_is_out_of_range() {
    deser_ok(127i8, &[127]);
    deser_ok(-128i8, &[128]);
    deser_err::<i8>(DecodeError::INPUT_OUT_OF_RANGE, &[0, 128]);
    deser_err::<i8>(DecodeError::INPUT_OUT_OF_RANGE, &[255, 127]);
    deser_ok(i16::MIN, &[128, 0]);
    deser_err::<i16>(DecodeError::INPUT_OUT_OF_RANGE, &[0, 128, 0]);
    deser_ok(i32::MAX, &[127, 255, 255, 255]);
    deser_err::<i32>(DecodeError::INPUT_OUT_OF_RANGE, &[0, 128, 0, 0, 0]);
    deser_ok(i32::MIN as isize, &[128, 0, 0, 0]);
    deser_err::<isize>(DecodeError::INPUT_OUT_OF_RANGE, &[255, 127, 255, 255, 255]);
    deser_ok(i64::MIN, &[128, 0, 0, 0, 0, 0, 0, 0]);
    deser_ok(i64::MAX, &[127, 255, 255, 255, 255, 255, 255, 255]);
}

#[test]
fn top_signed_tolerates_sign_extension() {
    deser_ok(-1i8, &[255, 255, 255]);
    deser_ok(-1i32, &[255; 12]);
    deser_ok(-5i64, &[255, 255, 251]);
    deser_ok(5i16, &[0, 0, 0, 5]);
    deser_ok(128i16, &[0, 128]);
    deser_ok(-129i16, &[255, 127]);
}

#[test]
fn top_bool_is_zero_or_one() {
    deser_ok(false, &[0]);
    deser_ok(true, &[1]);
    deser_ok(true, &[0, 0, 1]);
    deser_err::<bool>(DecodeError::INPUT_OUT_OF_RANGE, &[2]);
    deser_err::<bool>(DecodeError::INPUT_OUT_OF_RANGE, &[1, 0]);
}

#[test]
fn top_non_zero_refuses_zero() {
    deser_err::<NonZeroUsize>(DecodeError::INVALID_VALUE, &[]);
    deser_err::<NonZeroUsize>(DecodeError::INVALID_VALUE, &[0]);
    deser_err::<NonZeroUsize>(DecodeError::INPUT_TOO_LONG, &[1, 0, 0, 0, 0]);
    assert_eq!(NonZeroUsize::top_decode(&[5u8][..]).unwrap().get(), 5);
    assert_eq!(NonZeroUsize::new(0), None);
}

#[test]
fn top_option_is_absent_or_present() {
    deser_ok(None::<u16>, &[]);
    deser_ok(Some(7u16), &[1, 0, 7]);
    // the byte in front is skipped whatever it holds
    deser_ok(Some(7u16), &[0, 0, 7]);
    deser_ok(Some(7u16), &[9, 0, 7]);
    deser_err::<Option<u16>>(DecodeError::INPUT_TOO_SHORT, &[1, 7]);
    deser_err::<Option<u16>>(DecodeError::INPUT_TOO_LONG, &[1, 0, 7, 0]);
    deser_ok(Some(vec![5u8, 6]), &[1, 0, 0, 0, 2, 5, 6]);
}

#[test]
fn top_vec_of_bytes_is_the_payload() {
    deser_ok(Vec::<u8>::new(), &[]);
    deser_ok(vec![1u8, 2, 3], &[1, 2, 3]);
    deser_ok(vec![1u8, 2, 3].into_boxed_slice(), &[1, 2, 3]);
}

#[test]
fn top_vec_is_decoded_until_the_payload_ends() {
    deser_ok(vec![1u16, 2], &[0, 1, 0, 2]);
    deser_ok(vec![-1i8, 2], &[255, 2]);
    deser_ok(vec![1u16, 2].into_boxed_slice(), &[0, 1, 0, 2]);
    deser_err::<Vec<u16>>(DecodeError::INPUT_TOO_SHORT, &[0, 1, 0]);
    deser_err::<Vec<bool>>(DecodeError::INVALID_VALUE, &[1, 0, 2]);
    deser_ok(vec![vec![1u8], vec![]], &[0, 0, 0, 1, 1, 0, 0, 0, 0]);
    deser_ok(vec![Some(1u8), None], &[1, 1, 0]);
}

#[test]
fn top_vec_of_values_without_bytes_cannot_use_up_a_payload() {
    deser_ok(Vec::<()>::new(), &[]);
    deser_err::<Vec<()>>(DecodeError::INPUT_TOO_LONG, &[0]);
}

#[test]
fn top_composites_must_use_up_the_payload() {
    deser_ok((1u8, 2u16), &[1, 0, 2]);
    deser_err::<(u8, u16)>(DecodeError::INPUT_TOO_LONG, &[1, 0, 2, 0]);
    deser_err::<(u8, u16)>(DecodeError::INPUT_TOO_SHORT, &[1, 0]);
    deser_ok([1u16, 2], &[0, 1, 0, 2]);
    deser_err::<[u16; 2]>(DecodeError::INPUT_TOO_LONG, &[0, 1, 0, 2, 0]);
    deser_err::<[u16; 2]>(DecodeError::INPUT_TOO_SHORT, &[0, 1, 0]);
    deser_err::<Test<u16>>(DecodeError::INPUT_TOO_LONG, &[0, 1, 0, 0, 0, 2, 5, 6, 7, 8]);
    deser_err::<E>(DecodeError::INPUT_TOO_LONG, &[0, 0, 0, 0, 0]);
    deser_err::<E>(DecodeError::INVALID_VALUE, &[0, 0, 0, 4]);
}

#[test]
fn top_tuples_of_every_length() {
    deser_ok((1u8,), &[1]);
    deser_ok((1u8, 2u8, 3u8), &[1, 2, 3]);
    deser_ok(
        (1u8, 2u8, 3u8, 4u8, 5u8, 6u8, 7u8, 8u8, 9u8, 10u8, 11u8, 12u8),
        &[1, 2, 3, 4, 5, 6, 7, 8, 9, 10, 11, 12],
    );
    deser_ok((1u8, -2i16, true, Some(3u8), ()), &[1, 255, 254, 1, 1, 3]);
}

#[test]
fn top_boxed_values_decode_as_the_values() {
    deser_ok(Box::new(5u8), &[5]);
    deser_ok(Box::new((1u8, 2u16)), &[1, 0, 2]);
    deser_ok(Box::new([1u16, 2]), &[0, 1, 0, 2]);
    deser_err::<Box<[u16; 2]>>(DecodeError::INPUT_TOO_LONG, &[0, 1, 0, 2, 0]);
}

#[test]
fn top_boxed_byte_array_must_have_the_declared_length() {
    deser_ok(Box::new([1u8, 2]), &[1, 2]);
    deser_err::<Box<[u8; 2]>>(DecodeError::ARRAY_DECODE_ERROR, &[1]);
    deser_err::<Box<[u8; 2]>>(DecodeError::ARRAY_DECODE_ERROR, &[1, 2, 3]);
    deser_err::<Box<[u8; 2]>>(DecodeError::ARRAY_DECODE_ERROR, &[]);
    deser_ok(Box::new([0u8; 0]), &[]);
    // not in a box, an array of bytes is decoded as any other array
    deser_err::<[u8; 2]>(DecodeError::INPUT_TOO_SHORT, &[1]);
    deser_err::<[u8; 2]>(DecodeError::INPUT_TOO_LONG, &[1, 2, 3]);
}

#[test]
fn top_inputs_of_every_kind() {
    assert_eq!(u16::top_decode(vec![1u8, 2]), Ok(0x0102));
    assert_eq!(u16::top_decode(vec![1u8, 2].into_boxed_slice()), Ok(0x0102));
    assert_eq!(i16::top_decode(vec![255u8, 2]), Ok(-254));
    assert_eq!(i16::top_decode(vec![255u8, 2].into_boxed_slice()), Ok(-254));
    assert_eq!(Vec::<u8>::top_decode(vec![1u8, 2]), Ok(vec![1u8, 2]));
    assert_eq!(Vec::<u8>::top_decode(vec![1u8, 2].into_boxed_slice()), Ok(vec![1u8, 2]));
}

#[test]
fn top_tuple_of_sixteen_fields() {
    let bytes: &[u8] = &[1, 2, 3, 4, 5, 6, 7, 8, 9, 10, 11, 12, 13, 14, 15, 0, 16];
    let t = <(u8, u8, u8, u8, u8, u8, u8, u8, u8, u8, u8, u8, u8, u8, u8, u16)>::top_decode(bytes)
        .unwrap();
    assert_eq!((t.0, t.1, t.2, t.3, t.4, t.5, t.6, t.7), (1, 2, 3, 4, 5, 6, 7, 8));
    assert_eq!((t.8, t.9, t.10, t.11, t.12, t.13, t.14, t.15), (9, 10, 11, 12, 13, 14, 15, 16));
    assert_eq!(elrond_codec::top_encode_to_vec(&t), Ok(bytes.to_vec()));
    let short = <(u8, u8, u8, u8, u8, u8, u8, u8, u8, u8, u8, u8, u8, u8, u8, u16)>::top_decode(
        &bytes[..16],
    );
    assert_eq!(short.err(), Some(DecodeError::INPUT_TOO_SHORT));
}

#[test]
fn inputs_hand_over_their_payload() {
    let slice: &[u8] = &[255, 2];
    assert_eq!(slice.byte_len(), 2);
    assert_eq!(slice.into_boxed_slice_u8(), vec![255u8, 2].into_boxed_slice());
    assert_eq!(slice.into_u64(), 0xff02);
    assert_eq!(slice.into_i64(), -254);
    assert_eq!(vec![255u8, 2].byte_len(), 2);
    assert_eq!(vec![255u8, 2].into_boxed_slice_u8(), vec![255u8, 2].into_boxed_slice());
    assert_eq!(vec![255u8, 2].into_u64(), 0xff02);
    assert_eq!(vec![255u8, 2].into_i64(), -254);
    let boxed = vec![255u8, 2].into_boxed_slice();
    assert_eq!(boxed.byte_len(), 2);
    assert_eq!(boxed.clone().into_u64(), 0xff02);
    assert_eq!(boxed.clone().into_i64(), -254);
    assert_eq!(boxed.clone().into_boxed_slice_u8(), boxed);
}
