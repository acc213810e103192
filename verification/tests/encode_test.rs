use elrond_codec::num_conv::{
    bytes_to_i64, bytes_to_number, bytes_to_u64, encode_be, signed_byte_len, top_encode_number,
    unsigned_byte_len,
};
use elrond_codec::test_struct::{Test, E};
use elrond_codec::top_en::dep_encode_to_vec;
use elrond_codec::{
    top_encode_from_nested, top_encode_to_vec, EncodeError, EndpointResult, Finish, NestedEncode,
    NonZeroUsize, OutputValue, RecordedOutput, TopEncode, TopEncodeOutput,
};

fn top_ser<V: TopEncode>(element: V, bytes: &[u8]) {
    assert_eq!(top_encode_to_vec(&element), Ok(bytes.to_vec()));
}

fn dep_ser<V: NestedEncode>(element: V, bytes: &[u8]) {
    assert_eq!(dep_encode_to_vec(&element), Ok(bytes.to_vec()));
}

#[test]
fn top_unsigned_is_minimal() {
    top_ser(0u8, &[]);
    top_ser(0u64, &[]);
    top_ser(0usize, &[]);
    top_ser(5u8, &[5]);
    top_ser(5u16, &[5]);
    top_ser(5u32, &[5]);
    top_ser(5u64, &[5]);
    top_ser(5usize, &[5]);
    top_ser(255u8, &[255]);
    top_ser(256u16, &[1, 0]);
    top_ser(0x010203u32, &[1, 2, 3]);
    top_ser(0x0102030405u64, &[1, 2, 3, 4, 5]);
    top_ser(u64::MAX, &[255; 8]);
}

#[test]
fn top_signed_is_minimal() {
    top_ser(0i8, &[]);
    top_ser(0i64, &[]);
    top_ser(5i8, &[5]);
    top_ser(5i64, &[5]);
    top_ser(-5i8, &[251]);
    top_ser(-5i16, &[251]);
    top_ser(-5i32, &[251]);
    top_ser(-5i64, &[251]);
    top_ser(-5isize, &[251]);
    top_ser(-1i64, &[255]);
    top_ser(127i16, &[127]);
    top_ser(128i16, &[0, 128]);
    top_ser(-128i16, &[128]);
    top_ser(-129i16, &[255, 127]);
    top_ser(i64::MAX, &[127, 255, 255, 255, 255, 255, 255, 255]);
    top_ser(i64::MIN, &[128, 0, 0, 0, 0, 0, 0, 0]);
}

#[test]
fn top_of_the_other_kinds() {
    top_ser((), &[]);
    top_ser(false, &[]);
    top_ser(true, &[1]);
    top_ser(None::<u16>, &[]);
    top_ser(Some(7u16), &[1, 0, 7]);
    top_ser(vec![1u8, 2, 3], &[1, 2, 3]);
    top_ser(vec![1u16, 2], &[0, 1, 0, 2]);
    top_ser(vec![1u16, 2].into_boxed_slice(), &[0, 1, 0, 2]);
    top_ser(vec![1u8, 2].into_boxed_slice(), &[1, 2]);
    top_ser(Vec::<u32>::new(), &[]);
    top_ser((1u8, 2u16), &[1, 0, 2]);
    top_ser([1u16, 2], &[0, 1, 0, 2]);
    top_ser(Box::new(5u32), &[5]);
    top_ser(NonZeroUsize::new(5).unwrap(), &[5]);
    top_ser(vec![(), ()], &[]);
}

#[test]
fn nested_encoded_numbers_have_their_full_width() {
    dep_ser(5u8, &[5]);
    dep_ser(5u16, &[0, 5]);
    dep_ser(5u32, &[0, 0, 0, 5]);
    dep_ser(5usize, &[0, 0, 0, 5]);
    dep_ser(5u64, &[0, 0, 0, 0, 0, 0, 0, 5]);
    dep_ser(-5i8, &[251]);
    dep_ser(-5i16, &[255, 251]);
    dep_ser(-5i32, &[255, 255, 255, 251]);
    dep_ser(-5isize, &[255, 255, 255, 251]);
    dep_ser(-5i64, &[255, 255, 255, 255, 255, 255, 255, 251]);
    dep_ser(0u32, &[0, 0, 0, 0]);
    dep_ser(i16::MIN, &[128, 0]);
}

#[test]
fn nested_of_the_other_kinds() {
    dep_ser((), &[]);
    dep_ser(false, &[0]);
    dep_ser(true, &[1]);
    dep_ser(None::<u16>, &[0]);
    dep_ser(Some(7u16), &[1, 0, 7]);
    dep_ser(vec![5u8, 6], &[0, 0, 0, 2, 5, 6]);
    dep_ser(vec![1u16, 2], &[0, 0, 0, 2, 0, 1, 0, 2]);
    dep_ser(Vec::<u16>::new(), &[0, 0, 0, 0]);
    dep_ser((1u8, 2u16, true), &[1, 0, 2, 1]);
    dep_ser([1u16, 2], &[0, 1, 0, 2]);
    dep_ser([7u8, 8], &[7, 8]);
    dep_ser(Box::new(5u16), &[0, 5]);
    dep_ser(NonZeroUsize::new(5).unwrap(), &[0, 0, 0, 5]);
    dep_ser(
        (1u8, 2u8, 3u8, 4u8, 5u8, 6u8, 7u8, 8u8, 9u8, 10u8, 11u8, 12u8),
        &[1, 2, 3, 4, 5, 6, 7, 8, 9, 10, 11, 12],
    );
}

#[test]
fn record_is_the_row_of_its_fields() {
    let test = Test {
        int: 1i32,
        seq: vec![5u8, 6],
        another_byte: 7,
    };
    dep_ser(test, &[0, 0, 0, 1, 0, 0, 0, 2, 5, 6, 7]);
    let test = Test {
        int: 1u16,
        seq: vec![5u8, 6],
        another_byte: 7,
    };
    top_ser(test, &[0, 1, 0, 0, 0, 2, 5, 6, 7]);
}

#[test]
fn variant_starts_with_its_index() {
    dep_ser(E::Unit, &[0, 0, 0, 0]);
    dep_ser(E::Newtype(1), &[0, 0, 0, 1, 0, 0, 0, 1]);
    dep_ser(E::Tuple(1, 2), &[0, 0, 0, 2, 0, 0, 0, 1, 0, 0, 0, 2]);
    dep_ser(E::Struct { a: 1 }, &[0, 0, 0, 3, 0, 0, 0, 1]);
    top_ser(E::Unit, &[0, 0, 0, 0]);
    top_ser(E::Tuple(1, 2), &[0, 0, 0, 2, 0, 0, 0, 1, 0, 0, 0, 2]);
}

#[test]
fn machine_words_beyond_32_bits_have_no_encoding() {
    if usize::BITS > 32 {
        let large = (u32::MAX as u64 + 1) as usize;
        assert_eq!(top_encode_to_vec(&large), Err(EncodeError::UNSUPPORTED_OPERATION));
        assert_eq!(dep_encode_to_vec(&large), Err(EncodeError::UNSUPPORTED_OPERATION));
        assert_eq!(
            dep_encode_to_vec(&(1u8, large)),
            Err(EncodeError::UNSUPPORTED_OPERATION)
        );
        assert_eq!(
            top_encode_to_vec(&vec![large]),
            Err(EncodeError::UNSUPPORTED_OPERATION)
        );
        assert_eq!(
            top_encode_to_vec(&NonZeroUsize::new(large).unwrap()),
            Err(EncodeError::UNSUPPORTED_OPERATION)
        );
        let small = (i32::MIN as i64 - 1) as isize;
        assert_eq!(top_encode_to_vec(&small), Err(EncodeError::UNSUPPORTED_OPERATION));
        assert_eq!(dep_encode_to_vec(&small), Err(EncodeError::UNSUPPORTED_OPERATION));
        // what was written before the refusal stays, and a whole payload is kept back
        let mut written: Vec<u8> = vec![9];
        assert_eq!(
            (1u8, large).dep_encode(&mut written),
            Err(EncodeError::UNSUPPORTED_OPERATION)
        );
        assert_eq!(written, vec![9u8, 1]);
        let mut payload: Vec<u8> = vec![9];
        assert_eq!(
            top_encode_from_nested(&(1u8, large), &mut payload),
            Err(EncodeError::UNSUPPORTED_OPERATION)
        );
        assert_eq!(payload, vec![9u8]);
    }
    assert_eq!(top_encode_to_vec(&(u32::MAX as usize)), Ok(vec![255u8; 4]));
    assert_eq!(dep_encode_to_vec(&(i32::MIN as isize)), Ok(vec![128u8, 0, 0, 0]));
}

#[test]
fn payload_sink_takes_every_kind_of_value() {
    let mut sink: Vec<u8> = Vec::new();
    sink.set_slice_u8(&[1, 2]);
    assert_eq!(sink, vec![1u8, 2]);
    sink.set_u64(0x0304);
    assert_eq!(sink, vec![1u8, 2, 3, 4]);
    sink.set_i64(-2);
    assert_eq!(sink, vec![1u8, 2, 3, 4, 254]);
    sink.set_unit();
    assert_eq!(sink, vec![1u8, 2, 3, 4, 254]);
    sink.set_big_int_handle_or_bytes(7, || vec![8u8]);
    assert_eq!(sink, vec![1u8, 2, 3, 4, 254, 8]);
    sink.set_big_uint_handle_or_bytes(7, || vec![9u8]);
    assert_eq!(sink, vec![1u8, 2, 3, 4, 254, 8, 9]);
}

#[test]
fn number_conversions() {
    assert_eq!(bytes_to_number(&[], false), 0);
    assert_eq!(bytes_to_number(&[], true), 0);
    assert_eq!(bytes_to_number(&[1, 2], false), 0x0102);
    assert_eq!(bytes_to_number(&[255], false), 255);
    assert_eq!(bytes_to_number(&[255], true), u64::MAX);
    assert_eq!(bytes_to_number(&[254, 0], true), 0xffff_ffff_ffff_fe00);
    assert_eq!(bytes_to_number(&[1, 0, 0, 0, 0, 0, 0, 0, 2], false), 2);
    assert_eq!(bytes_to_u64(&[]), Some(0));
    assert_eq!(bytes_to_u64(&[1, 2]), Some(0x0102));
    assert_eq!(bytes_to_u64(&[0, 0, 0, 0, 0, 0, 0, 0, 0, 1, 2]), Some(0x0102));
    assert_eq!(bytes_to_u64(&[1, 0, 0, 0, 0, 0, 0, 0, 2]), None);
    assert_eq!(bytes_to_u64(&[0, 1, 0, 0, 0, 0, 0, 0, 0, 2]), None);
    assert_eq!(bytes_to_i64(&[]), Some(0));
    assert_eq!(bytes_to_i64(&[254]), Some(-2));
    assert_eq!(bytes_to_i64(&[255, 255, 255, 255, 255, 255, 255, 255, 255, 254]), Some(-2));
    assert_eq!(bytes_to_i64(&[0, 0, 0, 0, 0, 0, 0, 0, 0, 254]), Some(254));
    assert_eq!(bytes_to_i64(&[0, 255, 0, 0, 0, 0, 0, 0, 0]), None);
    assert_eq!(bytes_to_i64(&[255, 0, 0, 0, 0, 0, 0, 0, 0]), None);
    assert_eq!(unsigned_byte_len(0), 0);
    assert_eq!(unsigned_byte_len(255), 1);
    assert_eq!(unsigned_byte_len(256), 2);
    assert_eq!(unsigned_byte_len(u64::MAX), 8);
    assert_eq!(signed_byte_len(0), 1);
    assert_eq!(signed_byte_len(127), 1);
    assert_eq!(signed_byte_len(128), 2);
    assert_eq!(signed_byte_len(-128), 1);
    assert_eq!(signed_byte_len(-129), 2);
    assert_eq!(signed_byte_len(i64::MIN), 8);
    assert_eq!(encode_be(0x0102, 4), vec![0u8, 0, 1, 2]);
    assert_eq!(encode_be(0x0102, 1), vec![2u8]);
    assert_eq!(encode_be(0x0102, 0), Vec::<u8>::new());
    assert_eq!(encode_be(u64::MAX, 8), vec![255u8; 8]);
    assert_eq!(encode_be(0x0102, 10), vec![0u8, 0, 0, 0, 0, 0, 0, 0, 1, 2]);
    assert_eq!(top_encode_number(0, false), Vec::<u8>::new());
    assert_eq!(top_encode_number(0, true), Vec::<u8>::new());
    assert_eq!(top_encode_number(255, false), vec![255u8]);
    assert_eq!(top_encode_number(255, true), vec![0u8, 255]);
    assert_eq!(top_encode_number(u64::MAX, true), vec![255u8]);
    assert_eq!(top_encode_number(u64::MAX, false), vec![255u8; 8]);
    assert_eq!(top_encode_number(0x8000, true), vec![0u8, 128, 0]);
}

#[test]
fn slices_of_bytes_are_shown_as_they_are() {
    assert_eq!(u8::slice_as_bytes(&[1, 2]), Some(&[1u8, 2][..]));
    assert_eq!(u16::slice_as_bytes(&[1, 2]), None);
}

#[test]
fn recorded_output_keeps_values_as_they_were_handed_over() {
    let mut recorded = RecordedOutput::new();
    assert_eq!(5u32.top_encode(&mut recorded), Ok(()));
    assert_eq!((-5i16).top_encode(&mut recorded), Ok(()));
    assert_eq!(().top_encode(&mut recorded), Ok(()));
    assert_eq!(vec![1u8, 2].top_encode(&mut recorded), Ok(()));
    recorded.set_big_int_handle_or_bytes(3, || vec![9u8]);
    recorded.set_big_uint_handle_or_bytes(4, || vec![9u8]);
    assert_eq!(
        recorded.into_values(),
        vec![
            OutputValue::U64(5),
            OutputValue::I64(-5),
            OutputValue::Unit,
            OutputValue::Bytes(vec![1, 2]),
            OutputValue::BigIntHandle(3),
            OutputValue::BigUintHandle(4),
        ]
    );
}

#[test]
fn endpoint_results_are_handed_over_or_refused() {
    match 5u64.finish() {
        Finish::Output(recorded) => assert_eq!(recorded.into_values(), vec![OutputValue::U64(5)]),
        Finish::SignalError(_) => panic!("a number has an encoding"),
    }
    match (1u8, 2u16).finish() {
        Finish::Output(recorded) => {
            assert_eq!(recorded.into_values(), vec![OutputValue::Bytes(vec![1, 0, 2])])
        },
        Finish::SignalError(_) => panic!("a tuple of numbers has an encoding"),
    }
    if usize::BITS > 32 {
        let large = (u32::MAX as u64 + 1) as usize;
        assert_eq!(large.finish(), Finish::SignalError("unsupported operation"));
    }
}
