use rawview::{
    read, read_arrayunsafe, read_with, readarray, readarray_with, readunsafe, ByteOrder,
    ReadError,
};
use std::mem::align_of;

/// A buffer that holds `bytes` from the index it is given with, which lies `shift`
/// bytes after an address that is a multiple of 16.
fn place(bytes: &[u8], shift: usize) -> (Vec<u8>, usize) {
    let mut storage = vec![0xa5u8; bytes.len() + 48];
    let base = storage.as_ptr() as usize;
    let start = (16 - base % 16) % 16 + shift;
    storage[start..start + bytes.len()].copy_from_slice(bytes);
    (storage, start)
}

fn native() -> ByteOrder {
    if u16::from_ne_bytes([1, 0]) == 1 {
        ByteOrder::Little
    } else {
        ByteOrder::Big
    }
}

#[test]
fn read_with_gives_the_value_that_the_prefix_holds() {
    let input = [0x78, 0x56, 0x34, 0x12];
    assert_eq!(read_with::<u32>(&input, 0, ByteOrder::Little), Ok(0x1234_5678));
    assert_eq!(read_with::<u32>(&input, 0, ByteOrder::Big), Ok(0x7856_3412));
    assert_eq!(read_with::<i32>(&[0xfe, 0xff, 0xff, 0xff], 64, ByteOrder::Little), Ok(-2));
    assert_eq!(read_with::<u8>(&[7], 3, ByteOrder::Big), Ok(7));
}

#[test]
fn read_with_ignores_what_follows_the_prefix() {
    let input = [0x34, 0x12, 0xde, 0xad, 0xbe, 0xef];
    assert_eq!(read_with::<u16>(&input, 0, ByteOrder::Little), Ok(0x1234));
    assert_eq!(read_with::<u16>(&input, 0, ByteOrder::Big), Ok(0x3412));
    assert_eq!(read_with::<i8>(&input, 0, ByteOrder::Big), Ok(0x34));
}

#[test]
fn read_with_refuses_a_buffer_shorter_than_the_value() {
    assert_eq!(read_with::<u32>(&[1, 2, 3], 0, ByteOrder::Little), Err(ReadError::TooShort));
    assert_eq!(read_with::<u8>(&[], 0, ByteOrder::Little), Err(ReadError::TooShort));
    assert_eq!(read_with::<i128>(&[0; 15], 0, ByteOrder::Big), Err(ReadError::TooShort));
    assert_eq!(read_with::<u64>(&[0; 7], 1, ByteOrder::Big), Err(ReadError::TooShort));
}

#[test]
fn read_with_refuses_exactly_the_misaligned_addresses() {
    let input = [0x78, 0x56, 0x34, 0x12, 0, 0, 0, 0];
    for address in 0..64usize {
        let expected = if address % align_of::<u32>() == 0 {
            Ok(0x1234_5678)
        } else {
            Err(ReadError::Misaligned)
        };
        assert_eq!(read_with::<u32>(&input, address, ByteOrder::Little), expected);
    }
    for address in 0..64usize {
        let expected = if address % align_of::<u64>() == 0 {
            Ok(0x1234_5678)
        } else {
            Err(ReadError::Misaligned)
        };
        assert_eq!(read_with::<u64>(&input, address, ByteOrder::Little), expected);
    }
}

#[test]
fn read_with_never_finds_a_byte_misaligned() {
    for address in 0..64usize {
        assert_eq!(read_with::<u8>(&[0x80], address, ByteOrder::Little), Ok(0x80));
        assert_eq!(read_with::<i8>(&[0x80], address, ByteOrder::Little), Ok(-128));
    }
}

#[test]
fn read_with_gives_back_a_value_written_as_raw_bytes() {
    for value in [0u16, 1, 0x00ff, 0xff00, 0x1234, u16::MAX] {
        assert_eq!(read_with::<u16>(&value.to_le_bytes(), 0, ByteOrder::Little), Ok(value));
        assert_eq!(read_with::<u16>(&value.to_be_bytes(), 0, ByteOrder::Big), Ok(value));
    }
    for value in [0i64, -1, 1, i64::MIN, i64::MAX, -0x0123_4567_89ab_cdef] {
        assert_eq!(read_with::<i64>(&value.to_le_bytes(), 0, ByteOrder::Little), Ok(value));
        assert_eq!(read_with::<i64>(&value.to_be_bytes(), 0, ByteOrder::Big), Ok(value));
    }
    for value in [0u128, 1, u128::MAX, 0x0011_2233_4455_6677_8899_aabb_ccdd_eeff] {
        assert_eq!(read_with::<u128>(&value.to_le_bytes(), 0, ByteOrder::Little), Ok(value));
        assert_eq!(read_with::<u128>(&value.to_be_bytes(), 0, ByteOrder::Big), Ok(value));
    }
}

#[test]
fn read_gives_the_value_in_the_byte_order_of_the_machine() {
    let bytes = [0x10, 0x32, 0x54, 0x76, 0x98, 0xba, 0xdc, 0xfe, 0xaa, 0xbb];
    let (storage, start) = place(&bytes, 0);
    let input = &storage[start..start + bytes.len()];
    assert_eq!(read::<u8>(input), Ok(0x10));
    assert_eq!(read::<u16>(input), Ok(u16::from_ne_bytes([0x10, 0x32])));
    assert_eq!(read::<u32>(input), Ok(u32::from_ne_bytes([0x10, 0x32, 0x54, 0x76])));
    assert_eq!(
        read::<u64>(input),
        Ok(u64::from_ne_bytes([0x10, 0x32, 0x54, 0x76, 0x98, 0xba, 0xdc, 0xfe]))
    );
    assert_eq!(
        read::<i64>(input),
        Ok(i64::from_ne_bytes([0x10, 0x32, 0x54, 0x76, 0x98, 0xba, 0xdc, 0xfe]))
    );
}

#[test]
fn read_agrees_with_read_with_at_the_address_of_the_buffer() {
    let bytes = [0x10, 0x32, 0x54, 0x76, 0x98, 0xba, 0xdc, 0xfe];
    for shift in 0..16usize {
        let (storage, start) = place(&bytes, shift);
        let input = &storage[start..start + bytes.len()];
        let address = input.as_ptr() as usize;
        assert_eq!(read::<u16>(input), read_with::<u16>(input, address, native()));
        assert_eq!(read::<i32>(input), read_with::<i32>(input, address, native()));
        assert_eq!(read::<u64>(input), read_with::<u64>(input, address, native()));
    }
}

#[test]
fn read_refuses_a_misaligned_buffer_though_it_is_long_enough() {
    let bytes = [0u8; 32];
    let (storage, start) = place(&bytes, 1);
    let input = &storage[start..start + bytes.len()];
    assert_eq!(read::<u16>(input), Err(ReadError::Misaligned));
    assert_eq!(read::<u32>(input), Err(ReadError::Misaligned));
    assert_eq!(read::<i64>(input), Err(ReadError::Misaligned));
    assert_eq!(read::<u128>(input), Err(ReadError::Misaligned));
    assert_eq!(read::<u8>(input), Ok(0));
}

#[test]
fn read_refuses_a_short_buffer_wherever_it_starts() {
    for shift in 0..4usize {
        let (storage, start) = place(&[1, 2, 3], shift);
        let input = &storage[start..start + 3];
        assert_eq!(read::<u32>(input), Err(ReadError::TooShort));
        assert_eq!(read::<i128>(input), Err(ReadError::TooShort));
    }
    assert_eq!(read::<u8>(&[]), Err(ReadError::TooShort));
}

#[test]
fn read_gives_back_a_value_written_in_native_order() {
    for value in [0u32, 1, 0xdead_beef, u32::MAX] {
        let (storage, start) = place(&value.to_ne_bytes(), 0);
        assert_eq!(read::<u32>(&storage[start..start + 4]), Ok(value));
    }
    for value in [0i16, -1, i16::MIN, i16::MAX, 0x1234] {
        let (storage, start) = place(&value.to_ne_bytes(), 0);
        assert_eq!(read::<i16>(&storage[start..start + 2]), Ok(value));
    }
    for value in [0i128, -1, i128::MIN, i128::MAX] {
        let (storage, start) = place(&value.to_ne_bytes(), 0);
        assert_eq!(read::<i128>(&storage[start..start + 16]), Ok(value));
    }
}

#[test]
fn readunsafe_reads_without_looking_at_the_address() {
    let bytes = [0x10, 0x32, 0x54, 0x76, 0xff];
    for shift in 0..4usize {
        let (storage, start) = place(&bytes, shift);
        let input = &storage[start..start + bytes.len()];
        assert_eq!(readunsafe::<u32>(input), u32::from_ne_bytes([0x10, 0x32, 0x54, 0x76]));
        assert_eq!(readunsafe::<i16>(input), i16::from_ne_bytes([0x10, 0x32]));
        assert_eq!(readunsafe::<u8>(input), 0x10);
    }
}

#[test]
fn readarray_with_gives_every_element_in_order() {
    let input = [1, 0, 0, 0, 2, 0, 0, 0, 0xff, 0xff, 0xff, 0xff];
    let array = readarray_with::<u32>(&input, 0, ByteOrder::Little).unwrap();
    assert_eq!(array.len(), 3);
    assert_eq!(array.get(0), Some(1));
    assert_eq!(array.get(1), Some(2));
    assert_eq!(array.get(2), Some(u32::MAX));
    assert_eq!(array.get(3), None);
    assert_eq!(array.get(usize::MAX), None);
    let array = readarray_with::<i32>(&input, 0, ByteOrder::Big).unwrap();
    assert_eq!(array.len(), 3);
    assert_eq!(array.get(0), Some(0x0100_0000));
    assert_eq!(array.get(1), Some(0x0200_0000));
    assert_eq!(array.get(2), Some(-1));
    assert_eq!(array.get(3), None);
}

#[test]
fn readarray_with_reads_each_element_from_its_own_bytes() {
    let input: Vec<u8> = (0..64u8).map(|i| i.wrapping_mul(37).wrapping_add(11)).collect();
    let array = readarray_with::<u64>(&input, 0, ByteOrder::Little).unwrap();
    assert_eq!(array.len(), 8);
    for index in 0..8 {
        let mut chunk = [0u8; 8];
        chunk.copy_from_slice(&input[index * 8..(index + 1) * 8]);
        assert_eq!(array.get(index), Some(u64::from_le_bytes(chunk)));
    }
    let array = readarray_with::<i16>(&input, 0, ByteOrder::Big).unwrap();
    assert_eq!(array.len(), 32);
    for index in 0..32 {
        let chunk = [input[index * 2], input[index * 2 + 1]];
        assert_eq!(array.get(index), Some(i16::from_be_bytes(chunk)));
    }
}

#[test]
fn readarray_with_keeps_the_buffer() {
    let input = [9, 8, 7, 6];
    let array = readarray_with::<u16>(&input, 0, ByteOrder::Little).unwrap();
    assert_eq!(array.as_bytes(), &input);
    let copy = array.clone();
    assert_eq!(copy.as_bytes(), &input);
    assert_eq!(copy.len(), 2);
    assert_eq!(copy.get(1), array.get(1));
}

#[test]
fn readarray_with_over_an_empty_buffer_is_empty() {
    let array = readarray_with::<u64>(&[], 0, ByteOrder::Little).unwrap();
    assert_eq!(array.len(), 0);
    assert_eq!(array.get(0), None);
}

#[test]
fn readarray_with_refuses_a_length_that_is_no_multiple() {
    for len in [1usize, 2, 3, 5, 6, 7, 9, 13] {
        let input = vec![0u8; len];
        assert_eq!(
            readarray_with::<u32>(&input, 0, ByteOrder::Little).unwrap_err(),
            ReadError::PartialElement
        );
    }
    assert_eq!(
        readarray_with::<u128>(&[0; 17], 0, ByteOrder::Big).unwrap_err(),
        ReadError::PartialElement
    );
}

#[test]
fn readarray_with_looks_at_the_length_before_the_address() {
    assert_eq!(
        readarray_with::<u32>(&[0; 5], 1, ByteOrder::Little).unwrap_err(),
        ReadError::PartialElement
    );
}

#[test]
fn readarray_with_refuses_exactly_the_misaligned_addresses() {
    let input = [0u8; 16];
    for address in 0..64usize {
        let outcome = readarray_with::<u64>(&input, address, ByteOrder::Little);
        if address % align_of::<u64>() == 0 {
            assert_eq!(outcome.unwrap().len(), 2);
        } else {
            assert_eq!(outcome.unwrap_err(), ReadError::Misaligned);
        }
    }
}

#[test]
fn readarray_reads_in_the_byte_order_of_the_machine() {
    let bytes = [0x10, 0x32, 0x54, 0x76, 0x98, 0xba, 0xdc, 0xfe];
    let (storage, start) = place(&bytes, 0);
    let input = &storage[start..start + bytes.len()];
    let array = readarray::<u16>(input).unwrap();
    assert_eq!(array.len(), 4);
    assert_eq!(array.get(0), Some(u16::from_ne_bytes([0x10, 0x32])));
    assert_eq!(array.get(1), Some(u16::from_ne_bytes([0x54, 0x76])));
    assert_eq!(array.get(2), Some(u16::from_ne_bytes([0x98, 0xba])));
    assert_eq!(array.get(3), Some(u16::from_ne_bytes([0xdc, 0xfe])));
    assert_eq!(array.get(4), None);
    let array = readarray::<i64>(input).unwrap();
    assert_eq!(array.len(), 1);
    assert_eq!(array.get(0), Some(i64::from_ne_bytes(bytes)));
}

#[test]
fn readarray_refuses_partial_and_misaligned_buffers() {
    let (storage, start) = place(&[0u8; 16], 0);
    assert_eq!(readarray::<u32>(&storage[start..start + 7]).unwrap_err(), ReadError::PartialElement);
    assert_eq!(readarray::<u64>(&storage[start..start + 12]).unwrap_err(), ReadError::PartialElement);
    let (storage, start) = place(&[0u8; 16], 1);
    assert_eq!(
        readarray::<u32>(&storage[start..start + 8]).unwrap_err(),
        ReadError::Misaligned
    );
    assert_eq!(readarray::<u32>(&storage[start..start + 7]).unwrap_err(), ReadError::PartialElement);
    assert_eq!(readarray::<u8>(&storage[start..start + 7]).unwrap().len(), 7);
}

#[test]
fn read_arrayunsafe_takes_the_buffer_as_it_is() {
    let bytes = [0x10, 0x32, 0x54, 0x76, 0x98, 0xba, 0xdc, 0xfe];
    for shift in 0..4usize {
        let (storage, start) = place(&bytes, shift);
        let input = &storage[start..start + bytes.len()];
        let array = read_arrayunsafe::<u32>(input);
        assert_eq!(array.len(), 2);
        assert_eq!(array.get(0), Some(u32::from_ne_bytes([0x10, 0x32, 0x54, 0x76])));
        assert_eq!(array.get(1), Some(u32::from_ne_bytes([0x98, 0xba, 0xdc, 0xfe])));
        assert_eq!(array.get(2), None);
        assert_eq!(array.as_bytes(), &bytes);
    }
}
