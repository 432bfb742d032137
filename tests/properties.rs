use zigzag_rs::{zigzag_decode_iter, zigzag_encode_iter, ZigZag, ZigZagError};

#[test]
fn round_trip_every_width_at_the_extremes() {
    for v in [i8::MIN, -1, 0, 1, i8::MAX] {
        assert_eq!(i8::zigzag_decode(i8::zigzag_encode(v)), v);
    }
    for v in [i16::MIN, -1, 0, 1, i16::MAX] {
        assert_eq!(i16::zigzag_decode(i16::zigzag_encode(v)), v);
    }
    for v in [i32::MIN, -1, 0, 1, i32::MAX] {
        assert_eq!(i32::zigzag_decode(i32::zigzag_encode(v)), v);
    }
    for v in [i64::MIN, -1, 0, 1, i64::MAX] {
        assert_eq!(i64::zigzag_decode(i64::zigzag_encode(v)), v);
    }
    for v in [i128::MIN, -1, 0, 1, i128::MAX] {
        assert_eq!(i128::zigzag_decode(i128::zigzag_encode(v)), v);
    }
    for u in [0u64, 1, 2, 3, u64::MAX - 1, u64::MAX] {
        assert_eq!(i64::zigzag_encode(i64::zigzag_decode(u)), u);
    }
    for u in [0u128, 1, 2, u128::MAX - 1, u128::MAX] {
        assert_eq!(i128::zigzag_encode(i128::zigzag_decode(u)), u);
    }
}

#[test]
fn fixed_points_at_zero() {
    assert_eq!(i8::zigzag_encode(0), 0);
    assert_eq!(i16::zigzag_encode(0), 0);
    assert_eq!(i32::zigzag_encode(0), 0);
    assert_eq!(i64::zigzag_encode(0), 0);
    assert_eq!(i128::zigzag_encode(0), 0);
    assert_eq!(i8::zigzag_decode(0), 0);
    assert_eq!(i16::zigzag_decode(0), 0);
    assert_eq!(i32::zigzag_decode(0), 0);
    assert_eq!(i64::zigzag_decode(0), 0);
    assert_eq!(i128::zigzag_decode(0), 0);
}

#[test]
fn small_magnitudes_come_first() {
    let order = [0i64, -1, 1, -2, 2, -3, 3, -4, 4];
    for (k, &v) in order.iter().enumerate() {
        assert_eq!(i64::zigzag_encode(v), k as u64);
        assert_eq!(i64::zigzag_decode(k as u64), v);
    }
    assert_eq!(i16::zigzag_encode(-1000), 1999);
    assert_eq!(i16::zigzag_encode(1000), 2000);
}

#[test]
fn extremes_of_every_width() {
    assert_eq!(i8::zigzag_encode(i8::MIN), u8::MAX);
    assert_eq!(i8::zigzag_encode(i8::MAX), u8::MAX - 1);
    assert_eq!(i16::zigzag_encode(i16::MIN), u16::MAX);
    assert_eq!(i16::zigzag_encode(i16::MAX), u16::MAX - 1);
    assert_eq!(i32::zigzag_encode(i32::MIN), 4294967295);
    assert_eq!(i32::zigzag_encode(i32::MAX), 4294967294);
    assert_eq!(i64::zigzag_encode(i64::MIN), u64::MAX);
    assert_eq!(i64::zigzag_encode(i64::MAX), u64::MAX - 1);
    assert_eq!(i128::zigzag_encode(i128::MIN), u128::MAX);
    assert_eq!(i128::zigzag_encode(i128::MAX), u128::MAX - 1);
    assert_eq!(i32::zigzag_decode(u32::MAX), i32::MIN);
    assert_eq!(i128::zigzag_decode(u128::MAX - 1), i128::MAX);
}

#[test]
fn every_byte_decodes_and_encodes_back() {
    for u in u8::MIN..=u8::MAX {
        assert_eq!(i8::zigzag_encode(i8::zigzag_decode(u)), u);
    }
}

#[test]
fn batch_matches_single_values_in_order() {
    let values = [7i64, -3, i64::MIN, 0, i64::MAX];
    let mut out = [0u64; 5];
    i64::zigzag_encode_slice(&values, &mut out);
    for i in 0..values.len() {
        assert_eq!(out[i], i64::zigzag_encode(values[i]));
    }
    assert_eq!(out, [14, 5, u64::MAX, 0, u64::MAX - 1]);

    let mut back = [1i64; 5];
    i64::zigzag_decode_slice(&out, &mut back);
    for i in 0..out.len() {
        assert_eq!(back[i], i64::zigzag_decode(out[i]));
    }
    assert_eq!(back, values);
}

#[test]
fn batch_leaves_slots_past_the_input_untouched() {
    let values = [1i32, -1];
    let mut out = [9u32; 5];
    i32::zigzag_encode_slice(&values, &mut out);
    assert_eq!(out, [2, 1, 9, 9, 9]);

    let mut decoded = [42i16; 4];
    let result = i16::try_zigzag_decode_slice(&[3u16, 4], &mut decoded);
    assert_eq!(result, Ok(()));
    assert_eq!(decoded, [-2, 2, 42, 42]);
}

#[test]
fn batch_on_empty_input() {
    let values: [i8; 0] = [];
    let mut out = [5u8; 2];
    i8::zigzag_encode_slice(&values, &mut out);
    assert_eq!(out, [5, 5]);
    let mut none: [u8; 0] = [];
    assert_eq!(i8::try_zigzag_encode_slice(&values, &mut none), Ok(()));
}

#[test]
fn capacity_failure_reports_both_counts() {
    let values = [1i32, 2, 3, 4, 5, 6, 7];
    let mut out = [0u32; 3];
    let result = i32::try_zigzag_encode_slice(&values, &mut out);
    assert_eq!(result, Err(ZigZagError::BufferTooSmall { needed: 7, actual: 3 }));
    assert_eq!(out, [0, 0, 0]);

    let encoded = [0u128; 4];
    let mut small = [8i128; 1];
    let result = i128::try_zigzag_decode_slice(&encoded, &mut small);
    assert_eq!(result, Err(ZigZagError::BufferTooSmall { needed: 4, actual: 1 }));
    assert_eq!(small, [8]);
    let e = result.unwrap_err();
    assert_eq!(e.needed(), 4);
    assert_eq!(e.actual(), 1);
}

#[test]
fn lazy_matches_eager() {
    let values = [-5i32, 17, i32::MIN, 0, 3];
    let lazy: Vec<u32> = zigzag_encode_iter::<i32>(&values).collect();
    let mut eager = [0u32; 5];
    i32::zigzag_encode_slice(&values, &mut eager);
    assert_eq!(lazy, eager.to_vec());
    assert_eq!(lazy, vec![9, 34, u32::MAX, 0, 6]);

    let lazy_back: Vec<i32> = zigzag_decode_iter::<i32>(&eager).collect();
    let mut eager_back = [0i32; 5];
    i32::zigzag_decode_slice(&eager, &mut eager_back);
    assert_eq!(lazy_back, eager_back.to_vec());
    assert_eq!(lazy_back, values.to_vec());
}

#[test]
fn lazy_produces_on_demand_in_order() {
    let values = [2i16, -2];
    let mut it = zigzag_encode_iter::<i16>(&values);
    assert_eq!(it.next(), Some(4));
    assert_eq!(it.next(), Some(3));
    assert_eq!(it.next(), None);
    assert_eq!(it.next(), None);

    let encoded = [5u8];
    let mut back = zigzag_decode_iter::<i8>(&encoded);
    assert_eq!(back.next(), Some(-3));
    assert_eq!(back.next(), None);

    let empty: [i64; 0] = [];
    assert!(zigzag_encode_iter::<i64>(&empty).collect().is_empty());
}
