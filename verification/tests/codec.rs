use price_feed::codec::{decode_price, encode_price, encode_result, PRICE_WIDTH};

#[test]
fn price_is_encoded_least_significant_byte_first() {
    assert_eq!(encode_price(100), vec![100, 0, 0, 0, 0, 0, 0, 0, 0, 0, 0, 0, 0, 0, 0, 0]);
    assert_eq!(encode_price(0x0102), vec![2, 1, 0, 0, 0, 0, 0, 0, 0, 0, 0, 0, 0, 0, 0, 0]);
    assert_eq!(encode_price(0), vec![0; 16]);
    assert_eq!(encode_price(u128::MAX), vec![255; 16]);
}

#[test]
fn result_is_encoded_most_significant_byte_first() {
    assert_eq!(encode_result(150), vec![0, 0, 0, 0, 0, 0, 0, 0, 0, 0, 0, 0, 0, 0, 0, 150]);
    assert_eq!(encode_result(0x0102), vec![0, 0, 0, 0, 0, 0, 0, 0, 0, 0, 0, 0, 0, 0, 1, 2]);
    assert_eq!(encode_result(0), vec![0; 16]);
    assert_eq!(encode_result(u128::MAX), vec![255; 16]);
}

#[test]
fn encodings_agree_with_the_standard_library() {
    let values: [u128; 6] = [
        0,
        1,
        255,
        256,
        67_123_450_000,
        0x0123_4567_89ab_cdef_fedc_ba98_7654_3210,
    ];
    for value in values {
        assert_eq!(encode_price(value), value.to_le_bytes().to_vec());
        assert_eq!(encode_result(value), value.to_be_bytes().to_vec());
    }
}

#[test]
fn encodings_have_sixteen_bytes() {
    assert_eq!(PRICE_WIDTH, 16);
    assert_eq!(encode_price(7).len(), 16);
    assert_eq!(encode_result(7).len(), 16);
}

#[test]
fn sixteen_bytes_decode_to_a_price() {
    let mut body = vec![0u8; 16];
    body[0] = 200;
    assert_eq!(decode_price(&body), Some(200));
    body[1] = 1;
    assert_eq!(decode_price(&body), Some(456));
    body[15] = 0x80;
    assert_eq!(decode_price(&body), Some((1u128 << 127) + 456));
    assert_eq!(decode_price(&[255u8; 16]), Some(u128::MAX));
}

#[test]
fn other_lengths_decode_to_nothing() {
    assert_eq!(decode_price(&[]), None);
    assert_eq!(decode_price(&[1, 2, 3]), None);
    assert_eq!(decode_price(&[0u8; 15]), None);
    assert_eq!(decode_price(&[0u8; 17]), None);
    assert_eq!(decode_price(&[0u8; 32]), None);
}

#[test]
fn scaled_price_survives_the_round_trip() {
    let scaled: [u128; 5] = [0, 1, 1_000_000, 67_123_450_000, u128::MAX];
    for price in scaled {
        assert_eq!(decode_price(&encode_price(price)), Some(price));
    }
}

#[test]
fn result_is_not_readable_as_a_reveal_of_the_same_value() {
    assert_eq!(decode_price(&encode_result(1)), Some(1u128 << 120));
}
