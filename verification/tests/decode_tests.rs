use canparse::decode::{parse_array, parse_message};

#[test]
fn extracts_exact_bit_spans_little_endian() {
    let msg: [u8; 8] = [0x11, 0x22, 0x33, 0x44, 0x55, 0x66, 0x77, 0x88];
    // The whole little-endian word is 0x8877665544332211.
    assert_eq!(parse_array(8, 0, true, &msg), 0x11);
    assert_eq!(parse_array(16, 24, true, &msg), 0x5544);
    assert_eq!(parse_array(4, 4, true, &msg), 0x1);
    assert_eq!(parse_array(63, 0, true, &msg), 0x8877665544332211 & 0x7FFFFFFFFFFFFFFF);
}

#[test]
fn extracts_exact_bit_spans_big_endian() {
    let msg: [u8; 8] = [0x11, 0x22, 0x33, 0x44, 0x55, 0x66, 0x77, 0x88];
    // The whole big-endian word is 0x1122334455667788.
    assert_eq!(parse_array(8, 0, false, &msg), 0x88);
    assert_eq!(parse_array(16, 24, false, &msg), 0x4455);
    assert_eq!(parse_array(32, 32, false, &msg), 0x11223344);
}

#[test]
fn variable_path_skips_whole_bytes_first() {
    let msg: [u8; 8] = [0x11, 0x22, 0x33, 0x44, 0x55, 0x66, 0x77, 0x88];
    // start bit 24: skip three bytes, then read the window from 0x44 on.
    assert_eq!(parse_message(16, 24, true, &msg[..]), Some(0x5544));
    // A start bit inside a byte shifts within the window.
    assert_eq!(parse_message(8, 28, true, &msg[..]), Some(0x54));
}

#[test]
fn decode_is_deterministic_across_calls() {
    let msg: [u8; 8] = [0x11, 0x22, 0x33, 0x44, 0x55, 0x66, 0x77, 0x88];
    let first = parse_message(16, 24, true, &msg[..]);
    let second = parse_message(16, 24, true, &msg[..]);
    assert_eq!(first, second);
    assert_eq!(parse_array(16, 24, true, &msg), parse_array(16, 24, true, &msg));
}

#[test]
fn short_buffer_decodes_as_if_zero_padded() {
    let short: [u8; 3] = [0x11, 0x22, 0x33];
    let padded: [u8; 8] = [0x11, 0x22, 0x33, 0, 0, 0, 0, 0];
    for start_bit in [0usize, 4, 8, 16, 24, 32, 40] {
        for bit_len in [1usize, 4, 8, 16, 32] {
            assert_eq!(
                parse_message(bit_len, start_bit, true, &short[..]),
                parse_message(bit_len, start_bit, true, &padded[..]),
            );
            assert_eq!(
                parse_message(bit_len, start_bit, false, &short[..]),
                parse_message(bit_len, start_bit, false, &padded[..]),
            );
        }
    }
    assert_eq!(parse_message(16, 8, true, &short[..]), Some(0x3322));
}

#[test]
fn out_of_range_geometry_yields_no_value() {
    let msg: [u8; 8] = [0x11, 0x22, 0x33, 0x44, 0x55, 0x66, 0x77, 0x88];
    assert_eq!(parse_message(64, 0, true, &msg[..]), None);
    assert_eq!(parse_message(64, 24, false, &msg[..]), None);
    assert_eq!(parse_message(65, 0, true, &msg[..]), None);
    // A start bit past the buffer reads the zero extension, not an error.
    assert_eq!(parse_message(8, 1000, true, &msg[..]), Some(0));
}

#[test]
fn zero_bit_length_reads_zero() {
    let msg: [u8; 8] = [0xFF; 8];
    assert_eq!(parse_array(0, 0, true, &msg), 0);
    assert_eq!(parse_message(0, 0, false, &msg[..]), Some(0));
}
