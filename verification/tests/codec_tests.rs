use open_city_2k::sc2_iff_parse::{compress_rle, uncompress_rle};
use open_city_2k::sc_util;

#[test]
fn parse_uint32_reads_big_endian() {
    assert_eq!(sc_util::parse_uint32(&[0x01, 0x02, 0x03, 0x04]), 0x01020304);
    assert_eq!(sc_util::parse_uint32(&[0xFF, 0xFF, 0xFF, 0xFF]), 0xFFFF_FFFF);
    assert_eq!(sc_util::parse_uint32(&[0, 0, 0, 0]), 0);
}

#[test]
fn parse_uint16_reads_big_endian() {
    assert_eq!(sc_util::parse_uint16(&[0x12, 0x34]), 0x1234);
    assert_eq!(sc_util::parse_uint16(&[0x00, 0x00]), 0);
    assert_eq!(sc_util::parse_uint16(&[0xFF, 0xFE]), 0xFFFE);
}

#[test]
fn parse_uint8_reads_byte() {
    assert_eq!(sc_util::parse_uint8(&[0xAB]), 0xAB);
}

#[test]
fn parse_int32_reads_signed() {
    assert_eq!(sc_util::parse_int32(&[0x00, 0x00, 0x00, 0x2A]), 42);
    assert_eq!(sc_util::parse_int32(&[0xFF, 0xFF, 0xFF, 0xFF]), -1);
    assert_eq!(sc_util::parse_int32(&[0x80, 0x00, 0x00, 0x00]), i32::MIN);
    assert_eq!(sc_util::parse_int32(&[0x7F, 0xFF, 0xFF, 0xFF]), i32::MAX);
}

#[test]
fn int_to_bitstring_pads_to_length() {
    assert_eq!(int_str(5, 8), "00000101");
    assert_eq!(int_str(0, 4), "0000");
    assert_eq!(int_str(0, 0), "");
    assert_eq!(int_str(0xFFFF, 16), "1111111111111111");
    assert_eq!(int_str(6, 0), "110");
}

fn int_str(v: u32, pad: usize) -> String {
    sc_util::int_to_bitstring(v, pad)
}

#[test]
fn parse_bitstring_reads_msb_first() {
    assert_eq!(sc_util::parse_bitstring("1000"), 8);
    assert_eq!(sc_util::parse_bitstring("0001"), 1);
    assert_eq!(sc_util::parse_bitstring(""), 0);
    assert_eq!(sc_util::parse_bitstring("00000101"), 5);
    assert_eq!(sc_util::parse_bitstring("11111111111111111111111111111111"), u32::MAX);
}

#[test]
fn bitstring_round_trip() {
    for v in [0u32, 1, 5, 127, 128, 0xFFFF, 0xDEADBEEF] {
        let s = sc_util::int_to_bitstring(v, 32);
        assert_eq!(sc_util::parse_bitstring(&s), v);
    }
}

#[test]
fn bytes_to_int32s_splits_words() {
    let bytes = [0x00, 0x00, 0x00, 0x01, 0xFF, 0xFF, 0xFF, 0xFE];
    assert_eq!(sc_util::bytes_to_int32s(&bytes), vec![1, -2]);
    assert_eq!(sc_util::bytes_to_int32s(&[]), Vec::<i32>::new());
}

#[test]
fn bytes_to_uint_handles_each_width() {
    assert_eq!(sc_util::bytes_to_uint(&[0x7F]), 0x7F);
    assert_eq!(sc_util::bytes_to_uint(&[0x12, 0x34]), 0x1234);
    assert_eq!(sc_util::bytes_to_uint(&[0x01, 0x02, 0x03, 0x04]), 0x01020304);
}

#[test]
fn rle_literal_control_copies_bytes_verbatim() {
    // control byte 0x05 followed by 5 bytes gives those 5 bytes verbatim
    let encoded = [0x05, 1, 2, 3, 4, 5];
    assert_eq!(uncompress_rle(&encoded), vec![1, 2, 3, 4, 5]);
}

#[test]
fn rle_repeat_control_repeats_next_byte() {
    // control byte 0x83 followed by 0x7A gives four copies of 0x7A
    let encoded = [0x83, 0x7A];
    assert_eq!(uncompress_rle(&encoded), vec![0x7A, 0x7A, 0x7A, 0x7A]);
}

#[test]
fn rle_zero_control_is_a_no_op() {
    let encoded = [0x00, 0x00, 0x02, 9, 8];
    assert_eq!(uncompress_rle(&encoded), vec![9, 8]);
}

#[test]
fn rle_truncated_literal_copies_what_is_there() {
    let encoded = [0x05, 1, 2];
    assert_eq!(uncompress_rle(&encoded), vec![1, 2]);
}

#[test]
fn rle_repeat_without_payload_gives_nothing() {
    let encoded = [0x90];
    assert_eq!(uncompress_rle(&encoded), Vec::<u8>::new());
}

#[test]
fn rle_round_trip_arbitrary_inputs() {
    let cases: Vec<Vec<u8>> = vec![
        vec![],
        vec![7],
        vec![1, 2, 3, 4, 5],
        vec![0; 1000],
        vec![0xAB; 129],
        (0..=255u8).collect(),
        vec![1, 1, 2, 2, 2, 3, 0, 0, 0xFF],
    ];
    for case in cases {
        let encoded = compress_rle(&case);
        assert_eq!(uncompress_rle(&encoded), case);
    }
}

#[test]
fn rle_encoder_emits_capped_runs() {
    // a run of 130 equal bytes becomes one full block of 128 and one of 2
    let data = vec![9u8; 130];
    let encoded = compress_rle(&data);
    assert_eq!(encoded, vec![0x7F + 128, 9, 0x7F + 2, 9]);
    // single bytes become one repeat of one
    assert_eq!(compress_rle(&[5]), vec![0x80, 5]);
}
