use krec::varint::{read_varint, write_varint};
use krec::fixed::{
    put_fixed32_field, put_fixed64_field, put_opt_fixed64_field, take_fixed32_field,
    take_fixed64_field, take_opt_fixed32_field, take_opt_fixed64_field,
};
use krec::text::{put_text_field, take_opt_text_field, take_text_field};
use krec::wire::{
    put_flag_field, put_len_field, put_uint_field, take_flag_field, take_len_field,
    take_u32_field, take_uint_field,
};

fn varint(v: u64) -> Vec<u8> {
    let mut buf = Vec::new();
    write_varint(&mut buf, v);
    buf
}

#[test]
fn varint_small_values_take_one_byte() {
    assert_eq!(varint(0), vec![0x00]);
    assert_eq!(varint(1), vec![0x01]);
    assert_eq!(varint(127), vec![0x7F]);
}

#[test]
fn varint_larger_values_are_grouped_by_seven_bits() {
    assert_eq!(varint(128), vec![0x80, 0x01]);
    assert_eq!(varint(300), vec![0xAC, 0x02]);
    assert_eq!(varint(16384), vec![0x80, 0x80, 0x01]);
}

#[test]
fn varint_of_the_largest_value_takes_ten_bytes() {
    assert_eq!(
        varint(u64::MAX),
        vec![0xFF, 0xFF, 0xFF, 0xFF, 0xFF, 0xFF, 0xFF, 0xFF, 0xFF, 0x01]
    );
}

#[test]
fn varint_is_appended_behind_what_is_there() {
    let mut buf = vec![0xAA];
    write_varint(&mut buf, 300);
    assert_eq!(buf, vec![0xAA, 0xAC, 0x02]);
}

#[test]
fn varint_is_read_at_a_position() {
    let buf = [0xAA, 0xAC, 0x02, 0x05];
    assert_eq!(read_varint(&buf, 1), Some((300, 3)));
    assert_eq!(read_varint(&buf, 3), Some((5, 4)));
}

#[test]
fn varint_round_trips() {
    for v in [0u64, 1, 127, 128, 255, 16383, 16384, 1 << 32, (1 << 63) - 1, 1 << 63, u64::MAX] {
        let bytes = varint(v);
        assert_eq!(read_varint(&bytes, 0), Some((v, bytes.len())));
    }
}

#[test]
fn varint_cut_short_is_refused() {
    assert_eq!(read_varint(&[], 0), None);
    assert_eq!(read_varint(&[0x80], 0), None);
    assert_eq!(read_varint(&[0xAC, 0x02], 2), None);
}

#[test]
fn varint_with_padding_groups_is_refused() {
    assert_eq!(read_varint(&[0x80, 0x00], 0), None);
    assert_eq!(read_varint(&[0xAC, 0x82, 0x00], 0), None);
}

#[test]
fn varint_beyond_64_bits_is_refused() {
    let too_big = [0xFF, 0xFF, 0xFF, 0xFF, 0xFF, 0xFF, 0xFF, 0xFF, 0xFF, 0x02];
    assert_eq!(read_varint(&too_big, 0), None);
    let too_long = [0x80, 0x80, 0x80, 0x80, 0x80, 0x80, 0x80, 0x80, 0x80, 0x80, 0x01];
    assert_eq!(read_varint(&too_long, 0), None);
}

#[test]
fn uint_field_is_key_then_varint() {
    let mut buf = Vec::new();
    put_uint_field(&mut buf, 0x28, 300);
    assert_eq!(buf, vec![0x28, 0xAC, 0x02]);
    assert_eq!(take_uint_field(&buf, 0, 0x28), Some((300, 3)));
    assert_eq!(take_uint_field(&buf, 0, 0x30), None);
    assert_eq!(take_uint_field(&buf, 3, 0x28), None);
}

#[test]
fn u32_field_refuses_wider_values() {
    let mut buf = Vec::new();
    put_uint_field(&mut buf, 0x08, u32::MAX as u64);
    assert_eq!(take_u32_field(&buf, 0, 0x08), Some((u32::MAX, buf.len())));
    let mut wide = Vec::new();
    put_uint_field(&mut wide, 0x08, u32::MAX as u64 + 1);
    assert_eq!(take_u32_field(&wide, 0, 0x08), None);
}

#[test]
fn flag_field_is_zero_or_one() {
    let mut buf = Vec::new();
    put_flag_field(&mut buf, 0x10, true);
    put_flag_field(&mut buf, 0x10, false);
    assert_eq!(buf, vec![0x10, 0x01, 0x10, 0x00]);
    assert_eq!(take_flag_field(&buf, 0, 0x10), Some((true, 2)));
    assert_eq!(take_flag_field(&buf, 2, 0x10), Some((false, 4)));
    assert_eq!(take_flag_field(&[0x10, 0x02], 0, 0x10), None);
}

#[test]
fn fixed64_field_is_little_endian() {
    let mut buf = Vec::new();
    put_fixed64_field(&mut buf, 0x09, 0x0102_0304_0506_0708);
    assert_eq!(buf, vec![0x09, 0x08, 0x07, 0x06, 0x05, 0x04, 0x03, 0x02, 0x01]);
    assert_eq!(take_fixed64_field(&buf, 0, 0x09), Some((0x0102_0304_0506_0708, 9)));
}

#[test]
fn fixed64_field_of_a_real_number() {
    let mut buf = Vec::new();
    put_fixed64_field(&mut buf, 0x19, 0.5f64.to_bits());
    assert_eq!(buf, vec![0x19, 0, 0, 0, 0, 0, 0, 0xE0, 0x3F]);
    let (bits, end) = take_fixed64_field(&buf, 0, 0x19).unwrap();
    assert_eq!(f64::from_bits(bits), 0.5);
    assert_eq!(end, 9);
}

#[test]
fn fixed64_field_cut_short_is_refused() {
    let buf = [0x09, 1, 2, 3, 4, 5, 6, 7];
    assert_eq!(take_fixed64_field(&buf, 0, 0x09), None);
    assert_eq!(take_fixed64_field(&[], 0, 0x09), None);
}

#[test]
fn fixed32_field_is_little_endian() {
    let mut buf = Vec::new();
    put_fixed32_field(&mut buf, 0x15, 0x0102_0304);
    assert_eq!(buf, vec![0x15, 0x04, 0x03, 0x02, 0x01]);
    assert_eq!(take_fixed32_field(&buf, 0, 0x15), Some((0x0102_0304, 5)));
    assert_eq!(take_fixed32_field(&buf[..4], 0, 0x15), None);
}

#[test]
fn fixed32_field_of_a_real_number() {
    let mut buf = Vec::new();
    put_fixed32_field(&mut buf, 0x15, 1.5f32.to_bits());
    assert_eq!(buf, vec![0x15, 0x00, 0x00, 0xC0, 0x3F]);
}

#[test]
fn optional_fixed_fields_take_no_bytes_when_absent() {
    let mut buf = Vec::new();
    put_opt_fixed64_field(&mut buf, 0x19, None);
    assert_eq!(buf, Vec::<u8>::new());
    put_opt_fixed64_field(&mut buf, 0x19, Some(7));
    assert_eq!(buf, vec![0x19, 7, 0, 0, 0, 0, 0, 0, 0]);
    assert_eq!(take_opt_fixed64_field(&buf, 0, 0x19), Some((Some(7), 9)));
    assert_eq!(take_opt_fixed64_field(&buf, 0, 0x21), Some((None, 0)));
    assert_eq!(take_opt_fixed64_field(&buf, 9, 0x19), Some((None, 9)));
    assert_eq!(take_opt_fixed64_field(&buf[..5], 0, 0x19), None);
    assert_eq!(take_opt_fixed32_field(&[0x3D, 1, 0, 0, 0], 0, 0x3D), Some((Some(1), 5)));
}

#[test]
fn len_field_is_key_length_payload() {
    let mut buf = Vec::new();
    put_len_field(&mut buf, 0x0A, &[9, 8, 7]);
    assert_eq!(buf, vec![0x0A, 0x03, 9, 8, 7]);
    assert_eq!(take_len_field(&buf, 0, 0x0A), Some((2, 5)));
    assert_eq!(take_len_field(&buf[..4], 0, 0x0A), None);
}

#[test]
fn len_field_with_a_long_payload() {
    let payload = vec![0x55u8; 200];
    let mut buf = Vec::new();
    put_len_field(&mut buf, 0x0A, &payload);
    assert_eq!(&buf[..3], &[0x0A, 0xC8, 0x01]);
    assert_eq!(buf.len(), 203);
    assert_eq!(take_len_field(&buf, 0, 0x0A), Some((3, 203)));
}

#[test]
fn text_field_holds_utf8() {
    let mut buf = Vec::new();
    put_text_field(&mut buf, 0x12, "walk");
    assert_eq!(buf, vec![0x12, 0x04, b'w', b'a', b'l', b'k']);
    assert_eq!(take_text_field(&buf, 0, 0x12), Some(("walk".to_string(), 6)));
}

#[test]
fn text_field_holds_text_beyond_ascii() {
    let mut buf = Vec::new();
    put_text_field(&mut buf, 0x12, "héllo ☃");
    assert_eq!(buf[1] as usize, "héllo ☃".len());
    assert_eq!(take_text_field(&buf, 0, 0x12), Some(("héllo ☃".to_string(), buf.len())));
}

#[test]
fn text_field_refuses_bytes_that_are_not_utf8() {
    assert_eq!(take_text_field(&[0x12, 0x02, 0xFF, 0xFE], 0, 0x12), None);
    assert_eq!(take_text_field(&[0x12, 0x01, 0xC3], 0, 0x12), None);
}

#[test]
fn empty_text_field_is_read_back_empty() {
    let mut buf = Vec::new();
    put_text_field(&mut buf, 0x0A, "");
    assert_eq!(buf, vec![0x0A, 0x00]);
    assert_eq!(take_text_field(&buf, 0, 0x0A), Some((String::new(), 2)));
}

#[test]
fn optional_text_field_is_absent_where_the_key_is_not() {
    assert_eq!(take_opt_text_field(&[0x32, 0x01, b'a'], 0, 0x32), Some((Some("a".to_string()), 3)));
    assert_eq!(take_opt_text_field(&[0x28, 0x01], 0, 0x32), Some((None, 0)));
    assert_eq!(take_opt_text_field(&[], 0, 0x32), Some((None, 0)));
    assert_eq!(take_opt_text_field(&[0x32, 0x05, b'a'], 0, 0x32), None);
}

#[test]
fn nothing_is_read_behind_the_end() {
    assert_eq!(read_varint(&[0x01], 1), None);
    assert_eq!(read_varint(&[0x01], 5), None);
    assert_eq!(read_varint(&[0x01], usize::MAX), None);
    assert_eq!(take_uint_field(&[0x28, 0x01], 7, 0x28), None);
    assert_eq!(take_fixed64_field(&[0x09; 9], usize::MAX, 0x09), None);
    assert_eq!(take_len_field(&[0x0A, 0x00], 2, 0x0A), None);
    assert_eq!(take_opt_fixed64_field(&[0x19], 3, 0x19), Some((None, 3)));
}
