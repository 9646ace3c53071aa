use bt_core::bounded::{Lines, Text};
use bt_core::text::{
    bytes_eq, push_bytes, push_decimal, read_i32, read_u32, read_unsigned,
    starts_with, tag_at,
};

#[test]
fn bytes_eq_compares_content_and_length() {
    assert!(bytes_eq(b"OK", b"OK"));
    assert!(!bytes_eq(b"OK", b"OK "));
    assert!(!bytes_eq(b"OK", b"KO"));
    assert!(bytes_eq(b"", b""));
}

#[test]
fn starts_with_and_tag_at() {
    assert!(starts_with(b"+HTTPACTION: 0,200,93", b"+HTTPACTION: "));
    assert!(!starts_with(b"+HTTP", b"+HTTPACTION: "));
    assert!(starts_with(b"abc", b""));
    assert!(tag_at(b"12,34", 2, b","));
    assert!(!tag_at(b"12,34", 3, b","));
    assert!(!tag_at(b"12,34", 5, b","));
    assert!(tag_at(b"12,34", 5, b""));
    assert!(!tag_at(b"12,34", 6, b""));
}

#[test]
fn read_unsigned_takes_the_whole_run_of_digits() {
    assert_eq!(read_u32(b"123,4", 0), Some((123, 3)));
    assert_eq!(read_u32(b"123,4", 4), Some((4, 5)));
    assert_eq!(read_u32(b"007", 0), Some((7, 3)));
    assert_eq!(read_u32(b",1", 0), None);
    assert_eq!(read_u32(b"", 0), None);
    assert_eq!(read_u32(b"1", 1), None);
    assert_eq!(read_u32(b"1", 7), None);
}

#[test]
fn read_unsigned_rejects_numbers_above_the_limit() {
    assert_eq!(read_u32(b"4294967295", 0), Some((4294967295, 10)));
    assert_eq!(read_u32(b"4294967296", 0), None);
    assert_eq!(read_u32(b"99999999999999999999999", 0), None);
    assert_eq!(read_unsigned(b"31", 0, 31), Some((31, 2)));
    assert_eq!(read_unsigned(b"32", 0, 31), None);
}

#[test]
fn read_i32_takes_an_optional_sign() {
    assert_eq!(read_i32(b"-113", 0), Some((-113, 4)));
    assert_eq!(read_i32(b"+25/", 0), Some((25, 3)));
    assert_eq!(read_i32(b"25/", 0), Some((25, 2)));
    assert_eq!(read_i32(b"-", 0), None);
    assert_eq!(read_i32(b"+", 0), None);
    assert_eq!(read_i32(b"-2147483648", 0), Some((-2147483648, 11)));
    assert_eq!(read_i32(b"-2147483649", 0), None);
    assert_eq!(read_i32(b"2147483647", 0), Some((2147483647, 10)));
    assert_eq!(read_i32(b"2147483648", 0), None);
}

#[test]
fn push_decimal_writes_the_shortest_form() {
    let mut out = Vec::new();
    push_decimal(&mut out, 0);
    push_bytes(&mut out, b",");
    push_decimal(&mut out, 93);
    push_bytes(&mut out, b",");
    push_decimal(&mut out, 18446744073709551615);
    assert_eq!(out, b"0,93,18446744073709551615".to_vec());
}

#[test]
fn text_holds_up_to_256_bytes() {
    let exactly = vec![b'a'; 256];
    let text = Text::from_bytes(&exactly).unwrap();
    assert_eq!(text.len(), 256);
    assert_eq!(text.bytes(), &exactly[..]);
    assert!(Text::from_bytes(&vec![b'a'; 257]).is_none());
    let empty = Text::new();
    assert!(empty.is_empty());
    assert_eq!(empty.len(), 0);
    assert_eq!(Text::from_bytes(b"AT").unwrap().to_vec(), b"AT".to_vec());
    let twin = text.duplicate();
    assert_eq!(twin.bytes(), text.bytes());
}

#[test]
fn lines_hold_up_to_four_lines_in_order() {
    let mut lines = Lines::new();
    assert_eq!(lines.len(), 0);
    assert!(lines.get(0).is_none());
    assert!(lines.push(Text::from_bytes(b"one").unwrap()));
    assert!(lines.push(Text::from_bytes(b"two").unwrap()));
    assert!(lines.push(Text::from_bytes(b"three").unwrap()));
    assert!(lines.push(Text::from_bytes(b"four").unwrap()));
    assert!(!lines.push(Text::from_bytes(b"five").unwrap()));
    assert_eq!(lines.len(), 4);
    assert_eq!(lines.get(0), Some(&b"one"[..]));
    assert_eq!(lines.get(3), Some(&b"four"[..]));
    assert!(lines.get(4).is_none());
}
