use pdb_strings::image::{bytes_until_null, decode_text};

#[test]
fn run_stops_before_the_terminator() {
    let data = b"xxBETA\0tail".to_vec();
    assert_eq!(bytes_until_null(&data, 2), b"BETA".to_vec());
}

#[test]
fn run_reaches_the_end_without_a_terminator() {
    let data = b"xxBETA".to_vec();
    assert_eq!(bytes_until_null(&data, 2), b"BETA".to_vec());
}

#[test]
fn run_at_a_terminator_is_empty() {
    let data = b"ab\0cd".to_vec();
    assert_eq!(bytes_until_null(&data, 2), Vec::<u8>::new());
    assert_eq!(bytes_until_null(&data, 3), b"cd".to_vec());
}

#[test]
fn offset_past_the_end_gives_an_empty_run() {
    let data = b"abc".to_vec();
    assert_eq!(bytes_until_null(&data, 3), Vec::<u8>::new());
    assert_eq!(bytes_until_null(&data, 4), Vec::<u8>::new());
    assert_eq!(bytes_until_null(&data, u64::MAX), Vec::<u8>::new());
    assert_eq!(bytes_until_null(&[], 0), Vec::<u8>::new());
}

#[test]
fn a_chunk_that_ends_in_its_terminator_loses_it() {
    let chunk = b"1.2.3\0".to_vec();
    assert_eq!(bytes_until_null(&chunk, 0), b"1.2.3".to_vec());
}

#[test]
fn text_is_decoded_as_utf8() {
    assert_eq!(decode_text(b"1.2.3"), Some("1.2.3".to_string()));
    assert_eq!(decode_text(b""), Some(String::new()));
    let text = "gr\u{fc}n \u{2713}";
    assert_eq!(decode_text(text.as_bytes()), Some(text.to_string()));
}

#[test]
fn bytes_that_are_not_utf8_are_refused() {
    assert_eq!(decode_text(&[0xff, 0xfe]), None);
    assert_eq!(decode_text(&[b'a', 0x80]), None);
    assert_eq!(decode_text(&[0xc0, 0x80]), None);
    assert_eq!(decode_text(&[0xed, 0xa0, 0x80]), None);
    assert_eq!(decode_text(&[0xe2, 0x9c]), None);
}

#[test]
fn encoded_text_is_extracted_again() {
    let text = "Version 4.2 \u{2014} \u{3b2}";
    let mut image = vec![0xaau8; 16];
    image.extend_from_slice(text.as_bytes());
    image.push(0);
    image.extend_from_slice(b"more");
    let run = bytes_until_null(&image, 16);
    assert_eq!(run, text.as_bytes().to_vec());
    assert_eq!(decode_text(&run), Some(text.to_string()));
}
