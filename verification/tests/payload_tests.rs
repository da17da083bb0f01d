use bootstrapper::payload::{read_appended_data, ReadError};

fn image_with(prefix: &[u8], payload: &[u8]) -> Vec<u8> {
    let mut image = Vec::new();
    image.extend_from_slice(prefix);
    image.extend_from_slice(payload);
    image.extend_from_slice(&[0xDE, 0xAD, 0xBE, 0xEF]);
    image.extend_from_slice(&(prefix.len() as u64).to_be_bytes());
    image
}

#[test]
fn recovers_payload_exactly() {
    let image = image_with(b"EXECUTABLE IMAGE BYTES", b"{\"update_url\":\"http://x\"}");
    assert_eq!(read_appended_data(&image).unwrap(), "{\"update_url\":\"http://x\"}");
}

#[test]
fn recovers_non_ascii_text() {
    let text = "h\u{e9}llo w\u{f6}rld";
    let image = image_with(b"PFX", text.as_bytes());
    assert_eq!(read_appended_data(&image).unwrap(), text);
}

#[test]
fn empty_payload_is_empty_text() {
    let image = image_with(b"ONLY PREFIX", b"");
    assert_eq!(read_appended_data(&image).unwrap(), "");
}

#[test]
fn empty_prefix_works() {
    let image = image_with(b"", b"data");
    assert_eq!(read_appended_data(&image).unwrap(), "data");
}

#[test]
fn wrong_magic_is_invalid_magic() {
    let mut image = image_with(b"PFX", b"payload");
    let magic_at = image.len() - 12;
    image[magic_at] = 0xDF;
    assert_eq!(read_appended_data(&image).unwrap_err(), ReadError::InvalidMagic);
}

#[test]
fn wrong_magic_regardless_of_size() {
    // twelve zero bytes: long enough for a footer, wrong sentinel
    let image = vec![0u8; 12];
    assert_eq!(read_appended_data(&image).unwrap_err(), ReadError::InvalidMagic);
    let big = vec![0x41u8; 4096];
    assert_eq!(read_appended_data(&big).unwrap_err(), ReadError::InvalidMagic);
}

#[test]
fn short_image_is_io_error() {
    let image = vec![0xDE, 0xAD, 0xBE, 0xEF];
    assert_eq!(read_appended_data(&image).unwrap_err(), ReadError::IoError);
    assert_eq!(read_appended_data(&Vec::new()).unwrap_err(), ReadError::IoError);
}

#[test]
fn offset_past_footer_is_io_error() {
    let mut image = Vec::new();
    image.extend_from_slice(b"tiny");
    image.extend_from_slice(&[0xDE, 0xAD, 0xBE, 0xEF]);
    image.extend_from_slice(&(u64::MAX).to_be_bytes());
    assert_eq!(read_appended_data(&image).unwrap_err(), ReadError::IoError);
}

#[test]
fn invalid_utf8_is_encoding_error() {
    let image = image_with(b"PFX", &[0xFF, 0xFE, 0x41]);
    assert_eq!(read_appended_data(&image).unwrap_err(), ReadError::EncodingError);
}
