use image_service::decoder::{decode_data_url, extract_base64_payload, ImageData};
use image_service::errors::ProcessError;
use image_service::image::{validate_image_dims, DecodedImage};

fn bytes(s: &str) -> Vec<u8> {
    s.as_bytes().to_vec()
}

#[test]
fn payload_is_suffix_after_first_comma() {
    let r = extract_base64_payload(&bytes("data:image/png;base64,AAA"));
    assert_eq!(r, Some(bytes("AAA")));
}

#[test]
fn later_commas_stay_in_payload() {
    let r = extract_base64_payload(&bytes("a,b,c"));
    assert_eq!(r, Some(bytes("b,c")));
}

#[test]
fn empty_payload_after_comma() {
    let r = extract_base64_payload(&bytes("x,"));
    assert_eq!(r, Some(Vec::new()));
}

#[test]
fn no_comma_means_no_payload() {
    let r = extract_base64_payload(&bytes("no comma here"));
    assert_eq!(r, None);
}

#[test]
fn no_comma_is_malformed_input() {
    let r = decode_data_url(&bytes("data:image/png;base64"));
    assert_eq!(r, Err(ProcessError::MalformedInput));
}

#[test]
fn empty_request_is_malformed_input() {
    let r = decode_data_url(&Vec::new());
    assert_eq!(r, Err(ProcessError::MalformedInput));
}

#[test]
fn valid_base64_decodes_to_its_bytes() {
    // "AQID" is the standard base64 encoding of [1, 2, 3].
    let r = decode_data_url(&bytes("data:;base64,AQID"));
    assert_eq!(r, Ok(vec![1u8, 2u8, 3u8]));
}

#[test]
fn library_decode_agrees_with_base64_crate() {
    let payload = "SGVsbG8sIHdvcmxkIQ==";
    let url = format!("data:text/plain;base64,{}", payload);
    let r = decode_data_url(&url.as_bytes().to_vec());
    assert_eq!(r, Ok(base64::decode(payload).unwrap()));
}

#[test]
fn corrupted_base64_is_invalid_encoding() {
    let r = decode_data_url(&bytes("data:image/png;base64,!!!not-base64!!!"));
    assert_eq!(r, Err(ProcessError::InvalidEncoding));
}

#[test]
fn truncated_base64_is_invalid_encoding() {
    // A lone symbol cannot carry a whole byte.
    let r = decode_data_url(&bytes("x,A"));
    assert_eq!(r, Err(ProcessError::InvalidEncoding));
}

#[test]
fn known_png_payload_decodes_to_png_bytes() {
    // A 1x1 pixel PNG, base64-encoded.
    let png_b64 = "iVBORw0KGgoAAAANSUhEUgAAAAEAAAABCAYAAAAfFcSJAAAADUlEQVR42mNk+M9QDwADhgGAWjR9awAAAABJRU5ErkJggg==";
    let url = format!("data:image/png;base64,{}", png_b64);
    let r = decode_data_url(&url.as_bytes().to_vec()).unwrap();
    // The PNG signature: the decoder handed out the compressed image bytes.
    assert_eq!(&r[..8], &[0x89, 0x50, 0x4e, 0x47, 0x0d, 0x0a, 0x1a, 0x0a]);
    assert_eq!(r, base64::decode(png_b64).unwrap());
}

#[test]
fn request_bytes_are_the_utf8_of_the_data_url() {
    let req = ImageData { data_url: String::from("data:,abc") };
    assert_eq!(req.request_bytes(), bytes("data:,abc"));
}

#[test]
fn nonempty_dims_are_a_valid_image() {
    let r = validate_image_dims(1, 1);
    assert_eq!(r, Ok(DecodedImage { width: 1, height: 1 }));
}

#[test]
fn empty_dims_are_an_image_decode_error() {
    assert_eq!(validate_image_dims(0, 0), Err(ProcessError::ImageDecodeError));
    assert_eq!(validate_image_dims(0, 5), Err(ProcessError::ImageDecodeError));
    assert_eq!(validate_image_dims(7, -1), Err(ProcessError::ImageDecodeError));
}
