use image_uri::data_uri::data_uri_from_bytes;
use image_uri::data_uri::load_image_as_base64;

#[test]
fn known_bytes_give_exact_uri() {
    let r = load_image_as_base64(Ok(vec![77u8, 97, 110]));
    assert_eq!(r, Ok("data:image/jpeg;base64,TWFu".to_string()));
}

#[test]
fn one_trailing_byte_is_padded_twice() {
    let r = load_image_as_base64(Ok(vec![77u8]));
    assert_eq!(r, Ok("data:image/jpeg;base64,TQ==".to_string()));
}

#[test]
fn two_trailing_bytes_are_padded_once() {
    let r = load_image_as_base64(Ok(vec![77u8, 97]));
    assert_eq!(r, Ok("data:image/jpeg;base64,TWE=".to_string()));
}

#[test]
fn empty_payload_gives_bare_prefix() {
    let r = load_image_as_base64(Ok(Vec::new()));
    assert_eq!(r, Ok("data:image/jpeg;base64,".to_string()));
}

#[test]
fn success_starts_with_the_jpeg_scheme() {
    let uri = data_uri_from_bytes(&vec![0xFFu8, 0xD8, 0xFF, 0xE0]);
    assert!(uri.starts_with("data:image/jpeg;base64,"));
}

#[test]
fn read_error_passes_through_unchanged() {
    let msg = "No such file or directory (os error 2)".to_string();
    let r = load_image_as_base64(Err(msg.clone()));
    assert_eq!(r, Err(msg));
    assert!(!r.unwrap_err().is_empty());
}

#[test]
fn permission_error_passes_through_unchanged() {
    let msg = "Permission denied (os error 13)".to_string();
    let r = load_image_as_base64(Err(msg.clone()));
    assert_eq!(r, Err(msg));
}

#[test]
fn round_trip_recovers_every_byte_value() {
    let bytes: Vec<u8> = (0u8..=255).collect();
    let uri = data_uri_from_bytes(&bytes);
    let payload = &uri["data:image/jpeg;base64,".len()..];
    let decoded =
        base64::Engine::decode(&base64::engine::general_purpose::STANDARD, payload).unwrap();
    assert_eq!(decoded, bytes);
}

#[test]
fn repeated_loads_agree() {
    let bytes = vec![1u8, 2, 3, 4, 5];
    let first = load_image_as_base64(Ok(bytes.clone()));
    let second = load_image_as_base64(Ok(bytes));
    assert_eq!(first, second);
}
