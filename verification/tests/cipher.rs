use base64::Engine;
use bunkr_dl::cipher::{decrypt_decoded, xor_decrypt, xor_with_key};

fn encrypt(link: &str, timestamp: u64) -> String {
    let key = format!("SECRET_KEY_{}", timestamp / 3600);
    let key = key.as_bytes();
    let data: Vec<u8> = link.bytes().enumerate().map(|(i, b)| b ^ key[i % key.len()]).collect();
    base64::engine::general_purpose::STANDARD.encode(data)
}

#[test]
fn decryption_gives_the_link_back() {
    let links = ["", "a", "https://cdn.example/files/video.mp4?token=abc", "https://例え/ファイル"];
    for link in links {
        for timestamp in [0u64, 3599, 3600, 1_731_750_000, u64::MAX] {
            assert_eq!(xor_decrypt(&encrypt(link, timestamp), timestamp), Ok(link.to_string()));
        }
    }
}

#[test]
fn decryption_of_a_known_text() {
    // "hi" under the key "SECRET_KEY_0".
    let data = [b'h' ^ b'S', b'i' ^ b'E'];
    assert_eq!(base64::engine::general_purpose::STANDARD.encode(data), "Oyw=");
    assert_eq!(xor_decrypt("Oyw=", 0), Ok("hi".to_string()));
    assert_eq!(xor_decrypt("Oyw=", 3599), Ok("hi".to_string()));
}

#[test]
fn the_key_changes_with_the_hour() {
    let text = encrypt("https://cdn.example/a", 7200);
    assert_eq!(xor_decrypt(&text, 7201), Ok("https://cdn.example/a".to_string()));
    assert_eq!(xor_decrypt(&text, 10799), Ok("https://cdn.example/a".to_string()));
    assert_ne!(xor_decrypt(&text, 10800), Ok("https://cdn.example/a".to_string()));
}

#[test]
fn bad_base64_is_reported() {
    assert_eq!(
        xor_decrypt("a!==", 0),
        Err("base64 error: Invalid symbol 33, offset 1.".to_string())
    );
    assert_eq!(xor_decrypt("Oyw", 0), Err("base64 error: Invalid padding".to_string()));
    assert_eq!(xor_decrypt("A", 0), Err("base64 error: Invalid input length: 1".to_string()));
}

#[test]
fn bad_utf8_is_reported() {
    let data: Vec<u8> = vec![0xff ^ b'S'];
    let text = base64::engine::general_purpose::STANDARD.encode(&data);
    let error = String::from_utf8(vec![0xff]).unwrap_err();
    assert_eq!(xor_decrypt(&text, 0), Err(format!("utf8 error: {}", error)));
    assert_eq!(decrypt_decoded(Ok(data), 0), Err(format!("utf8 error: {}", error)));
}

#[test]
fn decoding_errors_are_passed_on() {
    assert_eq!(
        decrypt_decoded(Err("broken".to_string()), 5),
        Err("base64 error: broken".to_string())
    );
    assert_eq!(decrypt_decoded(Ok(vec![0x3b, 0x2c]), 0), Ok("hi".to_string()));
}

#[test]
fn combining_twice_restores() {
    let data: Vec<u8> = (0..=255u8).collect();
    let key = [1u8, 2, 250];
    let once = xor_with_key(&data, &key);
    assert_eq!(once[3], 3 ^ 1);
    assert_eq!(once[5], 5 ^ 250);
    assert_eq!(xor_with_key(&once, &key), data);
}
