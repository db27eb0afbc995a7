use goji::cipher::EncryptedData;
use goji::envelope::{
    decode_envelope, encode_envelope, envelope_from_keyring_text, envelope_to_keyring_text,
};
use goji::error::JiraError;

fn env(nonce: Vec<u8>, ciphertext: Vec<u8>) -> EncryptedData {
    EncryptedData { nonce, ciphertext }
}

#[test]
fn encode_is_compact_json() {
    let e = env(vec![1, 2], vec![255, 0, 10, 99, 100]);
    assert_eq!(
        String::from_utf8(encode_envelope(&e)).unwrap(),
        r#"{"nonce":[1,2],"ciphertext":[255,0,10,99,100]}"#
    );
    assert_eq!(
        String::from_utf8(encode_envelope(&env(vec![], vec![]))).unwrap(),
        r#"{"nonce":[],"ciphertext":[]}"#
    );
}

#[test]
fn decode_round_trip() {
    for e in [
        env(vec![0; 12], (0u8..=255).collect()),
        env(vec![], vec![]),
        env(vec![7], vec![]),
        env(vec![], vec![200, 9]),
    ] {
        let back = decode_envelope(&encode_envelope(&e)).unwrap();
        assert_eq!(back.nonce, e.nonce);
        assert_eq!(back.ciphertext, e.ciphertext);
    }
}

#[test]
fn decode_reads_written_file_text() {
    let text = br#"{"nonce":[10,20,30],"ciphertext":[1,100,250]}"#;
    let e = decode_envelope(text).unwrap();
    assert_eq!(e.nonce, vec![10, 20, 30]);
    assert_eq!(e.ciphertext, vec![1, 100, 250]);
}

#[test]
fn decode_rejects_other_texts() {
    for bad in [
        &br#"{"nonce":[01],"ciphertext":[]}"#[..],
        br#"{"nonce":[256],"ciphertext":[]}"#,
        br#"{"nonce":[1000],"ciphertext":[]}"#,
        br#"{"nonce":[1,],"ciphertext":[]}"#,
        br#"{"nonce":[,1],"ciphertext":[]}"#,
        br#"{"nonce":[1],"ciphertext":[]} "#,
        br#"{"nonce":[1],"ciphertext":[]"#,
        br#"{"ciphertext":[],"nonce":[1]}"#,
        b"",
        b"{}",
    ] {
        assert!(decode_envelope(bad).is_none(), "{:?}", String::from_utf8_lossy(bad));
    }
}

#[test]
fn keyring_text_round_trip() {
    let e = env(vec![9; 12], vec![1, 2, 3]);
    let text = envelope_to_keyring_text(&e).unwrap();
    // base64 of {"nonce":[9,...],"ciphertext":[1,2,3]}
    assert!(text.chars().all(|c| c.is_ascii_alphanumeric() || c == '+' || c == '/' || c == '='));
    let back = envelope_from_keyring_text(&text).unwrap();
    assert_eq!(back.nonce, e.nonce);
    assert_eq!(back.ciphertext, e.ciphertext);
}

#[test]
fn keyring_text_exact() {
    let e = env(vec![1], vec![2]);
    // base64 of {"nonce":[1],"ciphertext":[2]}
    assert_eq!(
        envelope_to_keyring_text(&e).unwrap(),
        "eyJub25jZSI6WzFdLCJjaXBoZXJ0ZXh0IjpbMl19"
    );
}

#[test]
fn keyring_text_errors() {
    assert!(matches!(envelope_from_keyring_text("***"), Err(JiraError::Base64(_))));
    // valid base64 of "hello"
    assert!(matches!(envelope_from_keyring_text("aGVsbG8="), Err(JiraError::Serialization(_))));
}
