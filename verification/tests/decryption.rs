use aes::cipher::{block_padding::{NoPadding, Pkcs7}, BlockEncryptMut, KeyIvInit};
use copy_manga_downloader::crypto::{decrypt_results, DecryptError};

const KEY: &str = "0123456789abcdef";
const IV: &str = "fedcba9876543210";

fn encrypt(plain: &[u8], key: &str, iv: &str) -> String {
    let mut buf = vec![0u8; plain.len() + 16];
    buf[..plain.len()].copy_from_slice(plain);
    let ct = cbc::Encryptor::<aes::Aes128>::new_from_slices(key.as_bytes(), iv.as_bytes())
        .unwrap()
        .encrypt_padded_mut::<Pkcs7>(&mut buf, plain.len())
        .unwrap()
        .to_vec();
    format!("{}{}", iv, hex::encode(ct))
}

#[test]
fn decrypts_what_was_encrypted() {
    let plain = br#"{"groups":{"default":{"chapters":[]}}}"#;
    let results = encrypt(plain, KEY, IV);
    assert_eq!(decrypt_results(&results, KEY), Ok(plain.to_vec()));
    let upper = format!("{}{}", IV, results[16..].to_uppercase());
    assert_eq!(decrypt_results(&upper, KEY), Ok(plain.to_vec()));
}

#[test]
fn decrypt_error_cases() {
    assert_eq!(decrypt_results("short", KEY), Err(DecryptError::MissingIv));
    assert_eq!(decrypt_results("0123456789abcde€00", KEY), Err(DecryptError::MissingIv));
    assert_eq!(decrypt_results("0123456789abcdefzz", KEY), Err(DecryptError::BadHex));
    assert_eq!(decrypt_results("0123456789abcdef0", KEY), Err(DecryptError::BadHex));
    assert_eq!(decrypt_results("0123456789abcdef", KEY), Err(DecryptError::BadCiphertextLength(0)));
    assert_eq!(decrypt_results("0123456789abcdef00ff", KEY), Err(DecryptError::BadCiphertextLength(2)));
    let results = encrypt(b"[]", KEY, IV);
    assert_eq!(decrypt_results(&results, "short key"), Err(DecryptError::BadKeyLength));
}

#[test]
fn malformed_padding_is_reported() {
    let mut block = [0u8; 16];
    let ct = cbc::Encryptor::<aes::Aes128>::new_from_slices(KEY.as_bytes(), IV.as_bytes())
        .unwrap()
        .encrypt_padded_mut::<NoPadding>(&mut block, 16)
        .unwrap()
        .to_vec();
    let results = format!("{}{}", IV, hex::encode(ct));
    assert_eq!(decrypt_results(&results, KEY), Err(DecryptError::BadPadding));
}
