use vstd::prelude::*;
use vstd::utf8::{encode_utf8, is_char_boundary};
use aes::cipher::{block_padding::Pkcs7, BlockDecryptMut, KeyIvInit};

verus! {

/// The error `hex::decode` reports.
#[verifier::external_type_specification]
#[verifier::external_body]
pub struct ExFromHexError(hex::FromHexError);

/// The value of one hexadecimal digit (either case).
pub open spec fn hex_digit(c: u8) -> Option<u8> {
    if 48 <= c <= 57 {
        Some((c - 48) as u8)
    } else if 65 <= c <= 70 {
        Some((c - 55) as u8)
    } else if 97 <= c <= 102 {
        Some((c - 87) as u8)
    } else {
        None
    }
}

/// The bytes a hexadecimal text stands for: two digits per byte, high digit first;
/// nothing where the length is odd or a character is not a digit.
pub open spec fn hex_decoding(s: Seq<u8>) -> Option<Seq<u8>>
    decreases s.len(),
{
    if s.len() % 2 != 0 {
        None
    } else if s.len() == 0 {
        Some(seq![])
    } else {
        match (hex_digit(s[0]), hex_digit(s[1]), hex_decoding(s.skip(2))) {
            (Some(hi), Some(lo), Some(rest)) => Some(seq![(hi * 16 + lo) as u8] + rest),
            _ => None,
        }
    }
}

/// Calls `hex::decode`, which, as its source shows, fails on an odd length or a
/// non-hexadecimal character and otherwise turns each pair of digits into one byte.
#[verifier::external_body]
fn hex_decode(data: &[u8]) -> (res: Result<Vec<u8>, hex::FromHexError>)
    ensures
        match res {
            Ok(v) => hex_decoding(data@) == Some(v@),
            Err(_) => hex_decoding(data@) is None,
        },
{
    hex::decode(data)
}

/// The plaintext of `ciphertext` under AES-128 in CBC mode with `key` and `iv`,
/// with its PKCS#7 padding removed; nothing where the padding is malformed.
pub uninterp spec fn aes128_cbc_pkcs7_plaintext(key: Seq<u8>, iv: Seq<u8>, ciphertext: Seq<u8>) -> Option<Seq<u8>>;

/// How the block cipher refused its input.
#[derive(Debug, Clone, Copy, PartialEq, Eq)]
pub enum CipherError {
    /// The key or the IV is not 16 bytes long.
    KeyOrIvLength,
    /// The ciphertext is not whole blocks, or its padding is malformed.
    Padding,
}

/// Decrypts with `cbc::Decryptor::<aes::Aes128>` (`new_from_slices`, then
/// `decrypt_padded_mut::<Pkcs7>`). As the sources of `crypto-common`, `cipher` and
/// `block-padding` show: the decryptor is refused exactly when the key or the IV is
/// not 16 bytes; decryption fails unless the ciphertext is a non-empty whole number
/// of 16-byte blocks, and PKCS#7 removes between 1 and 16 bytes. The plaintext itself
/// is named, not stated.
#[verifier::external_body]
fn aes128_cbc_decrypt(key: &[u8], iv: &[u8], ciphertext: &[u8]) -> (res: Result<Vec<u8>, CipherError>)
    ensures
        (res == Err::<Vec<u8>, CipherError>(CipherError::KeyOrIvLength)) <==> (key@.len() != 16 || iv@.len() != 16),
        key@.len() == 16 && iv@.len() == 16 ==> match res {
            Ok(p) => aes128_cbc_pkcs7_plaintext(key@, iv@, ciphertext@) == Some(p@),
            Err(_) => aes128_cbc_pkcs7_plaintext(key@, iv@, ciphertext@) is None,
        },
        res matches Ok(p) ==> {
            &&& ciphertext@.len() > 0
            &&& ciphertext@.len() % 16 == 0
            &&& ciphertext@.len() - 16 <= p@.len() < ciphertext@.len()
        },
{
    let decryptor = cbc::Decryptor::<aes::Aes128>::new_from_slices(key, iv)
        .map_err(|_| CipherError::KeyOrIvLength)?;
    let mut buf = ciphertext.to_vec();
    decryptor
        .decrypt_padded_mut::<Pkcs7>(&mut buf)
        .map(|plain| plain.to_vec())
        .map_err(|_| CipherError::Padding)
}

/// Why an encrypted reply could not be decrypted.
#[derive(Debug, Clone, Copy, PartialEq, Eq)]
pub enum DecryptError {
    /// The text is shorter than 16 bytes, or its 16th byte falls inside a character.
    MissingIv,
    /// What follows the IV is not hexadecimal.
    BadHex,
    /// The ciphertext (of the given number of bytes) is empty or not a whole number
    /// of 16-byte blocks.
    BadCiphertextLength(usize),
    /// The key is not 16 bytes long.
    BadKeyLength,
    /// The padding of the decrypted text is malformed (most likely a wrong key).
    BadPadding,
}

/// The IV and the ciphertext can be cut from `bytes`: it holds at least 16 bytes and
/// the 16th is a character boundary.
pub open spec fn iv_cut(bytes: Seq<u8>) -> bool {
    16 <= bytes.len() && is_char_boundary(bytes, 16)
}

/// What decrypting `results` with `key` gives: the first 16 bytes of `results` are
/// the IV, the rest is the ciphertext in hexadecimal.
pub open spec fn decryption(results: Seq<char>, key: Seq<char>) -> Result<Seq<u8>, DecryptError> {
    let bytes = encode_utf8(results);
    if !iv_cut(bytes) {
        Err(DecryptError::MissingIv)
    } else {
        match hex_decoding(bytes.skip(16)) {
            None => Err(DecryptError::BadHex),
            Some(ct) => if ct.len() == 0 || ct.len() % 16 != 0 {
                Err(DecryptError::BadCiphertextLength(ct.len() as usize))
            } else if encode_utf8(key).len() != 16 {
                Err(DecryptError::BadKeyLength)
            } else {
                match aes128_cbc_pkcs7_plaintext(encode_utf8(key), bytes.take(16), ct) {
                    Some(p) => Ok(p),
                    None => Err(DecryptError::BadPadding),
                }
            },
        }
    }
}

/// `s[from..to]` as a new vector.
fn copy_range(s: &[u8], from: usize, to: usize) -> (res: Vec<u8>)
    requires
        from <= to <= s@.len(),
    ensures
        res@ == s@.subrange(from as int, to as int),
{
    let mut res: Vec<u8> = Vec::new();
    let mut i: usize = from;
    while i < to
        invariant
            from <= i <= to <= s@.len(),
            res@ == s@.subrange(from as int, i as int),
        decreases to - i,
    {
        res.push(s[i]);
        i = i + 1;
        assert(res@ =~= s@.subrange(from as int, i as int));
    }
    res
}

/// Decrypts an encrypted reply of the site: `results` holds a 16-character IV
/// followed by the hexadecimal AES-128-CBC ciphertext, and `key` is the AES key
/// found in the page. Gives the plaintext bytes (a JSON text).
pub fn decrypt_results(results: &str, key: &str) -> (res: Result<Vec<u8>, DecryptError>)
    ensures
        match res {
            Ok(p) => decryption(results@, key@) == Ok::<Seq<u8>, DecryptError>(p@),
            Err(e) => decryption(results@, key@) == Err::<Seq<u8>, DecryptError>(e),
        },
{
    let bytes = results.as_bytes();
    if !(bytes.len() >= 16 && results.is_char_boundary(16)) {
        return Err(DecryptError::MissingIv);
    }
    let iv = copy_range(bytes, 0, 16);
    let hex_text = copy_range(bytes, 16, bytes.len());
    assert(hex_text@ =~= bytes@.skip(16));
    assert(iv@ =~= bytes@.take(16));
    let buf = match hex_decode(hex_text.as_slice()) {
        Ok(b) => b,
        Err(_) => {
            return Err(DecryptError::BadHex);
        },
    };
    if buf.len() == 0 || buf.len() % 16 != 0 {
        return Err(DecryptError::BadCiphertextLength(buf.len()));
    }
    let key_bytes = key.as_bytes();
    if key_bytes.len() != 16 {
        return Err(DecryptError::BadKeyLength);
    }
    match aes128_cbc_decrypt(key_bytes, iv.as_slice(), buf.as_slice()) {
        Ok(p) => Ok(p),
        Err(_) => Err(DecryptError::BadPadding),
    }
}

} // verus!
