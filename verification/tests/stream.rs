use journal::codec::{decrypt, encrypt, CodecError};
use journal::key::DerivedKey;
use journal::stream::{Decryptor, Encryptor};

fn test_key() -> DerivedKey {
    let mut bytes = [0u8; 32];
    for (i, byte) in bytes.iter_mut().enumerate() {
        *byte = (3 * i + 1) as u8;
    }
    DerivedKey::from_bytes(bytes)
}

fn sample(len: usize) -> Vec<u8> {
    (0..len).map(|i| (i % 250) as u8 + 1).collect()
}

fn encrypt_in_chunks(key: &DerivedKey, plain: &[u8], size: usize) -> Vec<u8> {
    let mut encryptor = Encryptor::new(key);
    let mut cipher = Vec::new();
    for chunk in plain.chunks(size) {
        cipher.extend_from_slice(&encryptor.update(chunk));
    }
    cipher.extend_from_slice(&encryptor.finish());
    cipher
}

fn decrypt_in_chunks(key: &DerivedKey, cipher: &[u8], size: usize) -> Result<Vec<u8>, CodecError> {
    let mut decryptor = Decryptor::new(key);
    let mut plain = Vec::new();
    for chunk in cipher.chunks(size) {
        plain.extend_from_slice(&decryptor.update(chunk));
    }
    plain.extend_from_slice(&decryptor.finish()?);
    Ok(plain)
}

#[test]
fn an_encryptor_that_is_fed_nothing_yields_the_padding_block() {
    let key = test_key();
    let encryptor = Encryptor::new(&key);
    assert_eq!(encryptor.finish(), encrypt(&key, &[]));
}

#[test]
fn update_hands_out_the_blocks_that_are_complete() {
    let key = test_key();
    let plain = sample(40);
    let whole = encrypt(&key, &plain);
    let mut encryptor = Encryptor::new(&key);
    assert_eq!(encryptor.update(&plain[..10]), Vec::<u8>::new());
    assert_eq!(encryptor.update(&plain[10..16]), whole[..16].to_vec());
    assert_eq!(encryptor.update(&plain[16..16]), Vec::<u8>::new());
    assert_eq!(encryptor.update(&plain[16..40]), whole[16..32].to_vec());
    assert_eq!(encryptor.finish(), whole[32..].to_vec());
}

#[test]
fn encrypting_in_chunks_is_encrypting_at_once() {
    let key = test_key();
    for len in [0usize, 1, 15, 16, 17, 31, 32, 33, 100] {
        let plain = sample(len);
        let whole = encrypt(&key, &plain);
        for size in [1usize, 5, 16, 17, 64] {
            assert_eq!(encrypt_in_chunks(&key, &plain, size), whole, "{} by {}", len, size);
        }
    }
}

#[test]
fn a_decryptor_keeps_the_last_block_back() {
    let key = test_key();
    let plain = sample(40);
    let cipher = encrypt(&key, &plain);
    assert_eq!(cipher.len(), 48);
    let mut decryptor = Decryptor::new(&key);
    assert_eq!(decryptor.update(&cipher[..16]), Vec::<u8>::new());
    assert_eq!(decryptor.update(&cipher[16..17]), plain[..16].to_vec());
    assert_eq!(decryptor.update(&cipher[17..48]), plain[16..32].to_vec());
    assert_eq!(decryptor.finish(), Ok(plain[32..].to_vec()));
}

#[test]
fn decrypting_in_chunks_is_decrypting_at_once() {
    let key = test_key();
    for len in [0usize, 1, 15, 16, 17, 31, 32, 33, 100] {
        let plain = sample(len);
        let cipher = encrypt(&key, &plain);
        for size in [1usize, 5, 16, 17, 64] {
            assert_eq!(decrypt_in_chunks(&key, &cipher, size), Ok(plain.clone()));
            assert_eq!(decrypt_in_chunks(&key, &cipher, size), decrypt(&key, &cipher));
        }
    }
}

#[test]
fn decrypting_any_blocks_in_chunks_is_decrypting_them_at_once() {
    let key = test_key();
    let cipher: Vec<u8> = (0..96u8).collect();
    let whole = decrypt(&key, &cipher);
    assert!(whole.is_ok());
    for size in [1usize, 7, 16, 40, 96] {
        assert_eq!(decrypt_in_chunks(&key, &cipher, size), whole);
    }
}

#[test]
fn a_decryptor_that_is_fed_nothing_fails() {
    let key = test_key();
    assert_eq!(Decryptor::new(&key).finish(), Err(CodecError::Empty));
    let mut decryptor = Decryptor::new(&key);
    assert_eq!(decryptor.update(&[]), Vec::<u8>::new());
    assert_eq!(decryptor.finish(), Err(CodecError::Empty));
}

#[test]
fn a_decryptor_fails_on_a_block_cut_short() {
    let key = test_key();
    for len in [1usize, 15, 17, 31, 33, 47] {
        let cipher = vec![9u8; len];
        for size in [1usize, 16, 50] {
            assert_eq!(
                decrypt_in_chunks(&key, &cipher, size),
                Err(CodecError::TruncatedBlock),
                "{} by {}",
                len,
                size
            );
        }
    }
}

#[test]
fn streaming_loses_the_same_trailing_zeros() {
    let key = test_key();
    let mut plain = sample(16);
    plain.extend_from_slice(&[4, 0, 0]);
    let cipher = encrypt_in_chunks(&key, &plain, 3);
    assert_eq!(cipher.len(), 32);
    assert_eq!(decrypt_in_chunks(&key, &cipher, 5), Ok(plain[..17].to_vec()));
}
