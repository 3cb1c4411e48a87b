use defuscrypt::crypto::{
    decrypt_aes, decrypt_aes_ctr256, decrypt_with_mode, derive_key, encrypt_aes, encrypt_aes_ctr256,
    encrypt_aes_with_iv, finish_quantum, frame_quantum, key_from_entry, le_u64_bytes, read_le_u64,
    seed_entropy_pool, CryptoError, CryptoMode, Decryption,
};

fn hex(s: &str) -> Vec<u8> {
    (0..s.len()).step_by(2).map(|i| u8::from_str_radix(&s[i..i + 2], 16).unwrap()).collect()
}

#[test]
fn mode_names() {
    assert_eq!(CryptoMode::from_str("Quantum", CryptoMode::Aes256Ctr), CryptoMode::Quantum);
    assert_eq!(CryptoMode::from_str("AES", CryptoMode::Quantum), CryptoMode::Aes256Ctr);
    assert_eq!(CryptoMode::from_str("aes256", CryptoMode::Quantum), CryptoMode::Aes256Ctr);
    assert_eq!(CryptoMode::from_str("aes-ctr", CryptoMode::Quantum), CryptoMode::Aes256Ctr);
    assert_eq!(CryptoMode::from_str("rot13", CryptoMode::Quantum), CryptoMode::Quantum);
    assert_eq!(CryptoMode::from_str("rot13", CryptoMode::Aes256Ctr), CryptoMode::Aes256Ctr);
    assert_eq!(CryptoMode::Aes256Ctr.as_str(), "aes");
    assert_eq!(CryptoMode::Quantum.as_str(), "quantum");
    assert_eq!(CryptoMode::from_setting(Some("quantum")), CryptoMode::Quantum);
    assert_eq!(CryptoMode::from_setting(Some("QUANTUM")), CryptoMode::Aes256Ctr);
    assert_eq!(CryptoMode::from_setting(None), CryptoMode::Aes256Ctr);
}

#[test]
fn aes256_ctr_known_answer() {
    let key: [u8; 32] = hex("603deb1015ca71be2b73aef0857d77811f352c073b6108d72d9810a30914dff4").try_into().unwrap();
    let iv: [u8; 16] = hex("f0f1f2f3f4f5f6f7f8f9fafbfcfdfeff").try_into().unwrap();
    let plain = hex("6bc1bee22e409f96e93d7e117393172a");
    let c = encrypt_aes_ctr256(&plain, &key, &iv);
    assert_eq!(c, hex("601ec313775789a5b7a7f504bbf3d228"));
    assert_eq!(decrypt_aes_ctr256(&c, &key, &iv), plain);
}

#[test]
fn short_keys_are_padded_deterministically() {
    let k = derive_key(b"abc");
    assert_eq!(&k[..3], b"abc");
    // byte 3 is key[0] + 3, byte 4 is key[1] + 4, byte 31 is key[1] + 31.
    assert_eq!(k[3], b'a' + 3);
    assert_eq!(k[4], b'b' + 4);
    assert_eq!(k[31], b'b' + 31);
    let wrap = derive_key(&[0xFF]);
    assert_eq!(wrap[0], 0xFF);
    assert_eq!(wrap[1], 0x00);
    assert_eq!(wrap[2], 0x01);
}

#[test]
fn long_keys_are_truncated() {
    let long: Vec<u8> = (0u8..40).collect();
    let k = derive_key(&long);
    assert_eq!(k.to_vec(), (0u8..32).collect::<Vec<u8>>());
}

#[test]
fn aes_round_trip_with_random_nonce() {
    let data = b"attack at dawn".to_vec();
    let sealed = encrypt_aes(&data, b"secret").unwrap();
    assert_eq!(sealed.len(), 16 + data.len());
    assert_ne!(&sealed[16..], &data[..]);
    assert_eq!(decrypt_aes(&sealed, b"secret").unwrap(), data);
    match decrypt_with_mode(&sealed, b"secret", CryptoMode::Aes256Ctr).unwrap() {
        Decryption::Plain(p) => assert_eq!(p, data),
        other => panic!("unexpected {:?}", other),
    }
}

#[test]
fn aes_with_given_nonce_prefixes_it() {
    let iv = [7u8; 16];
    let out = encrypt_aes_with_iv(b"hello", b"k", &iv).unwrap();
    assert_eq!(&out[..16], &iv[..]);
    let key = derive_key(b"k");
    assert_eq!(&out[16..], &encrypt_aes_ctr256(b"hello", &key, &iv)[..]);
}

#[test]
fn aes_refusals() {
    assert_eq!(encrypt_aes(b"x", b""), Err(CryptoError::EmptyKey));
    assert_eq!(decrypt_aes(&[0u8; 15], b"k"), Err(CryptoError::MissingIv));
    assert_eq!(decrypt_aes(&[0u8; 16], b""), Err(CryptoError::EmptyKey));
    assert!(matches!(decrypt_with_mode(&[1, 2, 3], b"k", CryptoMode::Aes256Ctr), Err(CryptoError::MissingIv)));
    assert_eq!(decrypt_aes(&[0u8; 16], b"k"), Ok(vec![]));
}

#[test]
fn quantum_framing() {
    let framed = frame_quantum(&[9, 8, 7]);
    assert_eq!(framed, vec![3, 0, 0, 0, 0, 0, 0, 0, 9, 8, 7]);
    match decrypt_with_mode(&framed, b"", CryptoMode::Quantum).unwrap() {
        Decryption::QuantumRounds { declared_len, body } => {
            assert_eq!(declared_len, 3);
            assert_eq!(body, vec![9, 8, 7]);
        }
        other => panic!("unexpected {:?}", other),
    }
    match decrypt_with_mode(&[1, 2], b"k", CryptoMode::Quantum).unwrap() {
        Decryption::Plain(p) => assert_eq!(p, vec![1, 2]),
        other => panic!("unexpected {:?}", other),
    }
    assert_eq!(finish_quantum(vec![1, 2, 3, 4], 2), vec![1, 2]);
    assert_eq!(finish_quantum(vec![1, 2], 9), vec![1, 2]);
}

#[test]
fn little_endian_lengths() {
    assert_eq!(le_u64_bytes(0x0102030405060708), vec![8, 7, 6, 5, 4, 3, 2, 1]);
    assert_eq!(read_le_u64(&[8, 7, 6, 5, 4, 3, 2, 1, 99]), 0x0102030405060708);
    assert_eq!(read_le_u64(&le_u64_bytes(u64::MAX)), u64::MAX);
}

#[test]
fn entropy_pool_starts_with_the_key() {
    let pool = seed_entropy_pool(b"key");
    assert_eq!(pool.len(), 64);
    assert_eq!(&pool[..3], b"key");
    let long: Vec<u8> = (0u8..100).collect();
    assert_eq!(seed_entropy_pool(&long), (0u8..64).collect::<Vec<u8>>());
}

#[test]
fn typed_keys_are_trimmed_and_must_not_be_empty() {
    assert_eq!(key_from_entry("  pass word \n"), Some(b"pass word".to_vec()));
    assert_eq!(key_from_entry("   \n"), None);
    assert_eq!(key_from_entry(""), None);
}
