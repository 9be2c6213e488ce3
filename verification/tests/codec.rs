use lock_smith::codec::decrypt;
use lock_smith::codec::encrypt;
use lock_smith::codec::file_from_sealed;
use lock_smith::codec::frame;
use lock_smith::codec::payload_from_opened;
use lock_smith::codec::read_header;
use lock_smith::codec::HEADER_SIZE;
use lock_smith::codec::NONCE_SIZE;
use lock_smith::codec::SALT_SIZE;
use lock_smith::error::VaultError;
use lock_smith::secret::SecretKey;

// AES-256-GCM with an all-zero key and nonce: the ciphertext and tag of
// sixteen zero bytes, and the tag of the empty message.
const ZERO_BLOCK_SEALED: [u8; 32] = [
    0xce, 0xa7, 0x40, 0x3d, 0x4d, 0x60, 0x6b, 0x6e, 0x07, 0x4e, 0xc5, 0xd3, 0xba, 0xf3, 0x9d, 0x18,
    0xd0, 0xd1, 0xc8, 0xa7, 0x99, 0x99, 0x6b, 0xf0, 0x26, 0x5b, 0x98, 0xb5, 0xd4, 0x8a, 0xb9, 0x19,
];

const EMPTY_SEALED: [u8; 16] = [
    0x53, 0x0f, 0x8a, 0xfb, 0xc7, 0x45, 0x36, 0xb9, 0xa9, 0x63, 0xb4, 0xf1, 0xc4, 0xcb, 0x73, 0x8b,
];

fn sample_file() -> Vec<u8> {
    let key = SecretKey::new([3u8; 32]);
    encrypt(b"{\"github\":{}}", &key, &[5u8; 12], &[4u8; 32]).unwrap()
}

#[test]
fn sizes_of_the_header() {
    assert_eq!(SALT_SIZE, 32);
    assert_eq!(NONCE_SIZE, 12);
    assert_eq!(HEADER_SIZE, 44);
}

#[test]
fn frame_lays_out_salt_nonce_ciphertext() {
    let file = frame(&[1u8; 32], &[2u8; 12], &[3u8, 4, 5]);
    assert_eq!(file.len(), 47);
    assert_eq!(&file[..32], &[1u8; 32]);
    assert_eq!(&file[32..44], &[2u8; 12]);
    assert_eq!(&file[44..], &[3u8, 4, 5]);
}

#[test]
fn frame_of_an_empty_ciphertext_is_the_header() {
    let file = frame(&[1u8; 32], &[2u8; 12], &[]);
    assert_eq!(file.len(), 44);
}

#[test]
fn read_header_splits_salt_and_nonce() {
    let mut data = Vec::new();
    for i in 0..50u8 {
        data.push(i);
    }
    let header = read_header(&data).unwrap();
    let salt: Vec<u8> = (0..32u8).collect();
    let nonce: Vec<u8> = (32..44u8).collect();
    assert_eq!(header.salt.to_vec(), salt);
    assert_eq!(header.nonce.to_vec(), nonce);
}

#[test]
fn read_header_accepts_exactly_the_header() {
    assert!(read_header(&[0u8; 44]).is_ok());
}

#[test]
fn read_header_rejects_a_short_file() {
    assert_eq!(read_header(&[0u8; 43]).err(), Some(VaultError::Format));
    assert_eq!(read_header(&[0u8; 1]).err(), Some(VaultError::Format));
    assert_eq!(read_header(&[]).err(), Some(VaultError::Format));
}

#[test]
fn encrypt_matches_the_known_answer_for_a_zero_block() {
    let key = SecretKey::new([0u8; 32]);
    let file = encrypt(&[0u8; 16], &key, &[0u8; 12], &[1u8; 32]).unwrap();
    assert_eq!(file.len(), 44 + 16 + 16);
    assert_eq!(&file[..32], &[1u8; 32]);
    assert_eq!(&file[32..44], &[0u8; 12]);
    assert_eq!(&file[44..], &ZERO_BLOCK_SEALED);
}

#[test]
fn encrypt_matches_the_known_answer_for_the_empty_payload() {
    let key = SecretKey::new([0u8; 32]);
    let file = encrypt(&[], &key, &[0u8; 12], &[1u8; 32]).unwrap();
    assert_eq!(&file[44..], &EMPTY_SEALED);
}

#[test]
fn decrypt_matches_the_known_answer_for_a_zero_block() {
    let key = SecretKey::new([0u8; 32]);
    let file = frame(&[1u8; 32], &[0u8; 12], &ZERO_BLOCK_SEALED);
    assert_eq!(decrypt(&file, &key), Ok(vec![0u8; 16]));
}

#[test]
fn decrypt_gives_back_what_encrypt_was_given() {
    let key = SecretKey::new([3u8; 32]);
    let file = sample_file();
    assert_eq!(decrypt(&file, &key), Ok(b"{\"github\":{}}".to_vec()));
}

#[test]
fn the_ciphertext_does_not_hold_the_payload() {
    let file = sample_file();
    let payload = b"{\"github\":{}}";
    assert_eq!(file.len(), 44 + payload.len() + 16);
    assert!(!file.windows(payload.len()).any(|window| window == payload));
}

#[test]
fn decrypt_with_another_key_fails_authentication() {
    let file = sample_file();
    let other = SecretKey::new([8u8; 32]);
    assert_eq!(decrypt(&file, &other), Err(VaultError::Authentication));
}

#[test]
fn flipping_any_byte_of_nonce_or_ciphertext_fails_authentication() {
    let key = SecretKey::new([3u8; 32]);
    let file = sample_file();
    for at in 32..file.len() {
        let mut tampered = file.clone();
        tampered[at] ^= 0x01;
        assert_eq!(decrypt(&tampered, &key), Err(VaultError::Authentication));
    }
}

#[test]
fn cutting_the_ciphertext_short_fails_authentication() {
    let key = SecretKey::new([3u8; 32]);
    let file = sample_file();
    for len in 44..file.len() {
        assert_eq!(decrypt(&file[..len], &key), Err(VaultError::Authentication));
    }
}

#[test]
fn decrypt_rejects_a_file_shorter_than_the_header() {
    let key = SecretKey::new([3u8; 32]);
    assert_eq!(decrypt(&[0u8; 43], &key), Err(VaultError::Format));
    assert_eq!(decrypt(&[9u8], &key), Err(VaultError::Format));
}

#[test]
fn a_ciphertext_is_framed() {
    let file = file_from_sealed(&[1u8; 32], &[2u8; 12], Ok(vec![7u8, 8]));
    assert_eq!(file, Ok(frame(&[1u8; 32], &[2u8; 12], &[7u8, 8])));
}

#[test]
fn a_failed_encryption_becomes_an_encryption_error() {
    let file = file_from_sealed(&[1u8; 32], &[2u8; 12], Err(aes_gcm::Error));
    assert_eq!(file, Err(VaultError::Encryption));
}

#[test]
fn a_plaintext_is_the_payload() {
    assert_eq!(payload_from_opened(Ok(vec![1u8, 2, 3])), Ok(vec![1u8, 2, 3]));
}

#[test]
fn a_failed_decryption_becomes_an_authentication_error() {
    assert_eq!(payload_from_opened(Err(aes_gcm::Error)), Err(VaultError::Authentication));
}
