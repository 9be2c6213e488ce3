use lock_smith::error::VaultError;
use lock_smith::password::derive_secret_key;
use lock_smith::password::key_from_hash;
use lock_smith::secret::Secret;

const KEY_FOR_PASSWORD_AND_SOMESALT: [u8; 32] = [
    60, 189, 53, 106, 99, 242, 121, 75, 177, 27, 177, 244, 188, 138, 249, 95, 234, 135, 145, 155,
    214, 156, 121, 134, 4, 101, 197, 98, 248, 124, 207, 97,
];

const KEY_FOR_CORRECT_HORSE: [u8; 32] = [
    223, 206, 185, 254, 244, 97, 22, 129, 147, 218, 117, 112, 149, 59, 25, 46, 57, 149, 119, 165,
    91, 5, 122, 187, 80, 228, 42, 74, 69, 77, 107, 160,
];

#[test]
fn derives_the_argon2id_key_of_password_and_salt() {
    let key = derive_secret_key(&Secret::new(String::from("password")), b"somesalt").unwrap();
    assert_eq!(key.expose(), &KEY_FOR_PASSWORD_AND_SOMESALT);
}

#[test]
fn derives_the_key_for_a_vault_sized_salt() {
    let key = derive_secret_key(&Secret::new(String::from("correct horse")), &[7u8; 32]).unwrap();
    assert_eq!(key.expose(), &KEY_FOR_CORRECT_HORSE);
}

#[test]
fn derivation_is_a_function_of_password_and_salt() {
    let salt = [9u8; 32];
    let first = derive_secret_key(&Secret::new(String::from("hunter2")), &salt).unwrap();
    let second = derive_secret_key(&Secret::new(String::from("hunter2")), &salt).unwrap();
    assert_eq!(first.expose(), second.expose());
}

#[test]
fn another_password_gives_another_key() {
    let salt = [9u8; 32];
    let first = derive_secret_key(&Secret::new(String::from("hunter2")), &salt).unwrap();
    let second = derive_secret_key(&Secret::new(String::from("hunter3")), &salt).unwrap();
    assert_ne!(first.expose(), second.expose());
}

#[test]
fn another_salt_gives_another_key() {
    let password = Secret::new(String::from("hunter2"));
    let first = derive_secret_key(&password, &[1u8; 32]).unwrap();
    let second = derive_secret_key(&password, &[2u8; 32]).unwrap();
    assert_ne!(first.expose(), second.expose());
}

#[test]
fn the_empty_password_has_a_key() {
    let key = derive_secret_key(&Secret::new(String::new()), &[0u8; 32]);
    assert!(key.is_ok());
}

#[test]
fn a_salt_shorter_than_eight_bytes_fails_derivation() {
    let key = derive_secret_key(&Secret::new(String::from("password")), b"short");
    assert_eq!(key.err(), Some(VaultError::KeyDerivation));
}

#[test]
fn a_salt_of_eight_bytes_is_long_enough() {
    let key = derive_secret_key(&Secret::new(String::from("password")), b"12345678");
    assert!(key.is_ok());
}

#[test]
fn a_hash_becomes_the_key() {
    let key = key_from_hash(Ok([5u8; 32])).unwrap();
    assert_eq!(key.expose(), &[5u8; 32]);
}

#[test]
fn a_failed_hash_becomes_a_key_derivation_error() {
    let key = key_from_hash(Err(argon2::Error::SaltTooShort));
    assert_eq!(key.err(), Some(VaultError::KeyDerivation));
}
