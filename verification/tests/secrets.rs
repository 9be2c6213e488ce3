use lock_smith::secret::Secret;
use lock_smith::secret::SecretKey;

#[test]
fn secret_reveals_the_text_it_was_given() {
    let secret = Secret::new(String::from("s3cret"));
    assert_eq!(secret.expose(), "s3cret");
}

#[test]
fn secret_key_reveals_the_bytes_it_was_given() {
    let mut bytes = [0u8; 32];
    bytes[0] = 7;
    bytes[31] = 9;
    let key = SecretKey::new(bytes);
    assert_eq!(key.expose(), &bytes);
}
