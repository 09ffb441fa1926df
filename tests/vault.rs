use taskly::{EncryptedStorage, VaultError};

fn store() -> EncryptedStorage {
    EncryptedStorage::with_key("settings.enc".to_string(), (0u8..32).collect()).unwrap()
}

#[test]
fn key_must_have_32_bytes() {
    let r = EncryptedStorage::with_key("p".to_string(), vec![1u8; 31]);
    assert_eq!(r.err(), Some(VaultError::InvalidKeyLength));
    let s = store();
    assert_eq!(s.key_bytes(), (0u8..32).collect::<Vec<u8>>());
    assert_eq!(s.storage_path(), "settings.enc");
    let fresh = EncryptedStorage::with_new_key("q".to_string());
    assert_eq!(fresh.key_bytes().len(), 32);
}

#[test]
fn sealed_bytes_carry_nonce_and_tag() {
    let s = store();
    let nonce = [7u8; 12];
    let v = s.seal_with_nonce(b"hello", &nonce).unwrap();
    assert_eq!(v.len(), 12 + 5 + 16);
    assert_eq!(&v[..12], &nonce);
    assert_ne!(&v[12..17], b"hello");
    assert_eq!(s.decrypt(&v).unwrap(), b"hello".to_vec());
}

#[test]
fn encrypt_then_decrypt_round_trips() {
    let s = store();
    let a = s.encrypt(b"{\"syncMode\":\"cloud\"}").unwrap();
    let b = s.encrypt(b"{\"syncMode\":\"cloud\"}").unwrap();
    assert_ne!(a[..12], b[..12]);
    assert_eq!(s.decrypt(&a).unwrap(), b"{\"syncMode\":\"cloud\"}".to_vec());
}

#[test]
fn decrypt_failures() {
    let s = store();
    assert_eq!(s.decrypt(&[1u8; 11]).err(), Some(VaultError::DataTooShort));
    let mut v = s.encrypt(b"secret").unwrap();
    let last = v.len() - 1;
    v[last] ^= 1;
    assert_eq!(s.decrypt(&v).err(), Some(VaultError::DecryptionFailed));
    let other = EncryptedStorage::with_key("p".to_string(), vec![9u8; 32]).unwrap();
    let w = s.encrypt(b"secret").unwrap();
    assert_eq!(other.decrypt(&w).err(), Some(VaultError::DecryptionFailed));
}

#[test]
fn settings_text_round_trips() {
    let s = store();
    let text = s.seal_settings("{\"a\":1}").unwrap();
    assert!(text.chars().all(|c| c.is_ascii_alphanumeric() || c == '+' || c == '/' || c == '='));
    let padded = format!("  {}\n", text);
    assert_eq!(s.open_settings(&padded).unwrap(), b"{\"a\":1}".to_vec());
    let wide = format!("\u{3000}\t{}\u{2029}", text);
    assert_eq!(s.open_settings(&wide).unwrap(), b"{\"a\":1}".to_vec());
}

#[test]
fn settings_text_with_fixed_nonce() {
    let s = store();
    let t1 = s.seal_settings_with_nonce("x", &[0u8; 12]).unwrap();
    let t2 = s.seal_settings_with_nonce("x", &[0u8; 12]).unwrap();
    assert_eq!(t1, t2);
    assert_eq!(t1.len(), 40);
    assert!(t1.starts_with("AAAAAAAAAAAAAAAA"));
}

#[test]
fn settings_text_errors() {
    let s = store();
    assert_eq!(s.open_settings("not base64!").err(), Some(VaultError::DecodeFailed));
    assert_eq!(s.open_settings("AAAA").err(), Some(VaultError::DataTooShort));
}
