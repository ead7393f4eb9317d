use my_secrets::error::VaultError;
use my_secrets::password_utils::{make_password_complient, AesKey, PASSWORD_SIZE};
use my_secrets::settings::{SettingsModel, IV_SIZE};

#[test]
fn short_password_repeats() {
    let key = make_password_complient(b"abc");
    assert_eq!(key.len(), PASSWORD_SIZE);
    assert_eq!(&key, b"abcabcabcabcabcabcabcabcabcabcab");
}

#[test]
fn single_byte_password_fills_the_key() {
    assert_eq!(make_password_complient(b"x"), [b'x'; 32]);
}

#[test]
fn password_of_key_size_is_the_key() {
    let password = b"0123456789abcdef0123456789ABCDEF";
    assert_eq!(&make_password_complient(password), password);
}

#[test]
fn long_password_is_cut() {
    let password = b"0123456789abcdef0123456789ABCDEF-and-more";
    assert_eq!(&make_password_complient(password), b"0123456789abcdef0123456789ABCDEF");
}

#[test]
fn derive_takes_the_shared_secret_as_vector() {
    let iv = *b"0123456789abcdef";
    let key = my_secrets::password_utils::derive(b"pw", &iv).unwrap();
    assert_eq!(key, AesKey { key: *b"pwpwpwpwpwpwpwpwpwpwpwpwpwpwpwpw", iv });
}

#[test]
fn derive_is_deterministic() {
    let iv = [7u8; IV_SIZE];
    let first = my_secrets::password_utils::derive(b"secret", &iv).unwrap();
    let second = my_secrets::password_utils::derive(b"secret", &iv).unwrap();
    assert_eq!(first, second);
}

#[test]
fn derive_refuses_empty_password() {
    let iv = [0u8; IV_SIZE];
    assert_eq!(my_secrets::password_utils::derive(b"", &iv), Err(VaultError::InvalidPassword));
}

#[test]
fn iv_is_the_shared_secret() {
    let settings = SettingsModel { shared_key: "0123456789abcdef".to_string() };
    assert!(settings.has_valid_shared_key());
    assert_eq!(&settings.get_iv(), b"0123456789abcdef");
}

#[test]
fn shared_secret_of_wrong_length_is_invalid() {
    assert!(!SettingsModel { shared_key: "short".to_string() }.has_valid_shared_key());
    assert!(!SettingsModel { shared_key: "0123456789abcdefg".to_string() }.has_valid_shared_key());
    // sixteen characters, but more than sixteen bytes
    assert!(!SettingsModel { shared_key: "ääääääääääääääää".to_string() }.has_valid_shared_key());
}
