use x402_payment::error::Error;
use x402_payment::wallet::Wallet;

#[test]
fn test_generate_password() {
    let password = Wallet::generate_password();
    assert_eq!(password.len(), 32);
    assert!(password.chars().all(|c| c.is_ascii_alphanumeric()));
}

#[test]
fn generated_passwords_differ() {
    // a fixed result would make the saved password worthless
    let a = Wallet::generate_password();
    let b = Wallet::generate_password();
    let c = Wallet::generate_password();
    assert!(a != b || b != c);
}

#[test]
fn get_address_reads_the_stored_field() {
    let content = r#"{
        "address": "036cbd53842c5426634e7929541ec2318f3dcf7e",
        "crypto": {"cipher": "aes-128-ctr", "kdfparams": {"n": 8192}},
        "id": "3198bc9c-6672-5ab3-d995-4942343ae5b6",
        "version": 3
    }"#;
    let address = Wallet::get_address(content).unwrap();
    assert_eq!(address, "0x036cbd53842c5426634e7929541ec2318f3dcf7e");
}

#[test]
fn get_address_keeps_an_existing_prefix_and_casing() {
    let content = r#"{"address": "0x036CbD53842c5426634e7929541eC2318f3dCF7e"}"#;
    let address = Wallet::get_address(content).unwrap();
    assert_eq!(address, "0x036CbD53842c5426634e7929541eC2318f3dCF7e");
}

#[test]
fn get_address_fails_without_the_field() {
    let e = Wallet::get_address(r#"{"crypto": {}, "version": 3}"#).unwrap_err();
    assert!(matches!(e, Error::Wallet(_)));
    assert_eq!(e.message(), "Wallet error: No address field in keystore");
    // corrupt JSON is reported the same way
    assert!(Wallet::get_address("not json at all").is_err());
    // a non-string address field is as good as none
    assert!(Wallet::get_address(r#"{"address": 5}"#).is_err());
}

#[test]
fn decrypt_rejects_wrong_password_and_bad_keys() {
    // a failed decryption (wrong password) never yields a key
    let e = Wallet::decrypt(None).unwrap_err();
    assert!(matches!(e, Error::InvalidPassword));

    // bytes that fail key reconstruction are treated the same way
    assert!(Wallet::decrypt(Some(vec![0u8; 32])).is_err());
    assert!(Wallet::decrypt(Some(vec![1u8; 31])).is_err());
    assert!(Wallet::decrypt(Some(vec![1u8; 33])).is_err());
    // the secp256k1 group order is not a valid scalar
    let order: [u8; 32] = [
        0xFF, 0xFF, 0xFF, 0xFF, 0xFF, 0xFF, 0xFF, 0xFF, 0xFF, 0xFF, 0xFF, 0xFF, 0xFF, 0xFF, 0xFF,
        0xFE, 0xBA, 0xAE, 0xDC, 0xE6, 0xAF, 0x48, 0xA0, 0x3B, 0xBF, 0xD2, 0x5E, 0x8C, 0xD0, 0x36,
        0x41, 0x41,
    ];
    assert!(Wallet::decrypt(Some(order.to_vec())).is_err());

    // a small nonzero scalar is fine
    let mut one = vec![0u8; 32];
    one[31] = 1;
    let key = Wallet::decrypt(Some(one.clone())).unwrap();
    assert_eq!(key.bytes, one);
    // order - 1 is the largest valid scalar
    let mut below = order.to_vec();
    below[31] = 0x40;
    assert!(Wallet::decrypt(Some(below)).is_ok());
}

#[test]
fn load_password_trims_surrounding_whitespace() {
    assert_eq!(Wallet::load_password("  s3cret\n"), "s3cret");
    assert_eq!(Wallet::load_password("s3cret"), "s3cret");
    assert_eq!(Wallet::load_password(" \t\r\n "), "");
}

#[test]
fn create_is_refused_over_an_existing_wallet() {
    let e = Wallet::check_can_create(true, "/tmp/w.json").unwrap_err();
    assert!(matches!(e, Error::WalletExists(_)));
    assert_eq!(e.message(), "Wallet already exists at /tmp/w.json");
    assert!(Wallet::check_can_create(false, "/tmp/w.json").is_ok());
}

#[test]
fn create_password_resolution() {
    let (p, save) = Wallet::resolve_create_password(Some("chosen".to_string()));
    assert_eq!(p, "chosen");
    assert!(!save);
    let (p, save) = Wallet::resolve_create_password(None);
    assert_eq!(p.len(), 32);
    assert!(save);
}

#[test]
fn keystore_address_form() {
    assert_eq!(
        Wallet::address_for_keystore("0x036CbD53842c5426634e7929541eC2318f3dCF7e"),
        "036cbd53842c5426634e7929541ec2318f3dcf7e"
    );
    assert_eq!(Wallet::address_for_keystore("ABCDEF"), "abcdef");
}

#[test]
fn error_exit_codes() {
    assert_eq!(Error::MissingConfig(String::new()).exit_code(), 10);
    assert_eq!(Error::Config(String::new()).exit_code(), 11);
    assert_eq!(Error::WalletNotFound(String::new()).exit_code(), 12);
    assert_eq!(Error::InvalidArgument(String::new()).exit_code(), 20);
    assert_eq!(Error::InvalidPassword.exit_code(), 1);
    assert_eq!(Error::Io(String::new()).exit_code(), 1);
}
