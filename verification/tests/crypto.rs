use zpass::safe::crypto::{Cipher, CryptoError, PasswordGenerator, PasswordParam, Secret};

fn hex(bytes: &[u8]) -> String {
    let mut out = String::new();
    for b in bytes {
        out.push_str(&format!("{:02x}", b));
    }
    out
}

fn param(length: usize) -> PasswordParam<'static> {
    PasswordParam { domain: "example.com", username: "alice", length, version: 0 }
}

#[test]
fn inverse() {
    let key = "EXAMPLE_KEY";
    let iv = "EXAMPLE_IV";
    let secret = "SECRET".as_bytes().to_vec();
    let cipher = Cipher::new(&key, &iv).unwrap().encrypt(&secret);
    let message = Cipher::new(&key, &iv).unwrap().decrypt(&cipher).unwrap();

    assert_eq!(message, secret);
}

#[test]
fn round_trip_holds_for_plaintexts_of_every_padding_length() {
    for n in 0..50usize {
        let plain: Vec<u8> = (0..n).map(|i| (i * 7 + 3) as u8).collect();
        let cipher = Cipher::new("k", "i").unwrap().encrypt(&plain);
        assert_eq!(cipher.len(), (n / 16 + 1) * 16);
        assert_ne!(cipher, plain);
        assert_eq!(Cipher::new("k", "i").unwrap().decrypt(&cipher).unwrap(), plain);
    }
}

#[test]
fn hash_of_abc_is_the_known_digest() {
    let digest = Cipher::hash("abc");
    assert_eq!(
        hex(&digest),
        "3a985da74fe225b2045c172d6bd390bd855f086e3e9d525b46bfe24511431532"
    );
    assert_eq!(Secret::hash(&b"abc".to_vec()), digest);
}

#[test]
fn hash_of_nothing_is_the_known_digest() {
    assert_eq!(
        hex(&Cipher::hash("")),
        "a7ffc6f8bf1ed76651c14756a061d662f580ff4de43b49fa82d80a4b80f8434a"
    );
    assert_eq!(Secret::hash(&Vec::new()).len(), 32);
}

#[test]
fn encrypt_gives_the_known_ciphertext() {
    let cipher = Cipher::new("EXAMPLE_KEY", "EXAMPLE_IV").unwrap();
    let ciphertext = cipher.encrypt(&b"SECRET".to_vec());
    assert_eq!(hex(&ciphertext), "10cf680f398731561419f6002f35fd7e");
    let empty = Cipher::new("K1", "work").unwrap().encrypt(&Vec::new());
    assert_eq!(hex(&empty), "80a6527809be98aef992a455bec6ad7b");
}

#[test]
fn cipher_from_key_material_agrees_with_cipher_from_raw_key() {
    let key = Cipher::hash("EXAMPLE_KEY");
    let iv = Cipher::hash("EXAMPLE_IV")[..16].to_vec();
    let cipher = Cipher::from_key_material(key, iv).unwrap();
    assert_eq!(hex(&cipher.encrypt(&b"SECRET".to_vec())), "10cf680f398731561419f6002f35fd7e");
}

#[test]
fn key_material_of_a_wrong_length_is_refused() {
    let good_key = vec![7u8; 32];
    let good_iv = vec![9u8; 16];
    assert!(Cipher::from_key_material(good_key.clone(), good_iv.clone()).is_ok());
    for key_length in [0usize, 16, 24, 31, 33, 64] {
        let refused = Cipher::from_key_material(vec![7u8; key_length], good_iv.clone());
        assert!(matches!(refused, Err(CryptoError::InvalidKeyIvLength(_))));
    }
    for iv_length in [0usize, 8, 15, 17, 32] {
        let refused = Cipher::from_key_material(good_key.clone(), vec![9u8; iv_length]);
        assert!(matches!(refused, Err(CryptoError::InvalidKeyIvLength(_))));
    }
}

#[test]
fn wrong_keys_fail_to_decrypt() {
    let ciphertext = Cipher::new("EXAMPLE_KEY", "EXAMPLE_IV").unwrap().encrypt(&b"SECRET".to_vec());
    for wrong in [
        "WRONG_KEY",
        "example_key",
        "EXAMPLE_KEY ",
        "",
        "K2",
        "another key",
        "EXAMPLE_KEZ",
        "0123456789",
    ] {
        let outcome = Cipher::new(wrong, "EXAMPLE_IV").unwrap().decrypt(&ciphertext);
        assert!(matches!(outcome, Err(CryptoError::FailedToDecrypt(_))));
    }
    let outcome = Cipher::new("EXAMPLE_KEY", "WRONG_IV").unwrap().decrypt(&ciphertext);
    assert!(matches!(outcome, Err(CryptoError::FailedToDecrypt(_))));
}

#[test]
fn malformed_ciphertext_fails_to_decrypt() {
    for length in [1usize, 15, 17, 31] {
        let outcome = Cipher::new("k", "i").unwrap().decrypt(&vec![0u8; length]);
        assert!(matches!(outcome, Err(CryptoError::FailedToDecrypt(_))));
    }
    let outcome = Cipher::new("k", "i").unwrap().decrypt(&Vec::new());
    assert!(matches!(outcome, Err(CryptoError::FailedToDecrypt(_))));
}

#[test]
fn to_ascii_range_maps_each_byte_into_the_printable_range() {
    assert_eq!(Secret::to_ascii_range(vec![0, 1, 91, 92, 93, 183, 184, 255]), "!\"|!\"|!h");
    assert_eq!(Secret::to_ascii_range(Vec::new()), "");
    let all: Vec<u8> = (0..=255u8).collect();
    let text = Secret::to_ascii_range(all);
    assert_eq!(text.chars().count(), 256);
    assert!(text.chars().all(|c| ('!'..='|').contains(&c)));
    assert_eq!(
        Secret::to_ascii_range(Secret::hash(&b"abc".to_vec())),
        "[]\"lpKFw%!8N0<U&J$)3_bs|g(Kf2d6S"
    );
}

#[test]
fn password_is_drawn_from_the_digest_of_the_secret() {
    let plain: Vec<u8> = (0..=255u8).collect();
    let secret = Secret::seal("K1", "work", &plain).unwrap();
    assert_eq!(secret.iv(), "work");
    assert_ne!(secret.encrypted_secret(), &plain);
    assert_eq!(secret.get("K1", param(32)).unwrap(), "`%)VC[\"\\t![y\"%OTR-n%`>MTI0M;Fd#$");
    assert_eq!(secret.get("K1", param(16)).unwrap(), "`%)VC[\"\\t![y\"%OT");
    assert_eq!(secret.get("K1", param(1)).unwrap(), "`");
    assert_eq!(secret.get("K1", param(0)).unwrap(), "");
    assert_eq!(secret.get("K1", param(33)).unwrap(), "`%)VC[\"\\t![y\"%OTR-n%`>MTI0M;Fd#$");
    assert_eq!(
        secret.get("K1", param(usize::MAX)).unwrap(),
        "`%)VC[\"\\t![y\"%OTR-n%`>MTI0M;Fd#$"
    );
}

#[test]
fn password_does_not_depend_on_domain_username_or_version() {
    let secret = Secret::seal("K1", "work", &b"some secret bytes".to_vec()).unwrap();
    let one = secret
        .get("K1", PasswordParam { domain: "a.com", username: "alice", length: 20, version: 0 })
        .unwrap();
    let other = secret
        .get("K1", PasswordParam { domain: "b.org", username: "bob", length: 20, version: 5 })
        .unwrap();
    assert_eq!(one, other);
}

#[test]
fn derivation_is_deterministic() {
    let secret = Secret::new("K1", "work", 256).unwrap();
    let first = secret.get("K1", param(24)).unwrap();
    let second = secret.get("K1", param(24)).unwrap();
    assert_eq!(first, second);
    assert_eq!(first.chars().count(), 24);
    assert!(first.chars().all(|c| ('!'..='|').contains(&c)));

    let stored = Secret::from_parts(secret.encrypted_secret().clone(), secret.iv().clone());
    assert_eq!(stored, secret);
    assert_eq!(stored.get("K1", param(24)).unwrap(), first);
}

#[test]
fn new_secret_holds_the_padded_length_and_the_iv() {
    for length in [0usize, 1, 15, 16, 40, 256] {
        let secret = Secret::new("KEY", "IV", length).unwrap();
        assert_eq!(secret.encrypted_secret().len(), (length / 16 + 1) * 16);
        assert_eq!(secret.iv(), "IV");
        assert!(secret.get("KEY", param(32)).is_ok());
    }
}

#[test]
fn new_secrets_differ() {
    let one = Secret::new("KEY", "IV", 256).unwrap();
    let other = Secret::new("KEY", "IV", 256).unwrap();
    assert_ne!(one, other);
}

#[test]
fn wrong_key_never_gives_the_password() {
    let plain: Vec<u8> = (0..=255u8).collect();
    let secret = Secret::seal("K1", "work", &plain).unwrap();
    let right = secret.get("K1", param(16)).unwrap();
    for wrong in ["K2", "k1", "K1 ", "", "wrong"] {
        match secret.get(wrong, param(16)) {
            Err(err) => assert!(matches!(err, CryptoError::FailedToDecrypt(_))),
            Ok(password) => assert_ne!(password, right),
        }
    }
    assert!(matches!(secret.get("K2", param(16)), Err(CryptoError::FailedToDecrypt(_))));
}

#[test]
fn crypto_error_comes_from_the_errors_of_the_cipher() {
    let outcome = Cipher::new("k", "i").unwrap().decrypt(&vec![0u8; 3]);
    let text = format!("{:?}", outcome.unwrap_err());
    assert_eq!(text, "FailedToDecrypt(BlockModeError)");
    let refused = Cipher::from_key_material(Vec::new(), Vec::new());
    let text = format!("{:?}", refused.err().unwrap());
    assert_eq!(text, "InvalidKeyIvLength(InvalidKeyIvLength)");
}
