use cyfer_core::bundle::{bundle_from_fields, bundle_from_json, bundle_to_json, SecretBundle};
use cyfer_core::codec::{decode_b64, encode_b64};
use cyfer_core::crypto::{
    decrypt, derive_key, drop_key, encrypt, open_record, seal_with_nonce, zeroize_bytes, zeroize_vec, KdfParams,
};
use cyfer_core::error::VaultError;
use cyfer_core::vault::{EncRecord, Vault};

fn cheap_kdf() -> KdfParams {
    KdfParams { m_cost_kib: 64, t_cost: 1, p_cost: 1 }
}

/// A vault with low costs, so that tests that only exercise the record
/// table stay fast.
fn cheap_vault(password: &str) -> Vault {
    let salt = [3u8; 16];
    let kdf = cheap_kdf();
    let key = derive_key(password, &salt, kdf).unwrap();
    let (nonce_b64, ct_b64) = encrypt(&key, b"vault-check").unwrap();
    Vault {
        salt_b64: encode_b64(&salt),
        kdf,
        secrets: Vec::new(),
        verifier: EncRecord { nonce_b64, ct_b64 },
    }
}

fn bundle(user: &str, secret: &str, notes: Option<&str>) -> SecretBundle {
    SecretBundle {
        username: user.to_string(),
        secret: secret.to_string(),
        notes: notes.map(|n| n.to_string()),
    }
}

#[test]
fn encrypt_then_decrypt_round_trips() {
    let key = [7u8; 32];
    let payloads: Vec<Vec<u8>> = vec![vec![], b"x".to_vec(), (0..=255u8).collect(), vec![0u8; 5000]];
    for p in payloads {
        let (n, c) = encrypt(&key, &p).unwrap();
        let nonce = decode_b64(&n).unwrap();
        let ct = decode_b64(&c).unwrap();
        assert_eq!(nonce.len(), 12);
        assert_eq!(ct.len(), p.len() + 16);
        assert_eq!(decrypt(&key, &nonce, &ct).unwrap(), p);
        assert_eq!(open_record(&key, &n, &c).unwrap(), p);
    }
}

#[test]
fn decrypt_rejects_wrong_key_and_tampering() {
    let key = [7u8; 32];
    let (n, c) = encrypt(&key, b"payload").unwrap();
    let nonce = decode_b64(&n).unwrap();
    let mut ct = decode_b64(&c).unwrap();
    assert_eq!(decrypt(&[8u8; 32], &nonce, &ct), Err(VaultError::AuthenticationFailure));
    ct[0] ^= 1;
    assert_eq!(decrypt(&key, &nonce, &ct), Err(VaultError::AuthenticationFailure));
    assert_eq!(decrypt(&key, &nonce[..11], &ct), Err(VaultError::AuthenticationFailure));
    assert_eq!(open_record(&key, "***", &c), Err(VaultError::AuthenticationFailure));
}

#[test]
fn nonces_are_distinct() {
    let key = [1u8; 32];
    let mut seen = std::collections::HashSet::new();
    for _ in 0..2000 {
        let (n, _) = encrypt(&key, b"same plaintext").unwrap();
        assert!(seen.insert(n));
    }
}

#[test]
fn derive_key_is_deterministic_and_salted() {
    let kdf = cheap_kdf();
    let a = derive_key("pw", &[1u8; 16], kdf).unwrap();
    let b = derive_key("pw", &[1u8; 16], kdf).unwrap();
    let c = derive_key("pw", &[2u8; 16], kdf).unwrap();
    let d = derive_key("pw2", &[1u8; 16], kdf).unwrap();
    assert_eq!(a, b);
    assert_ne!(a, c);
    assert_ne!(a, d);
}

#[test]
fn derive_key_rejects_bad_parameters() {
    let salt = [1u8; 16];
    let zero_time = KdfParams { m_cost_kib: 64, t_cost: 0, p_cost: 1 };
    let little_memory = KdfParams { m_cost_kib: 4, t_cost: 1, p_cost: 1 };
    let no_threads = KdfParams { m_cost_kib: 64, t_cost: 1, p_cost: 0 };
    let huge_threads = KdfParams { m_cost_kib: u32::MAX, t_cost: 1, p_cost: u32::MAX };
    for kdf in [zero_time, little_memory, no_threads, huge_threads] {
        assert_eq!(derive_key("pw", &salt, kdf), Err(VaultError::InvalidParameters));
    }
    assert_eq!(derive_key("pw", &[1u8; 7], cheap_kdf()), Err(VaultError::InvalidParameters));
}

#[test]
fn base64_codec() {
    assert_eq!(encode_b64(b"hello"), "aGVsbG8=");
    assert_eq!(decode_b64("aGVsbG8=").unwrap(), b"hello".to_vec());
    assert_eq!(decode_b64("not base64!"), Err(VaultError::CorruptVault));
}

#[test]
fn bundle_json_form() {
    let b = bundle("alice", "s3cr3t", None);
    let bytes = bundle_to_json(&b).unwrap();
    assert_eq!(
        String::from_utf8(bytes.clone()).unwrap(),
        r#"{"notes":null,"secret":"s3cr3t","username":"alice"}"#
    );
    assert_eq!(bundle_from_json(&bytes).unwrap(), b);
    let written_in_field_order = br#"{"username":"bob","secret":"p","notes":"n"}"#;
    assert_eq!(bundle_from_json(written_in_field_order).unwrap(), bundle("bob", "p", Some("n")));
    let without_notes = br#"{"username":"bob","secret":"p"}"#;
    assert_eq!(bundle_from_json(without_notes).unwrap(), bundle("bob", "p", None));
    assert_eq!(bundle_from_json(br#"{"secret":"p"}"#), Err(VaultError::CorruptVault));
    assert_eq!(bundle_from_json(b"not json"), Err(VaultError::CorruptVault));
}

#[test]
fn bundle_from_member_pairs() {
    let fields = vec![
        ("secret".to_string(), Some("s".to_string())),
        ("username".to_string(), Some("u".to_string())),
        ("extra".to_string(), None),
    ];
    assert_eq!(bundle_from_fields(&fields), Some(bundle("u", "s", None)));
    let null_user = vec![
        ("secret".to_string(), Some("s".to_string())),
        ("username".to_string(), None),
    ];
    assert_eq!(bundle_from_fields(&null_user), None);
}

#[test]
fn zeroize_clears_bytes() {
    let mut b = [9u8; 10];
    zeroize_bytes(&mut b);
    assert_eq!(b, [0u8; 10]);
    zeroize_vec(vec![1, 2, 3]);
    drop_key([5u8; 32]);
}

#[test]
fn init_sets_up_a_fresh_vault() {
    let v = Vault::init("correct horse").unwrap();
    assert!(v.secrets.is_empty());
    assert_eq!(v.kdf, KdfParams { m_cost_kib: 19456, t_cost: 2, p_cost: 1 });
    assert_eq!(decode_b64(&v.salt_b64).unwrap().len(), 16);
    assert_eq!(v.check_password("correct horse"), Ok(()));
    assert_eq!(v.list_services("correct horse").unwrap(), Vec::<String>::new());
}

#[test]
fn wrong_password_is_rejected() {
    let v = Vault::init("pw1").unwrap();
    assert_eq!(v.check_password("pw2"), Err(VaultError::IncorrectPassword));
    assert_eq!(v.list_services("pw2"), Err(VaultError::IncorrectPassword));
    assert_eq!(v.get_service("pw2", "x"), Err(VaultError::IncorrectPassword));
}

#[test]
fn check_password_is_repeatable() {
    let mut v = cheap_vault("pw");
    for _ in 0..3 {
        assert_eq!(v.check_password("pw"), Ok(()));
    }
    v.add_service("pw", "a", &bundle("u", "s", None)).unwrap();
    assert_eq!(v.check_password("pw"), Ok(()));
    assert_eq!(v.check_password("nope"), Err(VaultError::IncorrectPassword));
}

#[test]
fn add_then_get_returns_bundle() {
    let mut v = cheap_vault("pw");
    let b = bundle("alice", "s3cr3t", None);
    v.add_service("pw", "github", &b).unwrap();
    assert_eq!(v.get_service("pw", "github").unwrap(), b);
}

#[test]
fn delete_then_get_fails() {
    let mut v = cheap_vault("pw");
    v.add_service("pw", "github", &bundle("alice", "s3cr3t", None)).unwrap();
    v.add_service("pw", "mail", &bundle("a", "b", None)).unwrap();
    v.delete_service("pw", "github").unwrap();
    assert_eq!(v.get_service("pw", "github"), Err(VaultError::ServiceNotFound));
    assert_eq!(v.list_services("pw").unwrap(), vec!["mail".to_string()]);
    assert_eq!(v.delete_service("pw", "github"), Err(VaultError::ServiceNotFound));
}

#[test]
fn delete_with_wrong_password_changes_nothing() {
    let mut v = cheap_vault("pw");
    v.add_service("pw", "github", &bundle("alice", "s3cr3t", None)).unwrap();
    assert_eq!(v.delete_service("bad", "github"), Err(VaultError::IncorrectPassword));
    assert_eq!(v.list_services("pw").unwrap(), vec!["github".to_string()]);
    assert_eq!(v.add_service("bad", "x", &bundle("a", "b", None)), Err(VaultError::IncorrectPassword));
    assert_eq!(v.secrets.len(), 1);
}

#[test]
fn add_twice_keeps_second() {
    let mut v = cheap_vault("pw");
    v.add_service("pw", "github", &bundle("alice", "one", None)).unwrap();
    v.add_service("pw", "github", &bundle("alice", "two", Some("n"))).unwrap();
    assert_eq!(v.get_service("pw", "github").unwrap(), bundle("alice", "two", Some("n")));
    assert_eq!(v.list_services("pw").unwrap(), vec!["github".to_string()]);
}

#[test]
fn corrupt_salt_is_reported() {
    let mut v = cheap_vault("pw");
    v.salt_b64 = "%%%".to_string();
    assert_eq!(v.check_password("pw"), Err(VaultError::CorruptVault));
}

#[test]
fn tampered_record_fails_authentication() {
    let mut v = cheap_vault("pw");
    v.add_service("pw", "github", &bundle("alice", "s3cr3t", None)).unwrap();
    let other = encrypt(&[0u8; 32], b"{}").unwrap();
    v.secrets[0].1 = EncRecord { nonce_b64: other.0, ct_b64: other.1 };
    assert_eq!(v.get_service("pw", "github"), Err(VaultError::AuthenticationFailure));
}

#[test]
fn end_to_end_scenario() {
    let mut v = Vault::init("Tr0ub4dor").unwrap();
    let b = bundle("bob", "p@ss", Some("backup code: 1234"));
    v.add_service("Tr0ub4dor", "email", &b).unwrap();
    let got = v.get_service("Tr0ub4dor", "email").unwrap();
    assert_eq!(got, bundle("bob", "p@ss", Some("backup code: 1234")));
    assert_eq!(v.list_services("Tr0ub4dor").unwrap(), vec!["email".to_string()]);
}

#[test]
fn seal_with_nonce_is_exact() {
    let key = [7u8; 32];
    let nonce = [9u8; 12];
    let (n1, c1) = seal_with_nonce(&key, &nonce, b"payload").unwrap();
    let (n2, c2) = seal_with_nonce(&key, &nonce, b"payload").unwrap();
    assert_eq!(n1, encode_b64(&nonce));
    assert_eq!((n1.clone(), c1.clone()), (n2, c2));
    let ct = decode_b64(&c1).unwrap();
    assert_eq!(ct.len(), 7 + 16);
    assert_ne!(&ct[..7], b"payload");
    assert_eq!(decrypt(&key, &nonce, &ct).unwrap(), b"payload".to_vec());
    let (_, other) = seal_with_nonce(&key, &[8u8; 12], b"payload").unwrap();
    assert_ne!(c1, other);
}
