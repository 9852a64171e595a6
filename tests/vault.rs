use vault_core::codec::{decrypt, encrypt, encrypt_with_nonce, VaultError, NONCE_LEN};
use vault_core::key::{fetch_key, generate_key, key_from_entry, KeyFetch, SecureKey, StoreRead, KEY_LEN};
use vault_core::store::{check_payload, empty_vault, load_vault, seal_vault, wants_key, MAX_VAULT_BYTES};

fn fixed_key(b: u8) -> SecureKey {
    SecureKey::from_bytes(vec![b; KEY_LEN])
}

#[test]
fn encrypt_then_decrypt_gives_the_plaintext_back() {
    let key = generate_key().unwrap().key;
    for p in [Vec::new(), b"[]".to_vec(), vec![7u8; 100_000]] {
        let sealed = encrypt(&p, &key).unwrap();
        assert_eq!(sealed.nonce.len(), NONCE_LEN);
        assert_eq!(sealed.ciphertext.len(), p.len() + 16);
        if !p.is_empty() {
            assert_ne!(&sealed.ciphertext[..p.len()], &p[..]);
        }
        assert_eq!(decrypt(&sealed.ciphertext, &sealed.nonce, &key).unwrap(), p);
    }
}

#[test]
fn a_flipped_bit_fails_authentication() {
    let key = fixed_key(9);
    let sealed = encrypt_with_nonce(b"secret vault", &key, vec![1u8; NONCE_LEN]).unwrap();
    for i in 0..sealed.ciphertext.len() {
        let mut c = sealed.ciphertext.clone();
        c[i] ^= 0x10;
        assert_eq!(decrypt(&c, &sealed.nonce, &key), Err(VaultError::AuthenticationFailure));
    }
    let mut n = sealed.nonce.clone();
    n[0] ^= 1;
    assert_eq!(decrypt(&sealed.ciphertext, &n, &key), Err(VaultError::AuthenticationFailure));
    assert_eq!(decrypt(&sealed.ciphertext, &sealed.nonce, &fixed_key(8)), Err(VaultError::AuthenticationFailure));
}

#[test]
fn a_nonce_of_wrong_length_is_refused() {
    let key = fixed_key(3);
    let sealed = encrypt_with_nonce(b"x", &key, vec![0u8; NONCE_LEN]).unwrap();
    assert_eq!(decrypt(&sealed.ciphertext, &sealed.nonce[..11], &key), Err(VaultError::Validation));
    assert_eq!(decrypt(&sealed.ciphertext, &[0u8; 13], &key), Err(VaultError::Validation));
}

#[test]
fn a_stored_key_reads_back_the_same_each_time() {
    let created = generate_key().unwrap();
    let first = key_from_entry(&created.entry).unwrap();
    let second = key_from_entry(&created.entry).unwrap();
    assert_eq!(first.as_slice(), created.key.as_slice());
    assert_eq!(first.as_slice(), second.as_slice());
    assert_eq!(first.as_slice().len(), KEY_LEN);
    assert_ne!(created.entry.as_bytes(), created.key.as_slice());
}

#[test]
fn a_fixed_entry_gives_its_key() {
    let entry = "AAECAwQFBgcICQoLDA0ODxAREhMUFRYXGBkaGxwdHh8=";
    let key = key_from_entry(entry).unwrap();
    let expected: Vec<u8> = (0u8..32).collect();
    assert_eq!(key.as_slice(), &expected[..]);
}

#[test]
fn corrupt_entries_give_no_key() {
    assert!(key_from_entry("AAECAwQFBgcICQoLDA0ODw==").is_none());
    assert!(key_from_entry("not base64 at all!").is_none());
    assert!(key_from_entry("").is_none());
}

#[test]
fn fresh_keys_differ() {
    let a = generate_key().unwrap();
    let b = generate_key().unwrap();
    assert_ne!(a.key.as_slice(), b.key.as_slice());
}

#[test]
fn wiping_a_key_empties_it() {
    let mut key = fixed_key(5);
    key.wipe();
    assert!(key.as_slice().is_empty());
}

#[test]
fn payload_limits_are_enforced() {
    assert_eq!(check_payload(""), Err(VaultError::Validation));
    assert_eq!(check_payload("[]"), Ok(()));
    let big = "a".repeat(MAX_VAULT_BYTES + 1);
    assert_eq!(check_payload(&big), Err(VaultError::Validation));
    let max = "a".repeat(MAX_VAULT_BYTES);
    assert_eq!(check_payload(&max), Ok(()));
    let key = fixed_key(1);
    assert!(matches!(seal_vault("", &key), Err(VaultError::Validation)));
    assert!(matches!(seal_vault(&big, &key), Err(VaultError::Validation)));
}

#[test]
fn a_sealed_vault_loads_back() {
    let key = fixed_key(2);
    let text = r#"[{"id":1,"website":"a.com","username":"u","password":"p","category":"General","favorite":false,"notes":""}]"#;
    let sealed = seal_vault(text, &key).unwrap();
    assert_eq!(sealed.ciphertext.len(), text.len() + 16);
    assert_eq!(sealed.nonce.len(), NONCE_LEN);
    let c = Some(sealed.ciphertext.clone());
    let n = Some(sealed.nonce.clone());
    assert!(wants_key(&c, &n));
    assert_eq!(load_vault(c, n, Some(fixed_key(2))), text);
}

#[test]
fn load_falls_back_to_the_empty_vault() {
    let key = fixed_key(4);
    let sealed = seal_vault("[1]", &key).unwrap();
    let mut tampered = sealed.ciphertext.clone();
    tampered[0] ^= 1;
    assert_eq!(empty_vault(), "[]");
    assert_eq!(load_vault(Some(tampered), Some(sealed.nonce.clone()), Some(fixed_key(4))), "[]");
    assert_eq!(load_vault(None, Some(sealed.nonce.clone()), Some(fixed_key(4))), "[]");
    assert_eq!(load_vault(Some(sealed.ciphertext.clone()), None, Some(fixed_key(4))), "[]");
    assert_eq!(load_vault(Some(sealed.ciphertext.clone()), Some(sealed.nonce.clone()), None), "[]");
    assert_eq!(load_vault(Some(sealed.ciphertext.clone()), Some(vec![0u8; 5]), Some(fixed_key(4))), "[]");
    assert_eq!(load_vault(Some(sealed.ciphertext.clone()), Some(sealed.nonce.clone()), Some(SecureKey::from_bytes(vec![4u8; 16]))), "[]");
    assert!(!wants_key(&None, &Some(sealed.nonce.clone())));
    assert!(!wants_key(&Some(vec![1]), &Some(vec![0u8; 11])));
}

#[test]
fn invalid_utf8_plaintext_loads_lossily() {
    let key = fixed_key(6);
    let sealed = encrypt_with_nonce(&[b'a', 0xff, b'b'], &key, vec![2u8; NONCE_LEN]).unwrap();
    assert_eq!(load_vault(Some(sealed.ciphertext), Some(sealed.nonce), Some(fixed_key(6))), "a\u{fffd}b");
}

#[test]
fn fetching_twice_from_one_store_state_gives_the_same_key() {
    let created = match fetch_key(&StoreRead::NoEntry) {
        KeyFetch::Created(n) => n,
        _ => panic!("an empty store must lead to a new key"),
    };
    let first = match fetch_key(&StoreRead::Entry(created.entry.clone())) {
        KeyFetch::Found(k) => k,
        _ => panic!("a stored key must be found"),
    };
    let second = match fetch_key(&StoreRead::Entry(created.entry.clone())) {
        KeyFetch::Found(k) => k,
        _ => panic!("a stored key must be found"),
    };
    assert_eq!(first.as_slice(), created.key.as_slice());
    assert_eq!(first.as_slice(), second.as_slice());
}

#[test]
fn a_corrupt_entry_leads_to_a_new_key() {
    match fetch_key(&StoreRead::Entry("AAECAwQFBgcICQoLDA0ODw==".to_string())) {
        KeyFetch::Created(n) => assert_eq!(n.key.as_slice().len(), KEY_LEN),
        _ => panic!("a corrupt entry must lead to a new key"),
    }
}

#[test]
fn an_unavailable_store_makes_no_key() {
    assert!(matches!(fetch_key(&StoreRead::Unavailable), KeyFetch::StoreUnavailable));
}
