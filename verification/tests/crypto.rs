use pwdv::crypto::{
    change_master, dek_aad, open, open_with_key, reseal, seal, seal_with_key, derive_kek, MAX_M_COST,
};
use pwdv::error::VaultError;
use pwdv::format::{KdfParams, HEADER_LEN};
use pwdv::key::Key32;

const FAST: KdfParams = KdfParams {
    m_cost: 8192,
    t_cost: 1,
    p_cost: 1,
};

#[test]
fn aad_ranges_match_spec() {
    let mut header = [0u8; HEADER_LEN];
    for (i, b) in header.iter_mut().enumerate() {
        *b = i as u8;
    }
    assert_eq!(dek_aad(&header).as_slice(), &header[0..34]);
    assert_eq!(
        pwdv::crypto::vault_aad(&header).to_vec(),
        [&header[0..6], &header[106..130]].concat()
    );
}

#[test]
fn seal_open_roundtrip() {
    for plaintext in [&b""[..], b"x", &[0xab; 4096]] {
        let file = seal(b"pw", plaintext, FAST).unwrap();
        assert_eq!(file.len(), HEADER_LEN + plaintext.len() + 16);
        assert_eq!(open(b"pw", &file).unwrap().as_slice(), plaintext);
    }
}

#[test]
fn crypto_wrong_password_is_auth_failed() {
    let file = seal(b"pw", b"secret", FAST).unwrap();
    assert!(matches!(open(b"pW", &file), Err(VaultError::AuthFailed)));
}

#[test]
fn change_master_rewraps_dek_only() {
    let file = seal(b"old", b"secret", FAST).unwrap();
    let changed = change_master(b"old", b"new", &file, FAST).unwrap();

    assert_eq!(&changed[106..], &file[106..]);
    assert_ne!(&changed[18..34], &file[18..34], "salt");
    assert_ne!(&changed[34..58], &file[34..58], "dek_nonce");
    assert_eq!(open(b"new", &changed).unwrap().as_slice(), b"secret");
    assert!(matches!(open(b"old", &changed), Err(VaultError::AuthFailed)));
}

#[test]
fn change_master_rejects_corrupted_vault() {
    let mut file = seal(b"old", b"secret", FAST).unwrap();
    *file.last_mut().unwrap() ^= 0x01;
    assert!(matches!(change_master(b"old", b"new", &file, FAST), Err(VaultError::AuthFailed)));
}

#[test]
fn hostile_kdf_params_are_auth_failed() {
    let file = seal(b"pw", b"secret", FAST).unwrap();
    for (offset, value) in [(6, u32::MAX), (10, u32::MAX), (14, u32::MAX), (10, 0), (14, 0)] {
        let mut bad = file.clone();
        bad[offset..offset + 4].copy_from_slice(&value.to_le_bytes());
        assert!(
            matches!(open(b"pw", &bad), Err(VaultError::AuthFailed)),
            "offset {offset} value {value}"
        );
    }
}

#[test]
fn seal_rejects_params_above_limits() {
    let params = KdfParams {
        m_cost: MAX_M_COST + 1,
        ..FAST
    };
    assert!(matches!(seal(b"pw", b"x", params), Err(VaultError::Kdf(_))));
}

#[test]
fn reseal_keeps_key_header_and_draws_a_fresh_nonce() {
    let (key, file) = seal_with_key(b"pw", b"first", FAST).unwrap();
    let a = reseal(&key, b"second").unwrap();
    let b = reseal(&key, b"second").unwrap();

    assert_eq!(&a[..106], &file[..106]);
    assert_eq!(&b[..106], &file[..106]);
    assert_ne!(&a[106..130], &file[106..130]);
    assert_ne!(&a[106..130], &b[106..130]);
    assert_ne!(&a[130..], &b[130..]);
    assert_eq!(open(b"pw", &a).unwrap().as_slice(), b"second");
    assert!(key.matches(&a) && key.matches(&file));
}

#[test]
fn key_from_open_reseals_under_the_same_password() {
    let file = seal(b"pw", b"secret", FAST).unwrap();
    let (key, plaintext) = open_with_key(b"pw", &file).unwrap();
    assert_eq!(plaintext.as_slice(), b"secret");

    let resealed = reseal(&key, b"updated").unwrap();
    assert_eq!(open(b"pw", &resealed).unwrap().as_slice(), b"updated");
    assert!(matches!(open(b"other", &resealed), Err(VaultError::AuthFailed)));
}

#[test]
fn resealed_file_detects_tampering() {
    let (key, _) = seal_with_key(b"pw", b"secret", FAST).unwrap();
    let file = reseal(&key, b"secret").unwrap();
    for offset in [0, 4, 5, 8, 20, 40, 80, 110, 129, 130, file.len() - 1] {
        let mut bad = file.clone();
        bad[offset] ^= 0x01;
        assert!(open(b"pw", &bad).is_err(), "offset {offset}");
    }
}

#[test]
fn key_does_not_match_after_password_change_or_truncation() {
    let (key, file) = seal_with_key(b"old", b"secret", FAST).unwrap();
    let changed = change_master(b"old", b"new", &file, FAST).unwrap();
    assert!(!key.matches(&changed));
    assert!(!key.matches(&file[..50]));
    assert!(!key.matches(&[]));
}

#[test]
fn random_keys_are_filled_and_distinct() {
    let a = Key32::random().unwrap();
    let b = Key32::random().unwrap();
    assert_ne!(a.as_bytes(), &[0u8; 32]);
    assert_ne!(a.as_bytes(), b.as_bytes());
}

#[test]
fn limits_are_checked_before_argon2_with_their_own_message() {
    let params = KdfParams { t_cost: 65, ..FAST };
    match derive_kek(b"pw", &[0u8; 16], &params) {
        Err(VaultError::Kdf(message)) => assert_eq!(message, "KDF parameters above allowed limits"),
        _ => panic!("expected a KDF error"),
    }
}

#[test]
fn argon2_refusals_are_kdf_errors() {
    let params = KdfParams { m_cost: 4, t_cost: 1, p_cost: 1 };
    assert!(matches!(derive_kek(b"pw", &[0u8; 16], &params), Err(VaultError::Kdf(_))));
}

#[test]
fn kek_depends_on_password_and_salt_and_is_stable() {
    let a = derive_kek(b"pw", &[1u8; 16], &FAST).unwrap();
    let b = derive_kek(b"pw", &[1u8; 16], &FAST).unwrap();
    let c = derive_kek(b"pW", &[1u8; 16], &FAST).unwrap();
    let d = derive_kek(b"pw", &[2u8; 16], &FAST).unwrap();
    assert_eq!(a.as_bytes(), b.as_bytes());
    assert_ne!(a.as_bytes(), c.as_bytes());
    assert_ne!(a.as_bytes(), d.as_bytes());
}

#[test]
fn key32_gives_back_its_bytes() {
    let k = Key32::from_bytes([7u8; 32]);
    assert_eq!(k.as_bytes(), &[7u8; 32]);
}
