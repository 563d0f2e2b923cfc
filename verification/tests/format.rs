use pwdv::error::VaultError;
use pwdv::format::{Header, KdfParams, MIN_FILE_LEN, TAG_LEN};

fn sample() -> Header {
    Header {
        version: 1,
        kdf_id: 1,
        kdf: KdfParams {
            m_cost: 0x0102_0304,
            t_cost: 0x0506_0708,
            p_cost: 0x090a_0b0c,
        },
        salt: [0x11; 16],
        dek_nonce: [0x22; 24],
        wrapped_dek: [0x33; 48],
        vault_nonce: [0x44; 24],
    }
}

fn sample_file() -> Vec<u8> {
    let mut file = sample().to_bytes().to_vec();
    file.extend_from_slice(&[0xee; TAG_LEN + 5]);
    file
}

#[test]
fn layout_matches_spec_table() {
    let b = sample().to_bytes();
    assert_eq!(&b[0..4], b"PWDV");
    assert_eq!(b[4], 1);
    assert_eq!(b[5], 1);
    assert_eq!(&b[6..10], &[0x04, 0x03, 0x02, 0x01]);
    assert_eq!(&b[10..14], &[0x08, 0x07, 0x06, 0x05]);
    assert_eq!(&b[14..18], &[0x0c, 0x0b, 0x0a, 0x09]);
    assert_eq!(&b[18..34], &[0x11; 16]);
    assert_eq!(&b[34..58], &[0x22; 24]);
    assert_eq!(&b[58..106], &[0x33; 48]);
    assert_eq!(&b[106..130], &[0x44; 24]);
}

#[test]
fn roundtrip_and_ciphertext_split() {
    let file = sample_file();
    let (h, ct) = Header::parse(&file).unwrap();
    assert_eq!(h, sample());
    assert_eq!(ct, &file[130..]);
}

#[test]
fn default_kdf_params() {
    let p = KdfParams::default();
    assert_eq!((p.m_cost, p.t_cost, p.p_cost), (65536, 3, 4));
}

#[test]
fn every_short_length_is_err() {
    let file = sample_file();
    for len in 0..MIN_FILE_LEN {
        assert!(Header::parse(&file[..len]).is_err(), "len {len}");
    }
    assert!(Header::parse(&file[..MIN_FILE_LEN]).is_ok());
}

#[test]
fn bad_magic() {
    let mut file = sample_file();
    file[0] ^= 0x01;
    assert!(matches!(Header::parse(&file), Err(VaultError::BadMagic)));
}

#[test]
fn bad_version() {
    let mut file = sample_file();
    file[4] = 2;
    assert!(matches!(Header::parse(&file), Err(VaultError::UnsupportedVersion(2))));
}

#[test]
fn bad_kdf_id() {
    let mut file = sample_file();
    file[5] = 2;
    assert!(matches!(Header::parse(&file), Err(VaultError::Kdf(_))));
}

#[test]
fn unknown_kdf_id_is_named_in_the_message() {
    let mut file = sample_file();
    file[5] = 207;
    match Header::parse(&file) {
        Err(VaultError::Kdf(message)) => assert_eq!(message, "unsupported kdf_id 207"),
        _ => panic!("expected a KDF error"),
    }
}

#[test]
fn short_input_errors_come_in_order() {
    assert!(matches!(Header::parse(b"PW"), Err(VaultError::Truncated)));
    assert!(matches!(Header::parse(b"PWDX"), Err(VaultError::BadMagic)));
    assert!(matches!(Header::parse(b"PWDV"), Err(VaultError::Truncated)));
    assert!(matches!(Header::parse(b"PWDV\x07"), Err(VaultError::UnsupportedVersion(7))));
    assert!(matches!(Header::parse(b"PWDV\x01\x09"), Err(VaultError::Truncated)));
}
