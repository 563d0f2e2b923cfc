use pwdv::crypto::open;
use pwdv::error::VaultError;
use pwdv::format::KdfParams;
use pwdv::store::{
    accept, change_password_with_params, create_with_params, load, load_with_key, save_with_key, save_with_params,
};
use pwdv::vault::{Entry, VaultData, DATA_VERSION};

const FAST: KdfParams = KdfParams {
    m_cost: 8192,
    t_cost: 1,
    p_cost: 1,
};

#[test]
fn saved_bytes_load_back() {
    let file = save_with_params(b"pw", b"{\"version\":1}", FAST).unwrap();
    assert_eq!(load(&file, b"pw").unwrap().as_slice(), b"{\"version\":1}");
    assert!(matches!(load(&file, b"nope"), Err(VaultError::AuthFailed)));
}

#[test]
fn create_refuses_a_taken_path_before_deriving_a_key() {
    let err = create_with_params(true, b"pw", b"{}", FAST).map(drop).unwrap_err();
    match err {
        VaultError::Io(e) => assert_eq!(e.kind(), std::io::ErrorKind::AlreadyExists),
        other => panic!("expected AlreadyExists, got {other:?}"),
    }
    let (key, file) = create_with_params(false, b"pw", b"{}", FAST).unwrap();
    assert!(key.matches(&file));
}

#[test]
fn saving_with_the_key_needs_the_file_it_was_opened_from() {
    let (key, first) = create_with_params(false, b"pw", b"first", FAST).unwrap();
    let second = save_with_key(&key, b"second", &first).unwrap();
    assert_eq!(&second[..106], &first[..106]);
    assert_eq!(open(b"pw", &second).unwrap().as_slice(), b"second");

    let rewritten = save_with_params(b"pw", b"other", FAST).unwrap();
    assert!(matches!(save_with_key(&key, b"third", &rewritten), Err(VaultError::Conflict)));
}

#[test]
fn a_password_change_keeps_the_contents_and_breaks_old_keys() {
    let (key, file) = create_with_params(false, b"old", b"secret", FAST).unwrap();
    let changed = change_password_with_params(&file, b"old", b"new", FAST).unwrap();
    assert_eq!(&changed[106..], &file[106..]);
    let (_, json) = load_with_key(&changed, b"new").unwrap();
    assert_eq!(json.as_slice(), b"secret");
    assert!(matches!(save_with_key(&key, b"x", &changed), Err(VaultError::Conflict)));
    assert!(matches!(change_password_with_params(&file, b"wrong", b"new", FAST), Err(VaultError::AuthFailed)));
}

#[test]
fn only_the_known_schema_is_accepted() {
    let mut data = VaultData::default();
    data.entries.push(Entry::new("a".into(), "b".into(), "c".into(), None, None));
    let data = accept(data).unwrap();
    assert_eq!(data.version, DATA_VERSION);
    assert_eq!(data.entries.len(), 1);
    let future = VaultData { version: 2, entries: Vec::new() };
    assert!(matches!(accept(future), Err(VaultError::Malformed)));
}
