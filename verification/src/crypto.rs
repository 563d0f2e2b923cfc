//! Cryptographic core: password → Argon2id → KEK; the KEK encrypts the DEK;
//! the DEK encrypts the vault. Changing the password re-encrypts only the DEK.

use vstd::prelude::*;

use crate::error::{io_error, IoKind, VaultError};
use crate::format::{
    field, header_bytes, lemma_header_fields, le_value, parse_failure, reports, Header, KdfParams, ParseFailure,
    HEADER_LEN, KDF_ARGON2ID, MAGIC, NONCE_LEN, OFF_DEK_NONCE, OFF_M_COST, OFF_VAULT_NONCE,
    VERSION, WRAPPED_DEK_LEN,
};
use crate::key::{random_array, Key32, SecretBytes};
use crate::wipe::wipe_bytes;
use chacha20poly1305::aead::{Aead, AeadInPlace, KeyInit, Payload};

verus! {

#[verifier::external_type_specification]
#[verifier::external_body]
pub struct ExArgon2Error(argon2::Error);

#[verifier::external_type_specification]
#[verifier::external_body]
pub struct ExAeadError(chacha20poly1305::Error);

/// Upper limits on the KDF parameters. They are in clear in the file and are
/// used before anything is authenticated: without limits a tampered header
/// could ask Argon2 for terabytes of memory or hours of work.
pub const MAX_M_COST: u32 = 1048576;
/// At most 64 passes.
pub const MAX_T_COST: u32 = 64;
/// At most 64 lanes.
pub const MAX_P_COST: u32 = 64;

/// AAD of wrapping and unwrapping the DEK: magic, version, kdf_id, KDF parameters, salt.
pub const DEK_AAD_LEN: usize = 34;
/// AAD of the vault: magic, version, kdf_id, vault nonce.
pub const VAULT_AAD_LEN: usize = 30;

/// The 32-byte output of Argon2id (version 0x13, no secret, no associated
/// data) for this password, salt and cost parameters.
pub uninterp spec fn argon2id_kek(password: Seq<u8>, salt: Seq<u8>, m_cost: u32, t_cost: u32, p_cost: u32) -> Seq<u8>;

/// XChaCha20-Poly1305 encryption of `plaintext`: ciphertext followed by the 16-byte tag.
pub uninterp spec fn xchacha20poly1305_encrypt(key: Seq<u8>, nonce: Seq<u8>, aad: Seq<u8>, plaintext: Seq<u8>) -> Seq<u8>;

/// XChaCha20-Poly1305 decryption: `None` when the tag does not authenticate.
pub uninterp spec fn xchacha20poly1305_decrypt(key: Seq<u8>, nonce: Seq<u8>, aad: Seq<u8>, ciphertext: Seq<u8>) -> Option<Seq<u8>>;

/// What `argon2::Params::new` (with a 32-byte output) and the hashing accept.
pub open spec fn argon2_accepts(password_len: nat, p: KdfParams) -> bool {
    &&& p.m_cost >= 8
    &&& p.m_cost >= 8 * p.p_cost
    &&& p.t_cost >= 1
    &&& 1 <= p.p_cost <= 0xFFFFFF
    &&& password_len <= 0xFFFF_FFFF
}

/// The parameters are within the library's limits.
pub open spec fn within_limits(p: KdfParams) -> bool {
    p.m_cost <= MAX_M_COST && p.t_cost <= MAX_T_COST && p.p_cost <= MAX_P_COST
}

/// [`derive_kek`] succeeds on this password and these parameters.
pub open spec fn kdf_usable(password: Seq<u8>, p: KdfParams) -> bool {
    within_limits(p) && argon2_accepts(password.len(), p)
}

/// The KEK of `password` with this salt and these parameters.
pub open spec fn kek(password: Seq<u8>, salt: Seq<u8>, p: KdfParams) -> Seq<u8> {
    argon2id_kek(password, salt, p.m_cost, p.t_cost, p.p_cost)
}

/// Plaintexts that XChaCha20-Poly1305 in this crate version agrees to encrypt.
pub open spec fn encryptable(len: nat) -> bool {
    len / 64 < 0xFFFF_FFFF
}

/// `header[0..34]`: magic, version, kdf_id, KDF parameters and salt.
pub open spec fn dek_aad_of(header: Seq<u8>) -> Seq<u8> {
    header.subrange(0, 34)
}

/// `header[0..6] ++ header[106..130]`. The KDF parameters and the salt are
/// left out so that a password change does not touch the ciphertext: they are
/// authenticated by the unwrapping of the DEK.
pub open spec fn vault_aad_of(header: Seq<u8>) -> Seq<u8> {
    header.subrange(0, 6) + header.subrange(106, 130)
}

/// The KDF parameters written in a header.
pub open spec fn params_of(header: Seq<u8>) -> KdfParams {
    KdfParams {
        m_cost: le_value(header.subrange(6, 10)),
        t_cost: le_value(header.subrange(10, 14)),
        p_cost: le_value(header.subrange(14, 18)),
    }
}

/// `prefix` (the first 106 bytes of a header: magic to wrapped DEK) holds
/// `dek` encrypted under the KEK that `password` derives with the salt and
/// parameters written in it.
pub open spec fn wraps(prefix: Seq<u8>, password: Seq<u8>, dek: Seq<u8>) -> bool {
    &&& prefix.len() == 106
    &&& dek.len() == 32
    &&& prefix.subrange(0, 4) == MAGIC@
    &&& prefix[4] == VERSION
    &&& prefix[5] == KDF_ARGON2ID
    &&& kdf_usable(password, params_of(prefix))
    &&& prefix.subrange(58, 106) == xchacha20poly1305_encrypt(
        kek(password, prefix.subrange(18, 34), params_of(prefix)),
        prefix.subrange(34, 58),
        prefix.subrange(0, 34),
        dek,
    )
}

/// After its 130-byte header, `file` holds `plaintext` encrypted under `dek`
/// with the vault nonce and the vault AAD of that header.
pub open spec fn encrypts(file: Seq<u8>, dek: Seq<u8>, plaintext: Seq<u8>) -> bool {
    &&& file.len() == 130 + plaintext.len() + 16
    &&& encryptable(plaintext.len())
    &&& file.subrange(130, file.len() as int) == xchacha20poly1305_encrypt(
        dek,
        file.subrange(106, 130),
        vault_aad_of(file.subrange(0, 130)),
        plaintext,
    )
}

/// `file` is a vault holding `plaintext` under `dek`, itself under `password`.
pub open spec fn seals(file: Seq<u8>, password: Seq<u8>, dek: Seq<u8>, plaintext: Seq<u8>) -> bool {
    file.len() >= 130 && wraps(file.subrange(0, 106), password, dek) && encrypts(file, dek, plaintext)
}

/// `file` is a vault that holds `plaintext` under `password`, whatever its DEK.
pub open spec fn holds(file: Seq<u8>, password: Seq<u8>, plaintext: Seq<u8>) -> bool {
    exists|dek: Seq<u8>| #[trigger] seals(file, password, dek, plaintext)
}

/// Why a file does not open.
pub enum OpenFailure {
    Format(ParseFailure),
    /// Wrong password or tampered file.
    AuthFailed,
}

/// The DEK that `password` unwraps from a 130-byte header, if it does.
pub open spec fn unwrap_outcome(password: Seq<u8>, h: Seq<u8>) -> Option<Seq<u8>> {
    let p = params_of(h);
    if !kdf_usable(password, p) {
        None
    } else {
        match xchacha20poly1305_decrypt(kek(password, h.subrange(18, 34), p), h.subrange(34, 58), dek_aad_of(h), h.subrange(58, 106)) {
            Some(dek) => if dek.len() == 32 { Some(dek) } else { None },
            None => None,
        }
    }
}

/// What opening `file` with `password` gives: the DEK and the plaintext.
pub open spec fn open_outcome(password: Seq<u8>, file: Seq<u8>) -> Result<(Seq<u8>, Seq<u8>), OpenFailure> {
    match parse_failure(file) {
        Some(f) => Err(OpenFailure::Format(f)),
        None => {
            let h = file.subrange(0, 130);
            match unwrap_outcome(password, h) {
                None => Err(OpenFailure::AuthFailed),
                Some(dek) => match xchacha20poly1305_decrypt(dek, h.subrange(106, 130), vault_aad_of(h), file.subrange(130, file.len() as int)) {
                    None => Err(OpenFailure::AuthFailed),
                    Some(plaintext) => Ok((dek, plaintext)),
                },
            }
        },
    }
}

/// `e` is the error reported for `failure`.
pub open spec fn reports_open(e: VaultError, failure: OpenFailure) -> bool {
    match failure {
        OpenFailure::Format(f) => reports(e, f),
        OpenFailure::AuthFailed => e is AuthFailed,
    }
}

/// `e` is the error reported for a file that does not open.
pub open spec fn reports_outcome<T>(e: VaultError, outcome: Result<T, OpenFailure>) -> bool {
    match outcome {
        Err(f) => reports_open(e, f),
        Ok(_) => false,
    }
}

/// Reading a field of the 106-byte prefix is reading it in the header.
pub proof fn lemma_prefix_fields(raw: Seq<u8>)
    requires
        raw.len() >= 106,
    ensures
        ({
            let p = raw.subrange(0, 106);
            &&& p.subrange(0, 4) == raw.subrange(0, 4)
            &&& p[4] == raw[4]
            &&& p[5] == raw[5]
            &&& params_of(p) == params_of(raw)
            &&& p.subrange(0, 34) == raw.subrange(0, 34)
            &&& p.subrange(18, 34) == raw.subrange(18, 34)
            &&& p.subrange(34, 58) == raw.subrange(34, 58)
            &&& p.subrange(58, 106) == raw.subrange(58, 106)
        }),
{
    let p = raw.subrange(0, 106);
    assert(p.subrange(0, 4) =~= raw.subrange(0, 4));
    assert(p.subrange(6, 10) =~= raw.subrange(6, 10));
    assert(p.subrange(10, 14) =~= raw.subrange(10, 14));
    assert(p.subrange(14, 18) =~= raw.subrange(14, 18));
    assert(p.subrange(0, 34) =~= raw.subrange(0, 34));
    assert(p.subrange(18, 34) =~= raw.subrange(18, 34));
    assert(p.subrange(34, 58) =~= raw.subrange(34, 58));
    assert(p.subrange(58, 106) =~= raw.subrange(58, 106));
}

/// The key of a vault (from [`open_with_key`] or [`seal_with_key`]) carries
/// the header prefix that wraps its DEK under the vault's password.
pub proof fn lemma_key_wraps_dek(key: (Seq<u8>, Seq<u8>), file: Seq<u8>, password: Seq<u8>, plaintext: Seq<u8>)
    requires
        key_matches(key, file),
        seals(file, password, key.0, plaintext),
    ensures
        wraps(key.1, password, key.0),
{
}

/// What [`reseal`] writes with such a key opens with the same password and
/// gives back the new plaintext.
pub proof fn lemma_resealed_vault_opens(key: (Seq<u8>, Seq<u8>), file: Seq<u8>, password: Seq<u8>, plaintext: Seq<u8>)
    requires
        wraps(key.1, password, key.0),
        key_matches(key, file),
        encrypts(file, key.0, plaintext),
    ensures
        seals(file, password, key.0, plaintext),
        holds(file, password, plaintext),
{
    assert(seals(file, password, key.0, plaintext));
}

/// Argon2id v0x13 with a 32-byte output: `argon2::Params::new`, `Argon2::new`
/// and `Argon2::hash_password_into_with_memory` over a work area that is
/// zeroed when dropped (`hash_password_into` would free Argon2's matrix
/// without zeroing it, and the output can be recomputed from its last
/// blocks). Claimed: success exactly on the parameters and password lengths
/// that the crate accepts, and then the output is [`argon2id_kek`] of the
/// arguments. Only called within the library's limits: beyond them the work
/// area could not be allocated.
#[verifier::external_body]
fn argon2id_hash(password: &[u8], salt: &[u8; 16], p: KdfParams) -> (r: Result<[u8; 32], argon2::Error>)
    requires
        within_limits(p),
    ensures
        r is Ok <==> argon2_accepts(password@.len(), p),
        r matches Ok(k) ==> k@ == argon2id_kek(password@, salt@, p.m_cost, p.t_cost, p.p_cost),
{
    let params = argon2::Params::new(p.m_cost, p.t_cost, p.p_cost, Some(32))?;
    let argon2 = argon2::Argon2::new(argon2::Algorithm::Argon2id, argon2::Version::V0x13, params);
    let mut memory = zeroize::Zeroizing::new(vec![argon2::Block::default(); argon2.params().block_count()]);
    let mut out = [0u8; 32];
    argon2.hash_password_into_with_memory(password, salt, &mut out, memory.as_mut_slice())?;
    Ok(out)
}

/// The `Display` text of an `argon2::Error`.
#[verifier::external_body]
fn argon2_error_text(e: &argon2::Error) -> String {
    format!("{e}")
}

/// `XChaCha20Poly1305::encrypt` (chacha20poly1305 0.10). Claimed: it fails
/// only when the plaintext has 2^32 - 1 or more 64-byte blocks; the output is
/// [`xchacha20poly1305_encrypt`] of the arguments, 16 bytes longer than the
/// plaintext; and no other plaintext that it would encrypt gives the same
/// ciphertext under the same key, nonce and AAD (the keystream XOR is
/// one-to-one).
#[verifier::external_body]
fn aead_encrypt(key: &[u8; 32], nonce: &[u8; 24], aad: &[u8], plaintext: &[u8]) -> (r: Result<Vec<u8>, chacha20poly1305::Error>)
    ensures
        r is Ok <==> encryptable(plaintext@.len()),
        r matches Ok(c) ==> {
            &&& c@ == xchacha20poly1305_encrypt(key@, nonce@, aad@, plaintext@)
            &&& c@.len() == plaintext@.len() + 16
            &&& forall|m: Seq<u8>| encryptable(m.len()) && #[trigger] xchacha20poly1305_encrypt(key@, nonce@, aad@, m) == c@
                ==> m == plaintext@
        },
{
    chacha20poly1305::XChaCha20Poly1305::new(key.into()).encrypt(nonce.into(), Payload { msg: plaintext, aad })
}

/// `XChaCha20Poly1305::decrypt_in_place` (chacha20poly1305 0.10) on a copy of
/// the ciphertext. Claimed: the result is [`xchacha20poly1305_decrypt`] of the
/// arguments; a plaintext that comes out encrypts back to exactly this
/// ciphertext; and a ciphertext made by encrypting `m` under the same key,
/// nonce and AAD decrypts to `m`.
#[verifier::external_body]
fn aead_decrypt(key: &[u8; 32], nonce: &[u8; 24], aad: &[u8], ciphertext: &[u8]) -> (r: Result<Vec<u8>, chacha20poly1305::Error>)
    ensures
        r is Ok <==> xchacha20poly1305_decrypt(key@, nonce@, aad@, ciphertext@) is Some,
        r matches Ok(p) ==> {
            &&& xchacha20poly1305_decrypt(key@, nonce@, aad@, ciphertext@) == Some(p@)
            &&& xchacha20poly1305_encrypt(key@, nonce@, aad@, p@) == ciphertext@
            &&& p@.len() + 16 == ciphertext@.len()
            &&& encryptable(p@.len())
        },
        (exists|m: Seq<u8>| encryptable(m.len()) && #[trigger] xchacha20poly1305_encrypt(key@, nonce@, aad@, m) == ciphertext@)
            ==> r is Ok,
        r matches Ok(p) ==> forall|m: Seq<u8>| encryptable(m.len()) && #[trigger] xchacha20poly1305_encrypt(key@, nonce@, aad@, m) == ciphertext@
            ==> p@ == m,
{
    let mut buf = ciphertext.to_vec();
    chacha20poly1305::XChaCha20Poly1305::new(key.into()).decrypt_in_place(nonce.into(), aad, &mut buf).map(|()| buf)
}

/// Derives the KEK of `password` with Argon2id.
pub fn derive_kek(password: &[u8], salt: &[u8; 16], params: &KdfParams) -> (r: Result<Key32, VaultError>)
    ensures
        r is Ok <==> kdf_usable(password@, *params),
        r matches Ok(k) ==> k@ == kek(password@, salt@, *params),
        r matches Err(e) ==> e is Kdf,
        !within_limits(*params) ==> (r matches Err(VaultError::Kdf(m)) && m@ == "KDF parameters above allowed limits"@),
{
    if params.m_cost > MAX_M_COST || params.t_cost > MAX_T_COST || params.p_cost > MAX_P_COST {
        return Err(VaultError::Kdf("KDF parameters above allowed limits".to_owned()));
    }
    match argon2id_hash(password, salt, *params) {
        Ok(bytes) => Ok(Key32::from_bytes(bytes)),
        Err(e) => Err(VaultError::Kdf(argon2_error_text(&e))),
    }
}

/// XChaCha20-Poly1305 fails to encrypt only inputs beyond ~256 GiB.
fn encryption_failed() -> (e: VaultError)
    ensures
        e is Io,
{
    VaultError::Io(io_error(IoKind::InvalidInput, "input too large to encrypt"))
}

fn encrypt(key: &Key32, nonce: &[u8; 24], aad: &[u8], plaintext: &[u8]) -> (r: Result<Vec<u8>, VaultError>)
    ensures
        r is Ok <==> encryptable(plaintext@.len()),
        r matches Ok(c) ==> {
            &&& c@ == xchacha20poly1305_encrypt(key@, nonce@, aad@, plaintext@)
            &&& c@.len() == plaintext@.len() + 16
            &&& forall|m: Seq<u8>| encryptable(m.len()) && #[trigger] xchacha20poly1305_encrypt(key@, nonce@, aad@, m) == c@
                ==> m == plaintext@
        },
        r matches Err(e) ==> e is Io,
{
    match aead_encrypt(key.as_bytes(), nonce, aad, plaintext) {
        Ok(c) => Ok(c),
        Err(_) => Err(encryption_failed()),
    }
}

fn decrypt(key: &Key32, nonce: &[u8; 24], aad: &[u8], ciphertext: &[u8]) -> (r: Result<Vec<u8>, VaultError>)
    ensures
        r is Ok <==> xchacha20poly1305_decrypt(key@, nonce@, aad@, ciphertext@) is Some,
        r matches Ok(p) ==> {
            &&& xchacha20poly1305_decrypt(key@, nonce@, aad@, ciphertext@) == Some(p@)
            &&& xchacha20poly1305_encrypt(key@, nonce@, aad@, p@) == ciphertext@
            &&& p@.len() + 16 == ciphertext@.len()
            &&& encryptable(p@.len())
        },
        r matches Err(e) ==> e is AuthFailed,
        forall|m: Seq<u8>| encryptable(m.len()) && #[trigger] xchacha20poly1305_encrypt(key@, nonce@, aad@, m) == ciphertext@
            ==> (r matches Ok(p) && p@ == m),
{
    match aead_decrypt(key.as_bytes(), nonce, aad, ciphertext) {
        Ok(p) => Ok(p),
        Err(_) => Err(VaultError::AuthFailed),
    }
}

/// Key of an opened vault: the DEK and the first 106 bytes of the header
/// (magic, version, kdf_id, KDF parameters, salt, dek_nonce, wrapped DEK),
/// which stay the same until the password changes. It lets [`reseal`]
/// re-encrypt the vault without the master password and without Argon2.
/// No `Debug`, `Display` or `Clone`: it holds the DEK.
pub struct VaultKey {
    dek: Key32,
    header: [u8; 106],
}

impl View for VaultKey {
    /// The DEK and the header prefix.
    type V = (Seq<u8>, Seq<u8>);

    closed spec fn view(&self) -> (Seq<u8>, Seq<u8>) {
        (self.dek@, self.header@)
    }
}

/// The file begins with the header prefix of `key`.
pub open spec fn key_matches(key: (Seq<u8>, Seq<u8>), file: Seq<u8>) -> bool {
    file.len() >= 106 && file.subrange(0, 106) == key.1
}

impl VaultKey {
    fn new(dek: Key32, header: &[u8; 130]) -> (k: Self)
        ensures
            k@ == (dek@, header@.subrange(0, 106)),
    {
        let prefix: [u8; 106] = field(header, 0);
        VaultKey { dek, header: prefix }
    }

    /// True when `file` was written with this key: same KDF parameters, salt
    /// and wrapped DEK. A password change or a new `seal` makes it false.
    pub fn matches(&self, file: &[u8]) -> (r: bool)
        ensures
            r == key_matches(self@, file@),
    {
        if file.len() < OFF_VAULT_NONCE {
            return false;
        }
        let mut i: usize = 0;
        while i < OFF_VAULT_NONCE
            invariant
                i <= 106,
                file@.len() >= 106,
                forall|j: int| 0 <= j < i ==> file@[j] == self.header@[j],
            decreases 106 - i,
        {
            if file[i] != self.header[i] {
                assert(file@.subrange(0, 106)[i as int] != self.header@[i as int]);
                return false;
            }
            i = i + 1;
        }
        assert(file@.subrange(0, 106) =~= self.header@);
        true
    }
}

/// The layout of a header written by this library for these parameters and random values.
pub open spec fn fresh_header(h: Seq<u8>, params: KdfParams, salt: Seq<u8>, dek_nonce: Seq<u8>, vault_nonce: Seq<u8>) -> bool {
    &&& h.len() == 130
    &&& h.subrange(0, 4) == MAGIC@
    &&& h[4] == VERSION
    &&& h[5] == KDF_ARGON2ID
    &&& params_of(h) == params
    &&& h.subrange(18, 34) == salt
    &&& h.subrange(34, 58) == dek_nonce
    &&& h.subrange(106, 130) == vault_nonce
}

/// AAD of wrapping and unwrapping the DEK: `header[0..34]`.
pub fn dek_aad(header: &[u8; 130]) -> (aad: [u8; DEK_AAD_LEN])
    ensures
        aad@ == dek_aad_of(header@),
{
    field(header, 0)
}

/// AAD of the vault: `header[0..6] ++ header[106..130]`. The one source for seal and open.
pub fn vault_aad(header: &[u8; 130]) -> (aad: [u8; VAULT_AAD_LEN])
    ensures
        aad@ == vault_aad_of(header@),
{
    let mut aad = [0u8; VAULT_AAD_LEN];
    let mut i: usize = 0;
    while i < VAULT_AAD_LEN
        invariant
            i <= 30,
            aad@.len() == 30,
            forall|j: int| 0 <= j < i ==> aad@[j] == vault_aad_of(header@)[j],
        decreases 30 - i,
    {
        if i < OFF_M_COST {
            aad[i] = header[i];
        } else {
            aad[i] = header[i + 100];
        }
        i = i + 1;
    }
    assert(aad@ =~= vault_aad_of(header@));
    aad
}

/// A new header: the given salt and dek_nonce, and the DEK encrypted under
/// the KEK of `password`.
fn wrap_dek(
    password: &[u8],
    dek: &Key32,
    params: KdfParams,
    salt: [u8; 16],
    dek_nonce: [u8; 24],
    vault_nonce: [u8; 24],
) -> (r: Result<[u8; HEADER_LEN], VaultError>)
    requires
        dek@.len() == 32,
    ensures
        r is Ok <==> kdf_usable(password@, params),
        r matches Err(e) ==> e is Kdf,
        !within_limits(params) ==> (r matches Err(VaultError::Kdf(m)) && m@ == "KDF parameters above allowed limits"@),
        r matches Ok(h) ==> {
            &&& fresh_header(h@, params, salt@, dek_nonce@, vault_nonce@)
            &&& wraps(h@.subrange(0, 106), password@, dek@)
        },
{
    let mut header = Header {
        version: VERSION,
        kdf_id: KDF_ARGON2ID,
        kdf: params,
        salt,
        dek_nonce,
        wrapped_dek: [0u8; WRAPPED_DEK_LEN],
        vault_nonce,
    };
    let kek = derive_kek(password, &header.salt, &header.kdf)?;
    // The AAD covers header[0..34], which does not include the wrapped DEK:
    // it can be computed first.
    let aad = dek_aad(&header.to_bytes());
    let wrapped = match encrypt(&kek, &header.dek_nonce, &aad, dek.as_bytes()) {
        Ok(w) => w,
        Err(_) => {
            assert(false);
            return Err(encryption_failed());
        }
    };
    let ghost before = header;
    header.wrapped_dek = field(wrapped.as_slice(), 0);
    let out = header.to_bytes();
    proof {
        lemma_header_fields(before);
        lemma_header_fields(header);
        let b = out@;
        assert(b.subrange(0, 34) =~= header_bytes(before).subrange(0, 34)) by {
            assert forall|j: int| 0 <= j < 34 implies b.subrange(0, 34)[j] == header_bytes(before).subrange(0, 34)[j] by {
                assert(header_bytes(before).subrange(0, 34)[j] == header_bytes(before)[j]);
                assert(b.subrange(0, 34)[j] == b[j]);
            }
        }
        let pre = b.subrange(0, 106);
        assert(pre.subrange(0, 4) =~= b.subrange(0, 4));
        assert(pre.subrange(0, 34) =~= b.subrange(0, 34));
        assert(pre.subrange(6, 10) =~= b.subrange(6, 10));
        assert(pre.subrange(10, 14) =~= b.subrange(10, 14));
        assert(pre.subrange(14, 18) =~= b.subrange(14, 18));
        assert(pre.subrange(18, 34) =~= b.subrange(18, 34));
        assert(pre.subrange(34, 58) =~= b.subrange(34, 58));
        assert(pre.subrange(58, 106) =~= b.subrange(58, 106));
        assert(wrapped@.subrange(0, 48) =~= wrapped@);
    }
    Ok(out)
}


/// `header ++ ciphertext`: the vault encrypted by the DEK under the vault AAD.
fn assemble(header: &[u8; HEADER_LEN], dek: &Key32, vault_nonce: &[u8; NONCE_LEN], plaintext: &[u8]) -> (r: Result<Vec<u8>, VaultError>)
    requires
        header@.subrange(106, 130) == vault_nonce@,
    ensures
        r is Ok <==> encryptable(plaintext@.len()),
        r matches Ok(file) ==> file@.subrange(0, 130) == header@ && encrypts(file@, dek@, plaintext@),
        r matches Err(e) ==> e is Io,
{
    let ciphertext = encrypt(dek, vault_nonce, &vault_aad(header), plaintext)?;
    let mut file: Vec<u8> = Vec::new();
    file.extend_from_slice(header);
    file.extend_from_slice(&ciphertext);
    proof {
        assert(file@ =~= header@ + ciphertext@);
        assert(file@.subrange(0, 130) =~= header@);
        assert(file@.subrange(130, file@.len() as int) =~= ciphertext@);
        assert(file@.subrange(106, 130) =~= vault_nonce@);
    }
    Ok(file)
}

/// A new vault file holding `plaintext` under `password`: a fresh random
/// DEK, salt and nonces, the DEK wrapped under the KEK of the password.
pub fn seal(password: &[u8], plaintext: &[u8], params: KdfParams) -> (r: Result<Vec<u8>, VaultError>)
    ensures
        r matches Ok(file) ==> {
            &&& holds(file@, password@, plaintext@)
            &&& fresh_header(file@.subrange(0, 130), params, file@.subrange(18, 34), file@.subrange(34, 58), file@.subrange(106, 130))
        },
        r matches Err(e) ==> e is Io || (e is Kdf && !kdf_usable(password@, params)),
        !kdf_usable(password@, params) || !encryptable(plaintext@.len()) ==> r is Err,
{
    match seal_with_key(password, plaintext, params) {
        Ok((key, file)) => {
            assert(holds(file@, password@, plaintext@)) by {
                assert(seals(file@, password@, key@.0, plaintext@));
            }
            Ok(file)
        },
        Err(e) => Err(e),
    }
}

/// Like [`seal`], but also returns the key to re-encrypt with [`reseal`].
pub fn seal_with_key(password: &[u8], plaintext: &[u8], params: KdfParams) -> (r: Result<(VaultKey, Vec<u8>), VaultError>)
    ensures
        r matches Ok((key, file)) ==> {
            &&& seals(file@, password@, key@.0, plaintext@)
            &&& key_matches(key@, file@)
            &&& fresh_header(file@.subrange(0, 130), params, file@.subrange(18, 34), file@.subrange(34, 58), file@.subrange(106, 130))
        },
        r matches Err(e) ==> e is Io || (e is Kdf && !kdf_usable(password@, params)),
        !kdf_usable(password@, params) || !encryptable(plaintext@.len()) ==> r is Err,
{
    let dek = Key32::random()?;
    let vault_nonce: [u8; NONCE_LEN] = random_array()?;
    let salt: [u8; 16] = random_array()?;
    let dek_nonce: [u8; NONCE_LEN] = random_array()?;
    let header = wrap_dek(password, &dek, params, salt, dek_nonce, vault_nonce)?;
    let file = assemble(&header, &dek, &vault_nonce, plaintext)?;
    proof {
        let f = file@;
        assert(f.subrange(0, 106) =~= header@.subrange(0, 106));
        assert(f.subrange(0, 130).subrange(0, 106) =~= header@.subrange(0, 106));
        assert(f.subrange(18, 34) =~= header@.subrange(18, 34));
        assert(f.subrange(34, 58) =~= header@.subrange(34, 58));
        assert(f.subrange(106, 130) =~= header@.subrange(106, 130));
    }
    Ok((VaultKey::new(dek, &header), file))
}

/// Re-encrypts the vault with the already unlocked DEK: header unchanged up
/// to the wrapped DEK, fresh vault nonce from `OsRng`. No key derivation.
pub fn reseal(key: &VaultKey, plaintext: &[u8]) -> (r: Result<Vec<u8>, VaultError>)
    ensures
        r matches Ok(file) ==> key_matches(key@, file@) && encrypts(file@, key@.0, plaintext@),
        r matches Err(e) ==> e is Io,
        !encryptable(plaintext@.len()) ==> r is Err,
{
    let vault_nonce: [u8; NONCE_LEN] = random_array()?;
    let mut header = [0u8; HEADER_LEN];
    let mut i: usize = 0;
    while i < HEADER_LEN
        invariant
            i <= 130,
            header@.len() == 130,
            key.header@.len() == 106,
            forall|j: int| 0 <= j < i ==> header@[j] == (key.header@ + vault_nonce@)[j],
        decreases 130 - i,
    {
        if i < OFF_VAULT_NONCE {
            header[i] = key.header[i];
        } else {
            header[i] = vault_nonce[i - OFF_VAULT_NONCE];
        }
        i = i + 1;
    }
    proof {
        assert(header@ =~= key.header@ + vault_nonce@);
        assert(header@.subrange(106, 130) =~= vault_nonce@);
    }
    let file = assemble(&header, &key.dek, &vault_nonce, plaintext)?;
    proof {
        assert(file@.subrange(0, 106) =~= header@.subrange(0, 106));
        assert(header@.subrange(0, 106) =~= key.header@);
    }
    Ok(file)
}

/// The 130 header bytes as they are in the file: the AADs are computed on
/// these, not on a reconstruction.
fn raw_header(file: &[u8]) -> (r: Result<[u8; HEADER_LEN], VaultError>)
    ensures
        file@.len() >= 130 ==> (r matches Ok(h) && h@ == file@.subrange(0, 130)),
        file@.len() < 130 ==> (r matches Err(e) && e is Truncated),
{
    if file.len() < HEADER_LEN {
        return Err(VaultError::Truncated);
    }
    Ok(field(file, 0))
}


/// Derives the KEK from the file's parameters and decrypts the DEK.
fn unwrap_dek(password: &[u8], header: &Header, raw: &[u8; HEADER_LEN]) -> (r: Result<Key32, VaultError>)
    requires
        header_bytes(*header) == raw@,
        raw@[4] == VERSION,
        raw@[5] == KDF_ARGON2ID,
    ensures
        r is Ok <==> unwrap_outcome(password@, raw@) is Some,
        r matches Ok(k) ==> {
            &&& unwrap_outcome(password@, raw@) == Some(k@)
            &&& wraps(raw@.subrange(0, 106), password@, k@)
        },
        r matches Err(e) ==> e is AuthFailed,
        forall|dek: Seq<u8>| #[trigger] wraps(raw@.subrange(0, 106), password@, dek) ==> (r matches Ok(k) && k@ == dek),
{
    proof {
        lemma_header_fields(*header);
        lemma_prefix_fields(raw@);
    }
    let ghost prefix = raw@.subrange(0, 106);
    // KDF parameters and salt are not authenticated yet: if they are refused
    // the file is tampered with or corrupt, and must look like a wrong tag.
    let kek = match derive_kek(password, &header.salt, &header.kdf) {
        Ok(k) => k,
        Err(_) => {
            assert(forall|d: Seq<u8>| !#[trigger] wraps(prefix, password@, d));
            return Err(VaultError::AuthFailed);
        },
    };
    let aad = dek_aad(raw);
    let ghost wrapped = header.wrapped_dek@;
    assert(wrapped == raw@.subrange(58, 106));
    assert(forall|d: Seq<u8>| #[trigger] wraps(prefix, password@, d) ==> xchacha20poly1305_encrypt(kek@, header.dek_nonce@, aad@, d) == wrapped);
    let mut dek = match decrypt(&kek, &header.dek_nonce, &aad, &header.wrapped_dek) {
        Ok(d) => d,
        Err(e) => {
            assert forall|d: Seq<u8>| !#[trigger] wraps(prefix, password@, d) by {
                if wraps(prefix, password@, d) {
                    assert(encryptable(d.len()));
                    assert(xchacha20poly1305_encrypt(kek@, header.dek_nonce@, aad@, d) == wrapped);
                }
            }
            return Err(e);
        },
    };
    if dek.len() != 32 {
        assert forall|d: Seq<u8>| !#[trigger] wraps(prefix, password@, d) by {
            if wraps(prefix, password@, d) {
                assert(encryptable(d.len()));
                assert(xchacha20poly1305_encrypt(kek@, header.dek_nonce@, aad@, d) == wrapped);
            }
        }
        wipe_bytes(&mut dek);
        return Err(VaultError::AuthFailed);
    }
    let bytes: [u8; 32] = field(dek.as_slice(), 0);
    proof {
        assert(dek@.subrange(0, 32) =~= dek@);
        assert(header.kdf == params_of(raw@));
        assert(header.salt@ == raw@.subrange(18, 34));
        assert(kek@ == crate::crypto::kek(password@, raw@.subrange(18, 34), params_of(raw@)));
        assert(aad@ == dek_aad_of(raw@));
        assert(header.dek_nonce@ == raw@.subrange(34, 58));
        assert(unwrap_outcome(password@, raw@) == Some(dek@));
        assert(wraps(prefix, password@, dek@));
        assert forall|d: Seq<u8>| #[trigger] wraps(prefix, password@, d) implies d == dek@ by {
            assert(encryptable(d.len()));
            assert(xchacha20poly1305_encrypt(kek@, header.dek_nonce@, aad@, d) == wrapped);
        }
    }
    wipe_bytes(&mut dek);
    Ok(Key32::from_bytes(bytes))
}

/// The plaintext of a vault file. Any failure after the header has been read
/// is `AuthFailed`: a wrong password and a tampered file look the same.
pub fn open(password: &[u8], file: &[u8]) -> (r: Result<SecretBytes, VaultError>)
    ensures
        r is Ok <==> open_outcome(password@, file@) is Ok,
        r matches Ok(p) ==> {
            &&& open_outcome(password@, file@) matches Ok((dek, plaintext)) && plaintext == p@
            &&& holds(file@, password@, p@)
        },
        r matches Err(e) ==> reports_outcome(e, open_outcome(password@, file@)),
        forall|plaintext: Seq<u8>| #[trigger] holds(file@, password@, plaintext) ==> (r matches Ok(p) && p@ == plaintext),
{
    match open_with_key(password, file) {
        Ok((key, plaintext)) => {
            assert(holds(file@, password@, plaintext@)) by {
                assert(seals(file@, password@, key@.0, plaintext@));
            }
            Ok(plaintext)
        },
        Err(e) => Err(e),
    }
}

/// Like [`open`], but also returns the key to re-encrypt with [`reseal`].
pub fn open_with_key(password: &[u8], file: &[u8]) -> (r: Result<(VaultKey, SecretBytes), VaultError>)
    ensures
        r is Ok <==> open_outcome(password@, file@) is Ok,
        r matches Ok((key, p)) ==> {
            &&& open_outcome(password@, file@) == Ok::<(Seq<u8>, Seq<u8>), OpenFailure>((key@.0, p@))
            &&& key_matches(key@, file@)
            &&& seals(file@, password@, key@.0, p@)
        },
        r matches Err(e) ==> reports_outcome(e, open_outcome(password@, file@)),
        forall|dek: Seq<u8>, plaintext: Seq<u8>| #[trigger] seals(file@, password@, dek, plaintext)
            ==> (r matches Ok((key, p)) && key@.0 == dek && p@ == plaintext),
{
    let ghost f = file@;
    proof {
        assert forall|d: Seq<u8>, pt: Seq<u8>| #[trigger] seals(f, password@, d, pt) implies parse_failure(f) is None by {
            lemma_prefix_fields(f);
            assert(f.subrange(0, 4) =~= f.subrange(0, 106).subrange(0, 4));
        }
    }
    let (header, ciphertext) = match Header::parse(file) {
        Ok(parsed) => parsed,
        Err(e) => return Err(e),
    };
    let raw = match raw_header(file) {
        Ok(raw) => raw,
        Err(e) => return Err(e),
    };
    proof {
        lemma_header_fields(header);
        assert(raw@.subrange(0, 106) =~= f.subrange(0, 106));
        assert(raw@.subrange(106, 130) =~= f.subrange(106, 130));
    }
    let dek = match unwrap_dek(password, &header, &raw) {
        Ok(dek) => dek,
        Err(e) => {
            assert forall|d: Seq<u8>, pt: Seq<u8>| !#[trigger] seals(f, password@, d, pt) by {
                if seals(f, password@, d, pt) {
                    assert(wraps(raw@.subrange(0, 106), password@, d));
                }
            }
            return Err(e);
        },
    };
    let aad = vault_aad(&raw);
    assert(forall|d: Seq<u8>, pt: Seq<u8>| #[trigger] seals(f, password@, d, pt) ==> d == dek@) by {
        assert forall|d: Seq<u8>, pt: Seq<u8>| #[trigger] seals(f, password@, d, pt) implies d == dek@ by {
            assert(wraps(raw@.subrange(0, 106), password@, d));
        }
    }
    let plaintext = match decrypt(&dek, &header.vault_nonce, &aad, ciphertext) {
        Ok(p) => p,
        Err(e) => {
            assert forall|d: Seq<u8>, pt: Seq<u8>| !#[trigger] seals(f, password@, d, pt) by {
                if seals(f, password@, d, pt) {
                    assert(xchacha20poly1305_encrypt(dek@, header.vault_nonce@, aad@, pt) == ciphertext@);
                }
            }
            return Err(e);
        },
    };
    proof {
        assert forall|d: Seq<u8>, pt: Seq<u8>| #[trigger] seals(f, password@, d, pt) implies d == dek@ && pt == plaintext@ by {
            assert(xchacha20poly1305_encrypt(dek@, header.vault_nonce@, aad@, pt) == ciphertext@);
        }
        assert(seals(f, password@, dek@, plaintext@));
    }
    Ok((VaultKey::new(dek, &raw), SecretBytes::new(plaintext)))
}


/// Changes the master password: the DEK is unwrapped with `old` and wrapped
/// again under `new` with a fresh salt and DEK nonce. The vault nonce and the
/// ciphertext are copied unchanged.
pub fn change_master(old: &[u8], new: &[u8], file: &[u8], params: KdfParams) -> (r: Result<Vec<u8>, VaultError>)
    ensures
        open_outcome(old@, file@) is Err ==> (r matches Err(e) && reports_outcome(e, open_outcome(old@, file@))),
        open_outcome(old@, file@) is Ok ==> (r matches Err(e) ==> e is Io || (e is Kdf && !kdf_usable(new@, params))),
        !kdf_usable(new@, params) ==> r is Err,
        r matches Ok(out) ==> {
            &&& open_outcome(old@, file@) is Ok
            &&& out@.len() == file@.len()
            &&& out@.subrange(0, 6) == file@.subrange(0, 6)
            &&& out@.subrange(106, out@.len() as int) == file@.subrange(106, file@.len() as int)
            &&& fresh_header(out@.subrange(0, 130), params, out@.subrange(18, 34), out@.subrange(34, 58), file@.subrange(106, 130))
            &&& forall|dek: Seq<u8>, plaintext: Seq<u8>| #[trigger] seals(file@, old@, dek, plaintext)
                ==> seals(out@, new@, dek, plaintext)
        },
{
    let (header, ciphertext) = Header::parse(file)?;
    let raw = raw_header(file)?;
    proof {
        lemma_header_fields(header);
    }
    let dek = unwrap_dek(old, &header, &raw)?;
    // The vault tag is checked too: a corrupted ciphertext must not be
    // re-authorised under a new password.
    let mut plaintext = decrypt(&dek, &header.vault_nonce, &vault_aad(&raw), ciphertext)?;
    wipe_bytes(&mut plaintext);
    let salt: [u8; 16] = random_array()?;
    let dek_nonce: [u8; NONCE_LEN] = random_array()?;
    let new_header = wrap_dek(new, &dek, params, salt, dek_nonce, header.vault_nonce)?;
    let mut out: Vec<u8> = Vec::new();
    out.extend_from_slice(&new_header);
    out.extend_from_slice(ciphertext);
    proof {
        let f = file@;
        let o = out@;
        assert(o =~= new_header@ + ciphertext@);
        assert(raw@ =~= f.subrange(0, 130));
        assert(o.subrange(0, 130) =~= new_header@);
        assert(o.subrange(0, 6) =~= f.subrange(0, 6)) by {
            assert(new_header@.subrange(0, 4) == MAGIC@);
            assert(f.subrange(0, 4) == MAGIC@);
            assert forall|j: int| 0 <= j < 6 implies o.subrange(0, 6)[j] == f.subrange(0, 6)[j] by {
                if j < 4 {
                    assert(new_header@.subrange(0, 4)[j] == f.subrange(0, 4)[j]);
                }
            }
        }
        assert(o.subrange(106, o.len() as int) =~= f.subrange(106, f.len() as int)) by {
            assert(header.vault_nonce@ == f.subrange(106, 130));
            assert(new_header@.subrange(106, 130) == header.vault_nonce@);
            assert forall|j: int| 0 <= j < o.len() - 106 implies o.subrange(106, o.len() as int)[j] == f.subrange(106, f.len() as int)[j] by {
                if j < 24 {
                    assert(new_header@.subrange(106, 130)[j] == f.subrange(106, 130)[j]);
                }
            }
        }
        assert(o.subrange(0, 106) =~= new_header@.subrange(0, 106));
        assert(o.subrange(18, 34) =~= new_header@.subrange(18, 34));
        assert(o.subrange(34, 58) =~= new_header@.subrange(34, 58));
        assert(o.subrange(0, 130).subrange(106, 130) =~= o.subrange(106, 130));
        assert(f.subrange(0, 130).subrange(106, 130) =~= f.subrange(106, 130));
        assert(o.subrange(106, 130) =~= f.subrange(106, 130)) by {
            assert(o.subrange(106, 130) =~= o.subrange(106, o.len() as int).subrange(0, 24));
            assert(f.subrange(106, 130) =~= f.subrange(106, f.len() as int).subrange(0, 24));
        }
        assert(vault_aad_of(o.subrange(0, 130)) =~= vault_aad_of(f.subrange(0, 130))) by {
            assert(o.subrange(0, 130).subrange(0, 6) =~= o.subrange(0, 6));
            assert(f.subrange(0, 130).subrange(0, 6) =~= f.subrange(0, 6));
        }
        assert(o.subrange(130, o.len() as int) =~= f.subrange(130, f.len() as int));
        assert(raw@.subrange(0, 106) =~= f.subrange(0, 106));
        assert forall|d: Seq<u8>, pt: Seq<u8>| #[trigger] seals(f, old@, d, pt) implies seals(o, new@, d, pt) by {
            assert(wraps(raw@.subrange(0, 106), old@, d));
            assert(d == dek@);
        }
    }
    Ok(out)
}


/// Once the header is read, a file that does not open is reported as
/// `AuthFailed`, whatever the reason: wrong password, tampered parameters,
/// wrapped key or ciphertext are not told apart.
pub proof fn lemma_failures_after_the_header_look_alike(password: Seq<u8>, file: Seq<u8>)
    requires
        parse_failure(file) is None,
        open_outcome(password, file) is Err,
    ensures
        open_outcome(password, file) == Err::<(Seq<u8>, Seq<u8>), OpenFailure>(OpenFailure::AuthFailed),
{
}

/// KDF parameters that the library refuses (above its limits, or not
/// accepted by Argon2) make a file that does not open, as a wrong password
/// does: no key derivation is attempted with them.
pub proof fn lemma_hostile_kdf_parameters_fail_like_a_wrong_password(password: Seq<u8>, file: Seq<u8>)
    requires
        parse_failure(file) is None,
        !kdf_usable(password, params_of(file.subrange(0, 130))),
    ensures
        open_outcome(password, file) == Err::<(Seq<u8>, Seq<u8>), OpenFailure>(OpenFailure::AuthFailed),
{
}

} // verus!
