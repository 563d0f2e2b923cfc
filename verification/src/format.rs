//! The `.pwdv` v1 file format: a fixed 130-byte header followed by the
//! ciphertext and its tag.

use vstd::prelude::*;

use crate::error::VaultError;
use vstd::arithmetic::div_mod::lemma_fundamental_div_mod_converse;
use crate::text::{decimal, push_decimal};

verus! {

/// `PWDV`.
pub const MAGIC: [u8; 4] = [0x50, 0x57, 0x44, 0x56];
/// The version of the file format.
pub const VERSION: u8 = 1;
/// Length of the header.
pub const HEADER_LEN: usize = 130;

/// The identifier of Argon2id.
pub const KDF_ARGON2ID: u8 = 1;
pub const SALT_LEN: usize = 16;
pub const NONCE_LEN: usize = 24;
pub const WRAPPED_DEK_LEN: usize = 48;
pub const TAG_LEN: usize = 16;
/// Even an empty plaintext yields at least the Poly1305 tag.
pub const MIN_FILE_LEN: usize = HEADER_LEN + TAG_LEN;

/// Offsets of the fields in the header.
pub const OFF_MAGIC: usize = 0;
pub const OFF_VERSION: usize = 4;
pub const OFF_KDF_ID: usize = 5;
pub const OFF_M_COST: usize = 6;
pub const OFF_T_COST: usize = 10;
pub const OFF_P_COST: usize = 14;
pub const OFF_SALT: usize = 18;
pub const OFF_DEK_NONCE: usize = 34;
pub const OFF_WRAPPED_DEK: usize = 58;
pub const OFF_VAULT_NONCE: usize = 106;

/// Argon2id parameters, stored in clear in the header.
#[derive(Debug, Clone, Copy, PartialEq, Eq, Structural)]
pub struct KdfParams {
    /// Memory in KiB.
    pub m_cost: u32,
    pub t_cost: u32,
    pub p_cost: u32,
}

impl Default for KdfParams {
    fn default() -> (p: Self)
        ensures
            p.m_cost == 65536 && p.t_cost == 3 && p.p_cost == 4,
    {
        KdfParams { m_cost: 65536, t_cost: 3, p_cost: 4 }
    }
}

/// Header v1. The magic is not a field: it is always [`MAGIC`].
#[derive(Debug, Clone, PartialEq, Eq)]
pub struct Header {
    pub version: u8,
    pub kdf_id: u8,
    pub kdf: KdfParams,
    pub salt: [u8; 16],
    pub dek_nonce: [u8; 24],
    pub wrapped_dek: [u8; 48],
    pub vault_nonce: [u8; 24],
}

/// Little-endian bytes of `x`.
pub open spec fn le_bytes(x: u32) -> Seq<u8> {
    seq![
        (x % 256) as u8,
        ((x / 256) % 256) as u8,
        ((x / 65536) % 256) as u8,
        (x / 16777216) as u8,
    ]
}

/// The `u32` whose little-endian bytes are the four bytes of `b`.
pub open spec fn le_value(b: Seq<u8>) -> u32 {
    (b[0] + 256 * b[1] + 65536 * b[2] + 16777216 * b[3]) as u32
}

/// The 130 bytes of a header, field after field.
pub open spec fn header_bytes(h: Header) -> Seq<u8> {
    MAGIC@ + seq![h.version, h.kdf_id] + le_bytes(h.kdf.m_cost) + le_bytes(h.kdf.t_cost)
        + le_bytes(h.kdf.p_cost) + h.salt@ + h.dek_nonce@ + h.wrapped_dek@ + h.vault_nonce@
}

/// Why an input is not a v1 file, checked in this order.
pub enum ParseFailure {
    Truncated,
    BadMagic,
    UnsupportedVersion(u8),
    UnknownKdf(u8),
}

/// Why `input` is not a v1 file, if it is not.
pub open spec fn parse_failure(input: Seq<u8>) -> Option<ParseFailure> {
    if input.len() < 4 {
        Some(ParseFailure::Truncated)
    } else if input.subrange(0, 4) != MAGIC@ {
        Some(ParseFailure::BadMagic)
    } else if input.len() < 5 {
        Some(ParseFailure::Truncated)
    } else if input[4] != VERSION {
        Some(ParseFailure::UnsupportedVersion(input[4]))
    } else if input.len() < MIN_FILE_LEN {
        Some(ParseFailure::Truncated)
    } else if input[5] != KDF_ARGON2ID {
        Some(ParseFailure::UnknownKdf(input[5]))
    } else {
        None
    }
}

/// The message of the error for an unknown KDF identifier.
pub open spec fn unknown_kdf_message(kdf_id: u8) -> Seq<char> {
    "unsupported kdf_id "@ + decimal(kdf_id as nat)
}

/// `e` is the error that [`Header::parse`] reports for `failure`.
pub open spec fn reports(e: VaultError, failure: ParseFailure) -> bool {
    match failure {
        ParseFailure::Truncated => e is Truncated,
        ParseFailure::BadMagic => e is BadMagic,
        ParseFailure::UnsupportedVersion(v) => e matches VaultError::UnsupportedVersion(w) && w == v,
        ParseFailure::UnknownKdf(k) => e matches VaultError::Kdf(m) && m@ == unknown_kdf_message(k),
    }
}

/// Reading the little-endian bytes of a number gives the number back.
pub proof fn lemma_le_roundtrip(x: u32)
    ensures
        le_bytes(x).len() == 4,
        le_value(le_bytes(x)) == x,
{
}

/// Writing the number that four bytes encode gives the bytes back.
pub proof fn lemma_le_value_bytes(b: Seq<u8>)
    requires
        b.len() == 4,
    ensures
        le_bytes(le_value(b)) == b,
{
    let (b0, b1, b2, b3) = (b[0] as int, b[1] as int, b[2] as int, b[3] as int);
    let v = b0 + 256 * b1 + 65536 * b2 + 16777216 * b3;
    let q2 = b2 + 256 * b3;
    let q1 = b1 + 256 * q2;
    assert(v == q1 * 256 + b0);
    lemma_fundamental_div_mod_converse(v, 256, q1, b0);
    lemma_fundamental_div_mod_converse(q1, 256, q2, b1);
    assert(v == q2 * 65536 + (b0 + 256 * b1));
    lemma_fundamental_div_mod_converse(v, 65536, q2, b0 + 256 * b1);
    lemma_fundamental_div_mod_converse(q2, 256, b3, b2);
    assert(v == b3 * 16777216 + (b0 + 256 * b1 + 65536 * b2));
    lemma_fundamental_div_mod_converse(v, 16777216, b3, b0 + 256 * b1 + 65536 * b2);
    assert(le_value(b) == v);
    assert(le_bytes(le_value(b)) =~= b);
}

/// Where each field of a header lies in its bytes.
pub proof fn lemma_header_fields(h: Header)
    ensures
        header_bytes(h).len() == HEADER_LEN,
        header_bytes(h).subrange(0, 4) == MAGIC@,
        header_bytes(h)[4] == h.version,
        header_bytes(h)[5] == h.kdf_id,
        header_bytes(h).subrange(6, 10) == le_bytes(h.kdf.m_cost),
        header_bytes(h).subrange(10, 14) == le_bytes(h.kdf.t_cost),
        header_bytes(h).subrange(14, 18) == le_bytes(h.kdf.p_cost),
        le_value(header_bytes(h).subrange(6, 10)) == h.kdf.m_cost,
        le_value(header_bytes(h).subrange(10, 14)) == h.kdf.t_cost,
        le_value(header_bytes(h).subrange(14, 18)) == h.kdf.p_cost,
        header_bytes(h).subrange(18, 34) == h.salt@,
        header_bytes(h).subrange(34, 58) == h.dek_nonce@,
        header_bytes(h).subrange(58, 106) == h.wrapped_dek@,
        header_bytes(h).subrange(106, 130) == h.vault_nonce@,
{
    let b = header_bytes(h);
    lemma_le_roundtrip(h.kdf.m_cost);
    lemma_le_roundtrip(h.kdf.t_cost);
    lemma_le_roundtrip(h.kdf.p_cost);
    assert(b.subrange(0, 4) =~= MAGIC@);
    assert(b.subrange(6, 10) =~= le_bytes(h.kdf.m_cost));
    assert(b.subrange(10, 14) =~= le_bytes(h.kdf.t_cost));
    assert(b.subrange(14, 18) =~= le_bytes(h.kdf.p_cost));
    assert(b.subrange(18, 34) =~= h.salt@);
    assert(b.subrange(34, 58) =~= h.dek_nonce@);
    assert(b.subrange(58, 106) =~= h.wrapped_dek@);
    assert(b.subrange(106, 130) =~= h.vault_nonce@);
}

/// A header written by [`Header::to_bytes`] for format v1 and Argon2id,
/// followed by at least a tag's worth of ciphertext, is accepted by
/// [`Header::parse`], which splits it back at byte 130.
pub proof fn lemma_written_header_parses(h: Header, ciphertext: Seq<u8>)
    requires
        h.version == VERSION,
        h.kdf_id == KDF_ARGON2ID,
        ciphertext.len() >= TAG_LEN,
    ensures
        parse_failure(header_bytes(h) + ciphertext) is None,
        (header_bytes(h) + ciphertext).subrange(0, HEADER_LEN as int) == header_bytes(h),
        (header_bytes(h) + ciphertext).subrange(HEADER_LEN as int, HEADER_LEN + ciphertext.len()) == ciphertext,
{
    lemma_header_fields(h);
    let file = header_bytes(h) + ciphertext;
    assert(file.subrange(0, 4) =~= header_bytes(h).subrange(0, 4));
    assert(file.subrange(0, 130) =~= header_bytes(h));
    assert(file.subrange(130, 130 + ciphertext.len() as int) =~= ciphertext);
}

/// Different headers have different bytes: what [`Header::parse`] returns is
/// the only header with those 130 bytes.
pub proof fn lemma_header_bytes_injective(a: Header, b: Header)
    requires
        header_bytes(a) == header_bytes(b),
    ensures
        a == b,
{
    lemma_header_fields(a);
    lemma_header_fields(b);
    assert(a.salt =~= b.salt) by {
        assert forall|i: int| 0 <= i < 16 implies a.salt[i] == b.salt[i] by {
            assert(header_bytes(a).subrange(18, 34)[i] == header_bytes(b).subrange(18, 34)[i]);
        }
    }
    assert(a.dek_nonce =~= b.dek_nonce) by {
        assert forall|i: int| 0 <= i < 24 implies a.dek_nonce[i] == b.dek_nonce[i] by {
            assert(header_bytes(a).subrange(34, 58)[i] == header_bytes(b).subrange(34, 58)[i]);
        }
    }
    assert(a.wrapped_dek =~= b.wrapped_dek) by {
        assert forall|i: int| 0 <= i < 48 implies a.wrapped_dek[i] == b.wrapped_dek[i] by {
            assert(header_bytes(a).subrange(58, 106)[i] == header_bytes(b).subrange(58, 106)[i]);
        }
    }
    assert(a.vault_nonce =~= b.vault_nonce) by {
        assert forall|i: int| 0 <= i < 24 implies a.vault_nonce[i] == b.vault_nonce[i] by {
            assert(header_bytes(a).subrange(106, 130)[i] == header_bytes(b).subrange(106, 130)[i]);
        }
    }
}

fn le_encode(x: u32) -> (r: [u8; 4])
    ensures
        r@ == le_bytes(x),
{
    let r = [(x % 256) as u8, ((x / 256) % 256) as u8, ((x / 65536) % 256) as u8, (x / 16777216) as u8];
    assert(r@ =~= le_bytes(x));
    r
}

fn le_decode(b: &[u8], off: usize) -> (x: u32)
    requires
        off + 4 <= b@.len(),
    ensures
        x == le_value(b@.subrange(off as int, off + 4)),
{
    b[off] as u32 + 256 * (b[off + 1] as u32) + 65536 * (b[off + 2] as u32) + 16777216 * (b[off + 3] as u32)
}

/// The `N` bytes of `buf` from `off`.
pub(crate) fn field<const N: usize>(buf: &[u8], off: usize) -> (r: [u8; N])
    requires
        off + N <= buf@.len(),
    ensures
        r@ == buf@.subrange(off as int, off + N),
{
    let len = buf.len();
    let mut out = [0u8; N];
    let mut i: usize = 0;
    while i < N
        invariant
            i <= N,
            len == buf@.len(),
            off + N <= buf@.len(),
            out@.len() == N,
            forall|j: int| 0 <= j < i ==> out@[j] == buf@[off + j],
        decreases N - i,
    {
        out[i] = buf[off + i];
        i = i + 1;
    }
    assert(out@ =~= buf@.subrange(off as int, off + N));
    out
}

/// Appends the bytes of `src` to `out`.
fn put(out: &mut Vec<u8>, src: &[u8])
    ensures
        final(out)@ == old(out)@ + src@,
{
    let mut i: usize = 0;
    while i < src.len()
        invariant
            i <= src@.len(),
            out@ == old(out)@ + src@.subrange(0, i as int),
        decreases src@.len() - i,
    {
        out.push(src[i]);
        i = i + 1;
        assert(src@.subrange(0, i as int) =~= src@.subrange(0, i - 1).push(src@[i - 1]));
    }
    assert(src@.subrange(0, src@.len() as int) =~= src@);
}

impl Header {
    /// Splits header and ciphertext. Checks magic, version, KDF identifier and
    /// minimum length; never panics, whatever the input.
    pub fn parse(input: &[u8]) -> (r: Result<(Header, &[u8]), VaultError>)
        ensures
            r is Ok <==> parse_failure(input@) is None,
            r matches Ok((h, ct)) ==> {
                &&& header_bytes(h) == input@.subrange(0, HEADER_LEN as int)
                &&& ct@ == input@.subrange(HEADER_LEN as int, input@.len() as int)
            },
            r matches Err(e) ==> reports(e, parse_failure(input@)->0),
    {
        if input.len() < 4 {
            return Err(VaultError::Truncated);
        }
        if input[0] != MAGIC[0] || input[1] != MAGIC[1] || input[2] != MAGIC[2] || input[3] != MAGIC[3] {
            assert(input@.subrange(0, 4) != MAGIC@) by {
                if input@.subrange(0, 4) == MAGIC@ {
                    assert(input@.subrange(0, 4)[0] == input@[0]);
                    assert(input@.subrange(0, 4)[1] == input@[1]);
                    assert(input@.subrange(0, 4)[2] == input@[2]);
                    assert(input@.subrange(0, 4)[3] == input@[3]);
                }
            }
            return Err(VaultError::BadMagic);
        }
        assert(input@.subrange(0, 4) =~= MAGIC@);
        if input.len() < 5 {
            return Err(VaultError::Truncated);
        }
        let version = input[OFF_VERSION];
        if version != VERSION {
            return Err(VaultError::UnsupportedVersion(version));
        }
        if input.len() < MIN_FILE_LEN {
            return Err(VaultError::Truncated);
        }
        let kdf_id = input[OFF_KDF_ID];
        if kdf_id != KDF_ARGON2ID {
            let mut message = "unsupported kdf_id ".to_owned();
            push_decimal(&mut message, kdf_id as u64);
            return Err(VaultError::Kdf(message));
        }
        let parsed = Header {
            version,
            kdf_id,
            kdf: KdfParams {
                m_cost: le_decode(input, OFF_M_COST),
                t_cost: le_decode(input, OFF_T_COST),
                p_cost: le_decode(input, OFF_P_COST),
            },
            salt: field(input, OFF_SALT),
            dek_nonce: field(input, OFF_DEK_NONCE),
            wrapped_dek: field(input, OFF_WRAPPED_DEK),
            vault_nonce: field(input, OFF_VAULT_NONCE),
        };
        let ciphertext = &input[HEADER_LEN..input.len()];
        proof {
            let s = input@;
            lemma_le_value_bytes(s.subrange(6, 10));
            lemma_le_value_bytes(s.subrange(10, 14));
            lemma_le_value_bytes(s.subrange(14, 18));
            assert(header_bytes(parsed) =~= s.subrange(0, 130));
        }
        Ok((parsed, ciphertext))
    }

    /// The 130 bytes of the header, fields in the order of the format.
    pub fn to_bytes(&self) -> (out: [u8; HEADER_LEN])
        ensures
            out@ == header_bytes(*self),
    {
        let mut bytes: Vec<u8> = Vec::new();
        put(&mut bytes, &MAGIC);
        bytes.push(self.version);
        bytes.push(self.kdf_id);
        put(&mut bytes, &le_encode(self.kdf.m_cost));
        put(&mut bytes, &le_encode(self.kdf.t_cost));
        put(&mut bytes, &le_encode(self.kdf.p_cost));
        put(&mut bytes, &self.salt);
        put(&mut bytes, &self.dek_nonce);
        put(&mut bytes, &self.wrapped_dek);
        put(&mut bytes, &self.vault_nonce);
        assert(bytes@ =~= header_bytes(*self));
        let out: [u8; HEADER_LEN] = field(bytes.as_slice(), 0);
        assert(out@ =~= header_bytes(*self));
        out
    }
}

} // verus!
