//! Cryptographic primitives of the vault, and the two framings built on them:
//! the at-rest sealing of one secret field, and the portable password-protected
//! backup envelope.
//!
//! The outside calls (AES-256-GCM, SHA-256, base64, the random source) stand
//! behind trusted wrappers; everything framing them is verified.

use vstd::prelude::*;
use vstd::slice::{slice_subrange, slice_to_vec};
use vstd::utf8::{encode_utf8, valid_utf8, encode_utf8_valid_utf8, encode_utf8_decode_utf8};
use crate::errors::CoreError;

verus! {

/// The ciphertext (authentication tag appended) that AES-256-GCM produces for
/// this key, nonce and plaintext.
pub uninterp spec fn sealed(key: Seq<u8>, nonce: Seq<u8>, plain: Seq<u8>) -> Seq<u8>;

/// The base64 (standard alphabet, padded) encoding of a byte sequence.
pub uninterp spec fn b64_of(bytes: Seq<u8>) -> Seq<char>;

/// The SHA-256 digest of a byte sequence.
pub uninterp spec fn sha256_of(bytes: Seq<u8>) -> Seq<u8>;

/// The longest plaintext AES-GCM encrypts: `2^36 - 32` bytes.
pub const GCM_PLAINTEXT_MAX: u64 = 68719476704;

/// Relies on `aes_gcm::Aes256Gcm` through `aead::Aead::encrypt`: with a
/// 32-byte key and a 12-byte nonce the ciphertext is a pure function of key,
/// nonce and plaintext, 16 bytes (the tag) longer than the plaintext, and the
/// call fails only on plaintexts above the AES-GCM length limit.
#[verifier::external_body]
fn gcm_seal(key: &Vec<u8>, nonce: &Vec<u8>, plain: &Vec<u8>) -> (r: Result<Vec<u8>, CoreError>)
    requires
        key@.len() == 32,
        nonce@.len() == 12,
    ensures
        r matches Ok(c) ==> c@ == sealed(key@, nonce@, plain@) && c@.len() == plain@.len() + 16
            && plain@.len() <= GCM_PLAINTEXT_MAX,
        plain@.len() <= GCM_PLAINTEXT_MAX ==> r is Ok,
{
    let cipher = match <aes_gcm::Aes256Gcm as aes_gcm::KeyInit>::new_from_slice(key.as_slice()) {
        Ok(c) => c,
        Err(_) => return Err(CoreError::Crypto),
    };
    let mut nonce_arr = [0u8; 12];
    nonce_arr.copy_from_slice(nonce.as_slice());
    match aes_gcm::aead::Aead::encrypt(&cipher, &nonce_arr.into(), plain.as_slice()) {
        Ok(c) => Ok(c),
        Err(_) => Err(CoreError::Crypto),
    }
}

/// Relies on `aes_gcm::Aes256Gcm` through `aead::Aead::decrypt`: it returns a
/// plaintext exactly when the ciphertext carries a valid tag for this key and
/// nonce, that is, exactly when the ciphertext is the sealing of some
/// plaintext under them.
#[verifier::external_body]
fn gcm_open(key: &Vec<u8>, nonce: &Vec<u8>, ct: &Vec<u8>) -> (r: Result<Vec<u8>, CoreError>)
    requires
        key@.len() == 32,
        nonce@.len() == 12,
    ensures
        r matches Ok(p) ==> ct@ == sealed(key@, nonce@, p@) && ct@.len() == p@.len() + 16
            && p@.len() <= GCM_PLAINTEXT_MAX,
        r matches Ok(p) ==> forall|q: Seq<u8>|
            q.len() <= GCM_PLAINTEXT_MAX && ct@ == sealed(key@, nonce@, q) ==> p@ == q,
        r is Err ==> forall|p: Seq<u8>|
            p.len() <= GCM_PLAINTEXT_MAX ==> ct@ != sealed(key@, nonce@, p),
{
    let cipher = match <aes_gcm::Aes256Gcm as aes_gcm::KeyInit>::new_from_slice(key.as_slice()) {
        Ok(c) => c,
        Err(_) => return Err(CoreError::Crypto),
    };
    let mut nonce_arr = [0u8; 12];
    nonce_arr.copy_from_slice(nonce.as_slice());
    match aes_gcm::aead::Aead::decrypt(&cipher, &nonce_arr.into(), ct.as_slice()) {
        Ok(p) => Ok(p),
        Err(_) => Err(CoreError::Crypto),
    }
}

/// Relies on base64's `STANDARD` engine `encode`: the padded standard-alphabet
/// encoding, a pure function of the input bytes.
#[verifier::external_body]
pub(crate) fn b64_encode(data: &Vec<u8>) -> (r: String)
    ensures
        r@ == b64_of(data@),
{
    base64::Engine::encode(&base64::engine::general_purpose::STANDARD, data)
}

/// Relies on base64's `STANDARD` engine `decode`: with canonical padding
/// required and trailing bits rejected it accepts exactly the strings that
/// encode produces, and inverts encode on them.
#[verifier::external_body]
fn b64_decode(data: &str) -> (r: Result<Vec<u8>, CoreError>)
    ensures
        r matches Ok(v) ==> data@ == b64_of(v@),
        r matches Ok(v) ==> forall|b: Seq<u8>| data@ == b64_of(b) ==> v@ == b,
        r is Err ==> forall|b: Seq<u8>| data@ != b64_of(b),
{
    match base64::Engine::decode(&base64::engine::general_purpose::STANDARD, data) {
        Ok(v) => Ok(v),
        Err(_) => Err(CoreError::Format),
    }
}

/// Relies on sha2's `Sha256`: the 32-byte digest, a pure function of the
/// input bytes.
#[verifier::external_body]
fn sha256(data: &Vec<u8>) -> (r: Vec<u8>)
    ensures
        r@ == sha256_of(data@),
        r@.len() == 32,
{
    let digest = <sha2::Sha256 as sha2::Digest>::digest(data.as_slice());
    digest.to_vec()
}

/// Relies on `rand::fill` over the thread-local cryptographically secure
/// generator; of a random result only the length is promised.
#[verifier::external_body]
pub fn random_bytes(n: usize) -> (r: Vec<u8>)
    ensures
        r@.len() == n,
{
    let mut v = vec![0u8; n];
    rand::fill(&mut v[..]);
    v
}

/// Relies on `String::from_utf8`: it succeeds exactly on valid UTF-8 and
/// returns the string those bytes encode.
#[verifier::external_body]
fn bytes_to_string(v: Vec<u8>) -> (r: Option<String>)
    ensures
        r matches Some(s) ==> v@ == encode_utf8(s@),
        valid_utf8(v@) ==> r is Some,
{
    match String::from_utf8(v) {
        Ok(s) => Some(s),
        Err(_) => None,
    }
}

/// Holds when `stored` is a well-formed at-rest sealing of the field value
/// `plain` under `key`: a random 12-byte nonce followed by the AES-GCM
/// ciphertext of the UTF-8 bytes of `plain` — 16 bytes (the tag) longer than
/// those bytes — base64-encoded as one string; so the decoded form is
/// `12 + n + 16` bytes long for an `n`-byte plaintext.
pub open spec fn is_sealing_of(key: Seq<u8>, stored: Seq<char>, plain: Seq<char>) -> bool {
    &&& encode_utf8(plain).len() <= GCM_PLAINTEXT_MAX
    &&& exists|nonce: Seq<u8>|
        {
            &&& nonce.len() == 12
            &&& sealed(key, nonce, encode_utf8(plain)).len() == encode_utf8(plain).len() + 16
            &&& stored == b64_of(nonce + sealed(key, nonce, encode_utf8(plain)))
        }
}

/// Seal one secret field for storage at rest: fresh random nonce, AES-GCM,
/// nonce prepended, base64.
pub fn encrypt_field(key: &Vec<u8>, plain: &str) -> (r: Result<String, CoreError>)
    requires
        key@.len() == 32,
    ensures
        r matches Ok(c) ==> is_sealing_of(key@, c@, plain@),
        encode_utf8(plain@).len() <= GCM_PLAINTEXT_MAX ==> r is Ok,
{
    let bytes = plain.as_bytes_vec();
    let nonce = random_bytes(12);
    let ct = match gcm_seal(key, &nonce, &bytes) {
        Ok(c) => c,
        Err(e) => {
            return Err(e);
        },
    };
    let mut combined = nonce;
    let mut tail = ct;
    combined.append(&mut tail);
    let encoded = b64_encode(&combined);
    proof {
        assert(combined@.subrange(0, 12) + combined@.subrange(12, combined@.len() as int)
            =~= combined@);
    }
    Ok(encoded)
}

/// Open one stored field. Fails closed: any decoding error, truncation or
/// authentication-tag mismatch is `Crypto`. The second clause is the
/// round-trip law: every value this key sealed is recovered exactly.
pub fn decrypt_field(key: &Vec<u8>, stored: &str) -> (r: Result<String, CoreError>)
    requires
        key@.len() == 32,
    ensures
        r matches Ok(p) ==> is_sealing_of(key@, stored@, p@),
        r matches Err(e) ==> e == CoreError::Crypto,
        forall|p: Seq<char>| is_sealing_of(key@, stored@, p) ==> (r matches Ok(q) && q@ == p),
{
    let combined = match b64_decode(stored) {
        Ok(v) => v,
        Err(_) => {
            return Err(CoreError::Crypto);
        },
    };
    if combined.len() < 12 {
        return Err(CoreError::Crypto);
    }
    let nonce = slice_to_vec(slice_subrange(combined.as_slice(), 0, 12));
    let ct = slice_to_vec(slice_subrange(combined.as_slice(), 12, combined.len()));
    let plain_bytes = match gcm_open(key, &nonce, &ct) {
        Ok(p) => p,
        Err(_) => {
            proof {
                assert forall|p: Seq<char>| !is_sealing_of(key@, stored@, p) by {
                    if is_sealing_of(key@, stored@, p) {
                        let n = choose|n: Seq<u8>|
                            n.len() == 12 && stored@ == b64_of(
                                n + sealed(key@, n, encode_utf8(p)),
                            );
                        assert(combined@ == n + sealed(key@, n, encode_utf8(p)));
                        assert(nonce@ =~= n);
                        assert(ct@ =~= sealed(key@, n, encode_utf8(p)));
                    }
                }
            }
            return Err(CoreError::Crypto);
        },
    };
    proof {
        assert(nonce@ + ct@ =~= combined@);
    }
    match bytes_to_string(plain_bytes) {
        Some(s) => {
            proof {
                assert(is_sealing_of(key@, stored@, s@));
                assert forall|p: Seq<char>| is_sealing_of(key@, stored@, p) implies s@ == p by {
                    let n = choose|n: Seq<u8>|
                        n.len() == 12 && stored@ == b64_of(n + sealed(key@, n, encode_utf8(p)));
                    assert(combined@ == n + sealed(key@, n, encode_utf8(p)));
                    assert(nonce@ =~= n);
                    assert(ct@ =~= sealed(key@, n, encode_utf8(p)));
                    encode_utf8_decode_utf8(s@);
                    encode_utf8_decode_utf8(p);
                }
            }
            Ok(s)
        },
        None => {
            proof {
                assert forall|p: Seq<char>| !is_sealing_of(key@, stored@, p) by {
                    if is_sealing_of(key@, stored@, p) {
                        let n = choose|n: Seq<u8>|
                            n.len() == 12 && stored@ == b64_of(
                                n + sealed(key@, n, encode_utf8(p)),
                            );
                        assert(combined@ == n + sealed(key@, n, encode_utf8(p)));
                        assert(nonce@ =~= n);
                        assert(ct@ =~= sealed(key@, n, encode_utf8(p)));
                        assert(plain_bytes@ == encode_utf8(p));
                        encode_utf8_valid_utf8(p);
                    }
                }
            }
            Err(CoreError::Crypto)
        },
    }
}

/// The version byte that opens every backup envelope this crate emits.
pub const BACKUP_VERSION: u8 = 1;

/// The fixed, publicly known salt hashed together with the export password.
/// The scheme derives no protection from it: security rests entirely on
/// password strength.
pub open spec fn export_salt() -> Seq<u8> {
    encode_utf8("myssh-export-salt-v1"@)
}

/// The 256-bit backup key a password derives: SHA-256 over the password's
/// UTF-8 bytes followed by the fixed salt.
pub open spec fn export_key_of(password: Seq<char>) -> Seq<u8> {
    sha256_of(encode_utf8(password) + export_salt())
}

/// Derive the backup key of a password.
pub fn derive_export_key(password: &str) -> (r: Vec<u8>)
    ensures
        r@ == export_key_of(password@),
        r@.len() == 32,
{
    let mut buf = password.as_bytes_vec();
    let mut salt = "myssh-export-salt-v1".as_bytes_vec();
    buf.append(&mut salt);
    sha256(&buf)
}

/// Holds when `doc` is a well-formed backup envelope of the payload bytes
/// under `password`: the version byte, a 12-byte nonce, and the AES-GCM
/// ciphertext under the password-derived key — 16 bytes (the tag) longer
/// than the payload — base64-encoded as one string; so the decoded form is
/// `13 + n + 16` bytes long for an `n`-byte payload.
pub open spec fn is_backup_of(password: Seq<char>, doc: Seq<char>, payload: Seq<u8>) -> bool {
    &&& payload.len() <= GCM_PLAINTEXT_MAX
    &&& exists|nonce: Seq<u8>|
        {
            &&& nonce.len() == 12
            &&& sealed(export_key_of(password), nonce, payload).len() == payload.len() + 16
            &&& doc == b64_of(
                seq![BACKUP_VERSION] + nonce + sealed(export_key_of(password), nonce, payload),
            )
        }
}

/// Seal a serialized profile document into a portable backup envelope.
pub fn seal_backup(payload: &Vec<u8>, password: &str) -> (r: Result<String, CoreError>)
    ensures
        r matches Ok(d) ==> is_backup_of(password@, d@, payload@),
        payload@.len() <= GCM_PLAINTEXT_MAX ==> r is Ok,
{
    let key = derive_export_key(password);
    let nonce = random_bytes(12);
    let ct = match gcm_seal(&key, &nonce, payload) {
        Ok(c) => c,
        Err(e) => {
            return Err(e);
        },
    };
    let mut combined: Vec<u8> = Vec::new();
    combined.push(BACKUP_VERSION);
    let mut nonce_tail = nonce;
    let ghost nonce_snap = nonce_tail@;
    combined.append(&mut nonce_tail);
    let mut ct_tail = ct;
    let ghost ct_snap = ct_tail@;
    combined.append(&mut ct_tail);
    let encoded = b64_encode(&combined);
    proof {
        assert(seq![BACKUP_VERSION] + nonce_snap + ct_snap =~= combined@);
    }
    Ok(encoded)
}

/// Open a backup envelope. Either the whole document authenticates under the
/// password's key or nothing comes out: an undecodable or truncated document
/// or an unknown version byte is `Format`; an authentication failure — wrong
/// password or corrupted data — is `Crypto`, one opaque error. The last
/// clause is the round-trip law: every payload sealed under this password is
/// recovered exactly.
pub fn open_backup(doc: &str, password: &str) -> (r: Result<Vec<u8>, CoreError>)
    ensures
        r matches Ok(p) ==> is_backup_of(password@, doc@, p@),
        r matches Err(e) ==> (e == CoreError::Format || e == CoreError::Crypto),
        forall|p: Seq<u8>| is_backup_of(password@, doc@, p) ==> (r matches Ok(v) && v@ == p),
{
    let combined = match b64_decode(doc) {
        Ok(v) => v,
        Err(_) => {
            return Err(CoreError::Format);
        },
    };
    if combined.len() < 13 {
        proof {
            backup_shape(password@, doc@, combined@);
        }
        return Err(CoreError::Format);
    }
    let version = *vstd::slice::slice_index_get(combined.as_slice(), 0);
    if version != BACKUP_VERSION {
        proof {
            backup_shape(password@, doc@, combined@);
        }
        return Err(CoreError::Format);
    }
    let nonce = slice_to_vec(slice_subrange(combined.as_slice(), 1, 13));
    let ct = slice_to_vec(slice_subrange(combined.as_slice(), 13, combined.len()));
    let key = derive_export_key(password);
    match gcm_open(&key, &nonce, &ct) {
        Ok(p) => {
            proof {
                assert(seq![BACKUP_VERSION] + nonce@ + ct@ =~= combined@);
                assert(is_backup_of(password@, doc@, p@));
                assert forall|q: Seq<u8>| is_backup_of(password@, doc@, q) implies p@ == q by {
                    backup_parts(password@, doc@, q, combined@);
                }
            }
            Ok(p)
        },
        Err(_) => {
            proof {
                assert forall|q: Seq<u8>| !is_backup_of(password@, doc@, q) by {
                    if is_backup_of(password@, doc@, q) {
                        backup_parts(password@, doc@, q, combined@);
                    }
                }
            }
            Err(CoreError::Crypto)
        },
    }
}

/// A decoded backup envelope of any payload is at least 14 bytes and opens
/// with the version byte.
proof fn backup_shape(password: Seq<char>, doc: Seq<char>, combined: Seq<u8>)
    requires
        forall|b: Seq<u8>| doc == b64_of(b) ==> combined == b,
    ensures
        forall|p: Seq<u8>|
            is_backup_of(password, doc, p) ==> combined.len() >= 13 && combined[0]
                == BACKUP_VERSION,
{
    assert forall|p: Seq<u8>|
        is_backup_of(password, doc, p) implies combined.len() >= 13 && combined[0]
        == BACKUP_VERSION by {
        let n = choose|n: Seq<u8>|
            n.len() == 12 && doc == b64_of(
                seq![BACKUP_VERSION] + n + sealed(export_key_of(password), n, p),
            );
        assert(combined == seq![BACKUP_VERSION] + n + sealed(export_key_of(password), n, p));
    }
}

/// Splitting a decoded envelope recovers its nonce and ciphertext parts.
proof fn backup_parts(password: Seq<char>, doc: Seq<char>, p: Seq<u8>, combined: Seq<u8>)
    requires
        is_backup_of(password, doc, p),
        forall|b: Seq<u8>| doc == b64_of(b) ==> combined == b,
        combined.len() >= 13,
    ensures
        combined.subrange(13, combined.len() as int) == sealed(
            export_key_of(password),
            combined.subrange(1, 13),
            p,
        ),
        combined.subrange(1, 13).len() == 12,
{
    let n = choose|n: Seq<u8>|
        n.len() == 12 && doc == b64_of(
            seq![BACKUP_VERSION] + n + sealed(export_key_of(password), n, p),
        );
    let whole = seq![BACKUP_VERSION] + n + sealed(export_key_of(password), n, p);
    assert(combined == whole);
    assert(combined.subrange(1, 13) =~= n);
    assert(combined.subrange(13, combined.len() as int) =~= sealed(export_key_of(password), n, p));
}

} // verus!
