//! Crypto primitives: keypair generation, recoverable ECDSA over secp256k1,
//! and authenticated symmetric encryption of penalty transactions.
//!
//! The outside calls stand behind trusted wrappers; everything else is
//! verified against the names those wrappers give their results.

use vstd::prelude::*;
use bitcoin::hashes::sha256 as sha256_mod;
use bitcoin::secp256k1::ecdsa::{RecoverableSignature, RecoveryId};
use bitcoin::secp256k1::{Message, Secp256k1, SecretKey};
use chacha20poly1305::aead::{Aead, KeyInit};
use chacha20poly1305::{ChaCha20Poly1305, Key, Nonce};

verus! {

/// The SHA-256 digest of a byte string.
pub uninterp spec fn sha256_of(data: Seq<u8>) -> Seq<u8>;

/// Whether 32 bytes are a valid secp256k1 secret key.
pub uninterp spec fn valid_sk(sk: Seq<u8>) -> bool;

/// The compressed public key derived from a secret key.
pub uninterp spec fn pk_of(sk: Seq<u8>) -> Seq<u8>;

/// The 65-byte compact recoverable ECDSA signature of a 32-byte digest
/// under a secret key. Signing uses RFC6979 nonces, so the result depends
/// on the digest and the key alone.
pub uninterp spec fn sig_of(digest: Seq<u8>, sk: Seq<u8>) -> Seq<u8>;

/// The public key that a recoverable signature recovers to for a digest,
/// or `None` when the signature does not parse or recovery fails.
pub uninterp spec fn recover_of(digest: Seq<u8>, sig: Seq<u8>) -> Option<Seq<u8>>;

/// The longest plaintext ChaCha20-Poly1305 encrypts: the 32-bit block
/// counter caps one message below (2^32 - 1) blocks of 64 bytes.
pub const CHACHA_PLAINTEXT_MAX: u64 = 0x3FFFFFFFC0;

/// The ChaCha20-Poly1305 ciphertext of a plaintext under a 32-byte key and
/// the fixed all-zero nonce used for penalty transactions.
pub uninterp spec fn cipher_of(plain: Seq<u8>, key: Seq<u8>) -> Seq<u8>;

/// The plaintext that a blob decrypts to under a 32-byte key and the fixed
/// all-zero nonce, or `None` when the tag does not authenticate.
pub uninterp spec fn decipher_of(blob: Seq<u8>, key: Seq<u8>) -> Option<Seq<u8>>;

/// Relies on `bitcoin::hashes::sha256::Hash::hash`: a 32-byte digest that
/// depends on the input bytes alone.
#[verifier::external_body]
pub(crate) fn sha256(data: &Vec<u8>) -> (r: Vec<u8>)
    ensures
        r@ == sha256_of(data@),
        r@.len() == 32,
{
    let h = <sha256_mod::Hash as bitcoin::hashes::Hash>::hash(data.as_slice());
    <sha256_mod::Hash as bitcoin::hashes::Hash>::to_byte_array(h).to_vec()
}

/// Relies on `secp256k1::Secp256k1::generate_keypair`: a fresh random valid
/// secret key together with the compressed public key derived from it.
#[verifier::external_body]
pub fn get_random_keypair() -> (r: (Vec<u8>, Vec<u8>))
    ensures
        r.0@.len() == 32,
        valid_sk(r.0@),
        r.1@ == pk_of(r.0@),
        r.1@.len() == 33,
{
    let secp = Secp256k1::new();
    let (sk, pk) = secp.generate_keypair(&mut bitcoin::secp256k1::rand::thread_rng());
    (sk.secret_bytes().to_vec(), pk.serialize().to_vec())
}

/// Relies on `secp256k1::PublicKey::from_secret_key` and
/// `SecretKey::from_slice`: the derivation succeeds exactly on valid secret
/// keys and yields the 33-byte compressed public key.
#[verifier::external_body]
pub(crate) fn derive_public_key(sk: &Vec<u8>) -> (r: Option<Vec<u8>>)
    ensures
        r is Some <==> valid_sk(sk@),
        r matches Some(pk) ==> pk@ == pk_of(sk@) && pk@.len() == 33,
{
    let secp = Secp256k1::new();
    let key = match SecretKey::from_slice(sk.as_slice()) {
        Ok(k) => k,
        Err(_) => return None,
    };
    Some(bitcoin::secp256k1::PublicKey::from_secret_key(&secp, &key).serialize().to_vec())
}

/// Relies on `secp256k1::Secp256k1::sign_ecdsa_recoverable`: RFC6979
/// deterministic signing, whose signature recovers to the signer's public
/// key. Serialized as the recovery id byte followed by the 64 compact bytes.
#[verifier::external_body]
pub(crate) fn sign_digest(digest: &Vec<u8>, sk: &Vec<u8>) -> (r: Option<Vec<u8>>)
    requires
        digest@.len() == 32,
    ensures
        r is Some <==> valid_sk(sk@),
        r matches Some(s) ==> s@ == sig_of(digest@, sk@) && s@.len() == 65 && recover_of(
            digest@,
            s@,
        ) == Some(pk_of(sk@)),
{
    let secp = Secp256k1::new();
    let key = match SecretKey::from_slice(sk.as_slice()) {
        Ok(k) => k,
        Err(_) => return None,
    };
    let arr: [u8; 32] = digest.as_slice().try_into().unwrap();
    let (recid, data) = secp.sign_ecdsa_recoverable(&Message::from_digest(arr), &key)
        .serialize_compact();
    let mut out = vec![recid.to_i32() as u8];
    out.extend_from_slice(&data);
    Some(out)
}

/// Relies on `secp256k1::Secp256k1::recover_ecdsa`: determines the public
/// key for which the signature is valid for the digest, failing when the
/// signature does not parse or recovery fails.
#[verifier::external_body]
pub(crate) fn recover_digest(digest: &Vec<u8>, sig: &Vec<u8>) -> (r: Option<Vec<u8>>)
    requires
        digest@.len() == 32,
    ensures
        r matches Some(pk) ==> recover_of(digest@, sig@) == Some(pk@) && pk@.len() == 33,
        r is None ==> recover_of(digest@, sig@) is None,
{
    if sig.len() != 65 {
        return None;
    }
    let recid = RecoveryId::from_i32(sig[0] as i32).ok()?;
    let parsed = RecoverableSignature::from_compact(&sig[1..], recid).ok()?;
    let arr: [u8; 32] = digest.as_slice().try_into().unwrap();
    let secp = Secp256k1::new();
    match secp.recover_ecdsa(&Message::from_digest(arr), &parsed) {
        Ok(pk) => Some(pk.serialize().to_vec()),
        Err(_) => None,
    }
}

/// Relies on `chacha20poly1305::ChaCha20Poly1305` through `Aead::encrypt`:
/// encryption succeeds exactly on plaintexts below the cipher's length
/// bound; the ciphertext is the plaintext plus a 16-byte tag, it depends
/// on the plaintext and key alone, and it decrypts back to the plaintext.
#[verifier::external_body]
fn encrypt_raw(plain: &Vec<u8>, key: &Vec<u8>) -> (r: Option<Vec<u8>>)
    requires
        key@.len() == 32,
    ensures
        r is Some <==> plain@.len() < CHACHA_PLAINTEXT_MAX,
        r matches Some(c) ==> c@ == cipher_of(plain@, key@) && decipher_of(c@, key@) == Some(
            plain@,
        ) && c@.len() == plain@.len() + 16,
{
    let arr: [u8; 32] = key.as_slice().try_into().unwrap();
    let cipher = ChaCha20Poly1305::new(&Key::from(arr));
    match cipher.encrypt(&Nonce::from([0u8; 12]), plain.as_slice()) {
        Ok(c) => Some(c),
        Err(_) => None,
    }
}

/// Relies on `chacha20poly1305::ChaCha20Poly1305` through `Aead::decrypt`:
/// succeeds exactly when the tag authenticates under the key.
#[verifier::external_body]
fn decrypt_raw(blob: &Vec<u8>, key: &Vec<u8>) -> (r: Option<Vec<u8>>)
    requires
        key@.len() == 32,
    ensures
        r matches Some(p) ==> decipher_of(blob@, key@) == Some(p@),
        r is None ==> decipher_of(blob@, key@) is None,
{
    let arr: [u8; 32] = key.as_slice().try_into().unwrap();
    let cipher = ChaCha20Poly1305::new(&Key::from(arr));
    match cipher.decrypt(&Nonce::from([0u8; 12]), blob.as_slice()) {
        Ok(p) => Some(p),
        Err(_) => None,
    }
}

/// The signature a message is given: recoverable ECDSA over its SHA-256
/// digest.
pub open spec fn message_sig(msg: Seq<u8>, sk: Seq<u8>) -> Seq<u8> {
    sig_of(sha256_of(msg), sk)
}

/// The identity a signature over a message recovers to.
pub open spec fn recovered_pk(msg: Seq<u8>, sig: Seq<u8>) -> Option<Seq<u8>> {
    recover_of(sha256_of(msg), sig)
}

/// Signs a message: hashes it and signs the digest. Fails exactly when the
/// secret key is invalid.
pub fn sign(msg: &Vec<u8>, sk: &Vec<u8>) -> (r: Option<Vec<u8>>)
    ensures
        r is Some <==> valid_sk(sk@),
        r matches Some(s) ==> s@ == message_sig(msg@, sk@) && s@.len() == 65 && recovered_pk(
            msg@,
            s@,
        ) == Some(pk_of(sk@)),
{
    let digest = sha256(msg);
    sign_digest(&digest, sk)
}

/// Recovers the public key that signed a message, or `None` when the
/// signature is malformed or recovery fails.
pub fn recover(msg: &Vec<u8>, sig: &Vec<u8>) -> (r: Option<Vec<u8>>)
    ensures
        r matches Some(pk) ==> recovered_pk(msg@, sig@) == Some(pk@) && pk@.len() == 33,
        r is None ==> recovered_pk(msg@, sig@) is None,
{
    let digest = sha256(msg);
    recover_digest(&digest, sig)
}

/// The symmetric key a commitment txid derives: its SHA-256 digest.
pub open spec fn blob_key(txid: Seq<u8>) -> Seq<u8> {
    sha256_of(txid)
}

/// Encrypts a penalty transaction under the key derived from its commitment
/// txid. Succeeds exactly on transactions below the cipher's length bound;
/// the ciphertext decrypts back to the transaction under the same txid.
pub fn encrypt(penalty_tx: &Vec<u8>, txid: &Vec<u8>) -> (r: Option<Vec<u8>>)
    ensures
        r is Some <==> penalty_tx@.len() < CHACHA_PLAINTEXT_MAX,
        r matches Some(c) ==> c@ == cipher_of(penalty_tx@, blob_key(txid@)) && decipher_of(
            c@,
            blob_key(txid@),
        ) == Some(penalty_tx@) && c@.len() == penalty_tx@.len() + 16,
{
    let key = sha256(txid);
    encrypt_raw(penalty_tx, &key)
}

/// Decrypts a blob under the key derived from a commitment txid; fails
/// exactly when the blob does not authenticate under that key.
pub fn decrypt(blob: &Vec<u8>, txid: &Vec<u8>) -> (r: Option<Vec<u8>>)
    ensures
        r matches Some(p) ==> decipher_of(blob@, blob_key(txid@)) == Some(p@),
        r is None ==> decipher_of(blob@, blob_key(txid@)) is None,
{
    let key = sha256(txid);
    decrypt_raw(blob, &key)
}

} // verus!
