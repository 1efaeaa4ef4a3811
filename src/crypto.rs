//! The cryptographic primitives of the vault: scrypt key derivation and
//! AES-256-GCM authenticated decryption, and the clearing of key buffers.
use aes_gcm::aead::{Aead, KeyInit};
use vstd::arithmetic::power2::pow2;
use vstd::prelude::*;

verus! {

/// The length in bytes of every derived key and master key.
pub const KEY_LEN: usize = 32;

/// The length in bytes of an AES-GCM nonce.
pub const NONCE_LEN: usize = 12;

/// The length in bytes of an AES-GCM authentication tag.
pub const TAG_LEN: usize = 16;

/// Whether scrypt accepts the cost `N = 2^log_n`, block size `r` and
/// parallelism `p` for a 32-byte output.
pub open spec fn scrypt_params_ok(log_n: u8, r: u32, p: u32) -> bool {
    &&& r > 0
    &&& p > 0
    &&& pow2(log_n as nat) <= usize::MAX
    &&& 128 * r * pow2(log_n as nat) <= usize::MAX
    &&& 128 * r * p <= usize::MAX
    &&& log_n < 16 * r
    &&& r * p < 0x4000_0000
}

/// The 32-byte scrypt key of `password` and `salt` with `N = 2^log_n`.
pub uninterp spec fn scrypt_key(password: Seq<u8>, salt: Seq<u8>, log_n: u8, r: u32, p: u32) -> Seq<u8>;

/// The plaintext that AES-256-GCM recovers from `ct` (ciphertext followed by
/// its 16-byte tag) under `key` and `nonce`, or `None` where the tag does not
/// authenticate it.
pub uninterp spec fn aes_gcm_plaintext(key: Seq<u8>, nonce: Seq<u8>, ct: Seq<u8>) -> Option<Seq<u8>>;

/// Relies on `scrypt::Params::new`, which accepts exactly the parameters of
/// `scrypt_params_ok`, and on `scrypt::scrypt`, which then fills a 32-byte
/// output.
#[verifier::external_body]
pub fn scrypt_derive(password: &[u8], salt: &[u8], log_n: u8, r: u32, p: u32) -> (res: Option<Vec<u8>>)
    ensures
        res is Some <==> scrypt_params_ok(log_n, r, p),
        res matches Some(k) ==> k@ == scrypt_key(password@, salt@, log_n, r, p) && k@.len() == KEY_LEN,
{
    let params = scrypt::Params::new(log_n, r, p, KEY_LEN).ok()?;
    let mut out = vec![0u8; KEY_LEN];
    scrypt::scrypt(password, salt, &params, &mut out).ok()?;
    Some(out)
}

/// Relies on `aes_gcm::Aes256Gcm::decrypt`: it fails on an input shorter than
/// the tag or whose tag does not verify, and otherwise returns the input
/// without its tag, decrypted.
#[verifier::external_body]
pub fn aes_gcm_open(key: &[u8], nonce: &[u8], ct: &[u8]) -> (r: Option<Vec<u8>>)
    requires
        key@.len() == KEY_LEN,
        nonce@.len() == NONCE_LEN,
    ensures
        r matches Some(p) ==> aes_gcm_plaintext(key@, nonce@, ct@) == Some(p@),
        r is None ==> aes_gcm_plaintext(key@, nonce@, ct@) is None,
        ct@.len() < TAG_LEN ==> r is None,
        r matches Some(p) ==> p@.len() + TAG_LEN == ct@.len(),
{
    let cipher = aes_gcm::Aes256Gcm::new_from_slice(key).expect("a 32-byte key");
    cipher.decrypt(aes_gcm::Nonce::from_slice(nonce), ct).ok()
}

/// Overwrites every byte of `buf` with zero.
pub fn wipe(buf: &mut Vec<u8>)
    ensures
        final(buf)@.len() == old(buf)@.len(),
        forall|i: int| 0 <= i < final(buf)@.len() ==> final(buf)@[i] == 0,
{
    let mut i: usize = 0;
    while i < buf.len()
        invariant
            i <= buf@.len(),
            buf@.len() == old(buf)@.len(),
            forall|j: int| 0 <= j < i ==> buf@[j] == 0,
        decreases buf@.len() - i,
    {
        buf.set(i, 0);
        i = i + 1;
    }
}

/// The bytes of `a` followed by those of `b`.
pub fn join_bytes(a: &[u8], b: &[u8]) -> (r: Vec<u8>)
    ensures
        r@ == a@ + b@,
{
    let mut r: Vec<u8> = Vec::new();
    let mut i: usize = 0;
    while i < a.len()
        invariant
            i <= a@.len(),
            r@ == a@.subrange(0, i as int),
        decreases a@.len() - i,
    {
        r.push(a[i]);
        i = i + 1;
        assert(r@ =~= a@.subrange(0, i as int));
    }
    let mut j: usize = 0;
    while j < b.len()
        invariant
            j <= b@.len(),
            r@ == a@ + b@.subrange(0, j as int),
        decreases b@.len() - j,
    {
        r.push(b[j]);
        j = j + 1;
        assert(r@ =~= a@ + b@.subrange(0, j as int));
    }
    assert(b@.subrange(0, b@.len() as int) =~= b@);
    r
}

} // verus!
