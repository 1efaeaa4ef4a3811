use aegis_rs::codec::{decode_base32, decode_base64, decode_hex};
use aegis_rs::crypto::{join_bytes, wipe};
use aegis_rs::model::{CipherParams, EntryType, KdfParams};
use aegis_rs::schema::exact_log2;
use aegis_rs::totp::current_code;
use aegis_rs::vault::{decrypt_database, derive_key, open_sealed, parse_backup, unlock_vault, VaultError};
use aes_gcm::aead::{Aead, KeyInit};
use base64::Engine;

const PASSWORD: &str = "test1234";
const SALT: [u8; 32] = [7u8; 32];
const LOG_N: u8 = 10;

fn bytes(seed: u64, n: usize) -> Vec<u8> {
    let mut x = seed;
    (0..n)
        .map(|_| {
            x = x.wrapping_mul(6364136223846793005).wrapping_add(1442695040888963407);
            (x >> 33) as u8
        })
        .collect()
}

fn seal(key: &[u8], nonce: &[u8], plain: &[u8]) -> (Vec<u8>, Vec<u8>) {
    let c = aes_gcm::Aes256Gcm::new_from_slice(key).unwrap();
    let mut out = c.encrypt(aes_gcm::Nonce::from_slice(nonce), plain).unwrap();
    let tag = out.split_off(out.len() - 16);
    (out, tag)
}

fn scrypt_key(password: &str, log_n: u8) -> Vec<u8> {
    let params = scrypt::Params::new(log_n, 8, 1, 32).unwrap();
    let mut out = vec![0u8; 32];
    scrypt::scrypt(password.as_bytes(), &SALT, &params, &mut out).unwrap();
    out
}

fn database_json(version: u64) -> String {
    format!(
        "{{\"version\":{},\"entries\":[{{\"type\":\"totp\",\"uuid\":\"e1\",\"name\":\"alice\",\"issuer\":\"Example\",\"note\":\"\",\"favorite\":false,\"info\":{{\"secret\":\"GEZDGNBVGY3TQOJQGEZDGNBVGY3TQOJQ\",\"algo\":\"SHA1\",\"digits\":6,\"period\":30}}}},{{\"type\":\"hotp\",\"uuid\":\"e2\",\"name\":\"bob\",\"issuer\":\"Other\",\"note\":\"n\",\"favorite\":true,\"info\":{{\"secret\":\"GEZDGNBVGY3TQOJQ\",\"algo\":\"SHA256\",\"digits\":6,\"counter\":3}}}}]}}",
        version
    )
}

fn slot_json(password: &str, master: &[u8], nonce_seed: u64) -> String {
    let kek = scrypt_key(password, LOG_N);
    let nonce = bytes(nonce_seed, 12);
    let (ct, tag) = seal(&kek, &nonce, master);
    format!(
        "{{\"type\":1,\"uuid\":\"s{}\",\"key\":\"{}\",\"key_params\":{{\"nonce\":\"{}\",\"tag\":\"{}\"}},\"n\":{},\"r\":8,\"p\":1,\"salt\":\"{}\",\"repaired\":true,\"is_backup\":false}}",
        nonce_seed,
        hex::encode(ct),
        hex::encode(nonce),
        hex::encode(tag),
        1u64 << LOG_N,
        hex::encode(SALT)
    )
}

fn vault_with(version: u64, slots: &[String], master: &[u8], db_plain: &str) -> String {
    let nonce = bytes(99, 12);
    let (ct, tag) = seal(master, &nonce, db_plain.as_bytes());
    format!(
        "{{\"version\":{},\"header\":{{\"slots\":[{}],\"params\":{{\"nonce\":\"{}\",\"tag\":\"{}\"}}}},\"db\":\"{}\"}}",
        version,
        slots.join(","),
        hex::encode(nonce),
        hex::encode(tag),
        base64::engine::general_purpose::STANDARD_NO_PAD.encode(ct)
    )
}

fn fixture() -> String {
    let master = bytes(1, 32);
    vault_with(1, &[slot_json(PASSWORD, &master, 5)], &master, &database_json(2))
}

#[test]
fn end_to_end_code() {
    let db = unlock_vault(fixture().as_bytes(), PASSWORD).unwrap();
    assert_eq!(db.version, 2);
    assert_eq!(db.entries.len(), 2);
    let e = &db.entries[0];
    assert_eq!(e.entry_type, EntryType::Totp);
    assert_eq!(e.name, "alice");
    assert_eq!(e.issuer, "Example");
    let (code, left) = current_code(&e.info, 59).unwrap();
    assert_eq!(code, "287082");
    assert_eq!(left, 1);
    assert_eq!(db.entries[1].entry_type, EntryType::Hotp);
    assert_eq!(db.entries[1].info.counter, Some(3));
    assert_eq!(db.entries[1].info.period, None);
    assert!(db.entries[1].favorite);
}

#[test]
fn wrong_password_is_refused() {
    let r = unlock_vault(fixture().as_bytes(), "test12345");
    assert_eq!(r.unwrap_err(), VaultError::WrongPasswordOrNoMatchingSlot);
}

#[test]
fn second_password_slot_opens() {
    let master = bytes(1, 32);
    let slots = [slot_json("other", &master, 5), slot_json(PASSWORD, &master, 6)];
    let v = vault_with(1, &slots, &master, &database_json(2));
    assert_eq!(unlock_vault(v.as_bytes(), PASSWORD).unwrap().entries.len(), 2);
    assert_eq!(unlock_vault(v.as_bytes(), "other").unwrap().entries.len(), 2);
}

#[test]
fn no_password_slot() {
    let master = bytes(1, 32);
    let raw = "{\"type\":0,\"uuid\":\"r\",\"key\":\"00\",\"key_params\":{\"nonce\":\"000000000000000000000000\",\"tag\":\"00000000000000000000000000000000\"}}".to_string();
    let v = vault_with(1, &[raw], &master, &database_json(2));
    let r = unlock_vault(v.as_bytes(), PASSWORD);
    assert_eq!(r.unwrap_err(), VaultError::WrongPasswordOrNoMatchingSlot);
}

#[test]
fn backup_version_two_is_unsupported() {
    let master = bytes(1, 32);
    let v = vault_with(2, &[slot_json(PASSWORD, &master, 5)], &master, &database_json(2));
    assert_eq!(unlock_vault(v.as_bytes(), PASSWORD).unwrap_err(), VaultError::UnsupportedVersion);
    assert_eq!(unlock_vault(v.as_bytes(), "wrong").unwrap_err(), VaultError::UnsupportedVersion);
}

#[test]
fn database_version_three_is_unsupported() {
    let master = bytes(1, 32);
    let v = vault_with(1, &[slot_json(PASSWORD, &master, 5)], &master, &database_json(3));
    assert_eq!(unlock_vault(v.as_bytes(), PASSWORD).unwrap_err(), VaultError::UnsupportedVersion);
}

#[test]
fn not_json_is_malformed() {
    assert_eq!(unlock_vault(b"not json", PASSWORD).unwrap_err(), VaultError::MalformedVault);
    assert_eq!(parse_backup(b"{}").unwrap_err(), VaultError::MalformedVault);
}

#[test]
fn bad_hex_is_malformed() {
    let v = fixture().replace("\"tag\":\"", "\"tag\":\"zz");
    assert_eq!(parse_backup(v.as_bytes()).unwrap_err(), VaultError::MalformedVault);
}

#[test]
fn password_slot_without_salt_is_malformed() {
    let v = fixture().replace("\"salt\"", "\"pepper\"");
    assert_eq!(unlock_vault(v.as_bytes(), PASSWORD).unwrap_err(), VaultError::MalformedVault);
}

#[test]
fn password_slot_without_cost_is_malformed() {
    let v = fixture().replace("\"n\":", "\"m\":");
    assert_eq!(parse_backup(v.as_bytes()).unwrap_err(), VaultError::MalformedVault);
}

#[test]
fn parsed_backup_fields() {
    let b = parse_backup(fixture().as_bytes()).unwrap();
    assert_eq!(b.version, 1);
    assert_eq!(b.header.slots.len(), 1);
    let s = &b.header.slots[0];
    let k = s.kdf_params.as_ref().unwrap();
    assert_eq!(k.cost_log2, LOG_N);
    assert_eq!(k.block_size, 8);
    assert_eq!(k.parallelism, 1);
    assert_eq!(k.salt, SALT.to_vec());
    assert_eq!(s.wrapped_key.len(), 32);
    assert_eq!(s.repaired, Some(true));
    assert_eq!(s.is_backup, Some(false));
    assert_eq!(b.header.params.nonce, bytes(99, 12));
}

#[test]
fn bad_base64_database_is_malformed() {
    let mut b = parse_backup(fixture().as_bytes()).unwrap();
    b.db = "***".to_string();
    let master = bytes(1, 32);
    let r = decrypt_database(&master, &b.header.params, &b.db);
    assert_eq!(r.unwrap_err(), VaultError::MalformedVault);
}

#[test]
fn database_that_is_not_json_is_malformed() {
    let master = bytes(1, 32);
    let nonce = bytes(3, 12);
    let (ct, tag) = seal(&master, &nonce, b"not json at all");
    let params = CipherParams { nonce, tag };
    let db = base64::engine::general_purpose::STANDARD.encode(ct);
    assert_eq!(decrypt_database(&master, &params, &db).unwrap_err(), VaultError::MalformedVault);
}

#[test]
fn aead_round_trip() {
    for seed in 0..8u64 {
        let key = bytes(seed + 100, 32);
        let nonce = bytes(seed + 200, 12);
        let plain = bytes(seed + 300, (seed as usize) * 13);
        let (ct, tag) = seal(&key, &nonce, &plain);
        let params = CipherParams { nonce, tag };
        assert_eq!(open_sealed(&key, &params, &ct), Some(plain));
    }
}

#[test]
fn database_round_trip() {
    let master = bytes(42, 32);
    let nonce = bytes(43, 12);
    let (ct, tag) = seal(&master, &nonce, database_json(2).as_bytes());
    let params = CipherParams { nonce, tag };
    let db = base64::engine::general_purpose::STANDARD_NO_PAD.encode(ct);
    let d = decrypt_database(&master, &params, &db).unwrap();
    assert_eq!(d.entries[0].uuid, "e1");
    assert_eq!(d.entries[1].note, "n");
}

#[test]
fn aead_tamper_detection() {
    let key = bytes(7, 32);
    let nonce = bytes(8, 12);
    let plain = bytes(9, 40);
    let (ct, tag) = seal(&key, &nonce, &plain);
    for i in 0..ct.len() * 8 {
        let mut bad = ct.clone();
        bad[i / 8] ^= 1 << (i % 8);
        let params = CipherParams { nonce: nonce.clone(), tag: tag.clone() };
        assert_eq!(open_sealed(&key, &params, &bad), None);
    }
    for i in 0..tag.len() * 8 {
        let mut bad = tag.clone();
        bad[i / 8] ^= 1 << (i % 8);
        let params = CipherParams { nonce: nonce.clone(), tag: bad };
        assert_eq!(open_sealed(&key, &params, &ct), None);
    }
}

#[test]
fn tampered_database_fails_authentication() {
    let master = bytes(1, 32);
    let b = parse_backup(fixture().as_bytes()).unwrap();
    let mut raw = decode_base64(&b.db).unwrap();
    raw[0] ^= 0x80;
    let db = base64::engine::general_purpose::STANDARD_NO_PAD.encode(raw);
    let r = decrypt_database(&master, &b.header.params, &db);
    assert_eq!(r.unwrap_err(), VaultError::DatabaseAuthenticationFailed);
    let r = decrypt_database(&bytes(2, 32), &b.header.params, &b.db);
    assert_eq!(r.unwrap_err(), VaultError::DatabaseAuthenticationFailed);
    let r = decrypt_database(&master[..16], &b.header.params, &b.db);
    assert_eq!(r.unwrap_err(), VaultError::DatabaseAuthenticationFailed);
}

#[test]
fn tampered_slot_is_wrong_password() {
    let b = parse_backup(fixture().as_bytes()).unwrap();
    let key = hex::encode(&b.header.slots[0].wrapped_key);
    let mut flipped = b.header.slots[0].wrapped_key.clone();
    flipped[3] ^= 1;
    let v = fixture().replace(&key, &hex::encode(flipped));
    assert_eq!(unlock_vault(v.as_bytes(), PASSWORD).unwrap_err(), VaultError::WrongPasswordOrNoMatchingSlot);
}

#[test]
fn kdf_determinism() {
    let k = KdfParams { cost_log2: LOG_N, block_size: 8, parallelism: 1, salt: SALT.to_vec() };
    let a = derive_key(PASSWORD.as_bytes(), &k).unwrap();
    let b = derive_key(PASSWORD.as_bytes(), &k).unwrap();
    assert_eq!(a.len(), 32);
    assert_eq!(a, b);
    assert_eq!(a, scrypt_key(PASSWORD, LOG_N));
    assert_ne!(a, derive_key(b"other", &k).unwrap());
}

#[test]
fn invalid_kdf_parameters() {
    let k = KdfParams { cost_log2: LOG_N, block_size: 0, parallelism: 1, salt: SALT.to_vec() };
    assert_eq!(derive_key(b"pw", &k).unwrap_err(), VaultError::KeyDerivationFailure);
    let k = KdfParams { cost_log2: 20, block_size: 1, parallelism: 1, salt: SALT.to_vec() };
    assert_eq!(derive_key(b"pw", &k).unwrap_err(), VaultError::KeyDerivationFailure);
    let v = fixture().replace("\"p\":1", "\"p\":0");
    assert_eq!(unlock_vault(v.as_bytes(), PASSWORD).unwrap_err(), VaultError::KeyDerivationFailure);
}

#[test]
fn log2_of_cost() {
    assert_eq!(exact_log2(1), Some(0));
    assert_eq!(exact_log2(32768), Some(15));
    assert_eq!(exact_log2(1 << 63), Some(63));
    assert_eq!(exact_log2(0), None);
    assert_eq!(exact_log2(3), None);
    assert_eq!(exact_log2(u64::MAX), None);
}

#[test]
fn cost_not_a_power_of_two_is_malformed() {
    let v = fixture().replace("\"n\":1024", "\"n\":1000");
    assert_eq!(parse_backup(v.as_bytes()).unwrap_err(), VaultError::MalformedVault);
}

#[test]
fn codec_decoders() {
    assert_eq!(decode_hex("00ff10Ab"), Some(vec![0x00, 0xff, 0x10, 0xab]));
    assert_eq!(decode_hex("abc"), None);
    assert_eq!(decode_hex("zz"), None);
    assert_eq!(decode_base32("GEZDGNBVGY3TQOJQ"), Some(b"1234567890".to_vec()));
    assert_eq!(decode_base64("aGVsbG8"), Some(b"hello".to_vec()));
    assert_eq!(decode_base64("aGVsbG8="), Some(b"hello".to_vec()));
    assert_eq!(decode_base64("a*b"), None);
}

#[test]
fn wipe_and_concat() {
    let mut v = vec![1u8, 2, 3];
    wipe(&mut v);
    assert_eq!(v, vec![0, 0, 0]);
    assert_eq!(join_bytes(&[1, 2], &[3]), vec![1, 2, 3]);
}

#[test]
fn bad_base64_backup_is_malformed() {
    let b = parse_backup(fixture().as_bytes()).unwrap();
    let v = fixture().replace(&b.db, "***");
    assert_eq!(parse_backup(v.as_bytes()).unwrap_err(), VaultError::MalformedVault);
    assert_eq!(unlock_vault(v.as_bytes(), "wrong").unwrap_err(), VaultError::MalformedVault);
}
