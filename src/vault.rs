//! The unlock pipeline: a password opens the master key of a password slot,
//! and the master key opens the entry database.
use crate::codec::{base64_decoded, decode_base64};
use crate::crypto::{
    aes_gcm_open, aes_gcm_plaintext, join_bytes, scrypt_derive, scrypt_key, scrypt_params_ok, wipe,
    KEY_LEN, NONCE_LEN,
};
use crate::json::{json_of_bytes, parse_json, Json};
use crate::model::{Backup, CipherParams, Database, KdfParams, Slot, SlotType};
use crate::schema::{backup_from_json, backup_match, backup_valid, database_from_json, database_match, database_valid};
use crate::json::{as_u64, member};
use vstd::prelude::*;
use vstd::string::StringSliceAdditionalSpecFns;

verus! {

/// Why a vault could not be unlocked.
#[derive(Clone, Copy, Debug, PartialEq, Eq, Structural)]
pub enum VaultError {
    /// The data is not a vault: bad JSON, a missing or mistyped field, bad
    /// hexadecimal or base64.
    MalformedVault,
    /// The backup or the database has a version that is not supported.
    UnsupportedVersion,
    /// A password slot has scrypt parameters that scrypt refuses.
    KeyDerivationFailure,
    /// No password slot opened with the password.
    WrongPasswordOrNoMatchingSlot,
    /// The database did not authenticate under the master key.
    DatabaseAuthenticationFailed,
}

/// The only backup version that is read.
pub const BACKUP_VERSION: u64 = 1;

/// The only database version that is read.
pub const DATABASE_VERSION: u64 = 2;

/// The key that `password` derives with the scrypt parameters `k`.
pub open spec fn derived_key(password: Seq<u8>, k: KdfParams) -> Seq<u8> {
    scrypt_key(password, k.salt@, k.cost_log2, k.block_size, k.parallelism)
}

/// Whether scrypt accepts the parameters `k`.
pub open spec fn kdf_ok(k: KdfParams) -> bool {
    scrypt_params_ok(k.cost_log2, k.block_size, k.parallelism)
}

/// Derives the 32-byte key-encryption key of `password`.
pub fn derive_key(password: &[u8], kdf: &KdfParams) -> (r: Result<Vec<u8>, VaultError>)
    ensures
        r is Ok <==> kdf_ok(*kdf),
        r matches Ok(k) ==> k@ == derived_key(password@, *kdf) && k@.len() == KEY_LEN,
        r matches Err(e) ==> e == VaultError::KeyDerivationFailure,
{
    match scrypt_derive(password, kdf.salt.as_slice(), kdf.cost_log2, kdf.block_size, kdf.parallelism) {
        Some(k) => Ok(k),
        None => Err(VaultError::KeyDerivationFailure),
    }
}

/// Deriving a key twice from the same password and parameters gives the same
/// key.
pub proof fn lemma_derivation_deterministic(p1: Seq<u8>, p2: Seq<u8>, k1: KdfParams, k2: KdfParams)
    requires
        p1 == p2,
        k1.salt@ == k2.salt@,
        k1.cost_log2 == k2.cost_log2,
        k1.block_size == k2.block_size,
        k1.parallelism == k2.parallelism,
    ensures
        derived_key(p1, k1) == derived_key(p2, k2),
        derived_key(p1, k1).len() == derived_key(p2, k2).len(),
{
}

/// What the AES-256-GCM opening of `ct` followed by the tag of `params` under
/// `key` gives; a key or nonce of the wrong length opens nothing.
pub open spec fn opened(key: Seq<u8>, params: CipherParams, ct: Seq<u8>) -> Option<Seq<u8>> {
    if key.len() != KEY_LEN || params.nonce@.len() != NONCE_LEN {
        None
    } else {
        aes_gcm_plaintext(key, params.nonce@, ct + params.tag@)
    }
}

/// Opens `ct` followed by the tag of `params` under `key`.
pub fn open_sealed(key: &[u8], params: &CipherParams, ct: &[u8]) -> (r: Option<Vec<u8>>)
    ensures
        r matches Some(p) ==> opened(key@, *params, ct@) == Some(p@),
        r is None ==> opened(key@, *params, ct@) is None,
{
    if key.len() != KEY_LEN || params.nonce.len() != NONCE_LEN {
        return None;
    }
    let sealed = join_bytes(ct, params.tag.as_slice());
    aes_gcm_open(key, params.nonce.as_slice(), sealed.as_slice())
}

/// What unlocking the master key with `password` gives for `slots`: the
/// password slots are tried in order, and the first that opens gives the
/// key; a password slot with parameters that scrypt refuses stops the search.
pub open spec fn unlock_outcome(password: Seq<u8>, slots: Seq<Slot>) -> Result<Seq<u8>, VaultError>
    decreases slots.len(),
{
    if slots.len() == 0 {
        Err(VaultError::WrongPasswordOrNoMatchingSlot)
    } else {
        let s = slots[0];
        if s.slot_type != SlotType::Password {
            unlock_outcome(password, slots.drop_first())
        } else {
            match s.kdf_params {
                None => Err(VaultError::MalformedVault),
                Some(k) => if !kdf_ok(k) {
                    Err(VaultError::KeyDerivationFailure)
                } else {
                    match opened(derived_key(password, k), s.key_params, s.wrapped_key@) {
                        Some(m) => Ok(m),
                        None => unlock_outcome(password, slots.drop_first()),
                    }
                },
            }
        }
    }
}

/// A master key comes out of an unlock only from a password slot whose
/// wrapped key authenticates under the key that `password` derives.
pub proof fn lemma_unlock_needs_authenticated_slot(password: Seq<u8>, slots: Seq<Slot>)
    requires
        unlock_outcome(password, slots) is Ok,
    ensures
        exists|i: int|
            0 <= i < slots.len() && (#[trigger] slots[i]).slot_type == SlotType::Password
                && (slots[i].kdf_params matches Some(k) && opened(
                derived_key(password, k),
                slots[i].key_params,
                slots[i].wrapped_key@,
            ) == Some(unlock_outcome(password, slots)->Ok_0)),
    decreases slots.len(),
{
    let s = slots[0];
    let rest = slots.drop_first();
    if s.slot_type == SlotType::Password && (s.kdf_params matches Some(k) && opened(
        derived_key(password, k),
        s.key_params,
        s.wrapped_key@,
    ) is Some) {
        assert(slots[0] == s);
    } else {
        lemma_unlock_needs_authenticated_slot(password, rest);
        let i = choose|i: int|
            0 <= i < rest.len() && (#[trigger] rest[i]).slot_type == SlotType::Password
                && (rest[i].kdf_params matches Some(k) && opened(
                derived_key(password, k),
                rest[i].key_params,
                rest[i].wrapped_key@,
            ) == Some(unlock_outcome(password, rest)->Ok_0));
        assert(slots[i + 1] == rest[i]);
    }
}

/// Unlocks the master key with `password`, trying the password slots in
/// order. A password slot whose scrypt parameters scrypt refuses ends the
/// search with `KeyDerivationFailure`, even where a later slot would open.
/// Each derived key is cleared once it has been tried.
pub fn unlock_master_key(password: &[u8], slots: &Vec<Slot>) -> (r: Result<Vec<u8>, VaultError>)
    ensures
        r matches Ok(m) ==> unlock_outcome(password@, slots@) == Ok::<Seq<u8>, VaultError>(m@),
        r matches Err(e) ==> unlock_outcome(password@, slots@) == Err::<Seq<u8>, VaultError>(e),
{
    let mut i: usize = 0;
    assert(slots@.skip(0) =~= slots@);
    while i < slots.len()
        invariant
            i <= slots@.len(),
            unlock_outcome(password@, slots@) == unlock_outcome(password@, slots@.skip(i as int)),
        decreases slots@.len() - i,
    {
        let s = &slots[i];
        assert(slots@.skip(i as int)[0] == slots@[i as int]);
        assert(slots@.skip(i as int).drop_first() =~= slots@.skip(i + 1));
        if s.slot_type == SlotType::Password {
            let kdf = match &s.kdf_params {
                Some(k) => k,
                None => return Err(VaultError::MalformedVault),
            };
            let mut key = derive_key(password, kdf)?;
            let opened_key = open_sealed(key.as_slice(), &s.key_params, s.wrapped_key.as_slice());
            wipe(&mut key);
            if let Some(m) = opened_key {
                return Ok(m);
            }
        }
        i = i + 1;
    }
    Err(VaultError::WrongPasswordOrNoMatchingSlot)
}

/// What reading the database tree `j` gives: its version must be the
/// supported one.
pub open spec fn tree_outcome(j: Json, r: Result<Database, VaultError>) -> bool {
    if !database_valid(j) {
        r matches Err(e) && e == VaultError::MalformedVault
    } else if as_u64(member(j, "version"@)) != Some(DATABASE_VERSION) {
        r matches Err(e) && e == VaultError::UnsupportedVersion
    } else {
        r matches Ok(d) && database_match(d, j)
    }
}

/// Reads the decrypted entry database from its JSON tree.
pub fn database_from_tree(j: &Json) -> (r: Result<Database, VaultError>)
    ensures
        tree_outcome(*j, r),
{
    match database_from_json(j) {
        None => Err(VaultError::MalformedVault),
        Some(d) => if d.version != DATABASE_VERSION {
            Err(VaultError::UnsupportedVersion)
        } else {
            Ok(d)
        },
    }
}

/// What decrypting the base64 database text `db` with `master` gives.
pub open spec fn database_outcome(
    master: Seq<u8>,
    params: CipherParams,
    db: Seq<char>,
    r: Result<Database, VaultError>,
) -> bool {
    match base64_decoded(db) {
        None => r matches Err(e) && e == VaultError::MalformedVault,
        Some(ct) => match opened(master, params, ct) {
            None => r matches Err(e) && e == VaultError::DatabaseAuthenticationFailed,
            Some(plain) => match json_of_bytes(plain) {
                None => r matches Err(e) && e == VaultError::MalformedVault,
                Some(j) => tree_outcome(j, r),
            },
        },
    }
}

/// Decrypts and reads the entry database with the master key. The plaintext
/// is cleared once it has been read.
pub fn decrypt_database(master_key: &[u8], params: &CipherParams, db: &str) -> (r: Result<Database, VaultError>)
    ensures
        database_outcome(master_key@, *params, db@, r),
{
    let ct = match decode_base64(db) {
        Some(c) => c,
        None => return Err(VaultError::MalformedVault),
    };
    let mut plain = match open_sealed(master_key, params, ct.as_slice()) {
        Some(p) => p,
        None => return Err(VaultError::DatabaseAuthenticationFailed),
    };
    let tree = parse_json(plain.as_slice());
    wipe(&mut plain);
    match tree {
        None => Err(VaultError::MalformedVault),
        Some(j) => database_from_tree(&j),
    }
}

/// What unlocking the backup `b` with `password` gives.
pub open spec fn backup_outcome(password: Seq<u8>, b: Backup, r: Result<Database, VaultError>) -> bool {
    if b.version != BACKUP_VERSION {
        r matches Err(e) && e == VaultError::UnsupportedVersion
    } else {
        match unlock_outcome(password, b.header.slots@) {
            Err(e) => r matches Err(x) && x == e,
            Ok(m) => database_outcome(m, b.header.params, b.db@, r),
        }
    }
}

/// A backup of another version is refused as unsupported, whatever the
/// password, before any slot or the database is looked at.
pub proof fn lemma_unsupported_version_refused(password: Seq<u8>, b: Backup, r: Result<Database, VaultError>)
    requires
        b.version != BACKUP_VERSION,
    ensures
        backup_outcome(password, b, r) <==> (r matches Err(e) && e == VaultError::UnsupportedVersion),
{
}

/// Unlocks a parsed backup: checks its version, opens the master key and
/// decrypts the database, clearing the master key afterwards.
pub fn unlock_backup(backup: &Backup, password: &str) -> (r: Result<Database, VaultError>)
    ensures
        backup_outcome(password.spec_bytes(), *backup, r),
{
    if backup.version != BACKUP_VERSION {
        return Err(VaultError::UnsupportedVersion);
    }
    let mut master = unlock_master_key(password.as_bytes(), &backup.header.slots)?;
    let r = decrypt_database(master.as_slice(), &backup.header.params, backup.db.as_str());
    wipe(&mut master);
    r
}

/// Reads a backup from the bytes of its file.
pub fn parse_backup(raw: &[u8]) -> (r: Result<Backup, VaultError>)
    ensures
        r matches Ok(b) ==> json_of_bytes(raw@) matches Some(j) && backup_match(b, j),
        r is Err <==> (json_of_bytes(raw@) matches Some(j) ==> !backup_valid(j)),
        r matches Err(e) ==> e == VaultError::MalformedVault,
{
    match parse_json(raw) {
        None => Err(VaultError::MalformedVault),
        Some(j) => match backup_from_json(&j) {
            Some(b) => Ok(b),
            None => Err(VaultError::MalformedVault),
        },
    }
}

/// What unlocking the vault file `raw` with `password` gives.
pub open spec fn vault_outcome(raw: Seq<u8>, password: Seq<u8>, r: Result<Database, VaultError>) -> bool {
    match json_of_bytes(raw) {
        None => r matches Err(e) && e == VaultError::MalformedVault,
        Some(j) => if !backup_valid(j) {
            r matches Err(e) && e == VaultError::MalformedVault
        } else {
            exists|b: Backup| backup_match(b, j) && #[trigger] backup_outcome(password, b, r)
        },
    }
}

/// Unlocks the vault file `raw` with `password` and returns its entry
/// database.
pub fn unlock_vault(raw: &[u8], password: &str) -> (r: Result<Database, VaultError>)
    ensures
        vault_outcome(raw@, password.spec_bytes(), r),
{
    let b = parse_backup(raw)?;
    let r = unlock_backup(&b, password);
    assert(backup_outcome(password.spec_bytes(), b, r));
    r
}

} // verus!
