//! The typed form of a vault backup and of the entry database inside it.
use vstd::prelude::*;

verus! {

/// The unlock method that a slot stands for.
#[derive(Clone, Copy, Debug, PartialEq, Eq, Structural)]
pub enum SlotType {
    Raw,
    Password,
    Biometric,
}

/// The nonce and authentication tag of one AES-256-GCM encryption.
#[derive(Clone, Debug)]
pub struct CipherParams {
    pub nonce: Vec<u8>,
    pub tag: Vec<u8>,
}

/// The scrypt parameters of a password slot: `N = 2^cost_log2`, `r`, `p`
/// and the salt.
#[derive(Clone, Debug)]
pub struct KdfParams {
    pub cost_log2: u8,
    pub block_size: u32,
    pub parallelism: u32,
    pub salt: Vec<u8>,
}

/// One enrolled way to unlock the master key, which it holds wrapped.
#[derive(Clone, Debug)]
pub struct Slot {
    pub slot_type: SlotType,
    pub uuid: String,
    pub wrapped_key: Vec<u8>,
    pub key_params: CipherParams,
    pub kdf_params: Option<KdfParams>,
    pub repaired: Option<bool>,
    pub is_backup: Option<bool>,
}

/// The slots of a backup and the parameters of the database encryption.
#[derive(Clone, Debug)]
pub struct Header {
    pub slots: Vec<Slot>,
    pub params: CipherParams,
}

/// A vault backup as read from its file; `db` is the base64 text of the
/// encrypted database.
#[derive(Clone, Debug)]
pub struct Backup {
    pub version: u64,
    pub header: Header,
    pub db: String,
}

/// The kind of one-time passcode that an entry produces.
#[derive(Clone, Debug, PartialEq, Eq)]
pub enum EntryType {
    Totp,
    Hotp,
    Steam,
    Other(String),
}

/// The hash function under the HMAC of an entry.
#[derive(Clone, Copy, Debug, PartialEq, Eq, Structural)]
pub enum Algorithm {
    Sha1,
    Sha256,
    Sha512,
}

/// The passcode parameters of an entry. `period` is absent for counter-based
/// entries, `counter` for time-based ones.
#[derive(Clone, Debug)]
pub struct EntryInfo {
    pub secret: String,
    pub algo: Algorithm,
    pub digits: u64,
    pub period: Option<u64>,
    pub counter: Option<u64>,
}

/// One account of the database.
#[derive(Clone, Debug)]
pub struct Entry {
    pub entry_type: EntryType,
    pub uuid: String,
    pub name: String,
    pub issuer: String,
    pub note: String,
    pub favorite: bool,
    pub info: EntryInfo,
}

/// The decrypted entry database.
#[derive(Clone, Debug)]
pub struct Database {
    pub version: u64,
    pub entries: Vec<Entry>,
}

} // verus!
