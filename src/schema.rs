//! Reading the vault backup and the entry database from their JSON trees.
use crate::codec::{base64_decoded, decode_base64, decode_hex, hex_bytes, is_hex_text};
use crate::json::{as_bool, as_text, as_u64, get, get_bool, get_str, get_u64, member, Json};
use crate::model::{
    Algorithm, Backup, CipherParams, Database, Entry, EntryInfo, EntryType, Header, KdfParams, Slot,
    SlotType,
};
use vstd::arithmetic::power2::{lemma2_to64, lemma2_to64_rest, lemma_pow2_strictly_increases, pow2};
use vstd::prelude::*;

verus! {

/// The bytes that the hexadecimal text of the member `key` of `j` spells.
pub open spec fn hex_member(j: Json, key: Seq<char>) -> Option<Seq<u8>> {
    match as_text(member(j, key)) {
        Some(t) => if is_hex_text(t) {
            Some(hex_bytes(t))
        } else {
            None
        },
        None => None,
    }
}

/// The elements of `j`, where it is an array.
pub open spec fn elements(j: Option<Json>) -> Option<Seq<Json>> {
    match j {
        Some(Json::Array(v)) => Some(v@),
        _ => None,
    }
}

/// Whether `s` reads as the text `lit`.
pub fn text_is(s: &String, lit: &str) -> (r: bool)
    ensures
        r == (s@ == lit@),
{
    proof {
        broadcast use vstd::string::to_string_from_display_ensures_for_str;
    }
    let l = lit.to_string();
    *s == l
}

/// The bytes of the hexadecimal member `key` of `j`.
pub fn get_hex(j: &Json, key: &str) -> (r: Option<Vec<u8>>)
    ensures
        r matches Some(b) ==> hex_member(*j, key@) == Some(b@),
        r is None ==> hex_member(*j, key@) is None,
{
    match get_str(j, key) {
        Some(t) => decode_hex(t.as_str()),
        None => None,
    }
}

/// Whether `n` is a power of two.
pub open spec fn is_power_of_two(n: u64) -> bool {
    exists|k: nat| pow2(k) == n
}

/// The exponent `k` with `2^k == n`, where `n` is a power of two.
pub fn exact_log2(n: u64) -> (r: Option<u8>)
    ensures
        r matches Some(k) ==> pow2(k as nat) == n,
        r is None ==> !is_power_of_two(n),
{
    proof {
        lemma2_to64();
        lemma2_to64_rest();
    }
    let mut p: u64 = 1;
    let mut k: u8 = 0;
    while p < n && k < 63
        invariant
            k <= 63,
            p == pow2(k as nat),
            forall|j: nat| j < k ==> #[trigger] pow2(j) < n,
            pow2(62) == 0x4000_0000_0000_0000,
            pow2(63) == 0x8000_0000_0000_0000,
            pow2(64) == 0x1_0000_0000_0000_0000,
        decreases 63 - k,
    {
        proof {
            if k < 62 {
                lemma_pow2_strictly_increases(k as nat, 62);
            }
            assert(pow2((k + 1) as nat) == 2 * pow2(k as nat)) by {
                vstd::arithmetic::power2::lemma_pow2_unfold((k + 1) as nat);
            }
        }
        p = p * 2;
        k = k + 1;
    }
    if p == n {
        Some(k)
    } else {
        proof {
            assert forall|j: nat| pow2(j) != n by {
                if j > k {
                    lemma_pow2_strictly_increases(k as nat, j);
                    if k == 63 {
                        if j > 64 {
                            lemma_pow2_strictly_increases(64, j);
                        }
                    }
                }
            }
        }
        None
    }
}

/// Whether `j` holds a 12-byte nonce and a 16-byte tag in hexadecimal.
pub open spec fn cipher_params_valid(j: Json) -> bool {
    &&& hex_member(j, "nonce"@) matches Some(n) && n.len() == 12
    &&& hex_member(j, "tag"@) matches Some(t) && t.len() == 16
}

/// Whether `p` is what `j` describes.
pub open spec fn cipher_params_match(p: CipherParams, j: Json) -> bool {
    &&& hex_member(j, "nonce"@) == Some(p.nonce@)
    &&& hex_member(j, "tag"@) == Some(p.tag@)
}

/// Whether the nonce and tag of `p` have the lengths of AES-256-GCM.
pub open spec fn cipher_params_wf(p: CipherParams) -> bool {
    p.nonce@.len() == 12 && p.tag@.len() == 16
}

/// Reads a nonce and tag.
pub fn parse_cipher_params(j: &Json) -> (r: Option<CipherParams>)
    ensures
        r is Some <==> cipher_params_valid(*j),
        r matches Some(p) ==> cipher_params_match(p, *j) && cipher_params_wf(p),
{
    let nonce = get_hex(j, "nonce")?;
    let tag = get_hex(j, "tag")?;
    if nonce.len() != 12 || tag.len() != 16 {
        return None;
    }
    Some(CipherParams { nonce, tag })
}

/// Whether the slot object `j` holds valid scrypt parameters.
pub open spec fn kdf_valid(j: Json) -> bool {
    &&& as_u64(member(j, "n"@)) matches Some(n) && is_power_of_two(n)
    &&& as_u64(member(j, "r"@)) matches Some(r) && r <= u32::MAX
    &&& as_u64(member(j, "p"@)) matches Some(p) && p <= u32::MAX
    &&& hex_member(j, "salt"@) is Some
}

/// Whether `k` is what the slot object `j` gives as scrypt parameters; the
/// cost is stored as `N` and kept as its base-two logarithm.
pub open spec fn kdf_match(k: KdfParams, j: Json) -> bool {
    &&& as_u64(member(j, "n"@)) == Some(pow2(k.cost_log2 as nat) as u64)
    &&& as_u64(member(j, "r"@)) == Some(k.block_size as u64)
    &&& as_u64(member(j, "p"@)) == Some(k.parallelism as u64)
    &&& hex_member(j, "salt"@) == Some(k.salt@)
}

/// Reads the scrypt parameters of a slot object.
pub fn parse_kdf_params(j: &Json) -> (r: Option<KdfParams>)
    ensures
        r is Some <==> kdf_valid(*j),
        r matches Some(k) ==> kdf_match(k, *j),
{
    let n = get_u64(j, "n")?;
    let cost_log2 = exact_log2(n)?;
    let r = get_u64(j, "r")?;
    let p = get_u64(j, "p")?;
    let salt = get_hex(j, "salt")?;
    if r > u32::MAX as u64 || p > u32::MAX as u64 {
        return None;
    }
    Some(KdfParams { cost_log2, block_size: r as u32, parallelism: p as u32, salt })
}

/// The number that stands for a slot type in a backup.
pub open spec fn slot_type_code(t: SlotType) -> u64 {
    match t {
        SlotType::Raw => 0,
        SlotType::Password => 1,
        SlotType::Biometric => 2,
    }
}

/// Whether `j` is a well-formed slot object: a password slot must carry
/// scrypt parameters.
pub open spec fn slot_valid(j: Json) -> bool {
    &&& as_u64(member(j, "type"@)) matches Some(t) && t <= 2
    &&& as_text(member(j, "uuid"@)) is Some
    &&& hex_member(j, "key"@) is Some
    &&& member(j, "key_params"@) matches Some(kp) && cipher_params_valid(kp)
    &&& member(j, "n"@) is Some ==> kdf_valid(j)
    &&& as_u64(member(j, "type"@)) == Some(1u64) ==> member(j, "n"@) is Some
}

/// Whether `s` is what the slot object `j` describes.
pub open spec fn slot_match(s: Slot, j: Json) -> bool {
    &&& as_u64(member(j, "type"@)) == Some(slot_type_code(s.slot_type))
    &&& as_text(member(j, "uuid"@)) == Some(s.uuid@)
    &&& hex_member(j, "key"@) == Some(s.wrapped_key@)
    &&& member(j, "key_params"@) matches Some(kp) && cipher_params_match(s.key_params, kp)
    &&& cipher_params_wf(s.key_params)
    &&& member(j, "n"@) is Some ==> (s.kdf_params matches Some(k) && kdf_match(k, j))
    &&& member(j, "n"@) is None ==> s.kdf_params is None
    &&& s.repaired == as_bool(member(j, "repaired"@))
    &&& s.is_backup == as_bool(member(j, "is_backup"@))
}

/// Reads one slot.
pub fn parse_slot(j: &Json) -> (r: Option<Slot>)
    ensures
        r is Some <==> slot_valid(*j),
        r matches Some(s) ==> slot_match(s, *j),
{
    let code = get_u64(j, "type")?;
    let slot_type = if code == 0 {
        SlotType::Raw
    } else if code == 1 {
        SlotType::Password
    } else if code == 2 {
        SlotType::Biometric
    } else {
        return None;
    };
    let uuid = get_str(j, "uuid")?.clone();
    let wrapped_key = get_hex(j, "key")?;
    let key_params = parse_cipher_params(get(j, "key_params")?)?;
    let kdf_params = match get(j, "n") {
        Some(_) => Some(parse_kdf_params(j)?),
        None => {
            if code == 1 {
                return None;
            }
            None
        },
    };
    let repaired = get_bool(j, "repaired");
    let is_backup = get_bool(j, "is_backup");
    Some(Slot { slot_type, uuid, wrapped_key, key_params, kdf_params, repaired, is_backup })
}

/// Reads every slot of a slot array, failing on the first malformed one.
pub fn parse_slots(items: &Vec<Json>) -> (r: Option<Vec<Slot>>)
    ensures
        r is Some <==> forall|i: int| 0 <= i < items@.len() ==> slot_valid(#[trigger] items@[i]),
        r matches Some(v) ==> v@.len() == items@.len() && forall|i: int|
            0 <= i < items@.len() ==> slot_match(#[trigger] v@[i], items@[i]),
{
    let mut v: Vec<Slot> = Vec::new();
    let mut i: usize = 0;
    while i < items.len()
        invariant
            i <= items@.len(),
            v@.len() == i,
            forall|k: int| 0 <= k < i ==> slot_valid(#[trigger] items@[k]),
            forall|k: int| 0 <= k < i ==> slot_match(#[trigger] v@[k], items@[k]),
        decreases items@.len() - i,
    {
        let s = parse_slot(&items[i])?;
        v.push(s);
        i = i + 1;
    }
    Some(v)
}

/// Whether `j` is a well-formed header object.
pub open spec fn header_valid(j: Json) -> bool {
    &&& elements(member(j, "slots"@)) matches Some(items) && (forall|i: int|
        0 <= i < items.len() ==> slot_valid(#[trigger] items[i]))
    &&& member(j, "params"@) matches Some(pj) && cipher_params_valid(pj)
}

/// Whether `h` is what the header object `j` describes.
pub open spec fn header_match(h: Header, j: Json) -> bool {
    &&& elements(member(j, "slots"@)) matches Some(items) && h.slots@.len() == items.len()
        && (forall|i: int| 0 <= i < items.len() ==> slot_match(#[trigger] h.slots@[i], items[i]))
    &&& member(j, "params"@) matches Some(pj) && cipher_params_match(h.params, pj)
    &&& cipher_params_wf(h.params)
}

/// Reads a header.
pub fn parse_header(j: &Json) -> (r: Option<Header>)
    ensures
        r is Some <==> header_valid(*j),
        r matches Some(h) ==> header_match(h, *j),
{
    let slots = match get(j, "slots") {
        Some(Json::Array(items)) => match parse_slots(items) {
            Some(v) => v,
            None => {
                assert(elements(member(*j, "slots"@)) == Some(items@));
                let ghost k = choose|k: int| 0 <= k < items@.len() && !slot_valid(#[trigger] items@[k]);
                assert(elements(member(*j, "slots"@)) matches Some(its) && !slot_valid(its[k]));
                return None;
            },
        },
        _ => return None,
    };
    let params = parse_cipher_params(get(j, "params")?)?;
    Some(Header { slots, params })
}

/// Whether `j` is a well-formed backup object, whose database is base64
/// text; its version is not judged.
pub open spec fn backup_valid(j: Json) -> bool {
    &&& as_u64(member(j, "version"@)) is Some
    &&& member(j, "header"@) matches Some(hj) && header_valid(hj)
    &&& as_text(member(j, "db"@)) matches Some(t) && base64_decoded(t) is Some
}

/// Whether `b` is what the backup object `j` describes.
pub open spec fn backup_match(b: Backup, j: Json) -> bool {
    &&& as_u64(member(j, "version"@)) == Some(b.version)
    &&& member(j, "header"@) matches Some(hj) && header_match(b.header, hj)
    &&& as_text(member(j, "db"@)) == Some(b.db@)
}

/// Reads a backup from its JSON tree.
pub fn backup_from_json(j: &Json) -> (r: Option<Backup>)
    ensures
        r is Some <==> backup_valid(*j),
        r matches Some(b) ==> backup_match(b, *j),
{
    let version = get_u64(j, "version")?;
    let header = parse_header(get(j, "header")?)?;
    let db = get_str(j, "db")?.clone();
    if decode_base64(db.as_str()).is_none() {
        return None;
    }
    Some(Backup { version, header, db })
}

/// The hash that the name `s` stands for.
pub open spec fn algorithm_named(s: Seq<char>) -> Option<Algorithm> {
    if s == "SHA1"@ {
        Some(Algorithm::Sha1)
    } else if s == "SHA256"@ {
        Some(Algorithm::Sha256)
    } else if s == "SHA512"@ {
        Some(Algorithm::Sha512)
    } else {
        None
    }
}

/// Whether `t` is the entry type named `s`; names other than the three known
/// ones are kept as they are.
pub open spec fn entry_type_named(t: EntryType, s: Seq<char>) -> bool {
    if s == "totp"@ {
        t == EntryType::Totp
    } else if s == "hotp"@ {
        t == EntryType::Hotp
    } else if s == "steam"@ {
        t == EntryType::Steam
    } else {
        t matches EntryType::Other(x) && x@ == s
    }
}

/// Whether `j` is a well-formed entry information object.
pub open spec fn info_valid(j: Json) -> bool {
    &&& as_text(member(j, "secret"@)) is Some
    &&& as_text(member(j, "algo"@)) matches Some(a) && algorithm_named(a) is Some
    &&& as_u64(member(j, "digits"@)) is Some
}

/// Whether `info` is what the entry information object `j` describes.
pub open spec fn info_match(info: EntryInfo, j: Json) -> bool {
    &&& as_text(member(j, "secret"@)) == Some(info.secret@)
    &&& as_text(member(j, "algo"@)) matches Some(a) && algorithm_named(a) == Some(info.algo)
    &&& as_u64(member(j, "digits"@)) == Some(info.digits)
    &&& info.period == as_u64(member(j, "period"@))
    &&& info.counter == as_u64(member(j, "counter"@))
}

/// Reads the passcode parameters of an entry.
pub fn parse_entry_info(j: &Json) -> (r: Option<EntryInfo>)
    ensures
        r is Some <==> info_valid(*j),
        r matches Some(i) ==> info_match(i, *j),
{
    let secret = get_str(j, "secret")?.clone();
    let name = get_str(j, "algo")?;
    let algo = if text_is(name, "SHA1") {
        Algorithm::Sha1
    } else if text_is(name, "SHA256") {
        Algorithm::Sha256
    } else if text_is(name, "SHA512") {
        Algorithm::Sha512
    } else {
        return None;
    };
    let digits = get_u64(j, "digits")?;
    let period = get_u64(j, "period");
    let counter = get_u64(j, "counter");
    Some(EntryInfo { secret, algo, digits, period, counter })
}

/// Whether `j` is a well-formed entry object.
pub open spec fn entry_valid(j: Json) -> bool {
    &&& as_text(member(j, "type"@)) is Some
    &&& as_text(member(j, "uuid"@)) is Some
    &&& as_text(member(j, "name"@)) is Some
    &&& as_text(member(j, "issuer"@)) is Some
    &&& as_text(member(j, "note"@)) is Some
    &&& as_bool(member(j, "favorite"@)) is Some
    &&& member(j, "info"@) matches Some(ij) && info_valid(ij)
}

/// Whether `e` is what the entry object `j` describes.
pub open spec fn entry_match(e: Entry, j: Json) -> bool {
    &&& as_text(member(j, "type"@)) matches Some(t) && entry_type_named(e.entry_type, t)
    &&& as_text(member(j, "uuid"@)) == Some(e.uuid@)
    &&& as_text(member(j, "name"@)) == Some(e.name@)
    &&& as_text(member(j, "issuer"@)) == Some(e.issuer@)
    &&& as_text(member(j, "note"@)) == Some(e.note@)
    &&& as_bool(member(j, "favorite"@)) == Some(e.favorite)
    &&& member(j, "info"@) matches Some(ij) && info_match(e.info, ij)
}

/// Reads one entry.
pub fn parse_entry(j: &Json) -> (r: Option<Entry>)
    ensures
        r is Some <==> entry_valid(*j),
        r matches Some(e) ==> entry_match(e, *j),
{
    let t = get_str(j, "type")?;
    let entry_type = if text_is(t, "totp") {
        EntryType::Totp
    } else if text_is(t, "hotp") {
        EntryType::Hotp
    } else if text_is(t, "steam") {
        EntryType::Steam
    } else {
        EntryType::Other(t.clone())
    };
    let uuid = get_str(j, "uuid")?.clone();
    let name = get_str(j, "name")?.clone();
    let issuer = get_str(j, "issuer")?.clone();
    let note = get_str(j, "note")?.clone();
    let favorite = get_bool(j, "favorite")?;
    let info = parse_entry_info(get(j, "info")?)?;
    Some(Entry { entry_type, uuid, name, issuer, note, favorite, info })
}

/// Reads every entry of an entry array, failing on the first malformed one.
pub fn parse_entries(items: &Vec<Json>) -> (r: Option<Vec<Entry>>)
    ensures
        r is Some <==> forall|i: int| 0 <= i < items@.len() ==> entry_valid(#[trigger] items@[i]),
        r matches Some(v) ==> v@.len() == items@.len() && forall|i: int|
            0 <= i < items@.len() ==> entry_match(#[trigger] v@[i], items@[i]),
{
    let mut v: Vec<Entry> = Vec::new();
    let mut i: usize = 0;
    while i < items.len()
        invariant
            i <= items@.len(),
            v@.len() == i,
            forall|k: int| 0 <= k < i ==> entry_valid(#[trigger] items@[k]),
            forall|k: int| 0 <= k < i ==> entry_match(#[trigger] v@[k], items@[k]),
        decreases items@.len() - i,
    {
        let e = parse_entry(&items[i])?;
        v.push(e);
        i = i + 1;
    }
    Some(v)
}

/// Whether `j` is a well-formed database object; its version is not judged.
pub open spec fn database_valid(j: Json) -> bool {
    &&& as_u64(member(j, "version"@)) is Some
    &&& elements(member(j, "entries"@)) matches Some(items) && (forall|i: int|
        0 <= i < items.len() ==> entry_valid(#[trigger] items[i]))
}

/// Whether `d` is what the database object `j` describes.
pub open spec fn database_match(d: Database, j: Json) -> bool {
    &&& as_u64(member(j, "version"@)) == Some(d.version)
    &&& elements(member(j, "entries"@)) matches Some(items) && d.entries@.len() == items.len()
        && (forall|i: int| 0 <= i < items.len() ==> entry_match(#[trigger] d.entries@[i], items[i]))
}

/// Reads the entry database from its JSON tree.
pub fn database_from_json(j: &Json) -> (r: Option<Database>)
    ensures
        r is Some <==> database_valid(*j),
        r matches Some(d) ==> database_match(d, *j),
{
    let version = get_u64(j, "version")?;
    let entries = match get(j, "entries") {
        Some(Json::Array(items)) => match parse_entries(items) {
            Some(v) => v,
            None => {
                assert(elements(member(*j, "entries"@)) == Some(items@));
                let ghost k = choose|k: int| 0 <= k < items@.len() && !entry_valid(#[trigger] items@[k]);
                assert(elements(member(*j, "entries"@)) matches Some(its) && !entry_valid(its[k]));
                return None;
            },
        },
        _ => return None,
    };
    Some(Database { version, entries })
}

} // verus!
