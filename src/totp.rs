//! Time-based one-time passcodes (RFC 6238 over the HOTP truncation of
//! RFC 4226).
use crate::codec::{base32_decoded, decode_base32};
use crate::model::{Algorithm, Entry, EntryInfo, EntryType};
use hmac::Mac;
use vstd::prelude::*;

verus! {

/// Why no passcode could be made for an entry.
#[derive(Clone, Copy, Debug, PartialEq, Eq, Structural)]
pub enum TotpError {
    /// The secret is not base32 text.
    InvalidSecretEncoding,
    /// The entry is not time-based.
    UnsupportedEntryType,
    /// The period is absent or zero, or the digit count is zero.
    InvalidParameters,
}

/// HMAC-SHA1 of `msg` under `key`.
pub uninterp spec fn hmac_sha1(key: Seq<u8>, msg: Seq<u8>) -> Seq<u8>;

/// HMAC-SHA256 of `msg` under `key`.
pub uninterp spec fn hmac_sha256(key: Seq<u8>, msg: Seq<u8>) -> Seq<u8>;

/// HMAC-SHA512 of `msg` under `key`.
pub uninterp spec fn hmac_sha512(key: Seq<u8>, msg: Seq<u8>) -> Seq<u8>;

/// The HMAC of `msg` under `key` with the hash `algo`.
pub open spec fn hmac_of(algo: Algorithm, key: Seq<u8>, msg: Seq<u8>) -> Seq<u8> {
    match algo {
        Algorithm::Sha1 => hmac_sha1(key, msg),
        Algorithm::Sha256 => hmac_sha256(key, msg),
        Algorithm::Sha512 => hmac_sha512(key, msg),
    }
}

/// The length in bytes of an HMAC with the hash `algo`.
pub open spec fn mac_len(algo: Algorithm) -> nat {
    match algo {
        Algorithm::Sha1 => 20,
        Algorithm::Sha256 => 32,
        Algorithm::Sha512 => 64,
    }
}

/// Relies on `hmac::Hmac<sha1::Sha1>`, which takes keys of any length and
/// gives a 20-byte tag.
#[verifier::external_body]
fn mac_sha1(key: &[u8], msg: &[u8]) -> (r: Vec<u8>)
    ensures
        r@ == hmac_sha1(key@, msg@),
        r@.len() == 20,
{
    let m = hmac::Hmac::<sha1::Sha1>::new_from_slice(key).expect("HMAC takes keys of any length");
    m.chain_update(msg).finalize().into_bytes().to_vec()
}

/// Relies on `hmac::Hmac<sha2::Sha256>`, which takes keys of any length and
/// gives a 32-byte tag.
#[verifier::external_body]
fn mac_sha256(key: &[u8], msg: &[u8]) -> (r: Vec<u8>)
    ensures
        r@ == hmac_sha256(key@, msg@),
        r@.len() == 32,
{
    let m = hmac::Hmac::<sha2::Sha256>::new_from_slice(key).expect("HMAC takes keys of any length");
    m.chain_update(msg).finalize().into_bytes().to_vec()
}

/// Relies on `hmac::Hmac<sha2::Sha512>`, which takes keys of any length and
/// gives a 64-byte tag.
#[verifier::external_body]
fn mac_sha512(key: &[u8], msg: &[u8]) -> (r: Vec<u8>)
    ensures
        r@ == hmac_sha512(key@, msg@),
        r@.len() == 64,
{
    let m = hmac::Hmac::<sha2::Sha512>::new_from_slice(key).expect("HMAC takes keys of any length");
    m.chain_update(msg).finalize().into_bytes().to_vec()
}

/// Relies on `String::from_iter`, which collects the characters in order.
#[verifier::external_body]
fn string_of_chars(cs: Vec<char>) -> (r: String)
    ensures
        r@ == cs@,
{
    String::from_iter(cs)
}

/// The HMAC of `msg` under `key` with the hash `algo`.
pub fn hmac(algo: Algorithm, key: &[u8], msg: &[u8]) -> (r: Vec<u8>)
    ensures
        r@ == hmac_of(algo, key@, msg@),
        r@.len() == mac_len(algo),
{
    match algo {
        Algorithm::Sha1 => mac_sha1(key, msg),
        Algorithm::Sha256 => mac_sha256(key, msg),
        Algorithm::Sha512 => mac_sha512(key, msg),
    }
}

/// The eight bytes of `c`, most significant first.
pub open spec fn counter_bytes(c: u64) -> Seq<u8> {
    Seq::new(8, |i: int| ((c >> ((56 - 8 * i) as u64)) & 0xff) as u8)
}

/// The 31-bit value that dynamic truncation takes from the tag `h`: four bytes
/// from the offset that the low four bits of the last byte give, with the top
/// bit cleared.
pub open spec fn truncated(h: Seq<u8>) -> nat
    recommends
        h.len() >= 20,
{
    let o = (h[h.len() - 1] % 16) as int;
    ((h[o] % 128) * 0x100_0000 + h[o + 1] * 0x1_0000 + h[o + 2] * 0x100 + h[o + 3]) as nat
}

/// `10` to the power `d`.
pub open spec fn pow10(d: nat) -> nat
    decreases d,
{
    if d == 0 {
        1
    } else {
        10 * pow10((d - 1) as nat)
    }
}

/// The decimal digit character of `d < 10`.
pub open spec fn digit_char(d: nat) -> char {
    ('0' as nat + d) as char
}

/// The last `width` decimal digits of `v`, with leading zeros.
pub open spec fn decimal(v: nat, width: nat) -> Seq<char>
    decreases width,
{
    if width == 0 {
        Seq::empty()
    } else {
        decimal(v / 10, (width - 1) as nat).push(digit_char(v % 10))
    }
}

/// The passcode of `digits` digits that the HMAC tag `h` gives.
pub open spec fn code_text(h: Seq<u8>, digits: nat) -> Seq<char> {
    decimal(truncated(h) % pow10(digits), digits)
}

/// The time step that `now` falls in.
pub open spec fn time_step(now: u64, period: u64) -> u64
    recommends
        period > 0,
{
    (now / period) as u64
}

/// What `current_code` needs of an entry's parameters.
pub open spec fn valid_params(info: EntryInfo) -> bool {
    &&& info.period matches Some(p) && p > 0
    &&& info.digits >= 1
}

/// The passcode for `info` at `now`, from the decoded secret `key`.
pub open spec fn expected_code(info: EntryInfo, key: Seq<u8>, now: u64) -> Seq<char>
    recommends
        valid_params(info),
{
    code_text(
        hmac_of(info.algo, key, counter_bytes(time_step(now, info.period.unwrap()))),
        info.digits as nat,
    )
}

/// The eight-byte big-endian form of a counter.
pub fn counter_message(c: u64) -> (r: Vec<u8>)
    ensures
        r@ == counter_bytes(c),
{
    let mut r: Vec<u8> = Vec::new();
    let mut i: u64 = 0;
    while i < 8
        invariant
            i <= 8,
            r@.len() == i,
            forall|j: int| 0 <= j < i ==> r@[j] == counter_bytes(c)[j],
        decreases 8 - i,
    {
        r.push(((c >> (56 - 8 * i)) & 0xff) as u8);
        i = i + 1;
    }
    assert(r@ =~= counter_bytes(c));
    r
}

/// Dynamic truncation of an HMAC tag of at least 20 bytes.
pub fn truncate(h: &[u8]) -> (r: u32)
    requires
        h@.len() >= 20,
    ensures
        r as nat == truncated(h@),
        r < 0x8000_0000,
{
    let o = (h[h.len() - 1] % 16) as usize;
    (h[o] % 128) as u32 * 0x100_0000 + h[o + 1] as u32 * 0x1_0000 + h[o + 2] as u32 * 0x100
        + h[o + 3] as u32
}

/// The largest exponent whose power of ten fits a `u64`.
pub const MAX_POW10_EXP: u64 = 19;

/// `10` to the power `d`.
pub fn power_of_ten(d: u64) -> (r: u64)
    requires
        d <= MAX_POW10_EXP,
    ensures
        r as nat == pow10(d as nat),
        r >= 1,
{
    let mut r: u64 = 1;
    let mut i: u64 = 0;
    while i < d
        invariant
            i <= d <= MAX_POW10_EXP,
            r as nat == pow10(i as nat),
            r >= 1,
        decreases d - i,
    {
        assert(pow10((i + 1) as nat) == 10 * pow10(i as nat));
        proof {
            lemma_pow10_bound((i + 1) as nat);
        }
        r = r * 10;
        i = i + 1;
    }
    r
}

/// Powers of ten up to `10^19` fit a `u64`.
proof fn lemma_pow10_bound(d: nat)
    requires
        d <= 19,
    ensures
        pow10(d) <= 10_000_000_000_000_000_000,
{
    reveal_with_fuel(pow10, 20);
}

/// Powers of ten grow with the exponent.
proof fn lemma_pow10_monotone(a: nat, b: nat)
    requires
        a <= b,
    ensures
        pow10(a) <= pow10(b),
    decreases b,
{
    if a < b {
        lemma_pow10_monotone(a, (b - 1) as nat);
    }
}

/// `n` zero characters.
pub open spec fn zeros(n: nat) -> Seq<char> {
    Seq::new(n, |_i: int| '0')
}

/// Zero written in `n` digits is `n` zeros.
proof fn lemma_decimal_of_zero(n: nat)
    ensures
        decimal(0, n) == zeros(n),
    decreases n,
{
    if n > 0 {
        lemma_decimal_of_zero((n - 1) as nat);
        assert(decimal(0, n) =~= zeros(n));
    }
}

/// A value below `10^w` written in `w + n` digits is `n` zeros followed by
/// its `w` digits.
proof fn lemma_leading_zeros(v: nat, w: nat, n: nat)
    requires
        v < pow10(w),
    ensures
        decimal(v, w + n) == zeros(n) + decimal(v, w),
    decreases w,
{
    if w == 0 {
        lemma_decimal_of_zero(n);
        assert(zeros(n) + decimal(0, 0) =~= zeros(n));
    } else {
        let w1 = (w - 1) as nat;
        assert(v / 10 < pow10(w1)) by (nonlinear_arith)
            requires
                v < pow10(w),
                pow10(w) == 10 * pow10(w1),
        ;
        lemma_leading_zeros(v / 10, w1, n);
        assert((w1 + n) as nat == (w + n - 1) as nat);
        assert(decimal(v, w + n) =~= zeros(n) + decimal(v, w));
    }
}

/// The last `width` decimal digits of `v`, with leading zeros, one by one
/// from the right.
fn low_digits(v: u64, width: u64) -> (r: Vec<char>)
    ensures
        r@ == decimal(v as nat, width as nat),
{
    let mut cs: Vec<char> = Vec::new();
    let mut rest: u64 = v;
    let mut k: u64 = width;
    while k > 0
        invariant
            k <= width,
            cs@.len() == width - k,
            decimal(v as nat, width as nat) == decimal(rest as nat, k as nat) + cs@,
        decreases k,
    {
        let d = rest % 10;
        let c = ('0' as u8 + d as u8) as char;
        assert(c == digit_char((rest as nat) % 10));
        let ghost tail = cs@;
        cs.insert(0, c);
        assert(decimal(rest as nat, k as nat) + tail =~= decimal((rest / 10) as nat, (k - 1) as nat)
            + cs@);
        rest = rest / 10;
        k = k - 1;
    }
    assert(decimal(v as nat, width as nat) =~= cs@);
    cs
}

/// The last `width` decimal digits of `v`, with leading zeros.
pub fn decimal_text(v: u64, width: u64) -> (r: String)
    ensures
        r@ == decimal(v as nat, width as nat),
{
    let low: u64 = if width < 20 {
        width
    } else {
        20
    };
    let mut cs: Vec<char> = Vec::new();
    let mut z: u64 = 0;
    while z < width - low
        invariant
            low <= width,
            z <= width - low,
            cs@ == zeros(z as nat),
        decreases width - low - z,
    {
        cs.push('0');
        z = z + 1;
        assert(cs@ =~= zeros(z as nat));
    }
    let mut tail = low_digits(v, low);
    proof {
        if width > 20 {
            reveal_with_fuel(pow10, 21);
            lemma_leading_zeros(v as nat, 20, (width - 20) as nat);
            assert((20 + (width - 20)) as nat == width as nat);
        }
    }
    cs.append(&mut tail);
    string_of_chars(cs)
}

/// The passcode of `digits` digits that the HMAC tag `mac` gives: dynamic
/// truncation, reduction modulo `10^digits`, zeros on the left. From ten
/// digits on the truncated value is already below `10^digits`.
pub fn code_from_mac(mac: &[u8], digits: u64) -> (r: String)
    requires
        mac@.len() >= 20,
    ensures
        r@ == code_text(mac@, digits as nat),
{
    let v = truncate(mac);
    if digits < 10 {
        let m = power_of_ten(digits);
        decimal_text(v as u64 % m, digits)
    } else {
        proof {
            reveal_with_fuel(pow10, 11);
            lemma_pow10_monotone(10, digits as nat);
            vstd::arithmetic::div_mod::lemma_small_mod(v as nat, pow10(digits as nat));
        }
        decimal_text(v as u64, digits)
    }
}

/// The seconds left in the current time step.
pub open spec fn remaining(period: u64, now: u64) -> int
    recommends
        period > 0,
{
    period - now % period
}

/// The seconds that the passcode at `now` stays valid.
pub fn seconds_remaining(period: u64, now: u64) -> (r: u64)
    requires
        period > 0,
    ensures
        r == remaining(period, now),
        1 <= r <= period,
{
    period - now % period
}

/// A passcode stays valid for at least one second and at most one period.
pub proof fn lemma_remaining_in_range(period: u64, now: u64)
    requires
        period > 0,
    ensures
        1 <= remaining(period, now) <= period,
{
}

/// What `current_code` gives for `info` at `now`: an error for unusable
/// parameters or a secret that is not base32, else the passcode with the
/// seconds that it stays valid.
pub open spec fn code_outcome(info: EntryInfo, now: u64, r: Result<(String, u64), TotpError>) -> bool {
    &&& !valid_params(info) ==> (r matches Err(e) && e == TotpError::InvalidParameters)
    &&& valid_params(info) && base32_decoded(info.secret@) is None ==> (r matches Err(e) && e
        == TotpError::InvalidSecretEncoding)
    &&& valid_params(info) && base32_decoded(info.secret@) is Some ==> (r matches Ok((code, left))
        && code@ == expected_code(info, base32_decoded(info.secret@).unwrap(), now) && left
        == remaining(info.period.unwrap(), now))
}

/// The passcode for `info` at the Unix time `now`, with the seconds that it
/// stays valid.
pub fn current_code(info: &EntryInfo, now: u64) -> (r: Result<(String, u64), TotpError>)
    ensures
        code_outcome(*info, now, r),
{
    let period = match info.period {
        Some(p) if p > 0 => p,
        _ => return Err(TotpError::InvalidParameters),
    };
    if info.digits < 1 {
        return Err(TotpError::InvalidParameters);
    }
    let key = match decode_base32(info.secret.as_str()) {
        Some(k) => k,
        None => return Err(TotpError::InvalidSecretEncoding),
    };
    let msg = counter_message(now / period);
    let mac = hmac(info.algo, key.as_slice(), msg.as_slice());
    let code = code_from_mac(mac.as_slice(), info.digits);
    Ok((code, seconds_remaining(period, now)))
}

/// The passcode of a time-based entry at `now`; other entries have none.
pub fn entry_code(entry: &Entry, now: u64) -> (r: Result<(String, u64), TotpError>)
    ensures
        !(entry.entry_type is Totp) ==> (r matches Err(e) && e == TotpError::UnsupportedEntryType),
        entry.entry_type is Totp ==> code_outcome(entry.info, now, r),
{
    match entry.entry_type {
        EntryType::Totp => current_code(&entry.info, now),
        _ => Err(TotpError::UnsupportedEntryType),
    }
}

/// The positions of the time-based entries of `entries`, in order.
pub fn totp_positions(entries: &Vec<Entry>) -> (r: Vec<usize>)
    ensures
        forall|k: int| 0 <= k < r@.len() ==> r@[k] < entries@.len() && (#[trigger] entries@[r@[k] as int]).entry_type is Totp,
        forall|k: int, l: int| 0 <= k < l < r@.len() ==> r@[k] < r@[l],
        forall|i: int| 0 <= i < entries@.len() && (#[trigger] entries@[i]).entry_type is Totp ==> r@.contains(i as usize),
{
    let mut r: Vec<usize> = Vec::new();
    let mut i: usize = 0;
    while i < entries.len()
        invariant
            i <= entries@.len(),
            forall|k: int| 0 <= k < r@.len() ==> #[trigger] r@[k] < i,
            forall|k: int| 0 <= k < r@.len() ==> (#[trigger] entries@[r@[k] as int]).entry_type is Totp,
            forall|k: int, l: int| 0 <= k < l < r@.len() ==> r@[k] < r@[l],
            forall|j: int| 0 <= j < i && (#[trigger] entries@[j]).entry_type is Totp ==> r@.contains(j as usize),
        decreases entries@.len() - i,
    {
        if matches!(entries[i].entry_type, EntryType::Totp) {
            let ghost before = r@;
            r.push(i);
            assert(r@[before.len() as int] == i);
            assert forall|j: int| 0 <= j < i && (#[trigger] entries@[j]).entry_type is Totp implies r@.contains(j as usize) by {
                let k = choose|k: int| 0 <= k < before.len() && before[k] == j as usize;
                assert(r@[k] == j as usize);
            }
        }
        i = i + 1;
    }
    r
}

} // verus!
