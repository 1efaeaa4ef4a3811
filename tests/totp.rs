use aegis_rs::model::{Algorithm, Entry, EntryInfo, EntryType};
use aegis_rs::totp::{
    code_from_mac, counter_message, current_code, decimal_text, entry_code, hmac, power_of_ten,
    seconds_remaining, totp_positions, truncate, TotpError,
};

const RFC_SHA1: &str = "GEZDGNBVGY3TQOJQGEZDGNBVGY3TQOJQ";
const RFC_SHA256: &str = "GEZDGNBVGY3TQOJQGEZDGNBVGY3TQOJQGEZDGNBVGY3TQOJQGEZA";
const RFC_SHA512: &str = "GEZDGNBVGY3TQOJQGEZDGNBVGY3TQOJQGEZDGNBVGY3TQOJQGEZDGNBVGY3TQOJQGEZDGNBVGY3TQOJQGEZDGNBVGY3TQOJQGEZDGNA";

fn info(secret: &str, algo: Algorithm, digits: u64, period: Option<u64>) -> EntryInfo {
    EntryInfo { secret: secret.to_string(), algo, digits, period, counter: None }
}

fn entry(entry_type: EntryType, secret: &str) -> Entry {
    Entry {
        entry_type,
        uuid: "u".to_string(),
        name: "alice".to_string(),
        issuer: "Example".to_string(),
        note: String::new(),
        favorite: false,
        info: info(secret, Algorithm::Sha1, 6, Some(30)),
    }
}

#[test]
fn rfc6238_sha1_at_59() {
    let (code, left) = current_code(&info(RFC_SHA1, Algorithm::Sha1, 8, Some(30)), 59).unwrap();
    assert_eq!(code, "94287082");
    assert_eq!(left, 1);
}

#[test]
fn rfc6238_sha1_later_time() {
    let (code, left) =
        current_code(&info(RFC_SHA1, Algorithm::Sha1, 8, Some(30)), 1111111109).unwrap();
    assert_eq!(code, "07081804");
    assert_eq!(left, 1);
}

#[test]
fn rfc6238_sha256_at_59() {
    let (code, _) = current_code(&info(RFC_SHA256, Algorithm::Sha256, 8, Some(30)), 59).unwrap();
    assert_eq!(code, "46119246");
}

#[test]
fn rfc6238_sha512_at_59() {
    let (code, _) = current_code(&info(RFC_SHA512, Algorithm::Sha512, 8, Some(30)), 59).unwrap();
    assert_eq!(code, "90693936");
}

#[test]
fn ten_byte_secret_at_59() {
    let (code, _) =
        current_code(&info("GEZDGNBVGY3TQOJQ", Algorithm::Sha1, 8, Some(30)), 59).unwrap();
    assert_eq!(code, "13263420");
}

#[test]
fn six_digit_code_keeps_low_digits() {
    let (code, _) = current_code(&info(RFC_SHA1, Algorithm::Sha1, 6, Some(30)), 59).unwrap();
    assert_eq!(code, "287082");
}

#[test]
fn secret_not_base32() {
    let r = current_code(&info("not base32!", Algorithm::Sha1, 6, Some(30)), 59);
    assert_eq!(r.unwrap_err(), TotpError::InvalidSecretEncoding);
}

#[test]
fn zero_or_missing_period() {
    let r = current_code(&info(RFC_SHA1, Algorithm::Sha1, 6, Some(0)), 59);
    assert_eq!(r.unwrap_err(), TotpError::InvalidParameters);
    let r = current_code(&info(RFC_SHA1, Algorithm::Sha1, 6, None), 59);
    assert_eq!(r.unwrap_err(), TotpError::InvalidParameters);
}

#[test]
fn zero_digits() {
    let r = current_code(&info(RFC_SHA1, Algorithm::Sha1, 0, Some(30)), 59);
    assert_eq!(r.unwrap_err(), TotpError::InvalidParameters);
}

#[test]
fn long_codes_are_zero_padded() {
    let (code, _) = current_code(&info(RFC_SHA1, Algorithm::Sha1, 11, Some(30)), 59).unwrap();
    assert_eq!(code, "01094287082");
    let (code, _) = current_code(&info(RFC_SHA1, Algorithm::Sha1, 25, Some(30)), 59).unwrap();
    assert_eq!(code, "0000000000000001094287082");
}

#[test]
fn ten_digit_code_is_padded() {
    let (code, _) = current_code(&info(RFC_SHA1, Algorithm::Sha1, 10, Some(30)), 59).unwrap();
    assert_eq!(code, "1094287082");
}

#[test]
fn remaining_time_bounds() {
    assert_eq!(seconds_remaining(30, 0), 30);
    assert_eq!(seconds_remaining(30, 29), 1);
    assert_eq!(seconds_remaining(30, 30), 30);
    assert_eq!(seconds_remaining(30, 59), 1);
    assert_eq!(seconds_remaining(1, 12345), 1);
    assert_eq!(seconds_remaining(60, 1_700_000_000), 40);
    for period in 1..50u64 {
        for now in 0..200u64 {
            let r = seconds_remaining(period, now);
            assert!(1 <= r && r <= period);
        }
    }
}

#[test]
fn remaining_time_at_largest_clock() {
    assert_eq!(seconds_remaining(30, u64::MAX), 30 - u64::MAX % 30);
}

#[test]
fn counter_is_big_endian() {
    assert_eq!(counter_message(1), vec![0, 0, 0, 0, 0, 0, 0, 1]);
    assert_eq!(counter_message(0x0102_0304_0506_0708), vec![1, 2, 3, 4, 5, 6, 7, 8]);
}

#[test]
fn rfc4226_truncation_example() {
    let mac: Vec<u8> = (0..20)
        .map(|i| u8::from_str_radix(&"1f8698690e02ca16618550ef7f19da8e945b555a"[2 * i..2 * i + 2], 16).unwrap())
        .collect();
    assert_eq!(truncate(&mac), 0x50ef7f19);
    assert_eq!(code_from_mac(&mac, 6), "872921");
    assert_eq!(code_from_mac(&mac, 12), "001357872921");
}

#[test]
fn truncation_clears_top_bit() {
    let mut mac = vec![0xffu8; 20];
    mac[19] = 0xf0;
    assert_eq!(truncate(&mac), 0x7fff_ffff);
}

#[test]
fn hmac_lengths_and_values() {
    let m = hmac(Algorithm::Sha1, b"key", b"The quick brown fox jumps over the lazy dog");
    assert_eq!(m.len(), 20);
    assert_eq!(m[0], 0xde);
    assert_eq!(m[19], 0xd9);
    assert_eq!(hmac(Algorithm::Sha256, b"key", b"").len(), 32);
    assert_eq!(hmac(Algorithm::Sha512, b"key", b"").len(), 64);
}

#[test]
fn powers_of_ten() {
    assert_eq!(power_of_ten(0), 1);
    assert_eq!(power_of_ten(6), 1_000_000);
    assert_eq!(power_of_ten(10), 10_000_000_000);
    assert_eq!(power_of_ten(19), 10_000_000_000_000_000_000);
}

#[test]
fn decimal_text_pads_and_cuts() {
    assert_eq!(decimal_text(7, 6), "000007");
    assert_eq!(decimal_text(1234567, 6), "234567");
    assert_eq!(decimal_text(5, 0), "");
    assert_eq!(decimal_text(u64::MAX, 20), "18446744073709551615");
    assert_eq!(decimal_text(u64::MAX, 22), "0018446744073709551615");
    assert_eq!(decimal_text(0, 23), "00000000000000000000000");
}

#[test]
fn only_totp_entries_get_codes() {
    let e = entry(EntryType::Hotp, RFC_SHA1);
    assert_eq!(entry_code(&e, 59).unwrap_err(), TotpError::UnsupportedEntryType);
    let e = entry(EntryType::Other("yandex".to_string()), RFC_SHA1);
    assert_eq!(entry_code(&e, 59).unwrap_err(), TotpError::UnsupportedEntryType);
    let e = entry(EntryType::Totp, RFC_SHA1);
    assert_eq!(entry_code(&e, 59).unwrap().0, "287082");
}

#[test]
fn positions_of_totp_entries() {
    let entries = vec![
        entry(EntryType::Hotp, RFC_SHA1),
        entry(EntryType::Totp, RFC_SHA1),
        entry(EntryType::Steam, RFC_SHA1),
        entry(EntryType::Totp, RFC_SHA1),
    ];
    assert_eq!(totp_positions(&entries), vec![1, 3]);
    assert_eq!(totp_positions(&Vec::new()), Vec::<usize>::new());
}
