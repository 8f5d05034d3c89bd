use jay_miner::clock::{current_millis, millis_of};
use jay_miner::entropy::{base36_of, base36_random, hex_of, random_hex_64, random_nonce};
use jay_miner::ids::{choose_device, join_id, new_device_id, new_session_id};
use jay_miner::ids::{DeviceChoice, DeviceFile, MinerIds};
use jay_miner::wallet::{validate_wallet, WalletError};

#[test]
fn random_hex_64_has_expected_shape() {
    for _ in 0..1000 {
        let h = random_hex_64();
        assert_eq!(h.len(), 64, "random_hex_64 must be exactly 64 chars");
        assert!(
            h.chars()
                .all(|c| c.is_ascii_hexdigit() && !c.is_ascii_uppercase()),
            "random_hex_64 must be lowercase hex: {h}"
        );
    }
}

#[test]
fn base36_random_length_and_alphabet() {
    for len in [1usize, 5, 13, 32] {
        let s = base36_random(len);
        assert_eq!(s.len(), len);
        assert!(
            s.chars()
                .all(|c| c.is_ascii_lowercase() || c.is_ascii_digit()),
            "base36_random must be lowercase alphanumeric: {s}"
        );
    }
}

#[test]
fn new_device_id_format() {
    let id = new_device_id();
    assert!(id.starts_with("device_"), "got {id}");
    let parts: Vec<&str> = id.splitn(3, '_').collect();
    assert_eq!(parts.len(), 3);
    assert_eq!(parts[0], "device");
    assert!(
        parts[1].parse::<u128>().is_ok(),
        "millis should be numeric: {id}"
    );
    assert_eq!(parts[2].len(), 13);
}

#[test]
fn validate_wallet_accepts_yjay_prefix() {
    assert!(validate_wallet("yjay1qpzryashv7v77p6dmkmsswhcqtl3ftxsd2y2").is_ok());
}

#[test]
fn validate_wallet_rejects_other_prefixes() {
    assert!(validate_wallet("cosmos1abc").is_err());
    assert!(validate_wallet("yjay").is_err()); // too short
    assert!(validate_wallet("").is_err());
}

#[test]
fn wallet_length_is_counted_in_bytes() {
    assert!(validate_wallet("yjay1234567890123456").is_ok());
    assert!(matches!(
        validate_wallet("yjay123456789012345"),
        Err(WalletError::TooShort)
    ));
    // 12 characters, 20 bytes
    assert!(validate_wallet("yjay\u{e9}\u{e9}\u{e9}\u{e9}\u{e9}\u{e9}\u{e9}\u{e9}").is_ok());
    assert!(matches!(
        validate_wallet("Yjay1234567890123456"),
        Err(WalletError::WrongPrefix)
    ));
    assert!(matches!(
        validate_wallet(" yjay1234567890123456"),
        Err(WalletError::WrongPrefix)
    ));
}

#[test]
fn wallet_faults_are_worded() {
    let fault = validate_wallet("cosmos1abc").unwrap_err();
    assert_eq!(
        fault.message("cosmos1abc"),
        "wallet must be a Jay Network bech32 address starting with `yjay` (got: cosmos1abc)"
    );
    let fault = validate_wallet("yjay").unwrap_err();
    assert_eq!(fault.message("yjay"), "wallet address looks too short: yjay");
}

#[test]
fn words_become_digits() {
    assert_eq!(base36_of(&vec![0, 9, 10, 35, 36, 71, u32::MAX]), "09az0z3");
    assert_eq!(hex_of(&vec![0, 9, 10, 15, 16, 0xabcd_ef12, u32::MAX]), "09af02f");
    assert_eq!(base36_of(&vec![]), "");
    assert_eq!(hex_of(&vec![]), "");
}

#[test]
fn random_texts_differ() {
    assert_ne!(random_hex_64(), random_hex_64());
    assert_ne!(base36_random(32), base36_random(32));
    assert_eq!(base36_random(0), "");
}

#[test]
fn nonces_stay_below_the_limit() {
    for _ in 0..1000 {
        assert!(random_nonce(3) < 3);
    }
    assert_eq!(random_nonce(1), 0);
    let drawn: Vec<u32> = (0..200).map(|_| random_nonce(1_000_000)).collect();
    assert!(drawn.iter().any(|n| *n != drawn[0]));
}

#[test]
fn clock_readings_become_milliseconds() {
    assert_eq!(millis_of(None), 0);
    assert_eq!(millis_of(Some((0, 999_999))), 0);
    assert_eq!(millis_of(Some((2, 5_999_999))), 2_005);
    assert_eq!(millis_of(Some((1_700_000_000, 123_456_789))), 1_700_000_000_123);
    assert_eq!(millis_of(Some((u64::MAX, 999_999_999))), 18_446_744_073_709_551_615_999);
    let before = std::time::SystemTime::now()
        .duration_since(std::time::UNIX_EPOCH)
        .unwrap()
        .as_millis();
    let now = current_millis();
    assert!(before <= now && now < before + 60_000, "{before} {now}");
}

#[test]
fn identifiers_are_joined() {
    assert_eq!(
        join_id("device", 1_716_100_200_300, "0123456789abc"),
        "device_1716100200300_0123456789abc"
    );
    assert_eq!(join_id("session", 0, ""), "session_0_");
    assert!(new_session_id().starts_with("session_1"));
}

#[test]
fn new_identifiers_carry_the_time() {
    let before = current_millis();
    for (prefix, id) in [("device", new_device_id()), ("session", new_session_id())] {
        let parts: Vec<&str> = id.split('_').collect();
        assert_eq!(parts.len(), 3);
        assert_eq!(parts[0], prefix);
        let millis: u128 = parts[1].parse().unwrap();
        assert!(before <= millis && millis <= current_millis());
        assert_eq!(parts[2].len(), 13);
        assert!(parts[2].chars().all(|c| matches!(c, '0'..='9' | 'a'..='z')));
    }
}

#[test]
fn different_times_make_different_identifiers() {
    assert_ne!(join_id("device", 1, "2a"), join_id("device", 12, "a"));
    assert_ne!(join_id("device", 1, "a"), join_id("device", 1, "b"));
}

#[test]
fn device_id_is_kept() {
    let file = DeviceFile::Contents("  device_17_abc\r\n".to_string());
    assert!(matches!(choose_device(&file), DeviceChoice::Keep(id) if id == "device_17_abc"));
    let loaded = MinerIds::load(&file).unwrap();
    assert_eq!(loaded.ids.device_id, "device_17_abc");
    assert_eq!(loaded.save, None);
    assert!(loaded.ids.session_id.starts_with("session_"));
    assert_eq!(loaded.ids.miner_id_value(), None);
    assert_eq!(loaded.ids.job_id_value(), "");
}

#[test]
fn device_id_survives_its_file() {
    let first = MinerIds::load(&DeviceFile::NotFound).unwrap();
    assert_eq!(first.save, Some(true));
    let second = MinerIds::load(&DeviceFile::Contents(first.ids.device_id.clone())).unwrap();
    assert_eq!(second.ids.device_id, first.ids.device_id);
    assert_eq!(second.save, None);
    assert_ne!(second.ids.session_id, first.ids.session_id);
}

#[test]
fn blank_device_file_is_filled() {
    for contents in ["", " \t\n", "\u{3000}"] {
        let file = DeviceFile::Contents(contents.to_string());
        assert!(matches!(
            choose_device(&file),
            DeviceChoice::Create { make_directory: false }
        ));
        let loaded = MinerIds::load(&file).unwrap();
        assert_eq!(loaded.save, Some(false));
        assert!(loaded.ids.device_id.starts_with("device_"));
    }
}

#[test]
fn unreadable_device_file_is_an_error() {
    assert!(matches!(choose_device(&DeviceFile::Unreadable), DeviceChoice::Fail));
    assert!(MinerIds::load(&DeviceFile::Unreadable).is_none());
}
