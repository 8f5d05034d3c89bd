use jay_miner::balance::{balance_of, balance_url, jay_text, read_balance};
use jay_miner::json::Json;
use jay_miner::protocol::Tally;
use jay_miner::report::{elide, escape, reward_line, stats_line, Earnings};
use jay_miner::session::Share;
use jay_miner::text::{contains, decimal_text, same_text, starts_with, trim, white};

#[test]
fn numbers_are_written_in_decimal() {
    for n in [0u128, 7, 10, 99, 100, 305, 1_000_000, u64::MAX as u128, u128::MAX] {
        assert_eq!(decimal_text(n), n.to_string());
    }
}

#[test]
fn white_space_is_that_of_unicode() {
    for code in 0..=0x10ffffu32 {
        if let Some(c) = char::from_u32(code) {
            assert_eq!(white(c), c.is_whitespace(), "U+{code:04X}");
        }
    }
}

#[test]
fn ends_are_trimmed() {
    for text in ["", " ", "a", " a", "a ", "\u{a0}a b\u{2003}", "\n\t\u{e9}\u{85}", "\u{200b}x"] {
        assert_eq!(trim(text), text.trim(), "{text:?}");
    }
}

#[test]
fn texts_are_compared() {
    assert!(same_text("", ""));
    assert!(same_text("\u{e9}t\u{e9}", "\u{e9}t\u{e9}"));
    assert!(!same_text("job", "jobs"));
    assert!(!same_text("job", "jot"));
}

#[test]
fn texts_are_searched() {
    assert!(starts_with("yjay1", "yjay"));
    assert!(starts_with("yjay", "yjay"));
    assert!(starts_with("", ""));
    assert!(!starts_with("yja", "yjay"));
    assert!(contains("abc", ""));
    assert!(contains("abc", "bc"));
    assert!(contains("aab", "ab"));
    assert!(!contains("abc", "ac"));
    assert!(!contains("ab", "abc"));
}

#[test]
fn hashes_are_elided() {
    assert_eq!(
        elide("0123abcd00000000000000000000000000000000000000000000000ef456789"),
        "0123abcd…ef456789"
    );
    assert_eq!(elide("0123456789abcdef"), "0123456789abcdef");
    assert_eq!(elide("0123456789abcdefg"), "01234567…9abcdefg");
    assert_eq!(elide(""), "");
}

#[test]
fn rewards_are_reported() {
    assert_eq!(
        reward_line(
            "0.001234",
            42,
            "1a2b3c4d000000000000000000000000000000000000000000000000ef567890",
            "0.001234"
        ),
        "reward +0.001234 JAY (shares 42, tx 1a2b3c4d…ef567890) — running total 0.001234 JAY"
    );
}

#[test]
fn log_lines_stay_on_one_line() {
    assert_eq!(escape("a\nb\r\tc\\d"), "a\\nb\\r\\tc\\\\d");
    assert_eq!(escape("\u{1}\u{1b}\u{7f}\u{9f}"), "\\u{01}\\u{1b}\\u{7f}\\u{9f}");
    assert_eq!(escape("\u{2028}\u{2029}"), "\\u{2028}\\u{2029}");
    assert_eq!(escape("plain \u{e9} \"text\" ~\u{a0}"), "plain \u{e9} \"text\" ~\u{a0}");
    assert_eq!(escape(""), "");
    assert_eq!(elide("\n2345678abc8765432\r"), "\\n2345678…8765432\\r");
    assert_eq!(
        reward_line("1.000000", 1, "x\ny", "1.000000"),
        "reward +1.000000 JAY (shares 1, tx x\\ny) — running total 1.000000 JAY"
    );
    for code in 0..0x3000u32 {
        let text = char::from_u32(code).unwrap().to_string();
        assert_eq!(escape(&text).lines().count(), 1, "U+{code:04X}");
    }
}

#[test]
fn millionths_are_written_in_jay() {
    assert_eq!(jay_text("0"), "0.000000");
    assert_eq!(jay_text("1"), "0.000001");
    assert_eq!(jay_text("999999"), "0.999999");
    assert_eq!(jay_text("1000000"), "1.000000");
    assert_eq!(jay_text("123456789012"), "123456.789012");
    assert_eq!(jay_text(&format!("{}000001", u128::MAX)), format!("{}.000001", u128::MAX));
}

#[test]
fn balance_is_read() {
    let read = |text: &str| read_balance(text);
    assert_eq!(
        read("{\"balances\":[{\"denom\":\"x\",\"amount\":\"7\"},\
              {\"denom\":\"ujay\",\"amount\":\"1500000\"},\
              {\"denom\":\"ujay\",\"amount\":\"9\"}],\"pagination\":null}"),
        Some("1.500000".to_string())
    );
    assert_eq!(read("{\"balances\":[]}"), Some("0.000000".to_string()));
    assert_eq!(
        read("{\"balances\":[7,{\"denom\":\"x\",\"amount\":\"7\"}]}"),
        Some("0.000000".to_string())
    );
    for text in [
        "",
        "{}",
        "[]",
        "{\"balances\":7}",
        "{\"balances\":[{\"denom\":\"ujay\"}]}",
        "{\"balances\":[{\"denom\":\"ujay\",\"amount\":15}]}",
        "{\"balances\":[{\"denom\":\"ujay\",\"amount\":\"\"}]}",
        "{\"balances\":[{\"denom\":\"ujay\",\"amount\":\"-1\"}]}",
        "{\"balances\":[{\"denom\":\"ujay\",\"amount\":\"1:\"}]}",
    ] {
        assert_eq!(read(text), None, "{text}");
    }
    let reply = Json::Object(vec![("balances".to_string(), Json::List(vec![]))]);
    assert_eq!(balance_of(&reply), Some("0.000000".to_string()));
    assert_eq!(balance_of(&Json::Null), None);
    assert_eq!(
        balance_url("https://api-jayn.winnode.xyz", "yjay1w"),
        "https://api-jayn.winnode.xyz/cosmos/bank/v1beta1/balances/yjay1w"
    );
}

#[test]
fn standing_is_reported() {
    let earnings = Earnings {
        rewards: 0,
        total: "0.000000".to_string(),
        last: "0.000000".to_string(),
    };
    let share = Share {
        nonce: 874_213,
        hash: "0123abcd000000000000000000000000000000000000000000000000ef456789".to_string(),
    };
    let balance = Some("0.000000".to_string());
    let tally = Tally { accepted: 9, rejected: 0 };
    let share = Some(share);
    assert_eq!(
        stats_line(10, 10, tally, &earnings, &balance, &share),
        "[stats] up 10s | shares 9/10 ok (0 rej) | rewards 0 (0.000000 JAY, last 0.000000) \
         | balance 0.000000 JAY | last_hash 0123abcd…ef456789 nonce=874213"
    );
    assert_eq!(
        stats_line(10, 10, tally, &earnings, &None, &share),
        "[stats] up 10s | shares 9/10 ok (0 rej) | rewards 0 (0.000000 JAY, last 0.000000) \
         | last_hash 0123abcd…ef456789 nonce=874213"
    );
    assert_eq!(
        stats_line(10, 0, tally, &earnings, &balance, &None),
        "[stats] up 10s | shares 9/0 ok (0 rej) | rewards 0 (0.000000 JAY, last 0.000000) \
         | balance 0.000000 JAY"
    );
    let earnings = Earnings {
        rewards: 2,
        total: "0.750000".to_string(),
        last: "0.250000".to_string(),
    };
    assert_eq!(
        stats_line(3_600, 5, Tally { accepted: 3, rejected: 1 }, &earnings, &None, &None),
        "[stats] up 3600s | shares 3/5 ok (1 rej) | rewards 2 (0.750000 JAY, last 0.250000)"
    );
}
