use jay_miner::pool_url::{redact, redact_token, NotAUrl, PoolUrl};
use jay_miner::reconnect::{after_session, backoff_ms, Reconnect};
use jay_miner::token::{read_token, success, TokenError, TokenReply};
use url::Url;

#[test]
fn redact_token_hides_value_but_keeps_url() {
    let u = Url::parse("wss://api-pool.winnode.xyz/?token=supersecret123").unwrap();
    let s = redact_token(&u);
    assert!(s.contains("token="), "token kv must remain: {s}");
    assert!(!s.contains("supersecret123"), "secret leaked: {s}");
    assert!(s.contains("redacted"), "redacted marker missing: {s}");
}

/// Redacts with the URL's own methods, and then makes the markers readable.
fn redacted_in_place(url: &Url) -> String {
    let mut copy = url.clone();
    let pairs: Vec<(String, String)> = copy.query_pairs().into_owned().collect();
    copy.query_pairs_mut().clear();
    for (name, value) in pairs {
        let shown = if name == "token" {
            format!("<{}-char-redacted>", value.len())
        } else {
            value
        };
        copy.query_pairs_mut().append_pair(&name, &shown);
    }
    copy.to_string()
        .replace("token=%3C", "token=<")
        .replace("-char-redacted%3E", "-char-redacted>")
}

#[test]
fn redaction_is_exact() {
    let cases = [
        (
            "wss://api-pool.winnode.xyz/?token=supersecret123",
            "wss://api-pool.winnode.xyz/?token=<14-char-redacted>",
        ),
        ("wss://pool.example", "wss://pool.example/?"),
        ("wss://pool.example/a?x=1#top", "wss://pool.example/a?x=1#top"),
        (
            "wss://pool.example/a?x=1&token=%C3%A9&&token=#f",
            "wss://pool.example/a?x=1&token=<2-char-redacted>&token=<0-char-redacted>#f",
        ),
        (
            "wss://pool.example/?Token=kept&q=a+b%26c%2Bd&~=%F0%9F%98%80",
            "wss://pool.example/?Token=kept&q=a+b%26c%2Bd&%7E=%F0%9F%98%80",
        ),
        (
            "wss://pool.example/?token=t&x=a%26b&y=%3C3%3E",
            "wss://pool.example/?token=<1-char-redacted>&x=a%26b&y=%3C3%3E",
        ),
        ("data:text/plain,hi?token=t", "data:text/plain,hi?token=<1-char-redacted>"),
        ("wss://u:p@pool.example:99/?", "wss://u:p@pool.example:99/?"),
    ];
    for (url, shown) in cases {
        let url = Url::parse(url).unwrap();
        assert_eq!(redact_token(&url), shown);
        assert_eq!(redact_token(&url), redacted_in_place(&url));
    }
    let url = format!("wss://api-pool.winnode.xyz/?token={}", "x".repeat(256));
    let url = Url::parse(&url).unwrap();
    assert_eq!(redact_token(&url), "wss://api-pool.winnode.xyz/?token=<256-char-redacted>");
    assert_eq!(redact("\u{e9}t\u{e9}"), "<5-char-redacted>");
}

#[test]
fn urls_that_differ_are_shown_apart() {
    let a = Url::parse("wss://pool.example/?x=a%26y%3Db").unwrap();
    let b = Url::parse("wss://pool.example/?x=a&y=b").unwrap();
    assert_ne!(redact_token(&a), redact_token(&b));
    assert_eq!(redact_token(&a), PoolUrl::of(&a).text());
    assert_eq!(redact_token(&b), PoolUrl::of(&b).text());
}

#[test]
fn tokens_of_one_length_look_alike() {
    let a = Url::parse("wss://pool.example/?token=aaaaaaa&x=1").unwrap();
    let b = Url::parse("wss://pool.example/?token=bbbbbbb&x=1").unwrap();
    let c = Url::parse("wss://pool.example/?token=bbbbbbbb&x=1").unwrap();
    assert_eq!(redact_token(&a), redact_token(&b));
    assert_ne!(redact_token(&a), redact_token(&c));
}

#[test]
fn session_url_carries_the_token() {
    let cases = [
        ("wss://api-pool.winnode.xyz", "t0k", "wss://api-pool.winnode.xyz/?token=t0k"),
        ("wss://pool.example/ws?token=old&x=1", "a b&c", "wss://pool.example/ws?token=a+b%26c"),
        ("wss://pool.example/#f", "\u{e9}=", "wss://pool.example/?token=%C3%A9%3D#f"),
    ];
    for (pool, token, expected) in cases {
        let url = PoolUrl::for_session(pool, token).unwrap();
        assert_eq!(url.text(), expected);
        let mut other = Url::parse(pool).unwrap();
        other.query_pairs_mut().clear().append_pair("token", token);
        assert_eq!(url.text(), other.as_str());
    }
    let token = "x".repeat(256);
    let url = PoolUrl::for_session("wss://api-pool.winnode.xyz", &token).unwrap();
    assert_eq!(url.pairs, vec![("token".to_string(), token)]);
    assert_eq!(url.shown(), "wss://api-pool.winnode.xyz/?token=<256-char-redacted>");
}

#[test]
fn pool_address_must_be_a_url() {
    assert!(matches!(PoolUrl::for_session("not a url", "t"), Err(NotAUrl)));
    assert!(matches!(PoolUrl::for_session("", "t"), Err(NotAUrl)));
    assert_eq!(NotAUrl.message("not a url"), "parsing pool ws URL: not a url");
}

#[test]
fn pauses_double_up_to_half_a_minute() {
    let pauses: Vec<u64> = (0..8).map(backoff_ms).collect();
    assert_eq!(pauses, vec![1_000, 2_000, 4_000, 8_000, 16_000, 30_000, 30_000, 30_000]);
    assert_eq!(backoff_ms(u32::MAX), 30_000);
}

#[test]
fn reconnection_limit_is_kept() {
    let mut attempt = 0;
    for expected in 1..5 {
        match after_session(true, attempt, 5) {
            Reconnect::After { attempt: next, backoff_ms: pause } => {
                assert_eq!(next, expected);
                assert_eq!(pause, backoff_ms(expected));
                attempt = next;
            }
            other => panic!("{other:?}"),
        }
    }
    assert_eq!(after_session(true, attempt, 5), Reconnect::GiveUp);
    assert_eq!(after_session(true, 0, 1), Reconnect::GiveUp);
    assert_eq!(
        after_session(true, 1_000_000, 0),
        Reconnect::After { attempt: 1_000_001, backoff_ms: 30_000 }
    );
    assert_eq!(
        after_session(true, 2, 0),
        Reconnect::After { attempt: 3, backoff_ms: 8_000 }
    );
    assert_eq!(after_session(false, 3, 1), Reconnect::Done);
    assert_eq!(after_session(false, u32::MAX, 0), Reconnect::Done);
}

fn reply(status: u16, line: &str, body: &str, decoded: Option<&str>) -> TokenReply {
    TokenReply {
        status,
        status_line: line.to_string(),
        body: body.to_string(),
        decoded: decoded.map(|token| token.to_string()),
    }
}

#[test]
fn token_is_read() {
    let body = "{\"token\":\"abc\"}";
    assert_eq!(read_token(reply(200, "200 OK", body, Some("abc"))).ok(), Some("abc".to_string()));
    let body = "{\"token\":\"Vercel Security Checkpoint\"}";
    let token = read_token(reply(299, "299", body, Some("Vercel Security Checkpoint"))).ok();
    assert_eq!(token, Some("Vercel Security Checkpoint".to_string()));
}

#[test]
fn empty_token_is_an_error() {
    let error = read_token(reply(200, "200 OK", "{\"token\":\"\"}", Some(""))).err().unwrap();
    assert!(matches!(error, TokenError::Empty));
    assert_eq!(error.message(), "ws-token response contained empty token");
}

#[test]
fn refusal_is_an_error() {
    for status in [100, 199, 300, 404, 599] {
        assert!(!success(status));
        let refusal = reply(status, "status line", "the body", Some("abc"));
        let error = read_token(refusal).err().unwrap();
        assert!(matches!(error, TokenError::Refused { .. }));
        assert_eq!(error.message(), "ws-token request failed: HTTP status line: the body");
    }
    let error = read_token(reply(429, "429 Too Many Requests", "slow down", None)).err().unwrap();
    assert_eq!(
        error.message(),
        "ws-token request failed: HTTP 429 Too Many Requests: slow down"
    );
}

#[test]
fn body_without_a_token_is_an_error() {
    assert!(success(200) && success(299));
    let error = read_token(reply(200, "200 OK", "<html>", None)).err().unwrap();
    assert!(matches!(error, TokenError::Undecodable));
    assert_eq!(error.message(), "decoding ws-token response as {\"token\": \"...\"}");
}

#[test]
fn checkpoint_page_is_not_repeated() {
    let page = "<html><title>Vercel Security Checkpoint</title><svg/></html>";
    let error = read_token(reply(200, "200 OK", page, None)).err().unwrap();
    assert!(matches!(error, TokenError::Checkpoint { status: 200 }));
    assert_eq!(
        error.message(),
        "ws-token blocked by Vercel security checkpoint (HTTP 200). Try again from a different \
         IP, or wait a few minutes for the rate-limit to expire."
    );
    let error = read_token(reply(403, "403 Forbidden", page, None)).err().unwrap();
    assert!(matches!(error, TokenError::Checkpoint { status: 403 }));
}
