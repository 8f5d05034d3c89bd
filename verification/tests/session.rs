use jay_miner::ids::MinerIds;
use jay_miner::json::{parse_json, Json};
use jay_miner::protocol::{handle_document, handle_server_message, Notice, Tally};
use jay_miner::session::{Event, Outgoing, Session, Share, Step};
use jay_miner::wire::ClientMessage;

fn ids() -> MinerIds {
    MinerIds {
        session_id: "session_1_a".to_string(),
        device_id: "device_2_b".to_string(),
        miner_id: None,
        job_id: String::new(),
    }
}

fn texts(frames: &[Outgoing]) -> Vec<String> {
    frames
        .iter()
        .map(|frame| match frame {
            Outgoing::Text(text) => text.clone(),
            Outgoing::Pong(_) => panic!("not a text"),
        })
        .collect()
}

fn open_session() -> Session {
    Session::start("yjay1wallet".to_string(), 4, ids()).0
}

fn tell(session: &mut Session, text: &str) -> Notice {
    let step = session.step(Event::Text(text.to_string()));
    assert!(step.send.is_empty());
    step.notice.unwrap()
}

fn silent(step: &Step) -> bool {
    step.send.is_empty() && step.notice.is_none()
}

const STATUS_ONLINE: &str = "{\"type\":\"status\",\"payload\":{\"deviceId\":\"device_2_b\",\
     \"sessionId\":\"session_1_a\",\"status\":\"online\",\"wallet\":\"yjay1wallet\"}}";

#[test]
fn session_opens_with_status_and_start() {
    let (session, send) = Session::start("yjay1wallet".to_string(), 4, ids());
    assert!(session.open);
    assert_eq!(session.tally, Tally { accepted: 0, rejected: 0 });
    assert_eq!(
        texts(&send),
        vec![
            STATUS_ONLINE.to_string(),
            "{\"type\":\"start_mining\",\"payload\":{\"deviceId\":\"device_2_b\",\
             \"sessionId\":\"session_1_a\",\"threads\":4,\"wallet\":\"yjay1wallet\"}}"
                .to_string(),
        ]
    );
}

#[test]
fn reconnected_miner_names_its_id() {
    let mut session = open_session();
    tell(&mut session, "{\"type\":\"auth_success\",\"payload\":{\"minerId\":\"m7\"}}");
    assert!(session.step(Event::Ended).send.is_empty());
    let (_, send) = Session::start("yjay1wallet".to_string(), 4, session.ids);
    assert_eq!(
        texts(&send)[1],
        "{\"type\":\"start_mining\",\"payload\":{\"deviceId\":\"device_2_b\",\"minerId\":\"m7\",\
         \"sessionId\":\"session_1_a\",\"threads\":4,\"wallet\":\"yjay1wallet\"}}"
    );
}

#[test]
fn pings_say_that_the_device_is_online() {
    let mut session = open_session();
    let step = session.step(Event::PingDue);
    assert_eq!(
        texts(&step.send),
        vec![
            "{\"type\":\"ping\",\"payload\":{\"deviceId\":\"device_2_b\",\
             \"sessionId\":\"session_1_a\",\"status\":\"online\"}}"
        ]
    );
    assert!(session.open);
}

#[test]
fn shares_name_the_current_job() {
    let mut session = open_session();
    let hash = "0f".repeat(32);
    let share = |nonce: u32| Event::ShareDue(Share { nonce, hash: "0f".repeat(32) });
    assert_eq!(
        texts(&session.step(share(0)).send),
        vec![format!(
            "{{\"type\":\"submit_share\",\"payload\":{{\"deviceId\":\"device_2_b\",\
             \"difficulty\":1000000,\"hash\":\"{hash}\",\"jobId\":\"\",\"minerId\":\"\",\
             \"nonce\":0,\"sessionId\":\"session_1_a\"}}}}"
        )]
    );
    tell(&mut session, "{\"type\":\"mining_started\",\"payload\":{\"minerId\":\"m7\"}}");
    tell(&mut session, "{\"type\":\"job\",\"payload\":{\"jobId\":\"j1\"}}");
    tell(&mut session, "{\"type\":\"job\",\"payload\":{\"jobId\":\"j2\",\"target\":\"00ff\"}}");
    tell(&mut session, "{\"type\":\"pong\"}");
    assert_eq!(
        texts(&session.step(share(999_999)).send),
        vec![format!(
            "{{\"type\":\"submit_share\",\"payload\":{{\"deviceId\":\"device_2_b\",\
             \"difficulty\":1000000,\"hash\":\"{hash}\",\"jobId\":\"j2\",\"minerId\":\"m7\",\
             \"nonce\":999999,\"sessionId\":\"session_1_a\"}}}}"
        )]
    );
}

#[test]
fn drawn_shares_have_their_shape() {
    for _ in 0..100 {
        let share = Share::draw();
        assert!(share.nonce < 1_000_000);
        assert_eq!(share.hash.len(), 64);
        assert!(share.hash.chars().all(|c| matches!(c, '0'..='9' | 'a'..='f')));
    }
}

#[test]
fn ping_frames_are_answered() {
    let mut session = open_session();
    let step = session.step(Event::Ping(vec![1, 2, 3]));
    assert!(matches!(&step.send[..], [Outgoing::Pong(data)] if *data == vec![1, 2, 3]));
    for event in [Event::Binary, Event::Pong, Event::Raw] {
        assert!(silent(&session.step(event)));
        assert!(session.open);
    }
}

#[test]
fn shutdown_is_announced_once() {
    let mut session = open_session();
    tell(&mut session, "{\"type\":\"auth_success\",\"payload\":{\"minerId\":\"m7\"}}");
    let step = session.step(Event::Shutdown);
    assert_eq!(
        texts(&step.send),
        vec![
            "{\"type\":\"stop_mining\",\"payload\":{\"deviceId\":\"device_2_b\",\
             \"minerId\":\"m7\",\"sessionId\":\"session_1_a\",\"wallet\":\"yjay1wallet\"}}"
                .to_string(),
            STATUS_ONLINE.replace("online", "offline"),
        ]
    );
    assert!(!session.open);
    for event in [
        Event::Shutdown,
        Event::PingDue,
        Event::ShareDue(Share { nonce: 1, hash: String::new() }),
        Event::Ping(vec![1]),
        Event::Text("{\"type\":\"share_accepted\"}".to_string()),
    ] {
        assert!(silent(&session.step(event)));
    }
    assert_eq!(session.tally.accepted, 0);
}

#[test]
fn lost_connection_ends_the_session() {
    for event in [Event::Close, Event::ReadError, Event::Ended] {
        let mut session = open_session();
        assert!(silent(&session.step(event)));
        assert!(!session.open);
        assert!(silent(&session.step(Event::PingDue)));
    }
}

#[test]
fn identity_outlasts_the_session() {
    let mut session = open_session();
    tell(&mut session, "{\"type\":\"auth_success\",\"payload\":{\"minerId\":\"m7\"}}");
    for text in [
        "{\"type\":\"auth_success\",\"payload\":{\"sessionId\":\"x\",\"deviceId\":\"y\"}}",
        "{\"type\":\"job\",\"payload\":{\"jobId\":\"j\",\"minerId\":\"m8\",\"wallet\":\"w\"}}",
        "not JSON",
    ] {
        tell(&mut session, text);
    }
    for event in [Event::Raw, Event::SendFailed, Event::Close, Event::Shutdown] {
        session.step(event);
    }
    assert_eq!(session.wallet, "yjay1wallet");
    assert_eq!(session.threads, 4);
    assert_eq!(session.ids.session_id, "session_1_a");
    assert_eq!(session.ids.device_id, "device_2_b");
    assert_eq!(session.ids.miner_id_value(), Some("m7".to_string()));
    assert_eq!(session.ids.job_id_value(), "j");
}

#[test]
fn miner_id_is_the_last_assigned() {
    let mut session = open_session();
    for id in ["m1", "m2"] {
        let welcome = format!("{{\"type\":\"auth_success\",\"payload\":{{\"minerId\":\"{id}\"}}}}");
        tell(&mut session, &welcome);
        tell(&mut session, "{\"type\":\"pong\",\"payload\":{\"minerId\":\"m3\"}}");
        session.step(Event::PingDue);
        assert_eq!(session.ids.miner_id_value(), Some(id.to_string()));
    }
    session.step(Event::Close);
    let late = "{\"type\":\"auth_success\",\"payload\":{\"minerId\":\"m4\"}}".to_string();
    session.step(Event::Text(late));
    assert_eq!(session.ids.miner_id_value(), Some("m2".to_string()));
}

#[test]
fn job_is_kept_until_the_next_one() {
    let mut session = open_session();
    tell(&mut session, "{\"type\":\"job\",\"payload\":{\"jobId\":\"j1\"}}");
    tell(&mut session, "{\"type\":\"job\",\"payload\":{\"target\":\"00\"}}");
    tell(&mut session, "{\"type\":\"pong\",\"payload\":{\"jobId\":\"j2\"}}");
    session.step(Event::SendFailed);
    session.step(Event::Close);
    let late = "{\"type\":\"job\",\"payload\":{\"jobId\":\"j3\"}}".to_string();
    session.step(Event::Text(late));
    assert_eq!(session.ids.job_id_value(), "j1");
}

#[test]
fn only_the_start_names_threads() {
    let (mut one, greeting_one) = Session::start("yjay1wallet".to_string(), 1, ids());
    let (mut many, greeting_many) = Session::start("yjay1wallet".to_string(), 64, ids());
    let (first, second) = (texts(&greeting_one), texts(&greeting_many));
    assert_eq!(first[0], second[0]);
    assert_eq!(first[1].replace("\"threads\":1,", "\"threads\":64,"), second[1]);
    let share = || Event::ShareDue(Share { nonce: 5, hash: "ab".to_string() });
    assert_eq!(texts(&one.step(share()).send), texts(&many.step(share()).send));
    for event in [|| Event::PingDue, || Event::Shutdown] {
        assert_eq!(texts(&one.step(event()).send), texts(&many.step(event()).send));
    }
}

#[test]
fn full_tally_stops_nothing_else() {
    let full = Tally { accepted: u64::MAX, rejected: u64::MAX };
    let mut session = open_session();
    session.tally = full;
    assert_eq!(session.step(Event::PingDue).send.len(), 1);
    let (mut ids, mut tally) = (ids(), full);
    assert!(matches!(handle_document(&Json::Null, &mut ids, &mut tally), Notice::Other { .. }));
    assert_eq!(session.step(Event::Shutdown).send.len(), 2);
    let late = Event::Text("{\"type\":\"share_accepted\"}".to_string());
    assert!(silent(&session.step(late)));
    assert!(session.tally == full && tally == full);
}

#[test]
fn nothing_is_sent_after_a_failure() {
    let mut session = open_session();
    assert!(silent(&session.step(Event::SendFailed)));
    assert!(session.open);
    assert!(silent(&session.step(Event::PingDue)));
    assert!(silent(&session.step(Event::ShareDue(Share { nonce: 1, hash: String::new() }))));
    assert!(silent(&session.step(Event::Ping(vec![1]))));
    assert!(matches!(tell(&mut session, "{\"type\":\"share_accepted\"}"), Notice::ShareAccepted));
    assert_eq!(session.tally.accepted, 1);
    assert!(silent(&session.step(Event::Shutdown)));
    assert!(!session.open);
}

#[test]
fn shares_are_counted() {
    let mut session = open_session();
    for _ in 0..3 {
        let notice = tell(&mut session, "{\"type\":\"share_accepted\"}");
        assert!(matches!(notice, Notice::ShareAccepted));
    }
    let notice = tell(&mut session, "{\"type\":\"share_rejected\",\"payload\":{\"why\":1}}");
    assert!(matches!(notice, Notice::ShareRejected));
    tell(&mut session, "{\"type\":\"job\",\"payload\":{\"jobId\":\"j\"}}");
    assert_eq!(session.tally, Tally { accepted: 3, rejected: 1 });
}

#[test]
fn welcome_assigns_the_miner_id() {
    for kind in ["auth_success", "mining_started"] {
        let (mut ids, mut tally) = (ids(), Tally::new());
        let text = format!("{{\"payload\":{{\"minerId\":\"m\\u00e9\"}},\"type\":\"{kind}\"}}");
        match handle_server_message(&text, &mut ids, &mut tally) {
            Notice::MinerAssigned { msg_type, miner_id } => {
                assert_eq!(msg_type, kind);
                assert_eq!(miner_id, "m\u{e9}");
            }
            _ => panic!("no miner id"),
        }
        assert_eq!(ids.miner_id_value(), Some("m\u{e9}".to_string()));
        for payload in ["null", "{\"minerId\":7}", "{\"minerid\":\"n\"}", "[]", "\"minerId\""] {
            let text = format!("{{\"type\":\"{kind}\",\"payload\":{payload}}}");
            let notice = handle_server_message(&text, &mut ids, &mut tally);
            assert!(matches!(notice, Notice::NoMinerId { msg_type } if msg_type == kind));
            assert_eq!(ids.miner_id_value(), Some("m\u{e9}".to_string()));
        }
    }
}

#[test]
fn job_has_a_default_target() {
    let (mut ids, mut tally) = (ids(), Tally::new());
    let notice = handle_server_message(
        "{\"type\":\"job\",\"payload\":{\"jobId\":\"j\",\"target\":5}}",
        &mut ids,
        &mut tally,
    );
    assert!(
        matches!(notice, Notice::NewJob { job_id, target } if job_id == "j" && target == "ffffffff")
    );
    let notice = handle_server_message(
        "{\"type\":\"job\",\"payload\":{\"jobId\":\"k\",\"target\":\"0f\"}}",
        &mut ids,
        &mut tally,
    );
    assert!(matches!(notice, Notice::NewJob { job_id, target } if job_id == "k" && target == "0f"));
    assert_eq!(ids.job_id_value(), "k");
    let notice = handle_server_message(
        "{\"type\":\"job\",\"payload\":{\"jobId\":null}}",
        &mut ids,
        &mut tally,
    );
    assert!(matches!(notice, Notice::NoJobId));
    assert_eq!(ids.job_id_value(), "k");
}

#[test]
fn rewards_are_read() {
    let (mut ids, mut tally) = (ids(), Tally::new());
    let mut read = |text: &str| match handle_server_message(text, &mut ids, &mut tally) {
        Notice::Reward { amount, shares, tx_hash } => (amount, shares, tx_hash),
        _ => panic!("no reward"),
    };
    assert_eq!(
        read(
            "{\"type\":\"mining_reward\",\
             \"payload\":{\"amount\":0.001234,\"shares\":42,\"txHash\":\"1a\"}}"
        ),
        (Some("0.001234".to_string()), 42, "1a".to_string())
    );
    assert_eq!(
        read("{\"type\":\"mining_reward\",\"payload\":{\"amount\":3,\"shares\":-1,\"txHash\":2}}"),
        (Some("3".to_string()), 0, String::new())
    );
    assert_eq!(
        read("{\"type\":\"mining_reward\",\"payload\":{\"amount\":\"3\",\"shares\":1.5}}"),
        (None, 0, String::new())
    );
    assert_eq!(read("{\"type\":\"mining_reward\"}"), (None, 0, String::new()));
}

#[test]
fn other_messages_change_nothing() {
    let (mut ids, mut tally) = (ids(), Tally::new());
    let mut read = |text: &str| handle_server_message(text, &mut ids, &mut tally);
    assert!(matches!(read("{\"type\":\"block_found\",\"payload\":{}}"), Notice::BlockFound));
    assert!(matches!(read("{\"type\":\"pool_stats\"}"), Notice::PoolStats));
    assert!(matches!(read("{\"type\":\"pong\"}"), Notice::Pong));
    assert!(matches!(read("{\"type\":\"new\"}"), Notice::Other { msg_type } if msg_type == "new"));
    for text in ["{}", "7", "[\"type\"]", "{\"type\":null}", "\"job\""] {
        assert!(matches!(read(text), Notice::Other { msg_type } if msg_type == "<unknown>"));
    }
    for text in ["", "{", "nope", "{\"type\":\"job\"} x"] {
        assert!(matches!(read(text), Notice::NotJson));
    }
    assert_eq!(ids.miner_id_value(), None);
    assert_eq!(ids.job_id_value(), "");
    assert_eq!(tally, Tally::new());
}

#[test]
fn documents_are_acted_on() {
    let (mut ids, mut tally) = (ids(), Tally::new());
    let document = Json::Object(vec![
        ("type".to_string(), Json::Text("job".to_string())),
        (
            "payload".to_string(),
            Json::Object(vec![("jobId".to_string(), Json::Text("j9".to_string()))]),
        ),
    ]);
    let notice = handle_document(&document, &mut ids, &mut tally);
    assert!(matches!(notice, Notice::NewJob { .. }));
    assert_eq!(ids.job_id_value(), "j9");
}

#[test]
fn json_is_parsed() {
    let document = parse_json("{\"b\":[true,null,\"x\",{}],\"a\":1,\"c\":-2.50,\"a\":7}").unwrap();
    assert_eq!(document.get("a").unwrap().as_count(), Some(7));
    assert_eq!(document.get("a").unwrap().as_numeral(), Some("7"));
    assert_eq!(document.get("c").unwrap().as_count(), None);
    assert_eq!(document.get("c").unwrap().as_numeral(), Some("-2.5"));
    assert!(document.get("d").is_none());
    match document.get("b").unwrap() {
        Json::List(items) => {
            assert_eq!(items.len(), 4);
            assert!(matches!(items[0], Json::Bool(true)));
            assert!(matches!(items[1], Json::Null));
            assert_eq!(items[2].as_text(), Some("x"));
            assert!(matches!(&items[3], Json::Object(members) if members.is_empty()));
        }
        _ => panic!("no list"),
    }
    assert!(document.get("b").unwrap().get("x").is_none());
    assert_eq!(parse_json("18446744073709551615").unwrap().as_count(), Some(u64::MAX));
    assert_eq!(parse_json("18446744073709551616").unwrap().as_count(), None);
    assert_eq!(parse_json("\"x\"").unwrap().as_numeral(), None);
    assert_eq!(parse_json("1").unwrap().as_text(), None);
    assert!(parse_json("{\"a\":}").is_none());
}

#[test]
fn numerals_keep_the_value_of_a_number() {
    for text in ["0.1", "1e-7", "123456789.125", "18446744073709551616", "-3", "0.001234"] {
        let document = parse_json(text).unwrap();
        let value: serde_json::Value = serde_json::from_str(text).unwrap();
        let numeral: f64 = document.as_numeral().unwrap().parse().unwrap();
        assert_eq!(Some(numeral), value.as_f64());
    }
}

#[test]
fn messages_are_json() {
    let mut ids = ids();
    ids.miner_id = Some("a\"b\\c\n\u{1}\u{e9}".to_string());
    ids.job_id = "\u{2028}".to_string();
    let messages = [
        ClientMessage::status(&ids, "w\t", true),
        ClientMessage::start_mining(&ids, "w\t", u32::MAX),
        ClientMessage::ping(&ids),
        ClientMessage::submit_share(&ids, 17, "ab"),
        ClientMessage::stop_mining(&ids, "w\t"),
    ];
    for message in messages {
        let value: serde_json::Value = serde_json::from_str(&message.text()).unwrap();
        assert_eq!(value.as_object().unwrap().len(), 2);
        assert_eq!(value["type"], message.msg_type.name());
        assert_eq!(value["payload"].as_object(), Some(&message.payload));
        assert_eq!(value["payload"]["sessionId"], "session_1_a");
        assert_eq!(value["payload"]["deviceId"], "device_2_b");
    }
}
