//! The messages that the client sends to the pool.

use vstd::prelude::*;
use vstd::string::*;

use crate::ids::{MinerIds, MinerIdsView};
use crate::json::{value_view, JsonView};
use crate::text::decimal;

verus! {

/// The difficulty that every share names.
pub const SHARE_DIFFICULTY: u64 = 1_000_000;

/// `serde_json::Map`, the members of a JSON object by their names.
#[verifier::external_type_specification]
#[verifier::external_body]
#[verifier::reject_recursive_types(K)]
#[verifier::reject_recursive_types(V)]
pub struct ExMembers<K, V>(serde_json::Map<K, V>);

/// The members of a JSON object.
pub type Members = serde_json::Map<String, serde_json::Value>;

/// What a `serde_json::Map` holds.
pub uninterp spec fn members_of(members: Members) -> Map<Seq<char>, JsonView>;

/// The members of an empty object.
pub open spec fn no_fields() -> Map<Seq<char>, JsonView> {
    Map::empty()
}

/// The text that `serde_json::to_string` writes for an object with the given members.
pub uninterp spec fn object_text(members: Map<Seq<char>, JsonView>) -> Seq<char>;

/// `serde_json::Map::new`: an object without members.
#[verifier::external_body]
fn no_members() -> (members: Members)
    ensures
        members_of(members) == no_fields(),
{
    serde_json::Map::new()
}

/// `serde_json::Map::insert`: the member with the given name is now `value`; the others stay.
#[verifier::external_body]
fn insert_member(members: &mut Members, name: &str, value: serde_json::Value)
    ensures
        members_of(*final(members)) == members_of(*old(members)).insert(name@, value_view(value)),
{
    members.insert(name.to_string(), value);
}

/// `Value::from` on a text: a JSON string.
#[verifier::external_body]
fn text_value(text: &str) -> (value: serde_json::Value)
    ensures
        value_view(value) == JsonView::Text(text@),
{
    serde_json::Value::from(text)
}

/// `Value::from` on an unsigned integer: a JSON number, written in decimal.
#[verifier::external_body]
fn number_value(n: u64) -> (value: serde_json::Value)
    ensures
        value_view(value) == JsonView::Number(Some(n), decimal(n as nat)),
{
    serde_json::Value::from(n)
}

/// `serde_json::to_string` on a `Map`: a text that depends on the members alone, whatever the
/// order in which they were inserted. It does not fail on members with texts for names.
#[verifier::external_body]
fn write_members(members: &Members) -> (text: String)
    ensures
        text@ == object_text(members_of(*members)),
{
    serde_json::to_string(members).expect("an object with texts for names is serializable")
}

/// The types of messages to the pool.
#[derive(Clone, Copy, PartialEq, Eq, Structural, Debug)]
pub enum MessageType {
    Status,
    StartMining,
    Ping,
    SubmitShare,
    StopMining,
}

/// A message to the pool.
pub struct ClientMessage {
    pub msg_type: MessageType,
    pub payload: Members,
}

/// What a message to the pool says.
#[verifier::ext_equal]
pub struct MessageView {
    pub msg_type: MessageType,
    pub payload: Map<Seq<char>, JsonView>,
}

impl View for ClientMessage {
    type V = MessageView;

    open spec fn view(&self) -> MessageView {
        MessageView { msg_type: self.msg_type, payload: members_of(self.payload) }
    }
}

/// A JSON number without sign or fraction.
pub open spec fn count(n: nat) -> JsonView {
    JsonView::Number(Some(n as u64), decimal(n))
}

/// The text of an optional identifier, empty where there is none.
pub open spec fn or_empty(text: Option<Seq<char>>) -> Seq<char> {
    match text {
        Some(t) => t,
        None => Seq::empty(),
    }
}

/// `status`: the device has come online or goes offline.
pub open spec fn status_view(ids: MinerIdsView, wallet: Seq<char>, online: bool) -> MessageView {
    MessageView {
        msg_type: MessageType::Status,
        payload: map![
            "sessionId"@ => JsonView::Text(ids.session_id),
            "deviceId"@ => JsonView::Text(ids.device_id),
            "status"@ => JsonView::Text(if online { "online"@ } else { "offline"@ }),
            "wallet"@ => JsonView::Text(wallet),
        ],
    }
}

/// `start_mining`: the miner is ready for work. It names its miner id once it has one.
pub open spec fn start_mining_view(
    ids: MinerIdsView,
    wallet: Seq<char>,
    threads: u32,
) -> MessageView {
    let payload = map![
        "wallet"@ => JsonView::Text(wallet),
        "threads"@ => count(threads as nat),
        "sessionId"@ => JsonView::Text(ids.session_id),
        "deviceId"@ => JsonView::Text(ids.device_id),
    ];
    MessageView {
        msg_type: MessageType::StartMining,
        payload: match ids.miner_id {
            Some(id) => payload.insert("minerId"@, JsonView::Text(id)),
            None => payload,
        },
    }
}

/// `ping`: the device is still online.
pub open spec fn ping_view(ids: MinerIdsView) -> MessageView {
    MessageView {
        msg_type: MessageType::Ping,
        payload: map![
            "sessionId"@ => JsonView::Text(ids.session_id),
            "deviceId"@ => JsonView::Text(ids.device_id),
            "status"@ => JsonView::Text("online"@),
        ],
    }
}

/// `submit_share`: a share of the current job.
pub open spec fn submit_share_view(ids: MinerIdsView, nonce: u32, hash: Seq<char>) -> MessageView {
    MessageView {
        msg_type: MessageType::SubmitShare,
        payload: map![
            "nonce"@ => count(nonce as nat),
            "hash"@ => JsonView::Text(hash),
            "jobId"@ => JsonView::Text(ids.job_id),
            "difficulty"@ => count(SHARE_DIFFICULTY as nat),
            "sessionId"@ => JsonView::Text(ids.session_id),
            "deviceId"@ => JsonView::Text(ids.device_id),
            "minerId"@ => JsonView::Text(or_empty(ids.miner_id)),
        ],
    }
}

/// `stop_mining`: the miner stops work.
pub open spec fn stop_mining_view(ids: MinerIdsView, wallet: Seq<char>) -> MessageView {
    MessageView {
        msg_type: MessageType::StopMining,
        payload: map![
            "sessionId"@ => JsonView::Text(ids.session_id),
            "deviceId"@ => JsonView::Text(ids.device_id),
            "minerId"@ => JsonView::Text(or_empty(ids.miner_id)),
            "wallet"@ => JsonView::Text(wallet),
        ],
    }
}

impl MessageType {
    /// What the type is called on the wire.
    pub open spec fn wire_name(self) -> Seq<char> {
        match self {
            MessageType::Status => "status"@,
            MessageType::StartMining => "start_mining"@,
            MessageType::Ping => "ping"@,
            MessageType::SubmitShare => "submit_share"@,
            MessageType::StopMining => "stop_mining"@,
        }
    }

    /// Names the type.
    pub fn name(&self) -> (name: &'static str)
        ensures
            name@ == self.wire_name(),
    {
        match self {
            MessageType::Status => "status",
            MessageType::StartMining => "start_mining",
            MessageType::Ping => "ping",
            MessageType::SubmitShare => "submit_share",
            MessageType::StopMining => "stop_mining",
        }
    }
}

/// A message as it goes over the wire: a JSON object of the type and then the payload.
pub open spec fn message_text(message: MessageView) -> Seq<char> {
    "{\"type\":\""@ + message.msg_type.wire_name() + "\",\"payload\":"@ + object_text(
        message.payload,
    ) + "}"@
}

impl ClientMessage {
    /// Builds a `status` message.
    pub fn status(ids: &MinerIds, wallet: &str, online: bool) -> (message: ClientMessage)
        ensures
            message@ == status_view(ids@, wallet@, online),
    {
        let mut payload = no_members();
        insert_member(&mut payload, "sessionId", text_value(ids.session_id.as_str()));
        insert_member(&mut payload, "deviceId", text_value(ids.device_id.as_str()));
        let status = if online {
            "online"
        } else {
            "offline"
        };
        insert_member(&mut payload, "status", text_value(status));
        insert_member(&mut payload, "wallet", text_value(wallet));
        ClientMessage { msg_type: MessageType::Status, payload }
    }

    /// Builds a `start_mining` message.
    pub fn start_mining(ids: &MinerIds, wallet: &str, threads: u32) -> (message: ClientMessage)
        ensures
            message@ == start_mining_view(ids@, wallet@, threads),
    {
        let mut payload = no_members();
        insert_member(&mut payload, "wallet", text_value(wallet));
        insert_member(&mut payload, "threads", number_value(threads as u64));
        insert_member(&mut payload, "sessionId", text_value(ids.session_id.as_str()));
        insert_member(&mut payload, "deviceId", text_value(ids.device_id.as_str()));
        match &ids.miner_id {
            Some(id) => {
                insert_member(&mut payload, "minerId", text_value(id.as_str()));
            },
            None => {},
        }
        ClientMessage { msg_type: MessageType::StartMining, payload }
    }

    /// Builds a `ping` message.
    pub fn ping(ids: &MinerIds) -> (message: ClientMessage)
        ensures
            message@ == ping_view(ids@),
    {
        let mut payload = no_members();
        insert_member(&mut payload, "sessionId", text_value(ids.session_id.as_str()));
        insert_member(&mut payload, "deviceId", text_value(ids.device_id.as_str()));
        insert_member(&mut payload, "status", text_value("online"));
        ClientMessage { msg_type: MessageType::Ping, payload }
    }

    /// Builds a `submit_share` message.
    pub fn submit_share(ids: &MinerIds, nonce: u32, hash: &str) -> (message: ClientMessage)
        ensures
            message@ == submit_share_view(ids@, nonce, hash@),
    {
        let mut payload = no_members();
        insert_member(&mut payload, "nonce", number_value(nonce as u64));
        insert_member(&mut payload, "hash", text_value(hash));
        insert_member(&mut payload, "jobId", text_value(ids.job_id.as_str()));
        insert_member(&mut payload, "difficulty", number_value(SHARE_DIFFICULTY));
        insert_member(&mut payload, "sessionId", text_value(ids.session_id.as_str()));
        insert_member(&mut payload, "deviceId", text_value(ids.device_id.as_str()));
        insert_member(&mut payload, "minerId", miner_id_or_empty(ids));
        ClientMessage { msg_type: MessageType::SubmitShare, payload }
    }

    /// Builds a `stop_mining` message.
    pub fn stop_mining(ids: &MinerIds, wallet: &str) -> (message: ClientMessage)
        ensures
            message@ == stop_mining_view(ids@, wallet@),
    {
        let mut payload = no_members();
        insert_member(&mut payload, "sessionId", text_value(ids.session_id.as_str()));
        insert_member(&mut payload, "deviceId", text_value(ids.device_id.as_str()));
        insert_member(&mut payload, "minerId", miner_id_or_empty(ids));
        insert_member(&mut payload, "wallet", text_value(wallet));
        ClientMessage { msg_type: MessageType::StopMining, payload }
    }

    /// Writes the message out.
    pub fn text(&self) -> (text: String)
        ensures
            text@ == message_text(self@),
    {
        let mut text = "{\"type\":\"".to_owned();
        text.append(self.msg_type.name());
        text.append("\",\"payload\":");
        text.append(write_members(&self.payload).as_str());
        text.append("}");
        text
    }
}

/// The miner id, or an empty text where the pool has not assigned one.
fn miner_id_or_empty(ids: &MinerIds) -> (value: serde_json::Value)
    ensures
        value_view(value) == JsonView::Text(or_empty(ids@.miner_id)),
{
    match &ids.miner_id {
        Some(id) => text_value(id.as_str()),
        None => text_value(String::new().as_str()),
    }
}

/// No two names of members agree in their length and in their first letter.
proof fn lemma_names_differ()
    ensures
        "nonce"@.len() == 5 && "nonce"@[0] == 'n',
        "hash"@.len() == 4 && "hash"@[0] == 'h',
        "jobId"@.len() == 5 && "jobId"@[0] == 'j',
        "difficulty"@.len() == 10 && "difficulty"@[0] == 'd',
        "sessionId"@.len() == 9 && "sessionId"@[0] == 's',
        "deviceId"@.len() == 8 && "deviceId"@[0] == 'd',
        "minerId"@.len() == 7 && "minerId"@[0] == 'm',
        "wallet"@.len() == 6 && "wallet"@[0] == 'w',
        "threads"@.len() == 7 && "threads"@[0] == 't',
        "status"@.len() == 6 && "status"@[0] == 's',
{
    reveal_strlit("nonce");
    reveal_strlit("hash");
    reveal_strlit("jobId");
    reveal_strlit("difficulty");
    reveal_strlit("sessionId");
    reveal_strlit("deviceId");
    reveal_strlit("minerId");
    reveal_strlit("wallet");
    reveal_strlit("threads");
    reveal_strlit("status");
}

/// A share has seven members, and they say what the share is made of.
pub proof fn law_share_members(ids: MinerIdsView, nonce: u32, hash: Seq<char>)
    ensures
        ({
            let payload = submit_share_view(ids, nonce, hash).payload;
            &&& payload.dom() == set![
                "nonce"@,
                "hash"@,
                "jobId"@,
                "difficulty"@,
                "sessionId"@,
                "deviceId"@,
                "minerId"@,
            ]
            &&& payload["nonce"@] == count(nonce as nat)
            &&& payload["hash"@] == JsonView::Text(hash)
            &&& payload["jobId"@] == JsonView::Text(ids.job_id)
            &&& payload["difficulty"@] == count(1_000_000)
            &&& payload["sessionId"@] == JsonView::Text(ids.session_id)
            &&& payload["deviceId"@] == JsonView::Text(ids.device_id)
            &&& payload["minerId"@] == JsonView::Text(or_empty(ids.miner_id))
        }),
{
    lemma_names_differ();
}

/// The members of a `start_mining` message; the miner id is one of them once there is one.
pub proof fn law_start_members(ids: MinerIdsView, wallet: Seq<char>, threads: u32)
    ensures
        ({
            let payload = start_mining_view(ids, wallet, threads).payload;
            let names = set!["wallet"@, "threads"@, "sessionId"@, "deviceId"@];
            &&& payload["wallet"@] == JsonView::Text(wallet)
            &&& payload["threads"@] == count(threads as nat)
            &&& payload["sessionId"@] == JsonView::Text(ids.session_id)
            &&& payload["deviceId"@] == JsonView::Text(ids.device_id)
            &&& match ids.miner_id {
                Some(id) => payload.dom() == names.insert("minerId"@) && payload["minerId"@]
                    == JsonView::Text(id),
                None => payload.dom() == names && !names.contains("minerId"@),
            }
        }),
{
    lemma_names_differ();
}

/// The members of a `status` message, of a `ping` and of a `stop_mining` message.
pub proof fn law_other_members(ids: MinerIdsView, wallet: Seq<char>, online: bool)
    ensures
        ({
            let payload = status_view(ids, wallet, online).payload;
            &&& payload.dom() == set!["sessionId"@, "deviceId"@, "status"@, "wallet"@]
            &&& payload["sessionId"@] == JsonView::Text(ids.session_id)
            &&& payload["deviceId"@] == JsonView::Text(ids.device_id)
            &&& payload["status"@] == JsonView::Text(if online { "online"@ } else { "offline"@ })
            &&& payload["wallet"@] == JsonView::Text(wallet)
        }),
        ({
            let payload = ping_view(ids).payload;
            &&& payload.dom() == set!["sessionId"@, "deviceId"@, "status"@]
            &&& payload["sessionId"@] == JsonView::Text(ids.session_id)
            &&& payload["deviceId"@] == JsonView::Text(ids.device_id)
            &&& payload["status"@] == JsonView::Text("online"@)
        }),
        ({
            let payload = stop_mining_view(ids, wallet).payload;
            &&& payload.dom() == set!["sessionId"@, "deviceId"@, "minerId"@, "wallet"@]
            &&& payload["sessionId"@] == JsonView::Text(ids.session_id)
            &&& payload["deviceId"@] == JsonView::Text(ids.device_id)
            &&& payload["minerId"@] == JsonView::Text(or_empty(ids.miner_id))
            &&& payload["wallet"@] == JsonView::Text(wallet)
        }),
{
    lemma_names_differ();
}

/// A number without sign or fraction is written in decimal, and what is missing is an empty text.
pub proof fn law_values(n: u64, text: Seq<char>)
    ensures
        count(n as nat) == JsonView::Number(Some(n), decimal(n as nat)),
        or_empty(Some(text)) == text,
        or_empty(None) == Seq::<char>::empty(),
        no_fields() == Map::<Seq<char>, JsonView>::empty(),
{
}

/// Each message is of its own type.
pub proof fn law_messages_have_their_types(
    ids: MinerIdsView,
    wallet: Seq<char>,
    threads: u32,
    nonce: u32,
    hash: Seq<char>,
    online: bool,
)
    ensures
        status_view(ids, wallet, online).msg_type == MessageType::Status,
        start_mining_view(ids, wallet, threads).msg_type == MessageType::StartMining,
        ping_view(ids).msg_type == MessageType::Ping,
        submit_share_view(ids, nonce, hash).msg_type == MessageType::SubmitShare,
        stop_mining_view(ids, wallet).msg_type == MessageType::StopMining,
{
}

/// A message goes over the wire as an object of its type's name and its whole payload.
pub proof fn law_message_text(message: MessageView)
    ensures
        message_text(message) == (match message.msg_type {
            MessageType::Status => "{\"type\":\"status\",\"payload\":"@,
            MessageType::StartMining => "{\"type\":\"start_mining\",\"payload\":"@,
            MessageType::Ping => "{\"type\":\"ping\",\"payload\":"@,
            MessageType::SubmitShare => "{\"type\":\"submit_share\",\"payload\":"@,
            MessageType::StopMining => "{\"type\":\"stop_mining\",\"payload\":"@,
        }) + object_text(message.payload) + "}"@,
{
    let (open, close) = ("{\"type\":\""@, "\",\"payload\":"@);
    reveal_strlit("{\"type\":\"");
    reveal_strlit("\",\"payload\":");
    let head = open + message.msg_type.wire_name() + close;
    assert(message_text(message) == head + object_text(message.payload) + "}"@);
    match message.msg_type {
        MessageType::Status => {
            reveal_strlit("status");
            reveal_strlit("{\"type\":\"status\",\"payload\":");
            assert(head == "{\"type\":\"status\",\"payload\":"@);
        },
        MessageType::StartMining => {
            reveal_strlit("start_mining");
            reveal_strlit("{\"type\":\"start_mining\",\"payload\":");
            assert(head == "{\"type\":\"start_mining\",\"payload\":"@);
        },
        MessageType::Ping => {
            reveal_strlit("ping");
            reveal_strlit("{\"type\":\"ping\",\"payload\":");
            assert(head == "{\"type\":\"ping\",\"payload\":"@);
        },
        MessageType::SubmitShare => {
            reveal_strlit("submit_share");
            reveal_strlit("{\"type\":\"submit_share\",\"payload\":");
            assert(head == "{\"type\":\"submit_share\",\"payload\":"@);
        },
        MessageType::StopMining => {
            reveal_strlit("stop_mining");
            reveal_strlit("{\"type\":\"stop_mining\",\"payload\":");
            assert(head == "{\"type\":\"stop_mining\",\"payload\":"@);
        },
    }
}

/// A message says what its type and its members say.
pub proof fn law_messages_are_their_fields(message: ClientMessage)
    ensures
        message@.msg_type == message.msg_type,
        message@.payload == members_of(message.payload),
{
}

} // verus!
