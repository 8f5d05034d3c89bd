//! What the pool's messages do to a miner.

use vstd::prelude::*;

use crate::ids::{MinerIds, MinerIdsView};
use crate::json::{parse_json, parsed_json, Json, JsonView};
use crate::text::same_text;

verus! {

/// The shares that the pool has judged in a session.
#[derive(Clone, Copy, PartialEq, Eq, Structural, Debug)]
pub struct Tally {
    pub accepted: u64,
    pub rejected: u64,
}

/// What a message from the pool amounts to.
pub enum Notice {
    /// The message is no JSON document.
    NotJson,
    /// `auth_success` or `mining_started`, with a miner id.
    MinerAssigned { msg_type: String, miner_id: String },
    /// `auth_success` or `mining_started`, without a miner id.
    NoMinerId { msg_type: String },
    /// `job`, with a job id.
    NewJob { job_id: String, target: String },
    /// `job`, without a job id.
    NoJobId,
    /// `share_accepted`.
    ShareAccepted,
    /// `share_rejected`.
    ShareRejected,
    /// `mining_reward`; the amount is the numeral that the pool wrote, if it wrote a number.
    Reward { amount: Option<String>, shares: u64, tx_hash: String },
    /// `block_found`.
    BlockFound,
    /// `pool_stats`.
    PoolStats,
    /// `pong`.
    Pong,
    /// Any other message.
    Other { msg_type: String },
}

/// What a [`Notice`] says.
pub enum NoticeView {
    NotJson,
    MinerAssigned { msg_type: Seq<char>, miner_id: Seq<char> },
    NoMinerId { msg_type: Seq<char> },
    NewJob { job_id: Seq<char>, target: Seq<char> },
    NoJobId,
    ShareAccepted,
    ShareRejected,
    Reward { amount: Option<Seq<char>>, shares: u64, tx_hash: Seq<char> },
    BlockFound,
    PoolStats,
    Pong,
    Other { msg_type: Seq<char> },
}

impl View for Notice {
    type V = NoticeView;

    open spec fn view(&self) -> NoticeView {
        match self {
            Notice::NotJson => NoticeView::NotJson,
            Notice::MinerAssigned { msg_type, miner_id } => NoticeView::MinerAssigned {
                msg_type: msg_type@,
                miner_id: miner_id@,
            },
            Notice::NoMinerId { msg_type } => NoticeView::NoMinerId { msg_type: msg_type@ },
            Notice::NewJob { job_id, target } => NoticeView::NewJob {
                job_id: job_id@,
                target: target@,
            },
            Notice::NoJobId => NoticeView::NoJobId,
            Notice::ShareAccepted => NoticeView::ShareAccepted,
            Notice::ShareRejected => NoticeView::ShareRejected,
            Notice::Reward { amount, shares, tx_hash } => NoticeView::Reward {
                amount: match amount {
                    Some(numeral) => Some(numeral@),
                    None => None,
                },
                shares: *shares,
                tx_hash: tx_hash@,
            },
            Notice::BlockFound => NoticeView::BlockFound,
            Notice::PoolStats => NoticeView::PoolStats,
            Notice::Pong => NoticeView::Pong,
            Notice::Other { msg_type } => NoticeView::Other { msg_type: msg_type@ },
        }
    }
}

/// The text of a member, where it is a text.
pub open spec fn text_member(document: JsonView, name: Seq<char>) -> Option<Seq<char>> {
    match document.get(name) {
        Some(member) => member.as_text(),
        None => None,
    }
}

/// The text of a member, or `default` where it is no text.
pub open spec fn text_or(document: JsonView, name: Seq<char>, default: Seq<char>) -> Seq<char> {
    match text_member(document, name) {
        Some(text) => text,
        None => default,
    }
}

/// The type of a message from the pool.
pub open spec fn message_type(message: JsonView) -> Seq<char> {
    text_or(message, "type"@, "<unknown>"@)
}

/// The payload of a message from the pool; null where it has none.
pub open spec fn message_payload(message: JsonView) -> JsonView {
    match message.get("payload"@) {
        Some(payload) => payload,
        None => JsonView::Null,
    }
}

/// Whether a message assigns the miner its id.
pub open spec fn is_welcome(message: JsonView) -> bool {
    message_type(message) == "auth_success"@ || message_type(message) == "mining_started"@
}

/// The miner id that a message assigns.
pub open spec fn assigned_miner(message: JsonView) -> Option<Seq<char>> {
    if is_welcome(message) {
        text_member(message_payload(message), "minerId"@)
    } else {
        None
    }
}

/// The job id that a message hands out.
pub open spec fn assigned_job(message: JsonView) -> Option<Seq<char>> {
    if !is_welcome(message) && message_type(message) == "job"@ {
        text_member(message_payload(message), "jobId"@)
    } else {
        None
    }
}

/// The identifiers after a message from the pool.
pub open spec fn ids_after(ids: MinerIdsView, message: JsonView) -> MinerIdsView {
    MinerIdsView {
        miner_id: match assigned_miner(message) {
            Some(id) => Some(id),
            None => ids.miner_id,
        },
        job_id: match assigned_job(message) {
            Some(id) => id,
            None => ids.job_id,
        },
        ..ids
    }
}

/// What a message from the pool amounts to.
pub open spec fn notice_of(message: JsonView) -> NoticeView {
    let msg_type = message_type(message);
    let payload = message_payload(message);
    if is_welcome(message) {
        match text_member(payload, "minerId"@) {
            Some(miner_id) => NoticeView::MinerAssigned { msg_type, miner_id },
            None => NoticeView::NoMinerId { msg_type },
        }
    } else if msg_type == "job"@ {
        match text_member(payload, "jobId"@) {
            Some(job_id) => NoticeView::NewJob {
                job_id,
                target: text_or(payload, "target"@, "ffffffff"@),
            },
            None => NoticeView::NoJobId,
        }
    } else if msg_type == "share_accepted"@ {
        NoticeView::ShareAccepted
    } else if msg_type == "share_rejected"@ {
        NoticeView::ShareRejected
    } else if msg_type == "mining_reward"@ {
        NoticeView::Reward {
            amount: match payload.get("amount"@) {
                Some(amount) => amount.as_numeral(),
                None => None,
            },
            shares: match payload.get("shares"@) {
                Some(shares) => match shares.as_count() {
                    Some(count) => count,
                    None => 0,
                },
                None => 0,
            },
            tx_hash: text_or(payload, "txHash"@, Seq::empty()),
        }
    } else if msg_type == "block_found"@ {
        NoticeView::BlockFound
    } else if msg_type == "pool_stats"@ {
        NoticeView::PoolStats
    } else if msg_type == "pong"@ {
        NoticeView::Pong
    } else {
        NoticeView::Other { msg_type }
    }
}

/// The tally after a notice.
pub open spec fn tally_after(accepted: nat, rejected: nat, notice: NoticeView) -> (nat, nat) {
    (
        if notice is ShareAccepted {
            accepted + 1
        } else {
            accepted
        },
        if notice is ShareRejected {
            rejected + 1
        } else {
            rejected
        },
    )
}

/// What a message amounts to, given what its text reads as.
pub open spec fn reading_notice(reading: Option<JsonView>) -> NoticeView {
    match reading {
        Some(message) => notice_of(message),
        None => NoticeView::NotJson,
    }
}

/// The identifiers after a message, given what its text reads as.
pub open spec fn reading_ids(ids: MinerIdsView, reading: Option<JsonView>) -> MinerIdsView {
    match reading {
        Some(message) => ids_after(ids, message),
        None => ids,
    }
}

impl Tally {
    /// A session in which no share has been judged.
    pub fn new() -> (tally: Tally)
        ensures
            tally.accepted == 0,
            tally.rejected == 0,
    {
        Tally { accepted: 0, rejected: 0 }
    }

    /// Whether one more share can be counted, whichever way the pool judges it.
    pub open spec fn has_room(self) -> bool {
        self.accepted < u64::MAX && self.rejected < u64::MAX
    }

    /// Whether a notice can be counted.
    pub open spec fn has_room_for(self, notice: NoticeView) -> bool {
        &&& notice is ShareAccepted ==> self.accepted < u64::MAX
        &&& notice is ShareRejected ==> self.rejected < u64::MAX
    }

    /// Whether `after` is the tally once a notice is counted.
    pub open spec fn counts(self, notice: NoticeView, after: Tally) -> bool {
        (after.accepted as nat, after.rejected as nat) == tally_after(
            self.accepted as nat,
            self.rejected as nat,
            notice,
        )
    }
}

/// The text of a member.
fn member_text<'a>(document: Option<&'a Json>, name: &str) -> (r: Option<&'a str>)
    ensures
        match document {
            Some(d) => match r {
                Some(text) => text_member(d@, name@) == Some(text@),
                None => text_member(d@, name@) is None,
            },
            None => r is None,
        },
{
    match document {
        Some(d) => match d.get(name) {
            Some(member) => member.as_text(),
            None => None,
        },
        None => None,
    }
}

/// The text of a member, or `default`.
fn member_text_or(document: Option<&Json>, name: &str, default: &str) -> (text: String)
    ensures
        match document {
            Some(d) => text@ == text_or(d@, name@, default@),
            None => text@ == default@,
        },
{
    match member_text(document, name) {
        Some(text) => text.to_owned(),
        None => default.to_owned(),
    }
}

/// Acts on a message from the pool.
pub fn handle_document(message: &Json, ids: &mut MinerIds, tally: &mut Tally) -> (notice: Notice)
    requires
        old(tally).has_room_for(notice_of(message@)),
    ensures
        notice@ == notice_of(message@),
        final(ids)@ == ids_after(old(ids)@, message@),
        old(tally).counts(notice@, *final(tally)),
        final(tally).accepted == old(tally).accepted + (if message@.get("type"@) == Some(
            JsonView::Text("share_accepted"@),
        ) {
            1int
        } else {
            0int
        }),
        final(tally).rejected == old(tally).rejected + (if message@.get("type"@) == Some(
            JsonView::Text("share_rejected"@),
        ) {
            1int
        } else {
            0int
        }),
{
    proof {
        law_judged_shares_are_counted(message@, tally.accepted as nat, tally.rejected as nat);
    }
    let msg_type = member_text_or(Some(message), "type", "<unknown>");
    let kind = msg_type.as_str();
    let payload = message.get("payload");
    if same_text(kind, "auth_success") || same_text(kind, "mining_started") {
        match member_text(payload, "minerId") {
            Some(id) => {
                ids.miner_id = Some(id.to_owned());
                let miner_id = id.to_owned();
                Notice::MinerAssigned { msg_type, miner_id }
            },
            None => Notice::NoMinerId { msg_type },
        }
    } else if same_text(kind, "job") {
        match member_text(payload, "jobId") {
            Some(id) => {
                let target = member_text_or(payload, "target", "ffffffff");
                ids.job_id = id.to_owned();
                let job_id = id.to_owned();
                Notice::NewJob { job_id, target }
            },
            None => Notice::NoJobId,
        }
    } else if same_text(kind, "share_accepted") {
        tally.accepted = tally.accepted + 1;
        Notice::ShareAccepted
    } else if same_text(kind, "share_rejected") {
        tally.rejected = tally.rejected + 1;
        Notice::ShareRejected
    } else if same_text(kind, "mining_reward") {
        reward_notice(payload)
    } else if same_text(kind, "block_found") {
        Notice::BlockFound
    } else if same_text(kind, "pool_stats") {
        Notice::PoolStats
    } else if same_text(kind, "pong") {
        Notice::Pong
    } else {
        Notice::Other { msg_type }
    }
}

/// Reads the payload of a `mining_reward`.
fn reward_notice(payload: Option<&Json>) -> (notice: Notice)
    ensures
        ({
            let p = match payload {
                Some(document) => document@,
                None => JsonView::Null,
            };
            notice@ == (NoticeView::Reward {
                amount: match p.get("amount"@) {
                    Some(amount) => amount.as_numeral(),
                    None => None,
                },
                shares: match p.get("shares"@) {
                    Some(shares) => match shares.as_count() {
                        Some(count) => count,
                        None => 0,
                    },
                    None => 0,
                },
                tx_hash: text_or(p, "txHash"@, Seq::empty()),
            })
        }),
{
    let empty = String::new();
    let tx_hash = member_text_or(payload, "txHash", empty.as_str());
    match payload {
        Some(document) => {
            let amount = match document.get("amount") {
                Some(amount) => match amount.as_numeral() {
                    Some(numeral) => Some(numeral.to_owned()),
                    None => None,
                },
                None => None,
            };
            let shares: u64 = match document.get("shares") {
                Some(shares) => match shares.as_count() {
                    Some(count) => count,
                    None => 0,
                },
                None => 0,
            };
            Notice::Reward { amount, shares, tx_hash }
        },
        None => Notice::Reward { amount: None, shares: 0, tx_hash },
    }
}

/// Acts on the text of a message from the pool. What is no JSON document changes nothing.
///
/// What the text says is known only once it is read, so there is to be room for either judgement.
pub fn handle_server_message(text: &str, ids: &mut MinerIds, tally: &mut Tally) -> (notice: Notice)
    requires
        old(tally).has_room(),
    ensures
        notice@ == reading_notice(parsed_json(text@)),
        final(ids)@ == reading_ids(old(ids)@, parsed_json(text@)),
        old(tally).counts(notice@, *final(tally)),
{
    match parse_json(text) {
        Some(message) => handle_document(&message, ids, tally),
        None => Notice::NotJson,
    }
}

/// A message changes the miner id only where it assigns one, and the job only where it hands one
/// out; it never changes the session id or the device id, and any other message changes nothing.
pub proof fn law_what_a_message_changes(ids: MinerIdsView, message: JsonView)
    ensures
        match notice_of(message) {
            NoticeView::MinerAssigned { miner_id, .. } => ids_after(ids, message) == (
            MinerIdsView { miner_id: Some(miner_id), ..ids }),
            NoticeView::NewJob { job_id, .. } => ids_after(ids, message) == (
            MinerIdsView { job_id, ..ids }),
            _ => ids_after(ids, message) == ids,
        },
{
}

/// A message counts at most one share.
pub proof fn law_a_message_counts_once(accepted: nat, rejected: nat, message: JsonView)
    ensures
        ({
            let (a, r) = tally_after(accepted, rejected, notice_of(message));
            accepted <= a && rejected <= r && a + r <= accepted + rejected + 1
        }),
{
}

/// No two types of messages agree in their length, their first letter and the seventh of it.
proof fn lemma_types_differ()
    ensures
        "auth_success"@.len() == 12,
        "mining_started"@.len() == 14 && "mining_started"@[0] == 'm',
        "job"@.len() == 3,
        "share_accepted"@.len() == 14 && "share_accepted"@[0] == 's' && "share_accepted"@[6] == 'a',
        "share_rejected"@.len() == 14 && "share_rejected"@[0] == 's' && "share_rejected"@[6] == 'r',
        "mining_reward"@.len() == 13,
        "block_found"@.len() == 11,
        "pool_stats"@.len() == 10,
        "pong"@.len() == 4,
        "<unknown>"@.len() == 9,
{
    reveal_strlit("auth_success");
    reveal_strlit("mining_started");
    reveal_strlit("job");
    reveal_strlit("share_accepted");
    reveal_strlit("share_rejected");
    reveal_strlit("mining_reward");
    reveal_strlit("block_found");
    reveal_strlit("pool_stats");
    reveal_strlit("pong");
    reveal_strlit("<unknown>");
}

/// Every `share_accepted` is one more accepted share and every `share_rejected` one more rejected
/// share, whatever else the message holds; no other message changes either count.
pub proof fn law_judged_shares_are_counted(message: JsonView, accepted: nat, rejected: nat)
    ensures
        ({
            let kind = message.get("type"@);
            let (a, r) = tally_after(accepted, rejected, notice_of(message));
            &&& kind == Some(JsonView::Text("share_accepted"@)) ==> a == accepted + 1 && r
                == rejected
            &&& kind == Some(JsonView::Text("share_rejected"@)) ==> a == accepted && r == rejected
                + 1
            &&& kind != Some(JsonView::Text("share_accepted"@)) && kind != Some(
                JsonView::Text("share_rejected"@),
            ) ==> a == accepted && r == rejected
        }),
{
    lemma_types_differ();
}

/// Counting a notice adds one to the count that the notice is of, and leaves the other.
pub proof fn law_tally_adds_one(before: Tally, notice: NoticeView, after: Tally)
    ensures
        before.counts(notice, after) <==> {
            &&& after.accepted == before.accepted + (if notice is ShareAccepted {
                1int
            } else {
                0int
            })
            &&& after.rejected == before.rejected + (if notice is ShareRejected {
                1int
            } else {
                0int
            })
        },
        before.has_room() <==> before.accepted < u64::MAX && before.rejected < u64::MAX,
        before.has_room_for(notice) <==> (notice is ShareAccepted ==> before.accepted < u64::MAX)
            && (notice is ShareRejected ==> before.rejected < u64::MAX),
{
}

/// `auth_success` and `mining_started` assign the miner the id in their payload; without a text
/// there they assign none, and the miner keeps the one that it has.
pub proof fn law_welcome_assigns_the_miner_id(
    ids: MinerIdsView,
    message: JsonView,
    kind: Seq<char>,
)
    requires
        message.get("type"@) == Some(JsonView::Text(kind)),
        kind == "auth_success"@ || kind == "mining_started"@,
    ensures
        ({
            let id = match message.get("payload"@) {
                Some(payload) => payload.get("minerId"@),
                None => None,
            };
            match id {
                Some(JsonView::Text(id)) => {
                    &&& assigned_miner(message) == Some(id)
                    &&& ids_after(ids, message) == (MinerIdsView { miner_id: Some(id), ..ids })
                    &&& notice_of(message) == (NoticeView::MinerAssigned {
                        msg_type: kind,
                        miner_id: id,
                    })
                },
                _ => {
                    &&& assigned_miner(message) is None
                    &&& ids_after(ids, message) == ids
                    &&& notice_of(message) == (NoticeView::NoMinerId { msg_type: kind })
                },
            }
        }),
{
    lemma_types_differ();
}

/// `job` hands out the job in its payload, with its target or else `ffffffff`; without a text for
/// the job it hands out none, and the miner keeps the one that it has.
pub proof fn law_job_is_taken_over(ids: MinerIdsView, message: JsonView)
    requires
        message.get("type"@) == Some(JsonView::Text("job"@)),
    ensures
        ({
            let (id, target) = match message.get("payload"@) {
                Some(payload) => (payload.get("jobId"@), payload.get("target"@)),
                None => (None, None),
            };
            match id {
                Some(JsonView::Text(id)) => {
                    &&& assigned_job(message) == Some(id)
                    &&& ids_after(ids, message) == (MinerIdsView { job_id: id, ..ids })
                    &&& notice_of(message) == (NoticeView::NewJob {
                        job_id: id,
                        target: match target {
                            Some(JsonView::Text(text)) => text,
                            _ => "ffffffff"@,
                        },
                    })
                },
                _ => {
                    &&& assigned_job(message) is None
                    &&& ids_after(ids, message) == ids
                    &&& notice_of(message) == NoticeView::NoJobId
                },
            }
        }),
{
    lemma_types_differ();
}

/// `mining_reward` is read from its payload: the amount as its numeral, the shares where they are
/// an unsigned integer and else 0, and the transaction where it is a text and else nothing.
pub proof fn law_reward_is_read(message: JsonView)
    requires
        message.get("type"@) == Some(JsonView::Text("mining_reward"@)),
    ensures
        ({
            let (amount, shares, tx_hash) = match message.get("payload"@) {
                Some(payload) => (
                    payload.get("amount"@),
                    payload.get("shares"@),
                    payload.get("txHash"@),
                ),
                None => (None, None, None),
            };
            notice_of(message) == (NoticeView::Reward {
                amount: match amount {
                    Some(JsonView::Number(_, numeral)) => Some(numeral),
                    _ => None,
                },
                shares: match shares {
                    Some(JsonView::Number(Some(n), _)) => n,
                    _ => 0,
                },
                tx_hash: match tx_hash {
                    Some(JsonView::Text(text)) => text,
                    _ => Seq::empty(),
                },
            })
        }),
{
    lemma_types_differ();
}

/// Every message is noticed by its type alone, but for what is read from the payload; a message
/// without a text for a type is of the type `<unknown>`, and no type but these has a meaning.
pub proof fn law_messages_are_told_by_their_type(message: JsonView)
    ensures
        ({
            let kind = match message.get("type"@) {
                Some(JsonView::Text(text)) => text,
                _ => "<unknown>"@,
            };
            let notice = notice_of(message);
            &&& message_type(message) == kind
            &&& notice is ShareAccepted <==> kind == "share_accepted"@
            &&& notice is ShareRejected <==> kind == "share_rejected"@
            &&& notice is Reward <==> kind == "mining_reward"@
            &&& notice is BlockFound <==> kind == "block_found"@
            &&& notice is PoolStats <==> kind == "pool_stats"@
            &&& notice is Pong <==> kind == "pong"@
            &&& notice is NewJob || notice is NoJobId <==> kind == "job"@
            &&& notice is MinerAssigned || notice is NoMinerId <==> kind == "auth_success"@ || kind
                == "mining_started"@
            &&& notice is Other ==> notice == (NoticeView::Other { msg_type: kind })
            &&& notice !is NotJson
        }),
{
    lemma_types_differ();
}

/// Only a welcome changes the miner id, and only a job the job; a text that is no JSON document
/// changes nothing.
pub proof fn law_other_messages_change_no_ids(ids: MinerIdsView, message: JsonView)
    requires
        message.get("type"@) != Some(JsonView::Text("auth_success"@)),
        message.get("type"@) != Some(JsonView::Text("mining_started"@)),
        message.get("type"@) != Some(JsonView::Text("job"@)),
    ensures
        ids_after(ids, message) == ids,
        assigned_miner(message) is None,
        assigned_job(message) is None,
{
    lemma_types_differ();
}

/// What a text reads as decides what it amounts to and what it changes: a document as such, and
/// what is none nothing.
pub proof fn law_readings(ids: MinerIdsView, message: JsonView)
    ensures
        reading_notice(Some(message)) == notice_of(message),
        reading_ids(ids, Some(message)) == ids_after(ids, message),
        reading_notice(None) == NoticeView::NotJson,
        reading_ids(ids, None) == ids,
{
}

/// A notice is the texts and numbers of its fields.
pub proof fn law_notices_are_their_fields(notice: Notice)
    ensures
        match notice {
            Notice::NotJson => notice@ == NoticeView::NotJson,
            Notice::MinerAssigned { msg_type, miner_id } => notice@ == (NoticeView::MinerAssigned {
                msg_type: msg_type@,
                miner_id: miner_id@,
            }),
            Notice::NoMinerId { msg_type } => notice@ == (NoticeView::NoMinerId {
                msg_type: msg_type@,
            }),
            Notice::NewJob { job_id, target } => notice@ == (NoticeView::NewJob {
                job_id: job_id@,
                target: target@,
            }),
            Notice::NoJobId => notice@ == NoticeView::NoJobId,
            Notice::ShareAccepted => notice@ == NoticeView::ShareAccepted,
            Notice::ShareRejected => notice@ == NoticeView::ShareRejected,
            Notice::Reward { amount, shares, tx_hash } => notice@ matches NoticeView::Reward {
                amount: a,
                shares: s,
                tx_hash: t,
            } && s == shares && t == tx_hash@ && match amount {
                Some(numeral) => a == Some(numeral@),
                None => a is None,
            },
            Notice::BlockFound => notice@ == NoticeView::BlockFound,
            Notice::PoolStats => notice@ == NoticeView::PoolStats,
            Notice::Pong => notice@ == NoticeView::Pong,
            Notice::Other { msg_type } => notice@ == (NoticeView::Other { msg_type: msg_type@ }),
        },
{
}

} // verus!
