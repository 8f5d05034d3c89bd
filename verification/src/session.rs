//! A session with the pool, from its first message to its last.

use vstd::prelude::*;

use crate::entropy::{hex_text, random_hex_64, random_nonce, HASH_LENGTH};
use crate::ids::{MinerIds, MinerIdsView};
use crate::json::{parsed_json, JsonView};
use crate::protocol::{
    assigned_job, assigned_miner, handle_server_message, ids_after, law_judged_shares_are_counted,
    reading_ids, reading_notice, tally_after, Notice, NoticeView, Tally,
};
use crate::wire::{
    law_share_members, law_start_members, message_text, ping_view, start_mining_view, status_view,
    stop_mining_view, submit_share_view, ClientMessage,
};

verus! {

/// The seconds between two pings.
pub const PING_SECONDS: u64 = 30;

/// The seconds between two shares.
pub const SHARE_SECONDS: u64 = 1;

/// Nonces are below this number.
pub const NONCE_LIMIT: u32 = 1_000_000;

/// A session with the pool.
pub struct Session {
    pub wallet: String,
    /// The number of threads that the pool is told.
    pub threads: u32,
    pub ids: MinerIds,
    pub tally: Tally,
    /// Whether the session goes on.
    pub open: bool,
    /// Whether frames can still be sent.
    pub writable: bool,
}

/// A share to be submitted.
pub struct Share {
    pub nonce: u32,
    pub hash: String,
}

/// What a session is told.
pub enum Event {
    /// The time for a ping has come.
    PingDue,
    /// The time for a share has come.
    ShareDue(Share),
    /// The pool sent a text frame.
    Text(String),
    /// The pool sent a binary frame.
    Binary,
    /// The pool sent a ping frame.
    Ping(Vec<u8>),
    /// The pool sent a pong frame.
    Pong,
    /// The pool sent a frame of no other kind.
    Raw,
    /// The pool closed the connection.
    Close,
    /// The connection cannot be read.
    ReadError,
    /// The connection has ended.
    Ended,
    /// A frame could not be sent.
    SendFailed,
    /// The client is to shut down.
    Shutdown,
}

/// What goes to the pool.
pub enum Outgoing {
    /// A text frame.
    Text(String),
    /// A pong frame.
    Pong(Vec<u8>),
}

/// What a session does about an event.
pub struct Step {
    /// The frames to send, in their order.
    pub send: Vec<Outgoing>,
    /// What a text frame amounted to.
    pub notice: Option<Notice>,
}

/// What a [`Session`] is.
#[verifier::ext_equal]
pub struct SessionView {
    pub wallet: Seq<char>,
    pub threads: u32,
    pub ids: MinerIdsView,
    pub accepted: nat,
    pub rejected: nat,
    pub open: bool,
    pub writable: bool,
}

/// What an [`Event`] is; a text frame is what it reads as.
pub enum EventView {
    PingDue,
    ShareDue { nonce: u32, hash: Seq<char> },
    Message(Option<JsonView>),
    Binary,
    Ping(Seq<u8>),
    Pong,
    Raw,
    Close,
    ReadError,
    Ended,
    SendFailed,
    Shutdown,
}

/// What an [`Outgoing`] frame is.
pub enum OutgoingView {
    Text(Seq<char>),
    Pong(Seq<u8>),
}

impl View for Session {
    type V = SessionView;

    open spec fn view(&self) -> SessionView {
        SessionView {
            wallet: self.wallet@,
            threads: self.threads,
            ids: self.ids@,
            accepted: self.tally.accepted as nat,
            rejected: self.tally.rejected as nat,
            open: self.open,
            writable: self.writable,
        }
    }
}

impl View for Event {
    type V = EventView;

    open spec fn view(&self) -> EventView {
        match self {
            Event::PingDue => EventView::PingDue,
            Event::ShareDue(share) => EventView::ShareDue { nonce: share.nonce, hash: share.hash@ },
            Event::Text(text) => EventView::Message(parsed_json(text@)),
            Event::Binary => EventView::Binary,
            Event::Ping(data) => EventView::Ping(data@),
            Event::Pong => EventView::Pong,
            Event::Raw => EventView::Raw,
            Event::Close => EventView::Close,
            Event::ReadError => EventView::ReadError,
            Event::Ended => EventView::Ended,
            Event::SendFailed => EventView::SendFailed,
            Event::Shutdown => EventView::Shutdown,
        }
    }
}

impl View for Outgoing {
    type V = OutgoingView;

    open spec fn view(&self) -> OutgoingView {
        match self {
            Outgoing::Text(text) => OutgoingView::Text(text@),
            Outgoing::Pong(data) => OutgoingView::Pong(data@),
        }
    }
}

/// What several frames are.
pub open spec fn frames(send: Seq<Outgoing>) -> Seq<OutgoingView> {
    send.map_values(|frame: Outgoing| frame@)
}

/// What a session opens with: the device is online, and the miner starts.
pub open spec fn greeting(s: SessionView) -> Seq<OutgoingView> {
    seq![
        OutgoingView::Text(message_text(status_view(s.ids, s.wallet, true))),
        OutgoingView::Text(message_text(start_mining_view(s.ids, s.wallet, s.threads))),
    ]
}

/// What a session shuts down with: the miner stops, and the device is offline.
pub open spec fn farewell(s: SessionView) -> Seq<OutgoingView> {
    seq![
        OutgoingView::Text(message_text(stop_mining_view(s.ids, s.wallet))),
        OutgoingView::Text(message_text(status_view(s.ids, s.wallet, false))),
    ]
}

/// Whether an event ends a session.
pub open spec fn ends(event: EventView) -> bool {
    event is Close || event is ReadError || event is Ended || event is Shutdown
}

/// The session after a message, given what its text reads as.
pub open spec fn after_message(s: SessionView, reading: Option<JsonView>) -> SessionView {
    let (accepted, rejected) = tally_after(s.accepted, s.rejected, reading_notice(reading));
    SessionView { ids: reading_ids(s.ids, reading), accepted, rejected, ..s }
}

/// The session after an event.
pub open spec fn after(s: SessionView, event: EventView) -> SessionView {
    if !s.open {
        s
    } else {
        match event {
            EventView::Message(reading) => after_message(s, reading),
            EventView::SendFailed => SessionView { writable: false, ..s },
            _ => SessionView { open: !ends(event), ..s },
        }
    }
}

/// What a session sends because of an event.
pub open spec fn replies(s: SessionView, event: EventView) -> Seq<OutgoingView> {
    if !s.open || !s.writable {
        seq![]
    } else {
        match event {
            EventView::PingDue => seq![OutgoingView::Text(message_text(ping_view(s.ids)))],
            EventView::ShareDue { nonce, hash } => seq![
                OutgoingView::Text(message_text(submit_share_view(s.ids, nonce, hash))),
            ],
            EventView::Ping(data) => seq![OutgoingView::Pong(data)],
            EventView::Shutdown => farewell(s),
            _ => seq![],
        }
    }
}

/// The session after several events.
pub open spec fn run(s: SessionView, events: Seq<EventView>) -> SessionView
    decreases events.len(),
{
    if events.len() == 0 {
        s
    } else {
        after(run(s, events.drop_last()), events.last())
    }
}

/// What a session sends because of several events.
pub open spec fn transcript(s: SessionView, events: Seq<EventView>) -> Seq<OutgoingView>
    decreases events.len(),
{
    if events.len() == 0 {
        seq![]
    } else {
        transcript(s, events.drop_last()) + replies(run(s, events.drop_last()), events.last())
    }
}

/// How many of the messages among the events are of the given kind.
pub open spec fn tallied(events: Seq<EventView>, notice: NoticeView) -> nat
    decreases events.len(),
{
    if events.len() == 0 {
        0
    } else {
        let more: nat = match events.last() {
            EventView::Message(reading) => if reading_notice(reading) == notice {
                1
            } else {
                0
            },
            _ => 0,
        };
        tallied(events.drop_last(), notice) + more
    }
}

impl Share {
    /// Makes a share up from entropy.
    pub fn draw() -> (share: Share)
        ensures
            share.nonce < NONCE_LIMIT,
            exists|words: Seq<u32>|
                words.len() == HASH_LENGTH && share.hash@ == #[trigger] hex_text(words),
    {
        Share { nonce: random_nonce(NONCE_LIMIT), hash: random_hex_64() }
    }
}

impl Session {
    /// Opens a session. With it comes what it opens with.
    pub fn start(wallet: String, threads: u32, ids: MinerIds) -> (r: (Session, Vec<Outgoing>))
        ensures
            r.0@ == (SessionView {
                wallet: wallet@,
                threads,
                ids: ids@,
                accepted: 0,
                rejected: 0,
                open: true,
                writable: true,
            }),
            frames(r.1@) == greeting(r.0@),
    {
        let mut send: Vec<Outgoing> = Vec::new();
        let online = ClientMessage::status(&ids, wallet.as_str(), true);
        send.push(Outgoing::Text(online.text()));
        let start = ClientMessage::start_mining(&ids, wallet.as_str(), threads);
        send.push(Outgoing::Text(start.text()));
        let session = Session {
            wallet,
            threads,
            ids,
            tally: Tally::new(),
            open: true,
            writable: true,
        };
        (session, send)
    }

    /// Acts on an event.
    pub fn step(&mut self, event: Event) -> (step: Step)
        requires
            old(self).open && event is Text ==> old(self).tally.has_room(),
        ensures
            final(self)@ == after(old(self)@, event@),
            frames(step.send@) == replies(old(self)@, event@),
            match event@ {
                EventView::Message(reading) if old(self).open => step.notice matches Some(notice)
                    && notice@ == reading_notice(reading),
                _ => step.notice is None,
            },
    {
        let mut send: Vec<Outgoing> = Vec::new();
        let mut notice: Option<Notice> = None;
        if self.open {
            match event {
                Event::PingDue => {
                    if self.writable {
                        let ping = ClientMessage::ping(&self.ids);
                        send.push(Outgoing::Text(ping.text()));
                    }
                },
                Event::ShareDue(share) => {
                    if self.writable {
                        let submit = ClientMessage::submit_share(
                            &self.ids,
                            share.nonce,
                            share.hash.as_str(),
                        );
                        send.push(Outgoing::Text(submit.text()));
                    }
                },
                Event::Text(text) => {
                    notice = Some(
                        handle_server_message(text.as_str(), &mut self.ids, &mut self.tally),
                    );
                },
                Event::Ping(data) => {
                    if self.writable {
                        send.push(Outgoing::Pong(data));
                    }
                },
                Event::Binary | Event::Pong | Event::Raw => {},
                Event::Close | Event::ReadError | Event::Ended => {
                    self.open = false;
                },
                Event::SendFailed => {
                    self.writable = false;
                },
                Event::Shutdown => {
                    if self.writable {
                        let stop = ClientMessage::stop_mining(&self.ids, self.wallet.as_str());
                        send.push(Outgoing::Text(stop.text()));
                        let offline = ClientMessage::status(&self.ids, self.wallet.as_str(), false);
                        send.push(Outgoing::Text(offline.text()));
                    }
                    self.open = false;
                },
            }
        }
        Step { send, notice }
    }
}

/// A session that is over stays as it is and sends nothing, whatever happens.
pub proof fn law_closed_session_is_silent(s: SessionView, events: Seq<EventView>)
    requires
        !s.open,
    ensures
        run(s, events) == s,
        transcript(s, events) == Seq::<OutgoingView>::empty(),
    decreases events.len(),
{
    if events.len() > 0 {
        law_closed_session_is_silent(s, events.drop_last());
    }
}

/// Once a frame could not be sent, a session sends nothing more; it still counts what the pool
/// says, as it would otherwise.
pub proof fn law_nothing_is_sent_after_a_failure(s: SessionView, events: Seq<EventView>)
    requires
        !s.writable,
    ensures
        transcript(s, events) == Seq::<OutgoingView>::empty(),
        run(s, events) == (SessionView {
            writable: false,
            ..run(SessionView { writable: true, ..s }, events)
        }),
    decreases events.len(),
{
    if events.len() > 0 {
        law_nothing_is_sent_after_a_failure(s, events.drop_last());
    }
}

/// No event changes the wallet, the threads, the session id or the device id.
pub proof fn law_identity_is_fixed(s: SessionView, events: Seq<EventView>)
    ensures
        run(s, events).wallet == s.wallet,
        run(s, events).threads == s.threads,
        run(s, events).ids.session_id == s.ids.session_id,
        run(s, events).ids.device_id == s.ids.device_id,
    decreases events.len(),
{
    if events.len() > 0 {
        law_identity_is_fixed(s, events.drop_last());
    }
}

/// Whether an event is a message that assigns the miner an id.
pub open spec fn assigns_miner(event: EventView) -> bool {
    match event {
        EventView::Message(Some(message)) => assigned_miner(message) is Some,
        _ => false,
    }
}

/// A session keeps its miner id, or keeps having none, until the pool assigns one.
pub proof fn law_miner_id_is_not_lost(s: SessionView, events: Seq<EventView>)
    requires
        forall|i: int| 0 <= i < events.len() ==> !assigns_miner(#[trigger] events[i]),
    ensures
        run(s, events).ids.miner_id == s.ids.miner_id,
    decreases events.len(),
{
    if events.len() > 0 {
        let before = events.drop_last();
        assert(forall|i: int| 0 <= i < before.len() ==> before[i] == events[i]);
        law_miner_id_is_not_lost(s, before);
        assert(events.last() == events[events.len() - 1]);
    }
}

/// The miner id of a session is the one that the pool assigned last, and shares name it.
pub proof fn law_miner_id_is_the_last_assigned(
    s: SessionView,
    welcome: JsonView,
    behind: Seq<EventView>,
    nonce: u32,
    hash: Seq<char>,
)
    requires
        s.open,
        assigned_miner(welcome) is Some,
        forall|i: int| 0 <= i < behind.len() ==> !assigns_miner(#[trigger] behind[i]),
    ensures
        ({
            let now = run(after(s, EventView::Message(Some(welcome))), behind);
            &&& now.ids.miner_id == assigned_miner(welcome)
            &&& submit_share_view(now.ids, nonce, hash).payload["minerId"@] == JsonView::Text(
                assigned_miner(welcome)->0,
            )
        }),
{
    let start = after(s, EventView::Message(Some(welcome)));
    law_miner_id_is_not_lost(start, behind);
    law_share_members(run(start, behind).ids, nonce, hash);
}

/// A session goes on until an event ends it.
pub proof fn law_session_goes_on(s: SessionView, events: Seq<EventView>)
    requires
        s.open,
    ensures
        run(s, events).open <==> forall|i: int|
            0 <= i < events.len() ==> !ends(#[trigger] events[i]),
    decreases events.len(),
{
    if events.len() > 0 {
        law_session_goes_on(s, events.drop_last());
        let before = events.drop_last();
        assert(forall|i: int| 0 <= i < before.len() ==> before[i] == events[i]);
        if run(s, events).open {
            assert forall|i: int| 0 <= i < events.len() implies !ends(#[trigger] events[i]) by {
                if i < before.len() {
                    assert(!ends(before[i]));
                }
            }
        }
    }
}

/// While a session goes on, it counts every share that the pool accepts and every share that the
/// pool rejects, each once.
pub proof fn law_every_share_is_counted(s: SessionView, events: Seq<EventView>)
    requires
        s.open,
        forall|i: int| 0 <= i < events.len() ==> !ends(#[trigger] events[i]),
    ensures
        run(s, events).accepted == s.accepted + tallied(events, NoticeView::ShareAccepted),
        run(s, events).rejected == s.rejected + tallied(events, NoticeView::ShareRejected),
    decreases events.len(),
{
    if events.len() > 0 {
        let before = events.drop_last();
        assert(forall|i: int| 0 <= i < before.len() ==> before[i] == events[i]);
        law_every_share_is_counted(s, before);
        law_session_goes_on(s, before);
    }
}

/// A session that is shut down sends `stop_mining`, then that the device is offline, and after
/// that nothing.
pub proof fn law_shutdown_is_announced(
    s: SessionView,
    before: Seq<EventView>,
    behind: Seq<EventView>,
)
    requires
        run(s, before).open,
        run(s, before).writable,
    ensures
        transcript(s, before.push(EventView::Shutdown) + behind) == transcript(s, before)
            + farewell(run(s, before)),
    decreases behind.len(),
{
    let shut = before.push(EventView::Shutdown);
    assert(shut.drop_last() == before);
    if behind.len() == 0 {
        assert(shut + behind == shut);
    } else {
        let events = shut + behind;
        assert(events.drop_last() == shut + behind.drop_last());
        law_shutdown_is_announced(s, before, behind.drop_last());
        lemma_run_add(s, shut, behind.drop_last());
        assert(!run(s, shut).open);
        law_closed_session_is_silent(run(s, shut), behind.drop_last());
        assert(replies(run(s, events.drop_last()), events.last()) == Seq::<
            OutgoingView,
        >::empty());
    }
}

proof fn lemma_run_add(s: SessionView, a: Seq<EventView>, b: Seq<EventView>)
    ensures
        run(s, a + b) == run(run(s, a), b),
    decreases b.len(),
{
    if b.len() == 0 {
        assert(a + b == a);
    } else {
        assert((a + b).drop_last() == a + b.drop_last());
        lemma_run_add(s, a, b.drop_last());
    }
}

/// Whether an event is a message that hands out a job.
pub open spec fn assigns_job(event: EventView) -> bool {
    match event {
        EventView::Message(Some(message)) => assigned_job(message) is Some,
        _ => false,
    }
}

/// A session keeps its job until the pool hands out another.
pub proof fn law_job_is_kept(s: SessionView, events: Seq<EventView>)
    requires
        forall|i: int| 0 <= i < events.len() ==> !assigns_job(#[trigger] events[i]),
    ensures
        run(s, events).ids.job_id == s.ids.job_id,
    decreases events.len(),
{
    if events.len() > 0 {
        let before = events.drop_last();
        assert(forall|i: int| 0 <= i < before.len() ==> before[i] == events[i]);
        law_job_is_kept(s, before);
        assert(events.last() == events[events.len() - 1]);
    }
}

/// A share names the job that the pool handed out last: the one of the last message that hands one
/// out.
pub proof fn law_share_names_current_job(
    s: SessionView,
    job: JsonView,
    behind: Seq<EventView>,
    nonce: u32,
    hash: Seq<char>,
)
    requires
        s.open,
        assigned_job(job) is Some,
        forall|i: int| 0 <= i < behind.len() ==> !assigns_job(#[trigger] behind[i]),
    ensures
        ({
            let now = run(after(s, EventView::Message(Some(job))), behind);
            submit_share_view(now.ids, nonce, hash).payload["jobId"@] == JsonView::Text(
                assigned_job(job)->0,
            )
        }),
{
    let start = after(s, EventView::Message(Some(job)));
    law_job_is_kept(start, behind);
    law_share_members(run(start, behind).ids, nonce, hash);
}

/// No frame but `start_mining` depends on the threads: sessions that differ in these alone send
/// the same frames, but for the second of their greetings, and go through the same states.
pub proof fn law_only_the_start_names_threads(
    s: SessionView,
    threads: u32,
    events: Seq<EventView>,
)
    ensures
        ({
            let other = SessionView { threads, ..s };
            &&& run(other, events) == (SessionView { threads, ..run(s, events) })
            &&& transcript(other, events) == transcript(s, events)
            &&& greeting(other).len() == greeting(s).len() == 2
            &&& greeting(other)[0] == greeting(s)[0]
        }),
    decreases events.len(),
{
    if events.len() > 0 {
        law_only_the_start_names_threads(s, threads, events.drop_last());
    }
}

/// A miner that connects again goes by the miner id of its last session, and names it when it
/// starts; one that has none yet names none.
pub proof fn law_miner_id_is_named_on_reconnection(
    s: SessionView,
    events: Seq<EventView>,
    wallet: Seq<char>,
    threads: u32,
)
    ensures
        ({
            let ids = run(s, events).ids;
            let payload = start_mining_view(ids, wallet, threads).payload;
            match ids.miner_id {
                Some(id) => payload.contains_key("minerId"@) && payload["minerId"@]
                    == JsonView::Text(id),
                None => !payload.contains_key("minerId"@),
            }
        }),
{
    law_start_members(run(s, events).ids, wallet, threads);
}

/// While a session goes on and can send, every share that is due is submitted, whatever the pool
/// said before: in one frame, the `submit_share` of that share.
pub proof fn law_due_share_is_submitted(s: SessionView, nonce: u32, hash: Seq<char>)
    requires
        s.open,
        s.writable,
    ensures
        ({
            let sent = replies(s, EventView::ShareDue { nonce, hash });
            &&& sent.len() == 1
            &&& sent[0] == OutgoingView::Text(message_text(submit_share_view(s.ids, nonce, hash)))
        }),
{
}

/// While a session goes on and can send, every ping that is due is sent, whatever the pool said
/// before, and every ping frame is answered by a pong frame with the same data.
pub proof fn law_pings_are_sent_and_answered(s: SessionView, data: Seq<u8>)
    requires
        s.open,
        s.writable,
    ensures
        ({
            let sent = replies(s, EventView::PingDue);
            &&& sent.len() == 1
            &&& sent[0] == OutgoingView::Text(message_text(ping_view(s.ids)))
        }),
        ({
            let sent = replies(s, EventView::Ping(data));
            &&& sent.len() == 1
            &&& sent[0] == OutgoingView::Pong(data)
        }),
{
}

/// While a session goes on and can send, a shutdown sends two frames, whatever the pool said
/// before: `stop_mining`, and then that the device is offline.
pub proof fn law_shutdown_sends_two_frames(s: SessionView)
    requires
        s.open,
        s.writable,
    ensures
        ({
            let sent = replies(s, EventView::Shutdown);
            &&& sent.len() == 2
            &&& sent[0] == OutgoingView::Text(message_text(stop_mining_view(s.ids, s.wallet)))
            &&& sent[1] == OutgoingView::Text(message_text(status_view(s.ids, s.wallet, false)))
        }),
        ({
            let sent = farewell(s);
            &&& sent.len() == 2
            &&& sent[0] == OutgoingView::Text(message_text(stop_mining_view(s.ids, s.wallet)))
            &&& sent[1] == OutgoingView::Text(message_text(status_view(s.ids, s.wallet, false)))
        }),
{
}

/// Every session opens with two frames: that the device is online, and `start_mining`.
pub proof fn law_greeting_has_two_frames(s: SessionView)
    ensures
        greeting(s).len() == 2,
        greeting(s)[0] == OutgoingView::Text(message_text(status_view(s.ids, s.wallet, true))),
        greeting(s)[1] == OutgoingView::Text(
            message_text(start_mining_view(s.ids, s.wallet, s.threads)),
        ),
{
}

/// Nothing is sent because of any other event, nor by a session that is over or cannot send.
pub proof fn law_nothing_else_is_sent(s: SessionView, event: EventView)
    ensures
        !s.open || !s.writable || !(event is ShareDue || event is PingDue || event is Ping
            || event is Shutdown) ==> replies(s, event).len() == 0,
{
}

/// A message from the pool changes what the session holds as the message says, and neither ends the
/// session nor keeps it from sending.
pub proof fn law_message_changes_the_session(s: SessionView, message: JsonView)
    requires
        s.open,
    ensures
        ({
            let next = after(s, EventView::Message(Some(message)));
            let kind = message.get("type"@);
            &&& next.ids == ids_after(s.ids, message)
            &&& next.accepted == s.accepted + (if kind == Some(JsonView::Text("share_accepted"@)) {
                1int
            } else {
                0int
            })
            &&& next.rejected == s.rejected + (if kind == Some(JsonView::Text("share_rejected"@)) {
                1int
            } else {
                0int
            })
            &&& next.wallet == s.wallet && next.threads == s.threads && next.open && next.writable
                == s.writable
        }),
        after(s, EventView::Message(None)) == s,
{
    law_judged_shares_are_counted(message, s.accepted, s.rejected);
    assert(after(s, EventView::Message(None)) == s);
}

/// What is no message changes nothing but whether the session goes on and whether it can send. It
/// is over when the connection is, or at a shutdown; it cannot send once a frame could not be sent.
pub proof fn law_other_events_change_no_more(s: SessionView, event: EventView)
    requires
        s.open,
        event !is Message,
    ensures
        ({
            let next = after(s, event);
            &&& next.wallet == s.wallet && next.threads == s.threads && next.ids == s.ids
            &&& next.accepted == s.accepted && next.rejected == s.rejected
            &&& next.open <==> !(event is Close || event is ReadError || event is Ended || event
                is Shutdown)
            &&& next.writable <==> s.writable && event !is SendFailed
            &&& ends(event) <==> !next.open
        }),
{
}

/// A session that is over is changed by nothing.
pub proof fn law_closed_session_stays(s: SessionView, event: EventView)
    requires
        !s.open,
    ensures
        after(s, event) == s,
        replies(s, event).len() == 0,
{
}

/// Events are taken one after the other: each acts on what the ones before it left, and what it
/// sends goes behind what they sent.
pub proof fn law_events_are_taken_in_turn(s: SessionView, events: Seq<EventView>, event: EventView)
    ensures
        run(s, Seq::empty()) == s,
        transcript(s, Seq::empty()) == Seq::<OutgoingView>::empty(),
        run(s, events.push(event)) == after(run(s, events), event),
        transcript(s, events.push(event)) == transcript(s, events) + replies(
            run(s, events),
            event,
        ),
{
    assert(events.push(event).drop_last() == events);
}

/// A session that goes on and can send stays so until an event ends it or a frame cannot be sent.
proof fn lemma_session_stays_writable(s: SessionView, events: Seq<EventView>)
    requires
        s.open,
        s.writable,
        forall|i: int|
            0 <= i < events.len() ==> !ends(#[trigger] events[i]) && events[i] !is SendFailed,
    ensures
        run(s, events).open,
        run(s, events).writable,
    decreases events.len(),
{
    if events.len() > 0 {
        let before = events.drop_last();
        assert(forall|i: int| 0 <= i < before.len() ==> before[i] == events[i]);
        lemma_session_stays_writable(s, before);
        assert(events.last() == events[events.len() - 1]);
    }
}

/// Until a session ends or a frame cannot be sent, it sends one `submit_share` for every share that
/// is due: where the share is due, that frame and no other goes behind what was sent before.
pub proof fn law_every_due_share_is_submitted(
    s: SessionView,
    events: Seq<EventView>,
    nonce: u32,
    hash: Seq<char>,
)
    requires
        s.open,
        s.writable,
        forall|i: int|
            0 <= i < events.len() ==> !((#[trigger] events[i]) is Close || events[i] is ReadError
                || events[i] is Ended || events[i] is Shutdown || events[i] is SendFailed),
    ensures
        transcript(s, events.push(EventView::ShareDue { nonce, hash })) == transcript(
            s,
            events,
        ).push(
            OutgoingView::Text(message_text(submit_share_view(run(s, events).ids, nonce, hash))),
        ),
{
    lemma_session_stays_writable(s, events);
    law_events_are_taken_in_turn(s, events, EventView::ShareDue { nonce, hash });
    law_due_share_is_submitted(run(s, events), nonce, hash);
}

/// Until a session ends or a frame cannot be sent, it sends as many frames as shares and pings were
/// due and ping frames came.
pub proof fn law_frames_are_as_many_as_their_causes(s: SessionView, events: Seq<EventView>)
    requires
        s.open,
        s.writable,
        forall|i: int|
            0 <= i < events.len() ==> !((#[trigger] events[i]) is Close || events[i] is ReadError
                || events[i] is Ended || events[i] is Shutdown || events[i] is SendFailed),
    ensures
        transcript(s, events).len() == events.filter(
            |e: EventView| e is ShareDue || e is PingDue || e is Ping,
        ).len(),
    decreases events.len(),
{
    let causes = |e: EventView| e is ShareDue || e is PingDue || e is Ping;
    reveal(Seq::filter);
    if events.len() > 0 {
        let before = events.drop_last();
        assert(forall|i: int| 0 <= i < before.len() ==> before[i] == events[i]);
        law_frames_are_as_many_as_their_causes(s, before);
        lemma_session_stays_writable(s, before);
        assert(events.last() == events[events.len() - 1]);
    }
}

/// A ping is due every 30 seconds and a share every second, and a share's nonce is below a million.
pub proof fn law_intervals()
    ensures
        PING_SECONDS == 30,
        SHARE_SECONDS == 1,
        NONCE_LIMIT == 1_000_000,
{
}

/// A session, an event and a frame are the texts, numbers and bytes of their fields; a text frame
/// is what it reads as.
pub proof fn law_sessions_are_their_fields(session: Session, event: Event, frame: Outgoing)
    ensures
        session@ == (SessionView {
            wallet: session.wallet@,
            threads: session.threads,
            ids: session.ids@,
            accepted: session.tally.accepted as nat,
            rejected: session.tally.rejected as nat,
            open: session.open,
            writable: session.writable,
        }),
        match event {
            Event::PingDue => event@ == EventView::PingDue,
            Event::ShareDue(share) => event@ == (EventView::ShareDue {
                nonce: share.nonce,
                hash: share.hash@,
            }),
            Event::Text(text) => event@ == EventView::Message(parsed_json(text@)),
            Event::Binary => event@ == EventView::Binary,
            Event::Ping(data) => event@ == EventView::Ping(data@),
            Event::Pong => event@ == EventView::Pong,
            Event::Raw => event@ == EventView::Raw,
            Event::Close => event@ == EventView::Close,
            Event::ReadError => event@ == EventView::ReadError,
            Event::Ended => event@ == EventView::Ended,
            Event::SendFailed => event@ == EventView::SendFailed,
            Event::Shutdown => event@ == EventView::Shutdown,
        },
        match frame {
            Outgoing::Text(text) => frame@ == OutgoingView::Text(text@),
            Outgoing::Pong(data) => frame@ == OutgoingView::Pong(data@),
        },
{
}

/// Several frames are what each of them is, in their order.
pub proof fn law_frames_are_taken_one_by_one(send: Seq<Outgoing>)
    ensures
        frames(send).len() == send.len(),
        forall|i: int| 0 <= i < send.len() ==> #[trigger] frames(send)[i] == send[i]@,
{
}

} // verus!
